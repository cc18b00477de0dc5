use whack::model::{
    dispatch, handle_key, screen, update_with, Key, Message, Model, MoleCell, Screen, State,
};

fn active_cell(model: &Model) -> MoleCell {
    match model.state {
        State::Game(Some(c)) => c,
        other => panic!("no mole in state {:?}", other),
    }
}

fn started() -> Model {
    let mut model = Model::new();
    assert_eq!(dispatch(&mut model, Message::GameStart), None);
    model
}

#[test]
fn cells_round_trip_through_indices() {
    let cells = [MoleCell::TopLeft, MoleCell::TopRight, MoleCell::BotLeft, MoleCell::BotRight];
    for (i, c) in cells.iter().enumerate() {
        assert_eq!(c.as_usize(), i);
        assert_eq!(MoleCell::from_usize(i), Some(*c));
    }
    assert_eq!(MoleCell::from_usize(4), None);
}

#[test]
fn ten_hits_win() {
    let mut model = started();
    for _ in 0..10 {
        let c = active_cell(&model);
        assert_eq!(dispatch(&mut model, Message::GameWhack(c)), None);
    }
    assert_eq!(model.state, State::GameWin);
    assert_eq!(model.miss_count, 0);
    assert_eq!(model.hit_count, 10);
}

#[test]
fn three_misses_lose() {
    let mut model = started();
    let active = active_cell(&model).as_usize();
    let miss = MoleCell::from_usize((active + 1) % 4).unwrap();
    for k in 1..=3 {
        dispatch(&mut model, Message::GameWhack(miss));
        assert_eq!(model.miss_count, k);
    }
    assert_eq!(model.state, State::GameLose);
    assert_eq!(model.hit_count, 3);
}

#[test]
fn key_p_in_menu_starts_with_one_mole() {
    let mut model = Model::new();
    let msg = handle_key(&model, Key::Char('p'));
    assert_eq!(msg, Some(Message::GameStart));
    assert_eq!(dispatch(&mut model, msg.unwrap()), None);
    let c = active_cell(&model);
    let active: Vec<usize> = (0..4).filter(|&i| model.board.holes[i]).collect();
    assert_eq!(active, vec![c.as_usize()]);
}

#[test]
fn quit_exits_from_every_other_state() {
    let mut menu = Model::new();
    let mut playing = started();
    let mut won = started();
    won.hit_count = 9;
    let c = active_cell(&won);
    dispatch(&mut won, Message::GameWhack(c));
    assert_eq!(won.state, State::GameWin);
    let mut lost = started();
    lost.miss_count = 2;
    let c = MoleCell::from_usize((active_cell(&lost).as_usize() + 1) % 4).unwrap();
    dispatch(&mut lost, Message::GameWhack(c));
    assert_eq!(lost.state, State::GameLose);
    for model in [&mut menu, &mut playing, &mut won, &mut lost] {
        let holes = model.board.holes.clone();
        let (hits, misses) = (model.hit_count, model.miss_count);
        assert_eq!(dispatch(model, Message::Quit), None);
        assert_eq!(model.state, State::Exit);
        assert_eq!(model.board.holes, holes);
        assert_eq!((model.hit_count, model.miss_count), (hits, misses));
        assert_eq!(dispatch(model, Message::GameStart), None);
        assert_eq!(dispatch(model, Message::GameWhack(MoleCell::TopLeft)), None);
        assert_eq!(model.state, State::Exit);
        assert_eq!((model.hit_count, model.miss_count), (hits, misses));
        assert_eq!(handle_key(model, Key::Char('p')), None);
    }
}

#[test]
fn update_with_places_mole_at_pick() {
    let mut model = Model::new();
    assert_eq!(update_with(&mut model, Message::GameStart, 0), Some(Message::GameGenerate));
    assert_eq!(model.state, State::Game(None));
    assert_eq!(update_with(&mut model, Message::GameGenerate, 2), None);
    assert_eq!(model.state, State::Game(Some(MoleCell::BotLeft)));
    assert_eq!(model.board.holes, vec![false, false, true, false]);
}

#[test]
fn update_with_hit_cleans_up_and_regenerates() {
    let mut model = Model::new();
    update_with(&mut model, Message::GameStart, 0);
    update_with(&mut model, Message::GameGenerate, 3);
    let r = update_with(&mut model, Message::GameWhack(MoleCell::BotRight), 0);
    assert_eq!(r, Some(Message::GameGenerateCleanup(MoleCell::BotRight)));
    assert_eq!(model.hit_count, 1);
    let r = update_with(&mut model, Message::GameGenerateCleanup(MoleCell::BotRight), 0);
    assert_eq!(r, Some(Message::GameGenerate));
    assert_eq!(model.board.holes, vec![false; 4]);
    assert_eq!(update_with(&mut model, Message::GameGenerate, 1), None);
    assert_eq!(model.board.holes, vec![false, true, false, false]);
    assert_eq!(model.state, State::Game(Some(MoleCell::TopRight)));
}

#[test]
fn update_with_miss_counts_then_loses() {
    let mut model = Model::new();
    update_with(&mut model, Message::GameStart, 0);
    update_with(&mut model, Message::GameGenerate, 0);
    let r = update_with(&mut model, Message::GameWhack(MoleCell::TopRight), 0);
    assert_eq!(r, Some(Message::GameMiss));
    assert_eq!(update_with(&mut model, Message::GameMiss, 0), None);
    assert_eq!(update_with(&mut model, Message::GameMiss, 0), None);
    assert_eq!(update_with(&mut model, Message::GameMiss, 0), Some(Message::GameLosing));
    assert_eq!(model.miss_count, 3);
    assert_eq!(update_with(&mut model, Message::GameLosing, 0), None);
    assert_eq!(model.state, State::GameLose);
}

#[test]
fn outcomes_need_their_counts() {
    let mut model = Model::new();
    update_with(&mut model, Message::GameStart, 0);
    assert_eq!(update_with(&mut model, Message::GameWinning, 0), None);
    assert_eq!(update_with(&mut model, Message::GameLosing, 0), None);
    assert_eq!(model.state, State::Game(None));
}

#[test]
fn play_events_are_ignored_outside_play() {
    let mut model = Model::new();
    assert_eq!(update_with(&mut model, Message::GameWhack(MoleCell::TopLeft), 0), None);
    assert_eq!(update_with(&mut model, Message::GameMiss, 0), None);
    assert_eq!(update_with(&mut model, Message::GameGenerate, 1), None);
    assert_eq!(update_with(&mut model, Message::GameReset, 0), None);
    assert_eq!(model.state, State::Menu);
    assert_eq!((model.hit_count, model.miss_count), (0, 0));
    assert_eq!(model.board.holes, vec![false; 4]);
}

#[test]
fn reset_from_end_screen_gives_fresh_menu() {
    let mut model = started();
    model.miss_count = 2;
    let c = MoleCell::from_usize((active_cell(&model).as_usize() + 1) % 4).unwrap();
    dispatch(&mut model, Message::GameWhack(c));
    assert_eq!(model.state, State::GameLose);
    let msg = handle_key(&model, Key::Enter).unwrap();
    assert_eq!(msg, Message::GameReset);
    assert_eq!(dispatch(&mut model, msg), None);
    assert_eq!(model.state, State::Menu);
    assert_eq!((model.hit_count, model.miss_count), (0, 0));
    assert_eq!(model.board.holes, vec![false; 4]);
}

#[test]
fn keys_map_by_state() {
    let mut model = Model::new();
    assert_eq!(handle_key(&model, Key::Char('q')), Some(Message::Quit));
    assert_eq!(handle_key(&model, Key::Char('x')), None);
    assert_eq!(handle_key(&model, Key::Esc), None);
    model.state = State::Game(None);
    assert_eq!(handle_key(&model, Key::Esc), Some(Message::Quit));
    assert_eq!(handle_key(&model, Key::Char('q')), Some(Message::GameWhack(MoleCell::TopLeft)));
    assert_eq!(handle_key(&model, Key::Char('w')), Some(Message::GameWhack(MoleCell::TopRight)));
    assert_eq!(handle_key(&model, Key::Char('a')), Some(Message::GameWhack(MoleCell::BotLeft)));
    assert_eq!(handle_key(&model, Key::Char('s')), Some(Message::GameWhack(MoleCell::BotRight)));
    assert_eq!(handle_key(&model, Key::Char('p')), None);
    assert_eq!(handle_key(&model, Key::Other), None);
    model.state = State::GameWin;
    assert_eq!(handle_key(&model, Key::Enter), Some(Message::GameReset));
    assert_eq!(handle_key(&model, Key::Char('q')), Some(Message::Quit));
    assert_eq!(handle_key(&model, Key::Char('w')), None);
}

#[test]
fn screen_follows_state() {
    let mut model = Model::new();
    assert!(matches!(screen(&model), Screen::Prompt));
    update_with(&mut model, Message::GameStart, 0);
    update_with(&mut model, Message::GameGenerate, 1);
    match screen(&model) {
        Screen::Grid { side, cells } => {
            assert_eq!(side, 2);
            assert_eq!(cells, vec![false, true, false, false]);
        }
        other => panic!("unexpected screen {:?}", other),
    }
    model.hit_count = 10;
    update_with(&mut model, Message::GameWinning, 0);
    assert!(matches!(screen(&model), Screen::Won { hits: 10 }));
    model.state = State::GameLose;
    model.miss_count = 3;
    assert!(matches!(screen(&model), Screen::Lost { hits: 10, misses: 3 }));
    update_with(&mut model, Message::Quit, 0);
    assert!(matches!(screen(&model), Screen::Closed));
}
