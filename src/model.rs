//! The game: its state, the events that drive it and the transition function
//! that applies one event and may hand back a follow-up event.

use crate::board::{random_below, Board, BoardView};
use vstd::prelude::*;

verus! {

/// Side length of the board.
pub const SIDE: usize = 2;

/// Number of holes on the board.
pub const CELLS: usize = 4;

/// Whacks that win the game, provided the misses stay under `LOSE_MISSES`.
pub const WIN_HITS: usize = 10;

/// Misses that lose the game.
pub const LOSE_MISSES: usize = 3;

/// The most events one chain may apply.
pub const MAX_CHAIN: usize = 16;

/// The four holes of the board, row by row.
#[derive(Debug, Clone, Copy, PartialEq, Eq, Structural)]
pub enum MoleCell {
    TopLeft,
    TopRight,
    BotLeft,
    BotRight,
}

/// Position of `c` on the board, row by row.
pub open spec fn cell_index(c: MoleCell) -> usize {
    match c {
        MoleCell::TopLeft => 0,
        MoleCell::TopRight => 1,
        MoleCell::BotLeft => 2,
        MoleCell::BotRight => 3,
    }
}

/// The hole at position `n`, if there is one.
pub open spec fn cell_at(n: usize) -> Option<MoleCell> {
    if n == 0 {
        Some(MoleCell::TopLeft)
    } else if n == 1 {
        Some(MoleCell::TopRight)
    } else if n == 2 {
        Some(MoleCell::BotLeft)
    } else if n == 3 {
        Some(MoleCell::BotRight)
    } else {
        None
    }
}

impl MoleCell {
    pub fn as_usize(&self) -> (r: usize)
        ensures
            r == cell_index(*self),
            r < CELLS,
    {
        match self {
            MoleCell::TopLeft => 0,
            MoleCell::TopRight => 1,
            MoleCell::BotLeft => 2,
            MoleCell::BotRight => 3,
        }
    }

    pub fn from_usize(n: usize) -> (r: Option<MoleCell>)
        ensures
            r == cell_at(n),
            r is Some <==> n < CELLS,
            r matches Some(c) ==> cell_index(c) == n,
    {
        match n {
            0 => Some(MoleCell::TopLeft),
            1 => Some(MoleCell::TopRight),
            2 => Some(MoleCell::BotLeft),
            3 => Some(MoleCell::BotRight),
            _ => None,
        }
    }
}

/// Where the game stands. `Game` carries the hole that holds the mole.
#[derive(Debug, Clone, Copy, PartialEq, Eq, Structural)]
pub enum State {
    Menu,
    Game(Option<MoleCell>),
    GameLose,
    GameWin,
    Exit,
}

/// What can happen to the game.
#[derive(Debug, Clone, Copy, PartialEq, Eq, Structural)]
pub enum Message {
    /// The player hits a hole.
    GameWhack(MoleCell),
    /// A mole appears in a hole drawn at random.
    GameGenerate,
    /// The mole that was hit leaves its hole.
    GameGenerateCleanup(MoleCell),
    /// A whack hit an empty hole.
    GameMiss,
    GameStart,
    GameLosing,
    GameWinning,
    /// Back from an end screen to the menu, with a fresh game.
    GameReset,
    Quit,
}

/// The abstract state of a game.
pub struct ModelView {
    pub board: BoardView,
    pub hits: usize,
    pub misses: usize,
    pub state: State,
}

pub struct Model {
    pub board: Board,
    /// Whacks made, hits and misses alike.
    pub hit_count: usize,
    pub miss_count: usize,
    pub state: State,
}

impl View for Model {
    type V = ModelView;

    open spec fn view(&self) -> ModelView {
        ModelView {
            board: self.board@,
            hits: self.hit_count,
            misses: self.miss_count,
            state: self.state,
        }
    }
}

/// `n + 1`, held at the largest `usize`.
pub open spec fn bump(n: usize) -> usize {
    if n < usize::MAX {
        (n + 1) as usize
    } else {
        n
    }
}

/// A game as it starts: an empty board, no whacks, the menu.
pub open spec fn fresh() -> ModelView {
    ModelView {
        board: BoardView { cells: Seq::new(CELLS as nat, |_i: int| false), last: None },
        hits: 0,
        misses: 0,
        state: State::Menu,
    }
}

/// The game after `msg`, and the follow-up event, where `pick` is the hole a
/// new mole goes to. Once exited, nothing changes. Events of play act only
/// while playing, the start only in the menu, the reset only on an end screen;
/// the game is won or lost only once the counts call for it.
pub open spec fn next(v: ModelView, msg: Message, pick: usize) -> (ModelView, Option<Message>) {
    let playing = v.state is Game;
    if v.state is Exit {
        (v, None)
    } else {
        match msg {
            Message::Quit => (ModelView { state: State::Exit, ..v }, None),
            Message::GameStart => if v.state is Menu {
                (ModelView { state: State::Game(None), ..v }, Some(Message::GameGenerate))
            } else {
                (v, None)
            },
            Message::GameReset => if v.state is GameWin || v.state is GameLose {
                (fresh(), None)
            } else {
                (v, None)
            },
            Message::GameWhack(c) => if playing {
                let h = bump(v.hits);
                (
                    ModelView { hits: h, ..v },
                    if h >= WIN_HITS && v.misses < LOSE_MISSES {
                        Some(Message::GameWinning)
                    } else if v.board.cells[cell_index(c) as int] {
                        Some(Message::GameGenerateCleanup(c))
                    } else {
                        Some(Message::GameMiss)
                    },
                )
            } else {
                (v, None)
            },
            Message::GameMiss => if playing {
                let m = bump(v.misses);
                (
                    ModelView { misses: m, ..v },
                    if m >= LOSE_MISSES {
                        Some(Message::GameLosing)
                    } else {
                        None
                    },
                )
            } else {
                (v, None)
            },
            Message::GameGenerate => if playing {
                (
                    ModelView {
                        board: BoardView {
                            cells: v.board.cells.update(pick as int, true),
                            last: v.board.last,
                        },
                        state: State::Game(cell_at(pick)),
                        ..v
                    },
                    None,
                )
            } else {
                (v, None)
            },
            Message::GameGenerateCleanup(c) => if playing {
                (
                    ModelView {
                        board: BoardView {
                            cells: v.board.cells.update(cell_index(c) as int, false),
                            last: v.board.last,
                        },
                        ..v
                    },
                    Some(Message::GameGenerate),
                )
            } else {
                (v, None)
            },
            Message::GameLosing => if playing && v.misses >= LOSE_MISSES {
                (ModelView { state: State::GameLose, ..v }, None)
            } else {
                (v, None)
            },
            Message::GameWinning => if playing && v.hits >= WIN_HITS && v.misses < LOSE_MISSES {
                (ModelView { state: State::GameWin, ..v }, None)
            } else {
                (v, None)
            },
        }
    }
}

impl Model {
    pub open spec fn wf(&self) -> bool {
        self.board.wf() && self.board.len == CELLS
    }

    /// A game in the menu, with an empty board and no whacks.
    pub fn new() -> (m: Model)
        ensures
            m.wf(),
            m@ == fresh(),
    {
        let board = Board::new(SIDE);
        assert(board@.cells =~= Seq::new(CELLS as nat, |_i: int| false));
        Model { board, hit_count: 0, miss_count: 0, state: State::Menu }
    }
}

/// Applies `msg`, with `pick` as the hole where a new mole goes, and returns
/// the follow-up event, if any.
pub fn update_with(model: &mut Model, msg: Message, pick: usize) -> (r: Option<Message>)
    requires
        old(model).wf(),
        pick < CELLS,
    ensures
        final(model).wf(),
        (final(model)@, r) == next(old(model)@, msg, pick),
{
    if matches!(model.state, State::Exit) {
        return None;
    }
    let playing = matches!(model.state, State::Game(_));
    match msg {
        Message::Quit => {
            model.state = State::Exit;
            None
        },
        Message::GameStart => {
            if matches!(model.state, State::Menu) {
                model.state = State::Game(None);
                Some(Message::GameGenerate)
            } else {
                None
            }
        },
        Message::GameReset => {
            if matches!(model.state, State::GameWin) || matches!(model.state, State::GameLose) {
                *model = Model::new();
            }
            None
        },
        Message::GameWhack(cell) => {
            if !playing {
                return None;
            }
            if model.hit_count < usize::MAX {
                model.hit_count = model.hit_count + 1;
            }
            if model.hit_count >= WIN_HITS && model.miss_count < LOSE_MISSES {
                return Some(Message::GameWinning);
            }
            if model.board.holes[cell.as_usize()] {
                Some(Message::GameGenerateCleanup(cell))
            } else {
                Some(Message::GameMiss)
            }
        },
        Message::GameMiss => {
            if !playing {
                return None;
            }
            if model.miss_count < usize::MAX {
                model.miss_count = model.miss_count + 1;
            }
            if model.miss_count >= LOSE_MISSES {
                Some(Message::GameLosing)
            } else {
                None
            }
        },
        Message::GameGenerate => {
            if playing {
                let _ = model.board.set_hole(pick, true);
                model.state = State::Game(MoleCell::from_usize(pick));
            }
            None
        },
        Message::GameGenerateCleanup(cell) => {
            if playing {
                let _ = model.board.set_hole(cell.as_usize(), false);
                Some(Message::GameGenerate)
            } else {
                None
            }
        },
        Message::GameLosing => {
            if playing && model.miss_count >= LOSE_MISSES {
                model.state = State::GameLose;
            }
            None
        },
        Message::GameWinning => {
            if playing && model.hit_count >= WIN_HITS && model.miss_count < LOSE_MISSES {
                model.state = State::GameWin;
            }
            None
        },
    }
}

/// Applies `msg` and returns the follow-up event, if any; a new mole goes to a
/// hole drawn uniformly at random.
pub fn update(model: &mut Model, msg: Message) -> (r: Option<Message>)
    requires
        old(model).wf(),
    ensures
        final(model).wf(),
        exists|pick: usize| pick < CELLS && (final(model)@, r) == next(old(model)@, msg, pick),
{
    let pick: usize = if matches!(msg, Message::GameGenerate) {
        random_below(CELLS)
    } else {
        0
    };
    update_with(model, msg, pick)
}


/// The game after applying `msg` and then each follow-up event in turn, one
/// entry of `picks` per event applied, and the event left once `picks` runs
/// out.
pub open spec fn run(v: ModelView, msg: Option<Message>, picks: Seq<usize>) -> (
    ModelView,
    Option<Message>,
)
    decreases picks.len(),
{
    match msg {
        None => (v, None),
        Some(m) => if picks.len() == 0 {
            (v, Some(m))
        } else {
            run(next(v, m, picks[0]).0, next(v, m, picks[0]).1, picks.drop_first())
        },
    }
}

proof fn lemma_run_push(v: ModelView, msg: Option<Message>, picks: Seq<usize>, p: usize)
    ensures
        run(v, msg, picks.push(p)) == (match run(v, msg, picks).1 {
            Some(m) => next(run(v, msg, picks).0, m, p),
            None => run(v, msg, picks),
        }),
    decreases picks.len(),
{
    match msg {
        None => {
            assert(run(v, msg, picks.push(p)) == (v, None::<Message>));
            assert(run(v, msg, picks) == (v, None::<Message>));
        },
        Some(m) => {
            if picks.len() > 0 {
                assert(picks.push(p).drop_first() =~= picks.drop_first().push(p));
                lemma_run_push(next(v, m, picks[0]).0, next(v, m, picks[0]).1, picks.drop_first(), p);
            } else {
                assert(picks.push(p).drop_first() =~= Seq::<usize>::empty());
                assert(run(v, msg, picks) == (v, msg));
                let w = next(v, m, p);
                assert(run(w.0, w.1, Seq::<usize>::empty()) == w);
            }
        },
    }
}

/// Applies `msg` and then each follow-up event until none comes, at most
/// `MAX_CHAIN` events in all. Returns the event left unapplied when the chain
/// was cut off there, `None` when it ended by itself.
pub fn dispatch(model: &mut Model, msg: Message) -> (rest: Option<Message>)
    requires
        old(model).wf(),
    ensures
        final(model).wf(),
        exists|picks: Seq<usize>|
            {
                &&& picks.len() <= MAX_CHAIN
                &&& forall|k: int| 0 <= k < picks.len() ==> #[trigger] picks[k] < CELLS
                &&& (final(model)@, rest) == run(old(model)@, Some(msg), picks)
                &&& rest is Some ==> picks.len() == MAX_CHAIN
            },
{
    let ghost start = model@;
    let ghost mut picks: Seq<usize> = Seq::empty();
    let mut current: Option<Message> = Some(msg);
    let mut applied: usize = 0;
    while applied < MAX_CHAIN && current.is_some()
        invariant
            model.wf(),
            applied <= MAX_CHAIN,
            picks.len() == applied,
            forall|k: int| 0 <= k < picks.len() ==> #[trigger] picks[k] < CELLS,
            (model@, current) == run(start, Some(msg), picks),
        decreases MAX_CHAIN - applied,
    {
        match current {
            None => {},
            Some(m) => {
                let ghost before = model@;
                let r = update(model, m);
                let ghost p = choose|pick: usize| pick < CELLS && (model@, r) == next(before, m, pick);
                proof {
                    lemma_run_push(start, Some(msg), picks, p);
                    picks = picks.push(p);
                }
                current = r;
                applied = applied + 1;
            },
        }
    }
    current
}


/// Whack and miss counts grow only while playing; the game is won only with
/// at least `WIN_HITS` whacks and fewer than `LOSE_MISSES` misses, and lost
/// only with at least `LOSE_MISSES` misses.
pub proof fn lemma_counts_and_outcomes(v: ModelView, msg: Message, pick: usize)
    ensures
        next(v, msg, pick).0.hits > v.hits ==> v.state is Game,
        next(v, msg, pick).0.misses > v.misses ==> v.state is Game,
        next(v, msg, pick).0.state is GameWin && !(v.state is GameWin) ==> next(v, msg, pick).0.hits
            >= WIN_HITS && next(v, msg, pick).0.misses < LOSE_MISSES,
        next(v, msg, pick).0.state is GameLose && !(v.state is GameLose) ==> next(v, msg, pick).0.misses
            >= LOSE_MISSES,
{
}

/// A quit from any state but the exit one ends the game at once, with the
/// rest of the game as it was and no event after it; once exited, no event
/// changes anything.
pub proof fn lemma_quit_ends(v: ModelView, picks: Seq<usize>, msg: Message, pick: usize)
    requires
        !(v.state is Exit),
        picks.len() > 0,
    ensures
        run(v, Some(Message::Quit), picks) == (ModelView { state: State::Exit, ..v }, None::<Message>),
        next(run(v, Some(Message::Quit), picks).0, msg, pick) == (run(v, Some(Message::Quit), picks).0, None::<Message>),
{
    let w = ModelView { state: State::Exit, ..v };
    assert(run(w, None, picks.drop_first()) == (w, None::<Message>));
}

/// A key press, as far as the game tells keys apart.
#[derive(Debug, Clone, Copy, PartialEq, Eq, Structural)]
pub enum Key {
    Char(char),
    Esc,
    Enter,
    Other,
}

/// The event a key press stands for in state `s`. In the menu, 'q' quits and
/// 'p' plays; while playing, Esc quits and 'q', 'w', 'a', 's' whack the four
/// holes row by row; on an end screen Enter goes back to the menu and Esc or
/// 'q' quits.
pub open spec fn key_message(s: State, key: Key) -> Option<Message> {
    match s {
        State::Menu => match key {
            Key::Char('q') => Some(Message::Quit),
            Key::Char('p') => Some(Message::GameStart),
            _ => None,
        },
        State::Game(_) => match key {
            Key::Esc => Some(Message::Quit),
            Key::Char('q') => Some(Message::GameWhack(MoleCell::TopLeft)),
            Key::Char('w') => Some(Message::GameWhack(MoleCell::TopRight)),
            Key::Char('a') => Some(Message::GameWhack(MoleCell::BotLeft)),
            Key::Char('s') => Some(Message::GameWhack(MoleCell::BotRight)),
            _ => None,
        },
        State::GameLose | State::GameWin => match key {
            Key::Enter => Some(Message::GameReset),
            Key::Esc | Key::Char('q') => Some(Message::Quit),
            _ => None,
        },
        State::Exit => None,
    }
}

/// The event that `key` stands for in the game's current state, if any.
pub fn handle_key(model: &Model, key: Key) -> (r: Option<Message>)
    ensures
        r == key_message(model.state, key),
{
    match model.state {
        State::Menu => match key {
            Key::Char('q') => Some(Message::Quit),
            Key::Char('p') => Some(Message::GameStart),
            _ => None,
        },
        State::Game(_) => match key {
            Key::Esc => Some(Message::Quit),
            Key::Char('q') => Some(Message::GameWhack(MoleCell::TopLeft)),
            Key::Char('w') => Some(Message::GameWhack(MoleCell::TopRight)),
            Key::Char('a') => Some(Message::GameWhack(MoleCell::BotLeft)),
            Key::Char('s') => Some(Message::GameWhack(MoleCell::BotRight)),
            _ => None,
        },
        State::GameLose | State::GameWin => match key {
            Key::Enter => Some(Message::GameReset),
            Key::Esc | Key::Char('q') => Some(Message::Quit),
            _ => None,
        },
        State::Exit => None,
    }
}

/// What the screen shows.
#[derive(Debug, Clone)]
pub enum Screen {
    /// The menu's prompt to start playing.
    Prompt,
    /// The board, side by side, row by row; a true flag marks a mole.
    Grid { side: usize, cells: Vec<bool> },
    /// The end screen of a won game, with the whack count.
    Won { hits: usize },
    /// The end screen of a lost game, with the whack and miss counts.
    Lost { hits: usize, misses: usize },
    /// Nothing: the game has exited.
    Closed,
}

/// What to draw for the game as it stands.
pub fn screen(model: &Model) -> (r: Screen)
    requires
        model.wf(),
    ensures
        model.state is Menu <==> r is Prompt,
        model.state is Game <==> r is Grid,
        model.state is Exit <==> r is Closed,
        r matches Screen::Grid { side, cells } ==> side == SIDE && cells@ == model.board@.cells,
        r matches Screen::Won { hits } ==> model.state is GameWin && hits == model.hit_count,
        r matches Screen::Lost { hits, misses } ==> model.state is GameLose && hits
            == model.hit_count && misses == model.miss_count,
        model.state is GameWin ==> r is Won,
        model.state is GameLose ==> r is Lost,
{
    match model.state {
        State::Menu => Screen::Prompt,
        State::Game(_) => {
            let mut cells: Vec<bool> = Vec::new();
            let mut i: usize = 0;
            while i < model.board.len
                invariant
                    model.wf(),
                    i <= model.board.len,
                    cells@ == model.board@.cells.subrange(0, i as int),
                decreases model.board.len - i,
            {
                cells.push(model.board.holes[i]);
                i = i + 1;
                assert(cells@ =~= model.board@.cells.subrange(0, i as int));
            }
            assert(cells@ =~= model.board@.cells);
            Screen::Grid { side: SIDE, cells }
        },
        State::GameWin => Screen::Won { hits: model.hit_count },
        State::GameLose => Screen::Lost { hits: model.hit_count, misses: model.miss_count },
        State::Exit => Screen::Closed,
    }
}

} // verus!
