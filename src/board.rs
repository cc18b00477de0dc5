//! The board: a square grid of holes, each either empty or holding a mole.

use rand::Rng;
use vstd::prelude::*;

verus! {

/// The abstract state of a board: one flag per hole, and the hole that was
/// toggled last, if it has not been cleared since.
pub struct BoardView {
    pub cells: Seq<bool>,
    pub last: Option<usize>,
}

/// `v` with the hole `i` flipped and recorded as the last one toggled; an index
/// outside the board leaves `v` as it is.
pub open spec fn toggled(v: BoardView, i: usize) -> BoardView {
    if i < v.cells.len() {
        BoardView { cells: v.cells.update(i as int, !v.cells[i as int]), last: Some(i) }
    } else {
        v
    }
}

/// `v` with the last toggled hole flipped back and forgotten; with no such
/// hole, `v` as it is.
pub open spec fn cleared(v: BoardView) -> BoardView {
    match v.last {
        Some(i) => BoardView { cells: toggled(v, i).cells, last: None },
        None => v,
    }
}

/// A hole index was at or beyond the number of holes.
#[derive(Debug, Clone, Copy, PartialEq, Eq, Structural)]
pub struct OutOfRange {
    pub index: usize,
}

pub struct Board {
    pub holes: Vec<bool>,
    pub prev_hole_idx: Option<usize>,
    /// The number of holes: the square of the side length.
    pub len: usize,
}

impl View for Board {
    type V = BoardView;

    open spec fn view(&self) -> BoardView {
        BoardView { cells: self.holes@, last: self.prev_hole_idx }
    }
}

/// Relies on rand's `thread_rng` and `Rng::gen_range`: a value in `0..n`, which
/// panics only on an empty range.
#[verifier::external_body]
pub(crate) fn random_below(n: usize) -> (r: usize)
    requires
        n > 0,
    ensures
        r < n,
{
    rand::thread_rng().gen_range(0..n)
}

impl Board {
    /// One flag per hole, and the last toggled hole, if any, is on the board.
    pub open spec fn wf(&self) -> bool {
        &&& self.holes@.len() == self.len
        &&& match self.prev_hole_idx {
            Some(i) => i < self.len,
            None => true,
        }
    }

    /// A board of `size` by `size` empty holes.
    pub fn new(size: usize) -> (b: Board)
        requires
            size * size <= usize::MAX,
        ensures
            b.wf(),
            b.len == size * size,
            b@.cells == Seq::new((size * size) as nat, |_i: int| false),
            b@.last is None,
    {
        let len: usize = size * size;
        let mut holes: Vec<bool> = Vec::with_capacity(len);
        let mut i: usize = 0;
        while i < len
            invariant
                i <= len,
                holes@ == Seq::new(i as nat, |_j: int| false),
            decreases len - i,
        {
            holes.push(false);
            i = i + 1;
            assert(holes@ =~= Seq::new(i as nat, |_j: int| false));
        }
        Board { holes, prev_hole_idx: None, len }
    }

    /// Whether hole `idx` holds a mole; `None` for an index off the board.
    pub fn get_hole(&self, idx: usize) -> (r: Option<bool>)
        requires
            self.wf(),
        ensures
            r == (if idx < self.len { Some(self@.cells[idx as int]) } else { None::<bool> }),
    {
        if idx >= self.len {
            None
        } else {
            Some(self.holes[idx])
        }
    }

    /// A mutable handle on hole `idx`; `None` for an index off the board.
    pub fn get_hole_mut(&mut self, idx: usize) -> (r: Option<&mut bool>)
        requires
            old(self).wf(),
        ensures
            idx < old(self).len <==> r is Some,
            match r {
                Some(h) => {
                    &&& *h == old(self)@.cells[idx as int]
                    &&& final(self).holes@ == old(self).holes@.update(idx as int, *final(h))
                    &&& final(self).prev_hole_idx == old(self).prev_hole_idx
                    &&& final(self).len == old(self).len
                },
                None => *final(self) == *old(self),
            },
    {
        if idx >= self.len {
            None
        } else {
            Some(&mut self.holes[idx])
        }
    }


    /// Puts `value` into hole `idx`; fails on an index off the board and then
    /// changes nothing.
    pub fn set_hole(&mut self, idx: usize, value: bool) -> (r: Result<(), OutOfRange>)
        requires
            old(self).wf(),
        ensures
            final(self).wf(),
            final(self).len == old(self).len,
            idx < old(self).len ==> r is Ok && final(self)@ == (BoardView {
                cells: old(self)@.cells.update(idx as int, value),
                last: old(self)@.last,
            }),
            idx >= old(self).len ==> r == Err::<(), OutOfRange>(OutOfRange { index: idx })
                && *final(self) == *old(self),
    {
        match self.get_hole_mut(idx) {
            Some(hole) => {
                *hole = value;
                Ok(())
            },
            None => Err(OutOfRange { index: idx }),
        }
    }

    /// Flips hole `idx` and records it as the last one toggled; fails on an
    /// index off the board and then changes nothing.
    pub fn toggle_hole(&mut self, idx: usize) -> (r: Result<(), OutOfRange>)
        requires
            old(self).wf(),
        ensures
            final(self).wf(),
            final(self).len == old(self).len,
            final(self)@ == toggled(old(self)@, idx),
            r == (if idx < old(self).len {
                Ok::<(), OutOfRange>(())
            } else {
                Err(OutOfRange { index: idx })
            }),
            idx >= old(self).len ==> *final(self) == *old(self),
    {
        match self.get_hole_mut(idx) {
            Some(hole) => {
                *hole = !*hole;
                self.prev_hole_idx = Some(idx);
                Ok(())
            },
            None => Err(OutOfRange { index: idx }),
        }
    }

    /// Flips one hole drawn uniformly at random and records it as the last one
    /// toggled. A board without holes stays as it is.
    pub fn toggle_random_hole(&mut self)
        requires
            old(self).wf(),
        ensures
            final(self).wf(),
            final(self).len == old(self).len,
            old(self).len == 0 ==> *final(self) == *old(self),
            old(self).len > 0 ==> match final(self).prev_hole_idx {
                Some(i) => i < old(self).len && final(self)@ == toggled(old(self)@, i),
                None => false,
            },
    {
        if self.len > 0 {
            let idx = random_below(self.len);
            let _ = self.toggle_hole(idx);
        }
    }

    /// Flips the last toggled hole back and forgets it; does nothing when no
    /// hole is recorded, so a second call in a row is a no-op.
    pub fn clean_prev_hole(&mut self)
        requires
            old(self).wf(),
        ensures
            final(self).wf(),
            final(self).len == old(self).len,
            final(self)@ == cleared(old(self)@),
    {
        if let Some(idx) = self.prev_hole_idx {
            let _ = self.toggle_hole(idx);
            self.prev_hole_idx = None;
        }
    }
}

/// Toggling the same hole twice gives back the holes as they were.
pub proof fn lemma_toggle_twice(b: Board, i: usize)
    requires
        b.wf(),
        i < b.len,
    ensures
        toggled(toggled(b@, i), i).cells == b@.cells,
{
    assert(toggled(toggled(b@, i), i).cells =~= b@.cells);
}

/// Clearing after a toggle of hole `i` gives back the holes as they were, with
/// no hole recorded; clearing once more changes nothing.
pub proof fn lemma_clear_after_toggle(b: Board, i: usize)
    requires
        b.wf(),
        i < b.len,
    ensures
        cleared(toggled(b@, i)) == (BoardView { cells: b@.cells, last: None }),
        cleared(cleared(toggled(b@, i))) == cleared(toggled(b@, i)),
{
    assert(cleared(toggled(b@, i)).cells =~= b@.cells);
}

/// Why a whack was refused.
#[derive(Debug, Clone, Copy, PartialEq, Eq, Structural)]
pub enum WhackError {
    /// The hole exists but holds no mole.
    EmptyHole(usize),
    /// The index is off the board.
    OutOfRange(usize),
}

pub struct Game {
    pub board: Board,
    /// The number of holes.
    pub len: usize,
}

impl Game {
    pub open spec fn wf(&self) -> bool {
        self.board.wf() && self.board.len == self.len
    }

    /// A game on a `len` by `len` board of empty holes.
    pub fn new(len: usize) -> (g: Game)
        requires
            len * len <= usize::MAX,
        ensures
            g.wf(),
            g.len == len * len,
            g.board@.cells == Seq::new((len * len) as nat, |_i: int| false),
            g.board@.last is None,
    {
        Game { board: Board::new(len), len: len * len }
    }

    /// Checks a whack at hole `idx`: it succeeds when the hole holds a mole,
    /// and fails on an empty hole or an index off the board. The game is left
    /// as it is.
    pub fn whack(&mut self, idx: usize) -> (r: Result<(), WhackError>)
        requires
            old(self).wf(),
        ensures
            *final(self) == *old(self),
            r == (if idx >= old(self).len {
                Err(WhackError::OutOfRange(idx))
            } else if old(self).board@.cells[idx as int] {
                Ok(())
            } else {
                Err(WhackError::EmptyHole(idx))
            }),
    {
        match self.board.get_hole(idx) {
            Some(hole) => {
                if hole {
                    Ok(())
                } else {
                    Err(WhackError::EmptyHole(idx))
                }
            },
            None => Err(WhackError::OutOfRange(idx)),
        }
    }
}

} // verus!
