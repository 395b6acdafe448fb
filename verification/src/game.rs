//! A thin holder of the one board a session plays on.
use vstd::prelude::*;

use crate::board::Board;
use crate::board::Piece;
use crate::board::start_board;

verus! {

/// The game state: exactly the board. Legality reasoning lives in
/// `crate::logic`; the caller checks a move there before applying it here.
pub struct Game {
    board: Board,
}

impl View for Game {
    type V = Seq<Option<Piece>>;

    closed spec fn view(&self) -> Seq<Option<Piece>> {
        self.board@
    }
}

impl Game {
    pub open spec fn wf(&self) -> bool {
        self@.len() == 64
    }

    pub fn board(&self) -> (r: &Board)
        ensures
            r@ == self@,
    {
        &self.board
    }

    /// Apply a move without any legality check: the piece on `from` (or the
    /// absence of one) lands on `to`, and `from` is left empty.
    pub fn move_piece(&mut self, from: usize, to: usize)
        requires
            old(self).wf(),
            from < 64,
            to < 64,
        ensures
            final(self).wf(),
            final(self)@ == old(self)@.update(to as int, old(self)@[from as int]).update(
                from as int,
                Option::<Piece>::None,
            ),
    {
        self.board.move_piece(from, to);
    }
}

impl Default for Game {
    /// A fresh game on the standard initial position.
    fn default() -> (r: Game)
        ensures
            r.wf(),
            r@ == start_board(),
    {
        Game { board: Board::default() }
    }
}

} // verus!
