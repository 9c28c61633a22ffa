//! What every agent offers: a move for the board in front of it.

use crate::ai::game_tree::is_terminal;
use crate::game::BoardState;
use crate::game::Player;
use vstd::prelude::*;

verus! {

/// An agent that chooses the next move on a board.
pub trait AIPlayer {
    /// The grids on which the agent can be asked for a move.
    spec fn can_move(&self, cells: Seq<Option<Player>>) -> bool;

    /// Every agent can be asked for a move while the game is not over.
    proof fn lemma_can_move_until_over(&self, cells: Seq<Option<Player>>)
        requires
            cells.len() == 9,
            !is_terminal(cells),
        ensures
            self.can_move(cells),
    ;

    /// The row and column of the cell that the agent marks next: an empty
    /// cell of the board.
    fn get_next_move(&mut self, board_state: &BoardState) -> (next: (usize, usize))
        requires
            old(self).can_move(board_state@),
        ensures
            next.0 < 3,
            next.1 < 3,
            board_state@[3 * next.0 + next.1] is None,
    ;
}

} // verus!
