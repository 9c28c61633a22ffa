//! The random agent: any empty cell, chosen by chance.

use crate::ai::traits::AIPlayer;
use crate::game::lemma_open_cells;
use crate::game::open_cells;
use crate::game::BoardState;
use crate::game::Player;
use rand::rngs::ThreadRng;
use rand::Rng;
use vstd::prelude::*;

verus! {

/// The thread-local random number generator of the `rand` crate. Nothing is
/// known of its state.
#[verifier::external_type_specification]
#[verifier::external_body]
pub struct ExThreadRng(ThreadRng);

/// Calls `rand::thread_rng`, which hands out the generator of the current
/// thread.
///
/// Trusted: nothing is claimed of the generator.
#[verifier::external_body]
fn thread_rng() -> ThreadRng {
    rand::thread_rng()
}

/// Calls `Rng::gen_range` on the range from 0 up to, not including, `len`.
///
/// Trusted: the number drawn lies in that range. Which one it is depends on
/// chance. An empty range is left out: `gen_range` panics on it.
#[verifier::external_body]
fn random_index(rng: &mut ThreadRng, len: usize) -> (index: usize)
    requires
        len > 0,
    ensures
        index < len,
{
    rng.gen_range(0..len)
}

/// An agent that marks an empty cell chosen by chance.
pub struct RandPlayer {
    rng: ThreadRng,
}

impl RandPlayer {
    /// A random agent that draws from the current thread's generator.
    pub fn new() -> Self {
        let rng = thread_rng();
        Self { rng }
    }

    /// The row and column of the `index`-th empty cell of the board, counting
    /// from 0 in row-major order.
    pub fn open_cell_at(board_state: &BoardState, index: usize) -> (cell: (usize, usize))
        requires
            index < open_cells(board_state@).len(),
        ensures
            cell.0 < 3,
            cell.1 < 3,
            3 * cell.0 + cell.1 == open_cells(board_state@)[index as int],
    {
        let open_cells = board_state.get_open_cells();
        open_cells[index]
    }
}

impl AIPlayer for RandPlayer {
    /// The random agent moves wherever a cell is empty.
    open spec fn can_move(&self, cells: Seq<Option<Player>>) -> bool {
        open_cells(cells).len() > 0
    }

    proof fn lemma_can_move_until_over(&self, cells: Seq<Option<Player>>) {
    }

    /// The row and column of one of the empty cells; which one depends on
    /// chance.
    fn get_next_move(&mut self, board_state: &BoardState) -> (next: (usize, usize))
        ensures
            open_cells(board_state@).contains(3 * next.0 + next.1),
    {
        let count = board_state.get_open_cells().len();
        let index = random_index(&mut self.rng, count);
        let next = Self::open_cell_at(board_state, index);
        proof {
            lemma_open_cells(board_state@);
            assert(open_cells(board_state@)[index as int] == 3 * next.0 + next.1);
        }
        next
    }
}

} // verus!
