//! The game tree of a grid and the value of a position under best play.

use crate::game::lemma_mark_closes_cell;
use crate::game::lemma_open_cells;
use crate::game::open_cells;
use crate::game::winner;
use crate::game::Player;
use vstd::prelude::*;

verus! {

/// The game is over: a line is complete or no cell is empty.
pub open spec fn is_terminal(cells: Seq<Option<Player>>) -> bool {
    winner(cells) is Some || open_cells(cells).len() == 0
}

/// The grid after `mover` has marked the `i`-th open cell.
pub open spec fn child(cells: Seq<Option<Player>>, i: int, mover: Player) -> Seq<Option<Player>> {
    cells.update(open_cells(cells)[i], Some(mover))
}

/// The value of a position for the player `ai` when `mover` is to move and
/// both sides play as well as they can: 1 if `ai` wins, -1 if the opponent
/// wins, 0 for a draw. On `ai`'s turn it is the greatest value among the
/// positions one move away, on the opponent's turn the least.
pub open spec fn score(ai: Player, cells: Seq<Option<Player>>, mover: Player) -> int
    decreases open_cells(cells).len(), 1nat,
{
    match winner(cells) {
        Some(victor) => if victor == ai {
            1
        } else {
            -1
        },
        None => if open_cells(cells).len() == 0 {
            0
        } else if mover == ai {
            child_scores(ai, cells, mover).max()
        } else {
            child_scores(ai, cells, mover).min()
        },
    }
}

/// The values of the positions that `mover` can move to, in the order of the
/// open cells.
pub open spec fn child_scores(ai: Player, cells: Seq<Option<Player>>, mover: Player) -> Seq<int>
    decreases open_cells(cells).len(), 0nat,
{
    Seq::new(
        open_cells(cells).len(),
        |i: int|
            if 0 <= i < open_cells(cells).len() {
                proof {
                    lemma_open_cells(cells);
                    lemma_mark_closes_cell(cells, open_cells(cells)[i], mover);
                }
                score(ai, child(cells, i, mover), mover.opponent())
            } else {
                0
            },
    )
}

/// Element `i` of `values` is the greatest, and it is the last one that is.
pub open spec fn is_last_max(values: Seq<int>, i: int) -> bool {
    &&& 0 <= i < values.len()
    &&& forall|j: int| 0 <= j < i ==> values[j] <= values[i]
    &&& forall|j: int| i < j < values.len() ==> values[j] < values[i]
}

/// The place of the last of the greatest elements of `values`.
pub open spec fn last_max_index(values: Seq<int>) -> int
    decreases values.len(),
{
    if values.len() <= 1 {
        0
    } else {
        let i = last_max_index(values.drop_last());
        if values.last() >= values[i] {
            values.len() - 1
        } else {
            i
        }
    }
}

/// `last_max_index` names the last of the greatest elements.
pub proof fn lemma_last_max_index(values: Seq<int>)
    requires
        values.len() > 0,
    ensures
        is_last_max(values, last_max_index(values)),
    decreases values.len(),
{
    if values.len() > 1 {
        let front = values.drop_last();
        lemma_last_max_index(front);
        assert forall|j: int| 0 <= j < front.len() implies front[j] == values[j] by {}
    }
}

/// Only one element is the last of the greatest.
pub proof fn lemma_last_max_unique(values: Seq<int>, i: int, j: int)
    requires
        is_last_max(values, i),
        is_last_max(values, j),
    ensures
        i == j,
{
    if i < j {
        assert(values[i] <= values[j]);
        assert(values[j] < values[i]);
    }
    if j < i {
        assert(values[j] <= values[i]);
        assert(values[i] < values[j]);
    }
}

/// The cell that the search marks for `ai` on a grid where the game is not
/// over: a cell whose marking leads to the greatest value, and of several
/// such cells the last in row-major order.
pub open spec fn best_move(ai: Player, cells: Seq<Option<Player>>) -> int {
    open_cells(cells)[last_max_index(child_scores(ai, cells, ai))]
}

} // verus!
