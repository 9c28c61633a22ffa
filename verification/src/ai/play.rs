//! What the search guarantees over a whole game.

use crate::ai::draw::lemma_empty_grid_is_not_lost;
use crate::ai::game_tree::best_move;
use crate::ai::game_tree::child;
use crate::ai::game_tree::child_scores;
use crate::ai::game_tree::is_terminal;
use crate::ai::game_tree::last_max_index;
use crate::ai::game_tree::lemma_last_max_index;
use crate::ai::game_tree::score;
use crate::game::empty_grid;
use crate::game::lemma_mark_closes_cell;
use crate::game::lemma_open_cells;
use crate::game::open_cells;
use crate::game::winner;
use crate::game::Player;
use vstd::prelude::*;

verus! {

/// The value of a position is 1, 0 or -1.
pub proof fn lemma_score_bounds(ai: Player, cells: Seq<Option<Player>>, mover: Player)
    ensures
        -1 <= score(ai, cells, mover) <= 1,
    decreases open_cells(cells).len(),
{
    if winner(cells) is None && open_cells(cells).len() > 0 {
        let values = child_scores(ai, cells, mover);
        lemma_open_cells(cells);
        assert forall|i: int| 0 <= i < values.len() implies -1 <= #[trigger] values[i] <= 1 by {
            lemma_mark_closes_cell(cells, open_cells(cells)[i], mover);
            lemma_score_bounds(ai, child(cells, i, mover), mover.opponent());
        }
        values.max_ensures();
        values.min_ensures();
    }
}

/// The game is zero-sum: what a position is worth to one side, it costs the
/// other.
pub proof fn lemma_score_is_zero_sum(ai: Player, cells: Seq<Option<Player>>, mover: Player)
    ensures
        score(ai.opponent(), cells, mover) == -score(ai, cells, mover),
    decreases open_cells(cells).len(),
{
    if winner(cells) is None && open_cells(cells).len() > 0 {
        let ours = child_scores(ai, cells, mover);
        let theirs = child_scores(ai.opponent(), cells, mover);
        lemma_open_cells(cells);
        assert forall|i: int| 0 <= i < ours.len() implies #[trigger] theirs[i] == -ours[i] by {
            lemma_mark_closes_cell(cells, open_cells(cells)[i], mover);
            lemma_score_is_zero_sum(ai, child(cells, i, mover), mover.opponent());
        }
        ours.max_ensures();
        ours.min_ensures();
        theirs.max_ensures();
        theirs.min_ensures();
        if mover == ai {
            let i = choose|i: int| 0 <= i < ours.len() && ours[i] == ours.max();
            let j = choose|j: int| 0 <= j < theirs.len() && theirs[j] == theirs.min();
            assert(theirs[i] == -ours[i]);
            assert(theirs[j] == -ours[j]);
        } else {
            let i = choose|i: int| 0 <= i < ours.len() && ours[i] == ours.min();
            let j = choose|j: int| 0 <= j < theirs.len() && theirs[j] == theirs.max();
            assert(theirs[i] == -ours[i]);
            assert(theirs[j] == -ours[j]);
        }
    }
}

/// The search's move goes to an empty cell of the grid.
pub proof fn lemma_best_move_is_open(ai: Player, cells: Seq<Option<Player>>)
    requires
        open_cells(cells).len() > 0,
    ensures
        0 <= best_move(ai, cells) < cells.len(),
        cells[best_move(ai, cells)] is None,
{
    lemma_open_cells(cells);
    lemma_last_max_index(child_scores(ai, cells, ai));
}

/// What its contract says of the search's move leaves one move only: two
/// moves that both meet it are the same.
pub proof fn lemma_search_is_deterministic(
    ai: Player,
    cells: Seq<Option<Player>>,
    first: (usize, usize),
    second: (usize, usize),
)
    requires
        first.0 < 3 && first.1 < 3,
        second.0 < 3 && second.1 < 3,
        3 * first.0 + first.1 == best_move(ai, cells),
        3 * second.0 + second.1 == best_move(ai, cells),
    ensures
        first == second,
{
}

/// The search's move keeps the value of the position: the position after it
/// is worth to the searching side what the position before it was.
pub proof fn lemma_best_move_keeps_value(ai: Player, cells: Seq<Option<Player>>)
    requires
        !is_terminal(cells),
    ensures
        score(ai, cells.update(best_move(ai, cells), Some(ai)), ai.opponent()) == score(
            ai,
            cells,
            ai,
        ),
{
    let values = child_scores(ai, cells, ai);
    lemma_last_max_index(values);
    values.max_ensures();
    let i = last_max_index(values);
    let j = choose|j: int| 0 <= j < values.len() && values[j] == values.max();
    assert(values[j] <= values[i]);
}

/// No move of the opponent lowers the value of the position for the
/// searching side.
pub proof fn lemma_reply_cannot_lower_value(ai: Player, cells: Seq<Option<Player>>, c: int)
    requires
        !is_terminal(cells),
        0 <= c < cells.len(),
        cells[c] is None,
    ensures
        score(ai, cells.update(c, Some(ai.opponent())), ai) >= score(ai, cells, ai.opponent()),
{
    let values = child_scores(ai, cells, ai.opponent());
    lemma_open_cells(cells);
    assert(open_cells(cells).contains(c));
    let i = choose|i: int| 0 <= i < open_cells(cells).len() && open_cells(cells)[i] == c;
    values.min_ensures();
    assert(values[i] == score(ai, child(cells, i, ai.opponent()), ai));
}

/// Where the value of a position is not negative, the opponent has not won.
pub proof fn lemma_not_lost(ai: Player, cells: Seq<Option<Player>>, mover: Player)
    requires
        score(ai, cells, mover) >= 0,
    ensures
        winner(cells) != Some(ai.opponent()),
{
}

/// The player to move after `t` moves of a game that `first` began.
pub open spec fn mover_at(first: Player, t: int) -> Player {
    if t % 2 == 0 {
        first
    } else {
        first.opponent()
    }
}

/// One turn of a game in which the search plays `ai`'s side: the game is
/// not over, and `mover` marks an empty cell: the search's choice where the
/// turn is `ai`'s, any empty cell where it is the opponent's.
pub open spec fn is_turn(
    ai: Player,
    mover: Player,
    before: Seq<Option<Player>>,
    after: Seq<Option<Player>>,
) -> bool {
    &&& !is_terminal(before)
    &&& if mover == ai {
        after == before.update(best_move(ai, before), Some(ai))
    } else {
        exists|c: int|
            0 <= c < before.len() && before[c] is None && after == before.update(
                c,
                Some(mover),
            )
    }
}

/// `grids` is the course of a game that `first` began and in which the
/// search plays `ai`'s side: each grid follows from the one before it by one
/// turn, the players taking turns.
pub open spec fn is_play(ai: Player, first: Player, grids: Seq<Seq<Option<Player>>>) -> bool {
    &&& grids.len() > 0
    &&& forall|t: int|
        0 <= t < grids.len() - 1 ==> is_turn(ai, mover_at(first, t), grids[t], #[trigger] grids[t
            + 1])
}

/// The search never gives a game away: however the opponent moves, the
/// value of the position for the searching side never falls below the value
/// at the start.
pub proof fn lemma_search_holds_value(
    ai: Player,
    first: Player,
    grids: Seq<Seq<Option<Player>>>,
    t: int,
)
    requires
        is_play(ai, first, grids),
        0 <= t < grids.len(),
    ensures
        score(ai, grids[t], mover_at(first, t)) >= score(ai, grids[0], first),
    decreases t,
{
    if t > 0 {
        lemma_search_holds_value(ai, first, grids, t - 1);
        let before = grids[t - 1];
        let mover = mover_at(first, t - 1);
        assert(is_turn(ai, mover, before, grids[t - 1 + 1]));
        assert(mover_at(first, t) == mover.opponent());
        if mover == ai {
            lemma_best_move_keeps_value(ai, before);
        } else {
            let c = choose|c: int|
                0 <= c < before.len() && before[c] is None && grids[t] == before.update(
                    c,
                    Some(mover),
                );
            lemma_reply_cannot_lower_value(ai, before, c);
        }
    }
}

/// The search never loses a game that is not lost at the start: in a game
/// that begins where the searching side has at least a draw, however the
/// opponent moves, no grid is won by the opponent.
pub proof fn lemma_search_never_loses(
    ai: Player,
    first: Player,
    grids: Seq<Seq<Option<Player>>>,
)
    requires
        is_play(ai, first, grids),
        score(ai, grids[0], first) >= 0,
    ensures
        forall|t: int| 0 <= t < grids.len() ==> winner(#[trigger] grids[t]) != Some(ai.opponent()),
{
    assert forall|t: int| 0 <= t < grids.len() implies winner(#[trigger] grids[t]) != Some(
        ai.opponent(),
    ) by {
        lemma_search_holds_value(ai, first, grids, t);
        lemma_not_lost(ai, grids[t], mover_at(first, t));
    }
}

/// With best play on both sides the game is a draw: whoever moves first,
/// the empty grid is worth 0 to either side.
pub proof fn lemma_empty_grid_is_a_draw(ai: Player, first: Player)
    ensures
        score(ai, empty_grid(), first) == 0,
{
    lemma_empty_grid_is_not_lost(ai, first);
    lemma_empty_grid_is_not_lost(ai.opponent(), first);
    lemma_score_is_zero_sum(ai, empty_grid(), first);
}

/// The search never loses a game that begins on the empty grid: whoever
/// moves first and however the opponent moves, no grid of the game is won by
/// the opponent.
pub proof fn lemma_search_never_loses_from_empty_grid(
    ai: Player,
    first: Player,
    grids: Seq<Seq<Option<Player>>>,
)
    requires
        is_play(ai, first, grids),
        grids[0] == empty_grid(),
    ensures
        forall|t: int| 0 <= t < grids.len() ==> winner(#[trigger] grids[t]) != Some(ai.opponent()),
{
    lemma_empty_grid_is_not_lost(ai, first);
    lemma_search_never_loses(ai, first, grids);
}

} // verus!
