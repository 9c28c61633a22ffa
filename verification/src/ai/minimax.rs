//! The search agent: an exhaustive minimax over the game tree.

use crate::ai::game_tree::best_move;
use crate::ai::game_tree::child;
use crate::ai::game_tree::child_scores;
use crate::ai::game_tree::is_last_max;
use crate::ai::game_tree::is_terminal;
use crate::ai::game_tree::last_max_index;
use crate::ai::game_tree::lemma_last_max_index;
use crate::ai::game_tree::lemma_last_max_unique;
use crate::ai::game_tree::score;
use crate::ai::parallel::is_greatest;
use crate::ai::parallel::is_last_best;
use crate::ai::parallel::is_least;
use crate::ai::parallel::maps_to;
use crate::ai::parallel::par_map_max;
use crate::ai::parallel::par_map_max_by_score;
use crate::ai::parallel::par_map_min;
use crate::ai::play::lemma_score_bounds;
use crate::ai::traits::AIPlayer;
use crate::game::BoardState;
use crate::game::Player;
use crate::game::lemma_mark_closes_cell;
use crate::game::lemma_open_cells;
use crate::game::names_cells;
use crate::game::open_cells;
use vstd::pervasive::unreached;
use vstd::prelude::*;

verus! {

/// An agent that plays one side and searches the whole game tree for its
/// move.
pub struct MinimaxPlayer {
    pub player: Player,
}

impl MinimaxPlayer {
    /// The search agent that plays `ai_player`'s side.
    pub fn new(ai_player: Player) -> (agent: Self)
        ensures
            agent.player == ai_player,
    {
        Self { player: ai_player }
    }

    /// The board after the agent's move: the move that leads to the greatest
    /// value, and of several such moves the last in row-major order.
    pub fn get_best_move(&self, board: &BoardState) -> (best: BoardState)
        requires
            !is_terminal(board@),
        ensures
            0 <= best_move(self.player, board@) < 9,
            board@[best_move(self.player, board@)] is None,
            best@ == board@.update(best_move(self.player, board@), Some(self.player)),
    {
        proof {
            lemma_open_cells(board@);
            lemma_last_max_index(child_scores(self.player, board@, self.player));
        }
        let children = child_nodes(board, self.player);
        let scored = |node: &(BoardState, Player)| -> (pair: (BoardState, isize))
            ensures
                pair.0 == node.0,
                pair.1 == score(self.player, node.0@, node.1),
            { (node.0, self.minimax(&node.0, node.1)) };
        match par_map_max_by_score(&children, scored) {
            Some((best_board, _)) => {
                proof {
                    let values = child_scores(self.player, board@, self.player);
                    let (results, i) = choose|results: Seq<(BoardState, isize)>, i: int|
                        maps_to(scored, children@, results) && is_last_best(results, i)
                            && results[i].0 == best_board;
                    assert forall|j: int| 0 <= j < values.len() implies values[j]
                        == results[j].1 && results[j].0 == children@[j].0 by {
                        assert(call_ensures(scored, (&children@[j],), results[j]));
                    }
                    assert(is_last_max(values, i));
                    lemma_last_max_index(values);
                    lemma_last_max_unique(values, i, last_max_index(values));
                }
                best_board
            },
            None => unreached(),
        }
    }

    /// The value of the position for the agent's side when `current_turn` is
    /// to move and both sides play as well as they can: 1 for a win, 0 for a
    /// draw, -1 for a loss.
    pub fn minimax(&self, board: &BoardState, current_turn: Player) -> (value: isize)
        ensures
            value == score(self.player, board@, current_turn),
            -1 <= value <= 1,
        decreases open_cells(board@).len(),
    {
        proof {
            lemma_score_bounds(self.player, board@, current_turn);
        }
        if let Some(victor) = board.check_for_victor() {
            if victor == self.player {
                1
            } else {
                -1
            }
        } else if board.is_draw() {
            0
        } else {
            let children = child_nodes(board, current_turn);
            let value_of = |node: &(BoardState, Player)| -> (value: isize)
                requires
                    open_cells(node.0@).len() < open_cells(board@).len(),
                ensures
                    value == score(self.player, node.0@, node.1),
                { self.minimax(&node.0, node.1) };
            let ghost values = child_scores(self.player, board@, current_turn);
            if current_turn == self.player {
                match par_map_max(&children, value_of) {
                    Some(greatest) => {
                        proof {
                            let results = choose|results: Seq<isize>|
                                maps_to(value_of, children@, results) && is_greatest(
                                    results,
                                    greatest,
                                );
                            assert forall|i: int| 0 <= i < values.len() implies values[i]
                                == results[i] by {
                                assert(call_ensures(value_of, (&children@[i],), results[i]));
                            }
                            lemma_greatest_is_max(values, results, greatest);
                        }
                        greatest
                    },
                    None => unreached(),
                }
            } else {
                match par_map_min(&children, value_of) {
                    Some(least) => {
                        proof {
                            let results = choose|results: Seq<isize>|
                                maps_to(value_of, children@, results) && is_least(results, least);
                            assert forall|i: int| 0 <= i < values.len() implies values[i]
                                == results[i] by {
                                assert(call_ensures(value_of, (&children@[i],), results[i]));
                            }
                            lemma_least_is_min(values, results, least);
                        }
                        least
                    },
                    None => unreached(),
                }
            }
        }
    }
}

impl AIPlayer for MinimaxPlayer {
    /// The search agent moves while the game is not over.
    open spec fn can_move(&self, cells: Seq<Option<Player>>) -> bool {
        cells.len() == 9 && !is_terminal(cells)
    }

    proof fn lemma_can_move_until_over(&self, cells: Seq<Option<Player>>) {
    }

    /// The row and column of the search's move.
    fn get_next_move(&mut self, board_state: &BoardState) -> (next: (usize, usize))
        ensures
            3 * next.0 + next.1 == best_move(old(self).player, board_state@),
            *final(self) == *old(self),
    {
        let best_board = self.get_best_move(board_state);
        proof {
            lemma_open_cells(board_state@);
            lemma_last_max_index(child_scores(self.player, board_state@, self.player));
        }
        let ghost chosen = best_move(self.player, board_state@);
        for x in 0..3usize
            invariant
                *self == *old(self),
                chosen == best_move(self.player, board_state@),
                0 <= chosen < 9,
                board_state@[chosen] is None,
                best_board@ == board_state@.update(chosen, Some(self.player)),
                3 * x <= chosen,
        {
            for y in 0..3usize
                invariant
                    x < 3,
                    *self == *old(self),
                    chosen == best_move(self.player, board_state@),
                    0 <= chosen < 9,
                    board_state@[chosen] is None,
                    best_board@ == board_state@.update(chosen, Some(self.player)),
                    3 * x + y <= chosen,
            {
                assert(board_state@[3 * x + y] == board_state.board[x as int][y as int]);
                assert(best_board@[3 * x + y] == best_board.board[x as int][y as int]);
                if board_state.board[x][y] != best_board.board[x][y] {
                    return (x, y);
                }
            }
        }
        unreached()
    }
}

/// The greatest of the results is the maximum of the values they stand for.
proof fn lemma_greatest_is_max(values: Seq<int>, results: Seq<isize>, m: isize)
    requires
        values.len() == results.len(),
        forall|i: int| 0 <= i < values.len() ==> values[i] == results[i],
        is_greatest(results, m),
    ensures
        values.max() == m,
{
    values.max_ensures();
    let i = choose|i: int| 0 <= i < results.len() && results[i] == m;
    assert(values[i] == m);
    let j = choose|j: int| 0 <= j < values.len() && values[j] == values.max();
    assert(results[j] <= m);
}

/// The least of the results is the minimum of the values they stand for.
proof fn lemma_least_is_min(values: Seq<int>, results: Seq<isize>, m: isize)
    requires
        values.len() == results.len(),
        forall|i: int| 0 <= i < values.len() ==> values[i] == results[i],
        is_least(results, m),
    ensures
        values.min() == m,
{
    values.min_ensures();
    let i = choose|i: int| 0 <= i < results.len() && results[i] == m;
    assert(values[i] == m);
    let j = choose|j: int| 0 <= j < values.len() && values[j] == values.min();
    assert(results[j] >= m);
}

/// The positions one move away for `current_turn`, in the order of the open
/// cells, each with the player who moves next.
fn child_nodes(board: &BoardState, current_turn: Player) -> (children: Vec<(BoardState, Player)>)
    ensures
        children.len() == open_cells(board@).len(),
        forall|i: int|
            0 <= i < children.len() ==> {
                &&& (#[trigger] children[i]).0@ == child(board@, i, current_turn)
                &&& children[i].1 == current_turn.opponent()
                &&& open_cells(children[i].0@).len() < open_cells(board@).len()
            },
{
    let moves = board.get_open_cells();
    let mut children: Vec<(BoardState, Player)> = Vec::new();
    proof {
        lemma_open_cells(board@);
    }
    for i in 0..moves.len()
        invariant
            names_cells(moves@, open_cells(board@)),
            children.len() == i,
            forall|j: int|
                0 <= j < i ==> {
                    &&& (#[trigger] children[j]).0@ == child(board@, j, current_turn)
                    &&& children[j].1 == current_turn.opponent()
                    &&& open_cells(children[j].0@).len() < open_cells(board@).len()
                },
    {
        let mut next = *board;
        let (x, y) = moves[i];
        proof {
            lemma_open_cells(board@);
            lemma_mark_closes_cell(board@, open_cells(board@)[i as int], current_turn);
        }
        let valid = next.process_move(x, y, current_turn);
        assert(valid);
        children.push((next, current_turn.get_opp()));
    }
    children
}

} // verus!
