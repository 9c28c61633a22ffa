//! Nobody can be forced to lose from the empty grid.
//!
//! The proof looks at the nine cells side by side. `holds` says that a side
//! can keep the opponent from winning; a position that a side holds is worth
//! a draw at least to it. One answer is named to the opponent's opening in a
//! corner, one to that in the middle of a side and one to that in the centre;
//! for the own opening in the centre, one answer to a reply in a corner and
//! one to a reply in the middle of a side. From there on `holds` is unfolded
//! to the end of the game. The other openings follow by turning the grid.

use crate::ai::game_tree::child;
use crate::ai::game_tree::child_scores;
use crate::ai::game_tree::score;
use crate::game::empty_grid;
use crate::game::lemma_open_cells;
use crate::game::open_cells;
use crate::game::winner;
use crate::game::Player;
use vstd::prelude::*;

verus! {

/// The nine cells of a grid side by side, in row-major order.
struct Nine {
    c0: Option<Player>,
    c1: Option<Player>,
    c2: Option<Player>,
    c3: Option<Player>,
    c4: Option<Player>,
    c5: Option<Player>,
    c6: Option<Player>,
    c7: Option<Player>,
    c8: Option<Player>,
}

impl Nine {
    /// The nine cells as a grid.
    spec fn grid(self) -> Seq<Option<Player>> {
        seq![self.c0, self.c1, self.c2, self.c3, self.c4, self.c5, self.c6, self.c7, self.c8]
    }

    /// The nine cells with cell `k` replaced.
    spec fn with(self, k: int, cell: Option<Player>) -> Nine {
        if k == 0 {
            Nine { c0: cell, ..self }
        } else if k == 1 {
            Nine { c1: cell, ..self }
        } else if k == 2 {
            Nine { c2: cell, ..self }
        } else if k == 3 {
            Nine { c3: cell, ..self }
        } else if k == 4 {
            Nine { c4: cell, ..self }
        } else if k == 5 {
            Nine { c5: cell, ..self }
        } else if k == 6 {
            Nine { c6: cell, ..self }
        } else if k == 7 {
            Nine { c7: cell, ..self }
        } else {
            Nine { c8: cell, ..self }
        }
    }

    /// `player` owns a complete line.
    spec fn has_line(self, player: Player) -> bool {
        let p = Some(player);
        ||| self.c0 == p && self.c1 == p && self.c2 == p
        ||| self.c3 == p && self.c4 == p && self.c5 == p
        ||| self.c6 == p && self.c7 == p && self.c8 == p
        ||| self.c0 == p && self.c3 == p && self.c6 == p
        ||| self.c1 == p && self.c4 == p && self.c7 == p
        ||| self.c2 == p && self.c5 == p && self.c8 == p
        ||| self.c0 == p && self.c4 == p && self.c8 == p
        ||| self.c2 == p && self.c4 == p && self.c6 == p
    }

    /// The game is over: a line is complete or no cell is empty.
    spec fn is_over(self) -> bool {
        self.has_line(Player::X) || self.has_line(Player::O) || self.is_full()
    }

    /// The cells after a quarter turn of the grid to the right.
    spec fn turned(self) -> Nine {
        Nine {
            c0: self.c6,
            c1: self.c3,
            c2: self.c0,
            c3: self.c7,
            c4: self.c4,
            c5: self.c1,
            c6: self.c8,
            c7: self.c5,
            c8: self.c2,
        }
    }

    /// No cell is empty.
    spec fn is_full(self) -> bool {
        self.c0 is Some && self.c1 is Some && self.c2 is Some && self.c3 is Some && self.c4 is Some
            && self.c5 is Some && self.c6 is Some && self.c7 is Some && self.c8 is Some
    }

    /// The number of empty cells.
    spec fn spaces(self) -> nat {
        space(self.c0) + space(self.c1) + space(self.c2) + space(self.c3) + space(self.c4) + space(
            self.c5,
        ) + space(self.c6) + space(self.c7) + space(self.c8)
    }
}

/// 1 for an empty cell, 0 for a marked one.
spec fn space(cell: Option<Player>) -> nat {
    if cell is None {
        1
    } else {
        0
    }
}

/// The nine empty cells.
spec fn nine_empty() -> Nine {
    Nine {
        c0: None,
        c1: None,
        c2: None,
        c3: None,
        c4: None,
        c5: None,
        c6: None,
        c7: None,
        c8: None,
    }
}

/// `ai` can hold the position with `mover` to move: the opponent has no
/// line, and if the game is not over, then on `ai`'s turn some move leads to
/// a position that `ai` can hold, and on the opponent's turn every move does.
spec fn holds(ai: Player, n: Nine, mover: Player) -> bool
    decreases n.spaces(),
{
    let m = Some(mover);
    let o = mover.opponent();
    if n.has_line(ai.opponent()) {
        false
    } else if n.has_line(ai) || n.is_full() {
        true
    } else if mover == ai {
        ||| n.c0 is None && holds(ai, Nine { c0: m, ..n }, o)
        ||| n.c1 is None && holds(ai, Nine { c1: m, ..n }, o)
        ||| n.c2 is None && holds(ai, Nine { c2: m, ..n }, o)
        ||| n.c3 is None && holds(ai, Nine { c3: m, ..n }, o)
        ||| n.c4 is None && holds(ai, Nine { c4: m, ..n }, o)
        ||| n.c5 is None && holds(ai, Nine { c5: m, ..n }, o)
        ||| n.c6 is None && holds(ai, Nine { c6: m, ..n }, o)
        ||| n.c7 is None && holds(ai, Nine { c7: m, ..n }, o)
        ||| n.c8 is None && holds(ai, Nine { c8: m, ..n }, o)
    } else {
        &&& n.c0 is None ==> holds(ai, Nine { c0: m, ..n }, o)
        &&& n.c1 is None ==> holds(ai, Nine { c1: m, ..n }, o)
        &&& n.c2 is None ==> holds(ai, Nine { c2: m, ..n }, o)
        &&& n.c3 is None ==> holds(ai, Nine { c3: m, ..n }, o)
        &&& n.c4 is None ==> holds(ai, Nine { c4: m, ..n }, o)
        &&& n.c5 is None ==> holds(ai, Nine { c5: m, ..n }, o)
        &&& n.c6 is None ==> holds(ai, Nine { c6: m, ..n }, o)
        &&& n.c7 is None ==> holds(ai, Nine { c7: m, ..n }, o)
        &&& n.c8 is None ==> holds(ai, Nine { c8: m, ..n }, o)
    }
}

/// The nine cells and their grid hold the same marks.
proof fn lemma_grid_cells(n: Nine)
    ensures
        n.grid().len() == 9,
        n.grid()[0] == n.c0,
        n.grid()[1] == n.c1,
        n.grid()[2] == n.c2,
        n.grid()[3] == n.c3,
        n.grid()[4] == n.c4,
        n.grid()[5] == n.c5,
        n.grid()[6] == n.c6,
        n.grid()[7] == n.c7,
        n.grid()[8] == n.c8,
{
}

/// The nine cells have the winner and the open cells of their grid.
proof fn lemma_grid_state(n: Nine)
    ensures
        forall|player: Player| winner(n.grid()) == Some(player) ==> n.has_line(player),
        winner(n.grid()) is None ==> !n.has_line(Player::X) && !n.has_line(Player::O),
        n.is_full() <==> open_cells(n.grid()).len() == 0,
{
    let g = n.grid();
    lemma_grid_cells(n);
    lemma_open_cells(g);
    if open_cells(g).len() > 0 {
        let k = open_cells(g)[0];
        assert(g[k] is None);
    }
    if !n.is_full() {
        let k = if n.c0 is None {
            0int
        } else if n.c1 is None {
            1
        } else if n.c2 is None {
            2
        } else if n.c3 is None {
            3
        } else if n.c4 is None {
            4
        } else if n.c5 is None {
            5
        } else if n.c6 is None {
            6
        } else if n.c7 is None {
            7
        } else {
            8
        };
        assert(g[k] is None);
        assert(open_cells(g).contains(k));
    }
}

/// Replacing a cell of the nine replaces it in their grid; a mark in an
/// empty cell leaves one empty cell fewer.
proof fn lemma_grid_with(n: Nine, k: int, player: Player)
    requires
        0 <= k < 9,
    ensures
        n.with(k, Some(player)).grid() == n.grid().update(k, Some(player)),
        n.grid()[k] is None ==> n.with(k, Some(player)).spaces() + 1 == n.spaces(),
{
    lemma_grid_cells(n);
    lemma_grid_cells(n.with(k, Some(player)));
    assert(n.with(k, Some(player)).grid() =~= n.grid().update(k, Some(player)));
}

/// What `holds` asks of the move to cell `k`.
spec fn holds_move(ai: Player, n: Nine, mover: Player, k: int) -> bool {
    n.grid()[k] is None && holds(ai, n.with(k, Some(mover)), mover.opponent())
}

/// On a grid where the game is not over, `holds` asks for one good move on
/// `ai`'s turn and for every move to be good on the opponent's.
proof fn lemma_holds_unfolded(ai: Player, n: Nine, mover: Player)
    requires
        !n.is_over(),
    ensures
        mover == ai ==> (holds(ai, n, mover) <==> exists|k: int|
            0 <= k < 9 && holds_move(ai, n, mover, k)),
        mover != ai ==> (holds(ai, n, mover) <==> forall|k: int|
            0 <= k < 9 && n.grid()[k] is None ==> holds_move(ai, n, mover, k)),
{
    lemma_grid_cells(n);
    let m = Some(mover);
    assert(n.with(0, m) == Nine { c0: m, ..n });
    assert(n.with(1, m) == Nine { c1: m, ..n });
    assert(n.with(2, m) == Nine { c2: m, ..n });
    assert(n.with(3, m) == Nine { c3: m, ..n });
    assert(n.with(4, m) == Nine { c4: m, ..n });
    assert(n.with(5, m) == Nine { c5: m, ..n });
    assert(n.with(6, m) == Nine { c6: m, ..n });
    assert(n.with(7, m) == Nine { c7: m, ..n });
    assert(n.with(8, m) == Nine { c8: m, ..n });
    if mover == ai {
        if holds(ai, n, mover) {
            let k = if holds_move(ai, n, mover, 0) {
                0int
            } else if holds_move(ai, n, mover, 1) {
                1
            } else if holds_move(ai, n, mover, 2) {
                2
            } else if holds_move(ai, n, mover, 3) {
                3
            } else if holds_move(ai, n, mover, 4) {
                4
            } else if holds_move(ai, n, mover, 5) {
                5
            } else if holds_move(ai, n, mover, 6) {
                6
            } else if holds_move(ai, n, mover, 7) {
                7
            } else {
                8
            };
            assert(holds_move(ai, n, mover, k));
        }
    } else {
        if holds(ai, n, mover) {
            assert forall|k: int| 0 <= k < 9 && n.grid()[k] is None implies holds_move(
                ai,
                n,
                mover,
                k,
            ) by {}
        } else {
            assert({
                ||| n.c0 is None && !holds_move(ai, n, mover, 0)
                ||| n.c1 is None && !holds_move(ai, n, mover, 1)
                ||| n.c2 is None && !holds_move(ai, n, mover, 2)
                ||| n.c3 is None && !holds_move(ai, n, mover, 3)
                ||| n.c4 is None && !holds_move(ai, n, mover, 4)
                ||| n.c5 is None && !holds_move(ai, n, mover, 5)
                ||| n.c6 is None && !holds_move(ai, n, mover, 6)
                ||| n.c7 is None && !holds_move(ai, n, mover, 7)
                ||| n.c8 is None && !holds_move(ai, n, mover, 8)
            });
        }
    }
}

/// A position that `ai` can hold is worth a draw at least.
proof fn lemma_held_is_not_lost(ai: Player, n: Nine, mover: Player)
    requires
        holds(ai, n, mover),
    ensures
        score(ai, n.grid(), mover) >= 0,
    decreases n.spaces(),
{
    let g = n.grid();
    let o = mover.opponent();
    lemma_grid_state(n);
    if !n.is_over() {
        lemma_holds_unfolded(ai, n, mover);
        lemma_open_cells(g);
        let values = child_scores(ai, g, mover);
        if mover == ai {
            let k = choose|k: int| 0 <= k < 9 && holds_move(ai, n, mover, k);
            lemma_grid_with(n, k, mover);
            lemma_held_is_not_lost(ai, n.with(k, Some(mover)), o);
            assert(open_cells(g).contains(k));
            let i = choose|i: int| 0 <= i < open_cells(g).len() && open_cells(g)[i] == k;
            assert(values[i] == score(ai, child(g, i, mover), o));
            values.max_ensures();
        } else {
            values.min_ensures();
            let i = choose|i: int| 0 <= i < values.len() && values[i] == values.min();
            let k = open_cells(g)[i];
            assert(values[i] == score(ai, child(g, i, mover), o));
            assert(holds_move(ai, n, mover, k));
            lemma_grid_with(n, k, mover);
            lemma_held_is_not_lost(ai, n.with(k, Some(mover)), o);
        }
    }
}

/// Where a cell lies after a quarter turn of the grid to the right.
spec fn turn(k: int) -> int {
    if k == 0 {
        2
    } else if k == 1 {
        5
    } else if k == 2 {
        8
    } else if k == 3 {
        1
    } else if k == 4 {
        4
    } else if k == 5 {
        7
    } else if k == 6 {
        0
    } else if k == 7 {
        3
    } else {
        6
    }
}

/// A quarter turn takes lines to lines, cells to cells and a mark in cell
/// `k` to a mark in cell `turn(k)`.
proof fn lemma_turned(n: Nine, k: int, cell: Option<Player>)
    requires
        0 <= k < 9,
    ensures
        n.turned().has_line(Player::X) == n.has_line(Player::X),
        n.turned().has_line(Player::O) == n.has_line(Player::O),
        n.turned().is_full() == n.is_full(),
        0 <= turn(k) < 9,
        turn(turn(turn(turn(k)))) == k,
        n.turned().grid()[turn(k)] == n.grid()[k],
        n.with(k, cell).turned() == n.turned().with(turn(k), cell),
{
    lemma_grid_cells(n);
    lemma_grid_cells(n.turned());
}

/// Turning the grid does not change whether `ai` can hold the position.
proof fn lemma_turned_holds(ai: Player, n: Nine, mover: Player)
    requires
        holds(ai, n, mover),
    ensures
        holds(ai, n.turned(), mover),
    decreases n.spaces(),
{
    let m = Some(mover);
    let o = mover.opponent();
    let t = n.turned();
    lemma_turned(n, 0, m);
    if !n.is_over() {
        lemma_holds_unfolded(ai, n, mover);
        lemma_holds_unfolded(ai, t, mover);
        if mover == ai {
            let k = choose|k: int| 0 <= k < 9 && holds_move(ai, n, mover, k);
            lemma_turned(n, k, m);
            lemma_grid_with(n, k, mover);
            lemma_turned_holds(ai, n.with(k, m), o);
            assert(holds_move(ai, t, mover, turn(k)));
        } else {
            assert forall|j: int| 0 <= j < 9 && t.grid()[j] is None implies holds_move(
                ai,
                t,
                mover,
                j,
            ) by {
                let k = turn(turn(turn(j)));
                lemma_turned(n, k, m);
                assert(holds_move(ai, n, mover, k));
                lemma_grid_with(n, k, mover);
                lemma_turned_holds(ai, n.with(k, m), o);
            }
        }
    }
}

/// On its turn `ai` holds a position from which one of its moves leads to a
/// position that it holds.
proof fn lemma_holds_by_move(ai: Player, n: Nine, k: int)
    requires
        !n.is_over(),
        0 <= k < 9,
        n.grid()[k] is None,
        holds(ai, n.with(k, Some(ai)), ai.opponent()),
    ensures
        holds(ai, n, ai),
{
    lemma_holds_unfolded(ai, n, ai);
    assert(holds_move(ai, n, ai, k));
}

/// On the opponent's turn `ai` holds a position from which every move of
/// the opponent leads to a position that `ai` holds.
proof fn lemma_holds_by_all_moves(ai: Player, n: Nine)
    requires
        !n.is_over(),
        forall|k: int|
            0 <= k < 9 && n.grid()[k] is None ==> holds(
                ai,
                #[trigger] n.with(k, Some(ai.opponent())),
                ai,
            ),
    ensures
        holds(ai, n, ai.opponent()),
{
    lemma_holds_unfolded(ai, n, ai.opponent());
}

/// Where the opponent opens in a corner, `ai` holds the game with a mark in
/// the centre.
#[verifier::rlimit(100)]
proof fn lemma_answer_to_corner(ai: Player)
    ensures
        holds(ai, Nine { c0: Some(ai.opponent()), c4: Some(ai), ..nine_empty() }, ai.opponent()),
{
    reveal_with_fuel(holds, 8);
}

/// Where the opponent opens in the middle of a side, `ai` holds the game
/// with a mark in the centre.
#[verifier::rlimit(100)]
proof fn lemma_answer_to_side(ai: Player)
    ensures
        holds(ai, Nine { c1: Some(ai.opponent()), c4: Some(ai), ..nine_empty() }, ai.opponent()),
{
    reveal_with_fuel(holds, 8);
}

/// Where the opponent opens in the centre, `ai` holds the game with a mark
/// in a corner.
#[verifier::rlimit(100)]
proof fn lemma_answer_to_centre(ai: Player)
    ensures
        holds(ai, Nine { c0: Some(ai), c4: Some(ai.opponent()), ..nine_empty() }, ai.opponent()),
{
    reveal_with_fuel(holds, 8);
}

/// Where `ai` opens in the centre and the opponent answers in a corner,
/// `ai` holds the game with a mark in the middle of a side away from it.
#[verifier::rlimit(100)]
proof fn lemma_centre_then_corner(ai: Player)
    ensures
        holds(ai, Nine { c0: Some(ai.opponent()), c4: Some(ai), c5: Some(ai), ..nine_empty() }, ai.opponent()),
{
    reveal_with_fuel(holds, 7);
}

/// Where `ai` opens in the centre and the opponent answers in the middle of
/// a side, `ai` holds the game with a mark in a corner away from it.
#[verifier::rlimit(100)]
proof fn lemma_centre_then_side(ai: Player)
    ensures
        holds(ai, Nine { c1: Some(ai.opponent()), c4: Some(ai), c6: Some(ai), ..nine_empty() }, ai.opponent()),
{
    reveal_with_fuel(holds, 7);
}

/// The cell that `ai`, having opened in the centre, marks after the
/// opponent's answer in cell `k`.
spec fn answer_after_centre(k: int) -> int {
    if k == 0 {
        5
    } else if k == 1 {
        6
    } else if k == 2 {
        7
    } else if k == 3 {
        8
    } else if k == 5 {
        0
    } else if k == 6 {
        1
    } else if k == 7 {
        2
    } else {
        3
    }
}

/// `ai` can hold the empty grid when the opponent moves first.
proof fn lemma_holds_moving_second(ai: Player)
    ensures
        holds(ai, nine_empty(), ai.opponent()),
{
    let o = ai.opponent();
    let start = nine_empty();
    let corner = Nine { c0: Some(ai.opponent()), c4: Some(ai), ..nine_empty() };
    let side = Nine { c1: Some(ai.opponent()), c4: Some(ai), ..nine_empty() };
    lemma_grid_cells(start);
    lemma_answer_to_corner(ai);
    lemma_turned_holds(ai, corner, o);
    lemma_turned_holds(ai, corner.turned(), o);
    lemma_turned_holds(ai, corner.turned().turned(), o);
    lemma_answer_to_side(ai);
    lemma_turned_holds(ai, side, o);
    lemma_turned_holds(ai, side.turned(), o);
    lemma_turned_holds(ai, side.turned().turned(), o);
    lemma_answer_to_centre(ai);
    assert forall|k: int| 0 <= k < 9 implies holds(ai, #[trigger] start.with(k, Some(o)), ai) by {
        let opened = start.with(k, Some(o));
        lemma_grid_cells(opened);
        lemma_holds_by_move(
            ai,
            opened,
            if k == 4 {
                0
            } else {
                4
            },
        );
    }
    lemma_holds_by_all_moves(ai, start);
}

/// `ai` can hold the empty grid when it moves first.
proof fn lemma_holds_moving_first(ai: Player)
    ensures
        holds(ai, nine_empty(), ai),
{
    let o = ai.opponent();
    let start = nine_empty();
    let opened = start.with(4, Some(ai));
    let corner = Nine { c0: Some(ai.opponent()), c4: Some(ai), c5: Some(ai), ..nine_empty() };
    let side = Nine { c1: Some(ai.opponent()), c4: Some(ai), c6: Some(ai), ..nine_empty() };
    lemma_grid_cells(start);
    lemma_grid_cells(opened);
    lemma_centre_then_corner(ai);
    lemma_turned_holds(ai, corner, o);
    lemma_turned_holds(ai, corner.turned(), o);
    lemma_turned_holds(ai, corner.turned().turned(), o);
    lemma_centre_then_side(ai);
    lemma_turned_holds(ai, side, o);
    lemma_turned_holds(ai, side.turned(), o);
    lemma_turned_holds(ai, side.turned().turned(), o);
    assert forall|k: int| 0 <= k < 9 && opened.grid()[k] is None implies holds(
        ai,
        #[trigger] opened.with(k, Some(o)),
        ai,
    ) by {
        let answered = opened.with(k, Some(o));
        lemma_grid_cells(answered);
        lemma_holds_by_move(ai, answered, answer_after_centre(k));
    }
    lemma_holds_by_all_moves(ai, opened);
    lemma_holds_by_move(ai, start, 4);
}

/// Nobody can be forced to lose from the empty grid: whoever moves first,
/// the empty grid is worth a draw at least to either side.
pub proof fn lemma_empty_grid_is_not_lost(ai: Player, first: Player)
    ensures
        score(ai, empty_grid(), first) >= 0,
{
    assert(nine_empty().grid() =~= empty_grid());
    if first == ai {
        lemma_holds_moving_first(ai);
    } else {
        lemma_holds_moving_second(ai);
    }
    lemma_held_is_not_lost(ai, nine_empty(), first);
}

} // verus!
