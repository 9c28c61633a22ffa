//! Reading a player's side and a move out of a line of free text.

use crate::game::Player;
use vstd::prelude::*;

verus! {

/// The text names the side X: it holds the letter in either case.
pub open spec fn names_x(text: Seq<char>) -> bool {
    text.contains('x') || text.contains('X')
}

/// The text names the side O: it holds the letter in either case.
pub open spec fn names_o(text: Seq<char>) -> bool {
    text.contains('o') || text.contains('O')
}

/// The side that a text names, if it names exactly one.
pub open spec fn named_player(text: Seq<char>) -> Option<Player> {
    if names_x(text) && !names_o(text) {
        Some(Player::X)
    } else if names_o(text) && !names_x(text) {
        Some(Player::O)
    } else {
        None
    }
}

/// The character is one of the ten ASCII digits.
pub open spec fn is_digit(c: char) -> bool {
    '0' <= c <= '9'
}

/// The number that an ASCII digit stands for.
pub open spec fn digit_value(c: char) -> int {
    c as int - '0' as int
}

/// The ASCII digits of a text, in order.
pub open spec fn digits(text: Seq<char>) -> Seq<char> {
    text.filter(|c: char| is_digit(c))
}

/// The move that a text names: its first two digits as row and column, if it
/// has two.
pub open spec fn named_move(text: Seq<char>) -> Option<(usize, usize)> {
    if digits(text).len() >= 2 {
        Some((digit_value(digits(text)[0]) as usize, digit_value(digits(text)[1]) as usize))
    } else {
        None
    }
}

/// The side that the text names, if it names exactly one of the two.
pub fn get_player_from_string(string: &String) -> (player: Option<Player>)
    ensures
        player == named_player(string@),
{
    let mut has_x = false;
    let mut has_o = false;
    let text = string.as_str();
    for c in it: text.chars()
        invariant
            it.seq() == text@,
            has_x <==> names_x(text@.take(it.index() as int)),
            has_o <==> names_o(text@.take(it.index() as int)),
    {
        proof {
            let before = text@.take(it.index() as int);
            let after = text@.take(it.index() + 1);
            assert(after =~= before.push(c));
            assert forall|d: char| after.contains(d) <==> before.contains(d) || d == c by {
                if before.contains(d) {
                    let j = choose|j: int| 0 <= j < before.len() && before[j] == d;
                    assert(after[j] == d);
                }
                if d == c {
                    assert(after[it.index() as int] == d);
                }
            }
        }
        if c == 'x' || c == 'X' {
            has_x = true;
        }
        if c == 'o' || c == 'O' {
            has_o = true;
        }
    }
    assert(text@.take(text@.len() as int) =~= text@);
    if has_x && !has_o {
        Some(Player::X)
    } else if has_o && !has_x {
        Some(Player::O)
    } else {
        None
    }
}

/// The move that the text names: its first two digits as row and column.
pub fn get_move(string: &String) -> (cell: Option<(usize, usize)>)
    ensures
        cell == named_move(string@),
{
    let mut first: Option<usize> = None;
    let mut second: Option<usize> = None;
    let text = string.as_str();
    for c in it: text.chars()
        invariant
            it.seq() == text@,
            first is None <==> digits(text@.take(it.index() as int)).len() == 0,
            second is None <==> digits(text@.take(it.index() as int)).len() <= 1,
            first matches Some(row) ==> row == digit_value(digits(text@.take(it.index() as int))[0]),
            second matches Some(col) ==> col == digit_value(digits(text@.take(it.index() as int))[1]),
    {
        proof {
            let before = text@.take(it.index() as int);
            assert(text@.take(it.index() + 1) =~= before.push(c));
            before.lemma_filter_push(c, |c: char| is_digit(c));
        }
        if '0' <= c && c <= '9' {
            let value = (c as u32 - '0' as u32) as usize;
            if first.is_none() {
                first = Some(value);
            } else if second.is_none() {
                second = Some(value);
            }
        }
    }
    assert(text@.take(text@.len() as int) =~= text@);
    match (first, second) {
        (Some(row), Some(col)) => Some((row, col)),
        _ => None,
    }
}

} // verus!
