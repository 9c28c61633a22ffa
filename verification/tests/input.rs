use tic_tac_toe::game::Player;
use tic_tac_toe::input::get_move;
use tic_tac_toe::input::get_player_from_string;

#[test]
fn player_from_a_letter() {
    assert_eq!(get_player_from_string(&String::from("x")), Some(Player::X));
    assert_eq!(get_player_from_string(&String::from("X\n")), Some(Player::X));
    assert_eq!(get_player_from_string(&String::from("o")), Some(Player::O));
    assert_eq!(get_player_from_string(&String::from("O\n")), Some(Player::O));
    assert_eq!(get_player_from_string(&String::from("  I pick X.")), Some(Player::X));
}

#[test]
fn player_from_unclear_text() {
    assert_eq!(get_player_from_string(&String::new()), None);
    assert_eq!(get_player_from_string(&String::from("\n")), None);
    assert_eq!(get_player_from_string(&String::from("maybe")), None);
    assert_eq!(get_player_from_string(&String::from("xo")), None);
    assert_eq!(get_player_from_string(&String::from("X or O")), None);
    assert_eq!(get_player_from_string(&String::from("0")), None);
}

#[test]
fn move_from_two_digits() {
    assert_eq!(get_move(&String::from("0,0")), Some((0, 0)));
    assert_eq!(get_move(&String::from("1,2\n")), Some((1, 2)));
    assert_eq!(get_move(&String::from("21")), Some((2, 1)));
    assert_eq!(get_move(&String::from("row 2, column 0")), Some((2, 0)));
    assert_eq!(get_move(&String::from("9 8 7")), Some((9, 8)));
}

#[test]
fn move_from_too_few_digits() {
    assert_eq!(get_move(&String::new()), None);
    assert_eq!(get_move(&String::from("quit")), None);
    assert_eq!(get_move(&String::from("1")), None);
    assert_eq!(get_move(&String::from("one, 2")), None);
    assert_eq!(get_move(&String::from("\u{0661},\u{0662}")), None);
}
