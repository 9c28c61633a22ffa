use tic_tac_toe::ai::minimax::MinimaxPlayer;
use tic_tac_toe::ai::traits::AIPlayer;
use tic_tac_toe::game::BoardState;
use tic_tac_toe::game::Player;

#[test]
fn first_move() {
    let board = [[None, None, None], [None, None, None], [None, None, None]];
    let board_state = BoardState::from(board);

    let mut ai_player = MinimaxPlayer::new(Player::O);

    let (x, y) = ai_player.get_next_move(&board_state);

    assert_eq!(2, x);
    assert_eq!(2, y);
}

#[test]
fn second_move() {
    let board = [
        [Some(Player::X), None, None],
        [None, None, None],
        [None, None, None],
    ];
    let board_state = BoardState::from(board);

    let mut ai_player = MinimaxPlayer::new(Player::O);

    let (x, y) = ai_player.get_next_move(&board_state);

    assert_eq!(1, x);
    assert_eq!(1, y);
}

#[test]
fn close_to_win() {
    let board = [
        [Some(Player::X), None, Some(Player::X)],
        [None, None, None],
        [Some(Player::O), None, Some(Player::O)],
    ];
    let board_state = BoardState::from(board);

    let mut ai_player = MinimaxPlayer::new(Player::O);

    let (x, y) = ai_player.get_next_move(&board_state);

    assert_eq!(2, x);
    assert_eq!(1, y);
}

const X: Option<Player> = Some(Player::X);
const O: Option<Player> = Some(Player::O);
const E: Option<Player> = None;

#[test]
fn new_agent_plays_its_side() {
    assert_eq!(MinimaxPlayer::new(Player::O).player, Player::O);
    assert_eq!(MinimaxPlayer::new(Player::X).player, Player::X);
}

#[test]
fn minimax_scores_finished_games() {
    let agent = MinimaxPlayer::new(Player::O);
    let won = BoardState::from([[O, O, O], [X, X, E], [E, E, E]]);
    assert_eq!(agent.minimax(&won, Player::X), 1);
    assert_eq!(agent.minimax(&won, Player::O), 1);
    let lost = BoardState::from([[X, X, X], [O, O, E], [E, E, E]]);
    assert_eq!(agent.minimax(&lost, Player::O), -1);
    let drawn = BoardState::from([[X, O, X], [X, O, O], [O, X, X]]);
    assert_eq!(agent.minimax(&drawn, Player::X), 0);
    assert_eq!(MinimaxPlayer::new(Player::X).minimax(&lost, Player::O), 1);
}

#[test]
fn minimax_takes_the_best_for_the_mover() {
    let agent = MinimaxPlayer::new(Player::O);
    let board = BoardState::from([[X, E, X], [E, E, E], [O, E, O]]);
    assert_eq!(agent.minimax(&board, Player::O), 1);
    assert_eq!(agent.minimax(&board, Player::X), -1);
    let forced = BoardState::from([[X, X, O], [O, O, X], [X, E, E]]);
    assert_eq!(agent.minimax(&forced, Player::O), 0);
    assert_eq!(agent.minimax(&forced, Player::X), 0);
    let fork = BoardState::from([[X, E, E], [E, O, E], [E, E, X]]);
    assert_eq!(agent.minimax(&fork, Player::O), 0);
    let open_line = BoardState::from([[X, E, E], [E, X, E], [O, E, O]]);
    assert_eq!(agent.minimax(&open_line, Player::X), 0);
    assert_eq!(agent.minimax(&open_line, Player::O), 1);
    let two_threats = BoardState::from([[O, O, X], [O, E, X], [X, E, E]]);
    assert_eq!(agent.minimax(&two_threats, Player::O), -1);
    assert_eq!(agent.minimax(&two_threats, Player::X), -1);
}

#[test]
fn empty_board_is_worth_a_draw() {
    let board = BoardState::new();
    for side in [Player::X, Player::O] {
        let agent = MinimaxPlayer::new(side);
        assert_eq!(agent.minimax(&board, Player::X), 0);
        assert_eq!(agent.minimax(&board, Player::O), 0);
    }
}

#[test]
fn best_move_returns_the_board_after_the_move() {
    let agent = MinimaxPlayer::new(Player::O);
    let board = BoardState::from([[X, E, X], [E, E, E], [O, E, O]]);
    let best = agent.get_best_move(&board);
    assert_eq!(best.board, [[X, E, X], [E, E, E], [O, O, O]]);
    assert_eq!(board.board, [[X, E, X], [E, E, E], [O, E, O]]);
    let blocked = agent.get_best_move(&BoardState::from([[X, X, E], [E, O, E], [E, E, E]]));
    assert_eq!(blocked.board, [[X, X, O], [E, O, E], [E, E, E]]);
}

#[test]
fn last_of_the_equally_good_moves_is_taken() {
    let mut agent = MinimaxPlayer::new(Player::O);
    let lost = BoardState::from([[O, O, X], [O, E, X], [X, E, E]]);
    assert_eq!(agent.minimax(&lost, Player::O), -1);
    assert_eq!(agent.get_next_move(&lost), (2, 2));
    let two_draws = BoardState::from([[O, X, O], [E, E, X], [X, E, E]]);
    assert_eq!(agent.minimax(&two_draws, Player::O), 0);
    assert_eq!(agent.get_next_move(&two_draws), (2, 1));
    let mut other = MinimaxPlayer::new(Player::X);
    let two_wins = BoardState::from([[O, O, X], [O, E, E], [E, E, X]]);
    assert_eq!(other.minimax(&two_wins, Player::X), 1);
    assert_eq!(other.get_next_move(&two_wins), (2, 0));
}

#[test]
fn same_board_same_move() {
    let boards = [
        [[E, E, E], [E, X, E], [E, E, E]],
        [[X, E, E], [E, O, E], [E, E, X]],
        [[O, X, E], [E, X, E], [E, E, E]],
    ];
    for grid in boards {
        let board = BoardState::from(grid);
        let mut first = MinimaxPlayer::new(Player::O);
        let mut second = MinimaxPlayer::new(Player::O);
        let chosen = first.get_next_move(&board);
        assert_eq!(first.get_next_move(&board), chosen);
        assert_eq!(second.get_next_move(&board), chosen);
        assert_eq!(grid[chosen.0][chosen.1], None);
        assert_eq!(first.player, Player::O);
    }
}

#[test]
fn search_against_itself_ends_in_a_draw() {
    for first in [Player::X, Player::O] {
        let mut board = BoardState::new();
        let mut agents = [MinimaxPlayer::new(first), MinimaxPlayer::new(first.get_opp())];
        let mut turn = 0;
        while board.check_for_victor().is_none() && !board.is_draw() {
            let side = agents[turn % 2].player;
            let (x, y) = agents[turn % 2].get_next_move(&board);
            assert!(board.process_move(x, y, side));
            turn += 1;
        }
        assert_eq!(board.check_for_victor(), None);
        assert!(board.is_draw());
        assert_eq!(turn, 9);
    }
}

fn play_out(board: BoardState, search: Player, turn: Player) -> usize {
    if let Some(victor) = board.check_for_victor() {
        assert_eq!(victor, search);
        return 1;
    }
    if board.is_draw() {
        return 1;
    }
    if turn == search {
        let (x, y) = MinimaxPlayer::new(search).get_next_move(&board);
        let mut next = board;
        assert!(next.process_move(x, y, search));
        play_out(next, search, turn.get_opp())
    } else {
        let mut games = 0;
        for (x, y) in board.get_open_cells() {
            let mut next = board;
            assert!(next.process_move(x, y, turn));
            games += play_out(next, search, turn.get_opp());
        }
        games
    }
}

#[test]
fn search_moving_second_loses_no_game_at_all() {
    assert!(play_out(BoardState::new(), Player::O, Player::X) >= 9);
    assert!(play_out(BoardState::new(), Player::X, Player::O) >= 9);
}

#[test]
fn search_moving_first_loses_no_game_at_all() {
    assert!(play_out(BoardState::new(), Player::O, Player::O) >= 8);
    assert!(play_out(BoardState::new(), Player::X, Player::X) >= 8);
}
