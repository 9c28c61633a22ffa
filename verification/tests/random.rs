use tic_tac_toe::ai::minimax::MinimaxPlayer;
use tic_tac_toe::ai::parallel::by_score;
use tic_tac_toe::ai::random::RandPlayer;
use tic_tac_toe::ai::traits::AIPlayer;
use tic_tac_toe::game::BoardState;
use tic_tac_toe::game::Player;

const X: Option<Player> = Some(Player::X);
const O: Option<Player> = Some(Player::O);
const E: Option<Player> = None;

#[test]
fn random_agent_picks_an_open_cell() {
    let grid = [[X, E, O], [E, O, E], [X, E, E]];
    let board = BoardState::from(grid);
    let mut agent = RandPlayer::new();
    let mut seen = [[false; 3]; 3];
    for _ in 0..200 {
        let (x, y) = agent.get_next_move(&board);
        assert!(x < 3 && y < 3);
        assert_eq!(grid[x][y], None);
        seen[x][y] = true;
    }
    let distinct = seen.iter().flatten().filter(|hit| **hit).count();
    assert!(distinct >= 2);
}

#[test]
fn random_agent_takes_the_only_open_cell() {
    let board = BoardState::from([[X, O, X], [X, O, O], [O, E, X]]);
    let mut agent = RandPlayer::new();
    for _ in 0..20 {
        assert_eq!(agent.get_next_move(&board), (2, 1));
    }
}

#[test]
fn open_cell_by_its_place() {
    let board = BoardState::from([[X, E, O], [E, O, E], [X, E, E]]);
    assert_eq!(RandPlayer::open_cell_at(&board, 0), (0, 1));
    assert_eq!(RandPlayer::open_cell_at(&board, 1), (1, 0));
    assert_eq!(RandPlayer::open_cell_at(&board, 2), (1, 2));
    assert_eq!(RandPlayer::open_cell_at(&board, 3), (2, 1));
    assert_eq!(RandPlayer::open_cell_at(&board, 4), (2, 2));
}

#[test]
fn scores_are_ordered_by_the_score_alone() {
    assert_eq!(by_score(&('a', -1), &('b', 0)), std::cmp::Ordering::Less);
    assert_eq!(by_score(&('a', 1), &('b', 0)), std::cmp::Ordering::Greater);
    assert_eq!(by_score(&('a', 1), &('b', 1)), std::cmp::Ordering::Equal);
    assert_eq!(by_score(&('z', isize::MIN), &('a', isize::MAX)), std::cmp::Ordering::Less);
}

fn play(search_side: Player, first: Player) -> Option<Player> {
    let mut board = BoardState::new();
    let mut search = MinimaxPlayer::new(search_side);
    let mut random = RandPlayer::new();
    let mut turn = first;
    while board.check_for_victor().is_none() && !board.is_draw() {
        let (x, y) = if turn == search_side {
            search.get_next_move(&board)
        } else {
            random.get_next_move(&board)
        };
        assert!(board.process_move(x, y, turn));
        turn = turn.get_opp();
    }
    board.check_for_victor()
}

#[test]
fn search_moving_second_never_loses_to_chance() {
    for _ in 0..20 {
        assert_ne!(play(Player::O, Player::X), Some(Player::X));
        assert_ne!(play(Player::X, Player::O), Some(Player::O));
    }
}

#[test]
fn search_moving_first_never_loses_to_chance() {
    for _ in 0..3 {
        assert_ne!(play(Player::O, Player::O), Some(Player::X));
    }
}

#[test]
fn search_never_loses_after_any_first_move() {
    for cell in 0..9 {
        let mut board = BoardState::new();
        assert!(board.process_move(cell / 3, cell % 3, Player::X));
        let mut search = MinimaxPlayer::new(Player::O);
        let mut random = RandPlayer::new();
        let mut turn = Player::O;
        while board.check_for_victor().is_none() && !board.is_draw() {
            let (x, y) = if turn == Player::O {
                search.get_next_move(&board)
            } else {
                random.get_next_move(&board)
            };
            assert!(board.process_move(x, y, turn));
            turn = turn.get_opp();
        }
        assert_ne!(board.check_for_victor(), Some(Player::X));
    }
}

fn ask<A: AIPlayer>(agent: &mut A, board: &BoardState) -> (usize, usize) {
    agent.get_next_move(board)
}

#[test]
fn agents_are_interchangeable() {
    let grid = [[X, O, X], [X, O, O], [E, X, E]];
    let board = BoardState::from(grid);
    let (x, y) = ask(&mut RandPlayer::new(), &board);
    assert_eq!(grid[x][y], None);
    assert_eq!(ask(&mut MinimaxPlayer::new(Player::O), &board), (2, 0));
    assert_eq!(ask(&mut MinimaxPlayer::new(Player::X), &board), (2, 0));
}
