//! The board, the two players and the turn state.

use vstd::prelude::*;

verus! {

/// One of the two players; also the mark that the player leaves in a cell.
#[derive(Clone, Copy, PartialEq, Eq, Debug, Structural)]
pub enum Player {
    X,
    O,
}

impl Player {
    /// The other player.
    pub open spec fn opponent(self) -> Player {
        match self {
            Player::X => Player::O,
            Player::O => Player::X,
        }
    }

    /// Returns the other player.
    pub fn get_opp(&self) -> (opp: Player)
        ensures
            opp == self.opponent(),
    {
        match self {
            Player::X => Player::O,
            Player::O => Player::X,
        }
    }

    /// The letter that stands for the player.
    pub open spec fn letter(self) -> char {
        match self {
            Player::X => 'X',
            Player::O => 'O',
        }
    }

    /// The player's name: the one letter `X` or `O`.
    pub fn to_string(&self) -> (name: String)
        ensures
            name@ == seq![self.letter()],
    {
        proof {
            reveal_strlit("X");
            reveal_strlit("O");
        }
        let name = match self {
            Player::X => String::from_str("X"),
            Player::O => String::from_str("O"),
        };
        assert(name@ =~= seq![self.letter()]);
        name
    }
}

/// The character that shows a cell: the player's letter, or `#` for an empty
/// cell.
pub open spec fn cell_char(cell: Option<Player>) -> char {
    match cell {
        Some(player) => player.letter(),
        None => '#',
    }
}

/// A grid as text: one line per row, each of three cell characters and a
/// newline.
pub open spec fn grid_text(cells: Seq<Option<Player>>) -> Seq<char> {
    Seq::new(
        12,
        |i: int|
            if i % 4 == 3 {
                '\n'
            } else {
                cell_char(cells[3 * (i / 4) + i % 4])
            },
    )
}

/// A 3×3 grid; each cell is empty or holds a player's mark.
#[derive(Clone, Copy, Debug)]
pub struct BoardState {
    pub board: [[Option<Player>; 3]; 3],
}

/// The nine cells of a grid in row-major order: cell `3 * row + col` is the
/// one in row `row`, column `col`.
pub open spec fn grid_cells(grid: [[Option<Player>; 3]; 3]) -> Seq<Option<Player>> {
    Seq::new(9, |k: int| grid[k / 3][k % 3])
}

/// The grid of nine empty cells.
pub open spec fn empty_grid() -> Seq<Option<Player>> {
    Seq::new(9, |k: int| None)
}

/// The first of two optional players that is present.
pub open spec fn or_else(first: Option<Player>, second: Option<Player>) -> Option<Player> {
    if first is Some {
        first
    } else {
        second
    }
}

/// The player whose mark fills all three cells of a line, if one does.
pub open spec fn line_owner(a: Option<Player>, b: Option<Player>, c: Option<Player>) -> Option<
    Player,
> {
    if a == Some(Player::X) && b == Some(Player::X) && c == Some(Player::X) {
        Some(Player::X)
    } else if a == Some(Player::O) && b == Some(Player::O) && c == Some(Player::O) {
        Some(Player::O)
    } else {
        None
    }
}

/// The owner of row `i` of a grid.
pub open spec fn row_owner(cells: Seq<Option<Player>>, i: int) -> Option<Player> {
    line_owner(cells[3 * i], cells[3 * i + 1], cells[3 * i + 2])
}

/// The owner of column `i` of a grid.
pub open spec fn column_owner(cells: Seq<Option<Player>>, i: int) -> Option<Player> {
    line_owner(cells[i], cells[i + 3], cells[i + 6])
}

/// The owner of the first complete line of a grid, looking at the rows from
/// the top, then the columns from the left, then the diagonal from the top
/// left and the one from the top right.
pub open spec fn winner(cells: Seq<Option<Player>>) -> Option<Player> {
    or_else(
        row_owner(cells, 0),
        or_else(
            row_owner(cells, 1),
            or_else(
                row_owner(cells, 2),
                or_else(
                    column_owner(cells, 0),
                    or_else(
                        column_owner(cells, 1),
                        or_else(
                            column_owner(cells, 2),
                            or_else(
                                line_owner(cells[0], cells[4], cells[8]),
                                line_owner(cells[2], cells[4], cells[6]),
                            ),
                        ),
                    ),
                ),
            ),
        ),
    )
}

/// The empty cells among the first `k` cells of a grid, in ascending order.
pub open spec fn open_cells_before(cells: Seq<Option<Player>>, k: int) -> Seq<int>
    decreases k,
{
    if k <= 0 {
        Seq::empty()
    } else if cells[k - 1] is None {
        open_cells_before(cells, k - 1).push(k - 1)
    } else {
        open_cells_before(cells, k - 1)
    }
}

/// The empty cells of a grid, in ascending (row-major) order.
pub open spec fn open_cells(cells: Seq<Option<Player>>) -> Seq<int> {
    open_cells_before(cells, cells.len() as int)
}

/// `moves` names the cells `cells` by row and column, one for one.
pub open spec fn names_cells(moves: Seq<(usize, usize)>, cells: Seq<int>) -> bool {
    &&& moves.len() == cells.len()
    &&& forall|i: int|
        0 <= i < moves.len() ==> {
            &&& (#[trigger] moves[i]).0 < 3
            &&& moves[i].1 < 3
            &&& 3 * moves[i].0 + moves[i].1 == cells[i]
        }
}

/// What the list of open cells holds: exactly the empty cells, each once, in
/// ascending order.
pub proof fn lemma_open_cells_before(cells: Seq<Option<Player>>, k: int)
    requires
        0 <= k <= cells.len(),
    ensures
        open_cells_before(cells, k).len() <= k,
        forall|i: int|
            0 <= i < open_cells_before(cells, k).len() ==> {
                &&& 0 <= #[trigger] open_cells_before(cells, k)[i] < k
                &&& cells[open_cells_before(cells, k)[i]] is None
            },
        forall|i: int, j: int|
            0 <= i < j < open_cells_before(cells, k).len() ==> open_cells_before(cells, k)[i]
                < open_cells_before(cells, k)[j],
        forall|c: int|
            0 <= c < k && cells[c] is None ==> open_cells_before(cells, k).contains(c),
    decreases k,
{
    if k > 0 {
        lemma_open_cells_before(cells, k - 1);
        let shorter = open_cells_before(cells, k - 1);
        let longer = open_cells_before(cells, k);
        assert forall|c: int| 0 <= c < k && cells[c] is None implies longer.contains(c) by {
            if c == k - 1 {
                assert(longer[longer.len() - 1] == c);
            } else {
                assert(shorter.contains(c));
                let i = choose|i: int| 0 <= i < shorter.len() && shorter[i] == c;
                assert(longer[i] == c);
            }
        }
    }
}

/// What the list of open cells holds: exactly the empty cells, each once, in
/// ascending order.
pub proof fn lemma_open_cells(cells: Seq<Option<Player>>)
    ensures
        open_cells(cells).len() <= cells.len(),
        forall|i: int|
            0 <= i < open_cells(cells).len() ==> {
                &&& 0 <= #[trigger] open_cells(cells)[i] < cells.len()
                &&& cells[open_cells(cells)[i]] is None
            },
        forall|i: int, j: int|
            0 <= i < j < open_cells(cells).len() ==> open_cells(cells)[i] < open_cells(cells)[j],
        forall|c: int|
            0 <= c < cells.len() && cells[c] is None ==> open_cells(cells).contains(c),
{
    lemma_open_cells_before(cells, cells.len() as int);
}

/// A mark in an empty cell leaves one open cell fewer.
pub proof fn lemma_mark_closes_cell(cells: Seq<Option<Player>>, c: int, player: Player)
    requires
        0 <= c < cells.len(),
        cells[c] is None,
    ensures
        open_cells(cells.update(c, Some(player))).len() + 1 == open_cells(cells).len(),
{
    lemma_mark_closes_cell_before(cells, c, player, cells.len() as int);
}

proof fn lemma_mark_closes_cell_before(
    cells: Seq<Option<Player>>,
    c: int,
    player: Player,
    k: int,
)
    requires
        0 <= c < cells.len(),
        0 <= k <= cells.len(),
        cells[c] is None,
    ensures
        open_cells_before(cells.update(c, Some(player)), k).len() + (if c < k {
            1int
        } else {
            0int
        }) == open_cells_before(cells, k).len(),
    decreases k,
{
    if k > 0 {
        lemma_mark_closes_cell_before(cells, c, player, k - 1);
    }
}

impl View for BoardState {
    type V = Seq<Option<Player>>;

    open spec fn view(&self) -> Seq<Option<Player>> {
        grid_cells(self.board)
    }
}

impl BoardState {
    /// The board with no mark on it.
    pub fn new() -> (b: BoardState)
        ensures
            b@ == empty_grid(),
    {
        BoardState { board: [[None; 3]; 3] }
    }

    /// The board that holds exactly the given grid.
    pub fn from(board: [[Option<Player>; 3]; 3]) -> (b: BoardState)
        ensures
            b.board == board,
            b@ == grid_cells(board),
    {
        BoardState { board }
    }

    /// Puts `player`'s mark in row `x`, column `y` if that cell lies on the
    /// board and is empty, and says whether it did; otherwise the move is
    /// invalid and the board stays as it was.
    pub fn process_move(&mut self, x: usize, y: usize, player: Player) -> (valid: bool)
        ensures
            valid <==> x < 3 && y < 3 && old(self)@[3 * x + y] is None,
            valid ==> final(self)@ == old(self)@.update(3 * x + y, Some(player)),
            !valid ==> *final(self) == *old(self),
    {
        if x >= 3 || y >= 3 {
            return false;
        }
        let current_point = self.board[x][y];
        if current_point.is_none() {
            self.board[x][y] = Some(player);
            true
        } else {
            false
        }
    }

    /// The empty cells by row and column, row by row from the top, each row
    /// from the left.
    pub fn get_open_cells(&self) -> (moves: Vec<(usize, usize)>)
        ensures
            names_cells(moves@, open_cells(self@)),
    {
        let mut moves: Vec<(usize, usize)> = Vec::new();
        for x in 0..3usize
            invariant
                names_cells(moves@, open_cells_before(self@, 3 * x)),
        {
            for y in 0..3usize
                invariant
                    x < 3,
                    names_cells(moves@, open_cells_before(self@, 3 * x + y)),
            {
                if self.board[x][y].is_none() {
                    moves.push((x, y));
                }
            }
        }
        moves
    }

    /// Whether no cell is empty. A full board is a draw only if nobody has
    /// won it: look for a victor first.
    pub fn is_draw(&self) -> (full: bool)
        ensures
            full <==> open_cells(self@).len() == 0,
    {
        self.get_open_cells().len() == 0
    }

    /// The board as text: one line per row, `X`, `O` or `#` for each cell.
    pub fn to_string(&self) -> (text: String)
        ensures
            text@ == grid_text(self@),
    {
        let mut text = String::new();
        for x in 0..3usize
            invariant
                text@ == grid_text(self@).take(4 * x),
        {
            for y in 0..3usize
                invariant
                    x < 3,
                    text@ == grid_text(self@).take(4 * x + y),
            {
                proof {
                    reveal_strlit("#");
                }
                let ghost before = text@;
                match self.board[x][y] {
                    Some(point) => {
                        let name = point.to_string();
                        text.append(name.as_str());
                    },
                    None => {
                        text.append("#");
                    },
                }
                assert(text@ =~= before.push(cell_char(self@[3 * x + y])));
                assert(text@ =~= grid_text(self@).take(4 * x + y + 1));
            }
            proof {
                reveal_strlit("\n");
            }
            let ghost before = text@;
            text.append("\n");
            assert(text@ =~= before.push('\n'));
            assert(text@ =~= grid_text(self@).take(4 * x + 4));
        }
        assert(text@ =~= grid_text(self@));
        text
    }

    /// The owner of the first complete line, if a line is complete.
    pub fn check_for_victor(&self) -> (victor: Option<Player>)
        ensures
            victor == winner(self@),
    {
        for i in 0..3usize
            invariant
                forall|j: int| 0 <= j < i ==> row_owner(self@, j) is None,
        {
            if let Some(player) = Self::check_row(&self.board, i) {
                return Some(player);
            }
        }
        for i in 0..3usize
            invariant
                forall|j: int| 0 <= j < 3 ==> row_owner(self@, j) is None,
                forall|j: int| 0 <= j < i ==> column_owner(self@, j) is None,
        {
            let cells = [self.board[0][i], self.board[1][i], self.board[2][i]];
            if let Some(player) = Self::check_cells_for_win(&cells) {
                return Some(player);
            }
        }
        let diagonals = [
            [self.board[0][0], self.board[1][1], self.board[2][2]],
            [self.board[0][2], self.board[1][1], self.board[2][0]],
        ];
        if let Some(player) = Self::check_cells_for_win(&diagonals[0]) {
            Some(player)
        } else {
            Self::check_cells_for_win(&diagonals[1])
        }
    }

    /// The owner of row `index` of a grid.
    pub fn check_row(board: &[[Option<Player>; 3]; 3], index: usize) -> (owner: Option<Player>)
        requires
            index < 3,
        ensures
            owner == row_owner(grid_cells(*board), index as int),
    {
        Self::check_cells_for_win(&board[index])
    }

    /// The player whose mark fills all three cells, if one does.
    pub fn check_cells_for_win(cells: &[Option<Player>; 3]) -> (owner: Option<Player>)
        ensures
            owner == line_owner(cells[0], cells[1], cells[2]),
    {
        if Self::all_marked(cells, Player::X) {
            Some(Player::X)
        } else if Self::all_marked(cells, Player::O) {
            Some(Player::O)
        } else {
            None
        }
    }

    /// Whether each of the three cells holds `player`'s mark.
    fn all_marked(cells: &[Option<Player>; 3], player: Player) -> (all: bool)
        ensures
            all <==> forall|i: int| 0 <= i < 3 ==> cells[i] == Some(player),
    {
        for i in 0..3usize
            invariant
                forall|j: int| 0 <= j < i ==> cells[j] == Some(player),
        {
            if cells[i] != Some(player) {
                return false;
            }
        }
        true
    }
}

/// How a game stands once a move has been made.
#[derive(Clone, Copy, PartialEq, Eq, Debug, Structural)]
pub enum GameStatus {
    /// A line is complete: the player who owns it has won.
    Won(Player),
    /// No line is complete and no cell is empty.
    Draw,
    /// The game goes on.
    Ongoing,
}

/// How a game stands on a grid: won where a line is complete, else drawn
/// where no cell is empty.
pub open spec fn status_of(cells: Seq<Option<Player>>) -> GameStatus {
    match winner(cells) {
        Some(victor) => GameStatus::Won(victor),
        None => if open_cells(cells).len() == 0 {
            GameStatus::Draw
        } else {
            GameStatus::Ongoing
        },
    }
}

/// A game in progress: who plays which side, the board, and whose turn it is.
pub struct GameState {
    pub player1: Player,
    pub player2: Player,
    pub board_state: BoardState,
    pub current_turn: Player,
}

impl GameState {
    /// Hands the turn to the other player.
    pub fn progress_turn(&mut self)
        ensures
            final(self).current_turn == old(self).current_turn.opponent(),
            final(self).player1 == old(self).player1,
            final(self).player2 == old(self).player2,
            final(self).board_state == old(self).board_state,
    {
        self.current_turn = self.current_turn.get_opp();
    }

    /// Closes a turn after its move: says how the game stands, and hands the
    /// turn to the other player if the game goes on.
    pub fn end_turn(&mut self) -> (status: GameStatus)
        ensures
            status == status_of(old(self).board_state@),
            final(self).player1 == old(self).player1,
            final(self).player2 == old(self).player2,
            final(self).board_state == old(self).board_state,
            final(self).current_turn == if status == GameStatus::Ongoing {
                old(self).current_turn.opponent()
            } else {
                old(self).current_turn
            },
    {
        if let Some(victor) = self.board_state.check_for_victor() {
            GameStatus::Won(victor)
        } else if self.board_state.is_draw() {
            GameStatus::Draw
        } else {
            self.progress_turn();
            GameStatus::Ongoing
        }
    }
}

} // verus!
