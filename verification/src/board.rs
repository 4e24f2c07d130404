//! The board state: which cells hold a stone, and of which colour.

use crate::piece::PieceColor;
use vstd::prelude::*;
use vstd::set_lib::*;

verus! {

/// The number of cells along each side of the board.
pub const BOARD_SIZE: usize = 19;

/// The contents of a board as a mathematical value: `grid[col][row]` is the
/// stone at the cell `(col, row)`, or `None` where the cell is empty.
pub type Grid = Seq<Seq<Option<PieceColor>>>;

/// Whether `(col, row)` names a cell of the board.
pub open spec fn on_board(col: int, row: int) -> bool {
    0 <= col < BOARD_SIZE && 0 <= row < BOARD_SIZE
}

/// The grid of a board without stones.
pub open spec fn empty_grid() -> Grid {
    Seq::new(BOARD_SIZE as nat, |col: int| Seq::new(BOARD_SIZE as nat, |row: int| None))
}

/// Whether a grid has the dimensions of the board.
pub open spec fn grid_wf(grid: Grid) -> bool {
    &&& grid.len() == BOARD_SIZE
    &&& forall|col: int| 0 <= col < BOARD_SIZE ==> (#[trigger] grid[col]).len() == BOARD_SIZE
}

/// The grid with a stone of the given colour at `(col, row)`.
pub open spec fn grid_with_stone(grid: Grid, col: int, row: int, color: PieceColor) -> Grid {
    grid.update(col, grid[col].update(row, Some(color)))
}

/// The cells of a grid that hold a stone.
pub open spec fn stones(grid: Grid) -> Set<(int, int)> {
    Set::new(|cell: (int, int)| on_board(cell.0, cell.1) && grid[cell.0][cell.1] is Some)
}

/// The number of stones on a grid.
pub open spec fn stone_count(grid: Grid) -> nat {
    stones(grid).len()
}

/// The board state: a square grid of cells, each empty or holding a stone.
#[derive(Clone, Debug, PartialEq, Eq)]
pub struct BoardState {
    pub grid: [[Option<PieceColor>; BOARD_SIZE]; BOARD_SIZE],
}

impl View for BoardState {
    type V = Grid;

    open spec fn view(&self) -> Grid {
        Seq::new(BOARD_SIZE as nat, |col: int| self.grid[col]@)
    }
}

impl BoardState {
    /// The stone at `(col, row)`: `None` where the cell is empty, and where
    /// there is no such cell.
    pub open spec fn spec_stone(&self, col: int, row: int) -> Option<PieceColor> {
        if on_board(col, row) {
            self@[col][row]
        } else {
            None
        }
    }

    /// Whether a stone can be placed at `(col, row)`: the cell is on the
    /// board and empty.
    pub open spec fn spec_is_vacant(&self, col: int, row: int) -> bool {
        on_board(col, row) && self@[col][row] is None
    }

    /// The stone at `(col, row)`: `None` where the cell is empty, and where
    /// there is no such cell.
    pub fn stone(&self, col: i64, row: i64) -> (stone: Option<PieceColor>)
        ensures
            stone == self.spec_stone(col as int, row as int),
    {
        if 0 <= col && col < BOARD_SIZE as i64 && 0 <= row && row < BOARD_SIZE as i64 {
            self.grid[col as usize][row as usize]
        } else {
            None
        }
    }

    /// Whether a stone can be placed at `(col, row)`: the cell is on the
    /// board and empty.
    pub fn is_vacant(&self, col: i64, row: i64) -> (vacant: bool)
        ensures
            vacant == self.spec_is_vacant(col as int, row as int),
    {
        if 0 <= col && col < BOARD_SIZE as i64 && 0 <= row && row < BOARD_SIZE as i64 {
            self.grid[col as usize][row as usize].is_none()
        } else {
            false
        }
    }

    /// Puts a stone on the cell `(col, row)` if that cell is on the board and
    /// empty, and says whether it did. Otherwise the board stays as it is.
    pub fn put(&mut self, col: i64, row: i64, color: PieceColor) -> (done: bool)
        ensures
            done == old(self).spec_is_vacant(col as int, row as int),
            done ==> final(self)@ == grid_with_stone(old(self)@, col as int, row as int, color),
            !done ==> *final(self) == *old(self),
    {
        if self.is_vacant(col, row) {
            let c: usize = col as usize;
            let r: usize = row as usize;
            self.grid[c][r] = Some(color);
            true
        } else {
            false
        }
    }

    /// The board has the same dimensions in every state.
    pub proof fn lemma_dimensions(&self)
        ensures
            grid_wf(self@),
    {
    }
}

/// The board state at the start of a game: every cell is empty.
pub fn setup_board() -> (board: BoardState)
    ensures
        board@ == empty_grid(),
{
    let column: [Option<PieceColor>; BOARD_SIZE] = [None; BOARD_SIZE];
    let board = BoardState { grid: [column; BOARD_SIZE] };
    proof {
        assert forall|col: int| 0 <= col < BOARD_SIZE implies #[trigger] board@[col]
            == empty_grid()[col] by {
            assert(board.grid[col] == column);
            assert(column@ =~= empty_grid()[col]);
        }
        assert(board@ =~= empty_grid());
    }
    board
}

/// The cells of the board are finitely many, one for each pair of indices
/// below `BOARD_SIZE`.
proof fn lemma_cells_finite()
    ensures
        Set::new(|cell: (int, int)| on_board(cell.0, cell.1)).finite(),
        Set::new(|cell: (int, int)| on_board(cell.0, cell.1)).len() <= BOARD_SIZE * BOARD_SIZE,
{
    let cells = Set::new(|cell: (int, int)| on_board(cell.0, cell.1));
    let numbers = set_int_range(0, BOARD_SIZE * BOARD_SIZE);
    let cell_of = |k: int| (k / BOARD_SIZE as int, k % BOARD_SIZE as int);
    lemma_int_range(0, BOARD_SIZE * BOARD_SIZE);
    numbers.lemma_map_finite(cell_of);
    assert forall|cell: (int, int)| cells.contains(cell) implies numbers.map(cell_of).contains(
        cell,
    ) by {
        let k = cell.0 * BOARD_SIZE + cell.1;
        assert(numbers.contains(k));
        assert(cell_of(k) == cell);
    }
    lemma_set_subset_finite(numbers.map(cell_of), cells);
    lemma_map_size_bound(numbers, numbers.map(cell_of), cell_of);
    lemma_len_subset(cells, numbers.map(cell_of));
}

/// A grid holds finitely many stones, and no more than the board has cells.
pub proof fn lemma_stones_finite(grid: Grid)
    ensures
        stones(grid).finite(),
        stone_count(grid) <= BOARD_SIZE * BOARD_SIZE,
{
    let cells = Set::new(|cell: (int, int)| on_board(cell.0, cell.1));
    lemma_cells_finite();
    assert(stones(grid).subset_of(cells));
    lemma_set_subset_finite(cells, stones(grid));
    lemma_len_subset(stones(grid), cells);
}

/// A grid without stones has dimensions of the board and holds no stone.
pub proof fn lemma_empty_grid()
    ensures
        grid_wf(empty_grid()),
        stones(empty_grid()) == Set::<(int, int)>::empty(),
        stone_count(empty_grid()) == 0,
{
    assert(stones(empty_grid()) =~= Set::<(int, int)>::empty());
}

/// A stone put on an empty cell is one stone more, at that cell; every
/// other cell stays as it was.
pub proof fn lemma_stone_added(grid: Grid, col: int, row: int, color: PieceColor)
    requires
        grid_wf(grid),
        on_board(col, row),
        grid[col][row] is None,
    ensures
        grid_wf(grid_with_stone(grid, col, row, color)),
        grid_with_stone(grid, col, row, color)[col][row] == Some(color),
        forall|c: int, r: int|
            on_board(c, r) && (c, r) != (col, row) ==> #[trigger] grid_with_stone(
                grid,
                col,
                row,
                color,
            )[c][r] == grid[c][r],
        stones(grid_with_stone(grid, col, row, color)) == stones(grid).insert((col, row)),
        stone_count(grid_with_stone(grid, col, row, color)) == stone_count(grid) + 1,
{
    let after = grid_with_stone(grid, col, row, color);
    assert forall|c: int, r: int| on_board(c, r) && (c, r) != (col, row) implies #[trigger] after[c][r]
        == grid[c][r] by {
        if c == col {
            assert(after[c] == grid[col].update(row, Some(color)));
        }
    }
    assert(stones(after) =~= stones(grid).insert((col, row))) by {
        assert forall|cell: (int, int)| stones(after).contains(cell) == stones(grid).insert(
            (col, row),
        ).contains(cell) by {
            if on_board(cell.0, cell.1) && cell != (col, row) {
                assert(after[cell.0][cell.1] == grid[cell.0][cell.1]);
            }
        }
    }
    lemma_stones_finite(grid);
}

} // verus!
