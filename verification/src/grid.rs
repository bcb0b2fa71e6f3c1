//! Geometry of the board: a square of `width * width` cells, numbered row by
//! row, on which every row and every column closes into a ring.

use vstd::arithmetic::div_mod::{
    lemma_fundamental_div_mod, lemma_fundamental_div_mod_converse, lemma_mod_bound,
};
use vstd::prelude::*;

verus! {

/// The way the snake faces.
#[derive(Clone, Copy, Debug, PartialEq, Eq, Structural)]
pub enum Direction {
    Up,
    Right,
    Down,
    Left,
}

impl Direction {
    /// The direction that undoes a move in this one.
    pub open spec fn opposite(self) -> Direction {
        match self {
            Direction::Up => Direction::Down,
            Direction::Right => Direction::Left,
            Direction::Down => Direction::Up,
            Direction::Left => Direction::Right,
        }
    }
}

/// Whether `cell` names a cell of the board of side `width`.
pub open spec fn on_board(width: int, cell: int) -> bool {
    0 <= cell < width * width
}

/// The cell in row `row` and column `col`.
pub open spec fn cell_at(width: int, row: int, col: int) -> int {
    row * width + col
}

/// The cell reached from `cell` by one move in `direction`. A move past an
/// edge comes back in at the opposite edge of the same row or column.
pub open spec fn neighbor(width: int, cell: int, direction: Direction) -> int {
    let row = cell / width;
    let col = cell % width;
    match direction {
        Direction::Right => if col == width - 1 {
            cell_at(width, row, 0)
        } else {
            cell + 1
        },
        Direction::Left => if col == 0 {
            cell_at(width, row, width - 1)
        } else {
            cell - 1
        },
        Direction::Up => if row == 0 {
            cell_at(width, width - 1, col)
        } else {
            cell - width
        },
        Direction::Down => if row == width - 1 {
            cell_at(width, 0, col)
        } else {
            cell + width
        },
    }
}

/// Every cell of the board has a row and a column below `width`, and is the
/// cell at that row and column.
pub proof fn lemma_coordinates(width: int, cell: int)
    requires
        width > 0,
        on_board(width, cell),
    ensures
        0 <= cell / width < width,
        0 <= cell % width < width,
        cell == cell_at(width, cell / width, cell % width),
{
    lemma_fundamental_div_mod(cell, width);
    lemma_mod_bound(cell, width);
    let row = cell / width;
    let col = cell % width;
    assert(width * row == row * width) by (nonlinear_arith);
    assert(0 <= row < width) by (nonlinear_arith)
        requires
            width > 0,
            0 <= col < width,
            0 <= row * width + col < width * width,
    ;
}

/// Row and column determine the cell: `cell_at` is on the board and has the
/// row and the column it was made from.
pub proof fn lemma_cell_at(width: int, row: int, col: int)
    requires
        width > 0,
        0 <= row < width,
        0 <= col < width,
    ensures
        on_board(width, cell_at(width, row, col)),
        cell_at(width, row, col) / width == row,
        cell_at(width, row, col) % width == col,
{
    lemma_fundamental_div_mod_converse(cell_at(width, row, col), width, row, col);
    assert(0 <= row * width + col < width * width) by (nonlinear_arith)
        requires
            width > 0,
            0 <= row < width,
            0 <= col < width,
    ;
}

/// One row further down lies `width` cells further on.
pub proof fn lemma_next_row(width: int, row: int, col: int)
    ensures
        cell_at(width, row + 1, col) == cell_at(width, row, col) + width,
{
    assert((row + 1) * width == row * width + width) by (nonlinear_arith);
}

/// The row reached from `row` by one move in `direction`: up and down go
/// round the rows, left and right stay.
pub open spec fn row_after(width: int, row: int, direction: Direction) -> int {
    match direction {
        Direction::Up => (row - 1) % width,
        Direction::Down => (row + 1) % width,
        _ => row,
    }
}

/// The column reached from `col` by one move in `direction`: left and right
/// go round the columns, up and down stay.
pub open spec fn col_after(width: int, col: int, direction: Direction) -> int {
    match direction {
        Direction::Left => (col - 1) % width,
        Direction::Right => (col + 1) % width,
        _ => col,
    }
}

/// One step round a ring of `width` places, forwards and backwards.
pub proof fn lemma_ring_step(width: int, k: int)
    requires
        width > 0,
        0 <= k < width,
    ensures
        k < width - 1 ==> (k + 1) % width == k + 1,
        k == width - 1 ==> (k + 1) % width == 0,
        k > 0 ==> (k - 1) % width == k - 1,
        k == 0 ==> (k - 1) % width == width - 1,
        0 <= (k + 1) % width < width,
        0 <= (k - 1) % width < width,
{
    if k < width - 1 {
        lemma_fundamental_div_mod_converse(k + 1, width, 0, k + 1);
    } else {
        lemma_fundamental_div_mod_converse(k + 1, width, 1, 0);
    }
    if k > 0 {
        lemma_fundamental_div_mod_converse(k - 1, width, 0, k - 1);
    } else {
        lemma_fundamental_div_mod_converse(k - 1, width, -1, width - 1);
    }
}

/// The board is a torus: a move changes the row or the column by one, round
/// the ring of rows or of columns, and leaves the other as it is.
pub proof fn lemma_neighbor_coordinates(width: int, row: int, col: int, direction: Direction)
    requires
        width > 0,
        0 <= row < width,
        0 <= col < width,
    ensures
        neighbor(width, cell_at(width, row, col), direction) == cell_at(
            width,
            row_after(width, row, direction),
            col_after(width, col, direction),
        ),
        0 <= row_after(width, row, direction) < width,
        0 <= col_after(width, col, direction) < width,
{
    lemma_cell_at(width, row, col);
    lemma_next_row(width, row, col);
    lemma_next_row(width, row - 1, col);
    lemma_ring_step(width, row);
    lemma_ring_step(width, col);
}

/// A move never leaves the board.
pub proof fn lemma_neighbor_on_board(width: int, cell: int, direction: Direction)
    requires
        width > 0,
        on_board(width, cell),
    ensures
        on_board(width, neighbor(width, cell, direction)),
{
    lemma_coordinates(width, cell);
    let row = cell / width;
    let col = cell % width;
    lemma_neighbor_coordinates(width, row, col, direction);
    lemma_cell_at(width, row_after(width, row, direction), col_after(width, col, direction));
}

/// The edges are joined pairwise. Moving right from the last column of row
/// `k` lands in its first column and moving left from there leads back;
/// moving up from the first row of column `k` lands in its last row and
/// moving down from there leads back.
pub proof fn lemma_edges_wrap(width: int, k: int)
    requires
        width > 0,
        0 <= k < width,
    ensures
        neighbor(width, cell_at(width, k, width - 1), Direction::Right) == cell_at(width, k, 0),
        neighbor(width, cell_at(width, k, 0), Direction::Left) == cell_at(width, k, width - 1),
        neighbor(width, cell_at(width, 0, k), Direction::Up) == cell_at(width, width - 1, k),
        neighbor(width, cell_at(width, width - 1, k), Direction::Down) == cell_at(width, 0, k),
{
    lemma_neighbor_coordinates(width, k, width - 1, Direction::Right);
    lemma_neighbor_coordinates(width, k, 0, Direction::Left);
    lemma_neighbor_coordinates(width, 0, k, Direction::Up);
    lemma_neighbor_coordinates(width, width - 1, k, Direction::Down);
    lemma_ring_step(width, width - 1);
    lemma_ring_step(width, 0);
}

/// A move followed by the move in the opposite direction leads back to where
/// it began, so a move in one direction is a one-to-one map of the board onto
/// itself.
pub proof fn lemma_opposite_moves_cancel(width: int, cell: int, direction: Direction)
    requires
        width > 0,
        on_board(width, cell),
    ensures
        neighbor(width, neighbor(width, cell, direction), direction.opposite()) == cell,
{
    lemma_coordinates(width, cell);
    let row = cell / width;
    let col = cell % width;
    let row_there = row_after(width, row, direction);
    let col_there = col_after(width, col, direction);
    lemma_neighbor_coordinates(width, row, col, direction);
    lemma_neighbor_coordinates(width, row_there, col_there, direction.opposite());
    lemma_ring_step(width, row);
    lemma_ring_step(width, col);
    lemma_ring_step(width, row_there);
    lemma_ring_step(width, col_there);
}

} // verus!
