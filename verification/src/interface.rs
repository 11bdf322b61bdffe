//! What the parts of the game ask of each other: a board that can be looked
//! up and walked row by row, a generator that steps it, and a renderer that
//! shows it.

use vstd::prelude::*;
use crate::models::{Cell, Coordinates};

verus! {

/// The cells of a board as they are stored: row by row, top row first.
pub type Rows = Vec<Vec<Cell>>;

/// The cells of a board as a mathematical value: `grid[y][x]` is the cell in
/// row `y`, column `x`.
pub type Grid = Seq<Seq<Cell>>;

/// The length of each row of a grid, top row first.
pub type Shape = Seq<nat>;

/// A run of boards, oldest first.
pub type Frames = Seq<Grid>;

/// The grid that stored rows stand for.
pub open spec fn grid(rows: Seq<Vec<Cell>>) -> Grid {
    Seq::new(rows.len(), |y: int| rows[y]@)
}

/// The shape of a grid.
pub open spec fn shape(cells: Grid) -> Shape {
    Seq::new(cells.len(), |y: int| cells[y].len())
}

/// Whether every row of the shape has the same length.
pub open spec fn rectangular(lengths: Shape) -> bool {
    forall|i: int, j: int|
        0 <= i < lengths.len() && 0 <= j < lengths.len() ==> lengths[i] == lengths[j]
}

/// Whether the grid has a cell in column `c.x` of row `c.y`: the domain of
/// a board.
pub open spec fn in_domain(cells: Grid, c: Coordinates) -> bool {
    0 <= c.y < cells.len() && 0 <= c.x < cells[c.y as int].len()
}

/// The cell that a grid holds at a coordinate: the entry of row `c.y` in
/// column `c.x` inside the domain, nothing outside it.
pub open spec fn cell_at(cells: Grid, c: Coordinates) -> Option<Cell> {
    if in_domain(cells, c) {
        Some(cells[c.y as int][c.x as int])
    } else {
        None
    }
}

/// A rectangular arrangement of cells, whatever its representation.
///
/// Every board stands for a [`Grid`], and both operations answer from it:
/// `rows` hands out the grid itself and `at` looks a coordinate up in it.
pub trait Board: Clone + Sync {
    /// The grid that the board stands for.
    spec fn cells(&self) -> Grid;

    /// The shapes that this representation can hold.
    spec fn fits(lengths: Shape) -> bool;

    /// The cell at `coordinates`, or `None` where the board has none.
    fn at(&self, coordinates: Coordinates) -> (cell: Option<Cell>)
        ensures
            cell == cell_at(self.cells(), coordinates),
    ;

    /// The cells of the board, row by row.
    fn rows(&self) -> (rows: &Rows)
        ensures
            grid(rows@) == self.cells(),
            Self::fits(shape(self.cells())),
    ;

    /// A board of this representation that holds `rows`.
    fn from_rows(rows: Rows) -> (board: Self)
        requires
            Self::fits(shape(grid(rows@))),
        ensures
            board.cells() == grid(rows@),
    ;
}

/// Something that shows boards, one after another.
pub trait Renderer<T: Board> {
    /// The boards shown so far, oldest first.
    spec fn shown(&self) -> Frames;

    /// Shows `board`.
    fn render(&mut self, board: &T)
        ensures
            final(self).shown() == old(self).shown().push(board.cells()),
    ;
}

/// Something that derives the next board from the current one.
pub trait Generator<T: Board> {
    /// The grid that follows `cells`.
    spec fn evolve(&self, cells: Grid) -> Grid;

    /// The board that follows `board`.
    fn generate(&self, board: &T) -> (next: T)
        ensures
            next.cells() == self.evolve(board.cells()),
    ;
}

/// What `at` finds is what walking the rows reaches: outside the domain of
/// the board there is no cell, and inside it the cell is the entry of its
/// row in its column.
pub proof fn lemma_lookup_agrees_with_rows<T: Board>(board: T, c: Coordinates)
    ensures
        !in_domain(board.cells(), c) ==> cell_at(board.cells(), c) is None,
        in_domain(board.cells(), c) ==> cell_at(board.cells(), c) == Some(
            board.cells()[c.y as int][c.x as int],
        ),
{
}

} // verus!
