//! The dense board: every cell of a rectangle, stored row by row.

use vstd::prelude::*;
use crate::interface::{grid, rectangular, shape, Board, Grid, Rows, Shape};
use crate::models::{Cell, CellState, Coordinates};

verus! {

/// The number of rows or columns that a side of `n` gives: `n` itself, or
/// none where `n` is negative.
pub open spec fn extent(n: int) -> nat {
    if n < 0 {
        0
    } else {
        n as nat
    }
}

/// The grid of `height` rows and `width` columns in which the cell in
/// column `x` of row `y` lies at `(x, y)` and has the state `paint(x, y)`.
/// A negative side counts as none.
pub open spec fn painted(width: int, height: int, paint: spec_fn(int, int) -> CellState) -> Grid {
    Seq::new(
        extent(height),
        |y: int|
            Seq::new(
                extent(width),
                |x: int|
                    Cell {
                        cell_state: paint(x, y),
                        location: Coordinates { x: x as i32, y: y as i32 },
                    },
            ),
    )
}

/// Whether the grid has `height` rows of `width` cells and each cell lies at
/// the coordinate of its column and row. A negative side counts as none.
pub open spec fn laid_out(cells: Grid, width: int, height: int) -> bool {
    &&& cells.len() == extent(height)
    &&& forall|y: int| 0 <= y < height ==> (#[trigger] cells[y]).len() == extent(width)
    &&& forall|x: int, y: int|
        0 <= x < width && 0 <= y < height ==> (#[trigger] cells[y][x]).location == Coordinates {
            x: x as i32,
            y: y as i32,
        }
}

/// Whether `(x, y)` lies on the main diagonal or directly beside it.
pub open spec fn on_diagonal(x: int, y: int) -> bool {
    x == y || x + 1 == y || x - 1 == y
}

/// The state of every cell of a board that is all alive.
pub fn alive_everywhere(c: Coordinates) -> (state: CellState)
    ensures
        state == CellState::Alive,
{
    CellState::Alive
}

/// The state of the cell at `c` in the diagonal pattern: alive on the main
/// diagonal and directly beside it, dead elsewhere.
pub fn diagonal_state(c: Coordinates) -> (state: CellState)
    ensures
        state == if on_diagonal(c.x as int, c.y as int) {
            CellState::Alive
        } else {
            CellState::Dead
        },
{
    let x: i64 = c.x as i64;
    let y: i64 = c.y as i64;
    if x == y || x + 1 == y || x - 1 == y {
        CellState::Alive
    } else {
        CellState::Dead
    }
}

/// The state that a coin flip gives a cell: alive on heads, dead on tails.
pub fn state_for_flip(heads: bool) -> (state: CellState)
    ensures
        state == if heads {
            CellState::Alive
        } else {
            CellState::Dead
        },
{
    if heads {
        CellState::Alive
    } else {
        CellState::Dead
    }
}

/// Flips a coin with `rand::random`, which draws from the generator of the
/// calling thread. Believed, not proved; nothing is claimed of the outcome.
#[verifier::external_body]
fn coin_flip() -> bool {
    rand::random::<bool>()
}

/// The state of a cell of a random board: one coin flip of its own.
pub fn random_state(c: Coordinates) -> (state: CellState)
    ensures
        state == CellState::Alive || state == CellState::Dead,
{
    state_for_flip(coin_flip())
}

/// A rectangle of cells, stored row by row: `height` rows of `width` cells
/// each. A board without rows has no width either.
#[derive(Debug, PartialEq, Eq)]
pub struct GridBoard {
    height: i32,
    width: i32,
    rows: Vec<Vec<Cell>>,
}

impl GridBoard {
    #[verifier::type_invariant]
    closed spec fn is_rectangle(self) -> bool {
        &&& self.height == self.rows@.len()
        &&& 0 <= self.width
        &&& self.height == 0 ==> self.width == 0
        &&& forall|y: int|
            0 <= y < self.rows@.len() ==> (#[trigger] self.rows@[y])@.len() == self.width
    }

    /// A board of the declared side `size` that holds no cells: it has no
    /// rows, and a lookup finds nothing at any coordinate.
    pub fn square(size: i32) -> (board: GridBoard)
        ensures
            board.cells() == Seq::<Seq<Cell>>::empty(),
    {
        let board = GridBoard { width: 0, height: 0, rows: Vec::new() };
        assert(board.cells() =~= Seq::<Seq<Cell>>::empty());
        board
    }

    /// The board that holds `rows`, which must form a rectangle.
    pub fn with_rows(rows: Vec<Vec<Cell>>) -> (board: GridBoard)
        requires
            <GridBoard as Board>::fits(shape(grid(rows@))),
        ensures
            board.cells() == grid(rows@),
    {
        let ghost lengths = shape(grid(rows@));
        let width: i32 = if rows.len() > 0 {
            assert(lengths[0] == rows@[0]@.len());
            rows[0].len() as i32
        } else {
            0
        };
        let height: i32 = rows.len() as i32;
        proof {
            assert forall|y: int| 0 <= y < rows@.len() implies (#[trigger] rows@[y])@.len()
                == width by {
                assert(lengths[y] == rows@[y]@.len());
                assert(lengths[0] == rows@[0]@.len());
            }
        }
        GridBoard { width, height, rows }
    }

    /// The board that holds `rows` if they form a rectangle that the board
    /// can index, and `None` if they do not.
    pub fn try_with_rows(rows: Vec<Vec<Cell>>) -> (made: Option<GridBoard>)
        ensures
            made is Some <==> <GridBoard as Board>::fits(shape(grid(rows@))),
            made matches Some(board) ==> board.cells() == grid(rows@),
    {
        let ghost lengths = shape(grid(rows@));
        if rows.len() > i32::MAX as usize {
            return None;
        }
        if rows.len() == 0 {
            return Some(GridBoard::with_rows(rows));
        }
        let width = rows[0].len();
        assert(lengths[0] == rows@[0]@.len());
        if width > i32::MAX as usize {
            return None;
        }
        let mut y: usize = 1;
        while y < rows.len()
            invariant
                1 <= y <= rows.len(),
                lengths == shape(grid(rows@)),
                width == rows@[0]@.len(),
                forall|i: int| 0 <= i < y ==> #[trigger] lengths[i] == width,
            decreases rows.len() - y,
        {
            assert(lengths[y as int] == rows@[y as int]@.len());
            if rows[y].len() != width {
                return None;
            }
            y += 1;
        }
        Some(GridBoard::with_rows(rows))
    }

    /// The square board of `size` rows and columns in which every cell is
    /// alive.
    pub fn all_alive(size: i32) -> (board: GridBoard)
        ensures
            board.cells() == painted(size as int, size as int, |x: int, y: int| CellState::Alive),
    {
        let board = GridBoard::fill_with(size, size, alive_everywhere);
        assert(board.cells() =~~= painted(
            size as int,
            size as int,
            |x: int, y: int| CellState::Alive,
        ));
        board
    }

    /// A square board of `size` rows and columns, each cell alive or dead by
    /// a coin flip of its own.
    pub fn random_square(size: i32) -> (board: GridBoard)
        ensures
            laid_out(board.cells(), size as int, size as int),
            forall|x: int, y: int|
                0 <= x < size && 0 <= y < size ==> {
                    let state = (#[trigger] board.cells()[y][x]).cell_state;
                    state == CellState::Alive || state == CellState::Dead
                },
    {
        GridBoard::random(size, size)
    }

    /// A board of `height` rows and `width` columns, each cell alive or dead
    /// by a coin flip of its own.
    pub fn random(width: i32, height: i32) -> (board: GridBoard)
        ensures
            laid_out(board.cells(), width as int, height as int),
            forall|x: int, y: int|
                0 <= x < width && 0 <= y < height ==> {
                    let state = (#[trigger] board.cells()[y][x]).cell_state;
                    state == CellState::Alive || state == CellState::Dead
                },
    {
        GridBoard::fill_with(width, height, random_state)
    }

    /// The board of `height` rows and `width` columns in which the cells on
    /// the main diagonal and directly beside it are alive and all others
    /// dead.
    pub fn diagonal(width: i32, height: i32) -> (board: GridBoard)
        ensures
            board.cells() == painted(
                width as int,
                height as int,
                |x: int, y: int|
                    if on_diagonal(x, y) {
                        CellState::Alive
                    } else {
                        CellState::Dead
                    },
            ),
    {
        let board = GridBoard::fill_with(width, height, diagonal_state);
        assert(board.cells() =~~= painted(
            width as int,
            height as int,
            |x: int, y: int|
                if on_diagonal(x, y) {
                    CellState::Alive
                } else {
                    CellState::Dead
                },
        ));
        board
    }

    /// The board of `height` rows and `width` columns in which the cell in
    /// column `x` of row `y` lies at `(x, y)` and has the state that
    /// `state_for_coords` gives for that coordinate.
    pub fn fill_with<F: Fn(Coordinates) -> CellState>(
        width: i32,
        height: i32,
        state_for_coords: F,
    ) -> (board: GridBoard)
        requires
            forall|c: Coordinates|
                0 <= c.x < width && 0 <= c.y < height ==> call_requires(state_for_coords, (c,)),
        ensures
            laid_out(board.cells(), width as int, height as int),
            forall|x: int, y: int|
                0 <= x < width && 0 <= y < height ==> {
                    let cell = #[trigger] board.cells()[y][x];
                    call_ensures(state_for_coords, (cell.location,), cell.cell_state)
                },
    {
        let rows = fill_rows(width, height, state_for_coords);
        let height: i32 = if height < 0 {
            0
        } else {
            height
        };
        let width: i32 = if height == 0 || width < 0 {
            0
        } else {
            width
        };
        proof {
            assert forall|y: int| 0 <= y < rows@.len() implies (#[trigger] rows@[y])@.len()
                == width by {
                assert(grid(rows@)[y].len() == width);
            }
        }
        GridBoard { width, height, rows }
    }
}

/// Rows of `width` cells, `height` of them, in which the cell in column `x`
/// of row `y` lies at `(x, y)` and has the state that `state_for_coords`
/// gives for that coordinate.
pub fn fill_rows<F: Fn(Coordinates) -> CellState>(
    width: i32,
    height: i32,
    state_for_coords: F,
) -> (rows: Vec<Vec<Cell>>)
    requires
        forall|c: Coordinates|
            0 <= c.x < width && 0 <= c.y < height ==> call_requires(state_for_coords, (c,)),
    ensures
        laid_out(grid(rows@), width as int, height as int),
        forall|x: int, y: int|
            0 <= x < width && 0 <= y < height ==> {
                let cell = #[trigger] grid(rows@)[y][x];
                call_ensures(state_for_coords, (cell.location,), cell.cell_state)
            },
{
    let mut rows: Vec<Vec<Cell>> = Vec::new();
    let mut y: i32 = 0;
    while y < height
        invariant
            0 <= y <= extent(height as int),
            rows@.len() == y,
            forall|c: Coordinates|
                0 <= c.x < width && 0 <= c.y < height ==> call_requires(
                    state_for_coords,
                    (c,),
                ),
            forall|j: int| 0 <= j < y ==> (#[trigger] rows@[j])@.len() == extent(width as int),
            forall|x: int, j: int|
                0 <= x < width && 0 <= j < y ==> {
                    let cell = #[trigger] rows@[j]@[x];
                    &&& cell.location == Coordinates { x: x as i32, y: j as i32 }
                    &&& call_ensures(state_for_coords, (cell.location,), cell.cell_state)
                },
        decreases height - y,
    {
        let mut row: Vec<Cell> = Vec::new();
        let mut x: i32 = 0;
        while x < width
            invariant
                0 <= x <= extent(width as int),
                0 <= y < height,
                row@.len() == x,
                forall|c: Coordinates|
                    0 <= c.x < width && 0 <= c.y < height ==> call_requires(
                        state_for_coords,
                        (c,),
                    ),
                forall|i: int|
                    0 <= i < x ==> {
                        let cell = #[trigger] row@[i];
                        &&& cell.location == Coordinates { x: i as i32, y: y }
                        &&& call_ensures(state_for_coords, (cell.location,), cell.cell_state)
                    },
            decreases width - x,
        {
            let location = Coordinates { x, y };
            let state = state_for_coords(location);
            let cell = Cell { cell_state: state, location: location };
            row.push(cell);
            x += 1;
        }
        rows.push(row);
        y += 1;
    }

    rows
}

impl Clone for GridBoard {
    fn clone(&self) -> (copy: GridBoard)
        ensures
            copy.cells() == self.cells(),
    {
        proof {
            use_type_invariant(self);
        }
        let rows = self.rows.clone();
        proof {
            assert forall|y: int| 0 <= y < rows@.len() implies rows@[y]@ == self.rows@[y]@ by {
                assert(cloned::<Vec<Cell>>(self.rows@[y], rows@[y]));
                assert(rows@[y]@ =~= self.rows@[y]@);
            }
            assert(grid(rows@) =~~= grid(self.rows@));
        }
        GridBoard { height: self.height, width: self.width, rows }
    }
}

impl Board for GridBoard {
    closed spec fn cells(&self) -> Grid {
        grid(self.rows@)
    }

    /// A rectangle whose sides can be indexed by the coordinate type.
    open spec fn fits(lengths: Shape) -> bool {
        &&& rectangular(lengths)
        &&& lengths.len() <= i32::MAX
        &&& lengths.len() > 0 ==> lengths[0] <= i32::MAX
    }

    fn at(&self, coordinates: Coordinates) -> (cell: Option<Cell>) {
        proof {
            use_type_invariant(self);
        }
        if coordinates.x >= 0 && coordinates.y >= 0 {
            if coordinates.y < self.height {
                if coordinates.x < self.width {
                    return Some(self.rows[coordinates.y as usize][coordinates.x as usize]);
                }
            }
        }
        None
    }

    fn rows(&self) -> (rows: &Rows) {
        proof {
            use_type_invariant(self);
            let lengths = shape(grid(self.rows@));
            assert forall|i: int, j: int|
                0 <= i < lengths.len() && 0 <= j < lengths.len() implies lengths[i]
                == lengths[j] by {
                assert(self.rows@[i]@.len() == self.width);
                assert(self.rows@[j]@.len() == self.width);
            }
            if lengths.len() > 0 {
                assert(self.rows@[0]@.len() == self.width);
            }
        }
        &self.rows
    }

    fn from_rows(rows: Rows) -> (board: GridBoard) {
        GridBoard::with_rows(rows)
    }
}

} // verus!
