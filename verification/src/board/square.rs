//! The sparse board: a map from the coordinates that hold a cell to that
//! cell, beside the rows it was made from.

use vstd::prelude::*;
use std::collections::HashMap;
use crate::board::grid::{alive_everywhere, extent, fill_rows, painted};
use crate::interface::{cell_at, grid, shape, Board, Grid, Rows, Shape};
use crate::models::{Cell, CellState, Coordinates};

verus! {

/// The number under which the map files a coordinate: the column and the
/// row, each counted from the least value of its type, side by side.
pub open spec fn key_of(c: Coordinates) -> u64 {
    ((c.x + 0x8000_0000) * 0x1_0000_0000 + (c.y + 0x8000_0000)) as u64
}

/// What a map of filed cells holds for a coordinate.
pub open spec fn filed(cells: Map<u64, Cell>, c: Coordinates) -> Option<Cell> {
    if cells.contains_key(key_of(c)) {
        Some(cells[key_of(c)])
    } else {
        None
    }
}

/// No two coordinates are filed under one number.
pub proof fn lemma_key_is_unique(a: Coordinates, b: Coordinates)
    ensures
        key_of(a) == key_of(b) <==> a == b,
{
}

/// Executable form of [`key_of`].
pub fn key(c: Coordinates) -> (k: u64)
    ensures
        k == key_of(c),
{
    let column: u64 = (c.x as i64 + 0x8000_0000) as u64;
    let row: u64 = (c.y as i64 + 0x8000_0000) as u64;
    column * 0x1_0000_0000 + row
}

/// A board that finds its cells through a map keyed by their place.
#[derive(Debug, PartialEq, Eq)]
pub struct SquareBoard {
    cells: HashMap<u64, Cell>,
    size: i32,
    rows: Vec<Vec<Cell>>,
}

impl SquareBoard {
    #[verifier::type_invariant]
    closed spec fn map_mirrors_rows(self) -> bool {
        &&& <SquareBoard as Board>::fits(shape(grid(self.rows@)))
        &&& forall|c: Coordinates| #[trigger]
            filed(self.cells@, c) == cell_at(grid(self.rows@), c)
    }

    /// The side that the board was made with.
    pub closed spec fn side(&self) -> int {
        self.size as int
    }

    /// A board of the given side without any cell.
    pub fn new(size: i32) -> (board: SquareBoard)
        ensures
            board.side() == size,
            board.cells() == Seq::<Seq<Cell>>::empty(),
    {
        SquareBoard { size: size, cells: HashMap::new(), rows: Vec::new() }
    }

    /// The board of `size` rows and columns in which every cell is alive. A
    /// side below one gives a board without cells.
    pub fn all_alive(size: i32) -> (board: SquareBoard)
        ensures
            board.side() == size,
            board.cells() == painted(size as int, size as int, |x: int, y: int| CellState::Alive),
    {
        let rows = fill_rows(size, size, alive_everywhere);
        proof {
            assert(grid(rows@) =~~= painted(
                size as int,
                size as int,
                |x: int, y: int| CellState::Alive,
            ));
            assert forall|y: int| 0 <= y < shape(grid(rows@)).len() implies #[trigger] shape(
                grid(rows@),
            )[y] <= i32::MAX by {
                assert(grid(rows@)[y].len() == extent(size as int));
            }
        }
        SquareBoard::index(rows, size)
    }

    /// The board of the given side that holds `rows`, each cell filed under
    /// its column and row.
    fn index(rows: Vec<Vec<Cell>>, size: i32) -> (board: SquareBoard)
        requires
            <SquareBoard as Board>::fits(shape(grid(rows@))),
        ensures
            board.side() == size,
            board.cells() == grid(rows@),
    {
        broadcast use vstd::std_specs::hash::group_hash_axioms;

        let ghost cells_of = grid(rows@);
        let mut cells: HashMap<u64, Cell> = HashMap::new();
        let mut y: usize = 0;
        while y < rows.len()
            invariant
                y <= rows.len(),
                cells_of == grid(rows@),
                <SquareBoard as Board>::fits(shape(cells_of)),
                forall|c: Coordinates| #[trigger]
                    filed(cells@, c) == if c.y < y {
                        cell_at(cells_of, c)
                    } else {
                        None
                    },
            decreases rows.len() - y,
        {
            let row = &rows[y];
            assert(shape(cells_of)[y as int] == row@.len());
            let mut x: usize = 0;
            while x < row.len()
                invariant
                    y < rows.len(),
                    rows.len() <= i32::MAX,
                    x <= row.len(),
                    row.len() <= i32::MAX,
                    cells_of == grid(rows@),
                    row@ == cells_of[y as int],
                    forall|c: Coordinates| #[trigger]
                        filed(cells@, c) == if c.y < y || (c.y == y && c.x < x) {
                            cell_at(cells_of, c)
                        } else {
                            None
                        },
                decreases row.len() - x,
            {
                let place = Coordinates { x: x as i32, y: y as i32 };
                let ghost before = cells@;
                cells.insert(key(place), row[x]);
                proof {
                    assert forall|c: Coordinates| #[trigger]
                        filed(cells@, c) == if c.y < y || (c.y == y && c.x < x + 1) {
                            cell_at(cells_of, c)
                        } else {
                            None
                        } by {
                        lemma_key_is_unique(c, place);
                        assert(filed(before, c) == if c.y < y || (c.y == y && c.x < x) {
                            cell_at(cells_of, c)
                        } else {
                            None
                        });
                    }
                }
                x += 1;
            }
            proof {
                assert forall|c: Coordinates| #[trigger]
                    filed(cells@, c) == if c.y < y + 1 {
                        cell_at(cells_of, c)
                    } else {
                        None
                    } by {
                    assert(filed(cells@, c) == if c.y < y || (c.y == y && c.x < row.len()) {
                        cell_at(cells_of, c)
                    } else {
                        None
                    });
                }
            }
            y += 1;
        }
        proof {
            assert forall|c: Coordinates| #[trigger] filed(cells@, c) == cell_at(cells_of, c) by {
                assert(filed(cells@, c) == if c.y < rows.len() {
                    cell_at(cells_of, c)
                } else {
                    None
                });
            }
        }
        SquareBoard { cells, size, rows }
    }
}

impl Clone for SquareBoard {
    fn clone(&self) -> (copy: SquareBoard)
        ensures
            copy.side() == self.side(),
            copy.cells() == self.cells(),
    {
        proof {
            use_type_invariant(self);
        }
        let cells = self.cells.clone();
        let rows = self.rows.clone();
        proof {
            assert forall|y: int| 0 <= y < rows@.len() implies rows@[y]@ == self.rows@[y]@ by {
                assert(cloned::<Vec<Cell>>(self.rows@[y], rows@[y]));
                assert(rows@[y]@ =~= self.rows@[y]@);
            }
            assert(grid(rows@) =~~= grid(self.rows@));
        }
        SquareBoard { cells, size: self.size, rows }
    }
}

impl Board for SquareBoard {
    closed spec fn cells(&self) -> Grid {
        grid(self.rows@)
    }

    /// Rows whose number and lengths can be indexed by the coordinate type.
    open spec fn fits(lengths: Shape) -> bool {
        &&& lengths.len() <= i32::MAX
        &&& forall|y: int| 0 <= y < lengths.len() ==> #[trigger] lengths[y] <= i32::MAX
    }

    fn at(&self, coordinates: Coordinates) -> (cell: Option<Cell>) {
        broadcast use vstd::std_specs::hash::group_hash_axioms;

        proof {
            use_type_invariant(self);
            assert(filed(self.cells@, coordinates) == cell_at(grid(self.rows@), coordinates));
        }
        match self.cells.get(&key(coordinates)) {
            Some(cell) => Some(*cell),
            None => None,
        }
    }

    fn rows(&self) -> (rows: &Rows) {
        proof {
            use_type_invariant(self);
        }
        &self.rows
    }

    fn from_rows(rows: Rows) -> (board: SquareBoard) {
        let size: i32 = rows.len() as i32;
        SquareBoard::index(rows, size)
    }
}

} // verus!
