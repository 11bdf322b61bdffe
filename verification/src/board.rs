//! The representations of a board.

use vstd::prelude::*;
use crate::interface::{grid, Board, Grid, Rows, Shape};
use crate::models::{Cell, Coordinates};

pub mod grid;
pub mod square;

verus! {

/// The board without cells.
#[derive(Debug, PartialEq, Eq)]
pub struct EmptyBoard {
    rows: Rows,
}

impl EmptyBoard {
    #[verifier::type_invariant]
    closed spec fn no_rows(self) -> bool {
        self.rows@.len() == 0
    }

    /// The board without cells.
    pub fn new() -> (board: EmptyBoard)
        ensures
            board.cells() == Seq::<Seq<Cell>>::empty(),
    {
        EmptyBoard { rows: Vec::new() }
    }
}

impl Clone for EmptyBoard {
    fn clone(&self) -> (copy: EmptyBoard)
        ensures
            copy.cells() == self.cells(),
    {
        proof {
            use_type_invariant(self);
            assert(self.cells() =~= Seq::<Seq<Cell>>::empty());
        }
        EmptyBoard::new()
    }
}

impl Board for EmptyBoard {
    closed spec fn cells(&self) -> Grid {
        grid(self.rows@)
    }

    open spec fn fits(lengths: Shape) -> bool {
        lengths.len() == 0
    }

    fn at(&self, coordinates: Coordinates) -> (cell: Option<Cell>)
        ensures
            cell is None,
    {
        proof {
            use_type_invariant(self);
        }
        None
    }

    fn rows(&self) -> (rows: &Rows)
        ensures
            rows@.len() == 0,
    {
        proof {
            use_type_invariant(self);
        }
        &self.rows
    }

    fn from_rows(rows: Rows) -> (board: EmptyBoard) {
        EmptyBoard { rows }
    }
}

} // verus!
