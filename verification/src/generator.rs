//! The generator: every cell of a board meets the transition rule, with the
//! states of the neighbours that the board has for it.

use vstd::prelude::*;
use rayon::iter::{IntoParallelRefIterator, ParallelIterator};
use crate::engine::{next_cell, process};
use crate::interface::{cell_at, grid, in_domain, shape, Board, Generator, Grid};
use crate::models::{Cell, CellState, Coordinates};

verus! {

/// The states of the cells that the grid holds around `c`, in the order of
/// the neighbourhood. A neighbour outside the grid adds nothing.
pub open spec fn states_around(cells: Grid, c: Coordinates) -> Seq<CellState> {
    c.neighbourhood().filter_map(|n: Coordinates| cell_at(cells, n)).map_values(
        |cell: Cell| cell.cell_state,
    )
}

/// What follows `row` in one step of the grid `cells`: each cell at its
/// place, after the rule has seen the states around its location.
pub open spec fn row_after(cells: Grid, row: Seq<Cell>) -> Seq<Cell> {
    Seq::new(row.len(), |x: int| next_cell(row[x], states_around(cells, row[x].location)))
}

/// The grid that follows `cells`: each row at its place, stepped by
/// [`row_after`].
pub open spec fn next_generation(cells: Grid) -> Grid {
    Seq::new(cells.len(), |y: int| row_after(cells, cells[y]))
}

/// Boards that hold the same cells step to the same cells.
pub proof fn lemma_equal_boards_step_alike<A: Board, B: Board>(one: A, other: B)
    requires
        one.cells() == other.cells(),
    ensures
        next_generation(one.cells()) == next_generation(other.cells()),
{
}

/// A step keeps the shape of the grid and the location of every cell: no
/// cell comes or goes.
pub proof fn lemma_step_keeps_the_frame(cells: Grid)
    ensures
        shape(next_generation(cells)) == shape(cells),
        forall|c: Coordinates| in_domain(next_generation(cells), c) == in_domain(cells, c),
        forall|x: int, y: int|
            0 <= y < cells.len() && 0 <= x < cells[y].len() ==> {
                let next = #[trigger] next_generation(cells)[y][x];
                next.location == cells[y][x].location
            },
{
    assert(shape(next_generation(cells)) =~= shape(cells));
}

/// The generator of the game of life.
pub struct SquareGenerator {}

impl<T: Board> Generator<T> for SquareGenerator {
    open spec fn evolve(&self, cells: Grid) -> Grid {
        next_generation(cells)
    }

    fn generate(&self, board: &T) -> (next: T)
        ensures
            next.cells() == next_generation(board.cells()),
            shape(next.cells()) == shape(board.cells()),
    {
        let rows = board.rows();
        let new_rows = par_map(
            rows,
            |row: &Vec<Cell>| -> (stepped: Vec<Cell>)
                ensures stepped@ == row_after(board.cells(), row@)
                { next_row(board, row) },
        );
        proof {
            assert(grid(new_rows@) =~~= next_generation(board.cells()));
            lemma_step_keeps_the_frame(board.cells());
        }
        T::from_rows(new_rows)
    }
}

/// Steps one row of `board`.
pub fn next_row<T: Board>(board: &T, row: &Vec<Cell>) -> (stepped: Vec<Cell>)
    ensures
        stepped@ == row_after(board.cells(), row@),
{
    let stepped = par_map(
        row,
        |cell: &Cell| -> (next: Cell)
            ensures next == next_cell(*cell, states_around(board.cells(), cell.location))
            { process(cell, neighbour_states(board, cell)) },
    );
    assert(stepped@ =~= row_after(board.cells(), row@));
    stepped
}

/// The states of the neighbours of `cell` that `board` has.
pub fn neighbour_states<T: Board>(board: &T, cell: &Cell) -> (states: Vec<CellState>)
    ensures
        states@ == states_around(board.cells(), cell.location),
{
    let around = cell.location.neighbours();
    let ghost cells = board.cells();
    let ghost lookup = |n: Coordinates| cell_at(cells, n);
    let ghost state_of = |found: Cell| found.cell_state;
    let mut states: Vec<CellState> = Vec::new();
    let mut i: usize = 0;
    while i < around.len()
        invariant
            i <= around.len(),
            cells == board.cells(),
            lookup == (|n: Coordinates| cell_at(cells, n)),
            state_of == (|found: Cell| found.cell_state),
            states@ == around@.take(i as int).filter_map(lookup).map_values(state_of),
        decreases around.len() - i,
    {
        proof {
            around@.lemma_filter_map_take_succ(lookup, i as int);
        }
        let ghost seen = around@.take(i as int).filter_map(lookup);
        match board.at(around[i]) {
            Some(found) => {
                states.push(found.cell_state);
                assert((seen + seq![found]).map_values(state_of) =~= seen.map_values(state_of).push(
                    found.cell_state,
                ));
            },
            None => {
                assert(seen + Seq::<Cell>::empty() =~= seen);
            },
        }
        i += 1;
    }
    proof {
        assert(around@.take(around.len() as int) =~= around@);
    }
    states
}

/// Applies `f` to every item with rayon's `par_iter().map(f).collect()`.
///
/// Believed, not proved: rayon calls `f` once on each item, on whatever
/// worker thread, and collecting the items of a slice into a `Vec` keeps
/// their order. So the result has one entry for each item, and the entry is
/// a value that `f` returns for the item at its index.
#[verifier::external_body]
fn par_map<A: Sync, B: Send, F: Fn(&A) -> B + Sync + Send>(items: &Vec<A>, f: F) -> (mapped: Vec<B>)
    requires
        forall|i: int| 0 <= i < items.len() ==> call_requires(f, (&items[i],)),
    ensures
        mapped.len() == items.len(),
        forall|i: int| 0 <= i < items.len() ==> call_ensures(f, (&items[i],), #[trigger] mapped[i]),
{
    items.par_iter().map(f).collect()
}

} // verus!
