//! The transition rule: what becomes of one cell, given the states of the
//! neighbours that are present.

use vstd::prelude::*;
use crate::models::{Cell, CellState};

verus! {

/// How many of `states` count as alive.
pub open spec fn living_count(states: Seq<CellState>) -> nat {
    states.filter(|s: CellState| s.is_living()).len()
}

/// The state that follows `state` when `living` of the neighbours are alive.
///
/// A dead cell is born with exactly three living neighbours and stays dead
/// otherwise; a living cell survives with two or three and dies otherwise.
pub open spec fn next_state(state: CellState, living: nat) -> CellState {
    if state.is_living() {
        if living == 2 || living == 3 {
            CellState::Alive
        } else {
            CellState::Died
        }
    } else {
        if living == 3 {
            CellState::Born
        } else {
            CellState::Dead
        }
    }
}

/// The cell that follows `cell` when its present neighbours are in `states`:
/// the same location, the state given by [`next_state`].
pub open spec fn next_cell(cell: Cell, states: Seq<CellState>) -> Cell {
    Cell {
        cell_state: next_state(cell.cell_state, living_count(states)),
        location: cell.location,
    }
}

/// The cell that follows `cell` when the neighbours that are present have
/// the states in `neighbours`.
pub fn process(cell: &Cell, neighbours: Vec<CellState>) -> (r: Cell)
    ensures
        r == next_cell(*cell, neighbours@),
        r.location == cell.location,
        !cell.cell_state.is_living() ==> r.cell_state == if living_count(neighbours@) == 3 {
            CellState::Born
        } else {
            CellState::Dead
        },
        cell.cell_state.is_living() ==> r.cell_state == if 2 <= living_count(neighbours@) <= 3 {
            CellState::Alive
        } else {
            CellState::Died
        },
{
    match cell.cell_state {
        CellState::Died | CellState::Dead => process_dead_cell(cell, neighbours),
        CellState::Born | CellState::Alive => process_living_cell(cell, neighbours),
    }
}

/// The rule for a cell that is not alive: born with exactly three living
/// neighbours, dead otherwise.
pub fn process_dead_cell(cell: &Cell, neighbours: Vec<CellState>) -> (r: Cell)
    ensures
        r.location == cell.location,
        r.cell_state == if living_count(neighbours@) == 3 {
            CellState::Born
        } else {
            CellState::Dead
        },
{
    let new_state = if count_of_living_neighbours(neighbours) == 3 {
        CellState::Born
    } else {
        CellState::Dead
    };

    Cell { cell_state: new_state, location: cell.location }
}

/// The rule for a cell that is alive: it stays alive with two or three
/// living neighbours and dies otherwise.
pub fn process_living_cell(cell: &Cell, neighbours: Vec<CellState>) -> (r: Cell)
    ensures
        r.location == cell.location,
        r.cell_state == if 2 <= living_count(neighbours@) <= 3 {
            CellState::Alive
        } else {
            CellState::Died
        },
{
    let living = count_of_living_neighbours(neighbours);
    let new_state = if living < 2 || living > 3 {
        CellState::Died
    } else {
        CellState::Alive
    };

    Cell { cell_state: new_state, location: cell.location }
}

/// How many of the states count as alive.
pub fn count_of_living_neighbours(neighbours: Vec<CellState>) -> (count: usize)
    ensures
        count == living_count(neighbours@),
{
    let ghost alive = |s: CellState| s.is_living();
    let mut count: usize = 0;
    let mut i: usize = 0;
    while i < neighbours.len()
        invariant
            i <= neighbours.len(),
            alive == (|s: CellState| s.is_living()),
            count == neighbours@.take(i as int).filter(alive).len(),
            count <= i,
        decreases neighbours.len() - i,
    {
        proof {
            let seen = neighbours@.take(i as int);
            seen.lemma_filter_len_push(alive, neighbours@[i as int]);
            assert(neighbours@.take(i + 1) =~= seen.push(neighbours@[i as int]));
        }
        if neighbours[i].living() {
            count += 1;
        }
        i += 1;
    }
    proof {
        assert(neighbours@.take(neighbours.len() as int) =~= neighbours@);
    }
    count
}

} // verus!
