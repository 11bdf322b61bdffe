use life::engine::process;
use life::models::{Cell, CellState, Coordinates};
use life::models::CellState::{Alive, Born, Dead, Died};

#[test]
fn a_dead_cell_with_no_neighbours_stays_dead() {
    let cell = Cell {
        cell_state: Dead,
        location: Coordinates { x: 0, y: 0 },
    };
    let neighbours: Vec<CellState> = vec![];

    let processed_cell = process(&cell, neighbours);

    assert_eq!(processed_cell.cell_state, Dead);
}

#[test]
fn a_dead_cell_with_dead_neighbours_stays_dead() {
    let cell = Cell {
        cell_state: Dead,
        location: Coordinates { x: 0, y: 0 },
    };
    let neighbours: Vec<CellState> = vec![Dead, Dead, Dead, Dead, Dead, Dead, Dead];

    let processed_cell = process(&cell, neighbours);

    assert_eq!(processed_cell.cell_state, Dead);
}

#[test]
fn a_dead_cell_with_less_than_three_live_neighbours_stays_dead() {
    let cell = Cell {
        cell_state: Dead,
        location: Coordinates { x: 0, y: 0 },
    };
    let neighbours: Vec<CellState> = vec![Alive, Alive, Dead, Dead, Dead, Dead, Dead];

    let processed_cell = process(&cell, neighbours);

    assert_eq!(processed_cell.cell_state, Dead);
}

#[test]
fn a_dead_cell_with_three_live_neighbours_comes_to_life() {
    let cell = Cell {
        cell_state: Dead,
        location: Coordinates { x: 0, y: 0 },
    };
    let neighbours: Vec<CellState> = vec![Alive, Alive, Alive, Dead, Dead, Dead, Dead];

    let processed_cell = process(&cell, neighbours);

    assert_eq!(processed_cell.cell_state, Born);
}

#[test]
fn born_cells_count_as_living() {
    let cell = Cell {
        cell_state: Dead,
        location: Coordinates { x: 0, y: 0 },
    };
    let neighbours: Vec<CellState> = vec![Born, Born, Alive, Dead, Dead, Dead, Dead];

    let processed_cell = process(&cell, neighbours);

    assert_eq!(processed_cell.cell_state, Born);
}

#[test]
fn a_dead_cell_with_more_than_three_live_neighbours_stays_dead() {
    let cell = Cell {
        cell_state: Dead,
        location: Coordinates { x: 0, y: 0 },
    };
    let neighbours: Vec<CellState> = vec![Alive, Alive, Alive, Alive, Alive, Dead, Dead];

    let processed_cell = process(&cell, neighbours);

    assert_eq!(processed_cell.cell_state, Dead);
}

#[test]
fn a_live_cell_with_no_neighbours_dies() {
    let cell = Cell {
        cell_state: Alive,
        location: Coordinates { x: 0, y: 0 },
    };
    let neighbours: Vec<CellState> = vec![];

    let processed_cell = process(&cell, neighbours);

    assert_eq!(processed_cell.cell_state, Died);
}

#[test]
fn a_live_cell_with_one_living_neighbour_dies() {
    let cell = Cell {
        cell_state: Alive,
        location: Coordinates { x: 0, y: 0 },
    };
    let neighbours: Vec<CellState> = vec![Alive];

    let processed_cell = process(&cell, neighbours);

    assert_eq!(processed_cell.cell_state, Died);
}

#[test]
fn a_live_cell_with_more_than_three_living_neighbours_dies() {
    let cell = Cell {
        cell_state: Alive,
        location: Coordinates { x: 0, y: 0 },
    };
    let neighbours: Vec<CellState> = vec![Alive, Alive, Alive, Alive];

    let processed_cell = process(&cell, neighbours);

    assert_eq!(processed_cell.cell_state, Died);
}

#[test]
fn a_live_cell_with_two_or_three_living_neighbours_stays_alive() {
    let cell = Cell {
        cell_state: Alive,
        location: Coordinates { x: 0, y: 0 },
    };
    let neighbours = vec![Alive, Alive];
    let neighbours2 = vec![Alive, Alive, Alive];

    let processed_cell = process(&cell, neighbours);
    let processed_cell2 = process(&cell, neighbours2);

    assert_eq!(processed_cell.cell_state, Alive);
    assert_eq!(processed_cell2.cell_state, Alive);
}

#[test]
fn a_born_cell_is_judged_as_a_living_one() {
    let cell = Cell {
        cell_state: Born,
        location: Coordinates { x: 3, y: 4 },
    };
    assert_eq!(process(&cell, vec![Alive, Born]).cell_state, Alive);
    assert_eq!(process(&cell, vec![Alive]).cell_state, Died);
    assert_eq!(process(&cell, vec![Alive, Alive, Born, Born]).cell_state, Died);
}

#[test]
fn a_died_cell_is_judged_as_a_dead_one() {
    let cell = Cell {
        cell_state: Died,
        location: Coordinates { x: 3, y: 4 },
    };
    assert_eq!(process(&cell, vec![Alive, Born, Alive]).cell_state, Born);
    assert_eq!(process(&cell, vec![Alive, Born]).cell_state, Dead);
}

#[test]
fn died_neighbours_do_not_count() {
    let cell = Cell {
        cell_state: Dead,
        location: Coordinates { x: 0, y: 0 },
    };
    let neighbours = vec![Alive, Alive, Died, Died, Dead, Alive, Died, Dead];
    assert_eq!(life::engine::count_of_living_neighbours(neighbours.clone()), 3);
    assert_eq!(process(&cell, neighbours).cell_state, Born);
}

#[test]
fn the_location_is_kept() {
    let location = Coordinates { x: -5, y: 17 };
    let cell = Cell { cell_state: Alive, location };
    assert_eq!(process(&cell, vec![]).location, location);
    assert_eq!(
        process(&cell, vec![Alive, Alive]),
        Cell { cell_state: Alive, location }
    );
}

#[test]
fn every_count_from_none_to_eight() {
    let dead = Cell { cell_state: Dead, location: Coordinates { x: 0, y: 0 } };
    let alive = Cell { cell_state: Alive, location: Coordinates { x: 0, y: 0 } };
    let expected_dead = [Dead, Dead, Dead, Born, Dead, Dead, Dead, Dead, Dead];
    let expected_alive = [Died, Died, Alive, Alive, Died, Died, Died, Died, Died];
    for living in 0..9usize {
        let mut neighbours = vec![Alive; living];
        neighbours.resize(8, Dead);
        assert_eq!(process(&dead, neighbours.clone()).cell_state, expected_dead[living]);
        assert_eq!(process(&alive, neighbours).cell_state, expected_alive[living]);
    }
}

#[test]
fn the_two_halves_of_the_rule() {
    let cell = Cell { cell_state: Alive, location: Coordinates { x: 1, y: 1 } };
    assert_eq!(life::engine::process_dead_cell(&cell, vec![Alive, Alive, Alive]).cell_state, Born);
    assert_eq!(life::engine::process_dead_cell(&cell, vec![Alive, Alive]).cell_state, Dead);
    assert_eq!(life::engine::process_living_cell(&cell, vec![Alive, Alive]).cell_state, Alive);
    assert_eq!(life::engine::process_living_cell(&cell, vec![Alive]).cell_state, Died);
}
