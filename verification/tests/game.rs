use life::board::grid::GridBoard;
use life::game::{Action, Phase};
use life::generator::SquareGenerator;
use life::interface::{Board, Frames, Generator, Grid, Renderer, Rows, Shape};
use life::models::{Cell, CellState, Coordinates};
use life::Game;
use std::cell::RefCell;

#[derive(Debug, PartialEq, Eq, Clone, Hash)]
struct FakeBoard {
    seed: i32,
    rows: Vec<Vec<Cell>>,
}

impl FakeBoard {
    fn new(seed: i32) -> FakeBoard {
        FakeBoard { seed, rows: vec![] }
    }
}

// The functions that only return `unreachable!()` below are the ghost items
// of the traits: they exist for proofs and are never called.
impl Board for FakeBoard {
    fn cells(&self) -> Grid {
        unreachable!()
    }

    fn fits(_lengths: Shape) -> bool {
        unreachable!()
    }

    #[allow(unused_variables)]
    fn at(&self, coordinates: Coordinates) -> Option<Cell> {
        None
    }

    fn rows(&self) -> &Rows {
        &self.rows
    }

    fn from_rows(rows: Rows) -> FakeBoard {
        FakeBoard { seed: 0, rows }
    }
}

struct FakeGenerator<T: Board> {
    boards: RefCell<Vec<T>>,
}

impl<T: Board> FakeGenerator<T> {
    fn new() -> FakeGenerator<T> {
        FakeGenerator {
            boards: RefCell::new(Vec::new()),
        }
    }
}

impl Generator<FakeBoard> for FakeGenerator<FakeBoard> {
    fn evolve(&self, _cells: Grid) -> Grid {
        unreachable!()
    }

    fn generate(&self, board: &FakeBoard) -> FakeBoard {
        self.boards.borrow_mut().push(board.clone());
        FakeBoard::new(1337)
    }
}

struct FakeRenderer<T: Board> {
    boards: Vec<T>,
}

impl<T: Board> FakeRenderer<T> {
    fn new() -> FakeRenderer<T> {
        FakeRenderer { boards: Vec::new() }
    }
}

impl<T: Board> Renderer<T> for FakeRenderer<T> {
    fn shown(&self) -> Frames {
        unreachable!()
    }

    fn render(&mut self, board: &T) {
        self.boards.push(board.clone());
    }
}

/// A generator that counts the boards it is handed.
struct CountingGenerator {
    seen: RefCell<Vec<i32>>,
}

impl Generator<FakeBoard> for CountingGenerator {
    fn evolve(&self, _cells: Grid) -> Grid {
        unreachable!()
    }

    fn generate(&self, board: &FakeBoard) -> FakeBoard {
        self.seen.borrow_mut().push(board.seed);
        FakeBoard::new(board.seed + 1)
    }
}

#[test]
fn zero_generations_returns_the_original_board() {
    let generator = FakeGenerator::new();
    let mut renderer = FakeRenderer::new();
    let seed_board = FakeBoard::new(0);
    let game = Game::new(seed_board.clone(), &mut renderer, &generator);
    let result_board = game.play(0);

    assert_eq!(seed_board, result_board);
}

#[test]
fn the_game_renders_the_board() {
    let generator = FakeGenerator::new();
    let mut renderer = FakeRenderer::new();
    let board = FakeBoard::new(0);
    let game = Game::new(board.clone(), &mut renderer, &generator);
    let _ = game.play(0);

    assert_eq!(renderer.boards.first(), Some(&board));
}

#[test]
fn the_game_renders_the_board_for_each_generation() {
    let generator = FakeGenerator::new();
    let mut renderer = FakeRenderer::new();
    let board = FakeBoard::new(0);
    let game = Game::new(board.clone(), &mut renderer, &generator);
    let _ = game.play(500);

    assert_eq!(renderer.boards.len(), 501);
}

#[test]
fn the_game_passes_the_board_to_the_generator() {
    let generator = FakeGenerator::new();
    let mut renderer = FakeRenderer::new();
    let board = FakeBoard::new(0);
    let game = Game::new(board.clone(), &mut renderer, &generator);
    let _ = game.play(1);

    assert_eq!(generator.boards.borrow().first(), Some(&board));
}

#[test]
fn the_generator_creates_new_boards() {
    let generator = FakeGenerator::new();
    let mut renderer = FakeRenderer::new();
    let board = FakeBoard::new(0);
    let game = Game::new(board.clone(), &mut renderer, &generator);
    let result = game.play(1);

    assert_eq!(result, FakeBoard::new(1337));
}

#[test]
fn zero_generations_render_once_and_generate_nothing() {
    let generator = FakeGenerator::new();
    let mut renderer = FakeRenderer::new();
    let board = FakeBoard::new(0);
    let game = Game::new(board.clone(), &mut renderer, &generator);
    let _ = game.play(0);

    assert_eq!(renderer.boards.len(), 1);
    assert_eq!(generator.boards.borrow().len(), 0);
}

#[test]
fn each_generation_is_made_from_the_board_before_it() {
    let generator = CountingGenerator { seen: RefCell::new(Vec::new()) };
    let mut renderer = FakeRenderer::new();
    let game = Game::new(FakeBoard::new(10), &mut renderer, &generator);
    let last = game.play(4);

    assert_eq!(last, FakeBoard::new(14));
    assert_eq!(*generator.seen.borrow(), vec![10, 11, 12, 13]);
    let shown: Vec<i32> = renderer.boards.iter().map(|b| b.seed).collect();
    assert_eq!(shown, vec![10, 11, 12, 13, 14]);
}

#[test]
fn a_run_taken_step_by_step() {
    let generator = CountingGenerator { seen: RefCell::new(Vec::new()) };
    let mut renderer = FakeRenderer::new();
    let mut game = Game::new(FakeBoard::new(0), &mut renderer, &generator);

    let mut phase = Phase::Idle;
    let mut actions = Vec::new();
    let mut phases = Vec::new();
    loop {
        let action = phase.next_action(2);
        actions.push(action);
        if action == Action::Stop {
            break;
        }
        phase = game.step(phase, 2);
        phases.push(phase);
    }
    assert_eq!(
        actions,
        vec![Action::ShowSeed, Action::Advance, Action::Advance, Action::Stop]
    );
    assert_eq!(
        phases,
        vec![Phase::Rendered(0), Phase::Rendered(1), Phase::Rendered(2)]
    );
    assert_eq!(game.step(phase, 2), Phase::Terminal(2));
    assert_eq!(game.step(Phase::Terminal(2), 2), Phase::Terminal(2));
    assert_eq!(Phase::Terminal(2).next_action(2), Action::Stop);
    let last = game.into_board();

    assert_eq!(last, FakeBoard::new(2));
    assert_eq!(*generator.seen.borrow(), vec![0, 1]);
    assert_eq!(renderer.boards.len(), 3);
}

#[test]
fn a_step_past_the_end_changes_nothing() {
    let generator = CountingGenerator { seen: RefCell::new(Vec::new()) };
    let mut renderer = FakeRenderer::new();
    let mut game = Game::new(FakeBoard::new(7), &mut renderer, &generator);
    assert_eq!(game.step(Phase::Rendered(3), 3), Phase::Terminal(3));
    assert_eq!(game.step(Phase::Rendered(9), 3), Phase::Terminal(9));
    let last = game.into_board();
    assert_eq!(last, FakeBoard::new(7));
    assert!(generator.seen.borrow().is_empty());
    assert!(renderer.boards.is_empty());
}

#[test]
fn the_game_of_life_played_on_a_grid() {
    let generator = SquareGenerator {};
    let mut renderer = FakeRenderer::new();
    let seed = GridBoard::all_alive(3);
    let game = Game::new(seed.clone(), &mut renderer, &generator);
    let last = game.play(2);

    assert_eq!(renderer.boards.len(), 3);
    assert_eq!(renderer.boards[0], seed);
    let first = generator.generate(&seed);
    assert_eq!(renderer.boards[1], first);
    let second = generator.generate(&first);
    assert_eq!(renderer.boards[2], second);
    assert_eq!(last, second);
    assert_eq!(
        last.at(Coordinates { x: 1, y: 1 }).map(|c| c.cell_state),
        Some(CellState::Dead)
    );
}
