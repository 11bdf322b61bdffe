use life::board::grid::GridBoard;
use life::board::EmptyBoard;
use life::interface::Renderer;
use life::models::CellState::{Alive, Born, Dead, Died};
use life::models::{Cell, CellState, Coordinates};
use life::renderer::{StringRenderer, StringTransformer};
use termion::color;

fn cell(state: CellState, x: i32, y: i32) -> Cell {
    Cell { cell_state: state, location: Coordinates { x, y } }
}

fn sample() -> GridBoard {
    GridBoard::with_rows(vec![
        vec![cell(Alive, 0, 0), cell(Dead, 1, 0), cell(Born, 2, 0)],
        vec![cell(Died, 0, 1), cell(Alive, 1, 1), cell(Alive, 2, 1)],
    ])
}

#[test]
fn born_cells_are_green() {
    let location = Coordinates { x: 0, y: 0 };
    let cell = Cell {
        cell_state: Born,
        location,
    };
    let cells = vec![Some(cell)];
    let transformer = StringTransformer::new();
    let output = transformer.row_to_string(&cells);
    assert_eq!(
        output,
        format!("{}O{}", color::Fg(color::Green), color::Fg(color::Reset))
    );
}

#[test]
fn living_cells_are_white() {
    let location = Coordinates { x: 0, y: 0 };
    let cell = Cell {
        cell_state: Alive,
        location,
    };
    let cells = vec![Some(cell)];
    let transformer = StringTransformer::new();
    let output = transformer.row_to_string(&cells);
    assert_eq!(output, "o");
}

#[test]
fn dying_cells_are_red() {
    let location = Coordinates { x: 0, y: 0 };
    let cell = Cell {
        cell_state: Died,
        location,
    };
    let cells = vec![Some(cell)];
    let transformer = StringTransformer::new();
    let output = transformer.row_to_string(&cells);
    assert_eq!(
        output,
        format!("{}x{}", color::Fg(color::Red), color::Fg(color::Reset))
    );
}

#[test]
fn dead_cells_are_blank() {
    let location = Coordinates { x: 0, y: 0 };
    let cell = Cell {
        cell_state: Dead,
        location,
    };
    let cells = vec![Some(cell)];
    let transformer = StringTransformer::new();
    let output = transformer.row_to_string(&cells);
    assert_eq!(output, " ");
}

#[test]
fn the_escape_codes_written_out() {
    let transformer = StringTransformer::new();
    assert_eq!(transformer.state_to_str(&Born), "\u{1b}[38;5;2mO\u{1b}[39m");
    assert_eq!(transformer.state_to_str(&Died), "\u{1b}[38;5;1mx\u{1b}[39m");
    assert_eq!(transformer.state_to_str(&Alive), "o");
    assert_eq!(transformer.state_to_str(&Dead), " ");
}

#[test]
fn a_place_without_a_cell_is_an_x() {
    let transformer = StringTransformer::new();
    assert_eq!(transformer.cell_to_str(&None), "x");
    assert_eq!(transformer.cell_to_str(&Some(cell(Alive, 0, 0))), "o");
    assert_eq!(transformer.row_to_string(&vec![None, Some(cell(Dead, 1, 0)), None]), "x x");
    assert_eq!(transformer.row_to_string(&vec![]), "");
}

#[test]
fn a_row_is_the_texts_of_its_cells_in_order() {
    let transformer = StringTransformer::new();
    let row = vec![
        Some(cell(Alive, 0, 0)),
        Some(cell(Born, 1, 0)),
        Some(cell(Dead, 2, 0)),
        Some(cell(Died, 3, 0)),
    ];
    assert_eq!(
        transformer.row_to_string(&row),
        "o\u{1b}[38;5;2mO\u{1b}[39m \u{1b}[38;5;1mx\u{1b}[39m"
    );
}

#[test]
fn the_lines_of_a_board() {
    let renderer = StringRenderer::new(10, 10);
    let lines = renderer.lines(&sample());
    assert_eq!(
        lines,
        vec![
            "o \u{1b}[38;5;2mO\u{1b}[39m".to_string(),
            "\u{1b}[38;5;1mx\u{1b}[39moo".to_string(),
        ]
    );
}

#[test]
fn the_screen_cuts_rows_and_columns() {
    let narrow = StringRenderer::new(2, 10);
    assert_eq!(
        narrow.lines(&sample()),
        vec!["o ".to_string(), "\u{1b}[38;5;1mx\u{1b}[39mo".to_string()]
    );
    let low = StringRenderer::new(10, 1);
    assert_eq!(low.lines(&sample()), vec!["o \u{1b}[38;5;2mO\u{1b}[39m".to_string()]);
    let nothing = StringRenderer::new(0, 0);
    assert!(nothing.lines(&sample()).is_empty());
    let no_columns = StringRenderer::new(0, 5);
    assert_eq!(no_columns.lines(&sample()), vec![String::new(), String::new()]);
}

#[test]
fn a_frame_sends_the_cursor_home_hides_it_and_writes_the_lines() {
    let mut renderer = StringRenderer::new(10, 10);
    renderer.render(&sample());
    let output = renderer.take_output();
    assert_eq!(output.len(), 1);
    assert_eq!(
        output[0],
        "\u{1b}[1;1H\u{1b}[?25lo \u{1b}[38;5;2mO\u{1b}[39m\u{1b}[38;5;1mx\u{1b}[39moo"
    );
    assert_eq!(
        output[0],
        format!(
            "{}{}o {}O{}{}x{}oo",
            termion::cursor::Goto(1, 1),
            termion::cursor::Hide,
            color::Fg(color::Green),
            color::Fg(color::Reset),
            color::Fg(color::Red),
            color::Fg(color::Reset)
        )
    );
}

#[test]
fn frames_are_kept_until_they_are_taken() {
    let mut renderer = StringRenderer::new(3, 3);
    assert!(renderer.take_output().is_empty());
    renderer.render(&GridBoard::all_alive(2));
    renderer.render(&GridBoard::all_alive(1));
    let output = renderer.take_output();
    assert_eq!(
        output,
        vec![
            "\u{1b}[1;1H\u{1b}[?25loooo".to_string(),
            "\u{1b}[1;1H\u{1b}[?25lo".to_string(),
        ]
    );
    assert!(renderer.take_output().is_empty());
    renderer.render(&EmptyBoard::new());
    assert_eq!(renderer.take_output(), vec!["\u{1b}[1;1H\u{1b}[?25l".to_string()]);
}
