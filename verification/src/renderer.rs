//! Turning boards into text for a terminal.
//!
//! A [`StringRenderer`] renders each board into one string, begun by the
//! codes that send the cursor home and hide it, and keeps the strings until
//! they are taken out to be written.

use vstd::prelude::*;
use crate::interface::{grid, Board, Frames, Grid, Renderer};
use crate::models::{Cell, CellState};

verus! {

/// The code that switches the foreground to green.
pub open spec fn green_code() -> Seq<char> {
    seq!['\u{1b}', '[', '3', '8', ';', '5', ';', '2', 'm']
}

/// The code that switches the foreground to red.
pub open spec fn red_code() -> Seq<char> {
    seq!['\u{1b}', '[', '3', '8', ';', '5', ';', '1', 'm']
}

/// The code that switches the foreground back to the terminal's own colour.
pub open spec fn reset_code() -> Seq<char> {
    seq!['\u{1b}', '[', '3', '9', 'm']
}

/// The code that sends the cursor to the top left corner.
pub open spec fn home_code() -> Seq<char> {
    seq!['\u{1b}', '[', '1', ';', '1', 'H']
}

/// The code that hides the cursor.
pub open spec fn hide_code() -> Seq<char> {
    seq!['\u{1b}', '[', '?', '2', '5', 'l']
}

/// The text of a cell in the given state: `o` for a living cell, a blank
/// for a dead one, a green `O` for one just born and a red `x` for one that
/// just died.
pub open spec fn state_text(state: CellState) -> Seq<char> {
    match state {
        CellState::Alive => seq!['o'],
        CellState::Dead => seq![' '],
        CellState::Born => green_code() + seq!['O'] + reset_code(),
        CellState::Died => red_code() + seq!['x'] + reset_code(),
    }
}

/// The text of a place on the screen: that of the cell's state, or `x`
/// where there is no cell.
pub open spec fn cell_text(cell: Option<Cell>) -> Seq<char> {
    match cell {
        None => seq!['x'],
        Some(cell) => state_text(cell.cell_state),
    }
}

/// The text of a row of places: the texts of its places, one after another.
pub open spec fn row_text(cells: Seq<Option<Cell>>) -> Seq<char>
    decreases cells.len(),
{
    if cells.len() == 0 {
        Seq::empty()
    } else {
        row_text(cells.drop_last()) + cell_text(cells.last())
    }
}

/// The first `width` cells of a row, as places.
pub open spec fn visible(row: Seq<Cell>, width: nat) -> Seq<Option<Cell>> {
    Seq::new(if row.len() < width { row.len() } else { width }, |x: int| Some(row[x]))
}

/// The lines of a grid on a screen of `width` columns and `height` rows:
/// one line for each of the first `height` rows, holding the text of the
/// first `width` cells of the row.
pub open spec fn lines_of(cells: Grid, width: nat, height: nat) -> Seq<Seq<char>> {
    Seq::new(
        if cells.len() < height { cells.len() } else { height },
        |y: int| row_text(visible(cells[y], width)),
    )
}

/// The lines, one after another.
pub open spec fn joined(lines: Seq<Seq<char>>) -> Seq<char>
    decreases lines.len(),
{
    if lines.len() == 0 {
        Seq::empty()
    } else {
        joined(lines.drop_last()) + lines.last()
    }
}

/// What a screen of `width` columns and `height` rows is sent to show a
/// grid: the cursor goes home and is hidden, then the lines follow without
/// a break.
pub open spec fn frame_text(cells: Grid, width: nat, height: nat) -> Seq<char> {
    home_code() + hide_code() + joined(lines_of(cells, width, height))
}

/// The texts of a run of lines.
pub open spec fn texts(lines: Seq<String>) -> Seq<Seq<char>> {
    Seq::new(lines.len(), |i: int| lines[i]@)
}

/// Formats `termion::color::Fg(termion::color::Green)`, which writes the
/// escape sequence for a green foreground, `ESC [ 3 8 ; 5 ; 2 m`. Believed,
/// not proved.
#[verifier::external_body]
fn foreground_green() -> (code: String)
    ensures
        code@ == green_code(),
{
    format!("{}", termion::color::Fg(termion::color::Green))
}

/// Formats `termion::color::Fg(termion::color::Red)`, which writes the
/// escape sequence for a red foreground, `ESC [ 3 8 ; 5 ; 1 m`. Believed,
/// not proved.
#[verifier::external_body]
fn foreground_red() -> (code: String)
    ensures
        code@ == red_code(),
{
    format!("{}", termion::color::Fg(termion::color::Red))
}

/// Formats `termion::color::Fg(termion::color::Reset)`, which writes the
/// escape sequence for the default foreground, `ESC [ 3 9 m`. Believed, not
/// proved.
#[verifier::external_body]
fn foreground_reset() -> (code: String)
    ensures
        code@ == reset_code(),
{
    format!("{}", termion::color::Fg(termion::color::Reset))
}

/// Formats `termion::cursor::Goto(1, 1)`, which writes the escape sequence
/// that moves the cursor to row 1, column 1, `ESC [ 1 ; 1 H`. Believed, not
/// proved.
#[verifier::external_body]
fn cursor_home() -> (code: String)
    ensures
        code@ == home_code(),
{
    format!("{}", termion::cursor::Goto(1, 1))
}

/// Formats `termion::cursor::Hide`, which writes the escape sequence that
/// hides the cursor, `ESC [ ? 2 5 l`. Believed, not proved.
#[verifier::external_body]
fn cursor_hide() -> (code: String)
    ensures
        code@ == hide_code(),
{
    format!("{}", termion::cursor::Hide)
}

/// The strings that stand for the states of a cell.
pub struct StringTransformer {
    alive: String,
    dead: String,
    born: String,
    died: String,
    none: String,
}

impl StringTransformer {
    #[verifier::type_invariant]
    closed spec fn holds_the_texts(self) -> bool {
        &&& self.alive@ == state_text(CellState::Alive)
        &&& self.dead@ == state_text(CellState::Dead)
        &&& self.born@ == state_text(CellState::Born)
        &&& self.died@ == state_text(CellState::Died)
        &&& self.none@ == cell_text(None)
    }

    /// The text that the transformer holds for a place: the string kept for
    /// the state of the cell, or the one kept for a place without a cell.
    pub closed spec fn text_for(&self, cell: Option<Cell>) -> Seq<char> {
        match cell {
            None => self.none@,
            Some(cell) => match cell.cell_state {
                CellState::Alive => self.alive@,
                CellState::Dead => self.dead@,
                CellState::Born => self.born@,
                CellState::Died => self.died@,
            },
        }
    }

    /// The transformer with the texts of [`state_text`] and [`cell_text`]:
    /// `o`, a blank, a green `O` and a red `x` for the four states, and `x`
    /// for a place without a cell.
    pub fn new() -> (transformer: StringTransformer)
        ensures
            forall|cell: Option<Cell>| #[trigger] transformer.text_for(cell) == cell_text(cell),
    {
        let alive = String::from_str("o");
        let dead = String::from_str(" ");
        let mut born = foreground_green();
        born.append("O");
        born.append(foreground_reset().as_str());
        let mut died = foreground_red();
        died.append("x");
        died.append(foreground_reset().as_str());
        let none = String::from_str("x");
        proof {
            reveal_strlit("o");
            reveal_strlit(" ");
            reveal_strlit("O");
            reveal_strlit("x");
            assert(alive@ =~= seq!['o']);
            assert(dead@ =~= seq![' ']);
            assert(none@ =~= seq!['x']);
            assert("O"@ =~= seq!['O']);
            assert("x"@ =~= seq!['x']);
        }
        StringTransformer { alive, dead, born, died, none }
    }

    /// The text of a row of places.
    pub fn row_to_string(&self, cells: &Vec<Option<Cell>>) -> (text: String)
        ensures
            text@ == row_text(cells@),
    {
        let mut text = String::new();
        let mut i: usize = 0;
        while i < cells.len()
            invariant
                i <= cells.len(),
                text@ == row_text(cells@.take(i as int)),
            decreases cells.len() - i,
        {
            proof {
                assert(cells@.take(i + 1).drop_last() =~= cells@.take(i as int));
            }
            text.append(self.cell_to_str(&cells[i]));
            i += 1;
        }
        proof {
            assert(cells@.take(cells.len() as int) =~= cells@);
        }
        text
    }

    /// The text of one place.
    pub fn cell_to_str(&self, cell: &Option<Cell>) -> (text: &str)
        ensures
            text@ == cell_text(*cell),
            text@ == self.text_for(*cell),
    {
        proof {
            use_type_invariant(self);
        }
        match cell {
            None => self.none.as_str(),
            Some(cell) => self.state_to_str(&cell.cell_state),
        }
    }

    /// The text of a cell in the given state.
    pub fn state_to_str(&self, state: &CellState) -> (text: &str)
        ensures
            text@ == state_text(*state),
    {
        proof {
            use_type_invariant(self);
        }
        match state {
            CellState::Alive => self.alive.as_str(),
            CellState::Dead => self.dead.as_str(),
            CellState::Born => self.born.as_str(),
            CellState::Died => self.died.as_str(),
        }
    }
}

/// A renderer for a screen of `width` columns and `height` rows that keeps
/// what it renders as strings.
pub struct StringRenderer {
    width: u16,
    height: u16,
    transformer: StringTransformer,
    pending: Vec<String>,
    seen: Ghost<Frames>,
}

impl StringRenderer {
    /// The number of columns of the screen.
    pub closed spec fn columns(&self) -> nat {
        self.width as nat
    }

    /// The number of rows of the screen.
    pub closed spec fn lines_shown(&self) -> nat {
        self.height as nat
    }

    /// The grids rendered so far, oldest first.
    pub closed spec fn frames(&self) -> Frames {
        self.seen@
    }

    /// The texts rendered and not yet taken out, oldest first.
    pub closed spec fn output(&self) -> Seq<Seq<char>> {
        texts(self.pending@)
    }

    /// A renderer for a screen of `width` columns and `height` rows that has
    /// rendered nothing yet.
    pub fn new(width: u16, height: u16) -> (renderer: StringRenderer)
        ensures
            renderer.columns() == width,
            renderer.lines_shown() == height,
            renderer.output() == Seq::<Seq<char>>::empty(),
            renderer.frames() == Seq::<Grid>::empty(),
    {
        StringRenderer {
            width,
            height,
            transformer: StringTransformer::new(),
            pending: Vec::new(),
            seen: Ghost(Seq::empty()),
        }
    }

    /// The lines that the screen shows of `board`.
    pub fn lines<T: Board>(&self, board: &T) -> (lines: Vec<String>)
        ensures
            texts(lines@) == lines_of(board.cells(), self.columns(), self.lines_shown()),
    {
        let rows = board.rows();
        let ghost cells = board.cells();
        let mut lines: Vec<String> = Vec::new();
        let mut y: usize = 0;
        while y < rows.len() && y < self.height as usize
            invariant
                y <= rows.len(),
                y <= self.height,
                cells == grid(rows@),
                lines@.len() == y,
                forall|j: int|
                    0 <= j < y ==> (#[trigger] lines@[j])@ == row_text(
                        visible(cells[j], self.width as nat),
                    ),
            decreases rows.len() - y,
        {
            let row = &rows[y];
            let mut places: Vec<Option<Cell>> = Vec::new();
            let mut x: usize = 0;
            while x < row.len() && x < self.width as usize
                invariant
                    x <= row.len(),
                    x <= self.width,
                    places@.len() == x,
                    forall|i: int| 0 <= i < x ==> #[trigger] places@[i] == Some(row@[i]),
                decreases row.len() - x,
            {
                places.push(Some(row[x]));
                x += 1;
            }
            proof {
                assert(places@ =~= visible(cells[y as int], self.width as nat));
            }
            lines.push(self.transformer.row_to_string(&places));
            y += 1;
        }
        proof {
            assert(texts(lines@) =~= lines_of(cells, self.width as nat, self.height as nat));
        }
        lines
    }

    /// Takes out the texts rendered since the last time, oldest first.
    pub fn take_output(&mut self) -> (taken: Vec<String>)
        ensures
            texts(taken@) == old(self).output(),
            final(self).output() == Seq::<Seq<char>>::empty(),
            final(self).columns() == old(self).columns(),
            final(self).lines_shown() == old(self).lines_shown(),
            final(self).frames() == old(self).frames(),
    {
        let mut taken: Vec<String> = Vec::new();
        std::mem::swap(&mut self.pending, &mut taken);
        taken
    }
}

impl<T: Board> Renderer<T> for StringRenderer {
    open spec fn shown(&self) -> Frames {
        self.frames()
    }

    fn render(&mut self, board: &T)
        ensures
            final(self).columns() == old(self).columns(),
            final(self).lines_shown() == old(self).lines_shown(),
            final(self).output() == old(self).output().push(
                frame_text(board.cells(), old(self).columns(), old(self).lines_shown()),
            ),
    {
        let lines = self.lines(board);
        let mut frame = cursor_home();
        frame.append(cursor_hide().as_str());
        let ghost head = frame@;
        let mut i: usize = 0;
        while i < lines.len()
            invariant
                i <= lines.len(),
                frame@ == head + joined(texts(lines@).take(i as int)),
            decreases lines.len() - i,
        {
            proof {
                let sofar = texts(lines@).take(i as int);
                let more = texts(lines@).take(i + 1);
                assert(more.drop_last() =~= sofar);
                assert(head + (joined(sofar) + lines@[i as int]@) =~= (head + joined(sofar))
                    + lines@[i as int]@);
            }
            frame.append(lines[i].as_str());
            i += 1;
        }
        proof {
            assert(texts(lines@).take(lines.len() as int) =~= texts(lines@));
            assert(head + joined(Seq::<Seq<char>>::empty()) =~= head);
        }
        self.pending.push(frame);
        proof {
            self.seen@ = self.seen@.push(board.cells());
        }
    }
}

} // verus!
