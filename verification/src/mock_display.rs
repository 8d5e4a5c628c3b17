//! A display that is a grid of characters in memory.
//!
//! It takes what a real display takes and keeps what would be seen: four
//! lines of twenty cells, and a cursor that moves on with every cell written.

use vstd::prelude::*;
use vstd::string::StringSliceAdditionalSpecFns;
use crate::bus::BusError;
use crate::command::{Command, DisplayCommand};

verus! {

/// The cells of one line.
pub const COLUMNS: usize = 20;

/// The lines of the display.
pub const LINES: usize = 4;

/// The character that a blank cell shows.
pub const BLANK_CELL: char = ' ';

/// What a display shows and where its cursor stands.
pub struct Screen {
    /// The characters, line by line.
    pub cells: Seq<Seq<char>>,
    /// The line of the cursor.
    pub row: int,
    /// The column of the cursor.
    pub col: int,
}

/// The character that the cell value `byte` shows: a blank for the lowest
/// glyph, a block of rising height for the glyphs 1 to 7, the degree sign for
/// the code that the display's own character set gives it, and otherwise the
/// character with that code.
pub open spec fn cell_char(byte: u8) -> char {
    if byte == 0 {
        ' '
    } else if byte <= 7 {
        (0x2580 + byte) as char
    } else if byte == 0xdf {
        '\u{b0}'
    } else {
        byte as char
    }
}

impl Screen {
    /// Four lines of twenty cells, and a cursor on one of them.
    pub open spec fn wf(self) -> bool {
        &&& self.cells.len() == LINES
        &&& forall|r: int| 0 <= r < LINES ==> (#[trigger] self.cells[r]).len() == COLUMNS
        &&& 0 <= self.row < LINES
        &&& 0 <= self.col < COLUMNS
    }

    /// All cells blank, the cursor at the top left.
    pub open spec fn blank() -> Screen {
        Screen {
            cells: Seq::new(LINES as nat, |r: int| Seq::new(COLUMNS as nat, |c: int| BLANK_CELL)),
            row: 0,
            col: 0,
        }
    }

    /// The cursor moved to `col` and `row`, each held to the grid.
    pub open spec fn position(self, col: u8, row: u8) -> Screen {
        Screen {
            cells: self.cells,
            row: if row < LINES {
                row as int
            } else {
                LINES - 1
            },
            col: if col < COLUMNS {
                col as int
            } else {
                COLUMNS - 1
            },
        }
    }

    /// The cell at the cursor set to what `byte` shows, and the cursor moved
    /// on by one cell: from the end of a line to the start of the next, from
    /// the end of the last line to the start of the first.
    pub open spec fn write(self, byte: u8) -> Screen {
        Screen {
            cells: self.cells.update(
                self.row,
                self.cells[self.row].update(self.col, cell_char(byte)),
            ),
            row: if self.col + 1 < COLUMNS {
                self.row
            } else if self.row + 1 < LINES {
                self.row + 1
            } else {
                0
            },
            col: if self.col + 1 < COLUMNS {
                self.col + 1
            } else {
                0
            },
        }
    }

    /// The bytes of `text` written one after the other.
    pub open spec fn write_all(self, text: Seq<u8>) -> Screen
        decreases text.len(),
    {
        if text.len() == 0 {
            self
        } else {
            self.write_all(text.drop_last()).write(text.last())
        }
    }

    /// One command carried out. A grid of characters has no glyphs to
    /// define, no power and no backlight: those commands change nothing.
    pub open spec fn apply(self, command: Command) -> Screen {
        match command {
            Command::Position { col, row } => self.position(col, row),
            Command::Write(byte) => self.write(byte),
            Command::Print(text) => self.write_all(text),
            Command::UploadGlyph { .. } => self,
            Command::Power(_) => self,
            Command::Backlight(_) => self,
        }
    }

    /// The commands carried out one after the other.
    pub open spec fn apply_all(self, commands: Seq<Command>) -> Screen
        decreases commands.len(),
    {
        if commands.len() == 0 {
            self
        } else {
            self.apply_all(commands.drop_last()).apply(commands.last())
        }
    }
}

/// Writing keeps a screen a screen.
pub proof fn lemma_write_all_wf(screen: Screen, text: Seq<u8>)
    requires
        screen.wf(),
    ensures
        screen.write_all(text).wf(),
    decreases text.len(),
{
    if text.len() > 0 {
        lemma_write_all_wf(screen, text.drop_last());
    }
}

/// No command takes a screen out of its grid.
pub proof fn lemma_apply_all_wf(screen: Screen, commands: Seq<Command>)
    requires
        screen.wf(),
    ensures
        screen.apply_all(commands).wf(),
    decreases commands.len(),
{
    if commands.len() > 0 {
        lemma_apply_all_wf(screen, commands.drop_last());
        let before = screen.apply_all(commands.drop_last());
        match commands.last() {
            Command::Print(text) => {
                lemma_write_all_wf(before, text);
            },
            _ => {},
        }
    }
}

/// A display in memory.
pub struct MockDisplay {
    lines: [[char; 20]; 4],
    row: usize,
    col: usize,
}

impl View for MockDisplay {
    type V = Screen;

    /// What the display shows and where its cursor stands.
    closed spec fn view(&self) -> Screen {
        Screen {
            cells: Seq::new(LINES as nat, |r: int| self.lines[r]@),
            row: self.row as int,
            col: self.col as int,
        }
    }
}

impl MockDisplay {
    /// What holds of every `MockDisplay`: its cursor stands on the grid.
    #[verifier::type_invariant]
    pub open spec fn wf(self) -> bool {
        self@.wf()
    }

    /// A blank display with the cursor at the top left.
    pub fn new() -> (display: MockDisplay)
        ensures
            display@ == Screen::blank(),
            display.wf(),
    {
        let display = MockDisplay { lines: [[BLANK_CELL; 20]; 4], row: 0, col: 0 };
        proof {
            assert forall|r: int| 0 <= r < LINES implies #[trigger] display@.cells[r]
                =~= Screen::blank().cells[r] by {}
            assert(display@.cells =~= Screen::blank().cells);
        }
        display
    }

    /// Moves the cursor to the column `col` of the line `row`; to the last
    /// column or line where there is none of that number.
    pub fn position(&mut self, col: u8, row: u8)
        ensures
            final(self)@ == old(self)@.position(col, row),
            final(self).wf(),
    {
        proof {
            use_type_invariant(&*self);
        }
        let ghost before = self@;
        self.row = if (row as usize) < LINES {
            row as usize
        } else {
            LINES - 1
        };
        self.col = if (col as usize) < COLUMNS {
            col as usize
        } else {
            COLUMNS - 1
        };
        proof {
            assert(self@.cells =~= before.cells);
        }
    }

    /// Writes the bytes of `s`, one cell each.
    pub fn print(&mut self, s: &str)
        ensures
            final(self)@ == old(self)@.write_all(s.spec_bytes()),
            final(self).wf(),
    {
        self.write_bytes(s.as_bytes());
    }

    /// Writes `bytes`, one cell each.
    pub fn write_bytes(&mut self, bytes: &[u8])
        ensures
            final(self)@ == old(self)@.write_all(bytes@),
            final(self).wf(),
    {
        proof {
            use_type_invariant(&*self);
        }
        let ghost before = self@;
        let mut i: usize = 0;
        assert(bytes@.take(0) =~= Seq::<u8>::empty());
        while i < bytes.len()
            invariant
                i <= bytes.len(),
                self@ == before.write_all(bytes@.take(i as int)),
                self.wf(),
            decreases bytes.len() - i,
        {
            proof {
                let done = bytes@.take(i + 1);
                assert(done.drop_last() =~= bytes@.take(i as int));
                assert(done.last() == bytes@[i as int]);
            }
            self.write(bytes[i]);
            i = i + 1;
        }
        assert(bytes@.take(bytes.len() as int) =~= bytes@);
    }

    /// Writes one cell at the cursor and moves the cursor on.
    pub fn write(&mut self, byte: u8)
        ensures
            final(self)@ == old(self)@.write(byte),
            final(self).wf(),
    {
        proof {
            use_type_invariant(&*self);
        }
        let ghost before = self@;
        let c: char = match byte {
            0 => ' ',
            1 => '\u{2581}',
            2 => '\u{2582}',
            3 => '\u{2583}',
            4 => '\u{2584}',
            5 => '\u{2585}',
            6 => '\u{2586}',
            7 => '\u{2587}',
            0xdf => '\u{b0}',
            _ => byte as char,
        };
        assert(c == cell_char(byte));
        self.lines[self.row][self.col] = c;
        if self.col + 1 == COLUMNS {
            self.col = 0;
            self.row = if self.row + 1 == LINES {
                0
            } else {
                self.row + 1
            };
        } else {
            self.col = self.col + 1;
        }
        proof {
            let after = before.write(byte);
            assert forall|r: int| 0 <= r < LINES implies #[trigger] self@.cells[r]
                =~= after.cells[r] by {}
            assert(self@.cells =~= after.cells);
        }
    }

    /// Carries out one command.
    pub fn execute(&mut self, command: &DisplayCommand)
        ensures
            final(self)@ == old(self)@.apply(command.deep_view()),
            final(self).wf(),
    {
        proof {
            use_type_invariant(&*self);
        }
        match command {
            DisplayCommand::Position { col, row } => self.position(*col, *row),
            DisplayCommand::Write(byte) => self.write(*byte),
            DisplayCommand::Print(text) => self.write_bytes(text.as_slice()),
            DisplayCommand::UploadGlyph { .. } => {},
            DisplayCommand::Power(_) => {},
            DisplayCommand::Backlight(_) => {},
        }
    }

    /// Carries out the commands one after the other.
    pub fn run(&mut self, commands: &Vec<DisplayCommand>)
        ensures
            final(self)@ == old(self)@.apply_all(commands.deep_view()),
            final(self).wf(),
    {
        proof {
            use_type_invariant(&*self);
        }
        let ghost before = self@;
        let ghost all = commands.deep_view();
        let mut i: usize = 0;
        assert(all.take(0) =~= Seq::<Command>::empty());
        while i < commands.len()
            invariant
                i <= commands.len(),
                all == commands.deep_view(),
                self@ == before.apply_all(all.take(i as int)),
                self.wf(),
            decreases commands.len() - i,
        {
            proof {
                let done = all.take(i + 1);
                assert(done.drop_last() =~= all.take(i as int));
                assert(done.last() == commands[i as int].deep_view());
            }
            self.execute(&commands[i]);
            i = i + 1;
        }
        assert(all.take(commands.len() as int) =~= all);
    }

    /// The character in the column `col` of the line `row`; nothing where
    /// the grid has no such cell.
    pub fn cell(&self, col: u8, row: u8) -> (c: Option<char>)
        ensures
            c == (if row < LINES && col < COLUMNS {
                Some(self@.cells[row as int][col as int])
            } else {
                None
            }),
    {
        if (row as usize) < LINES && (col as usize) < COLUMNS {
            Some(self.lines[row as usize][col as usize])
        } else {
            None
        }
    }

    /// The line and the column of the cursor.
    pub fn cursor(&self) -> (at: (usize, usize))
        ensures
            at.0 == self@.row,
            at.1 == self@.col,
            at.0 < LINES,
            at.1 < COLUMNS,
    {
        proof {
            use_type_invariant(self);
        }
        (self.row, self.col)
    }

    /// What the display shows, line by line.
    pub fn dump(&self) -> (lines: Vec<Vec<char>>)
        ensures
            lines.deep_view() == self@.cells,
    {
        let mut lines: Vec<Vec<char>> = Vec::new();
        let mut r: usize = 0;
        while r < LINES
            invariant
                r <= LINES,
                lines.len() == r,
                forall|k: int| 0 <= k < r ==> (#[trigger] lines[k])@ == self@.cells[k],
            decreases LINES - r,
        {
            let mut line: Vec<char> = Vec::new();
            let mut c: usize = 0;
            while c < COLUMNS
                invariant
                    r < LINES,
                    c <= COLUMNS,
                    line@ == self.lines[r as int]@.take(c as int),
                decreases COLUMNS - c,
            {
                line.push(self.lines[r][c]);
                assert(self.lines[r as int]@.take(c as int).push(self.lines[r as int]@[c as int])
                    =~= self.lines[r as int]@.take(c + 1));
                c = c + 1;
            }
            assert(self.lines[r as int]@.take(COLUMNS as int) =~= self.lines[r as int]@);
            lines.push(line);
            r = r + 1;
        }
        proof {
            assert forall|k: int| 0 <= k < LINES implies #[trigger] lines.deep_view()[k]
                =~= self@.cells[k] by {
                assert(lines[k].deep_view() =~= lines[k]@);
            }
            assert(lines.deep_view() =~= self@.cells);
        }
        lines
    }
}

/// The error of `core::fmt::Write`, which says nothing but that writing
/// failed. It is only passed on.
#[verifier::external_type_specification]
#[verifier::external_body]
pub struct ExFmtError(core::fmt::Error);

impl core::fmt::Write for MockDisplay {
    /// Writes the bytes of `s`, one cell each. It cannot fail.
    fn write_str(&mut self, s: &str) -> (r: core::fmt::Result)
        ensures
            final(self)@ == old(self)@.write_all(s.spec_bytes()),
            r is Ok,
    {
        self.print(s);
        Ok(())
    }
}

/// Brings a display in memory into use. It cannot fail.
pub fn init_display() -> (r: Result<MockDisplay, BusError>)
    ensures
        r matches Ok(display) && display@ == Screen::blank(),
{
    Ok(MockDisplay::new())
}

/// Takes a display in memory out of use. There is nothing to switch off.
pub fn stop_display(display: MockDisplay) {
}

} // verus!
