//! What the dashboard asks of a display, as values.
//!
//! The library never touches a display. It says what is to be done, one
//! command after the other, and whoever holds the display carries that out.

use vstd::prelude::*;
use crate::gauge::{glyph_bitmap, glyph_line, GLYPH_COUNT};

verus! {

/// One request to a display.
#[derive(Clone, Debug, PartialEq, Eq)]
pub enum DisplayCommand {
    /// Move the cursor to a column and a row, both counted from zero.
    Position { col: u8, row: u8 },
    /// Write one cell at the cursor: 0 to 7 show a custom glyph, other
    /// values the character with that code.
    Write(u8),
    /// Write the bytes of a text from the cursor on.
    Print(Vec<u8>),
    /// Define the custom glyph in slot `index` by its eight pixel rows.
    UploadGlyph { index: u8, bitmap: [u8; 8] },
    /// Switch the display on or off.
    Power(bool),
    /// Switch the backlight on or off.
    Backlight(bool),
}

/// A request to a display, as specifications speak of it.
pub enum Command {
    Position { col: u8, row: u8 },
    Write(u8),
    Print(Seq<u8>),
    UploadGlyph { index: u8, bitmap: Seq<u8> },
    Power(bool),
    Backlight(bool),
}

impl DeepView for DisplayCommand {
    type V = Command;

    open spec fn deep_view(&self) -> Command {
        match *self {
            DisplayCommand::Position { col, row } => Command::Position { col, row },
            DisplayCommand::Write(byte) => Command::Write(byte),
            DisplayCommand::Print(text) => Command::Print(text@),
            DisplayCommand::UploadGlyph { index, bitmap } => Command::UploadGlyph {
                index,
                bitmap: bitmap@,
            },
            DisplayCommand::Power(on) => Command::Power(on),
            DisplayCommand::Backlight(on) => Command::Backlight(on),
        }
    }
}

/// The eight pixel rows of the glyph in slot `index`, from the top.
pub open spec fn glyph_rows(index: int) -> Seq<u8> {
    Seq::new(8, |line: int| glyph_line(index, line))
}

/// The upload of every glyph of the gauges, from slot 0 on.
pub open spec fn glyph_uploads(count: nat) -> Seq<Command> {
    Seq::new(count, |i: int| Command::UploadGlyph { index: i as u8, bitmap: glyph_rows(i) })
}

/// What brings a display into use: it is switched on, and the eight glyphs
/// of the gauges are defined.
pub open spec fn startup_spec() -> Seq<Command> {
    seq![Command::Power(true)] + glyph_uploads(GLYPH_COUNT as nat)
}

/// What takes a display out of use: it is switched off, then its backlight.
pub open spec fn shutdown_spec() -> Seq<Command> {
    seq![Command::Power(false), Command::Backlight(false)]
}

/// The commands that bring a display into use.
pub fn startup_commands() -> (commands: Vec<DisplayCommand>)
    ensures
        commands.deep_view() == startup_spec(),
{
    let mut commands: Vec<DisplayCommand> = Vec::new();
    commands.push(DisplayCommand::Power(true));
    let mut index: u8 = 0;
    assert(commands.deep_view() =~= seq![Command::Power(true)] + glyph_uploads(0));
    while index < GLYPH_COUNT
        invariant
            index <= GLYPH_COUNT,
            commands.deep_view() == seq![Command::Power(true)] + glyph_uploads(index as nat),
        decreases GLYPH_COUNT - index,
    {
        let bitmap = glyph_bitmap(index);
        let ghost before = commands.deep_view();
        commands.push(DisplayCommand::UploadGlyph { index, bitmap });
        proof {
            assert(bitmap@ =~= glyph_rows(index as int));
            assert(commands.deep_view() =~= before.push(
                Command::UploadGlyph { index, bitmap: glyph_rows(index as int) },
            ));
            assert(before.push(Command::UploadGlyph { index, bitmap: glyph_rows(index as int) })
                =~= seq![Command::Power(true)] + glyph_uploads((index + 1) as nat));
        }
        index = index + 1;
    }
    commands
}

/// The commands that take a display out of use.
pub fn shutdown_commands() -> (commands: Vec<DisplayCommand>)
    ensures
        commands.deep_view() == shutdown_spec(),
{
    let mut commands: Vec<DisplayCommand> = Vec::new();
    commands.push(DisplayCommand::Power(false));
    commands.push(DisplayCommand::Backlight(false));
    assert(commands.deep_view() =~= shutdown_spec());
    commands
}

} // verus!
