//! What a frame shows on a display of four lines of twenty cells.
//!
//! The commands of a frame are one matter, the picture that they leave on a
//! display another. Here the two are brought together: which cell shows
//! which gauge, as long as every line of the frame fits on its line of the
//! display.

use vstd::prelude::*;
use crate::command::Command;
use crate::frame::{
    cpu_cells, frame_spec, gauge_row_spec, label_bar, label_cpu, label_mem, label_unit, net_cell,
    net_cells, net_value, peak_text, text_row_spec, NetGauge, DEGREE, SEPARATOR,
    TEMPERATURE_WIDTH, TEXT_ROW,
};
use crate::gauge::{display_char_spec, lemma_empty_and_full, BLANK};
use crate::history::Peak;
use crate::mock_display::{cell_char, Screen, COLUMNS, LINES};
use crate::ratio::Ratio;
use crate::text::{decimal, right_aligned, signed_decimal};

verus! {

/// The bytes that one command writes into cells.
pub open spec fn written(command: Command) -> Seq<u8> {
    match command {
        Command::Write(byte) => seq![byte],
        Command::Print(text) => text,
        _ => Seq::empty(),
    }
}

/// The bytes that the commands write into cells, one after the other.
pub open spec fn written_all(commands: Seq<Command>) -> Seq<u8>
    decreases commands.len(),
{
    if commands.len() == 0 {
        Seq::empty()
    } else {
        written_all(commands.drop_last()) + written(commands.last())
    }
}

/// None of the commands sets the cursor.
pub open spec fn keeps_cursor(commands: Seq<Command>) -> bool {
    forall|i: int| 0 <= i < commands.len() ==> !((#[trigger] commands[i]) is Position)
}

/// The cell values of the line `row` of the gauges, from its first column:
/// one per core, a bar, two per interface, a bar, a blank, and the memory.
pub open spec fn gauge_line(cpu: Seq<Ratio>, net: Seq<NetGauge>, mem: Ratio, row: int) -> Seq<u8> {
    Seq::new(cpu.len(), |i: int| display_char_spec(cpu[i], row)) + seq![SEPARATOR] + Seq::new(
        2 * net.len(),
        |i: int| net_value(net, i, row),
    ) + label_bar() + seq![display_char_spec(mem, row)]
}

/// The cell values of the text line, from its first column.
pub open spec fn text_line(temperature: i32, peak: Peak) -> Seq<u8> {
    label_cpu() + right_aligned(signed_decimal(temperature as int), TEMPERATURE_WIDTH as nat)
        + seq![DEGREE] + label_unit() + peak_text(peak) + label_mem()
}

/// The display after the frame was drawn on it.
pub open spec fn frame_on(
    screen: Screen,
    cpu: Seq<Ratio>,
    net: Seq<NetGauge>,
    mem: Ratio,
    temperature: i32,
    peak: Peak,
) -> Screen {
    screen.apply_all(frame_spec(cpu, net, mem, temperature, peak))
}

/// The column of the memory gauge.
pub open spec fn mem_column(cpu: Seq<Ratio>, net: Seq<NetGauge>) -> int {
    (cpu.len() + 2 * net.len() + 3) as int
}

/// Writing one text after another is writing the two as one.
pub proof fn lemma_write_all_concat(screen: Screen, a: Seq<u8>, b: Seq<u8>)
    ensures
        screen.write_all(a + b) == screen.write_all(a).write_all(b),
    decreases b.len(),
{
    if b.len() == 0 {
        assert(a + b =~= a);
    } else {
        assert((a + b).drop_last() =~= a + b.drop_last());
        lemma_write_all_concat(screen, a, b.drop_last());
    }
}

/// Carrying out one run of commands after another is carrying out the two
/// as one.
pub proof fn lemma_apply_all_concat(screen: Screen, a: Seq<Command>, b: Seq<Command>)
    ensures
        screen.apply_all(a + b) == screen.apply_all(a).apply_all(b),
    decreases b.len(),
{
    if b.len() == 0 {
        assert(a + b =~= a);
    } else {
        assert((a + b).drop_last() =~= a + b.drop_last());
        lemma_apply_all_concat(screen, a, b.drop_last());
    }
}

/// What two runs of commands write is what the first writes, then what the
/// second writes.
pub proof fn lemma_written_all_concat(a: Seq<Command>, b: Seq<Command>)
    ensures
        written_all(a + b) == written_all(a) + written_all(b),
    decreases b.len(),
{
    if b.len() == 0 {
        assert(a + b =~= a);
        assert(written_all(a) + written_all(b) =~= written_all(a));
    } else {
        assert((a + b).drop_last() =~= a + b.drop_last());
        lemma_written_all_concat(a, b.drop_last());
        assert(written_all(a) + written_all(b.drop_last()) + written(b.last()) =~= written_all(a)
            + (written_all(b.drop_last()) + written(b.last())));
    }
}

/// What a run of commands and one more write is what the run writes, then
/// what the one writes.
pub proof fn lemma_written_all_push(commands: Seq<Command>, command: Command)
    ensures
        written_all(commands.push(command)) == written_all(commands) + written(command),
{
    assert(commands.push(command).drop_last() =~= commands);
}

/// Writing a text of one byte is writing the byte.
pub proof fn lemma_write_one(screen: Screen, byte: u8)
    ensures
        screen.write_all(seq![byte]) == screen.write(byte),
{
    reveal_with_fuel(Screen::write_all, 2);
    assert(seq![byte].drop_last() =~= Seq::<u8>::empty());
}

/// Commands that leave the cursor alone do to a display what writing their
/// bytes does.
pub proof fn lemma_apply_is_write(screen: Screen, commands: Seq<Command>)
    requires
        keeps_cursor(commands),
    ensures
        screen.apply_all(commands) == screen.write_all(written_all(commands)),
    decreases commands.len(),
{
    if commands.len() > 0 {
        let front = commands.drop_last();
        let last = commands.last();
        assert(keeps_cursor(front)) by {
            assert forall|i: int| 0 <= i < front.len() implies !((#[trigger] front[i]) is Position) by {
                assert(front[i] == commands[i]);
            }
        }
        lemma_apply_is_write(screen, front);
        let before = screen.write_all(written_all(front));
        assert(!(commands[commands.len() - 1] is Position));
        lemma_write_all_concat(screen, written_all(front), written(last));
        match last {
            Command::Write(byte) => {
                lemma_write_one(before, byte);
            },
            _ => {},
        }
    }
}

/// A text that fits between the cursor and the end of its line is shown
/// there, cell by cell, and nothing else changes.
pub proof fn lemma_write_in_line(screen: Screen, text: Seq<u8>)
    requires
        screen.wf(),
        screen.col + text.len() <= COLUMNS,
    ensures
        screen.write_all(text).wf(),
        screen.write_all(text).cells.len() == LINES,
        forall|r: int|
            0 <= r < LINES && r != screen.row ==> #[trigger] screen.write_all(text).cells[r]
                == screen.cells[r],
        forall|c: int|
            0 <= c < COLUMNS && !(screen.col <= c < screen.col + text.len())
                ==> #[trigger] screen.write_all(text).cells[screen.row][c]
                == screen.cells[screen.row][c],
        forall|i: int|
            0 <= i < text.len() ==> #[trigger] screen.write_all(text).cells[screen.row][screen.col
                + i] == cell_char(text[i]),
        screen.col + text.len() < COLUMNS ==> screen.write_all(text).row == screen.row
            && screen.write_all(text).col == screen.col + text.len(),
    decreases text.len(),
{
    if text.len() > 0 {
        let front = text.drop_last();
        lemma_write_in_line(screen, front);
        let before = screen.write_all(front);
        let after = before.write(text.last());
        assert(before.row == screen.row && before.col == screen.col + front.len());
        assert forall|i: int| 0 <= i < text.len() implies #[trigger] after.cells[screen.row][screen.col
            + i] == cell_char(text[i]) by {
            if i < front.len() {
                assert(before.cells[screen.row][screen.col + i] == cell_char(front[i]));
            }
        }
    }
}

/// The commands of the core gauges write the cell values of the cores.
pub proof fn lemma_cpu_cells_written(cpu: Seq<Ratio>, count: nat, row: int)
    ensures
        keeps_cursor(cpu_cells(cpu, count, row)),
        written_all(cpu_cells(cpu, count, row)) == Seq::new(
            count,
            |i: int| display_char_spec(cpu[i], row),
        ),
    decreases count,
{
    let cells = cpu_cells(cpu, count, row);
    if count == 0 {
        assert(written_all(cells) =~= Seq::new(count, |i: int| display_char_spec(cpu[i], row)));
    } else {
        lemma_cpu_cells_written(cpu, (count - 1) as nat, row);
        assert(cells.drop_last() =~= cpu_cells(cpu, (count - 1) as nat, row));
        assert(written_all(cells) =~= Seq::new(count, |i: int| display_char_spec(cpu[i], row)));
    }
}

/// The commands of the network gauges write the cell values of the
/// interfaces.
pub proof fn lemma_net_cells_written(net: Seq<NetGauge>, count: nat, row: int)
    ensures
        keeps_cursor(net_cells(net, count, row)),
        written_all(net_cells(net, count, row)) == Seq::new(
            count,
            |i: int| net_value(net, i, row),
        ),
    decreases count,
{
    let cells = net_cells(net, count, row);
    if count == 0 {
        assert(written_all(cells) =~= Seq::new(count, |i: int| net_value(net, i, row)));
    } else {
        lemma_net_cells_written(net, (count - 1) as nat, row);
        assert(cells.drop_last() =~= net_cells(net, (count - 1) as nat, row));
        assert(cells.last() == net_cell(net, count - 1, row));
        assert(written_all(cells) =~= Seq::new(count, |i: int| net_value(net, i, row)));
    }
}

/// The commands of a gauge line set the cursor to the start of the line and
/// then write the line's cell values.
pub proof fn lemma_gauge_row_written(cpu: Seq<Ratio>, net: Seq<NetGauge>, mem: Ratio, row: u8)
    ensures
        gauge_row_spec(cpu, net, mem, row).len() > 0,
        gauge_row_spec(cpu, net, mem, row)[0] == (Command::Position { col: 0, row }),
        keeps_cursor(gauge_row_spec(cpu, net, mem, row).skip(1)),
        written_all(gauge_row_spec(cpu, net, mem, row).skip(1)) == gauge_line(
            cpu,
            net,
            mem,
            row as int,
        ),
        gauge_line(cpu, net, mem, row as int).len() == cpu.len() + 2 * net.len() + 4,
{
    let r = row as int;
    let a = cpu_cells(cpu, cpu.len(), r);
    let b = seq![Command::Write(SEPARATOR)];
    let c = net_cells(net, 2 * net.len(), r);
    let d = seq![Command::Print(label_bar()), Command::Write(display_char_spec(mem, r))];
    let rest = gauge_row_spec(cpu, net, mem, row).skip(1);
    assert(rest =~= a + b + c + d);
    lemma_cpu_cells_written(cpu, cpu.len(), r);
    lemma_net_cells_written(net, 2 * net.len(), r);
    lemma_written_all_concat(a + b + c, d);
    lemma_written_all_concat(a + b, c);
    lemma_written_all_concat(a, b);
    let none = Seq::<Command>::empty();
    assert(written_all(b) =~= seq![SEPARATOR]) by {
        lemma_written_all_push(none, Command::Write(SEPARATOR));
        assert(b =~= none.push(Command::Write(SEPARATOR)));
    }
    assert(written_all(d) =~= label_bar() + seq![display_char_spec(mem, r)]) by {
        let bar = none.push(Command::Print(label_bar()));
        lemma_written_all_push(none, Command::Print(label_bar()));
        lemma_written_all_push(bar, Command::Write(display_char_spec(mem, r)));
        assert(d =~= bar.push(Command::Write(display_char_spec(mem, r))));
    }
    assert(written_all(rest) =~= gauge_line(cpu, net, mem, r));
}

/// The commands of the text line set the cursor to the start of the last
/// line and then write the text.
pub proof fn lemma_text_row_written(temperature: i32, peak: Peak)
    ensures
        text_row_spec(temperature, peak).len() > 0,
        text_row_spec(temperature, peak)[0] == (Command::Position { col: 0, row: TEXT_ROW }),
        keeps_cursor(text_row_spec(temperature, peak).skip(1)),
        written_all(text_row_spec(temperature, peak).skip(1)) == text_line(temperature, peak),
{
    let rest = text_row_spec(temperature, peak).skip(1);
    let degrees = right_aligned(signed_decimal(temperature as int), TEMPERATURE_WIDTH as nat);
    let c0 = Seq::<Command>::empty();
    let c1 = c0.push(Command::Print(label_cpu()));
    let c2 = c1.push(Command::Print(degrees));
    let c3 = c2.push(Command::Write(DEGREE));
    let c4 = c3.push(Command::Print(label_unit()));
    let c5 = c4.push(Command::Print(peak_text(peak)));
    let c6 = c5.push(Command::Print(label_mem()));
    assert(rest =~= c6);
    lemma_written_all_push(c0, Command::Print(label_cpu()));
    lemma_written_all_push(c1, Command::Print(degrees));
    lemma_written_all_push(c2, Command::Write(DEGREE));
    lemma_written_all_push(c3, Command::Print(label_unit()));
    lemma_written_all_push(c4, Command::Print(peak_text(peak)));
    lemma_written_all_push(c5, Command::Print(label_mem()));
    assert(written_all(c6) =~= text_line(temperature, peak));
}

/// One line of commands, carried out on a display: where the line's cell
/// values fit on the line `row`, they are shown there from the first column
/// on, and no other cell changes.
pub proof fn lemma_line_shown(screen: Screen, commands: Seq<Command>, row: u8, values: Seq<u8>)
    requires
        screen.wf(),
        row < LINES,
        commands.len() > 0,
        commands[0] == (Command::Position { col: 0, row }),
        keeps_cursor(commands.skip(1)),
        written_all(commands.skip(1)) == values,
        values.len() <= COLUMNS,
    ensures
        screen.apply_all(commands).wf(),
        forall|r: int|
            0 <= r < LINES && r != row ==> #[trigger] screen.apply_all(commands).cells[r]
                == screen.cells[r],
        forall|c: int|
            values.len() <= c < COLUMNS ==> #[trigger] screen.apply_all(commands).cells[row as int][c]
                == screen.cells[row as int][c],
        forall|c: int|
            0 <= c < values.len() ==> #[trigger] screen.apply_all(commands).cells[row as int][c]
                == cell_char(values[c]),
{
    let first = seq![commands[0]];
    let rest = commands.skip(1);
    assert(commands =~= first + rest);
    lemma_apply_all_concat(screen, first, rest);
    let placed = screen.position(0, row);
    assert(screen.apply_all(first) == placed) by {
        reveal_with_fuel(Screen::apply_all, 2);
        assert(first.drop_last() =~= Seq::<Command>::empty());
    }
    lemma_apply_is_write(placed, rest);
    lemma_write_in_line(placed, values);
    let shown = placed.write_all(values);
    assert forall|c: int| 0 <= c < values.len() implies #[trigger] shown.cells[row as int][c]
        == cell_char(values[c]) by {
        assert(shown.cells[placed.row][placed.col + c] == cell_char(values[c]));
    }
}

/// The text line is as wide as the display where its numbers fit their
/// fields: a temperature of at most two characters, peaks of at most three
/// digits.
pub proof fn lemma_text_line_fits(temperature: i32, peak: Peak)
    requires
        -9 <= temperature <= 99,
        peak.tx <= 999,
        peak.rx <= 999,
    ensures
        text_line(temperature, peak).len() == COLUMNS,
{
    reveal_with_fuel(decimal, 3);
}

/// What a frame shows: where its lines fit on the display, every gauge
/// line shows its cell values from the first column on, and the last line
/// shows the text.
pub proof fn lemma_frame_shown(
    screen: Screen,
    cpu: Seq<Ratio>,
    net: Seq<NetGauge>,
    mem: Ratio,
    temperature: i32,
    peak: Peak,
)
    requires
        screen.wf(),
        cpu.len() + 2 * net.len() + 4 <= COLUMNS,
        text_line(temperature, peak).len() <= COLUMNS,
    ensures
        frame_on(screen, cpu, net, mem, temperature, peak).wf(),
        forall|row: int, col: int|
            0 <= row < 3 && 0 <= col < cpu.len() + 2 * net.len() + 4
                ==> #[trigger] frame_on(screen, cpu, net, mem, temperature, peak).cells[row][col]
                == cell_char(gauge_line(cpu, net, mem, row)[col]),
        forall|col: int|
            0 <= col < text_line(temperature, peak).len()
                ==> #[trigger] frame_on(screen, cpu, net, mem, temperature, peak).cells[3][col]
                == cell_char(text_line(temperature, peak)[col]),
{
    let r0 = gauge_row_spec(cpu, net, mem, 0);
    let r1 = gauge_row_spec(cpu, net, mem, 1);
    let r2 = gauge_row_spec(cpu, net, mem, 2);
    let r3 = text_row_spec(temperature, peak);
    let s0 = screen;
    let s1 = s0.apply_all(r0);
    let s2 = s1.apply_all(r1);
    let s3 = s2.apply_all(r2);
    let s4 = s3.apply_all(r3);
    lemma_apply_all_concat(s0, r0 + r1 + r2, r3);
    lemma_apply_all_concat(s0, r0 + r1, r2);
    lemma_apply_all_concat(s0, r0, r1);
    assert(s0.apply_all(frame_spec(cpu, net, mem, temperature, peak)) == s4);
    lemma_gauge_row_written(cpu, net, mem, 0);
    lemma_gauge_row_written(cpu, net, mem, 1);
    lemma_gauge_row_written(cpu, net, mem, 2);
    lemma_text_row_written(temperature, peak);
    lemma_line_shown(s0, r0, 0, gauge_line(cpu, net, mem, 0));
    lemma_line_shown(s1, r1, 1, gauge_line(cpu, net, mem, 1));
    lemma_line_shown(s2, r2, 2, gauge_line(cpu, net, mem, 2));
    lemma_line_shown(s3, r3, TEXT_ROW, text_line(temperature, peak));
    assert forall|row: int, col: int|
        0 <= row < 3 && 0 <= col < cpu.len() + 2 * net.len() + 4
        implies #[trigger] s4.cells[row][col] == cell_char(gauge_line(cpu, net, mem, row)[col]) by {
        if row == 0 {
            assert(s1.cells[0][col] == cell_char(gauge_line(cpu, net, mem, 0)[col]));
            assert(s2.cells[0] == s1.cells[0]);
            assert(s3.cells[0] == s2.cells[0]);
            assert(s4.cells[0] == s3.cells[0]);
        } else if row == 1 {
            assert(s2.cells[1][col] == cell_char(gauge_line(cpu, net, mem, 1)[col]));
            assert(s3.cells[1] == s2.cells[1]);
            assert(s4.cells[1] == s3.cells[1]);
        } else {
            assert(s3.cells[2][col] == cell_char(gauge_line(cpu, net, mem, 2)[col]));
            assert(s4.cells[2] == s3.cells[2]);
        }
    }
}

/// A core at full load shows a solid bar from top to bottom in its column,
/// and memory of which nothing is in use shows a blank one.
pub proof fn lemma_full_core_empty_memory(
    screen: Screen,
    cpu: Seq<Ratio>,
    net: Seq<NetGauge>,
    mem: Ratio,
    temperature: i32,
    peak: Peak,
    core: int,
    row: int,
)
    requires
        screen.wf(),
        cpu.len() + 2 * net.len() + 4 <= COLUMNS,
        text_line(temperature, peak).len() <= COLUMNS,
        0 <= core < cpu.len(),
        0 <= row < 3,
        cpu[core].wf(),
        mem.wf(),
    ensures
        cpu[core]@.0 == cpu[core]@.1
            ==> frame_on(screen, cpu, net, mem, temperature, peak).cells[row][core] == '\u{2587}',
        mem@.0 == 0
            ==> frame_on(screen, cpu, net, mem, temperature, peak).cells[row][mem_column(cpu, net)]
            == ' ',
{
    lemma_frame_shown(screen, cpu, net, mem, temperature, peak);
    lemma_empty_and_full(cpu[core], row);
    lemma_empty_and_full(mem, row);
    let shown = screen.apply_all(frame_spec(cpu, net, mem, temperature, peak));
    let line = gauge_line(cpu, net, mem, row);
    assert(shown.cells[row][core] == cell_char(line[core]));
    assert(shown.cells[row][mem_column(cpu, net)] == cell_char(line[mem_column(cpu, net)]));
    assert(line[core] == display_char_spec(cpu[core], row));
    assert(line[mem_column(cpu, net)] == display_char_spec(mem, row));
    assert(cell_char(BLANK) == ' ');
    assert(cell_char(7) == '\u{2587}');
}

} // verus!
