//! One frame of the dashboard, as the commands that draw it.
//!
//! The upper three lines hold the gauges, each one cell wide and three cells
//! tall: one per processor core, a bar, two per network interface (sent and
//! received), a bar and a blank, and one for memory. The fourth line is text:
//! the temperature and the peak throughput.

use vstd::prelude::*;
use crate::command::{Command, DisplayCommand};
use crate::gauge::{display_char, display_char_spec, GAUGE_ROWS};
use crate::history::Peak;
use crate::ratio::Ratio;
use crate::text::{decimal, format_decimal, format_signed, pad_left, right_aligned, signed_decimal};

verus! {

/// The two gauges of one network interface.
#[derive(Clone, Copy, Debug)]
pub struct NetGauge {
    /// What is sent, as a share of the gauge's range.
    pub tx: Ratio,
    /// What is received, as a share of the gauge's range.
    pub rx: Ratio,
}

/// The bar between two groups of gauges.
pub const SEPARATOR: u8 = 124;

/// The degree sign in the display's own character set.
pub const DEGREE: u8 = 0xdf;

/// The line of the text.
pub const TEXT_ROW: u8 = 3;

/// The width of the temperature's field.
pub const TEMPERATURE_WIDTH: usize = 2;

/// The width of each of the two fields of the peak.
pub const PEAK_WIDTH: usize = 3;

/// The text `cpu ` that opens the text line.
pub open spec fn label_cpu() -> Seq<u8> {
    seq![99u8, 112u8, 117u8, 32u8]
}

/// The text `C ` behind the degree sign.
pub open spec fn label_unit() -> Seq<u8> {
    seq![67u8, 32u8]
}

/// The text ` mem` that closes the text line.
pub open spec fn label_mem() -> Seq<u8> {
    seq![32u8, 109u8, 101u8, 109u8]
}

/// The bar and the blank in front of the memory gauge.
pub open spec fn label_bar() -> Seq<u8> {
    seq![SEPARATOR, 32u8]
}

/// The peak as text: sent and received, each in its field, a slash between.
pub open spec fn peak_text(peak: Peak) -> Seq<u8> {
    right_aligned(decimal(peak.tx as nat), PEAK_WIDTH as nat) + seq![47u8] + right_aligned(
        decimal(peak.rx as nat),
        PEAK_WIDTH as nat,
    )
}

/// The cells of the first `count` core gauges in the line `row`.
pub open spec fn cpu_cells(cpu: Seq<Ratio>, count: nat, row: int) -> Seq<Command> {
    Seq::new(count, |i: int| Command::Write(display_char_spec(cpu[i], row)))
}

/// The cell value of the `i`-th network gauge in the line `row`: the
/// interfaces in their order, of each first what is sent, then what is
/// received.
pub open spec fn net_value(net: Seq<NetGauge>, i: int, row: int) -> u8 {
    if i % 2 == 0 {
        display_char_spec(net[i / 2].tx, row)
    } else {
        display_char_spec(net[i / 2].rx, row)
    }
}

/// The cell of the `i`-th network gauge in the line `row`.
pub open spec fn net_cell(net: Seq<NetGauge>, i: int, row: int) -> Command {
    Command::Write(net_value(net, i, row))
}

/// The cells of the first `count` network gauges in the line `row`.
pub open spec fn net_cells(net: Seq<NetGauge>, count: nat, row: int) -> Seq<Command> {
    Seq::new(count, |i: int| net_cell(net, i, row))
}

/// The commands that draw the line `row` of the gauges.
pub open spec fn gauge_row_spec(
    cpu: Seq<Ratio>,
    net: Seq<NetGauge>,
    mem: Ratio,
    row: u8,
) -> Seq<Command> {
    seq![Command::Position { col: 0, row }] + cpu_cells(cpu, cpu.len(), row as int) + seq![
        Command::Write(SEPARATOR),
    ] + net_cells(net, 2 * net.len(), row as int) + seq![
        Command::Print(label_bar()),
        Command::Write(display_char_spec(mem, row as int)),
    ]
}

/// The commands that draw the text line.
pub open spec fn text_row_spec(temperature: i32, peak: Peak) -> Seq<Command> {
    seq![
        Command::Position { col: 0, row: TEXT_ROW },
        Command::Print(label_cpu()),
        Command::Print(right_aligned(signed_decimal(temperature as int), TEMPERATURE_WIDTH as nat)),
        Command::Write(DEGREE),
        Command::Print(label_unit()),
        Command::Print(peak_text(peak)),
        Command::Print(label_mem()),
    ]
}

/// The commands that draw a frame: the three lines of the gauges from the
/// top, then the text line.
pub open spec fn frame_spec(
    cpu: Seq<Ratio>,
    net: Seq<NetGauge>,
    mem: Ratio,
    temperature: i32,
    peak: Peak,
) -> Seq<Command> {
    gauge_row_spec(cpu, net, mem, 0) + gauge_row_spec(cpu, net, mem, 1) + gauge_row_spec(
        cpu,
        net,
        mem,
        2,
    ) + text_row_spec(temperature, peak)
}

/// A frame has one command per gauge cell and a fixed number around them.
pub proof fn lemma_frame_len(
    cpu: Seq<Ratio>,
    net: Seq<NetGauge>,
    mem: Ratio,
    temperature: i32,
    peak: Peak,
)
    ensures
        frame_spec(cpu, net, mem, temperature, peak).len() == 3 * (cpu.len() + 2 * net.len() + 4)
            + 7,
{
}

/// Appends one command.
fn emit(commands: &mut Vec<DisplayCommand>, command: DisplayCommand)
    ensures
        final(commands).deep_view() == old(commands).deep_view().push(command.deep_view()),
{
    let ghost before = commands.deep_view();
    let ghost added = command.deep_view();
    commands.push(command);
    assert(commands.deep_view() =~= before.push(added));
}

/// Appends the commands that draw the line `row` of the gauges.
fn render_gauge_row(
    commands: &mut Vec<DisplayCommand>,
    cpu: &Vec<Ratio>,
    net: &Vec<NetGauge>,
    mem: Ratio,
    row: u8,
)
    requires
        row < GAUGE_ROWS,
    ensures
        final(commands).deep_view() == old(commands).deep_view() + gauge_row_spec(
            cpu@,
            net@,
            mem,
            row,
        ),
{
    let ghost before = commands.deep_view();
    let ghost head = before + seq![Command::Position { col: 0, row }];
    emit(commands, DisplayCommand::Position { col: 0, row });
    assert(commands.deep_view() =~= head + cpu_cells(cpu@, 0, row as int));
    let mut i: usize = 0;
    while i < cpu.len()
        invariant
            i <= cpu.len(),
            row < GAUGE_ROWS,
            commands.deep_view() == head + cpu_cells(cpu@, i as nat, row as int),
        decreases cpu.len() - i,
    {
        emit(commands, DisplayCommand::Write(display_char(cpu[i], row)));
        assert((head + cpu_cells(cpu@, i as nat, row as int)).push(
            Command::Write(display_char_spec(cpu@[i as int], row as int)),
        ) =~= head + cpu_cells(cpu@, (i + 1) as nat, row as int));
        i = i + 1;
    }
    let ghost middle = head + cpu_cells(cpu@, cpu@.len(), row as int) + seq![
        Command::Write(SEPARATOR),
    ];
    emit(commands, DisplayCommand::Write(SEPARATOR));
    assert(commands.deep_view() =~= middle + net_cells(net@, 0, row as int));
    let mut k: usize = 0;
    while k < net.len()
        invariant
            k <= net.len(),
            row < GAUGE_ROWS,
            commands.deep_view() == middle + net_cells(net@, (2 * k) as nat, row as int),
        decreases net.len() - k,
    {
        let gauge = net[k];
        let ghost drawn = middle + net_cells(net@, (2 * k) as nat, row as int);
        emit(commands, DisplayCommand::Write(display_char(gauge.tx, row)));
        emit(commands, DisplayCommand::Write(display_char(gauge.rx, row)));
        proof {
            assert(net_cell(net@, 2 * k, row as int) == Command::Write(
                display_char_spec(gauge.tx, row as int),
            ));
            assert(net_cell(net@, 2 * k + 1, row as int) == Command::Write(
                display_char_spec(gauge.rx, row as int),
            ));
            assert(drawn.push(net_cell(net@, 2 * k, row as int)).push(
                net_cell(net@, 2 * k + 1, row as int),
            ) =~= middle + net_cells(net@, (2 * k + 2) as nat, row as int));
        }
        k = k + 1;
    }
    let bar: Vec<u8> = vec![SEPARATOR, 32];
    assert(bar@ =~= label_bar());
    emit(commands, DisplayCommand::Print(bar));
    emit(commands, DisplayCommand::Write(display_char(mem, row)));
    assert(commands.deep_view() =~= before + gauge_row_spec(cpu@, net@, mem, row));
}

/// Appends the commands that draw the text line.
fn render_text_row(commands: &mut Vec<DisplayCommand>, temperature: i32, peak: Peak)
    ensures
        final(commands).deep_view() == old(commands).deep_view() + text_row_spec(temperature, peak),
{
    let ghost before = commands.deep_view();
    emit(commands, DisplayCommand::Position { col: 0, row: TEXT_ROW });
    let cpu: Vec<u8> = vec![99, 112, 117, 32];
    assert(cpu@ =~= label_cpu());
    emit(commands, DisplayCommand::Print(cpu));
    let degrees = pad_left(format_signed(temperature as i64), TEMPERATURE_WIDTH);
    emit(commands, DisplayCommand::Print(degrees));
    emit(commands, DisplayCommand::Write(DEGREE));
    let unit: Vec<u8> = vec![67, 32];
    assert(unit@ =~= label_unit());
    emit(commands, DisplayCommand::Print(unit));
    let mut rates = pad_left(format_decimal(peak.tx as u64), PEAK_WIDTH);
    let mut received = pad_left(format_decimal(peak.rx as u64), PEAK_WIDTH);
    rates.push(47);
    rates.append(&mut received);
    assert(rates@ =~= peak_text(peak));
    emit(commands, DisplayCommand::Print(rates));
    let mem: Vec<u8> = vec![32, 109, 101, 109];
    assert(mem@ =~= label_mem());
    emit(commands, DisplayCommand::Print(mem));
    assert(commands.deep_view() =~= before + text_row_spec(temperature, peak));
}

/// The commands that draw one frame: for each of the three gauge lines from
/// the top the cursor is set to its start, then come one cell per core, a
/// bar, two cells per interface, a bar with a blank, and the cell of the
/// memory gauge; the text line shows the temperature in whole degrees and
/// the peak throughput sent and received.
pub fn render_frame(
    cpu: &Vec<Ratio>,
    net: &Vec<NetGauge>,
    mem: Ratio,
    temperature: i32,
    peak: Peak,
) -> (commands: Vec<DisplayCommand>)
    ensures
        commands.deep_view() == frame_spec(cpu@, net@, mem, temperature, peak),
{
    let mut commands: Vec<DisplayCommand> = Vec::new();
    assert(commands.deep_view() =~= Seq::<Command>::empty());
    render_gauge_row(&mut commands, cpu, net, mem, 0);
    render_gauge_row(&mut commands, cpu, net, mem, 1);
    render_gauge_row(&mut commands, cpu, net, mem, 2);
    render_text_row(&mut commands, temperature, peak);
    assert(commands.deep_view() =~= frame_spec(cpu@, net@, mem, temperature, peak));
    commands
}

} // verus!
