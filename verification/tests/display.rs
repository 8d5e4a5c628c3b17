use lcd_dashboard::bus::{
    first_step, indicates_wrong_bus, is_bus_fubar_error, on_write_fault, startup_step,
    startup_step_with, BusChoice, BusError, StartupStep, WriteFault,
};
use lcd_dashboard::command::{shutdown_commands, startup_commands, DisplayCommand};
use lcd_dashboard::mock_display::{init_display, stop_display, MockDisplay};
use std::fmt::Write;

fn line(display: &MockDisplay, row: usize) -> String {
    display.dump()[row].iter().collect()
}

#[test]
fn a_new_display_is_blank() {
    let display = MockDisplay::new();
    assert_eq!((0, 0), display.cursor());
    let lines = display.dump();
    assert_eq!(4, lines.len());
    for l in &lines {
        assert_eq!(20, l.len());
        assert!(l.iter().all(|&c| c == ' '));
    }
}

#[test]
fn init_gives_a_blank_display() {
    let display = init_display().unwrap();
    assert_eq!(MockDisplay::new().dump(), display.dump());
    assert_eq!((0, 0), display.cursor());
    stop_display(display);
}

#[test]
fn position_is_held_to_the_grid() {
    let mut display = MockDisplay::new();
    display.position(5, 2);
    assert_eq!((2, 5), display.cursor());
    display.position(19, 3);
    assert_eq!((3, 19), display.cursor());
    display.position(20, 4);
    assert_eq!((3, 19), display.cursor());
    display.position(255, 255);
    assert_eq!((3, 19), display.cursor());
    display.position(0, 0);
    assert_eq!((0, 0), display.cursor());
}

#[test]
fn write_shows_glyphs_and_characters() {
    let mut display = MockDisplay::new();
    for byte in 0..8u8 {
        display.write(byte);
    }
    display.write(0xdf);
    display.write(b'A');
    display.write(b'|');
    assert_eq!(" \u{2581}\u{2582}\u{2583}\u{2584}\u{2585}\u{2586}\u{2587}\u{b0}A|         ", line(&display, 0));
    assert_eq!((0, 11), display.cursor());
    assert_eq!(Some('\u{2587}'), display.cell(7, 0));
    assert_eq!(Some('A'), display.cell(9, 0));
    assert_eq!(None, display.cell(20, 0));
    assert_eq!(None, display.cell(0, 4));
}

#[test]
fn write_wraps_to_the_next_line_and_to_the_top() {
    let mut display = MockDisplay::new();
    display.position(19, 0);
    display.write(b'x');
    assert_eq!((1, 0), display.cursor());
    display.position(19, 3);
    display.write(b'y');
    assert_eq!((0, 0), display.cursor());
    display.write(b'z');
    assert_eq!(Some('x'), display.cell(19, 0));
    assert_eq!(Some('y'), display.cell(19, 3));
    assert_eq!(Some('z'), display.cell(0, 0));
    assert_eq!((0, 1), display.cursor());
}

#[test]
fn print_writes_every_byte() {
    let mut display = MockDisplay::new();
    display.position(17, 1);
    display.print("hello");
    assert_eq!("                 hel", line(&display, 1));
    assert_eq!("lo                  ", line(&display, 2));
    assert_eq!((2, 2), display.cursor());
    display.print("");
    assert_eq!((2, 2), display.cursor());
    let mut other = MockDisplay::new();
    other.position(17, 1);
    other.write_bytes(b"hello");
    assert_eq!(display.dump(), other.dump());
}

#[test]
fn print_writes_the_bytes_of_a_wide_character() {
    let mut display = MockDisplay::new();
    // The degree sign takes two bytes, and so two cells.
    display.print("\u{b0}");
    assert_eq!((0, 2), display.cursor());
    assert_eq!(Some('\u{c2}'), display.cell(0, 0));
    assert_eq!(Some('\u{b0}'), display.cell(1, 0));
}

#[test]
fn commands_are_carried_out_in_order() {
    let commands = vec![
        DisplayCommand::Power(true),
        DisplayCommand::UploadGlyph { index: 0, bitmap: [0, 0, 0, 0, 0, 0, 0, 31] },
        DisplayCommand::Position { col: 3, row: 1 },
        DisplayCommand::Write(7),
        DisplayCommand::Print(b"ok".to_vec()),
        DisplayCommand::Backlight(false),
    ];
    let mut display = MockDisplay::new();
    display.run(&commands);
    assert_eq!("   \u{2587}ok              ", line(&display, 1));
    assert_eq!((1, 6), display.cursor());

    let mut stepwise = MockDisplay::new();
    for command in &commands {
        stepwise.execute(command);
    }
    assert_eq!(display.dump(), stepwise.dump());
    assert_eq!(display.cursor(), stepwise.cursor());
}

#[test]
fn startup_switches_on_and_defines_the_glyphs() {
    let commands = startup_commands();
    assert_eq!(9, commands.len());
    assert_eq!(DisplayCommand::Power(true), commands[0]);
    assert_eq!(
        DisplayCommand::UploadGlyph { index: 0, bitmap: [0, 0, 0, 0, 0, 0, 0, 31] },
        commands[1]
    );
    assert_eq!(
        DisplayCommand::UploadGlyph { index: 4, bitmap: [0, 0, 0, 31, 31, 31, 31, 31] },
        commands[5]
    );
    assert_eq!(DisplayCommand::UploadGlyph { index: 7, bitmap: [31; 8] }, commands[8]);
    // None of this is seen on a grid of characters.
    let mut display = MockDisplay::new();
    display.run(&commands);
    assert_eq!(MockDisplay::new().dump(), display.dump());
}

#[test]
fn shutdown_switches_off() {
    assert_eq!(
        vec![DisplayCommand::Power(false), DisplayCommand::Backlight(false)],
        shutdown_commands()
    );
}

#[test]
fn remote_io_error_marks_the_wrong_bus() {
    let code = libc::EREMOTEIO;
    assert!(is_bus_fubar_error(&BusError::Nix { errno: code }));
    assert!(is_bus_fubar_error(&BusError::Io { raw_os_error: Some(code) }));
    assert!(!is_bus_fubar_error(&BusError::Nix { errno: libc::ENOENT }));
    assert!(!is_bus_fubar_error(&BusError::Nix { errno: 0 }));
    assert!(!is_bus_fubar_error(&BusError::Io { raw_os_error: Some(libc::EACCES) }));
    assert!(!is_bus_fubar_error(&BusError::Io { raw_os_error: None }));
    assert!(!is_bus_fubar_error(&BusError::Other));
}

#[test]
fn wrong_bus_by_a_given_error_number() {
    assert!(indicates_wrong_bus(&BusError::Nix { errno: 121 }, 121));
    assert!(!indicates_wrong_bus(&BusError::Nix { errno: 121 }, 140));
    assert!(indicates_wrong_bus(&BusError::Io { raw_os_error: Some(140) }, 140));
    assert!(!indicates_wrong_bus(&BusError::Io { raw_os_error: None }, 140));
    assert!(!indicates_wrong_bus(&BusError::Other, 0));
}

#[test]
fn startup_tries_the_fallback_bus_once() {
    let remote = BusError::Nix { errno: libc::EREMOTEIO };
    let denied = BusError::Io { raw_os_error: Some(libc::EACCES) };
    assert_eq!(StartupStep::Open(BusChoice::Primary), first_step());
    assert_eq!(StartupStep::Ready(BusChoice::Primary), startup_step(BusChoice::Primary, &Ok(())));
    assert_eq!(
        StartupStep::Open(BusChoice::Fallback),
        startup_step(BusChoice::Primary, &Err(remote))
    );
    assert_eq!(StartupStep::Failed, startup_step(BusChoice::Primary, &Err(denied)));
    assert_eq!(StartupStep::Failed, startup_step(BusChoice::Primary, &Err(BusError::Other)));
    assert_eq!(StartupStep::Ready(BusChoice::Fallback), startup_step(BusChoice::Fallback, &Ok(())));
    assert_eq!(StartupStep::Failed, startup_step(BusChoice::Fallback, &Err(remote)));
    assert_eq!(StartupStep::Failed, startup_step(BusChoice::Fallback, &Err(denied)));
    assert_eq!(
        StartupStep::Open(BusChoice::Fallback),
        startup_step_with(BusChoice::Primary, &Err(BusError::Nix { errno: 7 }), 7)
    );
    assert_eq!(
        StartupStep::Failed,
        startup_step_with(BusChoice::Primary, &Err(BusError::Nix { errno: 7 }), 8)
    );
}

#[test]
fn write_faults_are_fatal_only_at_the_start() {
    assert_eq!(WriteFault::Fatal, on_write_fault(false));
    assert_eq!(WriteFault::Logged, on_write_fault(true));
}

#[test]
fn formatted_text_goes_to_the_display() {
    let mut display = MockDisplay::new();
    display.position(4, 3);
    display.write_str(&format!("{:>2}", 45)).unwrap();
    display.write_str(&format!("{:>3}/{:>3}", 5, 10)).unwrap();
    assert_eq!("    45  5/ 10       ", line(&display, 3));
    assert_eq!((3, 13), display.cursor());
}
