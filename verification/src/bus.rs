//! Faults of the bus that the display hangs on, and what follows from them.
//!
//! The display is reached over one of two buses. Which one is right differs
//! from board to board, so a start on the wrong bus is tried once more on the
//! other. Once the display is in use, a failed write is no reason to stop.

use vstd::prelude::*;

verus! {

/// What is known of a failed access to the bus.
#[derive(Clone, Copy, Debug, PartialEq, Eq)]
pub enum BusError {
    /// The operating system refused an input or output; with its error
    /// number, where it gave one.
    Io { raw_os_error: Option<i32> },
    /// A system call failed with this error number.
    Nix { errno: i32 },
    /// Anything else.
    Other,
}

/// The buses that a display may hang on.
#[derive(Clone, Copy, Debug, PartialEq, Eq)]
pub enum BusChoice {
    Primary,
    Fallback,
}

/// What to do next while the display is brought into use.
#[derive(Clone, Copy, Debug, PartialEq, Eq)]
pub enum StartupStep {
    /// Open the display on this bus.
    Open(BusChoice),
    /// The display is open on this bus.
    Ready(BusChoice),
    /// Give up, and report the fault of the primary bus.
    Failed,
}

/// What to do with a failed write to the display.
#[derive(Clone, Copy, Debug, PartialEq, Eq)]
pub enum WriteFault {
    /// Keep the fault: the start fails with it.
    Fatal,
    /// Report the fault and go on.
    Logged,
}

/// Whether `error` carries the error number `code`.
pub open spec fn has_errno(error: BusError, code: i32) -> bool {
    match error {
        BusError::Io { raw_os_error } => raw_os_error == Some(code),
        BusError::Nix { errno } => errno == code,
        BusError::Other => false,
    }
}

/// The step that follows an attempt on the bus `attempt`, where a remote
/// I/O error has the number `remote_io`: a display that opened is ready; a
/// remote I/O error on the primary bus sends the start to the fallback bus;
/// every other fault ends it.
pub open spec fn startup_step_spec(
    attempt: BusChoice,
    outcome: Result<(), BusError>,
    remote_io: i32,
) -> StartupStep {
    match outcome {
        Ok(_) => StartupStep::Ready(attempt),
        Err(error) => if attempt == BusChoice::Primary && has_errno(error, remote_io) {
            StartupStep::Open(BusChoice::Fallback)
        } else {
            StartupStep::Failed
        },
    }
}

/// The fallback bus is tried at most once, and only after the primary bus:
/// no attempt on the fallback bus leads to another attempt.
pub proof fn lemma_one_fallback(outcome: Result<(), BusError>, remote_io: i32)
    ensures
        !(startup_step_spec(BusChoice::Fallback, outcome, remote_io) is Open),
        startup_step_spec(BusChoice::Primary, outcome, remote_io) matches StartupStep::Open(bus)
            ==> bus == BusChoice::Fallback,
{
}

/// The error number that this platform gives a remote I/O error: `EREMOTEIO`
/// of the `libc` crate. Nothing is claimed of its value, which differs
/// between platforms.
#[verifier::external_body]
fn remote_io_errno() -> (code: i32) {
    libc::EREMOTEIO
}

/// Whether `error` is a remote I/O error, where such an error has the number
/// `remote_io`: the mark of a display that hangs on another bus.
pub fn indicates_wrong_bus(error: &BusError, remote_io: i32) -> (wrong: bool)
    ensures
        wrong == has_errno(*error, remote_io),
{
    match error {
        BusError::Io { raw_os_error } => match raw_os_error {
            Some(code) => *code == remote_io,
            None => false,
        },
        BusError::Nix { errno } => *errno == remote_io,
        BusError::Other => false,
    }
}

/// Whether `error` says that the wrong bus was used, and the other one is
/// worth a try: whether it is a remote I/O error by this platform's error
/// number.
pub fn is_bus_fubar_error(error: &BusError) -> (wrong: bool)
    ensures
        exists|code: i32| wrong == #[trigger] has_errno(*error, code),
        *error == BusError::Other ==> !wrong,
        *error == (BusError::Io { raw_os_error: None }) ==> !wrong,
{
    let code = remote_io_errno();
    let wrong = indicates_wrong_bus(error, code);
    assert(wrong == has_errno(*error, code));
    wrong
}

/// The first step of a start: open the display on the primary bus.
pub fn first_step() -> (step: StartupStep)
    ensures
        step == StartupStep::Open(BusChoice::Primary),
{
    StartupStep::Open(BusChoice::Primary)
}

/// The step that follows an attempt on the bus `attempt` that ended in
/// `outcome`, where a remote I/O error has the number `remote_io`.
pub fn startup_step_with(
    attempt: BusChoice,
    outcome: &Result<(), BusError>,
    remote_io: i32,
) -> (step: StartupStep)
    ensures
        step == startup_step_spec(attempt, *outcome, remote_io),
{
    match outcome {
        Ok(_) => StartupStep::Ready(attempt),
        Err(error) => {
            let wrong = indicates_wrong_bus(error, remote_io);
            match attempt {
                BusChoice::Primary => if wrong {
                    StartupStep::Open(BusChoice::Fallback)
                } else {
                    StartupStep::Failed
                },
                BusChoice::Fallback => StartupStep::Failed,
            }
        },
    }
}

/// The step that follows an attempt on the bus `attempt` that ended in
/// `outcome`, by this platform's number for a remote I/O error.
pub fn startup_step(attempt: BusChoice, outcome: &Result<(), BusError>) -> (step: StartupStep)
    ensures
        exists|code: i32| step == #[trigger] startup_step_spec(attempt, *outcome, code),
        *outcome is Ok ==> step == StartupStep::Ready(attempt),
        attempt == BusChoice::Fallback && *outcome is Err ==> step == StartupStep::Failed,
{
    let code = remote_io_errno();
    let step = startup_step_with(attempt, outcome, code);
    assert(step == startup_step_spec(attempt, *outcome, code));
    step
}

/// What to do with a failed write to the display: while the display is
/// brought into use the fault is fatal, afterwards it is reported and the
/// work goes on.
pub fn on_write_fault(initialized: bool) -> (action: WriteFault)
    ensures
        action == (if initialized {
            WriteFault::Logged
        } else {
            WriteFault::Fatal
        }),
{
    if initialized {
        WriteFault::Logged
    } else {
        WriteFault::Fatal
    }
}

} // verus!
