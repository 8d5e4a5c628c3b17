//! The loop that keeps the dashboard alive, as a machine of states.
//!
//! The loop itself reads counters, writes to the display and sleeps, none
//! of which happens here. Here is what it decides: which action comes next,
//! given how the last one ended. Whoever runs the loop carries out the action
//! and reports the event.

use vstd::prelude::*;

verus! {

/// The pause between two frames, in milliseconds.
pub const POLL_MILLIS: u64 = 500;

/// What the loop asks for next.
#[derive(Clone, Copy, Debug, PartialEq, Eq)]
pub enum Action {
    /// Look whether a stop was asked for.
    CheckCancel,
    /// Read all sources: network, processor, memory, temperature.
    Sample,
    /// Draw one frame.
    Render,
    /// Pause.
    Sleep { millis: u64 },
    /// Switch the display off.
    PowerOff,
    /// Leave the loop; with a failure, where a source could not be read.
    Exit { failed: bool },
}

/// How an action ended.
#[derive(Clone, Copy, Debug, PartialEq, Eq)]
pub enum Event {
    /// The stop flag was read.
    CancelChecked { requested: bool },
    /// The sources were read, or one of them could not be.
    Sampled { ok: bool },
    /// The frame was drawn.
    Rendered,
    /// The pause is over.
    Slept,
    /// The display is off.
    PoweredOff,
}

/// The states of the loop.
#[derive(Clone, Copy, Debug, PartialEq, Eq)]
pub enum LoopState {
    /// Frames are drawn.
    Running,
    /// A stop was seen, and the display is being switched off.
    Stopping,
    /// The loop is over.
    Ended,
}

/// The state that the loop is in while it waits for `awaited` to end.
pub open spec fn state_of(awaited: Action) -> LoopState {
    match awaited {
        Action::PowerOff => LoopState::Stopping,
        Action::Exit { .. } => LoopState::Ended,
        _ => LoopState::Running,
    }
}

/// The action that follows `awaited` once it has ended in `event`.
///
/// A turn of the loop looks for a stop, reads the sources, draws a frame and
/// pauses, in this order. A stop leads to switching the display off and then
/// out of the loop. A source that cannot be read ends the loop at once. An
/// event that does not belong to the awaited action changes nothing: the
/// action is asked for again.
pub open spec fn next_action(awaited: Action, event: Event) -> Action {
    match (awaited, event) {
        (Action::CheckCancel, Event::CancelChecked { requested }) => if requested {
            Action::PowerOff
        } else {
            Action::Sample
        },
        (Action::Sample, Event::Sampled { ok }) => if ok {
            Action::Render
        } else {
            Action::Exit { failed: true }
        },
        (Action::Render, Event::Rendered) => Action::Sleep { millis: POLL_MILLIS },
        (Action::Sleep { .. }, Event::Slept) => Action::CheckCancel,
        (Action::PowerOff, Event::PoweredOff) => Action::Exit { failed: false },
        _ => awaited,
    }
}

/// A turn without a stop and without a failure comes back to where it began.
pub proof fn lemma_turn_returns()
    ensures
        next_action(
            next_action(
                next_action(
                    next_action(Action::CheckCancel, Event::CancelChecked { requested: false }),
                    Event::Sampled { ok: true },
                ),
                Event::Rendered,
            ),
            Event::Slept,
        ) == Action::CheckCancel,
{
}

/// A stop is seen between two turns only: the loop leaves the running state
/// for the stopping state from the look for a stop, when one was asked for,
/// and by no other way.
pub proof fn lemma_stop_only_between_turns(awaited: Action, event: Event)
    requires
        state_of(awaited) == LoopState::Running,
        state_of(next_action(awaited, event)) == LoopState::Stopping,
    ensures
        awaited == Action::CheckCancel,
        event == (Event::CancelChecked { requested: true }),
{
}

/// The loop ends in two ways only: with a failure, from a source that could
/// not be read, and without one, after the display was switched off. Once
/// over, it stays over.
pub proof fn lemma_ends(awaited: Action, event: Event)
    ensures
        state_of(awaited) != LoopState::Ended && next_action(awaited, event) == (Action::Exit {
            failed: true,
        }) ==> awaited == Action::Sample && event == (Event::Sampled { ok: false }),
        state_of(awaited) != LoopState::Ended && next_action(awaited, event) == (Action::Exit {
            failed: false,
        }) ==> awaited == Action::PowerOff && event == Event::PoweredOff,
        state_of(awaited) == LoopState::Ended ==> next_action(awaited, event) == awaited,
        state_of(awaited) == LoopState::Stopping ==> state_of(next_action(awaited, event))
            != LoopState::Running,
{
}

/// The loop between two actions.
#[derive(Clone, Copy, Debug)]
pub struct PollLoop {
    awaited: Action,
}

impl View for PollLoop {
    type V = Action;

    /// The action that the loop waits for.
    closed spec fn view(&self) -> Action {
        self.awaited
    }
}

impl PollLoop {
    /// A loop at its start: running, and about to look for a stop.
    pub fn new() -> (l: PollLoop)
        ensures
            l@ == Action::CheckCancel,
    {
        PollLoop { awaited: Action::CheckCancel }
    }

    /// The action that the loop waits for.
    pub fn awaited(&self) -> (action: Action)
        ensures
            action == self@,
    {
        self.awaited
    }

    /// The state of the loop.
    pub fn state(&self) -> (state: LoopState)
        ensures
            state == state_of(self@),
    {
        match self.awaited {
            Action::PowerOff => LoopState::Stopping,
            Action::Exit { .. } => LoopState::Ended,
            _ => LoopState::Running,
        }
    }

    /// Takes in how the awaited action ended, and gives the action that
    /// comes next, which is then the awaited one.
    pub fn step(&mut self, event: Event) -> (action: Action)
        ensures
            action == next_action(old(self)@, event),
            final(self)@ == action,
    {
        let next = match (self.awaited, event) {
            (Action::CheckCancel, Event::CancelChecked { requested }) => if requested {
                Action::PowerOff
            } else {
                Action::Sample
            },
            (Action::Sample, Event::Sampled { ok }) => if ok {
                Action::Render
            } else {
                Action::Exit { failed: true }
            },
            (Action::Render, Event::Rendered) => Action::Sleep { millis: POLL_MILLIS },
            (Action::Sleep { .. }, Event::Slept) => Action::CheckCancel,
            (Action::PowerOff, Event::PoweredOff) => Action::Exit { failed: false },
            (awaited, _) => awaited,
        };
        self.awaited = next;
        next
    }
}

} // verus!
