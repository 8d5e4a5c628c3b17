use lcd_dashboard::poll_loop::{Action, Event, LoopState, PollLoop, POLL_MILLIS};

#[test]
fn loop_starts_running() {
    let l = PollLoop::new();
    assert_eq!(LoopState::Running, l.state());
    assert_eq!(Action::CheckCancel, l.awaited());
}

#[test]
fn a_turn_samples_renders_and_sleeps() {
    let mut l = PollLoop::new();
    for _ in 0..3 {
        assert_eq!(Action::Sample, l.step(Event::CancelChecked { requested: false }));
        assert_eq!(Action::Render, l.step(Event::Sampled { ok: true }));
        assert_eq!(Action::Sleep { millis: 500 }, l.step(Event::Rendered));
        assert_eq!(LoopState::Running, l.state());
        assert_eq!(Action::CheckCancel, l.step(Event::Slept));
        assert_eq!(Action::CheckCancel, l.awaited());
    }
    assert_eq!(500, POLL_MILLIS);
}

#[test]
fn a_stop_switches_the_display_off() {
    let mut l = PollLoop::new();
    l.step(Event::CancelChecked { requested: false });
    l.step(Event::Sampled { ok: true });
    l.step(Event::Rendered);
    l.step(Event::Slept);
    assert_eq!(Action::PowerOff, l.step(Event::CancelChecked { requested: true }));
    assert_eq!(LoopState::Stopping, l.state());
    assert_eq!(Action::Exit { failed: false }, l.step(Event::PoweredOff));
    assert_eq!(LoopState::Ended, l.state());
}

#[test]
fn a_stop_before_the_first_turn() {
    let mut l = PollLoop::new();
    assert_eq!(Action::PowerOff, l.step(Event::CancelChecked { requested: true }));
    assert_eq!(Action::Exit { failed: false }, l.step(Event::PoweredOff));
}

#[test]
fn a_failed_sample_ends_the_loop_at_once() {
    let mut l = PollLoop::new();
    l.step(Event::CancelChecked { requested: false });
    assert_eq!(Action::Exit { failed: true }, l.step(Event::Sampled { ok: false }));
    assert_eq!(LoopState::Ended, l.state());
}

#[test]
fn the_end_is_final() {
    let events = [
        Event::CancelChecked { requested: false },
        Event::CancelChecked { requested: true },
        Event::Sampled { ok: true },
        Event::Sampled { ok: false },
        Event::Rendered,
        Event::Slept,
        Event::PoweredOff,
    ];
    for failed in [false, true] {
        let mut l = PollLoop::new();
        if failed {
            l.step(Event::CancelChecked { requested: false });
            l.step(Event::Sampled { ok: false });
        } else {
            l.step(Event::CancelChecked { requested: true });
            l.step(Event::PoweredOff);
        }
        for event in events {
            assert_eq!(Action::Exit { failed }, l.step(event));
            assert_eq!(LoopState::Ended, l.state());
        }
    }
}

#[test]
fn an_event_out_of_turn_changes_nothing() {
    let mut l = PollLoop::new();
    assert_eq!(Action::CheckCancel, l.step(Event::Slept));
    assert_eq!(Action::CheckCancel, l.step(Event::Sampled { ok: false }));
    assert_eq!(Action::CheckCancel, l.step(Event::PoweredOff));
    l.step(Event::CancelChecked { requested: false });
    // A stop is seen between two turns only.
    assert_eq!(Action::Sample, l.step(Event::CancelChecked { requested: true }));
    assert_eq!(Action::Render, l.step(Event::Sampled { ok: true }));
    assert_eq!(Action::Render, l.step(Event::CancelChecked { requested: true }));
    assert_eq!(Action::Sleep { millis: 500 }, l.step(Event::Rendered));
    assert_eq!(Action::Sleep { millis: 500 }, l.step(Event::Rendered));
    assert_eq!(LoopState::Running, l.state());
}
