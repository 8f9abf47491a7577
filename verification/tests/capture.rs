use midi_capture::capture::{DEFAULT_POLL_MILLIS, MIN_WAIT_NANOS};
use midi_capture::parser::nano_control2;
use midi_capture::parser::State;
use midi_capture::{
    immediate_step, poll_timeout, wait_time, CallcbackCtrl, CoalescedFrame, CtrlData, EvKey,
    EventKind, LoopAction, LoopEvent, MidiEvent, NoteData, PollEvent, SeqEvent, WindowAction,
    WindowEvent, WindowedLoop,
};

const MS: u128 = 1_000_000;

fn ctrl(channel: u8, param: u32, value: i32) -> SeqEvent {
    SeqEvent { kind: EventKind::Other, ctrl: Some(CtrlData { channel, param, value }), note: None }
}

fn note(kind: EventKind, channel: u8, note: u8, velocity: u8) -> SeqEvent {
    SeqEvent { kind, ctrl: None, note: Some(NoteData { channel, note, velocity }) }
}

/// Runs the immediate loop against a queue of pending events that is
/// refilled after each wait, with a handler that stops at `stop_at`.
fn run_immediate(batches: Vec<Vec<u32>>, stop_at: Option<u32>) -> (Vec<u32>, usize, bool) {
    let mut batches = batches.into_iter();
    let mut pending: std::collections::VecDeque<u32> = batches.next().unwrap_or_default().into();
    let mut seen = Vec::new();
    let mut waits = 0;
    let mut action = LoopAction::Read;
    loop {
        let event = match action {
            LoopAction::Read => LoopEvent::Read(pending.pop_front()),
            LoopAction::Deliver(ev) => {
                seen.push(ev);
                LoopEvent::Handled(if Some(ev) == stop_at {
                    CallcbackCtrl::Break
                } else {
                    CallcbackCtrl::Continue
                })
            }
            LoopAction::Wait(millis) => {
                assert_eq!(millis, 100);
                waits += 1;
                match batches.next() {
                    Some(batch) => {
                        pending = batch.into();
                        LoopEvent::Polled(PollEvent::Ready)
                    }
                    None => return (seen, waits, false),
                }
            }
            LoopAction::Stop => return (seen, waits, true),
        };
        action = immediate_step(event, DEFAULT_POLL_MILLIS);
    }
}

#[test]
fn immediate_mode_hands_over_every_event_in_order() {
    let (seen, waits, stopped) = run_immediate(vec![vec![1, 2, 3], vec![], vec![4, 5]], None);
    assert_eq!(seen, vec![1, 2, 3, 4, 5]);
    assert_eq!(waits, 3);
    assert!(!stopped);
}

#[test]
fn immediate_mode_ends_at_the_first_stop() {
    let (seen, waits, stopped) = run_immediate(vec![vec![1, 2, 3], vec![4, 5]], Some(2));
    assert_eq!(seen, vec![1, 2]);
    assert_eq!(waits, 0);
    assert!(stopped);
    let (seen, _, stopped) = run_immediate(vec![vec![7], vec![8, 9, 8]], Some(8));
    assert_eq!(seen, vec![7, 8]);
    assert!(stopped);
}

#[test]
fn immediate_decisions() {
    assert_eq!(immediate_step(LoopEvent::Read(Some(7u8)), 100), LoopAction::Deliver(7u8));
    assert_eq!(immediate_step(LoopEvent::<u8>::Read(None), 100), LoopAction::Wait(100));
    assert_eq!(immediate_step(LoopEvent::<u8>::Read(None), 0), LoopAction::Wait(1));
    assert_eq!(
        immediate_step(LoopEvent::<u8>::Handled(CallcbackCtrl::Continue), 100),
        LoopAction::Read
    );
    assert_eq!(
        immediate_step(LoopEvent::<u8>::Handled(CallcbackCtrl::Break), 100),
        LoopAction::Stop
    );
    assert_eq!(immediate_step(LoopEvent::<u8>::Polled(PollEvent::Timeout), 100), LoopAction::Read);
    assert_eq!(immediate_step(LoopEvent::<u8>::Polled(PollEvent::Ready), 100), LoopAction::Read);
}

#[test]
fn a_timeout_is_at_least_one_millisecond() {
    assert_eq!(poll_timeout(0), 1);
    assert_eq!(poll_timeout(1), 1);
    assert_eq!(poll_timeout(2), 2);
    assert_eq!(poll_timeout(100), 100);
    assert_eq!(poll_timeout(i32::MAX as u128), i32::MAX);
}

#[test]
fn a_timeout_keeps_the_lowest_32_digits() {
    assert_eq!(poll_timeout(1 << 31), 1);
    assert_eq!(poll_timeout((1 << 32) - 1), 1);
    assert_eq!(poll_timeout(1 << 32), 1);
    assert_eq!(poll_timeout((1 << 32) + 5), 5);
    assert_eq!(poll_timeout((7 << 32) + 1234), 1234);
    assert_eq!(poll_timeout(u128::MAX), 1);
}

#[test]
fn the_wait_is_what_is_left_or_two_milliseconds() {
    assert_eq!(wait_time(100 * MS, 40 * MS), 60 * MS);
    assert_eq!(wait_time(100 * MS, 100 * MS - 1), 1);
    assert_eq!(wait_time(100 * MS, 100 * MS), 2 * MS);
    assert_eq!(wait_time(100 * MS, 500 * MS), 2 * MS);
    assert_eq!(MIN_WAIT_NANOS, 2 * MS);
}

#[test]
fn poll_counts() {
    assert_eq!(PollEvent::from_count(0), PollEvent::Timeout);
    assert_eq!(PollEvent::from_count(1), PollEvent::Ready);
}

#[test]
fn a_controller_payload_is_read_first() {
    assert_eq!(
        MidiEvent::parse(ctrl(2, 41, 127)),
        Some((MidiEvent::Control { channel: 2, param: 41 }, 127))
    );
    let both = SeqEvent {
        kind: EventKind::NoteOn,
        ctrl: Some(CtrlData { channel: 1, param: 2, value: -3 }),
        note: Some(NoteData { channel: 9, note: 9, velocity: 9 }),
    };
    assert_eq!(MidiEvent::parse(both), Some((MidiEvent::Control { channel: 1, param: 2 }, -3)));
}

#[test]
fn a_note_gives_its_velocity_as_the_value() {
    assert_eq!(
        MidiEvent::parse(note(EventKind::NoteOn, 0, 25, 127)),
        Some((MidiEvent::NoteOn { channel: 0, note: 25, velocity: 127 }, 127))
    );
    assert_eq!(
        MidiEvent::parse(note(EventKind::NoteOff, 3, 1, 0)),
        Some((MidiEvent::NoteOff { channel: 3, note: 1, velocity: 0 }, 0))
    );
    assert_eq!(
        MidiEvent::parse(note(EventKind::NoteOn, 3, 1, 255)),
        Some((MidiEvent::NoteOn { channel: 3, note: 1, velocity: 255 }, 255))
    );
}

#[test]
fn other_events_say_nothing() {
    assert_eq!(MidiEvent::parse(note(EventKind::Other, 0, 25, 127)), None);
    assert_eq!(MidiEvent::parse(SeqEvent { kind: EventKind::Other, ctrl: None, note: None }), None);
}

#[test]
fn well_formed_events() {
    assert!(ctrl(0, 0, 0).is_well_formed());
    assert!(note(EventKind::NoteOn, 0, 0, 0).is_well_formed());
    assert!(SeqEvent { kind: EventKind::Other, ctrl: None, note: None }.is_well_formed());
    assert!(!SeqEvent { kind: EventKind::NoteOn, ctrl: None, note: None }.is_well_formed());
    assert!(!SeqEvent { kind: EventKind::NoteOff, ctrl: None, note: None }.is_well_formed());
}

#[test]
fn a_message_names_a_control() {
    assert_eq!(
        MidiEvent::Control { channel: 1, param: 300 }.key(),
        EvKey { channel: 1, param: 300 }
    );
    assert_eq!(
        MidiEvent::NoteOn { channel: 2, note: 41, velocity: 5 }.key(),
        EvKey { channel: 2, param: 41 }
    );
    assert_eq!(
        MidiEvent::NoteOff { channel: 0, note: 255, velocity: 0 }.key(),
        EvKey { channel: 0, param: 255 }
    );
    assert_eq!(
        MidiEvent::from_ctrl(&CtrlData { channel: 4, param: 5, value: 6 }),
        MidiEvent::Control { channel: 4, param: 5 }
    );
    assert_eq!(
        MidiEvent::from_note(EventKind::NoteOff, &NoteData { channel: 4, note: 5, velocity: 6 }),
        MidiEvent::NoteOff { channel: 4, note: 5, velocity: 6 }
    );
}

fn expect_read(action: &WindowAction) {
    assert!(matches!(action, WindowAction::Read));
}

#[test]
fn a_window_keeps_the_last_value_of_a_key() {
    let k = MidiEvent::Control { channel: 0, param: 7 };
    let other = MidiEvent::Control { channel: 0, param: 8 };
    let state = WindowedLoop::new(0, 100 * MS);
    assert_eq!(state.deadline(), 100 * MS);
    assert_eq!(state.interval(), 100 * MS);
    let (state, action) = state.step(WindowEvent::Read(Some(ctrl(0, 7, 5))));
    expect_read(&action);
    let (state, action) = state.step(WindowEvent::Read(Some(ctrl(0, 7, 12))));
    expect_read(&action);
    let (state, action) = state.step(WindowEvent::Read(Some(ctrl(0, 7, 9))));
    expect_read(&action);
    assert_eq!(state.frame().get(k), Some(9));
    let (state, action) = state.step(WindowEvent::Read(None));
    assert!(matches!(action, WindowAction::Clock));
    let (state, action) = state.step(WindowEvent::Tick(100 * MS));
    let frame = match action {
        WindowAction::Deliver(frame) => frame,
        other => panic!("the frame is due, got {:?}", other),
    };
    assert_eq!(frame.get(k), Some(9));
    assert_eq!(frame.get(other), None);
    assert_eq!(frame.entries(), vec![(k, 9)]);
    assert!(state.frame().is_empty());
}

#[test]
fn the_next_window_starts_empty_when_the_handler_has_returned() {
    let k = MidiEvent::Control { channel: 0, param: 7 };
    let state = WindowedLoop::new(10 * MS, 100 * MS);
    let (state, _) = state.step(WindowEvent::Read(Some(ctrl(0, 7, 5))));
    let (state, action) = state.step(WindowEvent::Tick(130 * MS));
    assert!(matches!(action, WindowAction::Deliver(_)));
    let (state, action) = state.step(WindowEvent::Handled(CallcbackCtrl::Continue, 150 * MS));
    expect_read(&action);
    assert_eq!(state.deadline(), 250 * MS);
    assert_eq!(state.interval(), 100 * MS);
    let (state, _) = state.step(WindowEvent::Read(None));
    let (state, action) = state.step(WindowEvent::Tick(250 * MS));
    match action {
        WindowAction::Deliver(frame) => {
            assert!(frame.is_empty());
            assert_eq!(frame.get(k), None);
        }
        other => panic!("the frame is due, got {:?}", other),
    }
    let (_, action) = state.step(WindowEvent::Handled(CallcbackCtrl::Break, 251 * MS));
    assert!(matches!(action, WindowAction::Stop));
}

#[test]
fn before_the_deadline_the_loop_waits_for_the_rest() {
    let state = WindowedLoop::new(0, 100 * MS);
    let (state, action) = state.step(WindowEvent::Tick(40 * MS));
    assert!(matches!(action, WindowAction::Wait(60)));
    let (state, action) = state.step(WindowEvent::Polled(PollEvent::Timeout));
    expect_read(&action);
    let (state, action) = state.step(WindowEvent::Tick(100 * MS - 1));
    assert!(matches!(action, WindowAction::Wait(1)));
    let (state, action) = state.step(WindowEvent::Polled(PollEvent::Ready));
    expect_read(&action);
    let (_, action) = state.step(WindowEvent::Tick(99 * MS));
    assert!(matches!(action, WindowAction::Wait(1)));
}

#[test]
fn events_that_say_nothing_leave_the_frame_alone() {
    let state = WindowedLoop::new(0, 100 * MS);
    let (state, action) = state.step(WindowEvent::Read(Some(note(EventKind::Other, 0, 1, 1))));
    expect_read(&action);
    assert!(state.frame().is_empty());
    let (state, _) = state.step(WindowEvent::Read(Some(note(EventKind::NoteOn, 0, 1, 90))));
    assert_eq!(
        state.frame().get(MidiEvent::NoteOn { channel: 0, note: 1, velocity: 90 }),
        Some(90)
    );
    assert_eq!(state.frame().get(MidiEvent::NoteOff { channel: 0, note: 1, velocity: 90 }), None);
}

#[test]
fn a_delivered_frame_decodes_on_the_surface() {
    let state = WindowedLoop::new(0, 10 * MS);
    let (state, _) = state.step(WindowEvent::Read(Some(ctrl(0, 41, 127))));
    let (state, _) = state.step(WindowEvent::Read(Some(ctrl(0, 41, 0))));
    let (_, action) = state.step(WindowEvent::Tick(11 * MS));
    let frame: CoalescedFrame = match action {
        WindowAction::Deliver(frame) => frame,
        other => panic!("the frame is due, got {:?}", other),
    };
    assert_eq!(
        nano_control2::parse(&frame),
        vec![nano_control2::Event::TransportButton(nano_control2::TransportButton::Play(
            State::Off
        ))]
    );
}
