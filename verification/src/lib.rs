//! Capture of MIDI control-surface input and its decoding into typed events.
//!
//! The crate holds the decisions of a capture loop and the decoders of two
//! control surfaces. It performs no input or output itself: a host program
//! reads the sequencer, reads the clock and calls the handlers, and asks the
//! functions here what to do next.

use vstd::prelude::*;

pub mod capture;
pub mod frame;
pub mod parser;
pub mod transport;

pub use capture::{
    immediate_step, poll_timeout, wait_time, LoopAction, LoopEvent, WindowAction, WindowEvent,
    WindowedLoop,
};
pub use frame::CoalescedFrame;

verus! {

/// Identity of a physical control: the channel it sends on and its number.
#[derive(Debug, Clone, Copy, PartialEq, Eq, Hash)]
pub struct EvKey {
    pub channel: u8,
    pub param: u32,
}

/// Identity of an incoming message, by the kind of message that carried it.
#[derive(Debug, Clone, Copy, PartialEq, Eq, Hash)]
pub enum MidiEvent {
    Control { channel: u8, param: u32 },
    NoteOn { channel: u8, note: u8, velocity: u8 },
    NoteOff { channel: u8, note: u8, velocity: u8 },
}

/// Outcome of a bounded wait on the transport.
#[derive(Debug, Clone, Copy, PartialEq, Eq)]
pub enum PollEvent {
    Timeout,
    Ready,
}

/// Answer of a handler: go on, or end the loop.
#[derive(Debug, Clone, Copy, PartialEq, Eq)]
pub enum CallcbackCtrl {
    Continue,
    Break,
}

/// Controller payload of a sequencer event.
#[derive(Debug, Clone, Copy, PartialEq, Eq)]
pub struct CtrlData {
    pub channel: u8,
    pub param: u32,
    pub value: i32,
}

/// Note payload of a sequencer event.
#[derive(Debug, Clone, Copy, PartialEq, Eq)]
pub struct NoteData {
    pub channel: u8,
    pub note: u8,
    pub velocity: u8,
}

/// The kinds of sequencer event that decoding tells apart.
#[derive(Debug, Clone, Copy, PartialEq, Eq)]
pub enum EventKind {
    NoteOn,
    NoteOff,
    Other,
}

/// A sequencer event as read from the transport, reduced to what decoding
/// reads of it: its kind and the payloads it carries.
#[derive(Debug, Clone, Copy, PartialEq, Eq)]
pub struct SeqEvent {
    pub kind: EventKind,
    pub ctrl: Option<CtrlData>,
    pub note: Option<NoteData>,
}

impl SeqEvent {
    /// A note-on or note-off event that is read as a note carries note data.
    pub open spec fn well_formed(self) -> bool {
        self.ctrl is None && !(self.kind is Other) ==> self.note is Some
    }

    pub fn is_well_formed(&self) -> (ok: bool)
        ensures
            ok == self.well_formed(),
    {
        match self.ctrl {
            Some(_) => true,
            None => match self.kind {
                EventKind::Other => true,
                _ => self.note.is_some(),
            },
        }
    }
}

impl PollEvent {
    /// Reading of the number of ready descriptors that a poll reports.
    pub open spec fn of_count(ready: usize) -> PollEvent {
        if ready == 0 {
            PollEvent::Timeout
        } else {
            PollEvent::Ready
        }
    }

    /// A poll on the single readiness handle reports 0 (the wait elapsed) or
    /// 1 (the handle is readable).
    pub fn from_count(ready: usize) -> (p: PollEvent)
        requires
            ready <= 1,
        ensures
            p == PollEvent::of_count(ready),
    {
        if ready == 0 {
            PollEvent::Timeout
        } else {
            PollEvent::Ready
        }
    }
}

impl MidiEvent {
    /// The control that a message names: a note number counts as the
    /// parameter.
    pub open spec fn spec_key(self) -> EvKey {
        match self {
            MidiEvent::Control { channel, param } => EvKey { channel, param },
            MidiEvent::NoteOn { channel, note, .. } => EvKey { channel, param: note as u32 },
            MidiEvent::NoteOff { channel, note, .. } => EvKey { channel, param: note as u32 },
        }
    }

    #[verifier::when_used_as_spec(spec_key)]
    pub fn key(self) -> (k: EvKey)
        ensures
            k == self.spec_key(),
    {
        match self {
            MidiEvent::Control { channel, param } => EvKey { channel, param },
            MidiEvent::NoteOn { channel, note, .. } => EvKey { channel, param: note as u32 },
            MidiEvent::NoteOff { channel, note, .. } => EvKey { channel, param: note as u32 },
        }
    }

    /// Identity of a controller message.
    pub open spec fn of_ctrl(ev: CtrlData) -> MidiEvent {
        MidiEvent::Control { channel: ev.channel, param: ev.param }
    }

    pub fn from_ctrl(ev: &CtrlData) -> (m: MidiEvent)
        ensures
            m == MidiEvent::of_ctrl(*ev),
    {
        MidiEvent::Control { channel: ev.channel, param: ev.param }
    }

    /// Identity of a note message of the given kind.
    pub open spec fn of_note(kind: EventKind, ev: NoteData) -> MidiEvent {
        if kind is NoteOn {
            MidiEvent::NoteOn { channel: ev.channel, note: ev.note, velocity: ev.velocity }
        } else {
            MidiEvent::NoteOff { channel: ev.channel, note: ev.note, velocity: ev.velocity }
        }
    }

    pub fn from_note(kind: EventKind, ev: &NoteData) -> (m: MidiEvent)
        requires
            !(kind is Other),
        ensures
            m == MidiEvent::of_note(kind, *ev),
    {
        match kind {
            EventKind::NoteOn => MidiEvent::NoteOn {
                channel: ev.channel,
                note: ev.note,
                velocity: ev.velocity,
            },
            _ => MidiEvent::NoteOff {
                channel: ev.channel,
                note: ev.note,
                velocity: ev.velocity,
            },
        }
    }

    /// What a sequencer event says: a controller payload wins, then a
    /// note-on or note-off gives its velocity as the value, and every other
    /// event says nothing.
    pub open spec fn parsed(ev: SeqEvent) -> Option<(MidiEvent, i32)> {
        match ev.ctrl {
            Some(data) => Some((MidiEvent::of_ctrl(data), data.value)),
            None => if ev.kind is Other {
                None
            } else {
                match ev.note {
                    Some(data) => Some((MidiEvent::of_note(ev.kind, data), data.velocity as i32)),
                    None => None,
                }
            },
        }
    }

    pub fn parse(ev: SeqEvent) -> (r: Option<(MidiEvent, i32)>)
        requires
            ev.well_formed(),
        ensures
            r == MidiEvent::parsed(ev),
    {
        if let Some(data) = ev.ctrl {
            Some((MidiEvent::from_ctrl(&data), data.value))
        } else {
            match ev.kind {
                EventKind::Other => None,
                kind => {
                    let data = ev.note.unwrap();
                    Some((MidiEvent::from_note(kind, &data), data.velocity as i32))
                },
            }
        }
    }
}

} // verus!
