//! The nanoKONTROL2 surface: eight channel strips and a transport section.
//!
//! All of its controls arrive as a parameter number with a value. A button is
//! on while its value is not zero. The transport, track and marker buttons
//! are read on channel 0 only; the strips are read on any channel.

use super::{
    first_claim, first_claimant, lemma_first_claimant, low_byte, magnitude, FromMidi, State,
};
use crate::frame::{lists, CoalescedFrame};
use crate::{EvKey, MidiEvent};
use vstd::prelude::*;

verus! {

/// An input of the surface, by the family of its control.
#[derive(Debug, Clone, Copy, PartialEq, Eq)]
pub enum Event {
    Maker(MarkerButton),
    Track(TrackButton),
    TransportButton(TransportButton),
    ChButton(ChButton),
    Slider(Slider),
    Knob(Knob),
}

/// The track buttons.
#[derive(Debug, Clone, Copy, PartialEq, Eq)]
pub enum TrackButton {
    Prev(State),
    Next(State),
}

/// The marker buttons.
#[derive(Debug, Clone, Copy, PartialEq, Eq)]
pub enum MarkerButton {
    SetMark(State),
    Prev(State),
    Next(State),
}

/// The transport buttons.
#[derive(Debug, Clone, Copy, PartialEq, Eq)]
pub enum TransportButton {
    Rewind(State),
    FastForward(State),
    Stop(State),
    Play(State),
    Record(State),
}

/// A strip of the surface.
#[derive(Debug, Clone, Copy, PartialEq, Eq)]
pub enum Ch {
    A,
    B,
    C,
    D,
    E,
    F,
    G,
    H,
}

/// The buttons of a strip.
#[derive(Debug, Clone, Copy, PartialEq, Eq)]
pub enum ChButton {
    Solo(Ch, State),
    Mute(Ch, State),
    Record(Ch, State),
}

/// A slider and its position.
#[derive(Debug, Clone, Copy, PartialEq, Eq)]
pub struct Slider {
    pub ch: Ch,
    pub value: u8,
}

/// A knob and its position.
#[derive(Debug, Clone, Copy, PartialEq, Eq)]
pub struct Knob {
    pub ch: Ch,
    pub value: u8,
}

/// First parameter of the solo buttons.
pub const SOLO_START: u32 = 32;

/// Last parameter of the solo buttons.
pub const SOLO_END: u32 = 39;

/// First parameter of the mute buttons.
pub const MUTE_START: u32 = 48;

/// Last parameter of the mute buttons.
pub const MUTE_END: u32 = 55;

/// First parameter of the record buttons.
pub const RECORD_START: u32 = 64;

/// Last parameter of the record buttons.
pub const RECORD_END: u32 = 71;

/// First parameter of the sliders.
pub const SLIDER_START: u32 = 0;

/// Last parameter of the sliders.
pub const SLIDER_END: u32 = 7;

/// First parameter of the knobs.
pub const KNOB_START: u32 = 16;

/// Last parameter of the knobs.
pub const KNOB_END: u32 = 23;

impl Ch {
    /// The strip at a place counted from 0: A to H.
    pub open spec fn of_index(v: int) -> Ch {
        if v == 0 {
            Ch::A
        } else if v == 1 {
            Ch::B
        } else if v == 2 {
            Ch::C
        } else if v == 3 {
            Ch::D
        } else if v == 4 {
            Ch::E
        } else if v == 5 {
            Ch::F
        } else if v == 6 {
            Ch::G
        } else {
            Ch::H
        }
    }

    /// The place of a strip, counted from 0.
    pub open spec fn spec_index(self) -> u32 {
        match self {
            Ch::A => 0,
            Ch::B => 1,
            Ch::C => 2,
            Ch::D => 3,
            Ch::E => 4,
            Ch::F => 5,
            Ch::G => 6,
            Ch::H => 7,
        }
    }

    /// The strip at place `v`. There are eight places.
    pub fn from_index(v: u32) -> (ch: Ch)
        requires
            v <= 7,
        ensures
            ch == Ch::of_index(v as int),
            ch.spec_index() == v,
    {
        match v {
            0 => Ch::A,
            1 => Ch::B,
            2 => Ch::C,
            3 => Ch::D,
            4 => Ch::E,
            5 => Ch::F,
            6 => Ch::G,
            _ => Ch::H,
        }
    }

    #[verifier::when_used_as_spec(spec_index)]
    pub fn index(self) -> (v: u32)
        ensures
            v == self.spec_index(),
            v <= 7,
            Ch::of_index(v as int) == self,
    {
        match self {
            Ch::A => 0,
            Ch::B => 1,
            Ch::C => 2,
            Ch::D => 3,
            Ch::E => 4,
            Ch::F => 5,
            Ch::G => 6,
            Ch::H => 7,
        }
    }

    /// Parameter of a strip's solo button.
    pub open spec fn solo_param(self) -> u32 {
        (SOLO_START + self.spec_index()) as u32
    }

    /// Parameter of a strip's mute button.
    pub open spec fn mute_param(self) -> u32 {
        (MUTE_START + self.spec_index()) as u32
    }

    /// Parameter of a strip's record button.
    pub open spec fn record_param(self) -> u32 {
        (RECORD_START + self.spec_index()) as u32
    }

    /// Parameter of a strip's slider.
    pub open spec fn slider_param(self) -> u32 {
        (SLIDER_START + self.spec_index()) as u32
    }

    /// Parameter of a strip's knob.
    pub open spec fn knob_param(self) -> u32 {
        (KNOB_START + self.spec_index()) as u32
    }
}

impl FromMidi<EvKey> for TrackButton {
    /// Parameters 58 and 59 on channel 0.
    open spec fn decoded(key: EvKey, value: i32) -> Option<TrackButton> {
        if key.channel != 0 {
            None
        } else if key.param == 58 {
            Some(TrackButton::Prev(State::of_value(value)))
        } else if key.param == 59 {
            Some(TrackButton::Next(State::of_value(value)))
        } else {
            None
        }
    }

    fn from_midi(key: EvKey, value: i32) -> (r: Option<TrackButton>) {
        let state = State::from_value(value);
        let button = match key {
            EvKey { channel: 0, param: 58 } => TrackButton::Prev(state),
            EvKey { channel: 0, param: 59 } => TrackButton::Next(state),
            _ => return None,
        };
        Some(button)
    }
}

impl FromMidi<EvKey> for MarkerButton {
    /// Parameters 60 to 62 on channel 0.
    open spec fn decoded(key: EvKey, value: i32) -> Option<MarkerButton> {
        if key.channel != 0 {
            None
        } else if key.param == 60 {
            Some(MarkerButton::SetMark(State::of_value(value)))
        } else if key.param == 61 {
            Some(MarkerButton::Prev(State::of_value(value)))
        } else if key.param == 62 {
            Some(MarkerButton::Next(State::of_value(value)))
        } else {
            None
        }
    }

    fn from_midi(key: EvKey, value: i32) -> (r: Option<MarkerButton>) {
        let state = State::from_value(value);
        let button = match key {
            EvKey { channel: 0, param: 60 } => MarkerButton::SetMark(state),
            EvKey { channel: 0, param: 61 } => MarkerButton::Prev(state),
            EvKey { channel: 0, param: 62 } => MarkerButton::Next(state),
            _ => return None,
        };
        Some(button)
    }
}

impl FromMidi<EvKey> for TransportButton {
    /// Parameters 41 to 45 on channel 0.
    open spec fn decoded(key: EvKey, value: i32) -> Option<TransportButton> {
        if key.channel != 0 {
            None
        } else if key.param == 41 {
            Some(TransportButton::Play(State::of_value(value)))
        } else if key.param == 42 {
            Some(TransportButton::Stop(State::of_value(value)))
        } else if key.param == 43 {
            Some(TransportButton::Rewind(State::of_value(value)))
        } else if key.param == 44 {
            Some(TransportButton::FastForward(State::of_value(value)))
        } else if key.param == 45 {
            Some(TransportButton::Record(State::of_value(value)))
        } else {
            None
        }
    }

    fn from_midi(key: EvKey, value: i32) -> (r: Option<TransportButton>) {
        let state = State::from_value(value);
        let button = match key {
            EvKey { channel: 0, param: 43 } => TransportButton::Rewind(state),
            EvKey { channel: 0, param: 44 } => TransportButton::FastForward(state),
            EvKey { channel: 0, param: 42 } => TransportButton::Stop(state),
            EvKey { channel: 0, param: 41 } => TransportButton::Play(state),
            EvKey { channel: 0, param: 45 } => TransportButton::Record(state),
            _ => return None,
        };
        Some(button)
    }
}

impl FromMidi<EvKey> for ChButton {
    /// A parameter in one of the three bands, on any channel: the band gives
    /// the button, the place in the band gives the strip.
    open spec fn decoded(key: EvKey, value: i32) -> Option<ChButton> {
        if SOLO_START <= key.param <= SOLO_END {
            Some(ChButton::Solo(Ch::of_index(key.param - SOLO_START), State::of_value(value)))
        } else if MUTE_START <= key.param <= MUTE_END {
            Some(ChButton::Mute(Ch::of_index(key.param - MUTE_START), State::of_value(value)))
        } else if RECORD_START <= key.param <= RECORD_END {
            Some(ChButton::Record(Ch::of_index(key.param - RECORD_START), State::of_value(value)))
        } else {
            None
        }
    }

    fn from_midi(key: EvKey, value: i32) -> (r: Option<ChButton>) {
        let chb = if SOLO_START <= key.param && key.param <= SOLO_END {
            ChButton::Solo(Ch::from_index(key.param - SOLO_START), State::from_value(value))
        } else if MUTE_START <= key.param && key.param <= MUTE_END {
            ChButton::Mute(Ch::from_index(key.param - MUTE_START), State::from_value(value))
        } else if RECORD_START <= key.param && key.param <= RECORD_END {
            ChButton::Record(Ch::from_index(key.param - RECORD_START), State::from_value(value))
        } else {
            return None;
        };
        Some(chb)
    }
}

impl FromMidi<EvKey> for Slider {
    /// Parameters 0 to 7 on any channel; the value gives the position.
    open spec fn decoded(key: EvKey, value: i32) -> Option<Slider> {
        if SLIDER_START <= key.param <= SLIDER_END {
            Some(Slider { ch: Ch::of_index(key.param - SLIDER_START), value: low_byte(value) })
        } else {
            None
        }
    }

    fn from_midi(key: EvKey, value: i32) -> (r: Option<Slider>) {
        if key.param < SLIDER_START || key.param > SLIDER_END {
            return None;
        }
        let ch = Ch::from_index(key.param);
        let value = magnitude(value);
        Some(Slider { ch, value })
    }
}

impl FromMidi<EvKey> for Knob {
    /// Parameters 16 to 23 on any channel; the value gives the position.
    open spec fn decoded(key: EvKey, value: i32) -> Option<Knob> {
        if KNOB_START <= key.param <= KNOB_END {
            Some(Knob { ch: Ch::of_index(key.param - KNOB_START), value: low_byte(value) })
        } else {
            None
        }
    }

    fn from_midi(key: EvKey, value: i32) -> (r: Option<Knob>) {
        if key.param < KNOB_START || key.param > KNOB_END {
            return None;
        }
        let ch = Ch::from_index(key.param - KNOB_START);
        let value = magnitude(value);
        Some(Knob { ch, value })
    }
}

impl Event {
    /// What each family makes of an input, in the order in which the families
    /// are asked: transport, track, marker, strip buttons, sliders, knobs.
    pub open spec fn claims(key: EvKey, value: i32) -> Seq<Option<Event>> {
        seq![
            match TransportButton::decoded(key, value) {
                Some(b) => Some(Event::TransportButton(b)),
                None => None,
            },
            match TrackButton::decoded(key, value) {
                Some(b) => Some(Event::Track(b)),
                None => None,
            },
            match MarkerButton::decoded(key, value) {
                Some(b) => Some(Event::Maker(b)),
                None => None,
            },
            match ChButton::decoded(key, value) {
                Some(b) => Some(Event::ChButton(b)),
                None => None,
            },
            match Slider::decoded(key, value) {
                Some(s) => Some(Event::Slider(s)),
                None => None,
            },
            match Knob::decoded(key, value) {
                Some(k) => Some(Event::Knob(k)),
                None => None,
            },
        ]
    }

    /// The event that an input stands for: the claim of the first family that
    /// recognises it, or `None` where no family does.
    pub open spec fn decoded(key: EvKey, value: i32) -> Option<Event> {
        first_claim(Event::claims(key, value))
    }

    pub fn parse(key: EvKey, value: i32) -> (r: Option<Event>)
        ensures
            r == Event::decoded(key, value),
    {
        proof {
            reveal_with_fuel(first_claim, 7);
        }
        if let Some(key) = TransportButton::from_midi(key, value) {
            Some(Event::TransportButton(key))
        } else if let Some(key) = TrackButton::from_midi(key, value) {
            Some(Event::Track(key))
        } else if let Some(key) = MarkerButton::from_midi(key, value) {
            Some(Event::Maker(key))
        } else if let Some(key) = ChButton::from_midi(key, value) {
            Some(Event::ChButton(key))
        } else if let Some(key) = Slider::from_midi(key, value) {
            Some(Event::Slider(key))
        } else {
            match Knob::from_midi(key, value) {
                Some(key) => Some(Event::Knob(key)),
                None => None,
            }
        }
    }
}

/// The events of a run of inputs: every input that a family recognises
/// gives its event, and the events stand in the order of the inputs.
pub open spec fn decoded_all(entries: Seq<(EvKey, i32)>) -> Seq<Event>
    decreases entries.len(),
{
    if entries.len() == 0 {
        Seq::empty()
    } else {
        let before = decoded_all(entries.drop_last());
        match Event::decoded(entries.last().0, entries.last().1) {
            Some(event) => before.push(event),
            None => before,
        }
    }
}

/// The entries of a frame as this surface reads them: each message under
/// the control that it names.
pub open spec fn by_control(list: Seq<(MidiEvent, i32)>) -> Seq<(EvKey, i32)> {
    list.map_values(|entry: (MidiEvent, i32)| (entry.0.spec_key(), entry.1))
}

/// Decodes a run of inputs, dropping those that the surface does not have.
pub fn parse_entries(entries: &Vec<(EvKey, i32)>) -> (events: Vec<Event>)
    ensures
        events@ == decoded_all(entries@),
{
    let mut events: Vec<Event> = Vec::new();
    let mut i: usize = 0;
    while i < entries.len()
        invariant
            i <= entries.len(),
            events@ == decoded_all(entries@.take(i as int)),
        decreases entries.len() - i,
    {
        let (key, value) = entries[i];
        assert(entries@.take(i + 1).drop_last() =~= entries@.take(i as int));
        if let Some(event) = Event::parse(key, value) {
            events.push(event);
        }
        i = i + 1;
    }
    assert(entries@.take(i as int) =~= entries@);
    events
}

/// Decodes the entries of a frame. A frame has no order, so the events come
/// in the order of some listing of its entries.
pub fn parse(m: &CoalescedFrame) -> (events: Vec<Event>)
    ensures
        exists|list: Seq<(MidiEvent, i32)>|
            lists(list, m@) && events@ == decoded_all(by_control(list)),
{
    let list = m.entries();
    let mut entries: Vec<(EvKey, i32)> = Vec::new();
    let mut i: usize = 0;
    while i < list.len()
        invariant
            i <= list.len(),
            entries@ == by_control(list@.take(i as int)),
        decreases list.len() - i,
    {
        let (message, value) = list[i];
        entries.push((message.key(), value));
        assert(entries@ =~= by_control(list@.take(i + 1)));
        i = i + 1;
    }
    assert(list@.take(i as int) =~= list@);
    parse_entries(&entries)
}

/// Decoding has no memory: the event of an input depends on the input
/// alone, so an input decoded again gives the same event.
pub proof fn lemma_decoding_repeats(key: EvKey, value: i32, again_key: EvKey, again_value: i32)
    requires
        key == again_key,
        value == again_value,
    ensures
        Event::decoded(key, value) == Event::decoded(again_key, again_value),
{
}

/// On this surface the bands of the families lie apart: no input is
/// recognised by two of them. So the event of an input is the claim of the
/// one family that recognises it, wherever that family stands in the order.
pub proof fn lemma_one_family_at_most(key: EvKey, value: i32, i: int)
    requires
        0 <= i < Event::claims(key, value).len(),
        Event::claims(key, value)[i] is Some,
    ensures
        forall|j: int|
            0 <= j < Event::claims(key, value).len() && j != i ==> Event::claims(key, value)[j]
                is None,
        Event::decoded(key, value) == Event::claims(key, value)[i],
{
    let claims = Event::claims(key, value);
    assert forall|j: int| 0 <= j < claims.len() && j != i implies claims[j] is None by {}
    lemma_first_claimant(claims);
    if first_claimant(claims) != i {
        assert(claims[first_claimant(claims)] is None);
    }
}

/// Every control of every strip is found at its parameter, on any channel:
/// the strip that comes out of decoding is the strip whose control it is.
pub proof fn lemma_strip_is_recovered(ch: Ch, channel: u8, value: i32)
    ensures
        Ch::of_index(ch.spec_index() as int) == ch,
        ChButton::decoded(EvKey { channel, param: ch.solo_param() }, value) == Some(
            ChButton::Solo(ch, State::of_value(value)),
        ),
        ChButton::decoded(EvKey { channel, param: ch.mute_param() }, value) == Some(
            ChButton::Mute(ch, State::of_value(value)),
        ),
        ChButton::decoded(EvKey { channel, param: ch.record_param() }, value) == Some(
            ChButton::Record(ch, State::of_value(value)),
        ),
        Slider::decoded(EvKey { channel, param: ch.slider_param() }, value) == Some(
            Slider { ch, value: low_byte(value) },
        ),
        Knob::decoded(EvKey { channel, param: ch.knob_param() }, value) == Some(
            Knob { ch, value: low_byte(value) },
        ),
{
}

/// A strip comes out of decoding only at the parameter of its own control.
pub proof fn lemma_strip_has_one_parameter(key: EvKey, value: i32)
    ensures
        match ChButton::decoded(key, value) {
            Some(ChButton::Solo(ch, _)) => key.param == ch.solo_param(),
            Some(ChButton::Mute(ch, _)) => key.param == ch.mute_param(),
            Some(ChButton::Record(ch, _)) => key.param == ch.record_param(),
            None => true,
        },
        match Slider::decoded(key, value) {
            Some(slider) => key.param == slider.ch.slider_param(),
            None => true,
        },
        match Knob::decoded(key, value) {
            Some(knob) => key.param == knob.ch.knob_param(),
            None => true,
        },
{
}

} // verus!
