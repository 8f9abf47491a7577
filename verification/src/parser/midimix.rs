//! The MIDI Mix surface: eight channel strips and a master strip.
//!
//! Its buttons arrive as notes, so a button is on or off by the kind of the
//! message. Its sliders and knobs arrive as control changes. A strip has three
//! knobs and a slider on four successive parameter numbers, and a mute, a solo
//! and a record-arm button on three successive notes.

use super::{
    first_claim, first_claimant, lemma_first_declared_wins, low_byte, magnitude, FromMidi, State,
};
use crate::frame::{lists, CoalescedFrame};
use crate::MidiEvent;
use vstd::prelude::*;

verus! {

/// An input of the surface, by the family of its control.
#[derive(Debug, Clone, Copy, PartialEq, Eq)]
pub enum Event {
    Button(Button),
    ChButton(ChButton),
    Slider(Slider),
    Knob(Knob),
}

/// The buttons that belong to no strip.
#[derive(Debug, Clone, Copy, PartialEq, Eq)]
pub enum Button {
    BankLeft(State),
    BankRight(State),
    Solo(State),
}

/// The buttons of a strip.
#[derive(Debug, Clone, Copy, PartialEq, Eq)]
pub enum ChButton {
    Mute(Ch, State),
    Solo(Ch, State),
    Record(Ch, State),
}

/// A strip of the surface.
#[derive(Debug, Clone, Copy, PartialEq, Eq)]
pub enum Ch {
    A,
    B,
    C,
    D,
    E,
    F,
    G,
    H,
    Master,
}

/// A slider and its position.
#[derive(Debug, Clone, Copy, PartialEq, Eq)]
pub struct Slider {
    pub ch: Ch,
    pub value: u8,
}

/// A knob and its position. `no` counts the knobs of a strip from the top:
/// 0, 1, 2.
#[derive(Debug, Clone, Copy, PartialEq, Eq)]
pub struct Knob {
    pub ch: Ch,
    pub no: u8,
    pub value: u8,
}

/// Note of the bank-left button.
pub const NOTE_BANK_LEFT: u8 = 25;

/// Note of the bank-right button.
pub const NOTE_BANK_RIGHT: u8 = 26;

/// Note of the solo button.
pub const NOTE_SOLO: u8 = 27;

/// First note of the strips' buttons.
pub const CH_BUTTON_FIRST: u8 = 1;

/// Last note of the strips' buttons.
pub const CH_BUTTON_LAST: u8 = 27;

/// Parameter of the master slider.
pub const SLIDER_MASTER: u32 = 62;

impl Ch {
    /// The strip at a place counted from 0: A to H, then the master strip.
    pub open spec fn of_index(v: int) -> Ch {
        if v == 0 {
            Ch::A
        } else if v == 1 {
            Ch::B
        } else if v == 2 {
            Ch::C
        } else if v == 3 {
            Ch::D
        } else if v == 4 {
            Ch::E
        } else if v == 5 {
            Ch::F
        } else if v == 6 {
            Ch::G
        } else if v == 7 {
            Ch::H
        } else {
            Ch::Master
        }
    }

    /// The place of a strip, counted from 0.
    pub open spec fn spec_index(self) -> u32 {
        match self {
            Ch::A => 0,
            Ch::B => 1,
            Ch::C => 2,
            Ch::D => 3,
            Ch::E => 4,
            Ch::F => 5,
            Ch::G => 6,
            Ch::H => 7,
            Ch::Master => 8,
        }
    }

    /// The strip at place `v`. There are nine places.
    pub fn from_index(v: u32) -> (ch: Ch)
        requires
            v <= 8,
        ensures
            ch == Ch::of_index(v as int),
            ch.spec_index() == v,
    {
        match v {
            0 => Ch::A,
            1 => Ch::B,
            2 => Ch::C,
            3 => Ch::D,
            4 => Ch::E,
            5 => Ch::F,
            6 => Ch::G,
            7 => Ch::H,
            _ => Ch::Master,
        }
    }

    #[verifier::when_used_as_spec(spec_index)]
    pub fn index(self) -> (v: u32)
        ensures
            v == self.spec_index(),
            v <= 8,
            Ch::of_index(v as int) == self,
    {
        match self {
            Ch::A => 0,
            Ch::B => 1,
            Ch::C => 2,
            Ch::D => 3,
            Ch::E => 4,
            Ch::F => 5,
            Ch::G => 6,
            Ch::H => 7,
            Ch::Master => 8,
        }
    }

    /// First of the four parameters of a strip: its three knobs from the top,
    /// then its slider. The master strip has none.
    pub open spec fn strip_base(self) -> u32 {
        match self {
            Ch::A => 16,
            Ch::B => 20,
            Ch::C => 24,
            Ch::D => 28,
            Ch::E => 46,
            Ch::F => 50,
            Ch::G => 54,
            Ch::H => 58,
            Ch::Master => 62,
        }
    }

    /// Parameter of a strip's slider.
    pub open spec fn slider_param(self) -> u32 {
        match self {
            Ch::Master => SLIDER_MASTER,
            _ => (self.strip_base() + 3) as u32,
        }
    }

    /// Parameter of knob `no` of a strip.
    pub open spec fn knob_param(self, no: u8) -> u32 {
        (self.strip_base() + no) as u32
    }

    /// Note of a strip's mute button.
    pub open spec fn mute_note(self) -> u8 {
        (1 + 3 * self.spec_index()) as u8
    }

    /// Note of a strip's solo button.
    pub open spec fn solo_note(self) -> u8 {
        (2 + 3 * self.spec_index()) as u8
    }

    /// Note of a strip's record-arm button.
    pub open spec fn record_note(self) -> u8 {
        (3 + 3 * self.spec_index()) as u8
    }
}

impl Button {
    /// The button at a note, in the given state.
    pub open spec fn at(note: u8, state: State) -> Option<Button> {
        if note == NOTE_BANK_LEFT {
            Some(Button::BankLeft(state))
        } else if note == NOTE_BANK_RIGHT {
            Some(Button::BankRight(state))
        } else if note == NOTE_SOLO {
            Some(Button::Solo(state))
        } else {
            None
        }
    }
}

impl FromMidi<MidiEvent> for Button {
    /// A note on channel 0 at one of the three button notes: on by a
    /// note-on, off by a note-off, whatever the value.
    open spec fn decoded(key: MidiEvent, value: i32) -> Option<Button> {
        match key {
            MidiEvent::NoteOn { channel, note, .. } => if channel == 0 {
                Button::at(note, State::On)
            } else {
                None
            },
            MidiEvent::NoteOff { channel, note, .. } => if channel == 0 {
                Button::at(note, State::Off)
            } else {
                None
            },
            MidiEvent::Control { .. } => None,
        }
    }

    fn from_midi(key: MidiEvent, _value: i32) -> (r: Option<Button>) {
        let key = match key {
            MidiEvent::NoteOn { channel: 0, note: 25, .. } => Button::BankLeft(State::On),
            MidiEvent::NoteOn { channel: 0, note: 26, .. } => Button::BankRight(State::On),
            MidiEvent::NoteOn { channel: 0, note: 27, .. } => Button::Solo(State::On),
            MidiEvent::NoteOff { channel: 0, note: 25, .. } => Button::BankLeft(State::Off),
            MidiEvent::NoteOff { channel: 0, note: 26, .. } => Button::BankRight(State::Off),
            MidiEvent::NoteOff { channel: 0, note: 27, .. } => Button::Solo(State::Off),
            _ => return None,
        };
        Some(key)
    }
}

impl ChButton {
    /// The button of the strips at a note: the notes from 1 to 27 go through
    /// the strips three by three, in each strip mute, solo, record.
    pub open spec fn at(note: u8, state: State) -> Option<ChButton> {
        if CH_BUTTON_FIRST <= note <= CH_BUTTON_LAST {
            let ch = Ch::of_index((note - 1) / 3);
            let role = (note - 1) % 3;
            if role == 0 {
                Some(ChButton::Mute(ch, state))
            } else if role == 1 {
                Some(ChButton::Solo(ch, state))
            } else {
                Some(ChButton::Record(ch, state))
            }
        } else {
            None
        }
    }
}

impl FromMidi<MidiEvent> for ChButton {
    /// A note from 1 to 27 on any channel: on by a note-on, off by a
    /// note-off, whatever the value.
    open spec fn decoded(key: MidiEvent, value: i32) -> Option<ChButton> {
        match key {
            MidiEvent::NoteOn { note, .. } => ChButton::at(note, State::On),
            MidiEvent::NoteOff { note, .. } => ChButton::at(note, State::Off),
            MidiEvent::Control { .. } => None,
        }
    }

    fn from_midi(key: MidiEvent, _value: i32) -> (r: Option<ChButton>) {
        let (note, state) = {
            if let MidiEvent::NoteOn { note, .. } = key {
                (note, State::On)
            } else if let MidiEvent::NoteOff { note, .. } = key {
                (note, State::Off)
            } else {
                return None;
            }
        };

        if CH_BUTTON_FIRST > note || note > CH_BUTTON_LAST {
            return None;
        }
        let class_index = (note - 1) % 3;
        let no_index = (note - 1) / 3;
        let ch = Ch::from_index(no_index as u32);
        let chb = match class_index {
            0 => ChButton::Mute(ch, state),
            1 => ChButton::Solo(ch, state),
            _ => ChButton::Record(ch, state),
        };
        Some(chb)
    }
}

impl Slider {
    /// The strip whose slider has the given parameter.
    pub open spec fn strip_at(param: u32) -> Option<Ch> {
        if param == 19 {
            Some(Ch::A)
        } else if param == 23 {
            Some(Ch::B)
        } else if param == 27 {
            Some(Ch::C)
        } else if param == 31 {
            Some(Ch::D)
        } else if param == 49 {
            Some(Ch::E)
        } else if param == 53 {
            Some(Ch::F)
        } else if param == 57 {
            Some(Ch::G)
        } else if param == 61 {
            Some(Ch::H)
        } else if param == SLIDER_MASTER {
            Some(Ch::Master)
        } else {
            None
        }
    }

    /// The parameters of the strips' sliders, strip by strip.
    fn params() -> (table: [u32; 8])
        ensures
            forall|i: int| 0 <= i < 8 ==> Slider::strip_at(#[trigger] table[i]) == Some(Ch::of_index(i)),
            forall|p: u32|
                p != SLIDER_MASTER && Slider::strip_at(p) is Some ==> exists|i: int|
                    0 <= i < 8 && #[trigger] table[i] == p,
    {
        let table: [u32; 8] = [19, 23, 27, 31, 49, 53, 57, 61];
        assert forall|p: u32| p != SLIDER_MASTER && Slider::strip_at(p) is Some implies exists|
            i: int,
        |
            0 <= i < 8 && #[trigger] table[i] == p by {
            let i = Slider::strip_at(p).unwrap().spec_index() as int;
            assert(table[i] == p);
        }
        table
    }
}

impl FromMidi<MidiEvent> for Slider {
    /// A control change at a slider's parameter, on any channel; the value
    /// gives the position.
    open spec fn decoded(key: MidiEvent, value: i32) -> Option<Slider> {
        match key {
            MidiEvent::Control { param, .. } => match Slider::strip_at(param) {
                Some(ch) => Some(Slider { ch, value: low_byte(value) }),
                None => None,
            },
            _ => None,
        }
    }

    #[verifier::loop_isolation(false)]
    fn from_midi(key: MidiEvent, value: i32) -> (r: Option<Slider>) {
        let MidiEvent::Control { channel: _, param } = key else {
            return None;
        };
        if param == SLIDER_MASTER {
            return Some(Slider { ch: Ch::Master, value: magnitude(value) });
        }
        let table = Slider::params();
        let mut index: usize = 0;
        while index < 8
            invariant
                index <= 8,
                forall|i: int| 0 <= i < index ==> table[i] != param,
            decreases 8 - index,
        {
            if table[index] == param {
                let ch = Ch::from_index(index as u32);
                return Some(Slider { ch, value: magnitude(value) });
            }
            index = index + 1;
        }
        None
    }
}

impl Knob {
    /// The strip and the place in it of the knob with the given parameter.
    pub open spec fn place_at(param: u32) -> Option<(Ch, u8)> {
        if 16 <= param <= 18 {
            Some((Ch::A, (param - 16) as u8))
        } else if 20 <= param <= 22 {
            Some((Ch::B, (param - 20) as u8))
        } else if 24 <= param <= 26 {
            Some((Ch::C, (param - 24) as u8))
        } else if 28 <= param <= 30 {
            Some((Ch::D, (param - 28) as u8))
        } else if 46 <= param <= 48 {
            Some((Ch::E, (param - 46) as u8))
        } else if 50 <= param <= 52 {
            Some((Ch::F, (param - 50) as u8))
        } else if 54 <= param <= 56 {
            Some((Ch::G, (param - 54) as u8))
        } else if 58 <= param <= 60 {
            Some((Ch::H, (param - 58) as u8))
        } else {
            None
        }
    }

    /// The first parameter of each strip's knobs, strip by strip.
    fn bases() -> (table: [u32; 8])
        ensures
            forall|i: int| 0 <= i < 8 ==> #[trigger] table[i] == Ch::of_index(i).strip_base(),
    {
        [16, 20, 24, 28, 46, 50, 54, 58]
    }
}

impl FromMidi<MidiEvent> for Knob {
    /// A control change at a knob's parameter, on any channel; the value
    /// gives the position.
    open spec fn decoded(key: MidiEvent, value: i32) -> Option<Knob> {
        match key {
            MidiEvent::Control { param, .. } => match Knob::place_at(param) {
                Some((ch, no)) => Some(Knob { ch, no, value: low_byte(value) }),
                None => None,
            },
            _ => None,
        }
    }

    #[verifier::loop_isolation(false)]
    fn from_midi(key: MidiEvent, value: i32) -> (r: Option<Knob>) {
        let MidiEvent::Control { channel: _, param } = key else {
            return None;
        };
        let table = Knob::bases();
        let mut index: usize = 0;
        while index < 8
            invariant
                index <= 8,
                forall|i: int|
                    0 <= i < index ==> !((#[trigger] table[i]) <= param <= table[i] + 2),
            decreases 8 - index,
        {
            let start = table[index];
            if start <= param && param <= start + 2 {
                let ch = Ch::from_index(index as u32);
                let no = (param - start) as u8;
                assert(start == ch.strip_base());
                return Some(Knob { ch, no, value: magnitude(value) });
            }
            index = index + 1;
        }
        proof {
            assert(table[0] == 16 && table[1] == 20 && table[2] == 24 && table[3] == 28);
            assert(table[4] == 46 && table[5] == 50 && table[6] == 54 && table[7] == 58);
        }
        None
    }
}

impl Event {
    /// What each family makes of an input, in the order in which the families
    /// are asked: buttons, strip buttons, sliders, knobs.
    pub open spec fn claims(key: MidiEvent, value: i32) -> Seq<Option<Event>> {
        seq![
            match Button::decoded(key, value) {
                Some(b) => Some(Event::Button(b)),
                None => None,
            },
            match ChButton::decoded(key, value) {
                Some(b) => Some(Event::ChButton(b)),
                None => None,
            },
            match Slider::decoded(key, value) {
                Some(s) => Some(Event::Slider(s)),
                None => None,
            },
            match Knob::decoded(key, value) {
                Some(k) => Some(Event::Knob(k)),
                None => None,
            },
        ]
    }

    /// The event that an input stands for: the claim of the first family that
    /// recognises it, or `None` where no family does.
    pub open spec fn decoded(key: MidiEvent, value: i32) -> Option<Event> {
        first_claim(Event::claims(key, value))
    }

    pub fn parse(key: MidiEvent, value: i32) -> (r: Option<Event>)
        ensures
            r == Event::decoded(key, value),
    {
        proof {
            reveal_with_fuel(first_claim, 5);
        }
        if let Some(key) = Button::from_midi(key, value) {
            Some(Event::Button(key))
        } else if let Some(key) = ChButton::from_midi(key, value) {
            Some(Event::ChButton(key))
        } else if let Some(key) = Slider::from_midi(key, value) {
            Some(Event::Slider(key))
        } else {
            match Knob::from_midi(key, value) {
                Some(key) => Some(Event::Knob(key)),
                None => None,
            }
        }
    }
}

/// The events of a run of inputs: every input that a family recognises
/// gives its event, and the events stand in the order of the inputs.
pub open spec fn decoded_all(entries: Seq<(MidiEvent, i32)>) -> Seq<Event>
    decreases entries.len(),
{
    if entries.len() == 0 {
        Seq::empty()
    } else {
        let before = decoded_all(entries.drop_last());
        match Event::decoded(entries.last().0, entries.last().1) {
            Some(event) => before.push(event),
            None => before,
        }
    }
}

/// Decodes a run of inputs, dropping those that the surface does not have.
pub fn parse_entries(entries: &Vec<(MidiEvent, i32)>) -> (events: Vec<Event>)
    ensures
        events@ == decoded_all(entries@),
{
    let mut events: Vec<Event> = Vec::new();
    let mut i: usize = 0;
    while i < entries.len()
        invariant
            i <= entries.len(),
            events@ == decoded_all(entries@.take(i as int)),
        decreases entries.len() - i,
    {
        let (key, value) = entries[i];
        assert(entries@.take(i + 1).drop_last() =~= entries@.take(i as int));
        if let Some(event) = Event::parse(key, value) {
            events.push(event);
        }
        i = i + 1;
    }
    assert(entries@.take(i as int) =~= entries@);
    events
}

/// Decodes the entries of a frame. A frame has no order, so the events come
/// in the order of some listing of its entries.
pub fn parse(m: &CoalescedFrame) -> (events: Vec<Event>)
    ensures
        exists|list: Seq<(MidiEvent, i32)>| lists(list, m@) && events@ == decoded_all(list),
{
    let list = m.entries();
    parse_entries(&list)
}

/// Decoding has no memory: the event of an input depends on the input
/// alone, so an input decoded again gives the same event.
pub proof fn lemma_decoding_repeats(
    key: MidiEvent,
    value: i32,
    again_key: MidiEvent,
    again_value: i32,
)
    requires
        key == again_key,
        value == again_value,
    ensures
        Event::decoded(key, value) == Event::decoded(again_key, again_value),
{
}

/// Where the families at places `i` and `j` of the order both recognise an
/// input, the event is not left to the later one: it is the claim of the
/// first family that recognises the input, which stands at or before `i`.
pub proof fn lemma_earlier_family_wins(key: MidiEvent, value: i32, i: int, j: int)
    requires
        0 <= i < j < Event::claims(key, value).len(),
        Event::claims(key, value)[i] is Some,
        Event::claims(key, value)[j] is Some,
    ensures
        first_claimant(Event::claims(key, value)) <= i,
        Event::decoded(key, value) == Event::claims(key, value)[first_claimant(
            Event::claims(key, value),
        )],
        Event::decoded(key, value) is Some,
        (forall|m: int| 0 <= m < i ==> Event::claims(key, value)[m] is None) ==> Event::decoded(
            key,
            value,
        ) == Event::claims(key, value)[i],
{
    lemma_first_declared_wins(Event::claims(key, value), i, j);
}

/// The notes 25 to 27 lie in the band of the strips' buttons and are the
/// notes of the three buttons that belong to no strip. On channel 0 both
/// families recognise them, and they are read as those three buttons, which
/// stand first in the order.
pub proof fn lemma_button_outranks_strip_button(key: MidiEvent, value: i32)
    requires
        Button::decoded(key, value) is Some,
    ensures
        ChButton::decoded(key, value) is Some,
        Event::decoded(key, value) == Some(Event::Button(Button::decoded(key, value).unwrap())),
{
    reveal_with_fuel(first_claim, 2);
}

/// Every control of every strip is found at its note or parameter, on any
/// channel: the strip that comes out of decoding is the strip whose control
/// it is. The master strip has the three buttons and a slider.
pub proof fn lemma_strip_is_recovered(ch: Ch, channel: u8, velocity: u8, value: i32)
    ensures
        Ch::of_index(ch.spec_index() as int) == ch,
        ChButton::decoded(MidiEvent::NoteOn { channel, note: ch.mute_note(), velocity }, value)
            == Some(ChButton::Mute(ch, State::On)),
        ChButton::decoded(MidiEvent::NoteOff { channel, note: ch.mute_note(), velocity }, value)
            == Some(ChButton::Mute(ch, State::Off)),
        ChButton::decoded(MidiEvent::NoteOn { channel, note: ch.solo_note(), velocity }, value)
            == Some(ChButton::Solo(ch, State::On)),
        ChButton::decoded(MidiEvent::NoteOff { channel, note: ch.solo_note(), velocity }, value)
            == Some(ChButton::Solo(ch, State::Off)),
        ChButton::decoded(MidiEvent::NoteOn { channel, note: ch.record_note(), velocity }, value)
            == Some(ChButton::Record(ch, State::On)),
        ChButton::decoded(MidiEvent::NoteOff { channel, note: ch.record_note(), velocity }, value)
            == Some(ChButton::Record(ch, State::Off)),
        Slider::decoded(MidiEvent::Control { channel, param: ch.slider_param() }, value) == Some(
            Slider { ch, value: low_byte(value) },
        ),
        forall|no: u8|
            no < 3 && ch != Ch::Master ==> Knob::decoded(
                MidiEvent::Control { channel, param: #[trigger] ch.knob_param(no) },
                value,
            ) == Some(Knob { ch, no, value: low_byte(value) }),
{
}

/// A strip comes out of decoding only at the note or parameter of its own
/// control.
pub proof fn lemma_strip_has_one_parameter(key: MidiEvent, value: i32)
    ensures
        match ChButton::decoded(key, value) {
            Some(ChButton::Mute(ch, _)) => key.spec_key().param == ch.mute_note(),
            Some(ChButton::Solo(ch, _)) => key.spec_key().param == ch.solo_note(),
            Some(ChButton::Record(ch, _)) => key.spec_key().param == ch.record_note(),
            None => true,
        },
        match Slider::decoded(key, value) {
            Some(slider) => key.spec_key().param == slider.ch.slider_param(),
            None => true,
        },
        match Knob::decoded(key, value) {
            Some(knob) => knob.no < 3 && knob.ch != Ch::Master && key.spec_key().param
                == knob.ch.knob_param(knob.no),
            None => true,
        },
{
}

} // verus!
