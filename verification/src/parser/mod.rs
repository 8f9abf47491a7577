//! Decoders that map raw controller input to the controls of a surface.
//!
//! A surface is described by families of controls. Each family has a decoder
//! that recognises a key by its parameter number alone; the value only says
//! how far or whether the control is engaged. The families of a surface stand
//! in a fixed order, and an input belongs to the first family that claims it.

use vstd::prelude::*;

pub mod midimix;
pub mod nano_control2;

verus! {

/// A family of controls that can be recognised from a raw key of type `K`.
pub trait FromMidi<K>: Sized {
    /// The control that `key` names with its state or magnitude read from
    /// `value`, or `None` where the key is none of this family.
    spec fn decoded(key: K, value: i32) -> Option<Self>;

    fn from_midi(key: K, value: i32) -> (r: Option<Self>)
        ensures
            r == Self::decoded(key, value),
    ;
}

/// Whether a button is held down.
#[derive(Debug, Clone, Copy, PartialEq, Eq)]
pub enum State {
    On,
    Off,
}

impl State {
    /// A raw value of zero reads as released, every other value as pressed.
    pub open spec fn of_value(v: i32) -> State {
        if v == 0 {
            State::Off
        } else {
            State::On
        }
    }
}

impl State {
    pub fn from_value(v: i32) -> (s: State)
        ensures
            s == State::of_value(v),
    {
        if v == 0 {
            State::Off
        } else {
            State::On
        }
    }
}

impl From<i32> for State {
    fn from(v: i32) -> (s: State) {
        State::from_value(v)
    }
}

impl vstd::std_specs::convert::FromSpecImpl<i32> for State {
    open spec fn obeys_from_spec() -> bool {
        true
    }

    open spec fn from_spec(v: i32) -> State {
        State::of_value(v)
    }
}

/// The lowest eight binary digits of a value, as a slider or knob reports its
/// position. A value from 0 to 255 is its own magnitude.
pub open spec fn low_byte(value: i32) -> u8 {
    (value as int % 256) as u8
}

pub fn magnitude(value: i32) -> (b: u8)
    ensures
        b == low_byte(value),
        0 <= value <= 255 ==> b == value,
{
    let b: u8 = #[verifier::truncate]
    (value as u8);
    assert(b == (value & 0xff) as u8) by (bit_vector)
        requires
            b == value as u8,
    ;
    assert((value & 0xff) as int == (value as int) % 256) by (bit_vector);
    b
}

/// The claim that is honoured among those of a surface's families, listed in
/// their order: the first that is made.
pub open spec fn first_claim<T>(claims: Seq<Option<T>>) -> Option<T>
    decreases claims.len(),
{
    if claims.len() == 0 {
        None
    } else if claims[0] is Some {
        claims[0]
    } else {
        first_claim(claims.drop_first())
    }
}

/// The place in the order of the first family that makes a claim, or the
/// number of families where none does.
pub open spec fn first_claimant<T>(claims: Seq<Option<T>>) -> int
    decreases claims.len(),
{
    if claims.len() == 0 {
        0
    } else if claims[0] is Some {
        0
    } else {
        1 + first_claimant(claims.drop_first())
    }
}

/// The honoured claim is that of the first claimant, and no family before
/// it makes one.
pub proof fn lemma_first_claimant<T>(claims: Seq<Option<T>>)
    ensures
        0 <= first_claimant(claims) <= claims.len(),
        forall|m: int| 0 <= m < first_claimant(claims) ==> claims[m] is None,
        first_claimant(claims) < claims.len() ==> claims[first_claimant(claims)] is Some
            && first_claim(claims) == claims[first_claimant(claims)],
        first_claimant(claims) == claims.len() ==> first_claim(claims) is None,
    decreases claims.len(),
{
    if claims.len() > 0 && claims[0] is None {
        let rest = claims.drop_first();
        lemma_first_claimant(rest);
        assert forall|m: int| 0 <= m < first_claimant(claims) implies claims[m] is None by {
            if m > 0 {
                assert(claims[m] == rest[m - 1]);
            }
        }
        if first_claimant(claims) < claims.len() {
            assert(claims[first_claimant(claims)] == rest[first_claimant(rest)]);
        }
    }
}

/// Where two families claim one input, the family that stands first in the
/// order has it, unless one before it claims it too: the input always goes
/// to the earliest claimant, never to the later of the two.
pub proof fn lemma_first_declared_wins<T>(claims: Seq<Option<T>>, i: int, j: int)
    requires
        0 <= i < j < claims.len(),
        claims[i] is Some,
        claims[j] is Some,
    ensures
        first_claimant(claims) <= i,
        first_claim(claims) == claims[first_claimant(claims)],
        first_claim(claims) is Some,
        (forall|m: int| 0 <= m < i ==> claims[m] is None) ==> first_claim(claims) == claims[i],
{
    lemma_first_claimant(claims);
    let k = first_claimant(claims);
    if k > i {
        assert(claims[i] is None);
    }
    if forall|m: int| 0 <= m < i ==> claims[m] is None {
        if k < i {
            assert(claims[k] is None);
        }
    }
}

} // verus!
