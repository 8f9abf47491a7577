//! The frame of a time window: the last value of every message identity that
//! was written in it.
//!
//! The frame is kept in a hash table. An identity is filed there under a
//! number of its own, so that the table is keyed by plain integers.

use crate::MidiEvent;
use std::collections::HashMap;
use vstd::prelude::*;
use vstd::std_specs::hash::*;
use vstd::std_specs::iter::IteratorSpec;

verus! {

/// Kind, channel, velocity and parameter of a message.
spec fn digits(key: MidiEvent) -> (int, int, int, int) {
    match key {
        MidiEvent::Control { channel, param } => (0, channel as int, 0, param as int),
        MidiEvent::NoteOn { channel, note, velocity } => (
            1,
            channel as int,
            velocity as int,
            note as int,
        ),
        MidiEvent::NoteOff { channel, note, velocity } => (
            2,
            channel as int,
            velocity as int,
            note as int,
        ),
    }
}

/// Four numbers written side by side in one: `low` in the lowest 32 binary
/// digits, `velocity` and `channel` in 8 each above it, `kind` above those.
spec fn pack(kind: int, channel: int, velocity: int, low: int) -> int {
    kind * 0x1_0000_0000_0000 + channel * 0x100_0000_0000 + velocity * 0x1_0000_0000 + low
}

/// The number under which a message identity is filed in the hash table.
#[verifier::opaque]
spec fn code(key: MidiEvent) -> u64 {
    let (kind, channel, velocity, low) = digits(key);
    pack(kind, channel, velocity, low) as u64
}

fn to_code(key: MidiEvent) -> (c: u64)
    ensures
        c == code(key),
{
    reveal(code);
    match key {
        MidiEvent::Control { channel, param } => channel as u64 * 0x100_0000_0000 + param as u64,
        MidiEvent::NoteOn { channel, note, velocity } => 0x1_0000_0000_0000 + channel as u64
            * 0x100_0000_0000 + velocity as u64 * 0x1_0000_0000 + note as u64,
        MidiEvent::NoteOff { channel, note, velocity } => 0x2_0000_0000_0000 + channel as u64
            * 0x100_0000_0000 + velocity as u64 * 0x1_0000_0000 + note as u64,
    }
}

/// No two identities are filed under one number.
proof fn lemma_code_injective(a: MidiEvent, b: MidiEvent)
    requires
        code(a) == code(b),
    ensures
        a == b,
{
    reveal(code);
    let (t1, c1, v1, l1) = digits(a);
    let (t2, c2, v2, l2) = digits(b);
    let n1 = pack(t1, c1, v1, l1);
    let n2 = pack(t2, c2, v2, l2);
    assert(0 <= n1 < 0x4_0000_0000_0000);
    assert(0 <= n2 < 0x4_0000_0000_0000);
    assert(n1 == n2);
    assert(l1 == n1 % 0x1_0000_0000);
    assert(l2 == n2 % 0x1_0000_0000);
    let m1 = t1 * 0x1_0000 + c1 * 0x100 + v1;
    let m2 = t2 * 0x1_0000 + c2 * 0x100 + v2;
    assert(m1 == n1 / 0x1_0000_0000);
    assert(m2 == n2 / 0x1_0000_0000);
    assert(v1 == m1 % 0x100);
    assert(v2 == m2 % 0x100);
    assert(t1 * 0x100 + c1 == m1 / 0x100);
    assert(t2 * 0x100 + c2 == m2 / 0x100);
}

/// The values seen in one time window: for each message identity the value
/// that was written last. An identity that was not written is not in it.
#[derive(Debug)]
pub struct CoalescedFrame {
    slots: HashMap<u64, (MidiEvent, i32)>,
}

impl View for CoalescedFrame {
    type V = Map<MidiEvent, i32>;

    closed spec fn view(&self) -> Map<MidiEvent, i32> {
        Map::new(
            |k: MidiEvent| self.slots@.contains_key(code(k)),
            |k: MidiEvent| self.slots@[code(k)].1,
        )
    }
}

/// Whether `list` names the entries of `frame`, each once, in some order.
pub open spec fn lists(list: Seq<(MidiEvent, i32)>, frame: Map<MidiEvent, i32>) -> bool {
    list.no_duplicates() && list.to_set() == frame.kv_pairs()
}

impl CoalescedFrame {
    /// Every slot is filed under the code of the identity it holds.
    #[verifier::type_invariant]
    spec fn filed_by_code(self) -> bool {
        forall|c: u64| #[trigger]
            self.slots@.contains_key(c) ==> code(self.slots@[c].0) == c
    }

    /// A frame in which nothing was written.
    pub fn new() -> (frame: CoalescedFrame)
        ensures
            frame@ == Map::<MidiEvent, i32>::empty(),
    {
        let frame = CoalescedFrame { slots: HashMap::new() };
        assert(frame@ =~= Map::<MidiEvent, i32>::empty());
        frame
    }

    /// Writes `value` under `key`; a value written there before is
    /// overwritten and returned.
    pub fn insert(&mut self, key: MidiEvent, value: i32) -> (before: Option<i32>)
        ensures
            final(self)@ == old(self)@.insert(key, value),
            before == (if old(self)@.contains_key(key) {
                Some(old(self)@[key])
            } else {
                None
            }),
    {
        broadcast use vstd::std_specs::hash::group_hash_axioms;

        proof {
            use_type_invariant(&*self);
        }
        let slot = to_code(key);
        let mut slots: HashMap<u64, (MidiEvent, i32)> = HashMap::new();
        core::mem::swap(&mut self.slots, &mut slots);
        let before = slots.insert(slot, (key, value));
        core::mem::swap(&mut self.slots, &mut slots);
        proof {
            assert forall|k: MidiEvent| code(k) == slot implies k == key by {
                lemma_code_injective(k, key);
            }
            assert(self@ =~= old(self)@.insert(key, value));
        }
        match before {
            Some(slot) => Some(slot.1),
            None => None,
        }
    }

    /// The value written last under `key`, if any was.
    pub fn get(&self, key: MidiEvent) -> (value: Option<i32>)
        ensures
            value == (if self@.contains_key(key) {
                Some(self@[key])
            } else {
                None
            }),
    {
        broadcast use vstd::std_specs::hash::group_hash_axioms;

        let slot = to_code(key);
        match self.slots.get(&slot) {
            Some(slot) => Some(slot.1),
            None => None,
        }
    }

    /// Whether nothing was written.
    pub fn is_empty(&self) -> (empty: bool)
        ensures
            empty == (self@ == Map::<MidiEvent, i32>::empty()),
    {
        broadcast use vstd::std_specs::hash::group_hash_axioms;

        proof {
            use_type_invariant(self);
        }
        let empty = self.slots.is_empty();
        proof {
            if empty {
                assert(self@ =~= Map::<MidiEvent, i32>::empty());
            } else {
                let c = choose|c: u64| self.slots@.contains_key(c);
                assert(self.slots@.contains_key(c));
                assert(self@.contains_key(self.slots@[c].0));
            }
        }
        empty
    }

    /// The frame's entries, each identity once, in no particular order.
    pub fn entries(&self) -> (list: Vec<(MidiEvent, i32)>)
        ensures
            lists(list@, self@),
    {
        broadcast use vstd::std_specs::hash::group_hash_axioms;

        proof {
            use_type_invariant(self);
        }
        let mut list: Vec<(MidiEvent, i32)> = Vec::new();
        let ghost all = spec_hash_map_iter(&self.slots).remaining();
        for pair in it: self.slots.iter()
            invariant
                it.seq() == all,
                list@.len() == it.index(),
                forall|i: int| 0 <= i < list@.len() ==> list@[i] == *(#[trigger] all[i]).1,
        {
            list.push(*pair.1);
        }
        proof {
            assert forall|i: int, j: int|
                0 <= i < list@.len() && 0 <= j < list@.len() && i != j implies list@[i]
                != list@[j] by {
                assert(self.slots@.contains_key(*all[i].0));
                assert(self.slots@.contains_key(*all[j].0));
                assert(all[i] != all[j]);
            }
            assert forall|e: (MidiEvent, i32)| list@.to_set().contains(e) implies self@.kv_pairs().contains(
                e,
            ) by {
                let i = choose|i: int| 0 <= i < list@.len() && list@[i] == e;
                assert(self.slots@.contains_key(*all[i].0));
                assert(self@.contains_key(e.0));
            }
            assert forall|e: (MidiEvent, i32)| self@.kv_pairs().contains(e) implies list@.to_set().contains(
                e,
            ) by {
                let c = code(e.0);
                assert(self.slots@.contains_key(c));
                lemma_code_injective(self.slots@[c].0, e.0);
                assert(all.contains((&c, &self.slots@[c])));
                let i = choose|i: int| 0 <= i < all.len() && all[i] == (&c, &self.slots@[c]);
                assert(list@[i] == e);
            }
            assert(list@.to_set() =~= self@.kv_pairs());
        }
        list
    }
}

} // verus!
