//! What is decided when the capture endpoint is set up: the name under which
//! it registers, the port it asks for, and the ports it listens to.
//!
//! The sequencer describes a port by two sets of flags, its capabilities and
//! its type. The host program lists the ports that are present and makes the
//! subscriptions that are planned here.

use vstd::prelude::*;

verus! {

/// The name under which the endpoint registers when it is given none.
pub const DEFAULT_CLIENT_NAME: &'static str = "rust_midi_capture";

/// Capability flag: the port can be read from.
pub const PORT_CAP_READ: u32 = 0x01;

/// Capability flag: the port can be written to.
pub const PORT_CAP_WRITE: u32 = 0x02;

/// Capability flag: a reader may subscribe to the port.
pub const PORT_CAP_SUBS_READ: u32 = 0x20;

/// Capability flag: a writer may subscribe to the port.
pub const PORT_CAP_SUBS_WRITE: u32 = 0x40;

/// Type flag: the port speaks plain MIDI.
pub const PORT_TYPE_MIDI_GENERIC: u32 = 0x02;

/// Type flag: the port belongs to an application.
pub const PORT_TYPE_APPLICATION: u32 = 0x10_0000;

/// The capabilities that the endpoint's own port asks for.
pub const CAPTURE_PORT_CAP: u32 = 0x42;

/// The type of the endpoint's own port.
pub const CAPTURE_PORT_TYPE: u32 = 0x10_0002;

/// A port of a client of the sequencer.
#[derive(Debug, Clone, Copy, PartialEq, Eq)]
pub struct Addr {
    pub client: i32,
    pub port: i32,
}

/// A port as the sequencer describes it.
#[derive(Debug, Clone, Copy, PartialEq, Eq)]
pub struct PortDesc {
    pub addr: Addr,
    pub capability: u32,
    pub kind: u32,
}

/// A connection from a port that sends to a port that receives.
#[derive(Debug, Clone, Copy, PartialEq, Eq)]
pub struct Subscription {
    pub sender: Addr,
    pub dest: Addr,
}

/// The registered name: the one that is given, or the default.
pub fn client_name<'a>(name: Option<&'a str>) -> (chosen: &'a str)
    ensures
        chosen@ == (match name {
            Some(given) => given@,
            None => DEFAULT_CLIENT_NAME@,
        }),
{
    match name {
        Some(given) => given,
        None => DEFAULT_CLIENT_NAME,
    }
}

/// Whether every flag of `flags` is set in `bits`.
pub open spec fn has_flags(bits: u32, flags: u32) -> bool {
    bits & flags == flags
}

impl PortDesc {
    /// Whether the endpoint of client `own` listens to this port: it is a
    /// port of another client that can be read and subscribed to and speaks
    /// plain MIDI.
    pub open spec fn is_source(self, own: i32) -> bool {
        &&& self.addr.client != own
        &&& has_flags(self.capability, PORT_CAP_READ)
        &&& has_flags(self.capability, PORT_CAP_SUBS_READ)
        &&& has_flags(self.kind, PORT_TYPE_MIDI_GENERIC)
    }

    pub fn feeds(&self, own: i32) -> (yes: bool)
        ensures
            yes == self.is_source(own),
    {
        if self.addr.client == own {
            return false;
        }
        if self.capability & PORT_CAP_READ != PORT_CAP_READ || self.capability & PORT_CAP_SUBS_READ
            != PORT_CAP_SUBS_READ {
            return false;
        }
        if self.kind & PORT_TYPE_MIDI_GENERIC != PORT_TYPE_MIDI_GENERIC {
            return false;
        }
        true
    }
}

/// The subscriptions that connect every source among `ports` to `dest`, in
/// the order of `ports`.
pub open spec fn subscriptions_of(ports: Seq<PortDesc>, dest: Addr) -> Seq<Subscription>
    decreases ports.len(),
{
    if ports.len() == 0 {
        Seq::empty()
    } else {
        let before = subscriptions_of(ports.drop_last(), dest);
        if ports.last().is_source(dest.client) {
            before.push(Subscription { sender: ports.last().addr, dest })
        } else {
            before
        }
    }
}

/// Plans the subscriptions of the endpoint whose own port is `dest`, given
/// the ports that are present.
pub fn plan_subscriptions(ports: &Vec<PortDesc>, dest: Addr) -> (plan: Vec<Subscription>)
    ensures
        plan@ == subscriptions_of(ports@, dest),
{
    let mut plan: Vec<Subscription> = Vec::new();
    let mut i: usize = 0;
    while i < ports.len()
        invariant
            i <= ports.len(),
            plan@ == subscriptions_of(ports@.take(i as int), dest),
        decreases ports.len() - i,
    {
        let port = ports[i];
        assert(ports@.take(i + 1).drop_last() =~= ports@.take(i as int));
        if port.feeds(dest.client) {
            plan.push(Subscription { sender: port.addr, dest });
        }
        i = i + 1;
    }
    assert(ports@.take(i as int) =~= ports@);
    plan
}

} // verus!
