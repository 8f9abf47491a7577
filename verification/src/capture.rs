//! The decisions of the two capture loops.
//!
//! A capture loop alternates work on the outside (a read that does not block,
//! a call of the handler, a look at the clock, a bounded wait) with decisions.
//! The decisions are here, as functions from what the outside reported to what
//! is to be done next. The host program performs each action and reports its
//! outcome; a transport error ends its loop at once and is never reported
//! here.
//!
//! Times are nanoseconds on a clock that does not run backwards, counted from
//! a moment that the host chooses. Timeouts of a wait are milliseconds.

use crate::frame::CoalescedFrame;
use crate::{CallcbackCtrl, MidiEvent, PollEvent, SeqEvent};
use vstd::prelude::*;

verus! {

/// The interval, in milliseconds, at which the immediate loop looks for
/// input when it is given no other.
pub const DEFAULT_POLL_MILLIS: u128 = 100;

/// The wait, in nanoseconds, that is made where no time is left until the
/// deadline.
pub const MIN_WAIT_NANOS: u128 = 2_000_000;

/// Nanoseconds in a millisecond.
pub const NANOS_PER_MILLI: u128 = 1_000_000;

/// The timeout handed to a wait of `millis` milliseconds: the lowest 32
/// binary digits of `millis` read as a signed number, and 1 where that is
/// less than 1. A duration of up to `i32::MAX` milliseconds is its own
/// timeout, except that none is shorter than 1.
pub open spec fn timeout_of(millis: u128) -> i32 {
    let low = millis as int % 0x1_0000_0000;
    let signed = if low < 0x8000_0000 {
        low
    } else {
        low - 0x1_0000_0000
    };
    if signed < 1 {
        1
    } else {
        signed as i32
    }
}

pub fn poll_timeout(millis: u128) -> (timeout: i32)
    ensures
        timeout == timeout_of(millis),
        timeout >= 1,
        1 <= millis <= i32::MAX ==> timeout == millis,
{
    let low: u32 = #[verifier::truncate]
    (millis as u32);
    assert(low == millis % 0x1_0000_0000) by (bit_vector)
        requires
            low == millis as u32,
    ;
    let signed: i32 = #[verifier::truncate]
    (low as i32);
    assert(low < 0x8000_0000 ==> signed >= 0 && signed as u32 == low) by (bit_vector)
        requires
            signed == low as i32,
    ;
    assert(low >= 0x8000_0000 ==> signed < 0 && (signed + 0x1_0000_0000) as u32 == low)
        by (bit_vector)
        requires
            signed == low as i32,
    ;
    if signed < 1 {
        1
    } else {
        signed
    }
}

/// The time to wait at `now` for a deadline: what is left until it, and the
/// minimum wait where nothing is left.
pub open spec fn wait_of(deadline: u128, now: u128) -> u128 {
    if deadline > now {
        (deadline - now) as u128
    } else {
        MIN_WAIT_NANOS
    }
}

pub fn wait_time(deadline: u128, now: u128) -> (wait: u128)
    ensures
        wait == wait_of(deadline, now),
        wait > 0,
{
    if deadline > now {
        deadline - now
    } else {
        MIN_WAIT_NANOS
    }
}

/// What the outside reports to the immediate loop. `E` is the raw event as
/// the host holds it.
#[derive(Debug, PartialEq, Eq)]
pub enum LoopEvent<E> {
    /// A read that did not block returned an event, or found none pending.
    Read(Option<E>),
    /// The handler returned.
    Handled(CallcbackCtrl),
    /// A wait ended.
    Polled(PollEvent),
}

/// What the immediate loop does next.
#[derive(Debug, PartialEq, Eq)]
pub enum LoopAction<E> {
    /// Read without blocking.
    Read,
    /// Call the handler with this event.
    Deliver(E),
    /// Wait for input, for at most this many milliseconds.
    Wait(i32),
    /// Return to the caller.
    Stop,
}

/// The immediate loop: an event that was read goes to the handler; after the
/// handler the next event is read, unless the handler said to stop; where no
/// event is pending the loop waits for `poll_millis`, then reads again.
pub open spec fn immediate_decision<E>(event: LoopEvent<E>, poll_millis: u128) -> LoopAction<E> {
    match event {
        LoopEvent::Read(Some(ev)) => LoopAction::Deliver(ev),
        LoopEvent::Read(None) => LoopAction::Wait(timeout_of(poll_millis)),
        LoopEvent::Handled(CallcbackCtrl::Continue) => LoopAction::Read,
        LoopEvent::Handled(CallcbackCtrl::Break) => LoopAction::Stop,
        LoopEvent::Polled(_) => LoopAction::Read,
    }
}

pub fn immediate_step<E>(event: LoopEvent<E>, poll_millis: u128) -> (action: LoopAction<E>)
    ensures
        action == immediate_decision(event, poll_millis),
{
    match event {
        LoopEvent::Read(Some(ev)) => LoopAction::Deliver(ev),
        LoopEvent::Read(None) => LoopAction::Wait(poll_timeout(poll_millis)),
        LoopEvent::Handled(CallcbackCtrl::Continue) => LoopAction::Read,
        LoopEvent::Handled(CallcbackCtrl::Break) => LoopAction::Stop,
        LoopEvent::Polled(_) => LoopAction::Read,
    }
}

/// The actions of an immediate loop to which the outside reports `events`
/// one after the other. The run ends with the first `Stop`: what is
/// reported after it is not looked at.
pub open spec fn immediate_run<E>(events: Seq<LoopEvent<E>>, poll_millis: u128) -> Seq<
    LoopAction<E>,
>
    decreases events.len(),
{
    if events.len() == 0 {
        Seq::empty()
    } else {
        let action = immediate_decision(events[0], poll_millis);
        if action is Stop {
            seq![action]
        } else {
            seq![action] + immediate_run(events.drop_first(), poll_millis)
        }
    }
}

/// The raw events among `events`, in the order in which they were read.
pub open spec fn arrivals<E>(events: Seq<LoopEvent<E>>) -> Seq<E>
    decreases events.len(),
{
    if events.len() == 0 {
        Seq::empty()
    } else {
        match events[0] {
            LoopEvent::Read(Some(ev)) => seq![ev] + arrivals(events.drop_first()),
            _ => arrivals(events.drop_first()),
        }
    }
}

/// The raw events that `actions` hand to the handler, in their order.
pub open spec fn deliveries<E>(actions: Seq<LoopAction<E>>) -> Seq<E>
    decreases actions.len(),
{
    if actions.len() == 0 {
        Seq::empty()
    } else {
        match actions[0] {
            LoopAction::Deliver(ev) => seq![ev] + deliveries(actions.drop_first()),
            _ => deliveries(actions.drop_first()),
        }
    }
}

/// The place in `events` of the first answer of the handler that says to
/// stop, or the length of `events` where there is none.
pub open spec fn first_break<E>(events: Seq<LoopEvent<E>>) -> int
    decreases events.len(),
{
    if events.len() == 0 {
        0
    } else if events[0] == LoopEvent::<E>::Handled(CallcbackCtrl::Break) {
        0
    } else {
        1 + first_break(events.drop_first())
    }
}

/// In immediate mode every raw event that is read before the handler says
/// to stop is handed to the handler once, and the events are handed over in
/// the order in which they were read. The loop ends at the first answer that
/// says to stop and at no other point.
pub proof fn lemma_immediate_run<E>(events: Seq<LoopEvent<E>>, poll_millis: u128)
    ensures
        ({
            let actions = immediate_run(events, poll_millis);
            let stop = first_break(events);
            &&& 0 <= stop <= events.len()
            &&& forall|i: int|
                0 <= i < stop ==> events[i] != LoopEvent::<E>::Handled(CallcbackCtrl::Break)
            &&& stop < events.len() ==> events[stop] == LoopEvent::<E>::Handled(
                CallcbackCtrl::Break,
            )
            &&& actions.len() == (if stop < events.len() {
                stop + 1
            } else {
                stop
            })
            &&& forall|i: int|
                0 <= i < actions.len() ==> actions[i] == immediate_decision(events[i], poll_millis)
            &&& forall|i: int| 0 <= i < actions.len() ==> (actions[i] is Stop <==> i == stop)
            &&& deliveries(actions) == arrivals(events.take(actions.len() as int))
        }),
    decreases events.len(),
{
    let actions = immediate_run(events, poll_millis);
    if events.len() == 0 {
        assert(events.take(0) =~= events);
    } else {
        let rest = events.drop_first();
        let action = immediate_decision(events[0], poll_millis);
        lemma_immediate_run(rest, poll_millis);
        let tail = immediate_run(rest, poll_millis);
        if action is Stop {
            assert(actions =~= seq![action]);
        } else {
            assert(actions =~= seq![action] + tail);
            assert forall|i: int| 0 <= i < first_break(events) implies events[i] != LoopEvent::<
                E,
            >::Handled(CallcbackCtrl::Break) by {
                if i > 0 {
                    assert(events[i] == rest[i - 1]);
                }
            }
            assert(actions.len() <= events.len());
            assert forall|i: int| 0 <= i < actions.len() implies actions[i] == immediate_decision(
                events[i],
                poll_millis,
            ) && (actions[i] is Stop <==> i == first_break(events)) by {
                if i > 0 {
                    assert(actions[i] == tail[i - 1]);
                    assert(events[i] == rest[i - 1]);
                }
            }
        }
        let taken = events.take(actions.len() as int);
        assert(taken[0] == events[0]);
        assert(actions[0] == action);
        if action is Stop {
            assert(actions.drop_first() =~= Seq::<LoopAction<E>>::empty());
            assert(taken.drop_first() =~= Seq::<LoopEvent<E>>::empty());
            assert(deliveries(Seq::<LoopAction<E>>::empty()) =~= Seq::<E>::empty());
            assert(arrivals(Seq::<LoopEvent<E>>::empty()) =~= Seq::<E>::empty());
        } else {
            assert(actions.drop_first() =~= tail);
            assert(taken.drop_first() =~= rest.take(tail.len() as int));
        }
    }
}

/// What the outside reports to the windowed loop.
#[derive(Debug, Clone, Copy, PartialEq, Eq)]
pub enum WindowEvent {
    /// A read that did not block returned an event, or found none pending.
    Read(Option<SeqEvent>),
    /// The clock was read.
    Tick(u128),
    /// The handler returned; the clock was read after it.
    Handled(CallcbackCtrl, u128),
    /// A wait ended.
    Polled(PollEvent),
}

/// What the windowed loop does next.
#[derive(Debug)]
pub enum WindowAction {
    /// Read without blocking.
    Read,
    /// Read the clock.
    Clock,
    /// Call the handler with this frame, then read the clock.
    Deliver(CoalescedFrame),
    /// Wait for input, for at most this many milliseconds.
    Wait(i32),
    /// Return to the caller.
    Stop,
}

/// A `WindowAction` with the frame it hands over taken by its content.
pub enum WindowDecision {
    Read,
    Clock,
    Deliver(Map<MidiEvent, i32>),
    Wait(i32),
    Stop,
}

impl View for WindowAction {
    type V = WindowDecision;

    open spec fn view(&self) -> WindowDecision {
        match self {
            WindowAction::Read => WindowDecision::Read,
            WindowAction::Clock => WindowDecision::Clock,
            WindowAction::Deliver(frame) => WindowDecision::Deliver(frame@),
            WindowAction::Wait(millis) => WindowDecision::Wait(*millis),
            WindowAction::Stop => WindowDecision::Stop,
        }
    }
}

/// The state of the windowed loop: the length of a window, the end of the
/// window that is open, and what was written in it so far.
#[derive(Debug)]
pub struct WindowedLoop {
    interval: u128,
    deadline: u128,
    frame: CoalescedFrame,
}

/// A `WindowedLoop` with its frame taken by its content.
pub struct Window {
    pub interval: u128,
    pub deadline: u128,
    pub frame: Map<MidiEvent, i32>,
}

impl View for WindowedLoop {
    type V = Window;

    closed spec fn view(&self) -> Window {
        Window { interval: self.interval, deadline: self.deadline, frame: self.frame@ }
    }
}

/// The update that a sequencer event makes to a frame: what it says is
/// written over what the frame held for the same identity.
pub open spec fn written(frame: Map<MidiEvent, i32>, ev: SeqEvent) -> Map<MidiEvent, i32> {
    match MidiEvent::parsed(ev) {
        Some((key, value)) => frame.insert(key, value),
        None => frame,
    }
}

impl Window {
    /// The windowed loop. An event that was read is written to the frame and
    /// the next is read; where none is pending the clock is read. At or after
    /// the deadline the frame goes to the handler and an empty frame takes its
    /// place; before the deadline the loop waits for what is left until it,
    /// then reads again. When the handler has returned, the next window ends
    /// one interval after that moment, and reading goes on unless the handler
    /// said to stop.
    pub open spec fn step(self, event: WindowEvent) -> (Window, WindowDecision) {
        match event {
            WindowEvent::Read(Some(ev)) => (
                Window { frame: written(self.frame, ev), ..self },
                WindowDecision::Read,
            ),
            WindowEvent::Read(None) => (self, WindowDecision::Clock),
            WindowEvent::Tick(now) => if now >= self.deadline {
                (Window { frame: Map::empty(), ..self }, WindowDecision::Deliver(self.frame))
            } else {
                (
                    self,
                    WindowDecision::Wait(
                        timeout_of(wait_of(self.deadline, now) / NANOS_PER_MILLI),
                    ),
                )
            },
            WindowEvent::Handled(ctrl, now) => (
                Window { deadline: (now + self.interval) as u128, ..self },
                if ctrl is Break {
                    WindowDecision::Stop
                } else {
                    WindowDecision::Read
                },
            ),
            WindowEvent::Polled(_) => (self, WindowDecision::Read),
        }
    }

    /// The state after the outside has reported `events` one after the
    /// other.
    pub open spec fn run(self, events: Seq<WindowEvent>) -> Window
        decreases events.len(),
    {
        if events.len() == 0 {
            self
        } else {
            self.run(events.drop_last()).step(events.last()).0
        }
    }

    /// Whether `events` all fall in the window that is open: no look at the
    /// clock among them finds the deadline reached, and no frame is handed
    /// over.
    pub open spec fn holds_open(self, events: Seq<WindowEvent>) -> bool {
        forall|i: int|
            0 <= i < events.len() ==> match #[trigger] events[i] {
                WindowEvent::Tick(now) => now < self.deadline,
                WindowEvent::Handled(_, _) => false,
                _ => true,
            }
    }
}

/// What the reads among `events` say, in their order.
pub open spec fn updates_of(events: Seq<WindowEvent>) -> Seq<(MidiEvent, i32)>
    decreases events.len(),
{
    if events.len() == 0 {
        Seq::empty()
    } else {
        let before = updates_of(events.drop_last());
        match events.last() {
            WindowEvent::Read(Some(ev)) => match MidiEvent::parsed(ev) {
                Some(update) => before.push(update),
                None => before,
            },
            _ => before,
        }
    }
}

/// The frame that a run of updates leaves: each update is written over what
/// was there for its identity.
pub open spec fn coalesce(updates: Seq<(MidiEvent, i32)>) -> Map<MidiEvent, i32>
    decreases updates.len(),
{
    if updates.len() == 0 {
        Map::empty()
    } else {
        coalesce(updates.drop_last()).insert(updates.last().0, updates.last().1)
    }
}

/// Of the updates to one identity the frame holds the last: the value of an
/// update that no later update to the same identity follows.
pub proof fn lemma_last_write_wins(updates: Seq<(MidiEvent, i32)>, i: int)
    requires
        0 <= i < updates.len(),
        forall|j: int| i < j < updates.len() ==> updates[j].0 != updates[i].0,
    ensures
        coalesce(updates).contains_key(updates[i].0),
        coalesce(updates)[updates[i].0] == updates[i].1,
    decreases updates.len(),
{
    if i < updates.len() - 1 {
        let before = updates.drop_last();
        assert(before[i] == updates[i]);
        assert forall|j: int| i < j < before.len() implies before[j].0 != before[i].0 by {
            assert(before[j] == updates[j]);
        }
        lemma_last_write_wins(before, i);
    }
}

/// An identity is in the frame only if an update was made to it: one that
/// no update names is absent, with no value at all.
pub proof fn lemma_untouched_is_absent(updates: Seq<(MidiEvent, i32)>, key: MidiEvent)
    ensures
        coalesce(updates).contains_key(key) <==> exists|i: int|
            0 <= i < updates.len() && (#[trigger] updates[i]).0 == key,
    decreases updates.len(),
{
    if updates.len() > 0 {
        let before = updates.drop_last();
        lemma_untouched_is_absent(before, key);
        if coalesce(updates).contains_key(key) {
            if updates.last().0 == key {
                assert(updates[updates.len() - 1].0 == key);
            } else {
                let i = choose|i: int| 0 <= i < before.len() && (#[trigger] before[i]).0 == key;
                assert(updates[i].0 == key);
            }
        }
        if exists|i: int| 0 <= i < updates.len() && (#[trigger] updates[i]).0 == key {
            let i = choose|i: int| 0 <= i < updates.len() && (#[trigger] updates[i]).0 == key;
            if i < before.len() {
                assert(before[i].0 == key);
            }
        }
    }
}

/// While a window is open the loop only collects: starting from an empty
/// frame, the frame after `events` is the one that the updates read among
/// them leave, and the deadline stands. That frame is what the handler gets
/// when the clock next shows the deadline reached, and the window after it
/// starts empty.
pub proof fn lemma_window_collects(window: Window, events: Seq<WindowEvent>, now: u128)
    requires
        window.frame == Map::<MidiEvent, i32>::empty(),
        window.holds_open(events),
        now >= window.deadline,
    ensures
        window.run(events) == (Window { frame: coalesce(updates_of(events)), ..window }),
        window.run(events).step(WindowEvent::Tick(now)) == (
            window,
            WindowDecision::Deliver(coalesce(updates_of(events))),
        ),
    decreases events.len(),
{
    if events.len() > 0 {
        let before = events.drop_last();
        assert forall|i: int| 0 <= i < before.len() implies match #[trigger] before[i] {
            WindowEvent::Tick(now) => now < window.deadline,
            WindowEvent::Handled(_, _) => false,
            _ => true,
        } by {
            assert(before[i] == events[i]);
        }
        lemma_window_collects(window, before, now);
        let last = events[events.len() - 1];
        match last {
            WindowEvent::Read(Some(ev)) => {
                match MidiEvent::parsed(ev) {
                    Some(update) => {
                        assert(updates_of(events).drop_last() =~= updates_of(before));
                    },
                    None => {},
                }
            },
            _ => {},
        }
    }
}

impl WindowedLoop {
    /// The loop at its start: the first window opens at `now` and no event
    /// was read yet. The first action of the loop is to read.
    pub fn new(now: u128, interval: u128) -> (state: WindowedLoop)
        requires
            now + interval <= u128::MAX,
        ensures
            state@ == (Window {
                interval,
                deadline: (now + interval) as u128,
                frame: Map::empty(),
            }),
    {
        WindowedLoop { interval, deadline: now + interval, frame: CoalescedFrame::new() }
    }

    /// The end of the window that is open.
    pub fn deadline(&self) -> (deadline: u128)
        ensures
            deadline == self@.deadline,
    {
        self.deadline
    }

    /// The length of a window.
    pub fn interval(&self) -> (interval: u128)
        ensures
            interval == self@.interval,
    {
        self.interval
    }

    /// What was written in the window that is open.
    pub fn frame(&self) -> (frame: &CoalescedFrame)
        ensures
            frame@ == self@.frame,
    {
        &self.frame
    }

    /// Whether `event` can be reported in this state: an event that was read
    /// is well formed, and the window that opens when the handler has
    /// returned ends at a time that can be written down.
    pub open spec fn admits(&self, event: WindowEvent) -> bool {
        match event {
            WindowEvent::Read(Some(ev)) => ev.well_formed(),
            WindowEvent::Handled(_, now) => now + self@.interval <= u128::MAX,
            _ => true,
        }
    }

    /// Takes what the outside reported and says what is to be done next.
    pub fn step(self, event: WindowEvent) -> (next: (WindowedLoop, WindowAction))
        requires
            self.admits(event),
        ensures
            (next.0@, next.1@) == self@.step(event),
    {
        let WindowedLoop { interval, deadline, frame } = self;
        match event {
            WindowEvent::Read(Some(ev)) => {
                let mut frame = frame;
                if let Some((key, value)) = MidiEvent::parse(ev) {
                    frame.insert(key, value);
                }
                (WindowedLoop { interval, deadline, frame }, WindowAction::Read)
            },
            WindowEvent::Read(None) => (
                WindowedLoop { interval, deadline, frame },
                WindowAction::Clock,
            ),
            WindowEvent::Tick(now) => {
                if now >= deadline {
                    (
                        WindowedLoop { interval, deadline, frame: CoalescedFrame::new() },
                        WindowAction::Deliver(frame),
                    )
                } else {
                    let millis = wait_time(deadline, now) / NANOS_PER_MILLI;
                    (
                        WindowedLoop { interval, deadline, frame },
                        WindowAction::Wait(poll_timeout(millis)),
                    )
                }
            },
            WindowEvent::Handled(ctrl, now) => {
                let action = match ctrl {
                    CallcbackCtrl::Break => WindowAction::Stop,
                    CallcbackCtrl::Continue => WindowAction::Read,
                };
                (WindowedLoop { interval, deadline: now + interval, frame }, action)
            },
            WindowEvent::Polled(_) => (WindowedLoop { interval, deadline, frame }, WindowAction::Read),
        }
    }
}

} // verus!
