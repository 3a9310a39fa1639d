//! The bounded queue through which events reach the host.
//!
//! Reliable events are only accepted while there is room, so their producers
//! wait for the host to poll (backpressure); unreliable datagrams and trace
//! events are dropped, and counted, when the queue is full.
//!
//! The queue lives here, in a `VecDeque` that the client owns, rather than in
//! a bounded channel split into a sending and a receiving handle: a
//! channel's contents change through one handle while the other stays the
//! same value, so no contract over either handle could say what it holds.
//! Waiting for room is the runtime's part: it offers a reliable event again
//! after each poll.

use vstd::prelude::*;
use std::collections::VecDeque;
use crate::event::{Event, EventKind, SessionHandle, StreamHandle};
use crate::text::utf8;

verus! {

/// The queue's abstract state.
pub struct QueueView {
    /// Pending events, oldest first.
    pub events: Seq<Event>,
    /// How many events may be pending at once (at least one).
    pub capacity: nat,
    /// Datagram events dropped because the queue was full.
    pub dropped_datagrams: u64,
    /// Trace events dropped because the queue was full.
    pub dropped_trace_events: u64,
    /// How many datagram events were ever dropped, without wrapping.
    pub total_dropped_datagrams: nat,
    /// How many trace events were ever dropped, without wrapping.
    pub total_dropped_trace_events: nat,
}

impl QueueView {
    /// The queue can take one more event.
    pub open spec fn has_room(self) -> bool {
        self.events.len() < self.capacity
    }

    /// The queue holds no more events than its capacity, which is positive
    /// and fits a `usize`.
    pub open spec fn bounded(self) -> bool {
        &&& 1 <= self.capacity <= usize::MAX
        &&& self.events.len() <= self.capacity
    }

    /// Each drop counter equals its running total until that total reaches
    /// 2^64, where the counter wraps.
    pub open spec fn counts_follow_totals(self) -> bool {
        &&& self.total_dropped_datagrams < 0x1_0000_0000_0000_0000 ==> self.dropped_datagrams
            == self.total_dropped_datagrams
        &&& self.total_dropped_trace_events < 0x1_0000_0000_0000_0000 ==> self.dropped_trace_events
            == self.total_dropped_trace_events
    }

    /// The same queue with `e` appended.
    pub open spec fn pushed(self, e: Event) -> QueueView {
        QueueView { events: self.events.push(e), ..self }
    }
}

/// The code that a trace event carries for `value`: the value itself, or
/// `i64::MAX` where it does not fit.
pub open spec fn trace_code(value: u64) -> i64 {
    if value <= i64::MAX as u64 {
        value as i64
    } else {
        i64::MAX
    }
}

/// The trace event named `name`: metadata only, an event name, two opaque
/// handles and one number.
pub open spec fn is_trace_event(
    e: Event,
    name: Seq<char>,
    session: SessionHandle,
    stream: StreamHandle,
    value: u64,
) -> bool {
    &&& e.kind == EventKind::Trace
    &&& e.session == session
    &&& e.stream == stream
    &&& e.code == trace_code(value)
    &&& e.data@ == utf8(name)
    &&& e.error is None
}

/// The effect of offering a trace event: nothing where tracing is disabled,
/// the event appended where there is room, and the drop counted otherwise.
pub open spec fn trace_step(
    q0: QueueView,
    q1: QueueView,
    enabled: bool,
    name: Seq<char>,
    session: SessionHandle,
    stream: StreamHandle,
    value: u64,
) -> bool {
    if !enabled {
        q1 == q0
    } else if q0.has_room() {
        &&& q1.events.len() == q0.events.len() + 1
        &&& q1.events.take(q0.events.len() as int) == q0.events
        &&& is_trace_event(q1.events.last(), name, session, stream, value)
        &&& q1.capacity == q0.capacity
        &&& q1.dropped_datagrams == q0.dropped_datagrams
        &&& q1.dropped_trace_events == q0.dropped_trace_events
        &&& q1.total_dropped_datagrams == q0.total_dropped_datagrams
        &&& q1.total_dropped_trace_events == q0.total_dropped_trace_events
    } else {
        q1 == QueueView {
            dropped_trace_events: q0.dropped_trace_events.wrapping_add(1),
            total_dropped_trace_events: q0.total_dropped_trace_events + 1,
            ..q0
        }
    }
}

/// The effect of offering datagram event `e`: appended where there is room,
/// and the drop counted otherwise.
pub open spec fn datagram_step(q0: QueueView, q1: QueueView, e: Event) -> bool {
    if q0.has_room() {
        q1 == q0.pushed(e)
    } else {
        q1 == QueueView {
            dropped_datagrams: q0.dropped_datagrams.wrapping_add(1),
            total_dropped_datagrams: q0.total_dropped_datagrams + 1,
            ..q0
        }
    }
}

/// The event that a poll of `q` takes, if any: the oldest.
pub open spec fn polled(q: QueueView) -> Option<Event> {
    if q.events.len() == 0 {
        None
    } else {
        Some(q.events[0])
    }
}

/// The queue after a poll: the oldest event, if any, is gone.
pub open spec fn after_poll(q: QueueView) -> QueueView {
    if q.events.len() == 0 {
        q
    } else {
        QueueView { events: q.events.drop_first(), ..q }
    }
}

/// The queue after `k` polls.
pub open spec fn after_polls(q: QueueView, k: nat) -> QueueView
    decreases k,
{
    if k == 0 {
        q
    } else {
        after_polls(after_poll(q), (k - 1) as nat)
    }
}

/// A bounded first-in first-out queue of events.
pub struct EventQueue {
    events: VecDeque<Event>,
    capacity: usize,
    dropped_datagrams: u64,
    dropped_trace_events: u64,
    total_dropped_datagrams: Ghost<nat>,
    total_dropped_trace_events: Ghost<nat>,
}

impl View for EventQueue {
    type V = QueueView;

    closed spec fn view(&self) -> QueueView {
        QueueView {
            events: self.events@,
            capacity: self.capacity as nat,
            dropped_datagrams: self.dropped_datagrams,
            dropped_trace_events: self.dropped_trace_events,
            total_dropped_datagrams: self.total_dropped_datagrams@,
            total_dropped_trace_events: self.total_dropped_trace_events@,
        }
    }
}

impl EventQueue {
    /// The queue holds no more events than its capacity, which is positive.
    pub closed spec fn wf(&self) -> bool {
        &&& 1 <= self.capacity
        &&& self.events@.len() <= self.capacity
    }

    /// A well-formed queue is bounded by its capacity.
    pub proof fn lemma_bounded(&self)
        requires
            self.wf(),
        ensures
            self@.bounded(),
    {
    }

    /// An empty queue that holds at most `capacity` events, or one event
    /// where `capacity` is zero.
    pub fn new(capacity: usize) -> (q: EventQueue)
        ensures
            q.wf(),
            q@.events.len() == 0,
            q@.capacity == if capacity == 0 { 1 } else { capacity as nat },
            q@.dropped_datagrams == 0,
            q@.dropped_trace_events == 0,
            q@.total_dropped_datagrams == 0,
            q@.total_dropped_trace_events == 0,
    {
        let capacity = if capacity == 0 {
            1
        } else {
            capacity
        };
        EventQueue {
            events: VecDeque::new(),
            capacity,
            dropped_datagrams: 0,
            dropped_trace_events: 0,
            total_dropped_datagrams: Ghost(0),
            total_dropped_trace_events: Ghost(0),
        }
    }

    /// Appends `event` where there is room and hands it back otherwise; the
    /// caller waits for the host to poll and offers it again.
    pub fn try_send_reliable(&mut self, event: Event) -> (r: Result<(), Event>)
        requires
            old(self).wf(),
        ensures
            final(self).wf(),
            old(self)@.has_room() ==> r is Ok && final(self)@ == old(self)@.pushed(event),
            !old(self)@.has_room() ==> r == Err::<(), Event>(event) && final(self)@ == old(self)@,
    {
        if self.events.len() < self.capacity {
            self.events.push_back(event);
            Ok(())
        } else {
            Err(event)
        }
    }

    /// Appends a datagram event where there is room, and otherwise drops it
    /// and counts the drop.
    pub fn send_datagram(&mut self, event: Event)
        requires
            old(self).wf(),
        ensures
            final(self).wf(),
            datagram_step(old(self)@, final(self)@, event),
    {
        if self.events.len() < self.capacity {
            self.events.push_back(event);
        } else {
            self.dropped_datagrams = self.dropped_datagrams.wrapping_add(1);
            proof {
                self.total_dropped_datagrams@ = self.total_dropped_datagrams@ + 1;
            }
        }
    }

    /// Appends the trace event `name` where tracing is `enabled` and there
    /// is room; a trace event that finds the queue full is dropped and
    /// counted, and nothing happens where tracing is disabled.
    pub fn send_trace(
        &mut self,
        enabled: bool,
        name: &str,
        session: SessionHandle,
        stream: StreamHandle,
        value: u64,
    )
        requires
            old(self).wf(),
        ensures
            final(self).wf(),
            trace_step(old(self)@, final(self)@, enabled, name@, session, stream, value),
    {
        if !enabled {
            return;
        }
        if self.events.len() < self.capacity {
            let code: i64 = if value <= 0x7fff_ffff_ffff_ffffu64 {
                value as i64
            } else {
                0x7fff_ffff_ffff_ffffi64
            };
            let event = Event {
                kind: EventKind::Trace,
                session,
                stream,
                code,
                data: name.as_bytes_vec(),
                error: None,
            };
            self.events.push_back(event);
            assert(self.events@.take(old(self)@.events.len() as int) =~= old(self)@.events);
        } else {
            self.dropped_trace_events = self.dropped_trace_events.wrapping_add(1);
            proof {
                self.total_dropped_trace_events@ = self.total_dropped_trace_events@ + 1;
            }
        }
    }

    /// Takes the oldest pending event, if any.
    pub fn poll(&mut self) -> (r: Option<Event>)
        requires
            old(self).wf(),
        ensures
            final(self).wf(),
            r == polled(old(self)@),
            final(self)@ == after_poll(old(self)@),
    {
        let r = self.events.pop_front();
        proof {
            if old(self)@.events.len() > 0 {
                assert(self.events@ =~= old(self)@.events.drop_first());
            }
        }
        r
    }

    /// How many events are pending.
    pub fn queued(&self) -> (n: u64)
        requires
            self.wf(),
        ensures
            n == self@.events.len(),
    {
        self.events.len() as u64
    }

    /// How many datagram events were dropped.
    pub fn dropped_datagrams(&self) -> (n: u64)
        ensures
            n == self@.dropped_datagrams,
    {
        self.dropped_datagrams
    }

    /// How many trace events were dropped.
    pub fn dropped_trace_events(&self) -> (n: u64)
        ensures
            n == self@.dropped_trace_events,
    {
        self.dropped_trace_events
    }

    /// How many events may be pending at once.
    pub fn capacity(&self) -> (n: usize)
        ensures
            n == self@.capacity,
    {
        self.capacity
    }
}

} // verus!
