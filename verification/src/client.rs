//! The client's bookkeeping: which sessions and streams exist, in which
//! state, what each command is answered, and what each network happening
//! does to the counters and the event queue.
//!
//! The network work itself (connecting, sending, reading, sleeping) belongs
//! to the host's runtime. The runtime asks this registry before each command
//! and reports each outcome to it; events that must not be lost are handed
//! back so the runtime can offer them to the queue until there is room.

use vstd::prelude::*;
use crate::error::{ClientError, TransportError};
use crate::event::{
    is_bare, reports, reports_network_failure, Event, EventKind, SessionHandle, StreamHandle,
};
use crate::options::{
    timeout_millis, ClientStats, ConnectOptions, PathInfo, SessionDiagnostics, SessionState, Timeout,
};
use crate::queue::{after_poll, datagram_step, polled, trace_step, EventQueue, QueueView};
use crate::registry::{draining_handles, owned_by, HandleSet, StateTable, StreamOwners};
use crate::text::{has_https_scheme, https_scheme, starts_with};

verus! {

/// The client's abstract state.
pub struct ClientView {
    /// The event queue.
    pub queue: QueueView,
    /// Sessions whose connection is established.
    pub sessions: Set<SessionHandle>,
    /// The state of every session being connected, connected or draining.
    pub states: Map<SessionHandle, SessionState>,
    /// Streams that can be written.
    pub streams: Set<StreamHandle>,
    /// The handle that the next session gets.
    pub next_session: u64,
    /// The handle that the next stream gets.
    pub next_stream: u64,
    /// Every session handle issued so far.
    pub issued_sessions: Set<SessionHandle>,
    /// The session handle counter has wrapped past `u64::MAX`.
    pub session_handles_exhausted: bool,
    /// Every stream handle issued so far.
    pub issued_streams: Set<StreamHandle>,
    /// The stream handle counter has wrapped past `u64::MAX`.
    pub stream_handles_exhausted: bool,
    /// The session that each stream opened or accepted for writing belongs
    /// to.
    pub stream_owners: Map<StreamHandle, SessionHandle>,
    /// Streams whose sending side is busy with a write or a finish.
    pub sending: Set<StreamHandle>,
    /// Writes and finishes waiting for the send before them on their
    /// stream, in the order they were asked for.
    pub pending_sends: Seq<PendingSend>,
    /// Whether trace events are produced.
    pub trace_enabled: bool,
    pub datagrams_sent: u64,
    pub datagrams_received: u64,
    pub stream_bytes_sent: u64,
    pub stream_bytes_received: u64,
    pub connection_failures: u64,
    /// The running totals of the client's counters, which never wrap.
    pub total_datagrams_sent: nat,
    pub total_datagrams_received: nat,
    pub total_stream_bytes_sent: nat,
    pub total_stream_bytes_received: nat,
    pub total_connection_failures: nat,
    /// Whether the client still accepts commands that need its runtime.
    pub running: bool,
}

impl ClientView {
    /// The session is draining.
    pub open spec fn is_draining(self, session: SessionHandle) -> bool {
        self.states.contains_key(session) && self.states[session] == SessionState::Draining
    }

    /// The bookkeeping agrees with itself: the established sessions are
    /// finitely many, each has a state, and every draining session is an
    /// established one.
    pub open spec fn consistent(self) -> bool {
        &&& self.sessions.finite()
        &&& self.sessions.len() <= usize::MAX
        &&& self.sessions.subset_of(self.states.dom())
        &&& draining_handles(self.states).subset_of(self.sessions)
        &&& !self.session_handles_exhausted ==> issued_below(
            self.issued_sessions,
            self.next_session,
        )
        &&& !self.stream_handles_exhausted ==> issued_below(self.issued_streams, self.next_stream)
        &&& self.stream_handles_exhausted ==> forall|h: u64|
            1 <= h ==> #[trigger] self.issued_streams.contains(h)
        &&& self.streams.finite()
        &&& self.streams.len() <= usize::MAX
        &&& self.streams.subset_of(self.issued_streams)
        &&& self.streams.subset_of(self.stream_owners.dom())
        &&& self.sending.subset_of(self.stream_owners.dom())
        &&& forall|k: int|
            0 <= k < self.pending_sends.len() ==> self.sending.contains(
                #[trigger] self.pending_sends[k].stream,
            )
        &&& self.counts_follow_totals()
    }

    /// Each counter equals its running total until that total reaches 2^64,
    /// where the counter wraps.
    pub open spec fn counts_follow_totals(self) -> bool {
        &&& self.queue.counts_follow_totals()
        &&& follows(self.datagrams_sent, self.total_datagrams_sent)
        &&& follows(self.datagrams_received, self.total_datagrams_received)
        &&& follows(self.stream_bytes_sent, self.total_stream_bytes_sent)
        &&& follows(self.stream_bytes_received, self.total_stream_bytes_received)
        &&& follows(self.connection_failures, self.total_connection_failures)
    }

    /// No running total is lower than in `before`.
    pub open spec fn totals_not_below(self, before: ClientView) -> bool {
        &&& before.queue.total_dropped_datagrams <= self.queue.total_dropped_datagrams
        &&& before.queue.total_dropped_trace_events <= self.queue.total_dropped_trace_events
        &&& before.total_datagrams_sent <= self.total_datagrams_sent
        &&& before.total_datagrams_received <= self.total_datagrams_received
        &&& before.total_stream_bytes_sent <= self.total_stream_bytes_sent
        &&& before.total_stream_bytes_received <= self.total_stream_bytes_received
        &&& before.total_connection_failures <= self.total_connection_failures
    }

    /// The same state with the queue replaced.
    pub open spec fn with_queue(self, q: QueueView) -> ClientView {
        ClientView { queue: q, ..self }
    }

    /// The statistics that this state reports.
    pub open spec fn stats(self) -> ClientStats {
        ClientStats {
            dropped_datagrams: self.queue.dropped_datagrams,
            queued_events: self.queue.events.len() as u64,
            active_sessions: self.sessions.len() as u64,
            active_streams: self.streams.len() as u64,
            active_draining_sessions: draining_handles(self.states).len() as u64,
            datagrams_sent: self.datagrams_sent,
            datagrams_received: self.datagrams_received,
            stream_bytes_sent: self.stream_bytes_sent,
            stream_bytes_received: self.stream_bytes_received,
            connection_failures: self.connection_failures,
            dropped_trace_events: self.queue.dropped_trace_events,
        }
    }
}

/// A counter equals its running total while the total is below 2^64.
pub open spec fn follows(counter: u64, total: nat) -> bool {
    total < 0x1_0000_0000_0000_0000 ==> counter == total
}

/// The handles issued so far are exactly those from one up to, and not
/// including, `next`, and `next` is at least one.
pub open spec fn issued_below(issued: Set<u64>, next: u64) -> bool {
    &&& next >= 1
    &&& forall|h: u64| #[trigger] issued.contains(h) <==> 1 <= h < next
}

/// The message that refuses a URL without the `https://` scheme.
pub open spec fn scheme_message() -> Seq<char> {
    seq!['W', 'e', 'b', 'T', 'r', 'a', 'n', 's', 'p', 'o', 'r', 't', ' ', 'U', 'R', 'L', 's', ' ',
    'm', 'u', 's', 't', ' ', 'u', 's', 'e', ' ', 'h', 't', 't', 'p', 's', ':', '/', '/']
}

/// The message that refuses a drain without a positive timeout.
pub open spec fn drain_timeout_message() -> Seq<char> {
    seq!['d', 'r', 'a', 'i', 'n', ' ', 't', 'i', 'm', 'e', 'o', 'u', 't', ' ', 'm', 'u', 's', 't',
    ' ', 'b', 'e', ' ', 'p', 'o', 's', 'i', 't', 'i', 'v', 'e']
}

/// `r` refuses the command as an invalid argument with `message`.
pub open spec fn invalid_argument<T>(r: Result<T, ClientError>, message: Seq<char>) -> bool {
    r matches Err(ClientError::InvalidArgument(m)) && m@ == message
}

/// The state of a client just created with room for `event_capacity`
/// events: running, with no session or stream, tracing disabled, all
/// counters at zero, and handles starting at one.
pub open spec fn initial_view(event_capacity: usize) -> ClientView {
    ClientView {
        queue: QueueView {
            events: Seq::empty(),
            capacity: if event_capacity == 0 {
                1
            } else {
                event_capacity as nat
            },
            dropped_datagrams: 0,
            dropped_trace_events: 0,
            total_dropped_datagrams: 0,
            total_dropped_trace_events: 0,
        },
        sessions: Set::empty(),
        states: Map::empty(),
        streams: Set::empty(),
        next_session: 1,
        next_stream: 1,
        issued_sessions: Set::empty(),
        session_handles_exhausted: false,
        issued_streams: Set::empty(),
        stream_handles_exhausted: false,
        stream_owners: Map::empty(),
        sending: Set::empty(),
        pending_sends: Seq::empty(),
        trace_enabled: false,
        datagrams_sent: 0,
        datagrams_received: 0,
        stream_bytes_sent: 0,
        stream_bytes_received: 0,
        connection_failures: 0,
        total_datagrams_sent: 0,
        total_datagrams_received: 0,
        total_stream_bytes_sent: 0,
        total_stream_bytes_received: 0,
        total_connection_failures: 0,
        running: true,
    }
}

/// New datagrams and streams may use `session`: its connection is
/// established and it is not draining.
pub open spec fn usable_session(c: ClientView, session: SessionHandle) -> bool {
    !c.is_draining(session) && c.sessions.contains(session)
}

/// The answer to a request to send a datagram on `session`.
pub open spec fn datagram_decision(c: ClientView, session: SessionHandle) -> Result<(), ClientError> {
    if usable_session(c, session) {
        Ok(())
    } else {
        Err(ClientError::InvalidSession)
    }
}

/// The answer to a request to open a stream on `session`.
pub open spec fn open_decision(c: ClientView, session: SessionHandle) -> Result<
    StreamHandle,
    ClientError,
> {
    if !usable_session(c, session) {
        Err(ClientError::InvalidSession)
    } else if !c.running {
        Err(ClientError::ShuttingDown)
    } else {
        Ok(c.next_stream)
    }
}

/// The state after the next stream handle is issued.
pub open spec fn stream_issued(c: ClientView) -> ClientView {
    ClientView {
        next_stream: c.next_stream.wrapping_add(1),
        issued_streams: c.issued_streams.insert(c.next_stream),
        stream_handles_exhausted: c.stream_handles_exhausted || c.next_stream == u64::MAX,
        ..c
    }
}

/// The state after a request to open a stream on `session`.
pub open spec fn open_effect(c: ClientView, session: SessionHandle) -> ClientView {
    if open_decision(c, session) is Ok {
        stream_issued(c)
    } else {
        c
    }
}

/// The answer to a request to write to `stream`.
pub open spec fn write_decision(c: ClientView, stream: StreamHandle) -> Result<(), ClientError> {
    if !c.running {
        Err(ClientError::ShuttingDown)
    } else if !c.streams.contains(stream) {
        Err(ClientError::InvalidStream)
    } else {
        Ok(())
    }
}

/// The effect of a request to connect to `url`, which answers `r`.
pub open spec fn connect_outcome(
    c0: ClientView,
    url: Seq<char>,
    r: Result<SessionHandle, ClientError>,
    c1: ClientView,
) -> bool {
    if !starts_with(url, https_scheme()) {
        invalid_argument(r, scheme_message()) && c1 == c0
    } else if !c0.running {
        r == Err::<SessionHandle, ClientError>(ClientError::ShuttingDown) && c1 == c0
    } else {
        let h = c0.next_session;
        &&& r == Ok::<SessionHandle, ClientError>(h)
        &&& trace_step(c0.queue, c1.queue, c0.trace_enabled, "connect_started"@, h, 0, 0)
        &&& c1 == ClientView {
            queue: c1.queue,
            states: c0.states.insert(h, SessionState::Connecting),
            next_session: h.wrapping_add(1),
            issued_sessions: c0.issued_sessions.insert(h),
            session_handles_exhausted: c0.session_handles_exhausted || h == u64::MAX,
            ..c0
        }
    }
}

/// The sends that wait on streams outside `gone`, in their order.
pub open spec fn sends_outside(p: Seq<PendingSend>, gone: Set<StreamHandle>) -> Seq<PendingSend> {
    p.filter(|x: PendingSend| !gone.contains(x.stream))
}

/// The state after the connection task of `session` ended: the session is
/// forgotten, and so are its streams, with the sends still running or
/// waiting on them.
pub open spec fn session_end(c: ClientView, session: SessionHandle) -> ClientView {
    let gone = owned_by(c.stream_owners, session);
    ClientView {
        sessions: c.sessions.remove(session),
        states: c.states.remove(session),
        streams: c.streams.difference(gone),
        stream_owners: c.stream_owners.remove_keys(gone),
        sending: c.sending.difference(gone),
        pending_sends: sends_outside(c.pending_sends, gone),
        ..c
    }
}

/// The session is connected, so a drain may start.
pub open spec fn is_connected(c: ClientView, session: SessionHandle) -> bool {
    c.states.contains_key(session) && c.states[session] == SessionState::Connected
}

/// The effect of a request to drain `session` for `timeout`, which
/// answers `r`: where the drain starts, the `Draining` event to deliver
/// reliably.
pub open spec fn drain_outcome(
    c0: ClientView,
    session: SessionHandle,
    timeout: Timeout,
    code: u32,
    reason: Seq<u8>,
    r: Result<DrainStart, ClientError>,
    c1: ClientView,
) -> bool {
    if timeout.spec_is_zero() {
        invalid_argument(r, drain_timeout_message()) && c1 == c0
    } else if !c0.sessions.contains(session) {
        r == Err::<DrainStart, ClientError>(ClientError::InvalidSession) && c1 == c0
    } else if !c0.running {
        r == Err::<DrainStart, ClientError>(ClientError::ShuttingDown) && c1 == c0
    } else if !is_connected(c0, session) {
        r == Err::<DrainStart, ClientError>(ClientError::InvalidSession) && c1 == c0
    } else {
        &&& r matches Ok(d) && is_bare(d.event, EventKind::Draining, session, 0)
            && d.close_after == timeout && d.code == code && d.reason@ == reason
        &&& trace_step(
            c0.queue,
            c1.queue,
            c0.trace_enabled,
            "drain_started"@,
            session,
            0,
            timeout_millis(timeout),
        )
        &&& c1 == ClientView {
            queue: c1.queue,
            states: c0.states.insert(session, SessionState::Draining),
            ..c0
        }
    }
}

/// What the runtime does once a drain has started: deliver `event`
/// reliably, and once `close_after` has passed, close the connection with
/// `code` and `reason`.
#[derive(Debug, PartialEq, Eq)]
pub struct DrainStart {
    pub event: Event,
    pub close_after: Timeout,
    pub code: u32,
    pub reason: Vec<u8>,
}

/// What the runtime is to do on the sending side of a stream.
#[derive(Clone, Debug, PartialEq, Eq)]
pub enum SendAction {
    /// Write these bytes.
    Write(Vec<u8>),
    /// Finish the sending side.
    Finish,
}

/// A send that waits for the one before it on its stream.
#[derive(Clone, Debug, PartialEq, Eq)]
pub struct PendingSend {
    pub stream: StreamHandle,
    pub action: SendAction,
}

/// Some send waits on `stream`.
pub open spec fn has_pending_send(p: Seq<PendingSend>, stream: StreamHandle) -> bool {
    exists|k: int| 0 <= k < p.len() && #[trigger] p[k].stream == stream
}

/// `k` is the earliest send that waits on `stream`.
pub open spec fn is_first_send(p: Seq<PendingSend>, stream: StreamHandle, k: int) -> bool {
    &&& 0 <= k < p.len()
    &&& p[k].stream == stream
    &&& forall|j: int| 0 <= j < k ==> #[trigger] p[j].stream != stream
}

/// The effect of asking for send `a` on `stream`, which hands back `r`: it
/// starts at once (`r` holds it) where the stream's sending side is idle,
/// and waits behind the sends before it otherwise.
pub open spec fn send_submitted(
    c0: ClientView,
    stream: StreamHandle,
    a: SendAction,
    r: Option<SendAction>,
    c1: ClientView,
) -> bool {
    if c0.sending.contains(stream) {
        &&& r is None
        &&& c1 == ClientView {
            pending_sends: c0.pending_sends.push(PendingSend { stream, action: a }),
            ..c0
        }
    } else {
        &&& r == Some(a)
        &&& c1 == ClientView { sending: c0.sending.insert(stream), ..c0 }
    }
}

/// The effect of a request to write `data` to `stream`, which answers `r`.
pub open spec fn write_outcome(
    c0: ClientView,
    stream: StreamHandle,
    data: Vec<u8>,
    r: Result<Option<SendAction>, ClientError>,
    c1: ClientView,
) -> bool {
    match write_decision(c0, stream) {
        Err(e) => r == Err::<Option<SendAction>, ClientError>(e) && c1 == c0,
        Ok(_) => r matches Ok(x) && send_submitted(c0, stream, SendAction::Write(data), x, c1),
    }
}

/// The effect of a request to finish `stream`, which answers `r`: the
/// stream can no longer be written, and the finish runs after the sends
/// already asked for on it.
pub open spec fn finish_outcome(
    c0: ClientView,
    stream: StreamHandle,
    r: Result<Option<SendAction>, ClientError>,
    c1: ClientView,
) -> bool {
    match write_decision(c0, stream) {
        Err(e) => r == Err::<Option<SendAction>, ClientError>(e) && c1 == c0,
        Ok(_) => r matches Ok(x) && send_submitted(
            ClientView { streams: c0.streams.remove(stream), ..c0 },
            stream,
            SendAction::Finish,
            x,
            c1,
        ),
    }
}

/// The effect of the end of the running send on `stream`, which hands back
/// `r`: the earliest waiting send on the stream starts, or, where none
/// waits, the stream's sending side becomes idle.
pub open spec fn next_send_outcome(
    c0: ClientView,
    stream: StreamHandle,
    r: Option<SendAction>,
    c1: ClientView,
) -> bool {
    if has_pending_send(c0.pending_sends, stream) {
        exists|k: int|
            #[trigger] is_first_send(c0.pending_sends, stream, k) && r == Some(
                c0.pending_sends[k].action,
            ) && c1 == ClientView { pending_sends: c0.pending_sends.remove(k), ..c0 }
    } else {
        r is None && c1 == ClientView { sending: c0.sending.remove(stream), ..c0 }
    }
}

/// The registry of one client.
pub struct Client {
    events: EventQueue,
    sessions: HandleSet,
    states: StateTable,
    streams: HandleSet,
    next_session: u64,
    next_stream: u64,
    issued_sessions: Ghost<Set<SessionHandle>>,
    session_handles_exhausted: Ghost<bool>,
    issued_streams: Ghost<Set<StreamHandle>>,
    stream_handles_exhausted: bool,
    stream_owners: StreamOwners,
    sending: HandleSet,
    pending_sends: Vec<PendingSend>,
    trace_enabled: bool,
    datagrams_sent: u64,
    datagrams_received: u64,
    stream_bytes_sent: u64,
    stream_bytes_received: u64,
    connection_failures: u64,
    total_datagrams_sent: Ghost<nat>,
    total_datagrams_received: Ghost<nat>,
    total_stream_bytes_sent: Ghost<nat>,
    total_stream_bytes_received: Ghost<nat>,
    total_connection_failures: Ghost<nat>,
    running: bool,
}

impl View for Client {
    type V = ClientView;

    closed spec fn view(&self) -> ClientView {
        ClientView {
            queue: self.events@,
            sessions: self.sessions@,
            states: self.states@,
            streams: self.streams@,
            next_session: self.next_session,
            next_stream: self.next_stream,
            issued_sessions: self.issued_sessions@,
            session_handles_exhausted: self.session_handles_exhausted@,
            issued_streams: self.issued_streams@,
            stream_handles_exhausted: self.stream_handles_exhausted,
            stream_owners: self.stream_owners@,
            sending: self.sending@,
            pending_sends: self.pending_sends@,
            trace_enabled: self.trace_enabled,
            datagrams_sent: self.datagrams_sent,
            datagrams_received: self.datagrams_received,
            stream_bytes_sent: self.stream_bytes_sent,
            stream_bytes_received: self.stream_bytes_received,
            connection_failures: self.connection_failures,
            total_datagrams_sent: self.total_datagrams_sent@,
            total_datagrams_received: self.total_datagrams_received@,
            total_stream_bytes_sent: self.total_stream_bytes_sent@,
            total_stream_bytes_received: self.total_stream_bytes_received@,
            total_connection_failures: self.total_connection_failures@,
            running: self.running,
        }
    }
}

impl Client {
    /// The queue and the collections are well formed.
    pub closed spec fn wf(&self) -> bool {
        &&& self.events.wf()
        &&& self.sessions.wf()
        &&& self.states.wf()
        &&& self.streams.wf()
        &&& self.sending.wf()
        &&& self@.consistent()
    }

    /// A well-formed client's bookkeeping is consistent, and its event
    /// queue holds no more events than its capacity.
    pub proof fn lemma_consistent(&self)
        requires
            self.wf(),
        ensures
            self@.consistent(),
            self@.queue.bounded(),
    {
        self.events.lemma_bounded();
    }

    /// A running client with no session or stream, tracing disabled, all
    /// counters at zero, handles starting at one, and an event queue of
    /// `event_capacity` events (one where it is zero).
    pub fn new(event_capacity: usize) -> (r: Result<Client, ClientError>)
        ensures
            r matches Ok(c) && c.wf() && c@ == initial_view(event_capacity),
    {
        let c = Client {
            events: EventQueue::new(event_capacity),
            sessions: HandleSet::new(),
            states: StateTable::new(),
            streams: HandleSet::new(),
            next_session: 1,
            next_stream: 1,
            issued_sessions: Ghost(Set::empty()),
            session_handles_exhausted: Ghost(false),
            issued_streams: Ghost(Set::empty()),
            stream_handles_exhausted: false,
            stream_owners: StreamOwners::new(),
            sending: HandleSet::new(),
            pending_sends: Vec::new(),
            trace_enabled: false,
            datagrams_sent: 0,
            datagrams_received: 0,
            stream_bytes_sent: 0,
            stream_bytes_received: 0,
            connection_failures: 0,
            total_datagrams_sent: Ghost(0),
            total_datagrams_received: Ghost(0),
            total_stream_bytes_sent: Ghost(0),
            total_stream_bytes_received: Ghost(0),
            total_connection_failures: Ghost(0),
            running: true,
        };
        assert(c@.queue.events =~= Seq::<Event>::empty());
        Ok(c)
    }

    fn trace(&mut self, name: &str, session: SessionHandle, stream: StreamHandle, value: u64)
        requires
            old(self).wf(),
        ensures
            final(self).wf(),
            final(self)@.totals_not_below(old(self)@),
            final(self)@.queue.capacity == old(self)@.queue.capacity,
            trace_step(
                old(self)@.queue,
                final(self)@.queue,
                old(self)@.trace_enabled,
                name@,
                session,
                stream,
                value,
            ),
            final(self)@ == old(self)@.with_queue(final(self)@.queue),
    {
        let enabled = self.trace_enabled;
        self.events.send_trace(enabled, name, session, stream, value);
    }

    /// Starts connecting to `url`: refused unless the URL uses `https://`,
    /// and while the client is shutting down; otherwise the next session
    /// handle is issued in the connecting state. The connection itself is
    /// made by the runtime with `options`.
    pub fn connect(&mut self, url: &str, options: ConnectOptions) -> (r: Result<
        SessionHandle,
        ClientError,
    >)
        requires
            old(self).wf(),
        ensures
            final(self).wf(),
            final(self)@.totals_not_below(old(self)@),
            final(self)@.queue.capacity == old(self)@.queue.capacity,
            connect_outcome(old(self)@, url@, r, final(self)@),
    {
        if !has_https_scheme(url) {
            let message = String::from_str("WebTransport URLs must use https://");
            proof {
                reveal_strlit("WebTransport URLs must use https://");
                assert(message@ =~= scheme_message());
            }
            return Err(ClientError::InvalidArgument(message));
        }
        if !self.running {
            return Err(ClientError::ShuttingDown);
        }
        let session = self.next_session;
        self.next_session = self.next_session.wrapping_add(1);
        proof {
            self.issued_sessions@ = self.issued_sessions@.insert(session);
            self.session_handles_exhausted@ = self.session_handles_exhausted@ || session == u64::MAX;
        }
        self.states.insert(session, SessionState::Connecting);
        self.trace("connect_started", session, 0, 0);
        Ok(session)
    }

    /// Records that the connection of `session` is established with a
    /// round-trip time of `rtt_micros`, and gives the `Connected` event to
    /// deliver reliably.
    pub fn on_connected(&mut self, session: SessionHandle, rtt_micros: u64) -> (e: Event)
        requires
            old(self).wf(),
        ensures
            final(self).wf(),
            final(self)@.totals_not_below(old(self)@),
            final(self)@.queue.capacity == old(self)@.queue.capacity,
            is_bare(e, EventKind::Connected, session, 0),
            trace_step(
                old(self)@.queue,
                final(self)@.queue,
                old(self)@.trace_enabled,
                "connected"@,
                session,
                0,
                rtt_micros,
            ),
            final(self)@ == (ClientView {
                queue: final(self)@.queue,
                sessions: old(self)@.sessions.insert(session),
                states: old(self)@.states.insert(session, SessionState::Connected),
                ..old(self)@
            }),
    {
        self.sessions.insert(session);
        self.states.insert(session, SessionState::Connected);
        proof {
            self.sessions.lemma_bounded();
        }
        self.trace("connected", session, 0, rtt_micros);
        Event::simple(EventKind::Connected, session)
    }

    /// Records that connecting `session` failed with `error`, and gives the
    /// `ConnectionFailed` event to deliver reliably.
    pub fn on_connect_failed(&mut self, session: SessionHandle, error: TransportError) -> (e: Event)
        requires
            old(self).wf(),
        ensures
            final(self).wf(),
            final(self)@.totals_not_below(old(self)@),
            final(self)@.queue.capacity == old(self)@.queue.capacity,
            reports(e, EventKind::ConnectionFailed, session, 0, error),
            trace_step(
                old(self)@.queue,
                final(self)@.queue,
                old(self)@.trace_enabled,
                "connection_failed"@,
                session,
                0,
                0,
            ),
            final(self)@ == (ClientView {
                queue: final(self)@.queue,
                connection_failures: old(self)@.connection_failures.wrapping_add(1),
                total_connection_failures: old(self)@.total_connection_failures + 1,
                ..old(self)@
            }),
    {
        self.connection_failures = self.connection_failures.wrapping_add(1);
        proof {
            self.total_connection_failures@ = self.total_connection_failures@ + 1;
        }
        self.trace("connection_failed", session, 0, 0);
        Event::failure(session, error)
    }

    /// Forgets `session` once its connection task has ended, whether it
    /// failed or its connection closed.
    pub fn on_session_ended(&mut self, session: SessionHandle) -> (retired: Vec<StreamHandle>)
        requires
            old(self).wf(),
        ensures
            final(self).wf(),
            final(self)@.totals_not_below(old(self)@),
            final(self)@.queue.capacity == old(self)@.queue.capacity,
            retired@.to_set() == owned_by(old(self)@.stream_owners, session),
            final(self)@ == session_end(old(self)@, session),
    {
        let retired = self.stream_owners.owned_by(session);
        let ghost gone = owned_by(old(self)@.stream_owners, session);
        self.drop_pending_sends_of(session);
        proof {
            assert(retired@.take(0) =~= Seq::<StreamHandle>::empty());
            let none = retired@.take(0).to_set();
            assert(none =~= Set::<StreamHandle>::empty());
            assert(old(self)@.streams.difference(none) =~= old(self)@.streams);
            assert(old(self)@.sending.difference(none) =~= old(self)@.sending);
            assert(old(self)@.stream_owners.remove_keys(none) =~= old(self)@.stream_owners);
        }
        let mut i: usize = 0;
        while i < retired.len()
            invariant
                retired@.to_set() == gone,
                gone == owned_by(old(self)@.stream_owners, session),
                i <= retired@.len(),
                self.sessions.wf(),
                self.streams.wf(),
                self.sending.wf(),
                self.states.wf(),
                self.events.wf(),
                self@ == (ClientView {
                    streams: old(self)@.streams.difference(retired@.take(i as int).to_set()),
                    stream_owners: old(self)@.stream_owners.remove_keys(
                        retired@.take(i as int).to_set(),
                    ),
                    sending: old(self)@.sending.difference(retired@.take(i as int).to_set()),
                    pending_sends: sends_outside(old(self)@.pending_sends, gone),
                    ..old(self)@
                }),
            decreases retired@.len() - i,
        {
            let stream = retired[i];
            self.streams.remove(stream);
            self.sending.remove(stream);
            self.stream_owners.remove(stream);
            proof {
                let t0 = retired@.take(i as int).to_set();
                let t1 = retired@.take(i + 1).to_set();
                assert(retired@.take(i + 1) =~= retired@.take(i as int).push(stream));
                retired@.take(i as int).lemma_push_to_set_commute(stream);
                assert(t1 =~= t0.insert(stream));
                assert(self@.streams =~= old(self)@.streams.difference(t1));
                assert(self@.sending =~= old(self)@.sending.difference(t1));
                assert(self@.stream_owners =~= old(self)@.stream_owners.remove_keys(t1));
            }
            i = i + 1;
        }
        assert(retired@.take(i as int) =~= retired@);
        self.sessions.remove(session);
        self.states.remove(session);
        proof {
            self.streams.lemma_bounded();
            old(self).streams.lemma_bounded();
            assert(self@ == session_end(old(self)@, session));
            let p0 = old(self)@.pending_sends;
            let f = |x: PendingSend| !gone.contains(x.stream);
            assert(self@.pending_sends == p0.filter(f));
            assert forall|k: int| 0 <= k < self@.pending_sends.len() implies self@.sending.contains(
                #[trigger] self@.pending_sends[k].stream,
            ) by {
                let x = self@.pending_sends[k];
                assert(p0.filter(f).contains(x));
                p0.lemma_filter_contains_rev(f, x);
                p0.filter_lemma(f);
                let j = choose|j: int| 0 <= j < p0.len() && p0[j] == x;
                assert(old(self)@.sending.contains(p0[j].stream));
                assert(f(x));
            }
        }
        retired
    }

    fn drop_pending_sends_of(&mut self, session: SessionHandle)
        requires
            old(self).wf(),
        ensures
            final(self).sessions.wf(),
            final(self).streams.wf(),
            final(self).sending.wf(),
            final(self).states.wf(),
            final(self).events.wf(),
            final(self)@ == (ClientView {
                pending_sends: sends_outside(
                    old(self)@.pending_sends,
                    owned_by(old(self)@.stream_owners, session),
                ),
                ..old(self)@
            }),
    {
        let ghost gone = owned_by(old(self)@.stream_owners, session);
        let ghost f = |x: PendingSend| !gone.contains(x.stream);
        let mut rest: Vec<PendingSend> = Vec::new();
        std::mem::swap(&mut rest, &mut self.pending_sends);
        let ghost all = rest@;
        assert(rest@.len() == rest.len());
        proof {
            reveal(Seq::filter);
            assert(all.take(0) =~= Seq::<PendingSend>::empty());
        }
        let mut kept: Vec<PendingSend> = Vec::new();
        let mut j: usize = 0;
        while rest.len() > 0
            invariant
                all.len() <= usize::MAX,
                j + rest@.len() == all.len(),
                rest@ == all.skip(j as int),
                kept@ == all.take(j as int).filter(f),
                f == (|x: PendingSend| !gone.contains(x.stream)),
                gone == owned_by(self@.stream_owners, session),
                self@.stream_owners == old(self)@.stream_owners,
            decreases rest@.len(),
        {
            let p = rest.remove(0);
            let ghost x = p;
            proof {
                assert(x == all[j as int]);
                assert(all.take(j + 1).drop_last() =~= all.take(j as int));
                assert(rest@ =~= all.skip(j + 1));
            }
            let keep = match self.stream_owners.get(p.stream) {
                Some(owner) => owner != session,
                None => true,
            };
            if keep {
                kept.push(p);
            }
            proof {
                reveal(Seq::filter);
                assert(keep == f(x));
                let t = all.take(j + 1);
                assert(t.last() == x);
                assert(t.drop_last() =~= all.take(j as int));
                assert(t.filter(f) == (if f(x) {
                    all.take(j as int).filter(f).push(x)
                } else {
                    all.take(j as int).filter(f)
                }));
                assert(kept@ =~= all.take(j + 1).filter(f));
            }
            j = j + 1;
        }
        assert(all.take(j as int) =~= all);
        self.pending_sends = kept;
        assert(self@.pending_sends == sends_outside(all, gone));
    }

    /// Records a datagram received on `session` and offers it to the queue,
    /// where it is dropped if the host has not kept up.
    pub fn on_datagram_received(&mut self, session: SessionHandle, data: Vec<u8>)
        requires
            old(self).wf(),
        ensures
            final(self).wf(),
            final(self)@.totals_not_below(old(self)@),
            final(self)@.queue.capacity == old(self)@.queue.capacity,
            exists|q: QueueView, e: Event|
                {
                    &&& trace_step(
                        old(self)@.queue,
                        q,
                        old(self)@.trace_enabled,
                        "datagram_received"@,
                        session,
                        0,
                        data@.len() as u64,
                    )
                    &&& e.kind == EventKind::Datagram
                    &&& e.session == session
                    &&& e.stream == 0
                    &&& e.code == 0
                    &&& e.data@ == data@
                    &&& e.error is None
                    &&& #[trigger] datagram_step(q, final(self)@.queue, e)
                },
            final(self)@ == (ClientView {
                queue: final(self)@.queue,
                datagrams_received: old(self)@.datagrams_received.wrapping_add(1),
                total_datagrams_received: old(self)@.total_datagrams_received + 1,
                ..old(self)@
            }),
    {
        self.datagrams_received = self.datagrams_received.wrapping_add(1);
        proof {
            self.total_datagrams_received@ = self.total_datagrams_received@ + 1;
        }
        let len = data.len() as u64;
        self.trace("datagram_received", session, 0, len);
        let ghost q = self.events@;
        let event = Event::payload(EventKind::Datagram, session, 0, data);
        let ghost e = event;
        self.events.send_datagram(event);
        assert(datagram_step(q, self@.queue, e));
    }

    fn issue_stream(&mut self) -> (s: StreamHandle)
        requires
            old(self).wf(),
        ensures
            final(self).wf(),
            final(self)@.totals_not_below(old(self)@),
            final(self)@.queue.capacity == old(self)@.queue.capacity,
            s == old(self)@.next_stream,
            final(self)@ == stream_issued(old(self)@),
    {
        let s = self.next_stream;
        self.next_stream = self.next_stream.wrapping_add(1);
        proof {
            self.issued_streams@ = self.issued_streams@.insert(s);
        }
        if s == u64::MAX {
            self.stream_handles_exhausted = true;
        }
        s
    }

    /// Records a bidirectional stream that the peer opened on `session`:
    /// it gets the next stream handle, can be written, and the event to
    /// deliver reliably announces it.
    pub fn on_incoming_bidirectional_stream(&mut self, session: SessionHandle) -> (e: Event)
        requires
            old(self).wf(),
        ensures
            final(self).wf(),
            final(self)@.totals_not_below(old(self)@),
            final(self)@.queue.capacity == old(self)@.queue.capacity,
            is_bare(e, EventKind::IncomingBidirectionalStream, session, old(self)@.next_stream),
            final(self)@ == (ClientView {
                streams: old(self)@.streams.insert(old(self)@.next_stream),
                stream_owners: old(self)@.stream_owners.insert(old(self)@.next_stream, session),
                ..stream_issued(old(self)@)
            }),
    {
        let stream = self.issue_stream();
        self.streams.insert(stream);
        self.stream_owners.insert(stream, session);
        proof {
            self.streams.lemma_bounded();
        }
        Event::bare(EventKind::IncomingBidirectionalStream, session, stream)
    }

    /// Records a unidirectional stream that the peer opened on `session`:
    /// it gets the next stream handle, and the event to deliver reliably
    /// announces it. It cannot be written.
    pub fn on_incoming_unidirectional_stream(&mut self, session: SessionHandle) -> (e: Event)
        requires
            old(self).wf(),
        ensures
            final(self).wf(),
            final(self)@.totals_not_below(old(self)@),
            final(self)@.queue.capacity == old(self)@.queue.capacity,
            is_bare(e, EventKind::IncomingUnidirectionalStream, session, old(self)@.next_stream),
            final(self)@ == stream_issued(old(self)@),
    {
        let stream = self.issue_stream();
        Event::bare(EventKind::IncomingUnidirectionalStream, session, stream)
    }

    /// Records that the connection of `session` closed for the reason
    /// described by `message`, and gives the `Closed` event to deliver
    /// reliably.
    pub fn on_session_closed(&mut self, session: SessionHandle, message: String) -> (e: Event)
        requires
            old(self).wf(),
        ensures
            final(self).wf(),
            final(self)@.totals_not_below(old(self)@),
            final(self)@.queue.capacity == old(self)@.queue.capacity,
            reports_network_failure(e, EventKind::Closed, session, 0, message@),
            trace_step(
                old(self)@.queue,
                final(self)@.queue,
                old(self)@.trace_enabled,
                "session_closed"@,
                session,
                0,
                0,
            ),
            final(self)@ == old(self)@.with_queue(final(self)@.queue),
    {
        self.trace("session_closed", session, 0, 0);
        Event::closed(session, message)
    }

    fn check_usable_session(&self, session: SessionHandle) -> (r: Result<(), ClientError>)
        requires
            self.wf(),
        ensures
            r == datagram_decision(self@, session),
    {
        if self.states.get(session) == Some(SessionState::Draining) {
            return Err(ClientError::InvalidSession);
        }
        if !self.sessions.contains(session) {
            return Err(ClientError::InvalidSession);
        }
        Ok(())
    }

    /// Whether a datagram may be sent on `session`: refused for a draining
    /// session and for one without an established connection. The runtime
    /// sends it where it may, and reports the send with `datagram_sent`.
    pub fn send_datagram(&self, session: SessionHandle) -> (r: Result<(), ClientError>)
        requires
            self.wf(),
        ensures
            r == datagram_decision(self@, session),
    {
        self.check_usable_session(session)
    }

    /// Records a datagram of `len` bytes sent on `session`.
    pub fn datagram_sent(&mut self, session: SessionHandle, len: u64)
        requires
            old(self).wf(),
        ensures
            final(self).wf(),
            final(self)@.totals_not_below(old(self)@),
            final(self)@.queue.capacity == old(self)@.queue.capacity,
            trace_step(
                old(self)@.queue,
                final(self)@.queue,
                old(self)@.trace_enabled,
                "datagram_sent"@,
                session,
                0,
                len,
            ),
            final(self)@ == (ClientView {
                queue: final(self)@.queue,
                datagrams_sent: old(self)@.datagrams_sent.wrapping_add(1),
                total_datagrams_sent: old(self)@.total_datagrams_sent + 1,
                ..old(self)@
            }),
    {
        self.datagrams_sent = self.datagrams_sent.wrapping_add(1);
        proof {
            self.total_datagrams_sent@ = self.total_datagrams_sent@ + 1;
        }
        self.trace("datagram_sent", session, 0, len);
    }

    fn open_stream(&mut self, session: SessionHandle) -> (r: Result<StreamHandle, ClientError>)
        requires
            old(self).wf(),
        ensures
            final(self).wf(),
            final(self)@.totals_not_below(old(self)@),
            final(self)@.queue.capacity == old(self)@.queue.capacity,
            r == open_decision(old(self)@, session),
            final(self)@ == open_effect(old(self)@, session),
    {
        self.check_usable_session(session)?;
        if !self.running {
            return Err(ClientError::ShuttingDown);
        }
        Ok(self.issue_stream())
    }

    /// Starts opening a bidirectional stream on `session`: refused for a
    /// draining session, for one without an established connection, and
    /// while shutting down; otherwise the next stream handle is issued and
    /// the runtime opens the stream, reporting it with `on_stream_opened`.
    pub fn open_bidirectional_stream(&mut self, session: SessionHandle) -> (r: Result<
        StreamHandle,
        ClientError,
    >)
        requires
            old(self).wf(),
        ensures
            final(self).wf(),
            final(self)@.totals_not_below(old(self)@),
            final(self)@.queue.capacity == old(self)@.queue.capacity,
            r == open_decision(old(self)@, session),
            final(self)@ == open_effect(old(self)@, session),
    {
        self.open_stream(session)
    }

    /// Starts opening a unidirectional stream on `session`, under the same
    /// rules as a bidirectional one.
    pub fn open_unidirectional_stream(&mut self, session: SessionHandle) -> (r: Result<
        StreamHandle,
        ClientError,
    >)
        requires
            old(self).wf(),
        ensures
            final(self).wf(),
            final(self)@.totals_not_below(old(self)@),
            final(self)@.queue.capacity == old(self)@.queue.capacity,
            r == open_decision(old(self)@, session),
            final(self)@ == open_effect(old(self)@, session),
    {
        self.open_stream(session)
    }

    /// Records that the runtime opened `stream` on `session`: it can be
    /// written while its session's connection is established (a stream
    /// whose session already ended stays unwritable, as the session's other
    /// streams became), and the `StreamOpened` event to deliver reliably
    /// announces it.
    pub fn on_stream_opened(&mut self, session: SessionHandle, stream: StreamHandle) -> (e: Event)
        requires
            old(self).wf(),
            old(self)@.issued_streams.contains(stream),
        ensures
            final(self).wf(),
            final(self)@.totals_not_below(old(self)@),
            final(self)@.queue.capacity == old(self)@.queue.capacity,
            is_bare(e, EventKind::StreamOpened, session, stream),
            final(self)@ == (if old(self)@.sessions.contains(session) {
                ClientView {
                    streams: old(self)@.streams.insert(stream),
                    stream_owners: old(self)@.stream_owners.insert(stream, session),
                    ..old(self)@
                }
            } else {
                old(self)@
            }),
    {
        if self.sessions.contains(session) {
            self.streams.insert(stream);
            self.stream_owners.insert(stream, session);
            proof {
                self.streams.lemma_bounded();
            }
        }
        Event::bare(EventKind::StreamOpened, session, stream)
    }

    /// Whether `stream` is a handle that this client issued: exactly so
    /// while the stream handle counter has not wrapped, and for every handle
    /// but zero after it has (when every such handle has been issued).
    pub fn is_issued_stream(&self, stream: StreamHandle) -> (b: bool)
        requires
            self.wf(),
        ensures
            b ==> self@.issued_streams.contains(stream),
            !self@.stream_handles_exhausted ==> b == self@.issued_streams.contains(stream),
            stream != 0 ==> b == self@.issued_streams.contains(stream),
    {
        if self.stream_handles_exhausted {
            stream != 0
        } else {
            1 <= stream && stream < self.next_stream
        }
    }

    fn check_writable(&self, stream: StreamHandle) -> (r: Result<(), ClientError>)
        requires
            self.wf(),
        ensures
            r == write_decision(self@, stream),
    {
        if !self.running {
            return Err(ClientError::ShuttingDown);
        }
        if !self.streams.contains(stream) {
            return Err(ClientError::InvalidStream);
        }
        Ok(())
    }

    fn submit_send(&mut self, stream: StreamHandle, action: SendAction) -> (r: Option<SendAction>)
        requires
            old(self).wf(),
            old(self)@.stream_owners.contains_key(stream),
            old(self)@.streams.subset_of(old(self)@.issued_streams),
        ensures
            final(self).wf(),
            final(self)@.totals_not_below(old(self)@),
            final(self)@.queue.capacity == old(self)@.queue.capacity,
            send_submitted(old(self)@, stream, action, r, final(self)@),
    {
        if self.sending.contains(stream) {
            self.pending_sends.push(PendingSend { stream, action });
            None
        } else {
            self.sending.insert(stream);
            Some(action)
        }
    }

    /// Asks to write `data` to `stream`: refused while shutting down and for
    /// a stream that cannot be written. Writes to one stream run one at a
    /// time, in the order they were asked for: the write is handed back to
    /// run now where nothing runs on the stream, and waits otherwise. The
    /// runtime reports the completed write with `on_stream_write_completed`
    /// and then asks `next_send` for what follows.
    pub fn write_stream(&mut self, stream: StreamHandle, data: Vec<u8>) -> (r: Result<
        Option<SendAction>,
        ClientError,
    >)
        requires
            old(self).wf(),
        ensures
            final(self).wf(),
            final(self)@.totals_not_below(old(self)@),
            final(self)@.queue.capacity == old(self)@.queue.capacity,
            write_outcome(old(self)@, stream, data, r, final(self)@),
    {
        match self.check_writable(stream) {
            Err(e) => Err(e),
            Ok(()) => Ok(self.submit_send(stream, SendAction::Write(data))),
        }
    }

    /// Ends the running send on `stream` and hands back the earliest send
    /// that waits on it, if any; otherwise the stream's sending side becomes
    /// idle.
    pub fn next_send(&mut self, stream: StreamHandle) -> (r: Option<SendAction>)
        requires
            old(self).wf(),
        ensures
            final(self).wf(),
            final(self)@.totals_not_below(old(self)@),
            final(self)@.queue.capacity == old(self)@.queue.capacity,
            next_send_outcome(old(self)@, stream, r, final(self)@),
    {
        let mut i: usize = 0;
        while i < self.pending_sends.len()
            invariant
                self.wf(),
                self@ == old(self)@,
                i <= self.pending_sends@.len(),
                forall|j: int| 0 <= j < i ==> #[trigger] self.pending_sends@[j].stream != stream,
            decreases self.pending_sends@.len() - i,
        {
            if self.pending_sends[i].stream == stream {
                let ghost before = self@;
                let p = self.pending_sends.remove(i);
                proof {
                    assert(is_first_send(before.pending_sends, stream, i as int));
                    assert(self@ == (ClientView { pending_sends: before.pending_sends.remove(i as int), ..before }));
                    assert forall|k: int| 0 <= k < self.pending_sends@.len() implies self@.sending.contains(
                        #[trigger] self.pending_sends@[k].stream,
                    ) by {
                        if k < i {
                            assert(self.pending_sends@[k] == before.pending_sends[k]);
                        } else {
                            assert(self.pending_sends@[k] == before.pending_sends[k + 1]);
                        }
                    }
                }
                return Some(p.action);
            }
            i = i + 1;
        }
        assert(!has_pending_send(self@.pending_sends, stream));
        self.sending.remove(stream);
        None
    }

    /// Records a completed write of `size` bytes to `stream`.
    pub fn on_stream_write_completed(&mut self, stream: StreamHandle, size: u64)
        requires
            old(self).wf(),
        ensures
            final(self).wf(),
            final(self)@.totals_not_below(old(self)@),
            final(self)@.queue.capacity == old(self)@.queue.capacity,
            trace_step(
                old(self)@.queue,
                final(self)@.queue,
                old(self)@.trace_enabled,
                "stream_write_completed"@,
                0,
                stream,
                size,
            ),
            final(self)@ == (ClientView {
                queue: final(self)@.queue,
                stream_bytes_sent: old(self)@.stream_bytes_sent.wrapping_add(size),
                total_stream_bytes_sent: old(self)@.total_stream_bytes_sent + size as nat,
                ..old(self)@
            }),
    {
        self.stream_bytes_sent = self.stream_bytes_sent.wrapping_add(size);
        proof {
            self.total_stream_bytes_sent@ = self.total_stream_bytes_sent@ + size as nat;
        }
        self.trace("stream_write_completed", 0, stream, size);
    }

    /// Finishes the sending side of `stream`: refused while shutting down
    /// and for a stream that cannot be written; otherwise the stream can no
    /// longer be written, and the finish runs after the writes already asked
    /// for on it (handed back to run now where nothing runs on the stream).
    pub fn finish_stream(&mut self, stream: StreamHandle) -> (r: Result<
        Option<SendAction>,
        ClientError,
    >)
        requires
            old(self).wf(),
        ensures
            final(self).wf(),
            final(self)@.totals_not_below(old(self)@),
            final(self)@.queue.capacity == old(self)@.queue.capacity,
            finish_outcome(old(self)@, stream, r, final(self)@),
    {
        if !self.running {
            return Err(ClientError::ShuttingDown);
        }
        if self.streams.remove(stream) {
            Ok(self.submit_send(stream, SendAction::Finish))
        } else {
            assert(self.streams@ =~= old(self).streams@);
            Err(ClientError::InvalidStream)
        }
    }

    /// Records data of `data` bytes read from `stream` of `session`, and
    /// gives the `StreamData` event to deliver reliably.
    pub fn on_stream_data(&mut self, session: SessionHandle, stream: StreamHandle, data: Vec<u8>) -> (e: Event)
        requires
            old(self).wf(),
        ensures
            final(self).wf(),
            final(self)@.totals_not_below(old(self)@),
            final(self)@.queue.capacity == old(self)@.queue.capacity,
            e.kind == EventKind::StreamData,
            e.session == session,
            e.stream == stream,
            e.code == 0,
            e.data@ == data@,
            e.error is None,
            trace_step(
                old(self)@.queue,
                final(self)@.queue,
                old(self)@.trace_enabled,
                "stream_data_received"@,
                session,
                stream,
                data@.len() as u64,
            ),
            final(self)@ == (ClientView {
                queue: final(self)@.queue,
                stream_bytes_received: old(self)@.stream_bytes_received.wrapping_add(
                    data@.len() as u64,
                ),
                total_stream_bytes_received: old(self)@.total_stream_bytes_received + data@.len(),
                ..old(self)@
            }),
    {
        let size = data.len() as u64;
        self.stream_bytes_received = self.stream_bytes_received.wrapping_add(size);
        proof {
            self.total_stream_bytes_received@ = self.total_stream_bytes_received@ + size as nat;
        }
        self.trace("stream_data_received", session, stream, size);
        Event::payload(EventKind::StreamData, session, stream, data)
    }

    /// Records that the peer finished its sending side of `stream` of
    /// `session`, and gives the `StreamFinished` event to deliver reliably.
    pub fn on_stream_finished(&self, session: SessionHandle, stream: StreamHandle) -> (e: Event)
        ensures
            is_bare(e, EventKind::StreamFinished, session, stream),
    {
        Event::bare(EventKind::StreamFinished, session, stream)
    }

    /// Requests that `session` close with `code`: refused for a session
    /// without an established connection. The runtime closes the
    /// connection.
    pub fn close(&mut self, session: SessionHandle, code: u32) -> (r: Result<(), ClientError>)
        requires
            old(self).wf(),
        ensures
            final(self).wf(),
            final(self)@.totals_not_below(old(self)@),
            final(self)@.queue.capacity == old(self)@.queue.capacity,
            !old(self)@.sessions.contains(session) ==> r == Err::<(), ClientError>(
                ClientError::InvalidSession,
            ) && final(self)@ == old(self)@,
            old(self)@.sessions.contains(session) ==> r is Ok && trace_step(
                old(self)@.queue,
                final(self)@.queue,
                old(self)@.trace_enabled,
                "session_close_requested"@,
                session,
                0,
                code as u64,
            ) && final(self)@ == old(self)@.with_queue(final(self)@.queue),
    {
        if !self.sessions.contains(session) {
            return Err(ClientError::InvalidSession);
        }
        self.trace("session_close_requested", session, 0, code as u64);
        Ok(())
    }

    /// Starts draining `session` for `timeout`: refused
    /// without a positive timeout, for a session without an established
    /// connection, while shutting down, and unless the session is connected
    /// (so a second drain is refused). A draining session takes no new
    /// datagram or stream. Handed back are the `Draining` event to deliver
    /// reliably and the close that the runtime makes once `timeout` has
    /// passed, with `code` and `reason`.
    pub fn drain(
        &mut self,
        session: SessionHandle,
        timeout: Timeout,
        code: u32,
        reason: Vec<u8>,
    ) -> (r: Result<DrainStart, ClientError>)
        requires
            old(self).wf(),
        ensures
            final(self).wf(),
            final(self)@.totals_not_below(old(self)@),
            final(self)@.queue.capacity == old(self)@.queue.capacity,
            drain_outcome(old(self)@, session, timeout, code, reason@, r, final(self)@),
    {
        if timeout.is_zero() {
            let message = String::from_str("drain timeout must be positive");
            proof {
                reveal_strlit("drain timeout must be positive");
                assert(message@ =~= drain_timeout_message());
            }
            return Err(ClientError::InvalidArgument(message));
        }
        if !self.sessions.contains(session) {
            return Err(ClientError::InvalidSession);
        }
        if !self.running {
            return Err(ClientError::ShuttingDown);
        }
        if self.states.get(session) != Some(SessionState::Connected) {
            return Err(ClientError::InvalidSession);
        }
        self.states.insert(session, SessionState::Draining);
        let millis = timeout.millis();
        self.trace("drain_started", session, 0, millis);
        Ok(DrainStart { event: Event::simple(EventKind::Draining, session), close_after: timeout, code, reason })
    }

    /// Records that the drain deadline of `session` was reached and its
    /// connection closed with `code`.
    pub fn on_drain_deadline(&mut self, session: SessionHandle, code: u32)
        requires
            old(self).wf(),
        ensures
            final(self).wf(),
            final(self)@.totals_not_below(old(self)@),
            final(self)@.queue.capacity == old(self)@.queue.capacity,
            trace_step(
                old(self)@.queue,
                final(self)@.queue,
                old(self)@.trace_enabled,
                "drain_deadline_reached"@,
                session,
                0,
                code as u64,
            ),
            final(self)@ == old(self)@.with_queue(final(self)@.queue),
    {
        self.trace("drain_deadline_reached", session, 0, code as u64);
    }

    /// Turns trace events on or off.
    pub fn set_trace_enabled(&mut self, enabled: bool)
        requires
            old(self).wf(),
        ensures
            final(self).wf(),
            final(self)@.totals_not_below(old(self)@),
            final(self)@.queue.capacity == old(self)@.queue.capacity,
            final(self)@ == (ClientView { trace_enabled: enabled, ..old(self)@ }),
    {
        self.trace_enabled = enabled;
    }

    /// The state of `session`, if the client knows it.
    pub fn session_state(&self, session: SessionHandle) -> (r: Option<SessionState>)
        requires
            self.wf(),
        ensures
            r == (if self@.states.contains_key(session) {
                Some(self@.states[session])
            } else {
                None::<SessionState>
            }),
    {
        self.states.get(session)
    }

    /// The diagnostics of `session`, with the path values `path` of its
    /// connection where it has one (zeros otherwise): refused for a session
    /// that the client does not know.
    pub fn session_diagnostics(&self, session: SessionHandle, path: Option<PathInfo>) -> (r: Result<
        SessionDiagnostics,
        ClientError,
    >)
        requires
            self.wf(),
        ensures
            !self@.states.contains_key(session) ==> r == Err::<SessionDiagnostics, ClientError>(
                ClientError::InvalidSession,
            ),
            self@.states.contains_key(session) ==> r == Ok::<SessionDiagnostics, ClientError>(
                SessionDiagnostics {
                    state: self@.states[session],
                    stable_id: match path {
                        Some(p) => p.stable_id,
                        None => 0,
                    },
                    rtt_micros: match path {
                        Some(p) => p.rtt_micros,
                        None => 0,
                    },
                    max_datagram_size: match path {
                        Some(p) => p.max_datagram_size,
                        None => 0,
                    },
                },
            ),
    {
        let state = match self.states.get(session) {
            Some(s) => s,
            None => {
                return Err(ClientError::InvalidSession);
            },
        };
        let diagnostics = match path {
            Some(p) => SessionDiagnostics {
                state,
                stable_id: p.stable_id,
                rtt_micros: p.rtt_micros,
                max_datagram_size: p.max_datagram_size,
            },
            None => SessionDiagnostics { state, stable_id: 0, rtt_micros: 0, max_datagram_size: 0 },
        };
        Ok(diagnostics)
    }

    /// Offers an event that must not be lost: appended where there is room
    /// and handed back otherwise, to be offered again after the host polls.
    pub fn try_send_reliable(&mut self, event: Event) -> (r: Result<(), Event>)
        requires
            old(self).wf(),
        ensures
            final(self).wf(),
            final(self)@.totals_not_below(old(self)@),
            final(self)@.queue.capacity == old(self)@.queue.capacity,
            old(self)@.queue.has_room() ==> r is Ok && final(self)@ == old(self)@.with_queue(
                old(self)@.queue.pushed(event),
            ),
            !old(self)@.queue.has_room() ==> r == Err::<(), Event>(event) && final(self)@ == old(
                self,
            )@,
    {
        self.events.try_send_reliable(event)
    }

    /// Takes the oldest pending event, if any.
    pub fn poll(&mut self) -> (r: Option<Event>)
        requires
            old(self).wf(),
        ensures
            final(self).wf(),
            final(self)@.totals_not_below(old(self)@),
            final(self)@.queue.capacity == old(self)@.queue.capacity,
            r == polled(old(self)@.queue),
            final(self)@ == old(self)@.with_queue(after_poll(old(self)@.queue)),
    {
        self.events.poll()
    }

    /// A snapshot of the counters.
    pub fn stats(&self) -> (s: ClientStats)
        requires
            self.wf(),
        ensures
            s == self@.stats(),
    {
        let draining = self.states.count_draining();
        ClientStats {
            dropped_datagrams: self.events.dropped_datagrams(),
            queued_events: self.events.queued(),
            active_sessions: self.sessions.len() as u64,
            active_streams: self.streams.len() as u64,
            active_draining_sessions: draining,
            datagrams_sent: self.datagrams_sent,
            datagrams_received: self.datagrams_received,
            stream_bytes_sent: self.stream_bytes_sent,
            stream_bytes_received: self.stream_bytes_received,
            connection_failures: self.connection_failures,
            dropped_trace_events: self.events.dropped_trace_events(),
        }
    }

    /// Whether the client still accepts commands that need its runtime.
    pub fn is_running(&self) -> (b: bool)
        ensures
            b == self@.running,
    {
        self.running
    }

    /// Shuts the client down: from now on the commands that need the
    /// runtime are refused, and the sessions with an established connection,
    /// each given once, are to be closed.
    pub fn shutdown(&mut self) -> (to_close: Vec<SessionHandle>)
        requires
            old(self).wf(),
        ensures
            final(self).wf(),
            final(self)@.totals_not_below(old(self)@),
            final(self)@.queue.capacity == old(self)@.queue.capacity,
            to_close@.no_duplicates(),
            to_close@.to_set() == old(self)@.sessions,
            final(self)@ == (ClientView { running: false, ..old(self)@ }),
    {
        self.running = false;
        self.sessions.to_vec()
    }
}

} // verus!
