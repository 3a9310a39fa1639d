//! Properties of the library that span several operations.

use vstd::prelude::*;
use crate::client::{
    connect_outcome, datagram_decision, drain_outcome, finish_outcome, initial_view, open_decision,
    open_effect, write_decision, write_outcome, ClientView, DrainStart, SendAction, is_connected, send_submitted,
    next_send_outcome, is_first_send, has_pending_send, PendingSend, stream_issued, session_end,
};
use crate::devserver::{finish_args, parse_from, ArgsErrorModel, ParseModel, ServerArgsModel};
use crate::error::{category_code, classify, ClientError, ErrorCategory};
use crate::event::{kind_code, Event, EventKind, SessionHandle, StreamHandle};
use crate::options::{hash_chunks, state_code, zero_stats, ClientStats, SessionState, Timeout};
use crate::queue::{after_poll, after_polls, datagram_step, polled, trace_step, QueueView};
use crate::registry::{draining_handles, owned_by};
use crate::text::{contains_bytes, https_scheme, starts_with, to_ascii_lowercase, utf8};
use crate::ffi::{status_code, GwtStatus};

verus! {

/// Session handles increase: of two successful connects with no other
/// session issued in between, the later one gets the larger handle, unless
/// the 64-bit counter wraps.
pub proof fn lemma_session_handles_increase(
    c0: ClientView,
    url1: Seq<char>,
    r1: Result<SessionHandle, ClientError>,
    c1: ClientView,
    c2: ClientView,
    url2: Seq<char>,
    r2: Result<SessionHandle, ClientError>,
    c3: ClientView,
)
    requires
        connect_outcome(c0, url1, r1, c1),
        c2.next_session == c1.next_session,
        connect_outcome(c2, url2, r2, c3),
        r1 is Ok,
        r2 is Ok,
        c0.next_session < u64::MAX,
    ensures
        r2->Ok_0 > r1->Ok_0,
        r2->Ok_0 == r1->Ok_0 + 1,
{
}

/// Handles are never reused while the 64-bit counters last: the handle that
/// the next connect issues is larger than every session handle issued
/// before it, and the handle that the next opened or incoming stream takes
/// is larger than every stream handle issued before it.
pub proof fn lemma_next_handles_are_fresh(c: ClientView)
    requires
        c.consistent(),
    ensures
        !c.session_handles_exhausted ==> !c.issued_sessions.contains(c.next_session),
        !c.session_handles_exhausted ==> forall|h: SessionHandle| #[trigger]
            c.issued_sessions.contains(h) ==> h < c.next_session,
        !c.stream_handles_exhausted ==> !c.issued_streams.contains(c.next_stream),
        !c.stream_handles_exhausted ==> forall|h: StreamHandle| #[trigger]
            c.issued_streams.contains(h) ==> h < c.next_stream,
{
}

/// A successful connect issues a session handle that no earlier connect
/// issued, and records it as issued, while the 64-bit counter lasts.
pub proof fn lemma_connect_issues_fresh_handle(
    c0: ClientView,
    url: Seq<char>,
    r: Result<SessionHandle, ClientError>,
    c1: ClientView,
)
    requires
        c0.consistent(),
        !c0.session_handles_exhausted,
        connect_outcome(c0, url, r, c1),
        r is Ok,
    ensures
        !c0.issued_sessions.contains(r->Ok_0),
        c1.issued_sessions == c0.issued_sessions.insert(r->Ok_0),
        c1.consistent(),
{
}

/// Stream handles increase: of two streams opened with no other stream
/// issued in between, the later one gets the larger handle, unless the
/// 64-bit counter wraps.
pub proof fn lemma_stream_handles_increase(
    c0: ClientView,
    s1: SessionHandle,
    c1: ClientView,
    s2: SessionHandle,
)
    requires
        open_decision(c0, s1) is Ok,
        c1.next_stream == open_effect(c0, s1).next_stream,
        open_decision(c1, s2) is Ok,
        c0.next_stream < u64::MAX,
    ensures
        open_decision(c1, s2)->Ok_0 > open_decision(c0, s1)->Ok_0,
{
}

/// A session that started draining takes no new datagram and no new
/// stream, and a second drain of it is refused, whatever its timeout.
pub proof fn lemma_draining_session_refuses_new_work(
    c0: ClientView,
    session: SessionHandle,
    timeout: Timeout,
    code: u32,
    reason: Seq<u8>,
    r: Result<DrainStart, ClientError>,
    c1: ClientView,
)
    requires
        drain_outcome(c0, session, timeout, code, reason, r, c1),
        r is Ok,
    ensures
        c1.is_draining(session),
        datagram_decision(c1, session) == Err::<(), ClientError>(ClientError::InvalidSession),
        open_decision(c1, session) == Err::<StreamHandle, ClientError>(ClientError::InvalidSession),
        forall|t: Timeout, k: u32, why: Seq<u8>, r2: Result<DrainStart, ClientError>, c2: ClientView|
            #[trigger] drain_outcome(c1, session, t, k, why, r2, c2) ==> r2 is Err && c2 == c1,
{
    assert(c1.states[session] == SessionState::Draining);
}

/// While the client runs, a drain with a positive timeout is refused as an
/// invalid session exactly when the session has no established connection
/// or is not in the connected state (so also when it already drains); a
/// refused drain changes nothing, and an accepted one leaves the session
/// draining with its close scheduled as asked.
pub proof fn lemma_drain_refusal_rule(
    c0: ClientView,
    session: SessionHandle,
    timeout: Timeout,
    code: u32,
    reason: Seq<u8>,
    r: Result<DrainStart, ClientError>,
    c1: ClientView,
)
    requires
        drain_outcome(c0, session, timeout, code, reason, r, c1),
        c0.running,
        !timeout.spec_is_zero(),
    ensures
        (r == Err::<DrainStart, ClientError>(ClientError::InvalidSession)) <==> (
        !c0.sessions.contains(session) || !is_connected(c0, session)),
        r is Err ==> c1 == c0,
        r matches Ok(d) ==> c1.is_draining(session) && d.close_after == timeout && d.code == code
            && d.reason@ == reason,
{
}

/// Once the client shuts down, every command that needs the runtime is
/// refused: connecting (for a URL with the right scheme, as shutting down),
/// opening streams, writing, finishing, and draining (for a connected
/// session, as shutting down).
pub proof fn lemma_shutdown_refuses_runtime_commands(c0: ClientView)
    ensures
        ({
            let c1 = ClientView { running: false, ..c0 };
            &&& forall|url: Seq<char>, r: Result<SessionHandle, ClientError>, c2: ClientView|
                #[trigger] connect_outcome(c1, url, r, c2) && starts_with(url, https_scheme()) ==> r
                    == Err::<SessionHandle, ClientError>(ClientError::ShuttingDown) && c2 == c1
            &&& forall|s: SessionHandle| #[trigger] open_decision(c1, s) is Err
            &&& forall|st: StreamHandle| #[trigger] write_decision(c1, st) == Err::<(), ClientError>(
                ClientError::ShuttingDown,
            )
            &&& forall|st: StreamHandle, d: Vec<u8>, r: Result<Option<SendAction>, ClientError>, c2: ClientView|
                #[trigger] write_outcome(c1, st, d, r, c2) ==> r == Err::<Option<SendAction>, ClientError>(
                    ClientError::ShuttingDown,
                ) && c2 == c1
            &&& forall|st: StreamHandle, r: Result<Option<SendAction>, ClientError>, c2: ClientView|
                #[trigger] finish_outcome(c1, st, r, c2) ==> r == Err::<Option<SendAction>, ClientError>(
                    ClientError::ShuttingDown,
                ) && c2 == c1
            &&& forall|
                s: SessionHandle,
                t: Timeout,
                k: u32,
                why: Seq<u8>,
                r: Result<DrainStart, ClientError>,
                c2: ClientView,
            | #[trigger] drain_outcome(c1, s, t, k, why, r, c2) ==> r is Err && c2 == c1
        }),
{
}

/// A stream whose sending side was finished can no longer be written.
pub proof fn lemma_finished_stream_refuses_writes(
    c0: ClientView,
    stream: StreamHandle,
    r: Result<Option<SendAction>, ClientError>,
    c1: ClientView,
)
    requires
        finish_outcome(c0, stream, r, c1),
        r is Ok,
    ensures
        write_decision(c1, stream) == Err::<(), ClientError>(ClientError::InvalidStream),
{
}

/// Every active session has a state, and every draining session is an
/// active one, so the statistics never count more draining sessions than
/// active sessions.
pub proof fn lemma_draining_sessions_are_active(c: ClientView)
    requires
        c.consistent(),
    ensures
        forall|s: SessionHandle| #[trigger] c.sessions.contains(s) ==> c.states.contains_key(s),
        forall|s: SessionHandle| c.is_draining(s) ==> #[trigger] c.sessions.contains(s),
        c.stats().active_draining_sessions <= c.stats().active_sessions,
{
    vstd::set_lib::lemma_len_subset(draining_handles(c.states), c.sessions);
}

/// Sends on one stream run one at a time and in the order they were asked
/// for: a send starts at once only where nothing runs on its stream; one
/// asked for while the stream is busy waits behind every send already
/// waiting on that stream, so the end of the running send hands it out
/// only after them.
pub proof fn lemma_sends_keep_their_order(
    c0: ClientView,
    stream: StreamHandle,
    a: SendAction,
    r: Option<SendAction>,
    c1: ClientView,
)
    requires
        c0.consistent(),
        c0.stream_owners.contains_key(stream),
        send_submitted(c0, stream, a, r, c1),
    ensures
        c1.consistent(),
        c1.sending.contains(stream),
        r is Some ==> !c0.sending.contains(stream) && c1.pending_sends == c0.pending_sends,
        r is None ==> c1.pending_sends.last() == (PendingSend { stream, action: a }),
        r is None ==> forall|k: int|
            #[trigger] is_first_send(c1.pending_sends, stream, k) ==> (k == c1.pending_sends.len()
                - 1 <==> !has_pending_send(c0.pending_sends, stream)),
{
    if r is None {
        assert forall|k: int| #[trigger] is_first_send(c1.pending_sends, stream, k) implies (k
            == c1.pending_sends.len() - 1 <==> !has_pending_send(c0.pending_sends, stream)) by {
            if has_pending_send(c0.pending_sends, stream) {
                let j = choose|j: int| 0 <= j < c0.pending_sends.len() && #[trigger] c0.pending_sends[j].stream == stream;
                assert(c1.pending_sends[j].stream == stream);
            } else {
                if k < c1.pending_sends.len() - 1 {
                    assert(c0.pending_sends[k].stream == stream);
                }
            }
        }
    }
}

/// The sends that wait on `stream`, in the order they were asked for.
pub open spec fn sends_on(p: Seq<PendingSend>, stream: StreamHandle) -> Seq<SendAction> {
    p.filter(|x: PendingSend| x.stream == stream).map_values(|x: PendingSend| x.action)
}

proof fn lemma_filter_single(x: PendingSend, pred: spec_fn(PendingSend) -> bool)
    ensures
        seq![x].filter(pred) == (if pred(x) {
            seq![x]
        } else {
            Seq::<PendingSend>::empty()
        }),
{
    reveal_with_fuel(Seq::filter, 2);
    assert(seq![x].drop_last() =~= Seq::<PendingSend>::empty());
}

proof fn lemma_filter_none(p: Seq<PendingSend>, pred: spec_fn(PendingSend) -> bool)
    requires
        forall|i: int| 0 <= i < p.len() ==> !pred(#[trigger] p[i]),
    ensures
        p.filter(pred) == Seq::<PendingSend>::empty(),
{
    p.filter_lemma(pred);
    if p.filter(pred).len() > 0 {
        let x = p.filter(pred)[0];
        assert(p.filter(pred).contains(x));
        p.lemma_filter_contains_rev(pred, x);
    }
    assert(p.filter(pred) =~= Seq::<PendingSend>::empty());
}

/// Each stream's sends form a first-in first-out queue. A send asked for
/// on a busy stream joins the end of that stream's waiting sends, and one
/// asked for on an idle stream starts at once with none waiting; the other
/// streams' waiting sends are untouched. So sends on a stream are handed
/// out exactly in the order they were asked for: a write asked for before
/// another is written first, and a finish comes after every write asked
/// for before it.
pub proof fn lemma_asked_sends_join_their_stream_queue(
    c0: ClientView,
    stream: StreamHandle,
    a: SendAction,
    r: Option<SendAction>,
    c1: ClientView,
)
    requires
        c0.consistent(),
        send_submitted(c0, stream, a, r, c1),
    ensures
        r is None ==> sends_on(c1.pending_sends, stream) == sends_on(c0.pending_sends, stream).push(a),
        r is Some ==> sends_on(c0.pending_sends, stream).len() == 0 && sends_on(c1.pending_sends, stream)
            == sends_on(c0.pending_sends, stream),
        forall|t: StreamHandle| t != stream ==> #[trigger] sends_on(c1.pending_sends, t) == sends_on(
            c0.pending_sends,
            t,
        ),
{
    let p0 = c0.pending_sends;
    if r is None {
        let x = PendingSend { stream, action: a };
        assert(c1.pending_sends =~= p0 + seq![x]);
        assert forall|t: StreamHandle| #[trigger] sends_on(c1.pending_sends, t) == (if t == stream {
            sends_on(p0, t).push(a)
        } else {
            sends_on(p0, t)
        }) by {
            let pred = |y: PendingSend| y.stream == t;
            Seq::filter_distributes_over_add(p0, seq![x], pred);
            lemma_filter_single(x, pred);
            assert(sends_on(c1.pending_sends, t) =~= (if t == stream {
                sends_on(p0, t).push(a)
            } else {
                sends_on(p0, t)
            }));
        }
    } else {
        let pred = |y: PendingSend| y.stream == stream;
        assert forall|i: int| 0 <= i < p0.len() implies !pred(#[trigger] p0[i]) by {
            assert(c0.sending.contains(p0[i].stream));
        }
        lemma_filter_none(p0, pred);
    }
}

/// The end of the running send on a stream takes the first of that
/// stream's waiting sends, and leaves the other streams' waiting sends as
/// they were; where none waits, nothing is handed out.
pub proof fn lemma_next_send_takes_the_stream_queue_head(
    c0: ClientView,
    stream: StreamHandle,
    r: Option<SendAction>,
    c1: ClientView,
)
    requires
        next_send_outcome(c0, stream, r, c1),
    ensures
        r is None <==> sends_on(c0.pending_sends, stream).len() == 0,
        r matches Some(x) ==> x == sends_on(c0.pending_sends, stream)[0] && sends_on(
            c1.pending_sends,
            stream,
        ) == sends_on(c0.pending_sends, stream).drop_first(),
        forall|t: StreamHandle| t != stream ==> #[trigger] sends_on(c1.pending_sends, t) == sends_on(
            c0.pending_sends,
            t,
        ),
{
    let p0 = c0.pending_sends;
    let ps = |y: PendingSend| y.stream == stream;
    if has_pending_send(p0, stream) {
        let k = choose|k: int|
            #[trigger] is_first_send(p0, stream, k) && r == Some(p0[k].action) && c1 == ClientView {
                pending_sends: p0.remove(k),
                ..c0
            };
        let x = p0[k];
        let before = p0.take(k);
        let after = p0.skip(k + 1);
        assert(p0 =~= before + seq![x] + after);
        assert(c1.pending_sends =~= before + after);
        assert forall|t: StreamHandle| #[trigger] sends_on(c1.pending_sends, t) == (if t == stream {
            sends_on(p0, t).drop_first()
        } else {
            sends_on(p0, t)
        }) by {
            let pred = |y: PendingSend| y.stream == t;
            Seq::filter_distributes_over_add(before + seq![x], after, pred);
            Seq::filter_distributes_over_add(before, seq![x], pred);
            Seq::filter_distributes_over_add(before, after, pred);
            lemma_filter_single(x, pred);
            if t == stream {
                assert forall|i: int| 0 <= i < before.len() implies !pred(#[trigger] before[i]) by {
                    assert(p0[i].stream != stream);
                }
                lemma_filter_none(before, pred);
            }
            assert(sends_on(c1.pending_sends, t) =~= (if t == stream {
                sends_on(p0, t).drop_first()
            } else {
                sends_on(p0, t)
            }));
        }
        let pred = |y: PendingSend| y.stream == stream;
        Seq::filter_distributes_over_add(before + seq![x], after, pred);
        Seq::filter_distributes_over_add(before, seq![x], pred);
        lemma_filter_single(x, pred);
        assert forall|i: int| 0 <= i < before.len() implies !pred(#[trigger] before[i]) by {
            assert(p0[i].stream != stream);
        }
        lemma_filter_none(before, pred);
        assert(sends_on(p0, stream)[0] == x.action);
    } else {
        assert forall|i: int| 0 <= i < p0.len() implies !ps(#[trigger] p0[i]) by {
            if p0[i].stream == stream {
                assert(has_pending_send(p0, stream));
            }
        }
        lemma_filter_none(p0, ps);
        assert(c1.pending_sends == p0);
    }
}

/// The end of the running send on a stream hands out the earliest send
/// waiting on that stream, and leaves the stream idle only where none
/// waits; the bookkeeping stays consistent.
pub proof fn lemma_next_send_takes_the_earliest(
    c0: ClientView,
    stream: StreamHandle,
    r: Option<SendAction>,
    c1: ClientView,
)
    requires
        c0.consistent(),
        next_send_outcome(c0, stream, r, c1),
    ensures
        c1.consistent(),
        r is None <==> !has_pending_send(c0.pending_sends, stream),
        r is None ==> !c1.sending.contains(stream),
        r matches Some(x) ==> exists|k: int|
            #[trigger] is_first_send(c0.pending_sends, stream, k) && x == c0.pending_sends[k].action,
{
    if has_pending_send(c0.pending_sends, stream) {
        let k = choose|k: int|
            #[trigger] is_first_send(c0.pending_sends, stream, k) && r == Some(
                c0.pending_sends[k].action,
            ) && c1 == ClientView { pending_sends: c0.pending_sends.remove(k), ..c0 };
        assert forall|i: int| 0 <= i < c1.pending_sends.len() implies c1.sending.contains(
            #[trigger] c1.pending_sends[i].stream,
        ) by {
            if i < k {
                assert(c1.pending_sends[i] == c0.pending_sends[i]);
            } else {
                assert(c1.pending_sends[i] == c0.pending_sends[i + 1]);
            }
        }
    }
}

/// A session's streams end with it: once its connection task has ended,
/// the session is no longer active, none of its streams can be written or
/// is counted as active, and no send on them runs or waits; the other
/// streams are untouched.
pub proof fn lemma_streams_end_with_their_session(c0: ClientView, session: SessionHandle)
    requires
        c0.consistent(),
    ensures
        ({
            let c1 = session_end(c0, session);
            let gone = owned_by(c0.stream_owners, session);
            &&& c1.consistent()
            &&& !c1.sessions.contains(session)
            &&& !c1.states.contains_key(session)
            &&& forall|s: StreamHandle| #[trigger] gone.contains(s) ==> write_decision(c1, s) is Err
                && !c1.streams.contains(s) && !c1.sending.contains(s)
            &&& forall|k: int|
                0 <= k < c1.pending_sends.len() ==> !gone.contains(
                    #[trigger] c1.pending_sends[k].stream,
                )
            &&& forall|s: StreamHandle| #[trigger] c1.streams.contains(s) <==> c0.streams.contains(s)
                && !gone.contains(s)
            &&& c1.stats().active_streams == c0.streams.difference(gone).len()
        }),
{
    let c1 = session_end(c0, session);
    let gone = owned_by(c0.stream_owners, session);
    let f = |x: PendingSend| !gone.contains(x.stream);
    let p0 = c0.pending_sends;
    assert(c1.pending_sends == p0.filter(f));
    p0.filter_lemma(f);
    assert forall|k: int| 0 <= k < c1.pending_sends.len() implies c1.sending.contains(
        #[trigger] c1.pending_sends[k].stream,
    ) && !gone.contains(c1.pending_sends[k].stream) by {
        let x = c1.pending_sends[k];
        assert(f(x));
        assert(p0.filter(f).contains(x));
        p0.lemma_filter_contains_rev(f, x);
        let j = choose|j: int| 0 <= j < p0.len() && p0[j] == x;
        assert(c0.sending.contains(p0[j].stream));
    }
    vstd::set_lib::lemma_len_subset(c1.streams, c0.streams);
}

/// Finishing a writable stream lowers the number of active streams by one.
pub proof fn lemma_finish_lowers_active_streams(
    c0: ClientView,
    stream: StreamHandle,
    r: Result<Option<SendAction>, ClientError>,
    c1: ClientView,
)
    requires
        c0.consistent(),
        finish_outcome(c0, stream, r, c1),
        r is Ok,
    ensures
        c1.stats().active_streams == c0.stats().active_streams - 1,
{
}

/// A stream that the peer opened in one direction cannot be written: the
/// handle that the incoming stream takes is not among the writable streams
/// after it is issued, while the handle counter lasts.
pub proof fn lemma_incoming_unidirectional_stream_is_not_writable(c0: ClientView)
    requires
        c0.consistent(),
        !c0.stream_handles_exhausted,
    ensures
        write_decision(stream_issued(c0), c0.next_stream) is Err,
        c0.running ==> write_decision(stream_issued(c0), c0.next_stream) == Err::<(), ClientError>(
            ClientError::InvalidStream,
        ),
{
    assert(!c0.streams.contains(c0.next_stream));
}

/// The queue holds no more events than its capacity, so the statistics
/// never count more queued events than that.
pub proof fn lemma_queued_events_within_capacity(c: ClientView)
    requires
        c.queue.bounded(),
    ensures
        c.stats().queued_events <= c.queue.capacity,
        c.stats().queued_events == c.queue.events.len(),
{
}

/// A client's queue keeps the capacity it was created with (every method
/// that changes the client keeps the capacity), so it never holds more
/// events than the capacity asked for, or one where zero was asked for.
pub proof fn lemma_queued_events_within_creation_capacity(event_capacity: usize, c: ClientView)
    requires
        c.queue.bounded(),
        c.queue.capacity == initial_view(event_capacity).queue.capacity,
    ensures
        c.stats().queued_events <= (if event_capacity == 0 {
            1
        } else {
            event_capacity as int
        }),
{
}

/// Successive polls take the pending events oldest first, each lowering
/// the number of pending events by one, and then take nothing.
pub proof fn lemma_polls_take_events_in_order(q: QueueView)
    ensures
        forall|k: nat|
            k < q.events.len() ==> #[trigger] polled(after_polls(q, k)) == Some(q.events[k as int])
                && after_polls(q, k).events.len() == q.events.len() - k,
        polled(after_polls(q, q.events.len())) is None,
        after_polls(q, q.events.len()).events.len() == 0,
        after_poll(after_polls(q, q.events.len())) == after_polls(q, q.events.len()),
{
    lemma_after_polls_events(q, q.events.len());
    assert forall|k: nat| k < q.events.len() implies #[trigger] polled(after_polls(q, k)) == Some(
        q.events[k as int],
    ) && after_polls(q, k).events.len() == q.events.len() - k by {
        lemma_after_polls_events(q, k);
    }
}

/// No running total of a counter has reached 2^64, so no counter has
/// wrapped.
pub open spec fn counters_unwrapped(c: ClientView) -> bool {
    &&& c.queue.total_dropped_datagrams < 0x1_0000_0000_0000_0000
    &&& c.queue.total_dropped_trace_events < 0x1_0000_0000_0000_0000
    &&& c.total_datagrams_sent < 0x1_0000_0000_0000_0000
    &&& c.total_datagrams_received < 0x1_0000_0000_0000_0000
    &&& c.total_stream_bytes_sent < 0x1_0000_0000_0000_0000
    &&& c.total_stream_bytes_received < 0x1_0000_0000_0000_0000
    &&& c.total_connection_failures < 0x1_0000_0000_0000_0000
}

/// Every counter of `later` is at least that of `earlier`.
pub open spec fn counters_not_below(later: ClientStats, earlier: ClientStats) -> bool {
    &&& earlier.dropped_datagrams <= later.dropped_datagrams
    &&& earlier.dropped_trace_events <= later.dropped_trace_events
    &&& earlier.datagrams_sent <= later.datagrams_sent
    &&& earlier.datagrams_received <= later.datagrams_received
    &&& earlier.stream_bytes_sent <= later.stream_bytes_sent
    &&& earlier.stream_bytes_received <= later.stream_bytes_received
    &&& earlier.connection_failures <= later.connection_failures
}

/// Counters only grow for the client's lifetime, until one wraps: every
/// operation keeps or raises each counter's running total (each `Client`
/// method that changes the client ensures `totals_not_below`, which chains
/// from one operation to the next), and each counter equals its total
/// until that reaches 2^64; so a later snapshot shows every counter at
/// least at its earlier value while no counter has wrapped.
pub proof fn lemma_counters_only_grow(earlier: ClientView, later: ClientView)
    requires
        earlier.consistent(),
        later.consistent(),
        later.totals_not_below(earlier),
        counters_unwrapped(later),
    ensures
        counters_not_below(later.stats(), earlier.stats()),
{
}

/// Running totals chain: what no operation lowered stays not lowered over
/// a sequence of operations.
pub proof fn lemma_totals_chain(c0: ClientView, c1: ClientView, c2: ClientView)
    requires
        c1.totals_not_below(c0),
        c2.totals_not_below(c1),
    ensures
        c2.totals_not_below(c0),
{
}

/// A new client reports all its counters as zero.
pub proof fn lemma_new_client_reports_zero_stats(event_capacity: usize)
    ensures
        initial_view(event_capacity).stats() == zero_stats(),
{
    let c = initial_view(event_capacity);
    assert(draining_handles(c.states) =~= Set::<u64>::empty());
}

proof fn lemma_after_polls_events(q: QueueView, k: nat)
    requires
        k <= q.events.len(),
    ensures
        after_polls(q, k).events == q.events.skip(k as int),
        after_polls(q, k).capacity == q.capacity,
    decreases k,
{
    if k == 0 {
        assert(q.events.skip(0) =~= q.events);
    } else {
        let q1 = after_poll(q);
        assert(q1.events =~= q.events.skip(1));
        lemma_after_polls_events(q1, (k - 1) as nat);
        assert(q1.events.skip((k - 1) as int) =~= q.events.skip(k as int));
    }
}

/// The queue is first in, first out: an event accepted into a queue that
/// held `n` events is what the poll after `n` polls takes.
pub proof fn lemma_accepted_event_follows_earlier_ones(q: QueueView, e: Event)
    ensures
        polled(after_polls(q.pushed(e), q.events.len())) == Some(e),
        forall|k: nat| k < q.events.len() ==> #[trigger] polled(after_polls(q.pushed(e), k)) == Some(
            q.events[k as int],
        ),
{
    let p = q.pushed(e);
    lemma_after_polls_events(p, q.events.len());
    assert forall|k: nat| k < q.events.len() implies #[trigger] polled(after_polls(p, k)) == Some(
        q.events[k as int],
    ) by {
        lemma_after_polls_events(p, k);
    }
}

/// The concatenation of a sequence of byte strings.
pub open spec fn concat_all(parts: Seq<Seq<u8>>) -> Seq<u8>
    decreases parts.len(),
{
    if parts.len() == 0 {
        Seq::empty()
    } else {
        concat_all(parts.drop_last()) + parts.last()
    }
}

/// Splitting raw certificate hashes loses nothing but a trailing part
/// shorter than a hash: the hashes, one after the other, are the raw bytes
/// up to that part.
pub proof fn lemma_hash_chunks_cover(raw: Seq<u8>)
    ensures
        concat_all(hash_chunks(raw)) == raw.take(32 * (raw.len() / 32) as int),
        raw.len() - 32 * (raw.len() / 32) < 32,
{
    let count = (raw.len() / 32) as int;
    assert(32 * count <= raw.len()) by (nonlinear_arith)
        requires
            count == raw.len() / 32,
    ;
    assert(raw.len() - 32 * count < 32) by (nonlinear_arith)
        requires
            count == raw.len() / 32,
    ;
    lemma_hash_chunks_prefix(raw, count);
    assert(hash_chunks(raw).take(count) =~= hash_chunks(raw));
}

proof fn lemma_hash_chunks_prefix(raw: Seq<u8>, k: int)
    requires
        0 <= k,
        32 * k <= raw.len(),
    ensures
        concat_all(hash_chunks(raw).take(k)) == raw.take(32 * k),
        k <= hash_chunks(raw).len(),
    decreases k,
{
    assert(k <= raw.len() / 32) by (nonlinear_arith)
        requires
            32 * k <= raw.len(),
    ;
    if k == 0 {
        assert(hash_chunks(raw).take(0) =~= Seq::<Seq<u8>>::empty());
        assert(raw.take(0) =~= Seq::<u8>::empty());
    } else {
        let j = k - 1;
        lemma_hash_chunks_prefix(raw, j);
        let parts = hash_chunks(raw).take(k);
        assert(parts.drop_last() =~= hash_chunks(raw).take(j));
        assert(parts.last() == raw.subrange(32 * j, 32 * j + 32));
        assert(raw.take(32 * k) =~= raw.take(32 * j) + raw.subrange(32 * j, 32 * j + 32));
    }
}

/// The settings are consistent: a certificate and a key come together,
/// and with a certificate from files nothing shapes a generated one.
pub open spec fn consistent_args(a: ServerArgsModel) -> bool {
    &&& a.cert.is_some() == a.key.is_some()
    &&& a.cert.is_some() ==> !a.expired && a.generated_sans.len() == 0
}

/// Every command line that the development server runs with gives
/// consistent settings.
pub proof fn lemma_run_args_consistent(
    args: Seq<Seq<char>>,
    address_ok: Seq<bool>,
    i: int,
    acc: ServerArgsModel,
)
    ensures
        parse_from(args, address_ok, i, acc) matches ParseModel::Run(a) ==> consistent_args(a),
    decreases args.len() - i,
{
    if i >= args.len() || i < 0 {
        assert(finish_args(acc) matches ParseModel::Run(a) ==> consistent_args(a));
    } else {
        let a = args[i];
        let has_value = i + 1 < args.len();
        if has_value {
            lemma_run_args_consistent(args, address_ok, i + 2, ServerArgsModel { listen: args[i + 1], ..acc });
            lemma_run_args_consistent(args, address_ok, i + 2, ServerArgsModel { cert: Some(args[i + 1]), ..acc });
            lemma_run_args_consistent(args, address_ok, i + 2, ServerArgsModel { key: Some(args[i + 1]), ..acc });
            lemma_run_args_consistent(
                args,
                address_ok,
                i + 2,
                ServerArgsModel { generated_sans: acc.generated_sans.push(args[i + 1]), ..acc },
            );
            lemma_run_args_consistent(
                args,
                address_ok,
                i + 2,
                ServerArgsModel { write_generated_cert: Some(args[i + 1]), ..acc },
            );
            if let Some(v) = crate::text::parse_u64_spec(args[i + 1]) {
                lemma_run_args_consistent(args, address_ok, i + 2, ServerArgsModel { accept_delay_ms: v, ..acc });
            }
        }
        lemma_run_args_consistent(args, address_ok, i + 1, ServerArgsModel { reject: true, ..acc });
        lemma_run_args_consistent(args, address_ok, i + 1, ServerArgsModel { expired: true, ..acc });
    }
}

/// What reading a command line gives before the final checks: the
/// settings read, a request for help, or the refusal of one argument.
pub enum ReadModel {
    Read(ServerArgsModel),
    Help,
    Bad(ArgsErrorModel),
}

/// Reads the arguments from position `i` on, on top of `acc`: each flag in
/// turn, with its value where it takes one, stopping at a help request or
/// at an argument that is unknown, lacks its value or has an invalid one.
pub open spec fn read_args(
    args: Seq<Seq<char>>,
    address_ok: Seq<bool>,
    i: int,
    acc: ServerArgsModel,
) -> ReadModel
    decreases args.len() - i,
{
    if i >= args.len() || i < 0 {
        ReadModel::Read(acc)
    } else {
        let a = args[i];
        let has_value = i + 1 < args.len();
        if a == "--listen"@ {
            if !has_value {
                ReadModel::Bad(ArgsErrorModel::MissingValue("--listen requires an address"@))
            } else if !address_ok[i + 1] {
                ReadModel::Bad(ArgsErrorModel::InvalidAddress(args[i + 1]))
            } else {
                read_args(args, address_ok, i + 2, ServerArgsModel { listen: args[i + 1], ..acc })
            }
        } else if a == "--cert"@ {
            if !has_value {
                ReadModel::Bad(ArgsErrorModel::MissingValue("--cert requires a path"@))
            } else {
                read_args(args, address_ok, i + 2, ServerArgsModel { cert: Some(args[i + 1]), ..acc })
            }
        } else if a == "--key"@ {
            if !has_value {
                ReadModel::Bad(ArgsErrorModel::MissingValue("--key requires a path"@))
            } else {
                read_args(args, address_ok, i + 2, ServerArgsModel { key: Some(args[i + 1]), ..acc })
            }
        } else if a == "--reject"@ {
            read_args(args, address_ok, i + 1, ServerArgsModel { reject: true, ..acc })
        } else if a == "--accept-delay-ms"@ {
            if !has_value {
                ReadModel::Bad(ArgsErrorModel::MissingValue("--accept-delay-ms requires a value"@))
            } else {
                match crate::text::parse_u64_spec(args[i + 1]) {
                    None => ReadModel::Bad(ArgsErrorModel::InvalidDelay(args[i + 1])),
                    Some(v) => read_args(
                        args,
                        address_ok,
                        i + 2,
                        ServerArgsModel { accept_delay_ms: v, ..acc },
                    ),
                }
            }
        } else if a == "--san"@ {
            if !has_value {
                ReadModel::Bad(ArgsErrorModel::MissingValue("--san requires a value"@))
            } else {
                read_args(
                    args,
                    address_ok,
                    i + 2,
                    ServerArgsModel { generated_sans: acc.generated_sans.push(args[i + 1]), ..acc },
                )
            }
        } else if a == "--expired"@ {
            read_args(args, address_ok, i + 1, ServerArgsModel { expired: true, ..acc })
        } else if a == "--write-generated-cert"@ {
            if !has_value {
                ReadModel::Bad(ArgsErrorModel::MissingValue("--write-generated-cert requires a path"@))
            } else {
                read_args(
                    args,
                    address_ok,
                    i + 2,
                    ServerArgsModel { write_generated_cert: Some(args[i + 1]), ..acc },
                )
            }
        } else if a == "--help"@ || a == "-h"@ {
            ReadModel::Help
        } else {
            ReadModel::Bad(ArgsErrorModel::UnknownArgument(a))
        }
    }
}

/// The settings read are inconsistent: a certificate without a key or the
/// reverse, or a certificate from files together with `--expired` or
/// `--san`.
pub open spec fn inconsistent_settings(a: ServerArgsModel) -> bool {
    ||| a.cert.is_some() != a.key.is_some()
    ||| a.cert.is_some() && (a.expired || a.generated_sans.len() > 0)
}

/// Reading refused an argument, or read inconsistent settings.
pub open spec fn refused_reading(r: ReadModel) -> bool {
    match r {
        ReadModel::Read(a) => inconsistent_settings(a),
        ReadModel::Help => false,
        ReadModel::Bad(_) => true,
    }
}

/// A command line without a help request is refused exactly when reading
/// it meets an unknown argument, a flag without its value, an invalid
/// address or an invalid delay, or when the settings read are
/// inconsistent; the refusal of an argument is one of those four kinds.
pub proof fn lemma_dev_server_refusals(
    args: Seq<Seq<char>>,
    address_ok: Seq<bool>,
    i: int,
    acc: ServerArgsModel,
)
    requires
        address_ok.len() == args.len(),
    ensures
        parse_from(args, address_ok, i, acc) == match read_args(args, address_ok, i, acc) {
            ReadModel::Read(a) => finish_args(a),
            ReadModel::Help => ParseModel::Help,
            ReadModel::Bad(e) => ParseModel::Fail(e),
        },
        read_args(args, address_ok, i, acc) !is Help ==> ((parse_from(args, address_ok, i, acc) is Fail)
            <==> refused_reading(read_args(args, address_ok, i, acc))),
        read_args(args, address_ok, i, acc) matches ReadModel::Bad(e) ==> (e is MissingValue
            || e is InvalidAddress || e is InvalidDelay || e is UnknownArgument),
    decreases args.len() - i,
{
    if i >= args.len() || i < 0 {
    } else {
        let a = args[i];
        if i + 1 < args.len() {
            lemma_dev_server_refusals(args, address_ok, i + 2, ServerArgsModel { listen: args[i + 1], ..acc });
            lemma_dev_server_refusals(args, address_ok, i + 2, ServerArgsModel { cert: Some(args[i + 1]), ..acc });
            lemma_dev_server_refusals(args, address_ok, i + 2, ServerArgsModel { key: Some(args[i + 1]), ..acc });
            lemma_dev_server_refusals(
                args,
                address_ok,
                i + 2,
                ServerArgsModel { generated_sans: acc.generated_sans.push(args[i + 1]), ..acc },
            );
            lemma_dev_server_refusals(
                args,
                address_ok,
                i + 2,
                ServerArgsModel { write_generated_cert: Some(args[i + 1]), ..acc },
            );
            if let Some(v) = crate::text::parse_u64_spec(args[i + 1]) {
                lemma_dev_server_refusals(args, address_ok, i + 2, ServerArgsModel { accept_delay_ms: v, ..acc });
            }
        }
        lemma_dev_server_refusals(args, address_ok, i + 1, ServerArgsModel { reject: true, ..acc });
        lemma_dev_server_refusals(args, address_ok, i + 1, ServerArgsModel { expired: true, ..acc });
    }
}

/// The lowercased bytes of `m` contain those of `word`.
pub open spec fn lower_mentions(m: Seq<char>, word: Seq<char>) -> bool {
    contains_bytes(to_ascii_lowercase(utf8(m)), utf8(word))
}

/// How a network failure is classified, by what its message mentions in
/// any letter case: a certificate or TLS makes it a TLS failure whatever
/// else it mentions (so such a failure is never retried); otherwise DNS or
/// a name makes it a name-resolution failure; otherwise it is a transport
/// failure. Only a TLS failure is not worth retrying.
pub proof fn lemma_network_failure_classification(m: Seq<char>)
    ensures
        lower_mentions(m, "certificate"@) || lower_mentions(m, "tls"@) ==> classify(m)
            == ErrorCategory::Tls,
        !lower_mentions(m, "certificate"@) && !lower_mentions(m, "tls"@) && (lower_mentions(
            m,
            "dns"@,
        ) || lower_mentions(m, "name"@)) ==> classify(m) == ErrorCategory::Dns,
        !lower_mentions(m, "certificate"@) && !lower_mentions(m, "tls"@) && !lower_mentions(
            m,
            "dns"@,
        ) && !lower_mentions(m, "name"@) ==> classify(m) == ErrorCategory::Transport,
{
    reveal_strlit("certificate");
    reveal_strlit("tls");
    reveal_strlit("dns");
    reveal_strlit("name");
    assert("certificate"@ =~= crate::error::needle_certificate());
    assert("tls"@ =~= crate::error::needle_tls());
    assert("dns"@ =~= crate::error::needle_dns());
    assert("name"@ =~= crate::error::needle_name());
}

/// A stream stays writable until it is finished, its session ends or the
/// client shuts down: while the client runs, every stream in the writable
/// set is accepted, whatever state its session is in; and starting a drain
/// changes the answer for no stream.
pub proof fn lemma_streams_stay_writable_while_draining(
    c0: ClientView,
    session: SessionHandle,
    timeout: Timeout,
    code: u32,
    reason: Seq<u8>,
    r: Result<DrainStart, ClientError>,
    c1: ClientView,
)
    requires
        drain_outcome(c0, session, timeout, code, reason, r, c1),
    ensures
        forall|s: StreamHandle| #[trigger] write_decision(c1, s) == write_decision(c0, s),
        forall|s: StreamHandle|
            c1.running && c1.streams.contains(s) ==> #[trigger] write_decision(c1, s) == Ok::<
                (),
                ClientError,
            >(()),
        forall|s: StreamHandle|
            c1.running && !c1.streams.contains(s) ==> #[trigger] write_decision(c1, s) == Err::<
                (),
                ClientError,
            >(ClientError::InvalidStream),
{
}

/// A command line is run with exactly the settings read from it: the
/// value after `--cert` is the certificate path, the value after `--key`
/// the key path, and so on for every flag; the final checks only accept
/// or refuse those settings, never change them.
pub proof fn lemma_run_settings_are_the_settings_read(
    args: Seq<Seq<char>>,
    address_ok: Seq<bool>,
    i: int,
    acc: ServerArgsModel,
)
    requires
        address_ok.len() == args.len(),
    ensures
        parse_from(args, address_ok, i, acc) matches ParseModel::Run(a) ==> read_args(
            args,
            address_ok,
            i,
            acc,
        ) == ReadModel::Read(a) && !inconsistent_settings(a),
        forall|a: ServerArgsModel| #[trigger] finish_args(a) is Run ==> finish_args(a) == ParseModel::Run(a),
        forall|a: ServerArgsModel| !inconsistent_settings(a) <==> #[trigger] finish_args(a) is Run,
{
    lemma_dev_server_refusals(args, address_ok, i, acc);
}

/// A datagram that finds the queue full is counted as a dropped datagram
/// and as nothing else: the trace drop count and the number of queued
/// events stay as they were; a datagram that finds room raises the number
/// of queued events by one and leaves both drop counts alone.
pub proof fn lemma_datagram_drops_are_counted_apart(c: ClientView, q1: QueueView, e: Event)
    requires
        c.queue.bounded(),
        datagram_step(c.queue, q1, e),
    ensures
        ({
            let s0 = c.stats();
            let s1 = c.with_queue(q1).stats();
            &&& !c.queue.has_room() ==> s1.dropped_datagrams == s0.dropped_datagrams.wrapping_add(1)
                && s1.dropped_trace_events == s0.dropped_trace_events && s1.queued_events
                == s0.queued_events
            &&& c.queue.has_room() ==> s1.queued_events == s0.queued_events + 1
                && s1.dropped_datagrams == s0.dropped_datagrams && s1.dropped_trace_events
                == s0.dropped_trace_events
        }),
{
}

/// A trace event that finds the queue full is counted as a dropped trace
/// event and as nothing else; one that finds room raises the number of
/// queued events by one; with tracing off nothing changes.
pub proof fn lemma_trace_drops_are_counted_apart(
    c: ClientView,
    q1: QueueView,
    name: Seq<char>,
    session: SessionHandle,
    stream: StreamHandle,
    value: u64,
)
    requires
        c.queue.bounded(),
        trace_step(c.queue, q1, c.trace_enabled, name, session, stream, value),
    ensures
        ({
            let s0 = c.stats();
            let s1 = c.with_queue(q1).stats();
            &&& !c.trace_enabled ==> s1 == s0
            &&& c.trace_enabled && !c.queue.has_room() ==> s1.dropped_trace_events
                == s0.dropped_trace_events.wrapping_add(1) && s1.dropped_datagrams
                == s0.dropped_datagrams && s1.queued_events == s0.queued_events
            &&& c.trace_enabled && c.queue.has_room() ==> s1.queued_events == s0.queued_events + 1
                && s1.dropped_datagrams == s0.dropped_datagrams && s1.dropped_trace_events
                == s0.dropped_trace_events
        }),
{
}

/// The numbers by which the C ABI reports event kinds are the declared
/// ones, 1 to 13 in the order the kinds are declared, and no two kinds
/// share a number; so a host tells a reset stream from a finished one.
pub proof fn lemma_event_kind_codes(a: EventKind, b: EventKind)
    ensures
        kind_code(a) == kind_code(b) ==> a == b,
        1 <= kind_code(a) <= 13,
        kind_code(EventKind::Connected) == 1,
        kind_code(EventKind::ConnectionFailed) == 2,
        kind_code(EventKind::Closed) == 3,
        kind_code(EventKind::Datagram) == 4,
        kind_code(EventKind::StreamOpened) == 5,
        kind_code(EventKind::IncomingBidirectionalStream) == 6,
        kind_code(EventKind::IncomingUnidirectionalStream) == 7,
        kind_code(EventKind::StreamData) == 8,
        kind_code(EventKind::StreamFinished) == 9,
        kind_code(EventKind::StreamReset) == 10,
        kind_code(EventKind::Error) == 11,
        kind_code(EventKind::Draining) == 12,
        kind_code(EventKind::Trace) == 13,
{
}

/// No two error categories, session states or statuses share an ABI
/// number.
pub proof fn lemma_abi_codes_are_distinct(
    c1: ErrorCategory,
    c2: ErrorCategory,
    s1: SessionState,
    s2: SessionState,
    g1: GwtStatus,
    g2: GwtStatus,
)
    ensures
        category_code(c1) == category_code(c2) ==> c1 == c2,
        state_code(s1) == state_code(s2) ==> s1 == s2,
        status_code(g1) == status_code(g2) ==> g1 == g2,
{
}

} // verus!
