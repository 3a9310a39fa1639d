//! Events that the client hands to its host, one at a time, through the
//! event queue.

use vstd::prelude::*;
use crate::error::{network_code, no_detail_codes, classify, ErrorCategory, TransportError};
use crate::text::utf8;

verus! {

/// Opaque handle of a session; handles are issued in increasing order.
pub type SessionHandle = u64;

/// Opaque handle of a stream; handles are issued in increasing order.
pub type StreamHandle = u64;

/// What an event reports.
#[derive(Clone, Copy, Debug, PartialEq, Eq, Structural)]
pub enum EventKind {
    Connected,
    ConnectionFailed,
    Closed,
    Datagram,
    StreamOpened,
    IncomingBidirectionalStream,
    IncomingUnidirectionalStream,
    StreamData,
    StreamFinished,
    StreamReset,
    Error,
    Draining,
    Trace,
}

/// The number by which the C ABI reports each kind of event.
pub open spec fn kind_code(k: EventKind) -> u32 {
    match k {
        EventKind::Connected => 1,
        EventKind::ConnectionFailed => 2,
        EventKind::Closed => 3,
        EventKind::Datagram => 4,
        EventKind::StreamOpened => 5,
        EventKind::IncomingBidirectionalStream => 6,
        EventKind::IncomingUnidirectionalStream => 7,
        EventKind::StreamData => 8,
        EventKind::StreamFinished => 9,
        EventKind::StreamReset => 10,
        EventKind::Error => 11,
        EventKind::Draining => 12,
        EventKind::Trace => 13,
    }
}

impl EventKind {
    /// The kind's ABI number.
    pub fn code(&self) -> (c: u32)
        ensures
            c == kind_code(*self),
    {
        match self {
            EventKind::Connected => 1,
            EventKind::ConnectionFailed => 2,
            EventKind::Closed => 3,
            EventKind::Datagram => 4,
            EventKind::StreamOpened => 5,
            EventKind::IncomingBidirectionalStream => 6,
            EventKind::IncomingUnidirectionalStream => 7,
            EventKind::StreamData => 8,
            EventKind::StreamFinished => 9,
            EventKind::StreamReset => 10,
            EventKind::Error => 11,
            EventKind::Draining => 12,
            EventKind::Trace => 13,
        }
    }
}

/// One event delivered to the host.
#[derive(Clone, Debug, PartialEq, Eq)]
pub struct Event {
    pub kind: EventKind,
    pub session: SessionHandle,
    pub stream: StreamHandle,
    pub code: i64,
    pub data: Vec<u8>,
    pub error: Option<TransportError>,
}

/// An event that carries nothing but its kind and its handles.
pub open spec fn is_bare(e: Event, kind: EventKind, session: SessionHandle, stream: StreamHandle) -> bool {
    &&& e.kind == kind
    &&& e.session == session
    &&& e.stream == stream
    &&& e.code == 0
    &&& e.data@.len() == 0
    &&& e.error is None
}

/// An event that reports `error`: its code and data are the error's code
/// and message bytes.
pub open spec fn reports(
    e: Event,
    kind: EventKind,
    session: SessionHandle,
    stream: StreamHandle,
    error: TransportError,
) -> bool {
    &&& e.kind == kind
    &&& e.session == session
    &&& e.stream == stream
    &&& e.code == error.code
    &&& e.data@ == utf8(error.message@)
    &&& e.error == Some(error)
}

/// An event that reports a network failure with `message`.
pub open spec fn reports_network_failure(
    e: Event,
    kind: EventKind,
    session: SessionHandle,
    stream: StreamHandle,
    message: Seq<char>,
) -> bool {
    &&& e.kind == kind
    &&& e.session == session
    &&& e.stream == stream
    &&& e.code == network_code()
    &&& e.data@ == utf8(message)
    &&& e.error matches Some(err) && {
        &&& err.message@ == message
        &&& err.category == classify(message)
        &&& err.code == network_code()
        &&& err.retryable == (err.category != ErrorCategory::Tls)
        &&& no_detail_codes(err)
    }
}

impl Event {
    /// An event of `kind` for `session` with no stream, code, data or error.
    pub fn simple(kind: EventKind, session: SessionHandle) -> (e: Event)
        ensures
            is_bare(e, kind, session, 0),
    {
        Event::bare(kind, session, 0)
    }

    /// An event of `kind` for `session` and `stream` with no code, data or
    /// error.
    pub fn bare(kind: EventKind, session: SessionHandle, stream: StreamHandle) -> (e: Event)
        ensures
            is_bare(e, kind, session, stream),
    {
        Event { kind, session, stream, code: 0, data: Vec::new(), error: None }
    }

    /// An event of `kind` that carries `data` for `session` and `stream`.
    pub fn payload(kind: EventKind, session: SessionHandle, stream: StreamHandle, data: Vec<u8>) -> (e: Event)
        ensures
            e.kind == kind,
            e.session == session,
            e.stream == stream,
            e.code == 0,
            e.data@ == data@,
            e.error is None,
    {
        Event { kind, session, stream, code: 0, data, error: None }
    }

    /// An event of `kind` that reports `error`.
    pub fn reporting(kind: EventKind, session: SessionHandle, stream: StreamHandle, error: TransportError) -> (e: Event)
        ensures
            reports(e, kind, session, stream, error),
    {
        let data = error.message.as_str().as_bytes_vec();
        Event { kind, session, stream, code: error.code, data, error: Some(error) }
    }

    /// The event that tells the host that connecting `session` failed with
    /// `error`.
    pub fn failure(session: SessionHandle, error: TransportError) -> (e: Event)
        ensures
            reports(e, EventKind::ConnectionFailed, session, 0, error),
    {
        Event::reporting(EventKind::ConnectionFailed, session, 0, error)
    }

    /// The event that tells the host that `stream` was reset, or could not
    /// be opened or written, with a network failure described by `message`.
    pub fn stream_reset(session: SessionHandle, stream: StreamHandle, message: String) -> (e: Event)
        ensures
            reports_network_failure(e, EventKind::StreamReset, session, stream, message@),
    {
        Event::reporting(EventKind::StreamReset, session, stream, TransportError::from_network(message))
    }

    /// The event that tells the host that `session` closed, for the reason
    /// described by `message`.
    pub fn closed(session: SessionHandle, message: String) -> (e: Event)
        ensures
            reports_network_failure(e, EventKind::Closed, session, 0, message@),
    {
        Event::reporting(EventKind::Closed, session, 0, TransportError::from_network(message))
    }
}

} // verus!
