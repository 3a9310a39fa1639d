//! The values that cross the C ABI: status codes, the flat event record and
//! the statistics record.

use vstd::prelude::*;
use crate::error::{category_code, ClientError};
use crate::event::{kind_code, Event};
use crate::options::ClientStats;

verus! {

/// The version of the C ABI.
pub const ABI_VERSION: u32 = 1;

/// The status that every C entry point returns.
#[derive(Clone, Copy, Debug, PartialEq, Eq, Structural)]
pub enum GwtStatus {
    Success,
    NoEvent,
    InvalidArgument,
    InvalidHandle,
    InternalError,
    Panic,
}

/// The number by which the C ABI reports each status.
pub open spec fn status_code(s: GwtStatus) -> i32 {
    match s {
        GwtStatus::Success => 0i32,
        GwtStatus::NoEvent => 1i32,
        GwtStatus::InvalidArgument => -1i32,
        GwtStatus::InvalidHandle => -2i32,
        GwtStatus::InternalError => -3i32,
        GwtStatus::Panic => -4i32,
    }
}

impl GwtStatus {
    /// The status's ABI number.
    pub fn code(&self) -> (c: i32)
        ensures
            c == status_code(*self),
    {
        match self {
            GwtStatus::Success => 0,
            GwtStatus::NoEvent => 1,
            GwtStatus::InvalidArgument => -1,
            GwtStatus::InvalidHandle => -2,
            GwtStatus::InternalError => -3,
            GwtStatus::Panic => -4,
        }
    }
}

/// The status that reports a refused command: an invalid argument as
/// such, an unknown session or stream as an invalid handle, and a client
/// that shuts down as an internal error.
pub fn status(error: ClientError) -> (s: GwtStatus)
    ensures
        s == match error {
            ClientError::InvalidArgument(_) => GwtStatus::InvalidArgument,
            ClientError::InvalidSession => GwtStatus::InvalidHandle,
            ClientError::InvalidStream => GwtStatus::InvalidHandle,
            ClientError::ShuttingDown => GwtStatus::InternalError,
        },
{
    match error {
        ClientError::InvalidArgument(_) => GwtStatus::InvalidArgument,
        ClientError::InvalidSession | ClientError::InvalidStream => GwtStatus::InvalidHandle,
        ClientError::ShuttingDown => GwtStatus::InternalError,
    }
}

/// An event flattened for the C ABI: absent error fields read as zero, and
/// the payload is owned by the record until the host frees it.
#[derive(Debug)]
pub struct GwtEvent {
    pub kind: u32,
    pub error_category: u32,
    pub session: u64,
    pub stream: u64,
    pub code: i64,
    pub retryable: bool,
    pub transport_error_code: u64,
    pub http3_error_code: u64,
    pub stream_error_code: u64,
    pub tls_alert: u8,
    pub os_error: i32,
    pub data: Vec<u8>,
}

/// The record holds zero in every field and no payload.
pub open spec fn is_empty_record(e: GwtEvent) -> bool {
    &&& e.kind == 0
    &&& e.error_category == 0
    &&& e.session == 0
    &&& e.stream == 0
    &&& e.code == 0
    &&& !e.retryable
    &&& e.transport_error_code == 0
    &&& e.http3_error_code == 0
    &&& e.stream_error_code == 0
    &&& e.tls_alert == 0
    &&& e.os_error == 0
    &&& e.data@.len() == 0
}

impl Default for GwtEvent {
    /// The empty record.
    fn default() -> (e: Self)
        ensures
            is_empty_record(e),
    {
        GwtEvent {
            kind: 0,
            error_category: 0,
            session: 0,
            stream: 0,
            code: 0,
            retryable: false,
            transport_error_code: 0,
            http3_error_code: 0,
            stream_error_code: 0,
            tls_alert: 0,
            os_error: 0,
            data: Vec::new(),
        }
    }
}

/// A field of an optional error, or `zero` where there is no error or the
/// error lacks the field.
pub open spec fn or_zero<T>(v: Option<T>, zero: T) -> T {
    match v {
        Some(x) => x,
        None => zero,
    }
}

/// The C record of `event`.
pub fn into_ffi_event(event: Event) -> (r: GwtEvent)
    ensures
        r.kind == kind_code(event.kind),
        r.session == event.session,
        r.stream == event.stream,
        r.code == event.code,
        r.data@ == event.data@,
        match event.error {
            Some(e) => {
                &&& r.error_category == category_code(e.category)
                &&& r.retryable == e.retryable
                &&& r.transport_error_code == or_zero(e.transport_error_code, 0u64)
                &&& r.http3_error_code == or_zero(e.http3_error_code, 0u64)
                &&& r.stream_error_code == or_zero(e.stream_error_code, 0u64)
                &&& r.tls_alert == or_zero(e.tls_alert, 0u8)
                &&& r.os_error == or_zero(e.os_error, 0i32)
            },
            None => {
                &&& r.error_category == 0
                &&& !r.retryable
                &&& r.transport_error_code == 0
                &&& r.http3_error_code == 0
                &&& r.stream_error_code == 0
                &&& r.tls_alert == 0
                &&& r.os_error == 0
            },
        },
{
    let kind = event.kind.code();
    let mut r = GwtEvent {
        kind,
        error_category: 0,
        session: event.session,
        stream: event.stream,
        code: event.code,
        retryable: false,
        transport_error_code: 0,
        http3_error_code: 0,
        stream_error_code: 0,
        tls_alert: 0,
        os_error: 0,
        data: event.data,
    };
    match event.error {
        Some(e) => {
            r.error_category = e.category.code();
            r.retryable = e.retryable;
            r.transport_error_code = match e.transport_error_code {
                Some(v) => v,
                None => 0,
            };
            r.http3_error_code = match e.http3_error_code {
                Some(v) => v,
                None => 0,
            };
            r.stream_error_code = match e.stream_error_code {
                Some(v) => v,
                None => 0,
            };
            r.tls_alert = match e.tls_alert {
                Some(v) => v,
                None => 0,
            };
            r.os_error = match e.os_error {
                Some(v) => v,
                None => 0,
            };
        },
        None => {},
    }
    r
}

/// The statistics that the C ABI reports.
#[derive(Clone, Copy, Debug, Default, PartialEq, Eq, Structural)]
pub struct GwtClientStats {
    pub dropped_datagrams: u64,
    pub queued_events: u64,
    pub active_sessions: u64,
    pub active_streams: u64,
}

impl GwtClientStats {
    /// The part of `stats` that the C ABI reports.
    pub fn from_stats(stats: ClientStats) -> (r: GwtClientStats)
        ensures
            r.dropped_datagrams == stats.dropped_datagrams,
            r.queued_events == stats.queued_events,
            r.active_sessions == stats.active_sessions,
            r.active_streams == stats.active_streams,
    {
        GwtClientStats {
            dropped_datagrams: stats.dropped_datagrams,
            queued_events: stats.queued_events,
            active_sessions: stats.active_sessions,
            active_streams: stats.active_streams,
        }
    }
}

/// How many bytes `count` certificate hashes take, saturating at the
/// largest length.
pub fn certificate_hash_bytes(count: usize) -> (n: usize)
    ensures
        n == if count * 32 <= usize::MAX { count * 32 } else { usize::MAX as int },
{
    if count > usize::MAX / 32 {
        usize::MAX
    } else {
        count * 32
    }
}

} // verus!
