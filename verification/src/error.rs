//! Error values: the structured transport error carried by events, and the
//! error a client command is refused with.

use vstd::prelude::*;
use crate::text::{contains_bytes, contains_ignore_ascii_case, to_ascii_lowercase, utf8};

verus! {

/// The broad class of a transport failure.
#[derive(Clone, Copy, Debug, PartialEq, Eq, Structural)]
pub enum ErrorCategory {
    NoError,
    InvalidArgument,
    Dns,
    Tls,
    Transport,
    Http3,
    Session,
    Stream,
    Queue,
    Internal,
}

/// The number by which the C ABI reports each category.
pub open spec fn category_code(c: ErrorCategory) -> u32 {
    match c {
        ErrorCategory::NoError => 0,
        ErrorCategory::InvalidArgument => 1,
        ErrorCategory::Dns => 2,
        ErrorCategory::Tls => 3,
        ErrorCategory::Transport => 4,
        ErrorCategory::Http3 => 5,
        ErrorCategory::Session => 6,
        ErrorCategory::Stream => 7,
        ErrorCategory::Queue => 8,
        ErrorCategory::Internal => 9,
    }
}

impl ErrorCategory {
    /// The category's ABI number.
    pub fn code(&self) -> (c: u32)
        ensures
            c == category_code(*self),
    {
        match self {
            ErrorCategory::NoError => 0,
            ErrorCategory::InvalidArgument => 1,
            ErrorCategory::Dns => 2,
            ErrorCategory::Tls => 3,
            ErrorCategory::Transport => 4,
            ErrorCategory::Http3 => 5,
            ErrorCategory::Session => 6,
            ErrorCategory::Stream => 7,
            ErrorCategory::Queue => 8,
            ErrorCategory::Internal => 9,
        }
    }
}

/// A structured failure reported to the host.
#[derive(Clone, Debug, PartialEq, Eq)]
pub struct TransportError {
    pub category: ErrorCategory,
    pub code: i64,
    pub message: String,
    pub retryable: bool,
    pub transport_error_code: Option<u64>,
    pub http3_error_code: Option<u64>,
    pub stream_error_code: Option<u64>,
    pub tls_alert: Option<u8>,
    pub os_error: Option<i32>,
}

/// The code of an error raised by an invalid argument.
pub open spec fn invalid_code() -> i64 {
    -1i64
}

/// The code of an error raised by the network.
pub open spec fn network_code() -> i64 {
    -2i64
}

/// Lowercase needles that mark a TLS failure.
pub open spec fn needle_certificate() -> Seq<char> {
    seq!['c', 'e', 'r', 't', 'i', 'f', 'i', 'c', 'a', 't', 'e']
}

pub open spec fn needle_tls() -> Seq<char> {
    seq!['t', 'l', 's']
}

/// Lowercase needles that mark a name resolution failure.
pub open spec fn needle_dns() -> Seq<char> {
    seq!['d', 'n', 's']
}

pub open spec fn needle_name() -> Seq<char> {
    seq!['n', 'a', 'm', 'e']
}

/// The lowercased message mentions `needle`.
pub open spec fn mentions(message: Seq<char>, needle: Seq<char>) -> bool {
    contains_bytes(to_ascii_lowercase(utf8(message)), utf8(needle))
}

/// How a network failure message is classified: a mention of a certificate
/// or of TLS makes it a TLS failure, else a mention of DNS or of a name makes
/// it a name resolution failure, else it is a transport failure.
pub open spec fn classify(message: Seq<char>) -> ErrorCategory {
    if mentions(message, needle_certificate()) || mentions(message, needle_tls()) {
        ErrorCategory::Tls
    } else if mentions(message, needle_dns()) || mentions(message, needle_name()) {
        ErrorCategory::Dns
    } else {
        ErrorCategory::Transport
    }
}

/// The error carries none of the protocol-level detail codes.
pub open spec fn no_detail_codes(e: TransportError) -> bool {
    &&& e.transport_error_code is None
    &&& e.http3_error_code is None
    &&& e.stream_error_code is None
    &&& e.tls_alert is None
    &&& e.os_error is None
}

fn mentions_exec(lower_hay: &[u8], message: &String, needle: &str) -> (r: bool)
    requires
        lower_hay@ == utf8(message@),
    ensures
        r == contains_bytes(to_ascii_lowercase(utf8(message@)), utf8(needle@)),
{
    contains_ignore_ascii_case(lower_hay, needle.as_bytes())
}

impl TransportError {
    /// An error for an argument that the client refuses.
    pub fn invalid(message: String) -> (e: TransportError)
        ensures
            e.category == ErrorCategory::InvalidArgument,
            e.code == invalid_code(),
            e.message == message,
            !e.retryable,
            no_detail_codes(e),
    {
        TransportError {
            category: ErrorCategory::InvalidArgument,
            code: -1,
            message,
            retryable: false,
            transport_error_code: None,
            http3_error_code: None,
            stream_error_code: None,
            tls_alert: None,
            os_error: None,
        }
    }

    /// An error for a failure that the network reported with `message` (the
    /// failure's display text). It is classified by what the message
    /// mentions, and is worth retrying unless it is a TLS failure.
    pub fn from_network(message: String) -> (e: TransportError)
        ensures
            e.category == classify(message@),
            e.code == network_code(),
            e.message == message,
            e.retryable == (e.category != ErrorCategory::Tls),
            no_detail_codes(e),
    {
        let bytes = message.as_str().as_bytes();
        let category = if mentions_exec(bytes, &message, "certificate") || mentions_exec(
            bytes,
            &message,
            "tls",
        ) {
            ErrorCategory::Tls
        } else if mentions_exec(bytes, &message, "dns") || mentions_exec(bytes, &message, "name") {
            ErrorCategory::Dns
        } else {
            ErrorCategory::Transport
        };
        proof {
            reveal_strlit("certificate");
            reveal_strlit("tls");
            reveal_strlit("dns");
            reveal_strlit("name");
            assert("certificate"@ =~= needle_certificate());
            assert("tls"@ =~= needle_tls());
            assert("dns"@ =~= needle_dns());
            assert("name"@ =~= needle_name());
        }
        TransportError {
            category,
            code: -2,
            message,
            retryable: !(category == ErrorCategory::Tls),
            transport_error_code: None,
            http3_error_code: None,
            stream_error_code: None,
            tls_alert: None,
            os_error: None,
        }
    }
}

impl TransportError {
    /// The error for a connection attempt that did not complete within its
    /// timeout: a network failure whose message is `connection timeout`.
    pub fn connection_timeout() -> (e: TransportError)
        ensures
            e.message@ == "connection timeout"@,
            e.category == classify(e.message@),
            e.code == network_code(),
            e.retryable == (e.category != ErrorCategory::Tls),
            no_detail_codes(e),
    {
        TransportError::from_network(String::from_str("connection timeout"))
    }
}

/// Why a client command was refused.
#[derive(Clone, Debug, PartialEq, Eq)]
pub enum ClientError {
    InvalidArgument(String),
    InvalidSession,
    InvalidStream,
    ShuttingDown,
}

} // verus!
