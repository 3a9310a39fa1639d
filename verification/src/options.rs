//! Connection options, session states and the statistics snapshot.

use vstd::prelude::*;

verus! {

/// How the server's certificate is verified.
#[derive(Clone, Debug)]
pub enum CertificateMode {
    /// Against the operating system's trust store.
    NativeRoots,
    /// Against SHA-256 hashes of short-lived self-signed certificates.
    ServerCertificateHashes(Vec<[u8; 32]>),
    /// Against custom CA certificates in DER form, which replace the native
    /// roots.
    CustomCaCertificates(Vec<Vec<u8>>),
}

/// A span of time in whole seconds and nanoseconds, as `std::time::Duration`
/// holds it.
#[derive(Clone, Copy, Debug, PartialEq, Eq, Structural)]
pub struct Timeout {
    pub secs: u64,
    pub nanos: u32,
}

/// The whole milliseconds of `t`, truncated to 64 bits as
/// `Duration::as_millis() as u64` gives them.
pub open spec fn timeout_millis(t: Timeout) -> u64 {
    ((t.secs as u128) * 1000 + (t.nanos / 1_000_000) as u128) as u64
}

impl Timeout {
    /// The span is zero.
    pub open spec fn spec_is_zero(self) -> bool {
        self.secs == 0 && self.nanos == 0
    }

    /// Whether the span is zero.
    pub fn is_zero(&self) -> (b: bool)
        ensures
            b == self.spec_is_zero(),
    {
        self.secs == 0 && self.nanos == 0
    }

    /// The whole milliseconds of the span, truncated to 64 bits.
    pub fn millis(&self) -> (m: u64)
        ensures
            m == timeout_millis(*self),
    {
        let total: u128 = (self.secs as u128) * 1000 + (self.nanos / 1_000_000) as u128;
        total as u64
    }
}

/// Options for one connection attempt.
#[derive(Clone, Debug)]
pub struct ConnectOptions {
    pub certificate_mode: CertificateMode,
    pub connect_timeout: Timeout,
    pub idle_timeout: Timeout,
}

impl Default for ConnectOptions {
    /// Native roots, a ten second connect timeout and a thirty second idle
    /// timeout.
    fn default() -> (o: Self)
        ensures
            o.certificate_mode is NativeRoots,
            o.connect_timeout == (Timeout { secs: 10, nanos: 0 }),
            o.idle_timeout == (Timeout { secs: 30, nanos: 0 }),
    {
        ConnectOptions {
            certificate_mode: CertificateMode::NativeRoots,
            connect_timeout: Timeout { secs: 10, nanos: 0 },
            idle_timeout: Timeout { secs: 30, nanos: 0 },
        }
    }
}

/// The state of a session that the client knows of.
#[derive(Clone, Copy, Debug, PartialEq, Eq, Structural)]
pub enum SessionState {
    Connecting,
    Connected,
    Draining,
}

/// The number by which the diagnostics report each state.
pub open spec fn state_code(s: SessionState) -> u32 {
    match s {
        SessionState::Connecting => 1,
        SessionState::Connected => 2,
        SessionState::Draining => 3,
    }
}

impl SessionState {
    /// The state's number: 1 connecting, 2 connected, 3 draining.
    pub fn code(&self) -> (c: u32)
        ensures
            c == state_code(*self),
    {
        match self {
            SessionState::Connecting => 1,
            SessionState::Connected => 2,
            SessionState::Draining => 3,
        }
    }
}

/// What the client reports of one session.
#[derive(Clone, Copy, Debug, PartialEq, Eq, Structural)]
pub struct SessionDiagnostics {
    pub state: SessionState,
    pub stable_id: u64,
    pub rtt_micros: u64,
    pub max_datagram_size: u64,
}

/// Path values that the connection of a session reports.
#[derive(Clone, Copy, Debug, PartialEq, Eq, Structural)]
pub struct PathInfo {
    pub stable_id: u64,
    pub rtt_micros: u64,
    pub max_datagram_size: u64,
}

/// A snapshot of the client's counters.
#[derive(Clone, Copy, Debug, Default, PartialEq, Eq, Structural)]
pub struct ClientStats {
    pub dropped_datagrams: u64,
    pub queued_events: u64,
    pub active_sessions: u64,
    pub active_streams: u64,
    pub active_draining_sessions: u64,
    pub datagrams_sent: u64,
    pub datagrams_received: u64,
    pub stream_bytes_sent: u64,
    pub stream_bytes_received: u64,
    pub connection_failures: u64,
    pub dropped_trace_events: u64,
}

/// The snapshot whose counters are all zero.
pub open spec fn zero_stats() -> ClientStats {
    ClientStats {
        dropped_datagrams: 0,
        queued_events: 0,
        active_sessions: 0,
        active_streams: 0,
        active_draining_sessions: 0,
        datagrams_sent: 0,
        datagrams_received: 0,
        stream_bytes_sent: 0,
        stream_bytes_received: 0,
        connection_failures: 0,
        dropped_trace_events: 0,
    }
}

/// The hashes in `raw`, 32 bytes each; a trailing part shorter than a
/// hash is ignored.
pub open spec fn hash_chunks(raw: Seq<u8>) -> Seq<Seq<u8>> {
    Seq::new(raw.len() / 32, |i: int| raw.subrange(32 * i, 32 * i + 32))
}

/// Splits `raw` into 32-byte SHA-256 certificate hashes, ignoring a trailing
/// part shorter than a hash.
pub fn split_certificate_hashes(raw: &[u8]) -> (hashes: Vec<[u8; 32]>)
    ensures
        hashes@.len() == hash_chunks(raw@).len(),
        forall|i: int| 0 <= i < hashes@.len() ==> #[trigger] hashes@[i]@ == hash_chunks(raw@)[i],
{
    let n = raw.len();
    let count = n / 32;
    let mut hashes: Vec<[u8; 32]> = Vec::new();
    let mut i: usize = 0;
    while i < count
        invariant
            n == raw@.len(),
            count == raw@.len() / 32,
            i <= count,
            hashes@.len() == i,
            forall|k: int| 0 <= k < i ==> #[trigger] hashes@[k]@ == hash_chunks(raw@)[k],
        decreases count - i,
    {
        assert(32 * i + 32 <= raw@.len()) by (nonlinear_arith)
            requires
                i < count,
                count == raw@.len() / 32,
        ;
        let base = 32 * i;
        let mut hash = [0u8; 32];
        let mut j: usize = 0;
        while j < 32
            invariant
                base == 32 * i,
                base + 32 <= raw@.len(),
                j <= 32,
                forall|m: int| 0 <= m < j ==> #[trigger] hash@[m] == raw@[base + m],
            decreases 32 - j,
        {
            hash.set(j, raw[base + j]);
            j = j + 1;
        }
        assert(hash@ =~= raw@.subrange(32 * i, 32 * i + 32));
        hashes.push(hash);
        i = i + 1;
    }
    hashes
}

} // verus!
