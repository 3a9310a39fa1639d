use godot_wtransport::client::{Client, SendAction};
use godot_wtransport::error::{ClientError, ErrorCategory, TransportError};
use godot_wtransport::event::{Event, EventKind};
use godot_wtransport::options::{
    split_certificate_hashes, CertificateMode, ClientStats, ConnectOptions, PathInfo,
    SessionDiagnostics, SessionState, Timeout,
};
use godot_wtransport::queue::EventQueue;
use godot_wtransport::tls::{client_config, custom_root_store, rejected_certificate_error};

#[test]
fn rejects_non_https_urls() {
    let mut client = Client::new(8).unwrap();
    assert!(matches!(
        client.connect("http://localhost:4433", ConnectOptions::default()),
        Err(ClientError::InvalidArgument(_))
    ));
}

#[test]
fn handles_are_monotonic_across_failed_connections() {
    let mut client = Client::new(8).unwrap();
    let first = client
        .connect("https://127.0.0.1:1", ConnectOptions::default())
        .unwrap();
    let second = client
        .connect("https://127.0.0.1:2", ConnectOptions::default())
        .unwrap();
    assert!(second > first);
}

#[test]
fn handles_are_never_reused_after_sessions_end() {
    let mut client = Client::new(8).unwrap();
    let mut sessions = Vec::new();
    for _ in 0..4 {
        let session = client.connect("https://example.com/a", ConnectOptions::default()).unwrap();
        client.on_connected(session, 1);
        client.on_session_ended(session);
        assert!(!sessions.contains(&session));
        sessions.push(session);
    }
    assert_eq!(sessions, vec![1, 2, 3, 4]);
    let session = client.connect("https://example.com/b", ConnectOptions::default()).unwrap();
    client.on_connected(session, 1);
    let opened = client.open_bidirectional_stream(session).unwrap();
    let incoming = client.on_incoming_unidirectional_stream(session).stream;
    let other = client.open_unidirectional_stream(session).unwrap();
    assert_eq!((opened, incoming, other), (1, 2, 3));
}

#[test]
fn client_created_with_zero_capacity_queues_one_event() {
    let mut client = Client::new(0).unwrap();
    assert!(client.try_send_reliable(Event::simple(EventKind::Connected, 1)).is_ok());
    assert!(client.try_send_reliable(Event::simple(EventKind::Connected, 2)).is_err());
    assert_eq!(client.stats().queued_events, 1);
    assert_eq!(client.poll().unwrap().session, 1);
    assert!(client.poll().is_none());
    assert_eq!(client.stats().queued_events, 0);
}

#[test]
fn repeated_create_and_drop_is_safe() {
    for _ in 0..100 {
        let client = Client::new(2).unwrap();
        assert_eq!(client.stats(), ClientStats::default());
    }
}

#[test]
fn reliable_queue_applies_backpressure_and_datagrams_drop() {
    let mut queue = EventQueue::new(1);
    queue.send_datagram(Event::simple(EventKind::Datagram, 1));
    queue.send_datagram(Event::simple(EventKind::Datagram, 1));
    assert_eq!(queue.dropped_datagrams(), 1);

    let blocked = queue.try_send_reliable(Event::simple(EventKind::Connected, 1));
    assert!(blocked.is_err());
    assert!(queue.poll().is_some());
    let retried = queue.try_send_reliable(blocked.unwrap_err());
    assert!(retried.is_ok());
    assert_eq!(queue.poll().unwrap().kind, EventKind::Connected);
}

#[test]
fn trace_events_are_opt_in_bounded_and_metadata_only() {
    let mut queue = EventQueue::new(1);
    queue.send_trace(false, "disabled", 1, 2, 3);
    assert!(queue.poll().is_none());

    queue.send_trace(true, "stream_write_completed", 7, 9, 128);
    queue.send_trace(true, "must_drop", 7, 9, 256);
    assert_eq!(queue.dropped_trace_events(), 1);
    let event = queue.poll().unwrap();
    assert_eq!(event.kind, EventKind::Trace);
    assert_eq!(event.session, 7);
    assert_eq!(event.stream, 9);
    assert_eq!(event.code, 128);
    assert_eq!(event.data, b"stream_write_completed");
    assert!(event.error.is_none());
}

#[test]
fn trace_value_beyond_i64_is_clamped() {
    let mut queue = EventQueue::new(4);
    queue.send_trace(true, "big", 0, 0, u64::MAX);
    assert_eq!(queue.poll().unwrap().code, i64::MAX);
}

#[test]
fn zero_capacity_queue_holds_one_event() {
    let mut queue = EventQueue::new(0);
    assert_eq!(queue.capacity(), 1);
    assert!(queue.try_send_reliable(Event::simple(EventKind::Connected, 1)).is_ok());
    assert!(queue.try_send_reliable(Event::simple(EventKind::Closed, 1)).is_err());
    assert_eq!(queue.queued(), 1);
}

#[test]
fn queue_delivers_in_acceptance_order() {
    let mut queue = EventQueue::new(3);
    assert!(queue.try_send_reliable(Event::simple(EventKind::Connected, 1)).is_ok());
    queue.send_datagram(Event::simple(EventKind::Datagram, 2));
    assert!(queue.try_send_reliable(Event::simple(EventKind::Closed, 3)).is_ok());
    assert_eq!(queue.poll().unwrap().session, 1);
    assert_eq!(queue.poll().unwrap().session, 2);
    assert_eq!(queue.poll().unwrap().session, 3);
    assert!(queue.poll().is_none());
}

#[test]
fn network_errors_are_classified() {
    let tls = TransportError::from_network("invalid peer Certificate: UnknownIssuer".to_string());
    assert_eq!(tls.category, ErrorCategory::Tls);
    assert!(!tls.retryable);
    assert_eq!(tls.code, -2);
    let tls2 = TransportError::from_network("TLS handshake failed".to_string());
    assert_eq!(tls2.category, ErrorCategory::Tls);
    let dns = TransportError::from_network("DNS lookup failed".to_string());
    assert_eq!(dns.category, ErrorCategory::Dns);
    assert!(dns.retryable);
    let name = TransportError::from_network("no such host NAME".to_string());
    assert_eq!(name.category, ErrorCategory::Dns);
    let timeout = TransportError::from_network("connection timeout".to_string());
    assert_eq!(timeout.category, ErrorCategory::Transport);
    assert!(timeout.retryable);
    assert_eq!(timeout.message, "connection timeout");
    assert!(timeout.transport_error_code.is_none());
    let empty = TransportError::from_network(String::new());
    assert_eq!(empty.category, ErrorCategory::Transport);
}

#[test]
fn invalid_argument_errors_are_not_retryable() {
    let e = TransportError::invalid("custom CA list is empty".to_string());
    assert_eq!(e.category, ErrorCategory::InvalidArgument);
    assert_eq!(e.code, -1);
    assert!(!e.retryable);
    assert_eq!(e.message, "custom CA list is empty");
}

#[test]
fn failure_event_carries_the_error() {
    let e = TransportError::from_network("connection timeout".to_string());
    let event = Event::failure(5, e.clone());
    assert_eq!(event.kind, EventKind::ConnectionFailed);
    assert_eq!(event.session, 5);
    assert_eq!(event.stream, 0);
    assert_eq!(event.code, -2);
    assert_eq!(event.data, b"connection timeout");
    assert_eq!(event.error, Some(e));
}

#[test]
fn stream_reset_and_closed_events_report_network_failures() {
    let reset = Event::stream_reset(3, 4, "stream reset by peer".to_string());
    assert_eq!(reset.kind, EventKind::StreamReset);
    assert_eq!((reset.session, reset.stream, reset.code), (3, 4, -2));
    assert_eq!(reset.data, b"stream reset by peer");
    let closed = Event::closed(3, "closed by peer: tls alert".to_string());
    assert_eq!(closed.kind, EventKind::Closed);
    assert_eq!(closed.error.unwrap().category, ErrorCategory::Tls);
}

#[test]
fn event_kind_and_category_codes() {
    assert_eq!(EventKind::Connected.code(), 1);
    assert_eq!(EventKind::Trace.code(), 13);
    assert_eq!(EventKind::Draining.code(), 12);
    assert_eq!(ErrorCategory::NoError.code(), 0);
    assert_eq!(ErrorCategory::Internal.code(), 9);
    assert_eq!(SessionState::Connecting.code(), 1);
    assert_eq!(SessionState::Draining.code(), 3);
}

#[test]
fn connection_timeout_is_a_retryable_transport_failure() {
    let e = TransportError::connection_timeout();
    assert_eq!(e.message, "connection timeout");
    assert_eq!(e.category, ErrorCategory::Transport);
    assert_eq!(e.code, -2);
    assert!(e.retryable);
}

#[test]
fn default_options_use_native_roots() {
    let o = ConnectOptions::default();
    assert!(matches!(o.certificate_mode, CertificateMode::NativeRoots));
    assert_eq!(o.connect_timeout, Timeout { secs: 10, nanos: 0 });
    assert_eq!(o.idle_timeout, Timeout { secs: 30, nanos: 0 });
    assert_eq!(o.connect_timeout.millis(), 10_000);
    assert_eq!(Timeout { secs: 1, nanos: 2_500_000 }.millis(), 1_002);
    assert!(Timeout { secs: 0, nanos: 0 }.is_zero());
    assert!(!Timeout { secs: 0, nanos: 1 }.is_zero());
}

fn connected_client() -> (Client, u64) {
    let mut client = Client::new(8).unwrap();
    let session = client
        .connect("https://example.test/game", ConnectOptions::default())
        .unwrap();
    let event = client.on_connected(session, 1500);
    assert_eq!(event.kind, EventKind::Connected);
    (client, session)
}

#[test]
fn connected_session_takes_datagrams_and_streams() {
    let (mut client, session) = connected_client();
    assert!(client.send_datagram(session).is_ok());
    client.datagram_sent(session, 5);
    let stream = client.open_bidirectional_stream(session).unwrap();
    let uni = client.open_unidirectional_stream(session).unwrap();
    assert!(uni > stream);
    let opened = client.on_stream_opened(session, stream);
    assert_eq!(opened.kind, EventKind::StreamOpened);
    assert_eq!(opened.stream, stream);
    assert!(client.write_stream(stream, vec![1, 2]).is_ok());
    client.on_stream_write_completed(stream, 10);
    let stats = client.stats();
    assert_eq!(stats.datagrams_sent, 1);
    assert_eq!(stats.stream_bytes_sent, 10);
    assert_eq!(stats.active_sessions, 1);
    assert_eq!(stats.active_streams, 1);
}

#[test]
fn unknown_session_is_refused() {
    let mut client = Client::new(8).unwrap();
    assert_eq!(client.send_datagram(42), Err(ClientError::InvalidSession));
    assert_eq!(client.open_bidirectional_stream(42), Err(ClientError::InvalidSession));
    assert_eq!(client.close(42, 0), Err(ClientError::InvalidSession));
    assert_eq!(client.write_stream(42, vec![1, 2]), Err(ClientError::InvalidStream));
    assert_eq!(client.finish_stream(42), Err(ClientError::InvalidStream));
    assert_eq!(client.session_diagnostics(42, None), Err(ClientError::InvalidSession));
}

#[test]
fn connecting_session_is_not_usable_yet() {
    let mut client = Client::new(8).unwrap();
    let session = client.connect("https://a.test", ConnectOptions::default()).unwrap();
    assert_eq!(client.session_state(session), Some(SessionState::Connecting));
    assert_eq!(client.send_datagram(session), Err(ClientError::InvalidSession));
    let diag = client.session_diagnostics(session, None).unwrap();
    assert_eq!(
        diag,
        SessionDiagnostics { state: SessionState::Connecting, stable_id: 0, rtt_micros: 0, max_datagram_size: 0 }
    );
}

#[test]
fn drain_rejects_new_work_and_second_drain() {
    let (mut client, session) = connected_client();
    assert!(matches!(client.drain(session, Timeout { secs: 0, nanos: 0 }, 7, vec![1, 2]), Err(ClientError::InvalidArgument(_))));
    let draining = client.drain(session, Timeout { secs: 0, nanos: 500_000_000 }, 7, vec![1, 2]).unwrap();
    assert_eq!(draining.event, Event::simple(EventKind::Draining, session));
    assert_eq!(draining.close_after, Timeout { secs: 0, nanos: 500_000_000 });
    assert_eq!(draining.code, 7);
    assert_eq!(draining.reason, vec![1, 2]);
    assert_eq!(client.session_state(session), Some(SessionState::Draining));
    assert_eq!(client.send_datagram(session), Err(ClientError::InvalidSession));
    assert_eq!(client.open_unidirectional_stream(session), Err(ClientError::InvalidSession));
    assert_eq!(client.drain(session, Timeout { secs: 0, nanos: 500_000_000 }, 7, vec![1, 2]), Err(ClientError::InvalidSession));
    assert_eq!(client.stats().active_draining_sessions, 1);
    let diag = client
        .session_diagnostics(
            session,
            Some(PathInfo { stable_id: 7, rtt_micros: 900, max_datagram_size: 1200 }),
        )
        .unwrap();
    assert_eq!(diag.state.code(), 3);
    assert_eq!(diag.max_datagram_size, 1200);
}

#[test]
fn draining_sessions_are_counted_among_active_ones() {
    let (mut client, session) = connected_client();
    let other = client.connect("https://example.com/other", ConnectOptions::default()).unwrap();
    client.on_connected(other, 10);
    assert!(client.drain(session, Timeout { secs: 0, nanos: 250_000_000 }, 7, vec![1, 2]).is_ok());
    let stats = client.stats();
    assert_eq!(stats.active_sessions, 2);
    assert_eq!(stats.active_draining_sessions, 1);
    client.on_session_ended(session);
    let stats = client.stats();
    assert_eq!(stats.active_sessions, 1);
    assert_eq!(stats.active_draining_sessions, 0);
    assert_eq!(client.session_state(other), Some(SessionState::Connected));
}

#[test]
fn writes_on_a_stream_run_one_at_a_time_in_order() {
    let (mut client, session) = connected_client();
    let stream = client.open_bidirectional_stream(session).unwrap();
    client.on_stream_opened(session, stream);
    let other = client.open_bidirectional_stream(session).unwrap();
    client.on_stream_opened(session, other);
    assert_eq!(client.write_stream(stream, vec![1]), Ok(Some(SendAction::Write(vec![1]))));
    assert_eq!(client.write_stream(stream, vec![2]), Ok(None));
    assert_eq!(client.write_stream(other, vec![9]), Ok(Some(SendAction::Write(vec![9]))));
    assert_eq!(client.write_stream(stream, vec![3]), Ok(None));
    assert_eq!(client.finish_stream(stream), Ok(None));
    assert_eq!(client.write_stream(stream, vec![4]), Err(ClientError::InvalidStream));
    assert_eq!(client.next_send(stream), Some(SendAction::Write(vec![2])));
    assert_eq!(client.next_send(stream), Some(SendAction::Write(vec![3])));
    assert_eq!(client.next_send(stream), Some(SendAction::Finish));
    assert_eq!(client.next_send(stream), None);
    assert_eq!(client.next_send(other), None);
    assert_eq!(client.write_stream(other, vec![8]), Ok(Some(SendAction::Write(vec![8]))));
}

#[test]
fn streams_end_with_their_session() {
    let (mut client, session) = connected_client();
    let other = client.connect("https://example.com/other", ConnectOptions::default()).unwrap();
    client.on_connected(other, 10);
    let opened = client.open_bidirectional_stream(session).unwrap();
    client.on_stream_opened(session, opened);
    let incoming = client.on_incoming_bidirectional_stream(session).stream;
    let kept = client.open_bidirectional_stream(other).unwrap();
    client.on_stream_opened(other, kept);
    assert_eq!(client.write_stream(opened, vec![1]), Ok(Some(SendAction::Write(vec![1]))));
    assert_eq!(client.write_stream(opened, vec![2]), Ok(None));
    assert_eq!(client.stats().active_streams, 3);
    let late = client.open_unidirectional_stream(session).unwrap();
    client.on_session_closed(session, "closed by peer".to_string());
    let mut retired = client.on_session_ended(session);
    retired.sort();
    assert_eq!(retired, vec![opened, incoming]);
    assert_eq!(client.stats().active_streams, 1);
    assert_eq!(client.stats().active_sessions, 1);
    assert_eq!(client.write_stream(opened, vec![3]), Err(ClientError::InvalidStream));
    assert_eq!(client.write_stream(incoming, vec![3]), Err(ClientError::InvalidStream));
    assert_eq!(client.next_send(opened), None);
    let announced = client.on_stream_opened(session, late);
    assert_eq!(announced.kind, EventKind::StreamOpened);
    assert_eq!(client.write_stream(late, vec![5]), Err(ClientError::InvalidStream));
    assert_eq!(client.stats().active_streams, 1);
    assert_eq!(client.write_stream(kept, vec![4]), Ok(Some(SendAction::Write(vec![4]))));
}

#[test]
fn finishing_a_stream_lowers_active_streams() {
    let (mut client, session) = connected_client();
    let stream = client.open_bidirectional_stream(session).unwrap();
    client.on_stream_opened(session, stream);
    assert_eq!(client.stats().active_streams, 1);
    assert_eq!(client.finish_stream(stream), Ok(Some(SendAction::Finish)));
    assert_eq!(client.stats().active_streams, 0);
    let finished = client.on_stream_finished(session, stream);
    assert_eq!(finished, Event::bare(EventKind::StreamFinished, session, stream));
}

#[test]
fn only_issued_streams_count_as_issued() {
    let (mut client, session) = connected_client();
    assert!(!client.is_issued_stream(1));
    let stream = client.open_unidirectional_stream(session).unwrap();
    assert!(client.is_issued_stream(stream));
    assert!(!client.is_issued_stream(stream + 1));
    assert!(!client.is_issued_stream(0));
}

#[test]
fn finished_stream_cannot_be_written() {
    let (mut client, session) = connected_client();
    let stream = client.open_bidirectional_stream(session).unwrap();
    client.on_stream_opened(session, stream);
    assert!(client.finish_stream(stream).is_ok());
    assert_eq!(client.write_stream(stream, vec![1, 2]), Err(ClientError::InvalidStream));
    assert_eq!(client.finish_stream(stream), Err(ClientError::InvalidStream));
}

#[test]
fn shutdown_refuses_runtime_commands() {
    let (mut client, session) = connected_client();
    let stream = client.open_bidirectional_stream(session).unwrap();
    client.on_stream_opened(session, stream);
    let to_close = client.shutdown();
    assert_eq!(to_close, vec![session]);
    assert!(!client.is_running());
    assert_eq!(
        client.connect("https://b.test", ConnectOptions::default()),
        Err(ClientError::ShuttingDown)
    );
    assert_eq!(client.open_bidirectional_stream(session), Err(ClientError::ShuttingDown));
    assert_eq!(client.write_stream(stream, vec![1, 2]), Err(ClientError::ShuttingDown));
    assert_eq!(client.finish_stream(stream), Err(ClientError::ShuttingDown));
    assert_eq!(client.drain(session, Timeout { secs: 0, nanos: 1 }, 7, vec![1, 2]), Err(ClientError::ShuttingDown));
}

#[test]
fn incoming_streams_get_fresh_handles() {
    let (mut client, session) = connected_client();
    let bi = client.on_incoming_bidirectional_stream(session);
    let uni = client.on_incoming_unidirectional_stream(session);
    assert_eq!(bi.kind, EventKind::IncomingBidirectionalStream);
    assert_eq!(uni.kind, EventKind::IncomingUnidirectionalStream);
    assert!(uni.stream > bi.stream);
    assert!(client.write_stream(bi.stream, vec![1, 2]).is_ok());
    assert_eq!(client.write_stream(uni.stream, vec![1, 2]), Err(ClientError::InvalidStream));
}

#[test]
fn received_datagrams_are_dropped_when_host_lags() {
    let (mut client, session) = connected_client();
    for i in 0..10u8 {
        client.on_datagram_received(session, vec![i]);
    }
    let stats = client.stats();
    assert_eq!(stats.datagrams_received, 10);
    assert_eq!(stats.queued_events, 8);
    assert_eq!(stats.dropped_datagrams, 2);
    let first = client.poll().unwrap();
    assert_eq!(first.kind, EventKind::Datagram);
    assert_eq!(first.data, vec![0]);
}

#[test]
fn tracing_reports_metadata_when_enabled() {
    let mut client = Client::new(8).unwrap();
    let quiet = client.connect("https://a.test", ConnectOptions::default()).unwrap();
    assert!(client.poll().is_none());
    client.set_trace_enabled(true);
    let traced = client.connect("https://b.test", ConnectOptions::default()).unwrap();
    assert!(traced > quiet);
    let event = client.poll().unwrap();
    assert_eq!(event.kind, EventKind::Trace);
    assert_eq!(event.session, traced);
    assert_eq!(event.data, b"connect_started");
}

#[test]
fn failed_connection_is_counted_and_forgotten() {
    let mut client = Client::new(8).unwrap();
    let session = client.connect("https://a.test", ConnectOptions::default()).unwrap();
    let event = client.on_connect_failed(session, TransportError::from_network("connection timeout".to_string()));
    assert_eq!(event.kind, EventKind::ConnectionFailed);
    client.on_session_ended(session);
    assert_eq!(client.session_state(session), None);
    assert_eq!(client.stats().connection_failures, 1);
}

#[test]
fn session_close_is_reported() {
    let (mut client, session) = connected_client();
    assert!(client.close(session, 7).is_ok());
    let closed = client.on_session_closed(session, "closed by peer".to_string());
    assert_eq!(closed.kind, EventKind::Closed);
    client.on_session_ended(session);
    assert_eq!(client.stats().active_sessions, 0);
}

#[test]
fn stream_data_is_counted() {
    let (mut client, session) = connected_client();
    let event = client.on_stream_data(session, 9, vec![1, 2, 3]);
    assert_eq!(event.kind, EventKind::StreamData);
    assert_eq!(event.data, vec![1, 2, 3]);
    assert_eq!(client.stats().stream_bytes_received, 3);
}

#[test]
fn certificate_hashes_are_split_into_32_byte_chunks() {
    let raw: Vec<u8> = (0..70u8).collect();
    let hashes = split_certificate_hashes(&raw);
    assert_eq!(hashes.len(), 2);
    assert_eq!(hashes[0][0], 0);
    assert_eq!(hashes[1][0], 32);
    assert_eq!(hashes[1][31], 63);
    assert!(split_certificate_hashes(&[]).is_empty());
}

#[test]
fn custom_ca_list_must_not_be_empty() {
    let e = custom_root_store(Vec::new()).err().unwrap();
    assert_eq!(e.category, ErrorCategory::InvalidArgument);
    assert_eq!(e.message, "custom CA list is empty");
}

#[test]
fn malformed_custom_ca_is_rejected() {
    let e = custom_root_store(vec![vec![1, 2, 3]]).err().unwrap();
    assert_eq!(e.category, ErrorCategory::InvalidArgument);
    assert!(e.message.starts_with("invalid custom CA certificate: "));
    assert!(e.message.len() > "invalid custom CA certificate: ".len());
}

#[test]
fn refused_custom_ca_error_quotes_the_refusal() {
    let e = rejected_certificate_error("no certificate found");
    assert_eq!(e.category, ErrorCategory::InvalidArgument);
    assert_eq!(e.code, -1);
    assert_eq!(e.message, "invalid custom CA certificate: no certificate found");
    assert!(!e.retryable);
    assert_eq!(e.tls_alert, None);
}

#[test]
fn well_formed_custom_ca_is_accepted() {
    let identity = wtransport::Identity::self_signed(["localhost"]).unwrap();
    let der = identity.certificate_chain().as_slice()[0].der().to_vec();
    let store = custom_root_store(vec![der]).ok().unwrap();
    assert_eq!(store.len(), 1);
    let mixed = custom_root_store(vec![
        identity.certificate_chain().as_slice()[0].der().to_vec(),
        vec![0x30, 0x00],
    ]);
    assert!(mixed.is_err());
}

#[test]
fn client_configuration_follows_the_certificate_mode() {
    assert!(client_config(CertificateMode::ServerCertificateHashes(vec![[7u8; 32]])).is_ok());
    let empty = client_config(CertificateMode::CustomCaCertificates(Vec::new())).err().unwrap();
    assert_eq!(empty.message, "custom CA list is empty");
    let bad = client_config(CertificateMode::CustomCaCertificates(vec![vec![9]])).err().unwrap();
    assert_eq!(bad.code, -1);
}
