use godot_wtransport::abi::{abi_version_from_source, contains_exact, header_declares_abi_version};
use godot_wtransport::devserver::{
    certificate_sans, certificate_validity, generated_identity, parse_dev_server_args,
    CertificateValidity, DevServerArgError, DevServerCommand,
};
use godot_wtransport::error::{ClientError, ErrorCategory, TransportError};
use godot_wtransport::event::{Event, EventKind};
use godot_wtransport::ffi::{
    certificate_hash_bytes, into_ffi_event, status, GwtClientStats, GwtEvent, GwtStatus,
    ABI_VERSION,
};
use godot_wtransport::options::ClientStats;
use godot_wtransport::text::{has_https_scheme, parse_u64};

#[test]
fn header_abi_version_matches_rust() {
    let header = format!("#define GWT_ABI_VERSION {ABI_VERSION}u");
    assert!(header.contains(&format!("#define GWT_ABI_VERSION {ABI_VERSION}u")));
    assert!(header_declares_abi_version(&header, ABI_VERSION.to_string().as_bytes()));
    assert_eq!(header, "#define GWT_ABI_VERSION 1u");
}

#[test]
fn abi_version_is_read_from_the_rust_source() {
    let source = "use std::ptr;\r\n\r\npub const ABI_VERSION: u32 = 1;\r\n#[repr(C)]\n";
    assert_eq!(abi_version_from_source(source), Some(b"1".to_vec()));
    assert_eq!(abi_version_from_source("pub const ABI_VERSION: u32 = 12;"), Some(b"12".to_vec()));
    assert_eq!(abi_version_from_source("pub const ABI_VERSION: u32 = 1"), None);
    assert_eq!(abi_version_from_source("  pub const ABI_VERSION: u32 = 1;"), None);
    assert_eq!(abi_version_from_source(""), None);
}

#[test]
fn header_check_detects_a_mismatch() {
    let header = "/* C ABI */\n#define GWT_ABI_VERSION 2u\n";
    assert!(header_declares_abi_version(header, b"2"));
    assert!(!header_declares_abi_version(header, b"1"));
    assert!(contains_exact(b"abcabd", b"abd"));
    assert!(!contains_exact(b"ab", b"abc"));
}

#[test]
fn status_codes_match_the_c_abi() {
    assert_eq!(GwtStatus::Success.code(), 0);
    assert_eq!(GwtStatus::NoEvent.code(), 1);
    assert_eq!(GwtStatus::InvalidArgument.code(), -1);
    assert_eq!(GwtStatus::InvalidHandle.code(), -2);
    assert_eq!(GwtStatus::InternalError.code(), -3);
    assert_eq!(GwtStatus::Panic.code(), -4);
}

#[test]
fn client_errors_map_to_statuses() {
    assert_eq!(status(ClientError::InvalidArgument("x".to_string())), GwtStatus::InvalidArgument);
    assert_eq!(status(ClientError::InvalidSession), GwtStatus::InvalidHandle);
    assert_eq!(status(ClientError::InvalidStream), GwtStatus::InvalidHandle);
    assert_eq!(status(ClientError::ShuttingDown), GwtStatus::InternalError);
}

#[test]
fn events_flatten_for_the_c_abi() {
    let plain = into_ffi_event(Event::simple(EventKind::Draining, 4));
    assert_eq!(plain.kind, 12);
    assert_eq!(plain.session, 4);
    assert_eq!(plain.error_category, 0);
    assert!(!plain.retryable);
    assert!(plain.data.is_empty());

    let mut error = TransportError::from_network("dns failure".to_string());
    error.os_error = Some(11);
    let failed = into_ffi_event(Event::failure(9, error));
    assert_eq!(failed.kind, 2);
    assert_eq!(failed.error_category, ErrorCategory::Dns.code());
    assert!(failed.retryable);
    assert_eq!(failed.code, -2);
    assert_eq!(failed.os_error, 11);
    assert_eq!(failed.tls_alert, 0);
    assert_eq!(failed.data, b"dns failure");

    let empty = GwtEvent::default();
    assert_eq!(empty.kind, 0);
    assert!(empty.data.is_empty());
}

#[test]
fn stats_flatten_for_the_c_abi() {
    let stats = ClientStats {
        dropped_datagrams: 1,
        queued_events: 2,
        active_sessions: 3,
        active_streams: 4,
        active_draining_sessions: 5,
        ..ClientStats::default()
    };
    let flat = GwtClientStats::from_stats(stats);
    assert_eq!(
        flat,
        GwtClientStats { dropped_datagrams: 1, queued_events: 2, active_sessions: 3, active_streams: 4 }
    );
}

#[test]
fn hash_byte_length_saturates() {
    assert_eq!(certificate_hash_bytes(2), 64);
    assert_eq!(certificate_hash_bytes(usize::MAX), usize::MAX);
}

#[test]
fn url_scheme_check() {
    assert!(has_https_scheme("https://x"));
    assert!(!has_https_scheme("http://x"));
    assert!(!has_https_scheme("https:/"));
    assert!(!has_https_scheme("HTTPS://x"));
}

#[test]
fn decimal_parsing_follows_u64_rules() {
    assert_eq!(parse_u64("250"), Some(250));
    assert_eq!(parse_u64("+7"), Some(7));
    assert_eq!(parse_u64("18446744073709551615"), Some(u64::MAX));
    assert_eq!(parse_u64("18446744073709551616"), None);
    assert_eq!(parse_u64(""), None);
    assert_eq!(parse_u64("+"), None);
    assert_eq!(parse_u64("-1"), None);
    assert_eq!(parse_u64("1a"), None);
}

fn args(list: &[&str]) -> (Vec<String>, Vec<bool>) {
    let v: Vec<String> = list.iter().map(|s| s.to_string()).collect();
    // Stands in for the host's socket address parser: only `host:port` forms pass.
    let ok = v.iter().map(|s| s.contains(':') && !s.starts_with('-')).collect();
    (v, ok)
}

#[test]
fn dev_server_defaults() {
    let (a, ok) = args(&[]);
    match parse_dev_server_args(&a, &ok) {
        Ok(DevServerCommand::Run(parsed)) => {
            assert_eq!(parsed.listen, "127.0.0.1:4433");
            assert!(parsed.cert.is_none());
            assert_eq!(parsed.accept_delay_ms, 0);
            assert_eq!(certificate_sans(&parsed), vec!["localhost", "127.0.0.1", "::1"]);
            assert_eq!(certificate_validity(&parsed), CertificateValidity::FromNow { days: 13 });
            let generated = generated_identity(&parsed).unwrap();
            let chain = generated.identity.certificate_chain();
            assert_eq!(chain.as_slice().len(), 1);
            assert!(contains_exact(chain.as_slice()[0].der(), b"localhost"));
        }
        _ => panic!("defaults must parse"),
    }
}

#[test]
fn dev_server_options_are_read() {
    let (a, ok) = args(&[
        "--listen", "0.0.0.0:9000", "--reject", "--accept-delay-ms", "250", "--san", "game.test",
        "--expired", "--write-generated-cert", "out.pem",
    ]);
    match parse_dev_server_args(&a, &ok) {
        Ok(DevServerCommand::Run(parsed)) => {
            assert_eq!(parsed.listen, "0.0.0.0:9000");
            assert!(parsed.reject);
            assert!(parsed.expired);
            assert_eq!(parsed.accept_delay_ms, 250);
            assert_eq!(parsed.write_generated_cert.as_deref(), Some("out.pem"));
            assert_eq!(certificate_sans(&parsed), vec!["game.test"]);
            assert_eq!(
                certificate_validity(&parsed),
                CertificateValidity::Expired { starts_days_ago: 2, ends_days_ago: 1 }
            );
            let generated = generated_identity(&parsed).unwrap();
            let der = generated.identity.certificate_chain().as_slice()[0].der().to_vec();
            assert!(contains_exact(&der, b"game.test"));
            assert!(!contains_exact(&der, b"localhost"));
        }
        _ => panic!("options must parse"),
    }
}

#[test]
fn dev_server_refusals() {
    let (a, ok) = args(&["--cert", "c.pem"]);
    assert!(matches!(parse_dev_server_args(&a, &ok), Err(DevServerArgError::CertKeyMismatch)));
    let (a, ok) = args(&["--cert", "c.pem", "--key", "k.pem", "--expired"]);
    assert!(matches!(parse_dev_server_args(&a, &ok), Err(DevServerArgError::GeneratedOnlyOptions)));
    let (a, ok) = args(&["--listen"]);
    match parse_dev_server_args(&a, &ok) {
        Err(DevServerArgError::MissingValue(m)) => assert_eq!(m, "--listen requires an address"),
        _ => panic!("missing value"),
    }
    let (a, ok) = args(&["--listen", "nowhere", "--bogus"]);
    assert!(matches!(parse_dev_server_args(&a, &ok), Err(DevServerArgError::InvalidAddress(v)) if v == "nowhere"));
    let (a, ok) = args(&["--accept-delay-ms", "soon"]);
    assert!(matches!(parse_dev_server_args(&a, &ok), Err(DevServerArgError::InvalidDelay(_))));
    let (a, ok) = args(&["--bogus"]);
    assert!(matches!(parse_dev_server_args(&a, &ok), Err(DevServerArgError::UnknownArgument(v)) if v == "--bogus"));
    let (a, ok) = args(&["-h", "--bogus"]);
    assert!(matches!(parse_dev_server_args(&a, &ok), Ok(DevServerCommand::Help)));
}
