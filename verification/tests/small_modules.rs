use binder_trace::ebpf::{CapturePolicy, bounded_payload_len, empty_event};
use binder_trace::startup::{BuildSignature, non_empty};
use binder_trace::tui::input::{KeyParser, escape_to_command, is_escape_prefix};
use binder_trace::tui::UiCommand;
use binder_trace::history::{capture_dir_modes, should_lock_capture_path};
use binder_trace::web::{WebApp, WebConfig};
use binder_trace::webui::content_type;
use binder_trace::{AgentError, CaptureMode, DecodeError, MAX_INLINE_PAYLOAD, StorageError};

#[test]
fn build_signature_requires_key_and_signature() {
    assert!(matches!(
        BuildSignature::from_parts(Some("key-1"), None, Some("ed25519")),
        BuildSignature::Unsigned
    ));
    assert!(matches!(
        BuildSignature::from_parts(None, Some("sig-1"), Some("ed25519")),
        BuildSignature::Unsigned
    ));
    assert!(matches!(
        BuildSignature::from_parts(Some("key-1"), Some("sig-1"), None),
        BuildSignature::Present {
            algorithm: "ed25519",
            key_id: "key-1",
            signature: "sig-1",
            covered: "official_release_manifest",
        }
    ));
}

#[test]
fn build_signature_trims_and_ignores_blank_parts() {
    assert!(matches!(
        BuildSignature::from_parts(Some("  "), Some("sig"), None),
        BuildSignature::Unsigned
    ));
    assert_eq!(
        BuildSignature::from_parts(Some(" k "), Some(" s "), Some(" rsa ")),
        BuildSignature::Present {
            algorithm: "rsa",
            key_id: "k",
            signature: "s",
            covered: "official_release_manifest",
        }
    );
    assert_eq!(non_empty(Some(" x ")), Some("x"));
    assert_eq!(non_empty(Some("")), None);
    assert_eq!(non_empty(None), None);
}

#[test]
fn key_parser_reads_keys_and_escape_sequences() {
    let mut parser = KeyParser::new();
    assert_eq!(parser.push(b'q'), Some(UiCommand::Quit));
    assert_eq!(parser.push(0x03), Some(UiCommand::Quit));
    assert_eq!(parser.push(b' '), Some(UiCommand::Space));
    assert_eq!(parser.push(b'c'), Some(UiCommand::Clear));
    assert_eq!(parser.push(b'\t'), Some(UiCommand::NextPane));
    assert_eq!(parser.push(b'x'), None);

    let feed = |parser: &mut KeyParser, bytes: &[u8]| {
        let mut last = None;
        for byte in bytes {
            last = parser.push(*byte);
        }
        last
    };
    assert_eq!(feed(&mut parser, b"\x1b[A"), Some(UiCommand::Up));
    assert_eq!(feed(&mut parser, b"\x1b[B"), Some(UiCommand::Down));
    assert_eq!(feed(&mut parser, b"\x1b[5~"), Some(UiCommand::PageUp));
    assert_eq!(feed(&mut parser, b"\x1b[6~"), Some(UiCommand::PageDown));
    assert_eq!(feed(&mut parser, b"\x1bOH"), Some(UiCommand::Home));
    assert_eq!(feed(&mut parser, b"\x1b[4~"), Some(UiCommand::End));
    // An unknown sequence is dropped and plain keys work again.
    assert_eq!(feed(&mut parser, b"\x1b[Z"), None);
    assert_eq!(parser.push(b'q'), Some(UiCommand::Quit));
}

#[test]
fn escape_table_lookups() {
    assert_eq!(escape_to_command(b"\x1b[H"), Some(UiCommand::Home));
    assert_eq!(escape_to_command(b"\x1b[1~"), Some(UiCommand::Home));
    assert_eq!(escape_to_command(b"\x1b[F"), Some(UiCommand::End));
    assert_eq!(escape_to_command(b"\x1b["), None);
    assert!(is_escape_prefix(b"\x1b"));
    assert!(is_escape_prefix(b"\x1b[5"));
    assert!(!is_escape_prefix(b"\x1b[Z"));
}

#[test]
fn capture_policy_limits_payload_and_identity() {
    let policy = CapturePolicy::default();
    assert_eq!(policy.max_payload_bytes, MAX_INLINE_PAYLOAD);
    assert_eq!(bounded_payload_len(100, policy), (100, false));
    assert_eq!(bounded_payload_len(1000, policy), (MAX_INLINE_PAYLOAD, true));
    assert_eq!(bounded_payload_len(10, CapturePolicy::metadata_only()), (0, true));
    assert_eq!(bounded_payload_len(0, CapturePolicy::metadata_only()), (0, false));
    let wide = CapturePolicy { max_payload_bytes: 10_000, target_pid: None, target_uid: None };
    assert_eq!(bounded_payload_len(1000, wide), (MAX_INLINE_PAYLOAD, true));

    let targeted = CapturePolicy { max_payload_bytes: 0, target_pid: Some(7), target_uid: Some(1000) };
    assert!(targeted.allows_identity(7, 1000));
    assert!(!targeted.allows_identity(8, 1000));
    assert!(!targeted.allows_identity(7, 0));
    assert!(CapturePolicy::metadata_only().allows_identity(1, 2));

    let event = empty_event();
    assert_eq!(event.header.kind, 0);
    assert_eq!(event.transaction.payload_len, 0);
}

#[test]
fn web_app_keeps_its_configuration() {
    let config = WebConfig::default();
    assert_eq!(config.bind_address, "127.0.0.1:0");
    let app = WebApp::new(WebConfig { bind_address: "0.0.0.0:8080".to_owned() });
    assert_eq!(app.config().bind_address, "0.0.0.0:8080");
}

#[test]
fn capture_modes_read_as_their_names() {
    assert_eq!(CaptureMode::empty().describe(), "none");
    assert_eq!(CaptureMode::ebpf_kprobe().describe(), "ebpf-kprobe");
    assert_eq!(
        CaptureMode::ebpf_kprobe().union(CaptureMode::tracefs_kprobe()).describe(),
        "ebpf-kprobe, tracefs-kprobe"
    );
    assert_eq!(
        CaptureMode::ebpf_kprobe()
            .union(CaptureMode::ebpf_tracepoint())
            .union(CaptureMode::tracefs_kprobe())
            .describe(),
        "ebpf-kprobe, ebpf-tracepoint, tracefs-kprobe"
    );
}

#[test]
fn agent_errors_read_as_reported() {
    assert_eq!(DecodeError::UnknownEventKind(9).message(), "unknown raw event kind: 9");
    assert_eq!(
        DecodeError::PayloadLengthOutOfRange(300).message(),
        "raw payload length exceeds inline event payload: 300"
    );
    assert_eq!(StorageError::SequenceOverflow.message(), "message sequence overflow");
    assert_eq!(
        AgentError::Decode(DecodeError::UnknownEventKind(9)).message(),
        "failed to decode event: unknown raw event kind: 9"
    );
    assert_eq!(
        AgentError::Storage(StorageError::SequenceOverflow).message(),
        "failed to persist event: message sequence overflow"
    );
    assert_eq!(
        AgentError::EventStreamUnsupported.message(),
        "binder-trace kernel module does not support the socket event stream"
    );
}

#[test]
fn only_the_default_history_path_is_locked() {
    use_lock_helpers();
}

fn use_lock_helpers() {
    assert!(should_lock_capture_path(Some("events.btcap"), Some("binder-trace")));
    assert!(!should_lock_capture_path(Some("events.btcap"), Some("tmp")));
    assert!(!should_lock_capture_path(Some("other.btcap"), Some("binder-trace")));
    assert!(!should_lock_capture_path(None, Some("binder-trace")));
    assert_eq!(capture_dir_modes(0o40755), (0o755, 0o555));
    assert_eq!(capture_dir_modes(0o000), (0o700, 0o500));
    assert_eq!(capture_dir_modes(0o1777), (0o1777, 0o1555));
}

#[test]
fn assets_are_typed_by_extension() {
    assert_eq!(content_type("/index.html"), "text/html; charset=utf-8");
    assert_eq!(content_type("/assets/app.4f2a.js"), "text/javascript; charset=utf-8");
    assert_eq!(content_type("/assets/logo.JPG"), "application/octet-stream");
    assert_eq!(content_type("/assets/photo.jpeg"), "image/jpeg");
    assert_eq!(content_type("/fonts/a.woff2"), "font/woff2");
    assert_eq!(content_type("/.hidden"), "application/octet-stream");
    assert_eq!(content_type("/dir.d/file"), "application/octet-stream");
    assert_eq!(content_type("/README"), "application/octet-stream");
}
