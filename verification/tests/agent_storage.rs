use binder_trace::{
    Agent, AgentConfig, AgentError, BinderDevice, BinderEvent, DecodeError, DecodedEvent,
    Decoder, EventCollector, EventEnvelope, EventKind, JsonlSink, MAX_INLINE_PAYLOAD,
    OutputConfig, ProgramVersion, StorageError, payload_hex, resolve_device_id, startup_event,
};
use serde_json::Value;

fn binder_event(sequence: u64, reply: bool) -> BinderEvent {
    let mut payload = [0; MAX_INLINE_PAYLOAD];
    payload[..4].copy_from_slice(&[0x01, 0x02, 0x03, 0x04]);
    BinderEvent {
        sequence,
        timestamp_ns: 123,
        kind: 1,
        pid: 45,
        tgid: 44,
        uid: 1000,
        reply: u32::from(reply),
        lost_before: 0,
        transaction_debug_id: 7,
        reply_to_debug_id: 6,
        transaction: 0,
        proc: 0,
        thread: 0,
        extra_buffers_size: 0,
        code: 8,
        flags: 9,
        data_size: 10,
        offsets_size: 11,
        target_handle: 12,
        sender_pid: 13,
        sender_euid: 14,
        payload_len: 4,
        payload_truncated: 0,
        reserved: [0; 7],
        payload,
    }
}

fn diagnostic_event() -> DecodedEvent {
    DecodedEvent {
        kind: EventKind::Diagnostic,
        device: BinderDevice::unknown(),
        pid: 123,
        tid: 124,
        uid: 2000,
        flags: 0,
        timestamp_ns: 9,
        sequence: 7,
        transaction: None,
    }
}

fn parse_json_lines(output: &str) -> Vec<Value> {
    output
        .lines()
        .map(|line| serde_json::from_str(line).expect("json line should parse"))
        .collect()
}

#[test]
fn collector_writes_transaction_and_reply_events() {
    let events = vec![binder_event(1, false), binder_event(2, true)];
    let decoder = Decoder::default_decoder();
    let collector = EventCollector::new(&decoder, "device-1");
    let mut sink = JsonlSink::new();

    let written = collector
        .collect_batch(&events, &mut sink)
        .expect("socket events should be written");

    let lines = sink.flush();
    let values = lines.lines().collect::<Vec<_>>();
    assert_eq!(written, 2);
    assert_eq!(values.len(), 2);
    assert!(values[0].contains("\"object\":\"binder.transaction\""));
    assert!(values[1].contains("\"object\":\"binder.reply\""));
    assert!(values[0].contains("\"binder_device\":\"unknown\""));
    assert!(values[0].contains("\"process\":{\"pid\":44,\"tid\":45,\"uid\":1000}"));
    assert!(values[0].contains("\"payload_hex\":\"01020304\""));
}

#[test]
fn collector_skips_unknown_socket_event_kind() {
    let mut event = binder_event(1, false);
    event.kind = 99;
    let decoder = Decoder::default_decoder();
    let collector = EventCollector::new(&decoder, "device-1");
    let mut sink = JsonlSink::new();

    let written = collector
        .collect_batch(&[event], &mut sink)
        .expect("unknown events should be skipped");

    assert_eq!(written, 0);
    assert!(sink.flush().is_empty());
}

#[test]
fn collector_stops_at_an_oversized_payload() {
    let mut bad = binder_event(2, false);
    bad.payload_len = 300;
    let events = vec![binder_event(1, false), bad, binder_event(3, false)];
    let decoder = Decoder::default_decoder();
    let collector = EventCollector::new(&decoder, "device-1");
    let mut sink = JsonlSink::new();

    let result = collector.collect_batch(&events, &mut sink);

    assert_eq!(
        result,
        Err(AgentError::Decode(DecodeError::PayloadLengthOutOfRange(300)))
    );
    assert_eq!(sink.flush().lines().count(), 1);
    assert_eq!(sink.next_sequence(), 1);
}

#[test]
fn collector_looks_at_one_batch_of_events_at_most() {
    let events = (0..600).map(|i| binder_event(i, false)).collect::<Vec<_>>();
    let decoder = Decoder::default_decoder();
    let collector = EventCollector::new(&decoder, "device-1");
    let mut sink = JsonlSink::new();

    assert_eq!(collector.collect_batch(&events, &mut sink), Ok(512));
    assert_eq!(sink.flush().lines().count(), 512);
}

#[test]
fn collector_output_parses_as_json() {
    let decoder = Decoder::default_decoder();
    let collector = EventCollector::new(&decoder, "dev\"ice");
    let mut sink = JsonlSink::new();
    collector
        .collect_batch(&[binder_event(5, true)], &mut sink)
        .expect("event should be written");

    let values = parse_json_lines(&sink.flush());
    assert_eq!(values.len(), 1);
    assert_eq!(values[0]["device_id"].as_str(), Some("dev\"ice"));
    assert_eq!(values[0]["seq"].as_u64(), Some(0));
    assert_eq!(values[0]["timestamp_ns"].as_u64(), Some(123));
    assert_eq!(values[0]["data"]["kind"].as_str(), Some("reply"));
    assert_eq!(values[0]["data"]["sequence"].as_u64(), Some(5));
    assert_eq!(values[0]["data"]["transaction"]["code"].as_u64(), Some(8));
    assert_eq!(
        values[0]["data"]["transaction"]["payload_truncated"].as_bool(),
        Some(false)
    );
}

#[test]
fn writes_message_envelope() {
    let event = diagnostic_event();
    let envelope = EventEnvelope {
        device_id: "device-1",
        timestamp_ns: event.timestamp_ns,
        object: "agent.diagnostic",
    };
    let mut sink = JsonlSink::new();

    sink.write_event(envelope, &event)
        .expect("event should be written");

    let json = sink.flush();
    assert!(json.ends_with('\n'));
    let value: Value = serde_json::from_str(json.trim_end()).expect("json line should parse");
    assert_eq!(value["device_id"].as_str(), Some("device-1"));
    assert_eq!(value["seq"].as_u64(), Some(0));
    assert_eq!(value["timestamp_ns"].as_u64(), Some(9));
    assert_eq!(value["object"].as_str(), Some("agent.diagnostic"));
    assert_eq!(value["data"]["kind"].as_str(), Some("diagnostic"));
    assert_eq!(value["data"]["binder_device"].as_str(), Some("unknown"));
    assert_eq!(value["data"]["process"]["pid"].as_u64(), Some(123));
    assert_eq!(value["data"]["process"]["tid"].as_u64(), Some(124));
    assert_eq!(value["data"]["process"]["uid"].as_u64(), Some(2000));
    assert!(value["data"]["transaction"].is_null());
}

#[test]
fn increments_message_sequence() {
    let event = diagnostic_event();
    let envelope = EventEnvelope {
        device_id: "device-1",
        timestamp_ns: event.timestamp_ns,
        object: "agent.diagnostic",
    };
    let mut sink = JsonlSink::new();

    sink.write_event(envelope, &event)
        .expect("first event should be written");
    sink.write_event(envelope, &event)
        .expect("second event should be written");

    let lines = parse_json_lines(&sink.flush());
    assert_eq!(lines.len(), 2);
    assert_eq!(lines[0]["seq"].as_u64(), Some(0));
    assert_eq!(lines[1]["seq"].as_u64(), Some(1));
}

#[test]
fn writes_program_version_envelope() {
    let envelope = EventEnvelope {
        device_id: "device-1",
        timestamp_ns: 11,
        object: "program.version",
    };
    let version = ProgramVersion {
        program: "binder-trace",
        version: "0.1.0",
    };
    let mut sink = JsonlSink::new();

    sink.write_program_version(envelope, version)
        .expect("version event should be written");

    let json = sink.flush();
    let value: Value = serde_json::from_str(json.trim_end()).expect("json line should parse");
    assert_eq!(value["device_id"].as_str(), Some("device-1"));
    assert_eq!(value["seq"].as_u64(), Some(0));
    assert_eq!(value["object"].as_str(), Some("program.version"));
    assert_eq!(value["data"]["program"].as_str(), Some("binder-trace"));
    assert_eq!(value["data"]["version"].as_str(), Some("0.1.0"));
}

#[test]
fn json_strings_escape_quotes_and_control_characters() {
    let envelope = EventEnvelope {
        device_id: "a\"b\\c\nd\u{1}",
        timestamp_ns: 1,
        object: "x",
    };
    let version = ProgramVersion {
        program: "p",
        version: "v",
    };
    let mut sink = JsonlSink::new();
    sink.write_program_version(envelope, version).unwrap();
    let json = sink.flush();

    assert!(json.starts_with("{\"device_id\":\"a\\\"b\\\\c\\nd\\u0001\","));
    let value: Value = serde_json::from_str(json.trim_end()).unwrap();
    assert_eq!(value["device_id"].as_str(), Some("a\"b\\c\nd\u{1}"));
}

#[test]
fn flush_hands_over_pending_text_once() {
    let mut sink = JsonlSink::new();
    assert_eq!(sink.flush(), "");
    sink.write_event(
        EventEnvelope {
            device_id: "d",
            timestamp_ns: 0,
            object: "o",
        },
        &diagnostic_event(),
    )
    .unwrap();
    assert!(!sink.flush().is_empty());
    assert_eq!(sink.flush(), "");
    assert_eq!(sink.next_sequence(), 1);
}

#[test]
fn writes_startup_events_before_collecting() {
    let agent = Agent::new(AgentConfig::default());
    let decoder = Decoder::default_decoder();
    let event = decoder
        .decode(&startup_event(42, 77))
        .expect("startup event should decode");
    let mut sink = JsonlSink::new();

    agent
        .write_startup_events(&mut sink, "device-1", &event, "0.1.0")
        .expect("startup events should be written");

    let lines = sink.flush();
    let records = lines.lines().collect::<Vec<_>>();
    assert_eq!(records.len(), 2);
    assert!(records[0].contains("\"object\":\"program.version\""));
    assert!(records[1].contains("\"object\":\"agent.diagnostic\""));
    let values = parse_json_lines(&lines);
    assert_eq!(values[1]["data"]["process"]["pid"].as_u64(), Some(42));
    assert_eq!(values[1]["timestamp_ns"].as_u64(), Some(77));
    assert_eq!(values[0]["data"]["program"].as_str(), Some("binder-trace"));
}

#[test]
fn agent_keeps_its_configuration() {
    let config = AgentConfig {
        output: OutputConfig::JsonlFile("out.jsonl".to_owned()),
        device_id: Some("dev".to_owned()),
    };
    let agent = Agent::new(config.clone());
    assert_eq!(agent.config(), &config);
    assert_eq!(AgentConfig::default().output, OutputConfig::Stdout);
    assert_eq!(StorageError::SequenceOverflow, StorageError::SequenceOverflow);
}

#[test]
fn device_id_comes_from_the_first_non_blank_source() {
    assert_eq!(
        resolve_device_id(&[None, Some("  ".to_owned()), Some(" serial ".to_owned())]),
        "serial"
    );
    assert_eq!(resolve_device_id(&[Some("cfg".to_owned()), Some("env".to_owned())]), "cfg");
    assert_eq!(resolve_device_id(&[None, None]), "unknown");
    assert_eq!(resolve_device_id(&[]), "unknown");
}

#[test]
fn payload_hex_uses_two_lowercase_digits_per_byte() {
    assert_eq!(payload_hex(&[0x00, 0x0f, 0xab, 0xff]), "000fabff");
    assert_eq!(payload_hex(&[]), "");
}
