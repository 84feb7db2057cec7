use binder_trace::{
    BinderDevice, BinderEvent, CaptureConfig, CaptureMode, EventKind, KernelCapabilities,
    KernelCapability, KernelConfig, MAX_INLINE_PAYLOAD, parse_enabled_key,
};

#[test]
fn parses_enabled_config_keys() {
    assert_eq!(parse_enabled_key("CONFIG_BPF=y").as_deref(), Some("CONFIG_BPF"));
    assert_eq!(parse_enabled_key("CONFIG_KPROBES=m").as_deref(), Some("CONFIG_KPROBES"));
    assert_eq!(parse_enabled_key("# CONFIG_DEBUG_INFO_BTF is not set"), None);
    assert_eq!(parse_enabled_key("CONFIG_HZ=300"), None);
}

#[test]
fn detects_ebpf_kprobe_capability() {
    let config = KernelConfig::parse(
        "\
CONFIG_BPF=y
CONFIG_BPF_SYSCALL=y
CONFIG_BPF_EVENTS=y
CONFIG_KPROBES=y
CONFIG_KPROBE_EVENTS=y
# CONFIG_DEBUG_INFO_BTF is not set
",
    );

    let capabilities = KernelCapabilities::from_config(&config);

    assert!(capabilities.has_any_ebpf());
    assert!(capabilities.supports(CaptureMode::ebpf_kprobe()));
    assert!(capabilities.contains(KernelCapability::KprobeEvents));
    assert!(!capabilities.contains(KernelCapability::DebugInfoBtf));
}

#[test]
fn reports_missing_kprobe_requirements() {
    let config = KernelConfig::parse(
        "\
CONFIG_BPF=y
CONFIG_BPF_SYSCALL=y
# CONFIG_BPF_EVENTS is not set
# CONFIG_KPROBES is not set
",
    );

    let capabilities = KernelCapabilities::from_config(&config);

    assert_eq!(
        capabilities.missing_for(CaptureMode::ebpf_kprobe()),
        vec![KernelCapability::BpfEvents, KernelCapability::Kprobes]
    );
}

#[test]
fn supports_combined_capture_modes() {
    let config = KernelConfig::parse(
        "\
CONFIG_BPF=y
CONFIG_BPF_SYSCALL=y
CONFIG_BPF_EVENTS=y
CONFIG_KPROBES=y
",
    );
    let capabilities = KernelCapabilities::from_config(&config);
    let mode = CaptureMode::ebpf_kprobe().union(CaptureMode::ebpf_tracepoint());

    assert!(mode.contains(CaptureMode::ebpf_kprobe()));
    assert!(mode.contains(CaptureMode::ebpf_tracepoint()));
    assert!(capabilities.supports(mode));
}

#[test]
fn combined_mode_requirements_are_listed_once() {
    let mode = CaptureMode::ebpf_kprobe()
        .union(CaptureMode::ebpf_tracepoint())
        .union(CaptureMode::tracefs_kprobe());
    assert_eq!(
        mode.required_capabilities(),
        vec![
            KernelCapability::Bpf,
            KernelCapability::BpfSyscall,
            KernelCapability::BpfEvents,
            KernelCapability::Kprobes,
            KernelCapability::Ftrace,
            KernelCapability::KprobeEvents,
        ]
    );
    assert_eq!(mode.names(), vec!["ebpf-kprobe", "ebpf-tracepoint", "tracefs-kprobe"]);
    assert!(CaptureMode::empty().names().is_empty());
}

#[test]
fn empty_mode_is_never_supported() {
    let config = KernelConfig::parse("CONFIG_BPF=y\r\nCONFIG_FTRACE=m");
    let capabilities = KernelCapabilities::from_config(&config);
    assert!(!capabilities.supports(CaptureMode::empty()));
    assert!(config.is_enabled("CONFIG_BPF"));
    assert!(config.is_enabled("CONFIG_FTRACE"));
    assert_eq!(capabilities.names(), vec!["bpf", "ftrace"]);
    assert_eq!(KernelCapability::FtraceSyscalls.config_key(), "CONFIG_FTRACE_SYSCALLS");
}

#[test]
fn default_capture_config_is_disabled() {
    let config = CaptureConfig::default_config();

    assert_eq!(config.enabled, 0);
    assert_ne!(config.point_mask, 0);
}

#[test]
fn transaction_capture_uses_only_the_transaction_hook() {
    let config = CaptureConfig::binder_transaction_enabled();
    assert_eq!(config.enabled, 1);
    assert_eq!(config.point_mask, 4);
    assert_eq!(CaptureConfig::enabled().point_mask, 7);
}

#[test]
fn ioctl_numbers_follow_linux_encoding() {
    assert_eq!(binder_trace::ior(0x00, 8), 0x8008_4200);
    assert_eq!(binder_trace::iow(0x01, 48), 0x4030_4201);
    assert_eq!(binder_trace::io(0x04), 0x0000_4204);
}

#[test]
fn c_string_stops_at_first_nul() {
    assert_eq!(binder_trace::c_string_lossy(b"bt_kmod\0junk"), "bt_kmod");
    assert_eq!(binder_trace::c_string_lossy(b"full"), "full");
}

fn socket_event(kind: u32, reply: u32) -> BinderEvent {
    let mut payload = [0; MAX_INLINE_PAYLOAD];
    payload[..3].copy_from_slice(&[1, 2, 3]);
    BinderEvent {
        sequence: 7,
        timestamp_ns: 8,
        kind,
        pid: 9,
        tgid: 10,
        uid: 11,
        reply,
        lost_before: 0,
        transaction_debug_id: 0,
        reply_to_debug_id: 0,
        transaction: 0,
        proc: 0,
        thread: 0,
        extra_buffers_size: 0,
        code: 12,
        flags: 13,
        data_size: 14,
        offsets_size: 15,
        target_handle: 16,
        sender_pid: 17,
        sender_euid: 18,
        payload_len: 3,
        payload_truncated: 0,
        reserved: [0; 7],
        payload,
    }
}

#[test]
fn converts_transaction_event_without_device_path_lookup() {
    let event = socket_event(1, 0);

    let raw = event.to_raw_event().expect("transaction event should convert");

    assert_eq!(raw.header.kind, EventKind::Transaction.as_raw());
    assert_eq!(raw.header.device, BinderDevice::unknown().as_raw());
    assert_eq!(raw.header.pid, 10);
    assert_eq!(raw.header.tid, 9);
    assert_eq!(raw.transaction.code, 12);
    assert_eq!(&raw.transaction.payload[..3], &[1, 2, 3]);
}

#[test]
fn converts_reply_events_and_skips_other_kinds() {
    let reply = socket_event(1, 1).to_raw_event().expect("reply should convert");
    assert_eq!(reply.header.kind, EventKind::Reply.as_raw());
    assert!(socket_event(99, 0).to_raw_event().is_none());
    assert_eq!(socket_event(1, 0).payload_bytes(), vec![1, 2, 3]);
}

#[test]
fn carriage_return_stays_on_an_unterminated_last_line() {
    assert!(!KernelConfig::parse("A=y\r").is_enabled("A"));
    assert!(KernelConfig::parse("A=y\r\n").is_enabled("A"));
    assert!(!KernelConfig::parse("B=m\nA=y\r").is_enabled("A"));
    assert!(KernelConfig::parse("B=m\nA=y\r").is_enabled("B"));
}

#[test]
fn an_empty_config_enables_no_capability() {
    let caps = KernelCapabilities::from_config(&KernelConfig::parse(""));
    assert_eq!(caps.bits, 0);
    assert!(caps.names().is_empty());
    let caps = KernelCapabilities::from_config(&KernelConfig::parse("CONFIG_KPROBES=y\nCONFIG_BPF=m"));
    assert_eq!(caps.names(), vec!["bpf", "kprobes"]);
}
