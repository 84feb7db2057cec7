use binder_trace::history::HistoryError;
use binder_trace::mcp::McpServerError;
use binder_trace::tui::i18n::{
    BooleanMessages, FocusMessages, KeyMessages, Messages, TransactionKeyMessages, UiLanguage,
    render_status, render_template, replace_all,
};
use binder_trace::tui::screen::{
    render_frequency, render_parsed, render_screen, render_transactions, screen_layout,
    visible_window_bounds,
};
use binder_trace::tui::state::TuiState;
use binder_trace::tui::{FocusPane, TuiError};
use binder_trace::webui::embedded_asset_count;
use binder_trace::{
    BinderEvent, CaptureStats, DriverFeature, KernelConfigError, KernelConfigSource, ProbeStep,
    SocketIpcError, check_received_len, probe_step, zcat_outcome,
};

fn write_string16(output: &mut Vec<u8>, value: &str) {
    let units = value.encode_utf16().collect::<Vec<_>>();
    output.extend_from_slice(&(units.len() as i32).to_le_bytes());
    for unit in units {
        output.extend_from_slice(&unit.to_le_bytes());
    }
    output.extend_from_slice(&0_u16.to_le_bytes());
    while output.len() % 4 != 0 {
        output.push(0);
    }
}

fn binder_event(sequence: u64, interface: &str, code: u32) -> BinderEvent {
    let mut payload = Vec::new();
    payload.extend_from_slice(&0_i32.to_le_bytes());
    payload.extend_from_slice(&(-1_i32).to_le_bytes());
    payload.extend_from_slice(b"SYST");
    write_string16(&mut payload, interface);
    let mut inline_payload = [0_u8; 256];
    inline_payload[..payload.len()].copy_from_slice(&payload);
    BinderEvent {
        sequence,
        timestamp_ns: 0,
        kind: 1,
        pid: 0,
        tgid: 0,
        uid: 0,
        reply: 0,
        lost_before: 0,
        transaction_debug_id: 0,
        reply_to_debug_id: 0,
        transaction: 0,
        proc: 0,
        thread: 0,
        extra_buffers_size: 0,
        code,
        flags: 0,
        data_size: payload.len() as u64,
        offsets_size: 0,
        target_handle: 0,
        sender_pid: 0,
        sender_euid: 0,
        payload_len: payload.len() as u32,
        payload_truncated: 0,
        reserved: [0; 7],
        payload: inline_payload,
    }
}

fn strip_ansi(text: &str) -> String {
    let mut stripped = String::new();
    let mut chars = text.chars();
    while let Some(ch) = chars.next() {
        if ch == '\x1b' {
            for escaped in chars.by_ref() {
                if escaped == 'm' {
                    break;
                }
            }
        } else {
            stripped.push(ch);
        }
    }
    stripped
}

fn stats() -> CaptureStats {
    CaptureStats {
        ioctl_hits: 0,
        copy_to_user_hits: 0,
        transaction_hits: 0,
        captured: 0,
        filtered: 0,
    }
}

fn state_with(events: &[BinderEvent]) -> TuiState {
    let mut state = TuiState::new(0, 16, stats(), false, None, String::from("history.btcap"), UiLanguage::English);
    for (index, event) in events.iter().enumerate() {
        state.push_event(index as u64, *event);
    }
    state
}

#[test]
fn transaction_panel_lists_events_under_a_header() {
    let events = [
        binder_event(7, "android.os.IServiceManager", 1),
        binder_event(12345, "android.app.IActivityManager", 2),
    ];
    let state = state_with(&events);
    let lines = render_transactions(&state, 80, 6);
    assert_eq!(lines.len(), 6);
    let header = strip_ansi(&lines[1]);
    assert!(header.contains("Seq"));
    assert!(header.contains("Interface"));
    let first = strip_ansi(&lines[2]);
    assert!(first.contains("android.os.IServiceManager"));
    assert!(first.contains("send"));
    let second = strip_ansi(&lines[3]);
    assert!(second.contains("12345"));
    assert!(second.contains("android.app.IActivityManager"));
    // the sequence column is as wide as the widest shown number
    assert!(first.starts_with("│    7 "));
    assert_eq!(strip_ansi(&lines[0]).chars().count(), 80);
}

#[test]
fn transaction_panel_highlights_the_selected_row() {
    let events = [
        binder_event(1, "android.os.IServiceManager", 1),
        binder_event(2, "android.os.IServiceManager", 1),
    ];
    let state = state_with(&events);
    assert_eq!(state.selected, 1);
    let lines = render_transactions(&state, 80, 6);
    assert_ne!(lines[2], lines[3].replace("2 send", "1 send"));
    assert!(lines[3].contains("\x1b[48;5;"));
    assert!(!lines[2].contains("\x1b[48;5;"));
}

#[test]
fn transaction_panel_scrolls_to_keep_the_selection_visible() {
    let events: Vec<BinderEvent> =
        (0..10).map(|i| binder_event(100 + i, "android.os.IServiceManager", 1)).collect();
    let state = state_with(&events);
    let lines = render_transactions(&state, 80, 5);
    // three body rows: the header and the two last events
    assert!(strip_ansi(&lines[2]).contains("108"));
    assert!(strip_ansi(&lines[3]).contains("109"));
}

#[test]
fn empty_transaction_panel_shows_only_the_header() {
    let state = state_with(&[]);
    let lines = render_transactions(&state, 60, 5);
    assert_eq!(lines.len(), 5);
    assert!(strip_ansi(&lines[1]).contains("Seq"));
    assert_eq!(strip_ansi(&lines[2]).trim_matches(|c| c == '│' || c == ' '), "");
}

#[test]
fn frequency_panel_ranks_pairs_by_count() {
    let events = [
        binder_event(1, "android.os.IServiceManager", 1),
        binder_event(2, "android.app.IActivityManager", 2),
        binder_event(3, "android.app.IActivityManager", 2),
    ];
    let mut state = state_with(&events);
    state.sync_frequency_counts(&events);
    let lines = render_frequency(&state, 50, 6);
    assert_eq!(lines.len(), 6);
    assert!(strip_ansi(&lines[1]).contains("Frequency"));
    let first = strip_ansi(&lines[2]);
    assert!(first.contains("#2"));
    assert!(first.contains("2"));
    assert!(first.contains("on"));
    assert!(strip_ansi(&lines[3]).contains("#1"));
}

#[test]
fn parsed_panel_waits_for_a_selection() {
    let state = state_with(&[]);
    let lines = render_parsed(&state, 40, 5);
    assert!(strip_ansi(&lines[1]).contains("选择事件后显示解析结果"));
}

#[test]
fn parsed_panel_lists_fields_of_the_selected_event() {
    let events = [binder_event(9, "android.os.IServiceManager", 3)];
    let state = state_with(&events);
    let lines = render_parsed(&state, 60, 8);
    assert!(strip_ansi(&lines[1]).contains("binder_transaction"));
    assert!(strip_ansi(&lines[2]).contains("interface: android.os.IServiceManager"));
    assert!(strip_ansi(&lines[3]).contains("code: 3"));
}

#[test]
fn screen_layout_splits_a_large_terminal() {
    let layout = screen_layout(120, 36);
    assert_eq!(layout.width, 120);
    assert_eq!(layout.height, 36);
    assert_eq!(layout.content_height, 34);
    assert_eq!(layout.top_height, 17);
    assert_eq!(layout.bottom_height, 17);
    assert_eq!(layout.left_width, 67);
    assert_eq!(layout.right_width, 53);
}

#[test]
fn screen_layout_enforces_minimum_size() {
    let layout = screen_layout(10, 10);
    assert_eq!(layout.width, 72);
    assert_eq!(layout.height, 20);
    assert_eq!(layout.content_height, 18);
    assert_eq!(layout.top_height, 9);
    assert_eq!(layout.bottom_height, 9);
    assert_eq!(layout.left_width, 40);
    assert_eq!(layout.right_width, 32);
}

#[test]
fn screen_panels_fill_the_layout() {
    let events = [binder_event(1, "android.os.IServiceManager", 1)];
    let state = state_with(&events);
    let panels = render_screen(&state, 100, 30);
    assert_eq!(panels.transactions.len(), panels.layout.top_height);
    assert_eq!(panels.frequency.len(), panels.layout.top_height);
    assert_eq!(panels.hexdump.len(), panels.layout.bottom_height);
    assert_eq!(panels.parsed.len(), panels.layout.bottom_height);
    assert_eq!(state.focus, FocusPane::Transactions);
}

#[test]
fn window_bounds_cover_loaded_events() {
    let state = state_with(&[]);
    assert_eq!(visible_window_bounds(&state), (0, 0));
    let events = [
        binder_event(1, "android.os.IServiceManager", 1),
        binder_event(2, "android.os.IServiceManager", 1),
        binder_event(3, "android.os.IServiceManager", 1),
    ];
    let state = state_with(&events);
    assert_eq!(visible_window_bounds(&state), (0, 3));
}

#[test]
fn socket_errors_read_as_the_driver_reports_them() {
    assert_eq!(SocketIpcError::NotFound.message(), "未找到 binder-trace 控制协议族");
    assert_eq!(
        SocketIpcError::AbiMismatch { expected: 2, actual: 1 }.message(),
        "socket IPC ABI 不匹配: 期望 2, 实际 1"
    );
    assert_eq!(
        SocketIpcError::ShortRead { expected: 384, actual: 12 }.message(),
        "socket IPC 事件读取长度错误: 期望 384, 实际 12"
    );
    assert_eq!(
        SocketIpcError::Io(String::from("Permission denied")).message(),
        "socket IPC 系统调用失败: Permission denied"
    );
}

fn feature(magic: u64, abi_version: u32) -> DriverFeature {
    DriverFeature { magic, abi_version, feature_flags: 0, name: [0; 16] }
}

#[test]
fn probing_skips_foreign_families_and_checks_the_abi() {
    assert_eq!(probe_step(Ok(feature(1, 2)), false), ProbeStep::NextFamily);
    assert_eq!(probe_step(Ok(feature(0x4254_5241_4345_3031, 2)), false), ProbeStep::Connected);
    assert_eq!(
        probe_step(Ok(feature(0x4254_5241_4345_3031, 1)), false),
        ProbeStep::Fail(SocketIpcError::AbiMismatch { expected: 2, actual: 1 })
    );
    assert_eq!(probe_step(Err(SocketIpcError::Io(String::from("x"))), true), ProbeStep::NextFamily);
    assert_eq!(
        probe_step(Err(SocketIpcError::Io(String::from("x"))), false),
        ProbeStep::Fail(SocketIpcError::Io(String::from("x")))
    );
    assert_eq!(
        probe_step(Err(SocketIpcError::NotFound), true),
        ProbeStep::Fail(SocketIpcError::NotFound)
    );
}

#[test]
fn partial_receives_are_short_reads() {
    assert_eq!(check_received_len(384, 384), Ok(()));
    assert_eq!(
        check_received_len(384, 100),
        Err(SocketIpcError::ShortRead { expected: 384, actual: 100 })
    );
}

#[test]
fn kernel_config_sources_name_their_files() {
    assert_eq!(KernelConfigSource::ProcConfigGz.read_target(), ("/proc/config.gz", true));
    assert_eq!(KernelConfigSource::GzipFile(String::from("a.gz")).read_target(), ("a.gz", true));
    assert_eq!(KernelConfigSource::TextFile(String::from("a.txt")).read_target(), ("a.txt", false));
    assert_eq!(KernelConfigSource::default_source(), KernelConfigSource::ProcConfigGz);
}

#[test]
fn zcat_outcome_reports_failures_and_bad_text() {
    assert_eq!(
        zcat_outcome(String::from("c.gz"), true, b"CONFIG_BPF=y\n".to_vec(), b""),
        Ok(String::from("CONFIG_BPF=y\n"))
    );
    assert_eq!(
        zcat_outcome(String::from("c.gz"), false, Vec::new(), b"  gzip: not in gzip format \n"),
        Err(KernelConfigError::ZcatFailed {
            path: String::from("c.gz"),
            stderr: String::from("  gzip: not in gzip format \n"),
        })
    );
    assert!(matches!(
        zcat_outcome(String::from("c.gz"), true, vec![0xff, 0xfe], b""),
        Err(KernelConfigError::Utf8(_))
    ));
}

#[test]
fn kernel_config_errors_trim_zcat_output() {
    let error = KernelConfigError::ZcatFailed {
        path: String::from("/proc/config.gz"),
        stderr: String::from("  gzip: not in gzip format \n"),
    };
    assert_eq!(error.message(), "failed to decompress `/proc/config.gz`: gzip: not in gzip format");
    let quiet = KernelConfigError::ZcatFailed { path: String::from("x"), stderr: String::from(" \n") };
    assert_eq!(quiet.message(), "failed to decompress `x`");
    assert_eq!(
        KernelConfigError::Io(String::from("No such file")).message(),
        "failed to read kernel config: No such file"
    );
}

#[test]
fn history_and_server_errors_read_as_reported() {
    let limit = HistoryError::CapacityLimit { needed_events: 10, max_events: 5, max_file_bytes: 2048 };
    assert_eq!(
        limit.message(),
        "btcap 历史文件达到容量上限: 需要 10 条事件，最多 5 条事件，最大文件大小 2048 字节"
    );
    assert_eq!(TuiError::History(limit).message(), limit.message());
    assert_eq!(TuiError::Io(String::from("broken pipe")).message(), "broken pipe");
    assert_eq!(
        McpServerError::Initialize(String::from("timeout")).message(),
        "MCP 初始化失败: timeout"
    );
    assert_eq!(
        McpServerError::EventStreamUnsupported.message(),
        "当前内核模块不支持 socket 事件流，请重新加载新版 bt-kmod"
    );
    assert_eq!(
        McpServerError::SocketIpc(SocketIpcError::NotFound).message(),
        "未找到 binder-trace 控制协议族"
    );
}

#[test]
fn embedded_assets_are_counted() {
    let paths = vec![String::from("/index.html"), String::from("/assets/app.js")];
    assert_eq!(embedded_asset_count(&paths), 2);
}

fn english() -> Messages {
    Messages {
        unknown: String::from("unknown"),
        boolean: BooleanMessages { enabled: String::from("on"), disabled: String::from("off") },
        focus: FocusMessages {
            transactions: String::from("Transactions"),
            frequency: String::from("Frequency"),
            hexdump: String::from("Hexdump"),
            parsed: String::from("Parsed"),
        },
        status: String::from(
            "family {family} sdk {sdk} focus {focus} tx {transactions} saved {saved} window {window_start}..{window_end} file {history} rec {recording} input {input} sel {selected} up {uptime}s",
        ),
        keys: KeyMessages {
            transactions: TransactionKeyMessages {
                template: String::from("space {space} | q quit"),
                recording_space: String::from("pause"),
                paused_space: String::from("record"),
            },
            frequency: String::from("space filter"),
            hexdump: String::from("arrows scroll"),
            parsed: String::from("arrows scroll fields"),
        },
    }
}

#[test]
fn status_line_fills_the_template() {
    let events = [binder_event(1, "android.os.IServiceManager", 1), binder_event(2, "a.B", 1)];
    let state = state_with(&events);
    let (status, keys) = render_status(&english(), &state, 200, 42);
    let status = strip_ansi(&status);
    assert!(status.starts_with(
        "family 0 sdk unknown focus Transactions tx 0 saved 2 window 0..2 file history.btcap rec on input off sel 2/2 up 42s"
    ));
    assert_eq!(status.chars().count(), 200);
    assert!(strip_ansi(&keys).starts_with("space pause | q quit"));
}

#[test]
fn status_line_before_any_event() {
    let mut state = state_with(&[]);
    state.recording = false;
    state.family = -3;
    let (status, keys) = render_status(&english(), &state, 40, 0);
    let status = strip_ansi(&status);
    assert!(status.starts_with("family -3 sdk unknown"));
    assert_eq!(status.chars().count(), 40);
    assert!(strip_ansi(&keys).starts_with("space record"));
}

#[test]
fn templates_replace_each_placeholder_from_the_left() {
    let chars = |s: &str| s.chars().collect::<Vec<char>>();
    assert_eq!(
        replace_all(&chars("aaa"), &chars("aa"), &chars("b")).into_iter().collect::<String>(),
        "ba"
    );
    let values = vec![(chars("a"), chars("1")), (chars("b"), chars("{a}"))];
    assert_eq!(
        render_template(&chars("{a}-{b}-{a}"), &values).into_iter().collect::<String>(),
        "1-{a}-1"
    );
}
