use binder_trace::history::HistoryError;
use binder_trace::mcp::{
    EventStore, McpServerError, capture_disable_failure, control_permission, history_write_failure,
    require_event_stream,
};
use binder_trace::tui::UiCommand;
use binder_trace::tui::FocusPane;
use binder_trace::tui::i18n::UiLanguage;
use binder_trace::tui::state::{CommandEffect, TuiState};
use binder_trace::query::DirectionFilter;
use binder_trace::webui::{
    EventState, EventsQuery, EventsResponse, SelectedPage, SourceState, WebEventFilter, WebuiEventsConfig,
    event_stream_check, select_events,
};
use binder_trace::{
    BinderEvent, CaptureConfig, CaptureStats, DriverFeature, SocketIpcError, parse_entry,
    parse_unsigned,
};

fn event(sequence: u64, code: u32) -> BinderEvent {
    BinderEvent {
        sequence,
        timestamp_ns: sequence * 1_000,
        kind: 1,
        pid: 1,
        tgid: 1,
        uid: 1000,
        reply: 0,
        lost_before: 0,
        transaction_debug_id: 0,
        reply_to_debug_id: 0,
        transaction: 0,
        proc: 0,
        thread: 0,
        extra_buffers_size: 0,
        code,
        flags: 0,
        data_size: 0,
        offsets_size: 0,
        target_handle: 3,
        sender_pid: 0,
        sender_euid: 0,
        payload_len: 0,
        payload_truncated: 0,
        reserved: [0; 7],
        payload: [0; 256],
    }
}

fn stats() -> CaptureStats {
    CaptureStats { ioctl_hits: 0, copy_to_user_hits: 0, transaction_hits: 0, captured: 0, filtered: 0 }
}

fn new_state(capacity: usize) -> TuiState {
    TuiState::new(0, capacity, stats(), true, None, String::from("h.btcap"), UiLanguage::English)
}

#[test]
fn platform_rows_parse_mask_code_and_names() {
    let entry = parse_entry(&["0x7f", "3", "android.os.IServiceManager", "addService"]).unwrap();
    assert_eq!(entry.sdk_mask, 0x7f);
    assert_eq!(entry.code, 3);
    assert_eq!(entry.interface, "android.os.IServiceManager");
    assert_eq!(entry.method, "addService");
    let entry = parse_entry(&["0x+1F", "+12", "a", "b"]).unwrap();
    assert_eq!(entry.sdk_mask, 0x1f);
    assert_eq!(entry.code, 12);
}

#[test]
fn platform_rows_report_their_faults() {
    assert_eq!(parse_entry(&["0x1", "2", "a"]).unwrap_err(), "字段数量应为 4 个，实际为 3");
    assert_eq!(parse_entry(&["", "2", "a", "b"]).unwrap_err(), "缺少 sdk_mask 字段");
    assert_eq!(parse_entry(&["0x1", "", "a", "b"]).unwrap_err(), "缺少 code 字段");
    assert_eq!(parse_entry(&["0x1", "2", "", "b"]).unwrap_err(), "缺少 interface 字段");
    assert_eq!(parse_entry(&["0x1", "2", "a", ""]).unwrap_err(), "缺少 method 字段");
    assert_eq!(parse_entry(&["7f", "2", "a", "b"]).unwrap_err(), "sdk_mask 不是十六进制: 7f");
    assert_eq!(parse_entry(&["0x10000", "2", "a", "b"]).unwrap_err(), "sdk_mask 数值无效: 0x10000");
    assert_eq!(parse_entry(&["0xzz", "2", "a", "b"]).unwrap_err(), "sdk_mask 数值无效: 0xzz");
    assert_eq!(parse_entry(&["0x1", "4294967296", "a", "b"]).unwrap_err(), "code 数值无效: 4294967296");
    assert_eq!(parse_entry(&["0x1", "-1", "a", "b"]).unwrap_err(), "code 数值无效: -1");
}

#[test]
fn unsigned_numbers_read_as_from_str_radix() {
    assert_eq!(parse_unsigned("ff", 16, 0xffff), Some(255));
    assert_eq!(parse_unsigned("FF", 16, 0xffff), Some(255));
    assert_eq!(parse_unsigned("+10", 10, 0xffff_ffff), Some(10));
    assert_eq!(parse_unsigned("+", 10, 0xffff_ffff), None);
    assert_eq!(parse_unsigned("", 10, 0xffff_ffff), None);
    assert_eq!(parse_unsigned("4294967295", 10, 0xffff_ffff), Some(4294967295));
    assert_eq!(parse_unsigned("4294967296", 10, 0xffff_ffff), None);
    assert_eq!(parse_unsigned("99999999999999999999x", 10, 0xffff_ffff), None);
    assert_eq!(parse_unsigned("1_0", 10, 0xffff_ffff), None);
}

#[test]
fn space_on_transactions_asks_to_toggle_recording() {
    let mut state = new_state(4);
    assert_eq!(state.apply_command(UiCommand::Space, &[]), CommandEffect::ToggleRecording);
    assert!(!state.recording);
    assert_eq!(state.recording_config(None), None);
    let config = CaptureConfig::enabled();
    assert_eq!(state.recording_config(Some(config)), Some(CaptureConfig::disabled()));
    assert_eq!(state.apply_command(UiCommand::Space, &[]), CommandEffect::ToggleRecording);
    assert!(state.recording);
    assert_eq!(state.recording_config(Some(config)), Some(config));
}

#[test]
fn only_transactions_are_recorded_while_recording() {
    let mut state = new_state(4);
    let mut transaction = event(1, 1);
    assert!(state.should_record(&transaction));
    transaction.kind = 2;
    assert!(!state.should_record(&transaction));
    state.recording = false;
    assert!(!state.should_record(&event(2, 1)));
}

#[test]
fn commands_quit_focus_and_clear() {
    let history = [event(1, 1), event(2, 1)];
    let mut state = new_state(4);
    state.record_new_events(&history, 0);
    assert_eq!(state.apply_command(UiCommand::Quit, &history), CommandEffect::Quit);
    assert_eq!(state.apply_command(UiCommand::NextPane, &history), CommandEffect::Redraw);
    assert_eq!(state.focus, FocusPane::Frequency);
    assert_eq!(state.apply_command(UiCommand::Clear, &history), CommandEffect::Redraw);
    assert!(state.events.is_empty());
    assert_eq!(state.selected, 1);
}

#[test]
fn movement_commands_move_the_selection() {
    let history = [event(1, 1), event(2, 1), event(3, 1)];
    let mut state = new_state(8);
    state.record_new_events(&history, 0);
    assert_eq!(state.selected, 2);
    assert_eq!(state.apply_command(UiCommand::Up, &history), CommandEffect::Redraw);
    assert_eq!(state.selected, 1);
    assert_eq!(state.apply_command(UiCommand::Home, &history), CommandEffect::Redraw);
    assert_eq!(state.selected, 0);
}

#[test]
fn recorded_events_fill_a_bounded_window() {
    let history: Vec<BinderEvent> = (0..6).map(|i| event(i, 1)).collect();
    let mut state = new_state(4);
    state.record_new_events(&history, 0);
    assert_eq!(state.total_events, 6);
    assert_eq!(state.events.len(), 4);
    let indices: Vec<u64> = state.events.iter().map(|e| e.history_index).collect();
    assert_eq!(indices, vec![2, 3, 4, 5]);
    assert_eq!(state.selected, 5);
    assert_eq!(state.frequency_counted_events, 6);
    // nothing new: nothing changes
    state.record_new_events(&history, 6);
    assert_eq!(state.events.len(), 4);
}

#[test]
fn events_are_found_by_sequence() {
    let history = [event(10, 1), event(11, 2), event(11, 3)];
    let mut store = EventStore::new(None);
    store.push(&history[0], 0);
    let found = store.find_event(&history, 10).unwrap();
    assert_eq!(found.seq, 10);
    assert_eq!(found.code, 1);
    // not stored: the last history event with the sequence
    let found = store.find_event(&history, 11).unwrap();
    assert_eq!(found.code, 3);
    assert!(store.find_event(&history, 12).is_none());
    assert_eq!(store.locate(&history, 11), Some(2));
    assert_eq!(store.find_event(&history, 10), Some(store.trace_event(&history[0])));
}

#[test]
fn full_history_switches_capture_off() {
    let full = HistoryError::CapacityLimit { needed_events: 3, max_events: 2, max_file_bytes: 1024 };
    let (message, disable) = history_write_failure(&full);
    assert!(disable);
    assert_eq!(
        message,
        "写入 MCP btcap 历史失败: btcap 历史文件达到容量上限: 需要 3 条事件，最多 2 条事件，最大文件大小 1024 字节"
    );
    let (message, disable) = history_write_failure(&HistoryError::CapacityOverflow);
    assert!(!disable);
    assert_eq!(message, "写入 MCP btcap 历史失败: 历史文件容量溢出");
    assert_eq!(capture_disable_failure("a", "b"), "a; 自动关闭捕获失败: b");
    let (message, disable) = binder_trace::webui::history_write_failure(&full);
    assert!(disable);
    assert!(message.starts_with("写入 WebUI btcap 历史失败: "));
}

fn feature(flags: u32) -> DriverFeature {
    DriverFeature { magic: 0x4254_5241_4345_3031, abi_version: 2, feature_flags: flags, name: [0; 16] }
}

#[test]
fn servers_need_an_event_stream() {
    assert_eq!(require_event_stream(&feature(2)), Ok(()));
    assert_eq!(require_event_stream(&feature(1)), Err(McpServerError::EventStreamUnsupported));
    assert_eq!(event_stream_check(&Ok(feature(3))), Ok(()));
    assert_eq!(event_stream_check(&Ok(feature(0))), Err(String::from("当前内核模块不支持 socket 事件流")));
    assert_eq!(
        event_stream_check(&Err(SocketIpcError::NotFound)),
        Err(String::from("读取内核模块特性失败: 未找到 binder-trace 控制协议族"))
    );
}

#[test]
fn snapshot_reports_history_failures() {
    let config = WebuiEventsConfig::default();
    let mut state = EventState::new(&config);
    let response = state.snapshot(Err(String::from("bad file")), 7, vec![String::from("a")]);
    assert!(response.events.is_empty());
    assert_eq!(response.total_count, 7);
    assert_eq!(response.retained_count, 7);
    assert_eq!(response.source_state, SourceState::Error);
    assert_eq!(response.error, Some(String::from("读取 WebUI btcap 历史失败: bad file")));
    assert_eq!(response.interfaces, vec![String::from("a")]);
    assert!(!response.has_more_before && !response.has_more_after);
    assert_eq!(response.device_context, "production · binder transaction stream");
}

#[test]
fn snapshot_reports_page_position() {
    let config = WebuiEventsConfig::default();
    let mut state = EventState::new(&config);
    let page = SelectedPage { events: Vec::new(), start_index: Some(2), end_index: Some(3), matched_count: 5 };
    let response = state.snapshot(Ok(page), 5, Vec::new());
    assert!(response.has_more_before);
    assert!(response.has_more_after);
    assert_eq!(response.page_start_index, Some(2));
    assert_eq!(response.oldest_seq, None);
    assert_eq!(response.error, None);
}

fn query(limit: Option<usize>, before_seq: Option<u64>) -> EventsQuery {
    EventsQuery {
        query: String::new(),
        direction: DirectionFilter::All,
        interface_name: String::new(),
        limit,
        before_seq,
        after_seq: None,
    }
}

fn answer(state: &mut EventState, history: &[BinderEvent], query: &EventsQuery) -> EventsResponse {
    let labels: Vec<String> = history.iter().map(|event| format!("pid:{}", event.tgid)).collect();
    let records = state.api_events(history, &labels);
    let filter = WebEventFilter::from_query(query);
    let page = select_events(&records, &filter, query.page_request(), query.limit());
    let interfaces = state.interface_options(history).into_iter().map(|entry| entry.name).collect();
    state.snapshot(Ok(page), history.len() as u64, interfaces)
}

#[test]
fn snapshot_reads_old_events_from_btcap_history() {
    let mut config = WebuiEventsConfig::default();
    config.enabled = true;
    config.max_events = 1;
    let mut state = EventState::new(&config);
    let history: Vec<BinderEvent> = (1..=5).map(|sequence| event(sequence, 1)).collect();
    for recorded in &history {
        state.record_event(recorded);
    }

    let latest = answer(&mut state, &history, &query(Some(2), None));
    assert_eq!(latest.total_count, 5);
    assert_eq!(latest.retained_count, 5);
    assert_eq!(latest.backend_evicted_count, 0);
    assert_eq!(latest.events.iter().map(|e| e.raw.seq).collect::<Vec<_>>(), vec![4, 5]);
    assert!(latest.has_more_before);

    let older = answer(&mut state, &history, &query(Some(2), Some(4)));
    assert_eq!(older.events.iter().map(|e| e.raw.seq).collect::<Vec<_>>(), vec![2, 3]);
    assert_eq!(older.matched_count, 5);
}

#[test]
fn records_carry_their_process_labels_in_history_order() {
    let state = EventState::new(&WebuiEventsConfig::default());
    let history = vec![event(7, 1), event(8, 2)];
    let labels = vec![String::from("system_server"), String::from("pid:1")];
    let records = state.api_events(&history, &labels);
    assert_eq!(records.iter().map(|r| r.raw.seq).collect::<Vec<_>>(), vec![7, 8]);
    assert_eq!(records[0].enrichment.process_label, "system_server");
    assert_eq!(records[1].enrichment.process_label, "pid:1");
}

#[test]
fn control_tools_need_permission() {
    assert_eq!(control_permission(true), Ok(()));
    assert_eq!(
        control_permission(false),
        Err(String::from("binder-trace control tools are disabled; restart mcp with --allow-control"))
    );
}
