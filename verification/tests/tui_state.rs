use binder_trace::tui::i18n::UiLanguage;
use binder_trace::tui::screen::visible_window_bounds;
use binder_trace::tui::state::{CommandEffect, FrequencyCount, TuiState};
use binder_trace::tui::{FocusPane, FrequencyKey, TuiConfig, UiCommand};
use binder_trace::{BinderEvent, CaptureStats};

fn write_string16(output: &mut Vec<u8>, value: &str) {
    let units = value.encode_utf16().collect::<Vec<_>>();
    output.extend_from_slice(&(units.len() as i32).to_le_bytes());
    for unit in units {
        output.extend_from_slice(&unit.to_le_bytes());
    }
    output.extend_from_slice(&0_u16.to_le_bytes());
    while output.len() % 4 != 0 {
        output.push(0);
    }
}

fn parcel_payload(interface: &str) -> Vec<u8> {
    let mut payload = Vec::new();
    payload.extend_from_slice(&0_i32.to_le_bytes());
    payload.extend_from_slice(&(-1_i32).to_le_bytes());
    payload.extend_from_slice(b"SYST");
    write_string16(&mut payload, interface);
    payload
}

fn binder_event(interface: &str, code: u32, reply: bool) -> BinderEvent {
    let payload = parcel_payload(interface);
    let mut inline_payload = [0_u8; 256];
    inline_payload[..payload.len()].copy_from_slice(&payload);

    BinderEvent {
        sequence: 1,
        timestamp_ns: 0,
        kind: 1,
        pid: 0,
        tgid: 0,
        uid: 0,
        reply: u32::from(reply),
        lost_before: 0,
        transaction_debug_id: 0,
        reply_to_debug_id: 0,
        transaction: 0,
        proc: 0,
        thread: 0,
        extra_buffers_size: 0,
        code,
        flags: 0,
        data_size: payload.len() as u64,
        offsets_size: 0,
        target_handle: 0,
        sender_pid: 0,
        sender_euid: 0,
        payload_len: payload.len() as u32,
        payload_truncated: 0,
        reserved: [0; 7],
        payload: inline_payload,
    }
}

fn empty_stats() -> CaptureStats {
    CaptureStats { ioctl_hits: 0, copy_to_user_hits: 0, transaction_hits: 0, captured: 0, filtered: 0 }
}

fn new_state(family: i32, capacity: usize) -> TuiState {
    TuiState::new(
        family,
        capacity,
        empty_stats(),
        true,
        Some(34),
        String::from("history.btcap"),
        UiLanguage::English,
    )
}

fn window_sequences(state: &TuiState) -> Vec<u64> {
    state.events.iter().map(|entry| entry.event.sequence).collect()
}

fn window_codes(state: &TuiState) -> Vec<u32> {
    state.events.iter().map(|entry| entry.event.code).collect()
}

fn numbered_events(count: u64) -> Vec<BinderEvent> {
    (0..count)
        .map(|sequence| {
            let mut event = binder_event("android.os.IMessenger", sequence as u32, false);
            event.sequence = sequence;
            event
        })
        .collect()
}

#[test]
fn reply_summary_uses_correlated_send_debug_id() {
    let mut state = new_state(12, 16);
    let mut send = binder_event("android.os.IMessenger", 1, false);
    send.transaction_debug_id = 42;
    let mut reply = binder_event("", 0, true);
    reply.reply_to_debug_id = 42;

    state.push_event(0, send);
    state.push_event(1, reply);

    let summary = state.transaction_summary(state.selected_event().expect("the reply is selected"));
    assert_eq!(summary.interface, "android.os.IMessenger");
    assert_eq!(summary.code, 1);
}

#[test]
fn reply_summary_uses_send_debug_id_from_history_index() {
    let mut state = new_state(12, 16);
    let mut send = binder_event("android.os.IMessenger", 1, false);
    send.transaction_debug_id = 77;
    let mut reply = binder_event("", 0, true);
    reply.reply_to_debug_id = 77;
    let history = vec![send, reply];

    state.sync_transaction_summaries(&history);
    state.push_event(1, history[1]);

    let summary = state.transaction_summary(state.selected_event().expect("the reply is selected"));
    assert_eq!(summary.interface, "android.os.IMessenger");
    assert_eq!(summary.code, 1);
}

#[test]
fn unmatched_reply_summary_keeps_reply_to_debug_id_visible() {
    let state = new_state(12, 16);
    let mut reply = binder_event("", 0, true);
    reply.reply_to_debug_id = 235453;

    let summary = state.transaction_summary(&reply);

    assert_eq!(summary.interface, "reply_to#235453");
    assert_eq!(summary.code, 0);
}

#[test]
fn frequency_disable_filters_display_without_dropping_history() {
    let mut state = new_state(12, 16);
    let history = vec![
        binder_event("android.os.IMessenger", 1, false),
        binder_event("android.os.IMessenger", 2, false),
    ];
    state.push_event(0, history[0]);
    state.push_event(1, history[1]);
    state.frequency_counts.push(FrequencyCount {
        key: FrequencyKey { interface: String::from("android.os.IMessenger"), code: 1 },
        count: 4,
    });

    assert!(state.toggle_selected_frequency());
    state.select_nearest_visible(&history);
    state.reload_visible_window(&history);

    assert_eq!(history.len(), 2);
    assert_eq!(state.selected, 1);
    assert_eq!(window_codes(&state), vec![2]);

    assert!(state.toggle_selected_frequency());
    state.select_nearest_visible(&history);
    state.reload_visible_window(&history);

    assert!(state.disabled_frequency.is_empty());
    assert_eq!(window_codes(&state), vec![1, 2]);
}

#[test]
fn tab_focus_cycles_through_panels() {
    let mut state = new_state(12, 16);

    assert_eq!(state.focus, FocusPane::Transactions);
    state.focus_next();
    assert_eq!(state.focus, FocusPane::Frequency);
    state.focus_next();
    assert_eq!(state.focus, FocusPane::Hexdump);
    state.focus_next();
    assert_eq!(state.focus, FocusPane::Parsed);
    state.focus_next();
    assert_eq!(state.focus, FocusPane::Transactions);
}

#[test]
fn focused_frequency_navigation_does_not_move_transaction_selection() {
    let history: Vec<BinderEvent> = Vec::new();
    let mut state = new_state(12, 16);
    state.total_events = 8;
    state.selected = 5;
    state.focus = FocusPane::Frequency;
    state.frequency_counts.push(FrequencyCount {
        key: FrequencyKey { interface: String::from("android.os.IFoo"), code: 1 },
        count: 3,
    });
    state.frequency_counts.push(FrequencyCount {
        key: FrequencyKey { interface: String::from("android.os.IBar"), code: 2 },
        count: 2,
    });

    state.move_focused(UiCommand::Down, 10, &history);

    assert_eq!(state.selected, 5);
    assert_eq!(state.frequency_selected, 1);
}

#[test]
fn focused_detail_navigation_scrolls_without_moving_transaction_selection() {
    let history: Vec<BinderEvent> = Vec::new();
    let mut state = new_state(12, 16);
    state.push_event(0, binder_event("android.os.IMessenger", 1, false));

    state.focus = FocusPane::Hexdump;
    state.move_focused(UiCommand::Down, 10, &history);
    assert_eq!(state.selected, 0);
    assert_eq!(state.hexdump_scroll, 1);

    state.focus = FocusPane::Parsed;
    state.move_focused(UiCommand::Down, 10, &history);
    assert_eq!(state.selected, 0);
    assert_eq!(state.parsed_scroll, 1);
}

#[test]
fn mod_selection_loads_missing_window_from_history() {
    let history = numbered_events(5);
    let mut state = new_state(0, 2);
    state.total_events = 5;
    state.selected = 4;

    state.ensure_selected_loaded(&history);

    assert_eq!(window_sequences(&state), vec![3, 4]);
    assert_eq!(state.selected_event().map(|event| event.sequence), Some(4));
}

#[test]
fn mod_tail_window_preserves_append_order() {
    let mut state = new_state(0, 3);

    for event in numbered_events(6) {
        state.push_event(event.sequence, event);
    }

    assert_eq!(visible_window_bounds(&state), (3, 6));
    assert_eq!(state.selected, 5);
    assert_eq!(window_sequences(&state), vec![3, 4, 5]);
}

#[test]
fn mod_backscroll_keeps_window_until_tail_reload() {
    let history = numbered_events(5);
    let mut state = new_state(0, 2);

    for event in &history[..3] {
        state.push_event(event.sequence, *event);
    }

    state.selected = 0;
    state.ensure_selected_loaded(&history[..3]);
    assert_eq!(window_sequences(&state), vec![0, 1]);

    for event in &history[3..] {
        state.push_event(event.sequence, *event);
    }
    assert_eq!(window_sequences(&state), vec![0, 1]);

    state.selected = state.total_events - 1;
    state.ensure_selected_loaded(&history);
    assert_eq!(window_sequences(&state), vec![3, 4]);
}

#[test]
fn mod_frequency_counts_follow_full_history_after_window_eviction() {
    let mut state = new_state(0, 2);
    let history: Vec<BinderEvent> = (0..128)
        .map(|sequence| {
            let mut event = binder_event("android.os.IMessenger", 1, false);
            event.sequence = sequence;
            event
        })
        .collect();

    for (index, event) in history.iter().enumerate() {
        state.push_event(index as u64, *event);
    }
    state.sync_frequency_counts(&history);

    assert_eq!(state.events.len(), 2);
    let entries = state.frequency_entries();
    assert_eq!(
        entries.first().map(|entry| (entry.label.as_str(), entry.count)),
        Some(("android.os.IMessenger#1", 128))
    );
}

#[test]
fn refresh_interval_stays_between_fifty_milliseconds_and_five_seconds() {
    let config = |refresh_ms: u64| TuiConfig {
        rows: 16,
        refresh_ms,
        capture_config: None,
        android_sdk: None,
        history_path: None,
    };
    assert_eq!(config(0).refresh_interval_ms(), 50);
    assert_eq!(config(49).refresh_interval_ms(), 50);
    assert_eq!(config(250).refresh_interval_ms(), 250);
    assert_eq!(config(5_000).refresh_interval_ms(), 5_000);
    assert_eq!(config(60_000).refresh_interval_ms(), 5_000);
}

#[test]
fn space_on_frequency_panel_filters_the_selected_pair() {
    let mut state = new_state(12, 16);
    let history = vec![
        binder_event("android.os.IMessenger", 1, false),
        binder_event("android.os.IMessenger", 2, false),
        binder_event("android.os.IMessenger", 2, false),
    ];
    for (index, event) in history.iter().enumerate() {
        state.push_event(index as u64, *event);
    }
    state.sync_frequency_counts(&history);
    state.focus = FocusPane::Frequency;

    assert_eq!(state.apply_command(UiCommand::Space, &history), CommandEffect::Redraw);
    assert_eq!(state.disabled_frequency.len(), 1);
    assert_eq!(state.disabled_frequency[0].code, 2);
    assert_eq!(state.selected, 0);
    assert_eq!(window_codes(&state), vec![1]);

    assert_eq!(state.apply_command(UiCommand::Space, &history), CommandEffect::Redraw);
    assert!(state.disabled_frequency.is_empty());
    assert_eq!(window_codes(&state), vec![1, 2, 2]);
}

#[test]
fn language_comes_from_the_first_source_that_names_one() {
    let sources = vec![None, Some(String::from("fr-FR")), Some(String::from("fr_FR:ja_JP")), Some(String::from("zh-CN"))];
    assert_eq!(UiLanguage::detect_from(&sources), UiLanguage::Japanese);
    assert_eq!(UiLanguage::detect_from(&[None, Some(String::from("C"))]), UiLanguage::English);
    assert_eq!(UiLanguage::detect_from(&[]), UiLanguage::English);
}
