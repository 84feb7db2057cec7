use binder_trace::tui::char_columns::{
    FrequencyColumns, FrequencyKey, TransactionColumns, TransactionSummary, fit, fit_right,
    truncate_with_ellipsis,
};
use binder_trace::tui::render::FrequencyEntry;
use binder_trace::{AndroidPlatformMethods, BinderEvent};

fn write_string16(output: &mut Vec<u8>, value: &str) {
    let units = value.encode_utf16().collect::<Vec<_>>();
    output.extend_from_slice(&(units.len() as i32).to_le_bytes());
    for unit in units {
        output.extend_from_slice(&unit.to_le_bytes());
    }
    output.extend_from_slice(&0_u16.to_le_bytes());
    while output.len() % 4 != 0 {
        output.push(0);
    }
}

fn binder_event(interface: &str, code: u32, reply: bool) -> BinderEvent {
    let mut payload = Vec::new();
    payload.extend_from_slice(&0_i32.to_le_bytes());
    payload.extend_from_slice(&(-1_i32).to_le_bytes());
    payload.extend_from_slice(b"SYST");
    write_string16(&mut payload, interface);
    let mut inline_payload = [0_u8; 256];
    inline_payload[..payload.len()].copy_from_slice(&payload);

    BinderEvent {
        sequence: 1,
        timestamp_ns: 0,
        kind: 1,
        pid: 0,
        tgid: 0,
        uid: 0,
        reply: u32::from(reply),
        lost_before: 0,
        transaction_debug_id: 0,
        reply_to_debug_id: 0,
        transaction: 0,
        proc: 0,
        thread: 0,
        extra_buffers_size: 0,
        code,
        flags: 0,
        data_size: payload.len() as u64,
        offsets_size: 0,
        target_handle: 0,
        sender_pid: 0,
        sender_euid: 0,
        payload_len: payload.len() as u32,
        payload_truncated: 0,
        reserved: [0; 7],
        payload: inline_payload,
    }
}

fn strip_ansi(text: &str) -> String {
    let mut stripped = String::new();
    let mut chars = text.chars();
    while let Some(ch) = chars.next() {
        if ch == '\x1b' {
            for escaped in chars.by_ref() {
                if escaped == 'm' {
                    break;
                }
            }
        } else {
            stripped.push(ch);
        }
    }
    stripped
}

#[test]
fn tui_truncation_marks_omitted_text() {
    assert_eq!(
        truncate_with_ellipsis("android.app.IActivityManager", 14),
        "android.app..."
    );
    assert_eq!(truncate_with_ellipsis("abcdef", 3), "...");
    assert_eq!(truncate_with_ellipsis("abcdef", 0), "");
}

#[test]
fn tui_transaction_columns_keep_row_width() {
    for width in [6, 24, 65, 100] {
        let row = TransactionColumns::new(width, true).row(
            "123456789",
            "android.app.IActivityManager",
            "1000000",
            "someExtremelyLongMethodName",
            "0x123456789",
        );

        assert_eq!(row.chars().count(), width);
    }
}

#[test]
fn tui_transaction_columns_drop_method_when_empty() {
    let header = TransactionColumns::new(80, false).header();

    assert!(!header.contains("Method"));
}

#[test]
fn tui_transaction_columns_do_not_stretch_interface_on_wide_terminals() {
    let columns = TransactionColumns::new(180, true);

    assert_eq!(columns.interface, 56);
    assert_eq!(columns.method, 28);
}

#[test]
fn tui_transaction_columns_keep_full_u32_code_width() {
    let columns = TransactionColumns::new(100, true);
    let row = columns.row(
        "1",
        "android.content.pm.IPackageManager",
        "4294967295",
        "method",
        "0x10",
    );

    assert!(row.contains("4294967295"));
}

#[test]
fn tui_frequency_key_uses_interface_and_code() {
    let methods = AndroidPlatformMethods::new(34);
    let event = binder_event("android.net.INetworkStatsService", 13, false);
    let key = FrequencyKey::from_event(&event, Some(&methods));

    assert_eq!(
        key.map(|key| key.label()).as_deref(),
        Some("android.net.INetworkStatsService#13")
    );
}

#[test]
fn tui_frequency_key_ignores_replies_without_interface() {
    let methods = AndroidPlatformMethods::new(34);
    let event = binder_event("android.net.INetworkStatsService", 13, true);

    assert_eq!(FrequencyKey::from_event(&event, Some(&methods)), None);
}

#[test]
fn tui_frequency_columns_keep_count_and_filter_aligned() {
    let columns = FrequencyColumns::new(52);
    let row = columns.row(
        "android.content.pm.IPackageInstallerSessionFileSystemConnector#4294967295",
        "12345",
        "[+]",
    );

    assert_eq!(row.chars().count(), 52);
    assert!(row.contains("..."));
    assert!(row.ends_with(" 12345    [+]"));
}

#[test]
fn frequency_styled_row_colors_code_separately() {
    let columns = FrequencyColumns::new(40);
    let entry = FrequencyEntry {
        label: "android.os.IFoo#18".to_owned(),
        interface: "android.os.IFoo".to_owned(),
        code: 18,
        count: 7,
    };
    let row = columns.styled_row(&entry, "[+]");
    let plain = strip_ansi(&row);

    assert!(row.contains("\x1b[38;5;226m#18"));
    assert_eq!(plain.chars().count(), 40);
    assert!(plain.contains("android.os.IFoo#18"));
}

#[test]
fn char_fit_pads_and_cuts_to_the_exact_width() {
    assert_eq!(fit("ab", 5), "ab   ");
    assert_eq!(fit_right("ab", 5), "   ab");
    assert_eq!(fit("abcdefgh", 6), "abc...");
    assert_eq!(fit_right("abcdefgh", 2), "..");
    assert_eq!(fit("中文字", 2), "..");
    assert_eq!(TransactionColumns::new(0, true).row("1", "i", "2", "m", "3"), "");
}

#[test]
fn char_summary_of_a_reply_names_nothing() {
    let event = binder_event("android.os.IMessenger", 3, true);
    let summary = TransactionSummary::new(&event, None);
    assert_eq!(summary.interface, "");
    assert_eq!(summary.method, "");
    let send = TransactionSummary::new(&binder_event("android.os.IMessenger", 3, false), None);
    assert_eq!(send.interface, "android.os.IMessenger");
}
