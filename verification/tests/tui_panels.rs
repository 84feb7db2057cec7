use binder_trace::text::{display_width, fit, truncate_with_ellipsis};
use binder_trace::tui::i18n::UiLanguage;
use binder_trace::tui::render::{
    FrequencyColumns, FrequencyEntry, TransactionColumns, panel_inner_size, render_panel,
    transaction_color_index,
};
use binder_trace::tui::{FrequencyKey, TransactionSummary};
use binder_trace::{AndroidPlatformMethods, BinderEvent};

fn write_string16(output: &mut Vec<u8>, value: &str) {
    let units = value.encode_utf16().collect::<Vec<_>>();
    output.extend_from_slice(&(units.len() as i32).to_le_bytes());
    for unit in units {
        output.extend_from_slice(&unit.to_le_bytes());
    }
    output.extend_from_slice(&0_u16.to_le_bytes());
    while output.len() % 4 != 0 {
        output.push(0);
    }
}

fn parcel_payload(interface: &str) -> Vec<u8> {
    let mut payload = Vec::new();
    payload.extend_from_slice(&0_i32.to_le_bytes());
    payload.extend_from_slice(&(-1_i32).to_le_bytes());
    payload.extend_from_slice(b"SYST");
    write_string16(&mut payload, interface);
    payload
}

fn binder_event(interface: &str, code: u32, reply: bool) -> BinderEvent {
    let payload = parcel_payload(interface);
    let mut inline_payload = [0_u8; 256];
    inline_payload[..payload.len()].copy_from_slice(&payload);

    BinderEvent {
        sequence: 1,
        timestamp_ns: 0,
        kind: 1,
        pid: 0,
        tgid: 0,
        uid: 0,
        reply: u32::from(reply),
        lost_before: 0,
        transaction_debug_id: 0,
        reply_to_debug_id: 0,
        transaction: 0,
        proc: 0,
        thread: 0,
        extra_buffers_size: 0,
        code,
        flags: 0,
        data_size: payload.len() as u64,
        offsets_size: 0,
        target_handle: 0,
        sender_pid: 0,
        sender_euid: 0,
        payload_len: payload.len() as u32,
        payload_truncated: 0,
        reserved: [0; 7],
        payload: inline_payload,
    }
}

fn strip_ansi(text: &str) -> String {
    let mut stripped = String::new();
    let mut chars = text.chars();
    while let Some(ch) = chars.next() {
        if ch == '\x1b' {
            for escaped in chars.by_ref() {
                if escaped == 'm' {
                    break;
                }
            }
        } else {
            stripped.push(ch);
        }
    }
    stripped
}

fn panel_with_body(title: &str, focused: bool, width: usize, height: usize) -> Vec<String> {
    let (inner_width, _) = panel_inner_size(width, height);
    render_panel(title, focused, width, height, &vec![fit("body", inner_width)])
}

#[test]
fn mod_truncation_marks_omitted_text() {
    assert_eq!(
        truncate_with_ellipsis("android.app.IActivityManager", 14),
        "android.app..."
    );
    assert_eq!(truncate_with_ellipsis("abcdef", 3), "...");
    assert_eq!(truncate_with_ellipsis("abcdef", 0), "");
    assert_eq!(truncate_with_ellipsis("中文abcdef", 8), "中文a...");
    assert_eq!(display_width(&fit("中文", 6)), 6);
}

#[test]
fn mod_transaction_columns_keep_row_width() {
    for width in [6, 24, 65, 100] {
        let row = TransactionColumns::new_with_sequence_width(width, true, 9).row(
            "123456789",
            "send",
            "android.app.IActivityManager",
            "1000000",
            "someExtremelyLongMethodName",
            "0x123456789",
        );

        assert_eq!(row.chars().count(), width);
    }
}

#[test]
fn mod_transaction_columns_drop_method_when_empty() {
    let header = TransactionColumns::new_with_sequence_width(80, false, 3).header();

    assert!(!header.contains("Method"));
}

#[test]
fn transaction_columns_shrink_sequence_padding_to_visible_rows() {
    let columns = TransactionColumns::new_with_sequence_width(80, false, 3);
    let header = columns.header();
    let row = columns.row(
        "716",
        "send",
        "android.hidl.base@1.0::IBase",
        "256067662",
        "",
        "0x20",
    );

    assert!(header.starts_with("Seq Dir"));
    assert!(row.starts_with("716 send"));
}

#[test]
fn mod_transaction_columns_do_not_stretch_interface_on_wide_terminals() {
    let columns = TransactionColumns::new_with_sequence_width(180, true, 3);

    assert_eq!(columns.interface, 56);
    assert_eq!(columns.method, 28);
}

#[test]
fn mod_transaction_columns_keep_full_u32_code_width() {
    let columns = TransactionColumns::new_with_sequence_width(100, true, 1);
    let row = columns.row(
        "1",
        "reply",
        "android.content.pm.IPackageManager",
        "4294967295",
        "method",
        "0x10",
    );

    assert!(row.contains("4294967295"));
    assert!(row.contains("reply"));
}

#[test]
fn transaction_columns_include_direction_header() {
    let columns = TransactionColumns::new_with_sequence_width(80, true, 3);
    let header = columns.header();
    let row = columns.row("1", "send", "android.os.IMessenger", "1", "send", "0x20");

    assert!(header.contains("Dir"));
    assert!(row.contains("send"));
}

#[test]
fn transaction_color_is_derived_from_interface_name() {
    let methods = AndroidPlatformMethods::new(34);
    let left_event = binder_event("android.os.IMessenger", 1, false);
    let right_event = binder_event("android.os.IMessenger", 42, false);
    let other_event = binder_event("android.app.IActivityManager", 1, false);
    let left = TransactionSummary::new(&left_event, Some(&methods));
    let right = TransactionSummary::new(&right_event, Some(&methods));
    let other = TransactionSummary::new(&other_event, Some(&methods));

    assert_eq!(
        transaction_color_index(&left, &left_event),
        transaction_color_index(&right, &right_event)
    );
    assert_ne!(
        transaction_color_index(&left, &left_event),
        transaction_color_index(&other, &other_event)
    );
}

#[test]
fn transaction_color_of_replies_follows_the_code() {
    let first = binder_event("", 7, true);
    let same = binder_event("", 7, true);
    let summary = TransactionSummary::new(&first, None);
    assert_eq!(summary.interface, "");
    assert_eq!(
        transaction_color_index(&summary, &first),
        transaction_color_index(&summary, &same)
    );
    let palette = [
        39, 45, 51, 81, 87, 111, 117, 123, 159, 177, 183, 189, 204, 207, 213, 219, 222, 228,
    ];
    assert!(palette.contains(&transaction_color_index(&summary, &first)));
}

#[test]
fn mod_frequency_key_uses_interface_and_code() {
    let methods = AndroidPlatformMethods::new(34);
    let event = binder_event("android.net.INetworkStatsService", 13, false);
    let key = FrequencyKey::from_event(&event, Some(&methods));

    assert_eq!(
        key.map(|key| key.label()).as_deref(),
        Some("android.net.INetworkStatsService#13")
    );
}

#[test]
fn mod_frequency_key_ignores_replies_without_interface() {
    let methods = AndroidPlatformMethods::new(34);
    let event = binder_event("android.net.INetworkStatsService", 13, true);

    assert_eq!(FrequencyKey::from_event(&event, Some(&methods)), None);
}

#[test]
fn mod_frequency_columns_keep_count_and_filter_aligned() {
    let columns = FrequencyColumns::new(52);
    let row = columns.row(
        "android.content.pm.IPackageInstallerSessionFileSystemConnector#4294967295",
        "12345",
        "[+]",
    );

    assert_eq!(row.chars().count(), 52);
    assert!(row.contains("..."));
    assert!(row.ends_with(" 12345    [+]"));
}

#[test]
fn frequency_styled_row_uses_srgb_color_and_separate_code_color() {
    let columns = FrequencyColumns::new(40);
    let entry = FrequencyEntry {
        label: "android.os.IFoo#18".to_owned(),
        interface: "android.os.IFoo".to_owned(),
        code: 18,
        count: 7,
    };
    let row = columns.styled_row(&entry, "[+]", false);
    let plain = strip_ansi(&row);

    assert!(row.contains("\x1b[38;2;176;223;226mandroid.os.IFoo"));
    assert!(row.contains("\x1b[38;5;226m#18"));
    assert!(row.contains("\x1b[38;2;176;223;226m"));
    assert!(!row.contains("\x1b[38;2;176;223;226m#18"));
    assert!(!row.contains("38;5;176"));
    assert_eq!(plain.chars().count(), 40);
    assert!(plain.contains("android.os.IFoo#18"));
    assert!(plain.contains("        7"));
}

#[test]
fn frequency_selected_row_changes_text_colors() {
    let columns = FrequencyColumns::new(40);
    let entry = FrequencyEntry {
        label: "android.os.IFoo#18".to_owned(),
        interface: "android.os.IFoo".to_owned(),
        code: 18,
        count: 7,
    };
    let row = columns.styled_row(&entry, "[+]", true);
    let plain = strip_ansi(&row);

    assert!(row.contains("48;2;176;223;226"));
    assert!(row.contains("38;5;0") || row.contains("[30"));
    assert!(!row.contains("48;5;176"));
    assert_eq!(plain.chars().count(), 40);
}

#[test]
fn language_detection_parses_supported_locales() {
    assert_eq!(UiLanguage::from_locale("zh-CN"), Some(UiLanguage::Chinese));
    assert_eq!(
        UiLanguage::from_locale("zh_Hant_HK"),
        Some(UiLanguage::Chinese)
    );
    assert_eq!(UiLanguage::from_locale("ja-JP"), Some(UiLanguage::Japanese));
    assert_eq!(
        UiLanguage::from_locale("en-US.UTF-8"),
        Some(UiLanguage::English)
    );
    assert_eq!(
        UiLanguage::from_locale_list("fr_FR:ja_JP"),
        Some(UiLanguage::Japanese)
    );
    assert_eq!(UiLanguage::from_locale("C"), None);
    assert_eq!(UiLanguage::from_locale("fr-FR"), None);
}

#[test]
fn language_detection_ignores_case_and_surrounding_space() {
    assert_eq!(UiLanguage::from_locale("  ZH_cn "), Some(UiLanguage::Chinese));
    assert_eq!(UiLanguage::from_locale_list(""), None);
    assert_eq!(UiLanguage::from_locale_list("fr:de:"), None);
    assert_eq!(UiLanguage::from_locale_list("EN"), Some(UiLanguage::English));
}

#[test]
fn focused_panel_uses_solid_green_border() {
    let focused = panel_with_body("Frequency", true, 24, 3);
    let unfocused = panel_with_body("Frequency", false, 24, 3);
    let focused_top = strip_ansi(&focused[0]);
    let unfocused_top = strip_ansi(&unfocused[0]);

    assert!(focused[0].contains("\x1b[38;5;120m"));
    assert!(unfocused[0].contains("\x1b[38;5;15m"));
    assert!(focused_top.starts_with("┌"));
    assert!(focused_top.contains("[Frequency]"));
    assert!(focused_top.contains("─"));
    assert!(focused[1].contains("│"));
    assert!(focused[2].contains("└"));
    assert!(!unfocused_top.contains("[Frequency]"));
    assert!(unfocused_top.contains(" Frequency "));
    assert!(!focused_top.contains("="));
    assert!(!unfocused_top.contains("-"));
}
