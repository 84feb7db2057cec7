use binder_trace::{
    AndroidPlatformMethods, BUNDLED_METHODS_TSV, BinderDevice, DecodeError, Decoder, EventKind,
    RawBinderEvent, entries_from_records, load_platform_methods, parse_interface_token,
};

fn write_string16(output: &mut Vec<u8>, value: &str) {
    let units = value.encode_utf16().collect::<Vec<_>>();
    output.extend_from_slice(&(units.len() as i32).to_le_bytes());
    for unit in units {
        output.extend_from_slice(&unit.to_le_bytes());
    }
    output.extend_from_slice(&0_u16.to_le_bytes());
    while output.len() % 4 != 0 {
        output.push(0);
    }
}

#[test]
fn lookup_uses_sdk_specific_platform_table() {
    let sdk34 = AndroidPlatformMethods::new(34);

    assert_eq!(
        sdk34.method_name_or_empty("android.content.IContentProvider", 24),
        "createCancellationSignal"
    );
    assert_eq!(
        sdk34.method_name_or_empty("android.view.autofill.IAutoFillManager", 6),
        "updateSession"
    );
    assert_eq!(
        sdk34.method_name_or_empty("android.database.IBulkCursor", 7),
        "close"
    );
}

#[test]
fn lookup_returns_empty_for_unknown_or_out_of_range_sdk() {
    assert_eq!(
        AndroidPlatformMethods::new(34).method_name_or_empty("com.example.IFoo", 1),
        ""
    );
    assert_eq!(
        AndroidPlatformMethods::new(29).method_name_or_empty("android.content.IContentProvider", 24),
        ""
    );
}

#[test]
fn parses_modern_interface_token_header() {
    let mut payload = Vec::new();
    payload.extend_from_slice(&0_i32.to_le_bytes());
    payload.extend_from_slice(&(-1_i32).to_le_bytes());
    payload.extend_from_slice(b"SYST");
    write_string16(&mut payload, "android.content.IContentProvider");

    assert_eq!(
        parse_interface_token(&payload).as_deref(),
        Some("android.content.IContentProvider")
    );
}

#[test]
fn rejects_non_descriptor_strings() {
    let mut payload = Vec::new();
    payload.extend_from_slice(&0_i32.to_le_bytes());
    payload.extend_from_slice("android.content.pm.ResolveInfo|乱码".as_bytes());

    assert_eq!(parse_interface_token(&payload), None);
}

#[test]
fn keystore_method_is_known_on_sdk_35() {
    assert_eq!(
        AndroidPlatformMethods::new(35)
            .method_name_or_empty("android.system.keystore2.IKeystoreService", 1),
        "getSecurityLevel"
    );
}

#[test]
fn token_at_offset_zero_is_read_for_old_headers() {
    let mut payload = Vec::new();
    write_string16(&mut payload, "android.os.IFoo");
    assert_eq!(parse_interface_token(&payload).as_deref(), Some("android.os.IFoo"));
}

#[test]
fn lone_surrogate_is_not_a_token() {
    let mut payload = Vec::new();
    payload.extend_from_slice(&2_i32.to_le_bytes());
    payload.extend_from_slice(&0xd800_u16.to_le_bytes());
    payload.extend_from_slice(&0x41_u16.to_le_bytes());
    payload.extend_from_slice(&0_u16.to_le_bytes());
    assert_eq!(parse_interface_token(&payload), None);
}

#[test]
fn decoder_rejects_unknown_kind() {
    let mut raw = RawBinderEvent::new(EventKind::Transaction, BinderDevice::binder());
    raw.header.kind = 9;
    assert_eq!(
        Decoder::default_decoder().decode(&raw),
        Err(DecodeError::UnknownEventKind(9))
    );
}

#[test]
fn decoder_rejects_oversized_payload_length() {
    let mut raw = RawBinderEvent::new(EventKind::Transaction, BinderDevice::binder());
    raw.transaction.payload_len = 300;
    assert_eq!(
        Decoder::default_decoder().decode(&raw),
        Err(DecodeError::PayloadLengthOutOfRange(300))
    );
}

#[test]
fn decoder_keeps_configured_payload_prefix() {
    let mut raw = RawBinderEvent::new(EventKind::Reply, BinderDevice::hwbinder());
    raw.transaction.payload_len = 5;
    raw.transaction.payload[..5].copy_from_slice(&[1, 2, 3, 4, 5]);
    let decoder = Decoder::new(binder_trace::DecoderConfig { max_payload_bytes: 3 });
    let event = decoder.decode(&raw).expect("reply should decode");
    let transaction = event.transaction.expect("reply carries a transaction");
    assert_eq!(transaction.payload, vec![1, 2, 3]);
    assert!(transaction.payload_truncated);
    assert_eq!(event.device.name(), "hwbinder");
    assert_eq!(event.kind.name(), "reply");
}

#[test]
fn diagnostic_events_have_no_transaction() {
    let raw = RawBinderEvent::default_event();
    let event = Decoder::default_decoder().decode(&raw).expect("diagnostic should decode");
    assert_eq!(event.kind, EventKind::Diagnostic);
    assert!(event.transaction.is_none());
    assert_eq!(event.device.name(), "unknown");
}

#[test]
fn bundled_table_text_loads_as_the_bundled_rows() {
    let entries = load_platform_methods(BUNDLED_METHODS_TSV).expect("the bundled table is valid");
    assert_eq!(entries, AndroidPlatformMethods::new(35).entries);
    let methods = AndroidPlatformMethods::with_entries(35, entries);
    assert_eq!(
        methods.method_name_or_empty("android.system.keystore2.IKeystoreService", 1),
        "getSecurityLevel"
    );
}

#[test]
fn table_text_skips_comments_and_keeps_row_order() {
    let entries = load_platform_methods("# mask\tcode\tinterface\tmethod\n0x1\t3\ta.B\tfirst\n0x3\t4\ta.C\tsecond\n")
        .expect("valid rows");
    assert_eq!(entries.len(), 2);
    assert_eq!((entries[0].sdk_mask, entries[0].code, entries[0].method.as_str()), (1, 3, "first"));
    assert_eq!((entries[1].sdk_mask, entries[1].interface.as_str()), (3, "a.C"));
}

#[test]
fn table_text_reports_the_first_bad_row() {
    assert_eq!(
        load_platform_methods("0x1\t3\ta.B\tfirst\n0x1\t4\ta.B\t\n0x1\tx\ta.B\tthird\n"),
        Err(String::from("Android 平台 Binder 方法表第 2 条记录无效: 缺少 method 字段"))
    );
    assert_eq!(
        load_platform_methods("0x1\t3\ta.B\n"),
        Err(String::from("Android 平台 Binder 方法表第 1 条记录无效: 字段数量应为 4 个，实际为 3"))
    );
    let uneven = load_platform_methods("0x1\t3\ta.B\tfirst\n0x1\t4\ta.B\n").unwrap_err();
    assert!(uneven.starts_with("Android 平台 Binder 方法表第 2 条记录无效: "));
}

#[test]
fn records_become_rows_until_the_first_failure() {
    let good = || Ok(vec![String::from("0x1"), String::from("2"), String::from("a.B"), String::from("m")]);
    let rows = entries_from_records(&[good(), good()]).expect("valid records");
    assert_eq!(rows.len(), 2);
    assert_eq!(
        entries_from_records(&[good(), Err(String::from("boom")), Err(String::from("later"))]),
        Err(String::from("Android 平台 Binder 方法表第 2 条记录无效: boom"))
    );
    assert_eq!(entries_from_records(&[]), Ok(Vec::new()));
}
