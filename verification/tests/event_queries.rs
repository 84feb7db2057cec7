use binder_trace::history::{
    DEFAULT_MAX_FILE_BYTES, EVENT_SIZE, HEADER_SIZE, HistoryError, HistoryIndex, decode_event,
    encode_event, encode_header, event_range, file_len, grown_capacity, max_event_capacity,
};
use binder_trace::mcp::{
    EnableCaptureParams, EventFilter, EventStatus, EventStore, SelectedEvents, TraceEvent,
    event_matches_query, select_events, select_page, status_for, top_interfaces,
};
use binder_trace::query::{
    DirectionFilter, EventDirection, PageRequest, clamped_limit, contains_chars, debug_id,
    latency_us, number_contains, select_indices,
};
use binder_trace::ranking::{RankedCount, count_names, name_less, rank, top_counts};
use binder_trace::webui::{
    EventState, EventsQuery, SourceState, WebEventFilter, WebuiError, WebuiEventsConfig,
    cache_control, classify_status, ensure_index_asset, flags_contain, normalize_path,
    page_more, resolve_request,
};
use binder_trace::{BinderEvent, CaptureConfig};

fn event(sequence: u64, interface: &str, direction: EventDirection) -> TraceEvent {
    TraceEvent {
        seq: sequence,
        timestamp_ns: sequence * 1_000,
        direction,
        pid: 1,
        tgid: 1,
        uid: 1,
        interface: interface.to_owned(),
        method: "method".to_owned(),
        code: 1,
        flags: 0,
        target_handle: 1,
        sender_pid: 1,
        sender_euid: 1,
        data_size: 0,
        offsets_size: 0,
        payload_truncated: false,
        payload_hex: String::new(),
        debug_id: sequence,
        reply_to_debug_id: None,
        latency_us: None,
        status: EventStatus::Normal,
        lost_before: 0,
    }
}

fn raw_event(sequence: u64) -> BinderEvent {
    BinderEvent {
        sequence,
        timestamp_ns: sequence * 1_000,
        kind: 1,
        pid: 100,
        tgid: 100,
        uid: 2000,
        reply: 0,
        lost_before: 0,
        transaction_debug_id: sequence as u32,
        reply_to_debug_id: 0,
        transaction: 0,
        proc: 0,
        thread: 0,
        extra_buffers_size: 0,
        code: sequence as u32,
        flags: 0,
        data_size: 0,
        offsets_size: 0,
        target_handle: 0,
        sender_pid: 0,
        sender_euid: 0,
        payload_len: 0,
        payload_truncated: 0,
        reserved: [0; 7],
        payload: [0; 256],
    }
}

fn all_filter() -> EventFilter {
    EventFilter::from_params(None, None, None, None, None)
}

fn seqs(selected: &SelectedEvents) -> Vec<u64> {
    selected.events.iter().map(|event| event.seq).collect()
}

#[test]
fn select_latest_page_from_filtered_events() {
    let events = vec![
        event(1, "android.os.IFoo", EventDirection::Call),
        event(2, "android.os.IBar", EventDirection::Call),
        event(3, "android.os.IFoo", EventDirection::Reply),
    ];
    let matched = events
        .iter()
        .filter(|event| event.interface == "android.os.IFoo")
        .cloned()
        .collect::<Vec<_>>();

    let selected = select_page(&matched, PageRequest::Latest, 8);

    assert_eq!(selected.events.len(), 2);
    assert_eq!(selected.events[0].seq, 1);
    assert_eq!(selected.events[1].seq, 3);
    assert_eq!(selected.start_index, Some(1));
    assert_eq!(selected.end_index, Some(2));
}

#[test]
fn direction_filter_rejects_other_directions() {
    let filter = EventFilter {
        direction: DirectionFilter::Reply,
        interface: None,
        since_ns: None,
        until_ns: None,
        query: String::new(),
    };

    assert!(filter.matches(&event(1, "android.os.IFoo", EventDirection::Reply)));
    assert!(!filter.matches(&event(2, "android.os.IFoo", EventDirection::Call)));
}

#[test]
fn event_store_reads_old_events_from_btcap_history() {
    let mut store = EventStore::new(None);
    let mut events = Vec::new();
    for sequence in 0..3 {
        let raw = raw_event(sequence);
        store.push(&raw, sequence);
        events.push(store.trace_event(&raw));
    }

    assert_eq!(store.index_of(0), Some(0));
    assert_eq!(events[store.index_of(0).unwrap() as usize].seq, 0);

    let request = PageRequest::from_bounds(None, Some(0));
    let selected = select_events(&events, &all_filter(), request, clamped_limit(Some(2), 64, 512));
    assert_eq!(seqs(&selected), vec![1, 2]);
    assert_eq!(store.seq_range(), (Some(0), Some(2)));
}

#[test]
fn events_filter_by_timestamp_range() {
    let mut store = EventStore::new(None);
    let mut events = Vec::new();
    for sequence in 0..5 {
        let raw = raw_event(sequence);
        store.push(&raw, sequence);
        events.push(store.trace_event(&raw));
    }
    let filter = EventFilter::from_params(None, None, Some(1_000), Some(3_000), None);

    let selected = select_events(&events, &filter, PageRequest::Latest, 8);

    assert_eq!(seqs(&selected), vec![1, 2, 3]);
    assert_eq!(selected.matched_count, 3);
}

#[test]
fn pages_before_and_after_a_sequence() {
    let events = (1..=6)
        .map(|i| event(i, "android.os.IFoo", EventDirection::Call))
        .collect::<Vec<_>>();
    let before = select_events(&events, &all_filter(), PageRequest::Before(5), 2);
    assert_eq!(seqs(&before), vec![3, 4]);
    assert_eq!((before.start_index, before.end_index), (Some(3), Some(4)));
    let after = select_events(&events, &all_filter(), PageRequest::After(2), 3);
    assert_eq!(seqs(&after), vec![3, 4, 5]);
    let none = select_events(&events, &all_filter(), PageRequest::After(9), 3);
    assert!(none.events.is_empty());
    assert_eq!((none.start_index, none.end_index, none.matched_count), (None, None, 6));

    let same = select_page(&events, PageRequest::Before(5), 2);
    assert_eq!(seqs(&same), seqs(&before));
    assert_eq!((same.start_index, same.end_index), (before.start_index, before.end_index));
}

#[test]
fn query_text_matches_numbers_and_names() {
    let mut e = event(1234, "android.os.IMessenger", EventDirection::Oneway);
    e.code = 77;
    assert!(event_matches_query(&e, "234"));
    assert!(event_matches_query(&e, "imessenger"));
    assert!(event_matches_query(&e, "oneway"));
    assert!(event_matches_query(&e, "ok"));
    assert!(!event_matches_query(&e, "zzz"));

    let filter = EventFilter::from_params(
        Some(DirectionFilter::Oneway),
        Some(" all "),
        None,
        None,
        Some("  IMESSENGER "),
    );
    assert_eq!(filter.interface, None);
    assert_eq!(filter.query, "imessenger");
    assert!(filter.matches(&e));
    let filter = EventFilter::from_params(None, Some(" android.os.IFoo "), None, None, None);
    assert_eq!(filter.interface.as_deref(), Some("android.os.IFoo"));
    assert!(!filter.matches(&e));
}

#[test]
fn statuses_follow_lost_events_and_latency() {
    assert_eq!(status_for(1, None), EventStatus::Error);
    assert_eq!(status_for(0, Some(16_000)), EventStatus::Slow);
    assert_eq!(status_for(0, Some(15_999)), EventStatus::Normal);
    assert_eq!(status_for(0, None).label(), "ok");
    let raw = raw_event(1);
    assert_eq!(classify_status(&raw, Some(10_000)), "slow");
    assert_eq!(classify_status(&raw, Some(9_999)), "ok");
}

#[test]
fn replies_take_their_call_and_latency() {
    let mut store = EventStore::new(None);
    let mut call = raw_event(1);
    call.transaction_debug_id = 42;
    call.timestamp_ns = 1_000_000;
    call.target_handle = 9;
    let mut reply = raw_event(2);
    reply.reply = 1;
    reply.reply_to_debug_id = 42;
    reply.timestamp_ns = 21_500_000;
    store.push(&call, 0);
    store.push(&reply, 1);

    let r = store.trace_event(&reply);
    assert_eq!(r.direction, EventDirection::Reply);
    assert_eq!(r.interface, "handle#9");
    assert_eq!(r.method, "code_1");
    assert_eq!(r.latency_us, Some(20_500));
    assert_eq!(r.status, EventStatus::Slow);
    let c = store.trace_event(&call);
    assert_eq!(c.latency_us, Some(20_500));
    assert_eq!(c.debug_id, 42);

    let mut orphan = raw_event(3);
    orphan.reply = 1;
    orphan.reply_to_debug_id = 7;
    let o = store.trace_event(&orphan);
    assert_eq!(o.interface, "reply_to#7");
    assert_eq!(o.latency_us, None);
    store.clear();
    assert_eq!(store.index_of(0), None);
    assert_eq!(store.lost_count(), 0);
}

#[test]
fn top_interfaces_rank_by_count_then_name() {
    let events = vec![
        event(1, "b", EventDirection::Call),
        event(2, "a", EventDirection::Call),
        event(3, "c", EventDirection::Call),
        event(4, "c", EventDirection::Call),
        event(5, "b", EventDirection::Call),
    ];
    let top = top_interfaces(&events, 2);
    assert_eq!(
        top,
        vec![
            RankedCount { name: "b".to_owned(), count: 2 },
            RankedCount { name: "c".to_owned(), count: 2 },
        ]
    );
    assert_eq!(top_interfaces(&events, 10).len(), 3);
}

#[test]
fn ranking_helpers_count_and_order() {
    let names = ["x", "y", "x", "z", "x"].map(|s| s.to_owned());
    let counts = count_names(&names);
    assert_eq!(counts.len(), 3);
    assert_eq!(counts[0], RankedCount { name: "x".to_owned(), count: 3 });
    let ranked = rank(counts);
    assert_eq!(ranked[0].name, "x");
    assert_eq!(ranked[1].name, "y");
    assert_eq!(top_counts(&names, 1).len(), 1);
    assert!(name_less("a", "b"));
    assert!(name_less("ab", "abc"));
    assert!(!name_less("b", "a"));
    assert!(!name_less("a", "a"));
}

#[test]
fn enable_capture_sets_given_filters() {
    let base = CaptureConfig::binder_transaction_enabled();
    let params = EnableCaptureParams {
        tgid: Some(7),
        pid: None,
        uid: Some(1000),
        min_size: None,
        max_size: Some(64),
    };
    let config = params.capture_config(base);
    assert_eq!(config.enabled, 1);
    assert_eq!(config.tgid, 7);
    assert_eq!(config.pid, base.pid);
    assert_eq!(config.uid, 1000);
    assert_eq!(config.uid_enabled, 1);
    assert_eq!(config.max_size, 64);
}

#[test]
fn helpers_compute_ids_latency_and_limits() {
    let mut raw = raw_event(9);
    raw.transaction_debug_id = 0;
    assert_eq!(debug_id(&raw), 9);
    raw.transaction_debug_id = 3;
    assert_eq!(debug_id(&raw), 3);
    assert_eq!(latency_us(5_000, 1_000), 4);
    assert_eq!(latency_us(1_000, 5_000), 0);
    assert_eq!(clamped_limit(None, 64, 512), 64);
    assert_eq!(clamped_limit(Some(0), 64, 512), 1);
    assert_eq!(clamped_limit(Some(9_999), 64, 512), 512);
    assert!(number_contains(4294967295, "967"));
    assert!(contains_chars(&['a', 'b', 'c'], &['b', 'c']));
    assert!(contains_chars(&['a'], &[]));
    assert!(!contains_chars(&['a'], &['a', 'a']));
    let picked = select_indices(&[true, false, true, true], &[5, 6, 7, 8], PageRequest::Latest, 2);
    assert_eq!(picked.positions, vec![2, 3]);
    assert_eq!((picked.start_index, picked.end_index, picked.matched_count), (Some(2), Some(3), 3));
}

#[test]
fn webui_state_enriches_events_and_lists_interfaces() {
    let config = WebuiEventsConfig { enabled: true, ..WebuiEventsConfig::default() };
    let mut state = EventState::new(&config);
    assert_eq!(state.source_state(), SourceState::Connecting);
    assert!(state.can_collect(true));
    assert!(!state.can_collect(false));

    let mut events = Vec::new();
    for sequence in 1..=5 {
        let raw = raw_event(sequence);
        state.record_event(&raw);
        events.push(raw);
    }
    let records = events
        .iter()
        .map(|raw| state.api_event(raw, format!("pid:{}", raw.tgid)))
        .collect::<Vec<_>>();
    assert_eq!(records[0].raw.object, "binder.transaction");
    assert_eq!(records[0].raw.data.process.pid, 100);
    assert_eq!(records[0].enrichment.process_label, "pid:100");
    assert_eq!(records[0].enrichment.interface, "handle#0");

    let query = EventsQuery {
        query: String::new(),
        direction: DirectionFilter::All,
        interface_name: String::new(),
        limit: Some(2),
        before_seq: None,
        after_seq: None,
    };
    let filter = WebEventFilter::from_query(&query);
    let latest = binder_trace::webui::select_events(&records, &filter, query.page_request(), query.limit());
    assert_eq!(latest.events.iter().map(|e| e.raw.seq).collect::<Vec<_>>(), vec![4, 5]);
    assert_eq!(page_more(latest.start_index, latest.end_index, latest.matched_count), (true, false));

    let older_query = EventsQuery { before_seq: Some(4), ..query.clone() };
    let older = binder_trace::webui::select_events(
        &records,
        &filter,
        older_query.page_request(),
        older_query.limit(),
    );
    assert_eq!(older.events.iter().map(|e| e.raw.seq).collect::<Vec<_>>(), vec![2, 3]);
    assert_eq!(older.matched_count, 5);

    let options = state.interface_options(&events);
    assert_eq!(options, vec![RankedCount { name: "handle#0".to_owned(), count: 5 }]);

    state.set_error("down".to_owned());
    assert_eq!(state.source_state(), SourceState::Error);
    assert_eq!(state.error().as_deref(), Some("down"));
    state.clear();
    assert_eq!(state.kernel_lost_count(), 0);
}

#[test]
fn webui_flags_and_routes() {
    assert!(flags_contain(0x01, "one"));
    assert!(flags_contain(0x21, "clear"));
    assert!(!flags_contain(0x00, "one"));
    assert!(!flags_contain(0x02, "root"));
    assert_eq!(normalize_path("index.html?x=1#top").iter().collect::<String>(), "/index.html");
    assert_eq!(normalize_path("/a/b#c").iter().collect::<String>(), "/a/b");
    let paths = vec!["/index.html".to_owned(), "/assets/app.js".to_owned()];
    assert_eq!(resolve_request(&paths, "/"), Some(0));
    assert_eq!(resolve_request(&paths, "/assets/app.js?v=2"), Some(1));
    assert_eq!(resolve_request(&paths, "/trace/session-1"), Some(0));
    assert_eq!(resolve_request(&paths, "/missing.css"), None);
    assert_eq!(cache_control("/index.html"), "no-cache");
    assert_eq!(cache_control("/assets/app.js"), "public, max-age=31536000, immutable");
    assert_eq!(ensure_index_asset(&paths), Ok(()));
    assert_eq!(ensure_index_asset(&[]), Err(WebuiError::MissingIndex));
}

#[test]
fn history_layout_and_limits() {
    assert_eq!(event_range(0), Ok((HEADER_SIZE, HEADER_SIZE + EVENT_SIZE)));
    assert_eq!(event_range(2), Ok((64 + 768, 64 + 1152)));
    assert_eq!(event_range(u64::MAX), Err(HistoryError::CapacityOverflow));
    assert_eq!(file_len(10), Ok(64 + 3840));
    assert_eq!(max_event_capacity(64 + 384 * 3 + 10), Ok(3));
    assert_eq!(
        max_event_capacity(100),
        Err(HistoryError::CapacityLimit { needed_events: 1, max_events: 0, max_file_bytes: 100 })
    );
    assert_eq!(max_event_capacity(DEFAULT_MAX_FILE_BYTES), Ok((DEFAULT_MAX_FILE_BYTES - 64) / 384));
    assert_eq!(grown_capacity(2, 5, 100), 8);
    assert_eq!(grown_capacity(2, 5, 6), 6);
    assert_eq!(grown_capacity(0, 1, 6), 1);
}

#[test]
fn history_index_grows_and_refuses_beyond_its_limit() {
    let mut index = HistoryIndex::create(1, 64 + 384 * 3).unwrap();
    assert_eq!(index.capacity, 3);
    assert_eq!(index.append(), Ok((None, 0)));
    assert_eq!(index.append(), Ok((None, 1)));
    assert_eq!(index.append(), Ok((None, 2)));
    assert_eq!(
        index.append(),
        Err(HistoryError::CapacityLimit { needed_events: 4, max_events: 3, max_file_bytes: 64 + 384 * 3 })
    );
    index.clear();
    assert_eq!(index.count, 0);
    assert_eq!(index.window(1, 5), (0, 0));

    let mut small = HistoryIndex { count: 2, capacity: 2, max_events: 16, max_file_bytes: 0 };
    assert_eq!(small.append(), Ok((Some(4), 2)));
    assert_eq!(small.window(1, 2), (1, 2));
}

#[test]
fn history_records_read_back_what_was_written() {
    let mut event = raw_event(77);
    event.payload[0] = 0xab;
    event.payload[255] = 0xcd;
    event.reserved[3] = 9;
    event.payload_truncated = 1;
    event.offsets_size = u64::MAX;
    let bytes = encode_event(&event);
    assert_eq!(bytes.len(), 384);
    assert_eq!(decode_event(&bytes), event);
    let header = encode_header(5, 65_536);
    assert_eq!(&header[..8], b"BTCEVT01");
    assert_eq!(header.len(), 64);
    assert_eq!(u64::from_le_bytes(header[24..32].try_into().unwrap()), 5);
    assert_eq!(u64::from_le_bytes(header[32..40].try_into().unwrap()), 65_536);
}

#[test]
fn history_reports_keep_history_order() {
    let mut store = EventStore::new(None);
    let raws: Vec<_> = (0..4).map(raw_event).collect();
    for (index, raw) in raws.iter().enumerate() {
        store.push(raw, index as u64);
    }
    let reports = store.trace_events(&raws);
    assert_eq!(reports.iter().map(|report| report.seq).collect::<Vec<_>>(), vec![0, 1, 2, 3]);
    assert_eq!(reports[2].timestamp_ns, raws[2].timestamp_ns);
    assert!(store.trace_events(&[]).is_empty());
}

/// A history file kept in memory, laid out and grown as the library says.
struct MemoryHistory {
    index: HistoryIndex,
    bytes: Vec<u8>,
}

impl MemoryHistory {
    fn create(initial_events: u64, max_file_bytes: u64) -> Result<Self, HistoryError> {
        let index = HistoryIndex::create(initial_events, max_file_bytes)?;
        let mut bytes = vec![0; file_len(index.capacity)? as usize];
        bytes[..HEADER_SIZE as usize].copy_from_slice(&encode_header(0, index.capacity));
        Ok(Self { index, bytes })
    }

    fn append_event(&mut self, event: BinderEvent) -> Result<u64, HistoryError> {
        let (grown, position) = self.index.append()?;
        if let Some(capacity) = grown {
            self.bytes.resize(file_len(capacity)? as usize, 0);
        }
        let (start, end) = event_range(position)?;
        self.bytes[start as usize..end as usize].copy_from_slice(&encode_event(&event));
        self.bytes[..HEADER_SIZE as usize].copy_from_slice(&encode_header(self.index.count, self.index.capacity));
        Ok(position)
    }

    fn load_window(&self, start: u64, limit: u64) -> Vec<BinderEvent> {
        let (first, count) = self.index.window(start, limit);
        (first..first + count)
            .map(|position| {
                let (start, end) = event_range(position).unwrap();
                decode_event(&self.bytes[start as usize..end as usize])
            })
            .collect()
    }
}

fn sequences(events: &[BinderEvent]) -> Vec<u64> {
    events.iter().map(|event| event.sequence).collect()
}

#[test]
fn appends_and_loads_history_window() {
    let mut history = MemoryHistory::create(2, DEFAULT_MAX_FILE_BYTES).unwrap();
    for sequence in 0..5 {
        history.append_event(raw_event(sequence)).unwrap();
    }
    assert_eq!(sequences(&history.load_window(2, 2)), vec![2, 3]);
    assert_eq!(history.index.count, 5);
}

#[test]
fn keeps_order_after_capacity_growth() {
    let mut history = MemoryHistory {
        index: HistoryIndex { count: 0, capacity: 2, max_events: max_event_capacity(DEFAULT_MAX_FILE_BYTES).unwrap(), max_file_bytes: DEFAULT_MAX_FILE_BYTES },
        bytes: vec![0; file_len(2).unwrap() as usize],
    };
    for sequence in 0..9 {
        history.append_event(raw_event(sequence)).unwrap();
    }
    assert!(history.index.capacity >= 9);
    assert_eq!(sequences(&history.load_window(0, 9)), (0..9).collect::<Vec<_>>());
    assert_eq!(sequences(&history.load_window(4, 3)), vec![4, 5, 6]);
}

#[test]
fn creates_fixed_record_file() {
    let mut history = MemoryHistory::create(1, DEFAULT_MAX_FILE_BYTES).unwrap();
    history.append_event(raw_event(1)).unwrap();
    assert!(history.bytes.len() as u64 >= HEADER_SIZE + EVENT_SIZE);
    assert_eq!(&history.bytes[..8], b"BTCEVT01");
}

#[test]
fn rejects_append_after_max_file_bytes() {
    let max_file_bytes = HEADER_SIZE + EVENT_SIZE * 2;
    let mut history = MemoryHistory::create(1, max_file_bytes).unwrap();
    history.append_event(raw_event(1)).unwrap();
    history.append_event(raw_event(2)).unwrap();
    assert_eq!(
        history.append_event(raw_event(3)),
        Err(HistoryError::CapacityLimit { needed_events: 3, max_events: 2, max_file_bytes })
    );
}

#[test]
fn record_and_header_sizes_are_fixed() {
    assert_eq!(HEADER_SIZE, 64);
    assert_eq!(EVENT_SIZE, 384);
    assert_eq!(encode_header(0, 1).len() as u64, HEADER_SIZE);
    assert_eq!(encode_event(&raw_event(0)).len() as u64, EVENT_SIZE);
}
