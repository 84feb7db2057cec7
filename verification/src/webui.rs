use std::collections::HashMap;

use vstd::prelude::*;

use crate::platform::{AndroidPlatformMethods, text_eq};
use crate::query::{
    CallSummary, DirectionFilter, EventDirection, PageRequest, SelectedIndices, TF_ONE_WAY,
    call_target, candidates, clamped_limit, debug_id, matched_positions, number_contains, occurs_in,
    page_window, reply_latency, reply_target, select_indices, spec_call_interface, spec_call_method,
    spec_clamped_limit, spec_debug_id, spec_number_contains, spec_reply_latency, spec_reply_target,
    spec_selected, spec_text_contains, text_contains,
};
use crate::ranking::{RankedCount, is_top_counts, name_views, top_counts};
use crate::socket_ipc::{BinderEvent, CaptureConfig};
use crate::storage::{hex_bytes, payload_hex};
use crate::text::{chars_of, lowercase_text, lowercased, trim_text, trimmed};

verus! {

broadcast use vstd::std_specs::hash::group_hash_axioms;

/// Events the WebUI history file starts with room for.
pub const WEBUI_DEFAULT_MAX_EVENTS: usize = 65_536;

/// Events a query returns when it names no limit.
pub const WEBUI_DEFAULT_QUERY_LIMIT: usize = 256;

/// The most events one query returns.
pub const WEBUI_MAX_QUERY_LIMIT: usize = 4_096;

/// The most interfaces the interface menu offers.
pub const WEBUI_MAX_INTERFACE_OPTIONS: usize = 512;

/// A call slower than this many microseconds is marked slow.
pub const WEBUI_SLOW_TRANSACTION_US: u64 = 10_000;

/// The default largest history file, 8 GiB.
pub const DEFAULT_MAX_HISTORY_BYTES: u64 = 8_589_934_592;

/// Settings of the WebUI event source.
#[derive(Debug, Clone, PartialEq, Eq)]
pub struct WebuiEventsConfig {
    /// Whether the event source runs at all.
    pub enabled: bool,
    /// The capture configuration the WebUI turns on, if it controls capture.
    pub capture_config: Option<CaptureConfig>,
    /// The Android SDK used to name platform methods.
    pub android_sdk: Option<u16>,
    /// Events the history file starts with room for.
    pub max_events: usize,
    /// Where the history file lives, if not the default place.
    pub history_path: Option<String>,
    /// The largest the history file may grow.
    pub max_history_bytes: u64,
}

impl Default for WebuiEventsConfig {
    fn default() -> (r: WebuiEventsConfig)
        ensures
            !r.enabled,
            r.capture_config is None,
            r.android_sdk is None,
            r.max_events == WEBUI_DEFAULT_MAX_EVENTS,
            r.history_path is None,
            r.max_history_bytes == DEFAULT_MAX_HISTORY_BYTES,
    {
        WebuiEventsConfig {
            enabled: false,
            capture_config: None,
            android_sdk: None,
            max_events: WEBUI_DEFAULT_MAX_EVENTS,
            history_path: None,
            max_history_bytes: DEFAULT_MAX_HISTORY_BYTES,
        }
    }
}

/// Where the WebUI event source stands.
#[derive(Debug, Clone, Copy, PartialEq, Eq, Structural)]
pub enum SourceState {
    Connecting,
    Connected,
    Disabled,
    Error,
}

/// The process fields of an event record.
#[derive(Debug, Clone, Copy, PartialEq, Eq, Structural)]
pub struct RawRecordProcess {
    pub pid: u32,
    pub tid: u32,
    pub uid: u32,
}

/// The transaction fields of an event record.
#[derive(Debug, Clone, PartialEq, Eq)]
pub struct RawRecordTransaction {
    pub code: u32,
    pub flags: u32,
    pub data_size: u64,
    pub offsets_size: u64,
    pub target_handle: u32,
    pub sender_pid: u32,
    pub sender_euid: u32,
    pub payload_truncated: bool,
    pub payload_hex: String,
}

/// The data of an event record.
#[derive(Debug, Clone, PartialEq, Eq)]
pub struct RawRecordData {
    pub kind: &'static str,
    pub binder_device: &'static str,
    pub process: RawRecordProcess,
    pub flags: u32,
    pub sequence: u64,
    pub transaction: RawRecordTransaction,
}

/// An event record as the browser's model reads it.
#[derive(Debug, Clone, PartialEq, Eq)]
pub struct RawTraceRecord {
    pub device_id: &'static str,
    pub seq: u64,
    pub timestamp_ns: u64,
    pub object: &'static str,
    pub data: RawRecordData,
}

/// What the backend adds to an event record.
#[derive(Debug, Clone, PartialEq, Eq)]
pub struct ApiTraceEnrichment {
    pub interface: String,
    pub method: String,
    pub process_label: String,
    pub debug_id: u64,
    pub reply_to_debug_id: Option<u64>,
    pub latency_us: Option<u64>,
    pub status: &'static str,
}

/// One event as `/api/events` returns it.
#[derive(Debug, Clone, PartialEq, Eq)]
pub struct ApiTraceEvent {
    pub raw: RawTraceRecord,
    pub enrichment: ApiTraceEnrichment,
}

impl ApiTraceEvent {
    /// A copy of the event.
    pub fn copy(&self) -> (r: ApiTraceEvent)
        ensures
            r == *self,
    {
        let t = &self.raw.data.transaction;
        ApiTraceEvent {
            raw: RawTraceRecord {
                device_id: self.raw.device_id,
                seq: self.raw.seq,
                timestamp_ns: self.raw.timestamp_ns,
                object: self.raw.object,
                data: RawRecordData {
                    kind: self.raw.data.kind,
                    binder_device: self.raw.data.binder_device,
                    process: self.raw.data.process,
                    flags: self.raw.data.flags,
                    sequence: self.raw.data.sequence,
                    transaction: RawRecordTransaction {
                        code: t.code,
                        flags: t.flags,
                        data_size: t.data_size,
                        offsets_size: t.offsets_size,
                        target_handle: t.target_handle,
                        sender_pid: t.sender_pid,
                        sender_euid: t.sender_euid,
                        payload_truncated: t.payload_truncated,
                        payload_hex: t.payload_hex.clone(),
                    },
                },
            },
            enrichment: ApiTraceEnrichment {
                interface: self.enrichment.interface.clone(),
                method: self.enrichment.method.clone(),
                process_label: self.enrichment.process_label.clone(),
                debug_id: self.enrichment.debug_id,
                reply_to_debug_id: self.enrichment.reply_to_debug_id,
                latency_us: self.enrichment.latency_us,
                status: self.enrichment.status,
            },
        }
    }
}

/// An error when events were lost just before; slow when the latency
/// reaches the threshold; ok otherwise.
pub open spec fn spec_classify_status(lost_before: u32, latency_us: Option<u64>) -> Seq<char> {
    if lost_before > 0 {
        "error"@
    } else if latency_us matches Some(l) && l >= WEBUI_SLOW_TRANSACTION_US {
        "slow"@
    } else {
        "ok"@
    }
}

/// The status label of an event.
pub fn classify_status(event: &BinderEvent, latency_us: Option<u64>) -> (r: &'static str)
    ensures
        r@ == spec_classify_status(event.lost_before, latency_us),
{
    if event.lost_before > 0 {
        return "error";
    }
    match latency_us {
        Some(l) => if l >= WEBUI_SLOW_TRANSACTION_US {
            "slow"
        } else {
            "ok"
        },
        None => "ok",
    }
}

/// The record of an event with the backend's enrichment: a reply or a
/// transaction from device `android` on `binder`, the thread group as the
/// process, flags zero at the record level and the payload in hex.
pub fn api_trace_event(
    event: &BinderEvent,
    interface: String,
    method: String,
    process_label: String,
    debug_id: u64,
    reply_to_debug_id: Option<u64>,
    latency_us: Option<u64>,
    status: &'static str,
) -> (r: ApiTraceEvent)
    ensures
        r.raw.device_id@ == "android"@,
        r.raw.seq == event.sequence,
        r.raw.timestamp_ns == event.timestamp_ns,
        r.raw.object@ == (if event.spec_is_reply() {
            "binder.reply"@
        } else {
            "binder.transaction"@
        }),
        r.raw.data.kind@ == (if event.spec_is_reply() {
            "reply"@
        } else {
            "transaction"@
        }),
        r.raw.data.binder_device@ == "binder"@,
        r.raw.data.process == (RawRecordProcess { pid: event.tgid, tid: event.pid, uid: event.uid }),
        r.raw.data.flags == 0,
        r.raw.data.sequence == event.sequence,
        r.raw.data.transaction.code == event.code,
        r.raw.data.transaction.flags == event.flags,
        r.raw.data.transaction.data_size == event.data_size,
        r.raw.data.transaction.offsets_size == event.offsets_size,
        r.raw.data.transaction.target_handle == event.target_handle,
        r.raw.data.transaction.sender_pid == event.sender_pid,
        r.raw.data.transaction.sender_euid == event.sender_euid,
        r.raw.data.transaction.payload_truncated == (event.payload_truncated != 0),
        r.raw.data.transaction.payload_hex@ == hex_bytes(event.spec_payload()),
        r.enrichment == (ApiTraceEnrichment {
            interface,
            method,
            process_label,
            debug_id,
            reply_to_debug_id,
            latency_us,
            status,
        }),
{
    let reply = event.is_reply();
    let payload = event.payload_bytes();
    ApiTraceEvent {
        raw: RawTraceRecord {
            device_id: "android",
            seq: event.sequence,
            timestamp_ns: event.timestamp_ns,
            object: if reply {
                "binder.reply"
            } else {
                "binder.transaction"
            },
            data: RawRecordData {
                kind: if reply {
                    "reply"
                } else {
                    "transaction"
                },
                binder_device: "binder",
                process: RawRecordProcess { pid: event.tgid, tid: event.pid, uid: event.uid },
                flags: 0,
                sequence: event.sequence,
                transaction: RawRecordTransaction {
                    code: event.code,
                    flags: event.flags,
                    data_size: event.data_size,
                    offsets_size: event.offsets_size,
                    target_handle: event.target_handle,
                    sender_pid: event.sender_pid,
                    sender_euid: event.sender_euid,
                    payload_truncated: event.payload_truncated != 0,
                    payload_hex: payload_hex(payload.as_slice()),
                },
            },
        },
        enrichment: ApiTraceEnrichment {
            interface,
            method,
            process_label,
            debug_id,
            reply_to_debug_id,
            latency_us,
            status,
        },
    }
}

/// The direction of a record: a reply by its kind; otherwise one-way when
/// the one-way flag is set; else a call.
pub open spec fn spec_event_direction(event: ApiTraceEvent) -> EventDirection {
    if event.raw.data.kind@ == "reply"@ {
        EventDirection::Reply
    } else if event.raw.data.transaction.flags & TF_ONE_WAY == TF_ONE_WAY {
        EventDirection::Oneway
    } else {
        EventDirection::Call
    }
}

/// The direction of a record.
pub fn event_direction(event: &ApiTraceEvent) -> (r: EventDirection)
    ensures
        r == spec_event_direction(*event),
{
    if text_eq(event.raw.data.kind, "reply") {
        return EventDirection::Reply;
    }
    if event.raw.data.transaction.flags & TF_ONE_WAY == TF_ONE_WAY {
        return EventDirection::Oneway;
    }
    EventDirection::Call
}

/// The Binder transaction flags a query can name, with their labels.
pub open spec fn flag_table() -> Seq<(u32, Seq<char>)> {
    seq![
        (0x01u32, "one_way"@),
        (0x04u32, "root_object"@),
        (0x08u32, "status_code_pending"@),
        (0x10u32, "accept_fds"@),
        (0x20u32, "clear_buf"@),
    ]
}

/// Whether a query occurs in the label of a flag that is set.
pub open spec fn spec_flags_contain(flags: u32, needle: Seq<char>) -> bool {
    exists|i: int|
        0 <= i < flag_table().len() && flags & (#[trigger] flag_table()[i]).0 == flag_table()[i].0
            && occurs_in(needle, flag_table()[i].1)
}

fn flag_label_matches(flags: u32, bit: u32, label: &str, needle: &[char]) -> (r: bool)
    ensures
        r == (flags & bit == bit && occurs_in(needle@, label@)),
{
    if flags & bit != bit {
        return false;
    }
    let chars = chars_of(label);
    crate::query::contains_chars(chars.as_slice(), needle)
}

/// Whether a query occurs in the label of a flag that is set.
pub fn flags_contain(flags: u32, needle: &str) -> (r: bool)
    ensures
        r == spec_flags_contain(flags, needle@),
{
    let n = chars_of(needle);
    let a = flag_label_matches(flags, 0x01, "one_way", n.as_slice());
    let b = flag_label_matches(flags, 0x04, "root_object", n.as_slice());
    let c = flag_label_matches(flags, 0x08, "status_code_pending", n.as_slice());
    let d = flag_label_matches(flags, 0x10, "accept_fds", n.as_slice());
    let e = flag_label_matches(flags, 0x20, "clear_buf", n.as_slice());
    proof {
        let t = flag_table();
        assert(t[0] == (0x01u32, "one_way"@));
        assert(t[1] == (0x04u32, "root_object"@));
        assert(t[2] == (0x08u32, "status_code_pending"@));
        assert(t[3] == (0x10u32, "accept_fds"@));
        assert(t[4] == (0x20u32, "clear_buf"@));
        if a || b || c || d || e {
            if a {
                assert(flags & t[0].0 == t[0].0 && occurs_in(needle@, t[0].1));
            } else if b {
                assert(flags & t[1].0 == t[1].0 && occurs_in(needle@, t[1].1));
            } else if c {
                assert(flags & t[2].0 == t[2].0 && occurs_in(needle@, t[2].1));
            } else if d {
                assert(flags & t[3].0 == t[3].0 && occurs_in(needle@, t[3].1));
            } else {
                assert(flags & t[4].0 == t[4].0 && occurs_in(needle@, t[4].1));
            }
        }
    }
    a || b || c || d || e
}

/// Whether a query (already lowercased) occurs in one of the fields people
/// search by.
pub open spec fn spec_event_matches_needle(event: ApiTraceEvent, needle: Seq<char>) -> bool {
    ||| spec_number_contains(event.raw.seq as nat, needle)
    ||| spec_number_contains(event.enrichment.debug_id as nat, needle)
    ||| spec_number_contains(event.raw.data.process.pid as nat, needle)
    ||| spec_number_contains(event.raw.data.process.tid as nat, needle)
    ||| spec_number_contains(event.raw.data.process.uid as nat, needle)
    ||| spec_text_contains(event.enrichment.process_label@, needle)
    ||| spec_text_contains(event.enrichment.interface@, needle)
    ||| spec_text_contains(event.enrichment.method@, needle)
    ||| spec_number_contains(event.raw.data.transaction.code as nat, needle)
    ||| spec_text_contains(event.raw.data.binder_device@, needle)
    ||| spec_text_contains(spec_event_direction(event).spec_label(), needle)
    ||| spec_text_contains(event.enrichment.status@, needle)
    ||| spec_flags_contain(event.raw.data.transaction.flags, needle)
}

/// Whether `needle` stands somewhere in `hay`, character for character.
pub open spec fn found_in(needle: Seq<char>, hay: Seq<char>) -> bool {
    exists|i: int| 0 <= i && i + needle.len() <= hay.len() && #[trigger] hay.subrange(i, i + needle.len()) == needle
}

/// The WebUI text search finds an event by any of its texts: a lowercased
/// query standing in the lowercased interface, method, process label,
/// device or status of the event, or in the decimal sequence, pid, uid or
/// code, makes it match.
pub proof fn lemma_search_finds_event_texts(event: ApiTraceEvent, needle: Seq<char>)
    ensures
        found_in(needle, lowercased(event.enrichment.interface@)) ==> spec_event_matches_needle(event, needle),
        found_in(needle, lowercased(event.enrichment.method@)) ==> spec_event_matches_needle(event, needle),
        found_in(needle, lowercased(event.enrichment.process_label@)) ==> spec_event_matches_needle(event, needle),
        found_in(needle, lowercased(event.raw.data.binder_device@)) ==> spec_event_matches_needle(event, needle),
        found_in(needle, lowercased(event.enrichment.status@)) ==> spec_event_matches_needle(event, needle),
        found_in(needle, crate::text::decimal(event.raw.seq as nat)) ==> spec_event_matches_needle(event, needle),
        found_in(needle, crate::text::decimal(event.raw.data.process.pid as nat)) ==> spec_event_matches_needle(
            event,
            needle,
        ),
        found_in(needle, crate::text::decimal(event.raw.data.process.uid as nat)) ==> spec_event_matches_needle(
            event,
            needle,
        ),
        found_in(needle, crate::text::decimal(event.raw.data.transaction.code as nat)) ==> spec_event_matches_needle(
            event,
            needle,
        ),
{
}

/// Whether a query occurs in one of the searchable fields.
pub fn event_matches_needle(event: &ApiTraceEvent, needle: &str) -> (r: bool)
    ensures
        r == spec_event_matches_needle(*event, needle@),
{
    number_contains(event.raw.seq, needle) || number_contains(event.enrichment.debug_id, needle)
        || number_contains(event.raw.data.process.pid as u64, needle) || number_contains(
        event.raw.data.process.tid as u64,
        needle,
    ) || number_contains(event.raw.data.process.uid as u64, needle) || text_contains(
        event.enrichment.process_label.as_str(),
        needle,
    ) || text_contains(event.enrichment.interface.as_str(), needle) || text_contains(
        event.enrichment.method.as_str(),
        needle,
    ) || number_contains(event.raw.data.transaction.code as u64, needle) || text_contains(
        event.raw.data.binder_device,
        needle,
    ) || text_contains(event_direction(event).label(), needle) || text_contains(
        event.enrichment.status,
        needle,
    ) || flags_contain(event.raw.data.transaction.flags, needle)
}

/// The query parameters of `/api/events`.
#[derive(Debug, Clone, PartialEq, Eq)]
pub struct EventsQuery {
    pub query: String,
    pub direction: DirectionFilter,
    pub interface_name: String,
    pub limit: Option<usize>,
    pub before_seq: Option<u64>,
    pub after_seq: Option<u64>,
}

impl EventsQuery {
    /// The page size: the given one or the default, kept within 1..=4096.
    pub fn limit(&self) -> (r: usize)
        ensures
            r == spec_clamped_limit(self.limit, WEBUI_DEFAULT_QUERY_LIMIT, WEBUI_MAX_QUERY_LIMIT),
            1 <= r <= WEBUI_MAX_QUERY_LIMIT,
    {
        clamped_limit(self.limit, WEBUI_DEFAULT_QUERY_LIMIT, WEBUI_MAX_QUERY_LIMIT)
    }

    /// The page asked for: before a sequence, else after one, else the newest.
    pub fn page_request(&self) -> (r: PageRequest)
        ensures
            r == (match self.before_seq {
                Some(seq) => PageRequest::Before(seq),
                None => match self.after_seq {
                    Some(seq) => PageRequest::After(seq),
                    None => PageRequest::Latest,
                },
            }),
    {
        PageRequest::from_bounds(self.before_seq, self.after_seq)
    }
}

/// What a WebUI query keeps.
#[derive(Debug, Clone, PartialEq, Eq)]
pub struct WebEventFilter {
    /// A lowercased free-text query; empty keeps everything.
    pub needle: String,
    pub direction: DirectionFilter,
    /// Only this exact interface, when set.
    pub interface_name: Option<String>,
}

impl WebEventFilter {
    /// The filter of a query: the text trimmed and lowercased, the interface
    /// trimmed and dropped when empty or `all`.
    pub fn from_query(query: &EventsQuery) -> (r: WebEventFilter)
        ensures
            r.needle@ == lowercased(trimmed(query.query@)),
            r.direction == query.direction,
            match crate::mcp::spec_scalar_filter(query.interface_name@) {
                Some(t) => r.interface_name matches Some(s) && s@ == t,
                None => r.interface_name is None,
            },
    {
        WebEventFilter {
            needle: lowercase_text(trim_text(query.query.as_str())),
            direction: query.direction,
            interface_name: crate::mcp::normalized_scalar_filter(query.interface_name.as_str()),
        }
    }

    /// Whether a record passes the filter.
    pub open spec fn spec_matches(self, event: ApiTraceEvent) -> bool {
        &&& self.direction.spec_matches(spec_event_direction(event))
        &&& (self.interface_name matches Some(i) ==> event.enrichment.interface@ == i@)
        &&& (self.needle@.len() == 0 || spec_event_matches_needle(event, self.needle@))
    }

    /// Whether a record passes the filter.
    pub fn matches(&self, event: &ApiTraceEvent) -> (r: bool)
        ensures
            r == self.spec_matches(*event),
    {
        if !self.direction.matches(event_direction(event)) {
            return false;
        }
        match &self.interface_name {
            Some(name) => {
                if !text_eq(event.enrichment.interface.as_str(), name.as_str()) {
                    return false;
                }
            },
            None => {},
        }
        self.needle.as_str().is_empty() || event_matches_needle(event, self.needle.as_str())
    }
}

/// A page of records and where it lies among the matching records.
#[derive(Debug, Clone, PartialEq, Eq)]
pub struct SelectedPage {
    pub events: Vec<ApiTraceEvent>,
    pub start_index: Option<u64>,
    pub end_index: Option<u64>,
    pub matched_count: u64,
}

/// Which records pass the filter.
pub open spec fn web_filter_flags(events: Seq<ApiTraceEvent>, filter: WebEventFilter) -> Seq<bool> {
    Seq::new(events.len(), |i: int| filter.spec_matches(events[i]))
}

/// The sequences of the records.
pub open spec fn web_event_seqs(events: Seq<ApiTraceEvent>) -> Seq<u64> {
    Seq::new(events.len(), |i: int| events[i].raw.seq)
}

/// What a WebUI query returns: as for the MCP tools, the newest `limit`
/// matching records on the requested side (the oldest `limit` after a
/// sequence), oldest first, with the count of all matching records and the
/// page's ordinals among them.
pub open spec fn spec_select_page(
    events: Seq<ApiTraceEvent>,
    filter: WebEventFilter,
    request: PageRequest,
    limit: nat,
    r: SelectedPage,
) -> bool {
    let flags = web_filter_flags(events, filter);
    let cands = candidates(flags, web_event_seqs(events), request);
    let (s, e) = page_window(cands.len(), request, limit);
    &&& r.matched_count == matched_positions(flags).len()
    &&& r.events@.len() == e - s
    &&& forall|j: int| 0 <= j < e - s ==> r.events@[j] == #[trigger] events[cands[s + j].1]
    &&& (if s < e {
        r.start_index == Some(cands[s].0 as u64) && r.end_index == Some(cands[e - 1].0 as u64)
    } else {
        r.start_index is None && r.end_index is None
    })
}

/// Chooses the page a WebUI query returns.
pub fn select_events(events: &[ApiTraceEvent], filter: &WebEventFilter, request: PageRequest, limit: usize) -> (r: SelectedPage)
    ensures
        spec_select_page(events@, *filter, request, limit as nat, r),
{
    let mut flags: Vec<bool> = Vec::new();
    let mut seqs: Vec<u64> = Vec::new();
    let mut i: usize = 0;
    while i < events.len()
        invariant
            i <= events@.len(),
            flags@.len() == i,
            seqs@.len() == i,
            forall|j: int| 0 <= j < i ==> flags@[j] == filter.spec_matches(#[trigger] events@[j]),
            forall|j: int| 0 <= j < i ==> seqs@[j] == (#[trigger] events@[j]).raw.seq,
        decreases events@.len() - i,
    {
        flags.push(filter.matches(&events[i]));
        seqs.push(events[i].raw.seq);
        i = i + 1;
    }
    assert(flags@ =~= web_filter_flags(events@, *filter));
    assert(seqs@ =~= web_event_seqs(events@));
    let chosen: SelectedIndices = select_indices(flags.as_slice(), seqs.as_slice(), request, limit);
    proof {
        crate::query::lemma_candidates_bound(flags@, seqs@, request);
        let cands = candidates(flags@, seqs@, request);
        let (s, e) = page_window(cands.len(), request, limit as nat);
        assert(0 <= s <= e <= cands.len());
        assert forall|j: int| 0 <= j < chosen.positions@.len() implies #[trigger] chosen.positions@[j]
            < events@.len() by {
            assert(chosen.positions@[j] == cands[s + j].1);
        }
    }
    let mut page: Vec<ApiTraceEvent> = Vec::new();
    let mut k: usize = 0;
    while k < chosen.positions.len()
        invariant
            spec_selected(flags@, seqs@, request, limit as nat, chosen),
            flags@ == web_filter_flags(events@, *filter),
            seqs@ == web_event_seqs(events@),
            k <= chosen.positions@.len(),
            page@.len() == k,
            forall|j: int| 0 <= j < chosen.positions@.len() ==> #[trigger] chosen.positions@[j] < events@.len(),
            forall|j: int| 0 <= j < k ==> page@[j] == #[trigger] events@[chosen.positions@[j] as int],
        decreases chosen.positions@.len() - k,
    {
        let p = chosen.positions[k];
        page.push(events[p].copy());
        k = k + 1;
    }
    SelectedPage {
        events: page,
        start_index: chosen.start_index,
        end_index: chosen.end_index,
        matched_count: chosen.matched_count,
    }
}

/// Whether older matching records exist before a page, and newer after it.
pub open spec fn spec_page_more(start_index: Option<u64>, end_index: Option<u64>, matched_count: u64) -> (bool, bool) {
    (start_index matches Some(s) && s > 1, end_index matches Some(e) && e < matched_count)
}

/// Whether older matching records exist before a page, and newer after it.
pub fn page_more(start_index: Option<u64>, end_index: Option<u64>, matched_count: u64) -> (r: (bool, bool))
    ensures
        r == spec_page_more(start_index, end_index, matched_count),
{
    let before = match start_index {
        Some(s) => s > 1,
        None => false,
    };
    let after = match end_index {
        Some(e) => e < matched_count,
        None => false,
    };
    (before, after)
}

/// What `/api/events` answers: a page of records, the counts around it, the
/// interfaces to filter by, and where the event source stands.
pub struct EventsResponse {
    pub events: Vec<ApiTraceEvent>,
    pub total_count: u64,
    pub retained_count: usize,
    pub matched_count: u64,
    pub dropped_count: u64,
    pub backend_evicted_count: u64,
    pub oldest_seq: Option<u64>,
    pub newest_seq: Option<u64>,
    pub page_start_index: Option<u64>,
    pub page_end_index: Option<u64>,
    pub has_more_before: bool,
    pub has_more_after: bool,
    pub interfaces: Vec<String>,
    pub source_state: SourceState,
    pub error: Option<String>,
    /// What the page says of the device.
    pub device_context: &'static str,
}

/// Whether a response answers a page: its records, counts, first and last
/// sequences, ordinals, whether more lie on either side, and the interfaces.
pub open spec fn answers_page(
    r: EventsResponse,
    events: Seq<ApiTraceEvent>,
    start_index: Option<u64>,
    end_index: Option<u64>,
    matched_count: u64,
    event_count: u64,
    lost: u64,
    interfaces: Seq<String>,
) -> bool {
    &&& r.events@ == events
    &&& r.total_count == event_count
    &&& r.retained_count == (if event_count <= usize::MAX { event_count as usize } else { usize::MAX })
    &&& r.matched_count == matched_count
    &&& r.dropped_count == lost
    &&& r.oldest_seq == (if events.len() > 0 { Some(events[0].raw.seq) } else { None })
    &&& r.newest_seq == (if events.len() > 0 { Some(events.last().raw.seq) } else { None })
    &&& r.page_start_index == start_index
    &&& r.page_end_index == end_index
    &&& (r.has_more_before, r.has_more_after) == spec_page_more(start_index, end_index, matched_count)
    &&& r.interfaces@ == interfaces
}

/// What the WebUI remembers of the events in its history: the calls replies
/// are matched with, the latencies of answered calls, lost and evicted event
/// counts, and where the event source stands.
pub struct EventState {
    call_summaries: HashMap<u64, CallSummary>,
    reply_latencies: HashMap<u64, u64>,
    android_methods: Option<AndroidPlatformMethods>,
    kernel_lost_count: u64,
    source_state: SourceState,
    error: Option<String>,
}

impl EventState {
    /// Calls by debug id.
    pub closed spec fn spec_calls(&self) -> Map<u64, CallSummary> {
        self.call_summaries@
    }

    /// Reply latencies by the debug id of the call.
    pub closed spec fn spec_latencies(&self) -> Map<u64, u64> {
        self.reply_latencies@
    }

    /// The platform table methods are named from.
    pub closed spec fn spec_methods(&self) -> Option<AndroidPlatformMethods> {
        self.android_methods
    }

    /// Events the kernel lost before stored events.
    pub closed spec fn spec_lost(&self) -> u64 {
        self.kernel_lost_count
    }

    /// Where the source stands and its last error.
    pub closed spec fn spec_source(&self) -> (SourceState, Option<String>) {
        (self.source_state, self.error)
    }

    /// The state of a fresh event source: connecting when enabled, disabled
    /// otherwise, naming methods for the configured SDK.
    pub fn new(config: &WebuiEventsConfig) -> (r: EventState)
        ensures
            r.spec_calls() == Map::<u64, CallSummary>::empty(),
            r.spec_latencies() == Map::<u64, u64>::empty(),
            r.spec_lost() == 0,
            r.spec_source() == (if config.enabled {
                SourceState::Connecting
            } else {
                SourceState::Disabled
            }, None::<String>),
            match config.android_sdk {
                Some(sdk) => r.spec_methods() matches Some(m) && m.sdk == sdk && crate::platform::entries_are(
                    m.entries@,
                    crate::platform::bundled_table(),
                ),
                None => r.spec_methods() is None,
            },
    {
        let android_methods = match config.android_sdk {
            Some(sdk) => Some(AndroidPlatformMethods::new(sdk)),
            None => None,
        };
        EventState {
            call_summaries: HashMap::new(),
            reply_latencies: HashMap::new(),
            android_methods,
            kernel_lost_count: 0,
            source_state: if config.enabled {
                SourceState::Connecting
            } else {
                SourceState::Disabled
            },
            error: None,
        }
    }

    /// Names methods from another table (one the user configured).
    pub fn set_methods(&mut self, methods: Option<AndroidPlatformMethods>)
        ensures
            final(self).spec_methods() == methods,
            final(self).spec_calls() == old(self).spec_calls(),
            final(self).spec_latencies() == old(self).spec_latencies(),
            final(self).spec_lost() == old(self).spec_lost(),
            final(self).spec_source() == old(self).spec_source(),
    {
        self.android_methods = methods;
    }

    /// Whether the collector should start: the source is connecting and the
    /// history is ready.
    pub fn can_collect(&self, history_ready: bool) -> (r: bool)
        ensures
            r == (self.spec_source().0 == SourceState::Connecting && history_ready),
    {
        self.source_state == SourceState::Connecting && history_ready
    }

    /// Marks the source failed with a message.
    pub fn set_error(&mut self, message: String)
        ensures
            final(self).spec_source() == (SourceState::Error, Some(message)),
            final(self).spec_calls() == old(self).spec_calls(),
            final(self).spec_latencies() == old(self).spec_latencies(),
            final(self).spec_lost() == old(self).spec_lost(),
            final(self).spec_methods() == old(self).spec_methods(),
    {
        self.source_state = SourceState::Error;
        self.error = Some(message);
    }

    /// Answers an events query from the page the history gave, or from the
    /// error it failed with: a failure marks the source failed with
    /// `读取 WebUI btcap 历史失败: ` and the error, and answers an empty page.
    pub fn snapshot(&mut self, selected: Result<SelectedPage, String>, event_count: u64, interfaces: Vec<String>) -> (r: EventsResponse)
        ensures
            selected is Ok ==> final(self).spec_source() == old(self).spec_source(),
            selected matches Err(e) ==> final(self).spec_source().0 == SourceState::Error,
            selected matches Err(e) ==> (final(self).spec_source().1 matches Some(m) && m@
                == "读取 WebUI btcap 历史失败: "@ + e@),
            final(self).spec_calls() == old(self).spec_calls(),
            final(self).spec_latencies() == old(self).spec_latencies(),
            final(self).spec_lost() == old(self).spec_lost(),
            selected matches Ok(p) ==> answers_page(
                r,
                p.events@,
                p.start_index,
                p.end_index,
                p.matched_count,
                event_count,
                old(self).spec_lost(),
                interfaces@,
            ),
            selected is Err ==> answers_page(
                r,
                Seq::empty(),
                None,
                None,
                0,
                event_count,
                old(self).spec_lost(),
                interfaces@,
            ),
            (r.source_state, r.error) == final(self).spec_source(),
            r.backend_evicted_count == 0,
            r.device_context@ == "production · binder transaction stream"@,
    {
        let page = match selected {
            Ok(page) => page,
            Err(error) => {
                let mut text: Vec<char> = Vec::new();
                crate::text::append_str(&mut text, "读取 WebUI btcap 历史失败: ");
                crate::text::append_str(&mut text, error.as_str());
                let message = crate::text::string_from_chars(text.as_slice());
                self.source_state = SourceState::Error;
                self.error = Some(message);
                SelectedPage { events: Vec::new(), start_index: None, end_index: None, matched_count: 0 }
            },
        };
        let retained_count: usize = if event_count <= usize::MAX as u64 {
            event_count as usize
        } else {
            usize::MAX
        };
        let oldest_seq = if page.events.len() > 0 {
            Some(page.events[0].raw.seq)
        } else {
            None
        };
        let newest_seq = if page.events.len() > 0 {
            Some(page.events[page.events.len() - 1].raw.seq)
        } else {
            None
        };
        let (has_more_before, has_more_after) = page_more(page.start_index, page.end_index, page.matched_count);
        let error = match &self.error {
            Some(e) => Some(e.clone()),
            None => None,
        };
        EventsResponse {
            events: page.events,
            total_count: event_count,
            retained_count,
            matched_count: page.matched_count,
            dropped_count: self.kernel_lost_count,
            backend_evicted_count: 0,
            oldest_seq,
            newest_seq,
            page_start_index: page.start_index,
            page_end_index: page.end_index,
            has_more_before,
            has_more_after,
            interfaces,
            source_state: self.source_state,
            error,
            device_context: "production · binder transaction stream",
        }
    }

    /// Marks the source connected and clears its error.
    pub fn set_connected(&mut self)
        ensures
            final(self).spec_source() == (SourceState::Connected, None::<String>),
            final(self).spec_calls() == old(self).spec_calls(),
            final(self).spec_latencies() == old(self).spec_latencies(),
            final(self).spec_lost() == old(self).spec_lost(),
            final(self).spec_methods() == old(self).spec_methods(),
    {
        self.source_state = SourceState::Connected;
        self.error = None;
    }

    /// Where the source stands.
    pub fn source_state(&self) -> (r: SourceState)
        ensures
            r == self.spec_source().0,
    {
        self.source_state
    }

    /// The source's last error.
    pub fn error(&self) -> (r: Option<String>)
        ensures
            r == self.spec_source().1,
    {
        match &self.error {
            Some(e) => Some(e.clone()),
            None => None,
        }
    }

    /// Events the kernel lost before stored events.
    pub fn kernel_lost_count(&self) -> (r: u64)
        ensures
            r == self.spec_lost(),
    {
        self.kernel_lost_count
    }

    /// Events the backend evicted: none, the history keeps them all.
    pub fn backend_evicted_count(&self) -> (r: u64)
        ensures
            r == 0,
    {
        0
    }

    fn methods(&self) -> (r: Option<&AndroidPlatformMethods>)
        ensures
            match r {
                Some(m) => self.spec_methods() == Some(*m),
                None => self.spec_methods() is None,
            },
    {
        match &self.android_methods {
            Some(m) => Some(m),
            None => None,
        }
    }

    /// Forgets the calls, latencies and counts (the caller clears the history).
    pub fn clear(&mut self)
        ensures
            final(self).spec_calls() == Map::<u64, CallSummary>::empty(),
            final(self).spec_latencies() == Map::<u64, u64>::empty(),
            final(self).spec_lost() == 0,
            final(self).spec_methods() == old(self).spec_methods(),
            final(self).spec_source() == old(self).spec_source(),
    {
        self.call_summaries.clear();
        self.reply_latencies.clear();
        self.kernel_lost_count = 0;
    }

    /// Records an event appended to the history: its lost events, and either
    /// its call summary (for a call) or its latency (for a reply whose call
    /// is known).
    pub fn record_event(&mut self, event: &BinderEvent)
        ensures
            final(self).spec_lost() == (if old(self).spec_lost() + event.lost_before <= u64::MAX {
                (old(self).spec_lost() + event.lost_before) as u64
            } else {
                u64::MAX
            }),
            final(self).spec_methods() == old(self).spec_methods(),
            final(self).spec_source() == old(self).spec_source(),
            event.spec_is_reply() ==> {
                &&& final(self).spec_calls() == old(self).spec_calls()
                &&& final(self).spec_latencies() == (match spec_reply_latency(
                    old(self).spec_calls().get(event.reply_to_debug_id as u64),
                    *event,
                ) {
                    Some(l) => old(self).spec_latencies().insert(event.reply_to_debug_id as u64, l),
                    None => old(self).spec_latencies(),
                })
            },
            !event.spec_is_reply() ==> {
                &&& final(self).spec_latencies() == old(self).spec_latencies()
                &&& final(self).spec_calls().dom() == old(self).spec_calls().dom().insert(
                    spec_debug_id(*event),
                )
                &&& forall|k: u64|
                    k != spec_debug_id(*event) && #[trigger] old(self).spec_calls().contains_key(k)
                        ==> final(self).spec_calls()[k] == old(self).spec_calls()[k]
                &&& final(self).spec_calls()[spec_debug_id(*event)].interface@ == spec_call_interface(
                    *event,
                )
                &&& final(self).spec_calls()[spec_debug_id(*event)].method@ == spec_call_method(
                    old(self).spec_methods(),
                    spec_call_interface(*event),
                    event.code,
                )
                &&& final(self).spec_calls()[spec_debug_id(*event)].timestamp_ns == event.timestamp_ns
            },
    {
        self.kernel_lost_count = self.kernel_lost_count.saturating_add(event.lost_before as u64);
        self.observe_event(event);
    }

    /// Remembers a call so that its reply can be enriched, or the latency of
    /// a reply whose call is known.
    pub fn observe_event(&mut self, event: &BinderEvent)
        ensures
            final(self).spec_lost() == old(self).spec_lost(),
            final(self).spec_methods() == old(self).spec_methods(),
            final(self).spec_source() == old(self).spec_source(),
            event.spec_is_reply() ==> {
                &&& final(self).spec_calls() == old(self).spec_calls()
                &&& final(self).spec_latencies() == (match spec_reply_latency(
                    old(self).spec_calls().get(event.reply_to_debug_id as u64),
                    *event,
                ) {
                    Some(l) => old(self).spec_latencies().insert(event.reply_to_debug_id as u64, l),
                    None => old(self).spec_latencies(),
                })
            },
            !event.spec_is_reply() ==> {
                &&& final(self).spec_latencies() == old(self).spec_latencies()
                &&& final(self).spec_calls().dom() == old(self).spec_calls().dom().insert(
                    spec_debug_id(*event),
                )
                &&& forall|k: u64|
                    k != spec_debug_id(*event) && #[trigger] old(self).spec_calls().contains_key(k)
                        ==> final(self).spec_calls()[k] == old(self).spec_calls()[k]
                &&& final(self).spec_calls()[spec_debug_id(*event)].interface@ == spec_call_interface(
                    *event,
                )
                &&& final(self).spec_calls()[spec_debug_id(*event)].method@ == spec_call_method(
                    old(self).spec_methods(),
                    spec_call_interface(*event),
                    event.code,
                )
                &&& final(self).spec_calls()[spec_debug_id(*event)].timestamp_ns == event.timestamp_ns
            },
    {
        let id = debug_id(event);
        if event.is_reply() {
            let key = event.reply_to_debug_id as u64;
            let latency = reply_latency(self.call_summaries.get(&key), event);
            if let Some(l) = latency {
                self.reply_latencies.insert(key, l);
            }
            return;
        }
        let (interface, method) = call_target(self.methods(), event);
        self.call_summaries.insert(id, CallSummary { interface, method, timestamp_ns: event.timestamp_ns });
    }

    /// The interface an event is listed under: its call's for a reply, its
    /// own target for a call.
    pub open spec fn spec_listed_interface(&self, event: BinderEvent) -> Seq<char> {
        if event.spec_is_reply() {
            spec_reply_target(self.spec_calls().get(event.reply_to_debug_id as u64), event).0
        } else {
            spec_call_interface(event)
        }
    }

    fn listed_target(&self, event: &BinderEvent) -> (r: (String, String))
        ensures
            r.0@ == self.spec_listed_interface(*event),
            event.spec_is_reply() ==> (r.0@, r.1@) == spec_reply_target(
                self.spec_calls().get(event.reply_to_debug_id as u64),
                *event,
            ),
            !event.spec_is_reply() ==> r.1@ == spec_call_method(
                self.spec_methods(),
                spec_call_interface(*event),
                event.code,
            ),
    {
        if event.is_reply() {
            let key = event.reply_to_debug_id as u64;
            reply_target(self.call_summaries.get(&key), event)
        } else {
            call_target(self.methods(), event)
        }
    }

    /// Whether `r` is the WebUI record of `event` with a process label: a
    /// reply takes its call's interface and method and the latency since it;
    /// a call takes its own target and its reply's latency when answered;
    /// the status follows the latency.
    pub open spec fn spec_is_api_event(&self, event: BinderEvent, process_label: String, r: ApiTraceEvent) -> bool {
        &&& r.raw.seq == event.sequence
        &&& r.raw.data.kind@ == (if event.spec_is_reply() {
            "reply"@
        } else {
            "transaction"@
        })
        &&& r.raw.data.transaction.flags == event.flags
        &&& r.enrichment.interface@ == self.spec_listed_interface(event)
        &&& (event.spec_is_reply() ==> {
            let call = self.spec_calls().get(event.reply_to_debug_id as u64);
            &&& r.enrichment.method@ == spec_reply_target(call, event).1
            &&& r.enrichment.latency_us == spec_reply_latency(call, event)
        })
        &&& (!event.spec_is_reply() ==> {
            &&& r.enrichment.method@ == spec_call_method(self.spec_methods(), spec_call_interface(event), event.code)
            &&& r.enrichment.latency_us == self.spec_latencies().get(spec_debug_id(event))
        })
        &&& r.enrichment.process_label == process_label
        &&& r.enrichment.debug_id == spec_debug_id(event)
        &&& r.enrichment.reply_to_debug_id == (if event.reply_to_debug_id != 0 {
            Some(event.reply_to_debug_id as u64)
        } else {
            None
        })
        &&& r.enrichment.status@ == spec_classify_status(event.lost_before, r.enrichment.latency_us)
    }

    /// The record of a history event.
    pub fn api_event(&self, event: &BinderEvent, process_label: String) -> (r: ApiTraceEvent)
        ensures
            self.spec_is_api_event(*event, process_label, r),
    {
        let id = debug_id(event);
        let reply_to = if event.reply_to_debug_id != 0 {
            Some(event.reply_to_debug_id as u64)
        } else {
            None
        };
        let (interface, method) = self.listed_target(event);
        let latency = if event.is_reply() {
            let key = event.reply_to_debug_id as u64;
            reply_latency(self.call_summaries.get(&key), event)
        } else {
            match self.reply_latencies.get(&id) {
                Some(l) => Some(*l),
                None => None,
            }
        };
        let status = classify_status(event, latency);
        api_trace_event(event, interface, method, process_label, id, reply_to, latency, status)
    }

    /// The records of the history's events, in history order, each with the
    /// process label given for it.
    pub fn api_events(&self, events: &[BinderEvent], labels: &[String]) -> (r: Vec<ApiTraceEvent>)
        requires
            labels@.len() == events@.len(),
        ensures
            r@.len() == events@.len(),
            forall|i: int| 0 <= i < events@.len() ==> self.spec_is_api_event(events@[i], labels@[i], #[trigger] r@[i]),
    {
        let mut out: Vec<ApiTraceEvent> = Vec::new();
        let mut i: usize = 0;
        while i < events.len()
            invariant
                i <= events@.len(),
                labels@.len() == events@.len(),
                out@.len() == i,
                forall|j: int| 0 <= j < i ==> self.spec_is_api_event(events@[j], labels@[j], #[trigger] out@[j]),
            decreases events@.len() - i,
        {
            let record = self.api_event(&events[i], labels[i].clone());
            out.push(record);
            i = i + 1;
        }
        out
    }

    /// The interfaces of the history's events, most frequent first (ties by
    /// name), at most `WEBUI_MAX_INTERFACE_OPTIONS` of them.
    pub fn interface_options(&self, events: &[BinderEvent]) -> (r: Vec<RankedCount>)
        ensures
            is_top_counts(
                r@,
                Seq::new(events@.len(), |i: int| self.spec_listed_interface(events@[i])),
                WEBUI_MAX_INTERFACE_OPTIONS as nat,
            ),
    {
        let mut names: Vec<String> = Vec::new();
        let mut i: usize = 0;
        while i < events.len()
            invariant
                i <= events@.len(),
                names@.len() == i,
                forall|j: int| 0 <= j < i ==> (#[trigger] names@[j])@ == self.spec_listed_interface(events@[j]),
            decreases events@.len() - i,
        {
            let (interface, _) = self.listed_target(&events[i]);
            names.push(interface);
            i = i + 1;
        }
        assert(name_views(names@) =~= Seq::new(events@.len(), |i: int| self.spec_listed_interface(events@[i])));
        top_counts(names.as_slice(), WEBUI_MAX_INTERFACE_OPTIONS)
    }
}

/// A request path without its query and fragment, starting with `/`.
pub open spec fn spec_normalize_path(path: Seq<char>) -> Seq<char> {
    let q = crate::kernel_config::first_index_of(path, '?');
    let without_query = match q {
        Some(i) => path.take(i),
        None => path,
    };
    let h = crate::kernel_config::first_index_of(without_query, '#');
    let without_fragment = match h {
        Some(i) => without_query.take(i),
        None => without_query,
    };
    if without_fragment.len() > 0 && without_fragment[0] == '/' {
        without_fragment
    } else {
        seq!['/'] + without_fragment
    }
}

fn first_index(s: &Vec<char>, c: char) -> (r: Option<usize>)
    ensures
        match r {
            Some(i) => i < s@.len() && crate::kernel_config::first_index_of(s@, c) == Some(i as int),
            None => crate::kernel_config::first_index_of(s@, c) is None,
        },
{
    crate::kernel_config::find_char(s.as_slice(), c)
}

/// A request path without its query and fragment, starting with `/`.
pub fn normalize_path(path: &str) -> (r: Vec<char>)
    ensures
        r@ == spec_normalize_path(path@),
{
    let chars = chars_of(path);
    let mut without_query: Vec<char> = Vec::new();
    let q = first_index(&chars, '?');
    let qlen = match q {
        Some(i) => i,
        None => chars.len(),
    };
    let mut k: usize = 0;
    while k < qlen
        invariant
            qlen <= chars@.len(),
            k <= qlen,
            without_query@ == chars@.take(k as int),
        decreases qlen - k,
    {
        without_query.push(chars[k]);
        k = k + 1;
        assert(without_query@ =~= chars@.take(k as int));
    }
    assert(chars@.take(chars@.len() as int) =~= chars@);
    let h = first_index(&without_query, '#');
    let hlen = match h {
        Some(i) => i,
        None => without_query.len(),
    };
    let mut out: Vec<char> = Vec::new();
    let starts_with_slash = hlen > 0 && without_query[0] == '/';
    if !starts_with_slash {
        out.push('/');
    }
    let ghost prefix = out@;
    let mut m: usize = 0;
    while m < hlen
        invariant
            hlen <= without_query@.len(),
            m <= hlen,
            out@ == prefix + without_query@.take(m as int),
        decreases hlen - m,
    {
        out.push(without_query[m]);
        m = m + 1;
        assert(out@ =~= prefix + without_query@.take(m as int));
    }
    assert(without_query@.take(without_query@.len() as int) =~= without_query@);
    assert(prefix + without_query@.take(hlen as int) =~= (if starts_with_slash {
        without_query@.take(hlen as int)
    } else {
        seq!['/'] + without_query@.take(hlen as int)
    }));
    out
}

/// The asset a path names: `/` stands for `/index.html`.
pub open spec fn spec_asset_for_path(paths: Seq<String>, path: Seq<char>) -> Option<int> {
    let wanted = if path == "/"@ {
        "/index.html"@
    } else {
        path
    };
    first_path(paths, wanted, 0)
}

/// The first position from `k` on whose path is `wanted`.
pub open spec fn first_path(paths: Seq<String>, wanted: Seq<char>, k: int) -> Option<int>
    decreases paths.len() - k,
{
    if k < 0 || k >= paths.len() {
        None
    } else if paths[k]@ == wanted {
        Some(k)
    } else {
        first_path(paths, wanted, k + 1)
    }
}

/// The position of the asset a path names.
pub fn asset_for_path(paths: &[String], path: &[char]) -> (r: Option<usize>)
    ensures
        match spec_asset_for_path(paths@, path@) {
            Some(i) => r == Some(i as usize),
            None => r is None,
        },
{
    let requested = crate::text::string_from_chars(path);
    let wanted = if text_eq(requested.as_str(), "/") {
        "/index.html".to_owned()
    } else {
        requested
    };
    let mut i: usize = 0;
    while i < paths.len()
        invariant
            i <= paths@.len(),
            wanted@ == (if path@ == "/"@ {
                "/index.html"@
            } else {
                path@
            }),
            first_path(paths@, wanted@, 0) == first_path(paths@, wanted@, i as int),
        decreases paths@.len() - i,
    {
        if text_eq(paths[i].as_str(), wanted.as_str()) {
            return Some(i);
        }
        i = i + 1;
    }
    None
}

/// The asset a request is answered with: the asset its normalised path
/// names, or, for a path without a dot (a client-side route), the index page.
pub open spec fn spec_resolve_request(paths: Seq<String>, path: Seq<char>) -> Option<int> {
    match spec_asset_for_path(paths, spec_normalize_path(path)) {
        Some(i) => Some(i),
        None => if !path.contains('.') {
            spec_asset_for_path(paths, "/index.html"@)
        } else {
            None
        },
    }
}

/// The asset a request is answered with.
pub fn resolve_request(paths: &[String], path: &str) -> (r: Option<usize>)
    ensures
        match spec_resolve_request(paths@, path@) {
            Some(i) => r == Some(i as usize),
            None => r is None,
        },
{
    let normalized = normalize_path(path);
    match asset_for_path(paths, normalized.as_slice()) {
        Some(i) => Some(i),
        None => {
            let chars = chars_of(path);
            let dot = crate::kernel_config::find_char(chars.as_slice(), '.');
            proof {
                if dot is None {
                    assert(!path@.contains('.')) by {
                        if path@.contains('.') {
                            let k = choose|k: int| 0 <= k < path@.len() && path@[k] == '.';
                            lemma_first_index_found(path@, '.', k);
                        }
                    }
                } else {
                    let k = crate::kernel_config::first_index_of(path@, '.')->Some_0;
                    lemma_first_index_is(path@, '.');
                    assert(path@[k] == '.');
                }
            }
            if dot.is_none() {
                let index: Vec<char> = chars_of("/index.html");
                asset_for_path(paths, index.as_slice())
            } else {
                None
            }
        },
    }
}

proof fn lemma_first_index_found(s: Seq<char>, c: char, k: int)
    requires
        0 <= k < s.len(),
        s[k] == c,
    ensures
        crate::kernel_config::first_index_of(s, c) is Some,
    decreases s.len(),
{
    if s[0] != c {
        lemma_first_index_found(s.drop_first(), c, k - 1);
    }
}

proof fn lemma_first_index_is(s: Seq<char>, c: char)
    requires
        crate::kernel_config::first_index_of(s, c) is Some,
    ensures
        ({
            let k = crate::kernel_config::first_index_of(s, c)->Some_0;
            0 <= k < s.len() && s[k] == c
        }),
    decreases s.len(),
{
    if s[0] != c {
        lemma_first_index_is(s.drop_first(), c);
    }
}

/// How long a browser may keep an asset: the index page is always
/// revalidated, hashed assets are immutable for a year.
pub open spec fn spec_cache_control(path: Seq<char>) -> Seq<char> {
    if path == "/index.html"@ {
        "no-cache"@
    } else {
        "public, max-age=31536000, immutable"@
    }
}

/// How long a browser may keep an asset.
pub fn cache_control(path: &str) -> (r: &'static str)
    ensures
        r@ == spec_cache_control(path@),
{
    if text_eq(path, "/index.html") {
        "no-cache"
    } else {
        "public, max-age=31536000, immutable"
    }
}

/// Why the WebUI server cannot start.
#[derive(Debug, Clone, Copy, PartialEq, Eq, Structural)]
pub enum WebuiError {
    /// The embedded assets hold no `index.html`.
    MissingIndex,
}

/// Checks that the embedded assets hold the index page.
pub fn ensure_index_asset(paths: &[String]) -> (r: Result<(), WebuiError>)
    ensures
        r is Ok <==> spec_asset_for_path(paths@, "/index.html"@) is Some,
        r is Err ==> r == Err::<(), WebuiError>(WebuiError::MissingIndex),
{
    let index: Vec<char> = chars_of("/index.html");
    if asset_for_path(paths, index.as_slice()).is_some() {
        Ok(())
    } else {
        Err(WebuiError::MissingIndex)
    }
}

/// How many assets the embedded table holds.
pub fn embedded_asset_count(paths: &[String]) -> (r: usize)
    ensures
        r == paths@.len(),
{
    paths.len()
}

/// Whether the driver can feed the WebUI: it must stream events; a failed
/// feature request is reported with its error.
pub fn event_stream_check(reply: &Result<crate::socket_ipc::DriverFeature, crate::socket_ipc::SocketIpcError>) -> (r: Result<(), String>)
    ensures
        match reply {
            Ok(f) => if f.feature_flags & crate::socket_ipc::BT_FEATURE_EVENT_STREAM != 0 {
                r is Ok
            } else {
                r matches Err(m) && m@ == "当前内核模块不支持 socket 事件流"@
            },
            Err(e) => r matches Err(m) && m@ == "读取内核模块特性失败: "@ + crate::socket_ipc::socket_error_text(*e),
        },
{
    match reply {
        Ok(f) => {
            if f.has_event_stream() {
                Ok(())
            } else {
                let mut out: Vec<char> = Vec::new();
                crate::text::append_str(&mut out, "当前内核模块不支持 socket 事件流");
                Err(crate::text::string_from_chars(out.as_slice()))
            }
        },
        Err(e) => {
            let mut out: Vec<char> = Vec::new();
            crate::text::append_str(&mut out, "读取内核模块特性失败: ");
            let text = e.message();
            crate::text::append_str(&mut out, text.as_str());
            Err(crate::text::string_from_chars(out.as_slice()))
        },
    }
}

/// What a failed history write does to the WebUI source: the message it is
/// reported with, and whether capture is switched off (when the history is
/// full).
pub fn history_write_failure(error: &crate::history::HistoryError) -> (r: (String, bool))
    ensures
        r.0@ == "写入 WebUI btcap 历史失败: "@ + crate::history::history_error_text(*error),
        r.1 == (*error is CapacityLimit),
{
    let mut out: Vec<char> = Vec::new();
    crate::text::append_str(&mut out, "写入 WebUI btcap 历史失败: ");
    let text = error.message();
    crate::text::append_str(&mut out, text.as_str());
    let disable = match error {
        crate::history::HistoryError::CapacityLimit { .. } => true,
        _ => false,
    };
    (crate::text::string_from_chars(out.as_slice()), disable)
}

/// The last position of `c` in `s` at or after `from`, if any.
pub open spec fn last_index_of(s: Seq<char>, c: char) -> Option<int>
    decreases s.len(),
{
    if s.len() == 0 {
        None
    } else if s.last() == c {
        Some(s.len() - 1)
    } else {
        last_index_of(s.drop_last(), c)
    }
}

/// The file name of a path: what follows its last `/`.
pub open spec fn file_name(path: Seq<char>) -> Seq<char> {
    match last_index_of(path, '/') {
        Some(i) => path.skip(i + 1),
        None => path,
    }
}

/// A file name's extension: what follows its last `.`, unless that dot
/// starts the name.
pub open spec fn extension(path: Seq<char>) -> Option<Seq<char>> {
    let name = file_name(path);
    match last_index_of(name, '.') {
        Some(i) => if i > 0 {
            Some(name.skip(i + 1))
        } else {
            None
        },
        None => None,
    }
}

/// The media type an asset is served with, by its extension.
pub open spec fn spec_content_type(path: Seq<char>) -> Seq<char> {
    match extension(path) {
        Some(e) => if e == "html"@ {
            "text/html; charset=utf-8"@
        } else if e == "js"@ {
            "text/javascript; charset=utf-8"@
        } else if e == "css"@ {
            "text/css; charset=utf-8"@
        } else if e == "json"@ {
            "application/json; charset=utf-8"@
        } else if e == "svg"@ {
            "image/svg+xml"@
        } else if e == "png"@ {
            "image/png"@
        } else if e == "jpg"@ || e == "jpeg"@ {
            "image/jpeg"@
        } else if e == "webp"@ {
            "image/webp"@
        } else if e == "ico"@ {
            "image/x-icon"@
        } else if e == "wasm"@ {
            "application/wasm"@
        } else if e == "woff"@ {
            "font/woff"@
        } else if e == "woff2"@ {
            "font/woff2"@
        } else {
            "application/octet-stream"@
        },
        None => "application/octet-stream"@,
    }
}

fn last_index(s: &[char], c: char) -> (r: Option<usize>)
    ensures
        match last_index_of(s@, c) {
            Some(i) => r matches Some(k) && k as int == i,
            None => r is None,
        },
        r matches Some(i) ==> i < s@.len(),
{
    let mut i: usize = s.len();
    assert(s@.take(i as int) =~= s@);
    while i > 0
        invariant
            i <= s@.len(),
            last_index_of(s@, c) == last_index_of(s@.take(i as int), c),
        decreases i,
    {
        assert(s@.take(i as int).drop_last() =~= s@.take(i - 1));
        if s[i - 1] == c {
            return Some(i - 1);
        }
        i = i - 1;
    }
    None
}

/// The media type an asset path is served with.
pub fn content_type(path: &str) -> (r: &'static str)
    ensures
        r@ == spec_content_type(path@),
{
    let chars = chars_of(path);
    let n = chars.len();
    let mut name: Vec<char> = Vec::new();
    let start = match last_index(chars.as_slice(), '/') {
        Some(i) => {
            assert(i < n);
            i + 1
        },
        None => 0,
    };
    let mut k = start;
    while k < chars.len()
        invariant
            start <= k <= chars@.len(),
            chars@ == path@,
            start == (match last_index_of(path@, '/') {
                Some(i) => i + 1,
                None => 0,
            }),
            name@ == chars@.subrange(start as int, k as int),
        decreases chars@.len() - k,
    {
        name.push(chars[k]);
        k = k + 1;
        assert(name@ =~= chars@.subrange(start as int, k as int));
    }
    assert(name@ =~= file_name(path@));
    let ext_start = match last_index(name.as_slice(), '.') {
        Some(i) => {
            if i > 0 {
                i + 1
            } else {
                assert(extension(path@) is None);
                return "application/octet-stream";
            }
        },
        None => {
            assert(extension(path@) is None);
            return "application/octet-stream";
        },
    };
    let mut ext: Vec<char> = Vec::new();
    let mut j = ext_start;
    while j < name.len()
        invariant
            ext_start <= j <= name@.len(),
            name@ == file_name(path@),
            1 <= ext_start,
            last_index_of(name@, '.') == Some(ext_start - 1),
            ext@ == name@.subrange(ext_start as int, j as int),
        decreases name@.len() - j,
    {
        ext.push(name[j]);
        j = j + 1;
        assert(ext@ =~= name@.subrange(ext_start as int, j as int));
    }
    assert(ext@ =~= name@.skip(ext_start as int));
    let e = crate::text::string_from_chars(ext.as_slice());
    let e = e.as_str();
    if text_eq(e, "html") {
        "text/html; charset=utf-8"
    } else if text_eq(e, "js") {
        "text/javascript; charset=utf-8"
    } else if text_eq(e, "css") {
        "text/css; charset=utf-8"
    } else if text_eq(e, "json") {
        "application/json; charset=utf-8"
    } else if text_eq(e, "svg") {
        "image/svg+xml"
    } else if text_eq(e, "png") {
        "image/png"
    } else if text_eq(e, "jpg") || text_eq(e, "jpeg") {
        "image/jpeg"
    } else if text_eq(e, "webp") {
        "image/webp"
    } else if text_eq(e, "ico") {
        "image/x-icon"
    } else if text_eq(e, "wasm") {
        "application/wasm"
    } else if text_eq(e, "woff") {
        "font/woff"
    } else if text_eq(e, "woff2") {
        "font/woff2"
    } else {
        "application/octet-stream"
    }
}

} // verus!
