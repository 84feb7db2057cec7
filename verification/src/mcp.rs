use std::collections::HashMap;

use vstd::prelude::*;

use crate::platform::AndroidPlatformMethods;
use crate::query::{
    CallSummary, DirectionFilter, EventDirection, PageRequest, SelectedIndices, call_target,
    candidates, debug_id, number_contains, page_window, reply_latency, reply_target, select_indices,
    spec_call_interface, spec_call_method, spec_debug_id, spec_number_contains, spec_reply_latency,
    spec_reply_target, spec_selected, spec_text_contains, text_contains,
};
use crate::ranking::{RankedCount, is_top_counts, name_views, top_counts};
use crate::socket_ipc::{BinderEvent, CaptureConfig};
use crate::storage::{hex_bytes, payload_hex};
use crate::text::{lowercase_text, lowercased, trim_text, trimmed};

verus! {

broadcast use vstd::std_specs::hash::group_hash_axioms;

/// Events a query returns when it names no limit.
pub const MCP_DEFAULT_QUERY_LIMIT: usize = 64;

/// The most events one query returns.
pub const MCP_MAX_QUERY_LIMIT: usize = 512;

/// Interfaces a ranking returns when it names no limit.
pub const MCP_DEFAULT_TOP_LIMIT: usize = 20;

/// The most interfaces one ranking returns.
pub const MCP_MAX_TOP_LIMIT: usize = 128;

/// A call slower than this many microseconds is marked slow.
pub const MCP_SLOW_TRANSACTION_US: u64 = 16_000;

/// How an event went.
#[derive(Debug, Clone, Copy, PartialEq, Eq, Structural)]
pub enum EventStatus {
    Normal,
    Slow,
    Error,
}

impl EventStatus {
    /// The label of a status.
    pub open spec fn spec_label(self) -> Seq<char> {
        match self {
            EventStatus::Normal => "ok"@,
            EventStatus::Slow => "slow"@,
            EventStatus::Error => "error"@,
        }
    }

    /// The label of a status.
    pub fn label(self) -> (r: &'static str)
        ensures
            r@ == self.spec_label(),
    {
        match self {
            EventStatus::Normal => "ok",
            EventStatus::Slow => "slow",
            EventStatus::Error => "error",
        }
    }
}

/// An error when events were lost just before; slow when the latency
/// reaches the threshold; ok otherwise.
pub open spec fn spec_status_for(lost_before: u32, latency_us: Option<u64>) -> EventStatus {
    if lost_before > 0 {
        EventStatus::Error
    } else if latency_us matches Some(l) && l >= MCP_SLOW_TRANSACTION_US {
        EventStatus::Slow
    } else {
        EventStatus::Normal
    }
}

/// The status of an event.
pub fn status_for(lost_before: u32, latency_us: Option<u64>) -> (r: EventStatus)
    ensures
        r == spec_status_for(lost_before, latency_us),
{
    if lost_before > 0 {
        return EventStatus::Error;
    }
    match latency_us {
        Some(l) => if l >= MCP_SLOW_TRANSACTION_US {
            EventStatus::Slow
        } else {
            EventStatus::Normal
        },
        None => EventStatus::Normal,
    }
}

/// One event as the MCP tools report it.
#[derive(Debug, Clone, PartialEq, Eq)]
pub struct TraceEvent {
    pub seq: u64,
    pub timestamp_ns: u64,
    pub direction: EventDirection,
    pub pid: u32,
    pub tgid: u32,
    pub uid: u32,
    pub interface: String,
    pub method: String,
    pub code: u32,
    pub flags: u32,
    pub target_handle: u32,
    pub sender_pid: u32,
    pub sender_euid: u32,
    pub data_size: u64,
    pub offsets_size: u64,
    pub payload_truncated: bool,
    pub payload_hex: String,
    pub debug_id: u64,
    pub reply_to_debug_id: Option<u64>,
    pub latency_us: Option<u64>,
    pub status: EventStatus,
    pub lost_before: u32,
}

impl TraceEvent {
    /// A copy of the event.
    pub fn copy(&self) -> (r: TraceEvent)
        ensures
            r == *self,
    {
        TraceEvent {
            seq: self.seq,
            timestamp_ns: self.timestamp_ns,
            direction: self.direction,
            pid: self.pid,
            tgid: self.tgid,
            uid: self.uid,
            interface: self.interface.clone(),
            method: self.method.clone(),
            code: self.code,
            flags: self.flags,
            target_handle: self.target_handle,
            sender_pid: self.sender_pid,
            sender_euid: self.sender_euid,
            data_size: self.data_size,
            offsets_size: self.offsets_size,
            payload_truncated: self.payload_truncated,
            payload_hex: self.payload_hex.clone(),
            debug_id: self.debug_id,
            reply_to_debug_id: self.reply_to_debug_id,
            latency_us: self.latency_us,
            status: self.status,
            lost_before: self.lost_before,
        }
    }
}

/// Whether a free-text query (already lowercased) occurs in one of the
/// fields people search by.
pub open spec fn spec_event_matches_query(event: TraceEvent, query: Seq<char>) -> bool {
    ||| spec_number_contains(event.seq as nat, query)
    ||| spec_number_contains(event.debug_id as nat, query)
    ||| spec_number_contains(event.pid as nat, query)
    ||| spec_number_contains(event.tgid as nat, query)
    ||| spec_number_contains(event.uid as nat, query)
    ||| spec_text_contains(event.interface@, query)
    ||| spec_text_contains(event.method@, query)
    ||| spec_number_contains(event.code as nat, query)
    ||| spec_number_contains(event.target_handle as nat, query)
    ||| spec_text_contains(event.direction.spec_label(), query)
    ||| spec_text_contains(event.status.spec_label(), query)
}

/// The MCP text search finds an event by its texts and numbers: a query
/// standing in the lowercased interface or method, or in the decimal
/// sequence, pid, tgid, uid, code or target handle, makes it match.
pub proof fn lemma_query_finds_event_fields(event: TraceEvent, query: Seq<char>)
    ensures
        crate::webui::found_in(query, lowercased(event.interface@)) ==> spec_event_matches_query(event, query),
        crate::webui::found_in(query, lowercased(event.method@)) ==> spec_event_matches_query(event, query),
        crate::webui::found_in(query, crate::text::decimal(event.seq as nat)) ==> spec_event_matches_query(event, query),
        crate::webui::found_in(query, crate::text::decimal(event.pid as nat)) ==> spec_event_matches_query(event, query),
        crate::webui::found_in(query, crate::text::decimal(event.tgid as nat)) ==> spec_event_matches_query(event, query),
        crate::webui::found_in(query, crate::text::decimal(event.uid as nat)) ==> spec_event_matches_query(event, query),
        crate::webui::found_in(query, crate::text::decimal(event.code as nat)) ==> spec_event_matches_query(event, query),
        crate::webui::found_in(query, crate::text::decimal(event.target_handle as nat)) ==> spec_event_matches_query(
            event,
            query,
        ),
{
}

/// Whether a free-text query occurs in one of the searchable fields.
pub fn event_matches_query(event: &TraceEvent, query: &str) -> (r: bool)
    ensures
        r == spec_event_matches_query(*event, query@),
{
    number_contains(event.seq, query) || number_contains(event.debug_id, query)
        || number_contains(event.pid as u64, query) || number_contains(event.tgid as u64, query)
        || number_contains(event.uid as u64, query) || text_contains(event.interface.as_str(), query)
        || text_contains(event.method.as_str(), query) || number_contains(event.code as u64, query)
        || number_contains(event.target_handle as u64, query) || text_contains(
        event.direction.label(),
        query,
    ) || text_contains(event.status.label(), query)
}

/// What an events query keeps.
#[derive(Debug, Clone, PartialEq, Eq)]
pub struct EventFilter {
    pub direction: DirectionFilter,
    /// Only this exact interface, when set.
    pub interface: Option<String>,
    /// Only events at or after this time, when set.
    pub since_ns: Option<u64>,
    /// Only events at or before this time, when set.
    pub until_ns: Option<u64>,
    /// A lowercased free-text query; empty keeps everything.
    pub query: String,
}

/// An interface filter as given: trimmed, and none when it is empty or `all`.
pub open spec fn spec_scalar_filter(value: Seq<char>) -> Option<Seq<char>> {
    let t = trimmed(value);
    if t.len() == 0 || t == "all"@ {
        None
    } else {
        Some(t)
    }
}

/// An interface filter as given: trimmed, and none when it is empty or `all`.
pub fn normalized_scalar_filter(value: &str) -> (r: Option<String>)
    ensures
        match spec_scalar_filter(value@) {
            Some(t) => r matches Some(s) && s@ == t,
            None => r is None,
        },
{
    let t = trim_text(value);
    if t.is_empty() || crate::platform::text_eq(t, "all") {
        None
    } else {
        Some(t.to_owned())
    }
}

impl EventFilter {
    /// Whether an event passes the filter.
    pub open spec fn spec_matches(self, event: TraceEvent) -> bool {
        &&& self.direction.spec_matches(event.direction)
        &&& (self.interface matches Some(i) ==> i@ == event.interface@)
        &&& (self.since_ns matches Some(since) ==> event.timestamp_ns >= since)
        &&& (self.until_ns matches Some(until) ==> event.timestamp_ns <= until)
        &&& (self.query@.len() == 0 || spec_event_matches_query(event, self.query@))
    }

    /// Whether an event passes the filter.
    pub fn matches(&self, event: &TraceEvent) -> (r: bool)
        ensures
            r == self.spec_matches(*event),
    {
        if !self.direction.matches(event.direction) {
            return false;
        }
        match &self.interface {
            Some(interface) => {
                if !crate::platform::text_eq(interface.as_str(), event.interface.as_str()) {
                    return false;
                }
            },
            None => {},
        }
        if let Some(since) = self.since_ns {
            if event.timestamp_ns < since {
                return false;
            }
        }
        if let Some(until) = self.until_ns {
            if event.timestamp_ns > until {
                return false;
            }
        }
        self.query.as_str().is_empty() || event_matches_query(event, self.query.as_str())
    }

    /// The filter of a query's parameters: no direction keeps all; the
    /// interface is trimmed and dropped when empty or `all`; the free text
    /// is trimmed and lowercased.
    pub fn from_params(
        direction: Option<DirectionFilter>,
        interface: Option<&str>,
        since_ns: Option<u64>,
        until_ns: Option<u64>,
        query: Option<&str>,
    ) -> (r: EventFilter)
        ensures
            r.direction == (match direction {
                Some(d) => d,
                None => DirectionFilter::All,
            }),
            match interface {
                Some(i) => match spec_scalar_filter(i@) {
                    Some(t) => r.interface matches Some(s) && s@ == t,
                    None => r.interface is None,
                },
                None => r.interface is None,
            },
            r.since_ns == since_ns,
            r.until_ns == until_ns,
            r.query@ == lowercased(trimmed(
                match query {
                    Some(q) => q@,
                    None => ""@,
                },
            )),
    {
        let direction = match direction {
            Some(d) => d,
            None => DirectionFilter::All,
        };
        let interface = match interface {
            Some(i) => normalized_scalar_filter(i),
            None => None,
        };
        let text = match query {
            Some(q) => q,
            None => "",
        };
        let query = lowercase_text(trim_text(text));
        EventFilter { direction, interface, since_ns, until_ns, query }
    }
}

/// A page of events and where it lies among the matching events.
#[derive(Debug, Clone, PartialEq, Eq)]
pub struct SelectedEvents {
    pub events: Vec<TraceEvent>,
    pub matched_count: u64,
    pub start_index: Option<u64>,
    pub end_index: Option<u64>,
}

/// Which events pass the filter.
pub open spec fn filter_flags(events: Seq<TraceEvent>, filter: EventFilter) -> Seq<bool> {
    Seq::new(events.len(), |i: int| filter.spec_matches(events[i]))
}

/// The sequences of the events.
pub open spec fn event_seqs(events: Seq<TraceEvent>) -> Seq<u64> {
    Seq::new(events.len(), |i: int| events[i].seq)
}

/// What an events query returns: the events that pass the filter and lie
/// on the requested side of a sequence, the newest `limit` of them (the
/// oldest `limit` after a sequence), oldest first, with the count of all
/// events that pass and the ordinals of the page's first and last event
/// among them.
pub open spec fn spec_select_events(
    events: Seq<TraceEvent>,
    filter: EventFilter,
    request: PageRequest,
    limit: nat,
    r: SelectedEvents,
) -> bool {
    let flags = filter_flags(events, filter);
    let seqs = event_seqs(events);
    let cands = candidates(flags, seqs, request);
    let (s, e) = page_window(cands.len(), request, limit);
    &&& r.matched_count == crate::query::matched_positions(flags).len()
    &&& r.events@.len() == e - s
    &&& forall|j: int| 0 <= j < e - s ==> r.events@[j] == #[trigger] events[cands[s + j].1]
    &&& (if s < e {
        r.start_index == Some(cands[s].0 as u64) && r.end_index == Some(cands[e - 1].0 as u64)
    } else {
        r.start_index is None && r.end_index is None
    })
}

/// Chooses the page an events query returns.
pub fn select_events(events: &[TraceEvent], filter: &EventFilter, request: PageRequest, limit: usize) -> (r: SelectedEvents)
    ensures
        spec_select_events(events@, *filter, request, limit as nat, r),
{
    let mut flags: Vec<bool> = Vec::new();
    let mut seqs: Vec<u64> = Vec::new();
    let mut i: usize = 0;
    while i < events.len()
        invariant
            i <= events@.len(),
            flags@.len() == i,
            seqs@.len() == i,
            forall|j: int| 0 <= j < i ==> flags@[j] == filter.spec_matches(#[trigger] events@[j]),
            forall|j: int| 0 <= j < i ==> seqs@[j] == (#[trigger] events@[j]).seq,
        decreases events@.len() - i,
    {
        flags.push(filter.matches(&events[i]));
        seqs.push(events[i].seq);
        i = i + 1;
    }
    assert(flags@ =~= filter_flags(events@, *filter));
    assert(seqs@ =~= event_seqs(events@));
    let chosen: SelectedIndices = select_indices(flags.as_slice(), seqs.as_slice(), request, limit);
    proof {
        crate::query::lemma_candidates_bound(flags@, seqs@, request);
        let cands = candidates(flags@, seqs@, request);
        let (s, e) = page_window(cands.len(), request, limit as nat);
        assert(0 <= s <= e <= cands.len());
        assert forall|j: int| 0 <= j < chosen.positions@.len() implies #[trigger] chosen.positions@[j]
            < events@.len() by {
            assert(chosen.positions@[j] == cands[s + j].1);
        }
    }
    let mut page: Vec<TraceEvent> = Vec::new();
    let mut k: usize = 0;
    while k < chosen.positions.len()
        invariant
            spec_selected(flags@, seqs@, request, limit as nat, chosen),
            flags@ == filter_flags(events@, *filter),
            seqs@ == event_seqs(events@),
            flags@.len() == events@.len(),
            k <= chosen.positions@.len(),
            page@.len() == k,
            forall|j: int| 0 <= j < chosen.positions@.len() ==> #[trigger] chosen.positions@[j] < events@.len(),
            forall|j: int| 0 <= j < k ==> page@[j] == #[trigger] events@[chosen.positions@[j] as int],
        decreases chosen.positions@.len() - k,
    {
        let p = chosen.positions[k];
        page.push(events[p].copy());
        k = k + 1;
    }
    SelectedEvents {
        events: page,
        matched_count: chosen.matched_count,
        start_index: chosen.start_index,
        end_index: chosen.end_index,
    }
}

/// The first position from which every event's sequence passes `bound`
/// (below it for `strict`, at or below it otherwise), in events sorted by sequence.
pub open spec fn spec_partition_point(events: Seq<TraceEvent>, bound: u64, strict: bool) -> int
    decreases events.len(),
{
    if events.len() == 0 {
        0
    } else if (strict && events[0].seq < bound) || (!strict && events[0].seq <= bound) {
        1 + spec_partition_point(events.drop_first(), bound, strict)
    } else {
        0
    }
}

fn partition_point(events: &[TraceEvent], bound: u64, strict: bool) -> (r: usize)
    ensures
        r == spec_partition_point(events@, bound, strict),
        r <= events@.len(),
{
    let mut i: usize = 0;
    assert(events@.skip(0) =~= events@);
    while i < events.len()
        invariant
            i <= events@.len(),
            spec_partition_point(events@, bound, strict) == i + spec_partition_point(
                events@.skip(i as int),
                bound,
                strict,
            ),
        decreases events@.len() - i,
    {
        assert(events@.skip(i as int)[0] == events@[i as int]);
        assert(events@.skip(i as int).drop_first() =~= events@.skip(i + 1));
        let seq = events[i].seq;
        let passes = if strict {
            seq < bound
        } else {
            seq <= bound
        };
        if !passes {
            return i;
        }
        i = i + 1;
    }
    i
}

/// The page bounds over already matched events sorted by sequence: the last
/// `limit` of all (newest) or of those below a sequence (before), or the
/// first `limit` of those above a sequence (after).
pub open spec fn spec_page_bounds(matched: Seq<TraceEvent>, request: PageRequest, limit: nat) -> (int, int) {
    match request {
        PageRequest::Latest => {
            let end = matched.len() as int;
            (if end >= limit {
                end - limit
            } else {
                0
            }, end)
        },
        PageRequest::Before(seq) => {
            let end = spec_partition_point(matched, seq, true);
            (if end >= limit {
                end - limit
            } else {
                0
            }, end)
        },
        PageRequest::After(seq) => {
            let start = spec_partition_point(matched, seq, false);
            (start, if start + limit <= matched.len() {
                start + limit
            } else {
                matched.len() as int
            })
        },
    }
}

/// A page cut from already matched events sorted by sequence.
pub fn select_page(matched: &[TraceEvent], request: PageRequest, limit: usize) -> (r: SelectedEvents)
    ensures
        ({
            let (s, e) = spec_page_bounds(matched@, request, limit as nat);
            &&& r.matched_count == matched@.len()
            &&& r.events@ == matched@.subrange(s, e)
            &&& (if s < e {
                r.start_index == Some((s + 1) as u64) && r.end_index == Some(e as u64)
            } else {
                r.start_index is None && r.end_index is None
            })
        }),
{
    let (start, end) = match request {
        PageRequest::Latest => {
            let end = matched.len();
            (if end >= limit {
                end - limit
            } else {
                0
            }, end)
        },
        PageRequest::Before(seq) => {
            let end = partition_point(matched, seq, true);
            (if end >= limit {
                end - limit
            } else {
                0
            }, end)
        },
        PageRequest::After(seq) => {
            let start = partition_point(matched, seq, false);
            (start, if limit <= matched.len() - start {
                start + limit
            } else {
                matched.len()
            })
        },
    };
    let mut events: Vec<TraceEvent> = Vec::new();
    let mut k: usize = start;
    while k < end
        invariant
            start <= k <= end,
            end <= matched@.len(),
            events@ == matched@.subrange(start as int, k as int),
        decreases end - k,
    {
        events.push(matched[k].copy());
        k = k + 1;
        assert(events@ =~= matched@.subrange(start as int, k as int));
    }
    let matched_count = matched.len() as u64;
    if start >= end {
        return SelectedEvents { events, matched_count, start_index: None, end_index: None };
    }
    SelectedEvents {
        events,
        matched_count,
        start_index: Some(start as u64 + 1),
        end_index: Some(end as u64),
    }
}

/// The interface names of events.
pub open spec fn interface_names(events: Seq<TraceEvent>) -> Seq<Seq<char>> {
    events.map(|i: int, e: TraceEvent| e.interface@)
}

/// The `limit` interfaces with the most events, most first, ties by name.
pub fn top_interfaces(events: &[TraceEvent], limit: usize) -> (r: Vec<RankedCount>)
    ensures
        is_top_counts(r@, interface_names(events@), limit as nat),
{
    let mut names: Vec<String> = Vec::new();
    let mut i: usize = 0;
    while i < events.len()
        invariant
            i <= events@.len(),
            names@.len() == i,
            forall|j: int| 0 <= j < i ==> (#[trigger] names@[j])@ == events@[j].interface@,
        decreases events@.len() - i,
    {
        names.push(events[i].interface.clone());
        i = i + 1;
    }
    assert(name_views(names@) =~= interface_names(events@));
    top_counts(names.as_slice(), limit)
}

/// The capture filters a client may set when it enables capture.
#[derive(Debug, Clone, Copy, PartialEq, Eq, Structural)]
pub struct EnableCaptureParams {
    /// Only this thread group; 0 keeps all.
    pub tgid: Option<i32>,
    /// Only this thread; 0 keeps all.
    pub pid: Option<i32>,
    /// Only this uid.
    pub uid: Option<u32>,
    /// Only events with at least this many data bytes; 0 keeps all.
    pub min_size: Option<u64>,
    /// Only events with at most this many data bytes; 0 keeps all.
    pub max_size: Option<u64>,
}

impl EnableCaptureParams {
    /// The enabled configuration: the default with each given filter set,
    /// and the uid filter switched on when a uid is given.
    pub fn capture_config(&self, default_config: CaptureConfig) -> (r: CaptureConfig)
        ensures
            r.enabled == 1,
            r.point_mask == default_config.point_mask,
            r.tgid == (match self.tgid {
                Some(v) => v,
                None => default_config.tgid,
            }),
            r.pid == (match self.pid {
                Some(v) => v,
                None => default_config.pid,
            }),
            r.uid == (match self.uid {
                Some(v) => v,
                None => default_config.uid,
            }),
            r.uid_enabled == (match self.uid {
                Some(_) => 1,
                None => default_config.uid_enabled,
            }),
            r.ioctl_cmd == default_config.ioctl_cmd,
            r.ioctl_cmd_enabled == default_config.ioctl_cmd_enabled,
            r.min_size == (match self.min_size {
                Some(v) => v,
                None => default_config.min_size,
            }),
            r.max_size == (match self.max_size {
                Some(v) => v,
                None => default_config.max_size,
            }),
    {
        let mut config = default_config;
        config.enabled = 1;
        if let Some(tgid) = self.tgid {
            config.tgid = tgid;
        }
        if let Some(pid) = self.pid {
            config.pid = pid;
        }
        if let Some(uid) = self.uid {
            config.uid = uid;
            config.uid_enabled = 1;
        }
        if let Some(min_size) = self.min_size {
            config.min_size = min_size;
        }
        if let Some(max_size) = self.max_size {
            config.max_size = max_size;
        }
        config
    }
}

/// What the MCP server remembers of the events it stored: where each
/// sequence lies in the history, the calls replies are matched with, the
/// latencies of answered calls, lost events and the sequence range.
pub struct EventStore {
    seq_to_index: HashMap<u64, u64>,
    call_summaries: HashMap<u64, CallSummary>,
    reply_latencies: HashMap<u64, u64>,
    android_methods: Option<AndroidPlatformMethods>,
    lost_count: u64,
    oldest_seq: Option<u64>,
    newest_seq: Option<u64>,
}

impl EventStore {
    /// History index by sequence.
    pub closed spec fn spec_index_map(&self) -> Map<u64, u64> {
        self.seq_to_index@
    }

    /// Calls by debug id.
    pub closed spec fn spec_calls(&self) -> Map<u64, CallSummary> {
        self.call_summaries@
    }

    /// Reply latencies by the debug id of the call.
    pub closed spec fn spec_latencies(&self) -> Map<u64, u64> {
        self.reply_latencies@
    }

    /// The platform table methods are named from.
    pub closed spec fn spec_methods(&self) -> Option<AndroidPlatformMethods> {
        self.android_methods
    }

    /// Events lost before stored events.
    pub closed spec fn spec_lost_count(&self) -> u64 {
        self.lost_count
    }

    /// The first stored sequence.
    pub closed spec fn spec_oldest_seq(&self) -> Option<u64> {
        self.oldest_seq
    }

    /// The last stored sequence.
    pub closed spec fn spec_newest_seq(&self) -> Option<u64> {
        self.newest_seq
    }

    /// An empty store naming methods from `android_methods`.
    pub fn new(android_methods: Option<AndroidPlatformMethods>) -> (r: EventStore)
        ensures
            r.spec_index_map() == Map::<u64, u64>::empty(),
            r.spec_calls() == Map::<u64, CallSummary>::empty(),
            r.spec_latencies() == Map::<u64, u64>::empty(),
            r.spec_methods() == android_methods,
            r.spec_lost_count() == 0,
            r.spec_oldest_seq() is None,
            r.spec_newest_seq() is None,
    {
        EventStore {
            seq_to_index: HashMap::new(),
            call_summaries: HashMap::new(),
            reply_latencies: HashMap::new(),
            android_methods,
            lost_count: 0,
            oldest_seq: None,
            newest_seq: None,
        }
    }

    fn methods(&self) -> (r: Option<&AndroidPlatformMethods>)
        ensures
            match r {
                Some(m) => self.spec_methods() == Some(*m),
                None => self.spec_methods() is None,
            },
    {
        match &self.android_methods {
            Some(m) => Some(m),
            None => None,
        }
    }

    /// Records an event stored at `index` of the history: its index, the
    /// events lost before it, the sequence range, and either its call summary
    /// (for a call) or its latency (for a reply whose call is known).
    pub fn push(&mut self, event: &BinderEvent, index: u64)
        ensures
            final(self).spec_index_map() == old(self).spec_index_map().insert(event.sequence, index),
            final(self).spec_lost_count() == (if old(self).spec_lost_count() + event.lost_before
                <= u64::MAX {
                (old(self).spec_lost_count() + event.lost_before) as u64
            } else {
                u64::MAX
            }),
            final(self).spec_oldest_seq() == (match old(self).spec_oldest_seq() {
                Some(s) => Some(s),
                None => Some(event.sequence),
            }),
            final(self).spec_newest_seq() == Some(event.sequence),
            final(self).spec_methods() == old(self).spec_methods(),
            EventDirection::spec_from_event(*event) == EventDirection::Reply ==> {
                &&& final(self).spec_calls() == old(self).spec_calls()
                &&& final(self).spec_latencies() == (match spec_reply_latency(
                    old(self).spec_calls().get(event.reply_to_debug_id as u64),
                    *event,
                ) {
                    Some(l) => old(self).spec_latencies().insert(event.reply_to_debug_id as u64, l),
                    None => old(self).spec_latencies(),
                })
            },
            EventDirection::spec_from_event(*event) != EventDirection::Reply ==> {
                &&& final(self).spec_latencies() == old(self).spec_latencies()
                &&& final(self).spec_calls().dom() == old(self).spec_calls().dom().insert(
                    spec_debug_id(*event),
                )
                &&& forall|k: u64|
                    k != spec_debug_id(*event) && #[trigger] old(self).spec_calls().contains_key(k)
                        ==> final(self).spec_calls()[k] == old(self).spec_calls()[k]
                &&& final(self).spec_calls()[spec_debug_id(*event)].interface@ == spec_call_interface(
                    *event,
                )
                &&& final(self).spec_calls()[spec_debug_id(*event)].method@ == spec_call_method(
                    old(self).spec_methods(),
                    spec_call_interface(*event),
                    event.code,
                )
                &&& final(self).spec_calls()[spec_debug_id(*event)].timestamp_ns == event.timestamp_ns
            },
    {
        let id = debug_id(event);
        self.seq_to_index.insert(event.sequence, index);
        self.lost_count = self.lost_count.saturating_add(event.lost_before as u64);
        if self.oldest_seq.is_none() {
            self.oldest_seq = Some(event.sequence);
        }
        self.newest_seq = Some(event.sequence);
        match EventDirection::from_event(event) {
            EventDirection::Reply => {
                let key = event.reply_to_debug_id as u64;
                let latency = reply_latency(self.call_summaries.get(&key), event);
                if let Some(l) = latency {
                    self.reply_latencies.insert(key, l);
                }
            },
            _ => {
                let (interface, method) = call_target(self.methods(), event);
                self.call_summaries.insert(
                    id,
                    CallSummary { interface, method, timestamp_ns: event.timestamp_ns },
                );
            },
        }
    }

    /// Forgets every stored event.
    pub fn clear(&mut self)
        ensures
            final(self).spec_index_map() == Map::<u64, u64>::empty(),
            final(self).spec_calls() == Map::<u64, CallSummary>::empty(),
            final(self).spec_latencies() == Map::<u64, u64>::empty(),
            final(self).spec_methods() == old(self).spec_methods(),
            final(self).spec_lost_count() == 0,
            final(self).spec_oldest_seq() is None,
            final(self).spec_newest_seq() is None,
    {
        self.seq_to_index.clear();
        self.call_summaries.clear();
        self.reply_latencies.clear();
        self.lost_count = 0;
        self.oldest_seq = None;
        self.newest_seq = None;
    }

    /// The history index of a stored sequence.
    pub fn index_of(&self, seq: u64) -> (r: Option<u64>)
        ensures
            match r {
                Some(i) => self.spec_index_map().contains_key(seq) && self.spec_index_map()[seq] == i,
                None => !self.spec_index_map().contains_key(seq),
            },
    {
        match self.seq_to_index.get(&seq) {
            Some(i) => Some(*i),
            None => None,
        }
    }

    /// Events lost before stored events.
    pub fn lost_count(&self) -> (r: u64)
        ensures
            r == self.spec_lost_count(),
    {
        self.lost_count
    }

    /// The stored sequence range.
    pub fn seq_range(&self) -> (r: (Option<u64>, Option<u64>))
        ensures
            r == (self.spec_oldest_seq(), self.spec_newest_seq()),
    {
        (self.oldest_seq, self.newest_seq)
    }

    /// Whether `r` is how the MCP tools report `event`: its fields copied,
    /// a reply naming its call's interface and method with the latency since
    /// that call, a call naming its own target with the latency of its reply
    /// when it was answered, and the status following the latency.
    pub open spec fn spec_is_trace_event(&self, event: BinderEvent, r: TraceEvent) -> bool {
        &&& r.seq == event.sequence
        &&& r.timestamp_ns == event.timestamp_ns
        &&& r.direction == EventDirection::spec_from_event(event)
        &&& r.pid == event.pid
        &&& r.tgid == event.tgid
        &&& r.uid == event.uid
        &&& r.code == event.code
        &&& r.flags == event.flags
        &&& r.target_handle == event.target_handle
        &&& r.sender_pid == event.sender_pid
        &&& r.sender_euid == event.sender_euid
        &&& r.data_size == event.data_size
        &&& r.offsets_size == event.offsets_size
        &&& r.payload_truncated == (event.payload_truncated != 0)
        &&& r.payload_hex@ == hex_bytes(event.spec_payload())
        &&& r.debug_id == spec_debug_id(event)
        &&& r.reply_to_debug_id == (if event.reply_to_debug_id != 0 {
            Some(event.reply_to_debug_id as u64)
        } else {
            None
        })
        &&& r.lost_before == event.lost_before
        &&& r.status == spec_status_for(event.lost_before, r.latency_us)
        &&& (EventDirection::spec_from_event(event) == EventDirection::Reply ==> {
            let call = self.spec_calls().get(event.reply_to_debug_id as u64);
            &&& (r.interface@, r.method@) == spec_reply_target(call, event)
            &&& r.latency_us == spec_reply_latency(call, event)
        })
        &&& (EventDirection::spec_from_event(event) != EventDirection::Reply ==> {
            &&& r.interface@ == spec_call_interface(event)
            &&& r.method@ == spec_call_method(self.spec_methods(), spec_call_interface(event), event.code)
            &&& r.latency_us == self.spec_latencies().get(spec_debug_id(event))
        })
    }

    /// An event as the MCP tools report it.
    pub fn trace_event(&self, event: &BinderEvent) -> (r: TraceEvent)
        ensures
            self.spec_is_trace_event(*event, r),
    {
        let id = debug_id(event);
        let reply_to = if event.reply_to_debug_id != 0 {
            Some(event.reply_to_debug_id as u64)
        } else {
            None
        };
        let direction = EventDirection::from_event(event);
        let (interface, method, latency) = match direction {
            EventDirection::Reply => {
                let key = event.reply_to_debug_id as u64;
                let call = self.call_summaries.get(&key);
                let (interface, method) = reply_target(call, event);
                (interface, method, reply_latency(call, event))
            },
            _ => {
                let (interface, method) = call_target(self.methods(), event);
                let latency = match self.reply_latencies.get(&id) {
                    Some(l) => Some(*l),
                    None => None,
                };
                (interface, method, latency)
            },
        };
        let payload = event.payload_bytes();
        TraceEvent {
            seq: event.sequence,
            timestamp_ns: event.timestamp_ns,
            direction,
            pid: event.pid,
            tgid: event.tgid,
            uid: event.uid,
            interface,
            method,
            code: event.code,
            flags: event.flags,
            target_handle: event.target_handle,
            sender_pid: event.sender_pid,
            sender_euid: event.sender_euid,
            data_size: event.data_size,
            offsets_size: event.offsets_size,
            payload_truncated: event.payload_truncated != 0,
            payload_hex: payload_hex(payload.as_slice()),
            debug_id: id,
            reply_to_debug_id: reply_to,
            latency_us: latency,
            status: status_for(event.lost_before, latency),
            lost_before: event.lost_before,
        }
    }

    /// The reports of the history's events, in history order.
    pub fn trace_events(&self, history: &[BinderEvent]) -> (r: Vec<TraceEvent>)
        ensures
            r@.len() == history@.len(),
            forall|i: int| 0 <= i < history@.len() ==> self.spec_is_trace_event(history@[i], #[trigger] r@[i]),
    {
        let mut out: Vec<TraceEvent> = Vec::new();
        let mut i: usize = 0;
        while i < history.len()
            invariant
                i <= history@.len(),
                out@.len() == i,
                forall|j: int| 0 <= j < i ==> self.spec_is_trace_event(history@[j], #[trigger] out@[j]),
            decreases history@.len() - i,
        {
            let report = self.trace_event(&history[i]);
            out.push(report);
            i = i + 1;
        }
        out
    }
}

/// The last position in the history holding an event with sequence `seq`.
pub open spec fn last_with_seq(history: Seq<BinderEvent>, seq: u64) -> Option<int>
    decreases history.len(),
{
    if history.len() == 0 {
        None
    } else if history.last().sequence == seq {
        Some(history.len() - 1)
    } else {
        last_with_seq(history.drop_last(), seq)
    }
}

impl EventStore {
    /// Where the event with sequence `seq` lies in the history: at the
    /// index stored for it, else at the last history event carrying it. A
    /// stored index past the history's end counts as unknown.
    pub open spec fn spec_locate(&self, history: Seq<BinderEvent>, seq: u64) -> Option<int> {
        if self.spec_index_map().contains_key(seq) && self.spec_index_map()[seq] < history.len() {
            Some(self.spec_index_map()[seq] as int)
        } else {
            last_with_seq(history, seq)
        }
    }

    /// The history position of the event with sequence `seq`.
    pub fn locate(&self, history: &[BinderEvent], seq: u64) -> (r: Option<usize>)
        ensures
            match r {
                Some(i) => self.spec_locate(history@, seq) == Some(i as int),
                None => self.spec_locate(history@, seq) is None,
            },
    {
        if let Some(index) = self.index_of(seq) {
            if index < history.len() as u64 {
                return Some(index as usize);
            }
        }
        let mut i: usize = history.len();
        assert(history@.take(i as int) =~= history@);
        while i > 0
            invariant
                i <= history@.len(),
                !(self.spec_index_map().contains_key(seq) && self.spec_index_map()[seq] < history@.len()),
                last_with_seq(history@, seq) == last_with_seq(history@.take(i as int), seq),
            decreases i,
        {
            assert(history@.take(i as int).drop_last() =~= history@.take(i - 1));
            if history[i - 1].sequence == seq {
                return Some(i - 1);
            }
            i = i - 1;
        }
        None
    }

    /// The event with sequence `seq`, as the tools report it, or nothing
    /// when the history holds none.
    pub fn find_event(&self, history: &[BinderEvent], seq: u64) -> (r: Option<TraceEvent>)
        ensures
            r is Some <==> self.spec_locate(history@, seq) is Some,
            r matches Some(t) ==> self.spec_is_trace_event(history@[self.spec_locate(history@, seq)->0], t),
    {
        proof {
            lemma_last_with_seq_in_range(history@, seq);
        }
        match self.locate(history, seq) {
            Some(i) => Some(self.trace_event(&history[i])),
            None => None,
        }
    }
}

/// The last match lies in the history and carries the sequence.
pub proof fn lemma_last_with_seq_in_range(history: Seq<BinderEvent>, seq: u64)
    ensures
        last_with_seq(history, seq) matches Some(i) ==> 0 <= i < history.len() && history[i].sequence == seq,
    decreases history.len(),
{
    if history.len() > 0 && history.last().sequence != seq {
        lemma_last_with_seq_in_range(history.drop_last(), seq);
    }
}

/// Why the MCP server failed to start or stopped.
#[derive(Debug, Clone, PartialEq, Eq)]
pub enum McpServerError {
    /// The control socket failed.
    SocketIpc(crate::socket_ipc::SocketIpcError),
    /// The kernel module has no event stream.
    EventStreamUnsupported,
    /// The capture history failed.
    History(crate::history::HistoryError),
    /// The runtime or transport failed, with the system's message.
    Io(String),
    /// The MCP handshake failed.
    Initialize(String),
    /// The server task ended abnormally.
    Join(String),
}

/// The text an MCP server error is reported with.
pub open spec fn mcp_error_text(e: McpServerError) -> Seq<char> {
    match e {
        McpServerError::SocketIpc(s) => crate::socket_ipc::socket_error_text(s),
        McpServerError::EventStreamUnsupported => "当前内核模块不支持 socket 事件流，请重新加载新版 bt-kmod"@,
        McpServerError::History(h) => crate::history::history_error_text(h),
        McpServerError::Io(m) => m@,
        McpServerError::Initialize(m) => "MCP 初始化失败: "@ + m@,
        McpServerError::Join(m) => "MCP 服务退出失败: "@ + m@,
    }
}

impl McpServerError {
    /// The text the error is reported with.
    pub fn message(&self) -> (r: String)
        ensures
            r@ == mcp_error_text(*self),
    {
        match self {
            McpServerError::SocketIpc(s) => s.message(),
            McpServerError::EventStreamUnsupported => {
                let mut out: Vec<char> = Vec::new();
                crate::text::append_str(&mut out, "当前内核模块不支持 socket 事件流，请重新加载新版 bt-kmod");
                crate::text::string_from_chars(out.as_slice())
            },
            McpServerError::History(h) => h.message(),
            McpServerError::Io(m) => m.clone(),
            McpServerError::Initialize(m) => {
                let mut out: Vec<char> = Vec::new();
                crate::text::append_str(&mut out, "MCP 初始化失败: ");
                crate::text::append_str(&mut out, m.as_str());
                crate::text::string_from_chars(out.as_slice())
            },
            McpServerError::Join(m) => {
                let mut out: Vec<char> = Vec::new();
                crate::text::append_str(&mut out, "MCP 服务退出失败: ");
                crate::text::append_str(&mut out, m.as_str());
                crate::text::string_from_chars(out.as_slice())
            },
        }
    }
}

/// Starting the server needs a driver that streams events.
pub fn require_event_stream(feature: &crate::socket_ipc::DriverFeature) -> (r: Result<(), McpServerError>)
    ensures
        r is Ok <==> feature.feature_flags & crate::socket_ipc::BT_FEATURE_EVENT_STREAM != 0,
        r matches Err(e) ==> e == McpServerError::EventStreamUnsupported,
{
    if feature.has_event_stream() {
        Ok(())
    } else {
        Err(McpServerError::EventStreamUnsupported)
    }
}

/// What a failed history write does to the live source: the message it is
/// reported with, and whether capture is switched off first (when the
/// history is full).
pub fn history_write_failure(error: &crate::history::HistoryError) -> (r: (String, bool))
    ensures
        r.0@ == "写入 MCP btcap 历史失败: "@ + crate::history::history_error_text(*error),
        r.1 == (*error is CapacityLimit),
{
    let mut out: Vec<char> = Vec::new();
    crate::text::append_str(&mut out, "写入 MCP btcap 历史失败: ");
    let text = error.message();
    crate::text::append_str(&mut out, text.as_str());
    let disable = match error {
        crate::history::HistoryError::CapacityLimit { .. } => true,
        _ => false,
    };
    (crate::text::string_from_chars(out.as_slice()), disable)
}

/// Whether the capture control tools may run: only when the server was
/// started with control allowed; otherwise the refusal's message.
pub fn control_permission(allow_control: bool) -> (r: Result<(), String>)
    ensures
        r is Ok <==> allow_control,
        r matches Err(m) ==> m@ == "binder-trace control tools are disabled; restart mcp with --allow-control"@,
{
    if allow_control {
        Ok(())
    } else {
        let mut out: Vec<char> = Vec::new();
        crate::text::append_str(&mut out, "binder-trace control tools are disabled; restart mcp with --allow-control");
        Err(crate::text::string_from_chars(out.as_slice()))
    }
}

/// The message when switching capture off after a failed write failed too.
pub fn capture_disable_failure(message: &str, detail: &str) -> (r: String)
    ensures
        r@ == message@ + "; 自动关闭捕获失败: "@ + detail@,
{
    let mut out: Vec<char> = Vec::new();
    crate::text::append_str(&mut out, message);
    crate::text::append_str(&mut out, "; 自动关闭捕获失败: ");
    crate::text::append_str(&mut out, detail);
    crate::text::string_from_chars(out.as_slice())
}

} // verus!
