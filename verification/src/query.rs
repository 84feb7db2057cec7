use vstd::prelude::*;

use crate::platform::{AndroidPlatformMethods, parse_interface_token, spec_parse_interface_token};
use crate::socket_ipc::BinderEvent;
use crate::text::{
    append_chars, append_str, chars_of, decimal, decimal_chars, lowercase_text, lowercased,
    string_from_chars,
};

verus! {

/// The Binder flag of a one-way call.
pub const TF_ONE_WAY: u32 = 0x01;

/// Which page of matching events a query asks for.
#[derive(Debug, Clone, Copy, PartialEq, Eq, Structural)]
pub enum PageRequest {
    /// The newest events.
    Latest,
    /// Events whose sequence is below this one.
    Before(u64),
    /// Events whose sequence is above this one.
    After(u64),
}

impl PageRequest {
    /// Whether an event sequence belongs to the requested side.
    pub open spec fn spec_matches(self, seq: u64) -> bool {
        match self {
            PageRequest::Latest => true,
            PageRequest::Before(before) => seq < before,
            PageRequest::After(after) => seq > after,
        }
    }

    /// Whether an event sequence belongs to the requested side.
    pub fn matches(self, seq: u64) -> (r: bool)
        ensures
            r == self.spec_matches(seq),
    {
        match self {
            PageRequest::Latest => true,
            PageRequest::Before(before) => seq < before,
            PageRequest::After(after) => seq > after,
        }
    }

    /// The request a query's `before_seq` and `after_seq` make: `before`
    /// wins over `after`; neither asks for the newest events.
    pub fn from_bounds(before_seq: Option<u64>, after_seq: Option<u64>) -> (r: PageRequest)
        ensures
            r == (match before_seq {
                Some(seq) => PageRequest::Before(seq),
                None => match after_seq {
                    Some(seq) => PageRequest::After(seq),
                    None => PageRequest::Latest,
                },
            }),
    {
        if let Some(seq) = before_seq {
            return PageRequest::Before(seq);
        }
        if let Some(seq) = after_seq {
            return PageRequest::After(seq);
        }
        PageRequest::Latest
    }
}

/// The direction of a Binder event.
#[derive(Debug, Clone, Copy, PartialEq, Eq, Structural)]
pub enum EventDirection {
    Call,
    Reply,
    Oneway,
}

impl EventDirection {
    /// A reply; otherwise a one-way call when the one-way flag is set; else a call.
    pub open spec fn spec_from_event(event: BinderEvent) -> EventDirection {
        if event.spec_is_reply() {
            EventDirection::Reply
        } else if event.flags & TF_ONE_WAY == TF_ONE_WAY {
            EventDirection::Oneway
        } else {
            EventDirection::Call
        }
    }

    /// The direction of an event.
    pub fn from_event(event: &BinderEvent) -> (r: EventDirection)
        ensures
            r == Self::spec_from_event(*event),
    {
        if event.is_reply() {
            return EventDirection::Reply;
        }
        if event.flags & TF_ONE_WAY == TF_ONE_WAY {
            return EventDirection::Oneway;
        }
        EventDirection::Call
    }

    /// The label of a direction.
    pub open spec fn spec_label(self) -> Seq<char> {
        match self {
            EventDirection::Call => "call"@,
            EventDirection::Reply => "reply"@,
            EventDirection::Oneway => "oneway"@,
        }
    }

    /// The label of a direction.
    pub fn label(self) -> (r: &'static str)
        ensures
            r@ == self.spec_label(),
    {
        match self {
            EventDirection::Call => "call",
            EventDirection::Reply => "reply",
            EventDirection::Oneway => "oneway",
        }
    }
}

/// Which directions a query keeps.
#[derive(Debug, Clone, Copy, PartialEq, Eq, Structural)]
pub enum DirectionFilter {
    All,
    Call,
    Reply,
    Oneway,
}

impl DirectionFilter {
    /// Whether a direction passes the filter.
    pub open spec fn spec_matches(self, direction: EventDirection) -> bool {
        match self {
            DirectionFilter::All => true,
            DirectionFilter::Call => direction == EventDirection::Call,
            DirectionFilter::Reply => direction == EventDirection::Reply,
            DirectionFilter::Oneway => direction == EventDirection::Oneway,
        }
    }

    /// Whether a direction passes the filter.
    pub fn matches(self, direction: EventDirection) -> (r: bool)
        ensures
            r == self.spec_matches(direction),
    {
        match self {
            DirectionFilter::All => true,
            DirectionFilter::Call => direction == EventDirection::Call,
            DirectionFilter::Reply => direction == EventDirection::Reply,
            DirectionFilter::Oneway => direction == EventDirection::Oneway,
        }
    }
}

/// The identifier a call is correlated by: the transaction debug id, or the
/// event sequence when the kernel gave none.
pub open spec fn spec_debug_id(event: BinderEvent) -> u64 {
    if event.transaction_debug_id == 0 {
        event.sequence
    } else {
        event.transaction_debug_id as u64
    }
}

/// The identifier a call is correlated by.
pub fn debug_id(event: &BinderEvent) -> (r: u64)
    ensures
        r == spec_debug_id(*event),
{
    if event.transaction_debug_id == 0 {
        event.sequence
    } else {
        event.transaction_debug_id as u64
    }
}

/// The reply latency in microseconds: the time since the call, rounded
/// down, and zero when the reply is stamped earlier.
pub open spec fn spec_latency_us(reply_ns: u64, call_ns: u64) -> u64 {
    if reply_ns >= call_ns {
        ((reply_ns - call_ns) / 1000) as u64
    } else {
        0
    }
}

/// The reply latency in microseconds.
pub fn latency_us(reply_ns: u64, call_ns: u64) -> (r: u64)
    ensures
        r == spec_latency_us(reply_ns, call_ns),
{
    reply_ns.saturating_sub(call_ns) / 1000
}

/// `prefix` followed by the decimal form of `n`.
pub open spec fn labelled_number(prefix: Seq<char>, n: nat) -> Seq<char> {
    prefix + decimal(n)
}

/// `prefix` followed by the decimal form of `n`.
pub fn labelled_number_string(prefix: &str, n: u64) -> (r: String)
    ensures
        r@ == labelled_number(prefix@, n as nat),
{
    let mut text: Vec<char> = Vec::new();
    append_str(&mut text, prefix);
    let digits = decimal_chars(n);
    append_chars(&mut text, digits.as_slice());
    string_from_chars(text.as_slice())
}

/// The interface a call names: the Parcel's interface token, or
/// `handle#<target handle>` when the payload holds none.
pub open spec fn spec_call_interface(event: BinderEvent) -> Seq<char> {
    match spec_parse_interface_token(event.spec_payload()) {
        Some(token) => token,
        None => labelled_number("handle#"@, event.target_handle as nat),
    }
}

/// The method a call names: the platform table's name for the interface and
/// code, or `code_<code>`.
pub open spec fn spec_call_method(methods: Option<AndroidPlatformMethods>, interface: Seq<char>, code: u32) -> Seq<char> {
    match methods {
        Some(m) => match m.spec_lookup(interface, code) {
            Some(i) => m.entries@[i].method@,
            None => labelled_number("code_"@, code as nat),
        },
        None => labelled_number("code_"@, code as nat),
    }
}

/// The interface and method a call is shown with.
pub fn call_target(methods: Option<&AndroidPlatformMethods>, event: &BinderEvent) -> (r: (String, String))
    ensures
        r.0@ == spec_call_interface(*event),
        r.1@ == spec_call_method(
            match methods {
                Some(m) => Some(*m),
                None => None,
            },
            spec_call_interface(*event),
            event.code,
        ),
{
    let payload = event.payload_bytes();
    let interface = match parse_interface_token(payload.as_slice()) {
        Some(token) => token,
        None => labelled_number_string("handle#", event.target_handle as u64),
    };
    let method = match methods {
        Some(m) => match m.lookup(interface.as_str(), event.code) {
            Some(found) => found.method,
            None => labelled_number_string("code_", event.code as u64),
        },
        None => labelled_number_string("code_", event.code as u64),
    };
    (interface, method)
}

/// What is remembered of a call to enrich its reply.
#[derive(Debug, Clone, PartialEq, Eq)]
pub struct CallSummary {
    pub interface: String,
    pub method: String,
    pub timestamp_ns: u64,
}

impl CallSummary {
    /// A copy of the summary.
    pub fn copy(&self) -> (r: CallSummary)
        ensures
            r == *self,
    {
        CallSummary {
            interface: self.interface.clone(),
            method: self.method.clone(),
            timestamp_ns: self.timestamp_ns,
        }
    }
}

/// The interface and method a reply is shown with: those of its call when
/// it is known, otherwise `reply_to#<id>` and `code_<code>`.
pub open spec fn spec_reply_target(summary: Option<CallSummary>, event: BinderEvent) -> (Seq<char>, Seq<char>) {
    match summary {
        Some(s) => (s.interface@, s.method@),
        None => (
            labelled_number("reply_to#"@, event.reply_to_debug_id as nat),
            labelled_number("code_"@, event.code as nat),
        ),
    }
}

/// The interface and method a reply is shown with.
pub fn reply_target(summary: Option<&CallSummary>, event: &BinderEvent) -> (r: (String, String))
    ensures
        (r.0@, r.1@) == spec_reply_target(
            match summary {
                Some(s) => Some(*s),
                None => None,
            },
            *event,
        ),
{
    match summary {
        Some(s) => (s.interface.clone(), s.method.clone()),
        None => (
            labelled_number_string("reply_to#", event.reply_to_debug_id as u64),
            labelled_number_string("code_", event.code as u64),
        ),
    }
}

/// The latency of a reply whose call is known.
pub open spec fn spec_reply_latency(summary: Option<CallSummary>, event: BinderEvent) -> Option<u64> {
    match summary {
        Some(s) => Some(spec_latency_us(event.timestamp_ns, s.timestamp_ns)),
        None => None,
    }
}

/// The latency of a reply whose call is known.
pub fn reply_latency(summary: Option<&CallSummary>, event: &BinderEvent) -> (r: Option<u64>)
    ensures
        r == spec_reply_latency(
            match summary {
                Some(s) => Some(*s),
                None => None,
            },
            *event,
        ),
{
    match summary {
        Some(s) => Some(latency_us(event.timestamp_ns, s.timestamp_ns)),
        None => None,
    }
}

/// Whether `needle` occurs in `hay` as a contiguous part.
pub open spec fn occurs_in(needle: Seq<char>, hay: Seq<char>) -> bool {
    exists|i: int| 0 <= i && i + needle.len() <= hay.len() && #[trigger] hay.subrange(i, i + needle.len()) == needle
}

/// Whether `needle` occurs at position `i` of `hay`.
fn occurs_at(hay: &[char], needle: &[char], i: usize) -> (r: bool)
    requires
        i + needle@.len() <= hay@.len(),
    ensures
        r == (hay@.subrange(i as int, i + needle@.len()) == needle@),
{
    let n = hay.len();
    let mut k: usize = 0;
    while k < needle.len()
        invariant
            n == hay@.len(),
            i + needle@.len() <= hay@.len(),
            k <= needle@.len(),
            forall|j: int| 0 <= j < k ==> hay@[i + j] == needle@[j],
        decreases needle@.len() - k,
    {
        if hay[i + k] != needle[k] {
            assert(hay@.subrange(i as int, i + needle@.len())[k as int] != needle@[k as int]);
            return false;
        }
        k = k + 1;
    }
    assert(hay@.subrange(i as int, i + needle@.len()) =~= needle@);
    true
}

/// Whether `needle` occurs in `hay`.
pub fn contains_chars(hay: &[char], needle: &[char]) -> (r: bool)
    ensures
        r == occurs_in(needle@, hay@),
{
    if needle.len() > hay.len() {
        return false;
    }
    let last = hay.len() - needle.len();
    let mut i: usize = 0;
    while i <= last
        invariant
            last + needle@.len() == hay@.len(),
            i <= last + 1,
            forall|j: int| 0 <= j < i ==> #[trigger] hay@.subrange(j, j + needle@.len()) != needle@,
        decreases last + 1 - i,
    {
        if occurs_at(hay, needle, i) {
            return true;
        }
        if i == last {
            assert forall|j: int| 0 <= j && j + needle@.len() <= hay@.len() implies #[trigger] hay@.subrange(
                j,
                j + needle@.len(),
            ) != needle@ by {
                assert(j < i || j == i);
            }
            return false;
        }
        i = i + 1;
    }
    false
}

/// Whether a text, lowercased, contains an already lowercased query.
pub open spec fn spec_text_contains(value: Seq<char>, query: Seq<char>) -> bool {
    occurs_in(query, lowercased(value))
}

/// Whether a text, lowercased, contains an already lowercased query.
pub fn text_contains(value: &str, query: &str) -> (r: bool)
    ensures
        r == spec_text_contains(value@, query@),
{
    let lower = lowercase_text(value);
    let hay = chars_of(lower.as_str());
    let needle = chars_of(query);
    contains_chars(hay.as_slice(), needle.as_slice())
}

/// Whether the decimal form of a number contains a query.
pub open spec fn spec_number_contains(value: nat, query: Seq<char>) -> bool {
    occurs_in(query, decimal(value))
}

/// Whether the decimal form of a number contains a query.
pub fn number_contains(value: u64, query: &str) -> (r: bool)
    ensures
        r == spec_number_contains(value as nat, query@),
{
    let hay = decimal_chars(value);
    let needle = chars_of(query);
    contains_chars(hay.as_slice(), needle.as_slice())
}

/// A requested page size, or the default, kept between 1 and `max`.
pub open spec fn spec_clamped_limit(limit: Option<usize>, default: usize, max: usize) -> usize {
    let value = match limit {
        Some(v) => v,
        None => default,
    };
    if value < 1 {
        1
    } else if value > max {
        max
    } else {
        value
    }
}

/// A requested page size, or the default, kept between 1 and `max`.
pub fn clamped_limit(limit: Option<usize>, default: usize, max: usize) -> (r: usize)
    requires
        1 <= max,
    ensures
        r == spec_clamped_limit(limit, default, max),
        1 <= r <= max,
{
    let value = match limit {
        Some(v) => v,
        None => default,
    };
    if value < 1 {
        1
    } else if value > max {
        max
    } else {
        value
    }
}

/// The positions of the events that pass a filter, in order.
pub open spec fn matched_positions(matches: Seq<bool>) -> Seq<int>
    decreases matches.len(),
{
    if matches.len() == 0 {
        Seq::empty()
    } else {
        let before = matched_positions(matches.drop_last());
        if matches.last() {
            before.push(matches.len() - 1)
        } else {
            before
        }
    }
}

/// The matched events that the request's side keeps, as pairs of their
/// ordinal among the matched events (counting from 1) and their position.
pub open spec fn candidates(matches: Seq<bool>, seqs: Seq<u64>, request: PageRequest) -> Seq<(nat, int)>
    decreases matches.len(),
{
    if matches.len() == 0 {
        Seq::empty()
    } else {
        let n = (matches.len() - 1) as int;
        let before = candidates(matches.drop_last(), seqs, request);
        if matches.last() && request.spec_matches(seqs[n]) {
            before.push((matched_positions(matches).len(), n))
        } else {
            before
        }
    }
}

/// The part of the candidates a page shows: the last `limit` for the
/// newest events or those before a sequence, the first `limit` for those
/// after a sequence.
pub open spec fn page_window(count: nat, request: PageRequest, limit: nat) -> (int, int) {
    match request {
        PageRequest::After(_) => (0, if count <= limit {
            count as int
        } else {
            limit as int
        }),
        _ => (if count <= limit {
            0
        } else {
            count - limit
        }, count as int),
    }
}

/// A page of events chosen by position.
#[derive(Debug, Clone, PartialEq, Eq)]
pub struct SelectedIndices {
    /// Positions of the page's events, oldest first.
    pub positions: Vec<usize>,
    /// How many events passed the filter.
    pub matched_count: u64,
    /// The ordinal (from 1) among matched events of the page's first event.
    pub start_index: Option<u64>,
    /// The ordinal among matched events of the page's last event.
    pub end_index: Option<u64>,
}

/// What a page selection yields, over positions.
pub open spec fn spec_selected(
    matches: Seq<bool>,
    seqs: Seq<u64>,
    request: PageRequest,
    limit: nat,
    r: SelectedIndices,
) -> bool {
    let cands = candidates(matches, seqs, request);
    let (s, e) = page_window(cands.len(), request, limit);
    &&& r.matched_count == matched_positions(matches).len()
    &&& r.positions@.len() == e - s
    &&& forall|j: int| 0 <= j < e - s ==> r.positions@[j] == #[trigger] cands[s + j].1
    &&& (if s < e {
        r.start_index == Some(cands[s].0 as u64) && r.end_index == Some(cands[e - 1].0 as u64)
    } else {
        r.start_index is None && r.end_index is None
    })
}

pub proof fn lemma_matched_positions_bound(matches: Seq<bool>)
    ensures
        matched_positions(matches).len() <= matches.len(),
        forall|j: int|
            0 <= j < matched_positions(matches).len() ==> 0 <= #[trigger] matched_positions(matches)[j]
                < matches.len(),
    decreases matches.len(),
{
    if matches.len() > 0 {
        lemma_matched_positions_bound(matches.drop_last());
    }
}

pub proof fn lemma_candidates_bound(matches: Seq<bool>, seqs: Seq<u64>, request: PageRequest)
    ensures
        candidates(matches, seqs, request).len() <= matches.len(),
        forall|j: int|
            0 <= j < candidates(matches, seqs, request).len() ==> 0 <= (
            #[trigger] candidates(matches, seqs, request)[j]).1 < matches.len()
                && 1 <= candidates(matches, seqs, request)[j].0 <= matches.len(),
    decreases matches.len(),
{
    if matches.len() > 0 {
        lemma_candidates_bound(matches.drop_last(), seqs, request);
        lemma_matched_positions_bound(matches);
        if matches.last() {
            lemma_matched_positions_bound(matches.drop_last());
        }
    }
}

/// Chooses the page of events that pass a filter (given per event) and lie
/// on the requested side of a sequence, `limit` of them at most.
pub fn select_indices(matches: &[bool], seqs: &[u64], request: PageRequest, limit: usize) -> (r: SelectedIndices)
    requires
        matches@.len() == seqs@.len(),
    ensures
        spec_selected(matches@, seqs@, request, limit as nat, r),
{
    let mut cand_ordinals: Vec<u64> = Vec::new();
    let mut cand_positions: Vec<usize> = Vec::new();
    let mut matched: u64 = 0;
    let mut i: usize = 0;
    while i < matches.len()
        invariant
            matches@.len() == seqs@.len(),
            i <= matches@.len(),
            matched == matched_positions(matches@.take(i as int)).len(),
            matched <= i,
            cand_ordinals@.len() == cand_positions@.len(),
            cand_ordinals@.len() == candidates(matches@.take(i as int), seqs@, request).len(),
            forall|j: int|
                0 <= j < cand_ordinals@.len() ==> cand_ordinals@[j] == (#[trigger] candidates(
                    matches@.take(i as int),
                    seqs@,
                    request,
                )[j]).0 && cand_positions@[j] == candidates(matches@.take(i as int), seqs@, request)[j].1,
        decreases matches@.len() - i,
    {
        let ghost prefix = matches@.take(i + 1);
        assert(prefix.drop_last() =~= matches@.take(i as int));
        assert(prefix.last() == matches@[i as int]);
        proof {
            lemma_candidates_bound(matches@.take(i as int), seqs@, request);
        }
        if matches[i] {
            matched = matched + 1;
            if request.matches(seqs[i]) {
                cand_ordinals.push(matched);
                cand_positions.push(i);
            }
        }
        i = i + 1;
    }
    assert(matches@.take(i as int) =~= matches@);
    let ghost cands = candidates(matches@, seqs@, request);
    let count = cand_positions.len();
    let (s, e) = match request {
        PageRequest::After(_) => (0, if count <= limit {
            count
        } else {
            limit
        }),
        _ => (if count <= limit {
            0
        } else {
            count - limit
        }, count),
    };
    assert((s as int, e as int) == page_window(cands.len(), request, limit as nat));
    let mut positions: Vec<usize> = Vec::new();
    let mut k: usize = s;
    while k < e
        invariant
            s <= k <= e,
            e <= cand_positions@.len(),
            positions@.len() == k - s,
            forall|j: int| 0 <= j < k - s ==> positions@[j] == #[trigger] cand_positions@[s + j],
        decreases e - k,
    {
        positions.push(cand_positions[k]);
        k = k + 1;
    }
    let start_index = if s < e {
        Some(cand_ordinals[s])
    } else {
        None
    };
    let end_index = if s < e {
        Some(cand_ordinals[e - 1])
    } else {
        None
    };
    SelectedIndices { positions, matched_count: matched, start_index, end_index }
}

} // verus!
