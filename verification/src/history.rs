use vstd::prelude::*;

use crate::socket_ipc::BinderEvent;

verus! {

/// The bytes a history file starts with: `BTCEVT01`.
pub open spec fn history_magic() -> Seq<u8> {
    seq![0x42u8, 0x54, 0x43, 0x45, 0x56, 0x54, 0x30, 0x31]
}

/// The version of the history file layout.
pub const FORMAT_VERSION: u32 = 1;

/// The version of the event record layout the file holds.
pub const EVENT_ABI_VERSION: u32 = 3;

/// The size of the file header.
pub const HEADER_SIZE: u64 = 64;

/// The size of one event record.
pub const EVENT_SIZE: u64 = 384;

/// Events a history file starts with room for at least.
pub const DEFAULT_INITIAL_EVENTS: u64 = 65_536;

/// The default largest history file, 8 GiB.
pub const DEFAULT_MAX_FILE_BYTES: u64 = 8_589_934_592;

/// Why the history cannot take an event.
#[derive(Debug, Clone, Copy, PartialEq, Eq, Structural)]
pub enum HistoryError {
    /// The history would need more events than its file may hold.
    CapacityLimit { needed_events: u64, max_events: u64, max_file_bytes: u64 },
    /// A size or offset does not fit in 64 bits.
    CapacityOverflow,
}

/// The text a history error is reported with.
pub open spec fn history_error_text(e: HistoryError) -> Seq<char> {
    match e {
        HistoryError::CapacityLimit { needed_events, max_events, max_file_bytes } =>
            "btcap 历史文件达到容量上限: 需要 "@ + crate::text::decimal(needed_events as nat) + " 条事件，最多 "@
            + crate::text::decimal(max_events as nat) + " 条事件，最大文件大小 "@ + crate::text::decimal(
            max_file_bytes as nat,
        ) + " 字节"@,
        HistoryError::CapacityOverflow => "历史文件容量溢出"@,
    }
}

impl HistoryError {
    /// The text the error is reported with.
    pub fn message(&self) -> (r: String)
        ensures
            r@ == history_error_text(*self),
    {
        match self {
            HistoryError::CapacityLimit { needed_events, max_events, max_file_bytes } => {
                let mut out: Vec<char> = Vec::new();
                crate::text::append_str(&mut out, "btcap 历史文件达到容量上限: 需要 ");
                let d = crate::text::decimal_chars(*needed_events);
                crate::text::append_chars(&mut out, d.as_slice());
                crate::text::append_str(&mut out, " 条事件，最多 ");
                let d = crate::text::decimal_chars(*max_events);
                crate::text::append_chars(&mut out, d.as_slice());
                crate::text::append_str(&mut out, " 条事件，最大文件大小 ");
                let d = crate::text::decimal_chars(*max_file_bytes);
                crate::text::append_chars(&mut out, d.as_slice());
                crate::text::append_str(&mut out, " 字节");
                crate::text::string_from_chars(out.as_slice())
            },
            HistoryError::CapacityOverflow => {
                let mut out: Vec<char> = Vec::new();
                crate::text::append_str(&mut out, "历史文件容量溢出");
                crate::text::string_from_chars(out.as_slice())
            },
        }
    }
}

/// The byte range of the record at `index`.
pub open spec fn spec_event_offset(index: nat) -> int {
    HEADER_SIZE + index * EVENT_SIZE
}

/// The byte range of the record at `index`, or an overflow error.
pub fn event_range(index: u64) -> (r: Result<(u64, u64), HistoryError>)
    ensures
        match r {
            Ok((start, end)) => start == spec_event_offset(index as nat) && end == start + EVENT_SIZE,
            Err(e) => e == HistoryError::CapacityOverflow && spec_event_offset(index as nat) + EVENT_SIZE
                > u64::MAX,
        },
{
    let bytes = match index.checked_mul(EVENT_SIZE) {
        Some(b) => b,
        None => return Err(HistoryError::CapacityOverflow),
    };
    let start = match HEADER_SIZE.checked_add(bytes) {
        Some(s) => s,
        None => return Err(HistoryError::CapacityOverflow),
    };
    let end = match start.checked_add(EVENT_SIZE) {
        Some(e) => e,
        None => return Err(HistoryError::CapacityOverflow),
    };
    Ok((start, end))
}

/// The length of a file with room for `capacity` events, or an overflow error.
pub fn file_len(capacity: u64) -> (r: Result<u64, HistoryError>)
    ensures
        match r {
            Ok(len) => len == HEADER_SIZE + capacity * EVENT_SIZE,
            Err(e) => e == HistoryError::CapacityOverflow && HEADER_SIZE + capacity * EVENT_SIZE
                > u64::MAX,
        },
{
    let bytes = match capacity.checked_mul(EVENT_SIZE) {
        Some(b) => b,
        None => return Err(HistoryError::CapacityOverflow),
    };
    match HEADER_SIZE.checked_add(bytes) {
        Some(len) => Ok(len),
        None => Err(HistoryError::CapacityOverflow),
    }
}

/// How many events a file of at most `max_file_bytes` holds.
pub open spec fn spec_max_events(max_file_bytes: u64) -> int {
    (max_file_bytes - HEADER_SIZE) / (EVENT_SIZE as int)
}

/// How many events a file of at most `max_file_bytes` holds; a limit that
/// leaves no room for one event is refused.
pub fn max_event_capacity(max_file_bytes: u64) -> (r: Result<u64, HistoryError>)
    ensures
        max_file_bytes < HEADER_SIZE ==> r == Err::<u64, HistoryError>(
            HistoryError::CapacityLimit { needed_events: 1, max_events: 0, max_file_bytes },
        ),
        max_file_bytes >= HEADER_SIZE && spec_max_events(max_file_bytes) == 0 ==> r == Err::<u64, HistoryError>(
            HistoryError::CapacityLimit { needed_events: 1, max_events: 0, max_file_bytes },
        ),
        max_file_bytes >= HEADER_SIZE && spec_max_events(max_file_bytes) > 0 ==> r == Ok::<u64, HistoryError>(
            spec_max_events(max_file_bytes) as u64,
        ),
{
    if max_file_bytes < HEADER_SIZE {
        return Err(HistoryError::CapacityLimit { needed_events: 1, max_events: 0, max_file_bytes });
    }
    let data_bytes = max_file_bytes - HEADER_SIZE;
    let max_events = data_bytes / EVENT_SIZE;
    if max_events == 0 {
        return Err(HistoryError::CapacityLimit { needed_events: 1, max_events, max_file_bytes });
    }
    Ok(max_events)
}

/// The capacity a new history starts with: the requested number of events,
/// at least the default, at most the limit.
pub open spec fn spec_initial_capacity(initial_events: u64, max_events: u64) -> u64 {
    let wanted = if initial_events >= DEFAULT_INITIAL_EVENTS {
        initial_events
    } else {
        DEFAULT_INITIAL_EVENTS
    };
    if wanted <= max_events {
        wanted
    } else {
        max_events
    }
}

/// The capacity a new history starts with.
pub fn initial_capacity(initial_events: u64, max_events: u64) -> (r: u64)
    ensures
        r == spec_initial_capacity(initial_events, max_events),
{
    let wanted = if initial_events >= DEFAULT_INITIAL_EVENTS {
        initial_events
    } else {
        DEFAULT_INITIAL_EVENTS
    };
    if wanted <= max_events {
        wanted
    } else {
        max_events
    }
}

/// Doubling, kept within `u64` and within the limit.
pub open spec fn grow_step(capacity: u64, max_events: u64) -> u64 {
    let doubled = if capacity <= u64::MAX / 2 {
        (capacity * 2) as u64
    } else {
        u64::MAX
    };
    if doubled <= max_events {
        doubled
    } else {
        max_events
    }
}

/// The capacity a history grows to: doubled from the current one (at least
/// one) until it holds `needed` events, never beyond the limit.
pub open spec fn spec_grown_capacity(capacity: u64, needed: u64, max_events: u64) -> u64
    decreases max_events - capacity,
{
    if capacity >= needed || capacity == 0 || needed > max_events || capacity >= max_events {
        capacity
    } else {
        spec_grown_capacity(grow_step(capacity, max_events), needed, max_events)
    }
}

/// The capacity a history grows to.
pub fn grown_capacity(capacity: u64, needed: u64, max_events: u64) -> (r: u64)
    requires
        needed <= max_events,
    ensures
        r == spec_grown_capacity(if capacity >= 1 {
            capacity
        } else {
            1
        }, needed, max_events),
{
    let mut next = if capacity >= 1 {
        capacity
    } else {
        1
    };
    while next < needed
        invariant
            needed <= max_events,
            next >= 1,
            next <= max_events || next >= needed,
            spec_grown_capacity(if capacity >= 1 {
                capacity
            } else {
                1
            }, needed, max_events) == spec_grown_capacity(next, needed, max_events),
        decreases max_events - next,
    {
        let doubled = if next <= u64::MAX / 2 {
            next * 2
        } else {
            u64::MAX
        };
        next = if doubled <= max_events {
            doubled
        } else {
            max_events
        };
    }
    next
}

/// Growing reaches a capacity that holds the needed events and stays within
/// the limit, and never shrinks.
pub proof fn lemma_grown_capacity(capacity: u64, needed: u64, max_events: u64)
    requires
        1 <= capacity <= max_events,
        needed <= max_events,
    ensures
        spec_grown_capacity(capacity, needed, max_events) >= needed,
        spec_grown_capacity(capacity, needed, max_events) >= capacity,
        spec_grown_capacity(capacity, needed, max_events) <= max_events,
    decreases max_events - capacity,
{
    if capacity < needed && capacity < max_events {
        let next = grow_step(capacity, max_events);
        assert(next > capacity);
        lemma_grown_capacity(next, needed, max_events);
    }
}

/// The bookkeeping of a history file: how many events it holds, how many
/// it has room for, and its limits.
#[derive(Debug, Clone, Copy, PartialEq, Eq, Structural)]
pub struct HistoryIndex {
    pub count: u64,
    pub capacity: u64,
    pub max_events: u64,
    pub max_file_bytes: u64,
}

impl HistoryIndex {
    /// The file always has room for its events, within the limit.
    pub open spec fn wf(self) -> bool {
        &&& self.count <= self.capacity
        &&& 1 <= self.capacity <= self.max_events
        &&& self.max_events < u64::MAX
    }

    /// The bookkeeping of a new, empty history with room for
    /// `initial_events` (at least the default, at most what
    /// `max_file_bytes` allows).
    pub fn create(initial_events: u64, max_file_bytes: u64) -> (r: Result<HistoryIndex, HistoryError>)
        ensures
            match max_event_capacity_spec(max_file_bytes) {
                Err(e) => r == Err::<HistoryIndex, HistoryError>(e),
                Ok(max_events) => r matches Ok(index) && index.wf() && index.count == 0 && index.capacity
                    == spec_initial_capacity(initial_events, max_events) && index.max_events == max_events
                    && index.max_file_bytes == max_file_bytes,
            },
    {
        let max_events = match max_event_capacity(max_file_bytes) {
            Ok(m) => m,
            Err(e) => return Err(e),
        };
        let capacity = initial_capacity(initial_events, max_events);
        Ok(HistoryIndex { count: 0, capacity, max_events, max_file_bytes })
    }

    /// Makes room for `needed` events. Gives the new capacity when the file
    /// must grow (the caller then resizes the file), nothing when it already
    /// has room, and a capacity error when the limit forbids it.
    pub fn ensure_capacity(&mut self, needed: u64) -> (r: Result<Option<u64>, HistoryError>)
        requires
            old(self).wf(),
        ensures
            final(self).wf(),
            final(self).count == old(self).count,
            final(self).max_events == old(self).max_events,
            final(self).max_file_bytes == old(self).max_file_bytes,
            needed <= old(self).capacity ==> r == Ok::<Option<u64>, HistoryError>(None) && *final(self)
                == *old(self),
            needed > old(self).capacity && needed > old(self).max_events ==> r == Err::<
                Option<u64>,
                HistoryError,
            >(
                HistoryError::CapacityLimit {
                    needed_events: needed,
                    max_events: old(self).max_events,
                    max_file_bytes: old(self).max_file_bytes,
                },
            ) && *final(self) == *old(self),
            needed > old(self).capacity && needed <= old(self).max_events ==> {
                let grown = spec_grown_capacity(old(self).capacity, needed, old(self).max_events);
                &&& r == Ok::<Option<u64>, HistoryError>(Some(grown))
                &&& final(self).capacity == grown
                &&& grown >= needed
            },
    {
        if needed <= self.capacity {
            return Ok(None);
        }
        if needed > self.max_events {
            return Err(
                HistoryError::CapacityLimit {
                    needed_events: needed,
                    max_events: self.max_events,
                    max_file_bytes: self.max_file_bytes,
                },
            );
        }
        let next = grown_capacity(self.capacity, needed, self.max_events);
        proof {
            lemma_grown_capacity(self.capacity, needed, self.max_events);
        }
        self.capacity = next;
        Ok(Some(next))
    }

    /// Counts a record written at the next index and gives that index.
    pub fn commit_event(&mut self) -> (r: u64)
        requires
            old(self).wf(),
            old(self).count < old(self).capacity,
        ensures
            r == old(self).count,
            final(self).wf(),
            final(self).count == old(self).count + 1,
            final(self).capacity == old(self).capacity,
            final(self).max_events == old(self).max_events,
            final(self).max_file_bytes == old(self).max_file_bytes,
    {
        let index = self.count;
        self.count = self.count + 1;
        index
    }

    /// Makes room for one more event and counts it: gives the new capacity
    /// when the file grew, and the index the event goes to.
    pub fn append(&mut self) -> (r: Result<(Option<u64>, u64), HistoryError>)
        requires
            old(self).wf(),
        ensures
            final(self).wf(),
            final(self).max_events == old(self).max_events,
            final(self).max_file_bytes == old(self).max_file_bytes,
            old(self).count < old(self).max_events ==> (r matches Ok((grown, index)) && index
                == old(self).count && final(self).count == old(self).count + 1 && (grown is None
                <==> old(self).count < old(self).capacity) && final(self).capacity >= old(self).capacity),
            old(self).count >= old(self).max_events ==> r == Err::<(Option<u64>, u64), HistoryError>(
                HistoryError::CapacityLimit {
                    needed_events: (old(self).count + 1) as u64,
                    max_events: old(self).max_events,
                    max_file_bytes: old(self).max_file_bytes,
                },
            ) && *final(self) == *old(self),
    {
        let needed = self.count + 1;
        let grown = match self.ensure_capacity(needed) {
            Ok(g) => g,
            Err(e) => return Err(e),
        };
        let index = self.commit_event();
        Ok((grown, index))
    }

    /// Forgets the events; the room stays.
    pub fn clear(&mut self)
        requires
            old(self).wf(),
        ensures
            final(self).wf(),
            final(self).count == 0,
            final(self).capacity == old(self).capacity,
            final(self).max_events == old(self).max_events,
            final(self).max_file_bytes == old(self).max_file_bytes,
    {
        self.count = 0;
    }

    /// The records a window shows: from `start` (at most the count) on, at
    /// most `limit` of them; gives the first index and how many.
    pub fn window(&self, start: u64, limit: u64) -> (r: (u64, u64))
        ensures
            r.0 == (if start <= self.count {
                start
            } else {
                self.count
            }),
            r.1 == (if self.count - r.0 <= limit {
                self.count - r.0
            } else {
                limit as int
            }),
    {
        let first = if start <= self.count {
            start
        } else {
            self.count
        };
        let available = self.count - first;
        let n = if available <= limit {
            available
        } else {
            limit
        };
        (first, n)
    }
}

/// What `max_event_capacity` gives.
pub open spec fn max_event_capacity_spec(max_file_bytes: u64) -> Result<u64, HistoryError> {
    if max_file_bytes < HEADER_SIZE || spec_max_events(max_file_bytes) == 0 {
        Err(HistoryError::CapacityLimit { needed_events: 1, max_events: 0, max_file_bytes })
    } else {
        Ok(spec_max_events(max_file_bytes) as u64)
    }
}

/// The little-endian bytes of a `u64`.
pub open spec fn u64_le(v: u64) -> Seq<u8> {
    seq![
        (v & 0xff) as u8,
        ((v >> 8) & 0xff) as u8,
        ((v >> 16) & 0xff) as u8,
        ((v >> 24) & 0xff) as u8,
        ((v >> 32) & 0xff) as u8,
        ((v >> 40) & 0xff) as u8,
        ((v >> 48) & 0xff) as u8,
        ((v >> 56) & 0xff) as u8,
    ]
}

/// The little-endian bytes of a `u32`.
pub open spec fn u32_le(v: u32) -> Seq<u8> {
    seq![(v & 0xff) as u8, ((v >> 8) & 0xff) as u8, ((v >> 16) & 0xff) as u8, ((v >> 24) & 0xff) as u8]
}

/// The `u64` stored little-endian at `off`.
pub open spec fn read_u64(b: Seq<u8>, off: int) -> u64 {
    (b[off] as u64) | ((b[off + 1] as u64) << 8) | ((b[off + 2] as u64) << 16) | ((b[off + 3] as u64)
        << 24) | ((b[off + 4] as u64) << 32) | ((b[off + 5] as u64) << 40) | ((b[off + 6] as u64) << 48)
        | ((b[off + 7] as u64) << 56)
}

/// The `u32` stored little-endian at `off`.
pub open spec fn read_u32(b: Seq<u8>, off: int) -> u32 {
    (b[off] as u32) | ((b[off + 1] as u32) << 8) | ((b[off + 2] as u32) << 16) | ((b[off + 3] as u32)
        << 24)
}

/// Reading back a written `u64` gives it again.
pub proof fn lemma_u64_roundtrip(v: u64)
    ensures
        read_u64(u64_le(v), 0) == v,
{
    let b = u64_le(v);
    let b0 = (v & 0xff) as u8;
    let b1 = ((v >> 8) & 0xff) as u8;
    let b2 = ((v >> 16) & 0xff) as u8;
    let b3 = ((v >> 24) & 0xff) as u8;
    let b4 = ((v >> 32) & 0xff) as u8;
    let b5 = ((v >> 40) & 0xff) as u8;
    let b6 = ((v >> 48) & 0xff) as u8;
    let b7 = ((v >> 56) & 0xff) as u8;
    assert(b[0] == b0 && b[1] == b1 && b[2] == b2 && b[3] == b3);
    assert(b[4] == b4 && b[5] == b5 && b[6] == b6 && b[7] == b7);
    assert((b0 as u64) | ((b1 as u64) << 8) | ((b2 as u64) << 16) | ((b3 as u64) << 24) | ((b4 as u64)
        << 32) | ((b5 as u64) << 40) | ((b6 as u64) << 48) | ((b7 as u64) << 56) == v) by (bit_vector)
        requires
            b0 == (v & 0xff) as u8,
            b1 == ((v >> 8) & 0xff) as u8,
            b2 == ((v >> 16) & 0xff) as u8,
            b3 == ((v >> 24) & 0xff) as u8,
            b4 == ((v >> 32) & 0xff) as u8,
            b5 == ((v >> 40) & 0xff) as u8,
            b6 == ((v >> 48) & 0xff) as u8,
            b7 == ((v >> 56) & 0xff) as u8,
    ;
}

/// Reading back a written `u32` gives it again.
pub proof fn lemma_u32_roundtrip(v: u32)
    ensures
        read_u32(u32_le(v), 0) == v,
{
    let b = u32_le(v);
    let b0 = (v & 0xff) as u8;
    let b1 = ((v >> 8) & 0xff) as u8;
    let b2 = ((v >> 16) & 0xff) as u8;
    let b3 = ((v >> 24) & 0xff) as u8;
    assert(b[0] == b0 && b[1] == b1 && b[2] == b2 && b[3] == b3);
    assert((b0 as u32) | ((b1 as u32) << 8) | ((b2 as u32) << 16) | ((b3 as u32) << 24) == v) by (bit_vector)
        requires
            b0 == (v & 0xff) as u8,
            b1 == ((v >> 8) & 0xff) as u8,
            b2 == ((v >> 16) & 0xff) as u8,
            b3 == ((v >> 24) & 0xff) as u8,
    ;
}

fn push_u64(out: &mut Vec<u8>, v: u64)
    ensures
        final(out)@ == old(out)@ + u64_le(v),
{
    let ghost start = out@;
    out.push((v & 0xff) as u8);
    out.push(((v >> 8) & 0xff) as u8);
    out.push(((v >> 16) & 0xff) as u8);
    out.push(((v >> 24) & 0xff) as u8);
    out.push(((v >> 32) & 0xff) as u8);
    out.push(((v >> 40) & 0xff) as u8);
    out.push(((v >> 48) & 0xff) as u8);
    out.push(((v >> 56) & 0xff) as u8);
    assert(out@ =~= start + u64_le(v));
}

fn push_u32(out: &mut Vec<u8>, v: u32)
    ensures
        final(out)@ == old(out)@ + u32_le(v),
{
    let ghost start = out@;
    out.push((v & 0xff) as u8);
    out.push(((v >> 8) & 0xff) as u8);
    out.push(((v >> 16) & 0xff) as u8);
    out.push(((v >> 24) & 0xff) as u8);
    assert(out@ =~= start + u32_le(v));
}

fn get_u64(b: &[u8], off: usize) -> (r: u64)
    requires
        off + 8 <= b@.len(),
    ensures
        r == read_u64(b@, off as int),
{
    (b[off] as u64) | ((b[off + 1] as u64) << 8) | ((b[off + 2] as u64) << 16) | ((b[off + 3] as u64)
        << 24) | ((b[off + 4] as u64) << 32) | ((b[off + 5] as u64) << 40) | ((b[off + 6] as u64) << 48)
        | ((b[off + 7] as u64) << 56)
}

fn get_u32(b: &[u8], off: usize) -> (r: u32)
    requires
        off + 4 <= b@.len(),
    ensures
        r == read_u32(b@, off as int),
{
    (b[off] as u32) | ((b[off + 1] as u32) << 8) | ((b[off + 2] as u32) << 16) | ((b[off + 3] as u32)
        << 24)
}

/// The 64-byte header of a history file: magic, format version, header and
/// record sizes, record layout version, event count, capacity, then zeros.
pub open spec fn header_bytes(count: u64, capacity: u64) -> Seq<u8> {
    history_magic() + u32_le(FORMAT_VERSION) + u32_le(HEADER_SIZE as u32) + u32_le(EVENT_SIZE as u32)
        + u32_le(EVENT_ABI_VERSION) + u64_le(count) + u64_le(capacity) + Seq::new(24, |i: int| 0u8)
}

/// The header of a history file with `count` events and room for `capacity`.
pub fn encode_header(count: u64, capacity: u64) -> (r: Vec<u8>)
    ensures
        r@ == header_bytes(count, capacity),
        r@.len() == HEADER_SIZE,
{
    let mut out: Vec<u8> = Vec::new();
    out.push(0x42);
    out.push(0x54);
    out.push(0x43);
    out.push(0x45);
    out.push(0x56);
    out.push(0x54);
    out.push(0x30);
    out.push(0x31);
    assert(out@ =~= history_magic());
    push_u32(&mut out, FORMAT_VERSION);
    push_u32(&mut out, HEADER_SIZE as u32);
    push_u32(&mut out, EVENT_SIZE as u32);
    push_u32(&mut out, EVENT_ABI_VERSION);
    push_u64(&mut out, count);
    push_u64(&mut out, capacity);
    let ghost before = out@;
    let mut i: usize = 0;
    while i < 24
        invariant
            i <= 24,
            out@ == before + Seq::new(i as nat, |k: int| 0u8),
        decreases 24 - i,
    {
        out.push(0);
        i = i + 1;
        assert(out@ =~= before + Seq::new(i as nat, |k: int| 0u8));
    }
    out
}

/// The first part of an event record: sequence, time, kind, process
/// identifiers, reply flag, lost count and debug ids.
pub open spec fn record_ids(e: BinderEvent) -> Seq<u8> {
    u64_le(e.sequence) + u64_le(e.timestamp_ns) + u32_le(e.kind) + u32_le(e.pid) + u32_le(e.tgid)
        + u32_le(e.uid) + u32_le(e.reply) + u32_le(e.lost_before) + u32_le(e.transaction_debug_id)
        + u32_le(e.reply_to_debug_id)
}

/// The kernel object addresses of an event record.
pub open spec fn record_objects(e: BinderEvent) -> Seq<u8> {
    u64_le(e.transaction) + u64_le(e.proc) + u64_le(e.thread) + u64_le(e.extra_buffers_size)
}

/// The transaction fields of an event record.
pub open spec fn record_transaction(e: BinderEvent) -> Seq<u8> {
    u32_le(e.code) + u32_le(e.flags) + u64_le(e.data_size) + u64_le(e.offsets_size) + u32_le(
        e.target_handle,
    ) + u32_le(e.sender_pid) + u32_le(e.sender_euid) + u32_le(e.payload_len)
}

/// The payload part of an event record.
pub open spec fn record_payload(e: BinderEvent) -> Seq<u8> {
    seq![e.payload_truncated] + e.reserved@ + e.payload@
}

/// The record of an event: its fields in declaration order, little-endian,
/// then the truncation flag, the reserved bytes and the inline payload.
pub open spec fn event_bytes(e: BinderEvent) -> Seq<u8> {
    record_ids(e) + record_objects(e) + record_transaction(e) + record_payload(e)
}

/// The record of an event.
pub fn encode_event(e: &BinderEvent) -> (r: Vec<u8>)
    ensures
        r@ == event_bytes(*e),
        r@.len() == EVENT_SIZE,
{
    let mut out: Vec<u8> = Vec::new();
    push_u64(&mut out, e.sequence);
    push_u64(&mut out, e.timestamp_ns);
    push_u32(&mut out, e.kind);
    push_u32(&mut out, e.pid);
    push_u32(&mut out, e.tgid);
    push_u32(&mut out, e.uid);
    push_u32(&mut out, e.reply);
    push_u32(&mut out, e.lost_before);
    push_u32(&mut out, e.transaction_debug_id);
    push_u32(&mut out, e.reply_to_debug_id);
    push_u64(&mut out, e.transaction);
    push_u64(&mut out, e.proc);
    push_u64(&mut out, e.thread);
    push_u64(&mut out, e.extra_buffers_size);
    push_u32(&mut out, e.code);
    push_u32(&mut out, e.flags);
    push_u64(&mut out, e.data_size);
    push_u64(&mut out, e.offsets_size);
    push_u32(&mut out, e.target_handle);
    push_u32(&mut out, e.sender_pid);
    push_u32(&mut out, e.sender_euid);
    push_u32(&mut out, e.payload_len);
    out.push(e.payload_truncated);
    let ghost before = out@;
    let mut i: usize = 0;
    while i < 7
        invariant
            i <= 7,
            e.reserved@.len() == 7,
            out@ == before + e.reserved@.take(i as int),
        decreases 7 - i,
    {
        out.push(e.reserved[i]);
        i = i + 1;
        assert(out@ =~= before + e.reserved@.take(i as int));
    }
    assert(e.reserved@.take(7) =~= e.reserved@);
    let ghost before2 = out@;
    let mut j: usize = 0;
    while j < 256
        invariant
            j <= 256,
            e.payload@.len() == 256,
            out@ == before2 + e.payload@.take(j as int),
        decreases 256 - j,
    {
        out.push(e.payload[j]);
        j = j + 1;
        assert(out@ =~= before2 + e.payload@.take(j as int));
    }
    assert(e.payload@.take(256) =~= e.payload@);
    assert(out@ =~= event_bytes(*e));
    out
}

/// The event a record holds.
pub open spec fn decoded_event_ok(b: Seq<u8>, e: BinderEvent) -> bool {
    &&& e.sequence == read_u64(b, 0)
    &&& e.timestamp_ns == read_u64(b, 8)
    &&& e.kind == read_u32(b, 16)
    &&& e.pid == read_u32(b, 20)
    &&& e.tgid == read_u32(b, 24)
    &&& e.uid == read_u32(b, 28)
    &&& e.reply == read_u32(b, 32)
    &&& e.lost_before == read_u32(b, 36)
    &&& e.transaction_debug_id == read_u32(b, 40)
    &&& e.reply_to_debug_id == read_u32(b, 44)
    &&& e.transaction == read_u64(b, 48)
    &&& e.proc == read_u64(b, 56)
    &&& e.thread == read_u64(b, 64)
    &&& e.extra_buffers_size == read_u64(b, 72)
    &&& e.code == read_u32(b, 80)
    &&& e.flags == read_u32(b, 84)
    &&& e.data_size == read_u64(b, 88)
    &&& e.offsets_size == read_u64(b, 96)
    &&& e.target_handle == read_u32(b, 104)
    &&& e.sender_pid == read_u32(b, 108)
    &&& e.sender_euid == read_u32(b, 112)
    &&& e.payload_len == read_u32(b, 116)
    &&& e.payload_truncated == b[120]
    &&& e.reserved@ == b.subrange(121, 128)
    &&& e.payload@ == b.subrange(128, 384)
}

/// Reads the event a record holds.
pub fn decode_event(b: &[u8]) -> (r: BinderEvent)
    requires
        b@.len() >= EVENT_SIZE,
    ensures
        decoded_event_ok(b@, r),
{
    let mut reserved: [u8; 7] = [0; 7];
    let mut i: usize = 0;
    while i < 7
        invariant
            i <= 7,
            b@.len() >= 384,
            reserved@.len() == 7,
            forall|k: int| 0 <= k < i ==> reserved@[k] == b@[121 + k],
        decreases 7 - i,
    {
        reserved[i] = b[121 + i];
        i = i + 1;
    }
    assert(reserved@ =~= b@.subrange(121, 128));
    let mut payload: [u8; 256] = [0; 256];
    let mut j: usize = 0;
    while j < 256
        invariant
            j <= 256,
            b@.len() >= 384,
            payload@.len() == 256,
            forall|k: int| 0 <= k < j ==> payload@[k] == b@[128 + k],
        decreases 256 - j,
    {
        payload[j] = b[128 + j];
        j = j + 1;
    }
    assert(payload@ =~= b@.subrange(128, 384));
    BinderEvent {
        sequence: get_u64(b, 0),
        timestamp_ns: get_u64(b, 8),
        kind: get_u32(b, 16),
        pid: get_u32(b, 20),
        tgid: get_u32(b, 24),
        uid: get_u32(b, 28),
        reply: get_u32(b, 32),
        lost_before: get_u32(b, 36),
        transaction_debug_id: get_u32(b, 40),
        reply_to_debug_id: get_u32(b, 44),
        transaction: get_u64(b, 48),
        proc: get_u64(b, 56),
        thread: get_u64(b, 64),
        extra_buffers_size: get_u64(b, 72),
        code: get_u32(b, 80),
        flags: get_u32(b, 84),
        data_size: get_u64(b, 88),
        offsets_size: get_u64(b, 96),
        target_handle: get_u32(b, 104),
        sender_pid: get_u32(b, 108),
        sender_euid: get_u32(b, 112),
        payload_len: get_u32(b, 116),
        payload_truncated: b[120],
        reserved,
        payload,
    }
}

proof fn lemma_read_u64_in(x: Seq<u8>, y: Seq<u8>, z: Seq<u8>, o: int)
    requires
        0 <= o,
        o + 8 <= y.len(),
    ensures
        read_u64(x + y + z, x.len() + o) == read_u64(y, o),
{
    let b = x + y + z;
    let n = x.len() as int;
    assert(b[n + o] == y[o]);
    assert(b[n + o + 1] == y[o + 1]);
    assert(b[n + o + 2] == y[o + 2]);
    assert(b[n + o + 3] == y[o + 3]);
    assert(b[n + o + 4] == y[o + 4]);
    assert(b[n + o + 5] == y[o + 5]);
    assert(b[n + o + 6] == y[o + 6]);
    assert(b[n + o + 7] == y[o + 7]);
}

proof fn lemma_read_u32_in(x: Seq<u8>, y: Seq<u8>, z: Seq<u8>, o: int)
    requires
        0 <= o,
        o + 4 <= y.len(),
    ensures
        read_u32(x + y + z, x.len() + o) == read_u32(y, o),
{
    let b = x + y + z;
    let n = x.len() as int;
    assert(b[n + o] == y[o]);
    assert(b[n + o + 1] == y[o + 1]);
    assert(b[n + o + 2] == y[o + 2]);
    assert(b[n + o + 3] == y[o + 3]);
}

proof fn lemma_u64_field(x: Seq<u8>, v: u64, z: Seq<u8>)
    ensures
        read_u64(x + u64_le(v) + z, x.len() as int) == v,
{
    lemma_read_u64_in(x, u64_le(v), z, 0);
    lemma_u64_roundtrip(v);
}

proof fn lemma_u32_field(x: Seq<u8>, v: u32, z: Seq<u8>)
    ensures
        read_u32(x + u32_le(v) + z, x.len() as int) == v,
{
    lemma_read_u32_in(x, u32_le(v), z, 0);
    lemma_u32_roundtrip(v);
}

proof fn lemma_record_ids(e: BinderEvent)
    ensures
        ({
            let g = record_ids(e);
            &&& g.len() == 48
            &&& read_u64(g, 0) == e.sequence
            &&& read_u64(g, 8) == e.timestamp_ns
            &&& read_u32(g, 16) == e.kind
            &&& read_u32(g, 20) == e.pid
            &&& read_u32(g, 24) == e.tgid
            &&& read_u32(g, 28) == e.uid
            &&& read_u32(g, 32) == e.reply
            &&& read_u32(g, 36) == e.lost_before
            &&& read_u32(g, 40) == e.transaction_debug_id
            &&& read_u32(g, 44) == e.reply_to_debug_id
        }),
{
    let a0 = u64_le(e.sequence);
    let a1 = u64_le(e.timestamp_ns);
    let a2 = u32_le(e.kind);
    let a3 = u32_le(e.pid);
    let a4 = u32_le(e.tgid);
    let a5 = u32_le(e.uid);
    let a6 = u32_le(e.reply);
    let a7 = u32_le(e.lost_before);
    let a8 = u32_le(e.transaction_debug_id);
    let a9 = u32_le(e.reply_to_debug_id);
    let g = record_ids(e);
    let e0 = Seq::<u8>::empty();
    assert(g =~= e0 + a0 + (a1 + a2 + a3 + a4 + a5 + a6 + a7 + a8 + a9));
    lemma_u64_field(e0, e.sequence, a1 + a2 + a3 + a4 + a5 + a6 + a7 + a8 + a9);
    assert(g =~= a0 + a1 + (a2 + a3 + a4 + a5 + a6 + a7 + a8 + a9));
    lemma_u64_field(a0, e.timestamp_ns, a2 + a3 + a4 + a5 + a6 + a7 + a8 + a9);
    assert(g =~= (a0 + a1) + a2 + (a3 + a4 + a5 + a6 + a7 + a8 + a9));
    lemma_u32_field(a0 + a1, e.kind, a3 + a4 + a5 + a6 + a7 + a8 + a9);
    assert(g =~= (a0 + a1 + a2) + a3 + (a4 + a5 + a6 + a7 + a8 + a9));
    lemma_u32_field(a0 + a1 + a2, e.pid, a4 + a5 + a6 + a7 + a8 + a9);
    assert(g =~= (a0 + a1 + a2 + a3) + a4 + (a5 + a6 + a7 + a8 + a9));
    lemma_u32_field(a0 + a1 + a2 + a3, e.tgid, a5 + a6 + a7 + a8 + a9);
    assert(g =~= (a0 + a1 + a2 + a3 + a4) + a5 + (a6 + a7 + a8 + a9));
    lemma_u32_field(a0 + a1 + a2 + a3 + a4, e.uid, a6 + a7 + a8 + a9);
    assert(g =~= (a0 + a1 + a2 + a3 + a4 + a5) + a6 + (a7 + a8 + a9));
    lemma_u32_field(a0 + a1 + a2 + a3 + a4 + a5, e.reply, a7 + a8 + a9);
    assert(g =~= (a0 + a1 + a2 + a3 + a4 + a5 + a6) + a7 + (a8 + a9));
    lemma_u32_field(a0 + a1 + a2 + a3 + a4 + a5 + a6, e.lost_before, a8 + a9);
    assert(g =~= (a0 + a1 + a2 + a3 + a4 + a5 + a6 + a7) + a8 + a9);
    lemma_u32_field(a0 + a1 + a2 + a3 + a4 + a5 + a6 + a7, e.transaction_debug_id, a9);
    assert(g =~= (a0 + a1 + a2 + a3 + a4 + a5 + a6 + a7 + a8) + a9 + e0);
    lemma_u32_field(a0 + a1 + a2 + a3 + a4 + a5 + a6 + a7 + a8, e.reply_to_debug_id, e0);
}

proof fn lemma_record_objects(e: BinderEvent)
    ensures
        ({
            let g = record_objects(e);
            &&& g.len() == 32
            &&& read_u64(g, 0) == e.transaction
            &&& read_u64(g, 8) == e.proc
            &&& read_u64(g, 16) == e.thread
            &&& read_u64(g, 24) == e.extra_buffers_size
        }),
{
    let a0 = u64_le(e.transaction);
    let a1 = u64_le(e.proc);
    let a2 = u64_le(e.thread);
    let a3 = u64_le(e.extra_buffers_size);
    let g = record_objects(e);
    let e0 = Seq::<u8>::empty();
    assert(g =~= e0 + a0 + (a1 + a2 + a3));
    lemma_u64_field(e0, e.transaction, a1 + a2 + a3);
    assert(g =~= a0 + a1 + (a2 + a3));
    lemma_u64_field(a0, e.proc, a2 + a3);
    assert(g =~= (a0 + a1) + a2 + a3);
    lemma_u64_field(a0 + a1, e.thread, a3);
    assert(g =~= (a0 + a1 + a2) + a3 + e0);
    lemma_u64_field(a0 + a1 + a2, e.extra_buffers_size, e0);
}

proof fn lemma_record_transaction(e: BinderEvent)
    ensures
        ({
            let g = record_transaction(e);
            &&& g.len() == 40
            &&& read_u32(g, 0) == e.code
            &&& read_u32(g, 4) == e.flags
            &&& read_u64(g, 8) == e.data_size
            &&& read_u64(g, 16) == e.offsets_size
            &&& read_u32(g, 24) == e.target_handle
            &&& read_u32(g, 28) == e.sender_pid
            &&& read_u32(g, 32) == e.sender_euid
            &&& read_u32(g, 36) == e.payload_len
        }),
{
    let a0 = u32_le(e.code);
    let a1 = u32_le(e.flags);
    let a2 = u64_le(e.data_size);
    let a3 = u64_le(e.offsets_size);
    let a4 = u32_le(e.target_handle);
    let a5 = u32_le(e.sender_pid);
    let a6 = u32_le(e.sender_euid);
    let a7 = u32_le(e.payload_len);
    let g = record_transaction(e);
    let e0 = Seq::<u8>::empty();
    assert(g =~= e0 + a0 + (a1 + a2 + a3 + a4 + a5 + a6 + a7));
    lemma_u32_field(e0, e.code, a1 + a2 + a3 + a4 + a5 + a6 + a7);
    assert(g =~= a0 + a1 + (a2 + a3 + a4 + a5 + a6 + a7));
    lemma_u32_field(a0, e.flags, a2 + a3 + a4 + a5 + a6 + a7);
    assert(g =~= (a0 + a1) + a2 + (a3 + a4 + a5 + a6 + a7));
    lemma_u64_field(a0 + a1, e.data_size, a3 + a4 + a5 + a6 + a7);
    assert(g =~= (a0 + a1 + a2) + a3 + (a4 + a5 + a6 + a7));
    lemma_u64_field(a0 + a1 + a2, e.offsets_size, a4 + a5 + a6 + a7);
    assert(g =~= (a0 + a1 + a2 + a3) + a4 + (a5 + a6 + a7));
    lemma_u32_field(a0 + a1 + a2 + a3, e.target_handle, a5 + a6 + a7);
    assert(g =~= (a0 + a1 + a2 + a3 + a4) + a5 + (a6 + a7));
    lemma_u32_field(a0 + a1 + a2 + a3 + a4, e.sender_pid, a6 + a7);
    assert(g =~= (a0 + a1 + a2 + a3 + a4 + a5) + a6 + a7);
    lemma_u32_field(a0 + a1 + a2 + a3 + a4 + a5, e.sender_euid, a7);
    assert(g =~= (a0 + a1 + a2 + a3 + a4 + a5 + a6) + a7 + e0);
    lemma_u32_field(a0 + a1 + a2 + a3 + a4 + a5 + a6, e.payload_len, e0);
}

/// The bytes of the record at `index` in a file.
pub open spec fn record_at(file: Seq<u8>, index: nat) -> Seq<u8> {
    file.subrange(spec_event_offset(index), spec_event_offset(index) + EVENT_SIZE)
}

/// A file after an event's record was written at `index`.
pub open spec fn with_record(file: Seq<u8>, index: nat, e: BinderEvent) -> Seq<u8> {
    file.take(spec_event_offset(index)) + event_bytes(e) + file.skip(spec_event_offset(index) + EVENT_SIZE)
}

proof fn lemma_event_bytes_len(e: BinderEvent)
    ensures
        event_bytes(e).len() == EVENT_SIZE,
{
    lemma_record_ids(e);
    lemma_record_objects(e);
    lemma_record_transaction(e);
    assert(record_payload(e).len() == 1 + 7 + 256);
}

proof fn lemma_splice(file: Seq<u8>, off: int, b: Seq<u8>, o: int)
    requires
        b.len() == EVENT_SIZE,
        0 <= off,
        off + EVENT_SIZE <= file.len(),
        0 <= o,
        o + EVENT_SIZE <= file.len(),
    ensures
        (file.take(off) + b + file.skip(off + EVENT_SIZE)).len() == file.len(),
        (file.take(off) + b + file.skip(off + EVENT_SIZE)).subrange(off, off + EVENT_SIZE) == b,
        (o + EVENT_SIZE <= off || off + EVENT_SIZE <= o) ==> (file.take(off) + b + file.skip(off + EVENT_SIZE)).subrange(
            o,
            o + EVENT_SIZE,
        ) == file.subrange(o, o + EVENT_SIZE),
{
    let w = file.take(off) + b + file.skip(off + EVENT_SIZE);
    assert(w.subrange(off, off + EVENT_SIZE) =~= b);
    if o + EVENT_SIZE <= off || off + EVENT_SIZE <= o {
        assert(w.subrange(o, o + EVENT_SIZE) =~= file.subrange(o, o + EVENT_SIZE));
    }
}

/// Writing an event's record at `index` into a file that has room for it:
/// that record then reads back as the event, and every other record that
/// fits in the file keeps its bytes.
pub proof fn lemma_written_record_reads_back(file: Seq<u8>, index: nat, other: nat, e: BinderEvent, d: BinderEvent)
    requires
        spec_event_offset(index) + EVENT_SIZE <= file.len(),
        spec_event_offset(other) + EVENT_SIZE <= file.len(),
    ensures
        with_record(file, index, e).len() == file.len(),
        record_at(with_record(file, index, e), index) == event_bytes(e),
        decoded_event_ok(record_at(with_record(file, index, e), index), d) ==> d == e,
        other != index ==> record_at(with_record(file, index, e), other) == record_at(file, other),
{
    lemma_event_bytes_len(e);
    let off = spec_event_offset(index);
    let o = spec_event_offset(other);
    if other != index {
        assert(o + EVENT_SIZE <= off || off + EVENT_SIZE <= o) by (nonlinear_arith)
            requires
                o == HEADER_SIZE + other * EVENT_SIZE,
                off == HEADER_SIZE + index * EVENT_SIZE,
                other != index,
                EVENT_SIZE == 384,
        ;
    }
    lemma_splice(file, off, event_bytes(e), o);
    if decoded_event_ok(record_at(with_record(file, index, e), index), d) {
        lemma_event_roundtrip(e, d);
    }
}

/// A file grown to at least `len` bytes, the new bytes zero.
pub open spec fn resized(file: Seq<u8>, len: nat) -> Seq<u8> {
    if len <= file.len() {
        file
    } else {
        file + Seq::new((len - file.len()) as nat, |i: int| 0u8)
    }
}

/// A file after appending events one after another: before the event at
/// index `k` is written as record `k`, the file is grown to `sizes[k]`
/// bytes when it is shorter.
pub open spec fn appended(file: Seq<u8>, events: Seq<BinderEvent>, sizes: Seq<nat>) -> Seq<u8>
    decreases events.len(),
{
    if events.len() == 0 || sizes.len() < events.len() {
        file
    } else {
        let k = events.len() - 1;
        with_record(resized(appended(file, events.drop_last(), sizes), sizes[k]), k as nat, events.last())
    }
}

proof fn lemma_resized_keeps(file: Seq<u8>, len: nat, k: nat)
    requires
        spec_event_offset(k) + EVENT_SIZE <= file.len(),
    ensures
        resized(file, len).len() >= len,
        resized(file, len).len() >= file.len(),
        record_at(resized(file, len), k) == record_at(file, k),
{
    if len > file.len() {
        assert(record_at(resized(file, len), k) =~= record_at(file, k));
    }
}

/// Events appended to a history file one after another, the file growing
/// as needed, read back in append order: the record at each index holds
/// and decodes to the event appended there, whatever growth came later.
pub proof fn lemma_appended_events_read_back(
    file: Seq<u8>,
    events: Seq<BinderEvent>,
    sizes: Seq<nat>,
    k: nat,
    d: BinderEvent,
)
    requires
        sizes.len() >= events.len(),
        forall|i: int| 0 <= i < events.len() ==> spec_event_offset(i as nat) + EVENT_SIZE <= #[trigger] sizes[i],
        k < events.len(),
    ensures
        appended(file, events, sizes).len() >= spec_event_offset((events.len() - 1) as nat) + EVENT_SIZE,
        record_at(appended(file, events, sizes), k) == event_bytes(events[k as int]),
        decoded_event_ok(record_at(appended(file, events, sizes), k), d) ==> d == events[k as int],
    decreases events.len(),
{
    let n = events.len();
    let last = (n - 1) as nat;
    let before = appended(file, events.drop_last(), sizes);
    let grown = resized(before, sizes[last as int]);
    assert(spec_event_offset(last) + EVENT_SIZE <= sizes[last as int]);
    if k < last {
        assert forall|i: int| 0 <= i < events.drop_last().len() implies spec_event_offset(i as nat) + EVENT_SIZE
            <= #[trigger] sizes[i] by {
            assert(events.drop_last().len() < events.len());
        }
        lemma_appended_events_read_back(file, events.drop_last(), sizes, k, d);
        assert(spec_event_offset(k) <= spec_event_offset((last - 1) as nat)) by (nonlinear_arith)
            requires
                k <= last - 1,
        ;
        lemma_resized_keeps(before, sizes[last as int], k);
        lemma_written_record_reads_back(grown, last, k, events.last(), d);
        assert(events.drop_last()[k as int] == events[k as int]);
    } else {
        if n > 1 {
            assert forall|i: int| 0 <= i < events.drop_last().len() implies spec_event_offset(i as nat)
                + EVENT_SIZE <= #[trigger] sizes[i] by {
                assert(events.drop_last().len() < events.len());
            }
            lemma_appended_events_read_back(file, events.drop_last(), sizes, 0, d);
        }
    }
    lemma_resized_keeps_len(before, sizes[last as int]);
    lemma_written_record_reads_back(grown, last, last, events.last(), d);
}

proof fn lemma_resized_keeps_len(file: Seq<u8>, len: nat)
    ensures
        resized(file, len).len() >= len,
        resized(file, len).len() >= file.len(),
{
}

/// Reading a record back gives the event that was written: every field, the
/// reserved bytes and the whole inline payload.
#[verifier::rlimit(40)]
pub proof fn lemma_event_roundtrip(e: BinderEvent, d: BinderEvent)
    requires
        decoded_event_ok(event_bytes(e), d),
    ensures
        d == e,
{
    let b = event_bytes(e);
    let ga = record_ids(e);
    let gb = record_objects(e);
    let gc = record_transaction(e);
    let gd = record_payload(e);
    let e0 = Seq::<u8>::empty();
    lemma_record_ids(e);
    lemma_record_objects(e);
    lemma_record_transaction(e);
    assert(b =~= e0 + ga + (gb + gc + gd));
    assert(b =~= ga + gb + (gc + gd));
    assert(b =~= (ga + gb) + gc + gd);
    lemma_read_u64_in(e0, ga, gb + gc + gd, 0);
    lemma_read_u64_in(e0, ga, gb + gc + gd, 8);
    lemma_read_u32_in(e0, ga, gb + gc + gd, 16);
    lemma_read_u32_in(e0, ga, gb + gc + gd, 20);
    lemma_read_u32_in(e0, ga, gb + gc + gd, 24);
    lemma_read_u32_in(e0, ga, gb + gc + gd, 28);
    lemma_read_u32_in(e0, ga, gb + gc + gd, 32);
    lemma_read_u32_in(e0, ga, gb + gc + gd, 36);
    lemma_read_u32_in(e0, ga, gb + gc + gd, 40);
    lemma_read_u32_in(e0, ga, gb + gc + gd, 44);
    lemma_read_u64_in(ga, gb, gc + gd, 0);
    lemma_read_u64_in(ga, gb, gc + gd, 8);
    lemma_read_u64_in(ga, gb, gc + gd, 16);
    lemma_read_u64_in(ga, gb, gc + gd, 24);
    lemma_read_u32_in(ga + gb, gc, gd, 0);
    lemma_read_u32_in(ga + gb, gc, gd, 4);
    lemma_read_u32_in(ga + gb, gc, gd, 24);
    lemma_read_u32_in(ga + gb, gc, gd, 28);
    lemma_read_u32_in(ga + gb, gc, gd, 32);
    lemma_read_u32_in(ga + gb, gc, gd, 36);
    lemma_read_u64_in(ga + gb, gc, gd, 8);
    lemma_read_u64_in(ga + gb, gc, gd, 16);
    assert(b[120] == e.payload_truncated);
    assert(b.subrange(121, 128) =~= e.reserved@);
    assert(b.subrange(128, 384) =~= e.payload@);
    assert(d.reserved@ =~= e.reserved@);
    assert(d.payload@ =~= e.payload@);
    assert(d.reserved =~= e.reserved) by {
        assert forall|i: int| 0 <= i < 7 implies d.reserved[i] == e.reserved[i] by {
            assert(d.reserved@[i] == e.reserved@[i]);
        }
    }
    assert(d.payload =~= e.payload) by {
        assert forall|i: int| 0 <= i < 256 implies d.payload[i] == e.payload[i] by {
            assert(d.payload@[i] == e.payload@[i]);
        }
    }
}

/// Whether a history file is the TUI's default one, `binder-trace/events.btcap`,
/// whose directory is write-protected while the session runs; the names are
/// the path's file name and its parent directory's.
pub fn should_lock_capture_path(file_name: Option<&str>, parent_name: Option<&str>) -> (r: bool)
    ensures
        r == (match (file_name, parent_name) {
            (Some(f), Some(p)) => f@ == "events.btcap"@ && p@ == "binder-trace"@,
            _ => false,
        }),
{
    match (file_name, parent_name) {
        (Some(f), Some(p)) => crate::platform::text_eq(f, "events.btcap") && crate::platform::text_eq(
            p,
            "binder-trace",
        ),
        _ => false,
    }
}

/// The permission bits of the default history file's directory: those it
/// is given back when the session ends (its own, with the owner's bits
/// all set), and those it holds meanwhile (the same without any write bit),
/// so that the file cannot be unlinked.
pub fn capture_dir_modes(mode: u32) -> (r: (u32, u32))
    ensures
        r.0 == (mode & 0o7777) | 0o700,
        r.1 == r.0 & !0o222u32,
{
    let restore = (mode & 0o7777) | 0o700;
    (restore, restore & !0o222u32)
}

} // verus!
