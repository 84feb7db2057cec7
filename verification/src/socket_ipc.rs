use vstd::prelude::*;

use crate::common::{BinderDevice, EventKind, RawBinderEvent, RawEventHeader, RawTransaction};

verus! {

/// ABI version of the kernel module's socket interface that this library speaks.
pub const BT_ABI_VERSION: u32 = 2;
/// ioctl magic of the control socket (`'B'`).
pub const BT_IOC_MAGIC: u32 = 0x42;
/// Magic a binder-trace driver reports in its feature block.
pub const BT_DRIVER_FEATURE_MAGIC: u64 = 0x4254_5241_4345_3031;
/// Feature bit: the driver pushes events through the socket.
pub const BT_FEATURE_EVENT_STREAM: u32 = 2;
/// Socket event kind of a Binder transaction.
pub const BT_EVENT_KIND_BINDER_TRANSACTION: u32 = 1;

pub const IOC_NRSHIFT: u32 = 0;
pub const IOC_TYPESHIFT: u32 = 8;
pub const IOC_SIZESHIFT: u32 = 16;
pub const IOC_DIRSHIFT: u32 = 30;

pub const IOC_NONE: u32 = 0;
pub const IOC_WRITE: u32 = 1;
pub const IOC_READ: u32 = 2;

/// Capture point: the ioctl entry hook.
pub const BT_CAPTURE_POINT_IOCTL: u32 = 1;
/// Capture point: the copy-to-user hook.
pub const BT_CAPTURE_POINT_COPY_TO_USER: u32 = 2;
/// Capture point: the Binder transaction hook.
pub const BT_CAPTURE_POINT_TRANSACTION: u32 = 4;
/// Every capture point.
pub const BT_CAPTURE_POINT_ALL: u32 = 7;

/// Byte sizes of the structures the control ioctls exchange.
pub const ABI_VERSION_SIZE: u32 = 8;
pub const CAPTURE_CONFIG_SIZE: u32 = 48;
pub const CAPTURE_STATS_SIZE: u32 = 40;
pub const DRIVER_FEATURE_SIZE: u32 = 32;

/// Linux `_IOC` request encoding.
pub open spec fn spec_ioc(dir: u32, ty: u32, nr: u32, size: u32) -> u32 {
    (dir << 30u32) | (ty << 8u32) | (nr << 0u32) | (size << 16u32)
}

/// Encodes an ioctl request number from direction, type, number and size.
pub fn ioc(dir: u32, ty: u32, nr: u32, size: u32) -> (r: u32)
    ensures
        r == spec_ioc(dir, ty, nr, size),
{
    (dir << IOC_DIRSHIFT) | (ty << IOC_TYPESHIFT) | (nr << IOC_NRSHIFT) | (size << IOC_SIZESHIFT)
}

/// A request that carries no data.
pub fn io(nr: u32) -> (r: u32)
    ensures
        r == spec_ioc(IOC_NONE, BT_IOC_MAGIC, nr, 0),
{
    ioc(IOC_NONE, BT_IOC_MAGIC, nr, 0)
}

/// A request through which the kernel fills a structure of `size` bytes.
pub fn ior(nr: u32, size: u32) -> (r: u32)
    ensures
        r == spec_ioc(IOC_READ, BT_IOC_MAGIC, nr, size),
{
    ioc(IOC_READ, BT_IOC_MAGIC, nr, size)
}

/// A request through which the caller hands the kernel a structure of `size` bytes.
pub fn iow(nr: u32, size: u32) -> (r: u32)
    ensures
        r == spec_ioc(IOC_WRITE, BT_IOC_MAGIC, nr, size),
{
    ioc(IOC_WRITE, BT_IOC_MAGIC, nr, size)
}

/// Driver feature block reported by the kernel module.
#[derive(Debug, Clone, Copy)]
pub struct DriverFeature {
    pub magic: u64,
    pub abi_version: u32,
    pub feature_flags: u32,
    pub name: [u8; 16],
}

impl DriverFeature {
    /// Whether the socket family belongs to the binder-trace driver.
    pub fn is_binder_trace(&self) -> (r: bool)
        ensures
            r == (self.magic == BT_DRIVER_FEATURE_MAGIC),
    {
        self.magic == BT_DRIVER_FEATURE_MAGIC
    }

    /// Whether the driver pushes events through the socket.
    pub fn has_event_stream(&self) -> (r: bool)
        ensures
            r == (self.feature_flags & BT_FEATURE_EVENT_STREAM != 0),
    {
        (self.feature_flags & BT_FEATURE_EVENT_STREAM) != 0
    }
}

/// Kernel capture configuration.
#[derive(Debug, Clone, Copy, PartialEq, Eq, Structural)]
pub struct CaptureConfig {
    pub enabled: u32,
    pub point_mask: u32,
    pub tgid: i32,
    pub pid: i32,
    pub uid: u32,
    pub uid_enabled: u32,
    pub ioctl_cmd: u32,
    pub ioctl_cmd_enabled: u32,
    pub min_size: u64,
    pub max_size: u64,
}

impl CaptureConfig {
    /// The unfiltered configuration with the given switch and hook mask.
    pub open spec fn unfiltered(enabled: u32, point_mask: u32) -> CaptureConfig {
        CaptureConfig {
            enabled,
            point_mask,
            tgid: 0,
            pid: 0,
            uid: 0,
            uid_enabled: 0,
            ioctl_cmd: 0,
            ioctl_cmd_enabled: 0,
            min_size: 0,
            max_size: 0,
        }
    }

    /// Capture on every hook point, without process, uid, cmd or size filters.
    pub fn enabled() -> (r: CaptureConfig)
        ensures
            r == Self::unfiltered(1, BT_CAPTURE_POINT_ALL),
    {
        CaptureConfig {
            enabled: 1,
            point_mask: BT_CAPTURE_POINT_ALL,
            tgid: 0,
            pid: 0,
            uid: 0,
            uid_enabled: 0,
            ioctl_cmd: 0,
            ioctl_cmd_enabled: 0,
            min_size: 0,
            max_size: 0,
        }
    }

    /// Capture on the Binder transaction hook only.
    pub fn binder_transaction_enabled() -> (r: CaptureConfig)
        ensures
            r == Self::unfiltered(1, BT_CAPTURE_POINT_TRANSACTION),
    {
        CaptureConfig { point_mask: BT_CAPTURE_POINT_TRANSACTION, ..Self::enabled() }
    }

    /// Capture switched off, keeping the default hook mask.
    pub fn disabled() -> (r: CaptureConfig)
        ensures
            r == Self::unfiltered(0, BT_CAPTURE_POINT_ALL),
    {
        CaptureConfig { enabled: 0, ..Self::enabled() }
    }

    /// The default configuration, which is the disabled one.
    pub fn default_config() -> (r: CaptureConfig)
        ensures
            r == Self::unfiltered(0, BT_CAPTURE_POINT_ALL),
    {
        Self::disabled()
    }
}

/// Kernel control-plane counters.
#[derive(Debug, Clone, Copy, PartialEq, Eq, Structural)]
pub struct CaptureStats {
    pub ioctl_hits: u64,
    pub copy_to_user_hits: u64,
    pub transaction_hits: u64,
    pub captured: u64,
    pub filtered: u64,
}

/// A Binder event pushed by the kernel through the socket.
#[derive(Debug, Clone, Copy, PartialEq, Eq)]
pub struct BinderEvent {
    pub sequence: u64,
    pub timestamp_ns: u64,
    pub kind: u32,
    pub pid: u32,
    pub tgid: u32,
    pub uid: u32,
    pub reply: u32,
    pub lost_before: u32,
    pub transaction_debug_id: u32,
    pub reply_to_debug_id: u32,
    pub transaction: u64,
    pub proc: u64,
    pub thread: u64,
    pub extra_buffers_size: u64,
    pub code: u32,
    pub flags: u32,
    pub data_size: u64,
    pub offsets_size: u64,
    pub target_handle: u32,
    pub sender_pid: u32,
    pub sender_euid: u32,
    pub payload_len: u32,
    pub payload_truncated: u8,
    pub reserved: [u8; 7],
    pub payload: [u8; 256],
}

impl BinderEvent {
    /// The number of payload bytes that are valid.
    pub open spec fn spec_payload_len(self) -> int {
        if self.payload_len < 256 {
            self.payload_len as int
        } else {
            256
        }
    }

    /// The valid payload bytes.
    pub open spec fn spec_payload(self) -> Seq<u8> {
        self.payload@.subrange(0, self.spec_payload_len())
    }

    /// Whether the event reports a reply.
    pub open spec fn spec_is_reply(self) -> bool {
        self.reply != 0
    }

    /// Whether the event is a Binder transaction.
    pub fn is_binder_transaction(&self) -> (r: bool)
        ensures
            r == (self.kind == BT_EVENT_KIND_BINDER_TRANSACTION),
    {
        self.kind == BT_EVENT_KIND_BINDER_TRANSACTION
    }

    /// Whether the event reports a reply.
    pub fn is_reply(&self) -> (r: bool)
        ensures
            r == self.spec_is_reply(),
    {
        self.reply != 0
    }

    /// The valid payload bytes: `payload_len` of them, at most the inline buffer.
    pub fn payload_bytes(&self) -> (r: Vec<u8>)
        ensures
            r@ == self.spec_payload(),
    {
        let n: usize = if self.payload_len < 256 { self.payload_len as usize } else { 256 };
        let mut out: Vec<u8> = Vec::new();
        let mut i: usize = 0;
        while i < n
            invariant
                n == self.spec_payload_len(),
                n <= 256,
                i <= n,
                self.payload@.len() == 256,
                out@ == self.payload@.subrange(0, i as int),
            decreases n - i,
        {
            out.push(self.payload[i]);
            i = i + 1;
            assert(out@ =~= self.payload@.subrange(0, i as int));
        }
        out
    }

    /// The raw event that a socket transaction event stands for.
    pub open spec fn spec_raw_event_ok(self, raw: RawBinderEvent) -> bool {
        &&& raw.header == (RawEventHeader {
            kind: if self.spec_is_reply() {
                EventKind::Reply.spec_raw()
            } else {
                EventKind::Transaction.spec_raw()
            },
            device: 0xffff,
            pid: self.tgid,
            tid: self.pid,
            uid: self.uid,
            flags: 0,
            timestamp_ns: self.timestamp_ns,
            sequence: self.sequence,
        })
        &&& raw.transaction.code == self.code
        &&& raw.transaction.flags == self.flags
        &&& raw.transaction.data_size == self.data_size
        &&& raw.transaction.offsets_size == self.offsets_size
        &&& raw.transaction.target_handle == self.target_handle
        &&& raw.transaction.sender_pid == self.sender_pid
        &&& raw.transaction.sender_euid == self.sender_euid
        &&& raw.transaction.payload_len == self.payload_len
        &&& raw.transaction.payload_truncated == self.payload_truncated
        &&& raw.transaction.reserved@ == Seq::new(7, |i: int| 0u8)
        &&& raw.transaction.payload@ == self.payload@
    }

    /// Converts a socket event into the raw event the decoder reads: a reply or
    /// a transaction on an unknown device, with the thread group as the process.
    /// Events of any other socket kind give `None`.
    pub fn to_raw_event(&self) -> (r: Option<RawBinderEvent>)
        ensures
            self.kind != BT_EVENT_KIND_BINDER_TRANSACTION ==> r is None,
            self.kind == BT_EVENT_KIND_BINDER_TRANSACTION ==> (r matches Some(raw)
                && self.spec_raw_event_ok(raw)),
    {
        if !self.is_binder_transaction() {
            return None;
        }
        let kind = if self.is_reply() {
            EventKind::Reply
        } else {
            EventKind::Transaction
        };
        let mut header = RawEventHeader::new(kind, BinderDevice::unknown());
        header.pid = self.tgid;
        header.tid = self.pid;
        header.uid = self.uid;
        header.timestamp_ns = self.timestamp_ns;
        header.sequence = self.sequence;
        let mut transaction = RawTransaction::empty();
        transaction.code = self.code;
        transaction.flags = self.flags;
        transaction.data_size = self.data_size;
        transaction.offsets_size = self.offsets_size;
        transaction.target_handle = self.target_handle;
        transaction.sender_pid = self.sender_pid;
        transaction.sender_euid = self.sender_euid;
        transaction.payload_len = self.payload_len;
        transaction.payload_truncated = self.payload_truncated;
        transaction.payload = self.payload;
        Some(RawBinderEvent { header, transaction })
    }
}

/// What `String::from_utf8_lossy` makes of a byte sequence.
pub uninterp spec fn utf8_lossy(bytes: Seq<u8>) -> Seq<char>;

/// Calls `String::from_utf8_lossy`: the text of `bytes`, with invalid UTF-8
/// replaced by U+FFFD. The result is named; on valid UTF-8 it is the decoded
/// text, as the documentation says.
#[verifier::external_body]
fn decode_utf8_lossy(bytes: &[u8]) -> (r: String)
    ensures
        r@ == utf8_lossy(bytes@),
        vstd::utf8::valid_utf8(bytes@) ==> r@ == vstd::utf8::decode_utf8(bytes@),
{
    String::from_utf8_lossy(bytes).into_owned()
}

/// The text of bytes, with invalid UTF-8 replaced by U+FFFD.
pub fn lossy_text(bytes: &[u8]) -> (r: String)
    ensures
        r@ == utf8_lossy(bytes@),
        vstd::utf8::valid_utf8(bytes@) ==> r@ == vstd::utf8::decode_utf8(bytes@),
{
    decode_utf8_lossy(bytes)
}

/// Index of the first zero byte, or the length when there is none.
pub open spec fn c_string_end(bytes: Seq<u8>) -> int
    decreases bytes.len(),
{
    if bytes.len() == 0 {
        0
    } else if bytes[0] == 0 {
        0
    } else {
        1 + c_string_end(bytes.drop_first())
    }
}

/// Decodes a NUL-terminated byte buffer: the bytes before the first NUL (all of
/// them when there is none), decoded lossily as UTF-8.
pub fn c_string_lossy(bytes: &[u8]) -> (r: String)
    ensures
        r@ == utf8_lossy(bytes@.subrange(0, c_string_end(bytes@))),
{
    let mut end: usize = 0;
    let mut prefix: Vec<u8> = Vec::new();
    while end < bytes.len() && bytes[end] != 0
        invariant
            end <= bytes@.len(),
            prefix@ == bytes@.subrange(0, end as int),
            forall|k: int| 0 <= k < end ==> bytes@[k] != 0,
        decreases bytes@.len() - end,
    {
        prefix.push(bytes[end]);
        end = end + 1;
        assert(prefix@ =~= bytes@.subrange(0, end as int));
    }
    proof {
        lemma_c_string_end(bytes@, end as int);
    }
    decode_utf8_lossy(prefix.as_slice())
}

/// The first NUL lies at `end` when every earlier byte is non-zero and `end`
/// is the length or a zero byte.
proof fn lemma_c_string_end(bytes: Seq<u8>, end: int)
    requires
        0 <= end <= bytes.len(),
        forall|k: int| 0 <= k < end ==> bytes[k] != 0,
        end == bytes.len() || bytes[end] == 0,
    ensures
        c_string_end(bytes) == end,
    decreases bytes.len(),
{
    if bytes.len() > 0 && end > 0 {
        assert forall|k: int| 0 <= k < end - 1 implies bytes.drop_first()[k] != 0 by {
            assert(bytes.drop_first()[k] == bytes[k + 1]);
        }
        lemma_c_string_end(bytes.drop_first(), end - 1);
    }
}

/// Why a control-socket connection or request failed.
#[derive(Debug, Clone, PartialEq, Eq)]
pub enum SocketIpcError {
    /// No socket family belongs to the binder-trace driver.
    NotFound,
    /// A socket or ioctl system call failed, with the system's message.
    Io(String),
    /// The driver speaks another ABI version.
    AbiMismatch { expected: u32, actual: u32 },
    /// A receive returned a partial event.
    ShortRead { expected: usize, actual: usize },
}

/// The text an error is reported with.
pub open spec fn socket_error_text(e: SocketIpcError) -> Seq<char> {
    match e {
        SocketIpcError::NotFound => "未找到 binder-trace 控制协议族"@,
        SocketIpcError::Io(m) => "socket IPC 系统调用失败: "@ + m@,
        SocketIpcError::AbiMismatch { expected, actual } => "socket IPC ABI 不匹配: 期望 "@ + crate::text::decimal(
            expected as nat,
        ) + ", 实际 "@ + crate::text::decimal(actual as nat),
        SocketIpcError::ShortRead { expected, actual } => "socket IPC 事件读取长度错误: 期望 "@
            + crate::text::decimal(expected as nat) + ", 实际 "@ + crate::text::decimal(actual as nat),
    }
}

impl SocketIpcError {
    /// The text the error is reported with.
    pub fn message(&self) -> (r: String)
        ensures
            r@ == socket_error_text(*self),
    {
        let mut out: Vec<char> = Vec::new();
        match self {
            SocketIpcError::NotFound => {
                crate::text::append_str(&mut out, "未找到 binder-trace 控制协议族");
            },
            SocketIpcError::Io(m) => {
                crate::text::append_str(&mut out, "socket IPC 系统调用失败: ");
                crate::text::append_str(&mut out, m.as_str());
            },
            SocketIpcError::AbiMismatch { expected, actual } => {
                crate::text::append_str(&mut out, "socket IPC ABI 不匹配: 期望 ");
                let d = crate::text::decimal_chars(*expected as u64);
                crate::text::append_chars(&mut out, d.as_slice());
                crate::text::append_str(&mut out, ", 实际 ");
                let d = crate::text::decimal_chars(*actual as u64);
                crate::text::append_chars(&mut out, d.as_slice());
            },
            SocketIpcError::ShortRead { expected, actual } => {
                crate::text::append_str(&mut out, "socket IPC 事件读取长度错误: 期望 ");
                let d = crate::text::decimal_chars(*expected as u64);
                crate::text::append_chars(&mut out, d.as_slice());
                crate::text::append_str(&mut out, ", 实际 ");
                let d = crate::text::decimal_chars(*actual as u64);
                crate::text::append_chars(&mut out, d.as_slice());
            },
        }
        crate::text::string_from_chars(out.as_slice())
    }
}

/// What connecting does after asking one socket family for its feature block.
#[derive(Debug, Clone, PartialEq, Eq)]
pub enum ProbeStep {
    /// The family is not the driver's: try the next one.
    NextFamily,
    /// The family is the driver's and speaks this library's ABI.
    Connected,
    /// Connecting fails with this error.
    Fail(SocketIpcError),
}

/// The step after a feature request on a candidate family: families that
/// report another magic, or that reject the request as not theirs
/// (`not_theirs`, an `ENOTTY` system error), are skipped; the driver's
/// family connects when its ABI version matches and fails otherwise; any
/// other error ends the search.
pub open spec fn spec_probe_step(reply: Result<DriverFeature, SocketIpcError>, not_theirs: bool) -> ProbeStep {
    match reply {
        Ok(f) => if f.magic != BT_DRIVER_FEATURE_MAGIC {
            ProbeStep::NextFamily
        } else if f.abi_version == BT_ABI_VERSION {
            ProbeStep::Connected
        } else {
            ProbeStep::Fail(SocketIpcError::AbiMismatch { expected: BT_ABI_VERSION, actual: f.abi_version })
        },
        Err(e) => if e is Io && not_theirs {
            ProbeStep::NextFamily
        } else {
            ProbeStep::Fail(e)
        },
    }
}

/// Decides what connecting does with one family's feature reply.
pub fn probe_step(reply: Result<DriverFeature, SocketIpcError>, not_theirs: bool) -> (r: ProbeStep)
    ensures
        r == spec_probe_step(reply, not_theirs),
{
    match reply {
        Ok(f) => {
            if !f.is_binder_trace() {
                ProbeStep::NextFamily
            } else if f.abi_version == BT_ABI_VERSION {
                ProbeStep::Connected
            } else {
                ProbeStep::Fail(SocketIpcError::AbiMismatch { expected: BT_ABI_VERSION, actual: f.abi_version })
            }
        },
        Err(e) => {
            let is_io = match &e {
                SocketIpcError::Io(_) => true,
                _ => false,
            };
            if is_io && not_theirs {
                ProbeStep::NextFamily
            } else {
                ProbeStep::Fail(e)
            }
        },
    }
}

/// Checks that a receive filled a whole event.
pub fn check_received_len(expected: usize, actual: usize) -> (r: Result<(), SocketIpcError>)
    ensures
        r is Ok <==> actual == expected,
        r matches Err(e) ==> e == (SocketIpcError::ShortRead { expected, actual }),
{
    if actual != expected {
        Err(SocketIpcError::ShortRead { expected, actual })
    } else {
        Ok(())
    }
}

} // verus!
