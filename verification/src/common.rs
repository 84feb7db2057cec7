use vstd::prelude::*;

verus! {

/// Number of payload bytes an event carries inline.
pub const MAX_INLINE_PAYLOAD: usize = 256;

/// Binder device number.
#[derive(Debug, Clone, Copy, PartialEq, Eq, Structural)]
pub struct BinderDevice(pub u16);

impl BinderDevice {
    /// `/dev/binder`.
    pub fn binder() -> (r: BinderDevice)
        ensures
            r.0 == 0,
    {
        BinderDevice(0)
    }

    /// `/dev/hwbinder`.
    pub fn hwbinder() -> (r: BinderDevice)
        ensures
            r.0 == 1,
    {
        BinderDevice(1)
    }

    /// `/dev/vndbinder`.
    pub fn vndbinder() -> (r: BinderDevice)
        ensures
            r.0 == 2,
    {
        BinderDevice(2)
    }

    /// A device under a binderfs mount.
    pub fn binderfs() -> (r: BinderDevice)
        ensures
            r.0 == 3,
    {
        BinderDevice(3)
    }

    /// Unknown or not yet resolved device.
    pub fn unknown() -> (r: BinderDevice)
        ensures
            r.0 == 0xffff,
    {
        BinderDevice(0xffff)
    }

    /// The stable output name of a raw device number.
    pub open spec fn spec_name(raw: u16) -> Seq<char> {
        if raw == 0 {
            "binder"@
        } else if raw == 1 {
            "hwbinder"@
        } else if raw == 2 {
            "vndbinder"@
        } else if raw == 3 {
            "binderfs"@
        } else if raw == 0xffff {
            "unknown"@
        } else {
            "custom"@
        }
    }

    /// Returns the raw device number.
    pub fn as_raw(self) -> (r: u16)
        ensures
            r == self.0,
    {
        self.0
    }

    /// Returns the device name used in output.
    pub fn name(self) -> (r: &'static str)
        ensures
            r@ == Self::spec_name(self.0),
    {
        match self.0 {
            0 => "binder",
            1 => "hwbinder",
            2 => "vndbinder",
            3 => "binderfs",
            0xffff => "unknown",
            _ => "custom",
        }
    }

    /// Each known raw device number has its own name: 0 is `binder`, 1
    /// `hwbinder`, 2 `vndbinder`, 3 `binderfs` and 0xffff `unknown`; two
    /// different known numbers never share a name.
    pub proof fn lemma_device_names(a: u16, b: u16)
        ensures
            Self::spec_name(0) == "binder"@,
            Self::spec_name(1) == "hwbinder"@,
            Self::spec_name(2) == "vndbinder"@,
            Self::spec_name(3) == "binderfs"@,
            Self::spec_name(0xffff) == "unknown"@,
            (a <= 3 || a == 0xffff) && (b <= 3 || b == 0xffff) && a != b ==> Self::spec_name(a) != Self::spec_name(b),
    {
        reveal_strlit("binder");
        reveal_strlit("hwbinder");
        reveal_strlit("vndbinder");
        reveal_strlit("binderfs");
        reveal_strlit("unknown");
        if (a <= 3 || a == 0xffff) && (b <= 3 || b == 0xffff) && a != b && Self::spec_name(a).len() == Self::spec_name(
            b,
        ).len() {
            assert(Self::spec_name(a)[0] != Self::spec_name(b)[0] || Self::spec_name(a)[6] != Self::spec_name(b)[6]);
        }
    }

    /// Wraps a raw device number.
    pub fn from_raw(value: u16) -> (r: BinderDevice)
        ensures
            r.0 == value,
    {
        BinderDevice(value)
    }
}

/// A raw event kind that maps to no known [`EventKind`].
#[derive(Debug, Clone, Copy, PartialEq, Eq, Structural)]
pub struct UnknownEventKind {
    pub raw: u16,
}

impl UnknownEventKind {
    /// Returns the original kind number.
    pub fn raw(self) -> (r: u16)
        ensures
            r == self.raw,
    {
        self.raw
    }
}

/// Raw Binder event kind.
#[derive(Debug, Clone, Copy, PartialEq, Eq, Structural)]
pub enum EventKind {
    Diagnostic,
    IoctlEnter,
    IoctlExit,
    Transaction,
    Reply,
}

impl EventKind {
    /// The number written into a raw event for a kind.
    pub open spec fn spec_raw(self) -> u16 {
        match self {
            EventKind::Diagnostic => 0,
            EventKind::IoctlEnter => 1,
            EventKind::IoctlExit => 2,
            EventKind::Transaction => 3,
            EventKind::Reply => 4,
        }
    }

    /// The stable short name of a kind.
    pub open spec fn spec_name(self) -> Seq<char> {
        match self {
            EventKind::Diagnostic => "diagnostic"@,
            EventKind::IoctlEnter => "ioctl_enter"@,
            EventKind::IoctlExit => "ioctl_exit"@,
            EventKind::Transaction => "transaction"@,
            EventKind::Reply => "reply"@,
        }
    }

    /// The kind a raw number denotes, if any.
    pub open spec fn spec_from_raw(raw: u16) -> Option<EventKind> {
        if raw == 0 {
            Some(EventKind::Diagnostic)
        } else if raw == 1 {
            Some(EventKind::IoctlEnter)
        } else if raw == 2 {
            Some(EventKind::IoctlExit)
        } else if raw == 3 {
            Some(EventKind::Transaction)
        } else if raw == 4 {
            Some(EventKind::Reply)
        } else {
            None
        }
    }

    /// Kinds are numbered Diagnostic 0, IoctlEnter 1, IoctlExit 2,
    /// Transaction 3 and Reply 4, named `diagnostic`, `ioctl_enter`,
    /// `ioctl_exit`, `transaction` and `reply`; reading a number back gives
    /// the kind written, only 0..=4 name a kind, and no two kinds share a
    /// name.
    pub proof fn lemma_kind_numbers_and_names(k: EventKind, other: EventKind, raw: u16)
        ensures
            EventKind::Diagnostic.spec_raw() == 0 && EventKind::IoctlEnter.spec_raw() == 1
                && EventKind::IoctlExit.spec_raw() == 2 && EventKind::Transaction.spec_raw() == 3
                && EventKind::Reply.spec_raw() == 4,
            EventKind::Diagnostic.spec_name() == "diagnostic"@,
            EventKind::IoctlEnter.spec_name() == "ioctl_enter"@,
            EventKind::IoctlExit.spec_name() == "ioctl_exit"@,
            EventKind::Transaction.spec_name() == "transaction"@,
            EventKind::Reply.spec_name() == "reply"@,
            Self::spec_from_raw(k.spec_raw()) == Some(k),
            Self::spec_from_raw(raw) is Some <==> raw <= 4,
            Self::spec_from_raw(raw) matches Some(found) ==> found.spec_raw() == raw,
            k != other ==> k.spec_name() != other.spec_name(),
    {
        reveal_strlit("diagnostic");
        reveal_strlit("ioctl_enter");
        reveal_strlit("ioctl_exit");
        reveal_strlit("transaction");
        reveal_strlit("reply");
        if k != other && k.spec_name().len() == other.spec_name().len() {
            assert(k.spec_name()[0] != other.spec_name()[0] || k.spec_name()[6] != other.spec_name()[6]);
        }
    }

    /// Returns the number written into a raw event.
    pub fn as_raw(self) -> (r: u16)
        ensures
            r == self.spec_raw(),
    {
        match self {
            EventKind::Diagnostic => 0,
            EventKind::IoctlEnter => 1,
            EventKind::IoctlExit => 2,
            EventKind::Transaction => 3,
            EventKind::Reply => 4,
        }
    }

    /// Returns the stable short name used in logs and JSON.
    pub fn name(self) -> (r: &'static str)
        ensures
            r@ == self.spec_name(),
    {
        match self {
            EventKind::Diagnostic => "diagnostic",
            EventKind::IoctlEnter => "ioctl_enter",
            EventKind::IoctlExit => "ioctl_exit",
            EventKind::Transaction => "transaction",
            EventKind::Reply => "reply",
        }
    }

    /// Maps a raw number to a kind; unknown numbers are reported back.
    pub fn try_from_raw(value: u16) -> (r: Result<EventKind, UnknownEventKind>)
        ensures
            match Self::spec_from_raw(value) {
                Some(kind) => r == Ok::<EventKind, UnknownEventKind>(kind),
                None => r == Err::<EventKind, UnknownEventKind>(UnknownEventKind { raw: value }),
            },
    {
        match value {
            0 => Ok(EventKind::Diagnostic),
            1 => Ok(EventKind::IoctlEnter),
            2 => Ok(EventKind::IoctlExit),
            3 => Ok(EventKind::Transaction),
            4 => Ok(EventKind::Reply),
            raw => Err(UnknownEventKind { raw }),
        }
    }
}

/// Header shared by every raw Binder event.
#[derive(Debug, Clone, Copy, PartialEq, Eq, Structural)]
pub struct RawEventHeader {
    pub kind: u16,
    pub device: u16,
    pub pid: u32,
    pub tid: u32,
    pub uid: u32,
    pub flags: u32,
    pub timestamp_ns: u64,
    pub sequence: u64,
}

impl RawEventHeader {
    /// A header of the given kind and device with every other field zero.
    pub fn new(kind: EventKind, device: BinderDevice) -> (r: RawEventHeader)
        ensures
            r == (RawEventHeader {
                kind: kind.spec_raw(),
                device: device.0,
                pid: 0,
                tid: 0,
                uid: 0,
                flags: 0,
                timestamp_ns: 0,
                sequence: 0,
            }),
    {
        RawEventHeader {
            kind: kind.as_raw(),
            device: device.as_raw(),
            pid: 0,
            tid: 0,
            uid: 0,
            flags: 0,
            timestamp_ns: 0,
            sequence: 0,
        }
    }
}

/// Raw Binder transaction data.
#[derive(Debug, Clone, Copy)]
pub struct RawTransaction {
    pub code: u32,
    pub flags: u32,
    pub data_size: u64,
    pub offsets_size: u64,
    pub target_handle: u32,
    pub sender_pid: u32,
    pub sender_euid: u32,
    pub payload_len: u32,
    pub payload_truncated: u8,
    pub reserved: [u8; 7],
    pub payload: [u8; 256],
}

impl RawTransaction {
    /// Whether every field of a transaction is zero.
    pub open spec fn is_zeroed(self) -> bool {
        &&& self.code == 0
        &&& self.flags == 0
        &&& self.data_size == 0
        &&& self.offsets_size == 0
        &&& self.target_handle == 0
        &&& self.sender_pid == 0
        &&& self.sender_euid == 0
        &&& self.payload_len == 0
        &&& self.payload_truncated == 0
        &&& self.reserved@ == Seq::new(7, |i: int| 0u8)
        &&& self.payload@ == Seq::new(256, |i: int| 0u8)
    }

    /// A transaction with every field zero.
    pub fn empty() -> (r: RawTransaction)
        ensures
            r.is_zeroed(),
    {
        let r = RawTransaction {
            code: 0,
            flags: 0,
            data_size: 0,
            offsets_size: 0,
            target_handle: 0,
            sender_pid: 0,
            sender_euid: 0,
            payload_len: 0,
            payload_truncated: 0,
            reserved: [0u8; 7],
            payload: [0u8; 256],
        };
        assert(r.reserved@ =~= Seq::new(7, |i: int| 0u8));
        assert(r.payload@ =~= Seq::new(256, |i: int| 0u8));
        r
    }
}

/// A raw Binder event.
#[derive(Debug, Clone, Copy)]
pub struct RawBinderEvent {
    pub header: RawEventHeader,
    pub transaction: RawTransaction,
}

impl RawBinderEvent {
    /// An event of the given kind and device with every other field zero.
    pub fn new(kind: EventKind, device: BinderDevice) -> (r: RawBinderEvent)
        ensures
            r.header == (RawEventHeader {
                kind: kind.spec_raw(),
                device: device.0,
                pid: 0,
                tid: 0,
                uid: 0,
                flags: 0,
                timestamp_ns: 0,
                sequence: 0,
            }),
            r.transaction.is_zeroed(),
    {
        RawBinderEvent { header: RawEventHeader::new(kind, device), transaction: RawTransaction::empty() }
    }

    /// The default event: a diagnostic on an unknown device.
    pub fn default_event() -> (r: RawBinderEvent)
        ensures
            r.header.kind == 0,
            r.header.device == 0xffff,
            r.header.pid == 0 && r.header.tid == 0 && r.header.uid == 0,
            r.header.flags == 0 && r.header.timestamp_ns == 0 && r.header.sequence == 0,
            r.transaction.is_zeroed(),
    {
        Self::new(EventKind::Diagnostic, BinderDevice::unknown())
    }
}

} // verus!
