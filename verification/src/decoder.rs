use vstd::prelude::*;

use crate::common::{BinderDevice, EventKind, RawBinderEvent, UnknownEventKind, MAX_INLINE_PAYLOAD};

verus! {

/// Decoder settings.
#[derive(Debug, Clone, Copy, PartialEq, Eq, Structural)]
pub struct DecoderConfig {
    /// How many payload bytes a decoded event keeps at most.
    pub max_payload_bytes: usize,
}

impl DecoderConfig {
    /// Keeps the whole inline payload.
    pub fn default_config() -> (r: DecoderConfig)
        ensures
            r.max_payload_bytes == MAX_INLINE_PAYLOAD,
    {
        DecoderConfig { max_payload_bytes: MAX_INLINE_PAYLOAD }
    }
}

/// Why a raw event could not be decoded.
#[derive(Debug, Clone, Copy, PartialEq, Eq, Structural)]
pub enum DecodeError {
    /// The raw kind is not one this version knows.
    UnknownEventKind(u16),
    /// The raw payload length exceeds the inline payload buffer.
    PayloadLengthOutOfRange(u32),
}

/// The text a decoding error is reported with.
pub open spec fn decode_error_text(e: DecodeError) -> Seq<char> {
    match e {
        DecodeError::UnknownEventKind(kind) => "unknown raw event kind: "@ + crate::text::decimal(kind as nat),
        DecodeError::PayloadLengthOutOfRange(len) => "raw payload length exceeds inline event payload: "@
            + crate::text::decimal(len as nat),
    }
}

impl DecodeError {
    /// The text the error is reported with.
    pub fn message(&self) -> (r: String)
        ensures
            r@ == decode_error_text(*self),
    {
        let mut out: Vec<char> = Vec::new();
        match self {
            DecodeError::UnknownEventKind(kind) => {
                crate::text::append_str(&mut out, "unknown raw event kind: ");
                let d = crate::text::decimal_chars(*kind as u64);
                crate::text::append_chars(&mut out, d.as_slice());
            },
            DecodeError::PayloadLengthOutOfRange(len) => {
                crate::text::append_str(&mut out, "raw payload length exceeds inline event payload: ");
                let d = crate::text::decimal_chars(*len as u64);
                crate::text::append_chars(&mut out, d.as_slice());
            },
        }
        crate::text::string_from_chars(out.as_slice())
    }

    /// The error an unknown raw kind becomes.
    pub fn from_unknown_kind(error: UnknownEventKind) -> (r: DecodeError)
        ensures
            r == DecodeError::UnknownEventKind(error.raw),
    {
        DecodeError::UnknownEventKind(error.raw())
    }
}

/// A decoded Binder transaction.
#[derive(Debug, Clone, PartialEq, Eq)]
pub struct DecodedTransaction {
    pub code: u32,
    pub flags: u32,
    pub data_size: u64,
    pub offsets_size: u64,
    pub target_handle: u32,
    pub sender_pid: u32,
    pub sender_euid: u32,
    /// Whether the payload was cut by the inline limit or by the decoder setting.
    pub payload_truncated: bool,
    /// The payload bytes that were kept.
    pub payload: Vec<u8>,
}

/// A decoded Binder event.
#[derive(Debug, Clone, PartialEq, Eq)]
pub struct DecodedEvent {
    pub kind: EventKind,
    pub device: BinderDevice,
    pub pid: u32,
    pub tid: u32,
    pub uid: u32,
    pub flags: u32,
    pub timestamp_ns: u64,
    pub sequence: u64,
    /// Transaction details; diagnostics have none.
    pub transaction: Option<DecodedTransaction>,
}

/// Raw Binder event decoder.
#[derive(Debug, Clone, Copy, PartialEq, Eq, Structural)]
pub struct Decoder {
    pub config: DecoderConfig,
}

/// `a` bounded above by `b`.
pub open spec fn min_int(a: int, b: int) -> int {
    if a <= b {
        a
    } else {
        b
    }
}

impl Decoder {
    /// How many payload bytes a decoded transaction keeps.
    pub open spec fn kept_len(self, raw: RawBinderEvent) -> int {
        min_int(raw.transaction.payload_len as int, self.config.max_payload_bytes as int)
    }

    /// The transaction a raw event decodes to, when its payload length fits.
    pub open spec fn spec_transaction(self, raw: RawBinderEvent, t: DecodedTransaction) -> bool {
        let kept = self.kept_len(raw);
        &&& t.code == raw.transaction.code
        &&& t.flags == raw.transaction.flags
        &&& t.data_size == raw.transaction.data_size
        &&& t.offsets_size == raw.transaction.offsets_size
        &&& t.target_handle == raw.transaction.target_handle
        &&& t.sender_pid == raw.transaction.sender_pid
        &&& t.sender_euid == raw.transaction.sender_euid
        &&& t.payload_truncated == (raw.transaction.payload_truncated != 0 || kept
            < raw.transaction.payload_len)
        &&& t.payload@ == raw.transaction.payload@.subrange(0, kept)
    }

    /// Creates a decoder with the given settings.
    pub fn new(config: DecoderConfig) -> (r: Decoder)
        ensures
            r.config == config,
    {
        Decoder { config }
    }

    /// A decoder that keeps the whole inline payload.
    pub fn default_decoder() -> (r: Decoder)
        ensures
            r.config.max_payload_bytes == MAX_INLINE_PAYLOAD,
    {
        Self::new(DecoderConfig::default_config())
    }

    /// Decodes one raw Binder event.
    ///
    /// Fails with `UnknownEventKind` when the raw kind is unknown, and with
    /// `PayloadLengthOutOfRange` when a non-diagnostic event declares more
    /// payload than the inline buffer holds.
    pub fn decode(&self, raw: &RawBinderEvent) -> (r: Result<DecodedEvent, DecodeError>)
        ensures
            match EventKind::spec_from_raw(raw.header.kind) {
                None => r == Err::<DecodedEvent, DecodeError>(
                    DecodeError::UnknownEventKind(raw.header.kind),
                ),
                Some(kind) => {
                    if kind != EventKind::Diagnostic && raw.transaction.payload_len > 256 {
                        r == Err::<DecodedEvent, DecodeError>(
                            DecodeError::PayloadLengthOutOfRange(raw.transaction.payload_len),
                        )
                    } else {
                        r matches Ok(event) && {
                            &&& event.kind == kind
                            &&& event.device.0 == raw.header.device
                            &&& event.pid == raw.header.pid
                            &&& event.tid == raw.header.tid
                            &&& event.uid == raw.header.uid
                            &&& event.flags == raw.header.flags
                            &&& event.timestamp_ns == raw.header.timestamp_ns
                            &&& event.sequence == raw.header.sequence
                            &&& (kind == EventKind::Diagnostic ==> event.transaction is None)
                            &&& (kind != EventKind::Diagnostic ==> (event.transaction matches Some(
                                t,
                            ) && self.spec_transaction(*raw, t)))
                        }
                    }
                },
            },
    {
        let kind = match EventKind::try_from_raw(raw.header.kind) {
            Ok(kind) => kind,
            Err(error) => return Err(DecodeError::from_unknown_kind(error)),
        };
        let transaction = match kind {
            EventKind::Diagnostic => None,
            _ => match self.decode_transaction(raw) {
                Ok(t) => Some(t),
                Err(e) => return Err(e),
            },
        };
        Ok(DecodedEvent {
            kind,
            device: BinderDevice::from_raw(raw.header.device),
            pid: raw.header.pid,
            tid: raw.header.tid,
            uid: raw.header.uid,
            flags: raw.header.flags,
            timestamp_ns: raw.header.timestamp_ns,
            sequence: raw.header.sequence,
            transaction,
        })
    }

    fn decode_transaction(&self, raw: &RawBinderEvent) -> (r: Result<DecodedTransaction, DecodeError>)
        ensures
            raw.transaction.payload_len > 256 ==> r == Err::<DecodedTransaction, DecodeError>(
                DecodeError::PayloadLengthOutOfRange(raw.transaction.payload_len),
            ),
            raw.transaction.payload_len <= 256 ==> (r matches Ok(t) && self.spec_transaction(
                *raw,
                t,
            )),
    {
        if raw.transaction.payload_len as usize > MAX_INLINE_PAYLOAD {
            return Err(DecodeError::PayloadLengthOutOfRange(raw.transaction.payload_len));
        }
        let declared = raw.transaction.payload_len as usize;
        let kept: usize = if declared <= self.config.max_payload_bytes {
            declared
        } else {
            self.config.max_payload_bytes
        };
        let mut payload: Vec<u8> = Vec::new();
        let mut i: usize = 0;
        while i < kept
            invariant
                kept <= 256,
                raw.transaction.payload@.len() == 256,
                i <= kept,
                payload@ == raw.transaction.payload@.subrange(0, i as int),
            decreases kept - i,
        {
            payload.push(raw.transaction.payload[i]);
            i = i + 1;
            assert(payload@ =~= raw.transaction.payload@.subrange(0, i as int));
        }
        Ok(DecodedTransaction {
            code: raw.transaction.code,
            flags: raw.transaction.flags,
            data_size: raw.transaction.data_size,
            offsets_size: raw.transaction.offsets_size,
            target_handle: raw.transaction.target_handle,
            sender_pid: raw.transaction.sender_pid,
            sender_euid: raw.transaction.sender_euid,
            payload_truncated: raw.transaction.payload_truncated != 0 || kept < declared,
            payload,
        })
    }
}

} // verus!
