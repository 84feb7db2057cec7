use vstd::prelude::*;

use crate::common::{BinderDevice, EventKind};
use crate::decoder::{DecodedEvent, DecodedTransaction};
use crate::text::{append_chars, append_str, decimal, decimal_chars, string_from_chars};

verus! {

/// The envelope fields of one JSONL message.
#[derive(Debug, Clone, Copy, PartialEq, Eq)]
pub struct EventEnvelope<'a> {
    pub device_id: &'a str,
    pub timestamp_ns: u64,
    pub object: &'a str,
}

/// The program name and version written at the start of a session.
#[derive(Debug, Clone, Copy, PartialEq, Eq)]
pub struct ProgramVersion<'a> {
    pub program: &'a str,
    pub version: &'a str,
}

/// Why a message could not be written.
#[derive(Debug, Clone, Copy, PartialEq, Eq, Structural)]
pub enum StorageError {
    /// The message sequence has reached `u64::MAX`.
    SequenceOverflow,
}

impl StorageError {
    /// The text the error is reported with.
    pub fn message(&self) -> (r: String)
        ensures
            r@ == "message sequence overflow"@,
    {
        let mut out: Vec<char> = Vec::new();
        crate::text::append_str(&mut out, "message sequence overflow");
        crate::text::string_from_chars(out.as_slice())
    }
}

/// A lowercase hexadecimal digit.
pub open spec fn hex_digit(n: nat) -> char {
    if n < 10 {
        ((n + 48) as u32) as char
    } else {
        ((n + 87) as u32) as char
    }
}

/// Two lowercase hexadecimal digits per byte.
pub open spec fn hex_bytes(bytes: Seq<u8>) -> Seq<char>
    decreases bytes.len(),
{
    if bytes.len() == 0 {
        Seq::empty()
    } else {
        seq![hex_digit((bytes[0] / 16) as nat), hex_digit((bytes[0] % 16) as nat)] + hex_bytes(
            bytes.drop_first(),
        )
    }
}

/// How JSON writes one character inside a string literal: quotes and
/// backslashes are escaped, control characters use their short escape or
/// `\u00XX`, and everything else stands as it is.
pub open spec fn json_escaped_char(c: char) -> Seq<char> {
    if c == '"' {
        seq!['\\', '"']
    } else if c == '\\' {
        seq!['\\', '\\']
    } else if c == '\n' {
        seq!['\\', 'n']
    } else if c == '\r' {
        seq!['\\', 'r']
    } else if c == '\t' {
        seq!['\\', 't']
    } else if c == '\x08' {
        seq!['\\', 'b']
    } else if c == '\x0c' {
        seq!['\\', 'f']
    } else if (c as u32) < 0x20 {
        seq!['\\', 'u', '0', '0'] + hex_bytes(seq![(c as u32) as u8])
    } else {
        seq![c]
    }
}

/// The escaped body of a JSON string.
pub open spec fn json_escaped(s: Seq<char>) -> Seq<char>
    decreases s.len(),
{
    if s.len() == 0 {
        Seq::empty()
    } else {
        json_escaped_char(s[0]) + json_escaped(s.drop_first())
    }
}

/// A JSON string literal.
pub open spec fn json_string(s: Seq<char>) -> Seq<char> {
    seq!['"'] + json_escaped(s) + seq!['"']
}

/// A JSON boolean.
pub open spec fn json_bool(b: bool) -> Seq<char> {
    if b {
        "true"@
    } else {
        "false"@
    }
}

/// The JSON object of a transaction, from its fields.
pub open spec fn transaction_json_of(
    code: u32,
    flags: u32,
    data_size: u64,
    offsets_size: u64,
    target_handle: u32,
    sender_pid: u32,
    sender_euid: u32,
    payload_truncated: bool,
    payload: Seq<u8>,
) -> Seq<char> {
    "{\"code\":"@ + decimal(code as nat) + ",\"flags\":"@ + decimal(flags as nat)
        + ",\"data_size\":"@ + decimal(data_size as nat) + ",\"offsets_size\":"@ + decimal(
        offsets_size as nat,
    ) + ",\"target_handle\":"@ + decimal(target_handle as nat) + ",\"sender_pid\":"@ + decimal(
        sender_pid as nat,
    ) + ",\"sender_euid\":"@ + decimal(sender_euid as nat) + ",\"payload_truncated\":"@
        + json_bool(payload_truncated) + ",\"payload_hex\":"@ + json_string(hex_bytes(payload))
        + "}"@
}

/// The JSON object of a decoded transaction.
pub open spec fn transaction_json(t: DecodedTransaction) -> Seq<char> {
    transaction_json_of(
        t.code,
        t.flags,
        t.data_size,
        t.offsets_size,
        t.target_handle,
        t.sender_pid,
        t.sender_euid,
        t.payload_truncated,
        t.payload@,
    )
}

/// The JSON object of an event, from its fields and the JSON of its
/// transaction (`null` when it has none).
pub open spec fn event_json_of(
    kind: Seq<char>,
    device: Seq<char>,
    pid: u32,
    tid: u32,
    uid: u32,
    flags: u32,
    sequence: u64,
    transaction: Option<Seq<char>>,
) -> Seq<char> {
    "{\"kind\":"@ + json_string(kind) + ",\"binder_device\":"@ + json_string(device)
        + ",\"process\":{\"pid\":"@ + decimal(pid as nat) + ",\"tid\":"@ + decimal(tid as nat)
        + ",\"uid\":"@ + decimal(uid as nat) + "},\"flags\":"@ + decimal(flags as nat)
        + ",\"sequence\":"@ + decimal(sequence as nat) + ",\"transaction\":"@ + match transaction {
        Some(t) => t,
        None => "null"@,
    } + "}"@
}

/// The JSON object of a decoded event.
pub open spec fn event_json(e: DecodedEvent) -> Seq<char> {
    event_json_of(
        e.kind.spec_name(),
        BinderDevice::spec_name(e.device.0),
        e.pid,
        e.tid,
        e.uid,
        e.flags,
        e.sequence,
        match e.transaction {
            Some(t) => Some(transaction_json(t)),
            None => None,
        },
    )
}

/// The JSON object of a program version.
pub open spec fn version_json(program: Seq<char>, version: Seq<char>) -> Seq<char> {
    "{\"program\":"@ + json_string(program) + ",\"version\":"@ + json_string(version) + "}"@
}

/// One JSONL message: the envelope with its sequence and the data, then a newline.
pub open spec fn json_line(
    device_id: Seq<char>,
    seq: u64,
    timestamp_ns: u64,
    object: Seq<char>,
    data: Seq<char>,
) -> Seq<char> {
    "{\"device_id\":"@ + json_string(device_id) + ",\"seq\":"@ + decimal(seq as nat)
        + ",\"timestamp_ns\":"@ + decimal(timestamp_ns as nat) + ",\"object\":"@ + json_string(object)
        + ",\"data\":"@ + data + "}\n"@
}

fn hex_digit_char(n: u8) -> (r: char)
    requires
        n < 16,
    ensures
        r == hex_digit(n as nat),
{
    if n < 10 {
        (n + 48) as char
    } else {
        (n + 87) as char
    }
}

/// Appends the lowercase hexadecimal form of bytes.
pub fn push_hex(out: &mut Vec<char>, bytes: &[u8])
    ensures
        final(out)@ == old(out)@ + hex_bytes(bytes@),
{
    let ghost start = out@;
    let mut i: usize = 0;
    assert(bytes@.skip(0) =~= bytes@);
    while i < bytes.len()
        invariant
            i <= bytes@.len(),
            out@ + hex_bytes(bytes@.skip(i as int)) == start + hex_bytes(bytes@),
        decreases bytes@.len() - i,
    {
        let ghost before = out@;
        let b = bytes[i];
        assert(bytes@.skip(i as int)[0] == b);
        assert(bytes@.skip(i as int).drop_first() =~= bytes@.skip(i + 1));
        out.push(hex_digit_char(b / 16));
        out.push(hex_digit_char(b % 16));
        assert(out@ =~= before + seq![hex_digit((b / 16) as nat), hex_digit((b % 16) as nat)]);
        i = i + 1;
    }
    assert(bytes@.skip(i as int) =~= Seq::<u8>::empty());
    assert(out@ + hex_bytes(Seq::<u8>::empty()) =~= out@);
}

/// The lowercase hexadecimal form of bytes, two digits per byte.
pub fn payload_hex(bytes: &[u8]) -> (r: String)
    ensures
        r@ == hex_bytes(bytes@),
{
    let mut out: Vec<char> = Vec::new();
    push_hex(&mut out, bytes);
    string_from_chars(out.as_slice())
}

fn push_escaped_char(out: &mut Vec<char>, c: char)
    ensures
        final(out)@ == old(out)@ + json_escaped_char(c),
{
    let ghost start = out@;
    if c == '"' {
        out.push('\\');
        out.push('"');
    } else if c == '\\' {
        out.push('\\');
        out.push('\\');
    } else if c == '\n' {
        out.push('\\');
        out.push('n');
    } else if c == '\r' {
        out.push('\\');
        out.push('r');
    } else if c == '\t' {
        out.push('\\');
        out.push('t');
    } else if c == '\x08' {
        out.push('\\');
        out.push('b');
    } else if c == '\x0c' {
        out.push('\\');
        out.push('f');
    } else if (c as u32) < 0x20 {
        out.push('\\');
        out.push('u');
        out.push('0');
        out.push('0');
        let b: [u8; 1] = [(c as u32) as u8];
        assert(b@ =~= seq![(c as u32) as u8]);
        push_hex(out, &b);
    } else {
        out.push(c);
    }
    assert(out@ =~= start + json_escaped_char(c));
}

/// Appends a JSON string literal.
pub fn push_json_string(out: &mut Vec<char>, s: &str)
    ensures
        final(out)@ == old(out)@ + json_string(s@),
{
    let ghost start = out@;
    let chars = crate::text::chars_of(s);
    out.push('"');
    let mut i: usize = 0;
    assert(chars@.skip(0) =~= chars@);
    while i < chars.len()
        invariant
            chars@ == s@,
            i <= chars@.len(),
            out@ + json_escaped(chars@.skip(i as int)) == start + seq!['"'] + json_escaped(s@),
        decreases chars@.len() - i,
    {
        let ghost before = out@;
        assert(chars@.skip(i as int)[0] == chars@[i as int]);
        assert(chars@.skip(i as int).drop_first() =~= chars@.skip(i + 1));
        push_escaped_char(out, chars[i]);
        assert(json_escaped(chars@.skip(i as int)) == json_escaped_char(chars@[i as int])
            + json_escaped(chars@.skip(i + 1)));
        assert(out@ + json_escaped(chars@.skip(i + 1)) =~= before + json_escaped(chars@.skip(i as int)));
        i = i + 1;
    }
    assert(chars@.skip(i as int) =~= Seq::<char>::empty());
    assert(out@ + json_escaped(Seq::<char>::empty()) =~= out@);
    out.push('"');
    assert(out@ =~= start + json_string(s@));
}

fn push_decimal_u64(out: &mut Vec<char>, n: u64)
    ensures
        final(out)@ == old(out)@ + decimal(n as nat),
{
    let digits = decimal_chars(n);
    append_chars(out, digits.as_slice());
}

/// The numeric fields of a transaction's JSON object, up to the sender's euid.
pub open spec fn transaction_numbers_json(t: DecodedTransaction) -> Seq<char> {
    "{\"code\":"@ + decimal(t.code as nat) + ",\"flags\":"@ + decimal(t.flags as nat) + ",\"data_size\":"@
        + decimal(t.data_size as nat) + ",\"offsets_size\":"@ + decimal(t.offsets_size as nat)
        + ",\"target_handle\":"@ + decimal(t.target_handle as nat) + ",\"sender_pid\":"@ + decimal(
        t.sender_pid as nat,
    ) + ",\"sender_euid\":"@ + decimal(t.sender_euid as nat)
}

fn push_transaction_numbers(out: &mut Vec<char>, t: &DecodedTransaction)
    ensures
        final(out)@ == old(out)@ + transaction_numbers_json(*t),
{
    let ghost start = out@;
    append_str(out, "{\"code\":");
    push_decimal_u64(out, t.code as u64);
    append_str(out, ",\"flags\":");
    push_decimal_u64(out, t.flags as u64);
    append_str(out, ",\"data_size\":");
    push_decimal_u64(out, t.data_size);
    append_str(out, ",\"offsets_size\":");
    push_decimal_u64(out, t.offsets_size);
    append_str(out, ",\"target_handle\":");
    push_decimal_u64(out, t.target_handle as u64);
    append_str(out, ",\"sender_pid\":");
    push_decimal_u64(out, t.sender_pid as u64);
    append_str(out, ",\"sender_euid\":");
    push_decimal_u64(out, t.sender_euid as u64);
    assert(out@ =~= start + transaction_numbers_json(*t));
}

fn push_transaction_json(out: &mut Vec<char>, t: &DecodedTransaction)
    ensures
        final(out)@ == old(out)@ + transaction_json(*t),
{
    let ghost start = out@;
    push_transaction_numbers(out, t);
    let ghost mid = out@;
    append_str(out, ",\"payload_truncated\":");
    if t.payload_truncated {
        append_str(out, "true");
    } else {
        append_str(out, "false");
    }
    append_str(out, ",\"payload_hex\":");
    out.push('"');
    push_hex(out, t.payload.as_slice());
    out.push('"');
    proof {
        lemma_hex_is_plain(t.payload@);
    }
    append_str(out, "}");
    assert(out@ =~= mid + ",\"payload_truncated\":"@ + json_bool(t.payload_truncated) + ",\"payload_hex\":"@
        + json_string(hex_bytes(t.payload@)) + "}"@);
    assert(transaction_json(*t) =~= transaction_numbers_json(*t) + ",\"payload_truncated\":"@ + json_bool(
        t.payload_truncated,
    ) + ",\"payload_hex\":"@ + json_string(hex_bytes(t.payload@)) + "}"@);
    assert(out@ =~= start + transaction_json(*t));
}

/// Hex digits need no escaping inside a JSON string.
pub proof fn lemma_hex_is_plain(bytes: Seq<u8>)
    ensures
        json_escaped(hex_bytes(bytes)) == hex_bytes(bytes),
        json_string(hex_bytes(bytes)) == seq!['"'] + hex_bytes(bytes) + seq!['"'],
    decreases bytes.len(),
{
    if bytes.len() > 0 {
        lemma_hex_is_plain(bytes.drop_first());
        let a = hex_digit((bytes[0] / 16) as nat);
        let b = hex_digit((bytes[0] % 16) as nat);
        let rest = hex_bytes(bytes.drop_first());
        lemma_escaped_concat(seq![a, b], rest);
        lemma_hex_digit_plain((bytes[0] / 16) as nat);
        lemma_hex_digit_plain((bytes[0] % 16) as nat);
        assert(json_escaped(seq![a, b]) == seq![a, b]) by {
            assert(seq![a, b].drop_first() =~= seq![b]);
            assert(seq![b].drop_first() =~= Seq::<char>::empty());
            assert(json_escaped(Seq::<char>::empty()) =~= Seq::<char>::empty());
            assert(seq![b][0] == b);
            assert(json_escaped(seq![b]) =~= seq![b]);
            assert(seq![a, b][0] == a);
            assert(json_escaped(seq![a, b]) =~= seq![a] + seq![b]);
        }
    } else {
        assert(hex_bytes(bytes) =~= Seq::<char>::empty());
    }
}

/// A hexadecimal digit stands for itself in a JSON string.
pub proof fn lemma_hex_digit_plain(n: nat)
    requires
        n < 16,
    ensures
        json_escaped_char(hex_digit(n)) == seq![hex_digit(n)],
{
    if n < 10 {
        assert(((n + 48) as u32) as char as u32 == n + 48);
    } else {
        assert(((n + 87) as u32) as char as u32 == n + 87);
    }
}

/// Escaping a concatenation escapes each part.
pub proof fn lemma_escaped_concat(a: Seq<char>, b: Seq<char>)
    ensures
        json_escaped(a + b) == json_escaped(a) + json_escaped(b),
    decreases a.len(),
{
    if a.len() == 0 {
        assert(a + b =~= b);
        assert(json_escaped(a) + json_escaped(b) =~= json_escaped(b));
    } else {
        assert((a + b).drop_first() =~= a.drop_first() + b);
        lemma_escaped_concat(a.drop_first(), b);
        assert(json_escaped(a + b) =~= json_escaped(a) + json_escaped(b));
    }
}

#[verifier::rlimit(40)]
fn push_event_json(out: &mut Vec<char>, e: &DecodedEvent)
    ensures
        final(out)@ == old(out)@ + event_json(*e),
{
    let ghost start = out@;
    append_str(out, "{\"kind\":");
    push_json_string(out, e.kind.name());
    append_str(out, ",\"binder_device\":");
    push_json_string(out, e.device.name());
    append_str(out, ",\"process\":{\"pid\":");
    push_decimal_u64(out, e.pid as u64);
    append_str(out, ",\"tid\":");
    push_decimal_u64(out, e.tid as u64);
    append_str(out, ",\"uid\":");
    push_decimal_u64(out, e.uid as u64);
    append_str(out, "},\"flags\":");
    push_decimal_u64(out, e.flags as u64);
    append_str(out, ",\"sequence\":");
    push_decimal_u64(out, e.sequence);
    append_str(out, ",\"transaction\":");
    match &e.transaction {
        Some(t) => push_transaction_json(out, t),
        None => append_str(out, "null"),
    }
    append_str(out, "}");
    assert(out@ =~= start + event_json(*e));
}

/// Writes JSONL messages, each with the next message sequence.
pub struct JsonlSink {
    next_sequence: u64,
    pending: Vec<char>,
}

fn push_version_json(out: &mut Vec<char>, program: &str, version: &str)
    ensures
        final(out)@ == old(out)@ + version_json(program@, version@),
{
    let ghost start = out@;
    append_str(out, "{\"program\":");
    push_json_string(out, program);
    append_str(out, ",\"version\":");
    push_json_string(out, version);
    append_str(out, "}");
    assert(out@ =~= start + version_json(program@, version@));
}

/// A message as written: device id, time, object name and the data's JSON.
pub type MessageText = (Seq<char>, u64, Seq<char>, Seq<char>);

/// Whether a sink went from `before` to `after` by writing one message: the
/// message's line with the sink's next sequence appended to what was written.
pub open spec fn wrote_message(before: JsonlSink, after: JsonlSink, m: MessageText) -> bool {
    &&& after.spec_next_sequence() == before.spec_next_sequence() + 1
    &&& after.spec_pending() == before.spec_pending() + json_line(m.0, before.spec_next_sequence(), m.1, m.2, m.3)
}

/// The lines of messages numbered from `first` on, in order.
pub open spec fn numbered_lines(first: int, messages: Seq<MessageText>) -> Seq<char>
    decreases messages.len(),
{
    if messages.len() == 0 {
        Seq::empty()
    } else {
        let m = messages.last();
        numbered_lines(first, messages.drop_last()) + json_line(
            m.0,
            (first + messages.len() - 1) as u64,
            m.1,
            m.2,
            m.3,
        )
    }
}

/// Messages written one after another carry consecutive sequence numbers
/// from the sink's next one, each line after the ones before; what was
/// written earlier stays as it was.
pub proof fn lemma_messages_numbered_in_order(sinks: Seq<JsonlSink>, messages: Seq<MessageText>)
    requires
        sinks.len() == messages.len() + 1,
        forall|i: int| 0 <= i < messages.len() ==> wrote_message(sinks[i], sinks[i + 1], #[trigger] messages[i]),
    ensures
        sinks.last().spec_next_sequence() == sinks[0].spec_next_sequence() + messages.len(),
        sinks.last().spec_pending() == sinks[0].spec_pending() + numbered_lines(
            sinks[0].spec_next_sequence() as int,
            messages,
        ),
    decreases messages.len(),
{
    if messages.len() == 0 {
        assert(sinks[0].spec_pending() + Seq::<char>::empty() =~= sinks[0].spec_pending());
    } else {
        let k = messages.len() - 1;
        let shorter = sinks.drop_last();
        assert forall|i: int| 0 <= i < messages.drop_last().len() implies wrote_message(
            shorter[i],
            shorter[i + 1],
            #[trigger] messages.drop_last()[i],
        ) by {
            assert(messages[i] == messages.drop_last()[i]);
            assert(wrote_message(sinks[i], sinks[i + 1], messages[i]));
        }
        lemma_messages_numbered_in_order(shorter, messages.drop_last());
        assert(wrote_message(sinks[k], sinks[k + 1], messages[k]));
        assert(shorter.last() == sinks[k]);
        assert(sinks.last() == sinks[k + 1]);
        assert(messages.last() == messages[k]);
        assert(sinks.last().spec_pending() =~= sinks[0].spec_pending() + numbered_lines(
            sinks[0].spec_next_sequence() as int,
            messages,
        ));
    }
}

impl JsonlSink {
    /// The sequence the next message gets.
    pub closed spec fn spec_next_sequence(&self) -> u64 {
        self.next_sequence
    }

    /// The text written and not yet flushed.
    pub closed spec fn spec_pending(&self) -> Seq<char> {
        self.pending@
    }

    /// A sink whose first message gets sequence 0.
    pub fn new() -> (r: JsonlSink)
        ensures
            r.spec_next_sequence() == 0,
            r.spec_pending() == Seq::<char>::empty(),
    {
        JsonlSink { next_sequence: 0, pending: Vec::new() }
    }

    /// The sequence the next message gets.
    pub fn next_sequence(&self) -> (r: u64)
        ensures
            r == self.spec_next_sequence(),
    {
        self.next_sequence
    }

    fn allocate_sequence(&mut self) -> (r: Result<u64, StorageError>)
        ensures
            old(self).spec_next_sequence() == u64::MAX ==> r == Err::<u64, StorageError>(
                StorageError::SequenceOverflow,
            ) && *final(self) == *old(self),
            old(self).spec_next_sequence() < u64::MAX ==> r == Ok::<u64, StorageError>(
                old(self).spec_next_sequence(),
            ) && final(self).spec_next_sequence() == old(self).spec_next_sequence() + 1
                && final(self).spec_pending() == old(self).spec_pending(),
    {
        if self.next_sequence == u64::MAX {
            return Err(StorageError::SequenceOverflow);
        }
        let sequence = self.next_sequence;
        self.next_sequence = self.next_sequence + 1;
        Ok(sequence)
    }

    fn begin_line(&mut self, envelope: EventEnvelope<'_>, sequence: u64)
        ensures
            final(self).spec_next_sequence() == old(self).spec_next_sequence(),
            final(self).spec_pending() == old(self).spec_pending() + "{\"device_id\":"@ + json_string(
                envelope.device_id@,
            ) + ",\"seq\":"@ + decimal(sequence as nat) + ",\"timestamp_ns\":"@ + decimal(
                envelope.timestamp_ns as nat,
            ) + ",\"object\":"@ + json_string(envelope.object@) + ",\"data\":"@,
    {
        let ghost start = self.pending@;
        append_str(&mut self.pending, "{\"device_id\":");
        push_json_string(&mut self.pending, envelope.device_id);
        append_str(&mut self.pending, ",\"seq\":");
        push_decimal_u64(&mut self.pending, sequence);
        append_str(&mut self.pending, ",\"timestamp_ns\":");
        push_decimal_u64(&mut self.pending, envelope.timestamp_ns);
        append_str(&mut self.pending, ",\"object\":");
        push_json_string(&mut self.pending, envelope.object);
        append_str(&mut self.pending, ",\"data\":");
        assert(self.pending@ =~= start + "{\"device_id\":"@ + json_string(envelope.device_id@)
            + ",\"seq\":"@ + decimal(sequence as nat) + ",\"timestamp_ns\":"@ + decimal(
            envelope.timestamp_ns as nat,
        ) + ",\"object\":"@ + json_string(envelope.object@) + ",\"data\":"@);
    }

    /// Writes a decoded event as one JSONL message with the next sequence.
    /// When the sequence is exhausted nothing is written and the sink is
    /// unchanged.
    #[verifier::rlimit(30)]
    pub fn write_event(&mut self, envelope: EventEnvelope<'_>, event: &DecodedEvent) -> (r: Result<(), StorageError>)
        ensures
            old(self).spec_next_sequence() == u64::MAX ==> r == Err::<(), StorageError>(
                StorageError::SequenceOverflow,
            ) && *final(self) == *old(self),
            old(self).spec_next_sequence() < u64::MAX ==> r is Ok && final(self).spec_next_sequence()
                == old(self).spec_next_sequence() + 1 && final(self).spec_pending()
                == old(self).spec_pending() + json_line(
                envelope.device_id@,
                old(self).spec_next_sequence(),
                envelope.timestamp_ns,
                envelope.object@,
                event_json(*event),
            ),
            old(self).spec_next_sequence() < u64::MAX ==> wrote_message(
                *old(self),
                *final(self),
                (envelope.device_id@, envelope.timestamp_ns, envelope.object@, event_json(*event)),
            ),
    {
        let sequence = match self.allocate_sequence() {
            Ok(sequence) => sequence,
            Err(error) => return Err(error),
        };
        let ghost start = self.pending@;
        self.begin_line(envelope, sequence);
        push_event_json(&mut self.pending, event);
        append_str(&mut self.pending, "}\n");
        assert(self.pending@ =~= start + json_line(
            envelope.device_id@,
            sequence,
            envelope.timestamp_ns,
            envelope.object@,
            event_json(*event),
        ));
        Ok(())
    }

    /// Writes the program name and version as one JSONL message with the
    /// next sequence.
    #[verifier::rlimit(30)]
    pub fn write_program_version(&mut self, envelope: EventEnvelope<'_>, version: ProgramVersion<'_>) -> (r: Result<(), StorageError>)
        ensures
            old(self).spec_next_sequence() == u64::MAX ==> r == Err::<(), StorageError>(
                StorageError::SequenceOverflow,
            ) && *final(self) == *old(self),
            old(self).spec_next_sequence() < u64::MAX ==> r is Ok && final(self).spec_next_sequence()
                == old(self).spec_next_sequence() + 1 && final(self).spec_pending()
                == old(self).spec_pending() + json_line(
                envelope.device_id@,
                old(self).spec_next_sequence(),
                envelope.timestamp_ns,
                envelope.object@,
                version_json(version.program@, version.version@),
            ),
            old(self).spec_next_sequence() < u64::MAX ==> wrote_message(
                *old(self),
                *final(self),
                (envelope.device_id@, envelope.timestamp_ns, envelope.object@, version_json(version.program@, version.version@)),
            ),
    {
        let sequence = match self.allocate_sequence() {
            Ok(sequence) => sequence,
            Err(error) => return Err(error),
        };
        let ghost start = self.pending@;
        self.begin_line(envelope, sequence);
        push_version_json(&mut self.pending, version.program, version.version);
        append_str(&mut self.pending, "}\n");
        assert(self.pending@ =~= start + json_line(
            envelope.device_id@,
            sequence,
            envelope.timestamp_ns,
            envelope.object@,
            version_json(version.program@, version.version@),
        ));
        Ok(())
    }

    /// Hands over the text written since the last flush, for the caller to
    /// write out, and keeps the sequence.
    pub fn flush(&mut self) -> (r: String)
        ensures
            r@ == old(self).spec_pending(),
            final(self).spec_pending() == Seq::<char>::empty(),
            final(self).spec_next_sequence() == old(self).spec_next_sequence(),
    {
        let text = string_from_chars(self.pending.as_slice());
        self.pending = Vec::new();
        text
    }
}

/// Text without a line break.
pub open spec fn single_line(s: Seq<char>) -> bool {
    forall|i: int| 0 <= i < s.len() ==> s[i] != '\n'
}

/// Joining two texts without line breaks gives one without line breaks.
pub broadcast proof fn lemma_concat_single_line(a: Seq<char>, b: Seq<char>)
    requires
        single_line(a),
        single_line(b),
    ensures
        #[trigger] single_line(a + b),
{
    assert forall|i: int| 0 <= i < (a + b).len() implies (a + b)[i] != '\n' by {
        if i < a.len() {
            assert((a + b)[i] == a[i]);
        } else {
            assert((a + b)[i] == b[i - a.len()]);
        }
    }
}

proof fn lemma_decimal_single_line(n: nat)
    ensures
        single_line(decimal(n)),
    decreases n,
{
    if n >= 10 {
        lemma_decimal_single_line(n / 10);
        let d = crate::text::digit_char(n % 10);
        assert(d as u32 == (n % 10) + 48);
        lemma_concat_single_line(decimal(n / 10), seq![d]);
        assert(decimal(n / 10).push(d) =~= decimal(n / 10) + seq![d]);
    } else {
        assert(crate::text::digit_char(n) as u32 == n + 48);
    }
}

proof fn lemma_hex_bytes_single_line(bytes: Seq<u8>)
    ensures
        single_line(hex_bytes(bytes)),
    decreases bytes.len(),
{
    if bytes.len() > 0 {
        lemma_hex_bytes_single_line(bytes.drop_first());
        let hi = hex_digit((bytes[0] / 16) as nat);
        let lo = hex_digit((bytes[0] % 16) as nat);
        assert(hi != '\n' && lo != '\n');
        lemma_concat_single_line(seq![hi, lo], hex_bytes(bytes.drop_first()));
    }
}

proof fn lemma_escaped_single_line(s: Seq<char>)
    ensures
        single_line(json_escaped(s)),
    decreases s.len(),
{
    if s.len() > 0 {
        lemma_escaped_single_line(s.drop_first());
        let c = s[0];
        if (c as u32) < 0x20 && c != '"' && c != '\\' && c != '\n' && c != '\r' && c != '\t' && c
            != '\x08' && c != '\x0c' {
            lemma_hex_bytes_single_line(seq![(c as u32) as u8]);
            lemma_concat_single_line(seq!['\\', 'u', '0', '0'], hex_bytes(seq![(c as u32) as u8]));
        }
        lemma_concat_single_line(json_escaped_char(c), json_escaped(s.drop_first()));
    }
}

proof fn lemma_json_string_single_line(s: Seq<char>)
    ensures
        single_line(json_string(s)),
{
    lemma_escaped_single_line(s);
    lemma_concat_single_line(seq!['"'], json_escaped(s));
    lemma_concat_single_line(seq!['"'] + json_escaped(s), seq!['"']);
}

proof fn lemma_transaction_json_single_line(t: DecodedTransaction)
    ensures
        single_line(transaction_json(t)),
{
    lemma_decimal_single_line(t.code as nat);
    lemma_decimal_single_line(t.flags as nat);
    lemma_decimal_single_line(t.data_size as nat);
    lemma_decimal_single_line(t.offsets_size as nat);
    lemma_decimal_single_line(t.target_handle as nat);
    lemma_decimal_single_line(t.sender_pid as nat);
    lemma_decimal_single_line(t.sender_euid as nat);
    lemma_json_string_single_line(hex_bytes(t.payload@));
    assert(single_line(json_bool(t.payload_truncated))) by {
        reveal_strlit("true");
        reveal_strlit("false");
    }
    assert(single_line("{\"code\":"@)) by {
        reveal_strlit("{\"code\":");
    }
    assert(single_line(",\"flags\":"@)) by {
        reveal_strlit(",\"flags\":");
    }
    assert(single_line(",\"data_size\":"@)) by {
        reveal_strlit(",\"data_size\":");
    }
    assert(single_line(",\"offsets_size\":"@)) by {
        reveal_strlit(",\"offsets_size\":");
    }
    assert(single_line(",\"target_handle\":"@)) by {
        reveal_strlit(",\"target_handle\":");
    }
    assert(single_line(",\"sender_pid\":"@)) by {
        reveal_strlit(",\"sender_pid\":");
    }
    assert(single_line(",\"sender_euid\":"@)) by {
        reveal_strlit(",\"sender_euid\":");
    }
    assert(single_line(",\"payload_truncated\":"@)) by {
        reveal_strlit(",\"payload_truncated\":");
    }
    assert(single_line(",\"payload_hex\":"@)) by {
        reveal_strlit(",\"payload_hex\":");
    }
    assert(single_line("}"@)) by {
        reveal_strlit("}");
    }
    lemma_concat_single_line("{\"code\":"@, decimal(t.code as nat));
    lemma_concat_single_line("{\"code\":"@ + decimal(t.code as nat), ",\"flags\":"@);
    lemma_concat_single_line("{\"code\":"@ + decimal(t.code as nat) + ",\"flags\":"@, decimal(t.flags as nat));
    lemma_concat_single_line("{\"code\":"@ + decimal(t.code as nat) + ",\"flags\":"@ + decimal(t.flags as nat), ",\"data_size\":"@);
    lemma_concat_single_line("{\"code\":"@ + decimal(t.code as nat) + ",\"flags\":"@ + decimal(t.flags as nat) + ",\"data_size\":"@, decimal(t.data_size as nat));
    lemma_concat_single_line("{\"code\":"@ + decimal(t.code as nat) + ",\"flags\":"@ + decimal(t.flags as nat) + ",\"data_size\":"@ + decimal(t.data_size as nat), ",\"offsets_size\":"@);
    lemma_concat_single_line("{\"code\":"@ + decimal(t.code as nat) + ",\"flags\":"@ + decimal(t.flags as nat) + ",\"data_size\":"@ + decimal(t.data_size as nat) + ",\"offsets_size\":"@, decimal(t.offsets_size as nat));
    lemma_concat_single_line("{\"code\":"@ + decimal(t.code as nat) + ",\"flags\":"@ + decimal(t.flags as nat) + ",\"data_size\":"@ + decimal(t.data_size as nat) + ",\"offsets_size\":"@ + decimal(t.offsets_size as nat), ",\"target_handle\":"@);
    lemma_concat_single_line("{\"code\":"@ + decimal(t.code as nat) + ",\"flags\":"@ + decimal(t.flags as nat) + ",\"data_size\":"@ + decimal(t.data_size as nat) + ",\"offsets_size\":"@ + decimal(t.offsets_size as nat) + ",\"target_handle\":"@, decimal(t.target_handle as nat));
    lemma_concat_single_line("{\"code\":"@ + decimal(t.code as nat) + ",\"flags\":"@ + decimal(t.flags as nat) + ",\"data_size\":"@ + decimal(t.data_size as nat) + ",\"offsets_size\":"@ + decimal(t.offsets_size as nat) + ",\"target_handle\":"@ + decimal(t.target_handle as nat), ",\"sender_pid\":"@);
    lemma_concat_single_line("{\"code\":"@ + decimal(t.code as nat) + ",\"flags\":"@ + decimal(t.flags as nat) + ",\"data_size\":"@ + decimal(t.data_size as nat) + ",\"offsets_size\":"@ + decimal(t.offsets_size as nat) + ",\"target_handle\":"@ + decimal(t.target_handle as nat) + ",\"sender_pid\":"@, decimal(t.sender_pid as nat));
    lemma_concat_single_line("{\"code\":"@ + decimal(t.code as nat) + ",\"flags\":"@ + decimal(t.flags as nat) + ",\"data_size\":"@ + decimal(t.data_size as nat) + ",\"offsets_size\":"@ + decimal(t.offsets_size as nat) + ",\"target_handle\":"@ + decimal(t.target_handle as nat) + ",\"sender_pid\":"@ + decimal(t.sender_pid as nat), ",\"sender_euid\":"@);
    lemma_concat_single_line("{\"code\":"@ + decimal(t.code as nat) + ",\"flags\":"@ + decimal(t.flags as nat) + ",\"data_size\":"@ + decimal(t.data_size as nat) + ",\"offsets_size\":"@ + decimal(t.offsets_size as nat) + ",\"target_handle\":"@ + decimal(t.target_handle as nat) + ",\"sender_pid\":"@ + decimal(t.sender_pid as nat) + ",\"sender_euid\":"@, decimal(t.sender_euid as nat));
    lemma_concat_single_line("{\"code\":"@ + decimal(t.code as nat) + ",\"flags\":"@ + decimal(t.flags as nat) + ",\"data_size\":"@ + decimal(t.data_size as nat) + ",\"offsets_size\":"@ + decimal(t.offsets_size as nat) + ",\"target_handle\":"@ + decimal(t.target_handle as nat) + ",\"sender_pid\":"@ + decimal(t.sender_pid as nat) + ",\"sender_euid\":"@ + decimal(t.sender_euid as nat), ",\"payload_truncated\":"@);
    lemma_concat_single_line("{\"code\":"@ + decimal(t.code as nat) + ",\"flags\":"@ + decimal(t.flags as nat) + ",\"data_size\":"@ + decimal(t.data_size as nat) + ",\"offsets_size\":"@ + decimal(t.offsets_size as nat) + ",\"target_handle\":"@ + decimal(t.target_handle as nat) + ",\"sender_pid\":"@ + decimal(t.sender_pid as nat) + ",\"sender_euid\":"@ + decimal(t.sender_euid as nat) + ",\"payload_truncated\":"@, json_bool(t.payload_truncated));
    lemma_concat_single_line("{\"code\":"@ + decimal(t.code as nat) + ",\"flags\":"@ + decimal(t.flags as nat) + ",\"data_size\":"@ + decimal(t.data_size as nat) + ",\"offsets_size\":"@ + decimal(t.offsets_size as nat) + ",\"target_handle\":"@ + decimal(t.target_handle as nat) + ",\"sender_pid\":"@ + decimal(t.sender_pid as nat) + ",\"sender_euid\":"@ + decimal(t.sender_euid as nat) + ",\"payload_truncated\":"@ + json_bool(t.payload_truncated), ",\"payload_hex\":"@);
    lemma_concat_single_line("{\"code\":"@ + decimal(t.code as nat) + ",\"flags\":"@ + decimal(t.flags as nat) + ",\"data_size\":"@ + decimal(t.data_size as nat) + ",\"offsets_size\":"@ + decimal(t.offsets_size as nat) + ",\"target_handle\":"@ + decimal(t.target_handle as nat) + ",\"sender_pid\":"@ + decimal(t.sender_pid as nat) + ",\"sender_euid\":"@ + decimal(t.sender_euid as nat) + ",\"payload_truncated\":"@ + json_bool(t.payload_truncated) + ",\"payload_hex\":"@, json_string(hex_bytes(t.payload@)));
    lemma_concat_single_line("{\"code\":"@ + decimal(t.code as nat) + ",\"flags\":"@ + decimal(t.flags as nat) + ",\"data_size\":"@ + decimal(t.data_size as nat) + ",\"offsets_size\":"@ + decimal(t.offsets_size as nat) + ",\"target_handle\":"@ + decimal(t.target_handle as nat) + ",\"sender_pid\":"@ + decimal(t.sender_pid as nat) + ",\"sender_euid\":"@ + decimal(t.sender_euid as nat) + ",\"payload_truncated\":"@ + json_bool(t.payload_truncated) + ",\"payload_hex\":"@ + json_string(hex_bytes(t.payload@)), "}"@);
}

proof fn lemma_event_json_of_single_line(
    kind: Seq<char>,
    device: Seq<char>,
    pid: u32,
    tid: u32,
    uid: u32,
    flags: u32,
    sequence: u64,
    transaction: Option<Seq<char>>,
)
    requires
        transaction matches Some(t) ==> single_line(t),
    ensures
        single_line(event_json_of(kind, device, pid, tid, uid, flags, sequence, transaction)),
{
    lemma_json_string_single_line(kind);
    lemma_json_string_single_line(device);
    lemma_decimal_single_line(pid as nat);
    lemma_decimal_single_line(tid as nat);
    lemma_decimal_single_line(uid as nat);
    lemma_decimal_single_line(flags as nat);
    lemma_decimal_single_line(sequence as nat);
    let middle = match transaction {
        Some(t) => t,
        None => "null"@,
    };
    assert(single_line(middle)) by {
        reveal_strlit("null");
    }
    assert(single_line("{\"kind\":"@)) by {
        reveal_strlit("{\"kind\":");
    }
    assert(single_line(",\"binder_device\":"@)) by {
        reveal_strlit(",\"binder_device\":");
    }
    assert(single_line(",\"process\":{\"pid\":"@)) by {
        reveal_strlit(",\"process\":{\"pid\":");
    }
    assert(single_line(",\"tid\":"@)) by {
        reveal_strlit(",\"tid\":");
    }
    assert(single_line(",\"uid\":"@)) by {
        reveal_strlit(",\"uid\":");
    }
    assert(single_line("},\"flags\":"@)) by {
        reveal_strlit("},\"flags\":");
    }
    assert(single_line(",\"sequence\":"@)) by {
        reveal_strlit(",\"sequence\":");
    }
    assert(single_line(",\"transaction\":"@)) by {
        reveal_strlit(",\"transaction\":");
    }
    assert(single_line("}"@)) by {
        reveal_strlit("}");
    }
    lemma_concat_single_line("{\"kind\":"@, json_string(kind));
    lemma_concat_single_line("{\"kind\":"@ + json_string(kind), ",\"binder_device\":"@);
    lemma_concat_single_line("{\"kind\":"@ + json_string(kind) + ",\"binder_device\":"@, json_string(device));
    lemma_concat_single_line("{\"kind\":"@ + json_string(kind) + ",\"binder_device\":"@ + json_string(device), ",\"process\":{\"pid\":"@);
    lemma_concat_single_line("{\"kind\":"@ + json_string(kind) + ",\"binder_device\":"@ + json_string(device) + ",\"process\":{\"pid\":"@, decimal(pid as nat));
    lemma_concat_single_line("{\"kind\":"@ + json_string(kind) + ",\"binder_device\":"@ + json_string(device) + ",\"process\":{\"pid\":"@ + decimal(pid as nat), ",\"tid\":"@);
    lemma_concat_single_line("{\"kind\":"@ + json_string(kind) + ",\"binder_device\":"@ + json_string(device) + ",\"process\":{\"pid\":"@ + decimal(pid as nat) + ",\"tid\":"@, decimal(tid as nat));
    lemma_concat_single_line("{\"kind\":"@ + json_string(kind) + ",\"binder_device\":"@ + json_string(device) + ",\"process\":{\"pid\":"@ + decimal(pid as nat) + ",\"tid\":"@ + decimal(tid as nat), ",\"uid\":"@);
    lemma_concat_single_line("{\"kind\":"@ + json_string(kind) + ",\"binder_device\":"@ + json_string(device) + ",\"process\":{\"pid\":"@ + decimal(pid as nat) + ",\"tid\":"@ + decimal(tid as nat) + ",\"uid\":"@, decimal(uid as nat));
    lemma_concat_single_line("{\"kind\":"@ + json_string(kind) + ",\"binder_device\":"@ + json_string(device) + ",\"process\":{\"pid\":"@ + decimal(pid as nat) + ",\"tid\":"@ + decimal(tid as nat) + ",\"uid\":"@ + decimal(uid as nat), "},\"flags\":"@);
    lemma_concat_single_line("{\"kind\":"@ + json_string(kind) + ",\"binder_device\":"@ + json_string(device) + ",\"process\":{\"pid\":"@ + decimal(pid as nat) + ",\"tid\":"@ + decimal(tid as nat) + ",\"uid\":"@ + decimal(uid as nat) + "},\"flags\":"@, decimal(flags as nat));
    lemma_concat_single_line("{\"kind\":"@ + json_string(kind) + ",\"binder_device\":"@ + json_string(device) + ",\"process\":{\"pid\":"@ + decimal(pid as nat) + ",\"tid\":"@ + decimal(tid as nat) + ",\"uid\":"@ + decimal(uid as nat) + "},\"flags\":"@ + decimal(flags as nat), ",\"sequence\":"@);
    lemma_concat_single_line("{\"kind\":"@ + json_string(kind) + ",\"binder_device\":"@ + json_string(device) + ",\"process\":{\"pid\":"@ + decimal(pid as nat) + ",\"tid\":"@ + decimal(tid as nat) + ",\"uid\":"@ + decimal(uid as nat) + "},\"flags\":"@ + decimal(flags as nat) + ",\"sequence\":"@, decimal(sequence as nat));
    lemma_concat_single_line("{\"kind\":"@ + json_string(kind) + ",\"binder_device\":"@ + json_string(device) + ",\"process\":{\"pid\":"@ + decimal(pid as nat) + ",\"tid\":"@ + decimal(tid as nat) + ",\"uid\":"@ + decimal(uid as nat) + "},\"flags\":"@ + decimal(flags as nat) + ",\"sequence\":"@ + decimal(sequence as nat), ",\"transaction\":"@);
    lemma_concat_single_line("{\"kind\":"@ + json_string(kind) + ",\"binder_device\":"@ + json_string(device) + ",\"process\":{\"pid\":"@ + decimal(pid as nat) + ",\"tid\":"@ + decimal(tid as nat) + ",\"uid\":"@ + decimal(uid as nat) + "},\"flags\":"@ + decimal(flags as nat) + ",\"sequence\":"@ + decimal(sequence as nat) + ",\"transaction\":"@, middle);
    lemma_concat_single_line("{\"kind\":"@ + json_string(kind) + ",\"binder_device\":"@ + json_string(device) + ",\"process\":{\"pid\":"@ + decimal(pid as nat) + ",\"tid\":"@ + decimal(tid as nat) + ",\"uid\":"@ + decimal(uid as nat) + "},\"flags\":"@ + decimal(flags as nat) + ",\"sequence\":"@ + decimal(sequence as nat) + ",\"transaction\":"@ + middle, "}"@);
}

/// Every JSON value this sink writes for an event stays on one line.
pub proof fn lemma_event_json_single_line(e: DecodedEvent)
    ensures
        single_line(event_json(e)),
{
    if let Some(t) = e.transaction {
        lemma_transaction_json_single_line(t);
    }
    lemma_event_json_of_single_line(
        e.kind.spec_name(),
        BinderDevice::spec_name(e.device.0),
        e.pid,
        e.tid,
        e.uid,
        e.flags,
        e.sequence,
        match e.transaction {
            Some(t) => Some(transaction_json(t)),
            None => None,
        },
    );
}

/// A JSONL message holds exactly one line break, at its end, whenever its
/// data holds none: each message the sink writes is one line.
pub proof fn lemma_json_line_is_one_line(
    device_id: Seq<char>,
    seq: u64,
    timestamp_ns: u64,
    object: Seq<char>,
    data: Seq<char>,
)
    requires
        single_line(data),
    ensures
        ({
            let line = json_line(device_id, seq, timestamp_ns, object, data);
            &&& line.len() > 0
            &&& line.last() == '\n'
            &&& single_line(line.drop_last())
        }),
{
    reveal_strlit("{\"device_id\":");
    reveal_strlit(",\"seq\":");
    reveal_strlit(",\"timestamp_ns\":");
    reveal_strlit(",\"object\":");
    reveal_strlit(",\"data\":");
    reveal_strlit("}\n");
    lemma_json_string_single_line(device_id);
    lemma_json_string_single_line(object);
    lemma_decimal_single_line(seq as nat);
    lemma_decimal_single_line(timestamp_ns as nat);
    broadcast use lemma_concat_single_line;

    let line = json_line(device_id, seq, timestamp_ns, object, data);
    let body = "{\"device_id\":"@ + json_string(device_id) + ",\"seq\":"@ + decimal(seq as nat)
        + ",\"timestamp_ns\":"@ + decimal(timestamp_ns as nat) + ",\"object\":"@ + json_string(object)
        + ",\"data\":"@ + data + seq!['}'];
    assert(single_line(body));
    assert(line =~= body.push('\n'));
    assert(line.drop_last() =~= body);
}

/// The version message's data stays on one line too.
pub proof fn lemma_version_json_single_line(program: Seq<char>, version: Seq<char>)
    ensures
        single_line(version_json(program, version)),
{
    reveal_strlit("{\"program\":");
    reveal_strlit(",\"version\":");
    reveal_strlit("}");
    lemma_json_string_single_line(program);
    lemma_json_string_single_line(version);
    broadcast use lemma_concat_single_line;

    assert(single_line(version_json(program, version)));
}

} // verus!
