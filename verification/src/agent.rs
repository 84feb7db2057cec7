use vstd::prelude::*;

use crate::common::{BinderDevice, EventKind, RawBinderEvent};
use crate::decoder::{DecodeError, DecodedEvent, Decoder, min_int};
use crate::socket_ipc::{BT_EVENT_KIND_BINDER_TRANSACTION, BinderEvent};
use crate::storage::{
    EventEnvelope, JsonlSink, ProgramVersion, StorageError, event_json, event_json_of, json_line,
    transaction_json_of, version_json,
};
use crate::text::{decimal, trim_text, trimmed};

verus! {

/// How many socket events one batch handles at most.
pub const MAX_EVENTS_PER_BATCH: usize = 512;

/// Where the agent writes its JSONL messages.
#[derive(Debug, Clone, PartialEq, Eq)]
pub enum OutputConfig {
    /// Standard output.
    Stdout,
    /// A file at this path, replaced if it exists.
    JsonlFile(String),
}

/// Everything the agent needs to run.
#[derive(Debug, Clone, PartialEq, Eq)]
pub struct AgentConfig {
    /// Where messages go.
    pub output: OutputConfig,
    /// A device identifier that overrides the one found on the device.
    pub device_id: Option<String>,
}

impl Default for AgentConfig {
    fn default() -> (r: AgentConfig)
        ensures
            r.output == OutputConfig::Stdout,
            r.device_id is None,
    {
        AgentConfig { output: OutputConfig::Stdout, device_id: None }
    }
}

/// Why the agent stopped.
#[derive(Debug, Clone, Copy, PartialEq, Eq, Structural)]
pub enum AgentError {
    /// A raw event could not be decoded.
    Decode(DecodeError),
    /// The kernel module offers no event stream.
    EventStreamUnsupported,
    /// A message could not be written.
    Storage(StorageError),
}

/// The text an agent error is reported with.
pub open spec fn agent_error_text(e: AgentError) -> Seq<char> {
    match e {
        AgentError::Decode(d) => "failed to decode event: "@ + crate::decoder::decode_error_text(d),
        AgentError::EventStreamUnsupported => "binder-trace kernel module does not support the socket event stream"@,
        AgentError::Storage(_) => "failed to persist event: message sequence overflow"@,
    }
}

impl AgentError {
    /// The text the error is reported with.
    pub fn message(&self) -> (r: String)
        ensures
            r@ == agent_error_text(*self),
    {
        let mut out: Vec<char> = Vec::new();
        match self {
            AgentError::Decode(d) => {
                crate::text::append_str(&mut out, "failed to decode event: ");
                let m = d.message();
                crate::text::append_str(&mut out, m.as_str());
            },
            AgentError::EventStreamUnsupported => {
                crate::text::append_str(&mut out, "binder-trace kernel module does not support the socket event stream");
            },
            AgentError::Storage(e) => {
                crate::text::append_str(&mut out, "failed to persist event: ");
                let m = e.message();
                crate::text::append_str(&mut out, m.as_str());
                proof {
                    reveal_strlit("failed to persist event: ");
                    reveal_strlit("message sequence overflow");
                    reveal_strlit("failed to persist event: message sequence overflow");
                }
            },
        }
        crate::text::string_from_chars(out.as_slice())
    }
}

/// The diagnostic event the agent writes when it starts.
pub fn startup_event(pid: u32, timestamp_ns: u64) -> (r: RawBinderEvent)
    ensures
        r.header.kind == EventKind::Diagnostic.spec_raw(),
        r.header.device == 0xffff,
        r.header.pid == pid,
        r.header.tid == 0,
        r.header.uid == 0,
        r.header.flags == 0,
        r.header.timestamp_ns == timestamp_ns,
        r.header.sequence == 0,
{
    let mut event = RawBinderEvent::new(EventKind::Diagnostic, BinderDevice::unknown());
    event.header.pid = pid;
    event.header.timestamp_ns = timestamp_ns;
    event
}

/// The first source that names a device after trimming, trimmed; `unknown`
/// when none does.
pub open spec fn spec_device_id(sources: Seq<Option<String>>) -> Seq<char>
    decreases sources.len(),
{
    if sources.len() == 0 {
        "unknown"@
    } else {
        match sources[0] {
            Some(value) => if trimmed(value@).len() > 0 {
                trimmed(value@)
            } else {
                spec_device_id(sources.drop_first())
            },
            None => spec_device_id(sources.drop_first()),
        }
    }
}

/// Picks the device identifier from sources in order of priority (the
/// configured value, the environment, the serial number properties, the
/// boot id).
pub fn resolve_device_id(sources: &[Option<String>]) -> (r: String)
    ensures
        r@ == spec_device_id(sources@),
{
    let mut i: usize = 0;
    assert(sources@.skip(0) =~= sources@);
    while i < sources.len()
        invariant
            i <= sources@.len(),
            spec_device_id(sources@) == spec_device_id(sources@.skip(i as int)),
        decreases sources@.len() - i,
    {
        assert(sources@.skip(i as int)[0] == sources@[i as int]);
        assert(sources@.skip(i as int).drop_first() =~= sources@.skip(i + 1));
        match &sources[i] {
            Some(value) => {
                let t = trim_text(value.as_str());
                if !t.is_empty() {
                    return t.to_owned();
                }
            },
            None => {},
        }
        i = i + 1;
    }
    "unknown".to_owned()
}

/// The object name of a socket event's message.
pub open spec fn event_object(event: BinderEvent) -> Seq<char> {
    if event.spec_is_reply() {
        "binder.reply"@
    } else {
        "binder.transaction"@
    }
}

/// The JSON of a socket transaction event once decoded: a reply or a
/// transaction on an unknown device, the thread group as the process, the
/// payload cut to what the decoder keeps.
pub open spec fn socket_event_json(decoder: Decoder, event: BinderEvent) -> Seq<char> {
    let kept = min_int(event.payload_len as int, decoder.config.max_payload_bytes as int);
    event_json_of(
        if event.spec_is_reply() {
            "reply"@
        } else {
            "transaction"@
        },
        "unknown"@,
        event.tgid,
        event.pid,
        event.uid,
        0,
        event.sequence,
        Some(
            transaction_json_of(
                event.code,
                event.flags,
                event.data_size,
                event.offsets_size,
                event.target_handle,
                event.sender_pid,
                event.sender_euid,
                event.payload_truncated != 0 || kept < event.payload_len,
                event.payload@.subrange(0, kept),
            ),
        ),
    )
}

/// What a batch of socket events does to a sink: the text it adds, how many
/// messages it writes, the sequence after it and the error that stops it.
/// Events of other socket kinds are skipped; a transaction whose payload
/// length exceeds the inline buffer stops the batch with a decode error; an
/// exhausted sequence stops it with a storage error.
pub open spec fn batch_outcome(
    decoder: Decoder,
    device_id: Seq<char>,
    events: Seq<BinderEvent>,
    next_sequence: u64,
) -> (Seq<char>, nat, u64, Option<AgentError>)
    decreases events.len(),
{
    if events.len() == 0 {
        (Seq::empty(), 0, next_sequence, None)
    } else {
        let event = events[0];
        if event.kind != BT_EVENT_KIND_BINDER_TRANSACTION {
            batch_outcome(decoder, device_id, events.drop_first(), next_sequence)
        } else if event.payload_len > 256 {
            (
                Seq::empty(),
                0,
                next_sequence,
                Some(AgentError::Decode(DecodeError::PayloadLengthOutOfRange(event.payload_len))),
            )
        } else if next_sequence == u64::MAX {
            (Seq::empty(), 0, next_sequence, Some(AgentError::Storage(StorageError::SequenceOverflow)))
        } else {
            let line = json_line(
                device_id,
                next_sequence,
                event.timestamp_ns,
                event_object(event),
                socket_event_json(decoder, event),
            );
            let rest = batch_outcome(decoder, device_id, events.drop_first(), (next_sequence + 1) as u64);
            (line + rest.0, rest.1 + 1, rest.2, rest.3)
        }
    }
}

/// The events one batch looks at: the first `MAX_EVENTS_PER_BATCH`.
pub open spec fn batch_window(events: Seq<BinderEvent>) -> Seq<BinderEvent> {
    if events.len() <= 512 {
        events
    } else {
        events.take(512)
    }
}

/// Turns received socket events into JSONL messages.
pub struct EventCollector<'a> {
    pub decoder: &'a Decoder,
    pub device_id: &'a str,
}

impl<'a> EventCollector<'a> {
    /// A collector that decodes with `decoder` and stamps `device_id`.
    pub fn new(decoder: &'a Decoder, device_id: &'a str) -> (r: EventCollector<'a>)
        ensures
            r.decoder == decoder,
            r.device_id == device_id,
    {
        EventCollector { decoder, device_id }
    }

    proof fn lemma_event_json(
        decoder: Decoder,
        event: BinderEvent,
        raw: RawBinderEvent,
        decoded: DecodedEvent,
    )
        requires
            event.kind == BT_EVENT_KIND_BINDER_TRANSACTION,
            event.payload_len <= 256,
            event.spec_raw_event_ok(raw),
            decoded.kind == (if event.spec_is_reply() {
                EventKind::Reply
            } else {
                EventKind::Transaction
            }),
            decoded.device.0 == raw.header.device,
            decoded.pid == raw.header.pid,
            decoded.tid == raw.header.tid,
            decoded.uid == raw.header.uid,
            decoded.flags == raw.header.flags,
            decoded.sequence == raw.header.sequence,
            decoded.transaction matches Some(t) && decoder.spec_transaction(raw, t),
        ensures
            event_json(decoded) == socket_event_json(decoder, event),
    {
        let t = decoded.transaction->Some_0;
        assert(t.payload@ =~= event.payload@.subrange(
            0,
            min_int(event.payload_len as int, decoder.config.max_payload_bytes as int),
        ));
        assert(EventKind::Reply.spec_name() == "reply"@);
        assert(BinderDevice::spec_name(0xffff) == "unknown"@);
        assert(event_json(decoded) =~= socket_event_json(decoder, event));
    }

    /// Writes one message per socket transaction event of the batch (at most
    /// `MAX_EVENTS_PER_BATCH` events are looked at) and says how many it
    /// wrote. Events of other socket kinds are skipped. The first decode or
    /// storage error stops the batch; what was written before it stays in
    /// the sink.
    pub fn collect_batch(&self, events: &[BinderEvent], sink: &mut JsonlSink) -> (r: Result<usize, AgentError>)
        ensures
            ({
                let outcome = batch_outcome(
                    *self.decoder,
                    self.device_id@,
                    batch_window(events@),
                    old(sink).spec_next_sequence(),
                );
                &&& final(sink).spec_pending() == old(sink).spec_pending() + outcome.0
                &&& final(sink).spec_next_sequence() == outcome.2
                &&& match outcome.3 {
                    None => r == Ok::<usize, AgentError>(outcome.1 as usize),
                    Some(error) => r == Err::<usize, AgentError>(error),
                }
            }),
    {
        let limit: usize = if events.len() <= MAX_EVENTS_PER_BATCH {
            events.len()
        } else {
            MAX_EVENTS_PER_BATCH
        };
        let ghost window = batch_window(events@);
        let ghost start_pending = sink.spec_pending();
        let ghost start_sequence = sink.spec_next_sequence();
        assert(window =~= events@.take(limit as int));
        let mut written: usize = 0;
        let mut i: usize = 0;
        assert(window.skip(0) =~= window);
        while i < limit
            invariant
                limit <= events@.len(),
                limit <= 512,
                window == events@.take(limit as int),
                window == batch_window(events@),
                start_pending == old(sink).spec_pending(),
                start_sequence == old(sink).spec_next_sequence(),
                i <= limit,
                written <= i,
                ({
                    let all = batch_outcome(*self.decoder, self.device_id@, window, start_sequence);
                    let rest = batch_outcome(
                        *self.decoder,
                        self.device_id@,
                        window.skip(i as int),
                        sink.spec_next_sequence(),
                    );
                    &&& sink.spec_pending() + rest.0 == start_pending + all.0
                    &&& rest.1 + written == all.1
                    &&& rest.2 == all.2
                    &&& rest.3 == all.3
                }),
            decreases limit - i,
        {
            let event = &events[i];
            assert(window.skip(i as int)[0] == events@[i as int]);
            assert(window.skip(i as int).drop_first() =~= window.skip(i + 1));
            let ghost before = sink.spec_pending();
            match event.to_raw_event() {
                None => {},
                Some(raw) => {
                    assert(raw.header.kind == 3 || raw.header.kind == 4);
                    let decoded = match self.decoder.decode(&raw) {
                        Ok(decoded) => decoded,
                        Err(error) => {
                            proof {
                                assert(raw.header.kind == 3 || raw.header.kind == 4);
                                assert(event.payload_len > 256);
                                assert(sink.spec_pending() + Seq::<char>::empty() =~= sink.spec_pending());
                                let rest = batch_outcome(
                                    *self.decoder,
                                    self.device_id@,
                                    window.skip(i as int),
                                    sink.spec_next_sequence(),
                                );
                                assert(rest.0 =~= Seq::<char>::empty());
                                assert(rest.3 == Some(AgentError::Decode(error)));
                            }
                            return Err(AgentError::Decode(error));
                        },
                    };
                    let object = if event.is_reply() {
                        "binder.reply"
                    } else {
                        "binder.transaction"
                    };
                    let envelope = EventEnvelope {
                        device_id: self.device_id,
                        timestamp_ns: decoded.timestamp_ns,
                        object,
                    };
                    let ghost seq_before = sink.spec_next_sequence();
                    match sink.write_event(envelope, &decoded) {
                        Ok(()) => {},
                        Err(error) => {
                            proof {
                                assert(event.payload_len <= 256);
                                assert(seq_before == u64::MAX);
                                assert(sink.spec_pending() + Seq::<char>::empty() =~= sink.spec_pending());
                                let rest = batch_outcome(
                                    *self.decoder,
                                    self.device_id@,
                                    window.skip(i as int),
                                    sink.spec_next_sequence(),
                                );
                                assert(rest.0 =~= Seq::<char>::empty());
                                assert(rest.3 == Some(AgentError::Storage(error)));
                            }
                            return Err(AgentError::Storage(error));
                        },
                    }
                    proof {
                        Self::lemma_event_json(*self.decoder, *event, raw, decoded);
                        let line = json_line(
                            self.device_id@,
                            seq_before,
                            event.timestamp_ns,
                            event_object(*event),
                            socket_event_json(*self.decoder, *event),
                        );
                        let rest = batch_outcome(
                            *self.decoder,
                            self.device_id@,
                            window.skip(i + 1),
                            sink.spec_next_sequence(),
                        );
                        assert(sink.spec_pending() == before + line);
                        assert(sink.spec_pending() + rest.0 =~= before + (line + rest.0));
                    }
                    assert(written < 512);
                    written = written + 1;
                },
            }
            i = i + 1;
        }
        assert(window.skip(i as int) =~= Seq::<BinderEvent>::empty());
        assert(sink.spec_pending() + Seq::<char>::empty() =~= sink.spec_pending());
        Ok(written)
    }
}

/// Runs a Binder trace with one fixed configuration.
#[derive(Debug, Clone, PartialEq, Eq)]
pub struct Agent {
    config: AgentConfig,
}

impl Agent {
    /// The configuration the agent runs with.
    pub closed spec fn spec_config(&self) -> AgentConfig {
        self.config
    }

    /// An agent for a configuration.
    pub fn new(config: AgentConfig) -> (r: Agent)
        ensures
            r.spec_config() == config,
    {
        Agent { config }
    }

    /// Two agents are the same exactly when their configurations are: an
    /// agent holds its whole configuration and nothing else, so `new` of
    /// equal configurations gives equal agents.
    pub proof fn lemma_agent_is_its_config(a: Agent, b: Agent)
        ensures
            (a == b) <==> (a.spec_config() == b.spec_config()),
    {
    }

    /// The configuration the agent runs with.
    pub fn config(&self) -> (r: &AgentConfig)
        ensures
            *r == self.spec_config(),
    {
        &self.config
    }

    /// Writes the two messages that open a session: the program version,
    /// then the startup diagnostic, both stamped with the diagnostic's time.
    pub fn write_startup_events(
        &self,
        sink: &mut JsonlSink,
        device_id: &str,
        diagnostic_event: &DecodedEvent,
        version: &str,
    ) -> (r: Result<(), AgentError>)
        ensures
            old(sink).spec_next_sequence() < u64::MAX - 1 ==> r is Ok
                && final(sink).spec_next_sequence() == old(sink).spec_next_sequence() + 2
                && final(sink).spec_pending() == old(sink).spec_pending() + json_line(
                device_id@,
                old(sink).spec_next_sequence(),
                diagnostic_event.timestamp_ns,
                "program.version"@,
                version_json("binder-trace"@, version@),
            ) + json_line(
                device_id@,
                (old(sink).spec_next_sequence() + 1) as u64,
                diagnostic_event.timestamp_ns,
                "agent.diagnostic"@,
                event_json(*diagnostic_event),
            ),
            old(sink).spec_next_sequence() >= u64::MAX - 1 ==> r == Err::<(), AgentError>(
                AgentError::Storage(StorageError::SequenceOverflow),
            ),
    {
        let envelope = EventEnvelope {
            device_id,
            timestamp_ns: diagnostic_event.timestamp_ns,
            object: "program.version",
        };
        let program = ProgramVersion { program: "binder-trace", version };
        match sink.write_program_version(envelope, program) {
            Ok(()) => {},
            Err(error) => return Err(AgentError::Storage(error)),
        }
        let envelope = EventEnvelope {
            device_id,
            timestamp_ns: diagnostic_event.timestamp_ns,
            object: "agent.diagnostic",
        };
        match sink.write_event(envelope, diagnostic_event) {
            Ok(()) => {},
            Err(error) => return Err(AgentError::Storage(error)),
        }
        Ok(())
    }
}

} // verus!
