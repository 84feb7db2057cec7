//! Verified core of an Android Binder transaction tracer: the raw event ABI,
//! its decoder, Parcel interface-token parsing, capture-history layout
//! arithmetic, kernel capability checks and the text layout of the terminal UI.

mod common;

pub use common::{
    BinderDevice, EventKind, MAX_INLINE_PAYLOAD, RawBinderEvent, RawEventHeader, RawTransaction,
    UnknownEventKind,
};
mod socket_ipc;

pub use socket_ipc::{
    BinderEvent, CaptureConfig, CaptureStats, DriverFeature, ProbeStep, SocketIpcError, c_string_lossy,
    check_received_len, io, ioc, ior, iow, lossy_text, probe_step,
};
mod decoder;

pub use decoder::{DecodeError, DecodedEvent, DecodedTransaction, Decoder, DecoderConfig};
pub mod text;
pub mod query;
pub mod ranking;
pub mod mcp;
pub mod webui;
pub mod history;
pub mod ebpf;
pub mod web;
pub mod startup;
mod agent;

pub use agent::{
    Agent, AgentConfig, AgentError, EventCollector, MAX_EVENTS_PER_BATCH, OutputConfig,
    resolve_device_id, startup_event,
};
mod storage;

pub use storage::{EventEnvelope, JsonlSink, ProgramVersion, StorageError, payload_hex};
mod platform;

pub use platform::{
    AndroidPlatformMethod, AndroidPlatformMethods, BUNDLED_METHODS_TSV, PlatformMethodEntry,
    entries_from_records, load_platform_methods, parse_entry, parse_interface_token, parse_unsigned,
};
mod kernel_config;

pub use kernel_config::{
    CaptureMode, KernelCapabilities, KernelCapability, KernelConfig, KernelConfigError,
    KernelConfigSource, parse_enabled_key, zcat_outcome,
};
pub mod tui;
