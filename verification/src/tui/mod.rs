//! Terminal interface: panel layout, frequency statistics and key handling.

pub mod char_columns;
pub mod i18n;
pub mod input;
pub mod render;
pub mod screen;
pub mod state;
pub mod theme;

use vstd::prelude::*;

use crate::platform::{AndroidPlatformMethods, parse_interface_token, spec_parse_interface_token};
use crate::socket_ipc::BinderEvent;
use crate::text::{append_chars, append_str, decimal, decimal_chars, string_from_chars};

verus! {

/// The panel that has the keyboard focus.
#[derive(Debug, Clone, Copy, PartialEq, Eq, Structural)]
pub enum FocusPane {
    Transactions,
    Frequency,
    Hexdump,
    Parsed,
}

impl FocusPane {
    /// The panel that `tab` moves the focus to.
    pub open spec fn spec_next(self) -> FocusPane {
        match self {
            FocusPane::Transactions => FocusPane::Frequency,
            FocusPane::Frequency => FocusPane::Hexdump,
            FocusPane::Hexdump => FocusPane::Parsed,
            FocusPane::Parsed => FocusPane::Transactions,
        }
    }

    /// The panel's title.
    pub open spec fn spec_title(self) -> Seq<char> {
        match self {
            FocusPane::Transactions => "Transactions"@,
            FocusPane::Frequency => "Frequency"@,
            FocusPane::Hexdump => "Hexdump"@,
            FocusPane::Parsed => "Parsed Transaction"@,
        }
    }

    /// The panel's title.
    pub fn title(self) -> (r: &'static str)
        ensures
            r@ == self.spec_title(),
    {
        match self {
            FocusPane::Transactions => "Transactions",
            FocusPane::Frequency => "Frequency",
            FocusPane::Hexdump => "Hexdump",
            FocusPane::Parsed => "Parsed Transaction",
        }
    }

    /// The panel that `tab` moves the focus to.
    pub fn next(self) -> (r: FocusPane)
        ensures
            r == self.spec_next(),
    {
        match self {
            FocusPane::Transactions => FocusPane::Frequency,
            FocusPane::Frequency => FocusPane::Hexdump,
            FocusPane::Hexdump => FocusPane::Parsed,
            FocusPane::Parsed => FocusPane::Transactions,
        }
    }
}

/// Four presses of `tab` bring the focus back to where it started.
pub proof fn lemma_focus_cycle(pane: FocusPane)
    ensures
        pane.spec_next().spec_next().spec_next().spec_next() == pane,
        pane.spec_next() != pane,
{
}

/// A keyboard command.
#[derive(Debug, Clone, Copy, PartialEq, Eq, Structural)]
pub enum UiCommand {
    Quit,
    Space,
    Clear,
    NextPane,
    Up,
    Down,
    PageUp,
    PageDown,
    Home,
    End,
}

/// Where a cursor over `len` rows goes on a command; commands that do not
/// move keep it, clamped to the last row.
pub open spec fn spec_move_index(current: nat, command: UiCommand, page_size: nat, len: nat) -> nat {
    if len == 0 {
        0
    } else {
        let last = (len - 1) as nat;
        let page = if page_size >= 1 { page_size } else { 1 };
        match command {
            UiCommand::Up => if current >= 1 { (current - 1) as nat } else { 0 },
            UiCommand::Down => if current + 1 <= last { current + 1 } else { last },
            UiCommand::PageUp => if current >= page { (current - page) as nat } else { 0 },
            UiCommand::PageDown => if current + page <= last { current + page } else { last },
            UiCommand::Home => 0,
            UiCommand::End => last,
            _ => if current <= last { current } else { last },
        }
    }
}

/// Moves a cursor over `len` rows.
pub fn move_index(current: usize, command: UiCommand, page_size: usize, len: usize) -> (r: usize)
    ensures
        r == spec_move_index(current as nat, command, page_size as nat, len as nat),
{
    if len == 0 {
        return 0;
    }
    let last = len - 1;
    let page = if page_size >= 1 { page_size } else { 1 };
    match command {
        UiCommand::Up => if current >= 1 { current - 1 } else { 0 },
        UiCommand::Down => if current < last { current + 1 } else { last },
        UiCommand::PageUp => if current >= page { current - page } else { 0 },
        UiCommand::PageDown => if current <= last && page <= last - current { current + page } else { last },
        UiCommand::Home => 0,
        UiCommand::End => last,
        _ => if current <= last { current } else { last },
    }
}

/// The direction label of an event.
pub open spec fn spec_direction(event: BinderEvent) -> Seq<char> {
    if event.spec_is_reply() {
        "reply"@
    } else {
        "send"@
    }
}

/// The direction label of an event.
pub fn direction(event: &BinderEvent) -> (r: &'static str)
    ensures
        r@ == spec_direction(*event),
{
    if event.is_reply() {
        "reply"
    } else {
        "send"
    }
}

/// What the interface list shows for an event.
#[derive(Debug, Clone, PartialEq, Eq)]
pub struct TransactionSummary {
    pub interface: String,
    pub method: String,
    pub code: u32,
}

/// The interface a send event names in its Parcel, or nothing.
pub open spec fn event_interface(event: BinderEvent) -> Seq<char> {
    if event.spec_is_reply() {
        Seq::empty()
    } else {
        match spec_parse_interface_token(event.spec_payload()) {
            Some(token) => token,
            None => Seq::empty(),
        }
    }
}

/// The method name a summary shows for an event.
pub open spec fn event_method(event: BinderEvent, methods: Option<AndroidPlatformMethods>) -> Seq<char> {
    let interface = event_interface(event);
    if interface.len() == 0 {
        Seq::empty()
    } else {
        match methods {
            Some(m) => m.spec_method_name(interface, event.code),
            None => Seq::empty(),
        }
    }
}

impl TransactionSummary {
    /// The summary of an event: replies name nothing; a send names the
    /// interface token of its Parcel and, when the platform table knows it,
    /// the method.
    pub fn new(event: &BinderEvent, platform_methods: Option<&AndroidPlatformMethods>) -> (r: TransactionSummary)
        ensures
            r.interface@ == event_interface(*event),
            r.method@ == event_method(
                *event,
                match platform_methods {
                    Some(m) => Some(*m),
                    None => None,
                },
            ),
            r.code == event.code,
    {
        if event.is_reply() {
            return TransactionSummary { interface: String::new(), method: String::new(), code: event.code };
        }
        let payload = event.payload_bytes();
        let interface = match parse_interface_token(payload.as_slice()) {
            Some(token) => token,
            None => String::new(),
        };
        let method = if interface.as_str().is_empty() {
            String::new()
        } else {
            match platform_methods {
                Some(methods) => methods.method_name_or_empty(interface.as_str(), event.code),
                None => String::new(),
            }
        };
        TransactionSummary { interface, method, code: event.code }
    }

    /// A copy of the summary.
    pub fn copy(&self) -> (r: TransactionSummary)
        ensures
            r == *self,
    {
        TransactionSummary { interface: self.interface.clone(), method: self.method.clone(), code: self.code }
    }

    /// The summary of a reply whose request is not known: `reply_to#<id>`.
    pub fn unmatched_reply(event: &BinderEvent) -> (r: TransactionSummary)
        ensures
            r.interface@ == "reply_to#"@ + decimal(event.reply_to_debug_id as nat),
            r.method@ == Seq::<char>::empty(),
            r.code == event.code,
    {
        let mut text: Vec<char> = Vec::new();
        append_str(&mut text, "reply_to#");
        let digits = decimal_chars(event.reply_to_debug_id as u64);
        append_chars(&mut text, digits.as_slice());
        TransactionSummary { interface: string_from_chars(text.as_slice()), method: String::new(), code: event.code }
    }
}

/// An interface and code whose calls are counted together.
#[derive(Debug, Clone, PartialEq, Eq)]
pub struct FrequencyKey {
    pub interface: String,
    pub code: u32,
}

impl FrequencyKey {
    /// The key of a send whose Parcel names an interface; other events have none.
    pub fn from_event(event: &BinderEvent, platform_methods: Option<&AndroidPlatformMethods>) -> (r: Option<FrequencyKey>)
        ensures
            event_interface(*event).len() == 0 ==> r is None,
            event_interface(*event).len() > 0 ==> (r matches Some(k) && k.interface@ == event_interface(*event)
                && k.code == event.code),
    {
        let summary = TransactionSummary::new(event, platform_methods);
        if summary.interface.as_str().is_empty() {
            return None;
        }
        Some(FrequencyKey { interface: summary.interface, code: summary.code })
    }

    /// The label of a key: `<interface>#<code>`.
    pub fn label(&self) -> (r: String)
        ensures
            r@ == self.interface@ + "#"@ + decimal(self.code as nat),
    {
        let mut text: Vec<char> = Vec::new();
        append_str(&mut text, self.interface.as_str());
        append_str(&mut text, "#");
        let digits = decimal_chars(self.code as u64);
        append_chars(&mut text, digits.as_slice());
        string_from_chars(text.as_slice())
    }
}

/// Settings of the terminal UI.
#[derive(Debug, Clone)]
pub struct TuiConfig {
    /// Events kept in the transaction window.
    pub rows: usize,
    /// Redraw interval in milliseconds.
    pub refresh_ms: u64,
    /// Capture configuration sent to the driver, if any.
    pub capture_config: Option<crate::socket_ipc::CaptureConfig>,
    /// Android SDK level, when known.
    pub android_sdk: Option<u16>,
    /// Capture history file, when not the default one.
    pub history_path: Option<String>,
}

/// The shortest redraw interval, in milliseconds.
pub const MIN_REFRESH_MS: u64 = 50;

/// The longest redraw interval, in milliseconds.
pub const MAX_REFRESH_MS: u64 = 5_000;

impl TuiConfig {
    /// The redraw interval actually used: the configured one kept within
    /// 50 ms and 5 s.
    pub fn refresh_interval_ms(&self) -> (r: u64)
        ensures
            r == (if self.refresh_ms < MIN_REFRESH_MS {
                MIN_REFRESH_MS
            } else if self.refresh_ms > MAX_REFRESH_MS {
                MAX_REFRESH_MS
            } else {
                self.refresh_ms
            }),
    {
        if self.refresh_ms < MIN_REFRESH_MS {
            MIN_REFRESH_MS
        } else if self.refresh_ms > MAX_REFRESH_MS {
            MAX_REFRESH_MS
        } else {
            self.refresh_ms
        }
    }
}

/// Why the terminal UI stopped.
#[derive(Debug, Clone, PartialEq, Eq)]
pub enum TuiError {
    /// The control socket failed.
    Socket(crate::socket_ipc::SocketIpcError),
    /// Terminal or file I/O failed, with the system's message.
    Io(String),
    /// The capture history failed.
    History(crate::history::HistoryError),
}

/// The text a UI error is reported with: that of the error it wraps.
pub open spec fn tui_error_text(e: TuiError) -> Seq<char> {
    match e {
        TuiError::Socket(s) => crate::socket_ipc::socket_error_text(s),
        TuiError::Io(m) => m@,
        TuiError::History(h) => crate::history::history_error_text(h),
    }
}

impl TuiError {
    /// The text the error is reported with.
    pub fn message(&self) -> (r: String)
        ensures
            r@ == tui_error_text(*self),
    {
        match self {
            TuiError::Socket(s) => s.message(),
            TuiError::Io(m) => m.clone(),
            TuiError::History(h) => h.message(),
        }
    }
}

} // verus!
