//! What the terminal UI holds between frames, and how keys and events change it.
use vstd::prelude::*;

use crate::ranking::{Rankable, is_ranked, rank};
use crate::tui::render::FrequencyEntry;

use crate::platform::AndroidPlatformMethods;
use crate::socket_ipc::{BT_CAPTURE_POINT_ALL, BinderEvent, CaptureConfig, CaptureStats};
use crate::tui::i18n::UiLanguage;
use crate::tui::{
    event_method,
    FocusPane, FrequencyKey, TransactionSummary, UiCommand, event_interface, move_index,
    spec_move_index,
};

verus! {

broadcast use vstd::seq_lib::group_to_multiset_ensures;

/// The window and selection after an event is pushed: when the selection
/// follows the newest event and the event is shown, the event joins the
/// window (dropping the oldest one when the window is full) and becomes the
/// selection; otherwise nothing changes.
pub open spec fn pushed_window(
    events: Seq<DisplayEvent>,
    selected: u64,
    capacity: nat,
    disabled: Seq<FrequencyKey>,
    history_index: u64,
    event: BinderEvent,
) -> (Seq<DisplayEvent>, u64) {
    let follows = events.len() == 0 || selected == events.last().history_index;
    if follows && spec_visible(disabled, event) {
        let kept = if events.len() >= capacity && events.len() > 0 {
            events.drop_first()
        } else {
            events
        };
        (kept.push(DisplayEvent { history_index, event }), history_index)
    } else {
        (events, selected)
    }
}

/// The window and selection after the history events from `from` on are
/// pushed in order.
pub open spec fn window_after(
    events: Seq<DisplayEvent>,
    selected: u64,
    capacity: nat,
    disabled: Seq<FrequencyKey>,
    history: Seq<BinderEvent>,
    from: nat,
) -> (Seq<DisplayEvent>, u64)
    decreases history.len() - from,
{
    if from >= history.len() {
        (events, selected)
    } else {
        let (e, s) = pushed_window(events, selected, capacity, disabled, from as u64, history[from as int]);
        window_after(e, s, capacity, disabled, history, from + 1)
    }
}

/// Pushing events never lets the window grow past its capacity.
pub proof fn lemma_window_stays_within_capacity(
    events: Seq<DisplayEvent>,
    selected: u64,
    capacity: nat,
    disabled: Seq<FrequencyKey>,
    history: Seq<BinderEvent>,
    from: nat,
)
    requires
        capacity >= 1,
        events.len() <= capacity,
    ensures
        window_after(events, selected, capacity, disabled, history, from).0.len() <= capacity,
    decreases history.len() - from,
{
    if from < history.len() {
        let (e, s) = pushed_window(events, selected, capacity, disabled, from as u64, history[from as int]);
        lemma_window_stays_within_capacity(e, s, capacity, disabled, history, from + 1);
    }
}

/// Pushed events keep the window in history order: when the window's
/// indices rise and lie before `from`, they still rise after the history
/// events from `from` on are pushed.
pub proof fn lemma_window_stays_ordered(
    events: Seq<DisplayEvent>,
    selected: u64,
    capacity: nat,
    disabled: Seq<FrequencyKey>,
    history: Seq<BinderEvent>,
    from: nat,
)
    requires
        history.len() < u64::MAX,
        forall|i: int, j: int| 0 <= i < j < events.len() ==> events[i].history_index < events[j].history_index,
        forall|i: int| 0 <= i < events.len() ==> events[i].history_index < from,
    ensures
        ({
            let w = window_after(events, selected, capacity, disabled, history, from).0;
            forall|i: int, j: int| 0 <= i < j < w.len() ==> w[i].history_index < w[j].history_index
        }),
    decreases history.len() - from,
{
    if from < history.len() {
        let (e, s) = pushed_window(events, selected, capacity, disabled, from as u64, history[from as int]);
        assert forall|i: int, j: int| 0 <= i < j < e.len() implies e[i].history_index < e[j].history_index by {
            let follows = events.len() == 0 || selected == events.last().history_index;
            if follows && spec_visible(disabled, history[from as int]) {
                let kept = if events.len() >= capacity && events.len() > 0 {
                    events.drop_first()
                } else {
                    events
                };
                assert(e == kept.push(DisplayEvent { history_index: from as u64, event: history[from as int] }));
                if j < kept.len() {
                    if events.len() >= capacity && events.len() > 0 {
                        assert(kept[i] == events[i + 1] && kept[j] == events[j + 1]);
                    }
                } else {
                    if events.len() >= capacity && events.len() > 0 {
                        assert(kept[i] == events[i + 1]);
                    }
                }
            }
        }
        assert forall|i: int| 0 <= i < e.len() implies e[i].history_index < from + 1 by {
            let follows = events.len() == 0 || selected == events.last().history_index;
            if follows && spec_visible(disabled, history[from as int]) {
                let kept = if events.len() >= capacity && events.len() > 0 {
                    events.drop_first()
                } else {
                    events
                };
                if i < kept.len() && events.len() >= capacity && events.len() > 0 {
                    assert(kept[i] == events[i + 1]);
                }
            }
        }
        lemma_window_stays_ordered(e, s, capacity, disabled, history, from + 1);
        assert(window_after(events, selected, capacity, disabled, history, from) == window_after(
            e,
            s,
            capacity,
            disabled,
            history,
            from + 1,
        ));
    }
}

/// What the caller does after a key command.
#[derive(Debug, Clone, Copy, PartialEq, Eq, Structural)]
pub enum CommandEffect {
    /// Leave the UI.
    Quit,
    /// Recording was toggled: send the driver the configuration that
    /// `recording_config` names for the new state.
    ToggleRecording,
    /// Redraw the screen.
    Redraw,
}

/// Whether a command moves a cursor.
pub open spec fn is_move(command: UiCommand) -> bool {
    command == UiCommand::Up || command == UiCommand::Down || command == UiCommand::PageUp || command
        == UiCommand::PageDown || command == UiCommand::Home || command == UiCommand::End
}

/// Whether a key is among the disabled ones.
pub open spec fn key_disabled(disabled: Seq<FrequencyKey>, interface: Seq<char>, code: u32) -> bool {
    exists|i: int| 0 <= i < disabled.len() && (#[trigger] disabled[i]).interface@ == interface && disabled[i].code == code
}

/// Whether the transaction list shows an event: events without an interface
/// always, others unless their interface and code are filtered out.
pub open spec fn spec_visible(disabled: Seq<FrequencyKey>, event: BinderEvent) -> bool {
    event_interface(event).len() == 0 || !key_disabled(disabled, event_interface(event), event.code)
}

/// The first shown history index from `i` on.
pub open spec fn first_visible(disabled: Seq<FrequencyKey>, history: Seq<BinderEvent>, i: int) -> Option<int>
    decreases history.len() - i,
{
    if i < 0 || i >= history.len() {
        None
    } else if spec_visible(disabled, history[i]) {
        Some(i)
    } else {
        first_visible(disabled, history, i + 1)
    }
}

/// The last shown history index at or before `i`.
pub open spec fn last_visible(disabled: Seq<FrequencyKey>, history: Seq<BinderEvent>, i: int) -> Option<int>
    decreases i + 1,
{
    if i < 0 || i >= history.len() {
        None
    } else if spec_visible(disabled, history[i]) {
        Some(i)
    } else {
        last_visible(disabled, history, i - 1)
    }
}

/// The last shown index at or before `start`, looking no further than the
/// history's end.
pub open spec fn spec_previous_visible(disabled: Seq<FrequencyKey>, history: Seq<BinderEvent>, start: int) -> Option<int> {
    if history.len() == 0 {
        None
    } else {
        last_visible(disabled, history, if start < history.len() {
            start
        } else {
            history.len() - 1
        })
    }
}

/// `a - 1`, or zero.
pub open spec fn dec(a: u64) -> u64 {
    if a >= 1 {
        (a - 1) as u64
    } else {
        0
    }
}

/// `a + 1`, or the largest value.
pub open spec fn inc(a: u64) -> u64 {
    if a < u64::MAX {
        (a + 1) as u64
    } else {
        u64::MAX
    }
}

/// The selection after up to `n` steps back to the previous shown event.
pub open spec fn page_back(disabled: Seq<FrequencyKey>, history: Seq<BinderEvent>, selected: u64, n: nat) -> u64
    decreases n,
{
    if n == 0 {
        selected
    } else {
        match spec_previous_visible(disabled, history, dec(selected) as int) {
            Some(i) => page_back(disabled, history, i as u64, (n - 1) as nat),
            None => selected,
        }
    }
}

/// The selection after up to `n` steps forward to the next shown event.
pub open spec fn page_forward(disabled: Seq<FrequencyKey>, history: Seq<BinderEvent>, selected: u64, n: nat) -> u64
    decreases n,
{
    if n == 0 {
        selected
    } else {
        match first_visible(disabled, history, inc(selected) as int) {
            Some(i) => page_forward(disabled, history, i as u64, (n - 1) as nat),
            None => selected,
        }
    }
}

/// Where the transaction selection goes on a command: to the previous or
/// next shown event, a page of them, the first or the last; other commands
/// and an empty history leave it (an empty history resets it to zero).
pub open spec fn spec_moved_selection(
    disabled: Seq<FrequencyKey>,
    history: Seq<BinderEvent>,
    selected: u64,
    command: UiCommand,
    page_size: nat,
) -> u64 {
    if history.len() == 0 {
        0
    } else {
        let page = if page_size >= 1 {
            page_size
        } else {
            1
        };
        match command {
            UiCommand::Up => page_back(disabled, history, selected, 1),
            UiCommand::Down => page_forward(disabled, history, selected, 1),
            UiCommand::PageUp => page_back(disabled, history, selected, page),
            UiCommand::PageDown => page_forward(disabled, history, selected, page),
            UiCommand::Home => match first_visible(disabled, history, 0) {
                Some(i) => i as u64,
                None => selected,
            },
            UiCommand::End => match spec_previous_visible(disabled, history, history.len() - 1) {
                Some(i) => i as u64,
                None => selected,
            },
            _ => selected,
        }
    }
}

/// The shown events from history index `i` on, at most `cap` of them, with
/// their indices.
pub open spec fn visible_window(
    disabled: Seq<FrequencyKey>,
    history: Seq<BinderEvent>,
    i: int,
    cap: nat,
) -> Seq<(u64, BinderEvent)>
    decreases history.len() - i,
{
    if cap == 0 || i < 0 || i >= history.len() {
        Seq::empty()
    } else if spec_visible(disabled, history[i]) {
        seq![(i as u64, history[i])] + visible_window(disabled, history, i + 1, (cap - 1) as nat)
    } else {
        visible_window(disabled, history, i + 1, cap)
    }
}

/// Where the selection lands after the filter changed: it stays on a shown
/// event, else goes to the next shown event, else to the previous one, else
/// to zero (also for an empty history).
pub open spec fn spec_nearest_visible(disabled: Seq<FrequencyKey>, history: Seq<BinderEvent>, selected: u64) -> u64 {
    if history.len() == 0 {
        0
    } else if selected < history.len() && spec_visible(disabled, history[selected as int]) {
        selected
    } else {
        match first_visible(disabled, history, inc(selected) as int) {
            Some(i) => i as u64,
            None => match spec_previous_visible(disabled, history, dec(selected) as int) {
                Some(i) => i as u64,
                None => 0,
            },
        }
    }
}

/// The window a reload shows: the shown events from half a window before
/// the selection on, a window's worth at most.
pub open spec fn spec_reloaded_window(
    disabled: Seq<FrequencyKey>,
    history: Seq<BinderEvent>,
    selected: u64,
    capacity: usize,
) -> Seq<(u64, BinderEvent)> {
    if history.len() == 0 {
        Seq::empty()
    } else {
        visible_window(
            disabled,
            history,
            (if selected >= (capacity / 2) as u64 {
                selected - (capacity / 2) as u64
            } else {
                0
            }),
            capacity as nat,
        )
    }
}

/// Whether the window holds the selected event.
pub open spec fn holds_selection(events: Seq<DisplayEvent>, selected: u64) -> bool {
    exists|j: int| 0 <= j < events.len() && (#[trigger] events[j]).history_index == selected
}

/// The window after making sure it holds the selection: kept when it does
/// or when nothing was recorded yet, reloaded around the selection otherwise.
pub open spec fn spec_loaded_window(
    events: Seq<DisplayEvent>,
    disabled: Seq<FrequencyKey>,
    history: Seq<BinderEvent>,
    selected: u64,
    capacity: usize,
    total_events: u64,
) -> Seq<(u64, BinderEvent)> {
    if total_events == 0 || holds_selection(events, selected) {
        window_view(events)
    } else {
        spec_reloaded_window(disabled, history, selected, capacity)
    }
}

/// Lines of the hexdump of an event's payload, sixteen bytes a line.
pub open spec fn hex_line_count(event: BinderEvent) -> nat {
    ((event.spec_payload().len() + 15) / 16) as nat
}

/// Whether `after` is `before` with an interface and code toggled: a hidden
/// pair shown again (its entry dropped) or a shown one hidden (appended).
pub open spec fn toggled(before: Seq<FrequencyKey>, after: Seq<FrequencyKey>, interface: Seq<char>, code: u32) -> bool {
    if key_disabled(before, interface, code) {
        exists|i: int|
            0 <= i < before.len() && (#[trigger] before[i]).interface@ == interface && before[i].code == code
                && after == before.remove(i)
    } else {
        &&& after.len() == before.len() + 1
        &&& after.drop_last() == before
        &&& after.last().interface@ == interface
        &&& after.last().code == code
    }
}

/// One event of the transaction window, with its history index.
#[derive(Debug, Clone, Copy, PartialEq, Eq)]
pub struct DisplayEvent {
    pub history_index: u64,
    pub event: BinderEvent,
}

/// The view of the transaction window.
pub open spec fn window_view(events: Seq<DisplayEvent>) -> Seq<(u64, BinderEvent)> {
    events.map(|i: int, d: DisplayEvent| (d.history_index, d.event))
}

/// How often one interface and code was seen.
#[derive(Debug, Clone, PartialEq, Eq)]
pub struct FrequencyCount {
    pub key: FrequencyKey,
    pub count: u64,
}

/// The interface and code an event is counted under, if it names an interface.
pub open spec fn key_of(event: BinderEvent) -> Option<(Seq<char>, u32)> {
    if event_interface(event).len() > 0 {
        Some((event_interface(event), event.code))
    } else {
        None
    }
}

/// How many events of a history are counted under an interface and code.
pub open spec fn key_occurrences(history: Seq<BinderEvent>, interface: Seq<char>, code: u32) -> nat
    decreases history.len(),
{
    if history.len() == 0 {
        0
    } else {
        key_occurrences(history.drop_last(), interface, code) + if key_of(history.last()) == Some(
            (interface, code),
        ) {
            1nat
        } else {
            0nat
        }
    }
}

/// Whether `counts` holds each key of the history once, with how often it occurs.
pub open spec fn counts_keys(counts: Seq<FrequencyCount>, history: Seq<BinderEvent>) -> bool {
    &&& forall|i: int, j: int|
        0 <= i < j < counts.len() ==> !((#[trigger] counts[i]).key.interface@ == (#[trigger] counts[j]).key.interface@
            && counts[i].key.code == counts[j].key.code)
    &&& forall|i: int|
        0 <= i < counts.len() ==> (#[trigger] counts[i]).count == key_occurrences(
            history,
            counts[i].key.interface@,
            counts[i].key.code,
        ) && key_occurrences(history, counts[i].key.interface@, counts[i].key.code) > 0
    &&& forall|k: int|
        0 <= k < history.len() && (#[trigger] key_of(history[k])) is Some ==> exists|i: int|
            0 <= i < counts.len() && Some(((#[trigger] counts[i]).key.interface@, counts[i].key.code))
                == key_of(history[k])
}

proof fn lemma_key_occurrences_bound(history: Seq<BinderEvent>, interface: Seq<char>, code: u32)
    ensures
        key_occurrences(history, interface, code) <= history.len(),
    decreases history.len(),
{
    if history.len() > 0 {
        lemma_key_occurrences_bound(history.drop_last(), interface, code);
    }
}

proof fn lemma_key_occurs_somewhere(history: Seq<BinderEvent>, interface: Seq<char>, code: u32)
    requires
        key_occurrences(history, interface, code) > 0,
    ensures
        exists|k: int| 0 <= k < history.len() && key_of(history[k]) == Some((interface, code)),
    decreases history.len(),
{
    if key_of(history.last()) != Some((interface, code)) {
        lemma_key_occurs_somewhere(history.drop_last(), interface, code);
        let k = choose|k: int| 0 <= k < history.drop_last().len() && key_of(history.drop_last()[k]) == Some(
            (interface, code),
        );
        assert(history[k] == history.drop_last()[k]);
    } else {
        assert(history[history.len() - 1] == history.last());
    }
}

/// Whether `entries` are the counted pairs as frequency entries, ranked by
/// count (ties by label).
pub open spec fn ranked_entries_of(entries: Seq<FrequencyEntry>, counts: Seq<FrequencyCount>) -> bool {
    &&& is_ranked(entries)
    &&& exists|built: Seq<FrequencyEntry>|
        #[trigger] entries_of_counts(built, counts) && entries.to_multiset() == built.to_multiset()
}

/// Whether `after` is `before` with the selected entry's pair toggled (the
/// selection held to the last entry).
pub open spec fn toggled_selected(
    before: Seq<FrequencyKey>,
    after: Seq<FrequencyKey>,
    entries: Seq<FrequencyEntry>,
    selected: usize,
) -> bool {
    entries.len() > 0 && {
        let e = entries[if selected < entries.len() {
            selected as int
        } else {
            entries.len() - 1
        }];
        toggled(before, after, e.interface@, e.code)
    }
}

/// Whether `built` lists the counts as frequency entries, in order.
pub open spec fn entries_of_counts(built: Seq<FrequencyEntry>, counts: Seq<FrequencyCount>) -> bool {
    &&& built.len() == counts.len()
    &&& forall|i: int|
        0 <= i < built.len() ==> {
            &&& (#[trigger] built[i]).interface@ == counts[i].key.interface@
            &&& built[i].code == counts[i].key.code
            &&& built[i].count == counts[i].count
            &&& built[i].label@ == counts[i].key.interface@ + "#"@ + crate::text::decimal(counts[i].key.code as nat)
        }
}

/// What the terminal UI holds between frames.
pub struct TuiState {
    pub family: i32,
    /// How many events the transaction window holds at most.
    pub capacity: usize,
    /// The transaction window: shown events in history order.
    pub events: Vec<DisplayEvent>,
    /// The history index of the selected transaction.
    pub selected: u64,
    /// How many events the history holds.
    pub total_events: u64,
    /// Calls per interface and code over the whole history.
    pub frequency_counts: Vec<FrequencyCount>,
    /// How many history events `frequency_counts` covers.
    pub frequency_counted_events: u64,
    /// Interface and code pairs hidden from the transaction list.
    pub disabled_frequency: Vec<FrequencyKey>,
    pub frequency_selected: usize,
    pub hexdump_scroll: usize,
    pub parsed_scroll: usize,
    pub stats: CaptureStats,
    pub recording: bool,
    pub focus: FocusPane,
    pub input_available: bool,
    pub language: UiLanguage,
    pub android_sdk: Option<u16>,
    pub platform_methods: Option<AndroidPlatformMethods>,
    pub history_path: String,
    /// Summaries of calls by debug id, to name the calls replies answer.
    pub transaction_summaries: std::collections::HashMap<u32, TransactionSummary>,
    /// How many history events `transaction_summaries` covers.
    pub transaction_summary_indexed_events: u64,
}

/// Whether two states agree on what event handling leaves alone: the
/// socket family, window capacity, filters, frequency selection, statistics,
/// recording flag, focus, input, language, SDK, method table and history path.
pub open spec fn keeps_settings(a: TuiState, b: TuiState) -> bool {
    &&& a.family == b.family
    &&& a.capacity == b.capacity
    &&& a.disabled_frequency == b.disabled_frequency
    &&& a.frequency_selected == b.frequency_selected
    &&& a.stats == b.stats
    &&& a.recording == b.recording
    &&& a.focus == b.focus
    &&& a.input_available == b.input_available
    &&& a.language == b.language
    &&& a.android_sdk == b.android_sdk
    &&& a.platform_methods == b.platform_methods
    &&& a.history_path == b.history_path
}

/// Whether a history event is a call with a debug id, whose summary is kept.
pub open spec fn summarized_call(event: BinderEvent) -> bool {
    !event.spec_is_reply() && event.transaction_debug_id != 0
}

/// Whether two states differ at most in the transaction selection.
pub open spec fn differs_only_in_selection(a: TuiState, b: TuiState) -> bool {
    &&& a.family == b.family
    &&& a.capacity == b.capacity
    &&& a.events == b.events
    &&& a.total_events == b.total_events
    &&& a.frequency_counts == b.frequency_counts
    &&& a.frequency_counted_events == b.frequency_counted_events
    &&& a.disabled_frequency == b.disabled_frequency
    &&& a.frequency_selected == b.frequency_selected
    &&& a.hexdump_scroll == b.hexdump_scroll
    &&& a.parsed_scroll == b.parsed_scroll
    &&& a.stats == b.stats
    &&& a.recording == b.recording
    &&& a.focus == b.focus
    &&& a.input_available == b.input_available
    &&& a.language == b.language
    &&& a.android_sdk == b.android_sdk
    &&& a.platform_methods == b.platform_methods
    &&& a.history_path == b.history_path
    &&& a.transaction_summaries == b.transaction_summaries
    &&& a.transaction_summary_indexed_events == b.transaction_summary_indexed_events
}

/// What moving within the focused panel does: on the transaction list the
/// selection moves (loading its window, and resetting the detail scrolls
/// when it changed), on the frequency panel its selection moves, and a
/// detail panel scrolls through its lines.
pub open spec fn moved_within_focus(
    before: TuiState,
    after: TuiState,
    command: UiCommand,
    page_size: nat,
    history: Seq<BinderEvent>,
) -> bool {
    &&& (before.focus == FocusPane::Transactions ==> after.selected == spec_moved_selection(
            before.disabled_frequency@,
            history,
            before.selected,
            command,
            page_size,
        ) && (after.selected != before.selected ==> after.hexdump_scroll == 0
            && after.parsed_scroll == 0))
    &&& (before.focus == FocusPane::Frequency ==> after.frequency_selected == spec_move_index(
            before.frequency_selected as nat,
            command,
            page_size,
            before.frequency_counts@.len(),
        ) && after.selected == before.selected)
    &&& (before.focus == FocusPane::Transactions ==> window_view(after.events@) == spec_loaded_window(
            before.events@,
            before.disabled_frequency@,
            history,
            after.selected,
            before.capacity,
            before.total_events,
        ))
    &&& (before.focus != FocusPane::Transactions ==> after.events == before.events)
    &&& (before.focus == FocusPane::Parsed ==> after.selected == before.selected
            && after.parsed_scroll == spec_move_index(
            before.parsed_scroll as nat,
            command,
            page_size,
            if crate::tui::screen::selected_in(before.events@, before.selected) is Some {
                PARSED_LINE_COUNT as nat
            } else {
                0
            },
        ))
    &&& (before.focus == FocusPane::Hexdump ==> after.selected == before.selected
            && after.hexdump_scroll == spec_move_index(
            before.hexdump_scroll as nat,
            command,
            page_size,
            match crate::tui::screen::selected_in(before.events@, before.selected) {
                Some(e) => hex_line_count(e),
                None => 0,
            },
        ))
    &&& (after.focus == before.focus)
}

/// Rows of the parsed transaction panel.
pub const PARSED_LINE_COUNT: usize = 22;

impl TuiState {
    /// A fresh state: recording, focused on the transaction list, with a
    /// window of at least one event and platform methods for the SDK.
    pub fn new(
        family: i32,
        capacity: usize,
        stats: CaptureStats,
        input_available: bool,
        android_sdk: Option<u16>,
        history_path: String,
        language: UiLanguage,
    ) -> (r: TuiState)
        ensures
            r.family == family,
            r.capacity == (if capacity >= 1 {
                capacity
            } else {
                1
            }),
            r.events@.len() == 0,
            r.selected == 0,
            r.total_events == 0,
            r.frequency_counts@.len() == 0,
            r.frequency_counted_events == 0,
            r.disabled_frequency@.len() == 0,
            r.frequency_selected == 0 && r.hexdump_scroll == 0 && r.parsed_scroll == 0,
            r.stats == stats,
            r.recording,
            r.focus == FocusPane::Transactions,
            r.input_available == input_available,
            r.language == language,
            r.android_sdk == android_sdk,
            r.platform_methods is Some <==> android_sdk is Some,
            r.platform_methods matches Some(m) ==> android_sdk == Some(m.sdk),
            r.history_path == history_path,
    {
        TuiState {
            family,
            capacity: if capacity >= 1 {
                capacity
            } else {
                1
            },
            events: Vec::new(),
            selected: 0,
            total_events: 0,
            frequency_counts: Vec::new(),
            frequency_counted_events: 0,
            disabled_frequency: Vec::new(),
            frequency_selected: 0,
            hexdump_scroll: 0,
            parsed_scroll: 0,
            stats,
            recording: true,
            focus: FocusPane::Transactions,
            input_available,
            language,
            android_sdk,
            platform_methods: match android_sdk {
                Some(sdk) => Some(AndroidPlatformMethods::new(sdk)),
                None => None,
            },
            history_path,
            transaction_summaries: std::collections::HashMap::new(),
            transaction_summary_indexed_events: 0,
        }
    }

    fn methods(&self) -> (r: Option<&AndroidPlatformMethods>)
        ensures
            match r {
                Some(m) => self.platform_methods == Some(*m),
                None => self.platform_methods is None,
            },
    {
        match &self.platform_methods {
            Some(m) => Some(m),
            None => None,
        }
    }

    pub(crate) fn key_is_disabled(&self, key: &FrequencyKey) -> (r: Option<usize>)
        ensures
            match r {
                Some(i) => i < self.disabled_frequency@.len() && self.disabled_frequency@[i as int].interface@
                    == key.interface@ && self.disabled_frequency@[i as int].code == key.code,
                None => !key_disabled(self.disabled_frequency@, key.interface@, key.code),
            },
    {
        let mut i: usize = 0;
        while i < self.disabled_frequency.len()
            invariant
                i <= self.disabled_frequency@.len(),
                forall|j: int|
                    0 <= j < i ==> !((#[trigger] self.disabled_frequency@[j]).interface@ == key.interface@
                        && self.disabled_frequency@[j].code == key.code),
            decreases self.disabled_frequency@.len() - i,
        {
            let d = &self.disabled_frequency[i];
            if d.code == key.code && crate::platform::text_eq(d.interface.as_str(), key.interface.as_str()) {
                return Some(i);
            }
            i = i + 1;
        }
        None
    }

    /// Whether the transaction list shows an event.
    pub fn displays_event(&self, event: &BinderEvent) -> (r: bool)
        ensures
            r == spec_visible(self.disabled_frequency@, *event),
    {
        match FrequencyKey::from_event(event, self.methods()) {
            None => true,
            Some(key) => self.key_is_disabled(&key).is_none(),
        }
    }

    /// The first shown history index from `start` on.
    pub fn next_visible(&self, history: &[BinderEvent], start: u64) -> (r: Option<u64>)
        ensures
            match first_visible(self.disabled_frequency@, history@, start as int) {
                Some(i) => r == Some(i as u64),
                None => r is None,
            },
    {
        let n = history.len() as u64;
        if start >= n {
            return None;
        }
        let mut i: u64 = start;
        while i < n
            invariant
                n == history@.len(),
                start <= i <= n,
                first_visible(self.disabled_frequency@, history@, start as int) == first_visible(
                    self.disabled_frequency@,
                    history@,
                    i as int,
                ),
            decreases n - i,
        {
            if self.displays_event(&history[i as usize]) {
                return Some(i);
            }
            i = i + 1;
        }
        None
    }

    /// The last shown history index at or before `start`.
    pub fn previous_visible(&self, history: &[BinderEvent], start: u64) -> (r: Option<u64>)
        ensures
            match spec_previous_visible(self.disabled_frequency@, history@, start as int) {
                Some(i) => r == Some(i as u64),
                None => r is None,
            },
    {
        let n = history.len() as u64;
        if n == 0 {
            return None;
        }
        let mut i: u64 = if start < n {
            start
        } else {
            n - 1
        };
        loop
            invariant
                n == history@.len(),
                n >= 1,
                i < n,
                spec_previous_visible(self.disabled_frequency@, history@, start as int) == last_visible(
                    self.disabled_frequency@,
                    history@,
                    i as int,
                ),
            decreases i,
        {
            if self.displays_event(&history[i as usize]) {
                return Some(i);
            }
            if i == 0 {
                assert(last_visible(self.disabled_frequency@, history@, -1) is None);
                return None;
            }
            assert(last_visible(self.disabled_frequency@, history@, i as int) == last_visible(
                self.disabled_frequency@,
                history@,
                i - 1,
            ));
            i = i - 1;
        }
    }

    /// Moves the transaction selection over the shown history events.
    pub fn move_selection(&mut self, command: UiCommand, page_size: usize, history: &[BinderEvent])
        ensures
            differs_only_in_selection(*old(self), *final(self)),
            final(self).focus == old(self).focus,
            final(self).selected == spec_moved_selection(
                old(self).disabled_frequency@,
                history@,
                old(self).selected,
                command,
                page_size as nat,
            ),
            final(self).disabled_frequency == old(self).disabled_frequency,
            final(self).events == old(self).events,
            final(self).capacity == old(self).capacity,
            final(self).total_events == old(self).total_events,
    {
        if history.len() == 0 {
            self.selected = 0;
            return;
        }
        let page = if page_size >= 1 {
            page_size
        } else {
            1
        };
        match command {
            UiCommand::Up => {
                self.step_back(1, history);
            },
            UiCommand::Down => {
                self.step_forward(1, history);
            },
            UiCommand::PageUp => {
                self.step_back(page, history);
            },
            UiCommand::PageDown => {
                self.step_forward(page, history);
            },
            UiCommand::Home => {
                if let Some(index) = self.next_visible(history, 0) {
                    self.selected = index;
                }
            },
            UiCommand::End => {
                let last = (history.len() - 1) as u64;
                if let Some(index) = self.previous_visible(history, last) {
                    self.selected = index;
                }
            },
            _ => {},
        }
    }

    fn step_back(&mut self, steps: usize, history: &[BinderEvent])
        ensures
            differs_only_in_selection(*old(self), *final(self)),
            final(self).focus == old(self).focus,
            final(self).selected == page_back(old(self).disabled_frequency@, history@, old(self).selected, steps as nat),
            final(self).disabled_frequency == old(self).disabled_frequency,
            final(self).events == old(self).events,
            final(self).capacity == old(self).capacity,
            final(self).total_events == old(self).total_events,
    {
        let ghost start = self.selected;
        let mut k: usize = 0;
        while k < steps
            invariant
                differs_only_in_selection(*old(self), *self),
                self.disabled_frequency == old(self).disabled_frequency,
                self.events == old(self).events,
                self.capacity == old(self).capacity,
                self.total_events == old(self).total_events,
                self.focus == old(self).focus,
                start == old(self).selected,
                k <= steps,
                page_back(self.disabled_frequency@, history@, start, steps as nat) == page_back(
                    self.disabled_frequency@,
                    history@,
                    self.selected,
                    (steps - k) as nat,
                ),
            decreases steps - k,
        {
            let prev = if self.selected >= 1 {
                self.selected - 1
            } else {
                0
            };
            match self.previous_visible(history, prev) {
                Some(index) => {
                    self.selected = index;
                },
                None => {
                    return;
                },
            }
            k = k + 1;
        }
    }

    fn step_forward(&mut self, steps: usize, history: &[BinderEvent])
        ensures
            differs_only_in_selection(*old(self), *final(self)),
            final(self).focus == old(self).focus,
            final(self).selected == page_forward(old(self).disabled_frequency@, history@, old(self).selected, steps as nat),
            final(self).disabled_frequency == old(self).disabled_frequency,
            final(self).events == old(self).events,
            final(self).capacity == old(self).capacity,
            final(self).total_events == old(self).total_events,
    {
        let ghost start = self.selected;
        let mut k: usize = 0;
        while k < steps
            invariant
                differs_only_in_selection(*old(self), *self),
                self.disabled_frequency == old(self).disabled_frequency,
                self.events == old(self).events,
                self.capacity == old(self).capacity,
                self.total_events == old(self).total_events,
                self.focus == old(self).focus,
                start == old(self).selected,
                k <= steps,
                page_forward(self.disabled_frequency@, history@, start, steps as nat) == page_forward(
                    self.disabled_frequency@,
                    history@,
                    self.selected,
                    (steps - k) as nat,
                ),
            decreases steps - k,
        {
            let next = if self.selected < u64::MAX {
                self.selected + 1
            } else {
                u64::MAX
            };
            match self.next_visible(history, next) {
                Some(index) => {
                    self.selected = index;
                },
                None => {
                    return;
                },
            }
            k = k + 1;
        }
    }

    /// Whether the selected event is in the window.
    pub fn selection_is_loaded(&self) -> (r: bool)
        ensures
            r == exists|j: int| 0 <= j < self.events@.len() && (#[trigger] self.events@[j]).history_index == self.selected,
    {
        let mut j: usize = 0;
        while j < self.events.len()
            invariant
                j <= self.events@.len(),
                forall|k: int| 0 <= k < j ==> (#[trigger] self.events@[k]).history_index != self.selected,
            decreases self.events@.len() - j,
        {
            if self.events[j].history_index == self.selected {
                return true;
            }
            j = j + 1;
        }
        false
    }

    /// Refills the window around the selection: the shown events from half
    /// a window before it on, as many as the window holds.
    pub fn reload_visible_window(&mut self, history: &[BinderEvent])
        ensures
            final(self).focus == old(self).focus,
            window_view(final(self).events@) == spec_reloaded_window(
                old(self).disabled_frequency@,
                history@,
                old(self).selected,
                old(self).capacity,
            ),
            window_view(final(self).events@) == (if history@.len() == 0 {
                Seq::empty()
            } else {
                visible_window(
                    old(self).disabled_frequency@,
                    history@,
                    (if old(self).selected >= (old(self).capacity / 2) as u64 {
                        old(self).selected - (old(self).capacity / 2) as u64
                    } else {
                        0
                    }),
                    old(self).capacity as nat,
                )
            }),
            final(self).selected == old(self).selected,
            final(self).disabled_frequency == old(self).disabled_frequency,
            final(self).capacity == old(self).capacity,
            final(self).total_events == old(self).total_events,
    {
        self.events = Vec::new();
        if history.len() == 0 {
            assert(window_view(self.events@) =~= Seq::<(u64, BinderEvent)>::empty());
            return;
        }
        let half = (self.capacity / 2) as u64;
        let start = if self.selected >= half {
            self.selected - half
        } else {
            0
        };
        let n = history.len() as u64;
        let ghost whole = visible_window(self.disabled_frequency@, history@, start as int, self.capacity as nat);
        let mut i: u64 = start;
        assert(window_view(self.events@) =~= Seq::<(u64, BinderEvent)>::empty());
        while i < n && self.events.len() < self.capacity
            invariant
                n == history@.len(),
                self.selected == old(self).selected,
                self.disabled_frequency == old(self).disabled_frequency,
                self.capacity == old(self).capacity,
                self.total_events == old(self).total_events,
                self.focus == old(self).focus,
                start == (if old(self).selected >= (old(self).capacity / 2) as u64 {
                    old(self).selected - (old(self).capacity / 2) as u64
                } else {
                    0
                }),
                self.events@.len() <= self.capacity,
                whole == visible_window(self.disabled_frequency@, history@, start as int, self.capacity as nat),
                whole == window_view(self.events@) + visible_window(
                    self.disabled_frequency@,
                    history@,
                    i as int,
                    (self.capacity - self.events@.len()) as nat,
                ),
            decreases n - i,
        {
            let event = history[i as usize];
            if self.displays_event(&event) {
                let ghost before = window_view(self.events@);
                self.events.push(DisplayEvent { history_index: i, event });
                assert(window_view(self.events@) =~= before + seq![(i as u64, history@[i as int])]);
            }
            i = i + 1;
        }
        proof {
            let rest = visible_window(
                self.disabled_frequency@,
                history@,
                i as int,
                (self.capacity - self.events@.len()) as nat,
            );
            assert(rest =~= Seq::<(u64, BinderEvent)>::empty());
            assert(window_view(self.events@) + rest =~= window_view(self.events@));
        }
    }

    /// Reloads the window when the selection is outside it.
    pub fn ensure_selected_loaded(&mut self, history: &[BinderEvent])
        ensures
            window_view(final(self).events@) == spec_loaded_window(
                old(self).events@,
                old(self).disabled_frequency@,
                history@,
                old(self).selected,
                old(self).capacity,
                old(self).total_events,
            ),
            final(self).focus == old(self).focus,
            final(self).selected == old(self).selected,
            final(self).disabled_frequency == old(self).disabled_frequency,
            final(self).capacity == old(self).capacity,
            final(self).total_events == old(self).total_events,
            (old(self).total_events == 0 || exists|j: int|
                0 <= j < old(self).events@.len() && (#[trigger] old(self).events@[j]).history_index
                    == old(self).selected) ==> final(self).events == old(self).events,
    {
        if self.total_events == 0 || self.selection_is_loaded() {
            return;
        }
        self.reload_visible_window(history);
    }

    /// Keeps the selection on a shown event after the filter changed: it
    /// stays when shown, else moves to the next shown event, else to the
    /// previous one, else to zero; the detail scrolls reset.
    pub fn select_nearest_visible(&mut self, history: &[BinderEvent])
        ensures
            final(self).selected == spec_nearest_visible(old(self).disabled_frequency@, history@, old(self).selected),
            final(self).focus == old(self).focus,
            final(self).disabled_frequency == old(self).disabled_frequency,
            final(self).capacity == old(self).capacity,
            final(self).total_events == old(self).total_events,
            history@.len() == 0 ==> final(self).selected == 0 && final(self).events@.len() == 0,
            history@.len() > 0 && old(self).selected < history@.len() && spec_visible(
                old(self).disabled_frequency@,
                history@[old(self).selected as int],
            ) ==> final(self).selected == old(self).selected,
            history@.len() > 0 && !(old(self).selected < history@.len() && spec_visible(
                old(self).disabled_frequency@,
                history@[old(self).selected as int],
            )) ==> final(self).selected == (match first_visible(
                old(self).disabled_frequency@,
                history@,
                inc(old(self).selected) as int,
            ) {
                Some(i) => i as u64,
                None => match spec_previous_visible(
                    old(self).disabled_frequency@,
                    history@,
                    dec(old(self).selected) as int,
                ) {
                    Some(i) => i as u64,
                    None => 0,
                },
            }) && final(self).hexdump_scroll == 0 && final(self).parsed_scroll == 0,
    {
        let n = history.len() as u64;
        if n == 0 {
            self.selected = 0;
            self.events = Vec::new();
            return;
        }
        if self.selected < n && self.displays_event(&history[self.selected as usize]) {
            return;
        }
        let next = if self.selected < u64::MAX {
            self.selected + 1
        } else {
            u64::MAX
        };
        let prev = if self.selected >= 1 {
            self.selected - 1
        } else {
            0
        };
        if let Some(index) = self.next_visible(history, next) {
            self.selected = index;
        } else if let Some(index) = self.previous_visible(history, prev) {
            self.selected = index;
        } else {
            self.selected = 0;
        }
        self.hexdump_scroll = 0;
        self.parsed_scroll = 0;
    }

    /// Takes in an event appended to the history at `history_index`, and
    /// remembers its summary when it is a call with a debug id. The
    /// window follows the tail only when the selection was on its last event
    /// (or the window was empty) and the event is shown; then the event is
    /// appended (dropping the oldest when full) and selected.
    pub fn push_event(&mut self, history_index: u64, event: BinderEvent)
        requires
            history_index < u64::MAX,
        ensures
            keeps_settings(*old(self), *final(self)),
            final(self).transaction_summary_indexed_events == old(self).transaction_summary_indexed_events,
            final(self).total_events == history_index + 1,
            final(self).disabled_frequency == old(self).disabled_frequency,
            final(self).capacity == old(self).capacity,
            final(self).frequency_counts == old(self).frequency_counts,
            final(self).frequency_counted_events == old(self).frequency_counted_events,
            (event.spec_is_reply() || event.transaction_debug_id == 0) ==> final(self).transaction_summaries@
                == old(self).transaction_summaries@,
            !(event.spec_is_reply() || event.transaction_debug_id == 0) ==> {
                let after = final(self).transaction_summaries@;
                let before = old(self).transaction_summaries@;
                &&& after.dom() == before.dom().insert(event.transaction_debug_id)
                &&& after[event.transaction_debug_id].interface@ == event_interface(event)
                &&& after[event.transaction_debug_id].method@ == event_method(event, old(self).platform_methods)
                &&& after[event.transaction_debug_id].code == event.code
                &&& forall|id: u32| #[trigger] before.contains_key(id) && id != event.transaction_debug_id ==> after[id] == before[id]
            },
            ({
                let follows = old(self).events@.len() == 0 || old(self).selected == old(self).events@.last().history_index;
                if follows && spec_visible(old(self).disabled_frequency@, event) {
                    let kept = if old(self).events@.len() >= old(self).capacity && old(self).events@.len() > 0 {
                        old(self).events@.drop_first()
                    } else {
                        old(self).events@
                    };
                    &&& final(self).events@ == kept.push(DisplayEvent { history_index, event })
                    &&& final(self).selected == history_index
                    &&& final(self).hexdump_scroll == 0
                    &&& final(self).parsed_scroll == 0
                } else {
                    &&& final(self).events == old(self).events
                    &&& final(self).selected == old(self).selected
                }
            }),
    {
        let follows_tail = if self.events.len() == 0 {
            true
        } else {
            self.selected == self.events[self.events.len() - 1].history_index
        };
        self.total_events = history_index + 1;
        self.observe_transaction_summary(&event);
        if !follows_tail || !self.displays_event(&event) {
            return;
        }
        if self.events.len() >= self.capacity && self.events.len() > 0 {
            self.events.remove(0);
        }
        self.events.push(DisplayEvent { history_index, event });
        self.selected = history_index;
        self.hexdump_scroll = 0;
        self.parsed_scroll = 0;
    }

    /// Takes in the events the history gained from `from` on while
    /// recording: pushes each in order, then, when there was one, brings the
    /// call summaries and the frequency counts up to date.
    pub fn record_new_events(&mut self, history: &[BinderEvent], from: u64)
        requires
            history@.len() < u64::MAX,
            old(self).frequency_counted_events <= history@.len(),
            counts_keys(old(self).frequency_counts@, history@.take(old(self).frequency_counted_events as int)),
        ensures
            (final(self).events@, final(self).selected) == window_after(
                old(self).events@,
                old(self).selected,
                old(self).capacity as nat,
                old(self).disabled_frequency@,
                history@,
                from as nat,
            ),
            from < history@.len() ==> final(self).total_events == history@.len() && counts_keys(
                final(self).frequency_counts@,
                history@,
            ) && final(self).frequency_counted_events == history@.len(),
            from >= history@.len() ==> *final(self) == *old(self),
            final(self).disabled_frequency == old(self).disabled_frequency,
            final(self).capacity == old(self).capacity,
            keeps_settings(*old(self), *final(self)),
            forall|id: u32|
                #[trigger] old(self).transaction_summaries@.contains_key(id) ==> final(self).transaction_summaries@.contains_key(
                    id,
                ),
            forall|i: int|
                from <= i < history@.len() && summarized_call(#[trigger] history@[i])
                    ==> final(self).transaction_summaries@.contains_key(history@[i].transaction_debug_id),
            from < history@.len() ==> final(self).transaction_summary_indexed_events == (if old(
                self,
            ).transaction_summary_indexed_events <= history@.len() {
                history@.len() as u64
            } else {
                old(self).transaction_summary_indexed_events
            }),
    {
        let n = history.len() as u64;
        if from >= n {
            return;
        }
        let mut i = from;
        while i < n
            invariant
                keeps_settings(*old(self), *self),
                self.transaction_summary_indexed_events == old(self).transaction_summary_indexed_events,
                forall|id: u32|
                    #[trigger] old(self).transaction_summaries@.contains_key(id) ==> self.transaction_summaries@.contains_key(
                        id,
                    ),
                forall|k: int|
                    from <= k < i && summarized_call(#[trigger] history@[k])
                        ==> self.transaction_summaries@.contains_key(history@[k].transaction_debug_id),
                from <= i <= n,
                n == history@.len(),
                n < u64::MAX,
                self.capacity == old(self).capacity,
                self.disabled_frequency == old(self).disabled_frequency,
                self.frequency_counts == old(self).frequency_counts,
                self.frequency_counted_events == old(self).frequency_counted_events,
                i > from ==> self.total_events == i,
                window_after(self.events@, self.selected, self.capacity as nat, self.disabled_frequency@, history@, i as nat)
                    == window_after(
                    old(self).events@,
                    old(self).selected,
                    old(self).capacity as nat,
                    old(self).disabled_frequency@,
                    history@,
                    from as nat,
                ),
            decreases n - i,
        {
            let event = history[i as usize];
            self.push_event(i, event);
            i = i + 1;
        }
        self.sync_transaction_summaries(history);
        self.sync_frequency_counts(history);
    }

    /// Empties the window and selects the last history event.
    pub fn clear(&mut self)
        ensures
            final(self).events@.len() == 0,
            final(self).selected == dec(old(self).total_events),
            final(self).frequency_selected == 0,
            final(self).hexdump_scroll == 0,
            final(self).parsed_scroll == 0,
            final(self).total_events == old(self).total_events,
            final(self).disabled_frequency == old(self).disabled_frequency,
    {
        self.events = Vec::new();
        self.selected = if self.total_events >= 1 {
            self.total_events - 1
        } else {
            0
        };
        self.frequency_selected = 0;
        self.hexdump_scroll = 0;
        self.parsed_scroll = 0;
    }

    /// The configuration to send to the driver once recording was toggled:
    /// the configured capture when recording now, capture switched off when
    /// not; without a configured capture the driver is left alone.
    pub fn recording_config(&self, capture_config: Option<CaptureConfig>) -> (r: Option<CaptureConfig>)
        ensures
            capture_config is None ==> r is None,
            capture_config is Some && !self.recording ==> r == Some(CaptureConfig::unfiltered(0, BT_CAPTURE_POINT_ALL)),
            capture_config is Some && self.recording ==> r == capture_config,
    {
        match capture_config {
            None => None,
            Some(config) => {
                if self.recording {
                    Some(config)
                } else {
                    Some(CaptureConfig::disabled())
                }
            },
        }
    }

    /// Whether an event received from the driver goes into the history:
    /// Binder transactions, while recording.
    pub fn should_record(&self, event: &BinderEvent) -> (r: bool)
        ensures
            r == (self.recording && event.kind == crate::socket_ipc::BT_EVENT_KIND_BINDER_TRANSACTION),
    {
        self.recording && event.is_binder_transaction()
    }

    /// Applies a key command: quitting is left to the caller; space on the
    /// transaction list toggles recording (the caller then tells the driver);
    /// space on the frequency panel
    /// toggles the selected pair's filter and, when the list has one,
    /// reselects and reloads the window; clear, tab and the movement keys
    /// (by pages of ten) act on the state.
    pub fn apply_command(&mut self, command: UiCommand, history: &[BinderEvent]) -> (r: CommandEffect)
        ensures
            command == UiCommand::Quit ==> r == CommandEffect::Quit && *final(self) == *old(self),
            command == UiCommand::Space && old(self).focus == FocusPane::Transactions ==> r
                == CommandEffect::ToggleRecording && *final(self) == (TuiState {
                recording: !old(self).recording,
                ..*old(self)
            }),
            command == UiCommand::Space && (old(self).focus == FocusPane::Hexdump || old(self).focus
                == FocusPane::Parsed) ==> r == CommandEffect::Redraw && *final(self) == *old(self),
            command == UiCommand::Space && old(self).focus == FocusPane::Frequency ==> r == CommandEffect::Redraw
                && (old(self).frequency_counts@.len() == 0 ==> final(self).disabled_frequency
                == old(self).disabled_frequency && final(self).selected == old(self).selected),
            command == UiCommand::Space && old(self).focus == FocusPane::Frequency && old(self).frequency_counts@.len()
                > 0 ==> {
                &&& exists|entries: Seq<FrequencyEntry>|
                    #[trigger] ranked_entries_of(entries, old(self).frequency_counts@) && toggled_selected(
                        old(self).disabled_frequency@,
                        final(self).disabled_frequency@,
                        entries,
                        old(self).frequency_selected,
                    )
                &&& final(self).selected == spec_nearest_visible(
                    final(self).disabled_frequency@,
                    history@,
                    old(self).selected,
                )
                &&& window_view(final(self).events@) == spec_reloaded_window(
                    final(self).disabled_frequency@,
                    history@,
                    final(self).selected,
                    old(self).capacity,
                )
                &&& final(self).focus == old(self).focus
            },
            command == UiCommand::Clear ==> r == CommandEffect::Redraw && final(self).events@.len() == 0
                && final(self).selected == dec(old(self).total_events),
            command == UiCommand::NextPane ==> r == CommandEffect::Redraw && final(self).focus == old(
                self,
            ).focus.spec_next(),
            is_move(command) ==> r == CommandEffect::Redraw && moved_within_focus(
                *old(self),
                *final(self),
                command,
                10,
                history@,
            ),
    {
        match command {
            UiCommand::Quit => CommandEffect::Quit,
            UiCommand::Space => {
                match self.focus {
                    FocusPane::Transactions => {
                        self.recording = !self.recording;
                        CommandEffect::ToggleRecording
                    },
                    FocusPane::Frequency => {
                        if self.toggle_selected_frequency() {
                            self.select_nearest_visible(history);
                            self.reload_visible_window(history);
                        }
                        CommandEffect::Redraw
                    },
                    _ => CommandEffect::Redraw,
                }
            },
            UiCommand::Clear => {
                self.clear();
                CommandEffect::Redraw
            },
            UiCommand::NextPane => {
                self.focus_next();
                CommandEffect::Redraw
            },
            _ => {
                self.move_focused(command, 10, history);
                CommandEffect::Redraw
            },
        }
    }

    /// Moves the keyboard focus to the next panel.
    pub fn focus_next(&mut self)
        ensures
            final(self).focus == old(self).focus.spec_next(),
    {
        self.focus = self.focus.next();
    }

    /// The selected event, when it is in the window.
    pub fn selected_event(&self) -> (r: Option<&BinderEvent>)
        ensures
            match r {
                Some(e) => exists|j: int|
                    0 <= j < self.events@.len() && (#[trigger] self.events@[j]).history_index == self.selected
                        && self.events@[j].event == *e,
                None => forall|j: int| 0 <= j < self.events@.len() ==> (#[trigger] self.events@[j]).history_index != self.selected,
            },
            match r {
                Some(e) => crate::tui::screen::selected_in(self.events@, self.selected) == Some(*e),
                None => crate::tui::screen::selected_in(self.events@, self.selected) is None,
            },
    {
        let mut j: usize = 0;
        while j < self.events.len()
            invariant
                j <= self.events@.len(),
                forall|k: int| 0 <= k < j ==> (#[trigger] self.events@[k]).history_index != self.selected,
            decreases self.events@.len() - j,
        {
            if self.events[j].history_index == self.selected {
                proof {
                    let events = self.events@;
                    let sel = self.selected;
                    assert(0 <= j < events.len() && events[j as int].history_index == sel && forall|k: int|
                        0 <= k < j ==> (#[trigger] events[k]).history_index != sel);
                    let c = choose|c: int|
                        0 <= c < events.len() && (#[trigger] events[c]).history_index == sel && forall|k: int|
                            0 <= k < c ==> (#[trigger] events[k]).history_index != sel;
                    if c < j {
                        assert(events[c].history_index != sel);
                    } else if c > j {
                        assert(events[j as int].history_index != sel);
                    }
                    assert(c == j);
                }
                return Some(&self.events[j].event);
            }
            j = j + 1;
        }
        None
    }

    fn find_count(&self, key: &FrequencyKey) -> (r: Option<usize>)
        ensures
            match r {
                Some(i) => i < self.frequency_counts@.len() && self.frequency_counts@[i as int].key.interface@
                    == key.interface@ && self.frequency_counts@[i as int].key.code == key.code,
                None => forall|i: int|
                    0 <= i < self.frequency_counts@.len() ==> !((#[trigger] self.frequency_counts@[i]).key.interface@
                        == key.interface@ && self.frequency_counts@[i].key.code == key.code),
            },
    {
        let mut i: usize = 0;
        while i < self.frequency_counts.len()
            invariant
                i <= self.frequency_counts@.len(),
                forall|j: int|
                    0 <= j < i ==> !((#[trigger] self.frequency_counts@[j]).key.interface@ == key.interface@
                        && self.frequency_counts@[j].key.code == key.code),
            decreases self.frequency_counts@.len() - i,
        {
            let c = &self.frequency_counts[i];
            if c.key.code == key.code && crate::platform::text_eq(c.key.interface.as_str(), key.interface.as_str()) {
                return Some(i);
            }
            i = i + 1;
        }
        None
    }

    /// Counts the history events not counted yet under their interface and code.
    #[verifier::rlimit(60)]
    pub fn sync_frequency_counts(&mut self, history: &[BinderEvent])
        requires
            old(self).frequency_counted_events <= history@.len(),
            counts_keys(old(self).frequency_counts@, history@.take(old(self).frequency_counted_events as int)),
        ensures
            counts_keys(final(self).frequency_counts@, history@),
            final(self).frequency_counted_events == history@.len(),
            keeps_settings(*old(self), *final(self)),
            final(self).transaction_summaries == old(self).transaction_summaries,
            final(self).transaction_summary_indexed_events == old(self).transaction_summary_indexed_events,
            final(self).disabled_frequency == old(self).disabled_frequency,
            final(self).events == old(self).events,
            final(self).selected == old(self).selected,
            final(self).capacity == old(self).capacity,
            final(self).total_events == old(self).total_events,
    {
        let n = history.len() as u64;
        while self.frequency_counted_events < n
            invariant
                n == history@.len(),
                self.frequency_counted_events <= n,
                counts_keys(self.frequency_counts@, history@.take(self.frequency_counted_events as int)),
                keeps_settings(*old(self), *self),
                self.transaction_summaries == old(self).transaction_summaries,
                self.transaction_summary_indexed_events == old(self).transaction_summary_indexed_events,
                self.disabled_frequency == old(self).disabled_frequency,
                self.events == old(self).events,
                self.selected == old(self).selected,
                self.capacity == old(self).capacity,
                self.total_events == old(self).total_events,
            decreases n - self.frequency_counted_events,
        {
            let i = self.frequency_counted_events;
            let ghost prefix = history@.take(i as int);
            let ghost next = history@.take(i + 1);
            let ghost before = self.frequency_counts@;
            assert(next.drop_last() =~= prefix);
            assert(next.last() == history@[i as int]);
            let event = history[i as usize];
            match FrequencyKey::from_event(&event, self.methods()) {
                Some(key) => {
                    match self.find_count(&key) {
                        Some(k) => {
                            let c = self.frequency_counts[k].count;
                            proof {
                                lemma_key_occurrences_bound(prefix, key.interface@, key.code);
                            }
                            let mut entry = self.frequency_counts.remove(k);
                            entry.count = c + 1;
                            self.frequency_counts.insert(k, entry);
                            proof {
                                assert forall|j: int| 0 <= j < self.frequency_counts@.len() && j != k implies (#[trigger] self.frequency_counts@[j]) == before[j] by {}
                                assert forall|k2: int| 0 <= k2 < next.len() && (#[trigger] key_of(next[k2])) is Some implies exists|j: int|
                                    0 <= j < self.frequency_counts@.len() && Some(((#[trigger] self.frequency_counts@[j]).key.interface@, self.frequency_counts@[j].key.code))
                                        == key_of(next[k2]) by {
                                    if k2 < i {
                                        assert(next[k2] == prefix[k2]);
                                        let j = choose|j: int| 0 <= j < before.len() && Some(((#[trigger] before[j]).key.interface@, before[j].key.code)) == key_of(prefix[k2]);
                                        if j != k {
                                            assert(self.frequency_counts@[j] == before[j]);
                                        } else {
                                            assert(self.frequency_counts@[j].key == before[j].key);
                                        }
                                    } else {
                                        assert(self.frequency_counts@[k as int].key == before[k as int].key);
                                    }
                                }
                            }
                        },
                        None => {
                            self.frequency_counts.push(FrequencyCount { key, count: 1 });
                            proof {
                                assert(key_occurrences(prefix, key.interface@, key.code) == 0) by {
                                    if key_occurrences(prefix, key.interface@, key.code) > 0 {
                                        lemma_key_occurs_somewhere(prefix, key.interface@, key.code);
                                        let x = choose|x: int| 0 <= x < prefix.len() && key_of(prefix[x]) == Some((key.interface@, key.code));
                                        let j = choose|j: int| 0 <= j < before.len() && Some(((#[trigger] before[j]).key.interface@, before[j].key.code)) == key_of(prefix[x]);
                                    }
                                }
                                assert forall|k2: int| 0 <= k2 < next.len() && (#[trigger] key_of(next[k2])) is Some implies exists|j: int|
                                    0 <= j < self.frequency_counts@.len() && Some(((#[trigger] self.frequency_counts@[j]).key.interface@, self.frequency_counts@[j].key.code))
                                        == key_of(next[k2]) by {
                                    if k2 < i {
                                        assert(next[k2] == prefix[k2]);
                                        let j = choose|j: int| 0 <= j < before.len() && Some(((#[trigger] before[j]).key.interface@, before[j].key.code)) == key_of(prefix[k2]);
                                        assert(self.frequency_counts@[j] == before[j]);
                                    } else {
                                        assert(self.frequency_counts@[before.len() as int].key.interface@ == key.interface@);
                                    }
                                }
                            }
                        },
                    }
                },
                None => {
                    proof {
                        assert forall|k2: int| 0 <= k2 < next.len() && (#[trigger] key_of(next[k2])) is Some implies exists|j: int|
                            0 <= j < self.frequency_counts@.len() && Some(((#[trigger] self.frequency_counts@[j]).key.interface@, self.frequency_counts@[j].key.code))
                                == key_of(next[k2]) by {
                            assert(k2 < i);
                            assert(next[k2] == prefix[k2]);
                        }
                    }
                },
            }
            self.frequency_counted_events = i + 1;
        }
        assert(history@.take(n as int) =~= history@);
    }

    /// The counted interface and code pairs as list entries, most frequent
    /// first and ties by label.
    pub fn frequency_entries(&self) -> (r: Vec<FrequencyEntry>)
        ensures
            ranked_entries_of(r@, self.frequency_counts@),
    {
        let mut entries: Vec<FrequencyEntry> = Vec::new();
        let mut i: usize = 0;
        while i < self.frequency_counts.len()
            invariant
                i <= self.frequency_counts@.len(),
                entries@.len() == i,
                forall|j: int|
                    0 <= j < i ==> {
                        &&& (#[trigger] entries@[j]).interface@ == self.frequency_counts@[j].key.interface@
                        &&& entries@[j].code == self.frequency_counts@[j].key.code
                        &&& entries@[j].count == self.frequency_counts@[j].count
                        &&& entries@[j].label@ == self.frequency_counts@[j].key.interface@ + "#"@
                            + crate::text::decimal(self.frequency_counts@[j].key.code as nat)
                    },
            decreases self.frequency_counts@.len() - i,
        {
            let c = &self.frequency_counts[i];
            entries.push(
                FrequencyEntry {
                    label: c.key.label(),
                    interface: c.key.interface.clone(),
                    code: c.key.code,
                    count: c.count,
                },
            );
            i = i + 1;
        }
        let ghost built = entries@;
        assert(entries_of_counts(built, self.frequency_counts@));
        rank(entries)
    }

    /// Shows a hidden interface and code again (dropping its entry), or
    /// hides a shown one.
    pub fn toggle_key(&mut self, key: FrequencyKey)
        ensures
            key_disabled(old(self).disabled_frequency@, key.interface@, key.code) ==> exists|i: int|
                0 <= i < old(self).disabled_frequency@.len() && (#[trigger] old(self).disabled_frequency@[i]).interface@
                    == key.interface@ && old(self).disabled_frequency@[i].code == key.code
                    && final(self).disabled_frequency@ == old(self).disabled_frequency@.remove(i),
            !key_disabled(old(self).disabled_frequency@, key.interface@, key.code) ==> final(self).disabled_frequency@
                == old(self).disabled_frequency@.push(key),
            toggled(old(self).disabled_frequency@, final(self).disabled_frequency@, key.interface@, key.code),
            final(self).events == old(self).events,
            final(self).selected == old(self).selected,
            final(self).frequency_counts == old(self).frequency_counts,
            final(self).frequency_selected == old(self).frequency_selected,
            final(self).capacity == old(self).capacity,
            final(self).focus == old(self).focus,
            final(self).total_events == old(self).total_events,
    {
        match self.key_is_disabled(&key) {
            Some(i) => {
                self.disabled_frequency.remove(i);
            },
            None => {
                let ghost before = self.disabled_frequency@;
                self.disabled_frequency.push(key);
                assert(self.disabled_frequency@.drop_last() =~= before);
            },
        }
    }

    /// Hides or shows the selected frequency entry's interface and code;
    /// false when nothing is counted.
    pub fn toggle_selected_frequency(&mut self) -> (r: bool)
        ensures
            r == (old(self).frequency_counts@.len() > 0),
            !r ==> final(self).disabled_frequency == old(self).disabled_frequency,
            r ==> exists|entries: Seq<FrequencyEntry>|
                #[trigger] ranked_entries_of(entries, old(self).frequency_counts@) && toggled_selected(
                    old(self).disabled_frequency@,
                    final(self).disabled_frequency@,
                    entries,
                    old(self).frequency_selected,
                ),
            final(self).events == old(self).events,
            final(self).selected == old(self).selected,
            final(self).frequency_counts == old(self).frequency_counts,
            final(self).frequency_selected == old(self).frequency_selected,
            final(self).capacity == old(self).capacity,
            final(self).focus == old(self).focus,
            final(self).total_events == old(self).total_events,
    {
        let entries = self.frequency_entries();
        if entries.len() == 0 {
            assert(self.frequency_counts@.len() == 0) by {
                let built = choose|built: Seq<FrequencyEntry>|
                    #[trigger] entries_of_counts(built, self.frequency_counts@) && entries@.to_multiset()
                        == built.to_multiset();
                assert(entries@.to_multiset().len() == 0);
                assert(built.to_multiset().len() == built.len());
            }
            return false;
        }
        let index = if self.frequency_selected < entries.len() {
            self.frequency_selected
        } else {
            entries.len() - 1
        };
        let key = entries[index].key();
        self.toggle_key(key);
        assert(self.frequency_counts@.len() > 0) by {
            let built = choose|built: Seq<FrequencyEntry>|
                #[trigger] entries_of_counts(built, self.frequency_counts@) && entries@.to_multiset()
                    == built.to_multiset();
            assert(entries@.to_multiset().len() == entries@.len());
            assert(built.to_multiset().len() == built.len());
        }
        true
    }

    /// Moves within the focused panel: the transaction selection (loading
    /// its window), the frequency selection, or a detail panel's scroll.
    #[verifier::spinoff_prover]
    #[verifier::rlimit(30)]
    pub fn move_focused(&mut self, command: UiCommand, page_size: usize, history: &[BinderEvent])
        ensures
            moved_within_focus(*old(self), *final(self), command, page_size as nat, history@),
    {
        match self.focus {
            FocusPane::Transactions => {
                let previous = self.selected;
                self.move_selection(command, page_size, history);
                self.ensure_selected_loaded(history);
                if self.selected != previous {
                    self.hexdump_scroll = 0;
                    self.parsed_scroll = 0;
                }
            },
            FocusPane::Frequency => {
                self.frequency_selected = move_index(
                    self.frequency_selected,
                    command,
                    page_size,
                    self.frequency_counts.len(),
                );
            },
            FocusPane::Hexdump => {
                let lines = match self.selected_event() {
                    Some(event) => {
                        let n = event.payload_bytes().len();
                        let count = n / 16 + if n % 16 == 0 {
                            0
                        } else {
                            1
                        };
                        assert(count == hex_line_count(*event));
                        count
                    },
                    None => 0,
                };
                assert(lines == match crate::tui::screen::selected_in(self.events@, self.selected) {
                    Some(e) => hex_line_count(e),
                    None => 0,
                });
                self.hexdump_scroll = move_index(self.hexdump_scroll, command, page_size, lines);
            },
            FocusPane::Parsed => {
                let lines = match self.selected_event() {
                    Some(_) => PARSED_LINE_COUNT,
                    None => 0,
                };
                assert(lines == if crate::tui::screen::selected_in(self.events@, self.selected) is Some {
                    PARSED_LINE_COUNT as nat
                } else {
                    0
                });
                self.parsed_scroll = move_index(self.parsed_scroll, command, page_size, lines);
            },
        }
    }

    /// Remembers a call's summary so that its reply can name it.
    pub fn observe_transaction_summary(&mut self, event: &BinderEvent)
        ensures
            (event.spec_is_reply() || event.transaction_debug_id == 0) ==> final(self).transaction_summaries@
                == old(self).transaction_summaries@,
            !(event.spec_is_reply() || event.transaction_debug_id == 0) ==> {
                let after = final(self).transaction_summaries@;
                let before = old(self).transaction_summaries@;
                &&& after.dom() == before.dom().insert(event.transaction_debug_id)
                &&& after[event.transaction_debug_id].interface@ == event_interface(*event)
                &&& after[event.transaction_debug_id].method@ == event_method(*event, old(self).platform_methods)
                &&& after[event.transaction_debug_id].code == event.code
                &&& forall|id: u32| #[trigger] before.contains_key(id) && id != event.transaction_debug_id ==> after[id] == before[id]
            },
            final(self).events == old(self).events,
            final(self).selected == old(self).selected,
            final(self).frequency_counts == old(self).frequency_counts,
            final(self).transaction_summary_indexed_events == old(self).transaction_summary_indexed_events,
            final(self).frequency_counted_events == old(self).frequency_counted_events,
            final(self).disabled_frequency == old(self).disabled_frequency,
            final(self).capacity == old(self).capacity,
            final(self).total_events == old(self).total_events,
            keeps_settings(*old(self), *final(self)),
    {
        if event.is_reply() || event.transaction_debug_id == 0 {
            return;
        }
        let summary = TransactionSummary::new(event, self.methods());
        self.transaction_summaries.insert(event.transaction_debug_id, summary);
    }

    /// Remembers the summaries of the history's calls not seen yet.
    pub fn sync_transaction_summaries(&mut self, history: &[BinderEvent])
        ensures
            final(self).transaction_summary_indexed_events == (if old(self).transaction_summary_indexed_events
                <= history@.len() {
                history@.len() as u64
            } else {
                old(self).transaction_summary_indexed_events
            }),
            final(self).events == old(self).events,
            final(self).selected == old(self).selected,
            final(self).frequency_counts == old(self).frequency_counts,
            final(self).frequency_counted_events == old(self).frequency_counted_events,
            final(self).disabled_frequency == old(self).disabled_frequency,
            final(self).capacity == old(self).capacity,
            final(self).total_events == old(self).total_events,
            keeps_settings(*old(self), *final(self)),
            forall|id: u32|
                #[trigger] old(self).transaction_summaries@.contains_key(id) ==> final(self).transaction_summaries@.contains_key(
                    id,
                ),
            forall|i: int|
                old(self).transaction_summary_indexed_events <= i < history@.len() && summarized_call(
                    #[trigger] history@[i],
                ) ==> final(self).transaction_summaries@.contains_key(history@[i].transaction_debug_id),
    {
        let n = history.len() as u64;
        while self.transaction_summary_indexed_events < n
            invariant
                keeps_settings(*old(self), *self),
                forall|id: u32|
                    #[trigger] old(self).transaction_summaries@.contains_key(id) ==> self.transaction_summaries@.contains_key(
                        id,
                    ),
                forall|i: int|
                    old(self).transaction_summary_indexed_events <= i < self.transaction_summary_indexed_events
                        && i < history@.len() && summarized_call(#[trigger] history@[i])
                        ==> self.transaction_summaries@.contains_key(history@[i].transaction_debug_id),
                n == history@.len(),
                old(self).transaction_summary_indexed_events <= self.transaction_summary_indexed_events,
                self.transaction_summary_indexed_events <= n || self.transaction_summary_indexed_events
                    == old(self).transaction_summary_indexed_events,
                self.events == old(self).events,
                self.selected == old(self).selected,
                self.frequency_counts == old(self).frequency_counts,
                self.frequency_counted_events == old(self).frequency_counted_events,
                self.disabled_frequency == old(self).disabled_frequency,
                self.capacity == old(self).capacity,
                self.total_events == old(self).total_events,
            decreases n - self.transaction_summary_indexed_events,
        {
            let i = self.transaction_summary_indexed_events;
            self.observe_transaction_summary(&history[i as usize]);
            self.transaction_summary_indexed_events = i + 1;
        }
    }

    /// Whether `summary` is the one a row shows for `event`.
    pub open spec fn spec_summary_of(&self, event: BinderEvent, summary: TransactionSummary) -> bool {
        if event.spec_is_reply() && event.reply_to_debug_id != 0 {
            if self.transaction_summaries@.contains_key(event.reply_to_debug_id) {
                summary == self.transaction_summaries@[event.reply_to_debug_id]
            } else {
                &&& summary.interface@ == "reply_to#"@ + crate::text::decimal(event.reply_to_debug_id as nat)
                &&& summary.method@ == Seq::<char>::empty()
                &&& summary.code == event.code
            }
        } else {
            &&& summary.interface@ == event_interface(event)
            &&& summary.method@ == crate::tui::event_method(event, self.platform_methods)
            &&& summary.code == event.code
        }
    }

    /// The summary a row shows: a reply shows its call's summary when known,
    /// `reply_to#<id>` when its call is unknown; other events their own.
    /// What the parsed panel shows of an event's summary: its interface,
    /// method and code.
    pub open spec fn summary_view_of(&self, event: BinderEvent) -> (Seq<char>, Seq<char>, u32) {
        if event.spec_is_reply() && event.reply_to_debug_id != 0 && self.transaction_summaries@.contains_key(
            event.reply_to_debug_id,
        ) {
            let s = self.transaction_summaries@[event.reply_to_debug_id];
            (s.interface@, s.method@, s.code)
        } else if event.spec_is_reply() && event.reply_to_debug_id != 0 {
            ("reply_to#"@ + crate::text::decimal(event.reply_to_debug_id as nat), Seq::<char>::empty(), event.code)
        } else {
            (event_interface(event), crate::tui::event_method(event, self.platform_methods), event.code)
        }
    }

    pub fn transaction_summary(&self, event: &BinderEvent) -> (r: TransactionSummary)
        ensures
            self.spec_summary_of(*event, r),
            event.spec_is_reply() && event.reply_to_debug_id != 0 && self.transaction_summaries@.contains_key(
                event.reply_to_debug_id,
            ) ==> r == self.transaction_summaries@[event.reply_to_debug_id],
            event.spec_is_reply() && event.reply_to_debug_id != 0 && !self.transaction_summaries@.contains_key(
                event.reply_to_debug_id,
            ) ==> r.interface@ == "reply_to#"@ + crate::text::decimal(event.reply_to_debug_id as nat),
            !(event.spec_is_reply() && event.reply_to_debug_id != 0) ==> r.interface@ == event_interface(*event)
                && r.code == event.code,
    {
        if event.is_reply() && event.reply_to_debug_id != 0 {
            match self.transaction_summaries.get(&event.reply_to_debug_id) {
                Some(summary) => return summary.copy(),
                None => return TransactionSummary::unmatched_reply(event),
            }
        }
        TransactionSummary::new(event, self.methods())
    }
}

} // verus!
