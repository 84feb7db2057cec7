//! The panels of the terminal screen, drawn from the UI state.
use vstd::prelude::*;

use crate::socket_ipc::BinderEvent;
use crate::storage::{hex_bytes, hex_digit};
use crate::text::{
    append_chars, append_str, decimal, decimal_chars, fit_chars, fitted, repeat_char, repeated,
    string_from_chars,
};
use crate::tui::FocusPane;
use crate::tui::render::{
    FrequencyColumns, FrequencyEntry, TransactionColumns, dim_line, frequency_line, spec_frequency_columns,
    spec_visible_start, styled_row_spec, visible_start, is_panel, min_nat, panel_height, panel_inner_size, panel_width,
    render_panel, sat_sub, spec_transaction_color, spec_transaction_columns, transaction_color_index,
    transaction_line,
};
use crate::tui::state::{DisplayEvent, TuiState, key_disabled};
use crate::tui::theme::{ColorSpec, TextStyle, paint, painted};

verus! {

/// The lowercase hexadecimal form of a number, without leading zeros.
pub open spec fn hex_lower(n: nat) -> Seq<char>
    decreases n,
{
    if n < 16 {
        seq![hex_digit(n)]
    } else {
        hex_lower(n / 16) + seq![hex_digit(n % 16)]
    }
}

/// The lowercase hexadecimal form of a number, zero-padded to `width` digits.
pub open spec fn hex_padded(n: nat, width: nat) -> Seq<char> {
    let h = hex_lower(n);
    if h.len() < width {
        repeated('0', (width - h.len()) as nat) + h
    } else {
        h
    }
}

fn hex_digit_of(n: u64) -> (r: char)
    requires
        n < 16,
    ensures
        r == hex_digit(n as nat),
{
    let b = n as u8;
    if b < 10 {
        (b + 48) as char
    } else {
        (b + 87) as char
    }
}

/// Appends the lowercase hexadecimal form of a number.
pub fn push_hex_lower(out: &mut Vec<char>, n: u64)
    ensures
        final(out)@ == old(out)@ + hex_lower(n as nat),
    decreases n,
{
    if n < 16 {
        out.push(hex_digit_of(n));
    } else {
        push_hex_lower(out, n / 16);
        out.push(hex_digit_of(n % 16));
    }
}

/// The lowercase hexadecimal form of a number, zero-padded to `width` digits.
pub fn hex_padded_chars(n: u64, width: usize) -> (r: Vec<char>)
    ensures
        r@ == hex_padded(n as nat, width as nat),
{
    let mut h: Vec<char> = Vec::new();
    push_hex_lower(&mut h, n);
    if h.len() < width {
        let mut out = repeat_char('0', width - h.len());
        append_chars(&mut out, h.as_slice());
        out
    } else {
        h
    }
}

/// Whether a byte is a visible ASCII character (not space).
pub open spec fn is_ascii_graphic(b: u8) -> bool {
    0x21 <= b && b <= 0x7e
}

/// The hex cells of a dump row: two digits and a space per byte.
pub open spec fn hex_cells(bytes: Seq<u8>) -> Seq<char>
    decreases bytes.len(),
{
    if bytes.len() == 0 {
        Seq::empty()
    } else {
        hex_bytes(seq![bytes[0]]) + seq![' '] + hex_cells(bytes.drop_first())
    }
}

/// The text column of a dump row: visible ASCII as itself, other bytes as `.`.
pub open spec fn ascii_cells(bytes: Seq<u8>) -> Seq<char> {
    Seq::new(bytes.len(), |i: int| if is_ascii_graphic(bytes[i]) {
        (bytes[i] as u32) as char
    } else {
        '.'
    })
}

/// Text padded on the right with spaces to at least `width` characters.
pub open spec fn pad_right(s: Seq<char>, width: nat) -> Seq<char> {
    if s.len() < width {
        s + repeated(' ', (width - s.len()) as nat)
    } else {
        s
    }
}

/// One hexdump row: the offset in four hex digits, the hex cells padded to
/// 48 characters and the text column.
pub open spec fn hexdump_line(offset: nat, chunk: Seq<u8>) -> Seq<char> {
    hex_padded(offset, 4) + "  "@ + pad_right(hex_cells(chunk), 48) + "  "@ + ascii_cells(chunk)
}

/// The `k`-th 16-byte piece of a payload.
pub open spec fn chunk_of(payload: Seq<u8>, k: int) -> Seq<u8> {
    payload.subrange(16 * k, if 16 * k + 16 <= payload.len() {
        16 * k + 16
    } else {
        payload.len() as int
    })
}

/// How many 16-byte pieces a payload has.
pub open spec fn chunk_count(len: nat) -> nat {
    ((len + 15) / 16) as nat
}

/// The rows of the hexdump panel for a payload scrolled by `scroll` rows.
pub open spec fn hexdump_rows(payload: Seq<u8>, scroll: nat, width: nat, height: nat) -> Seq<Seq<char>> {
    let n = chunk_count(payload.len());
    let shown = if scroll >= n {
        0
    } else if n - scroll <= height {
        (n - scroll) as nat
    } else {
        height
    };
    Seq::new(shown, |k: int| fitted(hexdump_line(((scroll + k) * 16) as nat, chunk_of(payload, scroll + k)), width))
}

fn hexdump_line_text(offset: u64, chunk: &[u8]) -> (r: Vec<char>)
    ensures
        r@ == hexdump_line(offset as nat, chunk@),
{
    let mut out = hex_padded_chars(offset, 4);
    append_str(&mut out, "  ");
    let mut hex: Vec<char> = Vec::new();
    let mut i: usize = 0;
    assert(chunk@.skip(0) =~= chunk@);
    while i < chunk.len()
        invariant
            i <= chunk@.len(),
            hex@ + hex_cells(chunk@.skip(i as int)) == hex_cells(chunk@),
        decreases chunk@.len() - i,
    {
        let ghost before = hex@;
        let one: [u8; 1] = [chunk[i]];
        assert(chunk@.skip(i as int)[0] == chunk@[i as int]);
        assert(chunk@.skip(i as int).drop_first() =~= chunk@.skip(i + 1));
        assert(one@ =~= seq![chunk@[i as int]]);
        crate::storage::push_hex(&mut hex, &one);
        hex.push(' ');
        assert(hex@ + hex_cells(chunk@.skip(i + 1)) =~= before + hex_cells(chunk@.skip(i as int)));
        i = i + 1;
    }
    assert(chunk@.skip(i as int) =~= Seq::<u8>::empty());
    assert(hex@ + Seq::<char>::empty() =~= hex@);
    let hex_len = hex.len();
    append_chars(&mut out, hex.as_slice());
    if hex_len < 48 {
        let pad = repeat_char(' ', 48 - hex_len);
        append_chars(&mut out, pad.as_slice());
    }
    append_str(&mut out, "  ");
    let ghost before_ascii = out@;
    let mut j: usize = 0;
    while j < chunk.len()
        invariant
            j <= chunk@.len(),
            out@ == before_ascii + ascii_cells(chunk@).take(j as int),
        decreases chunk@.len() - j,
    {
        let b = chunk[j];
        if 0x21 <= b && b <= 0x7e {
            out.push(b as char);
        } else {
            out.push('.');
        }
        j = j + 1;
        assert(out@ =~= before_ascii + ascii_cells(chunk@).take(j as int));
    }
    assert(ascii_cells(chunk@).take(j as int) =~= ascii_cells(chunk@));
    out
}

/// The body lines of the hexdump panel: the selected event's payload in
/// 16-byte rows from the scroll position, or a note when there is nothing to
/// show.
pub open spec fn hexdump_body(selected: Option<BinderEvent>, scroll: nat, width: nat, height: nat) -> Seq<Seq<char>> {
    match selected {
        None => seq![painted(TextStyle::Muted, fitted("等待 binder_transaction 事件"@, width))],
        Some(event) => if event.spec_payload().len() == 0 {
            seq![painted(TextStyle::Muted, fitted("payload 为空或未捕获"@, width))]
        } else {
            hexdump_rows(event.spec_payload(), scroll, width, height)
        },
    }
}

/// The selected event of the window: the first entry with the selected
/// history index.
pub open spec fn selected_in(events: Seq<DisplayEvent>, selected: u64) -> Option<BinderEvent> {
    if exists|j: int| 0 <= j < events.len() && (#[trigger] events[j]).history_index == selected {
        Some(
            events[choose|j: int|
                0 <= j < events.len() && (#[trigger] events[j]).history_index == selected && forall|k: int|
                    0 <= k < j ==> (#[trigger] events[k]).history_index != selected].event,
        )
    } else {
        None
    }
}

/// Draws the hexdump panel.
pub fn render_hexdump(state: &TuiState, width: usize, height: usize) -> (r: Vec<String>)
    ensures
        is_panel(
            r@,
            "Hexdump"@,
            state.focus == FocusPane::Hexdump,
            width as nat,
            height as nat,
            hexdump_body(
                selected_in(state.events@, state.selected),
                state.hexdump_scroll as nat,
                (panel_width(width as nat) - 2) as nat,
                (panel_height(height as nat) - 2) as nat,
            ),
        ),
{
    let (inner_width, inner_height) = panel_inner_size(width, height);
    let mut body: Vec<String> = Vec::new();
    match state.selected_event() {
        None => {
            body.push(dim_line("等待 binder_transaction 事件", inner_width));
        },
        Some(event) => {
            let bytes = event.payload_bytes();
            if bytes.len() == 0 {
                body.push(dim_line("payload 为空或未捕获", inner_width));
            } else {
                let n = bytes.len() / 16 + if bytes.len() % 16 == 0 {
                    0
                } else {
                    1
                };
                assert(n == chunk_count(bytes@.len()));
                let scroll = state.hexdump_scroll;
                let shown: usize = if scroll >= n {
                    0
                } else if n - scroll <= inner_height {
                    n - scroll
                } else {
                    inner_height
                };
                let mut k: usize = 0;
                while k < shown
                    invariant
                        bytes@ == event.spec_payload(),
                        bytes@.len() <= 256,
                        n == chunk_count(bytes@.len()),
                        shown <= n,
                        scroll + shown <= n || shown == 0,
                        k <= shown,
                        body@.len() == k,
                        forall|t: int|
                            0 <= t < k ==> (#[trigger] body@[t])@ == fitted(
                                hexdump_line(((scroll + t) * 16) as nat, chunk_of(bytes@, scroll + t)),
                                inner_width as nat,
                            ),
                    decreases shown - k,
                {
                    let row = scroll + k;
                    let start = row * 16;
                    let end = if start + 16 <= bytes.len() {
                        start + 16
                    } else {
                        bytes.len()
                    };
                    let mut chunk: Vec<u8> = Vec::new();
                    let mut b = start;
                    while b < end
                        invariant
                            start <= b <= end,
                            end <= bytes@.len(),
                            chunk@ == bytes@.subrange(start as int, b as int),
                        decreases end - b,
                    {
                        chunk.push(bytes[b]);
                        b = b + 1;
                        assert(chunk@ =~= bytes@.subrange(start as int, b as int));
                    }
                    let line = hexdump_line_text((row * 16) as u64, chunk.as_slice());
                    let fitted_line = fit_chars(line.as_slice(), inner_width);
                    body.push(string_from_chars(fitted_line.as_slice()));
                    k = k + 1;
                }
            }
        },
    }
    proof {
        let expected = hexdump_body(
            selected_in(state.events@, state.selected),
            state.hexdump_scroll as nat,
            inner_width as nat,
            inner_height as nat,
        );
        assert(body@.map(|i: int, s: String| s@) =~= expected);
    }
    render_panel("Hexdump", state.focus == FocusPane::Hexdump, width, height, &body)
}

/// The interface, method and code a summary names, as text.
pub open spec fn summary_view(s: crate::tui::TransactionSummary) -> (Seq<char>, Seq<char>, u32) {
    (s.interface@, s.method@, s.code)
}

/// Line `i` (from 1) of the parsed panel, before fitting.
pub open spec fn parsed_line(event: BinderEvent, summary: (Seq<char>, Seq<char>, u32), i: int) -> Seq<char> {
    if i == 1 {
        "interface: "@ + summary.0
    } else if i == 2 {
        "code: "@ + decimal(summary.2 as nat)
    } else if i == 3 {
        "method: "@ + summary.1
    } else if i == 4 {
        "flags: 0x"@ + hex_lower(event.flags as nat)
    } else if i == 5 {
        "data_size: 0x"@ + hex_lower(event.data_size as nat)
    } else if i == 6 {
        "offsets_size: 0x"@ + hex_lower(event.offsets_size as nat)
    } else if i == 7 {
        "target_handle: "@ + decimal(event.target_handle as nat)
    } else if i == 8 {
        "sender_pid/euid: "@ + decimal(event.sender_pid as nat) + "/"@ + decimal(event.sender_euid as nat)
    } else if i == 9 {
        "payload: "@ + decimal(event.spec_payload().len()) + " bytes"@ + if event.payload_truncated != 0 {
            " truncated"@
        } else {
            ""@
        }
    } else if i == 10 {
        "direction: "@ + crate::tui::spec_direction(event)
    } else if i == 11 {
        "transaction_debug_id: "@ + decimal(event.transaction_debug_id as nat)
    } else if i == 12 {
        "reply_to_debug_id: "@ + decimal(event.reply_to_debug_id as nat)
    } else if i == 13 {
        "sequence: "@ + decimal(event.sequence as nat)
    } else if i == 14 {
        "timestamp_ns: "@ + decimal(event.timestamp_ns as nat)
    } else if i == 15 {
        "tgid/pid: "@ + decimal(event.tgid as nat) + "/"@ + decimal(event.pid as nat)
    } else if i == 16 {
        "uid: "@ + decimal(event.uid as nat)
    } else if i == 17 {
        "transaction: 0x"@ + hex_padded(event.transaction as nat, 16)
    } else if i == 18 {
        "proc: 0x"@ + hex_padded(event.proc as nat, 16)
    } else if i == 19 {
        "thread: 0x"@ + hex_padded(event.thread as nat, 16)
    } else if i == 20 {
        "extra_buffers_size: 0x"@ + hex_lower(event.extra_buffers_size as nat)
    } else {
        "lost_before: "@ + decimal(event.lost_before as nat)
    }
}

fn push_decimal_of(out: &mut Vec<char>, n: u64)
    ensures
        final(out)@ == old(out)@ + decimal(n as nat),
{
    let d = decimal_chars(n);
    append_chars(out, d.as_slice());
}

fn parsed_line_text(event: &BinderEvent, summary: &crate::tui::TransactionSummary, i: usize) -> (r: Vec<char>)
    requires
        1 <= i <= 21,
    ensures
        r@ == parsed_line(*event, summary_view(*summary), i as int),
{
    let mut out: Vec<char> = Vec::new();
    if i == 1 {
        append_str(&mut out, "interface: ");
        append_str(&mut out, summary.interface.as_str());
    } else if i == 2 {
        append_str(&mut out, "code: ");
        push_decimal_of(&mut out, summary.code as u64);
    } else if i == 3 {
        append_str(&mut out, "method: ");
        append_str(&mut out, summary.method.as_str());
    } else if i == 4 {
        append_str(&mut out, "flags: 0x");
        push_hex_lower(&mut out, event.flags as u64);
    } else if i == 5 {
        append_str(&mut out, "data_size: 0x");
        push_hex_lower(&mut out, event.data_size);
    } else if i == 6 {
        append_str(&mut out, "offsets_size: 0x");
        push_hex_lower(&mut out, event.offsets_size);
    } else if i == 7 {
        append_str(&mut out, "target_handle: ");
        push_decimal_of(&mut out, event.target_handle as u64);
    } else if i == 8 {
        append_str(&mut out, "sender_pid/euid: ");
        push_decimal_of(&mut out, event.sender_pid as u64);
        append_str(&mut out, "/");
        push_decimal_of(&mut out, event.sender_euid as u64);
    } else if i == 9 {
        append_str(&mut out, "payload: ");
        let payload = event.payload_bytes();
        push_decimal_of(&mut out, payload.len() as u64);
        append_str(&mut out, " bytes");
        if event.payload_truncated != 0 {
            append_str(&mut out, " truncated");
        } else {
            append_str(&mut out, "");
        }
    } else if i == 10 {
        append_str(&mut out, "direction: ");
        append_str(&mut out, crate::tui::direction(event));
    } else if i == 11 {
        append_str(&mut out, "transaction_debug_id: ");
        push_decimal_of(&mut out, event.transaction_debug_id as u64);
    } else if i == 12 {
        append_str(&mut out, "reply_to_debug_id: ");
        push_decimal_of(&mut out, event.reply_to_debug_id as u64);
    } else if i == 13 {
        append_str(&mut out, "sequence: ");
        push_decimal_of(&mut out, event.sequence);
    } else if i == 14 {
        append_str(&mut out, "timestamp_ns: ");
        push_decimal_of(&mut out, event.timestamp_ns);
    } else if i == 15 {
        append_str(&mut out, "tgid/pid: ");
        push_decimal_of(&mut out, event.tgid as u64);
        append_str(&mut out, "/");
        push_decimal_of(&mut out, event.pid as u64);
    } else if i == 16 {
        append_str(&mut out, "uid: ");
        push_decimal_of(&mut out, event.uid as u64);
    } else if i == 17 {
        append_str(&mut out, "transaction: 0x");
        let h = hex_padded_chars(event.transaction, 16);
        append_chars(&mut out, h.as_slice());
    } else if i == 18 {
        append_str(&mut out, "proc: 0x");
        let h = hex_padded_chars(event.proc, 16);
        append_chars(&mut out, h.as_slice());
    } else if i == 19 {
        append_str(&mut out, "thread: 0x");
        let h = hex_padded_chars(event.thread, 16);
        append_chars(&mut out, h.as_slice());
    } else if i == 20 {
        append_str(&mut out, "extra_buffers_size: 0x");
        push_hex_lower(&mut out, event.extra_buffers_size);
    } else {
        append_str(&mut out, "lost_before: ");
        push_decimal_of(&mut out, event.lost_before as u64);
    }
    out
}

/// The body lines of the parsed panel: the title `binder_transaction` in
/// bold, then one line per field of the selected event (the interface,
/// code and method those of its summary), from the scroll position.
pub open spec fn parsed_body(
    event: BinderEvent,
    summary: (Seq<char>, Seq<char>, u32),
    scroll: nat,
    width: nat,
    height: nat,
) -> Seq<Seq<char>> {
    let shown = if scroll >= 22 {
        0
    } else if 22 - scroll <= height {
        (22 - scroll) as nat
    } else {
        height
    };
    Seq::new(shown, |k: int| if scroll + k == 0 {
        painted(TextStyle::Title, fitted("binder_transaction"@, width))
    } else {
        fitted(parsed_line(event, summary, scroll + k), width)
    })
}

/// Draws the parsed panel.
#[verifier::spinoff_prover]
pub fn render_parsed(state: &TuiState, width: usize, height: usize) -> (r: Vec<String>)
    ensures
        selected_in(state.events@, state.selected) is None ==> is_panel(
            r@,
            "Parsed Transaction"@,
            state.focus == FocusPane::Parsed,
            width as nat,
            height as nat,
            seq![painted(TextStyle::Muted, fitted("选择事件后显示解析结果"@, (panel_width(width as nat) - 2) as nat))],
        ),
        selected_in(state.events@, state.selected) matches Some(event) ==> is_panel(
            r@,
            "Parsed Transaction"@,
            state.focus == FocusPane::Parsed,
            width as nat,
            height as nat,
            parsed_body(
                event,
                state.summary_view_of(event),
                state.parsed_scroll as nat,
                (panel_width(width as nat) - 2) as nat,
                (panel_height(height as nat) - 2) as nat,
            ),
        ),
{
    let (inner_width, inner_height) = panel_inner_size(width, height);
    let mut body: Vec<String> = Vec::new();
    match state.selected_event() {
        None => {
            body.push(dim_line("选择事件后显示解析结果", inner_width));
            proof {
                assert(body@.map(|i: int, s: String| s@) =~= seq![
                    painted(TextStyle::Muted, fitted("选择事件后显示解析结果"@, inner_width as nat)),
                ]);
                assert(selected_in(state.events@, state.selected) is None);
            }
            let r = render_panel("Parsed Transaction", state.focus == FocusPane::Parsed, width, height, &body);
            proof {
                assert(inner_width as nat == (panel_width(width as nat) - 2) as nat);
            }
            r
        },
        Some(event) => {
            let summary = state.transaction_summary(event);
            let scroll = state.parsed_scroll;
            let shown: usize = if scroll >= 22 {
                0
            } else if 22 - scroll <= inner_height {
                22 - scroll
            } else {
                inner_height
            };
            let mut k: usize = 0;
            while k < shown
                invariant
                    shown <= 22,
                    scroll + shown <= 22 || shown == 0,
                    k <= shown,
                    body@.len() == k,
                    forall|t: int|
                        0 <= t < k ==> (#[trigger] body@[t])@ == (if scroll + t == 0 {
                            painted(TextStyle::Title, fitted("binder_transaction"@, inner_width as nat))
                        } else {
                            fitted(parsed_line(*event, summary_view(summary), scroll + t), inner_width as nat)
                        }),
                decreases shown - k,
            {
                let index = scroll + k;
                if index == 0 {
                    let title = fit_chars(crate::text::chars_of("binder_transaction").as_slice(), inner_width);
                    let title = string_from_chars(title.as_slice());
                    body.push(paint(TextStyle::Title, title.as_str()));
                } else {
                    let line = parsed_line_text(event, &summary, index);
                    let fitted_line = fit_chars(line.as_slice(), inner_width);
                    body.push(string_from_chars(fitted_line.as_slice()));
                }
                k = k + 1;
            }
            proof {
                assert(state.spec_summary_of(*event, summary));
                assert(body@.map(|i: int, s: String| s@) =~= parsed_body(
                    *event,
                    summary_view(summary),
                    scroll as nat,
                    inner_width as nat,
                    inner_height as nat,
                ));
            }
            let r = render_panel("Parsed Transaction", state.focus == FocusPane::Parsed, width, height, &body);
            proof {
                assert(selected_in(state.events@, state.selected) == Some(*event));
                assert(state.spec_summary_of(*event, summary) && is_panel(
                    r@,
                    "Parsed Transaction"@,
                    state.focus == FocusPane::Parsed,
                    width as nat,
                    height as nat,
                    parsed_body(*event, summary_view(summary), state.parsed_scroll as nat, inner_width as nat, inner_height as nat),
                ));
                assert(inner_width as nat == (panel_width(width as nat) - 2) as nat);
                assert(inner_height as nat == (panel_height(height as nat) - 2) as nat);
                assert(summary_view(summary) == state.summary_view_of(*event));
            }
            r
        },
    }
}


/// Where the selected event stands in the window: the first entry with its
/// history index, or 0 when none has it.
pub open spec fn selected_offset(events: Seq<DisplayEvent>, selected: u64) -> nat {
    if exists|j: int| 0 <= j < events.len() && (#[trigger] events[j]).history_index == selected {
        (choose|j: int|
            0 <= j < events.len() && (#[trigger] events[j]).history_index == selected && forall|k: int|
                0 <= k < j ==> (#[trigger] events[k]).history_index != selected) as nat
    } else {
        0
    }
}

/// The first row of the transaction list: the list scrolls so that the
/// selected event is on its last visible row (never past the end).
pub open spec fn transaction_start(events: Seq<DisplayEvent>, selected: u64, visible_rows: nat) -> nat {
    let offset = selected_offset(events, selected);
    if offset >= visible_rows {
        min_nat((offset + 1 - visible_rows) as nat, events.len())
    } else {
        0
    }
}

/// How many rows of the transaction list are drawn.
pub open spec fn transaction_count(events: Seq<DisplayEvent>, selected: u64, visible_rows: nat) -> nat {
    let start = transaction_start(events, selected, visible_rows);
    sat_sub(min_nat(events.len(), start + visible_rows) as int, start as int)
}

/// The widest sequence number among the rows, in cells.
pub open spec fn widest_sequence(rows: Seq<DisplayEvent>) -> nat
    decreases rows.len(),
{
    if rows.len() == 0 {
        0
    } else {
        let w = decimal(rows.last().event.sequence as nat).len();
        let rest = widest_sequence(rows.drop_last());
        if w >= rest {
            w
        } else {
            rest
        }
    }
}

/// The rows shown of the transaction list.
pub open spec fn transaction_rows(events: Seq<DisplayEvent>, selected: u64, visible_rows: nat) -> Seq<DisplayEvent> {
    let start = transaction_start(events, selected, visible_rows);
    events.subrange(start as int, (start + transaction_count(events, selected, visible_rows)) as int)
}

/// The columns of the transaction list: the sequence column as wide as the
/// widest shown sequence number, or as `Seq` when no row is shown.
pub open spec fn transaction_columns_for(rows: Seq<DisplayEvent>, width: nat) -> TransactionColumns {
    let sequence_width = if rows.len() == 0 {
        3
    } else {
        widest_sequence(rows)
    };
    spec_transaction_columns(width, true, sequence_width)
}

/// One row of the transaction list: sequence, direction, interface, code,
/// payload length in hex and method, in the colour of its interface; the
/// selected row black on that colour.
pub open spec fn transaction_row_line(state: TuiState, c: TransactionColumns, entry: DisplayEvent) -> Seq<char> {
    let event = entry.event;
    let summary = state.summary_view_of(event);
    let color = ColorSpec::Ansi256(spec_transaction_color(summary.0, event.code));
    let text = fitted(
        transaction_line(
            c,
            decimal(event.sequence as nat),
            crate::tui::spec_direction(event),
            summary.0,
            decimal(summary.2 as nat),
            summary.1,
            "0x"@ + hex_lower(event.data_size as nat),
        ),
        c.width as nat,
    );
    if entry.history_index == state.selected {
        painted(TextStyle::BlackOn(color), text)
    } else {
        painted(TextStyle::Fg(color), text)
    }
}

/// The body of the transaction panel: the dimmed header, then the rows.
pub open spec fn transactions_body(state: TuiState, width: nat, height: nat) -> Seq<Seq<char>> {
    let visible_rows = sat_sub(height as int, 1);
    let rows = transaction_rows(state.events@, state.selected, visible_rows);
    let c = transaction_columns_for(rows, width);
    seq![painted(
        TextStyle::Muted,
        fitted(transaction_line(c, "Seq"@, "Dir"@, "Interface"@, "#"@, "Method"@, "Len"@), c.width as nat),
    )] + Seq::new(rows.len(), |k: int| transaction_row_line(state, c, rows[k]))
}

fn selected_position(state: &TuiState) -> (r: usize)
    ensures
        r == selected_offset(state.events@, state.selected),
        r == 0 || r < state.events@.len(),
        r < usize::MAX,
{
    let mut j: usize = 0;
    while j < state.events.len()
        invariant
            j <= state.events@.len(),
            forall|k: int| 0 <= k < j ==> (#[trigger] state.events@[k]).history_index != state.selected,
        decreases state.events@.len() - j,
    {
        if state.events[j].history_index == state.selected {
            proof {
                let w = choose|t: int|
                    0 <= t < state.events@.len() && (#[trigger] state.events@[t]).history_index == state.selected
                        && forall|k: int| 0 <= k < t ==> (#[trigger] state.events@[k]).history_index != state.selected;
                assert(0 <= j < state.events@.len() && state.events@[j as int].history_index == state.selected
                    && forall|k: int| 0 <= k < j ==> (#[trigger] state.events@[k]).history_index != state.selected);
                if w < j {
                    assert(state.events@[w].history_index != state.selected);
                } else if w > j {
                    assert(state.events@[j as int].history_index != state.selected);
                }
            }
            return j;
        }
        j = j + 1;
    }
    0
}

fn widest_sequence_of(events: &Vec<DisplayEvent>, start: usize, end: usize) -> (r: usize)
    requires
        start <= end <= events@.len(),
    ensures
        r == widest_sequence(events@.subrange(start as int, end as int)),
{
    let mut widest: usize = 0;
    let mut i: usize = start;
    assert(events@.subrange(start as int, start as int) =~= Seq::<DisplayEvent>::empty());
    while i < end
        invariant
            start <= i <= end <= events@.len(),
            widest == widest_sequence(events@.subrange(start as int, i as int)),
        decreases end - i,
    {
        let digits = decimal_chars(events[i].event.sequence);
        assert(events@.subrange(start as int, i + 1).drop_last() =~= events@.subrange(start as int, i as int));
        if digits.len() >= widest {
            widest = digits.len();
        }
        i = i + 1;
    }
    widest
}

fn transaction_row_text(state: &TuiState, c: TransactionColumns, entry: &DisplayEvent) -> (r: String)
    ensures
        r@ == transaction_row_line(*state, c, *entry),
{
    let event = &entry.event;
    let summary = state.transaction_summary(event);
    assert(crate::tui::screen::summary_view(summary) == state.summary_view_of(*event));
    let sequence = decimal_chars(event.sequence);
    let sequence = string_from_chars(sequence.as_slice());
    let code = decimal_chars(summary.code as u64);
    let code = string_from_chars(code.as_slice());
    let mut len: Vec<char> = Vec::new();
    append_str(&mut len, "0x");
    push_hex_lower(&mut len, event.data_size);
    let len = string_from_chars(len.as_slice());
    let text = c.row(
        sequence.as_str(),
        crate::tui::direction(event),
        summary.interface.as_str(),
        code.as_str(),
        summary.method.as_str(),
        len.as_str(),
    );
    let color = ColorSpec::Ansi256(transaction_color_index(&summary, event));
    if entry.history_index == state.selected {
        paint(TextStyle::BlackOn(color), text.as_str())
    } else {
        paint(TextStyle::Fg(color), text.as_str())
    }
}

fn push_transaction_rows(state: &TuiState, columns: TransactionColumns, start: usize, end: usize, body: &mut Vec<String>)
    requires
        start <= end <= state.events@.len(),
    ensures
        final(body)@.len() == old(body)@.len() + (end - start),
        forall|t: int| 0 <= t < old(body)@.len() ==> (#[trigger] final(body)@[t]) == old(body)@[t],
        forall|t: int|
            0 <= t < end - start ==> (#[trigger] final(body)@[old(body)@.len() + t])@ == transaction_row_line(
                *state,
                columns,
                state.events@[start + t],
            ),
{
    let ghost before = body@;
    let mut i: usize = start;
    while i < end
        invariant
            start <= i <= end <= state.events@.len(),
            body@.len() == before.len() + (i - start),
            forall|t: int| 0 <= t < before.len() ==> (#[trigger] body@[t]) == before[t],
            forall|t: int|
                0 <= t < i - start ==> (#[trigger] body@[before.len() + t])@ == transaction_row_line(
                    *state,
                    columns,
                    state.events@[start + t],
                ),
        decreases end - i,
    {
        let line = transaction_row_text(state, columns, &state.events[i]);
        body.push(line);
        i = i + 1;
    }
}

/// Draws the transaction panel.
#[verifier::rlimit(30)]
pub fn render_transactions(state: &TuiState, width: usize, height: usize) -> (r: Vec<String>)
    ensures
        is_panel(
            r@,
            "Transactions"@,
            state.focus == FocusPane::Transactions,
            width as nat,
            height as nat,
            transactions_body(*state, (panel_width(width as nat) - 2) as nat, (panel_height(height as nat) - 2) as nat),
        ),
{
    let (inner_width, inner_height) = panel_inner_size(width, height);
    let visible_rows = if inner_height >= 1 { inner_height - 1 } else { 0 };
    let offset = selected_position(state);
    let start = if offset < visible_rows {
        0
    } else if offset - visible_rows + 1 <= state.events.len() {
        offset - visible_rows + 1
    } else {
        state.events.len()
    };
    let end = if start >= state.events.len() {
        start
    } else if state.events.len() - start >= visible_rows {
        start + visible_rows
    } else {
        state.events.len()
    };
    let count = end - start;
    let ghost rows = transaction_rows(state.events@, state.selected, visible_rows as nat);
    assert(start == transaction_start(state.events@, state.selected, visible_rows as nat));
    assert(count == transaction_count(state.events@, state.selected, visible_rows as nat));
    assert(rows == state.events@.subrange(start as int, end as int));
    assert(rows.len() == count);
    let sequence_width = if count == 0 { 3 } else { widest_sequence_of(&state.events, start, end) };
    let columns = TransactionColumns::new_with_sequence_width(inner_width, true, sequence_width);
    assert(columns == transaction_columns_for(rows, inner_width as nat));
    let mut body: Vec<String> = Vec::new();
    let header = columns.header();
    body.push(paint(TextStyle::Muted, header.as_str()));
    push_transaction_rows(state, columns, start, end, &mut body);
    proof {
        let expected = transactions_body(*state, inner_width as nat, inner_height as nat);
        assert(expected.len() == body@.len());
        assert forall|k: int| 0 <= k < body@.len() implies #[trigger] body@[k]@ == expected[k] by {
            if k >= 1 {
                assert(rows[k - 1] == state.events@[start + (k - 1)]);
                assert(body@[1 + (k - 1)]@ == transaction_row_line(*state, columns, state.events@[start + (k - 1)]));
            }
        }
        assert(body@.map(|i: int, s: String| s@) =~= expected);
    }
    render_panel("Transactions", state.focus == FocusPane::Transactions, width, height, &body)
}

/// The filter state shown for an entry: `off` when its key is disabled.
pub open spec fn filter_label(state: TuiState, entry: FrequencyEntry) -> Seq<char> {
    if key_disabled(state.disabled_frequency@, entry.interface@, entry.code) {
        "off"@
    } else {
        "on"@
    }
}

/// The selected row of the frequency list, kept within the list.
pub open spec fn frequency_row_selected(selected: nat, len: nat) -> nat {
    min_nat(selected, sat_sub(len as int, 1))
}

/// The body of the frequency panel for ranked entries: the dimmed header,
/// then the rows from the one that keeps the selected row in view.
pub open spec fn frequency_body(state: TuiState, entries: Seq<FrequencyEntry>, width: nat, height: nat) -> Seq<Seq<char>> {
    let c = spec_frequency_columns(width);
    let visible_rows = sat_sub(height as int, 1);
    let selected = frequency_row_selected(state.frequency_selected as nat, entries.len());
    let start = spec_visible_start(selected, visible_rows, entries.len());
    let shown = min_nat(sat_sub(entries.len() as int, start as int), visible_rows);
    seq![painted(TextStyle::Muted, fitted(frequency_line(c, "Interface/Code"@, "Frequency"@, "Filter"@), c.width as nat))]
        + Seq::new(
        shown,
        |k: int| styled_row_spec(c, entries[start + k], filter_label(state, entries[start + k]), start + k == selected),
    )
}

/// Draws the frequency panel from its entries.
pub fn render_frequency_entries(state: &TuiState, entries: &Vec<FrequencyEntry>, width: usize, height: usize) -> (r: Vec<String>)
    ensures
        is_panel(
            r@,
            "Frequency"@,
            state.focus == FocusPane::Frequency,
            width as nat,
            height as nat,
            frequency_body(*state, entries@, (panel_width(width as nat) - 2) as nat, (panel_height(height as nat) - 2) as nat),
        ),
{
    let (inner_width, inner_height) = panel_inner_size(width, height);
    let columns = FrequencyColumns::new(inner_width);
    let visible_rows = if inner_height >= 1 { inner_height - 1 } else { 0 };
    let last = if entries.len() >= 1 { entries.len() - 1 } else { 0 };
    let selected = if state.frequency_selected <= last { state.frequency_selected } else { last };
    let start = visible_start(selected, visible_rows, entries.len());
    let left = if entries.len() >= start { entries.len() - start } else { 0 };
    let shown = if left <= visible_rows { left } else { visible_rows };
    let mut body: Vec<String> = Vec::new();
    let header = columns.header();
    body.push(paint(TextStyle::Muted, header.as_str()));
    let n = entries.len();
    let mut k: usize = 0;
    while k < shown
        invariant
            k <= shown,
            n == entries@.len(),
            start + shown <= n,
            body@.len() == 1 + k,
            body@[0]@ == painted(
                TextStyle::Muted,
                fitted(frequency_line(columns, "Interface/Code"@, "Frequency"@, "Filter"@), columns.width as nat),
            ),
            forall|t: int|
                1 <= t < body@.len() ==> (#[trigger] body@[t])@ == styled_row_spec(
                    columns,
                    entries@[start + t - 1],
                    filter_label(*state, entries@[start + t - 1]),
                    start + t - 1 == selected,
                ),
        decreases shown - k,
    {
        let entry = &entries[start + k];
        let key = entry.key();
        let filter = match state.key_is_disabled(&key) {
            Some(_) => "off",
            None => "on",
        };
        proof {
            reveal_strlit("off");
            reveal_strlit("on");
        }
        let line = columns.styled_row(entry, filter, start + k == selected);
        body.push(line);
        k = k + 1;
    }
    proof {
        assert(body@.map(|i: int, s: String| s@) =~= frequency_body(
            *state,
            entries@,
            inner_width as nat,
            inner_height as nat,
        ));
    }
    render_panel("Frequency", state.focus == FocusPane::Frequency, width, height, &body)
}

/// Draws the frequency panel: the counted pairs ranked, most frequent first.
pub fn render_frequency(state: &TuiState, width: usize, height: usize) -> (r: Vec<String>)
    ensures
        exists|entries: Seq<FrequencyEntry>|
            #[trigger] crate::tui::state::ranked_entries_of(entries, state.frequency_counts@) && is_panel(
                r@,
                "Frequency"@,
                state.focus == FocusPane::Frequency,
                width as nat,
                height as nat,
                frequency_body(*state, entries, (panel_width(width as nat) - 2) as nat, (panel_height(height as nat) - 2) as nat),
            ),
{
    let entries = state.frequency_entries();
    render_frequency_entries(state, &entries, width, height)
}

/// Sizes of the screen's four panels: the transaction and frequency panels
/// side by side on top, the hexdump and parsed panels below, and two status
/// lines under them.
#[derive(Debug, Clone, Copy, PartialEq, Eq, Structural)]
pub struct ScreenLayout {
    pub width: usize,
    pub height: usize,
    pub content_height: usize,
    pub top_height: usize,
    pub bottom_height: usize,
    pub left_width: usize,
    pub right_width: usize,
}

/// Lines under the panels.
pub const STATUS_HEIGHT: usize = 2;

/// `value` held within `[low, high]`.
pub open spec fn clamped(value: int, low: int, high: int) -> int {
    if value < low {
        low
    } else if value > high {
        high
    } else {
        value
    }
}

/// The layout for a terminal size: at least 72 by 20; the top row of panels
/// takes 52% of the height above the status lines (at least 8, leaving at
/// least 6), the left column 56% of the width (at least 38, leaving at
/// least 28).
pub open spec fn spec_screen_layout(width: nat, height: nat) -> ScreenLayout {
    let w: int = if width >= 72 { width as int } else { 72 };
    let h: int = if height >= 20 { height as int } else { 20 };
    let content = h - 2;
    let top = clamped(content * 52 / 100, 8, content - 6);
    let bottom = if content - top >= 6 { content - top } else { 6 };
    let left = clamped(w * 56 / 100, 38, w - 28);
    ScreenLayout {
        width: w as usize,
        height: h as usize,
        content_height: content as usize,
        top_height: top as usize,
        bottom_height: bottom as usize,
        left_width: left as usize,
        right_width: (w - left) as usize,
    }
}

fn clamp_usize(value: usize, low: usize, high: usize) -> (r: usize)
    requires
        low <= high,
    ensures
        r == clamped(value as int, low as int, high as int),
{
    if value < low {
        low
    } else if value > high {
        high
    } else {
        value
    }
}

/// The layout for a terminal of `width` columns and `height` rows.
pub fn screen_layout(width: u16, height: u16) -> (r: ScreenLayout)
    ensures
        r == spec_screen_layout(width as nat, height as nat),
        r.top_height + r.bottom_height >= r.content_height,
        r.left_width + r.right_width == r.width,
        r.content_height + STATUS_HEIGHT == r.height,
{
    let w: usize = if width >= 72 { width as usize } else { 72 };
    let h: usize = if height >= 20 { height as usize } else { 20 };
    let content = h - STATUS_HEIGHT;
    let top = clamp_usize(content * 52 / 100, 8, content - 6);
    let bottom = if content - top >= 6 { content - top } else { 6 };
    let left = clamp_usize(w * 56 / 100, 38, w - 28);
    ScreenLayout {
        width: w,
        height: h,
        content_height: content,
        top_height: top,
        bottom_height: bottom,
        left_width: left,
        right_width: w - left,
    }
}

/// The four panels of one frame, each drawn for its place in the layout.
pub struct ScreenPanels {
    pub layout: ScreenLayout,
    pub transactions: Vec<String>,
    pub frequency: Vec<String>,
    pub hexdump: Vec<String>,
    pub parsed: Vec<String>,
}

/// Draws the four panels of a frame for a terminal size.
pub fn render_screen(state: &TuiState, width: u16, height: u16) -> (r: ScreenPanels)
    ensures
        r.layout == spec_screen_layout(width as nat, height as nat),
        r.transactions@.len() == r.layout.top_height,
        r.frequency@.len() == r.layout.top_height,
        r.hexdump@.len() == r.layout.bottom_height,
        r.parsed@.len() == r.layout.bottom_height,
        is_panel(
            r.transactions@,
            "Transactions"@,
            state.focus == FocusPane::Transactions,
            r.layout.left_width as nat,
            r.layout.top_height as nat,
            transactions_body(
                *state,
                (panel_width(r.layout.left_width as nat) - 2) as nat,
                (panel_height(r.layout.top_height as nat) - 2) as nat,
            ),
        ),
        is_panel(
            r.hexdump@,
            "Hexdump"@,
            state.focus == FocusPane::Hexdump,
            r.layout.left_width as nat,
            r.layout.bottom_height as nat,
            hexdump_body(
                selected_in(state.events@, state.selected),
                state.hexdump_scroll as nat,
                (panel_width(r.layout.left_width as nat) - 2) as nat,
                (panel_height(r.layout.bottom_height as nat) - 2) as nat,
            ),
        ),
        selected_in(state.events@, state.selected) is None ==> is_panel(
            r.parsed@,
            "Parsed Transaction"@,
            state.focus == FocusPane::Parsed,
            r.layout.right_width as nat,
            r.layout.bottom_height as nat,
            seq![painted(TextStyle::Muted, fitted("选择事件后显示解析结果"@, (panel_width(r.layout.right_width as nat) - 2) as nat))],
        ),
        selected_in(state.events@, state.selected) matches Some(event) ==> is_panel(
            r.parsed@,
            "Parsed Transaction"@,
            state.focus == FocusPane::Parsed,
            r.layout.right_width as nat,
            r.layout.bottom_height as nat,
            parsed_body(
                event,
                state.summary_view_of(event),
                state.parsed_scroll as nat,
                (panel_width(r.layout.right_width as nat) - 2) as nat,
                (panel_height(r.layout.bottom_height as nat) - 2) as nat,
            ),
        ),
        exists|entries: Seq<FrequencyEntry>|
            #[trigger] crate::tui::state::ranked_entries_of(entries, state.frequency_counts@) && is_panel(
                r.frequency@,
                "Frequency"@,
                state.focus == FocusPane::Frequency,
                r.layout.right_width as nat,
                r.layout.top_height as nat,
                frequency_body(
                    *state,
                    entries,
                    (panel_width(r.layout.right_width as nat) - 2) as nat,
                    (panel_height(r.layout.top_height as nat) - 2) as nat,
                ),
            ),
{
    let layout = screen_layout(width, height);
    let transactions = render_transactions(state, layout.left_width, layout.top_height);
    let frequency = render_frequency(state, layout.right_width, layout.top_height);
    let hexdump = render_hexdump(state, layout.left_width, layout.bottom_height);
    let parsed = render_parsed(state, layout.right_width, layout.bottom_height);
    ScreenPanels { layout, transactions, frequency, hexdump, parsed }
}

/// The history indices the window covers: from its first entry's to one past
/// its last entry's, both 0 when the window is empty.
pub open spec fn spec_window_bounds(events: Seq<DisplayEvent>) -> (u64, u64) {
    if events.len() == 0 {
        (0, 0)
    } else {
        (events[0].history_index, (events.last().history_index + 1) as u64)
    }
}

/// The range of history indices in the window.
pub fn visible_window_bounds(state: &TuiState) -> (r: (u64, u64))
    requires
        state.events@.len() > 0 ==> state.events@.last().history_index < u64::MAX,
    ensures
        r == spec_window_bounds(state.events@),
{
    if state.events.len() == 0 {
        (0, 0)
    } else {
        let first = state.events[0].history_index;
        let last = state.events[state.events.len() - 1].history_index;
        (first, last + 1)
    }
}

} // verus!
