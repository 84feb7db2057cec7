use vstd::prelude::*;

use crate::text::{
    append_chars, append_str, chars_display_width, decimal, decimal_chars, fit, fit_chars,
    fit_right, fit_right_chars, fitted, fitted_right, repeat_char, repeated, string_from_chars,
    text_width, truncate_chars, truncated,
};
use crate::socket_ipc::BinderEvent;
use crate::tui::TransactionSummary;
use crate::tui::theme::{
    ColorSpec, TextStyle, border, focused_border, frequency, frequency_code, frequency_selected,
    paint, painted,
};

verus! {

/// `a - b`, or zero when `b` is larger.
pub open spec fn sat_sub(a: int, b: int) -> nat {
    if a >= b {
        (a - b) as nat
    } else {
        0
    }
}

/// The smaller of two numbers.
pub open spec fn min_nat(a: nat, b: nat) -> nat {
    if a <= b {
        a
    } else {
        b
    }
}

/// Column widths of the transaction list.
#[derive(Debug, Clone, Copy, PartialEq, Eq, Structural)]
pub struct TransactionColumns {
    pub width: usize,
    pub sequence: usize,
    pub direction: usize,
    pub interface: usize,
    pub code: usize,
    pub method: usize,
    pub len: usize,
}

/// Narrowest interface column when a method column is shown.
pub const MIN_INTERFACE_WIDTH: usize = 18;
/// Widest interface column.
pub const MAX_INTERFACE_WIDTH: usize = 56;
/// Narrowest method column.
pub const MIN_METHOD_WIDTH: usize = 6;
/// Widest method column.
pub const MAX_METHOD_WIDTH: usize = 28;

/// The column widths for a terminal width: sequence, direction (5), code (10)
/// and length (8) take what they need in turn from the width less the gaps;
/// the interface, at most 56 wide, and the method, at most 28 wide, share the
/// rest. The method column is dropped when no row has a method or when fewer
/// than 24 cells remain for both.
pub open spec fn spec_transaction_columns(width: nat, has_method: bool, sequence_width: nat) -> TransactionColumns {
    let seq_want = if sequence_width >= 3 { sequence_width } else { 3 };
    let available = sat_sub(width as int, 5);
    let sequence = min_nat(seq_want, available);
    let r1 = (available - sequence) as nat;
    let direction = min_nat(5, r1);
    let r2 = (r1 - direction) as nat;
    let code = min_nat(10, r2);
    let r3 = (r2 - code) as nat;
    let len = min_nat(8, r3);
    let r4 = (r3 - len) as nat;
    if has_method && r4 >= 24 {
        let interface = min_nat(sat_sub(r4 as int, 6), 56);
        let method = min_nat((r4 - interface) as nat, 28);
        TransactionColumns {
            width: width as usize,
            sequence: sequence as usize,
            direction: direction as usize,
            interface: interface as usize,
            code: code as usize,
            method: method as usize,
            len: len as usize,
        }
    } else {
        let available = sat_sub(width as int, 4);
        let sequence = min_nat(seq_want, available);
        let r1 = (available - sequence) as nat;
        let direction = min_nat(5, r1);
        let r2 = (r1 - direction) as nat;
        let code = min_nat(10, r2);
        let r3 = (r2 - code) as nat;
        let len = min_nat(8, r3);
        let r4 = (r3 - len) as nat;
        TransactionColumns {
            width: width as usize,
            sequence: sequence as usize,
            direction: direction as usize,
            interface: min_nat(r4, 56) as usize,
            code: code as usize,
            method: 0,
            len: len as usize,
        }
    }
}

/// Fixed-width cells for sequence, direction and the other columns.
fn column_layout(available: usize, seq_want: usize) -> (r: (usize, usize, usize, usize, usize))
    ensures
        r.0 == min_nat(seq_want as nat, available as nat),
        r.1 == min_nat(5, (available - r.0) as nat),
        r.2 == min_nat(10, (available - r.0 - r.1) as nat),
        r.3 == min_nat(8, (available - r.0 - r.1 - r.2) as nat),
        r.4 == available - r.0 - r.1 - r.2 - r.3,
{
    let sequence = if seq_want <= available { seq_want } else { available };
    let r1 = available - sequence;
    let direction = if 5 <= r1 { 5 } else { r1 };
    let r2 = r1 - direction;
    let code = if 10 <= r2 { 10 } else { r2 };
    let r3 = r2 - code;
    let len = if 8 <= r3 { 8 } else { r3 };
    (sequence, direction, code, len, r3 - len)
}

/// The line of a transaction row before it is fitted to the terminal width.
pub open spec fn transaction_line(
    c: TransactionColumns,
    sequence: Seq<char>,
    direction: Seq<char>,
    interface: Seq<char>,
    code: Seq<char>,
    method: Seq<char>,
    len: Seq<char>,
) -> Seq<char> {
    let base = fitted_right(sequence, c.sequence as nat) + " "@ + fitted(direction, c.direction as nat)
        + " "@ + fitted(interface, c.interface as nat) + " "@ + fitted_right(code, c.code as nat)
        + " "@ + fitted_right(len, c.len as nat);
    if c.method == 0 {
        base
    } else {
        base + " "@ + fitted(method, c.method as nat)
    }
}

impl TransactionColumns {
    /// Column widths for a terminal width, with or without a method column,
    /// for sequence numbers `sequence_width` cells wide.
    pub fn new_with_sequence_width(width: usize, has_method: bool, sequence_width: usize) -> (r: TransactionColumns)
        ensures
            r == spec_transaction_columns(width as nat, has_method, sequence_width as nat),
    {
        let seq_want = if sequence_width >= 3 { sequence_width } else { 3 };
        let available = if width >= 5 { width - 5 } else { 0 };
        let (sequence, direction, code, len, rest) = column_layout(available, seq_want);
        if has_method && rest >= MIN_INTERFACE_WIDTH + MIN_METHOD_WIDTH {
            let wanted = rest - MIN_METHOD_WIDTH;
            let interface = if wanted <= MAX_INTERFACE_WIDTH { wanted } else { MAX_INTERFACE_WIDTH };
            let left = rest - interface;
            let method = if left <= MAX_METHOD_WIDTH { left } else { MAX_METHOD_WIDTH };
            TransactionColumns { width, sequence, direction, interface, code, method, len }
        } else {
            let available = if width >= 4 { width - 4 } else { 0 };
            let (sequence, direction, code, len, rest) = column_layout(available, seq_want);
            let interface = if rest <= MAX_INTERFACE_WIDTH { rest } else { MAX_INTERFACE_WIDTH };
            TransactionColumns { width, sequence, direction, interface, code, method: 0, len }
        }
    }

    /// The header row.
    pub fn header(self) -> (r: String)
        ensures
            r@ == fitted(
                transaction_line(self, "Seq"@, "Dir"@, "Interface"@, "#"@, "Method"@, "Len"@),
                self.width as nat,
            ),
    {
        self.row("Seq", "Dir", "Interface", "#", "Method", "Len")
    }

    /// One row, each cell cut or padded to its column, fitted to the width.
    pub fn row(
        self,
        sequence: &str,
        direction: &str,
        interface: &str,
        code: &str,
        method: &str,
        len: &str,
    ) -> (r: String)
        ensures
            r@ == fitted(
                transaction_line(self, sequence@, direction@, interface@, code@, method@, len@),
                self.width as nat,
            ),
    {
        let mut line: Vec<char> = Vec::new();
        let cell = fit_right(sequence, self.sequence);
        append_str(&mut line, cell.as_str());
        append_str(&mut line, " ");
        let cell = fit(direction, self.direction);
        append_str(&mut line, cell.as_str());
        append_str(&mut line, " ");
        let cell = fit(interface, self.interface);
        append_str(&mut line, cell.as_str());
        append_str(&mut line, " ");
        let cell = fit_right(code, self.code);
        append_str(&mut line, cell.as_str());
        append_str(&mut line, " ");
        let cell = fit_right(len, self.len);
        append_str(&mut line, cell.as_str());
        if self.method != 0 {
            append_str(&mut line, " ");
            let cell = fit(method, self.method);
            append_str(&mut line, cell.as_str());
        }
        assert(line@ =~= transaction_line(self, sequence@, direction@, interface@, code@, method@, len@));
        let out = fit_chars(line.as_slice(), self.width);
        string_from_chars(out.as_slice())
    }
}

/// Colours transactions are drawn in, chosen by interface.
pub open spec fn transaction_colors() -> Seq<u8> {
    seq![39u8, 45, 51, 81, 87, 111, 117, 123, 159, 177, 183, 189, 204, 207, 213, 219, 222, 228]
}

/// FNV-1a over bytes, from a running hash.
pub open spec fn fnv1a_spec(hash: u64, bytes: Seq<u8>) -> u64
    decreases bytes.len(),
{
    if bytes.len() == 0 {
        hash
    } else {
        fnv1a_spec(
            vstd::wrapping::u64_specs::wrapping_mul((hash ^ (bytes[0] as u64)) as u64, 0x0000_0100_0000_01b3),
            bytes.drop_first(),
        )
    }
}

/// FNV-1a over bytes, continuing from `hash`.
pub fn fnv1a(hash: u64, bytes: &[u8]) -> (r: u64)
    ensures
        r == fnv1a_spec(hash, bytes@),
{
    let mut h = hash;
    let mut i: usize = 0;
    assert(bytes@.skip(0) =~= bytes@);
    while i < bytes.len()
        invariant
            i <= bytes@.len(),
            fnv1a_spec(hash, bytes@) == fnv1a_spec(h, bytes@.skip(i as int)),
        decreases bytes@.len() - i,
    {
        assert(bytes@.skip(i as int)[0] == bytes@[i as int]);
        assert(bytes@.skip(i as int).drop_first() =~= bytes@.skip(i + 1));
        h = (h ^ (bytes[i] as u64)).wrapping_mul(0x0000_0100_0000_01b3);
        i = i + 1;
    }
    assert(bytes@.skip(i as int) =~= Seq::<u8>::empty());
    h
}

/// The FNV-1a offset basis.
pub const FNV_OFFSET_BASIS: u64 = 0xcbf2_9ce4_8422_2325;

/// The bytes `<reply>`.
pub open spec fn reply_tag_bytes() -> Seq<u8> {
    seq![60u8, 114, 101, 112, 108, 121, 62]
}

/// The little-endian bytes of a `u32`.
pub open spec fn le_bytes_u32(v: u32) -> Seq<u8> {
    seq![(v & 0xff) as u8, ((v >> 8) & 0xff) as u8, ((v >> 16) & 0xff) as u8, ((v >> 24) & 0xff) as u8]
}

/// The hash a transaction row's colour is picked by: that of the interface
/// name's UTF-8 bytes, or, when the row names no interface, that of
/// `<reply>` followed by the code's little-endian bytes.
pub open spec fn transaction_hash(interface: Seq<char>, code: u32) -> u64 {
    if interface.len() == 0 {
        fnv1a_spec(fnv1a_spec(FNV_OFFSET_BASIS, reply_tag_bytes()), le_bytes_u32(code))
    } else {
        fnv1a_spec(FNV_OFFSET_BASIS, vstd::utf8::encode_utf8(interface))
    }
}

/// The colour of a transaction row.
pub open spec fn spec_transaction_color(interface: Seq<char>, code: u32) -> u8 {
    transaction_colors()[((transaction_hash(interface, code) as usize) as int) % 18]
}

/// The colour a transaction row is painted in, picked from a fixed palette by
/// the hash of its interface name, so that one interface keeps one colour.
pub fn transaction_color_index(summary: &TransactionSummary, event: &BinderEvent) -> (r: u8)
    ensures
        r == spec_transaction_color(summary.interface@, event.code),
{
    let palette: [u8; 18] = [
        39, 45, 51, 81, 87, 111, 117, 123, 159, 177, 183, 189, 204, 207, 213, 219, 222, 228,
    ];
    let interface = summary.interface.as_str();
    let hash = if interface.is_empty() {
        let tag: [u8; 7] = [60, 114, 101, 112, 108, 121, 62];
        let h = fnv1a(FNV_OFFSET_BASIS, &tag);
        let code = event.code;
        let code_bytes: [u8; 4] = [
            (code & 0xff) as u8,
            ((code >> 8) & 0xff) as u8,
            ((code >> 16) & 0xff) as u8,
            ((code >> 24) & 0xff) as u8,
        ];
        assert(tag@ =~= reply_tag_bytes());
        assert(code_bytes@ =~= le_bytes_u32(code));
        fnv1a(h, &code_bytes)
    } else {
        fnv1a(FNV_OFFSET_BASIS, interface.as_bytes())
    };
    assert(palette@ =~= transaction_colors());
    palette[(hash as usize) % 18]
}

/// The row a list window starts at so that the selected row stays visible.
pub open spec fn spec_visible_start(selected: nat, visible_rows: nat, len: nat) -> nat {
    if visible_rows == 0 || len <= visible_rows {
        0
    } else if selected >= visible_rows {
        min_nat((selected + 1 - visible_rows) as nat, (len - visible_rows) as nat)
    } else {
        0
    }
}

/// The first visible row of a scrolled list.
pub fn visible_start(selected: usize, visible_rows: usize, len: usize) -> (r: usize)
    ensures
        r == spec_visible_start(selected as nat, visible_rows as nat, len as nat),
{
    if visible_rows == 0 || len <= visible_rows {
        return 0;
    }
    if selected >= visible_rows {
        let a = selected - visible_rows + 1;
        let b = len - visible_rows;
        if a <= b { a } else { b }
    } else {
        0
    }
}

/// Column widths of the frequency list.
#[derive(Debug, Clone, Copy, PartialEq, Eq, Structural)]
pub struct FrequencyColumns {
    pub width: usize,
    pub label: usize,
    pub count: usize,
    pub filter: usize,
}

/// Frequency columns for a width: two gaps, then a filter column of up to 6,
/// a count column of up to 9, and the label takes the rest.
pub open spec fn spec_frequency_columns(width: nat) -> FrequencyColumns {
    let available = sat_sub(width as int, 2);
    let filter = min_nat(6, available);
    let rest = (available - filter) as nat;
    let count = min_nat(9, rest);
    FrequencyColumns {
        width: width as usize,
        label: (rest - count) as usize,
        count: count as usize,
        filter: filter as usize,
    }
}

/// A frequency row before it is fitted to the width.
pub open spec fn frequency_line(c: FrequencyColumns, label: Seq<char>, count: Seq<char>, filter: Seq<char>) -> Seq<char> {
    fitted(label, c.label as nat) + " "@ + fitted_right(count, c.count as nat) + " "@ + fitted_right(
        filter,
        c.filter as nat,
    )
}

/// The coloured label cell of a frequency entry: the interface, cut to leave
/// room for `#code`, then the code in its own colour, then padding.
pub open spec fn styled_label_spec(label_width: nat, interface: Seq<char>, code: u32, selected: bool) -> Seq<char> {
    let code_text = "#"@ + decimal(code as nat);
    let label_style = if selected { frequency_selected() } else { frequency() };
    let code_style = if selected { frequency_selected() } else { frequency_code() };
    if label_width == 0 {
        Seq::empty()
    } else if code_text.len() >= label_width {
        painted(code_style, fitted(code_text, label_width))
    } else {
        let cut = truncated(interface, (label_width - code_text.len()) as nat);
        painted(label_style, cut) + painted(code_style, code_text) + painted(
            label_style,
            repeated(' ', sat_sub(label_width as int, (text_width(cut) + code_text.len()) as int)),
        )
    }
}

/// One interface/code pair and how often it was seen.
#[derive(Debug, Clone, PartialEq, Eq)]
pub struct FrequencyEntry {
    pub label: String,
    pub interface: String,
    pub code: u32,
    pub count: u64,
}

impl FrequencyEntry {
    /// The key an entry counts.
    pub fn key(&self) -> (r: crate::tui::FrequencyKey)
        ensures
            r.interface@ == self.interface@,
            r.code == self.code,
    {
        crate::tui::FrequencyKey { interface: self.interface.clone(), code: self.code }
    }
}

impl crate::ranking::Rankable for FrequencyEntry {
    open spec fn rank_count(&self) -> u64 {
        self.count
    }

    open spec fn rank_name(&self) -> Seq<char> {
        self.label@
    }

    fn count_of(&self) -> (r: u64) {
        self.count
    }

    fn name_of(&self) -> (r: &str) {
        self.label.as_str()
    }
}

/// A coloured frequency row: the label cell, then the count and the filter
/// state right-aligned; the selected row black on the label colour.
pub open spec fn styled_row_spec(c: FrequencyColumns, entry: FrequencyEntry, filter: Seq<char>, selected: bool) -> Seq<char> {
    let count = fitted_right(decimal(entry.count as nat), c.count as nat);
    let filter_cell = fitted_right(filter, c.filter as nat);
    let label = styled_label_spec(c.label as nat, entry.interface@, entry.code, selected);
    if selected {
        let sep = painted(frequency_selected(), " "@);
        label + sep + painted(frequency_selected(), count) + sep + painted(frequency_selected(), filter_cell)
    } else {
        label + " "@ + painted(frequency(), count) + " "@ + painted(frequency(), filter_cell)
    }
}

impl FrequencyColumns {
    /// Frequency columns for a width.
    pub fn new(width: usize) -> (r: FrequencyColumns)
        ensures
            r == spec_frequency_columns(width as nat),
    {
        let available = if width >= 2 { width - 2 } else { 0 };
        let filter = if available >= 6 { 6 } else { available };
        let rest = available - filter;
        let count = if rest >= 9 { 9 } else { rest };
        FrequencyColumns { width, label: rest - count, count, filter }
    }

    /// The header row.
    pub fn header(self) -> (r: String)
        ensures
            r@ == fitted(frequency_line(self, "Interface/Code"@, "Frequency"@, "Filter"@), self.width as nat),
    {
        self.row("Interface/Code", "Frequency", "Filter")
    }

    /// One plain row fitted to the width.
    pub fn row(self, label: &str, count: &str, filter: &str) -> (r: String)
        ensures
            r@ == fitted(frequency_line(self, label@, count@, filter@), self.width as nat),
    {
        let mut line: Vec<char> = Vec::new();
        let cell = fit(label, self.label);
        append_str(&mut line, cell.as_str());
        append_str(&mut line, " ");
        let cell = fit_right(count, self.count);
        append_str(&mut line, cell.as_str());
        append_str(&mut line, " ");
        let cell = fit_right(filter, self.filter);
        append_str(&mut line, cell.as_str());
        assert(line@ =~= frequency_line(self, label@, count@, filter@));
        let out = fit_chars(line.as_slice(), self.width);
        string_from_chars(out.as_slice())
    }

    /// The coloured label cell of an entry.
    pub fn styled_label(self, entry: &FrequencyEntry, selected: bool) -> (r: String)
        ensures
            r@ == styled_label_spec(self.label as nat, entry.interface@, entry.code, selected),
    {
        let mut code_text: Vec<char> = Vec::new();
        code_text.push('#');
        let digits = decimal_chars(entry.code as u64);
        append_chars(&mut code_text, digits.as_slice());
        assert(code_text@ =~= "#"@ + decimal(entry.code as nat)) by {
            reveal_strlit("#");
        }
        let label_style = if selected {
            TextStyle::BlackOn(ColorSpec::Rgb(176, 223, 226))
        } else {
            TextStyle::Fg(ColorSpec::Rgb(176, 223, 226))
        };
        let code_style = if selected {
            TextStyle::BlackOn(ColorSpec::Rgb(176, 223, 226))
        } else {
            TextStyle::Fg(ColorSpec::Ansi256(226))
        };
        if self.label == 0 {
            return String::new();
        }
        let code_width = code_text.len();
        if code_width >= self.label {
            let cell = fit_chars(code_text.as_slice(), self.label);
            let cell = string_from_chars(cell.as_slice());
            return paint(code_style, cell.as_str());
        }
        let interface_chars = crate::text::chars_of(entry.interface.as_str());
        let cut = truncate_chars(interface_chars.as_slice(), self.label - code_width);
        proof {
            crate::text::lemma_truncated_width(entry.interface@, (self.label - code_width) as nat);
        }
        let cut_width = chars_display_width(cut.as_slice());
        let padding = if self.label >= cut_width + code_width {
            self.label - (cut_width + code_width)
        } else {
            0
        };
        let cut_text = string_from_chars(cut.as_slice());
        let code_string = string_from_chars(code_text.as_slice());
        let pad = repeat_char(' ', padding);
        let pad_text = string_from_chars(pad.as_slice());
        let mut out: Vec<char> = Vec::new();
        let part = paint(label_style, cut_text.as_str());
        append_str(&mut out, part.as_str());
        let part = paint(code_style, code_string.as_str());
        append_str(&mut out, part.as_str());
        let part = paint(label_style, pad_text.as_str());
        append_str(&mut out, part.as_str());
        string_from_chars(out.as_slice())
    }

    /// A coloured row for an entry, highlighted when selected.
    pub fn styled_row(self, entry: &FrequencyEntry, filter: &str, selected: bool) -> (r: String)
        ensures
            r@ == styled_row_spec(self, *entry, filter@, selected),
    {
        let digits = decimal_chars(entry.count);
        let count = fit_right_chars(digits.as_slice(), self.count);
        let count = string_from_chars(count.as_slice());
        let filter_cell = fit_right(filter, self.filter);
        let label = self.styled_label(entry, selected);
        let mut out: Vec<char> = Vec::new();
        append_str(&mut out, label.as_str());
        if selected {
            let style = TextStyle::BlackOn(ColorSpec::Rgb(176, 223, 226));
            let sep = paint(style, " ");
            append_str(&mut out, sep.as_str());
            let part = paint(style, count.as_str());
            append_str(&mut out, part.as_str());
            append_str(&mut out, sep.as_str());
            let part = paint(style, filter_cell.as_str());
            append_str(&mut out, part.as_str());
        } else {
            let style = TextStyle::Fg(ColorSpec::Rgb(176, 223, 226));
            append_str(&mut out, " ");
            let part = paint(style, count.as_str());
            append_str(&mut out, part.as_str());
            append_str(&mut out, " ");
            let part = paint(style, filter_cell.as_str());
            append_str(&mut out, part.as_str());
        }
        string_from_chars(out.as_slice())
    }
}

/// Panel size: at least 8 wide and 3 high.
pub open spec fn panel_width(width: nat) -> nat {
    if width >= 8 { width } else { 8 }
}

/// Panel size: at least 8 wide and 3 high.
pub open spec fn panel_height(height: nat) -> nat {
    if height >= 3 { height } else { 3 }
}

/// The inner size a panel's body is drawn into.
pub fn panel_inner_size(width: usize, height: usize) -> (r: (usize, usize))
    ensures
        r.0 == panel_width(width as nat) - 2,
        r.1 == panel_height(height as nat) - 2,
{
    let w = if width >= 8 { width } else { 8 };
    let h = if height >= 3 { height } else { 3 };
    (w - 2, h - 2)
}

/// A body line between two vertical borders.
pub open spec fn panel_line(style: TextStyle, content: Seq<char>) -> Seq<char> {
    painted(style, "│"@) + content + painted(style, "│"@)
}

/// The title of a panel in its top border; the focused panel's is bracketed.
pub open spec fn border_title(title: Seq<char>, focused: bool) -> Seq<char> {
    if focused {
        " ["@ + title + "] "@
    } else {
        " "@ + title + " "@
    }
}

/// The top border of a panel `width` wide with the title centred, measured in
/// UTF-8 bytes; a title that does not fit is cut instead.
pub open spec fn spec_top_border(title: Seq<char>, width: nat, focused: bool, style: TextStyle) -> Seq<char> {
    let inner = sat_sub(width as int, 2);
    let t = border_title(title, focused);
    let tlen = (vstd::utf8::encode_utf8(t).len() as usize) as nat;
    if tlen >= inner {
        painted(style, "┌"@ + fitted(t, inner) + "┐"@)
    } else {
        let left = ((inner - tlen) / 2) as nat;
        let right = (inner - tlen - left) as nat;
        painted(style, "┌"@ + repeated('─', left) + t + repeated('─', right) + "┐"@)
    }
}

/// Draws the top border of a panel.
pub fn top_border(title: &str, width: usize, focused: bool, style: TextStyle) -> (r: String)
    ensures
        r@ == spec_top_border(title@, width as nat, focused, style),
{
    let inner = if width >= 2 { width - 2 } else { 0 };
    let mut t: Vec<char> = Vec::new();
    if focused {
        append_str(&mut t, " [");
        append_str(&mut t, title);
        append_str(&mut t, "] ");
    } else {
        append_str(&mut t, " ");
        append_str(&mut t, title);
        append_str(&mut t, " ");
    }
    assert(t@ =~= border_title(title@, focused));
    let t_text = string_from_chars(t.as_slice());
    let tlen = t_text.as_str().len();
    let mut out: Vec<char> = Vec::new();
    append_str(&mut out, "┌");
    if tlen >= inner {
        let cell = fit_chars(t.as_slice(), inner);
        append_chars(&mut out, cell.as_slice());
        append_str(&mut out, "┐");
        assert(out@ =~= "┌"@ + fitted(t@, inner as nat) + "┐"@);
        let line = string_from_chars(out.as_slice());
        return paint(style, line.as_str());
    } else {
        let left = (inner - tlen) / 2;
        let right = inner - tlen - left;
        let bar = repeat_char('─', left);
        append_chars(&mut out, bar.as_slice());
        append_chars(&mut out, t.as_slice());
        let bar = repeat_char('─', right);
        append_chars(&mut out, bar.as_slice());
    }
    append_str(&mut out, "┐");
    assert(out@ =~= "┌"@ + repeated('─', ((inner - tlen) / 2) as nat) + t@ + repeated('─', (inner - tlen - (inner - tlen) / 2) as nat) + "┐"@);
    let line = string_from_chars(out.as_slice());
    paint(style, line.as_str())
}

/// Whether `lines` is a panel: a titled top border (bracketed and green when
/// focused), the body lines that fit between the side borders, blank lines
/// below them, and the bottom border.
pub open spec fn is_panel(
    lines: Seq<String>,
    title: Seq<char>,
    focused: bool,
    width: nat,
    height: nat,
    body: Seq<Seq<char>>,
) -> bool {
    let w = panel_width(width);
    let h = panel_height(height);
    let style = if focused {
        focused_border()
    } else {
        border()
    };
    let shown = min_nat(body.len(), (h - 2) as nat);
    &&& lines.len() == h
    &&& lines[0]@ == spec_top_border(title, w, focused, style)
    &&& forall|i: int| 1 <= i <= shown ==> (#[trigger] lines[i])@ == panel_line(style, body[i - 1])
    &&& forall|i: int| shown < i < h - 1 ==> (#[trigger] lines[i])@ == panel_line(style, repeated(' ', (w - 2) as nat))
    &&& lines[h - 1]@ == painted(style, "└"@ + repeated('─', (w - 2) as nat) + "┘"@)
}

/// Draws a panel: a titled top border, the body lines that fit between the
/// side borders, blank lines below them, and the bottom border. The body is
/// drawn for the inner size that [`panel_inner_size`] gives.
pub fn render_panel(title: &str, focused: bool, width: usize, height: usize, body: &Vec<String>) -> (r: Vec<String>)
    ensures
        is_panel(r@, title@, focused, width as nat, height as nat, body@.map(|i: int, s: String| s@)),
{
    let w: usize = if width >= 8 { width } else { 8 };
    let h: usize = if height >= 3 { height } else { 3 };
    let inner_width = w - 2;
    let inner_height = h - 2;
    let style = if focused {
        TextStyle::Fg(ColorSpec::Ansi256(120))
    } else {
        TextStyle::Fg(ColorSpec::Ansi256(15))
    };
    let shown: usize = if body.len() <= inner_height { body.len() } else { inner_height };
    let mut lines: Vec<String> = Vec::new();
    lines.push(top_border(title, w, focused, style));
    let side = paint(style, "│");
    let mut i: usize = 0;
    while i < shown
        invariant
            shown <= body@.len(),
            shown <= inner_height,
            i <= shown,
            lines@.len() == i + 1,
            lines@[0]@ == spec_top_border(title@, w as nat, focused, style),
            side@ == painted(style, "│"@),
            forall|k: int| 1 <= k <= i ==> (#[trigger] lines@[k])@ == panel_line(style, body@[k - 1]@),
        decreases shown - i,
    {
        let mut line: Vec<char> = Vec::new();
        append_str(&mut line, side.as_str());
        append_str(&mut line, body[i].as_str());
        append_str(&mut line, side.as_str());
        lines.push(string_from_chars(line.as_slice()));
        i = i + 1;
    }
    let blank = repeat_char(' ', inner_width);
    while lines.len() + 1 < h
        invariant
            shown + 1 <= lines@.len() <= h - 1,
            h >= 3,
            lines@[0]@ == spec_top_border(title@, w as nat, focused, style),
            side@ == painted(style, "│"@),
            blank@ == repeated(' ', inner_width as nat),
            forall|k: int| 1 <= k <= shown ==> (#[trigger] lines@[k])@ == panel_line(style, body@[k - 1]@),
            forall|k: int| shown < k < lines@.len() ==> (#[trigger] lines@[k])@ == panel_line(style, repeated(' ', inner_width as nat)),
        decreases h - lines@.len(),
    {
        let mut line: Vec<char> = Vec::new();
        append_str(&mut line, side.as_str());
        append_chars(&mut line, blank.as_slice());
        append_str(&mut line, side.as_str());
        lines.push(string_from_chars(line.as_slice()));
    }
    let mut bottom: Vec<char> = Vec::new();
    append_str(&mut bottom, "└");
    let bar = repeat_char('─', inner_width);
    append_chars(&mut bottom, bar.as_slice());
    append_str(&mut bottom, "┘");
    let bottom = string_from_chars(bottom.as_slice());
    lines.push(paint(style, bottom.as_str()));
    lines
}

/// A dimmed line fitted to a width.
pub fn dim_line(text: &str, width: usize) -> (r: String)
    ensures
        r@ == painted(TextStyle::Muted, fitted(text@, width as nat)),
{
    let cell = fit(text, width);
    paint(TextStyle::Muted, cell.as_str())
}

} // verus!
