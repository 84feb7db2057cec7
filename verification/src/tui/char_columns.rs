//! The compact single-screen layout, which measures text in characters.
use vstd::prelude::*;

use crate::platform::AndroidPlatformMethods;
use crate::socket_ipc::BinderEvent;
use crate::text::{
    append_chars, append_str, chars_of, decimal, decimal_chars, repeat_char, repeated,
    string_from_chars,
};
use crate::tui::render::{FrequencyEntry, min_nat, sat_sub};
use crate::tui::theme::{ColorSpec, TextStyle, paint, painted};
use crate::tui::{event_interface, event_method};

verus! {

/// Text cut to `width` characters: unchanged when it fits; otherwise its
/// first `width - 3` characters and `...`, or only dots for three or less.
pub open spec fn char_truncated(s: Seq<char>, width: nat) -> Seq<char> {
    if width == 0 {
        Seq::empty()
    } else if s.len() <= width {
        s
    } else if width <= 3 {
        repeated('.', width)
    } else {
        s.take(width - 3) + "..."@
    }
}

/// Text cut or padded on the right to exactly `width` characters.
pub open spec fn char_fitted(s: Seq<char>, width: nat) -> Seq<char> {
    let t = char_truncated(s, width);
    if t.len() < width {
        t + repeated(' ', (width - t.len()) as nat)
    } else {
        t
    }
}

/// Text cut or padded on the left to exactly `width` characters.
pub open spec fn char_fitted_right(s: Seq<char>, width: nat) -> Seq<char> {
    let t = char_truncated(s, width);
    if t.len() < width {
        repeated(' ', (width - t.len()) as nat) + t
    } else {
        t
    }
}

/// A cut text is never longer than the width.
pub proof fn lemma_char_truncated_len(s: Seq<char>, width: nat)
    ensures
        char_truncated(s, width).len() <= width,
{
    if width > 3 && s.len() > width {
        assert(("..."@).len() == 3) by {
            reveal_strlit("...");
        }
    }
}

/// Fitting gives exactly the requested number of characters, on either side.
pub proof fn lemma_char_fitted_len(s: Seq<char>, width: nat)
    ensures
        char_fitted(s, width).len() == width,
        char_fitted_right(s, width).len() == width,
{
    lemma_char_truncated_len(s, width);
}

fn truncate_char_seq(s: &[char], width: usize) -> (r: Vec<char>)
    ensures
        r@ == char_truncated(s@, width as nat),
{
    if width == 0 {
        return Vec::new();
    }
    if s.len() <= width {
        let mut out: Vec<char> = Vec::new();
        append_chars(&mut out, s);
        return out;
    }
    if width <= 3 {
        return repeat_char('.', width);
    }
    let mut out: Vec<char> = Vec::new();
    let mut i: usize = 0;
    while i < width - 3
        invariant
            width > 3,
            width < s@.len(),
            i <= width - 3,
            out@ == s@.take(i as int),
        decreases width - 3 - i,
    {
        out.push(s[i]);
        i = i + 1;
        assert(out@ =~= s@.take(i as int));
    }
    append_str(&mut out, "...");
    out
}

/// Text cut to `width` characters, marking the cut with `...`.
pub fn truncate_with_ellipsis(text: &str, width: usize) -> (r: String)
    ensures
        r@ == char_truncated(text@, width as nat),
{
    let chars = chars_of(text);
    let out = truncate_char_seq(chars.as_slice(), width);
    string_from_chars(out.as_slice())
}

fn fit_char_seq(s: &[char], width: usize) -> (r: Vec<char>)
    ensures
        r@ == char_fitted(s@, width as nat),
{
    let mut out = truncate_char_seq(s, width);
    proof {
        lemma_char_truncated_len(s@, width as nat);
    }
    if out.len() < width {
        let pad = repeat_char(' ', width - out.len());
        append_chars(&mut out, pad.as_slice());
    }
    out
}

fn fit_right_char_seq(s: &[char], width: usize) -> (r: Vec<char>)
    ensures
        r@ == char_fitted_right(s@, width as nat),
{
    let cut = truncate_char_seq(s, width);
    proof {
        lemma_char_truncated_len(s@, width as nat);
    }
    if cut.len() < width {
        let mut out = repeat_char(' ', width - cut.len());
        append_chars(&mut out, cut.as_slice());
        out
    } else {
        cut
    }
}

/// Text cut or padded on the right to exactly `width` characters.
pub fn fit(text: &str, width: usize) -> (r: String)
    ensures
        r@ == char_fitted(text@, width as nat),
{
    let chars = chars_of(text);
    let out = fit_char_seq(chars.as_slice(), width);
    string_from_chars(out.as_slice())
}

/// Text cut or padded on the left to exactly `width` characters.
pub fn fit_right(text: &str, width: usize) -> (r: String)
    ensures
        r@ == char_fitted_right(text@, width as nat),
{
    let chars = chars_of(text);
    let out = fit_right_char_seq(chars.as_slice(), width);
    string_from_chars(out.as_slice())
}

/// Column widths of the transaction list.
#[derive(Debug, Clone, Copy, PartialEq, Eq, Structural)]
pub struct TransactionColumns {
    pub width: usize,
    pub sequence: usize,
    pub interface: usize,
    pub code: usize,
    pub method: usize,
    pub len: usize,
}

/// The column widths for a terminal width: sequence 8, code 10 and length 8
/// cells first; the method column (12 to 28, when wanted) only when the
/// interface keeps at least 18; the interface at most 56.
pub open spec fn spec_columns(width: nat, has_method: bool) -> TransactionColumns {
    let available = sat_sub(width as int, if has_method {
        4
    } else {
        3
    });
    let sequence = min_nat(8, available);
    let r1 = sat_sub(available as int, sequence as int);
    let code = min_nat(10, r1);
    let r2 = sat_sub(r1 as int, code as int);
    let len = min_nat(8, r2);
    let r3 = sat_sub(r2 as int, len as int);
    let method = if has_method && r3 > 18 && r3 - 18 >= 12 {
        min_nat(28, (r3 - 18) as nat)
    } else {
        0
    };
    let interface = min_nat(sat_sub(r3 as int, method as int), 56);
    TransactionColumns {
        width: width as usize,
        sequence: sequence as usize,
        interface: interface as usize,
        code: code as usize,
        method: method as usize,
        len: len as usize,
    }
}

/// The cells of a row before fitting to the width: the method cell only
/// when the layout has a method column.
pub open spec fn row_line(
    c: TransactionColumns,
    sequence: Seq<char>,
    interface: Seq<char>,
    code: Seq<char>,
    method: Seq<char>,
    len: Seq<char>,
) -> Seq<char> {
    if c.method == 0 {
        char_fitted_right(sequence, c.sequence as nat) + " "@ + char_fitted(interface, c.interface as nat)
            + " "@ + char_fitted_right(code, c.code as nat) + " "@ + char_fitted_right(len, c.len as nat)
    } else {
        char_fitted_right(sequence, c.sequence as nat) + " "@ + char_fitted(interface, c.interface as nat)
            + " "@ + char_fitted_right(code, c.code as nat) + " "@ + char_fitted(method, c.method as nat)
            + " "@ + char_fitted_right(len, c.len as nat)
    }
}

impl TransactionColumns {
    /// The column widths for a terminal width.
    pub fn new(width: usize, has_method: bool) -> (r: TransactionColumns)
        ensures
            r == spec_columns(width as nat, has_method),
    {
        let gap: usize = if has_method {
            4
        } else {
            3
        };
        let available = if width >= gap {
            width - gap
        } else {
            0
        };
        let sequence = if available <= 8 {
            available
        } else {
            8
        };
        let r1 = available - sequence;
        let code = if r1 <= 10 {
            r1
        } else {
            10
        };
        let r2 = r1 - code;
        let len = if r2 <= 8 {
            r2
        } else {
            8
        };
        let r3 = r2 - len;
        let method = if has_method && r3 > 18 && r3 - 18 >= 12 {
            if r3 - 18 <= 28 {
                r3 - 18
            } else {
                28
            }
        } else {
            0
        };
        let rest = if r3 >= method {
            r3 - method
        } else {
            0
        };
        let interface = if rest <= 56 {
            rest
        } else {
            56
        };
        TransactionColumns { width, sequence, interface, code, method, len }
    }

    /// The header row.
    pub fn header(self) -> (r: String)
        ensures
            r@ == char_fitted(row_line(self, "Seq"@, "Interface"@, "#"@, "Method"@, "Len"@), self.width as nat),
    {
        self.row("Seq", "Interface", "#", "Method", "Len")
    }

    /// One row: each cell cut or padded to its column, the whole fitted to
    /// the width.
    pub fn row(self, sequence: &str, interface: &str, code: &str, method: &str, len: &str) -> (r: String)
        ensures
            r@ == char_fitted(row_line(self, sequence@, interface@, code@, method@, len@), self.width as nat),
    {
        let mut line: Vec<char> = Vec::new();
        let cell = fit_right(sequence, self.sequence);
        append_str(&mut line, cell.as_str());
        append_str(&mut line, " ");
        let cell = fit(interface, self.interface);
        append_str(&mut line, cell.as_str());
        append_str(&mut line, " ");
        let cell = fit_right(code, self.code);
        append_str(&mut line, cell.as_str());
        append_str(&mut line, " ");
        if self.method != 0 {
            let cell = fit(method, self.method);
            append_str(&mut line, cell.as_str());
            append_str(&mut line, " ");
        }
        let cell = fit_right(len, self.len);
        append_str(&mut line, cell.as_str());
        assert(line@ =~= row_line(self, sequence@, interface@, code@, method@, len@));
        let out = fit_char_seq(line.as_slice(), self.width);
        string_from_chars(out.as_slice())
    }
}

/// Column widths of the frequency list.
#[derive(Debug, Clone, Copy, PartialEq, Eq, Structural)]
pub struct FrequencyColumns {
    pub width: usize,
    pub label: usize,
    pub count: usize,
    pub filter: usize,
}

/// The frequency columns for a width: two gaps, a filter of 6 and a count
/// of 9 cells first, the label the rest.
pub open spec fn spec_frequency_columns(width: nat) -> FrequencyColumns {
    let available = sat_sub(width as int, 2);
    let filter = min_nat(6, available);
    let rest = (available - filter) as nat;
    let count = min_nat(9, rest);
    FrequencyColumns {
        width: width as usize,
        label: (rest - count) as usize,
        count: count as usize,
        filter: filter as usize,
    }
}

/// The label cell of an entry: the interface (cut to leave room) in the
/// frequency colour, `#<code>` in the code colour, then padding; only the
/// code when it does not fit.
pub open spec fn spec_styled_label(label: nat, interface: Seq<char>, code: u32) -> Seq<char> {
    let code_text = "#"@ + decimal(code as nat);
    let freq = TextStyle::Fg(ColorSpec::Ansi256(120));
    let code_style = TextStyle::Fg(ColorSpec::Ansi256(226));
    if label == 0 {
        Seq::empty()
    } else if code_text.len() >= label {
        painted(code_style, char_fitted(code_text, label))
    } else {
        let cut = char_truncated(interface, (label - code_text.len()) as nat);
        let pad = sat_sub(label as int, (cut.len() + code_text.len()) as int);
        painted(freq, cut) + painted(code_style, code_text) + painted(freq, repeated(' ', pad))
    }
}

impl FrequencyColumns {
    /// The frequency columns for a width.
    pub fn new(width: usize) -> (r: FrequencyColumns)
        ensures
            r == spec_frequency_columns(width as nat),
    {
        let available = if width >= 2 {
            width - 2
        } else {
            0
        };
        let filter = if available >= 6 {
            6
        } else {
            available
        };
        let rest = available - filter;
        let count = if rest >= 9 {
            9
        } else {
            rest
        };
        FrequencyColumns { width, label: rest - count, count, filter }
    }

    /// The header row.
    pub fn header(self) -> (r: String)
        ensures
            r@ == char_fitted(
                char_fitted("Interface/Code"@, self.label as nat) + " "@ + char_fitted_right(
                    "Frequency"@,
                    self.count as nat,
                ) + " "@ + char_fitted_right("Filter"@, self.filter as nat),
                self.width as nat,
            ),
    {
        self.row("Interface/Code", "Frequency", "Filter")
    }

    /// One plain row, fitted to the width.
    pub fn row(self, label: &str, count: &str, filter: &str) -> (r: String)
        ensures
            r@ == char_fitted(
                char_fitted(label@, self.label as nat) + " "@ + char_fitted_right(count@, self.count as nat)
                    + " "@ + char_fitted_right(filter@, self.filter as nat),
                self.width as nat,
            ),
    {
        let mut line: Vec<char> = Vec::new();
        let cell = fit(label, self.label);
        append_str(&mut line, cell.as_str());
        append_str(&mut line, " ");
        let cell = fit_right(count, self.count);
        append_str(&mut line, cell.as_str());
        append_str(&mut line, " ");
        let cell = fit_right(filter, self.filter);
        append_str(&mut line, cell.as_str());
        let out = fit_char_seq(line.as_slice(), self.width);
        assert(line@ =~= char_fitted(label@, self.label as nat) + " "@ + char_fitted_right(
            count@,
            self.count as nat,
        ) + " "@ + char_fitted_right(filter@, self.filter as nat));
        string_from_chars(out.as_slice())
    }

    /// The coloured label cell of an entry.
    pub fn styled_label(self, entry: &FrequencyEntry) -> (r: String)
        ensures
            r@ == spec_styled_label(self.label as nat, entry.interface@, entry.code),
    {
        let mut code_text: Vec<char> = Vec::new();
        code_text.push('#');
        let digits = decimal_chars(entry.code as u64);
        append_chars(&mut code_text, digits.as_slice());
        assert(code_text@ =~= "#"@ + decimal(entry.code as nat)) by {
            reveal_strlit("#");
        }
        let freq = TextStyle::Fg(ColorSpec::Ansi256(120));
        let code_style = TextStyle::Fg(ColorSpec::Ansi256(226));
        if self.label == 0 {
            return String::new();
        }
        let code_width = code_text.len();
        if code_width >= self.label {
            let cell = fit_char_seq(code_text.as_slice(), self.label);
            let cell = string_from_chars(cell.as_slice());
            return paint(code_style, cell.as_str());
        }
        let interface_chars = chars_of(entry.interface.as_str());
        let cut = truncate_char_seq(interface_chars.as_slice(), self.label - code_width);
        proof {
            lemma_char_truncated_len(entry.interface@, (self.label - code_width) as nat);
        }
        let padding = if self.label >= cut.len() + code_width {
            self.label - (cut.len() + code_width)
        } else {
            0
        };
        let cut_text = string_from_chars(cut.as_slice());
        let code_string = string_from_chars(code_text.as_slice());
        let pad = repeat_char(' ', padding);
        let pad_text = string_from_chars(pad.as_slice());
        let mut out: Vec<char> = Vec::new();
        let part = paint(freq, cut_text.as_str());
        append_str(&mut out, part.as_str());
        let part = paint(code_style, code_string.as_str());
        append_str(&mut out, part.as_str());
        let part = paint(freq, pad_text.as_str());
        append_str(&mut out, part.as_str());
        string_from_chars(out.as_slice())
    }

    /// A coloured row for an entry: label, count and filter cells.
    pub fn styled_row(self, entry: &FrequencyEntry, filter: &str) -> (r: String)
        ensures
            r@ == spec_styled_label(self.label as nat, entry.interface@, entry.code) + " "@ + painted(
                TextStyle::Fg(ColorSpec::Ansi256(120)),
                char_fitted_right(decimal(entry.count as nat), self.count as nat),
            ) + " "@ + painted(
                TextStyle::Fg(ColorSpec::Ansi256(120)),
                char_fitted_right(filter@, self.filter as nat),
            ),
    {
        let freq = TextStyle::Fg(ColorSpec::Ansi256(120));
        let mut out: Vec<char> = Vec::new();
        let label = self.styled_label(entry);
        append_str(&mut out, label.as_str());
        append_str(&mut out, " ");
        let digits = decimal_chars(entry.count);
        let count_cell = fit_right_char_seq(digits.as_slice(), self.count);
        let count_text = string_from_chars(count_cell.as_slice());
        let part = paint(freq, count_text.as_str());
        append_str(&mut out, part.as_str());
        append_str(&mut out, " ");
        let filter_cell = fit_right(filter, self.filter);
        let part = paint(freq, filter_cell.as_str());
        append_str(&mut out, part.as_str());
        string_from_chars(out.as_slice())
    }
}

/// What the interface list shows for an event in this layout.
#[derive(Debug, Clone, PartialEq, Eq)]
pub struct TransactionSummary {
    pub interface: String,
    pub method: String,
}

impl TransactionSummary {
    /// Replies name nothing; a send names the interface token of its Parcel
    /// and, when the platform table knows it, the method.
    pub fn new(event: &BinderEvent, platform_methods: Option<&AndroidPlatformMethods>) -> (r: TransactionSummary)
        ensures
            r.interface@ == event_interface(*event),
            r.method@ == event_method(
                *event,
                match platform_methods {
                    Some(m) => Some(*m),
                    None => None,
                },
            ),
    {
        let s = crate::tui::TransactionSummary::new(event, platform_methods);
        TransactionSummary { interface: s.interface, method: s.method }
    }
}

/// An interface and code whose calls are counted together.
#[derive(Debug, Clone, PartialEq, Eq)]
pub struct FrequencyKey {
    pub interface: String,
    pub code: u32,
}

impl FrequencyKey {
    /// The key of a send whose Parcel names an interface; other events have none.
    pub fn from_event(event: &BinderEvent, platform_methods: Option<&AndroidPlatformMethods>) -> (r: Option<FrequencyKey>)
        ensures
            event_interface(*event).len() == 0 ==> r is None,
            event_interface(*event).len() > 0 ==> (r matches Some(k) && k.interface@ == event_interface(
                *event,
            ) && k.code == event.code),
    {
        let summary = TransactionSummary::new(event, platform_methods);
        if summary.interface.as_str().is_empty() {
            return None;
        }
        Some(FrequencyKey { interface: summary.interface, code: event.code })
    }

    /// The label of a key: `<interface>#<code>`.
    pub fn label(&self) -> (r: String)
        ensures
            r@ == self.interface@ + "#"@ + decimal(self.code as nat),
    {
        let mut text: Vec<char> = Vec::new();
        append_str(&mut text, self.interface.as_str());
        append_str(&mut text, "#");
        let digits = decimal_chars(self.code as u64);
        append_chars(&mut text, digits.as_slice());
        string_from_chars(text.as_slice())
    }
}

} // verus!
