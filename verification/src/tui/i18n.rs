use vstd::prelude::*;

use crate::text::{
    append_chars, append_str, ascii_lower, chars_of, decimal, decimal_chars, fit_chars, fitted,
    string_from_chars, to_ascii_lower, trim_text, trimmed,
};
use crate::tui::FocusPane;
use crate::tui::state::TuiState;
use crate::tui::theme::{ColorSpec, TextStyle, paint, painted};

verus! {

/// The languages the terminal UI is shown in.
#[derive(Debug, Clone, Copy, PartialEq, Eq, Structural)]
pub enum UiLanguage {
    English,
    Chinese,
    Japanese,
}

/// A locale character as it is compared: ASCII lowercase, `-` read as `_`.
pub open spec fn locale_char(c: char) -> char {
    if ascii_lower(c) == '-' {
        '_'
    } else {
        ascii_lower(c)
    }
}

/// Whether a locale, once trimmed and normalised, starts with two letters.
pub open spec fn locale_starts_with(t: Seq<char>, a: char, b: char) -> bool {
    t.len() >= 2 && locale_char(t[0]) == a && locale_char(t[1]) == b
}

/// The language a locale name selects: `zh…`, `ja…` or `en…`, compared
/// without case after trimming; any other locale selects none.
pub open spec fn spec_from_locale(value: Seq<char>) -> Option<UiLanguage> {
    let t = trimmed(value);
    if locale_starts_with(t, 'z', 'h') {
        Some(UiLanguage::Chinese)
    } else if locale_starts_with(t, 'j', 'a') {
        Some(UiLanguage::Japanese)
    } else if locale_starts_with(t, 'e', 'n') {
        Some(UiLanguage::English)
    } else {
        None
    }
}

/// The language of the first `:`-separated locale in `rest` (after the
/// pending part `current`) that selects one.
pub open spec fn locale_list_language(rest: Seq<char>, current: Seq<char>) -> Option<UiLanguage>
    decreases rest.len(),
{
    if rest.len() == 0 {
        spec_from_locale(current)
    } else if rest[0] == ':' {
        match spec_from_locale(current) {
            Some(language) => Some(language),
            None => locale_list_language(rest.drop_first(), Seq::empty()),
        }
    } else {
        locale_list_language(rest.drop_first(), current.push(rest[0]))
    }
}

/// The language of a `:`-separated locale list.
pub open spec fn spec_from_locale_list(value: Seq<char>) -> Option<UiLanguage> {
    locale_list_language(value, Seq::empty())
}

fn normalized_locale_char(c: char) -> (r: char)
    ensures
        r == locale_char(c),
{
    let lower = to_ascii_lower(c);
    if lower == '-' {
        '_'
    } else {
        lower
    }
}

impl UiLanguage {
    /// The language a locale name such as `zh_CN` or `en-US.UTF-8` selects.
    pub fn from_locale(value: &str) -> (r: Option<UiLanguage>)
        ensures
            r == spec_from_locale(value@),
    {
        let t = trim_text(value);
        let chars = chars_of(t);
        if chars.len() < 2 {
            return None;
        }
        let a = normalized_locale_char(chars[0]);
        let b = normalized_locale_char(chars[1]);
        if a == 'z' && b == 'h' {
            Some(UiLanguage::Chinese)
        } else if a == 'j' && b == 'a' {
            Some(UiLanguage::Japanese)
        } else if a == 'e' && b == 'n' {
            Some(UiLanguage::English)
        } else {
            None
        }
    }

    /// The language of the first entry of a `:`-separated locale list
    /// (as in `LANGUAGE`) that selects one.
    pub fn from_locale_list(value: &str) -> (r: Option<UiLanguage>)
        ensures
            r == spec_from_locale_list(value@),
    {
        let chars = chars_of(value);
        let mut current: Vec<char> = Vec::new();
        let mut i: usize = 0;
        assert(chars@.skip(0) =~= chars@);
        assert(current@ =~= Seq::<char>::empty());
        while i < chars.len()
            invariant
                chars@ == value@,
                i <= chars@.len(),
                spec_from_locale_list(value@) == locale_list_language(chars@.skip(i as int), current@),
            decreases chars@.len() - i,
        {
            assert(chars@.skip(i as int)[0] == chars@[i as int]);
            assert(chars@.skip(i as int).drop_first() =~= chars@.skip(i + 1));
            if chars[i] == ':' {
                let segment = string_from_chars(current.as_slice());
                let found = UiLanguage::from_locale(segment.as_str());
                if found.is_some() {
                    return found;
                }
                current = Vec::new();
                assert(current@ =~= Seq::<char>::empty());
            } else {
                current.push(chars[i]);
            }
            i = i + 1;
        }
        assert(chars@.skip(i as int) =~= Seq::<char>::empty());
        let segment = string_from_chars(current.as_slice());
        UiLanguage::from_locale(segment.as_str())
    }

    /// The language of the first source whose locale list selects one, in
    /// the order given; English when none does.
    pub fn detect_from(sources: &[Option<String>]) -> (r: UiLanguage)
        ensures
            r == spec_detect_from(source_views(sources@)),
    {
        let ghost views = source_views(sources@);
        let mut i: usize = 0;
        assert(views.skip(0) =~= views);
        while i < sources.len()
            invariant
                i <= sources@.len(),
                views == source_views(sources@),
                spec_detect_from(views) == spec_detect_from(views.skip(i as int)),
            decreases sources@.len() - i,
        {
            assert(views.skip(i as int)[0] == views[i as int]);
            assert(views.skip(i as int).drop_first() =~= views.skip(i + 1));
            match &sources[i] {
                Some(value) => {
                    let found = UiLanguage::from_locale_list(value.as_str());
                    if let Some(language) = found {
                        return language;
                    }
                },
                None => {},
            }
            i = i + 1;
        }
        assert(views.skip(i as int) =~= Seq::<Option<Seq<char>>>::empty());
        UiLanguage::English
    }
}

/// The text of locale sources; a missing source stays missing.
pub open spec fn source_views(sources: Seq<Option<String>>) -> Seq<Option<Seq<char>>> {
    Seq::new(
        sources.len(),
        |i: int|
            match sources[i] {
                Some(v) => Some(v@),
                None => None,
            },
    )
}

/// The language of the first source whose locale list selects one, or
/// English.
pub open spec fn spec_detect_from(sources: Seq<Option<Seq<char>>>) -> UiLanguage
    decreases sources.len(),
{
    if sources.len() == 0 {
        UiLanguage::English
    } else {
        match sources[0] {
            Some(value) => match spec_from_locale_list(value) {
                Some(language) => language,
                None => spec_detect_from(sources.drop_first()),
            },
            None => spec_detect_from(sources.drop_first()),
        }
    }
}

/// Yes and no, as the status line shows them.
#[derive(Debug, Clone, PartialEq, Eq)]
pub struct BooleanMessages {
    pub enabled: String,
    pub disabled: String,
}

/// The names of the panels in the status line.
#[derive(Debug, Clone, PartialEq, Eq)]
pub struct FocusMessages {
    pub transactions: String,
    pub frequency: String,
    pub hexdump: String,
    pub parsed: String,
}

/// The key hint of the transaction panel: a template whose `{space}` names
/// what space does now.
#[derive(Debug, Clone, PartialEq, Eq)]
pub struct TransactionKeyMessages {
    pub template: String,
    pub recording_space: String,
    pub paused_space: String,
}

/// The key hints of the panels.
#[derive(Debug, Clone, PartialEq, Eq)]
pub struct KeyMessages {
    pub transactions: TransactionKeyMessages,
    pub frequency: String,
    pub hexdump: String,
    pub parsed: String,
}

/// The texts of one language: placeholders are written `{name}`.
#[derive(Debug, Clone, PartialEq, Eq)]
pub struct Messages {
    pub unknown: String,
    pub boolean: BooleanMessages,
    pub focus: FocusMessages,
    pub status: String,
    pub keys: KeyMessages,
}

/// `s` with each occurrence of `pattern`, from the left and not
/// overlapping, replaced by `with` (meant for a non-empty pattern).
pub open spec fn replaced(s: Seq<char>, pattern: Seq<char>, with: Seq<char>) -> Seq<char>
    decreases s.len(),
{
    if s.len() == 0 {
        Seq::empty()
    } else if pattern.len() > 0 && s.len() >= pattern.len() && s.take(pattern.len() as int) == pattern {
        with + replaced(s.skip(pattern.len() as int), pattern, with)
    } else {
        seq![s[0]] + replaced(s.drop_first(), pattern, with)
    }
}

/// A placeholder as it stands in a template.
pub open spec fn placeholder(name: Seq<char>) -> Seq<char> {
    seq!['{'] + name + seq!['}']
}

/// A template with its placeholders filled in, one name after another.
pub open spec fn rendered(template: Seq<char>, values: Seq<(Seq<char>, Seq<char>)>) -> Seq<char>
    decreases values.len(),
{
    if values.len() == 0 {
        template
    } else {
        replaced(rendered(template, values.drop_last()), placeholder(values.last().0), values.last().1)
    }
}

fn starts_at(s: &[char], i: usize, pattern: &[char]) -> (r: bool)
    requires
        i <= s@.len(),
    ensures
        r == (s@.len() - i >= pattern@.len() && s@.skip(i as int).take(pattern@.len() as int) == pattern@),
{
    if s.len() - i < pattern.len() {
        return false;
    }
    let n = s.len();
    let mut k: usize = 0;
    while k < pattern.len()
        invariant
            k <= pattern@.len(),
            n == s@.len(),
            i + pattern@.len() <= n,
            forall|j: int| 0 <= j < k ==> s@[i + j] == pattern@[j],
        decreases pattern@.len() - k,
    {
        if s[i + k] != pattern[k] {
            assert(s@.skip(i as int).take(pattern@.len() as int)[k as int] != pattern@[k as int]);
            return false;
        }
        k = k + 1;
    }
    assert(s@.skip(i as int).take(pattern@.len() as int) =~= pattern@);
    true
}

/// Replaces each occurrence of a (non-empty) `pattern` in `s` by `with`.
pub fn replace_all(s: &[char], pattern: &[char], with: &[char]) -> (r: Vec<char>)
    requires
        pattern@.len() > 0,
    ensures
        r@ == replaced(s@, pattern@, with@),
{
    let mut out: Vec<char> = Vec::new();
    let mut i: usize = 0;
    assert(s@.skip(0) =~= s@);
    while i < s.len()
        invariant
            i <= s@.len(),
            pattern@.len() > 0,
            out@ + replaced(s@.skip(i as int), pattern@, with@) == replaced(s@, pattern@, with@),
        decreases s@.len() - i,
    {
        let ghost rest = s@.skip(i as int);
        let ghost before = out@;
        if starts_at(s, i, pattern) {
            assert(rest.skip(pattern@.len() as int) =~= s@.skip(i + pattern@.len()));
            append_chars(&mut out, with);
            assert(out@ + replaced(s@.skip(i + pattern@.len()), pattern@, with@) =~= before + (with@ + replaced(
                rest.skip(pattern@.len() as int),
                pattern@,
                with@,
            )));
            i = i + pattern.len();
        } else {
            assert(rest.drop_first() =~= s@.skip(i + 1));
            assert(rest[0] == s@[i as int]);
            out.push(s[i]);
            assert(out@ + replaced(s@.skip(i + 1), pattern@, with@) =~= before + (seq![rest[0]] + replaced(
                rest.drop_first(),
                pattern@,
                with@,
            )));
            i = i + 1;
        }
    }
    assert(s@.skip(i as int) =~= Seq::<char>::empty());
    assert(out@ + Seq::<char>::empty() =~= out@);
    out
}

/// The views of a template's values.
pub open spec fn value_views(values: Seq<(Vec<char>, Vec<char>)>) -> Seq<(Seq<char>, Seq<char>)> {
    Seq::new(values.len(), |k: int| (values[k].0@, values[k].1@))
}

/// Fills in a template's placeholders, one name after another.
pub fn render_template(template: &[char], values: &Vec<(Vec<char>, Vec<char>)>) -> (r: Vec<char>)
    ensures
        r@ == rendered(template@, value_views(values@)),
{
    let mut out: Vec<char> = Vec::new();
    append_chars(&mut out, template);
    let mut k: usize = 0;
    assert(value_views(values@).take(0) =~= Seq::<(Seq<char>, Seq<char>)>::empty());
    while k < values.len()
        invariant
            k <= values@.len(),
            out@ == rendered(template@, value_views(values@).take(k as int)),
        decreases values@.len() - k,
    {
        let mut pattern: Vec<char> = Vec::new();
        pattern.push('{');
        append_chars(&mut pattern, values[k].0.as_slice());
        pattern.push('}');
        assert(pattern@ =~= placeholder(values@[k as int].0@));
        out = replace_all(out.as_slice(), pattern.as_slice(), values[k].1.as_slice());
        assert(value_views(values@).take(k + 1).drop_last() =~= value_views(values@).take(k as int));
        k = k + 1;
    }
    assert(value_views(values@).take(k as int) =~= value_views(values@));
    out
}

/// A signed number in decimal.
pub open spec fn signed_decimal(n: int) -> Seq<char> {
    if n < 0 {
        seq!['-'] + decimal((-n) as nat)
    } else {
        decimal(n as nat)
    }
}

fn signed_decimal_chars(n: i32) -> (r: Vec<char>)
    ensures
        r@ == signed_decimal(n as int),
{
    if n < 0 {
        let magnitude: u64 = (0i64 - (n as i64)) as u64;
        let mut out: Vec<char> = Vec::new();
        out.push('-');
        let digits = decimal_chars(magnitude);
        append_chars(&mut out, digits.as_slice());
        out
    } else {
        decimal_chars(n as u64)
    }
}

/// Yes or no in a language.
pub open spec fn bool_text(m: Messages, value: bool) -> Seq<char> {
    if value {
        m.boolean.enabled@
    } else {
        m.boolean.disabled@
    }
}

/// A panel's name in a language.
pub open spec fn focus_text(m: Messages, pane: FocusPane) -> Seq<char> {
    match pane {
        FocusPane::Transactions => m.focus.transactions@,
        FocusPane::Frequency => m.focus.frequency@,
        FocusPane::Hexdump => m.focus.hexdump@,
        FocusPane::Parsed => m.focus.parsed@,
    }
}

/// The status line of a language's template: socket family, SDK, focused
/// panel, captured and saved counts, the window's history range, the
/// history file, recording and input state, the selection and the uptime.
pub open spec fn spec_status_text(m: Messages, state: TuiState, selected: Seq<char>, sdk: Seq<char>, uptime: u64) -> Seq<char> {
    let bounds = crate::tui::screen::spec_window_bounds(state.events@);
    rendered(
        m.status@,
        seq![
            ("family"@, signed_decimal(state.family as int)),
            ("sdk"@, sdk),
            ("focus"@, focus_text(m, state.focus)),
            ("transactions"@, decimal(state.stats.captured as nat)),
            ("saved"@, decimal(state.total_events as nat)),
            ("window_start"@, decimal(bounds.0 as nat)),
            ("window_end"@, decimal(bounds.1 as nat)),
            ("history"@, state.history_path@),
            ("recording"@, bool_text(m, state.recording)),
            ("input"@, bool_text(m, state.input_available)),
            ("selected"@, selected),
            ("uptime"@, decimal(uptime as nat)),
        ],
    )
}

fn pair(name: &str, value: Vec<char>) -> (r: (Vec<char>, Vec<char>))
    ensures
        r.0@ == name@,
        r.1@ == value@,
{
    (chars_of(name), value)
}

/// Fills in the status template of a language.
pub fn status_text(m: &Messages, state: &TuiState, selected: &str, sdk: &str, uptime: u64) -> (r: String)
    requires
        state.events@.len() > 0 ==> state.events@.last().history_index < u64::MAX,
    ensures
        r@ == spec_status_text(*m, *state, selected@, sdk@, uptime),
{
    let (window_start, window_end) = crate::tui::screen::visible_window_bounds(state);
    let focus = match state.focus {
        FocusPane::Transactions => chars_of(m.focus.transactions.as_str()),
        FocusPane::Frequency => chars_of(m.focus.frequency.as_str()),
        FocusPane::Hexdump => chars_of(m.focus.hexdump.as_str()),
        FocusPane::Parsed => chars_of(m.focus.parsed.as_str()),
    };
    let recording = if state.recording {
        chars_of(m.boolean.enabled.as_str())
    } else {
        chars_of(m.boolean.disabled.as_str())
    };
    let input = if state.input_available {
        chars_of(m.boolean.enabled.as_str())
    } else {
        chars_of(m.boolean.disabled.as_str())
    };
    let mut values: Vec<(Vec<char>, Vec<char>)> = Vec::new();
    values.push(pair("family", signed_decimal_chars(state.family)));
    values.push(pair("sdk", chars_of(sdk)));
    values.push(pair("focus", focus));
    values.push(pair("transactions", decimal_chars(state.stats.captured)));
    values.push(pair("saved", decimal_chars(state.total_events)));
    values.push(pair("window_start", decimal_chars(window_start)));
    values.push(pair("window_end", decimal_chars(window_end)));
    values.push(pair("history", chars_of(state.history_path.as_str())));
    values.push(pair("recording", recording));
    values.push(pair("input", input));
    values.push(pair("selected", chars_of(selected)));
    values.push(pair("uptime", decimal_chars(uptime)));
    let template = chars_of(m.status.as_str());
    let out = render_template(template.as_slice(), &values);
    let ghost expected = spec_status_text(*m, *state, selected@, sdk@, uptime);
    assert(value_views(values@) =~= seq![
        ("family"@, signed_decimal(state.family as int)),
        ("sdk"@, sdk@),
        ("focus"@, focus_text(*m, state.focus)),
        ("transactions"@, decimal(state.stats.captured as nat)),
        ("saved"@, decimal(state.total_events as nat)),
        ("window_start"@, decimal(window_start as nat)),
        ("window_end"@, decimal(window_end as nat)),
        ("history"@, state.history_path@),
        ("recording"@, bool_text(*m, state.recording)),
        ("input"@, bool_text(*m, state.input_available)),
        ("selected"@, selected@),
        ("uptime"@, decimal(uptime as nat)),
    ]);
    string_from_chars(out.as_slice())
}

/// The key hint line of the focused panel in a language: the transaction
/// panel's names what space does, recording or not.
pub open spec fn spec_key_hints(m: Messages, focus: FocusPane, recording: bool) -> Seq<char> {
    match focus {
        FocusPane::Transactions => rendered(
            m.keys.transactions.template@,
            seq![
                ("space"@, if recording {
                    m.keys.transactions.recording_space@
                } else {
                    m.keys.transactions.paused_space@
                }),
            ],
        ),
        FocusPane::Frequency => m.keys.frequency@,
        FocusPane::Hexdump => m.keys.hexdump@,
        FocusPane::Parsed => m.keys.parsed@,
    }
}

/// The key hints of the focused panel.
pub fn key_hints(m: &Messages, state: &TuiState) -> (r: String)
    ensures
        r@ == spec_key_hints(*m, state.focus, state.recording),
{
    match state.focus {
        FocusPane::Transactions => {
            let space = if state.recording {
                chars_of(m.keys.transactions.recording_space.as_str())
            } else {
                chars_of(m.keys.transactions.paused_space.as_str())
            };
            let mut values: Vec<(Vec<char>, Vec<char>)> = Vec::new();
            values.push(pair("space", space));
            let template = chars_of(m.keys.transactions.template.as_str());
            let out = render_template(template.as_slice(), &values);
            assert(value_views(values@) =~= seq![
                ("space"@, if state.recording {
                    m.keys.transactions.recording_space@
                } else {
                    m.keys.transactions.paused_space@
                }),
            ]);
            string_from_chars(out.as_slice())
        },
        FocusPane::Frequency => m.keys.frequency.clone(),
        FocusPane::Hexdump => m.keys.hexdump.clone(),
        FocusPane::Parsed => m.keys.parsed.clone(),
    }
}

/// What the status line shows as the selection: `selected/total`, counted
/// from one, or `0/0` before any event.
pub open spec fn selection_text(selected: u64, total: u64) -> Seq<char> {
    if total == 0 {
        "0/0"@
    } else {
        decimal(selected as nat + 1) + "/"@ + decimal(total as nat)
    }
}

/// The two status lines for a terminal width: the status template on the
/// status colours, then the dimmed key hints.
pub open spec fn spec_render_status(m: Messages, state: TuiState, width: nat, uptime: u64) -> (Seq<char>, Seq<char>) {
    let sdk = match state.android_sdk {
        Some(v) => decimal(v as nat),
        None => m.unknown@,
    };
    let status = spec_status_text(m, state, selection_text(state.selected, state.total_events), sdk, uptime);
    (
        painted(TextStyle::BlackOn(ColorSpec::Cyan), fitted(status, width)),
        painted(TextStyle::Muted, fitted(spec_key_hints(m, state.focus, state.recording), width)),
    )
}

/// Draws the status lines.
pub fn render_status(m: &Messages, state: &TuiState, width: usize, uptime: u64) -> (r: (String, String))
    requires
        state.events@.len() > 0 ==> state.events@.last().history_index < u64::MAX,
        state.total_events > 0 ==> state.selected < u64::MAX,
    ensures
        (r.0@, r.1@) == spec_render_status(*m, *state, width as nat, uptime),
{
    let mut selected: Vec<char> = Vec::new();
    if state.total_events == 0 {
        append_str(&mut selected, "0/0");
    } else {
        let d = decimal_chars(state.selected + 1);
        append_chars(&mut selected, d.as_slice());
        append_str(&mut selected, "/");
        let d = decimal_chars(state.total_events);
        append_chars(&mut selected, d.as_slice());
    }
    let selected = string_from_chars(selected.as_slice());
    let sdk = match state.android_sdk {
        Some(v) => crate::text::decimal_string(v as u64),
        None => m.unknown.clone(),
    };
    let status = status_text(m, state, selected.as_str(), sdk.as_str(), uptime);
    let status_chars = chars_of(status.as_str());
    let status_line = fit_chars(status_chars.as_slice(), width);
    let status_line = string_from_chars(status_line.as_slice());
    let keys = key_hints(m, state);
    let keys_chars = chars_of(keys.as_str());
    let keys_line = fit_chars(keys_chars.as_slice(), width);
    let keys_line = string_from_chars(keys_line.as_slice());
    (
        paint(TextStyle::BlackOn(ColorSpec::Cyan), status_line.as_str()),
        paint(TextStyle::Muted, keys_line.as_str()),
    )
}

} // verus!
