use vstd::prelude::*;

verus! {

/// Unicode general category Cc: U+0000..=U+001F and U+007F..=U+009F.
pub open spec fn is_control_char(c: char) -> bool {
    (c as u32) <= 0x1f || (0x7f <= (c as u32) && (c as u32) <= 0x9f)
}

/// East Asian wide and fullwidth ranges that take two terminal cells.
pub open spec fn is_wide_char(c: char) -> bool {
    let u = c as u32;
    ||| 0x1100 <= u <= 0x115f
    ||| 0x2329 <= u <= 0x232a
    ||| 0x2e80 <= u <= 0xa4cf
    ||| 0xac00 <= u <= 0xd7a3
    ||| 0xf900 <= u <= 0xfaff
    ||| 0xfe10 <= u <= 0xfe19
    ||| 0xfe30 <= u <= 0xfe6f
    ||| 0xff00 <= u <= 0xff60
    ||| 0xffe0 <= u <= 0xffe6
    ||| 0x20000 <= u <= 0x2fffd
    ||| 0x30000 <= u <= 0x3fffd
}

/// Terminal cells one character takes: 0 for control characters, 2 for wide
/// characters, 1 otherwise.
pub open spec fn char_width(c: char) -> nat {
    if is_control_char(c) {
        0
    } else if is_wide_char(c) {
        2
    } else {
        1
    }
}

/// How many cells a character takes on a terminal: none for the control
/// characters U+0000..U+001F and U+007F..U+009F; two for the East Asian wide
/// and fullwidth blocks (Hangul Jamo U+1100..U+115F, the angle brackets
/// U+2329..U+232A, CJK and Yi U+2E80..U+A4CF, Hangul syllables U+AC00..U+D7A3,
/// CJK compatibility U+F900..U+FAFF, vertical forms U+FE10..U+FE19, CJK
/// compatibility forms U+FE30..U+FE6F, fullwidth forms U+FF00..U+FF60 and
/// U+FFE0..U+FFE6, and the supplementary ideographic planes U+20000..U+2FFFD
/// and U+30000..U+3FFFD); one for every other character.
pub proof fn lemma_char_cells(c: char)
    ensures
        ({
            let u = c as u32;
            let control = u <= 0x1f || (0x7f <= u && u <= 0x9f);
            let wide = {
                ||| 0x1100 <= u <= 0x115f
                ||| 0x2329 <= u <= 0x232a
                ||| 0x2e80 <= u <= 0xa4cf
                ||| 0xac00 <= u <= 0xd7a3
                ||| 0xf900 <= u <= 0xfaff
                ||| 0xfe10 <= u <= 0xfe19
                ||| 0xfe30 <= u <= 0xfe6f
                ||| 0xff00 <= u <= 0xff60
                ||| 0xffe0 <= u <= 0xffe6
                ||| 0x20000 <= u <= 0x2fffd
                ||| 0x30000 <= u <= 0x3fffd
            };
            &&& control ==> char_width(c) == 0
            &&& wide ==> char_width(c) == 2
            &&& !control && !wide ==> char_width(c) == 1
        }),
{
}

/// Terminal cells a text takes.
pub open spec fn text_width(s: Seq<char>) -> nat
    decreases s.len(),
{
    if s.len() == 0 {
        0
    } else {
        char_width(s[0]) + text_width(s.drop_first())
    }
}

/// How many leading characters fit into `budget` cells, taking characters
/// until the first one that would overflow.
pub open spec fn fitting_len(s: Seq<char>, budget: int) -> nat
    decreases s.len(),
{
    if s.len() == 0 {
        0
    } else if char_width(s[0]) > budget {
        0
    } else {
        1 + fitting_len(s.drop_first(), budget - char_width(s[0]))
    }
}

/// `n` copies of `c`.
pub open spec fn repeated(c: char, n: nat) -> Seq<char> {
    Seq::new(n, |i: int| c)
}

/// Text cut to `width` cells: unchanged when it fits; otherwise its fitting
/// prefix followed by `...`, or only dots when `width` is three or less.
pub open spec fn truncated(s: Seq<char>, width: nat) -> Seq<char> {
    if width == 0 {
        Seq::empty()
    } else if text_width(s) <= width {
        s
    } else if width <= 3 {
        repeated('.', width)
    } else {
        s.take(fitting_len(s, width - 3) as int) + "..."@
    }
}

/// Text cut to `width` cells and padded on the right with spaces.
pub open spec fn fitted(s: Seq<char>, width: nat) -> Seq<char> {
    let t = truncated(s, width);
    t + repeated(' ', (width - text_width(t)) as nat)
}

/// Text cut to `width` cells and padded on the left with spaces.
pub open spec fn fitted_right(s: Seq<char>, width: nat) -> Seq<char> {
    let t = truncated(s, width);
    repeated(' ', (width - text_width(t)) as nat) + t
}

/// The width of a concatenation is the sum of the widths.
pub proof fn lemma_width_concat(a: Seq<char>, b: Seq<char>)
    ensures
        text_width(a + b) == text_width(a) + text_width(b),
    decreases a.len(),
{
    if a.len() == 0 {
        assert(a + b =~= b);
    } else {
        assert((a + b).drop_first() =~= a.drop_first() + b);
        lemma_width_concat(a.drop_first(), b);
    }
}

/// Appending one character adds its width.
pub proof fn lemma_width_push(a: Seq<char>, c: char)
    ensures
        text_width(a.push(c)) == text_width(a) + char_width(c),
{
    lemma_width_concat(a, seq![c]);
    assert(a.push(c) =~= a + seq![c]);
    assert(seq![c].drop_first() =~= Seq::<char>::empty());
    assert(seq![c][0] == c);
    assert(text_width(seq![c]) == char_width(c) + text_width(seq![c].drop_first()));
}

/// A run of one ASCII printable character is as wide as it is long.
pub proof fn lemma_width_repeated(c: char, n: nat)
    requires
        0x20 <= (c as u32) < 0x7f,
    ensures
        text_width(repeated(c, n)) == n,
    decreases n,
{
    if n > 0 {
        assert(repeated(c, n).drop_first() =~= repeated(c, (n - 1) as nat));
        lemma_width_repeated(c, (n - 1) as nat);
    }
}

/// The fitting prefix of a text takes at most the budget.
pub proof fn lemma_fitting_prefix_width(s: Seq<char>, budget: int)
    requires
        budget >= 0,
    ensures
        fitting_len(s, budget) <= s.len(),
        text_width(s.take(fitting_len(s, budget) as int)) <= budget,
    decreases s.len(),
{
    if s.len() > 0 && char_width(s[0]) <= budget {
        let rest = s.drop_first();
        let b = budget - char_width(s[0]);
        lemma_fitting_prefix_width(rest, b);
        let k = fitting_len(rest, b);
        assert(s.take(k + 1 as int).drop_first() =~= rest.take(k as int));
        assert(s.take(k + 1 as int)[0] == s[0]);
    } else {
        assert(s.take(0) =~= Seq::<char>::empty());
    }
}

/// A truncated text takes at most `width` cells.
pub proof fn lemma_truncated_width(s: Seq<char>, width: nat)
    ensures
        text_width(truncated(s, width)) <= width,
{
    if width == 0 {
    } else if text_width(s) <= width {
    } else if width <= 3 {
        lemma_width_repeated('.', width);
    } else {
        lemma_fitting_prefix_width(s, width - 3);
        let k = fitting_len(s, width - 3);
        lemma_width_concat(s.take(k as int), "..."@);
        reveal_strlit("...");
        assert(text_width("..."@) == 3) by {
            let d = seq!['.', '.', '.'];
            assert("..."@ =~= d);
            assert(d.drop_first().drop_first().drop_first() =~= Seq::<char>::empty());
            assert(d.drop_first().drop_first()[0] == '.');
            assert(text_width(d.drop_first().drop_first().drop_first()) == 0);
            assert(('.' as u32) == 46);
            assert(char_width('.') == 1);
            assert(text_width(d.drop_first().drop_first()) == 1);
            assert(text_width(d.drop_first()) == 2);
        }
    }
}

/// Fitting a text always yields exactly `width` cells, on either side.
pub proof fn lemma_fitted_width(s: Seq<char>, width: nat)
    ensures
        text_width(fitted(s, width)) == width,
        text_width(fitted_right(s, width)) == width,
{
    let t = truncated(s, width);
    lemma_truncated_width(s, width);
    let pad = (width - text_width(t)) as nat;
    lemma_width_repeated(' ', pad);
    lemma_width_concat(t, repeated(' ', pad));
    lemma_width_concat(repeated(' ', pad), t);
}

/// The characters of a string slice.
pub fn chars_of(s: &str) -> (r: Vec<char>)
    ensures
        r@ == s@,
{
    let mut out: Vec<char> = Vec::new();
    for c in iter: s.chars()
        invariant
            iter.seq() == s@,
            out@ == s@.take(iter.index() as int),
    {
        out.push(c);
        assert(out@ =~= s@.take(iter.index() + 1));
    }
    assert(out@ =~= s@);
    out
}

/// Appends characters to a character buffer.
pub fn append_chars(out: &mut Vec<char>, src: &[char])
    ensures
        final(out)@ == old(out)@ + src@,
{
    let ghost start = out@;
    let mut i: usize = 0;
    while i < src.len()
        invariant
            i <= src@.len(),
            out@ == start + src@.take(i as int),
        decreases src@.len() - i,
    {
        out.push(src[i]);
        i = i + 1;
        assert(out@ =~= start + src@.take(i as int));
    }
    assert(src@.take(i as int) =~= src@);
}

/// Appends the characters of a text to a character buffer.
pub fn append_str(out: &mut Vec<char>, s: &str)
    ensures
        final(out)@ == old(out)@ + s@,
{
    let chars = chars_of(s);
    append_chars(out, chars.as_slice());
}

/// Calls `FromIterator<char> for String`: a string made of the given characters.
#[verifier::external_body]
pub(crate) fn string_from_chars(chars: &[char]) -> (r: String)
    ensures
        r@ == chars@,
{
    chars.iter().collect::<String>()
}

/// Whether a character has the Unicode `White_Space` property.
pub open spec fn is_white_space(c: char) -> bool {
    let v = c as u32;
    ||| 0x09 <= v <= 0x0d
    ||| v == 0x20
    ||| v == 0x85
    ||| v == 0xa0
    ||| v == 0x1680
    ||| 0x2000 <= v <= 0x200a
    ||| v == 0x2028
    ||| v == 0x2029
    ||| v == 0x202f
    ||| v == 0x205f
    ||| v == 0x3000
}

/// How many white-space characters a text starts with.
pub open spec fn leading_white_space(s: Seq<char>) -> nat
    decreases s.len(),
{
    if s.len() > 0 && is_white_space(s[0]) {
        1 + leading_white_space(s.drop_first())
    } else {
        0
    }
}

/// How many white-space characters a text ends with.
pub open spec fn trailing_white_space(s: Seq<char>) -> nat
    decreases s.len(),
{
    if s.len() > 0 && is_white_space(s.last()) {
        1 + trailing_white_space(s.drop_last())
    } else {
        0
    }
}

/// What `str::trim` leaves of a text: the text without its leading and
/// trailing Unicode white space.
pub open spec fn trimmed(s: Seq<char>) -> Seq<char> {
    let rest = s.skip(leading_white_space(s) as int);
    rest.take(rest.len() - trailing_white_space(rest))
}

/// Calls `str::trim`: the text without its leading and trailing white
/// space, white space being the characters with the Unicode `White_Space`
/// property.
#[verifier::external_body]
pub(crate) fn trim_text(s: &str) -> (r: &str)
    ensures
        r@ == trimmed(s@),
        r@.len() <= s@.len(),
{
    s.trim()
}

/// What `str::to_lowercase` makes of a text.
pub uninterp spec fn lowercased(s: Seq<char>) -> Seq<char>;

/// Calls `str::to_lowercase`: the text with every character replaced by its
/// Unicode lowercase mapping (which may be longer than one character).
#[verifier::external_body]
pub(crate) fn lowercase_text(s: &str) -> (r: String)
    ensures
        r@ == lowercased(s@),
{
    s.to_lowercase()
}

/// The ASCII lowercase of a character; other characters stay as they are.
pub open spec fn ascii_lower(c: char) -> char {
    if 'A' <= c && c <= 'Z' {
        ((c as u32) + 32) as char
    } else {
        c
    }
}

/// The ASCII lowercase of a character.
pub fn to_ascii_lower(c: char) -> (r: char)
    ensures
        r == ascii_lower(c),
{
    if 'A' <= c && c <= 'Z' {
        let b: u8 = (c as u32 + 32) as u8;
        assert(b as u32 == (c as u32) + 32);
        b as char
    } else {
        c
    }
}

/// Whether a character is a control character (Unicode category Cc).
pub fn is_control(ch: char) -> (r: bool)
    ensures
        r == is_control_char(ch),
{
    let u = ch as u32;
    u <= 0x1f || (0x7f <= u && u <= 0x9f)
}

/// Whether a character takes two terminal cells.
pub fn is_east_asian_wide(ch: char) -> (r: bool)
    ensures
        r == is_wide_char(ch),
{
    let u = ch as u32;
    (0x1100 <= u && u <= 0x115f) || (0x2329 <= u && u <= 0x232a) || (0x2e80 <= u && u <= 0xa4cf)
        || (0xac00 <= u && u <= 0xd7a3) || (0xf900 <= u && u <= 0xfaff) || (0xfe10 <= u && u
        <= 0xfe19) || (0xfe30 <= u && u <= 0xfe6f) || (0xff00 <= u && u <= 0xff60) || (0xffe0
        <= u && u <= 0xffe6) || (0x20000 <= u && u <= 0x2fffd) || (0x30000 <= u && u <= 0x3fffd)
}

/// Terminal cells one character takes.
pub fn char_display_width(ch: char) -> (r: usize)
    ensures
        r == char_width(ch),
{
    if is_control(ch) {
        0
    } else if is_east_asian_wide(ch) {
        2
    } else {
        1
    }
}

/// Terminal cells a sequence of characters takes.
pub fn chars_display_width(chars: &[char]) -> (r: usize)
    requires
        text_width(chars@) <= usize::MAX,
    ensures
        r == text_width(chars@),
{
    let mut used: usize = 0;
    let mut i: usize = 0;
    while i < chars.len()
        invariant
            i <= chars@.len(),
            used == text_width(chars@.take(i as int)),
            text_width(chars@) <= usize::MAX,
        decreases chars@.len() - i,
    {
        proof {
            lemma_width_push(chars@.take(i as int), chars@[i as int]);
            assert(chars@.take(i as int).push(chars@[i as int]) =~= chars@.take(i + 1));
            lemma_width_concat(chars@.take(i + 1), chars@.skip(i + 1));
            assert(chars@.take(i + 1) + chars@.skip(i + 1) =~= chars@);
        }
        used = used + char_display_width(chars[i]);
        i = i + 1;
    }
    assert(chars@.take(i as int) =~= chars@);
    used
}

/// Terminal cells a text takes.
pub fn display_width(text: &str) -> (r: usize)
    requires
        text_width(text@) <= usize::MAX,
    ensures
        r == text_width(text@),
{
    let chars = chars_of(text);
    chars_display_width(chars.as_slice())
}

/// `n` copies of `c`.
pub fn repeat_char(c: char, n: usize) -> (r: Vec<char>)
    ensures
        r@ == repeated(c, n as nat),
{
    let mut out: Vec<char> = Vec::new();
    let mut i: usize = 0;
    while i < n
        invariant
            i <= n,
            out@ == repeated(c, i as nat),
        decreases n - i,
    {
        out.push(c);
        i = i + 1;
        assert(out@ =~= repeated(c, i as nat));
    }
    out
}

/// Cuts characters to `width` cells, marking omitted text with `...`.
pub fn truncate_chars(s: &[char], width: usize) -> (r: Vec<char>)
    ensures
        r@ == truncated(s@, width as nat),
{
    if width == 0 {
        return Vec::new();
    }
    // Whether the whole text fits, and how many leading characters fit into
    // `width - 3` cells, found in one pass that stops once `width` is exceeded.
    let mut used: usize = 0;
    let mut i: usize = 0;
    let mut fits = true;
    while i < s.len()
        invariant_except_break
            fits,
        invariant
            width > 0,
            i <= s@.len(),
            used <= width,
            used == text_width(s@.take(i as int)),
        ensures
            i <= s@.len(),
            fits ==> i == s@.len() && used == text_width(s@.take(i as int)),
            !fits ==> text_width(s@) > width,
        decreases s@.len() - i,
    {
        let w = char_display_width(s[i]);
        proof {
            lemma_width_push(s@.take(i as int), s@[i as int]);
            assert(s@.take(i as int).push(s@[i as int]) =~= s@.take(i + 1));
        }
        if w > width - used {
            fits = false;
            proof {
                lemma_width_concat(s@.take(i + 1), s@.skip(i + 1));
                assert(s@.take(i + 1) + s@.skip(i + 1) =~= s@);
            }
            break;
        }
        used = used + w;
        i = i + 1;
    }
    if fits {
        assert(s@.take(i as int) =~= s@);
        let mut out: Vec<char> = Vec::new();
        let mut j: usize = 0;
        while j < s.len()
            invariant
                j <= s@.len(),
                out@ == s@.take(j as int),
            decreases s@.len() - j,
        {
            out.push(s[j]);
            j = j + 1;
            assert(out@ =~= s@.take(j as int));
        }
        assert(out@ =~= s@);
        return out;
    }
    if width <= 3 {
        return repeat_char('.', width);
    }
    let budget: usize = width - 3;
    let mut out: Vec<char> = Vec::new();
    let mut spent: usize = 0;
    let mut k: usize = 0;
    assert(s@.skip(0) =~= s@);
    assert(s@.take(0) =~= Seq::<char>::empty());
    while k < s.len()
        invariant
            k <= s@.len(),
            spent <= budget,
            out@ == s@.take(k as int),
            fitting_len(s@, budget as int) == k + fitting_len(s@.skip(k as int), budget - spent),
        ensures
            k <= s@.len(),
            out@ == s@.take(k as int),
            fitting_len(s@, budget as int) == k,
        decreases s@.len() - k,
    {
        let w = char_display_width(s[k]);
        assert(s@.skip(k as int)[0] == s@[k as int]);
        assert(s@.skip(k as int).drop_first() =~= s@.skip(k + 1));
        if w > budget - spent {
            break;
        }
        out.push(s[k]);
        spent = spent + w;
        if k + 1 == s.len() {
            assert(s@.skip(k + 1) =~= Seq::<char>::empty());
        }
        k = k + 1;
        assert(out@ =~= s@.take(k as int));
    }
    out.push('.');
    out.push('.');
    out.push('.');
    proof {
        reveal_strlit("...");
        assert(out@ =~= s@.take(k as int) + "..."@);
    }
    out
}

/// Cuts a text to `width` cells, marking omitted text with `...`.
pub fn truncate_with_ellipsis(text: &str, width: usize) -> (r: String)
    ensures
        r@ == truncated(text@, width as nat),
{
    let chars = chars_of(text);
    let out = truncate_chars(chars.as_slice(), width);
    string_from_chars(out.as_slice())
}

/// Cuts characters to `width` cells and pads them with spaces on the right.
pub fn fit_chars(s: &[char], width: usize) -> (r: Vec<char>)
    ensures
        r@ == fitted(s@, width as nat),
{
    let mut out = truncate_chars(s, width);
    proof {
        lemma_truncated_width(s@, width as nat);
    }
    let visible = chars_display_width(out.as_slice());
    let pad = repeat_char(' ', width - visible);
    let mut i: usize = 0;
    let ghost t = out@;
    while i < pad.len()
        invariant
            i <= pad@.len(),
            out@ == t + pad@.take(i as int),
        decreases pad@.len() - i,
    {
        out.push(pad[i]);
        i = i + 1;
        assert(out@ =~= t + pad@.take(i as int));
    }
    assert(pad@.take(i as int) =~= pad@);
    out
}

/// Cuts characters to `width` cells and pads them with spaces on the left.
pub fn fit_right_chars(s: &[char], width: usize) -> (r: Vec<char>)
    ensures
        r@ == fitted_right(s@, width as nat),
{
    let t = truncate_chars(s, width);
    proof {
        lemma_truncated_width(s@, width as nat);
    }
    let visible = chars_display_width(t.as_slice());
    let mut out = repeat_char(' ', width - visible);
    let ghost p = out@;
    let mut i: usize = 0;
    while i < t.len()
        invariant
            i <= t@.len(),
            out@ == p + t@.take(i as int),
        decreases t@.len() - i,
    {
        out.push(t[i]);
        i = i + 1;
        assert(out@ =~= p + t@.take(i as int));
    }
    assert(t@.take(i as int) =~= t@);
    out
}

/// Cuts a text to `width` cells and pads it with spaces on the right.
pub fn fit(text: &str, width: usize) -> (r: String)
    ensures
        r@ == fitted(text@, width as nat),
        text_width(r@) == width,
{
    proof {
        lemma_fitted_width(text@, width as nat);
    }
    let chars = chars_of(text);
    let out = fit_chars(chars.as_slice(), width);
    string_from_chars(out.as_slice())
}

/// Cuts a text to `width` cells and pads it with spaces on the left.
pub fn fit_right(text: &str, width: usize) -> (r: String)
    ensures
        r@ == fitted_right(text@, width as nat),
        text_width(r@) == width,
{
    proof {
        lemma_fitted_width(text@, width as nat);
    }
    let chars = chars_of(text);
    let out = fit_right_chars(chars.as_slice(), width);
    string_from_chars(out.as_slice())
}

/// Decimal digits of a number.
pub open spec fn decimal(n: nat) -> Seq<char>
    decreases n,
{
    if n < 10 {
        seq![digit_char(n)]
    } else {
        decimal(n / 10).push(digit_char(n % 10))
    }
}

/// The ASCII digit of a value below ten.
pub open spec fn digit_char(d: nat) -> char {
    ((d + 48) as u8) as char
}

fn push_decimal(out: &mut Vec<char>, n: u64)
    ensures
        final(out)@ == old(out)@ + decimal(n as nat),
    decreases n,
{
    if n >= 10 {
        push_decimal(out, n / 10);
    }
    let d = (n % 10) as u8;
    let c = (48u8 + d) as char;
    out.push(c);
    proof {
        assert(c == digit_char((n % 10) as nat));
        if n >= 10 {
            assert(final(out)@ =~= old(out)@ + decimal(n as nat));
        } else {
            assert(final(out)@ =~= old(out)@ + decimal(n as nat));
        }
    }
}

/// The decimal digits of a number.
pub fn decimal_chars(n: u64) -> (r: Vec<char>)
    ensures
        r@ == decimal(n as nat),
{
    let mut out: Vec<char> = Vec::new();
    push_decimal(&mut out, n);
    assert(out@ =~= decimal(n as nat));
    out
}

/// The decimal representation of a number.
pub fn decimal_string(n: u64) -> (r: String)
    ensures
        r@ == decimal(n as nat),
{
    let out = decimal_chars(n);
    string_from_chars(out.as_slice())
}

} // verus!
