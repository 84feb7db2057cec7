use vstd::prelude::*;

verus! {

/// Oldest Android SDK the method table covers (bit 0 of an SDK mask).
pub const MIN_ANDROID_SDK: u16 = 30;
/// Newest Android SDK the method table covers (bit 6 of an SDK mask).
pub const MAX_ANDROID_SDK: u16 = 36;

/// A platform Binder method.
#[derive(Debug, Clone, PartialEq, Eq)]
pub struct AndroidPlatformMethod {
    /// Binder interface descriptor.
    pub interface: String,
    /// Binder transaction code.
    pub code: u32,
    /// Method name in the platform sources.
    pub method: String,
}

/// One row of the platform method table.
#[derive(Debug, Clone, PartialEq, Eq)]
pub struct PlatformMethodEntry {
    /// SDK versions the row holds for: bit `n` stands for SDK `30 + n`.
    pub sdk_mask: u16,
    pub interface: String,
    pub code: u32,
    pub method: String,
}

/// The SDK bit of a supported SDK version.
pub open spec fn spec_sdk_mask(sdk: u16) -> Option<u16> {
    if sdk < MIN_ANDROID_SDK || sdk > MAX_ANDROID_SDK {
        None
    } else {
        Some((1u16 << ((sdk - MIN_ANDROID_SDK) as u16)) as u16)
    }
}

/// SDK versions 30 to 36 each have their own bit, bit `sdk - 30` of the seven
/// a table row's mask uses (SDK 30 has 0x01, SDK 36 has 0x40); other
/// versions have none.
pub proof fn lemma_sdk_bits(sdk: u16)
    ensures
        (30 <= sdk && sdk <= 36) <==> spec_sdk_mask(sdk) is Some,
        spec_sdk_mask(sdk) matches Some(m) ==> m != 0 && m & 0x7f == m,
        sdk == 30 ==> spec_sdk_mask(sdk) == Some(0x01u16),
        sdk == 33 ==> spec_sdk_mask(sdk) == Some(0x08u16),
        sdk == 36 ==> spec_sdk_mask(sdk) == Some(0x40u16),
{
    if 30 <= sdk && sdk <= 36 {
        let shift = (sdk - 30) as u16;
        assert(shift < 7);
        let m = (1u16 << shift) as u16;
        assert(m != 0 && m & 0x7f == m) by (bit_vector)
            requires
                shift < 7,
                m == (1u16 << shift) as u16,
        ;
        assert((1u16 << 0u16) == 0x01u16) by (bit_vector);
        assert((1u16 << 3u16) == 0x08u16) by (bit_vector);
        assert((1u16 << 6u16) == 0x40u16) by (bit_vector);
    }
}

/// Two different supported SDK versions never share a bit, so a row that
/// holds for one version says nothing of another.
pub proof fn lemma_sdk_bits_distinct(a: u16, b: u16)
    requires
        30 <= a <= 36,
        30 <= b <= 36,
        a != b,
    ensures
        spec_sdk_mask(a)->0 & spec_sdk_mask(b)->0 == 0,
{
    let sa = (a - 30) as u16;
    let sb = (b - 30) as u16;
    let ma = (1u16 << sa) as u16;
    let mb = (1u16 << sb) as u16;
    assert(ma & mb == 0) by (bit_vector)
        requires
            sa < 7,
            sb < 7,
            sa != sb,
            ma == (1u16 << sa) as u16,
            mb == (1u16 << sb) as u16,
    ;
}

/// A token is an interface descriptor exactly when it holds a dot and every
/// character is an ASCII digit, an ASCII letter, `.`, `_` or `$`.
pub proof fn lemma_descriptor_characters(token: Seq<char>)
    ensures
        spec_is_descriptor(token) <==> {
            &&& exists|i: int| 0 <= i < token.len() && token[i] == '.'
            &&& forall|i: int|
                0 <= i < token.len() ==> {
                    let u = (#[trigger] token[i]) as u32;
                    ||| 0x30 <= u <= 0x39
                    ||| 0x41 <= u <= 0x5a
                    ||| 0x61 <= u <= 0x7a
                    ||| u == 0x2e
                    ||| u == 0x5f
                    ||| u == 0x24
                }
        },
{
    assert forall|i: int| 0 <= i < token.len() implies descriptor_char(#[trigger] token[i]) == {
        let u = token[i] as u32;
        ||| 0x30 <= u <= 0x39
        ||| 0x41 <= u <= 0x5a
        ||| 0x61 <= u <= 0x7a
        ||| u == 0x2e
        ||| u == 0x5f
        ||| u == 0x24
    } by {
        lemma_descriptor_char(token[i]);
    }
}

proof fn lemma_descriptor_char(c: char)
    ensures
        descriptor_char(c) == {
            let u = c as u32;
            ||| 0x30 <= u <= 0x39
            ||| 0x41 <= u <= 0x5a
            ||| 0x61 <= u <= 0x7a
            ||| u == 0x2e
            ||| u == 0x5f
            ||| u == 0x24
        },
{
    assert('0' as u32 == 0x30 && '9' as u32 == 0x39 && 'a' as u32 == 0x61 && 'z' as u32 == 0x7a);
    assert('A' as u32 == 0x41 && 'Z' as u32 == 0x5a && '.' as u32 == 0x2e && '_' as u32 == 0x5f && '$' as u32 == 0x24);
}

/// Whether a table row answers a lookup of `interface` and `code` for the SDK bit `mask`.
pub open spec fn entry_matches(entry: PlatformMethodEntry, interface: Seq<char>, code: u32, mask: u16) -> bool {
    &&& entry.interface@ == interface
    &&& entry.code == code
    &&& entry.sdk_mask & mask != 0
}

/// The SDK bit of an SDK version; versions outside 30..=36 have none.
pub fn sdk_mask(sdk: u16) -> (r: Option<u16>)
    ensures
        r == spec_sdk_mask(sdk),
{
    if sdk < MIN_ANDROID_SDK || sdk > MAX_ANDROID_SDK {
        None
    } else {
        Some(1u16 << (sdk - MIN_ANDROID_SDK))
    }
}

/// A little-endian 32-bit word at `offset`, when four bytes are there.
pub open spec fn spec_read_u32_le(payload: Seq<u8>, offset: int) -> Option<u32> {
    if 0 <= offset && offset + 4 <= payload.len() {
        Some(
            (payload[offset] as u32) | ((payload[offset + 1] as u32) << 8u32) | ((payload[offset
                + 2] as u32) << 16u32) | ((payload[offset + 3] as u32) << 24u32),
        )
    } else {
        None
    }
}

/// A little-endian 16-bit unit made of two bytes.
pub open spec fn le_u16(lo: u8, hi: u8) -> u16 {
    ((lo as u16) | ((hi as u16) << 8u16)) as u16
}

/// The `count` UTF-16 units stored little-endian from `start` on.
pub open spec fn utf16_units(payload: Seq<u8>, start: int, count: nat) -> Seq<u16> {
    Seq::new(count, |i: int| le_u16(payload[start + 2 * i], payload[start + 2 * i + 1]))
}

/// UTF-16 decoding: surrogate pairs combine into one character; a lone
/// surrogate makes the whole sequence invalid.
pub open spec fn utf16_decode(units: Seq<u16>) -> Option<Seq<char>>
    decreases units.len(),
{
    if units.len() == 0 {
        Some(Seq::empty())
    } else {
        let u = units[0];
        if u < 0xd800 || u > 0xdfff {
            match utf16_decode(units.drop_first()) {
                Some(rest) => Some(seq![(u as u32) as char] + rest),
                None => None,
            }
        } else if u <= 0xdbff && units.len() >= 2 && 0xdc00 <= units[1] && units[1] <= 0xdfff {
            let c = (0x10000 + (u - 0xd800) * 0x400 + (units[1] - 0xdc00)) as u32;
            match utf16_decode(units.subrange(2, units.len() as int)) {
                Some(rest) => Some(seq![c as char] + rest),
                None => None,
            }
        } else {
            None
        }
    }
}

/// A Java `String16` at `offset`: a 32-bit length of 1..=512 units, the units,
/// and room for a terminating unit, decoded as UTF-16.
pub open spec fn spec_read_string16(payload: Seq<u8>, offset: int) -> Option<Seq<char>> {
    match spec_read_u32_le(payload, offset) {
        None => None,
        Some(raw) => {
            if raw >= 0x8000_0000 || raw == 0 || raw > 512 {
                None
            } else if offset + 4 + 2 * raw + 2 > payload.len() {
                None
            } else {
                utf16_decode(utf16_units(payload, offset + 4, raw as nat))
            }
        },
    }
}

/// The characters an interface descriptor may hold.
pub open spec fn descriptor_char(c: char) -> bool {
    ||| ('0' <= c && c <= '9')
    ||| ('a' <= c && c <= 'z')
    ||| ('A' <= c && c <= 'Z')
    ||| c == '.'
    ||| c == '_'
    ||| c == '$'
}

/// Whether a token looks like a Binder interface descriptor: it has a dot and
/// holds only ASCII letters, digits, `.`, `_` and `$`.
pub open spec fn spec_is_descriptor(token: Seq<char>) -> bool {
    &&& token.contains('.')
    &&& forall|i: int| 0 <= i < token.len() ==> descriptor_char(#[trigger] token[i])
}

/// The interface token of a Parcel: the string at the first of the offsets 12,
/// 8, 4 and 0 that holds one, kept only when it looks like a descriptor.
pub open spec fn spec_parse_interface_token(payload: Seq<u8>) -> Option<Seq<char>> {
    let found = if spec_read_string16(payload, 12) is Some {
        spec_read_string16(payload, 12)
    } else if spec_read_string16(payload, 8) is Some {
        spec_read_string16(payload, 8)
    } else if spec_read_string16(payload, 4) is Some {
        spec_read_string16(payload, 4)
    } else {
        spec_read_string16(payload, 0)
    };
    match found {
        Some(token) => if spec_is_descriptor(token) {
            Some(token)
        } else {
            None
        },
        None => None,
    }
}

/// Calls `String::from_utf16`: the text of UTF-16 units, or nothing when they
/// are not valid UTF-16.
#[verifier::external_body]
fn string_from_utf16(units: &[u16]) -> (r: Option<String>)
    ensures
        match utf16_decode(units@) {
            Some(chars) => r matches Some(s) && s@ == chars,
            None => r is None,
        },
{
    String::from_utf16(units).ok()
}

/// Reads a little-endian 32-bit word at `offset`.
pub fn read_u32_le(payload: &[u8], offset: usize) -> (r: Option<u32>)
    ensures
        r == spec_read_u32_le(payload@, offset as int),
{
    if offset > payload.len() || payload.len() - offset < 4 {
        return None;
    }
    Some(
        (payload[offset] as u32) | ((payload[offset + 1] as u32) << 8u32) | ((payload[offset + 2]
            as u32) << 16u32) | ((payload[offset + 3] as u32) << 24u32),
    )
}

/// Reads a little-endian signed 32-bit word at `offset`.
pub fn read_i32_le(payload: &[u8], offset: usize) -> (r: Option<i32>)
    ensures
        match spec_read_u32_le(payload@, offset as int) {
            Some(raw) => r == Some(raw as i32),
            None => r is None,
        },
{
    match read_u32_le(payload, offset) {
        Some(raw) => Some(raw as i32),
        None => None,
    }
}

/// Reads a Java `String16` at `offset`.
pub fn read_string16(payload: &[u8], offset: usize) -> (r: Option<String>)
    ensures
        match spec_read_string16(payload@, offset as int) {
            Some(chars) => r matches Some(s) && s@ == chars,
            None => r is None,
        },
{
    let raw = match read_u32_le(payload, offset) {
        Some(raw) => raw,
        None => return None,
    };
    if raw >= 0x8000_0000 || raw == 0 || raw > 512 {
        return None;
    }
    if payload.len() < 4 || offset > payload.len() - 4 {
        return None;
    }
    let length = raw as usize;
    let data_offset = offset + 4;
    if 2 * length + 2 > payload.len() - data_offset {
        return None;
    }
    let mut units: Vec<u16> = Vec::new();
    let mut i: usize = 0;
    while i < length
        invariant
            i <= length,
            length <= 512,
            data_offset == offset + 4,
            data_offset + 2 * length + 2 <= payload.len(),
            units@ == utf16_units(payload@, data_offset as int, i as nat),
        decreases length - i,
    {
        let lo = payload[data_offset + 2 * i];
        let hi = payload[data_offset + 2 * i + 1];
        units.push(((lo as u16) | ((hi as u16) << 8u16)) as u16);
        i = i + 1;
        assert(units@ =~= utf16_units(payload@, data_offset as int, i as nat));
    }
    string_from_utf16(units.as_slice())
}

/// Whether a token looks like a Binder interface descriptor.
pub fn is_interface_descriptor(token: &str) -> (r: bool)
    ensures
        r == spec_is_descriptor(token@),
{
    let chars = crate::text::chars_of(token);
    let mut has_dot = false;
    let mut i: usize = 0;
    while i < chars.len()
        invariant
            i <= chars@.len(),
            chars@ == token@,
            has_dot == chars@.take(i as int).contains('.'),
            forall|k: int| 0 <= k < i ==> descriptor_char(#[trigger] chars@[k]),
        decreases chars@.len() - i,
    {
        let c = chars[i];
        let allowed = ('0' <= c && c <= '9') || ('a' <= c && c <= 'z') || ('A' <= c && c <= 'Z')
            || c == '.' || c == '_' || c == '$';
        if !allowed {
            return false;
        }
        proof {
            assert(chars@.take(i + 1) =~= chars@.take(i as int).push(c));
            if has_dot {
                let w = choose|w: int| 0 <= w < i && chars@.take(i as int)[w] == '.';
                assert(chars@.take(i + 1)[w] == '.');
            }
            if c == '.' {
                assert(chars@.take(i + 1)[i as int] == '.');
            }
            if !has_dot && c != '.' {
                assert forall|w: int| 0 <= w < i + 1 implies #[trigger] chars@.take(i + 1)[w] != '.' by {
                    if w < i {
                        assert(chars@.take(i + 1)[w] == chars@.take(i as int)[w]);
                    }
                }
            }
        }
        has_dot = has_dot || c == '.';
        i = i + 1;
    }
    assert(chars@.take(i as int) =~= chars@);
    has_dot
}

/// Reads the interface token at the start of a Binder Parcel payload.
///
/// `Parcel.writeInterfaceToken()` writes a call header before the UTF-16
/// descriptor, and the header grew over Android releases, so the offsets 12,
/// 8, 4 and 0 are tried in turn.
pub fn parse_interface_token(payload: &[u8]) -> (r: Option<String>)
    ensures
        match spec_parse_interface_token(payload@) {
            Some(token) => r matches Some(s) && s@ == token,
            None => r is None,
        },
{
    let found = match read_string16(payload, 12) {
        Some(s) => Some(s),
        None => match read_string16(payload, 8) {
            Some(s) => Some(s),
            None => match read_string16(payload, 4) {
                Some(s) => Some(s),
                None => read_string16(payload, 0),
            },
        },
    };
    match found {
        Some(token) => {
            if is_interface_descriptor(token.as_str()) {
                Some(token)
            } else {
                None
            }
        },
        None => None,
    }
}

/// Whether two texts are equal.
pub fn text_eq(a: &str, b: &str) -> (r: bool)
    ensures
        r == (a@ == b@),
{
    let x = a.to_owned();
    let y = b.to_owned();
    x == y
}

impl PlatformMethodEntry {
    /// Whether this row answers a lookup of `interface` and `code` for the SDK bit `mask`.
    pub fn matches(&self, interface: &str, code: u32, mask: u16) -> (r: bool)
        ensures
            r == entry_matches(*self, interface@, code, mask),
    {
        text_eq(self.interface.as_str(), interface) && self.code == code && (self.sdk_mask & mask)
            != 0
    }

    /// A table row.
    pub fn new(sdk_mask: u16, interface: &str, code: u32, method: &str) -> (r: PlatformMethodEntry)
        ensures
            r.sdk_mask == sdk_mask,
            r.interface@ == interface@,
            r.code == code,
            r.method@ == method@,
    {
        PlatformMethodEntry {
            sdk_mask,
            interface: interface.to_owned(),
            code,
            method: method.to_owned(),
        }
    }
}

/// The platform method table seen from one Android SDK version.
#[derive(Debug, Clone, PartialEq, Eq)]
pub struct AndroidPlatformMethods {
    pub sdk: u16,
    pub entries: Vec<PlatformMethodEntry>,
}

/// The rows of the platform method table bundled with the library.
pub open spec fn bundled_table() -> Seq<(u16, Seq<char>, u32, Seq<char>)> {
    seq![
        (0x7fu16, "android.content.IContentProvider"@, 24u32, "createCancellationSignal"@),
        (0x7fu16, "android.database.IBulkCursor"@, 7u32, "close"@),
        (0x7fu16, "android.view.autofill.IAutoFillManager"@, 6u32, "updateSession"@),
        (0x7fu16, "android.system.keystore2.IKeystoreService"@, 1u32, "getSecurityLevel"@),
    ]
}

/// Whether table rows hold exactly the given `(mask, interface, code, method)` rows.
pub open spec fn entries_are(entries: Seq<PlatformMethodEntry>, rows: Seq<(u16, Seq<char>, u32, Seq<char>)>) -> bool {
    &&& entries.len() == rows.len()
    &&& forall|i: int|
        0 <= i < entries.len() ==> {
            &&& (#[trigger] entries[i]).sdk_mask == rows[i].0
            &&& entries[i].interface@ == rows[i].1
            &&& entries[i].code == rows[i].2
            &&& entries[i].method@ == rows[i].3
        }
}

/// The bundled platform method table.
pub fn bundled_entries() -> (r: Vec<PlatformMethodEntry>)
    ensures
        entries_are(r@, bundled_table()),
{
    let mut v: Vec<PlatformMethodEntry> = Vec::new();
    v.push(PlatformMethodEntry::new(0x7f, "android.content.IContentProvider", 24, "createCancellationSignal"));
    v.push(PlatformMethodEntry::new(0x7f, "android.database.IBulkCursor", 7, "close"));
    v.push(PlatformMethodEntry::new(0x7f, "android.view.autofill.IAutoFillManager", 6, "updateSession"));
    v.push(PlatformMethodEntry::new(0x7f, "android.system.keystore2.IKeystoreService", 1, "getSecurityLevel"));
    v
}

/// The bundled platform method table as tab-separated text: `sdk_mask`
/// (hex), `code`, `interface`, `method`, one row per line, `#` comment lines.
pub const BUNDLED_METHODS_TSV: &'static str = "# sdk_mask\tcode\tinterface\tmethod\n0x7f\t24\tandroid.content.IContentProvider\tcreateCancellationSignal\n0x7f\t7\tandroid.database.IBulkCursor\tclose\n0x7f\t6\tandroid.view.autofill.IAutoFillManager\tupdateSession\n0x7f\t1\tandroid.system.keystore2.IKeystoreService\tgetSecurityLevel\n";

/// The index of the first row from `k` on that answers a lookup, if any.
pub open spec fn first_match(
    entries: Seq<PlatformMethodEntry>,
    interface: Seq<char>,
    code: u32,
    mask: u16,
    k: int,
) -> Option<int>
    decreases entries.len() - k,
{
    if k < 0 || k >= entries.len() {
        None
    } else if entry_matches(entries[k], interface, code, mask) {
        Some(k)
    } else {
        first_match(entries, interface, code, mask, k + 1)
    }
}

proof fn lemma_first_match_matches(
    entries: Seq<PlatformMethodEntry>,
    interface: Seq<char>,
    code: u32,
    mask: u16,
    k: int,
)
    ensures
        first_match(entries, interface, code, mask, k) matches Some(j) ==> k <= j < entries.len() && entry_matches(
            entries[j],
            interface,
            code,
            mask,
        ),
    decreases entries.len() - k,
{
    if 0 <= k < entries.len() && !entry_matches(entries[k], interface, code, mask) {
        lemma_first_match_matches(entries, interface, code, mask, k + 1);
    }
}

impl AndroidPlatformMethods {
    /// The row a lookup answers with: the first that matches, for a supported SDK.
    pub open spec fn spec_lookup(self, interface: Seq<char>, code: u32) -> Option<int> {
        match spec_sdk_mask(self.sdk) {
            None => None,
            Some(mask) => first_match(self.entries@, interface, code, mask, 0),
        }
    }

    /// The method name a lookup gives, or the empty text.
    pub open spec fn spec_method_name(self, interface: Seq<char>, code: u32) -> Seq<char> {
        match self.spec_lookup(interface, code) {
            Some(i) => self.entries@[i].method@,
            None => Seq::empty(),
        }
    }

    /// The bundled table seen from `sdk`.
    pub fn new(sdk: u16) -> (r: AndroidPlatformMethods)
        ensures
            r.sdk == sdk,
            entries_are(r.entries@, bundled_table()),
    {
        AndroidPlatformMethods { sdk, entries: bundled_entries() }
    }

    /// A table of the given rows seen from `sdk`.
    pub fn with_entries(sdk: u16, entries: Vec<PlatformMethodEntry>) -> (r: AndroidPlatformMethods)
        ensures
            r.sdk == sdk,
            r.entries == entries,
    {
        AndroidPlatformMethods { sdk, entries }
    }

    /// Looks up a platform Binder method: the first row for this interface and
    /// code that holds for the SDK. Unknown interfaces, unknown codes and SDKs
    /// outside 30..=36 give `None`.
    pub fn lookup(&self, interface: &str, code: u32) -> (r: Option<AndroidPlatformMethod>)
        ensures
            match self.spec_lookup(interface@, code) {
                None => r is None,
                Some(i) => r matches Some(m) && m.interface@ == self.entries@[i].interface@
                    && m.code == self.entries@[i].code && m.method@ == self.entries@[i].method@,
            },
            (self.sdk < MIN_ANDROID_SDK || self.sdk > MAX_ANDROID_SDK) ==> r is None,
            r matches Some(m) ==> m.interface@ == interface@ && m.code == code,
    {
        proof {
            if let Some(mask) = spec_sdk_mask(self.sdk) {
                lemma_first_match_matches(self.entries@, interface@, code, mask, 0);
            }
        }
        let mask = match sdk_mask(self.sdk) {
            Some(mask) => mask,
            None => return None,
        };
        let mut i: usize = 0;
        while i < self.entries.len()
            invariant
                i <= self.entries@.len(),
                spec_sdk_mask(self.sdk) == Some(mask),
                first_match(self.entries@, interface@, code, mask, 0) == first_match(
                    self.entries@,
                    interface@,
                    code,
                    mask,
                    i as int,
                ),
            decreases self.entries@.len() - i,
        {
            let entry = &self.entries[i];
            if entry.matches(interface, code, mask) {
                return Some(
                    AndroidPlatformMethod {
                        interface: entry.interface.clone(),
                        code: entry.code,
                        method: entry.method.clone(),
                    },
                );
            }
            i = i + 1;
        }
        None
    }

    /// The method name of a lookup, or the empty string when nothing matches.
    pub fn method_name_or_empty(&self, interface: &str, code: u32) -> (r: String)
        ensures
            r@ == self.spec_method_name(interface@, code),
    {
        match self.lookup(interface, code) {
            Some(method) => method.method,
            None => String::new(),
        }
    }
}

/// The value of a digit in a radix up to 36, if it is one.
pub open spec fn digit_value(c: char, radix: nat) -> Option<nat> {
    let v: int = if '0' <= c && c <= '9' {
        c as int - '0' as int
    } else if 'a' <= c && c <= 'z' {
        c as int - 'a' as int + 10
    } else if 'A' <= c && c <= 'Z' {
        c as int - 'A' as int + 10
    } else {
        radix as int
    };
    if v < radix {
        Some(v as nat)
    } else {
        None
    }
}

/// The value of a string of digits in a radix, if every character is one.
pub open spec fn digits_value(s: Seq<char>, radix: nat) -> Option<nat>
    decreases s.len(),
{
    if s.len() == 0 {
        Some(0)
    } else {
        match (digits_value(s.drop_last(), radix), digit_value(s.last(), radix)) {
            (Some(v), Some(d)) => Some(v * radix + d),
            _ => None,
        }
    }
}

/// An unsigned number as the standard library's `from_str_radix` reads it:
/// an optional `+`, then at least one digit, with a value of at most `max`.
pub open spec fn spec_parse_unsigned(s: Seq<char>, radix: nat, max: nat) -> Option<nat> {
    let body = if s.len() > 0 && s[0] == '+' {
        s.drop_first()
    } else {
        s
    };
    if body.len() == 0 {
        None
    } else {
        match digits_value(body, radix) {
            Some(v) => if v <= max {
                Some(v)
            } else {
                None
            },
            None => None,
        }
    }
}

fn digit_of(c: char, radix: u32) -> (r: Option<u32>)
    requires
        2 <= radix <= 36,
    ensures
        match r {
            Some(d) => digit_value(c, radix as nat) == Some(d as nat),
            None => digit_value(c, radix as nat) is None,
        },
{
    let v: u32 = if '0' <= c && c <= '9' {
        (c as u32) - ('0' as u32)
    } else if 'a' <= c && c <= 'z' {
        (c as u32) - ('a' as u32) + 10
    } else if 'A' <= c && c <= 'Z' {
        (c as u32) - ('A' as u32) + 10
    } else {
        radix
    };
    if v < radix {
        Some(v)
    } else {
        None
    }
}

/// Reads an unsigned number in a radix, as `from_str_radix` does for an
/// unsigned type whose largest value is `max`.
pub fn parse_unsigned(s: &str, radix: u32, max: u64) -> (r: Option<u64>)
    requires
        2 <= radix <= 36,
        max <= u32::MAX,
    ensures
        match r {
            Some(v) => spec_parse_unsigned(s@, radix as nat, max as nat) == Some(v as nat),
            None => spec_parse_unsigned(s@, radix as nat, max as nat) is None,
        },
{
    let chars = crate::text::chars_of(s);
    let start: usize = if chars.len() > 0 && chars[0] == '+' {
        1
    } else {
        0
    };
    let ghost body = if s@.len() > 0 && s@[0] == '+' {
        s@.drop_first()
    } else {
        s@
    };
    assert(body =~= chars@.skip(start as int));
    if start >= chars.len() {
        return None;
    }
    let mut value: u64 = 0;
    let mut over = false;
    let mut i: usize = start;
    assert(chars@.subrange(start as int, start as int) =~= Seq::<char>::empty());
    while i < chars.len()
        invariant
            start <= i <= chars@.len(),
            chars@ == s@,
            body == chars@.skip(start as int),
            body == (if s@.len() > 0 && s@[0] == '+' {
                s@.drop_first()
            } else {
                s@
            }),
            2 <= radix <= 36,
            max <= u32::MAX,
            value <= max,
            match digits_value(chars@.subrange(start as int, i as int), radix as nat) {
                Some(w) => if over {
                    w > max
                } else {
                    w == value
                },
                None => false,
            },
        decreases chars@.len() - i,
    {
        let ghost prefix = chars@.subrange(start as int, i as int);
        let ghost next = chars@.subrange(start as int, i + 1);
        assert(next.drop_last() =~= prefix);
        assert(next.last() == chars@[i as int]);
        match digit_of(chars[i], radix) {
            None => {
                proof {
                    lemma_invalid_digits_stay_invalid(chars@.subrange(start as int, chars@.len() as int), radix as nat, (i - start) as nat);
                    assert(chars@.subrange(start as int, chars@.len() as int) =~= body);
                    assert(chars@.subrange(start as int, chars@.len() as int).subrange(0, (i + 1 - start) as int) =~= next);
                }
                return None;
            },
            Some(d) => {
                if !over {
                    assert(value * (radix as u64) <= u32::MAX * 36) by (nonlinear_arith)
                        requires
                            value <= u32::MAX,
                            radix <= 36,
                    ;
                    let candidate = value * (radix as u64) + (d as u64);
                    if candidate > max {
                        over = true;
                    } else {
                        value = candidate;
                    }
                } else {
                    proof {
                        let w = digits_value(prefix, radix as nat)->0;
                        assert(w * radix >= w) by (nonlinear_arith)
                            requires
                                radix >= 1,
                                w >= 0,
                        ;
                    }
                }
            },
        }
        i = i + 1;
    }
    assert(chars@.subrange(start as int, chars@.len() as int) =~= body);
    if over {
        None
    } else {
        Some(value)
    }
}

/// Once a digit string holds a character that is no digit, no longer string
/// that starts with it is a number either.
proof fn lemma_invalid_digits_stay_invalid(s: Seq<char>, radix: nat, k: nat)
    requires
        k < s.len(),
        digit_value(s[k as int], radix) is None,
    ensures
        digits_value(s, radix) is None,
    decreases s.len(),
{
    if s.len() == k + 1 {
        assert(s.last() == s[k as int]);
    } else {
        assert(s.drop_last()[k as int] == s[k as int]);
        lemma_invalid_digits_stay_invalid(s.drop_last(), radix, k);
    }
}

/// A row of the platform method table as its fields' text: the SDK mask in
/// hex after `0x`, the code in decimal, the interface and the method. The
/// first missing field, a mask without `0x` or out of range, or a bad code
/// is reported.
pub open spec fn spec_parse_entry(fields: Seq<Seq<char>>) -> Result<(u16, Seq<char>, u32, Seq<char>), Seq<char>> {
    if fields.len() != 4 {
        Err("字段数量应为 4 个，实际为 "@ + crate::text::decimal(fields.len()))
    } else if fields[0].len() == 0 {
        Err("缺少 sdk_mask 字段"@)
    } else if fields[1].len() == 0 {
        Err("缺少 code 字段"@)
    } else if fields[2].len() == 0 {
        Err("缺少 interface 字段"@)
    } else if fields[3].len() == 0 {
        Err("缺少 method 字段"@)
    } else if !(fields[0].len() >= 2 && fields[0][0] == '0' && fields[0][1] == 'x') {
        Err("sdk_mask 不是十六进制: "@ + fields[0])
    } else {
        match spec_parse_unsigned(fields[0].skip(2), 16, 0xffff) {
            None => Err("sdk_mask 数值无效: "@ + fields[0]),
            Some(mask) => match spec_parse_unsigned(fields[1], 10, 0xffff_ffff) {
                None => Err("code 数值无效: "@ + fields[1]),
                Some(code) => Ok((mask as u16, fields[2], code as u32, fields[3])),
            },
        }
    }
}

/// The fields' text.
pub open spec fn field_views(fields: Seq<&str>) -> Seq<Seq<char>> {
    Seq::new(fields.len(), |i: int| fields[i]@)
}

fn error_text(head: &str, value: &str) -> (r: String)
    ensures
        r@ == head@ + value@,
{
    let mut out: Vec<char> = Vec::new();
    crate::text::append_str(&mut out, head);
    crate::text::append_str(&mut out, value);
    crate::text::string_from_chars(out.as_slice())
}

fn text_of(text: &str) -> (r: String)
    ensures
        r@ == text@,
{
    let chars = crate::text::chars_of(text);
    crate::text::string_from_chars(chars.as_slice())
}

/// Reads one row of the platform method table from its fields.
pub fn parse_entry(fields: &[&str]) -> (r: Result<PlatformMethodEntry, String>)
    ensures
        match (r, spec_parse_entry(field_views(fields@))) {
            (Ok(e), Ok((mask, interface, code, method))) => e.sdk_mask == mask && e.interface@ == interface
                && e.code == code && e.method@ == method,
            (Err(m), Err(expected)) => m@ == expected,
            _ => false,
        },
{
    let ghost views = field_views(fields@);
    if fields.len() != 4 {
        let mut out: Vec<char> = Vec::new();
        crate::text::append_str(&mut out, "字段数量应为 4 个，实际为 ");
        let d = crate::text::decimal_chars(fields.len() as u64);
        crate::text::append_chars(&mut out, d.as_slice());
        return Err(crate::text::string_from_chars(out.as_slice()));
    }
    let sdk_mask = fields[0];
    let code = fields[1];
    let interface = fields[2];
    let method = fields[3];
    assert(views[0] == sdk_mask@ && views[1] == code@ && views[2] == interface@ && views[3] == method@);
    if sdk_mask.is_empty() {
        return Err(text_of("缺少 sdk_mask 字段"));
    }
    if code.is_empty() {
        return Err(text_of("缺少 code 字段"));
    }
    if interface.is_empty() {
        return Err(text_of("缺少 interface 字段"));
    }
    if method.is_empty() {
        return Err(text_of("缺少 method 字段"));
    }
    let mask_chars = crate::text::chars_of(sdk_mask);
    if !(mask_chars.len() >= 2 && mask_chars[0] == '0' && mask_chars[1] == 'x') {
        return Err(error_text("sdk_mask 不是十六进制: ", sdk_mask));
    }
    let mut raw: Vec<char> = Vec::new();
    let mut k: usize = 2;
    while k < mask_chars.len()
        invariant
            2 <= k <= mask_chars@.len(),
            raw@ == mask_chars@.subrange(2, k as int),
        decreases mask_chars@.len() - k,
    {
        raw.push(mask_chars[k]);
        k = k + 1;
        assert(raw@ =~= mask_chars@.subrange(2, k as int));
    }
    assert(raw@ =~= sdk_mask@.skip(2));
    let raw_text = crate::text::string_from_chars(raw.as_slice());
    let mask = match parse_unsigned(raw_text.as_str(), 16, 0xffff) {
        Some(v) => v as u16,
        None => {
            return Err(error_text("sdk_mask 数值无效: ", sdk_mask));
        },
    };
    let code_value = match parse_unsigned(code, 10, 0xffff_ffff) {
        Some(v) => v as u32,
        None => {
            return Err(error_text("code 数值无效: ", code));
        },
    };
    Ok(PlatformMethodEntry {
        sdk_mask: mask,
        interface: crate::text::string_from_chars(crate::text::chars_of(interface).as_slice()),
        code: code_value,
        method: crate::text::string_from_chars(crate::text::chars_of(method).as_slice()),
    })
}


/// The records csv reads from a tab-separated table: each record's fields,
/// or the text of the error it gave for the record, in order. The table is
/// read with a tab delimiter, no header row, `#` starting comment lines and
/// every record holding as many fields as the first.
pub uninterp spec fn tsv_records_of(text: Seq<char>) -> Seq<Result<Seq<Seq<char>>, Seq<char>>>;

/// The text of records as read.
pub open spec fn record_views(records: Seq<Result<Vec<String>, String>>) -> Seq<Result<Seq<Seq<char>>, Seq<char>>> {
    Seq::new(
        records.len(),
        |i: int|
            match records[i] {
                Ok(fields) => Ok(fields@.map_values(|f: String| f@)),
                Err(e) => Err(e@),
            },
    )
}

/// Reads a tab-separated table with `csv::ReaderBuilder` (tab delimiter, no
/// header row, `#` comments, a fixed field count) and `csv::Reader::records`:
/// the fields of each record, or the text of the error it gave.
#[verifier::external_body]
fn tsv_records(text: &str) -> (r: Vec<Result<Vec<String>, String>>)
    ensures
        record_views(r@) == tsv_records_of(text@),
{
    let mut reader = csv::ReaderBuilder::new()
        .delimiter(b'\t')
        .has_headers(false)
        .comment(Some(b'#'))
        .flexible(false)
        .from_reader(text.as_bytes());
    reader
        .records()
        .map(|record| record.map(|fields| fields.iter().map(String::from).collect()).map_err(|error| error.to_string()))
        .collect()
}

/// How a bad record of the method table is reported: its position, counted
/// from one, and why.
pub open spec fn bad_record_text(position: nat, why: Seq<char>) -> Seq<char> {
    "Android 平台 Binder 方法表第 "@ + crate::text::decimal(position) + " 条记录无效: "@ + why
}

/// The rows read records make: each record's row in order, or the report of
/// the first record that could not be read or is not a valid row.
pub open spec fn spec_table_rows(records: Seq<Result<Seq<Seq<char>>, Seq<char>>>) -> Result<
    Seq<(u16, Seq<char>, u32, Seq<char>)>,
    Seq<char>,
>
    decreases records.len(),
{
    if records.len() == 0 {
        Ok(Seq::empty())
    } else {
        match spec_table_rows(records.drop_last()) {
            Err(e) => Err(e),
            Ok(rows) => match records.last() {
                Err(why) => Err(bad_record_text(records.len(), why)),
                Ok(fields) => match spec_parse_entry(fields) {
                    Err(why) => Err(bad_record_text(records.len(), why)),
                    Ok(row) => Ok(rows.push(row)),
                },
            },
        }
    }
}

proof fn lemma_table_error_stays(records: Seq<Result<Seq<Seq<char>>, Seq<char>>>, k: int)
    requires
        0 <= k <= records.len(),
        spec_table_rows(records.take(k)) is Err,
    ensures
        spec_table_rows(records) == spec_table_rows(records.take(k)),
    decreases records.len(),
{
    if records.len() == k {
        assert(records.take(k) =~= records);
    } else {
        assert(records.drop_last().take(k) =~= records.take(k));
        lemma_table_error_stays(records.drop_last(), k);
    }
}

fn bad_record_message(position: usize, why: &str) -> (r: String)
    ensures
        r@ == bad_record_text(position as nat, why@),
{
    let mut out: Vec<char> = Vec::new();
    crate::text::append_str(&mut out, "Android 平台 Binder 方法表第 ");
    let d = crate::text::decimal_chars(position as u64);
    crate::text::append_chars(&mut out, d.as_slice());
    crate::text::append_str(&mut out, " 条记录无效: ");
    crate::text::append_str(&mut out, why);
    crate::text::string_from_chars(out.as_slice())
}

/// The method table from read records: every record as a row, in order, or
/// the report of the first bad record.
pub fn entries_from_records(records: &[Result<Vec<String>, String>]) -> (r: Result<Vec<PlatformMethodEntry>, String>)
    ensures
        match spec_table_rows(record_views(records@)) {
            Ok(rows) => r matches Ok(entries) && entries_are(entries@, rows),
            Err(message) => r matches Err(m) && m@ == message,
        },
{
    let ghost views = record_views(records@);
    let mut entries: Vec<PlatformMethodEntry> = Vec::new();
    let mut i: usize = 0;
    assert(views.take(0) =~= Seq::<Result<Seq<Seq<char>>, Seq<char>>>::empty());
    while i < records.len()
        invariant
            i <= records@.len(),
            views == record_views(records@),
            spec_table_rows(views.take(i as int)) matches Ok(rows) && entries_are(entries@, rows),
        decreases records@.len() - i,
    {
        let ghost prefix = views.take(i + 1);
        assert(prefix.drop_last() =~= views.take(i as int));
        assert(prefix.last() == views[i as int]);
        let ghost rows = spec_table_rows(views.take(i as int))->Ok_0;
        match &records[i] {
            Err(why) => {
                let message = bad_record_message(i + 1, why.as_str());
                proof {
                    lemma_table_error_stays(views, i + 1);
                }
                return Err(message);
            },
            Ok(fields) => {
                let mut texts: Vec<&str> = Vec::new();
                let mut j: usize = 0;
                while j < fields.len()
                    invariant
                        j <= fields@.len(),
                        texts@.len() == j,
                        forall|k: int| 0 <= k < j ==> (#[trigger] texts@[k])@ == fields@[k]@,
                    decreases fields@.len() - j,
                {
                    texts.push(fields[j].as_str());
                    j = j + 1;
                }
                assert(field_views(texts@) =~= fields@.map_values(|f: String| f@));
                match parse_entry(texts.as_slice()) {
                    Err(why) => {
                        let message = bad_record_message(i + 1, why.as_str());
                        proof {
                            lemma_table_error_stays(views, i + 1);
                        }
                        return Err(message);
                    },
                    Ok(entry) => {
                        entries.push(entry);
                        assert(entries_are(entries@, rows.push(spec_table_rows(prefix)->Ok_0.last())));
                    },
                }
            },
        }
        i = i + 1;
    }
    assert(views.take(records@.len() as int) =~= views);
    Ok(entries)
}

/// Reads the platform method table from its tab-separated text (lines
/// starting with `#` are comments): its rows in order, or the report of the
/// first bad record.
pub fn load_platform_methods(text: &str) -> (r: Result<Vec<PlatformMethodEntry>, String>)
    ensures
        match spec_table_rows(tsv_records_of(text@)) {
            Ok(rows) => r matches Ok(entries) && entries_are(entries@, rows),
            Err(message) => r matches Err(m) && m@ == message,
        },
{
    let records = tsv_records(text);
    entries_from_records(records.as_slice())
}

} // verus!
