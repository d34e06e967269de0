//! Text helpers: characters of a string, decimal numbers, list previews and
//! the UTF-16 encoding that the Windows text clipboard uses.
use vstd::prelude::*;

verus! {

/// `std`'s `String::push`: the string afterwards is the string before with
/// `c` appended.
#[verifier::external_body]
pub(crate) fn push_char(s: &mut String, c: char)
    ensures
        final(s)@ == old(s)@.push(c),
{
    s.push(c);
}

/// `std`'s `char::from_u32`: `Some` exactly for the Unicode scalar values,
/// and then the character with that number.
#[verifier::external_body]
fn char_from_u32(value: u32) -> (c: Option<char>)
    ensures
        c is Some <==> is_scalar_value(value as int),
        c matches Some(ch) ==> ch as u32 == value,
{
    char::from_u32(value)
}

/// The characters of `s`, in order.
pub fn chars_of(s: &str) -> (v: Vec<char>)
    ensures
        v@ == s@,
{
    let mut v: Vec<char> = Vec::new();
    for c in it: s.chars()
        invariant
            v@ == it.seq().take(it.index() as int),
            it.seq() == s@,
    {
        v.push(c);
    }
    v
}

/// Appends the characters `chars[from..to]` to `s`.
pub fn push_chars(s: &mut String, chars: &Vec<char>, from: usize, to: usize)
    requires
        from <= to <= chars@.len(),
    ensures
        final(s)@ == old(s)@ + chars@.subrange(from as int, to as int),
{
    let mut i = from;
    while i < to
        invariant
            from <= i <= to <= chars@.len(),
            s@ == old(s)@ + chars@.subrange(from as int, i as int),
        decreases to - i,
    {
        push_char(s, chars[i]);
        assert(chars@.subrange(from as int, i + 1) =~= chars@.subrange(from as int, i as int).push(
            chars@[i as int],
        ));
        i = i + 1;
    }
}

/// A string holding exactly `chars`.
pub fn string_from_chars(chars: &Vec<char>) -> (s: String)
    ensures
        s@ == chars@,
{
    let mut s = String::new();
    push_chars(&mut s, chars, 0, chars.len());
    assert(chars@.subrange(0, chars@.len() as int) =~= chars@);
    s
}

// ---------------------------------------------------------------------------
// Decimal numbers
// ---------------------------------------------------------------------------
/// The character of a decimal digit.
pub open spec fn digit_char(d: nat) -> char {
    if d == 0 {
        '0'
    } else if d == 1 {
        '1'
    } else if d == 2 {
        '2'
    } else if d == 3 {
        '3'
    } else if d == 4 {
        '4'
    } else if d == 5 {
        '5'
    } else if d == 6 {
        '6'
    } else if d == 7 {
        '7'
    } else if d == 8 {
        '8'
    } else {
        '9'
    }
}

/// The decimal numeral of `n`, most significant digit first, without
/// leading zeros (`0` is written `0`).
pub open spec fn decimal(n: nat) -> Seq<char>
    decreases n,
{
    if n < 10 {
        seq![digit_char(n)]
    } else {
        decimal(n / 10).push(digit_char(n % 10))
    }
}

fn digit(d: u8) -> (c: char)
    requires
        d < 10,
    ensures
        c == digit_char(d as nat),
{
    match d {
        0 => '0',
        1 => '1',
        2 => '2',
        3 => '3',
        4 => '4',
        5 => '5',
        6 => '6',
        7 => '7',
        8 => '8',
        _ => '9',
    }
}

/// Appends the decimal numeral of `n` to `s`.
pub fn push_decimal(s: &mut String, n: u128)
    ensures
        final(s)@ == old(s)@ + decimal(n as nat),
    decreases n,
{
    if n >= 10 {
        push_decimal(s, n / 10);
    }
    let d = (n % 10) as u8;
    push_char(s, digit(d));
    assert(final(s)@ == old(s)@ + decimal(n as nat)) by {
        if n >= 10 {
            assert(decimal(n as nat) == decimal((n / 10) as nat).push(digit_char((n % 10) as nat)));
        } else {
            assert(decimal(n as nat) == seq![digit_char(n as nat)]);
        }
    }
}

// ---------------------------------------------------------------------------
// Previews
// ---------------------------------------------------------------------------
/// The number of characters that a text preview shows.
pub const PREVIEW_LIMIT: usize = 100;

/// `text` with each `\r\n` pair, and then each remaining `\r` or `\n`,
/// replaced by one space.
pub open spec fn collapse_line_breaks(text: Seq<char>) -> Seq<char>
    decreases text.len(),
{
    if text.len() == 0 {
        Seq::empty()
    } else if text.len() >= 2 && text[0] == '\r' && text[1] == '\n' {
        seq![' '] + collapse_line_breaks(text.skip(2))
    } else if text[0] == '\r' || text[0] == '\n' {
        seq![' '] + collapse_line_breaks(text.skip(1))
    } else {
        seq![text[0]] + collapse_line_breaks(text.skip(1))
    }
}

/// The one-line preview of a text entry: its line breaks become spaces, and
/// when more than `PREVIEW_LIMIT` characters remain, the first
/// `PREVIEW_LIMIT` of them followed by `...`.
pub open spec fn preview_of(text: Seq<char>) -> Seq<char> {
    let flat = collapse_line_breaks(text);
    if flat.len() > PREVIEW_LIMIT {
        flat.take(PREVIEW_LIMIT as int) + seq!['.', '.', '.']
    } else {
        flat
    }
}

pub fn text_preview(text: &str) -> (preview: String)
    ensures
        preview@ == preview_of(text@),
{
    let chars = chars_of(text);
    let n = chars.len();
    let mut flat: Vec<char> = Vec::new();
    let mut i: usize = 0;
    assert(chars@.skip(0) =~= chars@);
    assert(flat@ + collapse_line_breaks(chars@) =~= collapse_line_breaks(chars@));
    while i < n
        invariant
            n == chars@.len(),
            chars@ == text@,
            i <= n,
            collapse_line_breaks(chars@) == flat@ + collapse_line_breaks(chars@.skip(i as int)),
        decreases n - i,
    {
        let rest = Ghost(chars@.skip(i as int));
        let c = chars[i];
        if c == '\r' && i + 1 < n && chars[i + 1] == '\n' {
            assert(rest@.skip(2) =~= chars@.skip(i + 2));
            flat.push(' ');
            i = i + 2;
        } else {
            assert(rest@.skip(1) =~= chars@.skip(i + 1));
            if c == '\r' || c == '\n' {
                flat.push(' ');
            } else {
                flat.push(c);
            }
            i = i + 1;
        }
    }
    assert(chars@.skip(n as int) =~= Seq::<char>::empty());
    assert(flat@ =~= collapse_line_breaks(text@));
    if flat.len() > PREVIEW_LIMIT {
        let mut preview = String::new();
        push_chars(&mut preview, &flat, 0, PREVIEW_LIMIT);
        push_char(&mut preview, '.');
        push_char(&mut preview, '.');
        push_char(&mut preview, '.');
        assert(flat@.subrange(0, PREVIEW_LIMIT as int) =~= flat@.take(PREVIEW_LIMIT as int));
        assert(preview@ =~= preview_of(text@));
        preview
    } else {
        string_from_chars(&flat)
    }
}

proof fn lemma_collapse_single_line(text: Seq<char>)
    ensures
        !collapse_line_breaks(text).contains('\r'),
        !collapse_line_breaks(text).contains('\n'),
        collapse_line_breaks(text).len() <= text.len(),
    decreases text.len(),
{
    if text.len() == 0 {
    } else if text.len() >= 2 && text[0] == '\r' && text[1] == '\n' {
        lemma_collapse_single_line(text.skip(2));
        let rest = collapse_line_breaks(text.skip(2));
        assert forall|k: int| 0 <= k < (seq![' '] + rest).len() implies (seq![' '] + rest)[k]
            != '\r' && (seq![' '] + rest)[k] != '\n' by {
            if k > 0 {
                assert((seq![' '] + rest)[k] == rest[k - 1]);
            }
        }
    } else {
        lemma_collapse_single_line(text.skip(1));
        let rest = collapse_line_breaks(text.skip(1));
        let head = if text[0] == '\r' || text[0] == '\n' { ' ' } else { text[0] };
        assert(collapse_line_breaks(text) == seq![head] + rest);
        assert forall|k: int| 0 <= k < (seq![head] + rest).len() implies (seq![head] + rest)[k]
            != '\r' && (seq![head] + rest)[k] != '\n' by {
            if k > 0 {
                assert((seq![head] + rest)[k] == rest[k - 1]);
            }
        }
    }
}

/// A preview is one line: it holds no `\r` and no `\n`, and it is at most
/// `PREVIEW_LIMIT` characters followed by `...`.
pub proof fn lemma_preview_is_one_short_line(text: Seq<char>)
    ensures
        !preview_of(text).contains('\r'),
        !preview_of(text).contains('\n'),
        preview_of(text).len() <= PREVIEW_LIMIT + 3,
{
    lemma_collapse_single_line(text);
    let flat = collapse_line_breaks(text);
    if flat.len() > PREVIEW_LIMIT {
        let p = flat.take(PREVIEW_LIMIT as int) + seq!['.', '.', '.'];
        assert forall|k: int| 0 <= k < p.len() implies p[k] != '\r' && p[k] != '\n' by {
            if k < PREVIEW_LIMIT {
                assert(p[k] == flat[k]);
            }
        }
    }
}

/// A text that is already one line of at most `PREVIEW_LIMIT` characters is
/// its own preview.
pub proof fn lemma_short_line_is_own_preview(text: Seq<char>)
    requires
        !text.contains('\r'),
        !text.contains('\n'),
        text.len() <= PREVIEW_LIMIT,
    ensures
        preview_of(text) == text,
{
    lemma_collapse_identity(text);
}

proof fn lemma_collapse_identity(text: Seq<char>)
    requires
        !text.contains('\r'),
        !text.contains('\n'),
    ensures
        collapse_line_breaks(text) == text,
    decreases text.len(),
{
    if text.len() > 0 {
        assert(text[0] != '\r' && text[0] != '\n') by {
            assert(text.contains(text[0]));
        }
        let rest = text.skip(1);
        assert(!rest.contains('\r') && !rest.contains('\n')) by {
            if rest.contains('\r') {
                let k = choose|k: int| 0 <= k < rest.len() && rest[k] == '\r';
                assert(text[k + 1] == '\r');
            }
            if rest.contains('\n') {
                let k = choose|k: int| 0 <= k < rest.len() && rest[k] == '\n';
                assert(text[k + 1] == '\n');
            }
        }
        lemma_collapse_identity(rest);
        assert(seq![text[0]] + rest =~= text);
    }
}

// ---------------------------------------------------------------------------
// UTF-16
// ---------------------------------------------------------------------------
/// A Unicode scalar value: a code point that is not a surrogate.
pub open spec fn is_scalar_value(v: int) -> bool {
    (0 <= v <= 0xD7FF) || (0xE000 <= v <= 0x10FFFF)
}

proof fn lemma_char_is_scalar(c: char)
    ensures
        is_scalar_value(c as u32 as int),
{
}

proof fn lemma_char_from_value(c: char, v: u32)
    requires
        c as u32 == v,
        is_scalar_value(v as int),
    ensures
        c == (v as char),
{
    assert((v as char) as u32 == v);
}

pub open spec fn is_surrogate(u: u16) -> bool {
    0xD800 <= u <= 0xDFFF
}

pub open spec fn is_high_surrogate(u: u16) -> bool {
    0xD800 <= u <= 0xDBFF
}

pub open spec fn is_low_surrogate(u: u16) -> bool {
    0xDC00 <= u <= 0xDFFF
}

/// The UTF-16 code units of one character.
pub open spec fn utf16_of_char(c: char) -> Seq<u16> {
    let v = c as u32;
    if v < 0x10000 {
        seq![v as u16]
    } else {
        seq![(0xD800 + (v - 0x10000) / 0x400) as u16, (0xDC00 + (v - 0x10000) % 0x400) as u16]
    }
}

/// The UTF-16 encoding of a character sequence.
pub open spec fn utf16_encode(s: Seq<char>) -> Seq<u16>
    decreases s.len(),
{
    if s.len() == 0 {
        Seq::empty()
    } else {
        utf16_of_char(s[0]) + utf16_encode(s.skip(1))
    }
}

/// The scalar value that a high and a low surrogate stand for.
pub open spec fn surrogate_pair_value(high: u16, low: u16) -> int {
    0x10000 + (high - 0xD800) * 0x400 + (low - 0xDC00)
}

/// Lossy UTF-16 decoding: a surrogate pair becomes its character, each
/// unpaired surrogate becomes U+FFFD, every other unit its own character.
pub open spec fn utf16_decode_lossy(u: Seq<u16>) -> Seq<char>
    decreases u.len(),
{
    if u.len() == 0 {
        Seq::empty()
    } else if !is_surrogate(u[0]) {
        seq![u[0] as char] + utf16_decode_lossy(u.skip(1))
    } else if is_high_surrogate(u[0]) && u.len() >= 2 && is_low_surrogate(u[1]) {
        seq![surrogate_pair_value(u[0], u[1]) as char] + utf16_decode_lossy(u.skip(2))
    } else {
        seq!['\u{FFFD}'] + utf16_decode_lossy(u.skip(1))
    }
}

/// The number of leading units before the first NUL unit (all of them when
/// there is none).
pub open spec fn units_before_nul(u: Seq<u16>) -> int
    decreases u.len(),
{
    if u.len() == 0 {
        0
    } else if u[0] == 0 {
        0
    } else {
        1 + units_before_nul(u.skip(1))
    }
}

proof fn lemma_encode_push(s: Seq<char>, c: char)
    ensures
        utf16_encode(s.push(c)) == utf16_encode(s) + utf16_of_char(c),
    decreases s.len(),
{
    if s.len() == 0 {
        assert(s.push(c).skip(1) =~= Seq::<char>::empty());
        assert(utf16_encode(s.push(c)) == utf16_of_char(c) + utf16_encode(Seq::<char>::empty()));
        assert(utf16_of_char(c) + Seq::<u16>::empty() =~= utf16_of_char(c));
    } else {
        assert(s.push(c).skip(1) =~= s.skip(1).push(c));
        lemma_encode_push(s.skip(1), c);
        assert(utf16_encode(s.push(c)) == utf16_of_char(s[0]) + utf16_encode(s.skip(1).push(c)));
        assert(utf16_of_char(s[0]) + (utf16_encode(s.skip(1)) + utf16_of_char(c)) =~= (
        utf16_of_char(s[0]) + utf16_encode(s.skip(1))) + utf16_of_char(c));
    }
}

/// Appends the UTF-16 code units of `c` to `units`.
fn push_utf16(units: &mut Vec<u16>, c: char)
    ensures
        final(units)@ == old(units)@ + utf16_of_char(c),
{
    let v = c as u32;
    if v < 0x10000 {
        units.push(v as u16);
        assert(seq![v as u16] =~= utf16_of_char(c));
        assert(old(units)@.push(v as u16) =~= old(units)@ + seq![v as u16]);
    } else {
        let w = v - 0x10000;
        let high = (0xD800 + w / 0x400) as u16;
        let low = (0xDC00 + w % 0x400) as u16;
        units.push(high);
        units.push(low);
        assert(seq![high, low] =~= utf16_of_char(c));
        assert(old(units)@.push(high).push(low) =~= old(units)@ + seq![high, low]);
    }
}

/// The UTF-16 encoding of `text`.
pub fn encode_utf16(text: &str) -> (units: Vec<u16>)
    ensures
        units@ == utf16_encode(text@),
{
    let chars = chars_of(text);
    let mut units: Vec<u16> = Vec::new();
    let mut i: usize = 0;
    assert(chars@.take(0) =~= Seq::<char>::empty());
    while i < chars.len()
        invariant
            i <= chars@.len(),
            units@ == utf16_encode(chars@.take(i as int)),
        decreases chars@.len() - i,
    {
        proof {
            lemma_encode_push(chars@.take(i as int), chars@[i as int]);
            assert(chars@.take(i + 1) =~= chars@.take(i as int).push(chars@[i as int]));
        }
        push_utf16(&mut units, chars[i]);
        i = i + 1;
    }
    assert(chars@.take(chars@.len() as int) =~= text@);
    units
}

/// The number of units of `units` that come before its first NUL unit.
pub fn nul_position(units: &Vec<u16>) -> (p: usize)
    ensures
        p == units_before_nul(units@),
        p <= units@.len(),
{
    let mut i: usize = 0;
    assert(units@.skip(0) =~= units@);
    while i < units.len()
        invariant
            i <= units@.len(),
            forall|j: int| 0 <= j < i ==> units@[j] != 0,
            units_before_nul(units@) == i + units_before_nul(units@.skip(i as int)),
        decreases units@.len() - i,
    {
        if units[i] == 0 {
            return i;
        }
        assert(units@.skip(i as int).skip(1) =~= units@.skip(i + 1));
        i = i + 1;
    }
    i
}

/// Decodes `units` as UTF-16, replacing each unpaired surrogate by U+FFFD.
pub fn decode_utf16_lossy(units: &Vec<u16>, end: usize) -> (text: String)
    requires
        end <= units@.len(),
    ensures
        text@ == utf16_decode_lossy(units@.take(end as int)),
{
    let ghost u = units@.take(end as int);
    let mut out: Vec<char> = Vec::new();
    let mut i: usize = 0;
    assert(u.skip(0) =~= u);
    assert(out@ + utf16_decode_lossy(u) =~= utf16_decode_lossy(u));
    while i < end
        invariant
            end <= units@.len(),
            u == units@.take(end as int),
            i <= end,
            utf16_decode_lossy(u) == out@ + utf16_decode_lossy(u.skip(i as int)),
        decreases end - i,
    {
        let ghost rest = u.skip(i as int);
        let unit = units[i];
        assert(rest[0] == unit);
        if unit < 0xD800 || unit > 0xDFFF {
            assert(rest.skip(1) =~= u.skip(i + 1));
            let c = char_from_u32(unit as u32);
            match c {
                Some(ch) => {
                    proof {
                        lemma_char_from_value(ch, unit as u32);
                    }
                    out.push(ch);
                },
                None => {},
            }
            i = i + 1;
        } else if unit <= 0xDBFF && i + 1 < end && units[i + 1] >= 0xDC00 && units[i + 1] <= 0xDFFF {
            let low = units[i + 1];
            assert(rest[1] == low);
            assert(rest.skip(2) =~= u.skip(i + 2));
            let value: u32 = 0x10000 + (unit as u32 - 0xD800) * 0x400 + (low as u32 - 0xDC00);
            let c = char_from_u32(value);
            match c {
                Some(ch) => {
                    proof {
                        lemma_char_from_value(ch, value);
                    }
                    out.push(ch);
                },
                None => {},
            }
            i = i + 2;
        } else {
            assert(rest.skip(1) =~= u.skip(i + 1));
            out.push('\u{FFFD}');
            i = i + 1;
        }
    }
    assert(u.skip(end as int) =~= Seq::<u16>::empty());
    assert(out@ =~= utf16_decode_lossy(u));
    string_from_chars(&out)
}

proof fn lemma_pair_roundtrip(v: int)
    requires
        0x10000 <= v <= 0x10FFFF,
    ensures
        0xD800 <= 0xD800 + (v - 0x10000) / 0x400 <= 0xDBFF,
        0xDC00 <= 0xDC00 + (v - 0x10000) % 0x400 <= 0xDFFF,
        0x10000 + ((v - 0x10000) / 0x400) * 0x400 + (v - 0x10000) % 0x400 == v,
{
    let w = v - 0x10000;
    assert(0 <= w < 0x100000);
    assert(w == (w / 0x400) * 0x400 + w % 0x400) by (nonlinear_arith)
        requires
            0 <= w,
    ;
    assert(0 <= w / 0x400 <= 0x3FF) by (nonlinear_arith)
        requires
            0 <= w < 0x100000,
    ;
    assert(0 <= w % 0x400 < 0x400) by (nonlinear_arith)
        requires
            0 <= w,
    ;
}

/// Decoding the UTF-16 encoding of any text gives the text back.
pub proof fn lemma_utf16_roundtrip(s: Seq<char>)
    ensures
        utf16_decode_lossy(utf16_encode(s)) == s,
    decreases s.len(),
{
    if s.len() > 0 {
        let c = s[0];
        let v = c as u32;
        lemma_char_is_scalar(c);
        let rest = utf16_encode(s.skip(1));
        lemma_utf16_roundtrip(s.skip(1));
        let e = utf16_encode(s);
        assert(e == utf16_of_char(c) + rest);
        if v < 0x10000 {
            assert(!(0xD800 <= v <= 0xDFFF));
            assert(e[0] == v as u16);
            assert(e.skip(1) =~= rest);
            assert((v as u16) as u32 == v);
            lemma_char_from_value(c, v);
        } else {
            lemma_pair_roundtrip(v as int);
            let high = (0xD800 + (v - 0x10000) / 0x400) as u16;
            let low = (0xDC00 + (v - 0x10000) % 0x400) as u16;
            assert(e[0] == high && e[1] == low);
            assert(e.skip(2) =~= rest);
            assert(surrogate_pair_value(high, low) == v);
            lemma_char_from_value(c, v);
        }
        assert(seq![c] + s.skip(1) =~= s);
    }
}

/// A text without NUL characters has no NUL unit in its UTF-16 encoding.
pub proof fn lemma_encode_has_no_nul(s: Seq<char>)
    requires
        !s.contains('\0'),
    ensures
        units_before_nul(utf16_encode(s)) == utf16_encode(s).len(),
    decreases s.len(),
{
    if s.len() > 0 {
        assert(s[0] != '\0') by {
            assert(s.contains(s[0]));
        }
        assert(!s.skip(1).contains('\0')) by {
            if s.skip(1).contains('\0') {
                let k = choose|k: int| 0 <= k < s.skip(1).len() && s.skip(1)[k] == '\0';
                assert(s[k + 1] == '\0');
            }
        }
        lemma_encode_has_no_nul(s.skip(1));
        let head = utf16_of_char(s[0]);
        let rest = utf16_encode(s.skip(1));
        let e = utf16_encode(s);
        assert(e == head + rest);
        lemma_char_is_scalar(s[0]);
        assert(s[0] as u32 != 0) by {
            if s[0] as u32 == 0 {
                lemma_char_from_value(s[0], 0);
                lemma_char_from_value('\0', 0);
            }
        }
        if (s[0] as u32) < 0x10000 {
            assert(e[0] != 0);
            assert(e.skip(1) =~= rest);
            assert(units_before_nul(e) == 1 + units_before_nul(e.skip(1)));
        } else {
            lemma_pair_roundtrip((s[0] as u32) as int);
            assert(e[0] != 0);
            assert(e.skip(1)[0] == head[1]);
            assert(e.skip(1)[0] != 0);
            assert(e.skip(1).skip(1) =~= rest);
            assert(units_before_nul(e.skip(1)) == 1 + units_before_nul(e.skip(1).skip(1)));
            assert(units_before_nul(e) == 1 + units_before_nul(e.skip(1)));
        }
    }
}

} // verus!
