//! Text primitives the conversions are built from: decimal and hexadecimal rendering, ASCII case
//! mapping, whitespace trimming, substring search, and the lossy UTF-8 / UTF-16 decoders of std.
use vstd::prelude::*;

verus! {

// ---------------------------------------------------------------------------------------------
// Digits
// ---------------------------------------------------------------------------------------------

/// The upper-case hexadecimal digit for `d` (`0..=9` then `A..=F`); also the decimal digit for
/// `d < 10`.
pub open spec fn digit_char(d: nat) -> char {
    if d < 10 {
        ((48 + d) as u8) as char
    } else {
        ((55 + d) as u8) as char
    }
}

/// `n` in decimal with no leading zeros, as `{}` prints an unsigned integer.
pub open spec fn decimal(n: nat) -> Seq<char>
    decreases n,
{
    if n < 10 {
        seq![digit_char(n)]
    } else {
        decimal(n / 10).push(digit_char(n % 10))
    }
}

/// The low `width` hexadecimal digits of `n`, upper case, most significant first. For
/// `n < 16^width` this is exactly what `{:0width$X}` prints.
pub open spec fn hex_fixed(n: nat, width: nat) -> Seq<char>
    decreases width,
{
    if width == 0 {
        Seq::empty()
    } else {
        hex_fixed(n / 16, (width - 1) as nat).push(digit_char(n % 16))
    }
}

/// `n` in upper-case hexadecimal with no leading zeros, as `{:X}` prints it.
pub open spec fn hex_min(n: nat) -> Seq<char>
    decreases n,
{
    if n < 16 {
        seq![digit_char(n)]
    } else {
        hex_min(n / 16).push(digit_char(n % 16))
    }
}

fn digit(d: u64) -> (c: char)
    requires
        d < 16,
    ensures
        c == digit_char(d as nat),
{
    let b: u8 = d as u8;
    if b < 10 {
        (48 + b) as char
    } else {
        (55 + b) as char
    }
}

/// Appends one character (`String::push`).
#[verifier::external_body]
pub(crate) fn push_char(s: &mut String, c: char)
    ensures
        final(s)@ == old(s)@.push(c),
{
    s.push(c);
}

/// Appends the decimal rendering of `n`.
pub fn push_decimal(s: &mut String, n: u64)
    ensures
        final(s)@ == old(s)@ + decimal(n as nat),
    decreases n,
{
    if n >= 10 {
        push_decimal(s, n / 10);
    }
    push_char(s, digit(n % 10));
    assert(final(s)@ == old(s)@ + decimal(n as nat));
}

/// `n` in decimal with a leading `-` when negative, as `{}` and `{:?}` print a signed integer.
pub open spec fn signed_decimal(n: int) -> Seq<char> {
    if n < 0 {
        seq!['-'] + decimal((-n) as nat)
    } else {
        decimal(n as nat)
    }
}

/// Appends the decimal rendering of a signed `n`.
pub fn push_signed_decimal(s: &mut String, n: i32)
    ensures
        final(s)@ == old(s)@ + signed_decimal(n as int),
{
    if n < 0 {
        push_char(s, '-');
        let m: u64 = (0i64 - (n as i64)) as u64;
        push_decimal(s, m);
        assert(final(s)@ =~= old(s)@ + signed_decimal(n as int));
    } else {
        push_decimal(s, n as u64);
    }
}

/// Appends the `width` low hexadecimal digits of `n`.
pub fn push_hex_fixed(s: &mut String, n: u64, width: u32)
    ensures
        final(s)@ == old(s)@ + hex_fixed(n as nat, width as nat),
    decreases width,
{
    if width > 0 {
        push_hex_fixed(s, n / 16, width - 1);
        push_char(s, digit(n % 16));
    }
    assert(final(s)@ == old(s)@ + hex_fixed(n as nat, width as nat));
}

/// Appends `n` in hexadecimal without leading zeros.
pub fn push_hex(s: &mut String, n: u64)
    ensures
        final(s)@ == old(s)@ + hex_min(n as nat),
    decreases n,
{
    if n >= 16 {
        push_hex(s, n / 16);
    }
    push_char(s, digit(n % 16));
    assert(final(s)@ == old(s)@ + hex_min(n as nat));
}

// ---------------------------------------------------------------------------------------------
// Character sequences
// ---------------------------------------------------------------------------------------------

/// The characters of `s`, in order.
pub fn chars_of(s: &str) -> (v: Vec<char>)
    ensures
        v@ == s@,
{
    broadcast use vstd::string::group_string_axioms;

    let mut v: Vec<char> = Vec::new();
    for c in it: s.chars()
        invariant
            it.seq() == s@,
            v@ == s@.take(it.index() as int),
    {
        v.push(c);
        assert(v@ == s@.take(it.index() + 1));
    }
    assert(v@ == s@);
    v
}

/// Appends the characters `v[from..to]`.
pub fn push_range(s: &mut String, v: &Vec<char>, from: usize, to: usize)
    requires
        from <= to <= v@.len(),
    ensures
        final(s)@ == old(s)@ + v@.subrange(from as int, to as int),
{
    let mut i = from;
    while i < to
        invariant
            from <= i <= to <= v@.len(),
            s@ == old(s)@ + v@.subrange(from as int, i as int),
        decreases to - i,
    {
        push_char(s, v[i]);
        i = i + 1;
        assert(s@ == old(s)@ + v@.subrange(from as int, i as int));
    }
}

/// A new `String` holding `v[from..to]`.
pub fn string_of_range(v: &Vec<char>, from: usize, to: usize) -> (s: String)
    requires
        from <= to <= v@.len(),
    ensures
        s@ == v@.subrange(from as int, to as int),
{
    let mut s = String::new();
    push_range(&mut s, v, from, to);
    s
}

/// True when `pat` occurs in `s` starting at index `i`.
pub open spec fn occurs_at(s: Seq<char>, pat: Seq<char>, i: int) -> bool {
    0 <= i && i + pat.len() <= s.len() && s.subrange(i, i + pat.len()) == pat
}

/// The first index `>= i` at which `pat` occurs in `s`, if any (`str::find` on characters).
pub open spec fn find_from(s: Seq<char>, pat: Seq<char>, i: int) -> Option<int>
    decreases s.len() + 1 - i,
{
    if i < 0 || i + pat.len() > s.len() {
        None
    } else if occurs_at(s, pat, i) {
        Some(i)
    } else {
        find_from(s, pat, i + 1)
    }
}

/// The first index at which `pat` occurs in `s`, if any.
pub open spec fn find(s: Seq<char>, pat: Seq<char>) -> Option<int> {
    find_from(s, pat, 0)
}

/// Whatever `find_from` reports is an occurrence, at or after `i`, with none between.
pub proof fn lemma_find_from(s: Seq<char>, pat: Seq<char>, i: int)
    requires
        0 <= i,
    ensures
        find_from(s, pat, i) matches Some(k) ==> i <= k && occurs_at(s, pat, k) && forall|j: int|
            i <= j < k ==> !occurs_at(s, pat, j),
        find_from(s, pat, i) is None ==> forall|j: int| i <= j ==> !occurs_at(s, pat, j),
    decreases s.len() + 1 - i,
{
    if i + pat.len() > s.len() {
    } else if occurs_at(s, pat, i) {
    } else {
        lemma_find_from(s, pat, i + 1);
        assert forall|j: int| i <= j && find_from(s, pat, i) is None implies !occurs_at(
            s,
            pat,
            j,
        ) by {
            if j > i {
            }
        }
    }
}

fn occurs_at_exec(s: &Vec<char>, pat: &Vec<char>, i: usize) -> (b: bool)
    requires
        i + pat@.len() <= s@.len(),
    ensures
        b == occurs_at(s@, pat@, i as int),
{
    let mut k: usize = 0;
    while k < pat.len()
        invariant
            i + pat@.len() <= s@.len(),
            s@.len() == s.len(),
            k <= pat@.len(),
            forall|j: int| 0 <= j < k ==> s@[i + j] == pat@[j],
        decreases pat@.len() - k,
    {
        if s[i + k] != pat[k] {
            assert(s@.subrange(i as int, i + pat@.len())[k as int] != pat@[k as int]);
            return false;
        }
        k = k + 1;
    }
    assert(s@.subrange(i as int, i + pat@.len()) =~= pat@);
    true
}

/// The first index `>= from` at which `pat` occurs in `s`.
pub fn find_exec(s: &Vec<char>, pat: &Vec<char>, from: usize) -> (r: Option<usize>)
    requires
        from <= s@.len(),
    ensures
        r matches Some(k) ==> find_from(s@, pat@, from as int) == Some(k as int),
        r is None ==> find_from(s@, pat@, from as int) is None,
{
    if pat.len() > s.len() {
        return None;
    }
    if pat.len() == 0 {
        assert(s@.subrange(from as int, from as int) =~= pat@);
        return Some(from);
    }
    let last = s.len() - pat.len();
    let mut i = from;
    while i <= last
        invariant
            from <= i,
            last + pat@.len() == s@.len(),
            s@.len() == s.len(),
            pat@.len() >= 1,
            find_from(s@, pat@, from as int) == find_from(s@, pat@, i as int),
        decreases last + 1 - i,
    {
        if occurs_at_exec(s, pat, i) {
            return Some(i);
        }
        i = i + 1;
    }
    None
}

// ---------------------------------------------------------------------------------------------
// Case and whitespace
// ---------------------------------------------------------------------------------------------

/// ASCII upper-casing of one character (`char::to_ascii_uppercase`).
pub open spec fn ascii_upper(c: char) -> char {
    if 'a' <= c && c <= 'z' {
        ((c as u32 - 32) as u8) as char
    } else {
        c
    }
}

/// ASCII upper-casing of a whole sequence (`str::to_ascii_uppercase`).
pub open spec fn ascii_upper_seq(s: Seq<char>) -> Seq<char> {
    s.map_values(|c: char| ascii_upper(c))
}

pub fn ascii_upper_exec(c: char) -> (r: char)
    ensures
        r == ascii_upper(c),
{
    if 'a' <= c && c <= 'z' {
        let b: u8 = (c as u32 - 32) as u8;
        b as char
    } else {
        c
    }
}

/// The upper-cased characters of `v`.
pub fn ascii_upper_vec(v: &Vec<char>) -> (r: Vec<char>)
    ensures
        r@ == ascii_upper_seq(v@),
{
    let mut r: Vec<char> = Vec::new();
    let mut i: usize = 0;
    while i < v.len()
        invariant
            i <= v@.len(),
            r@ == ascii_upper_seq(v@.take(i as int)),
        decreases v@.len() - i,
    {
        r.push(ascii_upper_exec(v[i]));
        i = i + 1;
        assert(r@ =~= ascii_upper_seq(v@.take(i as int)));
    }
    assert(v@.take(v@.len() as int) =~= v@);
    r
}

/// The Unicode `White_Space` property (PropList): U+0009..=U+000D, U+0020, U+0085, U+00A0,
/// U+1680, U+2000..=U+200A, U+2028, U+2029, U+202F, U+205F and U+3000.
pub open spec fn is_whitespace_spec(c: char) -> bool {
    let v = c as u32;
    (0x09 <= v && v <= 0x0D) || v == 0x20 || v == 0x85 || v == 0xA0 || v == 0x1680 || (0x2000
        <= v && v <= 0x200A) || v == 0x2028 || v == 0x2029 || v == 0x202F || v == 0x205F || v
        == 0x3000
}

/// True exactly for the characters with the `White_Space` property (what `char::is_whitespace`
/// answers).
pub fn is_whitespace(c: char) -> (b: bool)
    ensures
        b == is_whitespace_spec(c),
{
    let v = c as u32;
    (0x09 <= v && v <= 0x0D) || v == 0x20 || v == 0x85 || v == 0xA0 || v == 0x1680 || (0x2000
        <= v && v <= 0x200A) || v == 0x2028 || v == 0x2029 || v == 0x202F || v == 0x205F || v
        == 0x3000
}

/// `s` with leading `White_Space` characters removed.
pub open spec fn trim_start(s: Seq<char>) -> Seq<char>
    decreases s.len(),
{
    if s.len() > 0 && is_whitespace_spec(s[0]) {
        trim_start(s.drop_first())
    } else {
        s
    }
}

/// `s` with trailing `White_Space` characters removed.
pub open spec fn trim_end(s: Seq<char>) -> Seq<char>
    decreases s.len(),
{
    if s.len() > 0 && is_whitespace_spec(s.last()) {
        trim_end(s.drop_last())
    } else {
        s
    }
}

/// `s` with leading and trailing whitespace removed (`str::trim`).
pub open spec fn trim(s: Seq<char>) -> Seq<char> {
    trim_end(trim_start(s))
}

proof fn lemma_trim_start_skip(s: Seq<char>, i: int)
    requires
        0 <= i <= s.len(),
        forall|j: int| 0 <= j < i ==> is_whitespace_spec(s[j]),
    ensures
        trim_start(s) == trim_start(s.subrange(i, s.len() as int)),
    decreases i,
{
    if i > 0 {
        lemma_trim_start_skip(s.drop_first(), i - 1);
        assert(s.drop_first().subrange(i - 1, s.drop_first().len() as int) =~= s.subrange(
            i,
            s.len() as int,
        ));
    } else {
        assert(s.subrange(0, s.len() as int) =~= s);
    }
}

proof fn lemma_trim_end_skip(s: Seq<char>, e: int)
    requires
        0 <= e <= s.len(),
        forall|j: int| e <= j < s.len() ==> is_whitespace_spec(s[j]),
    ensures
        trim_end(s) == trim_end(s.subrange(0, e)),
    decreases s.len() - e,
{
    if e < s.len() {
        lemma_trim_end_skip(s.drop_last(), e);
        assert(s.drop_last().subrange(0, e) =~= s.subrange(0, e));
    } else {
        assert(s.subrange(0, e) =~= s);
    }
}

/// The bounds `(a, b)` of the trimmed part of `v[from..to]`.
pub fn trim_bounds(v: &Vec<char>, from: usize, to: usize) -> (r: (usize, usize))
    requires
        from <= to <= v@.len(),
    ensures
        from <= r.0 <= r.1 <= to,
        v@.subrange(r.0 as int, r.1 as int) == trim(v@.subrange(from as int, to as int)),
{
    let ghost s = v@.subrange(from as int, to as int);
    let mut a = from;
    while a < to && is_whitespace(v[a])
        invariant
            from <= a <= to <= v@.len(),
            s == v@.subrange(from as int, to as int),
            forall|j: int| from <= j < a ==> is_whitespace_spec(v@[j]),
        decreases to - a,
    {
        a = a + 1;
    }
    proof {
        lemma_trim_start_skip(s, a - from);
        assert(s.subrange(a - from, s.len() as int) =~= v@.subrange(a as int, to as int));
        let t = v@.subrange(a as int, to as int);
        if t.len() > 0 {
            assert(t[0] == v@[a as int]);
        }
        assert(trim_start(t) == t);
    }
    let mut b = to;
    while b > a && is_whitespace(v[b - 1])
        invariant
            from <= a <= b <= to <= v@.len(),
            forall|j: int| b <= j < to ==> is_whitespace_spec(v@[j]),
        decreases b - a,
    {
        b = b - 1;
    }
    proof {
        let t = v@.subrange(a as int, to as int);
        lemma_trim_end_skip(t, b - a);
        assert(t.subrange(0, b - a) =~= v@.subrange(a as int, b as int));
        let u = v@.subrange(a as int, b as int);
        if u.len() > 0 {
            assert(u.last() == v@[b - 1]);
        }
        assert(trim_end(u) == u);
    }
    (a, b)
}

// ---------------------------------------------------------------------------------------------
// Lossy decoders
// ---------------------------------------------------------------------------------------------

/// What `String::from_utf8_lossy` makes of `bytes`.
pub uninterp spec fn utf8_lossy(bytes: Seq<u8>) -> Seq<char>;

/// `String::from_utf8_lossy(bytes).into_owned()`. The result is the lossy UTF-8 decoding of
/// `bytes`; valid UTF-8 comes back exactly decoded. Nothing is stated of how invalid sequences are
/// replaced.
#[verifier::external_body]
pub(crate) fn from_utf8_lossy(bytes: &[u8]) -> (s: String)
    ensures
        s@ == utf8_lossy(bytes@),
        vstd::utf8::valid_utf8(bytes@) ==> s@ == vstd::utf8::decode_utf8(bytes@),
{
    String::from_utf8_lossy(bytes).into_owned()
}

/// A UTF-16 code unit outside the surrogate range `0xD800..=0xDFFF`.
pub open spec fn is_bmp_scalar(u: u16) -> bool {
    u < 0xD800 || u >= 0xE000
}

/// A leading (high) surrogate.
pub open spec fn is_high_surrogate(u: u16) -> bool {
    0xD800 <= u && u < 0xDC00
}

/// A trailing (low) surrogate.
pub open spec fn is_low_surrogate(u: u16) -> bool {
    0xDC00 <= u && u < 0xE000
}

/// Lossy UTF-16 decoding: a non-surrogate unit is its own character, a high surrogate followed by
/// a low one is the supplementary character they encode, and every other (unpaired) surrogate
/// becomes U+FFFD.
pub open spec fn utf16_decode(u: Seq<u16>) -> Seq<char>
    decreases u.len(),
{
    if u.len() == 0 {
        Seq::empty()
    } else if is_bmp_scalar(u[0]) {
        seq![u[0] as char] + utf16_decode(u.drop_first())
    } else if is_high_surrogate(u[0]) && u.len() >= 2 && is_low_surrogate(u[1]) {
        seq![(0x10000 + (u[0] - 0xD800) * 0x400 + (u[1] - 0xDC00)) as char] + utf16_decode(
            u.subrange(2, u.len() as int),
        )
    } else {
        seq!['\u{FFFD}'] + utf16_decode(u.drop_first())
    }
}

/// The character whose scalar value is `v` (`char::from_u32`): `None` for a surrogate value or a
/// value above `0x10FFFF`, which are no characters.
#[verifier::external_body]
fn char_from_u32(v: u32) -> (c: Option<char>)
    ensures
        (v < 0xD800 || (0xE000 <= v && v <= 0x10FFFF)) ==> c == Some(v as char),
        !(v < 0xD800 || (0xE000 <= v && v <= 0x10FFFF)) ==> c is None,
{
    char::from_u32(v)
}

/// Lossy UTF-16 decoding of `units`, as `String::from_utf16_lossy` does it: every unpaired
/// surrogate becomes U+FFFD.
pub(crate) fn decode_utf16_lossy(units: &[u16]) -> (s: String)
    ensures
        s@ == utf16_decode(units@),
{
    let mut out = String::new();
    let mut i: usize = 0;
    let n = units.len();
    assert(units@.subrange(0, n as int) =~= units@);
    assert(out@ + utf16_decode(units@) =~= utf16_decode(units@));
    while i < n
        invariant
            n == units@.len(),
            i <= n,
            utf16_decode(units@) == out@ + utf16_decode(units@.subrange(i as int, n as int)),
        decreases n - i,
    {
        let ghost rest = units@.subrange(i as int, n as int);
        let ghost before = out@;
        let u = units[i];
        assert(rest[0] == u);
        if u < 0xD800 || u >= 0xE000 {
            let c = match char_from_u32(u as u32) {
                Some(c) => c,
                None => '\u{FFFD}',
            };
            push_char(&mut out, c);
            assert(rest.drop_first() =~= units@.subrange(i + 1, n as int));
            i = i + 1;
        } else if u < 0xDC00 && i + 1 < n && units[i + 1] >= 0xDC00 && units[i + 1] < 0xE000 {
            let low = units[i + 1];
            assert(rest[1] == low);
            let v: u32 = 0x10000 + (u as u32 - 0xD800) * 0x400 + (low as u32 - 0xDC00);
            let c = match char_from_u32(v) {
                Some(c) => c,
                None => '\u{FFFD}',
            };
            push_char(&mut out, c);
            assert(rest.subrange(2, rest.len() as int) =~= units@.subrange(i + 2, n as int));
            i = i + 2;
        } else {
            push_char(&mut out, '\u{FFFD}');
            assert(rest.drop_first() =~= units@.subrange(i + 1, n as int));
            i = i + 1;
        }
        assert(utf16_decode(units@) == out@ + utf16_decode(units@.subrange(i as int, n as int)))
            by {
            assert(before + utf16_decode(rest) =~= out@ + utf16_decode(
                units@.subrange(i as int, n as int),
            ));
        }
    }
    assert(units@.subrange(n as int, n as int) =~= Seq::<u16>::empty());
    assert(out@ + Seq::<char>::empty() =~= out@);
    out
}

/// What `str::to_uppercase` makes of `s`.
pub uninterp spec fn unicode_upper(s: Seq<char>) -> Seq<char>;

/// True when every character of `s` is ASCII.
pub open spec fn all_ascii(s: Seq<char>) -> bool {
    forall|i: int| 0 <= i < s.len() ==> (s[i] as u32) < 128
}

/// `str::to_uppercase`. The result is the Unicode upper-casing of `s`; on an all-ASCII `s` it is
/// the ASCII upper-casing. Nothing is stated of non-ASCII characters.
#[verifier::external_body]
pub(crate) fn to_uppercase(s: &str) -> (r: String)
    ensures
        r@ == unicode_upper(s@),
        all_ascii(s@) ==> r@ == ascii_upper_seq(s@),
{
    s.to_uppercase()
}

} // verus!
