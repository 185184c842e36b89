//! Conversions between the Native WiFi API's raw values and the crate's neutral types. Every value
//! a `wlanapi` call produces is translated here before it leaves the Windows backend. The raw
//! structures are carried as plain values ([`Guid`], [`Dot11Ssid`]) so this logic stands apart
//! from the OS binding.
use vstd::prelude::*;
use crate::text::{
    ascii_upper_seq, ascii_upper_vec, chars_of, decimal, digit_char, find, find_exec, find_from, decode_utf16_lossy,
    from_utf8_lossy, hex_fixed, lemma_find_from, push_char, push_decimal, push_hex_fixed,
    string_of_range, trim, trim_bounds, utf16_decode, utf8_lossy,
};
use crate::types::{ConnectionState, Result, Security, WifiError};

verus! {

/// A `GUID` as its four fields.
#[derive(Debug, Clone, Copy, PartialEq, Eq)]
pub struct Guid {
    pub data1: u32,
    pub data2: u16,
    pub data3: u16,
    pub data4: [u8; 8],
}

/// A `DOT11_SSID`: a length prefix and up to 32 bytes (not NUL-terminated).
#[derive(Debug, Clone, Copy, PartialEq, Eq)]
pub struct Dot11Ssid {
    pub length: u32,
    pub bytes: [u8; 32],
}

/// The text of a failed call: the label, then the raw `WIN32_ERROR` code in decimal.
pub open spec fn check_message(label: Seq<char>, ret: u32) -> Seq<char> {
    label + ": WIN32_ERROR "@ + decimal(ret as nat)
}

/// Map a `WIN32_ERROR` return code (0 == success) to a `Result`. The label names the call so the
/// raw code is actionable.
pub fn check(label: &str, ret: u32) -> (r: Result<()>)
    ensures
        ret == 0 ==> r is Ok,
        ret != 0 ==> (r matches Err(WifiError::OsApi(m)) && m@ == check_message(label@, ret)),
{
    if ret == 0 {
        Ok(())
    } else {
        let mut m = String::from_str(label);
        m.append(": WIN32_ERROR ");
        push_decimal(&mut m, ret as u64);
        Err(WifiError::OsApi(m))
    }
}

/// The index of the first `0` in `s` at or after `i`, or `s.len()` when there is none.
pub open spec fn first_nul_from(s: Seq<u16>, i: int) -> int
    decreases s.len() - i,
{
    if i < 0 || i >= s.len() {
        s.len() as int
    } else if s[i] == 0 {
        i
    } else {
        first_nul_from(s, i + 1)
    }
}

/// The units of `s` before its first NUL (all of `s` when it has none).
pub open spec fn until_nul(s: Seq<u16>) -> Seq<u16> {
    s.take(first_nul_from(s, 0))
}

proof fn lemma_first_nul_from(s: Seq<u16>, i: int)
    requires
        0 <= i <= s.len(),
    ensures
        i <= first_nul_from(s, i) <= s.len(),
        forall|j: int| i <= j < first_nul_from(s, i) ==> s[j] != 0,
        first_nul_from(s, i) < s.len() ==> s[first_nul_from(s, i)] == 0,
    decreases s.len() - i,
{
    if i < s.len() && s[i] != 0 {
        lemma_first_nul_from(s, i + 1);
    }
}

/// Decode a fixed-size, NUL-terminated UTF-16 field (interface descriptions, profile names) into a
/// `String`, stopping at the first NUL.
pub fn wide_to_string(buf: &[u16]) -> (s: String)
    ensures
        s@ == utf16_decode(until_nul(buf@)),
{
    let mut end: usize = 0;
    while end < buf.len() && buf[end] != 0
        invariant
            end <= buf@.len(),
            first_nul_from(buf@, 0) == first_nul_from(buf@, end as int),
        decreases buf@.len() - end,
    {
        end = end + 1;
    }
    let part = &buf[0..end];
    decode_utf16_lossy(part)
}

/// The SSID bytes a `DOT11_SSID` carries: its length prefix, capped at the 32-byte field.
pub open spec fn ssid_bytes(ssid: Dot11Ssid) -> Seq<u8> {
    let n: int = if ssid.length < 32 { ssid.length as int } else { 32 };
    ssid.bytes@.take(n)
}

/// The text of a `DOT11_SSID`: the UTF-8 decoding of its bytes when they are valid UTF-8, their
/// lossy decoding otherwise.
pub open spec fn ssid_text(ssid: Dot11Ssid) -> Seq<char> {
    if vstd::utf8::valid_utf8(ssid_bytes(ssid)) {
        vstd::utf8::decode_utf8(ssid_bytes(ssid))
    } else {
        utf8_lossy(ssid_bytes(ssid))
    }
}

/// Decode a `DOT11_SSID` (length-prefixed bytes, not NUL-terminated) into a `String`.
pub fn ssid_to_string(ssid: &Dot11Ssid) -> (s: String)
    ensures
        s@ == ssid_text(*ssid),
{
    let n: usize = if ssid.length < 32 { ssid.length as usize } else { 32 };
    let all: &[u8] = vstd::array::array_as_slice(&ssid.bytes);
    assert(all@.len() == 32);
    let part = &all[0..n];
    from_utf8_lossy(part)
}

/// The canonical `{xxxxxxxx-xxxx-xxxx-xxxx-xxxxxxxxxxxx}` rendering of a GUID, upper case.
pub open spec fn guid_text(g: Guid) -> Seq<char> {
    seq!['{'] + hex_fixed(g.data1 as nat, 8) + seq!['-'] + hex_fixed(g.data2 as nat, 4) + seq!['-']
        + hex_fixed(g.data3 as nat, 4) + seq!['-'] + hex_fixed(g.data4[0] as nat, 2) + hex_fixed(
        g.data4[1] as nat,
        2,
    ) + seq!['-'] + hex_fixed(g.data4[2] as nat, 2) + hex_fixed(g.data4[3] as nat, 2) + hex_fixed(
        g.data4[4] as nat,
        2,
    ) + hex_fixed(g.data4[5] as nat, 2) + hex_fixed(g.data4[6] as nat, 2) + hex_fixed(
        g.data4[7] as nat,
        2,
    ) + seq!['}']
}

/// `16^w`.
pub open spec fn pow16(w: nat) -> nat
    decreases w,
{
    if w == 0 {
        1
    } else {
        16 * pow16((w - 1) as nat)
    }
}

proof fn lemma_hex_fixed_len(n: nat, w: nat)
    ensures
        hex_fixed(n, w).len() == w,
    decreases w,
{
    if w > 0 {
        lemma_hex_fixed_len(n / 16, (w - 1) as nat);
    }
}

proof fn lemma_digit_char_injective(a: nat, b: nat)
    requires
        a < 16,
        b < 16,
        digit_char(a) == digit_char(b),
    ensures
        a == b,
{
    assert(digit_char(a) as u32 == (if a < 10 { 48 + a } else { 55 + a }));
    assert(digit_char(b) as u32 == (if b < 10 { 48 + b } else { 55 + b }));
}

proof fn lemma_div16_bound(a: nat, w: nat)
    requires
        w > 0,
        a < pow16(w),
    ensures
        a / 16 < pow16((w - 1) as nat),
{
    let p = pow16((w - 1) as nat);
    assert(pow16(w) == 16 * p);
    assert(a / 16 < p) by (nonlinear_arith)
        requires
            a < 16 * p,
    ;
}

proof fn lemma_hex_fixed_injective(a: nat, b: nat, w: nat)
    requires
        a < pow16(w),
        b < pow16(w),
        hex_fixed(a, w) == hex_fixed(b, w),
    ensures
        a == b,
    decreases w,
{
    if w == 0 {
    } else {
        let ha = hex_fixed(a, w);
        let hb = hex_fixed(b, w);
        lemma_hex_fixed_len(a / 16, (w - 1) as nat);
        lemma_hex_fixed_len(b / 16, (w - 1) as nat);
        assert(ha.last() == digit_char(a % 16));
        assert(hb.last() == digit_char(b % 16));
        lemma_digit_char_injective(a % 16, b % 16);
        assert(ha.drop_last() == hex_fixed(a / 16, (w - 1) as nat));
        assert(hb.drop_last() == hex_fixed(b / 16, (w - 1) as nat));
        lemma_div16_bound(a, w);
        lemma_div16_bound(b, w);
        lemma_hex_fixed_injective(a / 16, b / 16, (w - 1) as nat);
    }
}

proof fn lemma_guid_parts(g: Guid)
    ensures
        guid_text(g).len() == 38,
        guid_text(g).subrange(1, 9) == hex_fixed(g.data1 as nat, 8),
        guid_text(g).subrange(10, 14) == hex_fixed(g.data2 as nat, 4),
        guid_text(g).subrange(15, 19) == hex_fixed(g.data3 as nat, 4),
        guid_text(g).subrange(20, 22) == hex_fixed(g.data4[0] as nat, 2),
        guid_text(g).subrange(22, 24) == hex_fixed(g.data4[1] as nat, 2),
        guid_text(g).subrange(25, 27) == hex_fixed(g.data4[2] as nat, 2),
        guid_text(g).subrange(27, 29) == hex_fixed(g.data4[3] as nat, 2),
        guid_text(g).subrange(29, 31) == hex_fixed(g.data4[4] as nat, 2),
        guid_text(g).subrange(31, 33) == hex_fixed(g.data4[5] as nat, 2),
        guid_text(g).subrange(33, 35) == hex_fixed(g.data4[6] as nat, 2),
        guid_text(g).subrange(35, 37) == hex_fixed(g.data4[7] as nat, 2),
{
    lemma_hex_fixed_len(g.data1 as nat, 8);
    lemma_hex_fixed_len(g.data2 as nat, 4);
    lemma_hex_fixed_len(g.data3 as nat, 4);
    assert forall|j: int| 0 <= j < 8 implies hex_fixed(#[trigger] g.data4[j] as nat, 2).len()
        == 2 by {
        lemma_hex_fixed_len(g.data4[j] as nat, 2);
    }
    let t = guid_text(g);
    assert(t.subrange(1, 9) =~= hex_fixed(g.data1 as nat, 8));
    assert(t.subrange(10, 14) =~= hex_fixed(g.data2 as nat, 4));
    assert(t.subrange(15, 19) =~= hex_fixed(g.data3 as nat, 4));
    assert(t.subrange(20, 22) =~= hex_fixed(g.data4[0] as nat, 2));
    assert(t.subrange(22, 24) =~= hex_fixed(g.data4[1] as nat, 2));
    assert(t.subrange(25, 27) =~= hex_fixed(g.data4[2] as nat, 2));
    assert(t.subrange(27, 29) =~= hex_fixed(g.data4[3] as nat, 2));
    assert(t.subrange(29, 31) =~= hex_fixed(g.data4[4] as nat, 2));
    assert(t.subrange(31, 33) =~= hex_fixed(g.data4[5] as nat, 2));
    assert(t.subrange(33, 35) =~= hex_fixed(g.data4[6] as nat, 2));
    assert(t.subrange(35, 37) =~= hex_fixed(g.data4[7] as nat, 2));
}

/// Interface ids identify adapters: two GUIDs with the same text are the same GUID.
pub proof fn law_guid_text_injective(a: Guid, b: Guid)
    requires
        guid_text(a) == guid_text(b),
    ensures
        a == b,
{
    broadcast use vstd::array::axiom_array_ext_equal;

    lemma_guid_parts(a);
    lemma_guid_parts(b);
    reveal_with_fuel(pow16, 9);
    assert(pow16(2) == 256);
    assert(pow16(4) == 65536);
    assert(pow16(8) == 0x1_0000_0000);
    lemma_hex_fixed_injective(a.data1 as nat, b.data1 as nat, 8);
    lemma_hex_fixed_injective(a.data2 as nat, b.data2 as nat, 4);
    lemma_hex_fixed_injective(a.data3 as nat, b.data3 as nat, 4);
    lemma_hex_fixed_injective(a.data4[0] as nat, b.data4[0] as nat, 2);
    lemma_hex_fixed_injective(a.data4[1] as nat, b.data4[1] as nat, 2);
    lemma_hex_fixed_injective(a.data4[2] as nat, b.data4[2] as nat, 2);
    lemma_hex_fixed_injective(a.data4[3] as nat, b.data4[3] as nat, 2);
    lemma_hex_fixed_injective(a.data4[4] as nat, b.data4[4] as nat, 2);
    lemma_hex_fixed_injective(a.data4[5] as nat, b.data4[5] as nat, 2);
    lemma_hex_fixed_injective(a.data4[6] as nat, b.data4[6] as nat, 2);
    lemma_hex_fixed_injective(a.data4[7] as nat, b.data4[7] as nat, 2);
    assert(a.data4 =~= b.data4);
}

/// Format a `GUID` as the canonical `{xxxxxxxx-xxxx-xxxx-xxxx-xxxxxxxxxxxx}` interface id.
pub fn guid_to_string(g: &Guid) -> (s: String)
    ensures
        s@ == guid_text(*g),
{
    let mut s = String::new();
    push_char(&mut s, '{');
    push_hex_fixed(&mut s, g.data1 as u64, 8);
    push_char(&mut s, '-');
    push_hex_fixed(&mut s, g.data2 as u64, 4);
    push_char(&mut s, '-');
    push_hex_fixed(&mut s, g.data3 as u64, 4);
    push_char(&mut s, '-');
    push_hex_fixed(&mut s, g.data4[0] as u64, 2);
    push_hex_fixed(&mut s, g.data4[1] as u64, 2);
    push_char(&mut s, '-');
    push_hex_fixed(&mut s, g.data4[2] as u64, 2);
    push_hex_fixed(&mut s, g.data4[3] as u64, 2);
    push_hex_fixed(&mut s, g.data4[4] as u64, 2);
    push_hex_fixed(&mut s, g.data4[5] as u64, 2);
    push_hex_fixed(&mut s, g.data4[6] as u64, 2);
    push_hex_fixed(&mut s, g.data4[7] as u64, 2);
    push_char(&mut s, '}');
    s
}

/// The neutral lifecycle of a `WLAN_INTERFACE_STATE` value: 1 connected, 3 disconnecting,
/// 5/6/7 associating/discovering/authenticating; anything else reads as disconnected.
pub open spec fn state_of(state: i32) -> ConnectionState {
    if state == 1 {
        ConnectionState::Connected
    } else if state == 3 {
        ConnectionState::Disconnecting
    } else if state == 5 || state == 6 || state == 7 {
        ConnectionState::Connecting
    } else {
        ConnectionState::Disconnected
    }
}

/// Translate an interface's `WLAN_INTERFACE_STATE` into the neutral lifecycle. The transient
/// states (`associating`/`discovering`/`authenticating`) collapse to `Connecting`; everything
/// that is neither connected nor mid-transition reads as `Disconnected`.
pub fn state_from(state: i32) -> (r: ConnectionState)
    ensures
        r == state_of(state),
{
    match state {
        1 => ConnectionState::Connected,
        3 => ConnectionState::Disconnecting,
        5 | 6 | 7 => ConnectionState::Connecting,
        _ => ConnectionState::Disconnected,
    }
}

/// The security category of an available network from its "security enabled" flag and its
/// `DOT11_AUTH_ALGORITHM` (1 open, 2 shared-key, 3 WPA, 4 WPA-PSK, 6 RSNA, 7 RSNA-PSK, 8 WPA3,
/// 9 WPA3-SAE, 11 WPA3-ENT).
pub open spec fn security_of(security_enabled: bool, auth_algo: i32) -> Security {
    if !security_enabled {
        Security::Open
    } else if auth_algo == 4 || auth_algo == 7 || auth_algo == 9 {
        Security::Psk
    } else if auth_algo == 3 || auth_algo == 6 || auth_algo == 8 || auth_algo == 11 {
        Security::Enterprise
    } else if auth_algo == 1 || auth_algo == 2 {
        Security::Wep
    } else {
        Security::Unknown
    }
}

/// Derive the neutral [`Security`] from an available network's "security enabled" flag and its
/// default auth algorithm. An unsecured network is `Open` regardless of the algorithm; otherwise
/// the `DOT11_AUTH_ALGORITHM` value selects PSK vs. Enterprise vs. legacy WEP.
pub fn security_from(security_enabled: bool, auth_algo: i32) -> (r: Security)
    ensures
        r == security_of(security_enabled, auth_algo),
{
    if !security_enabled {
        return Security::Open;
    }
    match auth_algo {
        4 | 7 | 9 => Security::Psk,
        3 | 6 | 8 | 11 => Security::Enterprise,
        1 | 2 => Security::Wep,
        _ => Security::Unknown,
    }
}

// ---------------------------------------------------------------------------------------------
// Profile XML reading
// ---------------------------------------------------------------------------------------------

/// `<tag>`.
pub open spec fn open_tag(tag: Seq<char>) -> Seq<char> {
    seq!['<'] + tag + seq!['>']
}

/// `</tag>`.
pub open spec fn close_tag(tag: Seq<char>) -> Seq<char> {
    seq!['<', '/'] + tag + seq!['>']
}

/// The trimmed text between the first `<tag>` and the first `</tag>` after it, or `None` when
/// either is missing.
pub open spec fn inner_text_spec(xml: Seq<char>, tag: Seq<char>) -> Option<Seq<char>> {
    match find(xml, open_tag(tag)) {
        None => None,
        Some(p) => {
            let start = p + open_tag(tag).len();
            match find_from(xml, close_tag(tag), start) {
                None => None,
                Some(e) => Some(trim(xml.subrange(start, e))),
            }
        },
    }
}

/// `s` begins with `p`.
pub open spec fn starts_with(s: Seq<char>, p: Seq<char>) -> bool {
    p.len() <= s.len() && s.take(p.len() as int) == p
}

/// `s` ends with `p`.
pub open spec fn ends_with(s: Seq<char>, p: Seq<char>) -> bool {
    p.len() <= s.len() && s.skip(s.len() - p.len()) == p
}

/// The security category named by an `<authentication>` token, compared case-insensitively:
/// `OPEN`; `WEP`/`SHARED`; any `…PSK` or `WPA3SAE`; any other `WPA…` (the 802.1X forms).
pub open spec fn security_of_auth(auth: Seq<char>) -> Security {
    let a = ascii_upper_seq(auth);
    if a == "OPEN"@ {
        Security::Open
    } else if a == "WEP"@ || a == "SHARED"@ {
        Security::Wep
    } else if ends_with(a, "PSK"@) || a == "WPA3SAE"@ {
        Security::Psk
    } else if starts_with(a, "WPA"@) {
        Security::Enterprise
    } else {
        Security::Unknown
    }
}

/// The security category a stored profile document declares.
pub open spec fn security_of_profile(xml: Seq<char>) -> Security {
    match inner_text_spec(xml, "authentication"@) {
        None => Security::Unknown,
        Some(auth) => security_of_auth(auth),
    }
}

fn seq_eq(a: &Vec<char>, b: &Vec<char>) -> (r: bool)
    ensures
        r == (a@ == b@),
{
    if a.len() != b.len() {
        return false;
    }
    let mut i: usize = 0;
    while i < a.len()
        invariant
            a@.len() == b@.len(),
            i <= a@.len(),
            forall|j: int| 0 <= j < i ==> a@[j] == b@[j],
        decreases a@.len() - i,
    {
        if a[i] != b[i] {
            return false;
        }
        i = i + 1;
    }
    assert(a@ =~= b@);
    true
}

fn prefix_eq(s: &Vec<char>, p: &Vec<char>, at: usize) -> (r: bool)
    requires
        at + p@.len() <= s@.len(),
    ensures
        r == (s@.subrange(at as int, at + p@.len()) == p@),
{
    let mut i: usize = 0;
    while i < p.len()
        invariant
            at + p@.len() <= s@.len(),
            s@.len() == s.len(),
            i <= p@.len(),
            forall|j: int| 0 <= j < i ==> s@[at + j] == p@[j],
        decreases p@.len() - i,
    {
        if s[at + i] != p[i] {
            assert(s@.subrange(at as int, at + p@.len())[i as int] != p@[i as int]);
            return false;
        }
        i = i + 1;
    }
    assert(s@.subrange(at as int, at + p@.len()) =~= p@);
    true
}

fn starts_with_exec(s: &Vec<char>, p: &Vec<char>) -> (r: bool)
    ensures
        r == starts_with(s@, p@),
{
    if p.len() > s.len() {
        return false;
    }
    let r = prefix_eq(s, p, 0);
    assert(s@.subrange(0, p@.len() as int) == s@.take(p@.len() as int));
    r
}

fn ends_with_exec(s: &Vec<char>, p: &Vec<char>) -> (r: bool)
    ensures
        r == ends_with(s@, p@),
{
    if p.len() > s.len() {
        return false;
    }
    let at = s.len() - p.len();
    let r = prefix_eq(s, p, at);
    assert(s@.subrange(at as int, at + p@.len()) == s@.skip(s@.len() - p@.len()));
    r
}

/// Extract the text inside the first `<tag>…</tag>` pair, or `None` if absent. Tolerant of the
/// minimal, well-formed profile XML the OS returns (no attributes on these elements).
pub fn inner_text(xml: &str, tag: &str) -> (r: Option<String>)
    ensures
        r matches Some(t) ==> inner_text_spec(xml@, tag@) == Some(t@),
        r is None ==> inner_text_spec(xml@, tag@) is None,
{
    let x = chars_of(xml);
    let t = chars_of(tag);
    let mut open: Vec<char> = Vec::new();
    open.push('<');
    let mut close: Vec<char> = Vec::new();
    close.push('<');
    close.push('/');
    let mut i: usize = 0;
    while i < t.len()
        invariant
            i <= t@.len(),
            open@ == seq!['<'] + t@.take(i as int),
            close@ == seq!['<', '/'] + t@.take(i as int),
        decreases t@.len() - i,
    {
        open.push(t[i]);
        close.push(t[i]);
        i = i + 1;
        assert(open@ =~= seq!['<'] + t@.take(i as int));
        assert(close@ =~= seq!['<', '/'] + t@.take(i as int));
    }
    open.push('>');
    close.push('>');
    assert(t@.take(t@.len() as int) =~= t@);
    assert(open@ =~= open_tag(tag@));
    assert(close@ =~= close_tag(tag@));
    let p = match find_exec(&x, &open, 0) {
        Some(p) => p,
        None => return None,
    };
    proof {
        lemma_find_from(x@, open@, 0);
        assert(p + open@.len() <= x@.len());
        assert(x@.len() == x.len());
    }
    let start = p + open.len();
    let e = match find_exec(&x, &close, start) {
        Some(e) => e,
        None => return None,
    };
    proof {
        lemma_find_from(x@, close@, start as int);
    }
    let (a, b) = trim_bounds(&x, start, e);
    Some(string_of_range(&x, a, b))
}

/// Classify a stored profile from the `<authentication>` element of its `WlanGetProfile` XML.
/// The Native WiFi schema uses fixed tokens (`open`, `WEP`, `WPA2PSK`, `WPA3SAE`, `WPA2`, …).
pub fn security_from_profile_xml(xml: &str) -> (r: Security)
    ensures
        r == security_of_profile(xml@),
{
    let auth = match inner_text(xml, "authentication") {
        Some(a) => a,
        None => return Security::Unknown,
    };
    let a = ascii_upper_vec(&chars_of(auth.as_str()));
    if seq_eq(&a, &chars_of("OPEN")) {
        Security::Open
    } else if seq_eq(&a, &chars_of("WEP")) || seq_eq(&a, &chars_of("SHARED")) {
        Security::Wep
    } else if ends_with_exec(&a, &chars_of("PSK")) || seq_eq(&a, &chars_of("WPA3SAE")) {
        Security::Psk
    } else if starts_with_exec(&a, &chars_of("WPA")) {
        Security::Enterprise
    } else {
        Security::Unknown
    }
}

} // verus!
