//! Connection profile XML. `WlanConnect` is profile-based: a network must have a stored profile
//! before it can be joined, so a connect stages one with `WlanSetProfile`. This builds the minimal
//! profile that the Native WiFi schema requires for the supported security types.
use vstd::prelude::*;
use crate::conv::{close_tag, inner_text_spec, open_tag, security_of_auth, security_of_profile};
use crate::text::{
    ascii_upper_seq, chars_of, find, find_from, is_whitespace_spec, occurs_at, push_char, trim,
    trim_end, trim_start,
};
use crate::types::{Credentials, Security};

verus! {

/// The XML entity (or the character itself) that stands for `c` in element text.
pub open spec fn escape_char(c: char) -> Seq<char> {
    if c == '&' {
        "&amp;"@
    } else if c == '<' {
        "&lt;"@
    } else if c == '>' {
        "&gt;"@
    } else if c == '"' {
        "&quot;"@
    } else if c == '\'' {
        "&apos;"@
    } else {
        seq![c]
    }
}

/// `s` with the five XML special characters replaced by their entities.
pub open spec fn escape_text(s: Seq<char>) -> Seq<char>
    decreases s.len(),
{
    if s.len() == 0 {
        Seq::empty()
    } else {
        escape_text(s.drop_last()) + escape_char(s.last())
    }
}

/// XML-escape caller-supplied text for use as element content.
pub fn escape(s: &str) -> (r: String)
    ensures
        r@ == escape_text(s@),
{
    let v = chars_of(s);
    let mut out = String::new();
    let mut i: usize = 0;
    while i < v.len()
        invariant
            i <= v@.len(),
            v@ == s@,
            out@ == escape_text(v@.take(i as int)),
        decreases v@.len() - i,
    {
        let c = v[i];
        if c == '&' {
            out.append("&amp;");
        } else if c == '<' {
            out.append("&lt;");
        } else if c == '>' {
            out.append("&gt;");
        } else if c == '"' {
            out.append("&quot;");
        } else if c == '\'' {
            out.append("&apos;");
        } else {
            push_char(&mut out, c);
        }
        assert(v@.take(i + 1).drop_last() =~= v@.take(i as int));
        i = i + 1;
    }
    assert(v@.take(v@.len() as int) =~= v@);
    out
}

/// `<authEncryption>` with the given authentication and encryption tokens, no 802.1X.
pub open spec fn auth_encryption_text(auth: Seq<char>, encryption: Seq<char>) -> Seq<char> {
    "<authEncryption><authentication>"@ + auth + "</authentication><encryption>"@ + encryption
        + "</encryption><useOneX>false</useOneX></authEncryption>"@
}

/// The security section of an open profile.
pub open spec fn open_security_text() -> Seq<char> {
    auth_encryption_text("open"@, "none"@)
}

/// The authentication token of a PSK profile: `WPA3SAE` for SAE-only access points, else
/// `WPA2PSK`.
pub open spec fn psk_auth_token(wpa3: bool) -> Seq<char> {
    if wpa3 {
        "WPA3SAE"@
    } else {
        "WPA2PSK"@
    }
}

/// The security section of a PSK profile carrying the (already escaped) passphrase.
pub open spec fn psk_security_text(escaped_key: Seq<char>, wpa3: bool) -> Seq<char> {
    auth_encryption_text(psk_auth_token(wpa3), "AES"@)
        + "<sharedKey><keyType>passPhrase</keyType><protected>false</protected><keyMaterial>"@
        + escaped_key + "</keyMaterial></sharedKey>"@
}

/// The security section a profile for `credentials` carries. Only a PSK carries a secret;
/// every other kind stages an open section (enterprise is refused before staging and a saved
/// profile is never staged).
pub open spec fn security_text(credentials: Credentials, wpa3: bool) -> Seq<char> {
    match credentials {
        Credentials::Psk(key) => psk_security_text(escape_text(key@), wpa3),
        _ => open_security_text(),
    }
}

/// Everything before the first copy of the profile name.
pub open spec fn profile_head() -> Seq<char> {
    "<?xml version=\"1.0\"?>\n<WLANProfile xmlns=\"http://www.microsoft.com/networking/WLAN/profile/v1\">\n  <name>"@
}

/// Between the two copies of the profile name.
pub open spec fn profile_mid() -> Seq<char> {
    "</name>\n  <SSIDConfig><SSID><name>"@
}

/// From the second copy of the name up to the security section.
pub open spec fn profile_pre_security() -> Seq<char> {
    "</name></SSID></SSIDConfig>\n  <connectionType>ESS</connectionType>\n  <connectionMode>auto</connectionMode>\n  <MSM><security>"@
}

/// After the security section.
pub open spec fn profile_tail() -> Seq<char> {
    "</security></MSM>\n</WLANProfile>"@
}

/// The whole profile document for `ssid`: the escaped SSID is both the profile name and the
/// SSID, followed by the security section for `credentials`.
pub open spec fn profile_text(ssid: Seq<char>, credentials: Credentials, wpa3: bool) -> Seq<char> {
    let name = escape_text(ssid);
    profile_head() + name + profile_mid() + name + profile_pre_security() + security_text(
        credentials,
        wpa3,
    ) + profile_tail()
}

fn push_auth_encryption(out: &mut String, auth: &str, encryption: &str)
    ensures
        final(out)@ == old(out)@ + auth_encryption_text(auth@, encryption@),
{
    out.append("<authEncryption><authentication>");
    out.append(auth);
    out.append("</authentication><encryption>");
    out.append(encryption);
    out.append("</encryption><useOneX>false</useOneX></authEncryption>");
}

/// The security section of an open profile.
pub fn open_security() -> (s: String)
    ensures
        s@ == open_security_text(),
{
    let mut s = String::new();
    push_auth_encryption(&mut s, "open", "none");
    s
}

/// WPA2-PSK / AES is the interoperable default and the broadest match for "the network password";
/// `wpa3` switches the authentication to `WPA3SAE` for access points that only accept SAE.
pub fn psk_security(escaped_key: &str, wpa3: bool) -> (s: String)
    ensures
        s@ == psk_security_text(escaped_key@, wpa3),
{
    let mut s = String::new();
    let authentication = if wpa3 {
        "WPA3SAE"
    } else {
        "WPA2PSK"
    };
    push_auth_encryption(&mut s, authentication, "AES");
    s.append(
        "<sharedKey><keyType>passPhrase</keyType><protected>false</protected><keyMaterial>",
    );
    s.append(escaped_key);
    s.append("</keyMaterial></sharedKey>");
    s
}

/// Build a WLAN profile XML document for `ssid` with the given credentials. The profile name is
/// the SSID, so a later connect or delete can address it by SSID. Caller-supplied text is
/// XML-escaped; the PSK is embedded unprotected (the OS stores it encrypted once accepted).
///
/// `wpa3` selects the PSK authentication token: a WPA3-SAE-only AP rejects a `WPA2PSK` profile, so
/// `true` emits `WPA3SAE`. It is ignored for non-PSK credentials.
pub fn profile_xml(ssid: &str, credentials: &Credentials, wpa3: bool) -> (s: String)
    ensures
        s@ == profile_text(ssid@, *credentials, wpa3),
{
    let name = escape(ssid);
    let security = match credentials {
        Credentials::Psk(key) => {
            let k = escape(key.as_str());
            psk_security(k.as_str(), wpa3)
        },
        // Enterprise (rejected earlier) and Saved (connects without staging a profile) never reach
        // this builder; the arm keeps the match exhaustive.
        _ => open_security(),
    };
    let mut s = String::new();
    s.append(
        "<?xml version=\"1.0\"?>\n<WLANProfile xmlns=\"http://www.microsoft.com/networking/WLAN/profile/v1\">\n  <name>",
    );
    s.append(name.as_str());
    s.append("</name>\n  <SSIDConfig><SSID><name>");
    s.append(name.as_str());
    s.append(
        "</name></SSID></SSIDConfig>\n  <connectionType>ESS</connectionType>\n  <connectionMode>auto</connectionMode>\n  <MSM><security>",
    );
    s.append(security.as_str());
    s.append("</security></MSM>\n</WLANProfile>");
    s
}

// ---------------------------------------------------------------------------------------------
// What a staged profile reads back as
// ---------------------------------------------------------------------------------------------

/// No `<` in `x` is directly followed by `a`, and `x` does not end in `<`: no tag whose name
/// starts with `a` can begin inside `x`.
pub open spec fn no_lt_a(x: Seq<char>) -> bool {
    forall|j: int|
        0 <= j < x.len() ==> #[trigger] x[j] != '<' || (j + 1 < x.len() && x[j + 1] != 'a')
}

proof fn lemma_no_lt_a_concat(x: Seq<char>, y: Seq<char>)
    requires
        no_lt_a(x),
        no_lt_a(y),
    ensures
        no_lt_a(x + y),
{
    let z = x + y;
    assert forall|j: int| 0 <= j < z.len() implies #[trigger] z[j] != '<' || (j + 1 < z.len()
        && z[j + 1] != 'a') by {
        if j < x.len() {
            assert(z[j] == x[j]);
            if j + 1 < x.len() {
                assert(z[j + 1] == x[j + 1]);
            }
        } else {
            assert(z[j] == y[j - x.len()]);
            if j + 1 < z.len() {
                assert(z[j + 1] == y[j + 1 - x.len()]);
            }
        }
    }
}

/// Escaped text never contains `<`.
pub proof fn lemma_escape_no_lt(s: Seq<char>)
    ensures
        forall|i: int| 0 <= i < escape_text(s).len() ==> #[trigger] escape_text(s)[i] != '<',
    decreases s.len(),
{
    if s.len() > 0 {
        lemma_escape_no_lt(s.drop_last());
        reveal_strlit("&amp;");
        reveal_strlit("&lt;");
        reveal_strlit("&gt;");
        reveal_strlit("&quot;");
        reveal_strlit("&apos;");
        let a = escape_text(s.drop_last());
        let b = escape_char(s.last());
        assert forall|i: int| 0 <= i < (a + b).len() implies #[trigger] (a + b)[i] != '<' by {
            if i >= a.len() {
                assert((a + b)[i] == b[i - a.len()]);
            }
        }
    }
}

proof fn lemma_find_from_at(s: Seq<char>, pat: Seq<char>, i: int, k: int)
    requires
        0 <= i <= k,
        occurs_at(s, pat, k),
        forall|j: int| i <= j < k ==> !occurs_at(s, pat, j),
    ensures
        find_from(s, pat, i) == Some(k),
    decreases k - i,
{
    if i < k {
        assert(!occurs_at(s, pat, i));
        lemma_find_from_at(s, pat, i + 1, k);
    }
}

/// Escaped text holds none of the characters that would end or open markup: no `<`, `>`, `"`
/// or `'`, whatever the input.
pub proof fn law_escape_no_markup(s: Seq<char>)
    ensures
        forall|i: int|
            0 <= i < escape_text(s).len() ==> {
                let c = #[trigger] escape_text(s)[i];
                c != '<' && c != '>' && c != '"' && c != '\''
            },
    decreases s.len(),
{
    if s.len() > 0 {
        law_escape_no_markup(s.drop_last());
        reveal_strlit("&amp;");
        reveal_strlit("&lt;");
        reveal_strlit("&gt;");
        reveal_strlit("&quot;");
        reveal_strlit("&apos;");
        let a = escape_text(s.drop_last());
        let b = escape_char(s.last());
        assert forall|i: int| 0 <= i < (a + b).len() implies {
            let c = #[trigger] (a + b)[i];
            c != '<' && c != '>' && c != '"' && c != '\''
        } by {
            if i >= a.len() {
                assert((a + b)[i] == b[i - a.len()]);
            }
        }
    }
}

/// Escaping works character by character: the escape of a concatenation is the concatenation of
/// the escapes.
pub proof fn law_escape_concat(a: Seq<char>, b: Seq<char>)
    ensures
        escape_text(a + b) == escape_text(a) + escape_text(b),
    decreases b.len(),
{
    if b.len() == 0 {
        assert(a + b =~= a);
        assert(escape_text(a) + escape_text(b) =~= escape_text(a));
    } else {
        law_escape_concat(a, b.drop_last());
        assert((a + b).drop_last() =~= a + b.drop_last());
        assert((a + b).last() == b.last());
        assert(escape_text(a + b) =~= escape_text(a) + escape_text(b));
    }
}

/// Text without any of the five XML special characters.
pub open spec fn plain_text(s: Seq<char>) -> bool {
    forall|i: int|
        0 <= i < s.len() ==> {
            let c = #[trigger] s[i];
            c != '&' && c != '<' && c != '>' && c != '"' && c != '\''
        }
}

/// Escaping leaves text without special characters unchanged.
pub proof fn law_escape_plain_identity(s: Seq<char>)
    requires
        plain_text(s),
    ensures
        escape_text(s) == s,
    decreases s.len(),
{
    if s.len() > 0 {
        assert(plain_text(s.drop_last())) by {
            assert forall|i: int| 0 <= i < s.drop_last().len() implies {
                let c = #[trigger] s.drop_last()[i];
                c != '&' && c != '<' && c != '>' && c != '"' && c != '\''
            } by {
                assert(s.drop_last()[i] == s[i]);
            }
        }
        law_escape_plain_identity(s.drop_last());
        let c = s.last();
        assert(s[s.len() - 1] == c);
        assert(escape_text(s) =~= s);
    }
}

/// One of the five XML entities begins at index `i` of `t`.
pub open spec fn entity_at(t: Seq<char>, i: int) -> bool {
    ||| occurs_at(t, "&amp;"@, i)
    ||| occurs_at(t, "&lt;"@, i)
    ||| occurs_at(t, "&gt;"@, i)
    ||| occurs_at(t, "&quot;"@, i)
    ||| occurs_at(t, "&apos;"@, i)
}

proof fn lemma_occurs_at_extend(a: Seq<char>, b: Seq<char>, pat: Seq<char>, i: int)
    requires
        occurs_at(a, pat, i),
    ensures
        occurs_at(a + b, pat, i),
{
    assert((a + b).subrange(i, i + pat.len()) =~= a.subrange(i, i + pat.len()));
}

proof fn lemma_entity_at_extend(a: Seq<char>, b: Seq<char>, i: int)
    requires
        entity_at(a, i),
    ensures
        entity_at(a + b, i),
{
    if occurs_at(a, "&amp;"@, i) {
        lemma_occurs_at_extend(a, b, "&amp;"@, i);
    } else if occurs_at(a, "&lt;"@, i) {
        lemma_occurs_at_extend(a, b, "&lt;"@, i);
    } else if occurs_at(a, "&gt;"@, i) {
        lemma_occurs_at_extend(a, b, "&gt;"@, i);
    } else if occurs_at(a, "&quot;"@, i) {
        lemma_occurs_at_extend(a, b, "&quot;"@, i);
    } else {
        lemma_occurs_at_extend(a, b, "&apos;"@, i);
    }
}

/// Every `&` in escaped text begins one of the five entities `&amp;`, `&lt;`, `&gt;`, `&quot;`
/// or `&apos;`: no bare ampersand survives escaping.
pub proof fn law_escape_ampersands_are_entities(s: Seq<char>)
    ensures
        forall|i: int|
            0 <= i < escape_text(s).len() && #[trigger] escape_text(s)[i] == '&' ==> entity_at(
                escape_text(s),
                i,
            ),
    decreases s.len(),
{
    if s.len() > 0 {
        law_escape_ampersands_are_entities(s.drop_last());
        reveal_strlit("&amp;");
        reveal_strlit("&lt;");
        reveal_strlit("&gt;");
        reveal_strlit("&quot;");
        reveal_strlit("&apos;");
        let a = escape_text(s.drop_last());
        let c = s.last();
        let b = escape_char(c);
        assert(escape_text(s) == a + b);
        assert forall|i: int| 0 <= i < (a + b).len() && #[trigger] (a + b)[i] == '&' implies entity_at(
            a + b,
            i,
        ) by {
            if i < a.len() {
                assert((a + b)[i] == a[i]);
                assert(entity_at(a, i));
                lemma_entity_at_extend(a, b, i);
            } else {
                assert((a + b)[i] == b[i - a.len()]);
                assert(i == a.len());
                assert((a + b).subrange(i, i + b.len()) =~= b);
            }
        }
    }
}

proof fn lemma_escape_len(s: Seq<char>)
    ensures
        escape_text(s).len() >= s.len(),
        escape_text(s).len() == s.len() ==> plain_text(s),
    decreases s.len(),
{
    if s.len() > 0 {
        lemma_escape_len(s.drop_last());
        reveal_strlit("&amp;");
        reveal_strlit("&lt;");
        reveal_strlit("&gt;");
        reveal_strlit("&quot;");
        reveal_strlit("&apos;");
        let c = s.last();
        if escape_text(s).len() == s.len() {
            assert(escape_char(c).len() == 1);
            assert forall|i: int| 0 <= i < s.len() implies {
                let d = #[trigger] s[i];
                d != '&' && d != '<' && d != '>' && d != '"' && d != '\''
            } by {
                if i < s.len() - 1 {
                    assert(s[i] == s.drop_last()[i]);
                }
            }
        }
    }
}

/// Escaping changes exactly the text that holds a special character: `escape(s) == s` if and
/// only if `s` holds none of `&`, `<`, `>`, `"` and `'`.
pub proof fn law_escape_fixed_iff_plain(s: Seq<char>)
    ensures
        (escape_text(s) == s) <==> plain_text(s),
{
    lemma_escape_len(s);
    if plain_text(s) {
        law_escape_plain_identity(s);
    }
}

proof fn lemma_escape_front(s: Seq<char>)
    requires
        s.len() > 0,
    ensures
        escape_text(s) == escape_char(s[0]) + escape_text(s.drop_first()),
    decreases s.len(),
{
    if s.len() == 1 {
        assert(s.drop_last() =~= Seq::<char>::empty());
        assert(s.drop_first() =~= Seq::<char>::empty());
        assert(escape_text(s) =~= escape_char(s[0]) + escape_text(s.drop_first()));
    } else {
        lemma_escape_front(s.drop_last());
        assert(s.drop_last().drop_first() =~= s.drop_first().drop_last());
        assert(s.drop_first().last() == s.last());
        assert(s.drop_last()[0] == s[0]);
        assert(escape_text(s) =~= escape_char(s[0]) + escape_text(s.drop_first()));
    }
}

proof fn lemma_escape_char_nonempty(c: char)
    ensures
        escape_char(c).len() > 0,
{
    reveal_strlit("&amp;");
    reveal_strlit("&lt;");
    reveal_strlit("&gt;");
    reveal_strlit("&quot;");
    reveal_strlit("&apos;");
}

/// No escape of one character is a proper prefix of the escape of another: two escapes that
/// agree wherever both are defined come from the same character.
proof fn lemma_escape_char_prefix_free(a: char, b: char)
    requires
        forall|i: int|
            0 <= i < escape_char(a).len() && i < escape_char(b).len() ==> escape_char(a)[i]
                == escape_char(b)[i],
    ensures
        a == b,
{
    reveal_strlit("&amp;");
    reveal_strlit("&lt;");
    reveal_strlit("&gt;");
    reveal_strlit("&quot;");
    reveal_strlit("&apos;");
    let ea = escape_char(a);
    let eb = escape_char(b);
    assert(ea[0] == eb[0]);
    assert(ea[1] == eb[1] || ea.len() == 1 || eb.len() == 1);
    assert(ea[2] == eb[2] || ea.len() <= 2 || eb.len() <= 2);
}

/// Escaping loses nothing: two texts with the same escape are the same text, so distinct SSIDs
/// always stage distinct profile names.
pub proof fn law_escape_injective(a: Seq<char>, b: Seq<char>)
    requires
        escape_text(a) == escape_text(b),
    ensures
        a == b,
    decreases a.len(),
{
    if a.len() == 0 || b.len() == 0 {
        if a.len() > 0 {
            lemma_escape_front(a);
            lemma_escape_char_nonempty(a[0]);
        }
        if b.len() > 0 {
            lemma_escape_front(b);
            lemma_escape_char_nonempty(b[0]);
        }
        assert(a =~= b);
    } else {
        lemma_escape_front(a);
        lemma_escape_front(b);
        let ea = escape_char(a[0]);
        let eb = escape_char(b[0]);
        let e = escape_text(a);
        assert forall|i: int| 0 <= i < ea.len() && i < eb.len() implies ea[i] == eb[i] by {
            assert(e[i] == ea[i]);
            assert(e[i] == eb[i]);
        }
        lemma_escape_char_prefix_free(a[0], b[0]);
        assert(escape_text(a.drop_first()) =~= e.subrange(ea.len() as int, e.len() as int));
        assert(escape_text(b.drop_first()) =~= e.subrange(eb.len() as int, e.len() as int));
        law_escape_injective(a.drop_first(), b.drop_first());
        assert(a =~= seq![a[0]] + a.drop_first());
        assert(b =~= seq![b[0]] + b.drop_first());
    }
}

/// In a document `pre + <authEncryption><authentication>AUTH</authentication><encryption>…`
/// where no `<a` starts inside `pre`, the `<authentication>` element read is `AUTH`.
proof fn lemma_auth_section_read(pre: Seq<char>, auth: Seq<char>, rest: Seq<char>)
    requires
        no_lt_a(pre),
        auth.len() > 0,
        forall|i: int| 0 <= i < auth.len() ==> #[trigger] auth[i] != '<',
        !is_whitespace_spec(auth[0]),
        !is_whitespace_spec(auth.last()),
    ensures
        inner_text_spec(
            pre + ("<authEncryption><authentication>"@ + auth + "</authentication><encryption>"@
                + rest),
            "authentication"@,
        ) == Some(auth),
{
    reveal_strlit("<authEncryption><authentication>");
    reveal_strlit("</authentication><encryption>");
    reveal_strlit("authentication");
    let l2 = "<authEncryption><authentication>"@;
    let l3 = "</authentication><encryption>"@;
    let t = "authentication"@;
    let d = pre + (l2 + auth + l3 + rest);
    let p = open_tag(t);
    let c = close_tag(t);
    assert(p =~= l2.subrange(16, 32));
    assert(c =~= l3.subrange(0, 17));
    let n = pre.len() as int;
    assert(p.len() == 16);
    assert(c.len() == 17);
    // No `<authentication>` starts before the one at `n + 16`.
    assert forall|j: int| 0 <= j < n + 16 implies !occurs_at(d, p, j) by {
        if occurs_at(d, p, j) {
            let w = d.subrange(j, j + 16);
            assert(w[0] == d[j]);
            assert(w[1] == d[j + 1]);
            assert(w[5] == d[j + 5]);
            if j < n {
                assert(d[j] == pre[j]);
                if j + 1 < n {
                    assert(d[j + 1] == pre[j + 1]);
                } else {
                    assert(d[j + 1] == l2[0]);
                }
            } else {
                let o = j - n;
                assert(d[j] == l2[o]);
                assert(d[j + 5] == l2[o + 5]);
                assert(l2[o] != '<' || l2[o + 5] != 'e');
            }
        }
    }
    assert(d.subrange(n + 16, n + 32) =~= p);
    lemma_find_from_at(d, p, 0, n + 16);
    assert(find(d, p) == Some(n + 16));
    let start = n + 32;
    let e = start + auth.len();
    assert forall|j: int| start <= j < e implies !occurs_at(d, c, j) by {
        if occurs_at(d, c, j) {
            let w = d.subrange(j, j + 17);
            assert(w[0] == d[j]);
            assert(d[j] == auth[j - start]);
        }
    }
    assert(d.subrange(e, e + 17) =~= c);
    lemma_find_from_at(d, c, start, e);
    assert(d.subrange(start, e) =~= auth);
    assert(trim_start(auth) == auth);
    assert(trim_end(auth) == auth);
    assert(trim(d.subrange(start, e)) == auth);
}

/// The security category a stored profile for `credentials` is expected to read back as.
pub open spec fn expected_security(credentials: Credentials) -> Security {
    match credentials {
        Credentials::Psk(_) => Security::Psk,
        _ => Security::Open,
    }
}

/// A profile this crate stages (`profile_xml`) reads back through the stored-profile
/// classifier (`security_from_profile_xml`) as the security of the credentials it was built
/// from: PSK for a pre-shared key (WPA2 or WPA3 flavour alike), open otherwise, whatever the SSID
/// and key contain.
pub proof fn law_profile_security_roundtrip(ssid: Seq<char>, credentials: Credentials, wpa3: bool)
    ensures
        security_of_profile(profile_text(ssid, credentials, wpa3)) == expected_security(
            credentials,
        ),
{
    let name = escape_text(ssid);
    lemma_escape_no_lt(ssid);
    reveal_strlit(
        "<?xml version=\"1.0\"?>\n<WLANProfile xmlns=\"http://www.microsoft.com/networking/WLAN/profile/v1\">\n  <name>",
    );
    reveal_strlit("</name>\n  <SSIDConfig><SSID><name>");
    reveal_strlit(
        "</name></SSID></SSIDConfig>\n  <connectionType>ESS</connectionType>\n  <connectionMode>auto</connectionMode>\n  <MSM><security>",
    );
    let h = profile_head();
    let m = profile_mid();
    let q = profile_pre_security();
    assert(no_lt_a(h));
    assert(no_lt_a(m));
    assert(no_lt_a(q));
    assert(no_lt_a(name));
    lemma_no_lt_a_concat(h, name);
    lemma_no_lt_a_concat(h + name, m);
    lemma_no_lt_a_concat(h + name + m, name);
    lemma_no_lt_a_concat(h + name + m + name, q);
    let pre = h + name + m + name + q;
    let doc = profile_text(ssid, credentials, wpa3);
    let l2 = "<authEncryption><authentication>"@;
    let l3 = "</authentication><encryption>"@;
    let l5 = "</encryption><useOneX>false</useOneX></authEncryption>"@;
    match credentials {
        Credentials::Psk(key) => {
            let auth = psk_auth_token(wpa3);
            reveal_strlit("WPA3SAE");
            reveal_strlit("WPA2PSK");
            reveal_strlit("PSK");
            reveal_strlit("OPEN");
            reveal_strlit("WEP");
            reveal_strlit("SHARED");
            let extra = "<sharedKey><keyType>passPhrase</keyType><protected>false</protected><keyMaterial>"@
                + escape_text(key@) + "</keyMaterial></sharedKey>"@;
            let rest = "AES"@ + l5 + extra + profile_tail();
            assert(doc =~= pre + (l2 + auth + l3 + rest));
            lemma_auth_section_read(pre, auth, rest);
            assert(ascii_upper_seq(auth) =~= auth);
            assert(inner_text_spec(doc, "authentication"@) == Some(auth));
            if wpa3 {
                assert(auth == "WPA3SAE"@);
                assert(auth.len() == 7);
            } else {
                assert(auth.skip(auth.len() - 3) =~= "PSK"@);
                assert(auth.len() == 7);
            }
            assert(security_of_auth(auth) == Security::Psk);
        },
        _ => {
            let auth = "open"@;
            reveal_strlit("open");
            reveal_strlit("OPEN");
            let rest = "none"@ + l5 + profile_tail();
            assert(doc =~= pre + (l2 + auth + l3 + rest));
            lemma_auth_section_read(pre, auth, rest);
            assert(ascii_upper_seq(auth) =~= "OPEN"@);
        },
    }
}

} // verus!
