//! IP-layer interface details (the IP Helper API's `GetAdaptersAddresses`). Wi-Fi control is
//! link-layer, while MAC / IP / gateway / DNS live in the networking stack. The caller walks the
//! adapter list and renders each socket address as text; this picks the Wi-Fi adapter and sorts
//! its addresses into an [`IpConfig`].
use vstd::prelude::*;
use crate::conv::{guid_text, guid_to_string, Guid};
use crate::text::{chars_of, hex_fixed, push_char, push_hex_fixed, to_uppercase, unicode_upper};
use crate::types::{IpConfig, Result, WifiError};

verus! {

/// One adapter of the `GetAdaptersAddresses` list, as plain values.
#[derive(Debug)]
pub struct AdapterInfo {
    /// `AdapterName` (a GUID string); empty when it could not be read.
    pub name: String,
    /// `PhysicalAddress`.
    pub physical_address: [u8; 8],
    /// `PhysicalAddressLength`.
    pub physical_address_length: u32,
    /// The unicast addresses in list order, each rendered as text, `None` for a family other
    /// than IPv4/IPv6 (or no address).
    pub unicast: Vec<Option<String>>,
    /// The gateway addresses, likewise.
    pub gateways: Vec<Option<String>>,
    /// The DNS server addresses, likewise.
    pub dns: Vec<Option<String>>,
}

/// The text of a MAC address: the first six bytes of `bytes`, two upper-case hex digits each,
/// separated by `:`.
pub open spec fn mac_text(bytes: [u8; 8]) -> Seq<char> {
    hex_fixed(bytes[0] as nat, 2) + seq![':'] + hex_fixed(bytes[1] as nat, 2) + seq![':']
        + hex_fixed(bytes[2] as nat, 2) + seq![':'] + hex_fixed(bytes[3] as nat, 2) + seq![':']
        + hex_fixed(bytes[4] as nat, 2) + seq![':'] + hex_fixed(bytes[5] as nat, 2)
}

/// The adapter's own MAC address, "AA:BB:CC:DD:EE:FF", when its physical address has at least
/// six bytes.
pub fn mac_address(bytes: &[u8; 8], length: u32) -> (r: Option<String>)
    ensures
        length < 6 ==> r is None,
        length >= 6 ==> (r matches Some(t) && t@ == mac_text(*bytes)),
{
    if length < 6 {
        return None;
    }
    let mut s = String::new();
    push_hex_fixed(&mut s, bytes[0] as u64, 2);
    push_char(&mut s, ':');
    push_hex_fixed(&mut s, bytes[1] as u64, 2);
    push_char(&mut s, ':');
    push_hex_fixed(&mut s, bytes[2] as u64, 2);
    push_char(&mut s, ':');
    push_hex_fixed(&mut s, bytes[3] as u64, 2);
    push_char(&mut s, ':');
    push_hex_fixed(&mut s, bytes[4] as u64, 2);
    push_char(&mut s, ':');
    push_hex_fixed(&mut s, bytes[5] as u64, 2);
    Some(s)
}

/// An address text is an IPv6 one exactly when it contains `:`.
pub open spec fn is_v6_text(t: Seq<char>) -> bool {
    t.contains(':')
}

/// The present addresses of `addrs`, in order, keeping only the IPv6 ones (`v6`) or only the
/// others.
pub open spec fn addresses_of(addrs: Seq<Option<String>>, v6: bool) -> Seq<Seq<char>>
    decreases addrs.len(),
{
    if addrs.len() == 0 {
        Seq::empty()
    } else {
        let rest = addresses_of(addrs.drop_last(), v6);
        match addrs.last() {
            Some(t) => if is_v6_text(t@) == v6 {
                rest.push(t@)
            } else {
                rest
            },
            None => rest,
        }
    }
}

/// The split of an adapter's addresses is clean: every address filed as IPv6 contains a `:`
/// and no address filed as IPv4 does.
pub proof fn law_address_split(addrs: Seq<Option<String>>)
    ensures
        forall|i: int|
            0 <= i < addresses_of(addrs, true).len() ==> is_v6_text(
                #[trigger] addresses_of(addrs, true)[i],
            ),
        forall|i: int|
            0 <= i < addresses_of(addrs, false).len() ==> !is_v6_text(
                #[trigger] addresses_of(addrs, false)[i],
            ),
    decreases addrs.len(),
{
    if addrs.len() > 0 {
        law_address_split(addrs.drop_last());
        let r6 = addresses_of(addrs.drop_last(), true);
        let r4 = addresses_of(addrs.drop_last(), false);
        assert forall|i: int|
            0 <= i < addresses_of(addrs, true).len() implies is_v6_text(
            #[trigger] addresses_of(addrs, true)[i],
        ) by {
            if i < r6.len() {
                assert(addresses_of(addrs, true)[i] == r6[i]);
            }
        }
        assert forall|i: int|
            0 <= i < addresses_of(addrs, false).len() implies !is_v6_text(
            #[trigger] addresses_of(addrs, false)[i],
        ) by {
            if i < r4.len() {
                assert(addresses_of(addrs, false)[i] == r4[i]);
            }
        }
    }
}

/// The present addresses of `addrs`, in order.
pub open spec fn present_of(addrs: Seq<Option<String>>) -> Seq<Seq<char>>
    decreases addrs.len(),
{
    if addrs.len() == 0 {
        Seq::empty()
    } else {
        let rest = present_of(addrs.drop_last());
        match addrs.last() {
            Some(t) => rest.push(t@),
            None => rest,
        }
    }
}

/// The first present address of `addrs` at or after `i`.
pub open spec fn first_present(addrs: Seq<Option<String>>, i: int) -> Option<Seq<char>>
    decreases addrs.len() - i,
{
    if i < 0 || i >= addrs.len() {
        None
    } else {
        match addrs[i] {
            Some(t) => Some(t@),
            None => first_present(addrs, i + 1),
        }
    }
}

/// The texts of a list of strings.
pub open spec fn texts(v: Seq<String>) -> Seq<Seq<char>> {
    v.map_values(|s: String| s@)
}

fn contains_colon(s: &String) -> (b: bool)
    ensures
        b == is_v6_text(s@),
{
    let v = chars_of(s.as_str());
    let mut i: usize = 0;
    while i < v.len()
        invariant
            i <= v@.len(),
            v@ == s@,
            forall|j: int| 0 <= j < i ==> v@[j] != ':',
        decreases v@.len() - i,
    {
        if v[i] == ':' {
            assert(v@[i as int] == ':');
            return true;
        }
        i = i + 1;
    }
    false
}

fn clone_string(s: &String) -> (r: String)
    ensures
        r@ == s@,
{
    s.clone()
}

/// The present addresses of `addrs`, split into the non-IPv6 and the IPv6 ones.
fn split_addresses(addrs: &Vec<Option<String>>) -> (r: (Vec<String>, Vec<String>))
    ensures
        texts(r.0@) == addresses_of(addrs@, false),
        texts(r.1@) == addresses_of(addrs@, true),
{
    let mut v4: Vec<String> = Vec::new();
    let mut v6: Vec<String> = Vec::new();
    let mut i: usize = 0;
    while i < addrs.len()
        invariant
            i <= addrs@.len(),
            texts(v4@) == addresses_of(addrs@.take(i as int), false),
            texts(v6@) == addresses_of(addrs@.take(i as int), true),
        decreases addrs@.len() - i,
    {
        let ghost pre = addrs@.take(i as int);
        assert(addrs@.take(i + 1).drop_last() =~= pre);
        match &addrs[i] {
            Some(t) => {
                if contains_colon(t) {
                    v6.push(clone_string(t));
                } else {
                    v4.push(clone_string(t));
                }
            },
            None => {},
        }
        i = i + 1;
        assert(texts(v4@) =~= addresses_of(addrs@.take(i as int), false));
        assert(texts(v6@) =~= addresses_of(addrs@.take(i as int), true));
    }
    assert(addrs@.take(addrs@.len() as int) =~= addrs@);
    (v4, v6)
}

/// The present addresses of `addrs`, in order.
fn present_addresses(addrs: &Vec<Option<String>>) -> (r: Vec<String>)
    ensures
        texts(r@) == present_of(addrs@),
{
    let mut out: Vec<String> = Vec::new();
    let mut i: usize = 0;
    while i < addrs.len()
        invariant
            i <= addrs@.len(),
            texts(out@) == present_of(addrs@.take(i as int)),
        decreases addrs@.len() - i,
    {
        assert(addrs@.take(i + 1).drop_last() =~= addrs@.take(i as int));
        match &addrs[i] {
            Some(t) => out.push(clone_string(t)),
            None => {},
        }
        i = i + 1;
        assert(texts(out@) =~= present_of(addrs@.take(i as int)));
    }
    assert(addrs@.take(addrs@.len() as int) =~= addrs@);
    out
}

/// The first present address of `addrs`.
fn first_address(addrs: &Vec<Option<String>>) -> (r: Option<String>)
    ensures
        r matches Some(t) ==> first_present(addrs@, 0) == Some(t@),
        r is None ==> first_present(addrs@, 0) is None,
{
    let mut i: usize = 0;
    while i < addrs.len()
        invariant
            i <= addrs@.len(),
            first_present(addrs@, 0) == first_present(addrs@, i as int),
        decreases addrs@.len() - i,
    {
        match &addrs[i] {
            Some(t) => return Some(clone_string(t)),
            None => {},
        }
        i = i + 1;
    }
    None
}

proof fn lemma_present_indices(addrs: Seq<Option<String>>) -> (idx: Seq<int>)
    ensures
        idx.len() == present_of(addrs).len(),
        forall|m1: int, m2: int|
            0 <= m1 < m2 < idx.len() ==> #[trigger] idx[m1] < #[trigger] idx[m2],
        forall|m: int|
            0 <= m < idx.len() ==> 0 <= #[trigger] idx[m] < addrs.len() && (addrs[idx[m]] matches Some(
                t,
            ) && t@ == present_of(addrs)[m]),
        forall|k: int|
            0 <= k < addrs.len() && (#[trigger] addrs[k]) is Some ==> exists|m: int|
                0 <= m < idx.len() && idx[m] == k,
    decreases addrs.len(),
{
    if addrs.len() == 0 {
        Seq::empty()
    } else {
        let p = addrs.drop_last();
        let n = p.len() as int;
        let i0 = lemma_present_indices(p);
        assert forall|k: int| 0 <= k < n implies addrs[k] == #[trigger] p[k] by {}
        match addrs.last() {
            Some(t) => {
                let idx = i0.push(n);
                assert(present_of(addrs) == present_of(p).push(t@));
                assert forall|m: int| 0 <= m < idx.len() implies 0 <= #[trigger] idx[m] < addrs.len()
                    && (addrs[idx[m]] matches Some(u) && u@ == present_of(addrs)[m]) by {
                    if m < i0.len() {
                        assert(idx[m] == i0[m]);
                        assert(addrs[i0[m]] == p[i0[m]]);
                    }
                }
                assert forall|k: int| 0 <= k < addrs.len() && (#[trigger] addrs[k]) is Some implies exists|
                    m: int,
                | 0 <= m < idx.len() && idx[m] == k by {
                    if k < n {
                        assert(p[k] is Some);
                        let m = choose|m: int| 0 <= m < i0.len() && i0[m] == k;
                        assert(idx[m] == k);
                    } else {
                        assert(idx[i0.len() as int] == k);
                    }
                }
                idx
            },
            None => {
                assert(present_of(addrs) == present_of(p));
                assert forall|m: int| 0 <= m < i0.len() implies 0 <= #[trigger] i0[m] < addrs.len()
                    && (addrs[i0[m]] matches Some(u) && u@ == present_of(addrs)[m]) by {
                    assert(addrs[i0[m]] == p[i0[m]]);
                }
                assert forall|k: int| 0 <= k < addrs.len() && (#[trigger] addrs[k]) is Some implies exists|
                    m: int,
                | 0 <= m < i0.len() && i0[m] == k by {
                    assert(k < n);
                    assert(p[k] is Some);
                }
                i0
            },
        }
    }
}

/// `idx` picks, strictly increasing, one position of `src` per text of `out`, each holding
/// that text, and every present entry of `src` is one of the picked positions: `out` is exactly
/// the present entries of `src`, in order.
pub open spec fn picks_present_in_order(
    idx: Seq<int>,
    src: Seq<Option<String>>,
    out: Seq<String>,
) -> bool {
    &&& idx.len() == out.len()
    &&& forall|m1: int, m2: int| 0 <= m1 < m2 < idx.len() ==> #[trigger] idx[m1] < #[trigger] idx[m2]
    &&& forall|m: int|
        0 <= m < idx.len() ==> 0 <= #[trigger] idx[m] < src.len() && (src[idx[m]] matches Some(t)
            && t@ == out[m]@)
    &&& forall|k: int|
        0 <= k < src.len() && (#[trigger] src[k]) is Some ==> exists|m: int|
            0 <= m < idx.len() && idx[m] == k
}

/// Every DNS server the adapter reports is kept, in the order reported: the configuration's DNS
/// list is exactly the present entries of the adapter's list (so there are as many servers as
/// present entries).
pub proof fn law_dns_all_present_in_order(c: IpConfig, a: AdapterInfo)
    requires
        config_matches(c, a),
    ensures
        exists|idx: Seq<int>| #[trigger] picks_present_in_order(idx, a.dns@, c.dns@),
{
    let idx = lemma_present_indices(a.dns@);
    assert(texts(c.dns@) == present_of(a.dns@));
    assert forall|m: int| 0 <= m < idx.len() implies 0 <= #[trigger] idx[m] < a.dns@.len() && (
    a.dns@[idx[m]] matches Some(t) && t@ == c.dns@[m]@) by {
        assert(texts(c.dns@)[m] == c.dns@[m]@);
    }
    assert(picks_present_in_order(idx, a.dns@, c.dns@));
}

proof fn lemma_first_present(addrs: Seq<Option<String>>, i: int)
    requires
        0 <= i,
    ensures
        first_present(addrs, i) is None <==> forall|k: int| i <= k < addrs.len() ==> (
        #[trigger] addrs[k]) is None,
        first_present(addrs, i) matches Some(g) ==> exists|k: int|
            i <= k < addrs.len() && (#[trigger] addrs[k] matches Some(t) && t@ == g) && forall|
                j: int,
            | i <= j < k ==> (#[trigger] addrs[j]) is None,
    decreases addrs.len() - i,
{
    if i < addrs.len() {
        lemma_first_present(addrs, i + 1);
        if addrs[i] is None {
            if first_present(addrs, i) is None {
                assert forall|k: int| i <= k < addrs.len() implies (#[trigger] addrs[k]) is None by {
                    if k > i {
                    }
                }
            }
            if let Some(g) = first_present(addrs, i) {
                let k = choose|k: int|
                    i + 1 <= k < addrs.len() && (#[trigger] addrs[k] matches Some(t) && t@ == g)
                        && forall|j: int| i + 1 <= j < k ==> (#[trigger] addrs[j]) is None;
                assert forall|j: int| i <= j < k implies (#[trigger] addrs[j]) is None by {}
            }
        } else {
            assert(addrs[i] matches Some(t) && first_present(addrs, i) == Some(t@));
        }
    }
}

/// The gateway is the first one the adapter reports: when the first entry of the gateway list
/// is present it is the gateway; in general the gateway is the text of the earliest present
/// entry, and there is none exactly when no entry is present.
pub proof fn law_gateway_first_reported(c: IpConfig, a: AdapterInfo)
    requires
        config_matches(c, a),
    ensures
        a.gateways@.len() > 0 ==> (a.gateways@[0] matches Some(t) ==> (c.gateway matches Some(g)
            && g@ == t@)),
        c.gateway is None <==> forall|k: int| 0 <= k < a.gateways@.len() ==> (
        #[trigger] a.gateways@[k]) is None,
        c.gateway matches Some(g) ==> exists|k: int|
            0 <= k < a.gateways@.len() && (#[trigger] a.gateways@[k] matches Some(t) && t@ == g@)
                && forall|j: int| 0 <= j < k ==> (#[trigger] a.gateways@[j]) is None,
{
    lemma_first_present(a.gateways@, 0);
}

/// The configuration an adapter record describes.
pub open spec fn config_matches(c: IpConfig, a: AdapterInfo) -> bool {
    &&& (a.physical_address_length < 6 ==> c.mac is None)
    &&& (a.physical_address_length >= 6 ==> (c.mac matches Some(t) && t@ == mac_text(
        a.physical_address,
    )))
    &&& texts(c.ipv4@) == addresses_of(a.unicast@, false)
    &&& texts(c.ipv6@) == addresses_of(a.unicast@, true)
    &&& (c.gateway matches Some(g) ==> first_present(a.gateways@, 0) == Some(g@))
    &&& (c.gateway is None ==> first_present(a.gateways@, 0) is None)
    &&& texts(c.dns@) == present_of(a.dns@)
}

/// Map an adapter record into [`IpConfig`]: its MAC, its unicast addresses split into IPv4 and
/// IPv6 (an address text with a `:` is IPv6), the first gateway, and every DNS server.
pub fn ip_config_of(adapter: &AdapterInfo) -> (c: IpConfig)
    ensures
        config_matches(c, *adapter),
{
    let mac = mac_address(&adapter.physical_address, adapter.physical_address_length);
    let (ipv4, ipv6) = split_addresses(&adapter.unicast);
    let gateway = first_address(&adapter.gateways);
    let dns = present_addresses(&adapter.dns);
    IpConfig { mac, ipv4, ipv6, gateway, dns }
}

/// The index of the first adapter at or after `i` whose upper-cased name is `want`.
pub open spec fn adapter_index(adapters: Seq<AdapterInfo>, want: Seq<char>, i: int) -> Option<int>
    decreases adapters.len() - i,
{
    if i < 0 || i >= adapters.len() {
        None
    } else if unicode_upper(adapters[i].name@) == want {
        Some(i)
    } else {
        adapter_index(adapters, want, i + 1)
    }
}

/// A `GetAdaptersAddresses` sizing call that reports a zero size is an OS error.
pub fn adapter_buffer_check(size: u32) -> (r: Result<()>)
    ensures
        size != 0 ==> r is Ok,
        size == 0 ==> (r matches Err(WifiError::OsApi(m)) && m@
            == "GetAdaptersAddresses returned zero size"@),
{
    if size == 0 {
        Err(WifiError::OsApi(String::from_str("GetAdaptersAddresses returned zero size")))
    } else {
        Ok(())
    }
}

/// Read the IP configuration of the adapter identified by `guid` out of the adapter list: the
/// first adapter whose `AdapterName` matches the GUID string (compared upper-cased) is mapped
/// into [`IpConfig`]. `NotFound` if the adapter isn't present.
pub fn read_ip_config(adapters: &Vec<AdapterInfo>, guid: &Guid) -> (r: Result<IpConfig>)
    ensures
        match adapter_index(adapters@, unicode_upper(guid_text(*guid)), 0) {
            Some(k) => r matches Ok(c) && config_matches(c, adapters@[k]),
            None => r matches Err(WifiError::NotFound),
        },
{
    let g = guid_to_string(guid);
    let want = to_uppercase(g.as_str());
    let mut i: usize = 0;
    while i < adapters.len()
        invariant
            i <= adapters@.len(),
            want@ == unicode_upper(guid_text(*guid)),
            adapter_index(adapters@, want@, 0) == adapter_index(adapters@, want@, i as int),
        decreases adapters@.len() - i,
    {
        let name = to_uppercase(adapters[i].name.as_str());
        if name == want {
            return Ok(ip_config_of(&adapters[i]));
        }
        i = i + 1;
    }
    Err(WifiError::NotFound)
}

} // verus!
