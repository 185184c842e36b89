//! The decisions of the Windows backend, apart from the `wlanapi` calls that feed them: which
//! notifications end a scan or a connect, how notifications become events, how a connect's
//! outcome is judged, and how the raw interface, connection and network records fold into the
//! neutral types. The OS calls themselves stay with the caller, which hands the raw values in.
use vstd::prelude::*;
use crate::conv::{
    check, guid_text, guid_to_string, security_from, security_from_profile_xml, security_of,
    security_of_profile, ssid_text, ssid_to_string, state_from, state_of, until_nul,
    wide_to_string, Dot11Ssid, Guid,
};
use crate::profile::{profile_text, profile_xml};
use crate::text::{hex_min, push_hex, utf16_decode};
use crate::types::{
    ConnectRequest, ConnectionState, ConnectionStatus, Credentials, Interface, Network,
    Result, SavedNetwork, Security, WifiError, WifiEvent,
};

verus! {

/// `WLAN_NOTIFICATION_SOURCE_ACM`: auto-configuration (scan, connection lifecycle).
pub const NOTIFICATION_SOURCE_ACM: u32 = 8;

/// `WLAN_NOTIFICATION_SOURCE_MSM`: media-specific module (signal quality).
pub const NOTIFICATION_SOURCE_MSM: u32 = 16;

/// `wlan_notification_acm_scan_complete`.
pub const ACM_SCAN_COMPLETE: u32 = 7;

/// `wlan_notification_acm_scan_fail`.
pub const ACM_SCAN_FAIL: u32 = 8;

/// `wlan_notification_acm_connection_start`.
pub const ACM_CONNECTION_START: u32 = 9;

/// `wlan_notification_acm_connection_complete`.
pub const ACM_CONNECTION_COMPLETE: u32 = 10;

/// `wlan_notification_acm_connection_attempt_fail`.
pub const ACM_CONNECTION_ATTEMPT_FAIL: u32 = 11;

/// `wlan_notification_acm_disconnecting`.
pub const ACM_DISCONNECTING: u32 = 20;

/// `wlan_notification_acm_disconnected`.
pub const ACM_DISCONNECTED: u32 = 21;

/// `wlan_notification_msm_signal_quality_change`.
pub const MSM_SIGNAL_QUALITY_CHANGE: u32 = 8;

/// `WLAN_AVAILABLE_NETWORK_HAS_PROFILE`.
pub const AVAILABLE_NETWORK_HAS_PROFILE: u32 = 2;

/// `DOT11_AUTH_ALGORITHM` value for WPA3-SAE; an AP advertising it rejects a WPA2PSK profile.
pub const DOT11_AUTH_SAE: i32 = 9;

/// `ERROR_NOT_FOUND`, what deleting a profile that does not exist reports.
pub const ERROR_NOT_FOUND: u32 = 1168;

// ---------------------------------------------------------------------------------------------
// Notifications
// ---------------------------------------------------------------------------------------------

/// Whether an ACM notification is one of the two terminal scan outcomes (complete or failed).
pub fn scan_finished(source: u32, code: u32) -> (b: bool)
    ensures
        b == (source == NOTIFICATION_SOURCE_ACM && (code == ACM_SCAN_COMPLETE || code
            == ACM_SCAN_FAIL)),
{
    source == NOTIFICATION_SOURCE_ACM && (code == ACM_SCAN_COMPLETE || code == ACM_SCAN_FAIL)
}

/// The event a notification stands for, if any.
pub open spec fn event_of(source: u32, code: u32, signal_quality: Option<u32>) -> Option<
    WifiEvent,
> {
    if source == NOTIFICATION_SOURCE_ACM {
        if code == ACM_SCAN_COMPLETE {
            Some(WifiEvent::ScanComplete)
        } else if code == ACM_CONNECTION_START {
            Some(WifiEvent::StateChanged(ConnectionState::Connecting))
        } else if code == ACM_CONNECTION_COMPLETE {
            Some(WifiEvent::StateChanged(ConnectionState::Connected))
        } else if code == ACM_CONNECTION_ATTEMPT_FAIL {
            Some(WifiEvent::StateChanged(ConnectionState::Failed))
        } else if code == ACM_DISCONNECTING {
            Some(WifiEvent::StateChanged(ConnectionState::Disconnecting))
        } else if code == ACM_DISCONNECTED {
            Some(WifiEvent::StateChanged(ConnectionState::Disconnected))
        } else {
            None
        }
    } else if source == NOTIFICATION_SOURCE_MSM && code == MSM_SIGNAL_QUALITY_CHANGE {
        match signal_quality {
            Some(q) => Some(WifiEvent::SignalChanged(link_quality_of(q))),
            None => None,
        }
    } else {
        None
    }
}

/// Translate an ACM (connection lifecycle, scan) or MSM (signal) notification into a
/// [`WifiEvent`]. `signal_quality` is the notification's `WLAN_SIGNAL_QUALITY` payload when one is
/// present (0..100; larger values are capped). Unrecognized notifications give `None`.
pub fn event_from_notification(source: u32, code: u32, signal_quality: Option<u32>) -> (r:
    Option<WifiEvent>)
    ensures
        r == event_of(source, code, signal_quality),
{
    if source == NOTIFICATION_SOURCE_ACM {
        if code == ACM_SCAN_COMPLETE {
            Some(WifiEvent::ScanComplete)
        } else if code == ACM_CONNECTION_START {
            Some(WifiEvent::StateChanged(ConnectionState::Connecting))
        } else if code == ACM_CONNECTION_COMPLETE {
            Some(WifiEvent::StateChanged(ConnectionState::Connected))
        } else if code == ACM_CONNECTION_ATTEMPT_FAIL {
            Some(WifiEvent::StateChanged(ConnectionState::Failed))
        } else if code == ACM_DISCONNECTING {
            Some(WifiEvent::StateChanged(ConnectionState::Disconnecting))
        } else if code == ACM_DISCONNECTED {
            Some(WifiEvent::StateChanged(ConnectionState::Disconnected))
        } else {
            None
        }
    } else if source == NOTIFICATION_SOURCE_MSM && code == MSM_SIGNAL_QUALITY_CHANGE {
        match signal_quality {
            Some(q) => Some(WifiEvent::SignalChanged(link_quality(q))),
            None => None,
        }
    } else {
        None
    }
}

/// WLAN reason codes in the MSMSEC band (`0x40000..0x50000`) are security/credential failures.
pub open spec fn security_reason(reason: u32) -> bool {
    0x0004_0000 <= reason && reason < 0x0005_0000
}

/// WLAN reason codes in the MSMSEC band (`0x40000..0x50000`) are security/credential failures — a
/// wrong key reports here (observed: `0x48014`). The lower MSM band (`0x30000`) is general
/// connection failure, not specifically auth.
pub fn is_security_reason(reason: u32) -> (b: bool)
    ensures
        b == security_reason(reason),
{
    0x0004_0000 <= reason && reason < 0x0005_0000
}

/// The reason code a connect waiter should be handed for a notification, if any: the terminal
/// `connection_complete` always, and `connection_attempt_fail` only with a security-band reason
/// (a wrong key never recovers on retry; transient failures may still succeed later). A
/// notification whose payload could not be read carries reason 0.
pub open spec fn connect_reason_of(source: u32, code: u32, reason: Option<u32>) -> Option<u32> {
    let r = match reason {
        Some(r) => r,
        None => 0,
    };
    if source == NOTIFICATION_SOURCE_ACM && (code == ACM_CONNECTION_COMPLETE || (code
        == ACM_CONNECTION_ATTEMPT_FAIL && security_reason(r))) {
        Some(r)
    } else {
        None
    }
}

/// Decide whether a notification ends a pending connect, and with which `wlanReasonCode`.
/// `reason` is the `WLAN_CONNECTION_NOTIFICATION_DATA` reason when the payload is present.
pub fn connect_notification(source: u32, code: u32, reason: Option<u32>) -> (r: Option<u32>)
    ensures
        r == connect_reason_of(source, code, reason),
{
    if source != NOTIFICATION_SOURCE_ACM {
        return None;
    }
    let r = match reason {
        Some(r) => r,
        None => 0,
    };
    let is_complete = code == ACM_CONNECTION_COMPLETE;
    let is_attempt_fail = code == ACM_CONNECTION_ATTEMPT_FAIL;
    if !is_complete && !is_attempt_fail {
        return None;
    }
    if is_complete || is_security_reason(r) {
        Some(r)
    } else {
        None
    }
}

/// The result a connection-complete reason code maps to: success for 0, `AuthFailed` for the
/// security band, otherwise an OS error carrying the code in hexadecimal.
pub open spec fn reason_outcome(reason: u32, r: Result<()>) -> bool {
    &&& (reason == 0 ==> r is Ok)
    &&& (reason != 0 && security_reason(reason) ==> r matches Err(WifiError::AuthFailed))
    &&& (reason != 0 && !security_reason(reason) ==> (r matches Err(WifiError::OsApi(m)) && m@
        == "connect failed: WLAN reason 0x"@ + hex_min(reason as nat)))
}

/// Map a connection-complete `wlanReasonCode` to a result. The MSMSEC range (`0x40000..0x50000`)
/// is the security/credential failure band — a wrong key lands here — and maps to `AuthFailed`;
/// anything else non-zero is surfaced with its raw code in hexadecimal.
pub fn map_connect_reason(reason: u32) -> (r: Result<()>)
    ensures
        reason_outcome(reason, r),
{
    if reason == 0 {
        Ok(())
    } else if is_security_reason(reason) {
        Err(WifiError::AuthFailed)
    } else {
        let mut m = String::from_str("connect failed: WLAN reason 0x");
        push_hex(&mut m, reason as u64);
        Err(WifiError::OsApi(m))
    }
}

/// A failed connection attempt only ever ends a connect as an authentication failure: the
/// attempt-fail notifications the connect callback forwards carry a security-band reason, which
/// the outcome mapping turns into `AuthFailed`.
pub proof fn law_forwarded_attempt_fail_is_auth_failure(
    source: u32,
    reason: Option<u32>,
    r: u32,
    outcome: Result<()>,
)
    requires
        connect_reason_of(source, ACM_CONNECTION_ATTEMPT_FAIL, reason) == Some(r),
        reason_outcome(r, outcome),
    ensures
        outcome matches Err(WifiError::AuthFailed),
{
}

/// A signal event always reports a quality in 0..=100, whatever the payload.
pub proof fn law_signal_event_bounded(source: u32, code: u32, signal_quality: Option<u32>)
    ensures
        event_of(source, code, signal_quality) matches Some(WifiEvent::SignalChanged(q)) ==> q
            <= 100,
{
}

/// One look at a pending connect's notification channel.
#[derive(Debug)]
pub enum ConnectPoll {
    /// A terminal reason code arrived.
    Reason(u32),
    /// The notification channel was closed.
    ChannelClosed,
    /// Nothing yet; `deadline_passed` says whether the wait has run out.
    Waiting { deadline_passed: bool },
}

/// What a connect does after one poll of its notification channel: `Some(result)` ends the
/// connect with that result, `None` keeps waiting.
pub fn connect_poll(p: ConnectPoll) -> (r: Option<Result<()>>)
    ensures
        p matches ConnectPoll::Reason(reason) ==> (r matches Some(res) && reason_outcome(
            reason,
            res,
        )),
        p is ChannelClosed ==> (r matches Some(Err(WifiError::OsApi(m))) && m@
            == "connect: notification channel closed"@),
        p matches ConnectPoll::Waiting { deadline_passed } ==> (deadline_passed ==> (r matches Some(
            Err(WifiError::OsApi(m)),
        ) && m@ == "connect: timed out"@)) && (!deadline_passed ==> r is None),
{
    match p {
        ConnectPoll::Reason(reason) => Some(map_connect_reason(reason)),
        ConnectPoll::ChannelClosed => Some(
            Err(WifiError::OsApi(String::from_str("connect: notification channel closed"))),
        ),
        ConnectPoll::Waiting { deadline_passed } => {
            if deadline_passed {
                Some(Err(WifiError::OsApi(String::from_str("connect: timed out"))))
            } else {
                None
            }
        },
    }
}

/// One look at a scan's completion channel.
#[derive(Debug)]
pub enum ScanPoll {
    /// The scan-complete (or scan-fail) notification arrived.
    Signalled,
    /// The channel was closed.
    ChannelClosed,
    /// Nothing yet; `deadline_passed` says whether the wait has run out.
    Waiting { deadline_passed: bool },
}

/// Whether a scan stops waiting after this poll. A missed notification is not an error: on
/// timeout the scan proceeds with whatever the OS has cached.
pub fn scan_wait_over(p: ScanPoll) -> (b: bool)
    ensures
        b == match p {
            ScanPoll::Signalled => true,
            ScanPoll::ChannelClosed => true,
            ScanPoll::Waiting { deadline_passed } => deadline_passed,
        },
{
    match p {
        ScanPoll::Signalled => true,
        ScanPoll::ChannelClosed => true,
        ScanPoll::Waiting { deadline_passed } => deadline_passed,
    }
}

// ---------------------------------------------------------------------------------------------
// Connect
// ---------------------------------------------------------------------------------------------

/// The first decision of a connect: enterprise credentials are not supported on this backend;
/// `Ok(true)` means a profile must be staged first, `Ok(false)` (saved credentials) means the
/// existing stored profile is used untouched.
pub fn connect_precheck(req: &ConnectRequest) -> (r: Result<bool>)
    ensures
        req.credentials is Enterprise ==> (r matches Err(WifiError::Unimplemented(m)) && m@
            == "windows: enterprise connect"@),
        req.credentials is Saved ==> r == Ok::<bool, WifiError>(false),
        (req.credentials is Open || req.credentials is Psk) ==> r == Ok::<bool, WifiError>(true),
{
    match &req.credentials {
        Credentials::Enterprise { .. } => Err(WifiError::Unimplemented("windows: enterprise connect")),
        Credentials::Saved => Ok(false),
        _ => Ok(true),
    }
}

/// The profile a connect stages for `req`, given the auth algorithm the target advertises in
/// the cached scan list (`None` when it is not visible): WPA3-SAE targets get a `WPA3SAE`
/// profile, everything else the `WPA2PSK` default.
pub fn connect_profile(req: &ConnectRequest, auth_algo: Option<i32>) -> (s: String)
    ensures
        s@ == profile_text(req.ssid@, req.credentials, auth_algo == Some(DOT11_AUTH_SAE)),
{
    let wpa3 = match auth_algo {
        Some(a) => a == DOT11_AUTH_SAE,
        None => false,
    };
    profile_xml(req.ssid.as_str(), &req.credentials, wpa3)
}

// ---------------------------------------------------------------------------------------------
// Interfaces and status
// ---------------------------------------------------------------------------------------------

/// One entry of `WlanEnumInterfaces`.
#[derive(Debug)]
pub struct InterfaceInfo {
    pub guid: Guid,
    /// `strInterfaceDescription`, a NUL-terminated UTF-16 field.
    pub description: Vec<u16>,
    /// `isState`, a `WLAN_INTERFACE_STATE` value.
    pub state: i32,
}

/// The neutral interface an enumeration entry describes.
pub open spec fn interface_matches(i: Interface, info: InterfaceInfo) -> bool {
    &&& i.id@ == guid_text(info.guid)
    &&& i.description@ == utf16_decode(until_nul(info.description@))
    &&& i.state == state_of(info.state)
}

/// Map one enumeration entry to an [`Interface`].
pub fn interface_from(info: &InterfaceInfo) -> (i: Interface)
    ensures
        interface_matches(i, *info),
{
    Interface {
        id: guid_to_string(&info.guid),
        description: wide_to_string(info.description.as_slice()),
        state: state_from(info.state),
    }
}

/// Map an interface enumeration, in order.
pub fn interfaces_from(infos: &Vec<InterfaceInfo>) -> (r: Vec<Interface>)
    ensures
        r@.len() == infos@.len(),
        forall|k: int| 0 <= k < r@.len() ==> interface_matches(#[trigger] r@[k], infos@[k]),
{
    let mut r: Vec<Interface> = Vec::new();
    let mut k: usize = 0;
    while k < infos.len()
        invariant
            k <= infos@.len(),
            r@.len() == k,
            forall|j: int| 0 <= j < k ==> interface_matches(#[trigger] r@[j], infos@[j]),
        decreases infos@.len() - k,
    {
        r.push(interface_from(&infos[k]));
        k = k + 1;
    }
    r
}

/// The GUID of the interface the facade operates on — the first enumerated wireless adapter.
/// Errors with `NotFound` when the machine has no Wi-Fi interface.
pub fn primary_guid(infos: &Vec<InterfaceInfo>) -> (r: Result<Guid>)
    ensures
        infos@.len() > 0 ==> r == Ok::<Guid, WifiError>(infos@[0].guid),
        infos@.len() == 0 ==> r matches Err(WifiError::NotFound),
{
    if infos.len() > 0 {
        Ok(infos[0].guid)
    } else {
        Err(WifiError::NotFound)
    }
}

/// The current-connection attributes `WlanQueryInterface` reports for a connected interface.
#[derive(Debug)]
pub struct ConnectionAttributes {
    /// `isState`, a `WLAN_INTERFACE_STATE` value.
    pub state: i32,
    pub ssid: Dot11Ssid,
    /// `wlanSignalQuality`, 0..100 as the OS reports it.
    pub signal_quality: u32,
}

/// A signal-quality reading as link quality 0–100: the reading itself, capped at 100.
pub open spec fn link_quality_of(q: u32) -> u8 {
    if q < 100 {
        q as u8
    } else {
        100
    }
}

/// Normalize a signal-quality reading to link quality 0–100.
pub fn link_quality(q: u32) -> (r: u8)
    ensures
        r == link_quality_of(q),
{
    if q < 100 {
        q as u8
    } else {
        100
    }
}

/// The status a current-connection query describes; `None` (the query failed or returned no
/// data, which is what a not-connected interface does) reads as a clean `Disconnected`.
pub open spec fn status_matches(s: ConnectionStatus, attrs: Option<ConnectionAttributes>) -> bool {
    match attrs {
        None => s.state == ConnectionState::Disconnected && s.ssid is None && s.signal is None,
        Some(a) => {
            &&& s.state == state_of(a.state)
            &&& (ssid_text(a.ssid).len() == 0 ==> s.ssid is None)
            &&& (ssid_text(a.ssid).len() > 0 ==> (s.ssid matches Some(t) && t@ == ssid_text(
                a.ssid,
            )))
            &&& s.signal == Some(link_quality_of(a.signal_quality))
        },
    }
}

/// Signals are link quality 0–100: a status always reports a signal within 0..=100, and exactly
/// the reading when the reading is within that range.
pub proof fn law_status_signal_normalized(s: ConnectionStatus, a: ConnectionAttributes)
    requires
        status_matches(s, Some(a)),
    ensures
        s.signal matches Some(q) && q <= 100 && (a.signal_quality <= 100 ==> q
            == a.signal_quality),
{
}

/// The SSID being joined is reported whatever the interface is doing: a status reports the
/// SSID's text whenever that text is not empty (connected, associating, authenticating or
/// otherwise), and no SSID only when the text is empty.
pub proof fn law_status_ssid_any_state(s: ConnectionStatus, a: ConnectionAttributes)
    requires
        status_matches(s, Some(a)),
    ensures
        ssid_text(a.ssid).len() > 0 ==> (s.ssid matches Some(t) && t@ == ssid_text(a.ssid)),
        s.ssid is None <==> ssid_text(a.ssid).len() == 0,
{
}

/// Two statuses of interfaces on the same SSID report the same SSID, however their states
/// differ.
pub proof fn law_status_ssid_independent_of_state(
    s1: ConnectionStatus,
    a1: ConnectionAttributes,
    s2: ConnectionStatus,
    a2: ConnectionAttributes,
)
    requires
        status_matches(s1, Some(a1)),
        status_matches(s2, Some(a2)),
        a1.ssid == a2.ssid,
    ensures
        s1.ssid is None <==> s2.ssid is None,
        s1.ssid matches Some(t1) ==> (s2.ssid matches Some(t2) && t1@ == t2@),
{
}

/// What the active interface is currently doing, from its current-connection attributes.
pub fn status_from(attrs: Option<ConnectionAttributes>) -> (s: ConnectionStatus)
    ensures
        status_matches(s, attrs),
{
    match attrs {
        None => ConnectionStatus { state: ConnectionState::Disconnected, ssid: None, signal: None },
        Some(a) => {
            let state = state_from(a.state);
            let ssid = ssid_to_string(&a.ssid);
            let q: u8 = link_quality(a.signal_quality);
            let empty = ssid.as_str().unicode_len() == 0;
            ConnectionStatus {
                state,
                ssid: if empty {
                    None
                } else {
                    Some(ssid)
                },
                signal: Some(q),
            }
        },
    }
}

// ---------------------------------------------------------------------------------------------
// Available networks
// ---------------------------------------------------------------------------------------------

/// One entry of `WlanGetAvailableNetworkList`.
#[derive(Debug)]
pub struct AvailableNetwork {
    pub ssid: Dot11Ssid,
    /// `wlanSignalQuality`, 0..100 as the OS reports it.
    pub signal_quality: u32,
    /// `bSecurityEnabled`.
    pub security_enabled: bool,
    /// `dot11DefaultAuthAlgorithm`.
    pub auth_algorithm: i32,
    /// `dwFlags`.
    pub flags: u32,
}

/// The signal an entry reports.
pub open spec fn signal_of(e: AvailableNetwork) -> u8 {
    link_quality_of(e.signal_quality)
}

/// The neutral network an entry describes on its own: SSID-level (no BSSID or frequency), with
/// `saved` set when the OS has a profile for it.
pub open spec fn network_matches(n: Network, e: AvailableNetwork) -> bool {
    &&& n.ssid@ == ssid_text(e.ssid)
    &&& n.bssid is None
    &&& n.security == security_of(e.security_enabled, e.auth_algorithm)
    &&& n.signal == Some(signal_of(e))
    &&& n.frequency_mhz is None
    &&& n.saved == (e.flags & AVAILABLE_NETWORK_HAS_PROFILE != 0)
}

/// Entry `i` is the one kept for its SSID among the first `n` entries: its SSID is not empty,
/// no entry with the same SSID is stronger, and every earlier one with the same SSID is
/// strictly weaker (the first of the strongest wins).
pub open spec fn kept_among(list: Seq<AvailableNetwork>, n: int, i: int) -> bool {
    &&& 0 <= i < n <= list.len()
    &&& ssid_text(list[i].ssid).len() > 0
    &&& forall|j: int|
        0 <= j < n && ssid_text(#[trigger] list[j].ssid) == ssid_text(list[i].ssid) ==> signal_of(
            list[j],
        ) <= signal_of(list[i]) && (j < i ==> signal_of(list[j]) < signal_of(list[i]))
}

/// Signals are link quality 0–100: a network folded from an entry always reports a signal
/// within 0..=100, and exactly the reading when the reading is within that range.
pub proof fn law_network_signal_normalized(n: Network, e: AvailableNetwork)
    requires
        network_matches(n, e),
    ensures
        n.signal matches Some(q) && q <= 100 && (e.signal_quality <= 100 ==> q
            == e.signal_quality),
{
}

/// Where the SSID of `n` first appears in the list.
pub open spec fn first_seen(list: Seq<AvailableNetwork>, n: Network) -> Option<int> {
    first_with_ssid(list, n.ssid@, 0)
}

proof fn lemma_first_with_ssid_at(list: Seq<AvailableNetwork>, t: Seq<char>, i: int, k: int)
    requires
        0 <= i <= k < list.len(),
        ssid_text(list[k].ssid) == t,
        forall|j: int| i <= j < k ==> ssid_text(#[trigger] list[j].ssid) != t,
    ensures
        first_with_ssid(list, t, i) == Some(k),
    decreases k - i,
{
    if i < k {
        lemma_first_with_ssid_at(list, t, i + 1, k);
    }
}

/// `n` is what the list keeps for some SSID: the network of the entry kept for it.
pub open spec fn from_kept_entry(list: Seq<AvailableNetwork>, n: Network) -> bool {
    exists|i: int| kept_among(list, list.len() as int, i) && network_matches(n, list[i])
}

fn candidate(e: &AvailableNetwork, ssid: String) -> (n: Network)
    requires
        ssid@ == ssid_text(e.ssid),
    ensures
        network_matches(n, *e),
{
    Network {
        ssid,
        bssid: None,
        security: security_from(e.security_enabled, e.auth_algorithm),
        signal: Some(link_quality(e.signal_quality)),
        frequency_mhz: None,
        saved: (e.flags & AVAILABLE_NETWORK_HAS_PROFILE) != 0,
    }
}

/// Some entry of `list` has the SSID of `n`, a signal no weaker than any other entry with that
/// SSID, and carries `WLAN_AVAILABLE_NETWORK_HAS_PROFILE` (`0x2`) in its flags exactly when `n`
/// is saved.
pub open spec fn saved_by_entry(list: Seq<AvailableNetwork>, n: Network) -> bool {
    exists|i: int|
        0 <= i < list.len() && ssid_text(#[trigger] list[i].ssid) == n.ssid@ && n.saved == ((
        list[i].flags & 0x2u32) != 0u32) && forall|j: int|
            0 <= j < list.len() && ssid_text(#[trigger] list[j].ssid) == n.ssid@ ==> list[j].signal_quality
                <= list[i].signal_quality || list[i].signal_quality >= 100
}

/// A scanned network is reported saved exactly when the entry it comes from carries
/// `WLAN_AVAILABLE_NETWORK_HAS_PROFILE` (`0x2`) in its flags: every network `networks_from`
/// gives is backed by a strongest entry of the list with the same SSID whose flags decide
/// `saved`, so a network the OS holds no profile for is never reported saved.
pub proof fn law_scan_saved_iff_profile_flag(list: Seq<AvailableNetwork>, r: Seq<Network>)
    requires
        forall|k: int| 0 <= k < r.len() ==> from_kept_entry(list, #[trigger] r[k]),
    ensures
        forall|k: int| 0 <= k < r.len() ==> saved_by_entry(list, #[trigger] r[k]),
        forall|k: int|
            0 <= k < r.len() && (forall|i: int| 0 <= i < list.len() ==> #[trigger] list[i].flags
                == 0u32) ==> !(#[trigger] r[k]).saved,
{
    assert forall|k: int| 0 <= k < r.len() implies saved_by_entry(list, #[trigger] r[k]) by {
        assert(from_kept_entry(list, r[k]));
        let i = choose|i: int| kept_among(list, list.len() as int, i) && network_matches(r[k], list[i]);
        assert(ssid_text(list[i].ssid) == r[k].ssid@);
        assert(r[k].saved == ((list[i].flags & 0x2u32) != 0u32));
    }
    assert forall|k: int|
        0 <= k < r.len() && (forall|i: int| 0 <= i < list.len() ==> #[trigger] list[i].flags == 0u32)
            implies !(#[trigger] r[k]).saved by {
        assert(from_kept_entry(list, r[k]));
        let i = choose|i: int| kept_among(list, list.len() as int, i) && network_matches(r[k], list[i]);
        assert(list[i].flags == 0u32);
        assert((0u32 & 0x2u32) == 0u32) by (bit_vector);
    }
}

/// Fold an available-network list into neutral `Network`s, de-duplicating by SSID and keeping
/// the strongest signal (the list reports one entry per security variant, which would otherwise
/// surface the same SSID several times). Entries with an empty SSID (hidden / unnamed APs) are
/// skipped. Networks come out in the order their SSIDs first appear.
pub fn networks_from(list: &Vec<AvailableNetwork>) -> (r: Vec<Network>)
    ensures
        forall|a: int, b: int|
            0 <= a < b < r@.len() ==> #[trigger] r@[a].ssid@ != #[trigger] r@[b].ssid@,
        forall|k: int| 0 <= k < r@.len() ==> from_kept_entry(list@, #[trigger] r@[k]),
        forall|i: int|
            0 <= i < list@.len() && ssid_text(#[trigger] list@[i].ssid).len() > 0 ==> exists|k: int|
                0 <= k < r@.len() && r@[k].ssid@ == ssid_text(list@[i].ssid),
        forall|a: int, b: int|
            0 <= a < b < r@.len() ==> (first_seen(list@, #[trigger] r@[a]) matches Some(fa) && (
            first_seen(list@, #[trigger] r@[b]) matches Some(fb) && fa < fb)),
{
    let mut out: Vec<Network> = Vec::new();
    let ghost mut src: Seq<int> = Seq::empty();
    let ghost mut firsts: Seq<int> = Seq::empty();
    let mut i: usize = 0;
    while i < list.len()
        invariant
            i <= list@.len(),
            src.len() == out@.len(),
            forall|a: int, b: int|
                0 <= a < b < out@.len() ==> #[trigger] out@[a].ssid@ != #[trigger] out@[b].ssid@,
            forall|k: int|
                0 <= k < out@.len() ==> kept_among(list@, i as int, #[trigger] src[k])
                    && network_matches(out@[k], list@[src[k]]),
            forall|j: int|
                0 <= j < i && ssid_text(#[trigger] list@[j].ssid).len() > 0 ==> exists|k: int|
                    0 <= k < out@.len() && out@[k].ssid@ == ssid_text(list@[j].ssid),
            firsts.len() == out@.len(),
            forall|k: int|
                0 <= k < out@.len() ==> first_seen(list@, #[trigger] out@[k]) == Some(firsts[k])
                    && firsts[k] < i,
            forall|a: int, b: int| 0 <= a < b < firsts.len() ==> #[trigger] firsts[a] < #[trigger] firsts[b],
        decreases list@.len() - i,
    {
        let e = &list[i];
        let ssid = ssid_to_string(&e.ssid);
        if ssid.as_str().unicode_len() == 0 {
            i = i + 1;
            proof {
                assert forall|k: int| 0 <= k < out@.len() implies kept_among(
                    list@,
                    i as int,
                    #[trigger] src[k],
                ) by {
                    assert(kept_among(list@, i - 1, src[k]));
                }
            }
            continue;
        }
        let signal: u8 = link_quality(e.signal_quality);
        // Look for an entry already holding this SSID.
        let mut k: usize = 0;
        let mut found = false;
        while k < out.len()
            invariant_except_break
                k <= out@.len(),
                !found,
                forall|m: int| 0 <= m < k ==> out@[m].ssid@ != ssid@,
            ensures
                found ==> k < out@.len() && out@[k as int].ssid@ == ssid@,
                !found ==> forall|m: int| 0 <= m < out@.len() ==> out@[m].ssid@ != ssid@,
            decreases out@.len() - k,
        {
            if out[k].ssid == ssid {
                found = true;
                break;
            }
            k = k + 1;
        }
        let ghost old_out = out@;
        let ghost old_firsts = firsts;
        let ghost old_src = src;
        let ghost n = i + 1;
        let ghost text = ssid@;
        proof {
            assert(text == ssid_text(list@[i as int].ssid));
            assert(text.len() > 0);
            assert(signal == signal_of(list@[i as int]));
        }
        if found {
            let existing: u8 = match out[k].signal {
                Some(s) => s,
                None => 0,
            };
            proof {
                assert(old_out[k as int].ssid@ == text);
                assert(network_matches(old_out[k as int], list@[old_src[k as int]]));
                assert(existing == signal_of(list@[old_src[k as int]]));
                assert(kept_among(list@, i as int, old_src[k as int]));
                assert(ssid_text(list@[old_src[k as int]].ssid) == text);
            }
            if signal > existing {
                let c = candidate(e, ssid);
                out.set(k, c);
                proof {
                    src = src.update(k as int, i as int);
                    assert forall|j: int|
                        0 <= j < n && ssid_text(#[trigger] list@[j].ssid) == ssid_text(
                            list@[i as int].ssid,
                        ) implies signal_of(list@[j]) <= signal_of(list@[i as int]) && (j < i
                        ==> signal_of(list@[j]) < signal_of(list@[i as int])) by {
                        if j < i {
                            assert(kept_among(list@, i as int, old_src[k as int]));
                        }
                    }
                    assert(kept_among(list@, n, src[k as int]));
                }
            } else {
                proof {
                    let s0 = old_src[k as int];
                    assert forall|j: int|
                        0 <= j < n && ssid_text(#[trigger] list@[j].ssid) == ssid_text(
                            list@[s0].ssid,
                        ) implies signal_of(list@[j]) <= signal_of(list@[s0]) && (j < s0
                        ==> signal_of(list@[j]) < signal_of(list@[s0])) by {
                        if j < i {
                            assert(kept_among(list@, i as int, s0));
                        }
                    }
                    assert(kept_among(list@, n, src[k as int]));
                }
            }
            proof {
                assert(out@[k as int].ssid@ == text);
                assert forall|m: int| 0 <= m < out@.len() && m != k implies kept_among(
                    list@,
                    n,
                    #[trigger] src[m],
                ) by {
                    assert(src[m] == old_src[m]);
                    assert(out@[m] == old_out[m]);
                    assert(kept_among(list@, i as int, old_src[m]));
                    assert(old_out[m].ssid@ != old_out[k as int].ssid@);
                    assert(ssid_text(list@[src[m]].ssid) != text);
                    assert forall|j: int|
                        0 <= j < n && ssid_text(#[trigger] list@[j].ssid) == ssid_text(
                            list@[src[m]].ssid,
                        ) implies signal_of(list@[j]) <= signal_of(list@[src[m]]) && (j < src[m]
                        ==> signal_of(list@[j]) < signal_of(list@[src[m]])) by {
                        if j == i {
                            assert(ssid_text(list@[j].ssid) == text);
                        }
                    }
                }
                assert forall|a: int, b: int|
                    0 <= a < b < out@.len() implies #[trigger] out@[a].ssid@ != #[trigger] out@[b].ssid@ by {
                    assert(out@[a].ssid@ == old_out[a].ssid@);
                    assert(out@[b].ssid@ == old_out[b].ssid@);
                }
                assert forall|m: int| 0 <= m < out@.len() implies first_seen(
                    list@,
                    #[trigger] out@[m],
                ) == Some(firsts[m]) by {
                    assert(out@[m].ssid@ == old_out[m].ssid@);
                    assert(first_seen(list@, old_out[m]) == Some(firsts[m]));
                }
                assert forall|j: int|
                    0 <= j < n && ssid_text(#[trigger] list@[j].ssid).len() > 0 implies exists|m: int|
                        0 <= m < out@.len() && out@[m].ssid@ == ssid_text(list@[j].ssid) by {
                    if j == i {
                        assert(out@[k as int].ssid@ == ssid_text(list@[j].ssid));
                    } else {
                        let m = choose|m: int|
                            0 <= m < old_out.len() && old_out[m].ssid@ == ssid_text(list@[j].ssid);
                        assert(out@[m].ssid@ == old_out[m].ssid@);
                    }
                }
            }
        } else {
            let c = candidate(e, ssid);
            out.push(c);
            proof {
                src = src.push(i as int);
                firsts = firsts.push(i as int);
                assert forall|j: int|
                    0 <= j < n && ssid_text(#[trigger] list@[j].ssid) == text implies j == i by {
                    if j < i {
                        let m = choose|m: int|
                            0 <= m < old_out.len() && old_out[m].ssid@ == ssid_text(list@[j].ssid);
                        assert(old_out[m].ssid@ != text);
                    }
                }
                assert(kept_among(list@, n, i as int));
                lemma_first_with_ssid_at(list@, text, 0, i as int);
                assert(first_seen(list@, out@[old_out.len() as int]) == Some(i as int));
                assert forall|a: int, b: int| 0 <= a < b < firsts.len() implies #[trigger] firsts[a]
                    < #[trigger] firsts[b] by {
                    assert(firsts[a] == old_firsts[a]);
                    assert(first_seen(list@, old_out[a]) == Some(old_firsts[a]) && old_firsts[a]
                        < i);
                    if b < old_firsts.len() {
                        assert(firsts[b] == old_firsts[b]);
                    }
                }
                assert forall|m: int| 0 <= m < old_out.len() implies first_seen(
                    list@,
                    #[trigger] out@[m],
                ) == Some(firsts[m]) by {
                    assert(out@[m] == old_out[m]);
                }
                assert forall|m: int| 0 <= m < out@.len() implies kept_among(
                    list@,
                    n,
                    #[trigger] src[m],
                ) && network_matches(out@[m], list@[src[m]]) by {
                    if m < old_out.len() {
                        assert(src[m] == old_src[m]);
                        assert(out@[m] == old_out[m]);
                        assert(kept_among(list@, i as int, old_src[m]));
                        assert(ssid_text(list@[src[m]].ssid) != text);
                        assert forall|j: int|
                            0 <= j < n && ssid_text(#[trigger] list@[j].ssid) == ssid_text(
                                list@[src[m]].ssid,
                            ) implies signal_of(list@[j]) <= signal_of(list@[src[m]]) && (j
                            < src[m] ==> signal_of(list@[j]) < signal_of(list@[src[m]])) by {
                            if j == i {
                                assert(ssid_text(list@[j].ssid) == text);
                            }
                        }
                    }
                }
                assert forall|a: int, b: int|
                    0 <= a < b < out@.len() implies #[trigger] out@[a].ssid@ != #[trigger] out@[b].ssid@ by {
                    if b == old_out.len() {
                        assert(out@[a] == old_out[a]);
                    } else {
                        assert(out@[a] == old_out[a]);
                        assert(out@[b] == old_out[b]);
                    }
                }
                assert forall|j: int|
                    0 <= j < n && ssid_text(#[trigger] list@[j].ssid).len() > 0 implies exists|m: int|
                        0 <= m < out@.len() && out@[m].ssid@ == ssid_text(list@[j].ssid) by {
                    if j == i {
                        assert(out@[old_out.len() as int].ssid@ == ssid_text(list@[j].ssid));
                    } else {
                        let m = choose|m: int|
                            0 <= m < old_out.len() && old_out[m].ssid@ == ssid_text(list@[j].ssid);
                        assert(out@[m] == old_out[m]);
                    }
                }
            }
        }
        i = i + 1;
    }
    proof {
        assert forall|k: int| 0 <= k < out@.len() implies from_kept_entry(list@, #[trigger] out@[k]) by {
            let w = src[k];
            assert(kept_among(list@, list@.len() as int, w));
            assert(network_matches(out@[k], list@[w]));
        }
        assert(i == list@.len());
        assert forall|a: int, b: int| 0 <= a < b < out@.len() implies (first_seen(
            list@,
            #[trigger] out@[a],
        ) matches Some(fa) && (first_seen(list@, #[trigger] out@[b]) matches Some(fb) && fa
            < fb)) by {
            assert(firsts[a] < firsts[b]);
        }
    }
    out
}

/// The index of the first entry at or after `i` whose SSID reads as `ssid`, if any.
pub open spec fn first_with_ssid(list: Seq<AvailableNetwork>, ssid: Seq<char>, i: int) -> Option<
    int,
>
    decreases list.len() - i,
{
    if i < 0 || i >= list.len() {
        None
    } else if ssid_text(list[i].ssid) == ssid {
        Some(i)
    } else {
        first_with_ssid(list, ssid, i + 1)
    }
}

/// The default auth algorithm the AP for `ssid` advertises, read from the cached
/// available-network list: that of the first entry whose SSID matches, `None` if the SSID isn't
/// currently visible. Used to pick the right PSK profile flavour at connect time.
pub fn auth_algo_for(list: &Vec<AvailableNetwork>, ssid: &str) -> (r: Option<i32>)
    ensures
        r == (match first_with_ssid(list@, ssid@, 0) {
            Some(i) => Some(list@[i].auth_algorithm),
            None => None,
        }),
{
    let target = String::from_str(ssid);
    let mut i: usize = 0;
    while i < list.len()
        invariant
            i <= list@.len(),
            target@ == ssid@,
            first_with_ssid(list@, ssid@, 0) == first_with_ssid(list@, ssid@, i as int),
        decreases list@.len() - i,
    {
        let s = ssid_to_string(&list[i].ssid);
        if s == target {
            return Some(list[i].auth_algorithm);
        }
        i = i + 1;
    }
    None
}

// ---------------------------------------------------------------------------------------------
// Stored profiles
// ---------------------------------------------------------------------------------------------

/// The profile names of a `WlanGetProfileList`, each a NUL-terminated UTF-16 field.
pub fn profile_names(list: &Vec<Vec<u16>>) -> (r: Vec<String>)
    ensures
        r@.len() == list@.len(),
        forall|k: int| 0 <= k < r@.len() ==> #[trigger] r@[k]@ == utf16_decode(until_nul(list@[k]@)),
{
    let mut r: Vec<String> = Vec::new();
    let mut k: usize = 0;
    while k < list.len()
        invariant
            k <= list@.len(),
            r@.len() == k,
            forall|j: int| 0 <= j < k ==> #[trigger] r@[j]@ == utf16_decode(until_nul(list@[j]@)),
        decreases list@.len() - k,
    {
        r.push(wide_to_string(list[k].as_slice()));
        k = k + 1;
    }
    r
}

/// The security category of a stored profile, from its XML when it could be read (`None` when
/// `WlanGetProfile` failed or returned nothing): `Unknown` if unreadable or unparsable.
pub open spec fn profile_security_of(xml: Option<String>) -> Security {
    match xml {
        None => Security::Unknown,
        Some(x) => security_of_profile(x@),
    }
}

/// Best-effort security of a stored profile from its (possibly unreadable) XML.
pub fn profile_security(xml: &Option<String>) -> (s: Security)
    ensures
        s == profile_security_of(*xml),
{
    match xml {
        None => Security::Unknown,
        Some(x) => security_from_profile_xml(x.as_str()),
    }
}

/// The saved networks of a profile list. The list order is the OS's connection preference
/// (highest first); it is exposed as a descending priority, `count` for the first profile down to
/// 1 for the last. `xmls[k]` is the profile XML of `names[k]` when it could be read. A priority is
/// an `i32`: a list longer than `i32::MAX` wraps, as a 32-bit count does.
pub fn saved_networks_from(names: &Vec<String>, xmls: &Vec<Option<String>>) -> (r: Vec<
    SavedNetwork,
>)
    requires
        names@.len() == xmls@.len(),
    ensures
        r@.len() == names@.len(),
        forall|k: int|
            0 <= k < r@.len() ==> {
                &&& (#[trigger] r@[k]).ssid@ == names@[k]@
                &&& r@[k].security == profile_security_of(xmls@[k])
                &&& r@[k].priority == Some((names@.len() - k) as i32)
            },
{
    let mut r: Vec<SavedNetwork> = Vec::new();
    let mut k: usize = 0;
    while k < names.len()
        invariant
            k <= names@.len(),
            names@.len() == xmls@.len(),
            r@.len() == k,
            forall|j: int|
                0 <= j < k ==> {
                    &&& (#[trigger] r@[j]).ssid@ == names@[j]@
                    &&& r@[j].security == profile_security_of(xmls@[j])
                    &&& r@[j].priority == Some((names@.len() - j) as i32)
                },
        decreases names@.len() - k,
    {
        let rank: usize = names.len() - k;
        r.push(
            SavedNetwork {
                security: profile_security(&xmls[k]),
                ssid: names[k].clone(),
                priority: Some(#[verifier::truncate] (rank as i32)),
            },
        );
        k = k + 1;
    }
    r
}

/// The result of deleting a stored profile: `ERROR_NOT_FOUND` means there was none for this
/// SSID; any other failure is an OS error.
pub fn forget_result(ret: u32) -> (r: Result<()>)
    ensures
        ret == 0 ==> r is Ok,
        ret == ERROR_NOT_FOUND ==> r matches Err(WifiError::NotFound),
        ret != 0 && ret != ERROR_NOT_FOUND ==> (r matches Err(WifiError::OsApi(m)) && m@
            == crate::conv::check_message("WlanDeleteProfile"@, ret)),
{
    if ret == ERROR_NOT_FOUND {
        return Err(WifiError::NotFound);
    }
    check("WlanDeleteProfile", ret)
}

} // verus!
