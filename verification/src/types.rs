//! Backend-neutral value types. These are the public vocabulary of the crate; every platform
//! backend maps the OS's native structures onto these and never leaks its own.
use vstd::prelude::*;

verus! {

/// The security/authentication scheme of a network.
#[derive(Debug, Clone, Copy, PartialEq, Eq, Structural)]
pub enum Security {
    /// No authentication.
    Open,
    /// Legacy WEP (treat as good as open; supported for completeness).
    Wep,
    /// WPA/WPA2/WPA3 with a pre-shared key (the common "home Wi-Fi password" case).
    Psk,
    /// WPA2/WPA3-Enterprise (802.1X / EAP). Credentials carry identity material.
    Enterprise,
    /// Present but unrecognized.
    Unknown,
}

/// A network as seen in a scan, or a remembered/saved one.
#[derive(Debug, Clone, PartialEq, Eq)]
pub struct Network {
    pub ssid: String,
    /// BSSID (AP MAC, "XX:XX:XX:XX:XX:XX") when a specific AP is known; `None` for an
    /// SSID-level/aggregated entry.
    pub bssid: Option<String>,
    pub security: Security,
    /// Link quality 0–100 (normalized across platforms). `None` for saved-but-not-seen entries.
    pub signal: Option<u8>,
    /// Center frequency in MHz when known (e.g. 2412, 5180).
    pub frequency_mhz: Option<u32>,
    /// True if the OS already has a saved profile for this SSID.
    pub saved: bool,
}

/// A wireless interface/adapter on the machine.
#[derive(Debug, Clone, PartialEq, Eq)]
pub struct Interface {
    /// Opaque per-platform id: an interface GUID on Windows, the device path/ifname on Linux.
    pub id: String,
    /// Human-readable description ("Intel Wi-Fi 6 AX201").
    pub description: String,
    pub state: ConnectionState,
}

/// Where an interface (or the facade's active interface) is in the connection lifecycle.
#[derive(Debug, Clone, Copy, PartialEq, Eq, Structural)]
pub enum ConnectionState {
    Disconnected,
    Connecting,
    Connected,
    Disconnecting,
    Failed,
}

/// Credentials supplied when joining a network. There is deliberately no `Debug`: use
/// [`Credentials::redacted`], which keeps secrets out of logs.
#[derive(Clone)]
pub enum Credentials {
    /// Open network — no secret. (Logged as `Credentials::None`.)
    Open,
    /// WPA/WPA2/WPA3 pre-shared key (passphrase).
    Psk(String),
    /// 802.1X / EAP material. The field set is provisional and will expand to cover the EAP
    /// methods each backend supports.
    Enterprise { identity: String, password: String },
    /// Join using the OS's existing stored profile for this SSID, supplying no secret. Fails if no
    /// profile exists. This is the reconnect-to-a-known-network path; it never alters the stored
    /// credentials.
    Saved,
}

/// What `{:?}` prints for a string: the text quoted and escaped.
pub uninterp spec fn debug_quoted(s: Seq<char>) -> Seq<char>;

/// Printable ASCII other than the quote and the backslash: the characters `{:?}` leaves as they
/// are.
pub open spec fn plain_debug_char(c: char) -> bool {
    0x20 <= c as u32 && c as u32 <= 0x7E && c != '"' && c != '\\'
}

/// `format!("{:?}", s)` on a string slice. The result is the quoted, escaped rendering of `s`;
/// text made only of printable ASCII other than `"` and `\` is just put between quotes. Nothing
/// is stated of the escaping of other characters.
#[verifier::external_body]
fn debug_str(s: &str) -> (r: String)
    ensures
        r@ == debug_quoted(s@),
        (forall|i: int| 0 <= i < s@.len() ==> plain_debug_char(#[trigger] s@[i])) ==> r@ == seq![
            '"',
        ] + s@ + seq!['"'],
{
    format!("{:?}", s)
}

impl Credentials {
    /// The text this credential is logged as: the variant, with every secret replaced by `***`.
    pub open spec fn redacted_spec(&self) -> Seq<char> {
        match self {
            Credentials::Open => "Credentials::None"@,
            Credentials::Psk(_) => "Credentials::Psk(***)"@,
            Credentials::Enterprise { identity, .. } => "Credentials::Enterprise { identity: "@
                + debug_quoted(identity@) + ", password: *** }"@,
            Credentials::Saved => "Credentials::Saved"@,
        }
    }

    /// A log-safe rendering: the pre-shared key and the enterprise password never appear.
    pub fn redacted(&self) -> (s: String)
        ensures
            s@ == self.redacted_spec(),
    {
        match self {
            Credentials::Open => String::from_str("Credentials::None"),
            Credentials::Psk(_) => String::from_str("Credentials::Psk(***)"),
            Credentials::Enterprise { identity, .. } => {
                let mut s = String::from_str("Credentials::Enterprise { identity: ");
                let q = debug_str(identity.as_str());
                s.append(q.as_str());
                s.append(", password: *** }");
                s
            },
            Credentials::Saved => String::from_str("Credentials::Saved"),
        }
    }
}

/// Secrets don't print: the logged text of a PSK does not depend on the key, and that of
/// enterprise material depends on the identity only, never on the password.
pub proof fn law_redaction_hides_secrets(
    k1: String,
    k2: String,
    identity: String,
    p1: String,
    p2: String,
)
    ensures
        Credentials::Psk(k1).redacted_spec() == Credentials::Psk(k2).redacted_spec(),
        (Credentials::Enterprise { identity: identity, password: p1 }).redacted_spec() == (
        Credentials::Enterprise { identity: identity, password: p2 }).redacted_spec(),
{
}

/// A request to join a network.
#[derive(Clone)]
pub struct ConnectRequest {
    pub ssid: String,
    pub credentials: Credentials,
    /// Join even if the SSID is not currently broadcast.
    pub hidden: bool,
    /// Pin to a specific AP by BSSID; `None` lets the OS pick the best.
    pub bssid: Option<String>,
}

/// A snapshot of what the active interface is currently doing.
#[derive(Debug, Clone, PartialEq, Eq)]
pub struct ConnectionStatus {
    pub state: ConnectionState,
    /// The SSID we're on/joining, when applicable.
    pub ssid: Option<String>,
    /// Current link quality 0–100, when connected.
    pub signal: Option<u8>,
}

/// IP-layer configuration of the active interface — the adapter MAC plus the addresses assigned to
/// the current connection. Distinct from [`ConnectionStatus`] (which is link-layer) because this
/// comes from the OS networking stack, not the Wi-Fi radio. Fields are whatever the OS currently
/// reports: empty/`None` when not connected or not yet assigned.
#[derive(Debug, Clone, PartialEq, Eq)]
pub struct IpConfig {
    /// The adapter's own MAC address, "AA:BB:CC:DD:EE:FF".
    pub mac: Option<String>,
    pub ipv4: Vec<String>,
    pub ipv6: Vec<String>,
    /// Default gateway (first one reported), when assigned.
    pub gateway: Option<String>,
    pub dns: Vec<String>,
}

impl IpConfig {
    /// True for the configuration with nothing assigned.
    pub open spec fn is_empty_config(&self) -> bool {
        &&& self.mac is None
        &&& self.ipv4@.len() == 0
        &&& self.ipv6@.len() == 0
        &&& self.gateway is None
        &&& self.dns@.len() == 0
    }
}

impl Default for IpConfig {
    fn default() -> (c: Self)
        ensures
            c.is_empty_config(),
    {
        IpConfig { mac: None, ipv4: Vec::new(), ipv6: Vec::new(), gateway: None, dns: Vec::new() }
    }
}

/// A network the OS remembers (has a stored profile for).
#[derive(Debug, Clone, PartialEq, Eq)]
pub struct SavedNetwork {
    pub ssid: String,
    pub security: Security,
    /// Auto-connect preference (higher = preferred) when the platform exposes it.
    pub priority: Option<i32>,
}

/// Internet reachability of the active connection, as the OS itself determines it (Windows NCSI /
/// NetworkManager connectivity check). Distinct from [`ConnectionState`]: a link can be `Connected`
/// yet `Offline` (associated to an AP with no working internet, e.g. a hotspot with no upstream) or
/// `CaptivePortal` (a login page is intercepting traffic). The OS does the probing; nothing here
/// reaches out to the network itself.
#[derive(Debug, Clone, Copy, PartialEq, Eq, Structural)]
pub enum Connectivity {
    /// No internet path (may still be associated to an AP with local-only access).
    Offline,
    /// Connected, but the OS sees only the local network — no internet.
    LocalOnly,
    /// Internet present but a captive portal (login page) is intercepting traffic.
    CaptivePortal,
    /// Full internet reachability.
    Online,
}

/// Live notifications from the active interface.
#[derive(Debug, Clone, Copy, PartialEq, Eq, Structural)]
pub enum WifiEvent {
    /// A fresh scan completed; call `scan()` to read the results.
    ScanComplete,
    /// The connection lifecycle advanced.
    StateChanged(ConnectionState),
    /// Link quality changed (0–100).
    SignalChanged(u8),
    /// Internet reachability changed (online / offline / local-only / captive portal).
    Connectivity(Connectivity),
}

/// Errors surfaced by the crate. Backend-neutral; platform detail rides in `OsApi`.
#[derive(Debug)]
pub enum WifiError {
    /// This OS has no native backend.
    PlatformNotSupported(&'static str),
    /// A recognized operation the active backend does not yet provide.
    Unimplemented(&'static str),
    /// No matching interface / network / profile.
    NotFound,
    /// Caller passed something invalid (bad SSID, malformed BSSID, …).
    InvalidArgument(&'static str),
    /// The network rejected our credentials.
    AuthFailed,
    /// An OS API call failed; string carries the platform-specific detail.
    OsApi(String),
    Other(String),
}

impl WifiError {
    /// The human-readable text of this error.
    pub open spec fn message_spec(&self) -> Seq<char> {
        match self {
            WifiError::PlatformNotSupported(m) => "Platform not supported: "@ + m@,
            WifiError::Unimplemented(m) => "Not implemented: "@ + m@,
            WifiError::NotFound => "Not found"@,
            WifiError::InvalidArgument(m) => "Invalid argument: "@ + m@,
            WifiError::AuthFailed => "Authentication failed"@,
            WifiError::OsApi(m) => "OS API error: "@ + m@,
            WifiError::Other(m) => m@,
        }
    }

    /// The human-readable text of this error (what `Display` prints).
    pub fn message(&self) -> (s: String)
        ensures
            s@ == self.message_spec(),
    {
        match self {
            WifiError::PlatformNotSupported(m) => {
                let mut s = String::from_str("Platform not supported: ");
                s.append(m);
                s
            },
            WifiError::Unimplemented(m) => {
                let mut s = String::from_str("Not implemented: ");
                s.append(m);
                s
            },
            WifiError::NotFound => String::from_str("Not found"),
            WifiError::InvalidArgument(m) => {
                let mut s = String::from_str("Invalid argument: ");
                s.append(m);
                s
            },
            WifiError::AuthFailed => String::from_str("Authentication failed"),
            WifiError::OsApi(m) => {
                let mut s = String::from_str("OS API error: ");
                s.append(m.as_str());
                s
            },
            WifiError::Other(m) => String::from_str(m.as_str()),
        }
    }
}

pub type Result<T> = core::result::Result<T, WifiError>;

} // verus!
