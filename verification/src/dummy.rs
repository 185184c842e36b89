//! Fallback backend for targets with no native implementation (such as macOS). It reports
//! `PlatformNotSupported` for every operation, so a caller on an unsupported OS degrades
//! gracefully at runtime instead of failing to build. A real backend for such a target (e.g.
//! CoreWLAN on macOS) replaces this one rather than extending it.
use vstd::prelude::*;
use crate::types::{
    ConnectRequest, ConnectionStatus, Connectivity, Interface, IpConfig, Network, Result,
    SavedNetwork, WifiError,
};

verus! {

/// The one error every operation of this backend reports.
pub open spec fn unsupported(e: WifiError) -> bool {
    e matches WifiError::PlatformNotSupported(m) && m@ == "no native Wi-Fi backend for this OS"@
}

#[derive(Debug)]
pub struct DummyWifi;

impl DummyWifi {
    /// Opening the Wi-Fi subsystem fails with `PlatformNotSupported`: this target has no native
    /// backend.
    pub fn new() -> (r: Result<Self>)
        ensures
            r matches Err(e) && unsupported(e),
    {
        Err(WifiError::PlatformNotSupported("no native Wi-Fi backend for this OS"))
    }

    pub fn interfaces(&self) -> (r: Result<Vec<Interface>>)
        ensures
            r matches Err(e) && unsupported(e),
    {
        Err(WifiError::PlatformNotSupported("no native Wi-Fi backend for this OS"))
    }

    pub fn scan(&self) -> (r: Result<Vec<Network>>)
        ensures
            r matches Err(e) && unsupported(e),
    {
        Err(WifiError::PlatformNotSupported("no native Wi-Fi backend for this OS"))
    }

    pub fn connect(&self, _req: &ConnectRequest) -> (r: Result<()>)
        ensures
            r matches Err(e) && unsupported(e),
    {
        Err(WifiError::PlatformNotSupported("no native Wi-Fi backend for this OS"))
    }

    pub fn disconnect(&self) -> (r: Result<()>)
        ensures
            r matches Err(e) && unsupported(e),
    {
        Err(WifiError::PlatformNotSupported("no native Wi-Fi backend for this OS"))
    }

    pub fn status(&self) -> (r: Result<ConnectionStatus>)
        ensures
            r matches Err(e) && unsupported(e),
    {
        Err(WifiError::PlatformNotSupported("no native Wi-Fi backend for this OS"))
    }

    pub fn available_networks(&self) -> (r: Result<Vec<Network>>)
        ensures
            r matches Err(e) && unsupported(e),
    {
        Err(WifiError::PlatformNotSupported("no native Wi-Fi backend for this OS"))
    }

    pub fn request_scan(&self) -> (r: Result<()>)
        ensures
            r matches Err(e) && unsupported(e),
    {
        Err(WifiError::PlatformNotSupported("no native Wi-Fi backend for this OS"))
    }

    pub fn ip_config(&self) -> (r: Result<IpConfig>)
        ensures
            r matches Err(e) && unsupported(e),
    {
        Err(WifiError::PlatformNotSupported("no native Wi-Fi backend for this OS"))
    }

    pub fn connectivity(&self) -> (r: Result<Connectivity>)
        ensures
            r matches Err(e) && unsupported(e),
    {
        Err(WifiError::PlatformNotSupported("no native Wi-Fi backend for this OS"))
    }

    pub fn saved_networks(&self) -> (r: Result<Vec<SavedNetwork>>)
        ensures
            r matches Err(e) && unsupported(e),
    {
        Err(WifiError::PlatformNotSupported("no native Wi-Fi backend for this OS"))
    }

    pub fn forget(&self, _ssid: &str) -> (r: Result<()>)
        ensures
            r matches Err(e) && unsupported(e),
    {
        Err(WifiError::PlatformNotSupported("no native Wi-Fi backend for this OS"))
    }

    pub fn is_enabled(&self) -> (r: Result<bool>)
        ensures
            r matches Err(e) && unsupported(e),
    {
        Err(WifiError::PlatformNotSupported("no native Wi-Fi backend for this OS"))
    }

    pub fn set_enabled(&self, _on: bool) -> (r: Result<()>)
        ensures
            r matches Err(e) && unsupported(e),
    {
        Err(WifiError::PlatformNotSupported("no native Wi-Fi backend for this OS"))
    }

    /// The error an event subscription reports: without a backend there are no events.
    pub fn subscribe(&self) -> (e: WifiError)
        ensures
            unsupported(e),
    {
        WifiError::PlatformNotSupported("no native Wi-Fi backend for this OS")
    }
}

} // verus!
