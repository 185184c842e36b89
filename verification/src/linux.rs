//! Linux backend — NetworkManager over D-Bus (`org.freedesktop.NetworkManager`). Wi-Fi is to be
//! driven through the NetworkManager D-Bus interface; `nmcli` is never invoked.
//!
//! Each operation maps to a NetworkManager call:
//! - `interfaces`: `GetDevices`, filtered to `DeviceType == Wifi`.
//! - `scan`: `Device.Wireless.RequestScan`, then read `AccessPoints`.
//! - `connect`: `AddAndActivateConnection`, or activate an existing connection.
//! - `disconnect`: `Device.Disconnect`.
//! - `status`: read the device `State` / `ActiveConnection`.
//!
//! Not built yet: every operation reports `Unimplemented`, naming the call it will make.
use vstd::prelude::*;
use crate::types::{ConnectRequest, ConnectionStatus, Interface, Network, Result, WifiError};

verus! {

/// `e` is the `Unimplemented` error with text `m`.
pub open spec fn unimplemented_as(e: WifiError, m: Seq<char>) -> bool {
    e matches WifiError::Unimplemented(t) && t@ == m
}

#[derive(Debug)]
pub struct LinuxWifi {}

impl LinuxWifi {
    /// Construction always succeeds.
    pub fn new() -> (r: Result<Self>)
        ensures
            r is Ok,
    {
        Ok(LinuxWifi {})
    }

    pub fn interfaces(&self) -> (r: Result<Vec<Interface>>)
        ensures
            r matches Err(e) && unimplemented_as(e, "linux: interfaces (NM GetDevices)"@),
    {
        Err(WifiError::Unimplemented("linux: interfaces (NM GetDevices)"))
    }

    pub fn scan(&self) -> (r: Result<Vec<Network>>)
        ensures
            r matches Err(e) && unimplemented_as(e, "linux: scan (NM RequestScan)"@),
    {
        Err(WifiError::Unimplemented("linux: scan (NM RequestScan)"))
    }

    pub fn connect(&self, _req: &ConnectRequest) -> (r: Result<()>)
        ensures
            r matches Err(e) && unimplemented_as(
                e,
                "linux: connect (NM AddAndActivateConnection)"@,
            ),
    {
        Err(WifiError::Unimplemented("linux: connect (NM AddAndActivateConnection)"))
    }

    pub fn disconnect(&self) -> (r: Result<()>)
        ensures
            r matches Err(e) && unimplemented_as(e, "linux: disconnect (NM Device.Disconnect)"@),
    {
        Err(WifiError::Unimplemented("linux: disconnect (NM Device.Disconnect)"))
    }

    pub fn status(&self) -> (r: Result<ConnectionStatus>)
        ensures
            r matches Err(e) && unimplemented_as(e, "linux: status (NM device State)"@),
    {
        Err(WifiError::Unimplemented("linux: status (NM device State)"))
    }
}

} // verus!
