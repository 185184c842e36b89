//! Internet reachability as the OS itself determines it (Windows NCSI through WinRT
//! `NetworkInformation`). Nothing here probes the network; the caller reads the OS's verdict and
//! this maps it onto [`Connectivity`].
use vstd::prelude::*;
use crate::types::{Connectivity, Result, WifiError};

verus! {

/// `NetworkConnectivityLevel::LocalAccess`.
pub const LEVEL_LOCAL_ACCESS: i32 = 1;

/// `NetworkConnectivityLevel::ConstrainedInternetAccess`.
pub const LEVEL_CONSTRAINED_INTERNET_ACCESS: i32 = 2;

/// `NetworkConnectivityLevel::InternetAccess`.
pub const LEVEL_INTERNET_ACCESS: i32 = 3;

/// The reachability a `NetworkConnectivityLevel` value reports: internet access is online,
/// constrained access is a captive portal, local access is local-only, anything else offline.
pub open spec fn connectivity_of(level: i32) -> Connectivity {
    if level == LEVEL_INTERNET_ACCESS {
        Connectivity::Online
    } else if level == LEVEL_CONSTRAINED_INTERNET_ACCESS {
        Connectivity::CaptivePortal
    } else if level == LEVEL_LOCAL_ACCESS {
        Connectivity::LocalOnly
    } else {
        Connectivity::Offline
    }
}

/// Map a `NetworkConnectivityLevel` onto [`Connectivity`].
pub fn map_level(level: i32) -> (c: Connectivity)
    ensures
        c == connectivity_of(level),
{
    if level == LEVEL_INTERNET_ACCESS {
        Connectivity::Online
    } else if level == LEVEL_CONSTRAINED_INTERNET_ACCESS {
        Connectivity::CaptivePortal
    } else if level == LEVEL_LOCAL_ACCESS {
        Connectivity::LocalOnly
    } else {
        Connectivity::Offline
    }
}

/// The OS's current internet-reachability level for the machine's active internet connection.
/// `profile` is what reading the internet connection profile gave: `None` when the OS exposes no
/// internet connection profile (no profile provides internet), which reads as `Offline`;
/// otherwise the profile's connectivity level, or the text of the error reading it.
pub fn current(profile: Option<core::result::Result<i32, String>>) -> (r: Result<Connectivity>)
    ensures
        profile is None ==> r == Ok::<Connectivity, WifiError>(Connectivity::Offline),
        profile matches Some(Ok(level)) ==> r == Ok::<Connectivity, WifiError>(
            connectivity_of(level),
        ),
        profile matches Some(Err(e)) ==> (r matches Err(WifiError::OsApi(m)) && m@
            == "GetNetworkConnectivityLevel: "@ + e@),
{
    match profile {
        None => Ok(Connectivity::Offline),
        Some(Ok(level)) => Ok(map_level(level)),
        Some(Err(e)) => {
            let mut m = String::from_str("GetNetworkConnectivityLevel: ");
            m.append(e.as_str());
            Err(WifiError::OsApi(m))
        },
    }
}

} // verus!
