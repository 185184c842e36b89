use wifi::connectivity::{current, map_level};
use wifi::conv::Guid;
use wifi::dummy::DummyWifi;
use wifi::ipconfig::{adapter_buffer_check, ip_config_of, mac_address, read_ip_config, AdapterInfo};
use wifi::linux::LinuxWifi;
use wifi::radio::{is_enabled, os, set_enabled, RadioReading};
use wifi::text::{push_decimal, push_hex, push_hex_fixed, push_signed_decimal};
use wifi::types::{
    ConnectRequest, Connectivity, Credentials, IpConfig, WifiError,
};

fn os_text<T: std::fmt::Debug>(r: Result<T, WifiError>) -> String {
    match r {
        Err(WifiError::OsApi(m)) => m,
        other => panic!("expected OsApi, got {other:?}"),
    }
}

#[test]
fn number_rendering() {
    let mut s = String::new();
    push_decimal(&mut s, 0);
    s.push(' ');
    push_decimal(&mut s, 1234567890);
    s.push(' ');
    push_hex(&mut s, 0);
    s.push(' ');
    push_hex(&mut s, 255);
    s.push(' ');
    push_hex_fixed(&mut s, 0xA, 4);
    s.push(' ');
    push_signed_decimal(&mut s, -42);
    s.push(' ');
    push_signed_decimal(&mut s, i32::MIN);
    assert_eq!(s, "0 1234567890 0 FF 000A -42 -2147483648");
}

#[test]
fn connectivity_levels() {
    assert_eq!(map_level(0), Connectivity::Offline);
    assert_eq!(map_level(1), Connectivity::LocalOnly);
    assert_eq!(map_level(2), Connectivity::CaptivePortal);
    assert_eq!(map_level(3), Connectivity::Online);
    assert_eq!(map_level(42), Connectivity::Offline);
}

#[test]
fn connectivity_current() {
    assert_eq!(current(None).unwrap(), Connectivity::Offline);
    assert_eq!(current(Some(Ok(3))).unwrap(), Connectivity::Online);
    assert_eq!(current(Some(Ok(2))).unwrap(), Connectivity::CaptivePortal);
    assert_eq!(
        os_text(current(Some(Err("E_FAIL".to_string())))),
        "GetNetworkConnectivityLevel: E_FAIL"
    );
}

#[test]
fn os_error_text() {
    assert_eq!(os_text::<()>(Err(os("Radio.Kind", "denied"))), "Radio.Kind: denied");
}

fn reading(kind: Result<i32, &str>, state: Option<Result<i32, &str>>) -> RadioReading {
    RadioReading {
        kind: kind.map_err(|e| e.to_string()),
        state: state.map(|s| s.map_err(|e| e.to_string())),
    }
}

#[test]
fn radio_enabled_verdicts() {
    assert_eq!(os_text(is_enabled(&Err("nope".to_string()))), "GetRadiosAsync: nope");
    assert_eq!(is_enabled(&Ok(Vec::new())).unwrap(), false);
    let off = vec![reading(Ok(3), None), reading(Ok(1), Some(Ok(2)))];
    assert_eq!(is_enabled(&Ok(off)).unwrap(), false);
    let on = vec![reading(Ok(3), None), reading(Ok(1), Some(Ok(1)))];
    assert_eq!(is_enabled(&Ok(on)).unwrap(), true);
    let kind_err = vec![reading(Err("k"), None), reading(Ok(1), Some(Ok(1)))];
    assert_eq!(os_text(is_enabled(&Ok(kind_err))), "Radio.Kind: k");
    let state_err = vec![reading(Ok(1), Some(Err("s")))];
    assert_eq!(os_text(is_enabled(&Ok(state_err))), "Radio.State: s");
    let on_first = vec![reading(Ok(1), Some(Ok(1))), reading(Err("k"), None)];
    assert_eq!(is_enabled(&Ok(on_first)).unwrap(), true);
}

#[test]
fn radio_set_enabled_access() {
    assert_eq!(
        os_text(set_enabled(true, Err("boom".to_string()))),
        "RequestAccessAsync: boom"
    );
    assert_eq!(
        os_text(set_enabled(true, Ok(2))),
        "radio access not allowed: RadioAccessStatus(2)"
    );
    assert_eq!(
        os_text(set_enabled(false, Ok(0))),
        "radio access not allowed: RadioAccessStatus(0)"
    );
    let on = set_enabled(true, Ok(1)).unwrap();
    assert_eq!(on.target, 1);
    assert!(on.radios.is_empty());
    assert_eq!(set_enabled(false, Ok(1)).unwrap().target, 2);
}

#[test]
fn radio_set_enabled_walk() {
    let mut sw = set_enabled(false, Ok(1)).unwrap();
    assert_eq!(sw.visit(Ok(3)).unwrap(), false);
    assert!(matches!(sw.finish(), Err(WifiError::NotFound)));
    assert_eq!(sw.visit(Ok(1)).unwrap(), true);
    // Visited but not yet confirmed: the change is not complete.
    assert_eq!(
        os_text(sw.finish()),
        "SetStateAsync: not every Wi-Fi radio was switched"
    );
    assert!(sw.applied(Ok(1)).is_ok());
    assert_eq!(sw.visit(Ok(2)).unwrap(), false);
    assert!(sw.finish().is_ok());
    assert_eq!(os_text(sw.visit(Err("gone".to_string()))), "Radio.Kind: gone");
    assert_eq!(sw.radios, vec![(3, false), (1, true), (2, false)]);
}

#[test]
fn radio_switch_denied_radio_is_an_error() {
    let mut sw = set_enabled(true, Ok(1)).unwrap();
    assert_eq!(sw.visit(Ok(1)).unwrap(), true);
    assert!(sw.applied(Ok(1)).is_ok());
    assert_eq!(sw.visit(Ok(1)).unwrap(), true);
    assert_eq!(
        os_text(sw.applied(Ok(2))),
        "SetStateAsync: radio access not allowed: RadioAccessStatus(2)"
    );
    assert_eq!(
        os_text(sw.applied(Err("busy".to_string()))),
        "SetStateAsync: busy"
    );
    assert_eq!(sw.radios, vec![(1, true), (1, false)]);
    assert_eq!(
        os_text(sw.finish()),
        "SetStateAsync: not every Wi-Fi radio was switched"
    );
}

#[test]
fn radio_switch_skipped_radio_is_an_error() {
    let mut sw = set_enabled(false, Ok(1)).unwrap();
    assert_eq!(sw.visit(Ok(1)).unwrap(), true);
    assert_eq!(sw.visit(Ok(1)).unwrap(), true);
    assert!(sw.applied(Ok(1)).is_ok());
    assert_eq!(sw.radios, vec![(1, false), (1, true)]);
    assert!(sw.finish().is_err());
    // An allowed status with no Wi-Fi radio awaiting confirmation changes nothing.
    assert_eq!(sw.visit(Ok(3)).unwrap(), false);
    assert!(sw.applied(Ok(1)).is_ok());
    assert_eq!(sw.radios, vec![(1, false), (1, true), (3, false)]);
}

#[test]
fn mac_address_rendering() {
    let bytes = [0x00, 0x1A, 0x2B, 0x3C, 0x4D, 0x5E, 0x6F, 0x70];
    assert_eq!(mac_address(&bytes, 6).as_deref(), Some("00:1A:2B:3C:4D:5E"));
    assert_eq!(mac_address(&bytes, 8).as_deref(), Some("00:1A:2B:3C:4D:5E"));
    assert_eq!(mac_address(&bytes, 5), None);
    assert_eq!(mac_address(&bytes, 0), None);
}

fn some(s: &str) -> Option<String> {
    Some(s.to_string())
}

fn adapter(name: &str) -> AdapterInfo {
    AdapterInfo {
        name: name.to_string(),
        physical_address: [0xAA, 0xBB, 0xCC, 0xDD, 0xEE, 0xFF, 0, 0],
        physical_address_length: 6,
        unicast: vec![some("192.168.1.20"), None, some("fe80::1"), some("10.0.0.2")],
        gateways: vec![None, some("192.168.1.1"), some("192.168.1.254")],
        dns: vec![some("1.1.1.1"), None, some("2606:4700:4700::1111")],
    }
}

#[test]
fn ip_config_from_adapter() {
    let c = ip_config_of(&adapter("x"));
    assert_eq!(c.mac.as_deref(), Some("AA:BB:CC:DD:EE:FF"));
    assert_eq!(c.ipv4, vec!["192.168.1.20".to_string(), "10.0.0.2".to_string()]);
    assert_eq!(c.ipv6, vec!["fe80::1".to_string()]);
    assert_eq!(c.gateway.as_deref(), Some("192.168.1.1"));
    assert_eq!(c.dns, vec!["1.1.1.1".to_string(), "2606:4700:4700::1111".to_string()]);
}

#[test]
fn ip_config_of_bare_adapter() {
    let mut a = adapter("x");
    a.physical_address_length = 0;
    a.unicast = vec![None];
    a.gateways = Vec::new();
    a.dns = Vec::new();
    let c = ip_config_of(&a);
    assert_eq!(c, IpConfig::default());
}

#[test]
fn ip_config_matches_adapter_by_guid_name() {
    let g = Guid { data1: 0xABCDEF01, data2: 0x2345, data3: 0x6789, data4: [0xAB; 8] };
    let mut other = adapter("{00000000-0000-0000-0000-000000000000}");
    other.dns = Vec::new();
    let mine = adapter("{abcdef01-2345-6789-abab-abababababab}");
    let adapters = vec![other, mine];
    let c = read_ip_config(&adapters, &g).unwrap();
    assert_eq!(c.dns.len(), 2);
    assert!(matches!(read_ip_config(&adapters[..1].to_vec_owned(), &g), Err(WifiError::NotFound)));
    assert!(matches!(read_ip_config(&Vec::new(), &g), Err(WifiError::NotFound)));
}

trait OwnedAdapters {
    fn to_vec_owned(&self) -> Vec<AdapterInfo>;
}

impl OwnedAdapters for [AdapterInfo] {
    fn to_vec_owned(&self) -> Vec<AdapterInfo> {
        self.iter()
            .map(|a| AdapterInfo {
                name: a.name.clone(),
                physical_address: a.physical_address,
                physical_address_length: a.physical_address_length,
                unicast: a.unicast.clone(),
                gateways: a.gateways.clone(),
                dns: a.dns.clone(),
            })
            .collect()
    }
}

#[test]
fn adapter_buffer_size() {
    assert!(adapter_buffer_check(1).is_ok());
    assert_eq!(
        os_text(adapter_buffer_check(0)),
        "GetAdaptersAddresses returned zero size"
    );
}

fn req() -> ConnectRequest {
    ConnectRequest { ssid: "n".into(), credentials: Credentials::Open, hidden: false, bssid: None }
}

#[test]
fn dummy_backend_reports_unsupported() {
    let msg = "no native Wi-Fi backend for this OS";
    assert!(matches!(DummyWifi::new(), Err(WifiError::PlatformNotSupported(m)) if m == msg));
    let d = DummyWifi;
    assert!(matches!(d.available_networks(), Err(WifiError::PlatformNotSupported(m)) if m == msg));
    assert!(matches!(d.request_scan(), Err(WifiError::PlatformNotSupported(m)) if m == msg));
    assert!(matches!(d.ip_config(), Err(WifiError::PlatformNotSupported(m)) if m == msg));
    assert!(matches!(d.connectivity(), Err(WifiError::PlatformNotSupported(m)) if m == msg));
    assert!(matches!(d.saved_networks(), Err(WifiError::PlatformNotSupported(m)) if m == msg));
    assert!(matches!(d.forget("x"), Err(WifiError::PlatformNotSupported(m)) if m == msg));
    assert!(matches!(d.is_enabled(), Err(WifiError::PlatformNotSupported(m)) if m == msg));
    assert!(matches!(d.set_enabled(true), Err(WifiError::PlatformNotSupported(m)) if m == msg));
    assert!(matches!(d.subscribe(), WifiError::PlatformNotSupported(m) if m == msg));
    assert!(matches!(d.interfaces(), Err(WifiError::PlatformNotSupported(m)) if m == msg));
    assert!(matches!(d.scan(), Err(WifiError::PlatformNotSupported(m)) if m == msg));
    assert!(matches!(d.connect(&req()), Err(WifiError::PlatformNotSupported(m)) if m == msg));
    assert!(matches!(d.disconnect(), Err(WifiError::PlatformNotSupported(m)) if m == msg));
    assert!(matches!(d.status(), Err(WifiError::PlatformNotSupported(m)) if m == msg));
}

#[test]
fn linux_backend_reports_unimplemented() {
    let l = LinuxWifi::new().unwrap();
    assert!(matches!(l.interfaces(), Err(WifiError::Unimplemented("linux: interfaces (NM GetDevices)"))));
    assert!(matches!(l.scan(), Err(WifiError::Unimplemented("linux: scan (NM RequestScan)"))));
    assert!(matches!(
        l.connect(&req()),
        Err(WifiError::Unimplemented("linux: connect (NM AddAndActivateConnection)"))
    ));
    assert!(matches!(
        l.disconnect(),
        Err(WifiError::Unimplemented("linux: disconnect (NM Device.Disconnect)"))
    ));
    assert!(matches!(l.status(), Err(WifiError::Unimplemented("linux: status (NM device State)"))));
}

#[test]
fn credentials_redacted() {
    assert_eq!(Credentials::Open.redacted(), "Credentials::None");
    assert_eq!(Credentials::Psk("hunter2".into()).redacted(), "Credentials::Psk(***)");
    assert_eq!(
        Credentials::Enterprise { identity: "bob\"x".into(), password: "pw".into() }.redacted(),
        "Credentials::Enterprise { identity: \"bob\\\"x\", password: *** }"
    );
    assert_eq!(Credentials::Saved.redacted(), "Credentials::Saved");
    assert!(!Credentials::Psk("hunter2".into()).redacted().contains("hunter2"));
}

#[test]
fn error_messages() {
    assert_eq!(WifiError::PlatformNotSupported("x").message(), "Platform not supported: x");
    assert_eq!(WifiError::Unimplemented("scan").message(), "Not implemented: scan");
    assert_eq!(WifiError::NotFound.message(), "Not found");
    assert_eq!(WifiError::InvalidArgument("bssid").message(), "Invalid argument: bssid");
    assert_eq!(WifiError::AuthFailed.message(), "Authentication failed");
    assert_eq!(WifiError::OsApi("WlanScan: WIN32_ERROR 5".into()).message(), "OS API error: WlanScan: WIN32_ERROR 5");
    assert_eq!(WifiError::Other("plain".into()).message(), "plain");
}

#[test]
fn ip_config_default_is_empty() {
    let c = IpConfig::default();
    assert!(c.mac.is_none() && c.ipv4.is_empty() && c.ipv6.is_empty());
    assert!(c.gateway.is_none() && c.dns.is_empty());
}

#[test]
fn radio_switch_then_read_back() {
    for on in [true, false] {
        let mut sw = set_enabled(on, Ok(1)).unwrap();
        let kinds = [3, 1, 2, 1];
        let mut readings = Vec::new();
        for k in kinds {
            let is_wifi = sw.visit(Ok(k)).unwrap();
            if is_wifi {
                sw.applied(Ok(1)).unwrap();
            }
            // The OS applied the switch's target to each confirmed Wi-Fi radio.
            readings.push(reading(Ok(k), if is_wifi { Some(Ok(sw.target)) } else { None }));
        }
        assert!(sw.finish().is_ok());
        assert_eq!(is_enabled(&Ok(readings)).unwrap(), on);
    }
}
