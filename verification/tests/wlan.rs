use wifi::conv::{security_from_profile_xml, Dot11Ssid, Guid};
use wifi::profile::profile_xml;
use wifi::types::{
    ConnectRequest, ConnectionState, Credentials, Security, WifiError, WifiEvent,
};
use wifi::wlan::{
    auth_algo_for, connect_notification, connect_poll, connect_precheck, connect_profile,
    event_from_notification, forget_result, interfaces_from, is_security_reason,
    map_connect_reason, networks_from, primary_guid, profile_names, saved_networks_from,
    scan_finished, scan_wait_over, status_from, AvailableNetwork, ConnectPoll,
    ConnectionAttributes, InterfaceInfo, ScanPoll,
};

const ACM: u32 = 8;
const MSM: u32 = 16;

fn os_text<T: std::fmt::Debug>(r: Result<T, WifiError>) -> String {
    match r {
        Err(WifiError::OsApi(m)) => m,
        other => panic!("expected OsApi, got {other:?}"),
    }
}

fn ssid(text: &str) -> Dot11Ssid {
    let mut bytes = [0u8; 32];
    bytes[..text.len()].copy_from_slice(text.as_bytes());
    Dot11Ssid { length: text.len() as u32, bytes }
}

fn wide(text: &str) -> Vec<u16> {
    let mut v: Vec<u16> = text.encode_utf16().collect();
    v.resize(256, 0);
    v
}

fn request(ssid: &str, credentials: Credentials) -> ConnectRequest {
    ConnectRequest { ssid: ssid.to_string(), credentials, hidden: false, bssid: None }
}

#[test]
fn scan_finishes_on_complete_or_fail() {
    assert!(scan_finished(ACM, 7));
    assert!(scan_finished(ACM, 8));
    assert!(!scan_finished(ACM, 9));
    assert!(!scan_finished(MSM, 7));
}

#[test]
fn acm_notifications_become_events() {
    assert_eq!(event_from_notification(ACM, 7, None), Some(WifiEvent::ScanComplete));
    assert_eq!(
        event_from_notification(ACM, 9, None),
        Some(WifiEvent::StateChanged(ConnectionState::Connecting))
    );
    assert_eq!(
        event_from_notification(ACM, 10, None),
        Some(WifiEvent::StateChanged(ConnectionState::Connected))
    );
    assert_eq!(
        event_from_notification(ACM, 11, None),
        Some(WifiEvent::StateChanged(ConnectionState::Failed))
    );
    assert_eq!(
        event_from_notification(ACM, 20, None),
        Some(WifiEvent::StateChanged(ConnectionState::Disconnecting))
    );
    assert_eq!(
        event_from_notification(ACM, 21, None),
        Some(WifiEvent::StateChanged(ConnectionState::Disconnected))
    );
    assert_eq!(event_from_notification(ACM, 8, None), None);
    assert_eq!(event_from_notification(ACM, 13, Some(5)), None);
}

#[test]
fn signal_notifications_are_capped() {
    assert_eq!(event_from_notification(MSM, 8, Some(57)), Some(WifiEvent::SignalChanged(57)));
    assert_eq!(event_from_notification(MSM, 8, Some(100)), Some(WifiEvent::SignalChanged(100)));
    assert_eq!(event_from_notification(MSM, 8, Some(300)), Some(WifiEvent::SignalChanged(100)));
    assert_eq!(event_from_notification(MSM, 8, None), None);
    assert_eq!(event_from_notification(MSM, 7, Some(10)), None);
    assert_eq!(event_from_notification(2, 8, Some(10)), None);
}

#[test]
fn security_reason_band() {
    assert!(!is_security_reason(0x3FFFF));
    assert!(is_security_reason(0x40000));
    assert!(is_security_reason(0x48014));
    assert!(is_security_reason(0x4FFFF));
    assert!(!is_security_reason(0x50000));
    assert!(!is_security_reason(0));
}

#[test]
fn connect_notifications_forwarded() {
    assert_eq!(connect_notification(ACM, 10, Some(0)), Some(0));
    assert_eq!(connect_notification(ACM, 10, None), Some(0));
    assert_eq!(connect_notification(ACM, 10, Some(0x30001)), Some(0x30001));
    assert_eq!(connect_notification(ACM, 11, Some(0x48014)), Some(0x48014));
    assert_eq!(connect_notification(ACM, 11, Some(0x30001)), None);
    assert_eq!(connect_notification(ACM, 11, None), None);
    assert_eq!(connect_notification(ACM, 9, Some(0)), None);
    assert_eq!(connect_notification(MSM, 10, Some(0)), None);
}

#[test]
fn connect_reason_outcomes() {
    assert!(map_connect_reason(0).is_ok());
    assert!(matches!(map_connect_reason(0x48014), Err(WifiError::AuthFailed)));
    assert_eq!(os_text(map_connect_reason(0x30001)), "connect failed: WLAN reason 0x30001");
    assert_eq!(os_text(map_connect_reason(0xABC)), "connect failed: WLAN reason 0xABC");
    assert_eq!(os_text(map_connect_reason(1)), "connect failed: WLAN reason 0x1");
}

#[test]
fn connect_poll_outcomes() {
    assert!(matches!(connect_poll(ConnectPoll::Reason(0)), Some(Ok(()))));
    assert!(matches!(connect_poll(ConnectPoll::Reason(0x48014)), Some(Err(WifiError::AuthFailed))));
    assert_eq!(
        os_text(connect_poll(ConnectPoll::ChannelClosed).unwrap()),
        "connect: notification channel closed"
    );
    assert_eq!(
        os_text(connect_poll(ConnectPoll::Waiting { deadline_passed: true }).unwrap()),
        "connect: timed out"
    );
    assert!(connect_poll(ConnectPoll::Waiting { deadline_passed: false }).is_none());
}

#[test]
fn scan_wait_outcomes() {
    assert!(scan_wait_over(ScanPoll::Signalled));
    assert!(scan_wait_over(ScanPoll::ChannelClosed));
    assert!(scan_wait_over(ScanPoll::Waiting { deadline_passed: true }));
    assert!(!scan_wait_over(ScanPoll::Waiting { deadline_passed: false }));
}

#[test]
fn connect_precheck_by_credentials() {
    let ent = Credentials::Enterprise { identity: "i".into(), password: "p".into() };
    match connect_precheck(&request("N", ent)) {
        Err(WifiError::Unimplemented(m)) => assert_eq!(m, "windows: enterprise connect"),
        _ => panic!("enterprise must be refused"),
    }
    assert_eq!(connect_precheck(&request("N", Credentials::Saved)).unwrap(), false);
    assert_eq!(connect_precheck(&request("N", Credentials::Open)).unwrap(), true);
    assert_eq!(connect_precheck(&request("N", Credentials::Psk("k".into()))).unwrap(), true);
}

#[test]
fn connect_profile_follows_advertised_algorithm() {
    let req = request("Net", Credentials::Psk("k".into()));
    assert_eq!(connect_profile(&req, Some(9)), profile_xml("Net", &req.credentials, true));
    assert_eq!(connect_profile(&req, Some(4)), profile_xml("Net", &req.credentials, false));
    assert_eq!(connect_profile(&req, None), profile_xml("Net", &req.credentials, false));
    assert!(connect_profile(&req, Some(9)).contains("WPA3SAE"));
    assert!(connect_profile(&req, None).contains("WPA2PSK"));
}

#[test]
fn interfaces_are_mapped_in_order() {
    let g1 = Guid { data1: 1, data2: 2, data3: 3, data4: [4, 5, 6, 7, 8, 9, 10, 11] };
    let g2 = Guid { data1: 0xA, data2: 0, data3: 0, data4: [0; 8] };
    let infos = vec![
        InterfaceInfo { guid: g1, description: wide("Intel Wi-Fi 6 AX201"), state: 1 },
        InterfaceInfo { guid: g2, description: wide("USB"), state: 6 },
    ];
    let out = interfaces_from(&infos);
    assert_eq!(out.len(), 2);
    assert_eq!(out[0].id, "{00000001-0002-0003-0405-060708090A0B}");
    assert_eq!(out[0].description, "Intel Wi-Fi 6 AX201");
    assert_eq!(out[0].state, ConnectionState::Connected);
    assert_eq!(out[1].description, "USB");
    assert_eq!(out[1].state, ConnectionState::Connecting);
    assert_eq!(primary_guid(&infos).unwrap(), g1);
    assert!(matches!(primary_guid(&Vec::new()), Err(WifiError::NotFound)));
}

#[test]
fn status_of_unconnected_interface() {
    let s = status_from(None);
    assert_eq!(s.state, ConnectionState::Disconnected);
    assert_eq!(s.ssid, None);
    assert_eq!(s.signal, None);
}

#[test]
fn status_of_connected_interface() {
    let s = status_from(Some(ConnectionAttributes { state: 1, ssid: ssid("Home"), signal_quality: 88 }));
    assert_eq!(s.state, ConnectionState::Connected);
    assert_eq!(s.ssid.as_deref(), Some("Home"));
    assert_eq!(s.signal, Some(88));
    let hidden = status_from(Some(ConnectionAttributes { state: 5, ssid: ssid(""), signal_quality: 300 }));
    assert_eq!(hidden.state, ConnectionState::Connecting);
    assert_eq!(hidden.ssid, None);
    assert_eq!(hidden.signal, Some(100));
}

fn entry(name: &str, q: u32, secured: bool, algo: i32, flags: u32) -> AvailableNetwork {
    AvailableNetwork {
        ssid: ssid(name),
        signal_quality: q,
        security_enabled: secured,
        auth_algorithm: algo,
        flags,
    }
}

#[test]
fn networks_deduplicated_keeping_strongest() {
    let list = vec![
        entry("Alpha", 40, true, 7, 0),
        entry("Beta", 10, true, 3, 2),
        entry("", 99, false, 1, 0),
        entry("Alpha", 70, false, 1, 2),
        entry("Alpha", 70, true, 9, 0),
        entry("Beta", 5, false, 1, 0),
    ];
    let nets = networks_from(&list);
    assert_eq!(nets.len(), 2);
    assert_eq!(nets[0].ssid, "Alpha");
    assert_eq!(nets[0].signal, Some(70));
    assert_eq!(nets[0].security, Security::Open);
    assert!(nets[0].saved);
    assert_eq!(nets[0].bssid, None);
    assert_eq!(nets[0].frequency_mhz, None);
    assert_eq!(nets[1].ssid, "Beta");
    assert_eq!(nets[1].signal, Some(10));
    assert_eq!(nets[1].security, Security::Enterprise);
    assert!(nets[1].saved);
}

#[test]
fn networks_of_empty_or_hidden_lists() {
    assert!(networks_from(&Vec::new()).is_empty());
    assert!(networks_from(&vec![entry("", 50, false, 1, 0)]).is_empty());
}

#[test]
fn auth_algorithm_of_first_matching_entry() {
    let list = vec![entry("A", 10, true, 4, 0), entry("B", 10, true, 9, 0), entry("B", 90, true, 7, 0)];
    assert_eq!(auth_algo_for(&list, "B"), Some(9));
    assert_eq!(auth_algo_for(&list, "A"), Some(4));
    assert_eq!(auth_algo_for(&list, "C"), None);
    assert_eq!(auth_algo_for(&Vec::new(), "A"), None);
}

#[test]
fn profile_names_are_decoded() {
    let names = profile_names(&vec![wide("Home"), wide("Café")]);
    assert_eq!(names, vec!["Home".to_string(), "Café".to_string()]);
}

#[test]
fn saved_networks_rank_and_classify() {
    let names = vec!["Home".to_string(), "Cafe".to_string(), "Work".to_string()];
    let xmls = vec![
        Some(profile_xml("Home", &Credentials::Psk("k".into()), false)),
        None,
        Some("<not-a-profile/>".to_string()),
    ];
    let saved = saved_networks_from(&names, &xmls);
    assert_eq!(saved.len(), 3);
    assert_eq!(saved[0].ssid, "Home");
    assert_eq!(saved[0].security, Security::Psk);
    assert_eq!(saved[0].priority, Some(3));
    assert_eq!(saved[1].security, Security::Unknown);
    assert_eq!(saved[1].priority, Some(2));
    assert_eq!(saved[2].ssid, "Work");
    assert_eq!(saved[2].security, Security::Unknown);
    assert_eq!(saved[2].priority, Some(1));
    assert!(saved_networks_from(&Vec::new(), &Vec::new()).is_empty());
    assert_eq!(
        security_from_profile_xml(xmls[0].as_ref().unwrap()),
        Security::Psk
    );
}

#[test]
fn forget_outcomes() {
    assert!(forget_result(0).is_ok());
    assert!(matches!(forget_result(1168), Err(WifiError::NotFound)));
    assert_eq!(os_text(forget_result(5)), "WlanDeleteProfile: WIN32_ERROR 5");
}

#[test]
fn forwarded_attempt_fail_ends_as_auth_failure() {
    let r = connect_notification(ACM, 11, Some(0x48014)).unwrap();
    assert!(matches!(map_connect_reason(r), Err(WifiError::AuthFailed)));
    assert!(matches!(connect_poll(ConnectPoll::Reason(r)), Some(Err(WifiError::AuthFailed))));
}

#[test]
fn in_range_signals_pass_through() {
    for q in [0u32, 1, 57, 100] {
        let s = status_from(Some(ConnectionAttributes { state: 1, ssid: ssid("N"), signal_quality: q }));
        assert_eq!(s.signal, Some(q as u8));
        let n = networks_from(&vec![entry("N", q, false, 1, 0)]);
        assert_eq!(n[0].signal, Some(q as u8));
    }
}

#[test]
fn out_of_range_signals_are_capped() {
    for q in [101u32, 200, 256, 300, u32::MAX] {
        let s = status_from(Some(ConnectionAttributes { state: 1, ssid: ssid("N"), signal_quality: q }));
        assert_eq!(s.signal, Some(100));
        let n = networks_from(&vec![entry("N", q, false, 1, 0)]);
        assert_eq!(n[0].signal, Some(100));
    }
}
