use wifi::conv::{
    check, guid_to_string, inner_text, security_from, security_from_profile_xml, ssid_to_string,
    state_from, wide_to_string, Dot11Ssid, Guid,
};
use wifi::types::{ConnectionState, Security, WifiError};

fn os_text(e: WifiError) -> String {
    match e {
        WifiError::OsApi(m) => m,
        other => panic!("expected OsApi, got {other:?}"),
    }
}

#[test]
fn check_success_is_ok() {
    assert!(check("WlanOpenHandle", 0).is_ok());
}

#[test]
fn check_failure_names_call_and_code() {
    assert_eq!(os_text(check("WlanScan", 5).unwrap_err()), "WlanScan: WIN32_ERROR 5");
    assert_eq!(
        os_text(check("WlanEnumInterfaces", 1168).unwrap_err()),
        "WlanEnumInterfaces: WIN32_ERROR 1168"
    );
    assert_eq!(
        os_text(check("X", u32::MAX).unwrap_err()),
        "X: WIN32_ERROR 4294967295"
    );
}

#[test]
fn wide_to_string_stops_at_first_nul() {
    assert_eq!(wide_to_string(&[72, 105, 0, 88, 0]), "Hi");
    assert_eq!(wide_to_string(&[65, 66]), "AB");
    assert_eq!(wide_to_string(&[0, 65]), "");
    assert_eq!(wide_to_string(&[]), "");
}

#[test]
fn wide_to_string_decodes_utf16() {
    // A surrogate pair decodes to one character; a lone surrogate is replaced.
    assert_eq!(wide_to_string(&[0xD83D, 0xDE00, 0]), "\u{1F600}");
    assert_eq!(wide_to_string(&[0xD800, 0x41, 0]), "\u{FFFD}A");
    assert_eq!(wide_to_string(&[0x00E9, 0]), "é");
}

#[test]
fn wide_to_string_agrees_with_std_decoding() {
    let cases: [&[u16]; 7] = [
        &[0xDC00, 0x41],
        &[0x41, 0xD83D],
        &[0xD83D, 0xD83D, 0xDE00],
        &[0xDBFF, 0xDFFF, 0xE000, 0xFFFF],
        &[0xD800, 0xDC00],
        &[0xDE00, 0xD83D],
        &[0x7A, 0x20AC, 0xD834, 0xDD1E],
    ];
    for units in cases {
        let mut with_nul = units.to_vec();
        with_nul.push(0);
        assert_eq!(wide_to_string(&with_nul), String::from_utf16_lossy(units));
    }
}

fn ssid(len: u32, text: &[u8]) -> Dot11Ssid {
    let mut bytes = [0u8; 32];
    bytes[..text.len()].copy_from_slice(text);
    Dot11Ssid { length: len, bytes }
}

#[test]
fn ssid_to_string_uses_length_prefix() {
    assert_eq!(ssid_to_string(&ssid(3, b"abcdef")), "abc");
    assert_eq!(ssid_to_string(&ssid(0, b"abcdef")), "");
    let full = ssid(40, b"0123456789abcdefghijklmnopqrstuv");
    assert_eq!(ssid_to_string(&full), "0123456789abcdefghijklmnopqrstuv");
}

#[test]
fn ssid_to_string_is_lossy_utf8() {
    assert_eq!(ssid_to_string(&ssid(2, &[0xFF, b'a'])), "\u{FFFD}a");
    assert_eq!(ssid_to_string(&ssid(4, "Café".as_bytes())), "Caf\u{FFFD}");
    assert_eq!(ssid_to_string(&ssid(5, "Café".as_bytes())), "Café");
}

#[test]
fn guid_to_string_is_canonical_upper_case() {
    let g = Guid {
        data1: 0x1234_5678,
        data2: 0x9ABC,
        data3: 0xDEF0,
        data4: [0x01, 0x02, 0x03, 0x04, 0x05, 0x06, 0x07, 0xAB],
    };
    assert_eq!(guid_to_string(&g), "{12345678-9ABC-DEF0-0102-0304050607AB}");
    let zero = Guid { data1: 0, data2: 0, data3: 0, data4: [0; 8] };
    assert_eq!(guid_to_string(&zero), "{00000000-0000-0000-0000-000000000000}");
    let max = Guid { data1: u32::MAX, data2: u16::MAX, data3: u16::MAX, data4: [0xFF; 8] };
    assert_eq!(guid_to_string(&max), "{FFFFFFFF-FFFF-FFFF-FFFF-FFFFFFFFFFFF}");
}

#[test]
fn guid_to_string_distinguishes_guids() {
    let a = Guid { data1: 1, data2: 0, data3: 0, data4: [0; 8] };
    let b = Guid { data1: 0, data2: 0, data3: 0, data4: [0, 0, 0, 0, 0, 0, 0, 1] };
    assert_ne!(guid_to_string(&a), guid_to_string(&b));
    assert_eq!(guid_to_string(&a).len(), 38);
}

#[test]
fn state_from_maps_interface_states() {
    assert_eq!(state_from(1), ConnectionState::Connected);
    assert_eq!(state_from(3), ConnectionState::Disconnecting);
    assert_eq!(state_from(5), ConnectionState::Connecting);
    assert_eq!(state_from(6), ConnectionState::Connecting);
    assert_eq!(state_from(7), ConnectionState::Connecting);
    assert_eq!(state_from(0), ConnectionState::Disconnected);
    assert_eq!(state_from(2), ConnectionState::Disconnected);
    assert_eq!(state_from(4), ConnectionState::Disconnected);
    assert_eq!(state_from(-1), ConnectionState::Disconnected);
}

#[test]
fn security_from_maps_auth_algorithms() {
    assert_eq!(security_from(false, 7), Security::Open);
    assert_eq!(security_from(false, 0), Security::Open);
    for a in [4, 7, 9] {
        assert_eq!(security_from(true, a), Security::Psk);
    }
    for a in [3, 6, 8, 11] {
        assert_eq!(security_from(true, a), Security::Enterprise);
    }
    for a in [1, 2] {
        assert_eq!(security_from(true, a), Security::Wep);
    }
    for a in [0, 5, 10, 12, -1] {
        assert_eq!(security_from(true, a), Security::Unknown);
    }
}

fn profile_with(auth: &str) -> String {
    format!("<WLANProfile><MSM><security><authEncryption><authentication>{auth}</authentication></authEncryption></security></MSM></WLANProfile>")
}

#[test]
fn profile_xml_security_tokens() {
    assert_eq!(security_from_profile_xml(&profile_with("open")), Security::Open);
    assert_eq!(security_from_profile_xml(&profile_with("WEP")), Security::Wep);
    assert_eq!(security_from_profile_xml(&profile_with("shared")), Security::Wep);
    assert_eq!(security_from_profile_xml(&profile_with("WPA2PSK")), Security::Psk);
    assert_eq!(security_from_profile_xml(&profile_with("WPAPSK")), Security::Psk);
    assert_eq!(security_from_profile_xml(&profile_with("wpa3sae")), Security::Psk);
    assert_eq!(security_from_profile_xml(&profile_with("WPA2")), Security::Enterprise);
    assert_eq!(security_from_profile_xml(&profile_with("WPA3ENT")), Security::Enterprise);
    assert_eq!(security_from_profile_xml(&profile_with("WPA")), Security::Enterprise);
    assert_eq!(security_from_profile_xml(&profile_with("OWE")), Security::Unknown);
    assert_eq!(security_from_profile_xml(&profile_with("")), Security::Unknown);
}

#[test]
fn profile_xml_token_is_trimmed() {
    assert_eq!(security_from_profile_xml(&profile_with("  WPA2PSK\n\t")), Security::Psk);
    assert_eq!(security_from_profile_xml(&profile_with(" open ")), Security::Open);
}

#[test]
fn profile_xml_without_authentication_is_unknown() {
    assert_eq!(security_from_profile_xml("<WLANProfile></WLANProfile>"), Security::Unknown);
    assert_eq!(security_from_profile_xml("<authentication>open"), Security::Unknown);
    assert_eq!(security_from_profile_xml(""), Security::Unknown);
}

#[test]
fn inner_text_reads_first_element() {
    assert_eq!(inner_text("<a> hi </a>", "a").as_deref(), Some("hi"));
    assert_eq!(inner_text("<b><a>1</a><a>2</a></b>", "a").as_deref(), Some("1"));
    assert_eq!(inner_text("<a></a>", "a").as_deref(), Some(""));
    assert_eq!(inner_text("<a>x", "a"), None);
    assert_eq!(inner_text("x</a>", "a"), None);
    // The closing tag is searched for after the opening one only.
    assert_eq!(inner_text("</a><a>z</a>", "a").as_deref(), Some("z"));
    assert_eq!(inner_text("<name>\u{2003}Café\u{2003}</name>", "name").as_deref(), Some("Café"));
}
