use wifi::conv::security_from_profile_xml;
use wifi::profile::{escape, open_security, profile_xml, psk_security};
use wifi::types::{Credentials, Security};

#[test]
fn escape_replaces_the_five_specials() {
    assert_eq!(escape("a<b>&\"'c"), "a&lt;b&gt;&amp;&quot;&apos;c");
    assert_eq!(escape("plain"), "plain");
    assert_eq!(escape(""), "");
    assert_eq!(escape("&amp;"), "&amp;amp;");
}

#[test]
fn escape_output_has_no_markup() {
    let e = escape("<x y='1' z=\"2\">&</x>");
    assert!(!e.contains('<') && !e.contains('>') && !e.contains('"') && !e.contains('\''));
}

#[test]
fn escape_keeps_distinct_texts_distinct() {
    assert_ne!(escape("&amp;"), escape("&"));
    assert_ne!(escape("&lt;"), escape("<"));
}

#[test]
fn open_security_section() {
    assert_eq!(
        open_security(),
        "<authEncryption><authentication>open</authentication><encryption>none</encryption><useOneX>false</useOneX></authEncryption>"
    );
}

#[test]
fn psk_security_section() {
    assert_eq!(
        psk_security("k&amp;y", false),
        "<authEncryption><authentication>WPA2PSK</authentication><encryption>AES</encryption><useOneX>false</useOneX></authEncryption><sharedKey><keyType>passPhrase</keyType><protected>false</protected><keyMaterial>k&amp;y</keyMaterial></sharedKey>"
    );
    assert!(psk_security("k", true).contains("<authentication>WPA3SAE</authentication>"));
}

#[test]
fn profile_xml_open_document() {
    let xml = profile_xml("Home", &Credentials::Open, false);
    assert_eq!(
        xml,
        "<?xml version=\"1.0\"?>\n<WLANProfile xmlns=\"http://www.microsoft.com/networking/WLAN/profile/v1\">\n  <name>Home</name>\n  <SSIDConfig><SSID><name>Home</name></SSID></SSIDConfig>\n  <connectionType>ESS</connectionType>\n  <connectionMode>auto</connectionMode>\n  <MSM><security><authEncryption><authentication>open</authentication><encryption>none</encryption><useOneX>false</useOneX></authEncryption></security></MSM>\n</WLANProfile>"
    );
}

#[test]
fn profile_xml_psk_document_escapes_name_and_key() {
    let xml = profile_xml("Café & <Bar>", &Credentials::Psk("p<a>ss".to_string()), true);
    assert!(xml.contains("<name>Café &amp; &lt;Bar&gt;</name>"));
    assert!(xml.contains("<keyMaterial>p&lt;a&gt;ss</keyMaterial>"));
    assert!(xml.contains("<authentication>WPA3SAE</authentication>"));
    assert!(!xml.contains("<Bar>"));
}

#[test]
fn profile_xml_ignores_wpa3_for_non_psk() {
    assert_eq!(
        profile_xml("N", &Credentials::Open, true),
        profile_xml("N", &Credentials::Open, false)
    );
    assert_eq!(
        profile_xml("N", &Credentials::Saved, true),
        profile_xml("N", &Credentials::Open, false)
    );
}

#[test]
fn staged_profile_reads_back_as_its_security() {
    for wpa3 in [false, true] {
        let psk = Credentials::Psk("secret".to_string());
        assert_eq!(security_from_profile_xml(&profile_xml("Home", &psk, wpa3)), Security::Psk);
        assert_eq!(
            security_from_profile_xml(&profile_xml("Home", &Credentials::Open, wpa3)),
            Security::Open
        );
        let ent = Credentials::Enterprise { identity: "i".into(), password: "p".into() };
        assert_eq!(security_from_profile_xml(&profile_xml("Home", &ent, wpa3)), Security::Open);
        assert_eq!(
            security_from_profile_xml(&profile_xml("Home", &Credentials::Saved, wpa3)),
            Security::Open
        );
    }
}

#[test]
fn staged_profile_reads_back_whatever_the_ssid_says() {
    let tricky = "<authentication>open</authentication>";
    let psk = Credentials::Psk("</authentication>WEP".to_string());
    assert_eq!(security_from_profile_xml(&profile_xml(tricky, &psk, false)), Security::Psk);
    assert_eq!(
        security_from_profile_xml(&profile_xml("<authentication>WPA2PSK", &Credentials::Open, false)),
        Security::Open
    );
}

#[test]
fn escape_is_character_by_character() {
    assert_eq!(escape("a<b&c"), format!("{}{}", escape("a<"), escape("b&c")));
    assert_eq!(escape("Home Wi-Fi 5G"), "Home Wi-Fi 5G");
}
