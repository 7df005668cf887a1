use globalprotect::config::VpnConfig;
use globalprotect::error::VpnError;
use globalprotect::json::{encode_config, parse_config};
use globalprotect::store::load_config_from;

fn record(
    portal: &str,
    username: &str,
    password: Option<&str>,
    notifications_enabled: Option<bool>,
    auto_connect: Option<bool>,
) -> VpnConfig {
    VpnConfig {
        portal: portal.to_string(),
        username: username.to_string(),
        password: password.map(|p| p.to_string()),
        notifications_enabled,
        auto_connect,
    }
}

fn assert_round_trip(c: &VpnConfig) {
    let text = encode_config(c);
    let back = parse_config(&text).expect("encoded record must parse");
    assert_eq!(back.portal, c.portal);
    assert_eq!(back.username, c.username);
    assert_eq!(back.password, c.password);
    assert_eq!(back.notifications_enabled, c.notifications_enabled);
    assert_eq!(back.auto_connect, c.auto_connect);
}

#[test]
fn round_trip_full_record() {
    assert_round_trip(&record("p", "u", Some("s"), Some(false), Some(true)));
}

#[test]
fn round_trip_absent_options() {
    assert_round_trip(&record("vpn.example.com", "alice", None, None, None));
}

#[test]
fn round_trip_empty_and_whitespace_fields() {
    assert_round_trip(&record("", "   ", Some(""), Some(true), Some(false)));
}

#[test]
fn round_trip_escaped_characters() {
    assert_round_trip(&record(
        "a\"b\\c",
        "tab\there",
        Some("line\nbreak\r\u{1}\u{1f}end"),
        None,
        Some(true),
    ));
}

#[test]
fn round_trip_non_ascii_text() {
    assert_round_trip(&record("pörtal.example", "ユーザー", Some("pässwörd✓"), Some(true), None));
}

#[test]
fn encode_exact_text() {
    let c = record("p", "u", Some("s"), Some(false), Some(true));
    assert_eq!(
        encode_config(&c),
        "{\"portal\":\"p\",\"username\":\"u\",\"password\":\"s\",\"notifications_enabled\":false,\"auto_connect\":true}"
    );
}

#[test]
fn encode_writes_null_for_absent_options() {
    let c = record("p", "u", None, None, None);
    assert_eq!(
        encode_config(&c),
        "{\"portal\":\"p\",\"username\":\"u\",\"password\":null,\"notifications_enabled\":null,\"auto_connect\":null}"
    );
}

#[test]
fn parse_accepts_missing_optional_fields() {
    let c = parse_config("{\"portal\":\"p\",\"username\":\"u\"}").expect("must parse");
    assert_eq!(c.portal, "p");
    assert_eq!(c.username, "u");
    assert_eq!(c.password, None);
    assert_eq!(c.notifications_enabled, None);
    assert_eq!(c.auto_connect, None);
}

#[test]
fn parse_decodes_unicode_escape() {
    let c = parse_config("{\"portal\":\"\\u0041\\u007e\",\"username\":\"u\"}").expect("must parse");
    assert_eq!(c.portal, "A~");
}

#[test]
fn parse_decodes_short_escapes() {
    let c = parse_config("{\"portal\":\"a\\\"b\\\\c\\/d\\n\\t\\r\\b\\f\",\"username\":\"u\"}")
        .expect("must parse");
    assert_eq!(c.portal, "a\"b\\c/d\n\t\r\u{8}\u{c}");
}

#[test]
fn parse_rejects_malformed_text() {
    assert!(parse_config("").is_none());
    assert!(parse_config("not json").is_none());
    assert!(parse_config("{\"portal\":\"p\"}").is_none());
    assert!(parse_config("{\"portal\":\"p\",\"username\":\"u\"").is_none());
    assert!(parse_config("{\"portal\":\"p\",\"username\":\"u\"}trailing").is_none());
    assert!(parse_config("{\"portal\":\"p\",\"username\":\"u\",\"password\":12}").is_none());
    assert!(parse_config("{\"portal\":\"\\q\",\"username\":\"u\"}").is_none());
}

#[test]
fn load_absent_file_is_no_record() {
    let r = load_config_from(None);
    assert!(matches!(r, Ok(None)));
}

#[test]
fn load_present_file_decodes() {
    let c = record("vpn.example.com", "alice", Some("pw"), None, None);
    let text = encode_config(&c);
    let r = load_config_from(Some(&text)).expect("must load");
    let loaded = r.expect("record must be present");
    assert_eq!(loaded.portal, "vpn.example.com");
    assert_eq!(loaded.username, "alice");
    assert_eq!(loaded.password, Some("pw".to_string()));
}

#[test]
fn load_undecodable_file_is_parse_error() {
    let r = load_config_from(Some("{broken"));
    assert!(matches!(r, Err(VpnError::ConfigParse)));
}

#[test]
fn encoding_agrees_with_serde_json() {
    let c = record("vpn.example.com", "al\"ice", Some("p\nw\u{1}"), Some(true), None);
    let text = encode_config(&c);
    let v: serde_json::Value = serde_json::from_str(&text).expect("valid JSON");
    assert_eq!(v["portal"].as_str(), Some("vpn.example.com"));
    assert_eq!(v["username"].as_str(), Some("al\"ice"));
    assert_eq!(v["password"].as_str(), Some("p\nw\u{1}"));
    assert_eq!(v["notifications_enabled"].as_bool(), Some(true));
    assert!(v["auto_connect"].is_null());
}

#[test]
fn parsing_accepts_serde_json_escaping() {
    let tricky = "a\tb\u{3}\"q\\end";
    let encoded = serde_json::to_string(&serde_json::Value::String(tricky.to_string()))
        .expect("serializes");
    let text = format!(
        "{{\"portal\":{},\"username\":\"u\",\"password\":null,\"notifications_enabled\":false,\"auto_connect\":true}}",
        encoded
    );
    let c = parse_config(&text).expect("must parse");
    assert_eq!(c.portal, tricky);
    assert_eq!(c.username, "u");
    assert_eq!(c.password, None);
    assert_eq!(c.notifications_enabled, Some(false));
    assert_eq!(c.auto_connect, Some(true));
}
