use xray_bridge::config::{ConfigError, Settings};
use xray_bridge::text::parse_u16;

#[test]
fn settings_need_a_token() {
    assert_eq!(Settings::from_vars(None, None).unwrap_err(), ConfigError::MissingBridgeToken);
    assert_eq!(
        Settings::from_vars(Some(String::new()), Some("9000".to_owned())).unwrap_err(),
        ConfigError::EmptyBridgeToken
    );
    assert_eq!(
        ConfigError::MissingBridgeToken.message(),
        "BRIDGE_TOKEN environment variable is required"
    );
    assert_eq!(ConfigError::EmptyBridgeToken.message(), "BRIDGE_TOKEN must not be empty");
}

#[test]
fn port_defaults_to_8080() {
    let s = Settings::from_vars(Some("t".to_owned()), None).unwrap();
    assert_eq!((s.bridge_token.as_str(), s.port), ("t", 8080));
    let s = Settings::from_vars(Some("t".to_owned()), Some("9000".to_owned())).unwrap();
    assert_eq!(s.port, 9000);
    let s = Settings::from_vars(Some("t".to_owned()), Some("nope".to_owned())).unwrap();
    assert_eq!(s.port, 8080);
    let s = Settings::from_vars(Some("t".to_owned()), Some("65536".to_owned())).unwrap();
    assert_eq!(s.port, 8080);
}

#[test]
fn parse_u16_agrees_with_std() {
    for s in [
        "", "0", "7", "+7", "+", "-", "-0", "-5", "007", "65535", "65536", "99999999999", "1a",
        " 1", "1 ", "٣", "+-1", "++1", "8080",
    ] {
        assert_eq!(parse_u16(s), s.parse::<u16>().ok(), "{s:?}");
    }
}

#[test]
fn decimal_round_trips_through_parse() {
    for p in [0u16, 9, 10, 443, 8080, 65535] {
        let uri = xray_bridge::nodes::node_uri("h", p);
        let port_text = uri.rsplit(':').next().unwrap();
        assert_eq!(parse_u16(port_text), Some(p));
    }
}
