use cache_api::settings::{parse_port, Settings, SettingsError};

#[test]
fn parse_port_reads_decimal() {
    assert_eq!(parse_port("8080"), Some(8080));
    assert_eq!(parse_port("+6379"), Some(6379));
    assert_eq!(parse_port("0"), Some(0));
    assert_eq!(parse_port("65535"), Some(65535));
    assert_eq!(parse_port("007"), Some(7));
}

#[test]
fn parse_port_refuses_bad_text() {
    assert_eq!(parse_port(""), None);
    assert_eq!(parse_port("+"), None);
    assert_eq!(parse_port("65536"), None);
    assert_eq!(parse_port("99999999999999999999"), None);
    assert_eq!(parse_port("-1"), None);
    assert_eq!(parse_port("80a"), None);
    assert_eq!(parse_port(" 80"), None);
}

#[test]
fn settings_new_builds_configuration() {
    let s = Settings::new("8080", "6379", "localhost".to_string(), "SECRET-REDACTED".to_string()).unwrap();
    assert_eq!(s.server.port, 8080);
    assert_eq!(s.redis.port, 6379);
    assert_eq!(s.redis.url, "localhost");
    assert_eq!(s.redis.password, "SECRET-REDACTED");
}

#[test]
fn settings_new_reports_bad_port() {
    let e = Settings::new("http", "6379", String::new(), String::new()).unwrap_err();
    assert_eq!(e, SettingsError::ServerPort);
    let e = Settings::new("80", "70000", String::new(), String::new()).unwrap_err();
    assert_eq!(e, SettingsError::RedisPort);
}
