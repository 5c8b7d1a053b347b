use auth_core::config::{parse_u64_str, AppConfig};

#[test]
fn absent_settings_take_defaults() {
    let c = AppConfig::from_strings(None, None, None).unwrap();
    assert_eq!(c.port, 3000);
    assert_eq!(c.rate_limit_requests, 100);
    assert_eq!(c.rate_limit_duration, 60);
}

#[test]
fn present_settings_are_read() {
    let c = AppConfig::from_strings(Some("8080"), Some("3"), Some("60")).unwrap();
    assert_eq!(c.port, 8080);
    assert_eq!(c.rate_limit_requests, 3);
    assert_eq!(c.rate_limit_duration, 60);
}

#[test]
fn unreadable_settings_refuse_the_configuration() {
    assert_eq!(AppConfig::from_strings(Some("abc"), None, None), None);
    assert_eq!(AppConfig::from_strings(None, Some(""), None), None);
    assert_eq!(AppConfig::from_strings(None, None, Some("6 0")), None);
    assert_eq!(AppConfig::from_strings(Some("-1"), None, None), None);
}

#[test]
fn port_must_fit_its_range() {
    assert_eq!(AppConfig::from_strings(Some("65535"), None, None).unwrap().port, 65535);
    assert_eq!(AppConfig::from_strings(Some("65536"), None, None), None);
}

#[test]
fn numbers_are_canonical_decimals() {
    assert_eq!(parse_u64_str("0"), Some(0));
    assert_eq!(parse_u64_str("42"), Some(42));
    assert_eq!(parse_u64_str("18446744073709551615"), Some(u64::MAX));
    assert_eq!(parse_u64_str("18446744073709551616"), None);
    assert_eq!(parse_u64_str("007"), None);
    assert_eq!(parse_u64_str(""), None);
    assert_eq!(parse_u64_str("+3"), None);
}
