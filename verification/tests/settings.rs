use rust_scheduler_service::settings::{interval_seconds, parse_u64, AppConfig};

#[test]
fn parses_plain_and_plus_signed_numbers() {
    assert_eq!(parse_u64("60"), Some(60));
    assert_eq!(parse_u64("+5"), Some(5));
    assert_eq!(parse_u64("007"), Some(7));
    assert_eq!(parse_u64("18446744073709551615"), Some(u64::MAX));
}

#[test]
fn rejects_malformed_numbers() {
    assert_eq!(parse_u64(""), None);
    assert_eq!(parse_u64("+"), None);
    assert_eq!(parse_u64("-1"), None);
    assert_eq!(parse_u64(" 5"), None);
    assert_eq!(parse_u64("5s"), None);
    assert_eq!(parse_u64("18446744073709551616"), None);
    assert_eq!(parse_u64("99999999999999999999x"), None);
}

#[test]
fn interval_falls_back_to_default() {
    assert_eq!(interval_seconds(None, 60), 60);
    assert_eq!(interval_seconds(Some("abc"), 60), 60);
    assert_eq!(interval_seconds(Some("15"), 60), 15);
}

#[test]
fn parse_agrees_with_std() {
    for text in ["0", "12", "+0", "+", "", "1_0", "42 ", "18446744073709551615", "18446744073709551616"] {
        assert_eq!(parse_u64(text), text.parse::<u64>().ok(), "text {:?}", text);
    }
}

#[test]
fn config_holds_its_fields() {
    let c = AppConfig {
        database_url: "postgres://x".to_string(),
        api_key: "SECRET-REDACTED".to_string(),
        log_level: "info".to_string(),
    };
    assert_eq!(c.database_url, "postgres://x");
    assert_eq!(c.log_level, "info");
}
