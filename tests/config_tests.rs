use desk_collector::config::{parse_flag, parse_unsigned, RawSettings};
use desk_collector::Config;

#[test]
fn test_env_bool_true_variants() {
    for v in ["TRUE", "true", "1", "yes", "on", "  TRUE  "] {
        assert!(parse_flag(Some(v), false), "{v}");
    }
}

#[test]
fn test_env_bool_false_variants() {
    for v in ["FALSE", "false", "0", "no", "off", "  false  "] {
        assert!(!parse_flag(Some(v), true), "{v}");
    }
}

#[test]
fn test_env_bool_empty_uses_default() {
    assert!(parse_flag(Some(""), true));
    assert!(!parse_flag(Some(""), false));
}

#[test]
fn test_env_bool_missing_uses_default() {
    assert!(parse_flag(None, true));
    assert!(!parse_flag(None, false));
}

#[test]
fn test_env_bool_invalid_uses_default() {
    assert!(parse_flag(Some("maybe"), true));
    assert!(!parse_flag(Some("maybe"), false));
}

#[test]
fn flag_trims_unicode_white_space() {
    assert!(parse_flag(Some("\u{3000}On\t"), false));
}

#[test]
fn test_env_u64_valid_value() {
    assert_eq!(parse_unsigned("12345", u64::MAX), Some(12345));
}

#[test]
fn test_env_u64_zero() {
    assert_eq!(parse_unsigned("0", u64::MAX), Some(0));
}

#[test]
fn test_env_u64_max() {
    assert_eq!(parse_unsigned(&u64::MAX.to_string(), u64::MAX), Some(u64::MAX));
    assert_eq!(parse_unsigned("18446744073709551616", u64::MAX), None);
}

#[test]
fn test_env_u64_invalid_uses_default() {
    assert_eq!(parse_unsigned("not_a_number", u64::MAX), None);
    assert_eq!(parse_unsigned("-1", u64::MAX), None);
}

#[test]
fn test_env_u8_invalid_uses_default() {
    assert_eq!(parse_unsigned("not_a_number", 255), None);
    assert_eq!(parse_unsigned("-1", 255), None);
    assert_eq!(parse_unsigned("256", 255), None);
    assert_eq!(parse_unsigned("255", 255), Some(255));
}

#[test]
fn unsigned_follows_std_parsing() {
    for s in ["", "+", "+7", "007", " 7", "7 ", "1_000", "4294967295", "4294967296"] {
        assert_eq!(parse_unsigned(s, u32::MAX as u64), s.parse::<u32>().ok().map(|v| v as u64), "{s:?}");
    }
}

#[test]
fn test_config_from_env_defaults() {
    let config = Config::from_settings(&RawSettings::empty());
    assert_eq!(config.ws_url, "ws://localhost:8000/ingest");
    assert_eq!(config.http_url, "http://localhost:8000/api/events");
    assert_eq!(config.ws_retry_ms, 5000);
    assert!(config.idle_enabled);
    assert_eq!(config.idle_threshold_ms, 60_000);
    assert_eq!(config.idle_poll_ms, 1000);
    assert!(!config.uia_enabled);
    assert_eq!(config.uia_throttle_ms, 1000);
    assert_eq!(config.uia_text_max, 240);
    assert_eq!(config.uia_max_depth, 3);
    assert!(!config.enable_screenshot);
    assert_eq!(config.screenshot_max_width, 1024);
    assert_eq!(config.screenshot_max_height, 768);
    assert_eq!(config.screenshot_quality, 85);
    assert_eq!(config.ws_reconnect_max_ms, 30_000);
}

#[test]
fn test_config_from_env_custom_values() {
    let mut raw = RawSettings::empty();
    raw.ws_url = Some("ws://custom:9000/ws".to_string());
    raw.http_url = Some("http://custom:9000/events".to_string());
    raw.ws_retry_seconds = Some("10".to_string());
    raw.idle_enabled = Some("false".to_string());
    raw.idle_threshold_ms = Some("120000".to_string());
    raw.idle_poll_ms = Some("2000".to_string());
    raw.uia_enabled = Some("true".to_string());
    raw.uia_throttle_ms = Some("500".to_string());
    raw.uia_text_max_chars = Some("500".to_string());
    raw.uia_max_depth = Some("10".to_string());
    raw.enable_screenshot = Some("true".to_string());
    raw.screenshot_max_width = Some("1920".to_string());
    raw.screenshot_max_height = Some("1080".to_string());
    raw.screenshot_quality = Some("90".to_string());
    let config = Config::from_settings(&raw);
    assert_eq!(config.ws_url, "ws://custom:9000/ws");
    assert_eq!(config.http_url, "http://custom:9000/events");
    assert_eq!(config.ws_retry_ms, 10_000);
    assert!(!config.idle_enabled);
    assert_eq!(config.idle_threshold_ms, 120000);
    assert_eq!(config.idle_poll_ms, 2000);
    assert!(config.uia_enabled);
    assert_eq!(config.uia_throttle_ms, 500);
    assert_eq!(config.uia_text_max, 500);
    assert_eq!(config.uia_max_depth, 10);
    assert!(config.enable_screenshot);
    assert_eq!(config.screenshot_max_width, 1920);
    assert_eq!(config.screenshot_max_height, 1080);
    assert_eq!(config.screenshot_quality, 90);
}

#[test]
fn test_config_clone() {
    let config1 = Config::from_settings(&RawSettings::empty());
    let config2 = config1.clone();
    assert_eq!(config1.ws_url, config2.ws_url);
    assert_eq!(config1.http_url, config2.http_url);
    assert_eq!(config1.idle_enabled, config2.idle_enabled);
}

#[test]
fn unreadable_quality_keeps_default() {
    let mut raw = RawSettings::empty();
    raw.screenshot_quality = Some("256".to_string());
    assert_eq!(Config::from_settings(&raw).screenshot_quality, 85);
}
