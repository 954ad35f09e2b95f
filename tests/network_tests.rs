use desk_collector::calculate_backoff;
use desk_collector::network::{classify_frame, pong_frame, FrameKind, Link, Route, BASE_BACKOFF_MS};

#[test]
fn test_exponential_backoff_calculation() {
    assert_eq!(calculate_backoff(1000, 30000), 2000);
    assert_eq!(calculate_backoff(2000, 30000), 4000);
    assert_eq!(calculate_backoff(4000, 30000), 8000);
    assert_eq!(calculate_backoff(16000, 30000), 30000);
    assert_eq!(calculate_backoff(30000, 30000), 30000);
}

#[test]
fn test_backoff_resets_on_success() {
    let mut link = Link::new();
    assert_eq!(link.backoff_ms, 1000);
    link.record_attempt(0, false, 30000);
    assert_eq!(link.backoff_ms, 2000);
    link.record_attempt(2000, false, 30000);
    assert_eq!(link.backoff_ms, 4000);
    link.record_attempt(6000, true, 30000);
    assert_eq!(link.backoff_ms, 1000);
}

#[test]
fn backoff_saturates_without_overflow() {
    assert_eq!(calculate_backoff(u64::MAX, u64::MAX), u64::MAX);
    assert_eq!(calculate_backoff(u64::MAX / 2 + 1, u64::MAX), u64::MAX);
    assert_eq!(calculate_backoff(0, 30000), 0);
}

#[test]
fn reconnect_waits_for_the_backoff() {
    let mut link = Link::new();
    assert!(link.should_connect(0));
    link.record_attempt(100, false, 30000);
    assert!(!link.should_connect(1000));
    assert!(!link.should_connect(2099));
    assert!(link.should_connect(2100));
    link.record_attempt(2100, true, 30000);
    assert!(!link.should_connect(100_000));
    assert_eq!(link.route(), Route::Stream);
    link.record_transport_error();
    assert_eq!(link.route(), Route::Fallback);
    assert_eq!(link.backoff_ms, BASE_BACKOFF_MS);
}

#[test]
fn test_ping_message_detected() {
    assert_eq!(classify_frame("ping"), FrameKind::Ping);
    assert_eq!(classify_frame("command"), FrameKind::Command);
    assert_eq!(classify_frame("ack"), FrameKind::Ignore);
    assert_eq!(classify_frame(""), FrameKind::Ignore);
}

#[test]
fn test_pong_response_format() {
    assert_eq!(pong_frame(), r#"{"type":"pong"}"#);
}
