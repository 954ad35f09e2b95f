use desk_collector::idle::{event_type_for, IdleTracker};

#[test]
fn test_idle_threshold_comparison() {
    let threshold_ms = 60000u64;
    let mut t = IdleTracker::new();
    assert_eq!(t.observe(30000, threshold_ms), Some(false), "30s should not be idle with 60s threshold");
    let mut t = IdleTracker::new();
    assert_eq!(t.observe(60000, threshold_ms), Some(true), "60s should be idle with 60s threshold");
    let mut t = IdleTracker::new();
    assert_eq!(t.observe(120000, threshold_ms), Some(true), "120s should be idle with 60s threshold");
}

#[test]
fn test_state_change_detection() {
    // first observation always reports
    let mut t = IdleTracker { last_state: None };
    assert!(t.observe(70_000, 60_000).is_some());

    // same state does not report
    let mut t = IdleTracker { last_state: Some(true) };
    assert!(t.observe(70_000, 60_000).is_none());

    // a change reports
    let mut t = IdleTracker { last_state: Some(true) };
    assert!(t.observe(10, 60_000).is_some());

    // and back again
    let mut t = IdleTracker { last_state: Some(false) };
    assert!(t.observe(70_000, 60_000).is_some());
}

#[test]
fn test_event_type_selection() {
    assert_eq!(event_type_for(true), "idle");
    assert_eq!(event_type_for(false), "active");
}

#[test]
fn test_build_activity_event_integration() {
    let idle = desk_collector::build_activity_event(event_type_for(true), 120000, "ts".to_string());
    assert_eq!(idle.event_type, "idle");
    assert_eq!(idle.idle_ms, Some(120000));
    let active = desk_collector::build_activity_event(event_type_for(false), 500, "ts".to_string());
    assert_eq!(active.event_type, "active");
    assert_eq!(active.idle_ms, Some(500));
}

#[test]
fn idle_monitor_reports_only_transitions() {
    let mut t = IdleTracker::new();
    let polls = [10u64, 20, 70_000, 80_000, 90_000, 5, 6, 61_000];
    let reported: Vec<bool> = polls.iter().filter_map(|&ms| t.observe(ms, 60_000)).collect();
    assert_eq!(reported, vec![false, true, false, true]);
}
