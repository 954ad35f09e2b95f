use desk_collector::event::{build_event, clone_element};
use desk_collector::{build_activity_event, bstr_to_string, hwnd_to_hex, UiaElement, UiaSnapshot};

fn utf16(s: &str) -> Vec<u16> {
    s.encode_utf16().collect()
}

#[test]
fn test_uia_element_default() {
    let element = UiaElement::default();
    assert_eq!(element.automation_id, "");
    assert_eq!(element.name, "");
    assert_eq!(element.control_type, "");
    assert_eq!(element.class_name, "");
    assert!(element.bounding_rect.is_none());
    assert!(!element.is_enabled);
    assert!(!element.is_offscreen);
    assert!(element.patterns.is_empty());
    assert!(element.value.is_none());
    assert!(element.toggle_state.is_none());
    assert!(element.children.is_empty());
}

#[test]
fn test_uia_snapshot_default() {
    let snapshot = UiaSnapshot::default();
    assert_eq!(snapshot.focused_name, "");
    assert_eq!(snapshot.control_type, "");
    assert_eq!(snapshot.document_text, "");
    assert!(snapshot.focused_element.is_none());
    assert!(snapshot.window_tree.is_empty());
}

#[test]
fn test_hwnd_to_hex_zero() {
    assert_eq!(hwnd_to_hex(0), "0x0");
}

#[test]
fn test_hwnd_to_hex_small_value() {
    assert_eq!(hwnd_to_hex(255), "0xff");
}

#[test]
fn test_hwnd_to_hex_large_value() {
    assert_eq!(hwnd_to_hex(0x12345678), "0x12345678");
}

#[test]
fn hwnd_to_hex_matches_std_formatting() {
    for v in [1usize, 15, 16, 4096, 0xdead_beef, usize::MAX] {
        assert_eq!(hwnd_to_hex(v), format!("{:#x}", v));
    }
}

#[test]
fn test_bstr_to_string_empty() {
    assert_eq!(bstr_to_string(&Vec::new()), "");
}

#[test]
fn test_bstr_to_string_ascii() {
    assert_eq!(bstr_to_string(&utf16("Hello")), "Hello");
}

#[test]
fn test_bstr_to_string_unicode() {
    assert_eq!(bstr_to_string(&utf16("Hello 世界")), "Hello 世界");
}

#[test]
fn bstr_to_string_pairs_and_replaces_surrogates() {
    assert_eq!(bstr_to_string(&utf16("a😀b")), "a😀b");
    assert_eq!(bstr_to_string(&vec![0x61, 0xD800, 0x62]), "a\u{FFFD}b");
    assert_eq!(bstr_to_string(&vec![0xDC00]), "\u{FFFD}");
    assert_eq!(bstr_to_string(&vec![0xD83D]), "\u{FFFD}");
}

#[test]
fn test_uia_snapshot_clone() {
    let snapshot1 = UiaSnapshot {
        focused_name: "Test".to_string(),
        control_type: "Edit".to_string(),
        document_text: "Content".to_string(),
        focused_element: None,
        window_tree: vec![],
    };
    let snapshot2 = snapshot1.clone();
    assert_eq!(snapshot1.focused_name, snapshot2.focused_name);
    assert_eq!(snapshot1.control_type, snapshot2.control_type);
    assert_eq!(snapshot1.document_text, snapshot2.document_text);
}

fn sample_element() -> UiaElement {
    UiaElement {
        automation_id: "test".to_string(),
        name: "Test".to_string(),
        control_type: "Button".to_string(),
        class_name: "Button".to_string(),
        bounding_rect: Some([0, 0, 100, 50]),
        is_enabled: true,
        is_offscreen: false,
        patterns: vec!["Invoke".to_string()],
        value: Some("val".to_string()),
        toggle_state: None,
        children: vec![],
    }
}

#[test]
fn test_uia_element_clone() {
    let element1 = sample_element();
    let element2 = element1.clone();
    assert_eq!(element1.automation_id, element2.automation_id);
    assert_eq!(element1.name, element2.name);
    assert_eq!(element1.bounding_rect, element2.bounding_rect);
    assert_eq!(element1.patterns, element2.patterns);
}

#[test]
fn element_clone_copies_the_subtree() {
    let mut parent = sample_element();
    let mut child = sample_element();
    child.name = "Child".to_string();
    child.children = vec![sample_element()];
    parent.children = vec![child];
    let copy = clone_element(&parent);
    assert_eq!(copy.children.len(), 1);
    assert_eq!(copy.children[0].name, "Child");
    assert_eq!(copy.children[0].children.len(), 1);
    assert_eq!(copy.children[0].children[0].value, Some("val".to_string()));
}

#[test]
fn test_uia_snapshot_debug_format() {
    let snapshot = UiaSnapshot {
        focused_name: "Test".to_string(),
        control_type: "Edit".to_string(),
        document_text: "Content".to_string(),
        focused_element: None,
        window_tree: vec![],
    };
    let debug_str = format!("{:?}", snapshot);
    assert!(debug_str.contains("UiaSnapshot"));
    assert!(debug_str.contains("Test"));
}

#[test]
fn test_uia_element_debug_format() {
    let element = UiaElement::default();
    let debug_str = format!("{:?}", element);
    assert!(debug_str.contains("UiaElement"));
}

#[test]
fn test_build_activity_event_idle() {
    let event = build_activity_event("idle", 120000, "2026-02-09T12:00:00.000Z".to_string());
    assert_eq!(event.event_type, "idle");
    assert_eq!(event.hwnd, "0x0");
    assert_eq!(event.title, "");
    assert_eq!(event.process_exe, "");
    assert_eq!(event.pid, 0);
    assert_eq!(event.source, "collector");
    assert_eq!(event.idle_ms, Some(120000));
    assert!(event.uia.is_none());
    assert!(event.screenshot_b64.is_none());
    assert!(!event.timestamp.is_empty());
}

#[test]
fn test_build_activity_event_active() {
    let event = build_activity_event("active", 500, "2026-02-09T12:00:00.000Z".to_string());
    assert_eq!(event.event_type, "active");
    assert_eq!(event.hwnd, "0x0");
    assert_eq!(event.source, "collector");
    assert_eq!(event.idle_ms, Some(500));
}

#[test]
fn test_window_event_clone() {
    let event1 = build_activity_event("idle", 1000, "2026-02-09T12:00:00.000Z".to_string());
    let event2 = event1.clone();
    assert_eq!(event1.event_type, event2.event_type);
    assert_eq!(event1.hwnd, event2.hwnd);
    assert_eq!(event1.idle_ms, event2.idle_ms);
}

#[test]
fn test_window_event_debug_format() {
    let event = build_activity_event("idle", 1000, "2026-02-09T12:00:00.000Z".to_string());
    let debug_str = format!("{:?}", event);
    assert!(debug_str.contains("WindowEvent"));
    assert!(debug_str.contains("idle"));
}

#[test]
fn foreground_event_carries_window_identity() {
    let event = build_event(
        0x12345,
        "Test Window".to_string(),
        1234,
        "test.exe".to_string(),
        "2026-02-09T12:00:00.000Z".to_string(),
        None,
        Some("base64data".to_string()),
    )
    .unwrap();
    assert_eq!(event.event_type, "foreground");
    assert_eq!(event.hwnd, "0x12345");
    assert_eq!(event.title, "Test Window");
    assert_eq!(event.process_exe, "test.exe");
    assert_eq!(event.pid, 1234);
    assert_eq!(event.idle_ms, None);
    assert_eq!(event.screenshot_b64, Some("base64data".to_string()));
}

#[test]
fn foreground_event_for_null_handle_is_none() {
    let event = build_event(0, "t".to_string(), 1, "p".to_string(), "ts".to_string(), None, None);
    assert!(event.is_none());
}

#[test]
fn foreground_event_without_pid_has_no_process_path() {
    let event = build_event(7, "t".to_string(), 0, "p".to_string(), "ts".to_string(), None, None).unwrap();
    assert_eq!(event.process_exe, "");
    assert_eq!(event.hwnd, "0x7");
}

#[test]
fn typed_units_are_utf16() {
    let units = desk_collector::event::utf16_units("a😀é");
    assert_eq!(units, "a😀é".encode_utf16().collect::<Vec<u16>>());
    assert_eq!(units, vec![0x61, 0xD83D, 0xDE00, 0xE9]);
    assert_eq!(bstr_to_string(&units), "a😀é");
}
