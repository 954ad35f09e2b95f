use desk_collector::keys::{key_strokes, parse_key_combo, parse_vk};
use desk_collector::uia::{
    allow_uia_snapshot, assemble_snapshot, build_uia_element, child_budget, document_text, extract_document_text,
    finish_snapshot,
    snapshot_due, ElementProbe, ThrottleGate,
};
use desk_collector::config::{Config, RawSettings};
use desk_collector::{UiaElement, UiaSnapshot};

#[test]
fn throttle_lets_the_first_snapshot_through() {
    let mut gate = ThrottleGate::new();
    assert!(allow_uia_snapshot(&mut gate, 5, 1000));
    assert!(!allow_uia_snapshot(&mut gate, 900, 1000));
    assert!(!allow_uia_snapshot(&mut gate, 1004, 1000));
    assert!(allow_uia_snapshot(&mut gate, 1005, 1000));
    assert_eq!(gate.last_ms, Some(1005));
}

#[test]
fn disabled_snapshots_leave_the_throttle_alone() {
    let config = Config::from_settings(&RawSettings::empty());
    let mut gate = ThrottleGate::new();
    assert!(!snapshot_due(&config, &mut gate, 10));
    assert_eq!(gate.last_ms, None);
}

#[test]
fn document_text_is_collapsed_and_cut() {
    assert_eq!(extract_document_text("  Hello\r\n\n  world \t", 240), Some("Hello world".to_string()));
    assert_eq!(extract_document_text("abc def", 5), Some("abc d".to_string()));
    assert_eq!(extract_document_text(" \n\t ", 240), None);
    assert_eq!(extract_document_text("", 240), None);
    assert_eq!(extract_document_text("héllo wörld", 4), Some("héll".to_string()));
}

fn probe() -> ElementProbe {
    ElementProbe {
        automation_id: Some("btn1".to_string()),
        name: None,
        control_type: Some("Button".to_string()),
        class_name: None,
        rect: Some((10, 20, 110, 70)),
        is_enabled: None,
        is_offscreen: None,
        value_pattern: Some(Some("v".to_string())),
        toggle_pattern: Some(Some(1)),
        invoke_pattern: true,
    }
}

#[test]
fn element_fields_fall_back_to_defaults() {
    let e = build_uia_element(&probe(), 0, 3, vec![UiaElement::default()]);
    assert_eq!(e.automation_id, "btn1");
    assert_eq!(e.name, "");
    assert_eq!(e.bounding_rect, Some([10, 20, 100, 50]));
    assert!(e.is_enabled);
    assert!(!e.is_offscreen);
    assert_eq!(e.patterns, vec!["Value", "Toggle", "Invoke"]);
    assert_eq!(e.value.as_deref(), Some("v"));
    assert_eq!(e.toggle_state.as_deref(), Some("On"));
    assert_eq!(e.children.len(), 1);
}

#[test]
fn toggle_states_are_named() {
    for (code, name) in [(0, "Off"), (1, "On"), (2, "Indeterminate"), (7, "Unknown")] {
        let mut p = probe();
        p.toggle_pattern = Some(Some(code));
        assert_eq!(build_uia_element(&p, 0, 3, vec![]).toggle_state.as_deref(), Some(name));
    }
    let mut p = probe();
    p.toggle_pattern = Some(None);
    p.value_pattern = None;
    p.invoke_pattern = false;
    let e = build_uia_element(&p, 0, 3, vec![]);
    assert_eq!(e.patterns, vec!["Toggle"]);
    assert!(e.toggle_state.is_none());
    assert!(e.value.is_none());
}

#[test]
fn overflowing_rectangle_is_dropped() {
    let mut p = probe();
    p.rect = Some((i32::MIN, 0, i32::MAX, 10));
    assert!(build_uia_element(&p, 0, 3, vec![]).bounding_rect.is_none());
}

#[test]
fn children_are_capped() {
    assert_eq!(child_budget(0, 3, 50), 20);
    assert_eq!(child_budget(2, 3, 7), 7);
    assert_eq!(child_budget(3, 3, 7), 0);
    assert_eq!(child_budget(0, 3, -1), 0);
}

#[test]
fn empty_snapshot_collapses() {
    assert!(finish_snapshot(UiaSnapshot::default()).is_none());
    assert!(assemble_snapshot(None, Some(String::new()), String::new(), None, None).is_none());
    let s = assemble_snapshot(Some("Name".to_string()), None, String::new(), None, None).unwrap();
    assert_eq!(s.focused_name, "Name");
    assert!(s.window_tree.is_empty());
    let s = assemble_snapshot(None, None, String::new(), None, Some(UiaElement::default())).unwrap();
    assert_eq!(s.window_tree.len(), 1);
}

#[test]
fn key_names_map_to_virtual_keys() {
    assert_eq!(parse_vk("a"), Some(0x41));
    assert_eq!(parse_vk("Z"), Some(0x5A));
    assert_eq!(parse_vk("7"), Some(0x37));
    assert_eq!(parse_vk("F1"), Some(0x70));
    assert_eq!(parse_vk("f12"), Some(0x7B));
    assert_eq!(parse_vk("Enter"), Some(0x0D));
    assert_eq!(parse_vk("esc"), Some(0x1B));
    assert_eq!(parse_vk("PageDown"), Some(0x22));
    assert_eq!(parse_vk("f13"), None);
    assert_eq!(parse_vk("ctrl"), None);
}

#[test]
fn key_combos_press_and_release_in_order() {
    let combo = parse_key_combo("alt+f4").unwrap();
    assert_eq!(combo.modifiers, vec![0x12]);
    assert_eq!(combo.key, 0x73);
    let strokes: Vec<(u16, bool)> = key_strokes(&combo).iter().map(|s| (s.vk, s.key_up)).collect();
    assert_eq!(strokes, vec![(0x12, false), (0x73, false), (0x73, true), (0x12, true)]);
    assert!(parse_key_combo("ctrl+shift").is_none());
    assert!(parse_key_combo("ctrl+").is_none());
    assert_eq!(parse_key_combo("a+win").unwrap().key, 0x41);
    assert_eq!(parse_key_combo("a+b").unwrap().key, 0x42);
}

#[test]
fn document_text_falls_back_to_the_window_root() {
    assert_eq!(document_text(Some("  focused  text "), Some("root"), 240), "focused text");
    assert_eq!(document_text(Some(" \n "), Some(" root  text"), 240), "root text");
    assert_eq!(document_text(None, None, 240), "");
    assert_eq!(document_text(Some("abc"), Some("xyz"), 0), "");
}

#[test]
fn node_keeps_at_most_twenty_children_and_none_at_the_limit() {
    let kids: Vec<UiaElement> = (0..25)
        .map(|i| {
            let mut e = UiaElement::default();
            e.name = format!("c{i}");
            e
        })
        .collect();
    let e = build_uia_element(&probe(), 1, 3, kids.clone());
    assert_eq!(e.children.len(), 20);
    assert_eq!(e.children[0].name, "c0");
    assert_eq!(e.children[19].name, "c19");
    let e = build_uia_element(&probe(), 3, 3, kids);
    assert!(e.children.is_empty());
}
