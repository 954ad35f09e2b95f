use desk_collector::command::{
    pointer_events, Button, PointerKind,
    find_window, normalize_coordinate, plan_command, rect_center, resolve_target, success_result, Action,
    ClickTarget, FieldValue, Outcome,
};
use desk_collector::config::{Config, RawSettings};
use desk_collector::{execute_command, Command, CommandResult};

fn text(k: &str, v: &str) -> (String, FieldValue) {
    (k.to_string(), FieldValue::Text(v.to_string()))
}

fn num(k: &str, v: i64) -> (String, FieldValue) {
    (k.to_string(), FieldValue::Integer(v))
}

fn cmd(action: &str, parameters: Vec<(String, FieldValue)>) -> Command {
    Command { command_id: "test-id".to_string(), action: action.to_string(), parameters, timeout_ms: 5000 }
}

fn config() -> Config {
    Config::from_settings(&RawSettings::empty())
}

#[test]
fn test_unknown_action_returns_error() {
    let result = execute_command(&cmd("nonexistent", vec![]), &config());
    assert!(!result.ok);
    assert!(result.error.as_ref().unwrap().contains("unknown action"));
    assert_eq!(result.error.unwrap(), "unknown action: nonexistent");
}

#[test]
fn test_new_commands_fail_on_non_windows() {
    let config = config();
    for action in &["scroll", "double_click", "right_click"] {
        let result = execute_command(&cmd(action, vec![]), &config);
        assert!(!result.ok, "{action} should fail on non-Windows");
        assert!(result.error.as_ref().unwrap().contains("requires Windows"));
    }
}

#[test]
fn test_click_missing_all_params_returns_error() {
    let mut c = cmd("click", vec![]);
    c.command_id = "test-click".to_string();
    let result = execute_command(&c, &config());
    assert!(!result.ok);
    assert!(result.error.as_ref().unwrap().contains("click requires"));
    assert!(result.error.as_ref().unwrap().contains("x"));
    assert_eq!(result.command_id, "test-click");
}

#[test]
fn click_with_target_reports_platform() {
    let result = execute_command(&cmd("click", vec![num("x", 300), num("y", 450)]), &config());
    assert_eq!(result.error.unwrap(), "click requires Windows");
}

#[test]
fn command_defaults_fill_timeout_and_parameters() {
    let c = Command::from_parts("x".to_string(), "observe".to_string(), None, None);
    assert_eq!(c.command_id, "x");
    assert_eq!(c.action, "observe");
    assert_eq!(c.timeout_ms, 5000);
    assert!(c.parameters.is_empty());
    let c = Command::from_parts("abc-123".to_string(), "observe".to_string(), Some(vec![]), Some(3000));
    assert_eq!(c.timeout_ms, 3000);
}

#[test]
fn success_result_has_no_optional_fields() {
    let cr = CommandResult::success("abc-123", vec![text("clicked", "Send")]);
    assert_eq!(cr.msg_type, "command_result");
    assert_eq!(cr.command_id, "abc-123");
    assert!(cr.ok);
    assert!(cr.error.is_none());
    assert!(cr.screenshot_b64.is_none());
}

#[test]
fn failure_result_carries_the_message() {
    let cr = CommandResult::failure("abc-123", "element not found");
    assert_eq!(cr.msg_type, "command_result");
    assert!(!cr.ok);
    assert_eq!(cr.error.unwrap(), "element not found");
}

fn plan_err(action: &str, params: Vec<(String, FieldValue)>) -> String {
    plan_command(&cmd(action, params)).unwrap_err()
}

#[test]
fn plan_reports_missing_parameters() {
    assert_eq!(plan_err("click", vec![]), "click requires 'name', 'automation_id', or 'x'/'y' parameters");
    assert_eq!(plan_err("double_click", vec![num("x", 5)]), "double_click requires 'name', 'automation_id', or 'x'/'y' parameters");
    assert_eq!(plan_err("right_click", vec![num("x", -1), num("y", 3)]), "right_click requires 'name', 'automation_id', or 'x'/'y' parameters");
    assert_eq!(plan_err("type_text", vec![]), "type_text requires 'text' parameter");
    assert_eq!(plan_err("send_keys", vec![text("keys", "")]), "send_keys requires 'keys' parameter");
    assert_eq!(plan_err("send_keys", vec![text("keys", "ctrl+banana")]), "unknown key: ctrl+banana");
    assert_eq!(plan_err("open_application", vec![]), "open_application requires 'application' parameter");
    assert_eq!(plan_err("focus_window", vec![]), "focus_window requires 'title' or 'process' parameter");
    assert_eq!(plan_err("scroll", vec![text("direction", "left")]), "unknown scroll direction: left");
    assert_eq!(plan_err("scroll", vec![num("amount", 1 << 40)]), "scroll 'amount' out of range");
    assert_eq!(plan_err("fly", vec![]), "unknown action: fly");
}

#[test]
fn plan_reads_actions() {
    match plan_command(&cmd("click", vec![text("name", "Send"), text("automation_id", "btn_send")])).unwrap() {
        Action::Click(ClickTarget::Element { automation_id, name }) => {
            assert_eq!(automation_id, "btn_send");
            assert_eq!(name, "Send");
        }
        other => panic!("unexpected {other:?}"),
    }
    match plan_command(&cmd("double_click", vec![num("x", 100), num("y", 200)])).unwrap() {
        Action::DoubleClick(ClickTarget::Point { x, y }) => assert_eq!((x, y), (100, 200)),
        other => panic!("unexpected {other:?}"),
    }
    match plan_command(&cmd("scroll", vec![text("direction", "up"), num("amount", 5)])).unwrap() {
        Action::Scroll { direction, amount, wheel_delta } => {
            assert_eq!(direction, "up");
            assert_eq!(amount, 5);
            assert_eq!(wheel_delta, 600);
        }
        other => panic!("unexpected {other:?}"),
    }
    match plan_command(&cmd("scroll", vec![])).unwrap() {
        Action::Scroll { direction, amount, wheel_delta } => {
            assert_eq!(direction, "down");
            assert_eq!(amount, 3);
            assert_eq!(wheel_delta, -360);
        }
        other => panic!("unexpected {other:?}"),
    }
    match plan_command(&cmd("type_text", vec![text("text", "hi"), text("automation_id", "")])).unwrap() {
        Action::TypeText { text, automation_id, units } => {
            assert_eq!(text, "hi");
            assert!(automation_id.is_none());
            assert_eq!(units, vec![0x68, 0x69]);
        }
        other => panic!("unexpected {other:?}"),
    }
    assert!(matches!(plan_command(&cmd("observe", vec![])).unwrap(), Action::Observe));
}

#[test]
fn plan_send_keys_orders_strokes() {
    match plan_command(&cmd("send_keys", vec![text("keys", "Ctrl+Shift+S")])).unwrap() {
        Action::SendKeys { keys, strokes } => {
            assert_eq!(keys, "Ctrl+Shift+S");
            let got: Vec<(u16, bool)> = strokes.iter().map(|s| (s.vk, s.key_up)).collect();
            assert_eq!(got, vec![(0x11, false), (0x10, false), (0x53, false), (0x53, true), (0x10, true), (0x11, true)]);
        }
        other => panic!("unexpected {other:?}"),
    }
}

#[test]
fn click_target_prefers_element_then_point() {
    assert!(resolve_target(&vec![]).is_none());
    assert!(resolve_target(&vec![text("x", "1"), num("y", 2)]).is_none());
    match resolve_target(&vec![num("x", 0), num("y", 0)]) {
        Some(ClickTarget::Point { x, y }) => assert_eq!((x, y), (0, 0)),
        other => panic!("unexpected {other:?}"),
    }
    assert!(resolve_target(&vec![num("x", i32::MAX as i64 + 1), num("y", 0)]).is_none());
}

#[test]
fn success_results_describe_the_action() {
    let act = Action::Click(ClickTarget::Element { automation_id: "btn".to_string(), name: String::new() });
    let r = success_result("c1", &act, Outcome::Invoked, Some("shot".to_string()));
    assert!(r.ok);
    assert_eq!(r.screenshot_b64.as_deref(), Some("shot"));
    assert_eq!(r.result.len(), 2);
    assert_eq!(r.result[0].0, "clicked");
    assert!(matches!(&r.result[0].1, FieldValue::Text(s) if s == "btn"));
    assert!(matches!(&r.result[1].1, FieldValue::Text(s) if s == "invoke"));

    let r = success_result("c2", &Action::Click(ClickTarget::Point { x: 3, y: 4 }), Outcome::Done, None);
    assert_eq!(r.result[0].0, "x");
    assert!(matches!(r.result[0].1, FieldValue::Integer(3)));
    assert!(matches!(&r.result[2].1, FieldValue::Text(s) if s == "coordinate"));

    let r = success_result(
        "c3",
        &Action::Observe,
        Outcome::Observed { window_title: "Doc".to_string(), process_exe: "app.exe".to_string(), uia: None },
        None,
    );
    assert_eq!(r.result.len(), 3);
    assert!(matches!(&r.result[1].1, FieldValue::Text(s) if s == "Doc"));
}

#[test]
fn coordinates_normalize_to_absolute_units() {
    assert_eq!(normalize_coordinate(960, 1920), Some(32767));
    assert_eq!(normalize_coordinate(1920, 1920), Some(65535));
    assert_eq!(normalize_coordinate(10, 0), None);
    assert_eq!(rect_center(10, 20, 30, 41), (20, 30));
    assert_eq!(rect_center(-5, -5, 0, 0), (-2, -2));
}

#[test]
fn window_search_is_case_insensitive_and_skips_hidden() {
    let windows = vec![
        ("Notepad - hidden".to_string(), false),
        ("Inbox - Mail".to_string(), true),
        ("Untitled - NOTEPAD".to_string(), true),
    ];
    assert_eq!(find_window(&windows, "notepad"), Some(2));
    assert_eq!(find_window(&windows, "MAIL"), Some(1));
    assert_eq!(find_window(&windows, "calculator"), None);
}

#[test]
fn pointer_actions_plan_button_events_at_the_normalized_point() {
    let ev = pointer_events(PointerKind::DoubleClick, 960, 540, 1920, 1080).unwrap();
    let got: Vec<(i64, i64, Button, bool)> = ev.iter().map(|e| (e.x, e.y, e.button, e.down)).collect();
    assert_eq!(
        got,
        vec![
            (32767, 32767, Button::Left, true),
            (32767, 32767, Button::Left, false),
            (32767, 32767, Button::Left, true),
            (32767, 32767, Button::Left, false),
        ]
    );
    let ev = pointer_events(PointerKind::RightClick, 0, 1080, 1920, 1080).unwrap();
    assert_eq!(ev.len(), 2);
    assert_eq!((ev[0].x, ev[0].y, ev[0].button, ev[0].down), (0, 65535, Button::Right, true));
    assert!(!ev[1].down);
    assert_eq!(pointer_events(PointerKind::Click, 1, 1, 1920, 1080).unwrap().len(), 2);
    assert!(pointer_events(PointerKind::Click, 1, 1, 0, 1080).is_none());
}
