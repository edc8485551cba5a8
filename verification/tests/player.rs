use macro_recorder::player::{
    begin_playback, event_delays, json_file_name, parse_button, parse_key, safe_name, script_macro, with_events,
    with_meta, Key, MouseButton,
};
use macro_recorder::types::{Macro, MacroEvent, MacroEventData};

#[test]
fn named_keys() {
    assert_eq!(parse_key("Return"), Some(Key::Return));
    assert_eq!(parse_key("KpReturn"), Some(Key::Return));
    assert_eq!(parse_key("ShiftRight"), Some(Key::Shift));
    assert_eq!(parse_key("AltGr"), Some(Key::Alt));
    assert_eq!(parse_key("F12"), Some(Key::F12));
    assert_eq!(parse_key("BackSpace"), Some(Key::Backspace));
    assert_eq!(parse_key("Backspace"), None);
}

#[test]
fn letter_and_digit_keys() {
    assert_eq!(parse_key("KeyA"), Some(Key::Unicode('a')));
    assert_eq!(parse_key("Keyz"), Some(Key::Unicode('z')));
    assert_eq!(parse_key("Num7"), Some(Key::Unicode('7')));
    assert_eq!(parse_key("KeyAB"), None);
    assert_eq!(parse_key("Keyé"), None);
    assert_eq!(parse_key("Unknown(42)"), None);
    assert_eq!(parse_key(""), None);
}

#[test]
fn buttons() {
    assert_eq!(parse_button("Right"), MouseButton::Right);
    assert_eq!(parse_button("Middle"), MouseButton::Middle);
    assert_eq!(parse_button("Left"), MouseButton::Left);
    assert_eq!(parse_button("Unknown(8)"), MouseButton::Left);
}

fn ev(ts: u64) -> MacroEvent {
    MacroEvent { timestamp_ms: ts, event: MacroEventData::Sleep { duration_ms: 1 } }
}

#[test]
fn delays_between_events() {
    assert_eq!(event_delays(&vec![ev(100), ev(150), ev(150), ev(120), ev(200)]), vec![100, 50, 0, 0, 80]);
    assert!(event_delays(&vec![]).is_empty());
}

#[test]
fn playback_guard() {
    let mut playing = false;
    assert_eq!(begin_playback(&mut playing), Ok(()));
    assert!(playing);
    assert_eq!(begin_playback(&mut playing), Err("Already playing".to_string()));
}

fn base() -> Macro {
    Macro {
        name: "n".to_string(),
        events: vec![ev(5)],
        duration_ms: 5,
        tags: vec![],
        description: String::new(),
        relative_window: None,
    }
}

#[test]
fn editing_events_and_meta() {
    let m = with_events(base(), vec![ev(10), ev(30)]);
    assert_eq!(m.duration_ms, 30);
    assert_eq!(m.events.len(), 2);
    let m = with_events(m, vec![]);
    assert_eq!(m.duration_ms, 0);
    let m = with_meta(m, vec!["a".to_string()], "desc".to_string());
    assert_eq!(m.tags, vec!["a".to_string()]);
    assert_eq!(m.description, "desc");
    assert_eq!(m.name, "n");
}

#[test]
fn script_macro_shape() {
    let m = script_macro("s".to_string(), "log(1)".to_string());
    assert_eq!(m.events.len(), 1);
    assert_eq!(m.events[0].timestamp_ms, 0);
    assert!(matches!(&m.events[0].event, MacroEventData::RunScript { script } if script == "log(1)"));
    assert_eq!(m.tags, vec!["script".to_string()]);
    assert_eq!(m.description, "Rhai script macro");
    assert_eq!(m.duration_ms, 0);
}

#[test]
fn safe_file_names() {
    assert_eq!(safe_name("My Macro #1"), "My_Macro__1");
    assert_eq!(safe_name("a-b_c"), "a-b_c");
    assert_eq!(safe_name("déjà vu"), "déjà_vu");
    assert_eq!(safe_name("../etc"), "___etc");
    assert_eq!(json_file_name("x y"), "x_y.json");
    assert_eq!(safe_name(&safe_name("a b/c")), safe_name("a b/c"));
}
