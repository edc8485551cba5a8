use macro_recorder::autoclicker::{
    begin_autoclicking, click_button, cursor_offset, double_click_delay, fixed_offset, hold_time, humanized_interval,
    moves_pointer, next_interval_base, next_step, position_mode, should_stop, ClickerStep, PositionMode,
};
use macro_recorder::player::{Key, MouseButton};
use macro_recorder::recorder::Recorder;
use macro_recorder::script::{begin_script, hotkey_macro_name, modifier_key, script_outcome};
use macro_recorder::types::{AutoClickerConfig, MacroEventData};

fn key(k: &str) -> MacroEventData {
    MacroEventData::KeyPress { key: k.to_string() }
}

#[test]
fn recording_session_timestamps() {
    let mut r = Recorder::new();
    assert_eq!(r.pause_recording(5), Err("Not recording".to_string()));
    assert!(!r.record(key("KeyA"), 5));
    assert_eq!(r.start_recording(1_000), Ok(()));
    assert_eq!(r.start_recording(1_001), Err("Already recording".to_string()));
    assert!(r.record(key("KeyA"), 1_100));
    assert_eq!(r.pause_recording(1_200), Ok(()));
    assert!(!r.record(key("KeyB"), 1_300));
    assert!(r.can_resume_at(1_700));
    r.resume_recording(1_700);
    assert!(r.record(key("KeyC"), 1_800));
    let m = r.stop_recording("rec".to_string(), "Title".to_string()).unwrap();
    let ts: Vec<u64> = m.events.iter().map(|e| e.timestamp_ms).collect();
    assert_eq!(ts, vec![100, 300]);
    assert_eq!(m.duration_ms, 300);
    assert_eq!(m.relative_window, None);
    assert!(m.tags.is_empty() && m.description.is_empty());
    assert!(!r.is_recording() && !r.is_paused());
}

#[test]
fn moves_update_last_position() {
    let mut r = Recorder::new();
    r.start_recording(0).unwrap();
    let raw = (10.5f64.to_bits(), 20.0f64.to_bits());
    assert!(r.record_move(raw, raw, 50));
    assert_eq!(r.last_mouse(), raw);
    r.pause_recording(60).unwrap();
    assert!(!r.record_move((0, 0), (0, 0), 70));
    assert_eq!(r.last_mouse(), raw);
    assert_eq!(r.events().len(), 1);
}

#[test]
fn relative_start_and_its_errors() {
    let mut r = Recorder::new();
    assert_eq!(r.start_recording_relative("", Some((1, 2)), 0), Err("No foreground window found".to_string()));
    assert_eq!(r.start_recording_relative("Win", Some((1, 2)), 0), Ok(()));
    // The relative recording keeps the window's origin.
    assert_eq!(r.window_origin(), Some((1, 2)));
    let m = r.stop_recording("x".to_string(), "Win".to_string()).unwrap();
    assert_eq!(m.relative_window, Some("Win".to_string()));
    // A plain recording has none.
    r.start_recording(10).unwrap();
    assert_eq!(r.window_origin(), None);
    assert_eq!(r.start_recording_relative("Win", Some((3, 4)), 15), Err("Already recording".to_string()));
    // A window that was not found leaves positions absolute.
    let mut r2 = Recorder::new();
    assert_eq!(r2.start_recording_relative("Win", None, 0), Ok(()));
    let m2 = r2.stop_recording("y".to_string(), "Win".to_string()).unwrap();
    assert_eq!(m2.relative_window, None);
}

#[test]
fn hotkey_toggle_starts_and_stops() {
    let mut r = Recorder::new();
    assert!(r.hotkey_toggle_record(10, 1, String::new()).is_none());
    assert!(r.is_recording());
    r.record(key("KeyA"), 15);
    let m = r.hotkey_toggle_record(20, 1_700_000_000, String::new()).unwrap();
    assert_eq!(m.name, "Hotkey_1700000000");
    assert_eq!(m.events.len(), 1);
    assert!(!r.is_recording());
}

#[test]
fn autoclicker_decisions() {
    let mut c = AutoClickerConfig::default();
    assert!(!should_stop(&c, 1_000_000, 1_000_000));
    c.stop_after_clicks = 3;
    assert!(!should_stop(&c, 2, 0));
    assert!(should_stop(&c, 3, 0));
    c.stop_after_clicks = 0;
    c.stop_after_seconds = 10;
    assert!(should_stop(&c, 0, 10));
    assert_eq!(click_button(&c), MouseButton::Left);
    c.click_button = "right".to_string();
    assert_eq!(click_button(&c), MouseButton::Right);
    c.click_button = "middle".to_string();
    assert_eq!(click_button(&c), MouseButton::Middle);
    assert!(!moves_pointer(&c));
    c.position_mode = "fixed".to_string();
    assert!(moves_pointer(&c));
    assert_eq!(humanized_interval(100, -95), 10);
    assert_eq!(humanized_interval(100, 7), 107);
    assert_eq!(double_click_delay(false), 50);
    assert_eq!(hold_time(false), 0);
    for _ in 0..50 {
        let d = double_click_delay(true);
        assert!((40..=80).contains(&d));
        let h = hold_time(true);
        assert!((40..=120).contains(&h));
        let b = next_interval_base(&c);
        assert!((800..=1200).contains(&b));
    }
    assert_eq!(fixed_offset(&c), (0, 0));
    assert_eq!(cursor_offset(&c), None);
    c.humanize = true;
    for _ in 0..50 {
        let (x, y) = fixed_offset(&c);
        assert!(x.abs() <= 5 && y.abs() <= 5);
        let (x, y) = cursor_offset(&c).unwrap();
        assert!(x.abs() <= 5 && y.abs() <= 5);
    }
    let mut running = false;
    assert_eq!(begin_autoclicking(&mut running), Ok(()));
    assert_eq!(begin_autoclicking(&mut running), Err("Already running".to_string()));
}

#[test]
fn autoclicker_loop_steps() {
    let mut c = AutoClickerConfig::default();
    assert_eq!(next_step(&c, 0, 0, ""), ClickerStep::Click);
    c.window_target = "notepad".to_string();
    assert_eq!(next_step(&c, 0, 0, "Calculator"), ClickerStep::WaitForWindow);
    assert_eq!(next_step(&c, 0, 0, "Untitled - NOTEPAD"), ClickerStep::Click);
    c.stop_after_clicks = 2;
    assert_eq!(next_step(&c, 2, 0, "Calculator"), ClickerStep::Stop);
    assert_eq!(next_step(&c, 1, 0, "notepad"), ClickerStep::Click);
}

#[test]
fn script_helpers() {
    assert_eq!(modifier_key("Ctrl"), Some(Key::Control));
    assert_eq!(modifier_key("CONTROL"), Some(Key::Control));
    assert_eq!(modifier_key("alt"), Some(Key::Alt));
    assert_eq!(modifier_key("Shift"), Some(Key::Shift));
    assert_eq!(modifier_key("Win"), Some(Key::Meta));
    assert_eq!(modifier_key("meta"), Some(Key::Meta));
    assert_eq!(modifier_key("hyper"), None);
    let mut running = false;
    assert_eq!(begin_script(&mut running), Ok(()));
    assert_eq!(begin_script(&mut running), Err("Script already running".to_string()));
    let log = vec!["a".to_string(), "b".to_string()];
    assert_eq!(script_outcome(log.clone(), None), Ok(log.clone()));
    assert_eq!(script_outcome(log, Some("boom".to_string())), Err("a\nb\nERROR: boom".to_string()));
    assert_eq!(script_outcome(vec![], Some("x".to_string())), Err("ERROR: x".to_string()));
    assert_eq!(hotkey_macro_name(0), "Hotkey_0");
    assert_eq!(hotkey_macro_name(u64::MAX), format!("Hotkey_{}", u64::MAX));
}

#[test]
fn timestamps_never_decrease_over_a_session() {
    let mut r = Recorder::new();
    r.start_recording(10_000).unwrap();
    let mut now = 10_000;
    for step in 0..40u64 {
        now += 37 * (step % 5);
        match step % 7 {
            2 => {
                r.pause_recording(now).unwrap();
            }
            5 => {
                if r.can_resume_at(now) {
                    r.resume_recording(now);
                }
            }
            _ => {
                r.record(key("KeyA"), now);
            }
        }
    }
    let ts: Vec<u64> = r.events().iter().map(|e| e.timestamp_ms).collect();
    assert!(ts.len() > 5);
    assert!(ts.windows(2).all(|w| w[0] <= w[1]));
}

#[test]
fn position_modes() {
    let mut c = AutoClickerConfig::default();
    assert_eq!(position_mode(&c), PositionMode::Cursor);
    c.position_mode = "fixed".to_string();
    assert_eq!(position_mode(&c), PositionMode::Fixed);
    c.position_mode = "bbox".to_string();
    assert_eq!(position_mode(&c), PositionMode::BoundingBox);
    c.position_mode = "Fixed".to_string();
    assert_eq!(position_mode(&c), PositionMode::Cursor);
}
