use macro_recorder::compression::{compress, compress_macro};
use macro_recorder::types::{Macro, MacroEvent, MacroEventData};

fn mv(ts: u64, x: f64, y: f64) -> MacroEvent {
    MacroEvent { timestamp_ms: ts, event: MacroEventData::MouseMove { x_bits: x.to_bits(), y_bits: y.to_bits() } }
}

fn press(ts: u64) -> MacroEvent {
    MacroEvent {
        timestamp_ms: ts,
        event: MacroEventData::MousePress { x_bits: 1.0f64.to_bits(), y_bits: 2.0f64.to_bits(), button: "Left".to_string() },
    }
}

fn key(ts: u64) -> MacroEvent {
    MacroEvent { timestamp_ms: ts, event: MacroEventData::KeyPress { key: "KeyA".to_string() } }
}

fn scroll(ts: u64) -> MacroEvent {
    MacroEvent { timestamp_ms: ts, event: MacroEventData::Scroll { delta_x: 0, delta_y: -1 } }
}

fn mk(events: Vec<MacroEvent>) -> Macro {
    Macro {
        name: "m".to_string(),
        duration_ms: 999,
        events,
        tags: vec!["t".to_string()],
        description: "d".to_string(),
        relative_window: Some("w".to_string()),
    }
}

fn stamps(m: &Macro) -> Vec<u64> {
    m.events.iter().map(|e| e.timestamp_ms).collect()
}

#[test]
fn keeps_only_last_move_before_click() {
    let m = mk(vec![mv(10, 0.0, 0.0), mv(20, 5.0, 5.0), mv(30, 10.0, 10.0), press(40)]);
    let c = compress(&m);
    assert_eq!(stamps(&c), vec![30, 40]);
    assert_eq!(c.duration_ms, 40);
    assert_eq!(c.name, "m");
    assert_eq!(c.tags, vec!["t".to_string()]);
    assert_eq!(c.description, "d");
    assert_eq!(c.relative_window, Some("w".to_string()));
}

#[test]
fn drops_moves_before_keys_and_trailing_moves() {
    let m = mk(vec![mv(1, 0.0, 0.0), key(2), mv(3, 1.0, 1.0), mv(4, 2.0, 2.0)]);
    let c = compress(&m);
    assert_eq!(stamps(&c), vec![2]);
    assert_eq!(c.duration_ms, 2);
}

#[test]
fn move_before_scroll_is_kept() {
    let m = mk(vec![mv(5, 3.0, 3.0), scroll(6), mv(7, 4.0, 4.0), press(8), key(9)]);
    let c = compress(&m);
    assert_eq!(stamps(&c), vec![5, 6, 7, 8, 9]);
}

#[test]
fn empty_macro_compresses_to_empty() {
    let c = compress_macro(mk(vec![]));
    assert!(c.events.is_empty());
    assert_eq!(c.duration_ms, 0);
}

#[test]
fn only_moves_compress_to_nothing() {
    let c = compress(&mk(vec![mv(1, 0.0, 0.0), mv(2, 0.0, 0.0)]));
    assert!(c.events.is_empty());
    assert_eq!(c.duration_ms, 0);
}

#[test]
fn compression_is_idempotent_on_example() {
    let m = mk(vec![mv(1, 0.0, 0.0), mv(2, 1.0, 1.0), press(3), mv(4, 2.0, 2.0), key(5), mv(6, 1.0, 1.0), scroll(7)]);
    let once = compress(&m);
    let twice = compress(&once);
    assert_eq!(stamps(&once), stamps(&twice));
    assert_eq!(stamps(&once), vec![2, 3, 5, 6, 7]);
}

#[test]
fn kept_move_keeps_its_coordinates() {
    let c = compress(&mk(vec![mv(1, 12.5, 7.25), press(2)]));
    match &c.events[0].event {
        MacroEventData::MouseMove { x_bits, y_bits } => {
            assert_eq!(f64::from_bits(*x_bits), 12.5);
            assert_eq!(f64::from_bits(*y_bits), 7.25);
        }
        _ => panic!("expected a move"),
    }
}
