use macro_recorder::variables::VariableStore;

fn sub(store: &mut VariableStore, text: &str) -> String {
    store.substitute_with(text, "2024-01-02", "03:04:05", "2024-01-02 03:04:05", "CLIP")
}

#[test]
fn date_time_and_clipboard_tokens() {
    let mut s = VariableStore::new();
    assert_eq!(sub(&mut s, "{date} {time} {datetime} {clipboard}"), "2024-01-02 03:04:05 2024-01-02 03:04:05 CLIP");
}

#[test]
fn default_counter_bumps_once_per_text() {
    let mut s = VariableStore::new();
    assert_eq!(sub(&mut s, "n={counter} again={counter}"), "n=1 again=1");
    assert_eq!(sub(&mut s, "{counter}"), "2");
    assert_eq!(s.counter("__default__"), 2);
    assert_eq!(sub(&mut s, "no counter"), "no counter");
    assert_eq!(s.counter("__default__"), 2);
}

#[test]
fn named_counters_bump_per_token() {
    let mut s = VariableStore::new();
    assert_eq!(sub(&mut s, "{counter:a}-{counter:a}-{counter:b}"), "1-2-1");
    assert_eq!(s.counter("a"), 2);
    assert_eq!(s.counter("b"), 1);
    assert_eq!(s.counter("c"), 0);
    // An unclosed token is left as it is.
    assert_eq!(sub(&mut s, "x{counter:a"), "x{counter:a");
    assert_eq!(s.counter("a"), 2);
}

#[test]
fn reset_counter_starts_again() {
    let mut s = VariableStore::new();
    sub(&mut s, "{counter:x}{counter:x}{counter}");
    s.reset_counter(Some("x".to_string()));
    assert_eq!(sub(&mut s, "{counter:x}"), "1");
    s.reset_counter(None);
    assert_eq!(sub(&mut s, "{counter}"), "1");
}

#[test]
fn bump_counter_counts_up() {
    let mut s = VariableStore::new();
    assert_eq!(s.bump_counter("k"), 1);
    assert_eq!(s.bump_counter("k"), 2);
    assert_eq!(s.bump_counter("other"), 1);
}

#[test]
fn user_variables_are_substituted() {
    let mut s = VariableStore::new();
    s.set_variable("name".to_string(), "Ada".to_string());
    s.set_variable("greeting".to_string(), "Hi {name}".to_string());
    assert_eq!(sub(&mut s, "{name}!"), "Ada!");
    // Variables apply in the order they were first set.
    assert_eq!(sub(&mut s, "{greeting}"), "Hi {name}");
    s.set_variable("name".to_string(), "Bob".to_string());
    assert_eq!(sub(&mut s, "{name}"), "Bob");
    s.delete_variable("name");
    assert_eq!(sub(&mut s, "{name}"), "{name}");
    s.delete_variable("missing");
}

#[test]
fn plain_text_passes_unchanged() {
    let mut s = VariableStore::new();
    s.set_variable("a".to_string(), "b".to_string());
    assert_eq!(sub(&mut s, "plain text, no tokens"), "plain text, no tokens");
    assert_eq!(s.counter("__default__"), 0);
}

#[test]
fn get_variables_lists_builtins_and_user_values() {
    let mut s = VariableStore::new();
    s.set_variable("x".to_string(), "1".to_string());
    s.set_variable("clipboard".to_string(), "override".to_string());
    let vars = s.get_variables_with("D", "T", "DT", "C");
    let get = |k: &str| vars.iter().find(|(n, _)| n == k).map(|(_, v)| v.clone());
    assert_eq!(get("date"), Some("D".to_string()));
    assert_eq!(get("time"), Some("T".to_string()));
    assert_eq!(get("datetime"), Some("DT".to_string()));
    assert_eq!(get("clipboard"), Some("override".to_string()));
    assert_eq!(get("x"), Some("1".to_string()));
    assert_eq!(vars.len(), 5);
}

#[test]
fn substitute_uses_the_clock() {
    let mut s = VariableStore::new();
    let out = s.substitute("{date}|{time}", "");
    let parts: Vec<&str> = out.split('|').collect();
    assert_eq!(parts.len(), 2);
    assert_eq!(parts[0].len(), 10);
    assert_eq!(&parts[0][4..5], "-");
    assert_eq!(parts[1].len(), 8);
    assert_eq!(&parts[1][2..3], ":");
    let preview = s.preview_variable("{counter}".to_string(), "");
    assert_eq!(preview, "1");
    let vars = s.get_variables("clip");
    assert!(vars.iter().any(|(k, v)| k == "clipboard" && v == "clip"));
}

#[test]
fn default_counter_bumps_once_among_date_and_time_tokens() {
    let mut s = VariableStore::new();
    assert_eq!(sub(&mut s, "{date}{counter}{time}{counter}{datetime}"), "2024-01-02103:04:0512024-01-02 03:04:05");
    assert_eq!(s.counter("__default__"), 1);
    assert_eq!(sub(&mut s, "{clipboard}{date}"), "CLIP2024-01-02");
    assert_eq!(s.counter("__default__"), 1);
}

#[test]
fn substitution_uses_clock_shaped_values() {
    let mut s = VariableStore::new();
    let out = s.substitute("{date}|{time}", "");
    let parts: Vec<&str> = out.split('|').collect();
    assert_eq!(parts.len(), 2);
    let (d, t) = (parts[0], parts[1]);
    assert_eq!(d.len(), 10);
    assert_eq!(&d[4..5], "-");
    assert_eq!(&d[7..8], "-");
    assert_eq!(t.len(), 8);
    assert_eq!(&t[2..3], ":");
    assert_eq!(&t[5..6], ":");
}
