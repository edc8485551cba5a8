//! What playback needs besides the input devices: key and button names,
//! the delays between events, and edits to stored macros.
use vstd::prelude::*;
use crate::types::{Macro, MacroEvent, MacroEventData, spec_duration_of, duration_of};
use crate::text::{chars_of, str_eq, owned, string_from_chars, append_chars};

verus! {

/// A key that playback can press.
#[derive(Debug, Clone, Copy, PartialEq, Eq, Structural)]
pub enum Key {
    Return, Space, Backspace, Tab, Escape, Delete, Home, End, PageUp, PageDown,
    UpArrow, DownArrow, LeftArrow, RightArrow, Shift, Control, Alt, Meta, CapsLock,
    F1, F2, F3, F4, F5, F6, F7, F8, F9, F10, F11, F12,
    /// A character, typed as such.
    Unicode(char),
}

/// A mouse button.
#[derive(Debug, Clone, Copy, PartialEq, Eq, Structural)]
pub enum MouseButton {
    Left,
    Right,
    Middle,
}

/// The button a recorded button name stands for; anything unknown clicks
/// the left button.
pub open spec fn button_for(s: Seq<char>) -> MouseButton {
    if s == "Right"@ {
        MouseButton::Right
    } else if s == "Middle"@ {
        MouseButton::Middle
    } else {
        MouseButton::Left
    }
}

pub fn parse_button(s: &str) -> (b: MouseButton)
    ensures
        b == button_for(s@),
{
    if str_eq(s, "Right") {
        MouseButton::Right
    } else if str_eq(s, "Middle") {
        MouseButton::Middle
    } else {
        MouseButton::Left
    }
}

/// `char::to_ascii_lowercase`: 'A' to 'Z' become 'a' to 'z', every other
/// character stays.
pub open spec fn ascii_lower(c: char) -> char {
    if 'A' <= c && c <= 'Z' { ((c as u32) + 32) as char } else { c }
}

pub fn to_ascii_lowercase(c: char) -> (r: char)
    ensures
        r == ascii_lower(c),
{
    if 'A' <= c && c <= 'Z' {
        ((c as u8) + 32) as char
    } else {
        c
    }
}

/// A name of four characters made of `prefix` and one ASCII character
/// (four bytes in all).
pub open spec fn prefixed_ascii(s: Seq<char>, prefix: Seq<char>) -> bool {
    s.len() == 4 && s.take(3) == prefix && (s[3] as u32) < 128
}

/// The key a recorded key name stands for: the named keys, `Key<c>` for the
/// letter `c` in lower case, `Num<c>` for the character `c`; `None` for any
/// other name.
pub open spec fn key_for(s: Seq<char>) -> Option<Key> {
    if s == "Return"@ || s == "KpReturn"@ { Some(Key::Return) }
    else if s == "Space"@ { Some(Key::Space) }
    else if s == "BackSpace"@ { Some(Key::Backspace) }
    else if s == "Tab"@ { Some(Key::Tab) }
    else if s == "Escape"@ { Some(Key::Escape) }
    else if s == "Delete"@ { Some(Key::Delete) }
    else if s == "Home"@ { Some(Key::Home) }
    else if s == "End"@ { Some(Key::End) }
    else if s == "PageUp"@ { Some(Key::PageUp) }
    else if s == "PageDown"@ { Some(Key::PageDown) }
    else if s == "UpArrow"@ { Some(Key::UpArrow) }
    else if s == "DownArrow"@ { Some(Key::DownArrow) }
    else if s == "LeftArrow"@ { Some(Key::LeftArrow) }
    else if s == "RightArrow"@ { Some(Key::RightArrow) }
    else if s == "ShiftLeft"@ || s == "ShiftRight"@ { Some(Key::Shift) }
    else if s == "ControlLeft"@ || s == "ControlRight"@ { Some(Key::Control) }
    else if s == "Alt"@ || s == "AltGr"@ { Some(Key::Alt) }
    else if s == "MetaLeft"@ || s == "MetaRight"@ { Some(Key::Meta) }
    else if s == "CapsLock"@ { Some(Key::CapsLock) }
    else if s == "F1"@ { Some(Key::F1) }
    else if s == "F2"@ { Some(Key::F2) }
    else if s == "F3"@ { Some(Key::F3) }
    else if s == "F4"@ { Some(Key::F4) }
    else if s == "F5"@ { Some(Key::F5) }
    else if s == "F6"@ { Some(Key::F6) }
    else if s == "F7"@ { Some(Key::F7) }
    else if s == "F8"@ { Some(Key::F8) }
    else if s == "F9"@ { Some(Key::F9) }
    else if s == "F10"@ { Some(Key::F10) }
    else if s == "F11"@ { Some(Key::F11) }
    else if s == "F12"@ { Some(Key::F12) }
    else if prefixed_ascii(s, "Key"@) { Some(Key::Unicode(ascii_lower(s[3]))) }
    else if prefixed_ascii(s, "Num"@) { Some(Key::Unicode(s[3])) }
    else { None }
}

fn is_prefixed_ascii(s: &Vec<char>, prefix: &str) -> (r: bool)
    ensures
        r == prefixed_ascii(s@, prefix@),
{
    if s.len() != 4 {
        return false;
    }
    let p = chars_of(prefix);
    if p.len() != 3 {
        return false;
    }
    let head = crate::text::slice_chars(s, 0, 3);
    crate::text::chars_eq(&head, &p) && (s[3] as u32) < 128
}

/// The key a recorded key name stands for.
pub fn parse_key(s: &str) -> (k: Option<Key>)
    ensures
        k == key_for(s@),
{
    if str_eq(s, "Return") || str_eq(s, "KpReturn") { return Some(Key::Return); }
    if str_eq(s, "Space") { return Some(Key::Space); }
    if str_eq(s, "BackSpace") { return Some(Key::Backspace); }
    if str_eq(s, "Tab") { return Some(Key::Tab); }
    if str_eq(s, "Escape") { return Some(Key::Escape); }
    if str_eq(s, "Delete") { return Some(Key::Delete); }
    if str_eq(s, "Home") { return Some(Key::Home); }
    if str_eq(s, "End") { return Some(Key::End); }
    if str_eq(s, "PageUp") { return Some(Key::PageUp); }
    if str_eq(s, "PageDown") { return Some(Key::PageDown); }
    if str_eq(s, "UpArrow") { return Some(Key::UpArrow); }
    if str_eq(s, "DownArrow") { return Some(Key::DownArrow); }
    if str_eq(s, "LeftArrow") { return Some(Key::LeftArrow); }
    if str_eq(s, "RightArrow") { return Some(Key::RightArrow); }
    if str_eq(s, "ShiftLeft") || str_eq(s, "ShiftRight") { return Some(Key::Shift); }
    if str_eq(s, "ControlLeft") || str_eq(s, "ControlRight") { return Some(Key::Control); }
    if str_eq(s, "Alt") || str_eq(s, "AltGr") { return Some(Key::Alt); }
    if str_eq(s, "MetaLeft") || str_eq(s, "MetaRight") { return Some(Key::Meta); }
    if str_eq(s, "CapsLock") { return Some(Key::CapsLock); }
    if str_eq(s, "F1") { return Some(Key::F1); }
    if str_eq(s, "F2") { return Some(Key::F2); }
    if str_eq(s, "F3") { return Some(Key::F3); }
    if str_eq(s, "F4") { return Some(Key::F4); }
    if str_eq(s, "F5") { return Some(Key::F5); }
    if str_eq(s, "F6") { return Some(Key::F6); }
    if str_eq(s, "F7") { return Some(Key::F7); }
    if str_eq(s, "F8") { return Some(Key::F8); }
    if str_eq(s, "F9") { return Some(Key::F9); }
    if str_eq(s, "F10") { return Some(Key::F10); }
    if str_eq(s, "F11") { return Some(Key::F11); }
    if str_eq(s, "F12") { return Some(Key::F12); }
    let cs = chars_of(s);
    if is_prefixed_ascii(&cs, "Key") {
        return Some(Key::Unicode(to_ascii_lowercase(cs[3])));
    }
    if is_prefixed_ascii(&cs, "Num") {
        return Some(Key::Unicode(cs[3]));
    }
    None
}

} // verus!

verus! {

/// The wait before each event: the time since the previous event (since 0
/// for the first), never negative.
pub open spec fn delays(events: Seq<MacroEvent>) -> Seq<u64> {
    Seq::new(events.len(), |i: int| {
        let prev = if i == 0 { 0 } else { events[i - 1].timestamp_ms };
        if events[i].timestamp_ms >= prev { (events[i].timestamp_ms - prev) as u64 } else { 0u64 }
    })
}

/// The unscaled waits that playback makes before each event.
pub fn event_delays(events: &Vec<MacroEvent>) -> (res: Vec<u64>)
    ensures
        res@ == delays(events@),
{
    let mut res: Vec<u64> = Vec::new();
    let mut prev_ts: u64 = 0;
    for i in 0..events.len()
        invariant
            res@.len() == i,
            forall|k: int| 0 <= k < i ==> res@[k] == delays(events@)[k],
            prev_ts == (if i == 0 { 0 } else { events@[i - 1].timestamp_ms }),
    {
        let ts = events[i].timestamp_ms;
        res.push(ts.saturating_sub(prev_ts));
        prev_ts = ts;
    }
    assert(res@ =~= delays(events@));
    res
}

pub open spec fn already_playing_message() -> Seq<char> {
    seq!['A', 'l', 'r', 'e', 'a', 'd', 'y', ' ', 'p', 'l', 'a', 'y', 'i', 'n', 'g']
}

/// Claims the player for a new playback: refused while one is running.
pub fn begin_playback(playing: &mut bool) -> (res: Result<(), String>)
    ensures
        *old(playing) ==> res is Err && res->Err_0@ == already_playing_message() && *final(playing),
        !*old(playing) ==> res is Ok && *final(playing),
{
    if *playing {
        let m = owned("Already playing");
        proof { reveal_strlit("Already playing"); }
        return Err(m);
    }
    *playing = true;
    Ok(())
}

/// The macro with its events replaced; the duration follows the last event.
pub fn with_events(m: Macro, events: Vec<MacroEvent>) -> (res: Macro)
    ensures
        res.events@ == events@,
        res.duration_ms == spec_duration_of(events@),
        res.name == m.name,
        res.tags@ == m.tags@,
        res.description == m.description,
        res.relative_window == m.relative_window,
{
    let mut m = m;
    m.duration_ms = duration_of(&events);
    m.events = events;
    m
}

/// The macro with new tags and description.
pub fn with_meta(m: Macro, tags: Vec<String>, description: String) -> (res: Macro)
    ensures
        res.tags@ == tags@,
        res.description == description,
        res.name == m.name,
        res.events@ == m.events@,
        res.duration_ms == m.duration_ms,
        res.relative_window == m.relative_window,
{
    let mut m = m;
    m.tags = tags;
    m.description = description;
    m
}

/// A script saved as a macro: one step at time 0 that runs it, tagged
/// "script".
pub fn script_macro(name: String, script: String) -> (res: Macro)
    ensures
        res.name == name,
        res.events@.len() == 1,
        res.events@[0] == (MacroEvent { timestamp_ms: 0, event: MacroEventData::RunScript { script } }),
        res.duration_ms == 0,
        res.tags@.len() == 1,
        res.tags@[0]@ == "script"@,
        res.description@ == "Rhai script macro"@,
        res.relative_window is None,
{
    let mut events: Vec<MacroEvent> = Vec::new();
    events.push(MacroEvent { timestamp_ms: 0, event: MacroEventData::RunScript { script } });
    let mut tags: Vec<String> = Vec::new();
    tags.push(owned("script"));
    Macro {
        name,
        events,
        duration_ms: 0,
        tags,
        description: owned("Rhai script macro"),
        relative_window: None,
    }
}

// ── File names ────────────────────────────────────────────────────────────────

/// `char::is_alphanumeric`: the character is alphabetic or numeric in the
/// Unicode sense.
pub uninterp spec fn is_alphanumeric(c: char) -> bool;

/// An ASCII letter or digit.
pub open spec fn ascii_alnum(c: char) -> bool {
    ('0' <= c && c <= '9') || ('a' <= c && c <= 'z') || ('A' <= c && c <= 'Z')
}

/// Every ASCII character is a letter, a digit, `-` or `_`: no `/`, `\`, `.`,
/// `:` or space can occur, so the text names no other directory.
pub open spec fn file_safe(s: Seq<char>) -> bool {
    forall|i: int| 0 <= i < s.len() && (#[trigger] s[i] as u32) < 128
        ==> ascii_alnum(s[i]) || s[i] == '-' || s[i] == '_'
}

/// Calls `char::is_alphanumeric`, which is alphabetic or numeric in the
/// Unicode sense; among ASCII characters those are exactly the letters and
/// digits.
#[verifier::external_body]
fn char_is_alphanumeric(c: char) -> (r: bool)
    ensures
        r == is_alphanumeric(c),
        (c as u32) < 128 ==> (r <==> ascii_alnum(c)),
{
    c.is_alphanumeric()
}

/// A name made safe for a file: letters, digits, `-` and `_` stay, every
/// other character becomes `_`.
pub open spec fn safe_name_spec(name: Seq<char>) -> Seq<char> {
    name.map_values(|c: char| if is_alphanumeric(c) || c == '-' || c == '_' { c } else { '_' })
}

pub fn safe_name(name: &str) -> (res: String)
    ensures
        res@ == safe_name_spec(name@),
        file_safe(res@),
{
    let cs = chars_of(name);
    let mut out: Vec<char> = Vec::new();
    for i in 0..cs.len()
        invariant
            out@ =~= safe_name_spec(cs@.take(i as int)),
            cs@ == name@,
            file_safe(out@),
    {
        let c = cs[i];
        let keep = char_is_alphanumeric(c) || c == '-' || c == '_';
        out.push(if keep { c } else { '_' });
        assert(cs@.take(i + 1) == cs@.take(i as int).push(c));
    }
    assert(cs@.take(cs@.len() as int) == cs@);
    string_from_chars(&out)
}

/// The file a macro or profile with this name is stored in.
pub fn json_file_name(name: &str) -> (res: String)
    ensures
        res@ == safe_name_spec(name@) + ".json"@,
        file_safe(safe_name_spec(name@)),
{
    let mut v = chars_of(safe_name(name).as_str());
    append_chars(&mut v, &chars_of(".json"));
    string_from_chars(&v)
}

/// Renaming for a file changes the characters, never their number.
pub proof fn law_safe_name_keeps_length(name: Seq<char>)
    ensures
        safe_name_spec(name).len() == name.len(),
{
}

/// A name that is already safe stays as it is.
pub proof fn law_safe_name_idempotent(name: Seq<char>)
    ensures
        safe_name_spec(safe_name_spec(name)) == safe_name_spec(name),
{
    assert(safe_name_spec(safe_name_spec(name)) =~= safe_name_spec(name));
}

} // verus!

verus! {

/// The recorded names of each named key; a character key has none.
pub open spec fn key_names(k: Key) -> Set<Seq<char>> {
    match k {
        Key::Return => set!["Return"@, "KpReturn"@],
        Key::Space => set!["Space"@],
        Key::Backspace => set!["BackSpace"@],
        Key::Tab => set!["Tab"@],
        Key::Escape => set!["Escape"@],
        Key::Delete => set!["Delete"@],
        Key::Home => set!["Home"@],
        Key::End => set!["End"@],
        Key::PageUp => set!["PageUp"@],
        Key::PageDown => set!["PageDown"@],
        Key::UpArrow => set!["UpArrow"@],
        Key::DownArrow => set!["DownArrow"@],
        Key::LeftArrow => set!["LeftArrow"@],
        Key::RightArrow => set!["RightArrow"@],
        Key::Shift => set!["ShiftLeft"@, "ShiftRight"@],
        Key::Control => set!["ControlLeft"@, "ControlRight"@],
        Key::Alt => set!["Alt"@, "AltGr"@],
        Key::Meta => set!["MetaLeft"@, "MetaRight"@],
        Key::CapsLock => set!["CapsLock"@],
        Key::F1 => set!["F1"@],
        Key::F2 => set!["F2"@],
        Key::F3 => set!["F3"@],
        Key::F4 => set!["F4"@],
        Key::F5 => set!["F5"@],
        Key::F6 => set!["F6"@],
        Key::F7 => set!["F7"@],
        Key::F8 => set!["F8"@],
        Key::F9 => set!["F9"@],
        Key::F10 => set!["F10"@],
        Key::F11 => set!["F11"@],
        Key::F12 => set!["F12"@],
        Key::Unicode(_) => Set::empty(),
    }
}

/// A recorded name gives a named key only if it is one of that key's
/// names: keys of different names are never confused.
pub proof fn law_named_key_has_that_name(s: Seq<char>)
    ensures
        key_for(s) is Some && !(key_for(s)->0 is Unicode) ==> key_names(key_for(s)->0).contains(s),
{
}

/// Every name of a named key gives that key.
pub proof fn law_key_names_give_their_key(k: Key, name: Seq<char>)
    requires
        key_names(k).contains(name),
    ensures
        key_for(name) == Some(k),
{
    reveal_strlit("Alt");
    reveal_strlit("AltGr");
    reveal_strlit("BackSpace");
    reveal_strlit("CapsLock");
    reveal_strlit("ControlLeft");
    reveal_strlit("ControlRight");
    reveal_strlit("Delete");
    reveal_strlit("DownArrow");
    reveal_strlit("End");
    reveal_strlit("Escape");
    reveal_strlit("F1");
    reveal_strlit("F10");
    reveal_strlit("F11");
    reveal_strlit("F12");
    reveal_strlit("F2");
    reveal_strlit("F3");
    reveal_strlit("F4");
    reveal_strlit("F5");
    reveal_strlit("F6");
    reveal_strlit("F7");
    reveal_strlit("F8");
    reveal_strlit("F9");
    reveal_strlit("Home");
    reveal_strlit("Key");
    reveal_strlit("KpReturn");
    reveal_strlit("LeftArrow");
    reveal_strlit("MetaLeft");
    reveal_strlit("MetaRight");
    reveal_strlit("Num");
    reveal_strlit("PageDown");
    reveal_strlit("PageUp");
    reveal_strlit("Return");
    reveal_strlit("RightArrow");
    reveal_strlit("ShiftLeft");
    reveal_strlit("ShiftRight");
    reveal_strlit("Space");
    reveal_strlit("Tab");
    reveal_strlit("UpArrow");
    assert("Return"@.len() == 6);
    assert("KpReturn"@.len() == 8);
    assert("Space"@.len() == 5);
    assert("BackSpace"@.len() == 9);
    assert("Tab"@.len() == 3);
    assert("Escape"@.len() == 6);
    assert("Delete"@.len() == 6);
    assert("Home"@.len() == 4);
    assert("End"@.len() == 3);
    assert("PageUp"@.len() == 6);
    assert("PageDown"@.len() == 8);
    assert("UpArrow"@.len() == 7);
    assert("DownArrow"@.len() == 9);
    assert("LeftArrow"@.len() == 9);
    assert("RightArrow"@.len() == 10);
    assert("ShiftLeft"@.len() == 9);
    assert("ShiftRight"@.len() == 10);
    assert("ControlLeft"@.len() == 11);
    assert("ControlRight"@.len() == 12);
    assert("Alt"@.len() == 3);
    assert("AltGr"@.len() == 5);
    assert("MetaLeft"@.len() == 8);
    assert("MetaRight"@.len() == 9);
    assert("CapsLock"@.len() == 8);
    assert("F1"@.len() == 2);
    assert("F2"@.len() == 2);
    assert("F3"@.len() == 2);
    assert("F4"@.len() == 2);
    assert("F5"@.len() == 2);
    assert("F6"@.len() == 2);
    assert("F7"@.len() == 2);
    assert("F8"@.len() == 2);
    assert("F9"@.len() == 2);
    assert("F10"@.len() == 3);
    assert("F11"@.len() == 3);
    assert("F12"@.len() == 3);
    assert("Escape"@[0] == 'E' && "Return"@[0] == 'R');
    assert("Delete"@[0] == 'D' && "Return"@[0] == 'R');
    assert("Delete"@[0] == 'D' && "Escape"@[0] == 'E');
    assert("End"@[0] == 'E' && "Tab"@[0] == 'T');
    assert("PageUp"@[0] == 'P' && "Return"@[0] == 'R');
    assert("PageUp"@[0] == 'P' && "Escape"@[0] == 'E');
    assert("PageUp"@[0] == 'P' && "Delete"@[0] == 'D');
    assert("PageDown"@[0] == 'P' && "KpReturn"@[0] == 'K');
    assert("DownArrow"@[0] == 'D' && "BackSpace"@[0] == 'B');
    assert("LeftArrow"@[0] == 'L' && "BackSpace"@[0] == 'B');
    assert("LeftArrow"@[0] == 'L' && "DownArrow"@[0] == 'D');
    assert("ShiftLeft"@[0] == 'S' && "BackSpace"@[0] == 'B');
    assert("ShiftLeft"@[0] == 'S' && "DownArrow"@[0] == 'D');
    assert("ShiftLeft"@[0] == 'S' && "LeftArrow"@[0] == 'L');
    assert("ShiftRight"@[0] == 'S' && "RightArrow"@[0] == 'R');
    assert("Alt"@[0] == 'A' && "Tab"@[0] == 'T');
    assert("Alt"@[0] == 'A' && "End"@[0] == 'E');
    assert("AltGr"@[0] == 'A' && "Space"@[0] == 'S');
    assert("MetaLeft"@[0] == 'M' && "KpReturn"@[0] == 'K');
    assert("MetaLeft"@[0] == 'M' && "PageDown"@[0] == 'P');
    assert("MetaRight"@[0] == 'M' && "BackSpace"@[0] == 'B');
    assert("MetaRight"@[0] == 'M' && "DownArrow"@[0] == 'D');
    assert("MetaRight"@[0] == 'M' && "LeftArrow"@[0] == 'L');
    assert("MetaRight"@[0] == 'M' && "ShiftLeft"@[0] == 'S');
    assert("CapsLock"@[0] == 'C' && "KpReturn"@[0] == 'K');
    assert("CapsLock"@[0] == 'C' && "PageDown"@[0] == 'P');
    assert("CapsLock"@[0] == 'C' && "MetaLeft"@[0] == 'M');
    assert("F2"@[1] == '2' && "F1"@[1] == '1');
    assert("F3"@[1] == '3' && "F1"@[1] == '1');
    assert("F3"@[1] == '3' && "F2"@[1] == '2');
    assert("F4"@[1] == '4' && "F1"@[1] == '1');
    assert("F4"@[1] == '4' && "F2"@[1] == '2');
    assert("F4"@[1] == '4' && "F3"@[1] == '3');
    assert("F5"@[1] == '5' && "F1"@[1] == '1');
    assert("F5"@[1] == '5' && "F2"@[1] == '2');
    assert("F5"@[1] == '5' && "F3"@[1] == '3');
    assert("F5"@[1] == '5' && "F4"@[1] == '4');
    assert("F6"@[1] == '6' && "F1"@[1] == '1');
    assert("F6"@[1] == '6' && "F2"@[1] == '2');
    assert("F6"@[1] == '6' && "F3"@[1] == '3');
    assert("F6"@[1] == '6' && "F4"@[1] == '4');
    assert("F6"@[1] == '6' && "F5"@[1] == '5');
    assert("F7"@[1] == '7' && "F1"@[1] == '1');
    assert("F7"@[1] == '7' && "F2"@[1] == '2');
    assert("F7"@[1] == '7' && "F3"@[1] == '3');
    assert("F7"@[1] == '7' && "F4"@[1] == '4');
    assert("F7"@[1] == '7' && "F5"@[1] == '5');
    assert("F7"@[1] == '7' && "F6"@[1] == '6');
    assert("F8"@[1] == '8' && "F1"@[1] == '1');
    assert("F8"@[1] == '8' && "F2"@[1] == '2');
    assert("F8"@[1] == '8' && "F3"@[1] == '3');
    assert("F8"@[1] == '8' && "F4"@[1] == '4');
    assert("F8"@[1] == '8' && "F5"@[1] == '5');
    assert("F8"@[1] == '8' && "F6"@[1] == '6');
    assert("F8"@[1] == '8' && "F7"@[1] == '7');
    assert("F9"@[1] == '9' && "F1"@[1] == '1');
    assert("F9"@[1] == '9' && "F2"@[1] == '2');
    assert("F9"@[1] == '9' && "F3"@[1] == '3');
    assert("F9"@[1] == '9' && "F4"@[1] == '4');
    assert("F9"@[1] == '9' && "F5"@[1] == '5');
    assert("F9"@[1] == '9' && "F6"@[1] == '6');
    assert("F9"@[1] == '9' && "F7"@[1] == '7');
    assert("F9"@[1] == '9' && "F8"@[1] == '8');
    assert("F10"@[0] == 'F' && "Tab"@[0] == 'T');
    assert("F10"@[0] == 'F' && "End"@[0] == 'E');
    assert("F10"@[0] == 'F' && "Alt"@[0] == 'A');
    assert("F11"@[0] == 'F' && "Tab"@[0] == 'T');
    assert("F11"@[0] == 'F' && "End"@[0] == 'E');
    assert("F11"@[0] == 'F' && "Alt"@[0] == 'A');
    assert("F11"@[2] == '1' && "F10"@[2] == '0');
    assert("F12"@[0] == 'F' && "Tab"@[0] == 'T');
    assert("F12"@[0] == 'F' && "End"@[0] == 'E');
    assert("F12"@[0] == 'F' && "Alt"@[0] == 'A');
    assert("F12"@[2] == '2' && "F10"@[2] == '0');
    assert("F12"@[2] == '2' && "F11"@[2] == '1');
    match k {
        Key::Return => {
            assert(key_names(k) == set!["Return"@, "KpReturn"@]);
            assert(key_for("Return"@) == Some(Key::Return));
            assert(key_for("KpReturn"@) == Some(Key::Return));
        },
        Key::Space => {
            assert(key_names(k) == set!["Space"@]);
            assert(key_for("Space"@) == Some(Key::Space));
        },
        Key::Backspace => {
            assert(key_names(k) == set!["BackSpace"@]);
            assert(key_for("BackSpace"@) == Some(Key::Backspace));
        },
        Key::Tab => {
            assert(key_names(k) == set!["Tab"@]);
            assert(key_for("Tab"@) == Some(Key::Tab));
        },
        Key::Escape => {
            assert(key_names(k) == set!["Escape"@]);
            assert(key_for("Escape"@) == Some(Key::Escape));
        },
        Key::Delete => {
            assert(key_names(k) == set!["Delete"@]);
            assert(key_for("Delete"@) == Some(Key::Delete));
        },
        Key::Home => {
            assert(key_names(k) == set!["Home"@]);
            assert(key_for("Home"@) == Some(Key::Home));
        },
        Key::End => {
            assert(key_names(k) == set!["End"@]);
            assert(key_for("End"@) == Some(Key::End));
        },
        Key::PageUp => {
            assert(key_names(k) == set!["PageUp"@]);
            assert(key_for("PageUp"@) == Some(Key::PageUp));
        },
        Key::PageDown => {
            assert(key_names(k) == set!["PageDown"@]);
            assert(key_for("PageDown"@) == Some(Key::PageDown));
        },
        Key::UpArrow => {
            assert(key_names(k) == set!["UpArrow"@]);
            assert(key_for("UpArrow"@) == Some(Key::UpArrow));
        },
        Key::DownArrow => {
            assert(key_names(k) == set!["DownArrow"@]);
            assert(key_for("DownArrow"@) == Some(Key::DownArrow));
        },
        Key::LeftArrow => {
            assert(key_names(k) == set!["LeftArrow"@]);
            assert(key_for("LeftArrow"@) == Some(Key::LeftArrow));
        },
        Key::RightArrow => {
            assert(key_names(k) == set!["RightArrow"@]);
            assert(key_for("RightArrow"@) == Some(Key::RightArrow));
        },
        Key::Shift => {
            assert(key_names(k) == set!["ShiftLeft"@, "ShiftRight"@]);
            assert(key_for("ShiftLeft"@) == Some(Key::Shift));
            assert(key_for("ShiftRight"@) == Some(Key::Shift));
        },
        Key::Control => {
            assert(key_names(k) == set!["ControlLeft"@, "ControlRight"@]);
            assert(key_for("ControlLeft"@) == Some(Key::Control));
            assert(key_for("ControlRight"@) == Some(Key::Control));
        },
        Key::Alt => {
            assert(key_names(k) == set!["Alt"@, "AltGr"@]);
            assert(key_for("Alt"@) == Some(Key::Alt));
            assert(key_for("AltGr"@) == Some(Key::Alt));
        },
        Key::Meta => {
            assert(key_names(k) == set!["MetaLeft"@, "MetaRight"@]);
            assert(key_for("MetaLeft"@) == Some(Key::Meta));
            assert(key_for("MetaRight"@) == Some(Key::Meta));
        },
        Key::CapsLock => {
            assert(key_names(k) == set!["CapsLock"@]);
            assert(key_for("CapsLock"@) == Some(Key::CapsLock));
        },
        Key::F1 => {
            assert(key_names(k) == set!["F1"@]);
            assert(key_for("F1"@) == Some(Key::F1));
        },
        Key::F2 => {
            assert(key_names(k) == set!["F2"@]);
            assert(key_for("F2"@) == Some(Key::F2));
        },
        Key::F3 => {
            assert(key_names(k) == set!["F3"@]);
            assert(key_for("F3"@) == Some(Key::F3));
        },
        Key::F4 => {
            assert(key_names(k) == set!["F4"@]);
            assert(key_for("F4"@) == Some(Key::F4));
        },
        Key::F5 => {
            assert(key_names(k) == set!["F5"@]);
            assert(key_for("F5"@) == Some(Key::F5));
        },
        Key::F6 => {
            assert(key_names(k) == set!["F6"@]);
            assert(key_for("F6"@) == Some(Key::F6));
        },
        Key::F7 => {
            assert(key_names(k) == set!["F7"@]);
            assert(key_for("F7"@) == Some(Key::F7));
        },
        Key::F8 => {
            assert(key_names(k) == set!["F8"@]);
            assert(key_for("F8"@) == Some(Key::F8));
        },
        Key::F9 => {
            assert(key_names(k) == set!["F9"@]);
            assert(key_for("F9"@) == Some(Key::F9));
        },
        Key::F10 => {
            assert(key_names(k) == set!["F10"@]);
            assert(key_for("F10"@) == Some(Key::F10));
        },
        Key::F11 => {
            assert(key_names(k) == set!["F11"@]);
            assert(key_for("F11"@) == Some(Key::F11));
        },
        Key::F12 => {
            assert(key_names(k) == set!["F12"@]);
            assert(key_for("F12"@) == Some(Key::F12));
        },
        Key::Unicode(_) => {},
    }
}

} // verus!
