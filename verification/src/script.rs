//! What surrounds running a user script: the run guard, modifier names for
//! hotkeys, and the report handed back.
use vstd::prelude::*;
use crate::player::Key;
use crate::text::{chars_of, str_eq, owned, append_chars, string_from_chars, decimal, decimal_chars};
use crate::window::{to_lowercase, lowercase};

verus! {

/// The modifier a hotkey names, ignoring case: ctrl/control, alt, shift,
/// win/meta.
pub open spec fn modifier_for(name: Seq<char>) -> Option<Key> {
    let l = lowercase(name);
    if l == "ctrl"@ || l == "control"@ {
        Some(Key::Control)
    } else if l == "alt"@ {
        Some(Key::Alt)
    } else if l == "shift"@ {
        Some(Key::Shift)
    } else if l == "win"@ || l == "meta"@ {
        Some(Key::Meta)
    } else {
        None
    }
}

pub fn modifier_key(name: &str) -> (k: Option<Key>)
    ensures
        k == modifier_for(name@),
{
    let l = to_lowercase(name);
    let l = l.as_str();
    if str_eq(l, "ctrl") || str_eq(l, "control") {
        Some(Key::Control)
    } else if str_eq(l, "alt") {
        Some(Key::Alt)
    } else if str_eq(l, "shift") {
        Some(Key::Shift)
    } else if str_eq(l, "win") || str_eq(l, "meta") {
        Some(Key::Meta)
    } else {
        None
    }
}

pub open spec fn script_running_message() -> Seq<char> {
    "Script already running"@
}

/// Claims the script runner: refused while a script runs.
pub fn begin_script(running: &mut bool) -> (res: Result<(), String>)
    ensures
        *old(running) ==> res is Err && res->Err_0@ == script_running_message() && *final(running),
        !*old(running) ==> res is Ok && *final(running),
{
    if *running {
        return Err(owned("Script already running"));
    }
    *running = true;
    Ok(())
}

/// The lines joined with `sep` between them.
pub open spec fn join_lines(lines: Seq<Seq<char>>, sep: Seq<char>) -> Seq<char>
    decreases lines.len(),
{
    if lines.len() == 0 {
        Seq::empty()
    } else if lines.len() == 1 {
        lines[0]
    } else {
        join_lines(lines.drop_last(), sep) + sep + lines.last()
    }
}

pub open spec fn views(lines: Seq<String>) -> Seq<Seq<char>> {
    lines.map_values(|s: String| s@)
}

/// What a script run reports: its log when it succeeded; when it failed, the
/// log with a last line `ERROR: <message>`, joined by newlines.
pub fn script_outcome(log: Vec<String>, error: Option<String>) -> (res: Result<Vec<String>, String>)
    ensures
        error is None ==> res is Ok && res->Ok_0@ == log@,
        error matches Some(e) ==> res is Err
            && res->Err_0@ == join_lines(views(log@).push("ERROR: "@ + e@), "\n"@),
{
    match error {
        None => Ok(log),
        Some(e) => {
            let mut last = chars_of("ERROR: ");
            append_chars(&mut last, &chars_of(e.as_str()));
            let sep = chars_of("\n");
            let ghost lines = views(log@).push(last@);
            let mut out: Vec<char> = Vec::new();
            let mut i: usize = 0;
            while i < log.len()
                invariant
                    i <= log.len(),
                    lines == views(log@).push(last@),
                    sep@ == "\n"@,
                    out@ == join_lines(lines.take(i as int), sep@),
                decreases log.len() - i,
            {
                if i > 0 {
                    append_chars(&mut out, &sep);
                }
                append_chars(&mut out, &chars_of(log[i].as_str()));
                proof {
                    assert(lines.take(i + 1).drop_last() == lines.take(i as int));
                    assert(lines.take(i + 1).last() == log@[i as int]@);
                    if i == 0 {
                        assert(out@ == log@[0]@);
                    }
                }
                i = i + 1;
            }
            if i > 0 {
                append_chars(&mut out, &sep);
            }
            append_chars(&mut out, &last);
            proof {
                assert(lines.take(i + 1) == lines);
                assert(lines.take(i + 1).drop_last() == lines.take(i as int));
            }
            Err(string_from_chars(&out))
        },
    }
}

/// The name a macro recorded by hotkey gets: `Hotkey_<unix seconds>`.
pub fn hotkey_macro_name(secs: u64) -> (r: String)
    ensures
        r@ == "Hotkey_"@ + decimal(secs as nat),
{
    let mut v = chars_of("Hotkey_");
    append_chars(&mut v, &decimal_chars(secs));
    string_from_chars(&v)
}

} // verus!
