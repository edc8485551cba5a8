//! The auto-clicker's decisions: when to stop, which button, how long to
//! hold and wait.
use vstd::prelude::*;
use crate::types::AutoClickerConfig;
use crate::player::MouseButton;
use crate::window::{active_window_matches, title_matches};
use crate::text::{str_eq, owned};
use rand::Rng;

verus! {

/// The auto-clicker stops after the configured number of clicks or seconds;
/// a limit of zero means none.
pub open spec fn stop_due(config: AutoClickerConfig, clicks: u64, elapsed_secs: u64) -> bool {
    (config.stop_after_clicks > 0 && clicks >= config.stop_after_clicks)
        || (config.stop_after_seconds > 0 && elapsed_secs >= config.stop_after_seconds)
}

pub fn should_stop(config: &AutoClickerConfig, clicks: u64, elapsed_secs: u64) -> (r: bool)
    ensures
        r == stop_due(*config, clicks, elapsed_secs),
{
    if config.stop_after_clicks > 0 && clicks >= config.stop_after_clicks as u64 {
        return true;
    }
    config.stop_after_seconds > 0 && elapsed_secs >= config.stop_after_seconds
}

/// What the auto-clicker does at the top of its loop.
#[derive(Debug, Clone, Copy, PartialEq, Eq, Structural)]
pub enum ClickerStep {
    /// A limit is reached: the auto-clicker ends.
    Stop,
    /// The target window is not in front: wait and look again.
    WaitForWindow,
    /// Place the next click.
    Click,
}

/// The next step after `clicks` clicks and `elapsed_secs` seconds, with the
/// foreground window titled `foreground_title`: stop at a limit, else wait
/// while a target window is named and not in front, else click.
pub open spec fn step_for(config: AutoClickerConfig, clicks: u64, elapsed_secs: u64, foreground_title: Seq<char>) -> ClickerStep {
    if stop_due(config, clicks, elapsed_secs) {
        ClickerStep::Stop
    } else if !title_matches(foreground_title, config.window_target@) {
        ClickerStep::WaitForWindow
    } else {
        ClickerStep::Click
    }
}

pub fn next_step(config: &AutoClickerConfig, clicks: u64, elapsed_secs: u64, foreground_title: &str) -> (s: ClickerStep)
    ensures
        s == step_for(*config, clicks, elapsed_secs, foreground_title@),
{
    if should_stop(config, clicks, elapsed_secs) {
        ClickerStep::Stop
    } else if !active_window_matches(config.window_target.as_str(), foreground_title) {
        ClickerStep::WaitForWindow
    } else {
        ClickerStep::Click
    }
}

/// Where the auto-clicker clicks.
#[derive(Debug, Clone, Copy, PartialEq, Eq, Structural)]
pub enum PositionMode {
    /// At the configured fixed point, jittered when humanising.
    Fixed,
    /// At a random point of the configured bounding box.
    BoundingBox,
    /// Where the cursor is, jittered when humanising.
    Cursor,
}

/// The mode that the configuration names: "fixed", "bbox", else the cursor.
pub open spec fn position_mode_for(name: Seq<char>) -> PositionMode {
    if name == "fixed"@ {
        PositionMode::Fixed
    } else if name == "bbox"@ {
        PositionMode::BoundingBox
    } else {
        PositionMode::Cursor
    }
}

pub fn position_mode(config: &AutoClickerConfig) -> (m: PositionMode)
    ensures
        m == position_mode_for(config.position_mode@),
{
    if str_eq(config.position_mode.as_str(), "fixed") {
        PositionMode::Fixed
    } else if str_eq(config.position_mode.as_str(), "bbox") {
        PositionMode::BoundingBox
    } else {
        PositionMode::Cursor
    }
}

/// The button that the configuration names: "right", "middle", else left.
pub open spec fn click_button_for(name: Seq<char>) -> MouseButton {
    if name == "right"@ {
        MouseButton::Right
    } else if name == "middle"@ {
        MouseButton::Middle
    } else {
        MouseButton::Left
    }
}

pub fn click_button(config: &AutoClickerConfig) -> (b: MouseButton)
    ensures
        b == click_button_for(config.click_button@),
{
    if str_eq(config.click_button.as_str(), "right") {
        MouseButton::Right
    } else if str_eq(config.click_button.as_str(), "middle") {
        MouseButton::Middle
    } else {
        MouseButton::Left
    }
}

/// Whether the pointer is moved before clicking: always except in cursor mode
/// without humanising.
pub fn moves_pointer(config: &AutoClickerConfig) -> (r: bool)
    ensures
        r == (config.position_mode@ != "cursor"@ || config.humanize),
{
    !str_eq(config.position_mode.as_str(), "cursor") || config.humanize
}

/// A humanised wait: the base interval moved by `delta`, at least 10 ms.
pub open spec fn humanized(base: u64, delta: i64) -> u64 {
    let v = base as i64 + delta;
    if v >= 10 { v as u64 } else { 10 }
}

pub fn humanized_interval(base: u64, delta: i64) -> (r: u64)
    requires
        i64::MIN <= (base as i64) + delta <= i64::MAX,
    ensures
        r == humanized(base, delta),
{
    let v = base as i64 + delta;
    if v >= 10 { v as u64 } else { 10 }
}

/// A random number from `lo` to `hi`, both included.
#[verifier::external_body]
fn random_u64(lo: u64, hi: u64) -> (r: u64)
    requires
        lo <= hi,
    ensures
        lo <= r <= hi,
{
    rand::thread_rng().gen_range(lo..=hi)
}

/// A random number from `lo` to `hi`, both included.
#[verifier::external_body]
fn random_i32(lo: i32, hi: i32) -> (r: i32)
    requires
        lo <= hi,
    ensures
        lo <= r <= hi,
{
    rand::thread_rng().gen_range(lo..=hi)
}

/// The base wait before the next click, drawn between the configured bounds.
pub fn next_interval_base(config: &AutoClickerConfig) -> (r: u64)
    requires
        config.interval_min_ms <= config.interval_max_ms,
    ensures
        config.interval_min_ms <= r <= config.interval_max_ms,
{
    random_u64(config.interval_min_ms, config.interval_max_ms)
}

/// The pause between the two clicks of a double click: 50 ms, or 40 to 80 ms
/// when humanising.
pub fn double_click_delay(humanize: bool) -> (r: u64)
    ensures
        humanize ==> 40 <= r <= 80,
        !humanize ==> r == 50,
{
    if humanize { random_u64(40, 80) } else { 50 }
}

/// How long a single click holds the button: not at all, or 40 to 120 ms
/// when humanising.
pub fn hold_time(humanize: bool) -> (r: u64)
    ensures
        humanize ==> 40 <= r <= 120,
        !humanize ==> r == 0,
{
    if humanize { random_u64(40, 120) } else { 0 }
}

/// A random offset of at most `jitter_px` in each direction.
pub fn jitter(jitter_px: i32) -> (r: (i32, i32))
    requires
        0 <= jitter_px,
    ensures
        -jitter_px <= r.0 <= jitter_px,
        -jitter_px <= r.1 <= jitter_px,
{
    let jx = random_i32(-jitter_px, jitter_px);
    let jy = random_i32(-jitter_px, jitter_px);
    (jx, jy)
}

/// The offset a click at a fixed position gets: a random jitter when
/// humanising, none otherwise.
pub fn fixed_offset(config: &AutoClickerConfig) -> (r: (i32, i32))
    requires
        config.humanize ==> 0 <= config.jitter_px,
    ensures
        config.humanize ==> -config.jitter_px <= r.0 <= config.jitter_px && -config.jitter_px <= r.1 <= config.jitter_px,
        !config.humanize ==> r == (0i32, 0i32),
{
    if config.humanize { jitter(config.jitter_px) } else { (0, 0) }
}

/// The offset a click at the cursor gets: a random jitter when humanising
/// with a positive jitter, none otherwise (the cursor is not moved then).
pub fn cursor_offset(config: &AutoClickerConfig) -> (r: Option<(i32, i32)>)
    ensures
        (config.humanize && config.jitter_px > 0) ==> (r matches Some((jx, jy))
            && -config.jitter_px <= jx <= config.jitter_px && -config.jitter_px <= jy <= config.jitter_px),
        !(config.humanize && config.jitter_px > 0) ==> r is None,
{
    if config.humanize && config.jitter_px > 0 { Some(jitter(config.jitter_px)) } else { None }
}

pub open spec fn already_running_message() -> Seq<char> {
    "Already running"@
}

/// Claims the auto-clicker: refused while it runs.
pub fn begin_autoclicking(running: &mut bool) -> (res: Result<(), String>)
    ensures
        *old(running) ==> res is Err && res->Err_0@ == already_running_message() && *final(running),
        !*old(running) ==> res is Ok && *final(running),
{
    if *running {
        return Err(owned("Already running"));
    }
    *running = true;
    Ok(())
}

} // verus!

verus! {

/// The auto-clicker never clicks past its click limit: whenever its step is
/// a click, the click about to be made is within the limit.
pub proof fn law_clicks_within_limit(config: AutoClickerConfig, clicks: u64, elapsed_secs: u64, foreground_title: Seq<char>)
    requires
        config.stop_after_clicks > 0,
        step_for(config, clicks, elapsed_secs, foreground_title) == ClickerStep::Click,
    ensures
        clicks + 1 <= config.stop_after_clicks,
{
}

/// Once the click limit or the time limit is reached, the auto-clicker stops,
/// whatever window is in front.
pub proof fn law_stops_at_limits(config: AutoClickerConfig, clicks: u64, elapsed_secs: u64, foreground_title: Seq<char>)
    requires
        (config.stop_after_clicks > 0 && clicks >= config.stop_after_clicks)
            || (config.stop_after_seconds > 0 && elapsed_secs >= config.stop_after_seconds),
    ensures
        step_for(config, clicks, elapsed_secs, foreground_title) == ClickerStep::Stop,
{
}

} // verus!
