//! The recording session: when input is captured, and the timestamps it gets.
use vstd::prelude::*;
use crate::types::{Macro, MacroEvent, MacroEventData, spec_duration_of, duration_of, clone_events};
use crate::text::{chars_of, string_from_chars};

verus! {

/// What the recorder holds, as plain values.
pub struct RecorderModel {
    pub recording: bool,
    pub paused: bool,
    pub events: Seq<MacroEvent>,
    pub start_ms: u64,
    pub pause_start_ms: u64,
    pub total_paused_ms: u64,
    /// Bit patterns of the last pointer position seen, in screen coordinates.
    pub last_mouse: (u64, u64),
    pub window_origin: Option<(i32, i32)>,
}

pub open spec fn sat_sub(a: u64, b: u64) -> u64 {
    if a >= b { (a - b) as u64 } else { 0 }
}

/// The timestamp an event captured at `now` gets: the time since the start of
/// the recording, less the time spent paused.
pub open spec fn timestamp_at(m: RecorderModel, now: u64) -> u64 {
    sat_sub(sat_sub(now, m.start_ms), m.total_paused_ms)
}

/// Input is captured while recording and not paused.
pub open spec fn accepting(m: RecorderModel) -> bool {
    m.recording && !m.paused
}

pub open spec fn already_recording_message() -> Seq<char> {
    seq!['A', 'l', 'r', 'e', 'a', 'd', 'y', ' ', 'r', 'e', 'c', 'o', 'r', 'd', 'i', 'n', 'g']
}

pub open spec fn not_recording_message() -> Seq<char> {
    seq!['N', 'o', 't', ' ', 'r', 'e', 'c', 'o', 'r', 'd', 'i', 'n', 'g']
}

pub open spec fn no_window_message() -> Seq<char> {
    seq!['N', 'o', ' ', 'f', 'o', 'r', 'e', 'g', 'r', 'o', 'u', 'n', 'd', ' ', 'w', 'i', 'n', 'd', 'o', 'w', ' ', 'f', 'o', 'u', 'n', 'd']
}

/// A fresh recording started at `now`: no events, no pause, no window origin.
pub open spec fn started(m: RecorderModel, now: u64) -> RecorderModel {
    RecorderModel {
        recording: true,
        paused: false,
        events: Seq::empty(),
        start_ms: now,
        total_paused_ms: 0,
        window_origin: None,
        ..m
    }
}

/// Pausing: the pause starts now unless one is already running.
pub open spec fn paused_at(m: RecorderModel, now: u64) -> RecorderModel {
    if m.paused {
        m
    } else {
        RecorderModel { pause_start_ms: now, paused: true, ..m }
    }
}

/// Resuming: the time since the pause started counts as paused.
pub open spec fn resumed_at(m: RecorderModel, now: u64) -> RecorderModel {
    if m.paused {
        RecorderModel {
            total_paused_ms: (m.total_paused_ms + sat_sub(now, m.pause_start_ms)) as u64,
            paused: false,
            ..m
        }
    } else {
        m
    }
}

/// Resuming at `now` keeps the paused total within `u64`.
pub open spec fn resume_in_range(m: RecorderModel, now: u64) -> bool {
    m.paused ==> m.total_paused_ms + sat_sub(now, m.pause_start_ms) <= u64::MAX
}

/// Capturing an event at `now`: appended with its timestamp while accepting,
/// ignored otherwise.
pub open spec fn recorded(m: RecorderModel, ev: MacroEventData, now: u64) -> RecorderModel {
    if accepting(m) {
        RecorderModel { events: m.events.push(MacroEvent { timestamp_ms: timestamp_at(m, now), event: ev }), ..m }
    } else {
        m
    }
}

/// The recording state of the application.
pub struct Recorder {
    recording: bool,
    paused: bool,
    events: Vec<MacroEvent>,
    start_ms: u64,
    pause_start_ms: u64,
    total_paused_ms: u64,
    last_mouse: (u64, u64),
    window_origin: Option<(i32, i32)>,
}

fn message(s: &str) -> (r: String)
    ensures
        r@ == s@,
{
    let v = chars_of(s);
    string_from_chars(&v)
}

impl Recorder {
    pub closed spec fn model(self) -> RecorderModel {
        RecorderModel {
            recording: self.recording,
            paused: self.paused,
            events: self.events@,
            start_ms: self.start_ms,
            pause_start_ms: self.pause_start_ms,
            total_paused_ms: self.total_paused_ms,
            last_mouse: self.last_mouse,
            window_origin: self.window_origin,
        }
    }

    /// An idle recorder.
    pub fn new() -> (r: Recorder)
        ensures
            !r.model().recording,
            !r.model().paused,
            r.model().events == Seq::<MacroEvent>::empty(),
            r.model().start_ms == 0,
            r.model().pause_start_ms == 0,
            r.model().total_paused_ms == 0,
            r.model().last_mouse == (0u64, 0u64),
            r.model().window_origin is None,
    {
        Recorder {
            recording: false,
            paused: false,
            events: Vec::new(),
            start_ms: 0,
            pause_start_ms: 0,
            total_paused_ms: 0,
            last_mouse: (0, 0),
            window_origin: None,
        }
    }

    pub fn is_recording(&self) -> (r: bool)
        ensures
            r == self.model().recording,
    {
        self.recording
    }

    pub fn is_paused(&self) -> (r: bool)
        ensures
            r == self.model().paused,
    {
        self.paused
    }

    /// The origin that captured coordinates are made relative to.
    pub fn window_origin(&self) -> (r: Option<(i32, i32)>)
        ensures
            r == self.model().window_origin,
    {
        self.window_origin
    }

    /// The last pointer position seen (bit patterns of the two `f64`s).
    pub fn last_mouse(&self) -> (r: (u64, u64))
        ensures
            r == self.model().last_mouse,
    {
        self.last_mouse
    }

    /// The events captured so far.
    pub fn events(&self) -> (r: Vec<MacroEvent>)
        ensures
            r@ == self.model().events,
    {
        clone_events(&self.events)
    }

    /// Starts recording at `now`, unless a recording is running.
    pub fn start_recording(&mut self, now: u64) -> (res: Result<(), String>)
        ensures
            old(self).model().recording ==> res is Err && res->Err_0@ == already_recording_message()
                && final(self).model() == old(self).model(),
            !old(self).model().recording ==> res is Ok && final(self).model() == started(old(self).model(), now),
    {
        if self.recording {
            let m = message("Already recording");
            proof { reveal_strlit("Already recording"); }
            return Err(m);
        }
        self.events = Vec::new();
        self.start_ms = now;
        self.total_paused_ms = 0;
        self.window_origin = None;
        self.recording = true;
        self.paused = false;
        Ok(())
    }

    /// Starts recording relative to the foreground window: `title` is that
    /// window's title, `origin` its top-left corner if it was found. The new
    /// recording keeps the origin, so that the positions it captures are
    /// offsets from it and the macro names the window.
    pub fn start_recording_relative(&mut self, title: &str, origin: Option<(i32, i32)>, now: u64) -> (res: Result<(), String>)
        ensures
            title@.len() == 0 ==> res is Err && res->Err_0@ == no_window_message()
                && final(self).model() == old(self).model(),
            title@.len() > 0 && old(self).model().recording ==> res is Err
                && res->Err_0@ == already_recording_message()
                && final(self).model() == (RecorderModel { window_origin: origin, ..old(self).model() }),
            title@.len() > 0 && !old(self).model().recording ==> res is Ok
                && final(self).model() == (RecorderModel { window_origin: origin, ..started(old(self).model(), now) }),
    {
        if title.is_empty() {
            let m = message("No foreground window found");
            proof { reveal_strlit("No foreground window found"); }
            return Err(m);
        }
        self.window_origin = origin;
        let res = self.start_recording(now);
        if res.is_ok() {
            self.window_origin = origin;
        }
        res
    }

    /// Pauses capturing at `now`.
    pub fn pause_recording(&mut self, now: u64) -> (res: Result<(), String>)
        ensures
            !old(self).model().recording ==> res is Err && res->Err_0@ == not_recording_message()
                && final(self).model() == old(self).model(),
            old(self).model().recording ==> res is Ok && final(self).model() == paused_at(old(self).model(), now),
    {
        if !self.recording {
            let m = message("Not recording");
            proof { reveal_strlit("Not recording"); }
            return Err(m);
        }
        if !self.paused {
            self.pause_start_ms = now;
            self.paused = true;
        }
        Ok(())
    }

    /// Whether resuming at `now` keeps the paused total within `u64`.
    pub fn can_resume_at(&self, now: u64) -> (r: bool)
        ensures
            r == resume_in_range(self.model(), now),
    {
        !self.paused || self.total_paused_ms <= u64::MAX - now.saturating_sub(self.pause_start_ms)
    }

    /// Resumes capturing at `now`.
    pub fn resume_recording(&mut self, now: u64)
        requires
            resume_in_range(old(self).model(), now),
        ensures
            final(self).model() == resumed_at(old(self).model(), now),
    {
        if self.paused {
            let paused_for = now.saturating_sub(self.pause_start_ms);
            self.total_paused_ms = self.total_paused_ms + paused_for;
            self.paused = false;
        }
    }

    /// Captures a non-movement event at `now`; returns whether it was kept.
    pub fn record(&mut self, ev: MacroEventData, now: u64) -> (kept: bool)
        ensures
            kept == accepting(old(self).model()),
            final(self).model() == recorded(old(self).model(), ev, now),
    {
        if !self.recording || self.paused {
            return false;
        }
        let ts = now.saturating_sub(self.start_ms).saturating_sub(self.total_paused_ms);
        self.events.push(MacroEvent { timestamp_ms: ts, event: ev });
        true
    }

    /// Captures a pointer movement at `now`: `raw` is the screen position,
    /// which becomes the last position seen, `rel` the position the event
    /// stores (relative to the window origin if there is one).
    pub fn record_move(&mut self, raw: (u64, u64), rel: (u64, u64), now: u64) -> (kept: bool)
        ensures
            kept == accepting(old(self).model()),
            accepting(old(self).model()) ==> final(self).model() == recorded(
                (RecorderModel { last_mouse: raw, ..old(self).model() }),
                MacroEventData::MouseMove { x_bits: rel.0, y_bits: rel.1 },
                now,
            ),
            !accepting(old(self).model()) ==> final(self).model() == old(self).model(),
    {
        if !self.recording || self.paused {
            return false;
        }
        self.last_mouse = raw;
        self.record(MacroEventData::MouseMove { x_bits: rel.0, y_bits: rel.1 }, now)
    }

    /// Stops recording and hands over the macro: the events captured, the
    /// timestamp of the last as its duration, no tags or description, and
    /// the foreground window's title when recording was relative to a window.
    pub fn stop_recording(&mut self, name: String, foreground_title: String) -> (res: Result<Macro, String>)
        ensures
            res is Ok,
            final(self).model() == (RecorderModel { recording: false, paused: false, ..old(self).model() }),
            res matches Ok(m) && m.name == name && m.events@ == old(self).model().events
                && m.duration_ms == spec_duration_of(old(self).model().events)
                && m.tags@.len() == 0 && m.description@.len() == 0
                && m.relative_window == (if old(self).model().window_origin is Some { Some(foreground_title) } else { None::<String> }),
    {
        self.recording = false;
        self.paused = false;
        let events = clone_events(&self.events);
        let duration_ms = duration_of(&events);
        let relative_window = match self.window_origin {
            Some(_) => Some(foreground_title),
            None => None,
        };
        Ok(Macro {
            name,
            events,
            duration_ms,
            tags: Vec::new(),
            description: String::new(),
            relative_window,
        })
    }
}

} // verus!

verus! {

/// Nothing is captured while paused.
pub proof fn law_nothing_recorded_while_paused(m: RecorderModel, p: u64, ev: MacroEventData, now: u64)
    requires
        m.recording,
    ensures
        recorded(paused_at(m, p), ev, now) == paused_at(m, p),
{
}

/// A pause from `p` to `r` is left out of later timestamps: an event
/// captured after resuming is stamped `r - p` earlier than it would have
/// been without the pause.
pub proof fn law_pause_excluded_from_timestamps(m: RecorderModel, p: u64, r: u64, now: u64)
    requires
        accepting(m),
        p <= r <= now,
        m.start_ms <= now,
        m.total_paused_ms + (r - p) <= now - m.start_ms,
    ensures
        timestamp_at(resumed_at(paused_at(m, p), r), now) == timestamp_at(m, now) - (r - p),
{
}

/// With a clock that does not run backwards, an event captured after a pause
/// is never stamped earlier than one captured before it.
pub proof fn law_timestamps_ordered_across_pause(m: RecorderModel, before: u64, p: u64, r: u64, after: u64)
    requires
        accepting(m),
        before <= p <= r <= after,
        resume_in_range(paused_at(m, p), r),
    ensures
        timestamp_at(m, before) <= timestamp_at(resumed_at(paused_at(m, p), r), after),
{
}

} // verus!

verus! {

impl Recorder {
    /// The recording hotkey: stops a running recording and hands over its
    /// macro, named `Hotkey_<unix seconds>`, for saving; otherwise starts a
    /// recording at `now`.
    pub fn hotkey_toggle_record(&mut self, now: u64, unix_secs: u64, foreground_title: String) -> (res: Option<Macro>)
        ensures
            old(self).model().recording ==> (res matches Some(m) && m.name@ == "Hotkey_"@ + crate::text::decimal(unix_secs as nat)
                && m.events@ == old(self).model().events
                && m.duration_ms == spec_duration_of(old(self).model().events)
                && m.tags@.len() == 0 && m.description@.len() == 0
                && m.relative_window == (if old(self).model().window_origin is Some { Some(foreground_title) } else { None::<String> })
                && final(self).model() == (RecorderModel { recording: false, paused: false, ..old(self).model() })),
            !old(self).model().recording ==> res is None && final(self).model() == started(old(self).model(), now),
    {
        if self.recording {
            let name = crate::script::hotkey_macro_name(unix_secs);
            match self.stop_recording(name, foreground_title) {
                Ok(m) => Some(m),
                Err(_) => None,
            }
        } else {
            let _ = self.start_recording(now);
            None
        }
    }
}

} // verus!

verus! {

/// The timestamps recorded so far never decrease.
pub open spec fn stamps_sorted(events: Seq<MacroEvent>) -> bool {
    forall|i: int, j: int| 0 <= i <= j < events.len() ==> #[trigger] events[i].timestamp_ms <= #[trigger] events[j].timestamp_ms
}

/// The stamp the next captured event can get at the earliest: while paused,
/// the stamp at the moment the pause began; otherwise the stamp at `now`.
pub open spec fn next_stamp(m: RecorderModel, now: u64) -> u64 {
    if m.paused { timestamp_at(m, m.pause_start_ms) } else { timestamp_at(m, now) }
}

/// A recording in order at `now`: sorted stamps, none later than the stamp
/// the next event would get, and a pause that began no later than `now`.
pub open spec fn in_order(m: RecorderModel, now: u64) -> bool {
    &&& stamps_sorted(m.events)
    &&& m.events.len() > 0 ==> m.events.last().timestamp_ms <= next_stamp(m, now)
    &&& m.paused ==> m.pause_start_ms <= now
}

/// With a clock that does not run backwards, recorded timestamps never
/// decrease over a whole session: starting, capturing, pausing and resuming
/// at a later time, and time passing, all keep the recording in order.
pub proof fn law_timestamps_never_decrease(m: RecorderModel, t: u64, t2: u64, ev: MacroEventData)
    requires
        in_order(m, t),
        t <= t2,
    ensures
        in_order(m, t2),
        in_order(started(m, t2), t2),
        in_order(recorded(m, ev, t2), t2),
        in_order(paused_at(m, t2), t2),
        resume_in_range(m, t2) ==> in_order(resumed_at(m, t2), t2),
{
    let e = started(m, t2).events;
    assert(e.len() == 0);
    if accepting(m) {
        let r = recorded(m, ev, t2);
        assert forall|i: int, j: int| 0 <= i <= j < r.events.len()
            implies #[trigger] r.events[i].timestamp_ms <= #[trigger] r.events[j].timestamp_ms by {
            if j == r.events.len() - 1 && i < j {
                assert(r.events[i] == m.events[i]);
                assert(m.events[i].timestamp_ms <= m.events.last().timestamp_ms);
            } else if j < r.events.len() - 1 {
                assert(r.events[i] == m.events[i]);
                assert(r.events[j] == m.events[j]);
            }
        }
    }
}

/// A new recording stamps an event by the time since its own start: nothing
/// paused in an earlier recording is subtracted, and no event of it remains.
pub proof fn law_start_stamps_from_its_own_start(m: RecorderModel, t: u64, now: u64)
    requires
        t <= now,
    ensures
        timestamp_at(started(m, t), now) == now - t,
        started(m, t).events.len() == 0,
        accepting(started(m, t)),
        recorded(started(m, t), MacroEventData::Sleep { duration_ms: 0 }, now).events.len() == 1,
        recorded(started(m, t), MacroEventData::Sleep { duration_ms: 0 }, now).events[0].timestamp_ms == now - t,
{
}

} // verus!

