//! The data that the recorder, the player, the scheduler and the licence
//! checks exchange.
//!
//! Floating-point quantities (screen coordinates, playback speeds, match
//! confidences) are carried as their IEEE-754 bit patterns, so that no value
//! is rounded on its way through the library.
use vstd::prelude::*;

verus! {

// ── Macro event types ─────────────────────────────────────────────────────────

/// One step of a macro. Coordinates are the bit patterns of `f64` values,
/// `confidence_bits` that of an `f32`.
#[derive(Debug)]
pub enum MacroEventData {
    MouseMove { x_bits: u64, y_bits: u64 },
    MousePress { x_bits: u64, y_bits: u64, button: String },
    MouseRelease { x_bits: u64, y_bits: u64, button: String },
    KeyPress { key: String },
    KeyRelease { key: String },
    Scroll { delta_x: i64, delta_y: i64 },
    TypeText { text: String },
    Sleep { duration_ms: u64 },
    WaitForPixel { x: i32, y: i32, color: [u8; 3], tolerance: u8, timeout_ms: u64 },
    WaitForImage {
        template_b64: String,
        confidence_bits: u32,
        region: Option<[i32; 4]>,
        timeout_ms: u64,
        click_on_found: bool,
    },
    RunScript { script: String },
}

impl MacroEventData {
    /// A pointer movement.
    pub open spec fn spec_is_move(self) -> bool {
        self is MouseMove
    }

    /// A press, a release or a scroll: the steps that a preceding movement
    /// positions the pointer for.
    pub open spec fn spec_is_pointer_action(self) -> bool {
        self is MousePress || self is MouseRelease || self is Scroll
    }

    pub fn is_move(&self) -> (r: bool)
        ensures
            r == self.spec_is_move(),
    {
        match self {
            MacroEventData::MouseMove { .. } => true,
            _ => false,
        }
    }

    pub fn is_pointer_action(&self) -> (r: bool)
        ensures
            r == self.spec_is_pointer_action(),
    {
        match self {
            MacroEventData::MousePress { .. } => true,
            MacroEventData::MouseRelease { .. } => true,
            MacroEventData::Scroll { .. } => true,
            _ => false,
        }
    }
}

impl Clone for MacroEventData {
    fn clone(&self) -> (r: Self)
        ensures
            r == *self,
    {
        match self {
            MacroEventData::MouseMove { x_bits, y_bits } => MacroEventData::MouseMove {
                x_bits: *x_bits,
                y_bits: *y_bits,
            },
            MacroEventData::MousePress { x_bits, y_bits, button } => MacroEventData::MousePress {
                x_bits: *x_bits,
                y_bits: *y_bits,
                button: button.clone(),
            },
            MacroEventData::MouseRelease { x_bits, y_bits, button } => MacroEventData::MouseRelease {
                x_bits: *x_bits,
                y_bits: *y_bits,
                button: button.clone(),
            },
            MacroEventData::KeyPress { key } => MacroEventData::KeyPress { key: key.clone() },
            MacroEventData::KeyRelease { key } => MacroEventData::KeyRelease { key: key.clone() },
            MacroEventData::Scroll { delta_x, delta_y } => MacroEventData::Scroll {
                delta_x: *delta_x,
                delta_y: *delta_y,
            },
            MacroEventData::TypeText { text } => MacroEventData::TypeText { text: text.clone() },
            MacroEventData::Sleep { duration_ms } => MacroEventData::Sleep {
                duration_ms: *duration_ms,
            },
            MacroEventData::WaitForPixel { x, y, color, tolerance, timeout_ms } =>
                MacroEventData::WaitForPixel {
                x: *x,
                y: *y,
                color: *color,
                tolerance: *tolerance,
                timeout_ms: *timeout_ms,
            },
            MacroEventData::WaitForImage {
                template_b64,
                confidence_bits,
                region,
                timeout_ms,
                click_on_found,
            } => MacroEventData::WaitForImage {
                template_b64: template_b64.clone(),
                confidence_bits: *confidence_bits,
                region: *region,
                timeout_ms: *timeout_ms,
                click_on_found: *click_on_found,
            },
            MacroEventData::RunScript { script } => MacroEventData::RunScript {
                script: script.clone(),
            },
        }
    }
}

/// An event together with the time, in milliseconds from the start of the
/// macro, at which it happens.
#[derive(Debug)]
pub struct MacroEvent {
    pub timestamp_ms: u64,
    pub event: MacroEventData,
}

impl Clone for MacroEvent {
    fn clone(&self) -> (r: Self)
        ensures
            r == *self,
    {
        MacroEvent { timestamp_ms: self.timestamp_ms, event: self.event.clone() }
    }
}

#[derive(Debug)]
pub struct Macro {
    pub name: String,
    pub events: Vec<MacroEvent>,
    pub duration_ms: u64,
    pub tags: Vec<String>,
    pub description: String,
    /// Title of the window whose origin the coordinates are relative to.
    pub relative_window: Option<String>,
}

/// The timestamp of the last event, or 0 for no events: the duration that a
/// macro with these events has.
pub open spec fn spec_duration_of(events: Seq<MacroEvent>) -> u64 {
    if events.len() == 0 {
        0
    } else {
        events.last().timestamp_ms
    }
}

pub fn duration_of(events: &Vec<MacroEvent>) -> (d: u64)
    ensures
        d == spec_duration_of(events@),
{
    if events.len() == 0 {
        0
    } else {
        events[events.len() - 1].timestamp_ms
    }
}

/// Copies the events one by one.
pub fn clone_events(events: &Vec<MacroEvent>) -> (res: Vec<MacroEvent>)
    ensures
        res@ == events@,
{
    let mut res: Vec<MacroEvent> = Vec::new();
    for i in 0..events.len()
        invariant
            res@ == events@.take(i as int),
    {
        res.push(events[i].clone());
        assert(res@ == events@.take(i + 1));
    }
    res
}

/// Copies the strings one by one.
pub fn clone_strings(v: &Vec<String>) -> (res: Vec<String>)
    ensures
        res@ == v@,
{
    let mut res: Vec<String> = Vec::new();
    for i in 0..v.len()
        invariant
            res@ == v@.take(i as int),
    {
        res.push(v[i].clone());
        assert(res@ == v@.take(i + 1));
    }
    res
}

impl Clone for Macro {
    fn clone(&self) -> (r: Self)
        ensures
            r.name == self.name,
            r.events@ == self.events@,
            r.duration_ms == self.duration_ms,
            r.tags@ == self.tags@,
            r.description == self.description,
            r.relative_window == self.relative_window,
    {
        Macro {
            name: self.name.clone(),
            events: clone_events(&self.events),
            duration_ms: self.duration_ms,
            tags: clone_strings(&self.tags),
            description: self.description.clone(),
            relative_window: self.relative_window.clone(),
        }
    }
}

/// One link of a chain of macros played one after another.
#[derive(Debug)]
pub struct ChainItem {
    pub macro_name: String,
    pub loops: u32,
    pub delay_after_ms: u64,
}

impl Clone for ChainItem {
    fn clone(&self) -> (r: Self)
        ensures
            r == *self,
    {
        ChainItem {
            macro_name: self.macro_name.clone(),
            loops: self.loops,
            delay_after_ms: self.delay_after_ms,
        }
    }
}

} // verus!

verus! {

// ── Auto-clicker config ───────────────────────────────────────────────────────

/// How the auto-clicker clicks. The `_bits` fields hold bit patterns of
/// `f64` screen coordinates.
#[derive(Debug)]
pub struct AutoClickerConfig {
    pub interval_min_ms: u64,
    pub interval_max_ms: u64,
    pub click_button: String,
    pub double_click: bool,
    /// "cursor", "fixed" or "bbox".
    pub position_mode: String,
    pub fixed_x_bits: u64,
    pub fixed_y_bits: u64,
    pub bbox_x1_bits: u64,
    pub bbox_y1_bits: u64,
    pub bbox_x2_bits: u64,
    pub bbox_y2_bits: u64,
    pub humanize: bool,
    pub jitter_px: i32,
    pub stop_after_clicks: u32,
    pub stop_after_seconds: u64,
    pub window_target: String,
}

impl Clone for AutoClickerConfig {
    fn clone(&self) -> (r: Self)
        ensures
            r == *self,
    {
        AutoClickerConfig {
            interval_min_ms: self.interval_min_ms,
            interval_max_ms: self.interval_max_ms,
            click_button: self.click_button.clone(),
            double_click: self.double_click,
            position_mode: self.position_mode.clone(),
            fixed_x_bits: self.fixed_x_bits,
            fixed_y_bits: self.fixed_y_bits,
            bbox_x1_bits: self.bbox_x1_bits,
            bbox_y1_bits: self.bbox_y1_bits,
            bbox_x2_bits: self.bbox_x2_bits,
            bbox_y2_bits: self.bbox_y2_bits,
            humanize: self.humanize,
            jitter_px: self.jitter_px,
            stop_after_clicks: self.stop_after_clicks,
            stop_after_seconds: self.stop_after_seconds,
            window_target: self.window_target.clone(),
        }
    }
}

/// The bit pattern of the `f64` 1920.0.
pub const F64_1920: u64 = 0x409E_0000_0000_0000;
/// The bit pattern of the `f64` 1080.0.
pub const F64_1080: u64 = 0x4090_E000_0000_0000;
/// The bit pattern of the `f64` 1.0.
pub const F64_ONE: u64 = 0x3FF0_0000_0000_0000;

/// The default auto-clicker: left clicks at the cursor every 800 to 1200 ms,
/// no double clicks, no humanising (jitter 5 px when turned on), bounding box
/// (0, 0)-(1920, 1080), no stop limit and no target window.
pub open spec fn is_default_autoclicker(c: AutoClickerConfig) -> bool {
    &&& c.interval_min_ms == 800
    &&& c.interval_max_ms == 1200
    &&& c.click_button@ == "left"@
    &&& !c.double_click
    &&& c.position_mode@ == "cursor"@
    &&& c.fixed_x_bits == 0
    &&& c.fixed_y_bits == 0
    &&& c.bbox_x1_bits == 0
    &&& c.bbox_y1_bits == 0
    &&& c.bbox_x2_bits == F64_1920
    &&& c.bbox_y2_bits == F64_1080
    &&& !c.humanize
    &&& c.jitter_px == 5
    &&& c.stop_after_clicks == 0
    &&& c.stop_after_seconds == 0
    &&& c.window_target@.len() == 0
}

impl Default for AutoClickerConfig {
    /// Left clicks at the cursor every 800 to 1200 ms, until stopped.
    fn default() -> (r: Self)
        ensures
            is_default_autoclicker(r),
    {
        AutoClickerConfig {
            interval_min_ms: 800,
            interval_max_ms: 1200,
            click_button: crate::text::owned("left"),
            double_click: false,
            position_mode: crate::text::owned("cursor"),
            fixed_x_bits: 0,
            fixed_y_bits: 0,
            bbox_x1_bits: 0,
            bbox_y1_bits: 0,
            bbox_x2_bits: F64_1920,
            bbox_y2_bits: F64_1080,
            humanize: false,
            jitter_px: 5,
            stop_after_clicks: 0,
            stop_after_seconds: 0,
            window_target: String::new(),
        }
    }
}

// ── Profile ───────────────────────────────────────────────────────────────────

/// Named playback and auto-clicker settings with their hotkeys.
/// `playback_speed_bits` holds the bit pattern of an `f64`.
#[derive(Debug)]
pub struct Profile {
    pub name: String,
    pub playback_speed_bits: u64,
    pub playback_loops: u32,
    pub hotkey_record: String,
    pub hotkey_play: String,
    pub hotkey_autoclicker: String,
    pub autoclicker: AutoClickerConfig,
}

impl Clone for Profile {
    fn clone(&self) -> (r: Self)
        ensures
            r == *self,
    {
        Profile {
            name: self.name.clone(),
            playback_speed_bits: self.playback_speed_bits,
            playback_loops: self.playback_loops,
            hotkey_record: self.hotkey_record.clone(),
            hotkey_play: self.hotkey_play.clone(),
            hotkey_autoclicker: self.hotkey_autoclicker.clone(),
            autoclicker: self.autoclicker.clone(),
        }
    }
}

/// The "Default" profile: normal speed (the `f64` 1.0), one loop, hotkeys
/// F9, F10 and F11, and the default auto-clicker.
pub open spec fn is_default_profile(p: Profile) -> bool {
    &&& p.name@ == "Default"@
    &&& p.playback_speed_bits == F64_ONE
    &&& p.playback_loops == 1
    &&& p.hotkey_record@ == "F9"@
    &&& p.hotkey_play@ == "F10"@
    &&& p.hotkey_autoclicker@ == "F11"@
    &&& is_default_autoclicker(p.autoclicker)
}

impl Default for Profile {
    /// The "Default" profile: normal speed, one loop, F9/F10/F11, and the
    /// default auto-clicker.
    fn default() -> (r: Self)
        ensures
            is_default_profile(r),
    {
        Profile {
            name: crate::text::owned("Default"),
            playback_speed_bits: F64_ONE,
            playback_loops: 1,
            hotkey_record: crate::text::owned("F9"),
            hotkey_play: crate::text::owned("F10"),
            hotkey_autoclicker: crate::text::owned("F11"),
            autoclicker: AutoClickerConfig::default(),
        }
    }
}

// ── License ───────────────────────────────────────────────────────────────────

/// What the licence server says a key grants.
#[derive(Debug)]
pub struct LicenseInfo {
    /// "free", "pro" or "lifetime".
    pub tier: String,
    pub valid: bool,
    pub features: Vec<String>,
    pub expires_ms: Option<u64>,
    pub cached_at_ms: u64,
}

impl Clone for LicenseInfo {
    fn clone(&self) -> (r: Self)
        ensures
            r.tier == self.tier,
            r.valid == self.valid,
            r.features@ == self.features@,
            r.expires_ms == self.expires_ms,
            r.cached_at_ms == self.cached_at_ms,
    {
        LicenseInfo {
            tier: self.tier.clone(),
            valid: self.valid,
            features: clone_strings(&self.features),
            expires_ms: self.expires_ms,
            cached_at_ms: self.cached_at_ms,
        }
    }
}

/// Whether `f` is among the features.
pub open spec fn features_include(features: Seq<String>, f: Seq<char>) -> bool {
    exists|i: int| 0 <= i < features.len() && #[trigger] features[i]@ == f
}

impl LicenseInfo {
    /// The free tier: not valid, no features, never cached.
    pub fn free() -> (r: Self)
        ensures
            r.tier@ == "free"@,
            !r.valid,
            r.features@.len() == 0,
            r.expires_ms is None,
            r.cached_at_ms == 0,
    {
        LicenseInfo {
            tier: crate::text::owned("free"),
            valid: false,
            features: Vec::new(),
            expires_ms: None,
            cached_at_ms: 0,
        }
    }

    /// Whether the licence grants feature `f`.
    pub fn has_feature(&self, f: &str) -> (r: bool)
        ensures
            r == features_include(self.features@, f@),
    {
        let mut i: usize = 0;
        while i < self.features.len()
            invariant
                i <= self.features.len(),
                forall|k: int| 0 <= k < i ==> self.features@[k]@ != f@,
            decreases self.features.len() - i,
        {
            if crate::text::str_eq(self.features[i].as_str(), f) {
                return true;
            }
            i = i + 1;
        }
        false
    }
}

impl Default for LicenseInfo {
    /// An empty licence record.
    fn default() -> (r: Self)
        ensures
            r.tier@.len() == 0,
            !r.valid,
            r.features@.len() == 0,
            r.expires_ms is None,
            r.cached_at_ms == 0,
    {
        LicenseInfo { tier: String::new(), valid: false, features: Vec::new(), expires_ms: None, cached_at_ms: 0 }
    }
}

} // verus!
