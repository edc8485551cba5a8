use macro_recorder::license::{cache_is_fresh, machine_id_from, LicenseState, CACHE_TTL_MS};
use macro_recorder::profiles::{check_deletable, find_profile, list_profiles, ActiveProfile};
use macro_recorder::types::{AutoClickerConfig, LicenseInfo, Profile};

fn named(name: &str) -> Profile {
    let mut p = Profile::default();
    p.name = name.to_string();
    p
}

#[test]
fn default_profile_values() {
    let p = Profile::default();
    assert_eq!(p.name, "Default");
    assert_eq!(f64::from_bits(p.playback_speed_bits), 1.0);
    assert_eq!(p.playback_loops, 1);
    assert_eq!((p.hotkey_record.as_str(), p.hotkey_play.as_str(), p.hotkey_autoclicker.as_str()), ("F9", "F10", "F11"));
    let a = AutoClickerConfig::default();
    assert_eq!((a.interval_min_ms, a.interval_max_ms), (800, 1200));
    assert_eq!(a.click_button, "left");
    assert_eq!(a.position_mode, "cursor");
    assert_eq!(f64::from_bits(a.bbox_x2_bits), 1920.0);
    assert_eq!(f64::from_bits(a.bbox_y2_bits), 1080.0);
    assert_eq!(f64::from_bits(a.fixed_x_bits), 0.0);
    assert_eq!(a.jitter_px, 5);
    assert!(a.window_target.is_empty());
}

#[test]
fn listing_puts_default_first_and_skips_stored_default() {
    let list = list_profiles(vec![named("Work"), named("Default"), named("Games")]);
    let names: Vec<&str> = list.iter().map(|p| p.name.as_str()).collect();
    assert_eq!(names, vec!["Default", "Work", "Games"]);
    assert_eq!(list_profiles(vec![]).len(), 1);
}

#[test]
fn finding_and_applying_profiles() {
    let list = list_profiles(vec![named("Work")]);
    assert_eq!(find_profile(&list, "Work").unwrap().name, "Work");
    assert_eq!(find_profile(&list, "Home").unwrap_err(), "Profile 'Home' not found");
    let mut active = ActiveProfile::new();
    assert_eq!(active.get_active_profile().name, "Default");
    assert_eq!(active.apply_profile(&list, "Work").unwrap().name, "Work");
    assert_eq!(active.get_active_profile().name, "Work");
    assert!(active.apply_profile(&list, "Nope").is_err());
    assert_eq!(active.get_active_profile().name, "Work");
}

#[test]
fn default_profile_cannot_be_deleted() {
    assert_eq!(check_deletable("Default"), Err("Cannot delete the Default profile".to_string()));
    assert_eq!(check_deletable("Work"), Ok(()));
}

fn pro(cached_at_ms: u64) -> LicenseInfo {
    LicenseInfo {
        tier: "pro".to_string(),
        valid: true,
        features: vec!["scripts".to_string(), "scheduler".to_string()],
        expires_ms: Some(5),
        cached_at_ms,
    }
}

#[test]
fn free_license_and_features() {
    let f = LicenseInfo::free();
    assert_eq!(f.tier, "free");
    assert!(!f.valid && f.features.is_empty() && f.expires_ms.is_none() && f.cached_at_ms == 0);
    assert!(!f.has_feature("scripts"));
    assert!(pro(0).has_feature("scripts"));
    assert!(!pro(0).has_feature("script"));
    let d = LicenseInfo::default();
    assert!(d.tier.is_empty() && !d.valid);
}

#[test]
fn cache_freshness_boundary() {
    assert_eq!(CACHE_TTL_MS, 24 * 60 * 60 * 1000);
    assert!(cache_is_fresh(1000 + CACHE_TTL_MS - 1, 1000));
    assert!(!cache_is_fresh(1000 + CACHE_TTL_MS, 1000));
    assert!(cache_is_fresh(0, 1000));
}

#[test]
fn activated_licence_is_read_back() {
    let mut st = LicenseState::new();
    let saved = st.activate_license(pro(1), 5_000);
    let copy = saved.clone();
    // With no cache file, and with the file activation wrote, fresh or stale.
    let a = st.get_license_info(None, 6_000);
    let b = st.get_license_info(Some(saved), 7_000);
    let c = st.get_license_info(Some(copy), 5_000 + CACHE_TTL_MS + 1);
    for r in [a, b, c] {
        assert_eq!(r.tier, "pro");
        assert!(r.valid);
        assert_eq!(r.features, vec!["scripts".to_string(), "scheduler".to_string()]);
        assert_eq!(r.cached_at_ms, 5_000);
    }
}

#[test]
fn license_state_transitions() {
    let mut st = LicenseState::new();
    assert_eq!(st.get_license_info(None, 10).tier, "free");
    // A stale cache file is ignored.
    assert_eq!(st.get_license_info(Some(pro(0)), CACHE_TTL_MS + 1).tier, "free");
    // A fresh one is taken.
    assert_eq!(st.get_license_info(Some(pro(100)), 200).tier, "pro");
    assert_eq!(st.get_license_info(None, 300).tier, "pro");
    assert!(st.has_feature(None, 300, "scheduler"));
    let act = st.activate_license(pro(0), 777);
    assert_eq!(act.cached_at_ms, 777);
    assert_eq!(st.cached.cached_at_ms, 777);
    st.deactivate_license();
    assert_eq!(st.cached.tier, "free");
    assert!(!st.has_feature(None, 300, "scheduler"));
}

#[test]
fn machine_id_from_mac_or_names() {
    assert_eq!(machine_id_from(Some(vec![0x00, 0x1a, 0xff, 0x10, 0xab, 0x09]), "u", "h"), "001aff10ab09");
    let id = machine_id_from(None, "alice", "box");
    assert_eq!(id.len(), 64);
    assert!(id.chars().all(|c| c.is_ascii_hexdigit() && !c.is_ascii_uppercase()));
    assert_eq!(id, machine_id_from(None, "alice", "box"));
    assert_ne!(id, machine_id_from(None, "alice", "box2"));
    assert_ne!(id, machine_id_from(None, "alice-box", ""));
}
