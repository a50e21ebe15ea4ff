use runtime_toggles::error::LoadError;
use runtime_toggles::service::{Toggle, UpdateStrategy};
use runtime_toggles::store::ToggleData;
use runtime_toggles::threshold::{sample_at_most_threshold, ONE_BITS, SAMPLE_LIMIT, ZERO_BITS};
use runtime_toggles::toggle_set::{ToggleEntry, ToggleSet};
use runtime_toggles::trigger::{watch_action, DataChange, EventKind, FireAction, Lifecycle, ModifyKind};

/// The sample that stands for `x`, which must lie on the sampling grid.
fn sample_of(x: f32) -> u32 {
    let k = (x * SAMPLE_LIMIT as f32) as u32;
    assert_eq!(k as f32 / SAMPLE_LIMIT as f32, x);
    k
}

fn entry(name: &str, value: f32, description: Option<&str>) -> ToggleEntry {
    ToggleEntry {
        name: name.to_string(),
        threshold: value.to_bits(),
        description: description.map(|d| d.to_string()),
    }
}

fn set_of(items: &[(&str, f32)]) -> ToggleSet {
    let entries: Vec<ToggleEntry> = items.iter().map(|(n, v)| entry(n, *v, None)).collect();
    ToggleSet::from_entries(&entries)
}

fn started(items: &[(&str, f32)]) -> Toggle {
    let mut t = Toggle::new("toggle.yaml");
    assert_eq!(t.start(Ok(set_of(items))), Ok(true));
    t
}

#[test]
fn constants_match_floats() {
    assert_eq!(ONE_BITS, 1.0f32.to_bits());
    assert_eq!(ZERO_BITS, 0.0f32.to_bits());
    assert_eq!(SAMPLE_LIMIT, 1 << 24);
}

#[test]
fn fixed_sample_against_thresholds() {
    let k = sample_of(0.3);
    assert_eq!(k, 5033165);
    assert!(sample_at_most_threshold(k, 0.5f32.to_bits()));
    assert!(!sample_at_most_threshold(k, 0.2f32.to_bits()));
    assert!(sample_at_most_threshold(k, 0.3f32.to_bits()));
}

#[test]
fn fixed_sample_through_service() {
    let t = started(&[("half", 0.5), ("fifth", 0.2), ("boundary", 0.3)]);
    let k = sample_of(0.3);
    assert!(t.is_available_at("half", k));
    assert!(!t.is_available_at("fifth", k));
    assert!(t.is_available_at("boundary", k));
}

#[test]
fn comparison_agrees_with_float_order() {
    let thresholds: [f32; 14] = [
        0.0, -0.0, 1.0, 0.5, 0.3, 0.2, 1e-30, 1e-45, -0.5, 2.0, 1e30,
        f32::INFINITY, f32::NEG_INFINITY, f32::NAN,
    ];
    let samples: [u32; 8] = [0, 1, 2, 5033165, 5033166, 1 << 23, (1 << 24) - 1, 12345];
    for t in thresholds.iter() {
        for k in samples.iter() {
            let x = *k as f32 / SAMPLE_LIMIT as f32;
            assert_eq!(sample_at_most_threshold(*k, t.to_bits()), x <= *t, "{} {}", k, t);
        }
    }
}

#[test]
fn threshold_one_is_always_on() {
    let t = started(&[("on", 1.0)]);
    for _ in 0..10000 {
        assert!(t.is_available("on"));
    }
    assert!(t.is_available_at("on", SAMPLE_LIMIT - 1));
    assert!(t.is_available_at("on", 0));
}

#[test]
fn threshold_zero_is_off() {
    let t = started(&[("off", 0.0)]);
    let mut k: u32 = 1;
    while k < SAMPLE_LIMIT {
        assert!(!t.is_available_at("off", k));
        k += 4099;
    }
    assert!(!t.is_available_at("off", SAMPLE_LIMIT - 1));
    // the one sample equal to the threshold
    assert!(t.is_available_at("off", 0));
}

#[test]
fn absent_toggle_is_off() {
    let t = started(&[("present", 1.0)]);
    for _ in 0..1000 {
        assert!(!t.is_available("absent"));
    }
    assert!(!t.is_available_at("absent", 0));
}

#[test]
fn unstarted_service_serves_nothing() {
    let t = Toggle::new("toggle.yaml");
    assert_eq!(t.lifecycle(), Lifecycle::Constructed);
    assert!(!t.is_loaded());
    assert_eq!(t.lookup("any"), None);
    assert!(t.needs_start());
    assert!(!t.is_available("any"));
    assert_eq!(t.config_file_path(), "toggle.yaml");
    assert_eq!(t.strategy(), UpdateStrategy::FileWatch);
}

#[test]
fn start_twice_launches_once() {
    let mut t = Toggle::with_strategy("toggle.yaml", UpdateStrategy::Poll { interval_ms: 1000 });
    assert_eq!(t.start(Ok(set_of(&[("a", 1.0)]))), Ok(true));
    assert_eq!(t.lifecycle(), Lifecycle::Ready);
    assert_eq!(t.start(Ok(set_of(&[("a", 0.0)]))), Ok(false));
    assert_eq!(t.start(Err(LoadError::IoFailure("gone".to_string()))), Ok(false));
    assert!(t.is_available_at("a", 7));
    assert_eq!(t.lookup("a"), Some(ONE_BITS));
    assert!(!t.needs_start());
    assert_eq!(t.strategy(), UpdateStrategy::Poll { interval_ms: 1000 });
}

#[test]
fn failed_initial_load_is_returned() {
    let mut t = Toggle::new("missing.yaml");
    assert_eq!(
        t.start(Err(LoadError::IoFailure("missing.yaml".to_string()))),
        Err(LoadError::IoFailure("missing.yaml".to_string()))
    );
    assert_eq!(t.lifecycle(), Lifecycle::Constructed);
    assert!(!t.is_loaded());
    assert_eq!(
        t.start(Err(LoadError::ParseFailure("bad".to_string()))),
        Err(LoadError::ParseFailure("bad".to_string()))
    );
    assert_eq!(t.start(Ok(set_of(&[("a", 1.0)]))), Ok(true));
    assert_eq!(t.lifecycle(), Lifecycle::Ready);
}

#[test]
fn stop_halts_once_and_blocks_restart() {
    let mut never = Toggle::new("toggle.yaml");
    assert!(!never.stop());
    assert_eq!(never.lifecycle(), Lifecycle::Stopped);
    assert_eq!(never.start(Ok(set_of(&[("a", 1.0)]))), Ok(false));

    let mut t = started(&[("a", 1.0)]);
    assert!(t.stop());
    assert!(!t.stop());
    assert_eq!(t.start(Ok(set_of(&[("a", 1.0)]))), Ok(false));
}

#[test]
fn reload_changes_threshold() {
    let mut t = started(&[("flag", 0.5)]);
    let k = sample_of(0.25);
    assert!(t.is_available_at("flag", k));
    assert!(t.reload(Ok(set_of(&[("flag", 0.0)]))));
    assert!(!t.is_available_at("flag", k));
    assert!(!t.is_available_at("flag", 1));
    assert_eq!(t.lookup("flag"), Some(0.0f32.to_bits()));
}

#[test]
fn failed_reload_keeps_data() {
    let mut t = started(&[("flag", 0.5)]);
    assert!(!t.reload(Err(LoadError::IoFailure("unreadable".to_string()))));
    assert!(!t.reload(Err(LoadError::ParseFailure("bad".to_string()))));
    assert_eq!(t.lookup("flag"), Some(0.5f32.to_bits()));
    assert!(t.is_loaded());
    assert!(t.is_available_at("flag", sample_of(0.5)));
    assert_eq!(t.lifecycle(), Lifecycle::Ready);
}

#[test]
fn reload_replaces_whole_set() {
    let mut t = started(&[("a", 0.5)]);
    assert!(t.reload(Ok(set_of(&[("b", 0.25)]))));
    assert_eq!(t.lookup("a"), None);
    assert!(!t.is_available_at("a", 0));
    assert!(t.is_available_at("b", sample_of(0.25)));
}

#[test]
fn lookup_all_reads_one_set() {
    let mut t = Toggle::new("toggle.yaml");
    assert!(!t.is_loaded());
    let names = vec!["a".to_string(), "b".to_string(), "c".to_string()];
    assert_eq!(t.lookup_all(&names), vec![None, None, None]);
    assert!(t.reload(Ok(set_of(&[("a", 0.5), ("b", 1.0)]))));
    assert!(t.is_loaded());
    assert_eq!(
        t.lookup_all(&names),
        vec![Some(0.5f32.to_bits()), Some(1.0f32.to_bits()), None]
    );
    assert!(t.is_available_at("b", SAMPLE_LIMIT - 1));
}

#[test]
fn failed_launch_undoes_start() {
    let mut t = started(&[("a", 1.0)]);
    assert!(t.launch_failed());
    assert_eq!(t.lifecycle(), Lifecycle::Constructed);
    assert!(!t.is_loaded());
    assert_eq!(t.lookup("a"), None);
    assert!(!t.launch_failed());
    assert_eq!(t.start(Ok(set_of(&[("a", 0.0)]))), Ok(true));
    assert_eq!(t.lookup("a"), Some(ZERO_BITS));
    assert!(t.stop());
    assert!(!t.launch_failed());
    assert_eq!(t.lifecycle(), Lifecycle::Stopped);
}

#[test]
fn out_of_range_thresholds_are_not_clamped() {
    let t = started(&[("big", 2.5), ("neg", -0.25), ("inf", f32::INFINITY), ("nan", f32::NAN)]);
    for k in [0u32, 1, 5033165, SAMPLE_LIMIT - 1] {
        assert!(t.is_available_at("big", k));
        assert!(t.is_available_at("inf", k));
        assert!(!t.is_available_at("neg", k));
        assert!(!t.is_available_at("nan", k));
    }
}

#[test]
fn toggle_set_later_entry_wins() {
    let s = set_of(&[("a", 0.1), ("b", 0.2), ("a", 0.7)]);
    assert_eq!(s.len(), 2);
    assert_eq!(s.lookup("a"), Some(0.7f32.to_bits()));
    assert_eq!(s.lookup("b"), Some(0.2f32.to_bits()));
    assert_eq!(s.lookup("c"), None);
    assert_eq!(ToggleSet::new().len(), 0);
    assert_eq!(set_of(&[]).lookup("a"), None);
}

#[test]
fn toggle_set_insert_replaces() {
    let mut s = ToggleSet::new();
    s.insert("x".to_string(), 3);
    s.insert("y".to_string(), 4);
    s.insert("x".to_string(), 5);
    assert_eq!(s.len(), 2);
    assert_eq!(s.lookup("x"), Some(5));
    assert_eq!(s.lookup("y"), Some(4));
}

#[test]
fn description_defaults() {
    assert_eq!(entry("a", 0.3, Some("rollout")).description_or_default(), "rollout");
    assert_eq!(entry("a", 0.3, None).description_or_default(), "NO_DESCRIPTION");
}

#[test]
fn toggle_data_reload_outcomes() {
    let mut d = ToggleData::default();
    assert!(!d.is_loaded());
    assert_eq!(d.lookup("a"), None);
    assert!(!d.apply_reload(Err(LoadError::IoFailure("x".to_string()))));
    assert!(!d.is_loaded());
    assert!(d.apply_reload(Ok(set_of(&[("a", 1.0)]))));
    assert!(d.is_loaded());
    assert!(d.evaluate("a", 99));
    assert!(!d.apply_reload(Err(LoadError::ParseFailure("y".to_string()))));
    assert_eq!(d.lookup("a"), Some(ONE_BITS));
    d.update_values(set_of(&[("b", 0.0)]));
    assert_eq!(d.lookup("a"), None);
    assert!(!d.evaluate("b", 99));
    let names = vec!["a".to_string(), "b".to_string()];
    assert_eq!(d.lookup_all(&names), vec![None, Some(ZERO_BITS)]);
}

#[test]
fn watch_reloads_on_content_change_only() {
    assert_eq!(
        watch_action(Ok(EventKind::Modify(ModifyKind::Data(DataChange::Content)))),
        FireAction::Reload
    );
    assert_eq!(
        watch_action(Ok(EventKind::Modify(ModifyKind::Data(DataChange::Size)))),
        FireAction::Ignore
    );
    assert_eq!(watch_action(Ok(EventKind::Modify(ModifyKind::Metadata))), FireAction::Ignore);
    assert_eq!(watch_action(Ok(EventKind::Modify(ModifyKind::Name))), FireAction::Ignore);
    assert_eq!(watch_action(Ok(EventKind::Create)), FireAction::Ignore);
    assert_eq!(watch_action(Ok(EventKind::Remove)), FireAction::Ignore);
    assert_eq!(watch_action(Ok(EventKind::Access)), FireAction::Ignore);
    assert_eq!(watch_action(Err(())), FireAction::Report);
}
