use monitor_manager::display::{CapturedDisplay, DisplayConfiguration, MonitorInfo};
use monitor_manager::monitor::{collect_restored, count_accepted, MonitorManager};
use monitor_manager::store::ConfigurationStore;

fn info(name: &str, primary: bool, active: bool) -> MonitorInfo {
    MonitorInfo {
        device_name: name.to_string(),
        description: format!("{} description", name),
        is_primary: primary,
        is_active: active,
    }
}

fn cfg(width: u32, height: u32) -> DisplayConfiguration {
    DisplayConfiguration {
        width,
        height,
        position_x: 0,
        position_y: 0,
        bits_per_pixel: 32,
        display_frequency: 60,
    }
}

#[test]
fn new_manager_is_idle() {
    let m = MonitorManager::new();
    assert!(!m.displays_disabled());
    assert_eq!(m.saved_count(), 0);
}

#[test]
fn capture_records_active_queryable_displays() {
    let mut m = MonitorManager::new();
    let snapshot = vec![
        CapturedDisplay { info: info("D1", true, true), settings: Some(cfg(2560, 1440)) },
        CapturedDisplay { info: info("D2", false, true), settings: Some(cfg(1920, 1080)) },
        CapturedDisplay { info: info("D3", false, false), settings: None },
        CapturedDisplay { info: info("D4", false, true), settings: None },
    ];
    m.save_current_settings(&snapshot);
    // Inactive displays and failed queries are left out of the snapshot.
    assert_eq!(m.saved_count(), 2);
    assert_eq!(m.get_saved(&"D1".to_string()), Some(&cfg(2560, 1440)));
    assert_eq!(m.get_saved(&"D2".to_string()), Some(&cfg(1920, 1080)));
    assert_eq!(m.get_saved(&"D3".to_string()), None);
    assert_eq!(m.get_saved(&"D4".to_string()), None);
}

#[test]
fn capture_replaces_earlier_snapshot() {
    let mut m = MonitorManager::new();
    let first = vec![CapturedDisplay { info: info("D1", false, true), settings: Some(cfg(800, 600)) }];
    m.save_current_settings(&first);
    let second = vec![CapturedDisplay {
        info: info("D1", false, true),
        settings: Some(cfg(1920, 1080)),
    }];
    m.save_current_settings(&second);
    assert_eq!(m.saved_count(), 1);
    assert_eq!(m.get_saved(&"D1".to_string()), Some(&cfg(1920, 1080)));
}

#[test]
fn capture_repopulates_wholesale() {
    let mut m = MonitorManager::new();
    let first = vec![
        CapturedDisplay { info: info("D1", false, true), settings: Some(cfg(800, 600)) },
        CapturedDisplay { info: info("D2", false, true), settings: Some(cfg(1024, 768)) },
    ];
    m.save_current_settings(&first);
    assert_eq!(m.saved_count(), 2);
    // The next capture sees only D2: D1's stale entry must not
    // survive — the store is never incrementally merged.
    let second = vec![CapturedDisplay {
        info: info("D2", false, true),
        settings: Some(cfg(1920, 1080)),
    }];
    m.save_current_settings(&second);
    assert_eq!(m.saved_count(), 1);
    assert_eq!(m.get_saved(&"D1".to_string()), None);
    assert_eq!(m.get_saved(&"D2".to_string()), Some(&cfg(1920, 1080)));
}

#[test]
fn failed_query_leaves_display_unrestorable() {
    let mut m = MonitorManager::new();
    let first = vec![CapturedDisplay { info: info("D1", false, true), settings: Some(cfg(800, 600)) }];
    m.save_current_settings(&first);
    // D1 is still active, but this time its configuration query
    // failed: it is omitted from the snapshot, and no stale entry
    // from the earlier capture keeps it restorable.
    let second = vec![CapturedDisplay { info: info("D1", false, true), settings: None }];
    m.save_current_settings(&second);
    assert_eq!(m.saved_count(), 0);
    assert_eq!(m.get_saved(&"D1".to_string()), None);
    let entries = m.restore_all_begin();
    assert!(entries.is_empty());
}

#[test]
fn capture_is_noop_while_disabled() {
    let mut m = MonitorManager::new();
    let before = vec![CapturedDisplay {
        info: info("D2", false, true),
        settings: Some(cfg(1920, 1080)),
    }];
    m.save_current_settings(&before);
    m.record_disable_outcome(1);
    assert!(m.displays_disabled());
    // A capture attempt in the disabled state must not disturb the
    // pre-disable snapshot.
    let after = vec![CapturedDisplay { info: info("D2", false, true), settings: Some(cfg(0, 0)) }];
    m.save_current_settings(&after);
    assert_eq!(m.saved_count(), 1);
    assert_eq!(m.get_saved(&"D2".to_string()), Some(&cfg(1920, 1080)));
}

#[test]
fn disable_plan_spares_primary_and_inactive() {
    let m = MonitorManager::new();
    let monitors = vec![
        info("D1", true, true),
        info("D2", false, true),
        info("D3", false, false),
        info("D4", false, true),
    ];
    let plan = m.plan_disable_secondary(&monitors);
    let names: Vec<&str> = plan.iter().map(|c| c.device_name.as_str()).collect();
    assert_eq!(names, vec!["D2", "D4"]);
    for change in &plan {
        assert_eq!(change.target.width, 0);
        assert_eq!(change.target.height, 0);
    }
}

#[test]
fn disable_plan_empty_when_no_secondary_is_active() {
    let m = MonitorManager::new();
    let monitors = vec![info("D1", true, true), info("D3", false, false)];
    let plan = m.plan_disable_secondary(&monitors);
    assert!(plan.is_empty());
}

#[test]
fn second_disable_pass_stages_nothing() {
    let mut m = MonitorManager::new();
    let monitors = vec![info("D1", true, true), info("D2", false, true)];
    let plan = m.plan_disable_secondary(&monitors);
    assert_eq!(plan.len(), 1);
    m.record_disable_outcome(plan.len());
    assert!(m.displays_disabled());
    // Idempotence: the already-disabled guard stops a second pass.
    let again = m.plan_disable_secondary(&monitors);
    assert!(again.is_empty());
}

#[test]
fn rejected_disable_pass_leaves_state_idle() {
    let mut m = MonitorManager::new();
    let monitors = vec![info("D1", true, true), info("D2", false, true)];
    let plan = m.plan_disable_secondary(&monitors);
    assert_eq!(plan.len(), 1);
    // The OS accepted none of the staged changes.
    m.record_disable_outcome(0);
    assert!(!m.displays_disabled());
}

#[test]
fn capture_disable_restore_round_trip() {
    let mut m = MonitorManager::new();
    let snapshot = vec![
        CapturedDisplay { info: info("D1", true, true), settings: Some(cfg(2560, 1440)) },
        CapturedDisplay { info: info("D2", false, true), settings: Some(cfg(1920, 1080)) },
    ];
    m.save_current_settings(&snapshot);
    let monitors = vec![info("D1", true, true), info("D2", false, true)];
    let plan = m.plan_disable_secondary(&monitors);
    m.record_disable_outcome(plan.len());
    assert!(m.displays_disabled());
    let entries = m.restore_all_begin();
    assert!(!m.displays_disabled());
    assert_eq!(m.saved_count(), 0);
    // Every display active at capture time is handed back with the
    // captured configuration, ready to re-apply verbatim.
    assert_eq!(entries.len(), 2);
    assert_eq!(entries[0].device_name, "D1");
    assert_eq!(entries[0].settings, cfg(2560, 1440));
    assert_eq!(entries[1].device_name, "D2");
    assert_eq!(entries[1].settings, cfg(1920, 1080));
}

#[test]
fn restore_on_empty_store_returns_empty_and_clears_flag() {
    let mut m = MonitorManager::new();
    let entries = m.restore_all_begin();
    assert!(entries.is_empty());
    assert!(!m.displays_disabled());
}

#[test]
fn restore_drains_exactly_once() {
    let mut m = MonitorManager::new();
    let snapshot = vec![
        CapturedDisplay { info: info("D1", false, true), settings: Some(cfg(1024, 768)) },
        CapturedDisplay { info: info("D2", false, true), settings: Some(cfg(1280, 1024)) },
    ];
    m.save_current_settings(&snapshot);
    m.record_disable_outcome(2);
    let first = m.restore_all_begin();
    assert_eq!(first.len(), 2);
    // The second restoration observes an empty store.
    let second = m.restore_all_begin();
    assert!(second.is_empty());
    assert!(!m.displays_disabled());
}

#[test]
fn restore_clears_flag_even_after_partial_failure() {
    let mut m = MonitorManager::new();
    let snapshot = vec![CapturedDisplay {
        info: info("D2", false, true),
        settings: Some(cfg(1920, 1080)),
    }];
    m.save_current_settings(&snapshot);
    m.record_disable_outcome(1);
    let entries = m.restore_all_begin();
    // Even if the OS then rejects every staged restore, the disabled
    // state has ended: a later capture must not be blocked.
    let accepted = vec![false];
    let restored = collect_restored(&entries, &accepted);
    assert!(restored.is_empty());
    assert!(!m.displays_disabled());
}

#[test]
fn shutdown_restores_at_most_once() {
    let mut m = MonitorManager::new();
    let snapshot = vec![CapturedDisplay {
        info: info("D2", false, true),
        settings: Some(cfg(1920, 1080)),
    }];
    m.save_current_settings(&snapshot);
    m.record_disable_outcome(1);
    let drained = m.shutdown_restore();
    assert!(drained.is_some());
    assert_eq!(drained.unwrap().len(), 1);
    assert!(!m.displays_disabled());
    // Already restored: the second observation exits without restoring.
    let again = m.shutdown_restore();
    assert!(again.is_none());
}

#[test]
fn shutdown_without_disable_restores_nothing() {
    let mut m = MonitorManager::new();
    let snapshot = vec![CapturedDisplay {
        info: info("D2", false, true),
        settings: Some(cfg(1920, 1080)),
    }];
    m.save_current_settings(&snapshot);
    let drained = m.shutdown_restore();
    assert!(drained.is_none());
    assert_eq!(m.saved_count(), 1);
}

#[test]
fn collect_restored_keeps_accepted_identities_in_order() {
    let mut store = ConfigurationStore::new();
    store.upsert("D1".to_string(), cfg(800, 600));
    store.upsert("D2".to_string(), cfg(1024, 768));
    store.upsert("D3".to_string(), cfg(1920, 1080));
    let entries = store.drain();
    assert_eq!(store.len(), 0);
    let accepted = vec![true, false, true];
    let restored = collect_restored(&entries, &accepted);
    assert_eq!(restored, vec!["D1".to_string(), "D3".to_string()]);
}

#[test]
fn count_accepted_counts_only_accepted_stages() {
    assert_eq!(count_accepted(&vec![]), 0);
    assert_eq!(count_accepted(&vec![false, false]), 0);
    assert_eq!(count_accepted(&vec![true, false, true, true]), 3);
}

#[test]
fn store_get_and_upsert() {
    let mut store = ConfigurationStore::new();
    assert!(store.is_empty());
    store.upsert("D1".to_string(), cfg(800, 600));
    store.upsert("D1".to_string(), cfg(1920, 1080));
    store.upsert("D2".to_string(), cfg(1024, 768));
    assert_eq!(store.len(), 2);
    assert_eq!(store.get(&"D1".to_string()), Some(&cfg(1920, 1080)));
    assert_eq!(store.get(&"D2".to_string()), Some(&cfg(1024, 768)));
    assert_eq!(store.get(&"D9".to_string()), None);
}
