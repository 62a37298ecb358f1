use diskpulse::settings::{apply_setting, base_rows, is_fraction_key, BaseSettings};

fn rows_of(s: &BaseSettings) -> Vec<(String, String)> {
    base_rows(s)
}

#[test]
fn default_base_settings_match_a_fresh_installation() {
    let s = BaseSettings::default();
    assert_eq!(s.default_drive, "C");
    assert_eq!(s.scan_mode, "exact");
    assert!(!s.auto_scan_on_startup);
    assert!(!s.auto_monitor_on_startup);
    assert_eq!(s.watcher_poll_interval_ms, 2000);
    assert_eq!(s.watcher_debounce_ms, 1500);
    assert!(!s.alert_enabled);
    assert_eq!(s.alert_threshold_type, "percentage");
    assert!(!s.alert_growth_enabled);
    assert_eq!(s.alert_growth_minutes, 15);
    assert!(!s.auto_cleanup_enabled);
    assert_eq!(s.auto_cleanup_frequency, "weekly");
    assert_eq!(s.auto_cleanup_time, "03:00");
    assert_eq!(s.auto_cleanup_risk_levels, "low");
    assert_eq!(s.language, "auto");
    assert_eq!(s.theme, "auto");
    assert!(s.update_check_enabled);
    assert_eq!(s.duplicate_min_size_bytes, 1_048_576);
    assert_eq!(s.aging_zombie_days, 180);
}

#[test]
fn apply_setting_updates_texts_switches_and_numbers() {
    let mut s = BaseSettings::default();
    assert!(apply_setting(&mut s, "default_drive", "D".into()));
    assert!(apply_setting(&mut s, "alert_enabled", "true".into()));
    assert!(apply_setting(&mut s, "update_check_enabled", "yes".into()));
    assert!(apply_setting(&mut s, "watcher_poll_interval_ms", "+750".into()));
    assert!(apply_setting(&mut s, "aging_zombie_days", "ninety".into()));
    assert!(apply_setting(&mut s, "duplicate_min_size_bytes", "18446744073709551616".into()));
    assert_eq!(s.default_drive, "D");
    assert!(s.alert_enabled);
    assert!(!s.update_check_enabled);
    assert_eq!(s.watcher_poll_interval_ms, 750);
    assert_eq!(s.aging_zombie_days, 180);
    assert_eq!(s.duplicate_min_size_bytes, 1_048_576);
}

#[test]
fn apply_setting_normalizes_scan_mode() {
    let mut s = BaseSettings::default();
    apply_setting(&mut s, "scan_mode", "speed".into());
    assert_eq!(s.scan_mode, "speed");
    apply_setting(&mut s, "scan_mode", "turbo".into());
    assert_eq!(s.scan_mode, "exact");
}

#[test]
fn apply_setting_leaves_fraction_and_unknown_keys() {
    let mut s = BaseSettings::default();
    assert!(!apply_setting(&mut s, "scoring_weight_risk", "0.5".into()));
    assert!(!apply_setting(&mut s, "no_such_key", "x".into()));
    assert_eq!(rows_of(&s), rows_of(&BaseSettings::default()));
    assert!(is_fraction_key("alert_threshold_value"));
    assert!(is_fraction_key("scoring_weight_pattern"));
    assert!(!is_fraction_key("theme"));
}

#[test]
fn base_rows_list_every_setting_in_order() {
    let rows = rows_of(&BaseSettings::default());
    let expected: Vec<(String, String)> = vec![
        ("default_drive", "C"),
        ("scan_mode", "exact"),
        ("auto_scan_on_startup", "false"),
        ("auto_monitor_on_startup", "false"),
        ("watcher_poll_interval_ms", "2000"),
        ("watcher_debounce_ms", "1500"),
        ("alert_enabled", "false"),
        ("alert_threshold_type", "percentage"),
        ("alert_growth_enabled", "false"),
        ("alert_growth_minutes", "15"),
        ("auto_cleanup_enabled", "false"),
        ("auto_cleanup_frequency", "weekly"),
        ("auto_cleanup_time", "03:00"),
        ("auto_cleanup_risk_levels", "low"),
        ("language", "auto"),
        ("theme", "auto"),
        ("update_check_enabled", "true"),
        ("duplicate_min_size_bytes", "1048576"),
        ("aging_zombie_days", "180"),
    ]
    .into_iter()
    .map(|(k, v)| (k.to_string(), v.to_string()))
    .collect();
    assert_eq!(rows, expected);
}

#[test]
fn stored_settings_read_back_unchanged() {
    let mut written = BaseSettings::default();
    written.default_drive = "E".into();
    written.scan_mode = "speed".into();
    written.auto_cleanup_enabled = true;
    written.watcher_debounce_ms = 0;
    written.aging_zombie_days = u64::MAX;
    written.language = "de".into();
    let mut read = BaseSettings::default();
    for (key, value) in base_rows(&written) {
        apply_setting(&mut read, &key, value);
    }
    assert_eq!(rows_of(&read), rows_of(&written));
}
