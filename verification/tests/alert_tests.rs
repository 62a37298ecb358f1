use diskpulse::alert::{
    alert_start_message, notification_due, plan_alert_start, stop_alert_monitor,
    threshold_type_from_setting, AlertStart, AlertThresholdType, NOTIFICATION_COOLDOWN_MS,
};

#[test]
fn threshold_setting_selects_the_kind() {
    assert_eq!(threshold_type_from_setting("absolute_gb"), AlertThresholdType::AbsoluteGB);
    assert_eq!(threshold_type_from_setting("percentage"), AlertThresholdType::Percentage);
    assert_eq!(threshold_type_from_setting("anything"), AlertThresholdType::Percentage);
}

#[test]
fn monitor_starts_only_when_enabled_and_idle() {
    assert_eq!(plan_alert_start(false, false), AlertStart::Disabled);
    assert_eq!(plan_alert_start(false, true), AlertStart::Disabled);
    assert_eq!(plan_alert_start(true, true), AlertStart::AlreadyRunning);
    assert_eq!(plan_alert_start(true, false), AlertStart::Start);
    assert_eq!(alert_start_message(AlertStart::Disabled), "alerts disabled in settings");
    assert_eq!(alert_start_message(AlertStart::AlreadyRunning), "alert monitor already running");
    assert_eq!(alert_start_message(AlertStart::Start), "alert monitor started");
}

#[test]
fn notifications_wait_out_the_cooldown() {
    assert_eq!(NOTIFICATION_COOLDOWN_MS, 600_000);
    assert!(notification_due(600_000, 0));
    assert!(!notification_due(599_999, 0));
    assert!(!notification_due(5, 10));
    assert!(notification_due(1_700_000_600_000, 1_700_000_000_000));
}

#[test]
fn stopping_reports_whether_a_monitor_ran() {
    assert_eq!(stop_alert_monitor(true), Ok("alert monitor stopped".to_string()));
    assert_eq!(stop_alert_monitor(false), Ok("no alert monitor running".to_string()));
}
