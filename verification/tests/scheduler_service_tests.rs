use diskpulse::cleaner::CleanResult;
use diskpulse::scheduler::{auto_cleanup_completed_message, auto_cleanup_failed_message};
use diskpulse::cleaner::CleanItem;
use diskpulse::risk::RiskLevel;
use diskpulse::scheduler::{
    calculate_next_run, filter_auto_cleanup_candidates, get_auto_cleanup_status, status_from_settings,
    stop_auto_cleanup_scheduler, ScheduleSettings,
};
use diskpulse::service::{
    drive_meta_response, install, send_request, service_binary_path, service_reply, state_from_raw, status,
    ServiceReply, ServiceRequest, ServiceState,
};

#[test]
fn calculate_next_run_daily_uses_today_when_time_is_future() {
    let now = 10 * 60 * 60;
    let next = calculate_next_run("daily", "12:30", now).expect("next run");
    assert_eq!(next, 12 * 60 * 60 + 30 * 60);
}

#[test]
fn calculate_next_run_daily_rolls_to_tomorrow_when_time_passed() {
    let now = 23 * 60 * 60;
    let next = calculate_next_run("daily", "03:00", now).expect("next run");
    assert_eq!(next, 27 * 60 * 60);
}

#[test]
fn calculate_next_run_rejects_invalid_time() {
    assert!(calculate_next_run("daily", "25:99", 0).is_err());
}

#[test]
fn next_run_errors_and_periods() {
    assert_eq!(calculate_next_run("daily", "1200", 0).unwrap_err(), "Auto-cleanup time must use HH:MM");
    assert_eq!(calculate_next_run("daily", "xx:00", 0).unwrap_err(), "Auto-cleanup hour must be numeric");
    assert_eq!(calculate_next_run("daily", "10:yy", 0).unwrap_err(), "Auto-cleanup minute must be numeric");
    assert_eq!(calculate_next_run("hourly", "10:00", 0).unwrap_err(), "Unsupported auto-cleanup frequency: hourly");
    assert_eq!(calculate_next_run("weekly", "00:00", 3600).unwrap(), 7 * 86400);
    assert_eq!(calculate_next_run("monthly", "00:00", 86400).unwrap(), 86400 + 30 * 86400);
}

fn item(name: &str, risk_level: RiskLevel, safe: bool) -> CleanItem {
    CleanItem { name: name.into(), path: format!("C:\\Temp\\{name}"), size_bytes: 10, risk_level, safe_to_delete: safe }
}

#[test]
fn auto_cleanup_candidates_only_include_low_risk_safe_items() {
    let items = vec![
        CleanItem {
            name: "cache".into(),
            path: "C:\\Temp\\cache".into(),
            size_bytes: 10,
            risk_level: RiskLevel::Low,
            safe_to_delete: true,
        },
        CleanItem {
            name: "downloads".into(),
            path: "C:\\Users\\me\\Downloads".into(),
            size_bytes: 20,
            risk_level: RiskLevel::Medium,
            safe_to_delete: true,
        },
    ];
    let candidates = filter_auto_cleanup_candidates(items, "low,medium");
    assert_eq!(candidates.len(), 1);
    assert_eq!(candidates[0].name, "cache");
}

#[test]
fn auto_cleanup_needs_low_in_levels() {
    let items = vec![item("a", RiskLevel::Low, true), item("b", RiskLevel::Low, false)];
    assert!(filter_auto_cleanup_candidates(items.clone(), "medium").is_empty());
    assert_eq!(filter_auto_cleanup_candidates(items, " LOW ").len(), 1);
}

#[test]
fn scheduler_status_reports_next_run() {
    let settings = ScheduleSettings {
        enabled: true,
        frequency: "daily".into(),
        time: "03:00".into(),
        drive_letter: "C".into(),
    };
    let st = status_from_settings(&settings, true, "running", 0, None).unwrap();
    assert_eq!(st.next_run_epoch_ms, Some(3 * 3600 * 1000));
    assert_eq!(st.last_freed_bytes, 0);
    let idle = get_auto_cleanup_status(None, &settings, 0, None).unwrap();
    assert_eq!(idle.message, "auto-cleanup idle");
    assert!(!idle.running);
    let mut slot = Some(7u8);
    let (answer, token) = stop_auto_cleanup_scheduler(&mut slot);
    assert_eq!(answer.unwrap(), "auto-cleanup scheduler stopped");
    assert_eq!(token, Some(7));
    assert_eq!(slot, None);
    // A second stop finds nothing registered and changes nothing.
    let (answer, token) = stop_auto_cleanup_scheduler(&mut slot);
    assert_eq!(answer.unwrap(), "auto-cleanup scheduler not running");
    assert_eq!(token, None);
    assert_eq!(slot, None);
}

#[test]
fn service_binary_path_quotes_exe_and_adds_flag() {
    assert_eq!(
        service_binary_path(r"C:\Program Files\DiskPulse\diskpulse.exe"),
        r#""C:\Program Files\DiskPulse\diskpulse.exe" --service"#
    );
}

#[test]
fn unknown_raw_state_maps_to_unknown() {
    assert_eq!(state_from_raw(9999), ServiceState::Unknown);
}

#[test]
fn service_state_codes() {
    assert_eq!(state_from_raw(1), ServiceState::Stopped);
    assert_eq!(state_from_raw(4), ServiceState::Running);
    assert_eq!(state_from_raw(7), ServiceState::Paused);
}

#[test]
fn service_rejects_cleanup_messages() {
    let request = ServiceRequest { command: "cleanup".into(), drive: Some("C".into()) };
    match service_reply(&request) {
        ServiceReply::Answer(response) => {
            assert!(!response.ok);
            assert!(response.message.contains("not allowed"));
        }
        _ => panic!("expected an answer"),
    }
}

#[test]
fn service_accepts_ping_messages() {
    let request = ServiceRequest { command: "ping".into(), drive: None };
    match service_reply(&request) {
        ServiceReply::Answer(response) => {
            assert!(response.ok);
            assert_eq!(response.message, "pong");
        }
        _ => panic!("expected an answer"),
    }
}

#[test]
fn service_asks_for_drive_metadata() {
    let request = ServiceRequest { command: "scan_meta".into(), drive: None };
    assert!(matches!(service_reply(&request), ServiceReply::NeedsDriveMeta(d) if d == "C"));
    let request = ServiceRequest { command: "reboot".into(), drive: None };
    match service_reply(&request) {
        ServiceReply::Answer(r) => assert_eq!(r.message, "Unsupported service command: reboot"),
        _ => panic!("expected an answer"),
    }
    let r = drive_meta_response(Err("Drive Q does not exist".into()));
    assert!(!r.ok);
    assert!(install().is_err());
    assert!(send_request(&ServiceRequest { command: "ping".into(), drive: None }).is_err());
    assert_eq!(status().unwrap().state, ServiceState::NotInstalled);
}

#[test]
fn auto_cleanup_messages_report_counts_and_errors() {
    let result = CleanResult {
        total_attempted: 6,
        succeeded: 3,
        skipped: 2,
        failed: 1,
        freed_bytes: 99,
        items: Vec::new(),
    };
    assert_eq!(
        auto_cleanup_completed_message(&result),
        "auto-cleanup completed: 3 succeeded, 2 skipped, 1 failed"
    );
    assert_eq!(auto_cleanup_failed_message("Drive Z does not exist"), "auto-cleanup failed: Drive Z does not exist");
}
