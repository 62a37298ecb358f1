use diskpulse::cleaner::{
    clean_items_with_progress, is_path_allowed, is_path_safe_for_cleanup, parse_info_data,
    preview_cleanup, restore_items, restore_key_of, restore_plan, safety_check, CleanItem,
    CleanItemStatus, CleanOutcome, clean_step, CleanAction, CleanRun,
};
use diskpulse::risk::RiskLevel;

fn make_item(path: &str, safe: bool, risk_level: RiskLevel) -> CleanItem {
    CleanItem {
        name: path.split('\\').last().unwrap_or("item").into(),
        path: path.into(),
        size_bytes: 1024,
        risk_level,
        safe_to_delete: safe,
    }
}

#[test]
fn preview_accepts_whitelisted_safe_item() {
    let preview = preview_cleanup(vec![make_item(
        "C:\\Users\\me\\AppData\\Local\\Temp\\cache",
        true,
        RiskLevel::Low,
    )]);
    assert_eq!(preview.validation.valid_items, 1);
    assert_eq!(preview.validation.blocked_items, 0);
    assert!(preview.validation.allowed);
}

#[test]
fn preview_blocks_non_whitelisted_item() {
    let preview = preview_cleanup(vec![make_item("C:\\Program Files\\App", true, RiskLevel::High)]);
    assert_eq!(preview.validation.valid_items, 0);
    assert_eq!(preview.validation.blocked_items, 1);
    assert!(!preview.validation.allowed);
}

#[test]
fn preview_blocks_missing_path() {
    let preview = preview_cleanup(vec![make_item(
        "Z:\\Definitely\\Does\\Not\\Exist\\Dir",
        true,
        RiskLevel::Low,
    )]);
    assert_eq!(preview.validation.valid_items, 0);
    assert!(!preview.validation.allowed);
}

#[test]
fn preview_handles_empty_list() {
    let preview = preview_cleanup(vec![]);
    assert_eq!(preview.validation.valid_items, 0);
    assert_eq!(preview.validation.blocked_items, 0);
    assert!(!preview.validation.allowed);
}

#[test]
fn preview_blocks_system_paths() {
    let system_paths = vec![
        "C:\\Windows\\System32",
        "C:\\Program Files\\App",
        "C:\\Program Files (x86)\\App",
        "C:\\System Volume Information",
        "C:\\$Recycle.Bin\\stuff",
        "C:\\Windows\\Installer\\blah",
    ];
    for path in system_paths {
        let preview = preview_cleanup(vec![make_item(path, true, RiskLevel::Low)]);
        assert!(!preview.validation.allowed, "Path should be blocked: {}", path);
    }
}

#[test]
fn safety_check_fails_for_nonexistent_path() {
    let item = make_item("Z:\\NoSuchDir", true, RiskLevel::Low);
    // The path does not exist, so the file system reports it missing.
    let result = safety_check(&item, false, false);
    assert!(result.is_err());
}

#[test]
fn safety_check_blocks_system_protected() {
    let item = make_item("C:\\Windows\\System32\\fake-file.dll", true, RiskLevel::Low);
    let result = safety_check(&item, false, false);
    assert!(result.is_err());
}

#[test]
fn empty_items_list_returns_immediately() {
    let result = clean_items_with_progress(vec![], &vec![]);
    assert_eq!(result.total_attempted, 0);
    assert_eq!(result.succeeded, 0);
    assert!(result.items.is_empty());
}

#[test]
fn whitelist_matches_temp_paths() {
    assert!(is_path_allowed("C:\\Users\\me\\AppData\\Local\\Temp\\stuff"));
}

#[test]
fn whitelist_matches_cache_paths() {
    assert!(is_path_allowed("C:\\Users\\me\\AppData\\Local\\npm-cache\\lodash"));
}

#[test]
fn whitelist_rejects_unknown_paths() {
    assert!(!is_path_allowed("C:\\MyImportantData"));
}

#[test]
fn safe_check_blocks_windows() {
    assert!(!is_path_safe_for_cleanup("C:\\Windows\\some-file"));
}

#[test]
fn restore_items_finds_nothing_for_nonexistent_path() {
    // No recycle bin is found on this machine.
    let result = restore_items(vec!["Z:\\Definitely\\Does\\Not\\Exist\\File.txt".into()], None, &vec![false]);
    assert_eq!(result.restored, 0);
    assert!(result.failed > 0);
}

#[test]
fn cancellation_stops_cleanly() {
    let items = vec![make_item("C:\\Users\\me\\AppData\\Local\\Temp\\test", true, RiskLevel::Low)];
    let preview = preview_cleanup(items.clone());
    let mut run = CleanRun::new();
    let mut outcomes = Vec::new();
    for item in &preview.accepted {
        match run.step(item, true, true, false) {
            CleanAction::Stop => outcomes.push(CleanOutcome::Cancelled),
            _ => panic!("a raised cancel flag must stop the run"),
        }
    }
    let result = clean_items_with_progress(items, &outcomes);
    assert_eq!(result.succeeded, 0);
    assert_eq!(result.failed, 0);
    assert_eq!(result.skipped, 1);
    assert_eq!(result.total_attempted, 1);
    assert_eq!(result.freed_bytes, 0);
    assert_eq!(result.items.len(), 1);
    assert_eq!(result.items[0].status, CleanItemStatus::Skipped);
    assert!(result
        .items
        .iter()
        .any(|r| r.reason.as_deref() == Some("Cancelled by user")));
}

#[test]
fn clean_step_stops_skips_or_deletes() {
    let ok = make_item("C:\\Users\\me\\AppData\\Local\\Temp\\a", true, RiskLevel::Low);
    assert!(matches!(clean_step(&ok, true, true, false), CleanAction::Stop));
    assert!(matches!(clean_step(&ok, false, true, false), CleanAction::Delete));
    match clean_step(&ok, false, false, false) {
        CleanAction::Skip(reason) => assert_eq!(reason, "Path no longer exists"),
        _ => panic!("a missing path is skipped"),
    }
    match clean_step(&ok, false, true, true) {
        CleanAction::Skip(reason) => assert_eq!(reason, "File is locked or in use by another process"),
        _ => panic!("a locked path is skipped"),
    }
    let system = make_item("C:\\Windows\\System32\\x", true, RiskLevel::Low);
    assert!(matches!(clean_step(&system, false, true, false), CleanAction::Skip(_)));
}

#[test]
fn clean_run_stays_stopped_after_cancel() {
    let ok = make_item("C:\\Users\\me\\AppData\\Local\\Temp\\a", true, RiskLevel::Low);
    let mut run = CleanRun::new();
    assert!(matches!(run.step(&ok, false, true, false), CleanAction::Delete));
    assert!(matches!(run.step(&ok, true, true, false), CleanAction::Stop));
    assert!(matches!(run.step(&ok, false, true, false), CleanAction::Stop));
    assert!(run.stopped);
}

#[test]
fn run_counts_each_outcome() {
    let items = vec![
        make_item("C:\\Temp\\a", true, RiskLevel::Low),
        make_item("C:\\Windows\\b", true, RiskLevel::Low),
        make_item("C:\\Temp\\c", true, RiskLevel::Medium),
        make_item("C:\\Temp\\d", true, RiskLevel::Low),
    ];
    let outcomes = vec![
        CleanOutcome::Deleted,
        CleanOutcome::CheckFailed("Path no longer exists".into()),
        CleanOutcome::DeleteFailed,
    ];
    let result = clean_items_with_progress(items, &outcomes);
    assert_eq!(result.total_attempted, 3);
    assert_eq!(result.succeeded, 1);
    assert_eq!(result.skipped, 1);
    assert_eq!(result.failed, 1);
    assert_eq!(result.freed_bytes, 1024);
    assert_eq!(result.items[0].status, CleanItemStatus::Success);
    assert_eq!(result.items[0].original_path.as_deref(), Some("C:\\Temp\\a"));
    assert_eq!(result.items[1].reason.as_deref(), Some("Path no longer exists"));
    assert_eq!(result.items[2].status, CleanItemStatus::Failed);
}

#[test]
fn run_stops_after_cancellation() {
    let items = vec![
        make_item("C:\\Temp\\a", true, RiskLevel::Low),
        make_item("C:\\Temp\\b", true, RiskLevel::Low),
        make_item("C:\\Temp\\c", true, RiskLevel::Low),
    ];
    let outcomes = vec![CleanOutcome::Deleted, CleanOutcome::Cancelled, CleanOutcome::Deleted];
    let result = clean_items_with_progress(items, &outcomes);
    assert_eq!(result.items.len(), 2);
    assert_eq!(result.succeeded, 1);
    assert_eq!(result.skipped, 1);
    assert_eq!(result.freed_bytes, 1024);
}

#[test]
fn preview_message_counts_blocked_items() {
    let preview = preview_cleanup(vec![
        make_item("C:\\Temp\\a", true, RiskLevel::Low),
        make_item("C:\\Temp\\b", false, RiskLevel::Low),
        make_item("C:\\Data\\c", true, RiskLevel::Low),
    ]);
    assert_eq!(preview.validation.valid_items, 1);
    assert_eq!(preview.validation.blocked_items, 2);
    assert_eq!(preview.validation.total_bytes, 1024);
    assert_eq!(
        preview.validation.blocked_reason.as_deref(),
        Some("2 item(s) blocked by safety rules (including 0 with pre-delete issues)")
    );
}

#[test]
fn safety_check_reports_each_reason() {
    let ok = make_item("C:\\Temp\\x", true, RiskLevel::Low);
    assert_eq!(safety_check(&ok, true, false), Ok(()));
    assert_eq!(safety_check(&ok, false, false), Err("Path no longer exists".to_string()));
    assert_eq!(
        safety_check(&ok, true, true),
        Err("File is locked or in use by another process".to_string())
    );
    let odd = make_item("C:\\Data\\x", true, RiskLevel::Low);
    assert_eq!(safety_check(&odd, true, false), Err("Path does not match whitelist pattern".to_string()));
    let sys = make_item("C:\\Windows\\Temp\\x", true, RiskLevel::Low);
    assert_eq!(
        safety_check(&sys, true, false),
        Err("Path is in a system-protected location".to_string())
    );
}

#[test]
fn parse_info_data_reads_utf16_path() {
    let mut data = vec![0u8; 24];
    for unit in "C:\\a.txt".encode_utf16() {
        data.extend_from_slice(&unit.to_le_bytes());
    }
    data.extend_from_slice(&[0, 0]);
    assert_eq!(parse_info_data(&data), Some("C:\\a.txt".to_string()));
    assert_eq!(parse_info_data(b"too short"), None);
    assert_eq!(parse_info_data(&[0u8; 30]), None);
}

#[test]
fn restore_uses_the_latest_index_entry() {
    let index = vec![
        ("c:/temp/a.txt".to_string(), "R1".to_string()),
        ("c:/temp/a.txt".to_string(), "R2".to_string()),
    ];
    assert_eq!(restore_key_of("C:\\Temp\\A.txt"), "c:/temp/a.txt");
    let plan = restore_plan(&vec!["C:\\Temp\\A.txt".to_string(), "C:\\x".to_string()], &index);
    assert_eq!(plan, vec![Some("R2".to_string()), None]);
    let result = restore_items(
        vec!["C:\\Temp\\A.txt".to_string(), "C:\\x".to_string()],
        Some(&index),
        &vec![true, false],
    );
    assert_eq!(result.attempted, 2);
    assert_eq!(result.restored, 1);
    assert_eq!(result.failed, 1);
    assert_eq!(
        result.items[1].reason.as_deref(),
        Some("Item not found in Recycle Bin (may have been permanently deleted)")
    );
    let failed = restore_items(vec!["C:\\Temp\\A.txt".to_string()], Some(&index), &vec![false]);
    assert_eq!(failed.items[0].reason.as_deref(), Some("Failed to restore file"));
}
