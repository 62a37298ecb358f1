use diskpulse::fileclass::FileCategory;
use diskpulse::risk::{
    classify_risks, default_rules, get_rules_with_overrides, match_rule, rule_for_file_category, RiskLevel,
};
use diskpulse::scanner::{
    is_protected_root_dir, root_dirs_to_measure, scan_drive, scan_drive_meta, sort_dirs_by_size_desc, DirInfo,
    DriveInfo, RootEntry,
};

fn make_dir(name: &str, path: &str) -> DirInfo {
    DirInfo {
        name: name.into(),
        path: path.into(),
        size_bytes: 1_000_000_000,
        file_count: 100,
        dir_count: 10,
        risk_level: None,
    }
}

#[test]
fn test_temp_is_low_risk() {
    let dir = make_dir("Temp", "C:\\Windows\\Temp");
    let rules = default_rules();
    let (level, category, _, safe) = match_rule(&dir, &rules);
    assert_eq!(level, RiskLevel::Low);
    assert_eq!(category, "temporary_files");
    assert!(safe);
}

#[test]
fn test_windows_is_high_risk() {
    let dir = make_dir("Program Files", "C:\\Program Files");
    let rules = default_rules();
    let (level, category, _, safe) = match_rule(&dir, &rules);
    assert_eq!(level, RiskLevel::High);
    assert_eq!(category, "installed_applications");
    assert!(!safe);
}

#[test]
fn test_npm_cache_is_low_risk() {
    let dir = make_dir("npm-cache", "C:\\Users\\user\\AppData\\Local\\npm-cache");
    let rules = default_rules();
    let (level, _, _, safe) = match_rule(&dir, &rules);
    assert_eq!(level, RiskLevel::Low);
    assert!(safe);
}

#[test]
fn test_classify_risks_generates_report() {
    let drive = DriveInfo {
        drive_letter: "C".into(),
        total_bytes: 500_000_000_000,
        used_bytes: 300_000_000_000,
        free_bytes: 200_000_000_000,
        top_dirs: vec![
            make_dir("Windows", "C:\\Windows"),
            make_dir("Temp", "C:\\Windows\\Temp"),
            make_dir("Users", "C:\\Users"),
            make_dir("Program Files", "C:\\Program Files"),
        ],
    };
    let report = classify_risks(&drive);
    assert_eq!(report.summary.total_items, 4);
    assert!(report.summary.high_risk_count >= 1);
    assert!(report.summary.low_risk_count >= 1);
    assert!(report.summary.safe_deletable_bytes > 0);
}

#[test]
fn risk_level_names() {
    assert_eq!(RiskLevel::Low.as_str(), "low");
    assert_eq!(RiskLevel::Medium.as_str(), "medium");
    assert_eq!(RiskLevel::High.as_str(), "high");
}

#[test]
fn overrides_change_safety_of_named_rule() {
    let base = default_rules();
    let id = base[0].id.clone();
    let flipped = !base[0].safe_to_delete;
    let rules = get_rules_with_overrides(&vec![(id.clone(), !flipped), (id.clone(), flipped)]);
    assert_eq!(rules.len(), base.len());
    assert_eq!(rules[0].safe_to_delete, flipped);
    assert_eq!(rules[1].safe_to_delete, base[1].safe_to_delete);
}

#[test]
fn report_lists_high_risk_first() {
    let drive = DriveInfo {
        drive_letter: "C".into(),
        total_bytes: 10,
        used_bytes: 5,
        free_bytes: 5,
        top_dirs: vec![make_dir("Temp", "C:\\Windows\\Temp"), make_dir("Program Files", "C:\\Program Files")],
    };
    let report = classify_risks(&drive);
    assert_eq!(report.items[0].risk_level, RiskLevel::High);
    assert_eq!(report.items[1].risk_level, RiskLevel::Low);
    assert_eq!(report.summary.safe_deletable_bytes, 1_000_000_000);
}

#[test]
fn protected_dirs_are_skipped() {
    assert!(is_protected_root_dir("System Volume Information"));
    assert!(is_protected_root_dir("$Recycle.Bin"));
    assert!(!is_protected_root_dir("Users"));
}

#[test]
fn scan_drive_fails_for_missing_drive() {
    // Drive Z does not exist here.
    let result = scan_drive("Z", false, 0, 0, vec![]);
    assert!(result.is_err());
}

#[test]
fn scan_drive_lists_largest_first() {
    let mut small = make_dir("a", "C:\\a");
    small.size_bytes = 1;
    let mut big = make_dir("b", "C:\\b");
    big.size_bytes = 9;
    let info = scan_drive("c", true, 100, 40, vec![small, big]).unwrap();
    assert_eq!(info.drive_letter, "C");
    assert_eq!(info.used_bytes, 60);
    assert_eq!(info.top_dirs[0].name, "b");
    let sorted = sort_dirs_by_size_desc(&vec![make_dir("x", "x"), make_dir("y", "y")]);
    assert_eq!(sorted[0].name, "x");
    assert_eq!(sorted[1].name, "y");
}

#[test]
fn drive_meta_never_reports_negative_usage() {
    let meta = scan_drive_meta("d", true, 10, 20, None, Some(5)).unwrap();
    assert_eq!(meta.used_bytes, 0);
    assert_eq!(meta.drive_letter, "D");
    assert_eq!(meta.cache_age_ms, Some(5));
    let missing = scan_drive_meta("q", false, 0, 0, None, None);
    assert_eq!(missing.unwrap_err(), "Drive q does not exist");
}

#[test]
fn nineteen_built_in_rules_with_distinct_ids() {
    let rules = default_rules();
    assert_eq!(rules.len(), 19);
    for (i, a) in rules.iter().enumerate() {
        for b in &rules[i + 1..] {
            assert_ne!(a.id, b.id);
        }
    }
    assert_eq!(get_rules_with_overrides(&vec![]).len(), 19);
}

#[test]
fn file_category_rules_match_dev_cache_build_and_dependencies() {
    let rules = default_rules();
    let dev = rule_for_file_category(&rules, &FileCategory::DevCache).expect("dev cache rule");
    assert_eq!(rules[dev].id, "dev-cache");
    assert_eq!(rules[dev].file_category.as_deref(), Some("dev_cache"));
    assert!(!rules[dev].safe_to_delete);
    let build = rule_for_file_category(&rules, &FileCategory::Build).expect("build rule");
    assert_eq!(rules[build].id, "build-output");
    let dep = rule_for_file_category(&rules, &FileCategory::Dependency).expect("dependency rule");
    assert_eq!(rules[dep].id, "dependency-packages");
    assert_eq!(rule_for_file_category(&rules, &FileCategory::Pdf), None);
    assert!(rules[dep].matches_file_category(&FileCategory::Dependency));
    assert!(!rules[dep].matches_file_category(&FileCategory::Build));
    // Category rules carry no path pattern, so directories are classified as before.
    let (level, category, _, safe) = match_rule(&make_dir("site-packages", "D:\\py\\site-packages"), &rules);
    assert_eq!((level, category.as_str(), safe), (RiskLevel::Medium, "unknown", false));
    let (_, category, _, _) = match_rule(&make_dir(".cache", "D:\\home\\.cache"), &rules);
    assert_eq!(category, "unknown");
}

#[test]
fn drive_scan_measures_plain_directories_only() {
    let entry = |name: &str, is_dir: bool, is_symlink: bool| RootEntry { name: name.into(), is_dir, is_symlink };
    let listed = vec![
        entry("Users", true, false),
        entry("System Volume Information", true, false),
        entry("pagefile.sys", false, false),
        entry("$Recycle.Bin", true, false),
        entry("Documents and Settings", true, true),
        entry("Program Files", true, false),
    ];
    let names: Vec<String> = root_dirs_to_measure(listed).into_iter().map(|e| e.name).collect();
    assert_eq!(names, vec!["Users".to_string(), "Program Files".to_string()]);
}
