use diskpulse::aging::{
    age_days, aging_report, analyze_file_aging, analyze_file_aging_with_threshold_and_cancel,
    bucket_for_age_days, empty_buckets, AgedFile, FileTimeRecord,
};
use diskpulse::db::{custom_rule, risk_level_from_str};
use diskpulse::duplicates::{duplicate_groups, group_by_prefix, group_by_size, sha256_hex, FoundFile, LinkTracker};
use diskpulse::platform::FileIdentity;
use diskpulse::risk::RiskLevel;
use diskpulse::scanner::FileEntry;

const DAY: u64 = 24 * 60 * 60;

#[test]
fn aging_bucket_classifies_expected_ranges() {
    assert_eq!(bucket_for_age_days(3), "lt_7d");
    assert_eq!(bucket_for_age_days(20), "d7_30");
    assert_eq!(bucket_for_age_days(70), "m1_3");
    assert_eq!(bucket_for_age_days(150), "m3_6");
    assert_eq!(bucket_for_age_days(250), "m6_12");
    assert_eq!(bucket_for_age_days(800), "y1_3");
    assert_eq!(bucket_for_age_days(1200), "gt_3y");
}

#[test]
fn file_record_marks_zombies_after_threshold() {
    let now = 400 * DAY;
    let old_access = now - 220 * DAY;
    let record = FileTimeRecord {
        path: "C:\\Archive\\old.iso".into(),
        size_bytes: 10,
        created: now,
        modified: now,
        accessed: old_access,
    };
    assert!(record.is_zombie(now, 180));
    assert!(!record.is_zombie(now, 221));
}

fn entry(path: &str, size: u64) -> FileEntry {
    FileEntry {
        name: path.rsplit('\\').next().unwrap().into(),
        path: path.into(),
        size_bytes: size,
        modified_epoch_ms: 0,
        hard_link_count: 1,
        size_on_disk_bytes: None,
        file_category: None,
    }
}

fn aged(path: &str, dir: &str, size: u64, modified_days_ago: u64, accessed_days_ago: u64, now: u64) -> AgedFile {
    AgedFile {
        record: FileTimeRecord {
            path: path.into(),
            size_bytes: size,
            created: now,
            modified: now - modified_days_ago * DAY,
            accessed: now - accessed_days_ago * DAY,
        },
        parent_dir: dir.into(),
        entry: entry(path, size),
    }
}

#[test]
fn aging_report_buckets_zombies_and_hotspots() {
    let now = 2000 * DAY;
    let files = vec![
        aged("C:\\a\\x.bin", "C:\\a", 100, 1, 1, now),
        aged("C:\\a\\y.bin", "C:\\a", 50, 10, 300, now),
        aged("C:\\b\\z.bin", "C:\\b", 500, 2, 400, now),
        aged("C:\\c\\old.bin", "C:\\c", 7, 1500, 1500, now),
    ];
    let report = aging_report("c", 180, now, files);
    assert_eq!(report.drive_letter, "C");
    assert_eq!(report.buckets.len(), 7);
    assert_eq!(report.buckets[0].total_bytes, 600);
    assert_eq!(report.buckets[0].file_count, 2);
    assert_eq!(report.buckets[1].total_bytes, 50);
    assert_eq!(report.buckets[6].file_count, 1);
    assert_eq!(report.zombie_files.len(), 3);
    assert_eq!(report.zombie_files[0].size_bytes, 500);
    assert_eq!(report.zombies_total_size, 557);
    assert_eq!(report.hotspots.len(), 2);
    assert_eq!(report.hotspots[0].path, "C:\\b");
    assert_eq!(report.hotspots[1].recent_bytes, 150);
    assert_eq!(report.hotspots[1].file_count, 2);
    assert_eq!(report.file_ages[0].path, "C:\\a\\x.bin");
    assert_eq!(report.file_ages[3].age_days, 1500);
}

#[test]
fn aging_reports_missing_drive_and_cancellation() {
    assert_eq!(
        analyze_file_aging("q", false, None, 0, vec![]).unwrap_err(),
        "Drive q does not exist"
    );
    assert_eq!(
        analyze_file_aging_with_threshold_and_cancel("c", true, 1, 0, vec![], true).unwrap_err(),
        "Aging scan cancelled"
    );
    assert_eq!(age_days(10, 20), 0);
    assert_eq!(empty_buckets()[6].max_days, None);
}

fn found(path: &str, size: u64, identity: Option<(u64, u64)>) -> FoundFile {
    FoundFile {
        entry: entry(path, size),
        identity: identity.map(|(v, i)| FileIdentity { volume_serial: v, file_index: i }),
    }
}

#[test]
fn duplicate_scan_groups_identical_files_and_counts_waste() {
    let files = vec![
        found("C:\\d\\b.txt", 10, Some((1, 1))),
        found("C:\\d\\a.txt", 10, Some((1, 2))),
        found("C:\\d\\link.txt", 10, Some((1, 1))),
        found("C:\\d\\unique.txt", 11, None),
        found("C:\\d\\tiny.txt", 1, None),
    ];
    let sizes = group_by_size(&files, 5);
    assert_eq!(sizes.processed, 4);
    assert_eq!(sizes.hard_link_count, 1);
    assert_eq!(sizes.candidates.len(), 2);
    let prefix = sha256_hex(b"same");
    let same_prefix = group_by_prefix(&sizes.candidates, &vec![prefix.clone(), prefix.clone()]);
    assert_eq!(same_prefix.len(), 2);
    let hash = sha256_hex(b"same content");
    let groups = duplicate_groups(&same_prefix, &vec![hash.clone(), hash.clone()], sizes.hard_link_count);
    assert_eq!(groups.len(), 1);
    assert_eq!(groups[0].total_size_wasted, 10);
    assert_eq!(groups[0].group_id, hash[..16].to_string());
    assert_eq!(groups[0].files[0].path, "C:\\d\\a.txt");
    assert_eq!(groups[0].hard_link_count, 1);
}

#[test]
fn sha256_hex_matches_known_digest() {
    assert_eq!(
        sha256_hex(b"abc"),
        "ba7816bf8f01cfea414140de5dae2223b00361a396177a9cb410ff61f20015ad"
    );
}

#[test]
fn different_prefixes_are_not_compared_further() {
    let cands = vec![entry("a", 3), entry("b", 3), entry("c", 3)];
    let kept = group_by_prefix(&cands, &vec!["x".into(), "y".into(), "x".into()]);
    assert_eq!(kept.len(), 2);
    assert_eq!(kept[1].path, "c");
    let groups = duplicate_groups(&cands, &vec!["h1".into(), "h2".into(), "h3".into()], 0);
    assert!(groups.is_empty());
}

#[test]
fn custom_rules_accept_low_and_medium_only() {
    assert_eq!(risk_level_from_str("Medium"), Some(RiskLevel::Medium));
    assert_eq!(risk_level_from_str("huge"), None);
    let rule = custom_rule("My Cache!", "*.cache", "low").unwrap();
    assert_eq!(rule.id, "custom-my-cache");
    assert_eq!(rule.patterns, vec!["*.cache".to_string()]);
    assert_eq!(rule.explanation, "Custom rule: My Cache!");
    assert!(!rule.safe_to_delete);
    assert_eq!(
        custom_rule("x", "y", "high").unwrap_err(),
        "Custom rules can only use low or medium risk levels"
    );
    assert_eq!(custom_rule("x", "y", "bad").unwrap_err(), "Invalid risk level: bad");
}

#[test]
fn custom_rule_rejects_high_risk_level() {
    let result = custom_rule("Danger", "Windows/System32", "high");

    assert_eq!(
        result.map(|rule| rule.id),
        Err("Custom rules can only use low or medium risk levels".to_string())
    );
}

#[test]
fn walk_time_link_count_matches_the_size_pass() {
    let files = vec![
        found("C:\\d\\a.bin", 4096, Some((1, 10))),
        found("C:\\d\\b.bin", 4096, Some((1, 10))),
        found("C:\\d\\small", 10, Some((1, 11))),
        found("C:\\d\\c.bin", 4096, Some((1, 11))),
        found("C:\\d\\d.bin", 4096, None),
        found("C:\\d\\e.bin", 4096, Some((1, 10))),
    ];
    let mut tracker = LinkTracker::new();
    let mut repeats = Vec::new();
    for f in &files {
        if f.entry.size_bytes >= 1024 {
            repeats.push(tracker.note(f.identity));
        }
    }
    assert_eq!(repeats, vec![false, true, false, false, true]);
    assert_eq!(tracker.hard_link_count, 2);
    assert_eq!(group_by_size(&files, 1024).hard_link_count, 2);
}
