use diskpulse::largefiles::find_large_files_with_progress_and_cancel;
use diskpulse::scanner::{
    calculate_dir_size, is_cancelled, is_hidden_subdir, scan_directory, scan_drive_with_progress,
    scan_drive_with_progress_and_cancel, scan_top_level_dir, DirInfo, FileEntry, ListedEntry,
    ScanOutput, WalkEntry,
};
use std::sync::atomic::AtomicBool;

fn dir(name: &str, size: u64) -> DirInfo {
    DirInfo {
        name: name.into(),
        path: format!("C:\\{name}"),
        size_bytes: size,
        file_count: 1,
        dir_count: 0,
        risk_level: None,
    }
}

fn file(name: &str, size: u64) -> FileEntry {
    FileEntry {
        name: name.into(),
        path: format!("T:\\{name}"),
        size_bytes: size,
        modified_epoch_ms: 0,
        hard_link_count: 1,
        size_on_disk_bytes: None,
        file_category: None,
    }
}

fn walk(is_file: bool, is_dir: bool, is_root: bool, len: u64) -> WalkEntry {
    WalkEntry { is_file, is_dir, is_root, len }
}

#[test]
fn scan_top_level_dir_counts_nested_files() {
    let entries = vec![
        walk(false, true, true, 0),
        walk(true, false, false, 3),
        walk(false, true, false, 0),
        walk(true, false, false, 5),
    ];
    let output = calculate_dir_size(&entries, false).expect("measure");
    let info = scan_top_level_dir("/tmp/scan-top", true, true, Some("scan-top".into()), Ok(output))
        .expect("scan temp dir");
    assert_eq!(info.size_bytes, 8);
    assert_eq!(info.file_count, 2);
    assert_eq!(info.dir_count, 1);
    assert_eq!(info.name, "scan-top");
    assert_eq!(info.path, "/tmp/scan-top");
}

#[test]
fn measuring_a_cancelled_walk_fails() {
    assert_eq!(calculate_dir_size(&vec![walk(true, false, false, 1)], true), Err("Scan cancelled".to_string()));
}

#[test]
fn rescanning_reports_path_errors_in_order() {
    let ok = Ok(ScanOutput { size_bytes: 1, file_count: 1, dir_count: 0 });
    assert_eq!(
        scan_top_level_dir("C:\\gone", false, false, None, ok.clone()),
        Err("Directory does not exist: C:\\gone".to_string())
    );
    assert_eq!(
        scan_top_level_dir("C:\\f.txt", true, false, None, ok.clone()),
        Err("Not a directory: C:\\f.txt".to_string())
    );
    assert_eq!(
        scan_top_level_dir("C:\\", true, true, None, ok),
        Err("Cannot determine directory name: C:\\".to_string())
    );
    assert_eq!(
        scan_top_level_dir("C:\\x", true, true, Some("x".into()), Err("Scan cancelled".into())),
        Err("Scan cancelled".to_string())
    );
}

#[test]
fn drive_scan_sorts_measured_dirs_and_passes_errors_on() {
    let info = scan_drive_with_progress_and_cancel("c", true, 100, 30, Ok(vec![dir("a", 1), dir("b", 9)]))
        .unwrap();
    assert_eq!(info.drive_letter, "C");
    assert_eq!(info.used_bytes, 70);
    assert_eq!(info.top_dirs[0].name, "b");
    assert_eq!(
        scan_drive_with_progress("c", true, 100, 30, Err("Scan cancelled".into())).unwrap_err(),
        "Scan cancelled"
    );
    assert_eq!(
        scan_drive_with_progress("z", false, 0, 0, Ok(vec![])).unwrap_err(),
        "Drive z does not exist"
    );
}

#[test]
fn cancellation_flag_is_read() {
    assert!(!is_cancelled(None));
    assert!(is_cancelled(Some(&AtomicBool::new(true))));
    assert!(!is_cancelled(Some(&AtomicBool::new(false))));
}

#[test]
fn directory_listing_skips_system_folders_and_adds_files_record() {
    assert!(is_hidden_subdir("$Recycle.Bin"));
    assert!(is_hidden_subdir("System Volume Information"));
    assert!(!is_hidden_subdir("Users"));
    let entries = vec![
        ListedEntry::Dir {
            name: "$Recycle.Bin".into(),
            path: "C:\\$Recycle.Bin".into(),
            measured: Err("never measured".into()),
        },
        ListedEntry::Dir {
            name: "small".into(),
            path: "C:\\data\\small".into(),
            measured: Ok(ScanOutput { size_bytes: 5, file_count: 1, dir_count: 0 }),
        },
        ListedEntry::File { len: Some(40) },
        ListedEntry::File { len: None },
        ListedEntry::Dir {
            name: "big".into(),
            path: "C:\\data\\big".into(),
            measured: Ok(ScanOutput { size_bytes: 90, file_count: 3, dir_count: 1 }),
        },
        ListedEntry::File { len: Some(2) },
    ];
    let listed = scan_directory("C:\\data", true, true, &entries).unwrap();
    let names: Vec<&str> = listed.iter().map(|d| d.name.as_str()).collect();
    assert_eq!(names, vec!["big", "(files)", "small"]);
    assert_eq!(listed[1].size_bytes, 42);
    assert_eq!(listed[1].file_count, 2);
    assert_eq!(listed[1].path, "C:\\data");
    assert_eq!(
        scan_directory("C:\\nope", false, false, &entries).unwrap_err(),
        "Directory does not exist: C:\\nope"
    );
}

#[test]
fn find_large_files_returns_top_n_descending() {
    let files = vec![file("small.bin", 10), file("medium.bin", 20), file("large.bin", 30)];
    let found = find_large_files_with_progress_and_cancel("T", true, 1, 2, files, false).expect("find large files");
    assert_eq!(found.len(), 2);
    assert_eq!(found[0].name, "large.bin");
    assert_eq!(found[0].size_bytes, 30);
    assert_eq!(found[1].name, "medium.bin");
    assert_eq!(found[1].size_bytes, 20);
}

#[test]
fn find_large_files_filters_by_min_size() {
    let files = vec![file("below.bin", 9), file("at.bin", 10)];
    let found = find_large_files_with_progress_and_cancel("T", true, 10, 10, files, false).expect("find large files");
    assert_eq!(found.len(), 1);
    assert_eq!(found[0].name, "at.bin");
}

#[test]
fn find_large_files_can_cancel_from_progress_callback() {
    let files = vec![file("a.bin", 10), file("b.bin", 20)];
    let result = find_large_files_with_progress_and_cancel("T", true, 1, 10, files, true);
    assert_eq!(result, Err("Large file scan cancelled".to_string()));
}
