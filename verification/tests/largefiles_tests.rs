use diskpulse::largefiles::{file_at_most, find_large_files_with_progress_and_cancel, push_file_candidate};
use diskpulse::scanner::FileEntry;

fn entry(path: &str, size: u64, modified: u64) -> FileEntry {
    FileEntry {
        name: path.rsplit('\\').next().unwrap_or(path).to_string(),
        path: path.to_string(),
        size_bytes: size,
        modified_epoch_ms: modified,
        hard_link_count: 1,
        size_on_disk_bytes: None,
        file_category: None,
    }
}

fn sizes(v: &[FileEntry]) -> Vec<u64> {
    v.iter().map(|e| e.size_bytes).collect()
}

#[test]
fn order_is_by_size_then_time_then_path() {
    assert!(file_at_most(&entry("C:\\a", 1, 9), &entry("C:\\b", 2, 0)));
    assert!(!file_at_most(&entry("C:\\a", 2, 0), &entry("C:\\b", 1, 9)));
    assert!(file_at_most(&entry("C:\\z", 5, 1), &entry("C:\\a", 5, 2)));
    assert!(file_at_most(&entry("C:\\a", 5, 1), &entry("C:\\b", 5, 1)));
    assert!(!file_at_most(&entry("C:\\b", 5, 1), &entry("C:\\a", 5, 1)));
    let mut on_disk = entry("C:\\a", 5, 1);
    on_disk.size_on_disk_bytes = Some(4096);
    assert!(file_at_most(&entry("C:\\a", 5, 1), &on_disk));
    assert!(!file_at_most(&on_disk, &entry("C:\\a", 5, 1)));
}

#[test]
fn pushing_keeps_the_largest_in_descending_order() {
    let mut top = Vec::new();
    for (i, size) in [30u64, 10, 50, 20, 40, 5].iter().enumerate() {
        push_file_candidate(&mut top, entry(&format!("C:\\f{i}"), *size, 0), 8, 3);
    }
    assert_eq!(sizes(&top), vec![50, 40, 30]);
}

#[test]
fn candidates_below_the_minimum_are_ignored() {
    let mut top = Vec::new();
    push_file_candidate(&mut top, entry("C:\\small", 7, 0), 8, 3);
    assert!(top.is_empty());
    push_file_candidate(&mut top, entry("C:\\exact", 8, 0), 8, 3);
    assert_eq!(sizes(&top), vec![8]);
}

#[test]
fn large_file_search_reports_errors_and_limits() {
    let files = vec![entry("C:\\a", 100, 0), entry("C:\\b", 300, 0), entry("C:\\c", 200, 0)];
    assert_eq!(
        find_large_files_with_progress_and_cancel("q", false, 1, 10, files.clone(), false),
        Err("Drive q does not exist".to_string())
    );
    assert_eq!(
        find_large_files_with_progress_and_cancel("C", true, 1, 0, files.clone(), true),
        Ok(Vec::new())
    );
    assert_eq!(
        find_large_files_with_progress_and_cancel("C", true, 1, 2, files.clone(), true),
        Err("Large file scan cancelled".to_string())
    );
    let found = find_large_files_with_progress_and_cancel("C", true, 150, 2, files, false).unwrap();
    assert_eq!(found.iter().map(|e| e.path.as_str()).collect::<Vec<_>>(), vec!["C:\\b", "C:\\c"]);
}
