use diskpulse::scanner::{DirInfo, DriveMeta};
use diskpulse::watcher::{
    add_pending, closing_batch, default_watch_dirs, diff_snapshots, flush_due, make_batch, refresh_cached_dirs,
    refreshed_drive_info, DirtyOutcome, DirtyTopDir, PathState, dirty_top_dirs_from_batch, top_level_from_path, FsChangeBatch, FsEvent,
    FsEventKind, WatcherConfig,
};

fn batch_of(paths: &[&str]) -> FsChangeBatch {
    FsChangeBatch {
        watched_dir: "C:\\Users\\me\\Downloads".into(),
        events: paths
            .iter()
            .map(|path| FsEvent {
                kind: FsEventKind::Modified,
                path: (*path).into(),
                is_directory: false,
                size_bytes: 1,
                previous_size_bytes: Some(0),
            })
            .collect(),
        event_count: paths.len(),
        timestamp_ms: 1,
    }
}

#[test]
fn top_level_from_path_extracts_drive_root_child() {
    let (drive, name, path) = top_level_from_path("c:/Users/me/Downloads/file.zip").expect("top dir");
    assert_eq!(drive, "C");
    assert_eq!(name, "Users");
    assert_eq!(path, "C:\\Users");
}

#[test]
fn top_level_from_path_skips_protected_roots() {
    assert!(top_level_from_path("C:\\System Volume Information\\x").is_none());
    assert!(top_level_from_path("C:\\$Recycle.Bin\\x").is_none());
}

#[test]
fn dirty_top_dirs_are_deduplicated_per_drive() {
    let batch = batch_of(&[
        "C:\\Users\\me\\Downloads\\a.zip",
        "C:\\Users\\me\\AppData\\Local\\b.tmp",
        "D:\\Games\\cache.bin",
    ]);
    let dirty = dirty_top_dirs_from_batch(&batch);
    let get = |drive: &str| dirty.iter().find(|(d, _)| d == drive).map(|(_, dirs)| dirs);
    assert_eq!(get("C").map(|d| d.len()), Some(1));
    assert!(get("C").is_some_and(|dirs| dirs.iter().any(|d| d.path == "C:\\Users")));
    assert!(get("D").is_some_and(|dirs| dirs.iter().any(|d| d.path == "D:\\Games")));
}

#[test]
fn top_level_rejects_paths_without_drive() {
    assert!(top_level_from_path("relative\\path").is_none());
    assert!(top_level_from_path("C:").is_none());
    assert!(top_level_from_path("C:\\").is_none());
    assert_eq!(
        top_level_from_path("C:\\\\ Data \\x").map(|t| t.2),
        Some("C:\\Data".to_string())
    );
}

#[test]
fn watcher_config_has_dirs() {
    let dirs = default_watch_dirs(
        Some("C:\\Temp".to_string()),
        Some("C:\\Users\\me".to_string()),
        Some("C:\\Users\\me\\AppData\\Local".to_string()),
    );
    let config = WatcherConfig::with_directories(dirs);
    assert!(!config.directories.is_empty());
    assert_eq!(config.poll_interval_ms, 2000);
    assert_eq!(config.debounce_ms, 1500);
}

#[test]
fn default_watch_dirs_follow_the_environment_values() {
    let dirs = default_watch_dirs(
        Some("C:\\Temp".to_string()),
        Some("C:\\Users\\me".to_string()),
        None,
    );
    assert_eq!(dirs, vec!["C:\\Temp".to_string(), "C:\\Users\\me\\Downloads".to_string()]);
    assert!(default_watch_dirs(None, None, None).is_empty());
}

fn cached(name: &str, size: u64) -> DirInfo {
    DirInfo {
        name: name.into(),
        path: format!("C:\\{name}"),
        size_bytes: size,
        file_count: 1,
        dir_count: 0,
        risk_level: None,
    }
}

fn dirty(name: &str) -> DirtyTopDir {
    DirtyTopDir { name: name.into(), path: format!("C:\\{name}") }
}

#[test]
fn refresh_replaces_adds_and_drops_entries() {
    let dirs = vec![cached("Users", 50), cached("Temp", 10), cached("Old", 5)];
    let steps = vec![
        (dirty("temp"), DirtyOutcome::Measured(cached("x", 70))),
        (dirty("New"), DirtyOutcome::Measured(cached("y", 20))),
        (dirty("Old"), DirtyOutcome::Gone),
        (dirty("Users"), DirtyOutcome::Failed),
    ];
    let refreshed = refresh_cached_dirs(dirs, steps).expect("changed");
    let names: Vec<&str> = refreshed.iter().map(|d| d.name.as_str()).collect();
    assert_eq!(names, vec!["temp", "Users", "New"]);
    assert_eq!(refreshed[0].size_bytes, 70);
    assert_eq!(refreshed[0].path, "C:\\temp");
}

#[test]
fn refresh_without_change_reports_nothing() {
    let dirs = vec![cached("Users", 50)];
    assert!(refresh_cached_dirs(dirs.clone(), vec![(dirty("Users"), DirtyOutcome::Failed)]).is_none());
    assert!(refresh_cached_dirs(dirs, vec![(dirty("Gone"), DirtyOutcome::Gone)]).is_none());
}

#[test]
fn refreshed_overview_prefers_live_space_figures() {
    let live = DriveMeta {
        drive_letter: "C".into(),
        total_bytes: 100,
        used_bytes: 60,
        free_bytes: 40,
        cached_top_dirs: None,
        cache_age_ms: None,
    };
    let info = refreshed_drive_info("C".into(), Some(live), 1, 2, 3, vec![]);
    assert_eq!((info.total_bytes, info.used_bytes, info.free_bytes), (100, 60, 40));
    let info = refreshed_drive_info("C".into(), None, 1, 2, 3, vec![cached("a", 1)]);
    assert_eq!((info.total_bytes, info.used_bytes, info.free_bytes), (1, 2, 3));
    assert_eq!(info.top_dirs.len(), 1);
}

fn state(size: u64, modified: u64) -> PathState {
    PathState { size, is_dir: false, modified }
}

#[test]
fn polls_are_diffed_into_events() {
    let previous = vec![
        ("C:\\w\\a".to_string(), state(1, 1)),
        ("C:\\w\\b".to_string(), state(2, 2)),
        ("C:\\w\\c".to_string(), state(3, 3)),
    ];
    let current = vec![
        ("C:\\w\\a".to_string(), state(1, 1)),
        ("C:\\w\\b".to_string(), state(5, 2)),
        ("C:\\w\\d".to_string(), PathState { size: 0, is_dir: true, modified: 9 }),
    ];
    let events = diff_snapshots(&previous, &current);
    let kinds: Vec<(FsEventKind, &str)> = events.iter().map(|e| (e.kind, e.path.as_str())).collect();
    assert_eq!(
        kinds,
        vec![
            (FsEventKind::Modified, "C:\\w\\b"),
            (FsEventKind::Added, "C:\\w\\d"),
            (FsEventKind::Removed, "C:\\w\\c"),
        ]
    );
    assert_eq!(events[0].size_bytes, 5);
    assert!(events[1].is_directory);
    assert_eq!(events[2].size_bytes, 0);
    assert!(diff_snapshots(&current, &current).is_empty());
}

#[test]
fn batches_flush_after_the_debounce_window() {
    assert!(flush_due(1, 1500, 1500));
    assert!(!flush_due(1, 1499, 1500));
    assert!(!flush_due(0, 9999, 1500));
    let batch = make_batch("C:\\w".into(), vec![], 7);
    assert_eq!(batch.event_count, 0);
    assert_eq!(batch.timestamp_ms, 7);
}

fn modified(path: &str) -> FsEvent {
    FsEvent {
        kind: FsEventKind::Modified,
        path: path.into(),
        is_directory: false,
        size_bytes: 3,
        previous_size_bytes: None,
    }
}

#[test]
fn add_pending_groups_events_by_watched_dir() {
    let mut pending: Vec<(String, Vec<FsEvent>)> = Vec::new();
    add_pending(&mut pending, "/a".into(), modified("/a/1"));
    add_pending(&mut pending, "/b".into(), modified("/b/1"));
    add_pending(&mut pending, "/a".into(), modified("/a/2"));
    assert_eq!(pending.len(), 2);
    assert_eq!(pending[0].0, "/a");
    let a: Vec<&str> = pending[0].1.iter().map(|e| e.path.as_str()).collect();
    assert_eq!(a, vec!["/a/1", "/a/2"]);
    assert_eq!(pending[1].0, "/b");
    assert_eq!(pending[1].1.len(), 1);
}

#[test]
fn regular_batches_count_their_events_and_the_closing_one_does_not() {
    let batch = make_batch("C:\\w".into(), vec![modified("C:\\w\\a"), modified("C:\\w\\b")], 9);
    assert_eq!(batch.event_count, 2);
    let last = closing_batch("C:\\w".into(), vec![modified("C:\\w\\c")], 11);
    assert_eq!(last.events.len(), 1);
    assert_eq!(last.event_count, 0);
    assert_eq!(last.watched_dir, "C:\\w");
    assert_eq!(last.timestamp_ms, 11);
}
