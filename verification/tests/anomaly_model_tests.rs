use diskpulse::anomaly::{fusion_confidence, hotspot_growths, AeStatus, AnomalySeverity, AnomalyType};
use diskpulse::fragmentation::{
    cluster_count, estimate_extent_count, fragmentation_counts, DEFAULT_CLUSTER_SIZE, DEFAULT_SAMPLE_LIMIT,
};
use diskpulse::model_manager::{can_fine_tune, fine_tune_check, model_status_message, MIN_FINE_TUNE_SNAPSHOTS};
use diskpulse::scanner::DirInfo;

const GIB: u64 = 1024 * 1024 * 1024;

fn dir(name: &str, path: &str, size_bytes: u64) -> DirInfo {
    DirInfo {
        name: name.into(),
        path: path.into(),
        size_bytes,
        file_count: 1,
        dir_count: 0,
        risk_level: None,
    }
}

#[test]
fn fusion_confidence_counts_triggered_detectors() {
    assert_eq!(fusion_confidence(&vec![true, true, false]), "high");
    assert_eq!(fusion_confidence(&vec![true, true, true]), "high");
    assert_eq!(fusion_confidence(&vec![false, true, false]), "low");
    assert_eq!(fusion_confidence(&vec![false, false, false]), "none");
    assert_eq!(fusion_confidence(&vec![]), "none");
}

#[test]
fn hotspot_growths_pair_directories_by_path() {
    let previous = vec![dir("Cache", "C:\\Cache", 10 * GIB), dir("Logs", "C:\\Logs", 10 * GIB)];
    let current = vec![
        dir("Cache", "C:\\Cache", 70 * GIB),
        dir("Logs", "C:\\Logs", 11 * GIB),
        dir("New", "C:\\New", 5 * GIB),
    ];
    assert_eq!(hotspot_growths(&previous, &current), vec![(0, 60 * GIB), (1, GIB)]);
}

#[test]
fn hotspot_growths_skip_shrunk_unchanged_and_case_variants() {
    let previous = vec![dir("A", "C:\\A", 100), dir("B", "C:\\B", 100), dir("c", "C:\\c", 1)];
    let current = vec![dir("A", "C:\\A", 50), dir("B", "C:\\B", 100), dir("C", "C:\\C", 500)];
    assert!(hotspot_growths(&previous, &current).is_empty());
}

#[test]
fn hotspot_growths_use_last_reading_of_a_path() {
    let previous = vec![dir("A", "C:\\A", 10), dir("A", "C:\\A", 40)];
    let current = vec![dir("A", "C:\\A", 50)];
    assert_eq!(hotspot_growths(&previous, &current), vec![(0, 10)]);
}

#[test]
fn anomaly_enums_compare_by_variant() {
    assert_eq!(AnomalyType::BurstAnomaly, AnomalyType::BurstAnomaly);
    assert_ne!(AnomalyType::RateAnomaly, AnomalyType::HotspotAnomaly);
    assert_ne!(AnomalySeverity::Warning, AnomalySeverity::Critical);
    assert_ne!(AeStatus::Healthy, AeStatus::Disabled);
}

#[test]
fn status_requires_sixty_snapshots_for_fine_tune() {
    assert!(!can_fine_tune(59));
    assert_eq!(MIN_FINE_TUNE_SNAPSHOTS, 60);
    assert!(model_status_message(59, false).contains("Collect 1"));
}

#[test]
fn model_status_messages_follow_snapshot_count() {
    assert!(can_fine_tune(60));
    assert_eq!(model_status_message(60, true), "Local fine-tune completed with snapshot-derived calibration.");
    assert_eq!(model_status_message(75, false), "Enough snapshots are available for local fine-tuning.");
    assert_eq!(model_status_message(10, true), "Collect 50 more snapshot(s) before fine-tuning.");
    assert_eq!(model_status_message(0, false), "Collect 60 more snapshot(s) before fine-tuning.");
}

#[test]
fn fine_tune_check_reports_snapshots_found() {
    assert_eq!(fine_tune_check(60), Ok(()));
    assert_eq!(fine_tune_check(61), Ok(()));
    assert_eq!(
        fine_tune_check(12),
        Err("Fine-tune requires at least 60 snapshots; found 12".to_string())
    );
}

#[test]
fn cluster_count_rounds_up_and_is_at_least_one() {
    assert_eq!(DEFAULT_CLUSTER_SIZE, 4096);
    assert_eq!(DEFAULT_SAMPLE_LIMIT, 500);
    assert_eq!(cluster_count(0, 4096), 1);
    assert_eq!(cluster_count(1, 4096), 1);
    assert_eq!(cluster_count(4096, 4096), 1);
    assert_eq!(cluster_count(4097, 4096), 2);
    assert_eq!(cluster_count(10, 0), 10);
    assert_eq!(cluster_count(u64::MAX, 1), u64::MAX);
}

#[test]
fn fragmentation_counts_follow_extent_formula() {
    assert_eq!(fragmentation_counts(1, 4096, 4096), None);
    assert_eq!(fragmentation_counts(3, 8192, 4096), Some((2, 2)));
    assert_eq!(fragmentation_counts(5, 0, 4096), None);
    assert_eq!(fragmentation_counts(4, 40960, 4096), Some((3, 10)));
}

#[test]
fn extent_estimate_marks_large_fragmented_files() {
    assert_eq!(estimate_extent_count("/data/a.bin", 0), 0);
    assert_eq!(estimate_extent_count("/data/a.bin", 128), 1);
    assert_eq!(estimate_extent_count("/data/fragmented.bin", 4096 * 1025), 2);
    assert_eq!(estimate_extent_count("/data/fragmented.bin", 4096 * 1024), 1);
    assert_eq!(estimate_extent_count("/data/other.bin", 4096 * 2000), 1);
}
