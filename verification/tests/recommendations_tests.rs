use diskpulse::cleaner::{CleanItemResult, CleanItemStatus};
use diskpulse::recommendations::{
    category_counts, detector_hit_count, get_pre_cleanup_candidates, recommendation_action, recommendation_estimate, infer_category, insert_max_age,
    merge_detector_source, normalize_category, normalize_path_key, risk_level_to_string,
    RecommendationItem,
};
use diskpulse::risk::RiskLevel;

fn ranked(name: &str, risk: &str, safe: bool) -> RecommendationItem {
    RecommendationItem {
        name: name.into(),
        path: format!("C:\\Temp\\{name}"),
        category: "Temp Files".into(),
        size_bytes: 1_000,
        risk_level: risk.into(),
        safe_to_delete: safe,
    }
}

fn cleaned(path: &str, name: &str) -> CleanItemResult {
    CleanItemResult {
        path: path.into(),
        name: name.into(),
        size_bytes: 10,
        status: CleanItemStatus::Success,
        reason: None,
        original_path: None,
    }
}

#[test]
fn categories_fold_onto_known_keys() {
    assert_eq!(normalize_category("  Browser Cache "), "cache");
    assert_eq!(normalize_category("TEMP files"), "temp");
    assert_eq!(normalize_category("tmp"), "temp");
    assert_eq!(normalize_category("Crash Logs"), "logs");
    assert_eq!(normalize_category("Duplicate Files"), "duplicates");
    assert_eq!(normalize_category("   "), "unknown");
    assert_eq!(normalize_category(" Build Output "), "build output");
}

#[test]
fn inferred_category_reads_folder_and_name() {
    assert_eq!(infer_category("C:\\Users\\me\\AppData", "npm-cache"), "cache");
    assert_eq!(infer_category("D:\\Games", "Saves"), "d:\\games\\saves");
}

#[test]
fn path_keys_ignore_case_separators_and_padding() {
    assert_eq!(normalize_path_key("  C:/Users/Me/Downloads//  "), "c:\\users\\me\\downloads");
    assert_eq!(normalize_path_key("C:\\Temp\\"), "c:\\temp");
    assert_eq!(normalize_path_key("\\/"), "");
}

#[test]
fn risk_levels_print_in_lower_case() {
    assert_eq!(risk_level_to_string(&RiskLevel::Low), "low");
    assert_eq!(risk_level_to_string(&RiskLevel::Medium), "medium");
    assert_eq!(risk_level_to_string(&RiskLevel::High), "high");
}

#[test]
fn pre_cleanup_keeps_only_safe_low_risk_items_in_rank_order() {
    let list = vec![
        ranked("a", "low", true),
        ranked("b", "medium", true),
        ranked("c", "low", false),
        ranked("d", "low", true),
    ];
    let picked = get_pre_cleanup_candidates(&list);
    assert_eq!(picked.len(), 2);
    assert_eq!(picked[0].name, "a");
    assert_eq!(picked[1].name, "d");
    assert_eq!(picked[1].path, "C:\\Temp\\d");
    assert!(picked.iter().all(|c| c.safe_to_delete && c.risk_level == RiskLevel::Low));
}

#[test]
fn pre_cleanup_offers_at_most_twenty_items() {
    let list: Vec<RecommendationItem> =
        (0..30).map(|i| ranked(&format!("item{i}"), "low", true)).collect();
    let picked = get_pre_cleanup_candidates(&list);
    assert_eq!(picked.len(), 20);
    assert_eq!(picked[19].name, "item19");
}

#[test]
fn cleanups_are_tallied_per_category() {
    let items = vec![
        cleaned("C:\\Users\\me\\AppData\\Local\\Temp", "a.tmp"),
        cleaned("C:\\Cache", "x"),
        cleaned("C:\\Windows\\Temp", "b"),
    ];
    let counts = category_counts(&items);
    assert_eq!(counts, vec![("temp".to_string(), 2), ("cache".to_string(), 1)]);
    assert!(category_counts(&Vec::new()).is_empty());
}

#[test]
fn age_map_keeps_the_oldest_age_per_key() {
    let mut ages: Vec<(String, u64)> = Vec::new();
    insert_max_age(&mut ages, "C:/Temp/", 10);
    insert_max_age(&mut ages, "c:\\temp", 30);
    insert_max_age(&mut ages, "C:\\TEMP", 20);
    insert_max_age(&mut ages, "  ", 99);
    insert_max_age(&mut ages, "D:\\x", 5);
    assert_eq!(ages, vec![("c:\\temp".to_string(), 30), ("d:\\x".to_string(), 5)]);
}

#[test]
fn detector_hits_count_up_to_four() {
    let mut hits: Vec<(String, u8)> = vec![("c:\\a".to_string(), 3)];
    merge_detector_source(&mut hits, &vec!["c:\\a".to_string(), "c:\\b".to_string()]);
    assert_eq!(hits, vec![("c:\\a".to_string(), 4), ("c:\\b".to_string(), 1)]);
    merge_detector_source(&mut hits, &vec!["c:\\a".to_string(), "c:\\b".to_string()]);
    assert_eq!(hits, vec![("c:\\a".to_string(), 4), ("c:\\b".to_string(), 2)]);
}

#[test]
fn detector_hit_count_takes_recorded_hits_with_floor() {
    assert_eq!(detector_hit_count(None, false), 1);
    assert_eq!(detector_hit_count(None, true), 2);
    assert_eq!(detector_hit_count(Some(1), true), 2);
    assert_eq!(detector_hit_count(Some(3), true), 3);
    assert_eq!(detector_hit_count(Some(4), false), 4);
    assert_eq!(detector_hit_count(Some(0), false), 1);
}

#[test]
fn recommendation_estimate_prefers_larger_reclaim() {
    assert_eq!(recommendation_estimate(0, 500, true), 500);
    assert_eq!(recommendation_estimate(0, 500, false), 0);
    assert_eq!(recommendation_estimate(700, 500, true), 700);
    assert_eq!(recommendation_estimate(300, 500, false), 300);
}

#[test]
fn recommendation_action_depends_on_safety() {
    assert_eq!(recommendation_action(true), "preview_cleanup");
    assert_eq!(recommendation_action(false), "review");
}
