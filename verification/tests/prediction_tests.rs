use diskpulse::prediction::{forecast_offsets, timed_snapshots};

#[test]
fn timed_snapshots_order_by_time_and_skip_unreadable() {
    let created: Vec<String> = vec![
        "2026-05-03 00:00:00",
        "not a date",
        "2026-05-01 12:00:00",
        "2026-05-03 00:00:00",
        "2026-05-02",
    ]
    .into_iter()
    .map(String::from)
    .collect();
    let order: Vec<usize> = timed_snapshots(&created).into_iter().map(|(_, i)| i).collect();
    assert_eq!(order, vec![2, 4, 0, 3]);
    let times: Vec<i64> = timed_snapshots(&created).into_iter().map(|(t, _)| t).collect();
    assert_eq!(times, vec![1_777_636_800, 1_777_680_000, 1_777_766_400, 1_777_766_400]);
}

#[test]
fn timed_snapshots_of_nothing_is_empty() {
    assert!(timed_snapshots(&Vec::new()).is_empty());
}

#[test]
fn forecast_offsets_span_the_clamped_window() {
    assert_eq!(forecast_offsets(7), vec![5, 10, 15, 20, 25, 30]);
    assert_eq!(forecast_offsets(90), vec![15, 30, 45, 60, 75, 90]);
    assert_eq!(forecast_offsets(100), vec![16, 32, 48, 64, 80, 96]);
    assert_eq!(forecast_offsets(365), vec![30, 60, 90, 120, 150, 180]);
}
