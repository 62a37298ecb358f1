use diskpulse::mft::{parse_usn_records, records_to_top_dirs, ParsedUsnRecord, FILE_ATTRIBUTE_DIRECTORY};
use diskpulse::platform::{scan_strategy_for_mode, ScanStrategy, ScannerKind};

fn synthetic_v2_record(frn: u64, parent: u64, attrs: u32, name: &str) -> Vec<u8> {
    let name: Vec<u16> = name.encode_utf16().collect();
    let record_len = 60 + name.len() * 2;
    let mut bytes = vec![0u8; record_len];
    bytes[0..4].copy_from_slice(&(record_len as u32).to_le_bytes());
    bytes[4..6].copy_from_slice(&2u16.to_le_bytes());
    bytes[8..16].copy_from_slice(&frn.to_le_bytes());
    bytes[16..24].copy_from_slice(&parent.to_le_bytes());
    bytes[52..56].copy_from_slice(&attrs.to_le_bytes());
    bytes[56..58].copy_from_slice(&((name.len() * 2) as u16).to_le_bytes());
    bytes[58..60].copy_from_slice(&60u16.to_le_bytes());
    for (index, ch) in name.iter().enumerate() {
        bytes[60 + index * 2..62 + index * 2].copy_from_slice(&ch.to_le_bytes());
    }
    bytes
}

#[test]
fn parses_usn_record_v2_name_and_parent() {
    let bytes = synthetic_v2_record(42, 5, FILE_ATTRIBUTE_DIRECTORY, "Users");
    let records = parse_usn_records(&bytes);
    assert_eq!(records.len(), 1);
    assert_eq!(records[0].file_reference_number, 42);
    assert_eq!(records[0].parent_file_reference_number, 5);
    assert_eq!(records[0].name, "Users");
    assert!(records[0].is_dir());
}

#[test]
fn aggregates_records_into_top_level_dirs() {
    let root = ParsedUsnRecord {
        file_reference_number: 1,
        parent_file_reference_number: 1,
        file_attributes: FILE_ATTRIBUTE_DIRECTORY,
        name: ".".into(),
    };
    let users = ParsedUsnRecord {
        file_reference_number: 2,
        parent_file_reference_number: 1,
        file_attributes: FILE_ATTRIBUTE_DIRECTORY,
        name: "Users".into(),
    };
    let alice = ParsedUsnRecord {
        file_reference_number: 3,
        parent_file_reference_number: 2,
        file_attributes: FILE_ATTRIBUTE_DIRECTORY,
        name: "alice".into(),
    };
    let file = ParsedUsnRecord {
        file_reference_number: 4,
        parent_file_reference_number: 3,
        file_attributes: 0,
        name: "payload.bin".into(),
    };
    let dirs = records_to_top_dirs('C', &[root, users, alice, file]);
    assert_eq!(dirs.len(), 1);
    assert_eq!(dirs[0].name, "Users");
    assert_eq!(dirs[0].path, "C:\\Users");
    assert_eq!(dirs[0].file_count, 1);
    assert_eq!(dirs[0].dir_count, 1);
}

#[test]
fn mft_strategy_requires_admin_flag() {
    assert_eq!(ScanStrategy::Mft { admin: true }.resolve(ScannerKind::Jwalk, false).name(), "mft");
    assert_eq!(ScanStrategy::Mft { admin: false }.resolve(ScannerKind::Jwalk, true).name(), "jwalk");
}

#[test]
fn usn_parsing_stops_at_bad_lengths() {
    let mut bytes = synthetic_v2_record(7, 1, 0, "a.txt");
    bytes.extend(synthetic_v2_record(8, 1, 0, "b.txt"));
    assert_eq!(parse_usn_records(&bytes).len(), 2);
    let mut v3 = synthetic_v2_record(9, 1, 0, "c");
    v3[4] = 3;
    assert!(parse_usn_records(&v3).is_empty());
    let mut zero = synthetic_v2_record(9, 1, 0, "c");
    zero[0..4].copy_from_slice(&0u32.to_le_bytes());
    assert!(parse_usn_records(&zero).is_empty());
    assert!(parse_usn_records(&[0u8; 10]).is_empty());
}

#[test]
fn top_dirs_rank_by_file_count_then_name() {
    let d = |frn: u64, parent: u64, attrs: u32, name: &str| ParsedUsnRecord {
        file_reference_number: frn,
        parent_file_reference_number: parent,
        file_attributes: attrs,
        name: name.into(),
    };
    let records = vec![
        d(1, 1, FILE_ATTRIBUTE_DIRECTORY, "."),
        d(2, 1, FILE_ATTRIBUTE_DIRECTORY, "b"),
        d(3, 1, FILE_ATTRIBUTE_DIRECTORY, "a"),
        d(4, 2, 0, "x"),
        d(5, 3, 0, "y"),
        d(6, 3, 0, "z"),
        d(7, 2, FILE_ATTRIBUTE_DIRECTORY, "sub"),
    ];
    let dirs = records_to_top_dirs('D', &records);
    assert_eq!(dirs.len(), 2);
    assert_eq!(dirs[0].name, "a");
    assert_eq!(dirs[0].file_count, 2);
    assert_eq!(dirs[1].name, "b");
    assert_eq!(dirs[1].dir_count, 1);
    assert_eq!(dirs[1].size_bytes, 0);
}

#[test]
fn scan_mode_picks_strategy() {
    assert_eq!(scan_strategy_for_mode(Some("speed")), ScanStrategy::Auto);
    assert_eq!(scan_strategy_for_mode(Some("exact")), ScanStrategy::Jwalk);
    assert_eq!(scan_strategy_for_mode(None), ScanStrategy::Jwalk);
    assert_eq!(ScanStrategy::Auto.resolve(ScannerKind::LinuxWalk, false).name(), "linux-walk");
    assert_eq!(ScanStrategy::Auto.resolve(ScannerKind::LinuxWalk, true), ScannerKind::Mft);
}
