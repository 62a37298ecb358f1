use diskpulse::notify::{
    fsevent_kind, fsevent_record, parse_inotify_events, parse_native_notify_buffer, IN_CREATE, IN_DELETE, IN_ISDIR,
};
use diskpulse::watcher::FsEventKind;

fn win_entry(next: u32, action: u32, name: &str) -> Vec<u8> {
    let units: Vec<u16> = name.encode_utf16().collect();
    let mut out = Vec::new();
    out.extend_from_slice(&next.to_le_bytes());
    out.extend_from_slice(&action.to_le_bytes());
    out.extend_from_slice(&((units.len() * 2) as u32).to_le_bytes());
    for u in units {
        out.extend_from_slice(&u.to_le_bytes());
    }
    while out.len() < next as usize || out.len() < 16 {
        out.push(0);
    }
    out
}

fn inotify_entry(wd: i32, mask: u32, name: &[u8], len: u32) -> Vec<u8> {
    let mut out = Vec::new();
    out.extend_from_slice(&wd.to_le_bytes());
    out.extend_from_slice(&mask.to_le_bytes());
    out.extend_from_slice(&0u32.to_le_bytes());
    out.extend_from_slice(&len.to_le_bytes());
    out.extend_from_slice(name);
    while out.len() < 16 + len as usize {
        out.push(0);
    }
    out
}

#[test]
fn windows_chain_yields_each_entry_with_its_kind() {
    let mut buffer = win_entry(24, 1, "a.txt");
    buffer.extend(win_entry(0, 2, "b"));
    let records = parse_native_notify_buffer(&buffer);
    assert_eq!(records.len(), 2);
    assert_eq!(records[0].kind, FsEventKind::Added);
    assert_eq!(records[0].name, "a.txt");
    assert_eq!(records[1].kind, FsEventKind::Removed);
    assert_eq!(records[1].name, "b");
}

#[test]
fn windows_actions_map_to_kinds() {
    for (action, kind) in [
        (1u32, FsEventKind::Added),
        (2, FsEventKind::Removed),
        (3, FsEventKind::Modified),
        (4, FsEventKind::Removed),
        (5, FsEventKind::Added),
    ] {
        let records = parse_native_notify_buffer(&win_entry(0, action, "x"));
        assert_eq!(records[0].kind, kind);
    }
}

#[test]
fn windows_chain_stops_at_truncated_entries() {
    assert!(parse_native_notify_buffer(&[0u8; 10]).is_empty());
    let mut buffer = win_entry(0, 1, "abc");
    buffer.truncate(14);
    assert!(parse_native_notify_buffer(&buffer).is_empty());
}

#[test]
fn inotify_events_name_their_directory_and_kind() {
    let mut buffer = inotify_entry(1, IN_CREATE, b"new.txt\0", 16);
    buffer.extend(inotify_entry(2, IN_DELETE, b"", 0));
    buffer.extend(inotify_entry(1, IN_DELETE | IN_ISDIR, b"d\0", 4));
    buffer.extend(inotify_entry(1, 0x2, b"nonul", 5));
    let dirs = vec![(1, "/tmp/w".to_string())];
    let events = parse_inotify_events(&buffer, &dirs);
    assert_eq!(events.len(), 3);
    assert_eq!(events[0].dir, "/tmp/w");
    assert_eq!(events[0].name, "new.txt");
    assert_eq!(events[0].kind, FsEventKind::Added);
    assert!(!events[0].is_dir);
    assert_eq!(events[1].name, "d");
    assert_eq!(events[1].kind, FsEventKind::Removed);
    assert!(events[1].is_dir);
    assert_eq!(events[2].name, "");
    assert_eq!(events[2].kind, FsEventKind::Modified);
}

#[test]
fn fsevent_flags_decode_to_kinds() {
    assert_eq!(fsevent_kind(0x0000_0200), FsEventKind::Removed);
    assert_eq!(fsevent_kind(0x0000_0800), FsEventKind::Removed);
    assert_eq!(fsevent_kind(0x0000_0100), FsEventKind::Added);
    assert_eq!(fsevent_kind(0x0000_1000), FsEventKind::Modified);
    assert_eq!(fsevent_kind(0), FsEventKind::Modified);
    // A removal outranks a creation in the same flag word.
    assert_eq!(fsevent_kind(0x0000_0300), FsEventKind::Removed);
    assert_eq!(fsevent_kind(0x0000_1100), FsEventKind::Added);
}

#[test]
fn fsevent_record_carries_flag_path_and_size() {
    let e = fsevent_record(0x0002_0100, "/Users/me/new-dir".to_string(), 0);
    assert_eq!(e.kind, FsEventKind::Added);
    assert!(e.is_directory);
    assert_eq!(e.path, "/Users/me/new-dir");
    assert_eq!(e.size_bytes, 0);
    assert_eq!(e.previous_size_bytes, None);

    let f = fsevent_record(0x0000_1000, "/Users/me/a.txt".to_string(), 42);
    assert_eq!(f.kind, FsEventKind::Modified);
    assert!(!f.is_directory);
    assert_eq!(f.size_bytes, 42);
}

#[test]
fn unpaired_surrogate_in_a_name_becomes_replacement_character() {
    // Units: 'a', a lone high surrogate, 'b', then a valid pair for U+1F600.
    let units: [u16; 5] = [0x61, 0xD800, 0x62, 0xD83D, 0xDE00];
    let mut buffer = Vec::new();
    buffer.extend_from_slice(&0u32.to_le_bytes());
    buffer.extend_from_slice(&1u32.to_le_bytes());
    buffer.extend_from_slice(&((units.len() * 2) as u32).to_le_bytes());
    for u in units {
        buffer.extend_from_slice(&u.to_le_bytes());
    }
    let records = parse_native_notify_buffer(&buffer);
    assert_eq!(records.len(), 1);
    assert_eq!(records[0].name, "a\u{FFFD}b\u{1F600}");
}
