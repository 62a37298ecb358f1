use diskpulse::storage::{
    diff_storage_sets, event_from_devicechange, first_drive_from_unit_mask, get_storage_info,
    list_by_mount, list_external_storage, looks_external_mount, normalize_mount_key, parse_mount_table,
    parse_mounts, ExternalStorageInfo, StorageEventType, StorageKind, DBT_DEVICEARRIVAL,
    DBT_DEVICEREMOVECOMPLETE,
};

fn item(path: &str) -> ExternalStorageInfo {
    ExternalStorageInfo {
        id: path.into(),
        name: path.into(),
        mount_path: path.into(),
        filesystem: "testfs".into(),
        total_bytes: 100,
        free_bytes: 50,
        removable: true,
        kind: StorageKind::Removable,
        platform: "test".into(),
        detection_source: "test".into(),
    }
}

#[test]
fn parses_external_mounts_from_proc_mounts() {
    let mounts = "/dev/sda1 / ext4 rw 0 0\n/dev/sdb1 /media/alice/USB\\040DISK exfat rw 0 0\n";
    let parsed: Vec<_> = parse_mounts(mounts)
        .into_iter()
        .filter(|item| looks_external_mount(&item.mount_path))
        .collect();
    assert_eq!(parsed.len(), 1);
    assert_eq!(parsed[0].mount_path, "/media/alice/USB DISK");
    assert_eq!(parsed[0].filesystem, "exfat");
}

#[test]
fn diff_storage_sets_emits_attach_and_detach() {
    let previous = list_by_mount(vec![item("E:\\")]);
    let current = list_by_mount(vec![item("F:\\")]);
    let events = diff_storage_sets(&previous, &current, "test");
    assert_eq!(events.len(), 2);
    assert!(events
        .iter()
        .any(|event| event.event_type == StorageEventType::Attached && event.mount_path.as_deref() == Some("F:\\")));
    assert!(events
        .iter()
        .any(|event| event.event_type == StorageEventType::Detached && event.mount_path.as_deref() == Some("E:\\")));
}

#[test]
fn windows_devicechange_model_maps_unit_mask() {
    let event = event_from_devicechange(DBT_DEVICEARRIVAL, 1 << 4).expect("arrival event");
    assert_eq!(event.event_type, StorageEventType::Attached);
    assert_eq!(event.mount_path.as_deref(), Some("E:\\"));
    assert_eq!(event.source, "wm_devicechange");
}

#[test]
fn devicechange_ignores_other_messages() {
    assert!(event_from_devicechange(0x0007, 1).is_none());
    let removed = event_from_devicechange(DBT_DEVICEREMOVECOMPLETE, 0).unwrap();
    assert_eq!(removed.event_type, StorageEventType::Detached);
    assert!(removed.mount_path.is_none());
    assert_eq!(first_drive_from_unit_mask(0b1010), Some("B:\\".to_string()));
    assert_eq!(first_drive_from_unit_mask(1 << 26), None);
}

#[test]
fn mount_keys_ignore_case_and_slashes() {
    assert_eq!(normalize_mount_key("E:\\Photos\\"), "e:/photos");
    let same = list_by_mount(vec![item("E:\\"), item("e:/")]);
    assert_eq!(same.len(), 1);
    assert_eq!(same[0].1.mount_path, "e:/");
    let events = diff_storage_sets(&same, &list_by_mount(vec![item("E:")]), "test");
    assert!(events.is_empty());
}

#[test]
fn mount_table_lines_and_fields() {
    let table = "a b\r\nonlyone\n\n  dev   /mnt/x   vfat  \nlast /media/y";
    let entries = parse_mount_table(table);
    assert_eq!(entries.len(), 3);
    assert_eq!(entries[0].filesystem, "unknown");
    assert_eq!(entries[1].mount_path, "/mnt/x");
    assert_eq!(entries[2].device, "last");
    let ext = list_external_storage(parse_mounts(table)).unwrap();
    assert_eq!(ext.len(), 2);
}

#[test]
fn storage_info_uses_longest_mount() {
    let mounts = vec![item("/"), item("/media/a"), item("/media")];
    assert_eq!(get_storage_info(&mounts, "/media/a/file").unwrap().mount_path, "/media/a");
    assert_eq!(get_storage_info(&mounts, "/etc").unwrap().mount_path, "/");
    assert_eq!(
        get_storage_info(&vec![item("/media")], "/etc").unwrap_err(),
        "No mounted storage found for /etc"
    );
}
