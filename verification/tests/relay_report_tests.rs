use diskpulse::db::CleanupLog;
use diskpulse::duplicates::DuplicateGroup;
use diskpulse::relay::{
    check_relay_envelope, check_relay_port, connect, register_device, disconnect, list_cloud_devices, prepare_connect, status,
    validate_relay_url, CloudDevice, RelayState,
};
use diskpulse::report::{
    cleanup_history_to_csv, csv_escape, duplicates_to_csv, export_cleanup_history, report_file_name,
    ReportContent, ReportFormat,
};
use diskpulse::scanner::FileEntry;

#[test]
fn relay_rejects_non_websocket_urls() {
    assert!(validate_relay_url("http://relay.diskpulse.dev").is_err());
    assert!(validate_relay_url("wss://relay.diskpulse.dev").is_ok());
    assert!(validate_relay_url("ws://127.0.0.1:19741").is_ok());
}

#[test]
fn relay_url_needs_a_host() {
    assert!(validate_relay_url("ws://").is_err());
    assert!(validate_relay_url("  wss://x  ").is_ok());
    assert_eq!(validate_relay_url("ftp://x").unwrap_err(), "Relay URL must start with ws:// or wss://");
}

#[test]
fn relay_envelope_blocks_cleanup_commands() {
    assert!(check_relay_envelope("env-1", "device-a", "hub_command", Some("clean_items")).is_err());
    assert!(check_relay_envelope("env-1", "device-a", "hub_command", Some("ping")).is_ok());
    assert!(check_relay_envelope(" ", "device-a", "hub_command", Some("ping")).is_err());
    assert!(check_relay_envelope("env-1", "device-a", "hub_command", None).is_err());
    assert!(check_relay_envelope("env-1", "device-a", "chat", None).is_ok());
}

#[test]
fn relay_connect_and_disconnect_update_state() {
    let reg = prepare_connect(" ws://relay ", "  ").unwrap();
    assert_eq!(reg.relay_url, "ws://relay");
    assert_eq!(reg.device_name, "DiskPulse Device");
    assert!(reg.device_id.starts_with("relay-device-"));
    assert_eq!(reg.device_id.len(), "relay-device-".len() + 16);
    let again = prepare_connect("ws://relay", "DiskPulse Device").unwrap();
    assert_eq!(again.device_id, reg.device_id);
    let mut state = RelayState::new();
    let device = CloudDevice {
        device_id: reg.device_id.clone(),
        name: reg.device_name.clone(),
        relay_url: "ignored".into(),
        connected: true,
        last_seen_epoch_ms: 7,
    };
    let st = connect(&mut state, &reg, Ok(device)).unwrap();
    assert!(st.connected);
    assert_eq!(st.peer_count, 1);
    assert_eq!(status(&state).url.as_deref(), Some("ws://relay"));
    assert_eq!(list_cloud_devices(&state)[0].relay_url, "ws://relay");
    let st = disconnect(&mut state).unwrap();
    assert!(!st.connected);
    assert_eq!(st.mode, "local_ready");
    assert!(list_cloud_devices(&state).is_empty());
    assert!(connect(&mut state, &reg, Err("Relay connection timed out".into())).is_err());
    assert!(!status(&state).connected);
}

#[test]
fn csv_escape_quotes_and_commas() {
    assert_eq!(csv_escape("a,b \"quoted\""), "\"a,b \"\"quoted\"\"\"");
    assert_eq!(csv_escape("plain"), "plain");
    assert_eq!(csv_escape("two\nlines"), "\"two\nlines\"");
}

#[test]
fn report_format_parses_csv_and_json() {
    assert!(matches!(ReportFormat::parse("csv"), Some(ReportFormat::Csv)));
    assert!(matches!(ReportFormat::parse("json"), Some(ReportFormat::Json)));
    assert!(ReportFormat::parse("xml").is_none());
    assert!(matches!(ReportFormat::parse("CSV"), Some(ReportFormat::Csv)));
}

#[test]
fn cleanup_history_csv_rows() {
    let log = CleanupLog {
        id: -3,
        item_count: 2,
        freed_bytes: 10,
        succeeded: 1,
        skipped: 1,
        failed: 0,
        items_json: "[]".into(),
        created_at: "2026-01-01 00:00:00".into(),
    };
    assert_eq!(
        cleanup_history_to_csv(&vec![log.clone()]),
        "id,created_at,item_count,freed_bytes,succeeded,skipped,failed\n-3,2026-01-01 00:00:00,2,10,1,1,0"
    );
    assert!(matches!(export_cleanup_history("json", &vec![log.clone()]), Ok(ReportContent::Json)));
    assert_eq!(export_cleanup_history("xml", &vec![log]).unwrap_err(), "Unsupported format");
}

#[test]
fn duplicates_csv_has_a_row_per_file() {
    let f = |p: &str| FileEntry {
        name: "n".into(),
        path: p.into(),
        size_bytes: 5,
        modified_epoch_ms: 0,
        hard_link_count: 1,
        size_on_disk_bytes: None,
        file_category: None,
    };
    let g = DuplicateGroup {
        group_id: "abc".into(),
        total_size_wasted: 5,
        hard_link_count: 0,
        files: vec![f("a,b"), f("c")],
    };
    assert_eq!(
        duplicates_to_csv(&vec![g]),
        "group_id,path,size_bytes,wasted_group_bytes\nabc,\"a,b\",5,5\nabc,c,5,5"
    );
    assert_eq!(duplicates_to_csv(&vec![]), "group_id,path,size_bytes,wasted_group_bytes");
}

#[test]
fn report_file_names() {
    assert_eq!(report_file_name("duplicates", 42, ReportFormat::Json), "diskpulse-duplicates-42.json");
}

#[test]
fn relay_envelope_allows_read_only_hub_commands() {
    assert!(check_relay_envelope("env-1", "device-a", "hub_command", Some("scan_meta")).is_ok());
}

#[test]
fn relay_server_records_registered_devices_by_id() {
    let mut devices: Vec<CloudDevice> = Vec::new();
    let a = register_device(&mut devices, "device-a", "Office PC", 10);
    let b = register_device(&mut devices, "device-b", "Laptop", 20);
    assert_eq!((a, b), (0, 1));
    let again = register_device(&mut devices, "device-a", "Office PC 2", 30);
    assert_eq!(again, 0);
    assert_eq!(devices.len(), 2);
    assert_eq!(devices[0].name, "Office PC 2");
    assert_eq!(devices[0].relay_url, "local-relay");
    assert!(devices[0].connected);
    assert_eq!(devices[0].last_seen_epoch_ms, 30);
    assert_eq!(devices[1].device_id, "device-b");
}

#[test]
fn relay_port_must_not_be_zero() {
    assert_eq!(check_relay_port(0), Err("Relay port must be greater than 0".to_string()));
    assert_eq!(check_relay_port(19741), Ok(()));
}
