use diskpulse::hub::{
    check_start, connected_devices, create_pairing_token, device_from_resolved_parts,
    discover_devices, is_allowed_remote_command, local_service, mark_started, mdns_service,
    pair_device, pair_device_at, route_remote_command, sanitize_dns_label, stop, unpair_device, DiscoveryMode,
    HubState, RemoteCall,
};
use diskpulse::pairing::PairingManager;
use diskpulse::registry::{DeviceInfo, DeviceRegistry};

#[test]
fn pairing_tokens_are_six_digits_and_single_use() {
    let mut pairing = PairingManager::default();
    let token = pairing.create_token("laptop".into(), 60);
    assert_eq!(token.code.len(), 6);
    assert!(token.code.chars().all(|ch| ch.is_ascii_digit()));
    assert!(pairing.consume_token(&token.code).is_some());
    assert!(pairing.consume_token(&token.code).is_none());
}

#[test]
fn expired_pairing_tokens_are_rejected() {
    let mut pairing = PairingManager::default();
    let token = pairing.create_token("phone".into(), 0);
    assert!(pairing.consume_token(&token.code).is_none());
}

#[test]
fn registry_upserts_and_unpairs_devices() {
    let mut registry = DeviceRegistry::default();
    let device = DeviceInfo {
        device_id: "device-1".into(),
        name: "Office PC".into(),
        address: "192.168.1.20:48765".into(),
        paired: true,
        connected: true,
        last_seen_epoch_ms: 1_700_000_000_000,
    };
    registry.upsert(device.clone());
    registry.mark_connected("device-1", false);
    let listed = registry.list_devices();
    assert_eq!(listed.len(), 1);
    assert!(!listed[0].connected);
    assert!(registry.unpair("device-1"));
    assert!(registry.list_devices().is_empty());
}

#[test]
fn hub_rejects_invalid_zero_port() {
    let state = HubState::new();
    assert!(check_start(&state, 0).is_err());
}

#[test]
fn router_allows_only_read_only_remote_commands() {
    assert!(is_allowed_remote_command("ping"));
    assert!(is_allowed_remote_command("scan_meta"));
    assert!(is_allowed_remote_command("scan_drive"));
    assert!(!is_allowed_remote_command("clean_items"));
}

#[test]
fn discovery_builds_mdns_service_record() {
    let info = mdns_service("office-pc", 19740);
    assert_eq!(info.mode, DiscoveryMode::Mdns);
    assert_eq!(info.service_name, "_diskpulse._tcp.local");
    assert_eq!(info.port, 19740);
    assert!(info.address_hint.contains("19740"));
}

#[test]
fn discovery_maps_resolved_service_to_device() {
    let device = device_from_resolved_parts("Office._diskpulse._tcp.local.", "office.local.", "192.168.1.10", 19740);
    assert_eq!(device.name, "Office");
    assert_eq!(device.address, "192.168.1.10:19740");
    assert!(!device.paired);
    assert!(device.connected);
}

#[test]
fn resolved_service_without_label_uses_host() {
    let device = device_from_resolved_parts(".x", "office.local..", "10.0.0.1", 1);
    assert_eq!(device.name, "office.local");
    assert_eq!(device.device_id, ".x");
}

#[test]
fn local_service_points_at_loopback() {
    let info = local_service(8080);
    assert_eq!(info.mode, DiscoveryMode::Manual);
    assert_eq!(info.address_hint, "127.0.0.1:8080");
}

#[test]
fn dns_labels_are_sanitized() {
    assert_eq!(sanitize_dns_label("Office PC!"), "Office-PC");
    assert_eq!(sanitize_dns_label("--"), "diskpulse");
    assert_eq!(sanitize_dns_label("é"), "diskpulse");
}

#[test]
fn registry_lists_devices_by_name() {
    let mut registry = DeviceRegistry::default();
    for (id, name) in [("1", "zeta"), ("2", "alpha"), ("3", "mid")] {
        registry.upsert(DeviceInfo {
            device_id: id.into(),
            name: name.into(),
            address: "a".into(),
            paired: true,
            connected: true,
            last_seen_epoch_ms: 0,
        });
    }
    let names: Vec<String> = registry.list_devices().into_iter().map(|d| d.name).collect();
    assert_eq!(names, vec!["alpha", "mid", "zeta"]);
    assert!(!registry.unpair("9"));
    assert!(registry.mark_connected("9", true).is_none());
}

#[test]
fn discovery_sorts_and_drops_repeats() {
    let d = |id: &str, name: &str| DeviceInfo {
        device_id: id.into(),
        name: name.into(),
        address: "x".into(),
        paired: false,
        connected: true,
        last_seen_epoch_ms: 0,
    };
    let out = discover_devices(vec![d("b", "B"), d("a", "A"), d("a", "A")]);
    assert_eq!(out.len(), 2);
    assert_eq!(out[0].device_id, "a");
    assert_eq!(out[1].device_id, "b");
}

#[test]
fn remote_routing_defaults_to_drive_c() {
    assert!(matches!(route_remote_command("ping", None), Ok(RemoteCall::Ping)));
    match route_remote_command("scan_meta", None) {
        Ok(RemoteCall::ScanMeta(d)) => assert_eq!(d, "C"),
        _ => panic!("expected scan_meta"),
    }
    match route_remote_command("get_disk_health", Some("D")) {
        Ok(RemoteCall::DiskHealth(d)) => assert_eq!(d, "D"),
        _ => panic!("expected disk health"),
    }
    assert_eq!(
        route_remote_command("clean_items", None).unwrap_err(),
        "Remote command 'clean_items' is not allowed without local confirmation"
    );
}

#[test]
fn hub_pairs_and_unpairs_through_state() {
    let mut state = HubState::new();
    assert!(check_start(&state, 19740).is_ok());
    mark_started(&mut state, 19740, "office", false);
    assert!(check_start(&state, 19740).is_err());
    let token = create_pairing_token(&mut state, "tablet".into(), 60).unwrap();
    let device = pair_device(&mut state, &token.code).unwrap();
    assert_eq!(device.device_id, "device-1");
    assert_eq!(device.address, "paired-manually");
    assert_eq!(connected_devices(&state).len(), 1);
    assert_eq!(pair_device(&mut state, &token.code).unwrap_err(), "Invalid or expired pairing token");
    assert!(unpair_device(&mut state, "device-1").is_ok());
    assert_eq!(unpair_device(&mut state, "device-1").unwrap_err(), "Device not found: device-1");
    assert!(stop(&mut state).is_ok());
    assert!(state.discovery.is_none());
}

#[test]
fn router_envelopes_remote_alerts() {
    let alert = diskpulse::hub::RemoteAlertPayload {
        device_id: "device-1".into(),
        alert_payload: r#"{ "free_bytes": 1024 }"#.into(),
    };

    let message = diskpulse::hub::HubMessage::RemoteAlert(alert.clone());

    assert_eq!(message.event_name(), "remote-alert");
    assert_eq!(message.device_id(), Some("device-1"));
}

#[test]
fn hub_messages_name_their_events_and_devices() {
    let gone = diskpulse::hub::HubMessage::DeviceDisconnected { device_id: "device-2".into() };
    assert_eq!(gone.event_name(), "device-disconnected");
    assert_eq!(gone.device_id(), Some("device-2"));
}

#[test]
fn pair_device_at_names_the_device_after_its_token() {
    let mut state = HubState::new();
    let token = state.pairing.create_token_at("laptop".into(), 60, 1_000);
    assert_eq!(
        pair_device_at(&mut state, &token.code, 61_000).unwrap_err(),
        "Invalid or expired pairing token"
    );
    let token = state.pairing.create_token_at("phone".into(), 60, 1_000);
    let device = pair_device_at(&mut state, &token.code, 2_000).unwrap();
    assert_eq!(device.name, "phone");
    assert_eq!(device.address, "paired-manually");
    assert!(device.paired && device.connected);
    assert_eq!(device.last_seen_epoch_ms, 2_000);
    assert!(pair_device_at(&mut state, &token.code, 2_000).is_err());
    assert!(pair_device_at(&mut state, "000000", 0).is_err());
}
