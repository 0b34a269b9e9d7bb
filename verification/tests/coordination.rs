use rustsmb_server::config::CoordinationConfig;
use rustsmb_server::coordination::{
    choose_server_id, node_id_from_hash, string_to_node_id, CoordinationError, CoordinatorKind,
    ListenerAction, ServerCoordination, StartAction, Uuid,
};

#[test]
fn test_coordination_creation() {
    let config = CoordinationConfig::default();

    let coord = ServerCoordination::new(&config, "TEST", 445);

    // Server ID should be auto-generated
    assert!(coord.server_id().starts_with("TEST-"));
    assert!(!coord.is_external());
}

#[test]
fn test_coordination_start_stop() {
    let config = CoordinationConfig::default();

    let mut coord = ServerCoordination::new(&config, "TEST", 445);

    // Start coordination
    assert!(matches!(coord.start(Ok(())).unwrap(), StartAction::MonitorHeartbeats));

    // Stop coordination
    assert!(coord.stop());
    assert!(matches!(coord.on_heartbeat_due(), ListenerAction::Stop));
}

#[test]
fn test_external_coordinator_config() {
    let mut config = CoordinationConfig::default();
    assert!(!config.use_external_coordinator());

    config.coordinator_endpoint = "http://coordinator:9000".to_string();
    assert!(config.use_external_coordinator());
}

#[test]
fn configured_server_id_is_kept() {
    let mut config = CoordinationConfig::default();
    config.server_id = "node-7".to_string();
    let coord = ServerCoordination::new(&config, "TEST", 445);
    assert_eq!(coord.server_id(), "node-7");
    assert_eq!(choose_server_id(&"".to_string(), "TEST", "u"), "TEST-u");
    assert_eq!(choose_server_id(&"node-7".to_string(), "TEST", "u"), "node-7");
}

#[test]
fn registration_carries_the_configuration() {
    let mut config = CoordinationConfig::default();
    config.heartbeat_interval_secs = 9;
    let coord = ServerCoordination::with_uuid(&config, "TEST", 8445, "abc");
    assert_eq!(coord.server_id(), "TEST-abc");
    assert_eq!(coord.registration.server_name, "TEST");
    assert_eq!(coord.registration.listen_port, 8445);
    assert_eq!(coord.registration.raft_addr, "127.0.0.1:8080");
    assert_eq!(coord.heartbeat_interval, 9);
    assert!(coord.kind == CoordinatorKind::Embedded);
    let own = coord.coordinator.unwrap();
    assert_eq!(own.node_id, string_to_node_id("TEST-abc"));
    assert_eq!(own.heartbeat_timeout_secs, 15);
}

#[test]
fn external_coordinator_needs_an_endpoint() {
    let mut config = CoordinationConfig::default();
    match ServerCoordination::new_with_external_coordinator(&config, "TEST", 445) {
        Err(e) => assert_eq!(e.message(), "Backend error: coordinator_endpoint not set"),
        Ok(_) => panic!("an endpoint is needed"),
    }
    config.coordinator_endpoint = "http://coordinator:9000".to_string();
    let mut coord =
        ServerCoordination::new_with_external_coordinator(&config, "TEST", 445).unwrap();
    assert!(coord.is_external());
    assert!(coord.server_id().starts_with("TEST-"));
    assert!(matches!(coord.start(Ok(())).unwrap(), StartAction::Subscribe));
    assert!(!coord.stop());
}

#[test]
fn failed_registration_is_reported() {
    let coord = ServerCoordination::new(&CoordinationConfig::default(), "TEST", 445);
    let error = coord.start(Err("no leader".to_string())).unwrap_err();
    assert_eq!(error.message(), "Registration error: no leader");
    assert_eq!(
        CoordinationError::Heartbeat("late".to_string()).message(),
        "Heartbeat error: late"
    );
}

#[test]
fn listeners_act_until_stopped() {
    let mut coord = ServerCoordination::new(&CoordinationConfig::default(), "TEST", 445);
    assert!(matches!(coord.on_heartbeat_due(), ListenerAction::SendHeartbeat));
    assert!(matches!(coord.on_epoch_change(4), ListenerAction::SetEpoch(4)));
    assert!(matches!(coord.on_server_failure(), ListenerAction::InvalidateAll));
    coord.stop();
    assert!(matches!(coord.on_epoch_change(4), ListenerAction::Stop));
    assert!(matches!(coord.on_server_failure(), ListenerAction::Stop));
}

#[test]
fn node_ids_are_never_zero() {
    assert_eq!(node_id_from_hash(0), 1);
    assert_eq!(node_id_from_hash(12), 12);
    assert_eq!(string_to_node_id("a"), string_to_node_id("a"));
    assert_ne!(string_to_node_id("a"), string_to_node_id("b"));
}

#[test]
fn uuids_are_grouped_and_distinct() {
    let bytes: [u8; 16] = [
        0x00, 0x11, 0x22, 0x33, 0x44, 0x55, 0x66, 0x77, 0x88, 0x99, 0xAA, 0xBB, 0xCC, 0xDD, 0xEE,
        0xFF,
    ];
    assert_eq!(Uuid::from_bytes(&bytes), "00112233-4455-6677-8899-aabbccddeeff");
    assert_ne!(Uuid::new_v4(), Uuid::new_v4());
}
