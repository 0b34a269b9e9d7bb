use rustsmb_server::config::{
    guid_from_text, guid_to_text, CacheLayerConfig, ConfigError, GuidError, ServerConfig,
    ServerSideCopyConfig, SessionConfig,
};

#[test]
fn test_default_config() {
    let config = ServerConfig::default();
    assert_eq!(config.listen_addr.port(), 445);
    assert!(!config.tls_enabled);
    assert_eq!(config.max_connections, 1000);
}

#[test]
fn test_ensure_guid() {
    let mut config = ServerConfig::default();
    assert_eq!(config.server_guid, [0; 16]);
    config.ensure_guid();
    assert_ne!(config.server_guid, [0; 16]);
}

#[test]
fn test_server_side_copy_config_defaults() {
    let config = ServerSideCopyConfig::default();

    assert_eq!(
        config.max_chunk_size, 1_048_576,
        "Default max_chunk_size should be 1MB"
    );
    assert_eq!(
        config.max_data_size, 16_777_216,
        "Default max_data_size should be 16MB"
    );
    assert_eq!(
        config.max_number_of_chunks, 256,
        "Default max_number_of_chunks should be 256"
    );
}

#[test]
fn a_guid_that_is_set_stays() {
    let mut config = ServerConfig::default();
    config.server_guid = [7; 16];
    config.ensure_guid();
    assert_eq!(config.server_guid, [7; 16]);
}

#[test]
fn a_given_guid_is_taken_where_there_is_none() {
    let mut config = ServerConfig::default();
    config.ensure_guid_from([3; 16]);
    assert_eq!(config.server_guid, [3; 16]);
    config.ensure_guid_from([4; 16]);
    assert_eq!(config.server_guid, [3; 16]);
}

#[test]
fn guids_are_drawn_anew() {
    let mut a = ServerConfig::default();
    let mut b = ServerConfig::default();
    a.ensure_guid();
    b.ensure_guid();
    assert_ne!(a.server_guid, b.server_guid);
}

#[test]
fn worker_threads_default_to_the_processors() {
    let mut config = ServerConfig::default();
    config.worker_threads = 0;
    assert_eq!(config.effective_worker_threads(8), 8);
    config.worker_threads = 3;
    assert_eq!(config.effective_worker_threads(8), 3);
}

#[test]
fn default_sections() {
    let session = SessionConfig::default();
    let config = ServerConfig::default();
    assert_eq!(config.session.timeout, session.timeout);
    assert_eq!(config.coordination.raft_addr, "127.0.0.1:8080");
    assert_eq!(config.coordination.heartbeat_interval_secs, 5);
    assert_eq!(config.coordination.heartbeat_timeout_secs, 15);
    assert_eq!(
        config.coordination.cache.max_sessions,
        CacheLayerConfig::default().max_sessions
    );
}

#[test]
fn guid_text_round_trip() {
    let guid: [u8; 16] = [0, 1, 2, 3, 4, 5, 6, 7, 8, 9, 0xA0, 0xBF, 0xC1, 0xD2, 0xE3, 0xFF];
    let text = guid_to_text(&guid);
    assert_eq!(text, "00010203040506070809a0bfc1d2e3ff");
    assert_eq!(guid_from_text(&text).unwrap(), guid);
    assert_eq!(guid_from_text(&text.to_uppercase()).unwrap(), guid);
}

#[test]
fn guid_text_is_checked() {
    assert_eq!(guid_from_text("").unwrap(), [0; 16]);
    assert!(matches!(guid_from_text("00"), Err(GuidError::Length)));
    let bad = "0g010203040506070809a0bfc1d2e3ff";
    assert!(matches!(guid_from_text(bad), Err(GuidError::Digit)));
    let signed = "+1".repeat(16);
    assert!(matches!(guid_from_text(&signed), Err(GuidError::Digit)));
    let minus = "-1010203040506070809a0bfc1d2e3ff";
    assert!(matches!(guid_from_text(minus), Err(GuidError::Digit)));
}

#[test]
fn config_errors_in_words() {
    assert_eq!(ConfigError::Io("x".to_string()).message(), "I/O error: x");
    assert_eq!(ConfigError::Parse("y".to_string()).message(), "Parse error: y");
    assert_eq!(
        ConfigError::Validation("z".to_string()).message(),
        "Validation error: z"
    );
}
