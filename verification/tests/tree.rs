use rustsmb_server::connection::Connection;
use rustsmb_server::error::HandlerError;
use rustsmb_server::handler::dispatch::{
    dispatch_command, requires_session, requires_tree, DispatchStep,
};
use rustsmb_server::handler::tree::{
    handle_tree_connect, handle_tree_disconnect, ShareCapabilities, ShareFlags, ShareInfo,
    READ_ONLY_ACCESS,
};
use rustsmb_server::helpers::info_builders::FULL_ACCESS;
use rustsmb_server::helpers::time::current_unix_time;
use rustsmb_server::protocol::dialect::SmbDialect;
use rustsmb_server::protocol::header::{Smb2Command, Smb2Flags, Smb2Header};
use rustsmb_server::protocol::status::NtStatus;
use rustsmb_server::state::{SessionState, TreeState};

fn request(command: Smb2Command, session_id: u64, tree_id: u32) -> Smb2Header {
    Smb2Header {
        structure_size: 64,
        credit_charge: 1,
        status: 0,
        command,
        credits: 1,
        flags: Smb2Flags(0),
        next_command: 0,
        message_id: 1,
        async_id: 0,
        tree_id,
        session_id,
        signature: [0u8; 16],
    }
}

fn connect_body(share_path: &str) -> Vec<u8> {
    let path_utf16: Vec<u8> = share_path
        .encode_utf16()
        .flat_map(|c| c.to_le_bytes())
        .collect();
    // TreeConnect request: structure_size(2) + reserved(2) + path_offset(2) + path_length(2)
    let path_offset: u16 = 72; // 64 (header) + 8 (request structure before path)
    let path_length: u16 = path_utf16.len() as u16;

    let mut body = Vec::new();
    body.extend_from_slice(&9u16.to_le_bytes()); // structure_size
    body.extend_from_slice(&0u16.to_le_bytes()); // reserved/flags
    body.extend_from_slice(&path_offset.to_le_bytes());
    body.extend_from_slice(&path_length.to_le_bytes());
    body.extend_from_slice(&path_utf16);
    body
}

fn session(session_id: u64) -> SessionState {
    SessionState {
        session_id,
        user_id: "user".to_string(),
        domain: None,
        session_key: vec![1; 16],
        dialect: SmbDialect::Smb302,
        signing_required: false,
        encryption_required: false,
        is_guest: false,
        is_anonymous: false,
        created_at: 0,
        last_access: 0,
        expires_at: 3600,
        bound_server_id: None,
    }
}

fn tree_state() -> TreeState {
    TreeState {
        tree_id: 4,
        session_id: 7,
        share_name: "docs".to_string(),
        share_path: "/srv".to_string(),
        access_flags: 0,
        is_dfs: false,
        created_at: 0,
    }
}

fn refused<T>(result: Result<T, HandlerError>) -> NtStatus {
    match result {
        Err(HandlerError::Status(status)) => status,
        _ => panic!("a status is expected"),
    }
}

/// Brings a request as far as its tree, which is not there.
fn without_tree(command: Smb2Command, tree_id: u32) -> Result<(), HandlerError> {
    let mut connection = Connection::new(1, 65536, 65536, 65536);
    connection.negotiate(SmbDialect::Smb302);
    connection.add_session(7);
    let header = request(command, 7, tree_id);
    let mut step = dispatch_command(&connection, &header)?;
    loop {
        match step {
            DispatchStep::Session(a) => {
                step = a.on_session(&mut connection, Ok(Some(session(7))))?;
            }
            DispatchStep::Tree(a) => {
                a.on_tree(Ok(None))?;
                return Ok(());
            }
            DispatchStep::Handle(_) => return Ok(()),
        }
    }
}

#[test]
fn test_maximal_access_constants() {
    // Full access: 0x001F01FF
    assert_eq!(
        FULL_ACCESS & 0x1FF,
        0x1FF,
        "Full access includes FILE_ALL_ACCESS"
    );
    assert_eq!(
        FULL_ACCESS & 0x1F0000,
        0x1F0000,
        "Full access includes standard rights"
    );

    // Read-only access: 0x001200A9
    assert_eq!(
        READ_ONLY_ACCESS & 0x01,
        0x01,
        "Read-only includes FILE_READ_DATA"
    );
    assert_eq!(
        READ_ONLY_ACCESS & 0x08,
        0x08,
        "Read-only includes FILE_READ_EA"
    );
    assert_eq!(
        READ_ONLY_ACCESS & 0x20,
        0x20,
        "Read-only includes FILE_EXECUTE"
    );
    assert_eq!(
        READ_ONLY_ACCESS & 0x80,
        0x80,
        "Read-only includes FILE_READ_ATTRIBUTES"
    );
    assert_eq!(
        READ_ONLY_ACCESS & 0x20000,
        0x20000,
        "Read-only includes READ_CONTROL"
    );
    assert_eq!(
        READ_ONLY_ACCESS & 0x100000,
        0x100000,
        "Read-only includes SYNCHRONIZE"
    );

    // Read-only should NOT include write rights
    assert_eq!(
        READ_ONLY_ACCESS & 0x02,
        0,
        "Read-only excludes FILE_WRITE_DATA"
    );
    assert_eq!(READ_ONLY_ACCESS & 0x10000, 0, "Read-only excludes DELETE");

    assert_eq!((FULL_ACCESS, READ_ONLY_ACCESS), (0x001F01FF, 0x001200A9));
}

#[test]
fn test_share_flags_constants() {
    assert_eq!(ShareFlags::MANUAL_CACHING, 0x00, "MANUAL_CACHING = 0x00");
    assert_eq!(ShareFlags::AUTO_CACHING, 0x10, "AUTO_CACHING = 0x10");
    assert_eq!(ShareFlags::VDO_CACHING, 0x20, "VDO_CACHING = 0x20");
    assert_eq!(ShareFlags::NO_CACHING, 0x30, "NO_CACHING = 0x30");
    assert_eq!(ShareFlags::DFS, 0x01, "DFS = 0x01");
    assert_eq!(ShareFlags::DFS_ROOT, 0x02, "DFS_ROOT = 0x02");
}

#[test]
fn test_share_capabilities_constants() {
    assert_eq!(ShareCapabilities::DFS, 0x08, "SMB2_SHARE_CAP_DFS = 0x08");
    assert_eq!(
        ShareCapabilities::CONTINUOUS_AVAILABILITY,
        0x10,
        "SMB2_SHARE_CAP_CONTINUOUS_AVAILABILITY = 0x10"
    );
    assert_eq!(
        ShareCapabilities::SCALEOUT,
        0x20,
        "SMB2_SHARE_CAP_SCALEOUT = 0x20"
    );
    assert_eq!(
        ShareCapabilities::CLUSTER,
        0x40,
        "SMB2_SHARE_CAP_CLUSTER = 0x40"
    );
}

#[test]
fn test_tree_connect_bad_network_name() {
    // Build TREE_CONNECT request for a share that doesn't exist
    let body = connect_body("\\\\server\\nonexistent\0");
    let header = request(Smb2Command::TreeConnect, 7, 0);

    let awaiting = handle_tree_connect(&header, &body).unwrap();
    assert_eq!(awaiting.share_name, "nonexistent");

    // Nonexistent share returns STATUS_BAD_NETWORK_NAME
    assert_eq!(
        refused(awaiting.on_share(None)).code(),
        0xC00000CC, // STATUS_BAD_NETWORK_NAME
        "Nonexistent share MUST return STATUS_BAD_NETWORK_NAME"
    );
}

#[test]
fn test_write_with_tree_id_zero_returns_network_name_deleted() {
    let result = without_tree(Smb2Command::Write, 0);
    assert!(result.is_err());
    assert_eq!(refused(result).code(), 0xC00000C9);
}

#[test]
fn test_write_with_nonexistent_tree_id_returns_network_name_deleted() {
    let result = without_tree(Smb2Command::Write, 999);
    assert!(result.is_err());
    assert_eq!(refused(result).code(), 0xC00000C9);
}

#[test]
fn test_ioctl_with_nonexistent_tree_id_returns_network_name_deleted() {
    let result = without_tree(Smb2Command::Ioctl, 999);
    assert!(result.is_err());
    assert_eq!(refused(result).code(), 0xC00000C9);
}

#[test]
fn test_tree_disconnect_invalid_tree_returns_network_name_deleted() {
    let header = request(Smb2Command::TreeDisconnect, 7, 999);
    let result = handle_tree_disconnect(&header, Ok(None), 1);
    assert!(result.is_err());
    assert_eq!(refused(result).code(), 0xC00000C9);
}

#[test]
fn a_tree_connect_names_its_tree() {
    let body = connect_body("\\\\server\\docs");
    let header = request(Smb2Command::TreeConnect, 7, 0);
    let share = ShareInfo { path: "/srv".to_string(), read_only: true };
    let awaiting = handle_tree_connect(&header, &body).unwrap().on_share(Some(share)).unwrap();
    let store = awaiting.on_tree_id_at(Ok(12), 50).unwrap();
    assert_eq!(store.tree.share_name, "docs");
    assert_eq!(store.tree.share_path, "/srv");
    assert_eq!((store.tree.session_id, store.tree.created_at), (7, 50));
    let response = store.on_stored(Ok(()), 1).unwrap();
    let answer = Smb2Header::parse(&response).unwrap();
    assert_eq!(answer.tree_id, 12);
    assert_eq!(&response[64 + 12..64 + 16], &READ_ONLY_ACCESS.to_le_bytes());
    assert!(matches!(
        store.on_stored(Err("down".to_string()), 1),
        Err(HandlerError::Internal(_))
    ));
}

#[test]
fn a_writable_share_gives_full_access() {
    let header = request(Smb2Command::TreeConnect, 7, 0);
    let share = ShareInfo { path: "/srv".to_string(), read_only: false };
    let awaiting = handle_tree_connect(&header, &connect_body("\\\\server\\docs"))
        .unwrap()
        .on_share(Some(share))
        .unwrap();
    assert_eq!(awaiting.maximal_access, FULL_ACCESS);
    assert!(matches!(
        awaiting.on_tree_id_at(Err("down".to_string()), 0),
        Err(HandlerError::Internal(_))
    ));
}

#[test]
fn a_known_tree_can_be_left() {
    let header = request(Smb2Command::TreeDisconnect, 7, 4);
    let response = handle_tree_disconnect(&header, Ok(Some(tree_state())), 1).unwrap();
    assert_eq!(Smb2Header::parse(&response).unwrap().status, 0);
}

#[test]
fn trees_belong_to_sessions() {
    assert!(!requires_session(Smb2Command::Negotiate));
    assert!(!requires_session(Smb2Command::SessionSetup));
    assert!(requires_session(Smb2Command::TreeConnect));
    assert!(!requires_tree(Smb2Command::TreeConnect));
    assert!(requires_tree(Smb2Command::Write) && requires_session(Smb2Command::Write));
}

#[test]
fn an_unknown_session_is_refused() {
    let mut connection = Connection::new(1, 65536, 65536, 65536);
    connection.negotiate(SmbDialect::Smb302);
    let header = request(Smb2Command::TreeConnect, 7, 0);
    match dispatch_command(&connection, &header) {
        Ok(DispatchStep::Session(a)) => {
            assert_eq!(
                refused(a.on_session(&mut connection, Ok(None))),
                NtStatus::UserSessionDeleted
            );
        }
        Err(HandlerError::Status(status)) => assert_eq!(status, NtStatus::UserSessionDeleted),
        _ => panic!("the session is needed"),
    }
}

#[test]
fn a_tree_is_dated() {
    let before = current_unix_time();
    let body = connect_body("\\\\server\\docs");
    let header = request(Smb2Command::TreeConnect, 7, 0);
    let share = ShareInfo { path: "/srv".to_string(), read_only: false };
    let awaiting = handle_tree_connect(&header, &body).unwrap().on_share(Some(share)).unwrap();
    let store = awaiting.on_tree_id(Ok(3)).unwrap();
    assert!(before <= store.tree.created_at && store.tree.created_at <= current_unix_time());
}

#[test]
fn a_request_without_a_session_is_refused() {
    let mut connection = Connection::new(1, 65536, 65536, 65536);
    connection.negotiate(SmbDialect::Smb302);
    connection.add_session(7);
    for command in [
        Smb2Command::Logoff,
        Smb2Command::TreeConnect,
        Smb2Command::TreeDisconnect,
        Smb2Command::Create,
        Smb2Command::Write,
        Smb2Command::SetInfo,
    ] {
        let result = dispatch_command(&connection, &request(command, 0, 4));
        assert_eq!(refused(result), NtStatus::UserSessionDeleted);
    }
    for command in [Smb2Command::Negotiate, Smb2Command::SessionSetup, Smb2Command::Echo] {
        let result = dispatch_command(&connection, &request(command, 0, 0));
        assert!(matches!(result, Ok(DispatchStep::Handle(_))));
    }
}
