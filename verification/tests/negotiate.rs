use rustsmb_server::connection::Connection;
use rustsmb_server::error::HandlerError;
use rustsmb_server::handler::ioctl::{
    handle_ioctl, handle_validate_negotiate_info, IoctlRequest, IoctlRoute,
    FSCTL_VALIDATE_NEGOTIATE_INFO,
};
use rustsmb_server::handler::negotiate::{handle_negotiate, handle_negotiate_at};
use rustsmb_server::helpers::time::{current_unix_time, filetime_to_unix};
use rustsmb_server::protocol::dialect::{
    select_dialect, server_capabilities, Capabilities, SmbDialect,
};
use rustsmb_server::protocol::header::{Smb2Command, Smb2Flags, Smb2Header};
use rustsmb_server::protocol::status::NtStatus;

const SERVER_GUID: [u8; 16] = [3; 16];
const CLIENT_GUID: [u8; 16] = [9; 16];

fn request(command: Smb2Command) -> Smb2Header {
    Smb2Header {
        structure_size: 64,
        credit_charge: 0,
        status: 0,
        command,
        credits: 1,
        flags: Smb2Flags(0),
        next_command: 0,
        message_id: 0,
        async_id: 0,
        tree_id: 0,
        session_id: 0,
        signature: [0; 16],
    }
}

fn negotiate_body(dialect_count: u16, dialects: &[u16]) -> Vec<u8> {
    let mut body = Vec::new();
    body.extend_from_slice(&36u16.to_le_bytes());
    body.extend_from_slice(&dialect_count.to_le_bytes());
    body.extend_from_slice(&1u16.to_le_bytes());
    body.extend_from_slice(&[0; 6]);
    body.extend_from_slice(&CLIENT_GUID);
    body.extend_from_slice(&[0; 8]);
    for dialect in dialects {
        body.extend_from_slice(&dialect.to_le_bytes());
    }
    body
}

fn negotiate(connection: &mut Connection, dialects: &[u16]) -> Result<Vec<u8>, HandlerError> {
    let body = negotiate_body(dialects.len() as u16, dialects);
    handle_negotiate_at(connection, &SERVER_GUID, &request(Smb2Command::Negotiate), &body, 77, 1)
}

fn refused<T>(result: Result<T, HandlerError>) -> NtStatus {
    match result {
        Err(HandlerError::Status(status)) => status,
        _ => panic!("a status is expected"),
    }
}

#[test]
fn test_negotiate_dialect_count_zero() {
    // Build a NEGOTIATE request with DialectCount = 0
    let body = negotiate_body(0, &[]);
    assert_eq!(
        u16::from_le_bytes([body[2], body[3]]),
        0,
        "DialectCount should be 0 for this test"
    );

    let mut connection = Connection::new(1, 65536, 65536, 65536);
    let header = request(Smb2Command::Negotiate);
    let result = handle_negotiate_at(&mut connection, &SERVER_GUID, &header, &body, 0, 1);
    assert_eq!(
        refused(result).code(),
        0xC000000D,
        "DialectCount=0 MUST fail with STATUS_INVALID_PARAMETER"
    );
}

#[test]
fn test_negotiate_no_common_dialect() {
    // Client offers only SMB 1.0 (0x0100) - a dialect we don't support
    // Note: 0x0100 is SMB 1.0, we support 0x0202+ (SMB 2.0.2+)
    let client_dialects: [u16; 1] = [0x0100]; // SMB 1.0

    // Try to negotiate
    let result = select_dialect(&client_dialects);

    assert!(
        result.is_none(),
        "No common dialect MUST result in negotiation failure"
    );
}

#[test]
fn test_negotiate_selects_highest_dialect() {
    // Client offers 2.0.2 and 3.0
    let client_dialects: [u16; 2] = [0x0202, 0x0300];

    let result = select_dialect(&client_dialects);

    // Should select SMB 3.0 (highest common)
    assert_eq!(
        result,
        Some(SmbDialect::Smb300),
        "Server SHOULD select highest common dialect"
    );
}

#[test]
fn test_negotiate_capabilities_leasing() {
    assert_eq!(
        Capabilities::LEASING,
        0x00000002,
        "SMB2_GLOBAL_CAP_LEASING = 0x00000002"
    );
}

#[test]
fn test_negotiate_capabilities_multi_channel() {
    assert_eq!(
        Capabilities::MULTI_CHANNEL,
        0x00000008,
        "SMB2_GLOBAL_CAP_MULTI_CHANNEL = 0x00000008"
    );
}

#[test]
fn test_negotiate_capabilities_directory_leasing() {
    assert_eq!(
        Capabilities::DIRECTORY_LEASING,
        0x00000020,
        "SMB2_GLOBAL_CAP_DIRECTORY_LEASING = 0x00000020"
    );
}

#[test]
fn test_negotiate_capabilities_by_dialect() {
    // SMB 2.0.2: Only LARGE_MTU
    let caps_202 = server_capabilities(SmbDialect::Smb202);
    assert!(
        caps_202 & Capabilities::LEASING == 0,
        "SMB 2.0.2 should NOT advertise LEASING"
    );

    // SMB 2.1+: LARGE_MTU, LEASING
    let caps_210 = server_capabilities(SmbDialect::Smb210);
    assert!(
        caps_210 & Capabilities::LEASING != 0,
        "SMB 2.1 should advertise LEASING"
    );

    // SMB 3.0+: Add ENCRYPTION, DIRECTORY_LEASING, optionally MULTI_CHANNEL
    let caps_300 = server_capabilities(SmbDialect::Smb300);
    assert!(
        caps_300 & Capabilities::DIRECTORY_LEASING != 0,
        "SMB 3.0 should advertise DIRECTORY_LEASING"
    );
    assert!(
        caps_300 & Capabilities::ENCRYPTION != 0,
        "SMB 3.0 should advertise ENCRYPTION"
    );
}

#[test]
fn negotiation_sets_up_the_connection() {
    let mut connection = Connection::new(1, 1000, 2000, 3000);
    let response = negotiate(&mut connection, &[0x0202, 0x0210, 0x0302]).unwrap();
    assert_eq!(connection.dialect, Some(SmbDialect::Smb302));
    assert_eq!(connection.client_guid, CLIENT_GUID);
    let header = Smb2Header::parse(&response).unwrap();
    assert_eq!(header.status, 0);
    let body = &response[64..];
    assert_eq!(&body[0..2], &65u16.to_le_bytes());
    assert_eq!(&body[4..6], &0x0302u16.to_le_bytes());
    assert_eq!(&body[8..24], &SERVER_GUID);
    assert_eq!(&body[24..28], &server_capabilities(SmbDialect::Smb302).to_le_bytes());
    assert_eq!(&body[28..32], &1000u32.to_le_bytes());
    assert_eq!(&body[32..36], &2000u32.to_le_bytes());
    assert_eq!(&body[36..40], &3000u32.to_le_bytes());
    assert_eq!(&body[40..48], &77u64.to_le_bytes());
}

#[test]
fn negotiation_without_a_common_dialect_is_refused() {
    let mut connection = Connection::new(1, 1000, 2000, 3000);
    assert_eq!(refused(negotiate(&mut connection, &[0x0100])), NtStatus::NotSupported);
    assert_eq!(connection.dialect, None);
}

#[test]
fn short_negotiate_body_is_malformed() {
    let mut connection = Connection::new(1, 1000, 2000, 3000);
    let header = request(Smb2Command::Negotiate);
    let result = handle_negotiate_at(&mut connection, &SERVER_GUID, &header, &[36, 0], 0, 1);
    assert!(matches!(result, Err(HandlerError::Protocol(_))));
}

#[test]
fn validation_repeats_the_negotiation() {
    let mut connection = Connection::new(1, 1000, 2000, 3000);
    negotiate(&mut connection, &[0x0210, 0x0300]).unwrap();

    let mut input = Vec::new();
    input.extend_from_slice(&0u32.to_le_bytes());
    input.extend_from_slice(&CLIENT_GUID);
    input.extend_from_slice(&1u16.to_le_bytes());
    input.extend_from_slice(&2u16.to_le_bytes());
    input.extend_from_slice(&0x0210u16.to_le_bytes());
    input.extend_from_slice(&0x0300u16.to_le_bytes());
    let mut body = Vec::new();
    body.extend_from_slice(&57u16.to_le_bytes());
    body.extend_from_slice(&0u16.to_le_bytes());
    body.extend_from_slice(&FSCTL_VALIDATE_NEGOTIATE_INFO.to_le_bytes());
    body.extend_from_slice(&[0xFF; 16]);
    body.extend_from_slice(&120u32.to_le_bytes());
    body.extend_from_slice(&(input.len() as u32).to_le_bytes());
    body.extend_from_slice(&0u32.to_le_bytes());
    body.extend_from_slice(&0u32.to_le_bytes());
    body.extend_from_slice(&0u32.to_le_bytes());
    body.extend_from_slice(&24u32.to_le_bytes());
    body.extend_from_slice(&1u32.to_le_bytes());
    body.extend_from_slice(&0u32.to_le_bytes());
    body.extend_from_slice(&input);

    let header = request(Smb2Command::Ioctl);
    let parsed = IoctlRequest::parse(&body).unwrap();
    let (_, route) = handle_ioctl(&connection, &header, &body).unwrap();
    assert!(matches!(route, IoctlRoute::ValidateNegotiate));
    let response = handle_validate_negotiate_info(
        &connection,
        &SERVER_GUID,
        &header,
        &parsed,
        &body,
        1,
    )
    .unwrap();
    let output = &response[64 + 48..];
    assert_eq!(output.len(), 24);
    assert_eq!(&output[0..4], &server_capabilities(SmbDialect::Smb300).to_le_bytes());
    assert_eq!(&output[4..20], &SERVER_GUID);
    assert_eq!(&output[22..24], &0x0300u16.to_le_bytes());
}

#[test]
fn a_negotiation_tells_the_time() {
    let before = current_unix_time();
    let mut connection = Connection::new(1, 1000, 2000, 3000);
    let body = negotiate_body(1, &[0x0302]);
    let header = request(Smb2Command::Negotiate);
    let response = handle_negotiate(&mut connection, &SERVER_GUID, &header, &body, 1).unwrap();
    let time = u64::from_le_bytes(response[104..112].try_into().unwrap());
    assert!(before <= filetime_to_unix(time) && filetime_to_unix(time) <= current_unix_time());
    assert_eq!(connection.dialect, Some(SmbDialect::Smb302));
}
