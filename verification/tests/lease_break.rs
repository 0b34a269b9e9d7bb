use rustsmb_server::error::HandlerError;
use rustsmb_server::handler::lease_break::{
    build_lease_break_notification, build_oplock_break_notification, calculate_break_state,
    check_acknowledgment, handle_lease_break_ack, handle_oplock_break, handle_oplock_break_ack,
    has_lease_conflict, lease_ack_required, oplock_ack_required, AckKind, AckReply,
    LeaseBreakAcknowledgment, LeaseBreakEvent, OplockBreakAcknowledgment, OplockBreakEvent,
    OplockLevel, LEASE_BREAK_ACK_REQUIRED, LEASE_BREAK_ACK_SIZE, LEASE_BREAK_NOTIFICATION_SIZE,
    LEASE_BREAK_RESPONSE_SIZE, OPLOCK_BREAK_ACK_SIZE, OPLOCK_BREAK_NOTIFICATION_SIZE,
    OPLOCK_BREAK_RESPONSE_SIZE, UNSOLICITED_MESSAGE_ID,
};
use rustsmb_server::protocol::header::{Smb2Command, Smb2Flags, Smb2Header};
use rustsmb_server::protocol::status::NtStatus;
use rustsmb_server::state::{HandleState, LeaseEntry};

const LEASE_KEY: [u8; 16] = [
    0x01, 0x02, 0x03, 0x04, 0x05, 0x06, 0x07, 0x08, 0x09, 0x0a, 0x0b, 0x0c, 0x0d, 0x0e, 0x0f, 0x10,
];

fn request() -> Smb2Header {
    Smb2Header {
        structure_size: 64,
        credit_charge: 1,
        status: 0,
        command: Smb2Command::OplockBreak,
        credits: 1,
        flags: Smb2Flags(0),
        next_command: 0,
        message_id: 1,
        async_id: 0,
        tree_id: 1,
        session_id: 7,
        signature: [0u8; 16],
    }
}

fn oplock_event() -> OplockBreakEvent {
    OplockBreakEvent {
        break_id: 1,
        persistent_id: 0x1234567890ABCDEF,
        volatile_id: 0xFEDCBA0987654321,
        current_level: OplockLevel::Batch.as_u8(),
        new_level: OplockLevel::LevelII.as_u8(),
        ack_required: true,
    }
}

fn lease_event() -> LeaseBreakEvent {
    LeaseBreakEvent {
        break_id: 1,
        lease_key: LEASE_KEY,
        current_state: 0x07, // RWH
        new_state: 0x01,     // R
        new_epoch: 2,
        ack_required: true,
    }
}

fn oplock_ack(level: u8) -> Vec<u8> {
    // structure_size(2) + oplock_level(1) + reserved(1) + reserved2(4) +
    // file_id_persistent(8) + file_id_volatile(8)
    let mut bytes = Vec::new();
    bytes.extend_from_slice(&24u16.to_le_bytes()); // structure_size
    bytes.push(level); // oplock_level
    bytes.push(0x00); // reserved
    bytes.extend_from_slice(&0u32.to_le_bytes()); // reserved2
    bytes.extend_from_slice(&0x1234567890ABCDEFu64.to_le_bytes()); // persistent
    bytes.extend_from_slice(&0xFEDCBA0987654321u64.to_le_bytes()); // volatile
    bytes
}

fn lease_ack(state: u32) -> Vec<u8> {
    // structure_size(2) + reserved(2) + flags(4) + lease_key(16) + lease_state(4) +
    // lease_duration(8)
    let mut bytes = Vec::new();
    bytes.extend_from_slice(&36u16.to_le_bytes()); // structure_size
    bytes.extend_from_slice(&0u16.to_le_bytes()); // reserved
    bytes.extend_from_slice(&0u32.to_le_bytes()); // flags
    bytes.extend_from_slice(&LEASE_KEY); // lease_key
    bytes.extend_from_slice(&state.to_le_bytes()); // lease_state
    bytes.extend_from_slice(&0u64.to_le_bytes()); // lease_duration
    bytes
}

/// The response to the acknowledgment of an oplock break.
fn oplock_response(level: u8) -> Vec<u8> {
    handle_oplock_break_ack(&request(), &oplock_ack(level))
        .unwrap()
        .on_handle(Ok(Some(HandleState::default())), 1)
        .unwrap()
        .response
}

fn lease_response(state: u32) -> Vec<u8> {
    handle_lease_break_ack(&request(), &lease_ack(state))
        .unwrap()
        .on_registry(AckReply::Completed)
        .unwrap()
        .on_lease(None, 1)
        .1
}

#[test]
fn test_oplock_break_notification_structure_size() {
    assert_eq!(OPLOCK_BREAK_NOTIFICATION_SIZE, 24);

    let notification = build_oplock_break_notification(&oplock_event());
    assert_eq!(
        u16::from_le_bytes([notification[64], notification[65]]),
        24,
        "StructureSize MUST be 24"
    );
}

#[test]
fn test_oplock_break_levels() {
    // Level II (0x01) - shared read cache
    assert_eq!(OplockLevel::LevelII.as_u8(), 0x01);

    // Exclusive (0x08) - exclusive read/write cache
    assert_eq!(OplockLevel::Exclusive.as_u8(), 0x08);

    // Batch (0x09) - exclusive with open caching
    assert_eq!(OplockLevel::Batch.as_u8(), 0x09);

    // None (0x00) - no caching
    assert_eq!(OplockLevel::NoOplock.as_u8(), 0x00);

    // Lease (0xFF) - indicates lease break notification instead
    assert_eq!(OplockLevel::Lease.as_u8(), 0xFF);
}

#[test]
fn test_oplock_break_ack_required_batch() {
    // Breaking from Batch oplock requires ACK
    let current_level = OplockLevel::Batch.as_u8(); // 0x09
    let new_level = OplockLevel::LevelII.as_u8(); // 0x01

    assert!(
        oplock_ack_required(current_level),
        "Batch oplock break MUST require acknowledgment"
    );

    // New level should be Level II
    assert_eq!(new_level, 0x01);
}

#[test]
fn test_oplock_break_ack_required_exclusive() {
    // Breaking from Exclusive oplock requires ACK
    let current_level = OplockLevel::Exclusive.as_u8(); // 0x08
    let new_level = OplockLevel::NoOplock.as_u8(); // 0x00

    assert!(
        oplock_ack_required(current_level),
        "Exclusive oplock break MUST require acknowledgment"
    );

    // Can break to None
    assert_eq!(new_level, 0x00);
}

#[test]
fn test_oplock_break_no_ack_level_ii_to_none() {
    // Breaking from Level II oplock does NOT require ACK
    let current_level = OplockLevel::LevelII.as_u8(); // 0x01
    let new_level = OplockLevel::NoOplock.as_u8(); // 0x00

    assert!(
        !oplock_ack_required(current_level),
        "Level II to None SHOULD NOT require acknowledgment"
    );

    // Must break to None
    assert_eq!(new_level, 0x00);
}

#[test]
fn test_oplock_break_notification_file_id() {
    let persistent_id: u64 = 0x1234567890ABCDEF;
    let volatile_id: u64 = 0xFEDCBA0987654321;

    let notification = build_oplock_break_notification(&oplock_event());
    let buffer = &notification[64..];

    // File IDs start at offset 8 (after structure_size, oplock_level, reserved, reserved2)
    assert_eq!(buffer.len(), 24);

    // Check persistent ID at offset 8-16
    let encoded_persistent = u64::from_le_bytes(buffer[8..16].try_into().unwrap());
    assert_eq!(encoded_persistent, persistent_id);

    // Check volatile ID at offset 16-24
    let encoded_volatile = u64::from_le_bytes(buffer[16..24].try_into().unwrap());
    assert_eq!(encoded_volatile, volatile_id);
}

#[test]
fn test_lease_break_notification_structure_size() {
    assert_eq!(LEASE_BREAK_NOTIFICATION_SIZE, 44);

    let notification = build_lease_break_notification(&lease_event());
    assert_eq!(
        u16::from_le_bytes([notification[64], notification[65]]),
        44,
        "StructureSize MUST be 44"
    );
}

#[test]
fn test_lease_break_ack_required_rwh() {
    const READ_CACHING: u32 = 0x01;
    const WRITE_CACHING: u32 = 0x02;
    const HANDLE_CACHING: u32 = 0x04;

    // RWH lease requires ACK
    let state = READ_CACHING | WRITE_CACHING | HANDLE_CACHING; // 0x07
    assert!(
        lease_ack_required(state),
        "RWH lease break MUST require ACK"
    );

    // ACK_REQUIRED flag value
    assert_eq!(LEASE_BREAK_ACK_REQUIRED, 0x00000001);
}

#[test]
fn test_lease_break_ack_required_write_only() {
    const WRITE_CACHING: u32 = 0x02;

    // WRITE lease (without READ) requires ACK
    let state = WRITE_CACHING;
    assert!(
        lease_ack_required(state),
        "WRITE-only lease break MUST require ACK"
    );
}

#[test]
fn test_lease_break_no_ack_read_only() {
    const READ_CACHING: u32 = 0x01;

    // READ-only lease does NOT require ACK
    let state = READ_CACHING;
    assert!(
        !lease_ack_required(state),
        "READ-only lease break SHOULD NOT require ACK"
    );
}

#[test]
fn test_lease_break_notification_lease_key() {
    let notification = build_lease_break_notification(&lease_event());
    let buffer = &notification[64..];

    assert_eq!(buffer.len(), 44);

    // Lease key is at offset 8-24 (after structure_size, new_epoch, flags)
    let encoded_key: [u8; 16] = buffer[8..24].try_into().unwrap();
    assert_eq!(encoded_key, LEASE_KEY);
}

#[test]
fn test_lease_break_new_state_calculation() {
    const READ: u32 = 0x01;
    const WRITE: u32 = 0x02;
    const HANDLE: u32 = 0x04;

    // RWH holder, requester wants WRITE -> break to READ
    let break_to = calculate_break_state(READ | WRITE | HANDLE, WRITE);
    assert_eq!(break_to, READ, "WRITE request should break RWH to R");

    // RWH holder, requester wants READ only -> break to RH (lose W)
    let break_to = calculate_break_state(READ | WRITE | HANDLE, READ);
    assert_eq!(
        break_to,
        READ | HANDLE,
        "READ request should break RWH to RH"
    );

    // RW holder, requester wants WRITE -> break to READ
    let break_to = calculate_break_state(READ | WRITE, WRITE);
    assert_eq!(break_to, READ, "WRITE request should break RW to R");
}

#[test]
fn test_oplock_break_ack_structure_size() {
    // Oplock break ack has structure size 24
    assert_eq!(OPLOCK_BREAK_ACK_SIZE, 24);

    // Lease break ack has structure size 36
    assert_eq!(LEASE_BREAK_ACK_SIZE, 36);

    // These are different, so server can distinguish
    assert_ne!(
        OPLOCK_BREAK_ACK_SIZE, LEASE_BREAK_ACK_SIZE,
        "Structure sizes must differ to distinguish oplock from lease ack"
    );

    assert!(matches!(handle_oplock_break(&oplock_ack(0)), Ok(AckKind::Oplock)));
    assert!(matches!(handle_oplock_break(&lease_ack(0)), Ok(AckKind::Lease)));
}

#[test]
fn test_oplock_ack_valid_levels() {
    // Valid ack levels: None or Level II
    let valid_levels = [OplockLevel::NoOplock.as_u8(), OplockLevel::LevelII.as_u8()];

    for level in &valid_levels {
        assert!(
            *level == 0x00 || *level == 0x01,
            "Acked level {} should be None (0x00) or Level II (0x01)",
            level
        );
    }

    // Invalid ack levels: Batch or Exclusive (can't ack to higher level)
    let invalid_levels = [OplockLevel::Batch.as_u8(), OplockLevel::Exclusive.as_u8()];

    for level in &invalid_levels {
        assert!(
            *level != 0x00 && *level != 0x01,
            "Level {} should not be valid for ack",
            level
        );
    }
}

/// Whether a state may be acknowledged for a break to another.
fn is_subset(acked: u32, break_to: u32) -> bool {
    match check_acknowledgment(Some(break_to), acked) {
        AckReply::Completed => true,
        AckReply::InvalidStateSubset => false,
        _ => panic!("a break is pending"),
    }
}

#[test]
fn test_lease_ack_state_subset_valid() {
    const READ: u32 = 0x01;
    const HANDLE: u32 = 0x04;

    // Break to READ (0x01), ack with READ (0x01) - valid
    assert!(is_subset(READ, READ), "READ is subset of READ");

    // Break to READ (0x01), ack with NONE (0x00) - valid
    assert!(is_subset(0x00, READ), "NONE is subset of READ");

    // Break to RH (0x05), ack with R (0x01) - valid
    assert!(is_subset(READ, READ | HANDLE), "R is subset of RH");
}

#[test]
fn test_lease_ack_state_subset_invalid() {
    const READ: u32 = 0x01;
    const WRITE: u32 = 0x02;
    const HANDLE: u32 = 0x04;

    // Break to READ (0x01), ack with WRITE (0x02) - INVALID
    assert!(!is_subset(WRITE, READ), "WRITE is NOT subset of READ");

    // Break to READ (0x01), ack with RWH (0x07) - INVALID
    assert!(!is_subset(READ | WRITE | HANDLE, READ), "RWH is NOT subset of READ");

    // Break to RH (0x05), ack with RWH (0x07) - INVALID (W not allowed)
    assert!(
        !is_subset(READ | WRITE | HANDLE, READ | HANDLE),
        "RWH is NOT subset of RH"
    );
}

#[test]
fn test_break_notification_message_id() {
    let notification = build_oplock_break_notification(&oplock_event());
    let header = Smb2Header::parse(&notification).unwrap();
    assert_eq!(header.message_id, UNSOLICITED_MESSAGE_ID);

    assert_eq!(
        UNSOLICITED_MESSAGE_ID,
        u64::MAX,
        "Unsolicited notifications MUST use MessageId 0xFFFFFFFFFFFFFFFF"
    );
}

#[test]
fn test_break_notification_session_tree_ids() {
    let notification = build_lease_break_notification(&lease_event());
    let header = Smb2Header::parse(&notification).unwrap();

    assert_eq!(
        header.session_id, 0,
        "SessionId SHOULD be 0 for unsolicited notifications"
    );
    assert_eq!(
        header.tree_id, 0,
        "TreeId SHOULD be 0 for unsolicited notifications"
    );
}

#[test]
fn test_oplock_break_response_structure() {
    assert_eq!(OPLOCK_BREAK_RESPONSE_SIZE, 24);

    let response = oplock_response(0x00);
    assert_eq!(&response[64..66], &24u16.to_le_bytes());
    assert_eq!(OplockLevel::from_u8(response[66]), OplockLevel::NoOplock);
}

#[test]
fn test_lease_break_response_structure() {
    assert_eq!(LEASE_BREAK_RESPONSE_SIZE, 36);

    let response = lease_response(0);
    assert_eq!(&response[64..66], &36u16.to_le_bytes());
    assert_eq!(&response[64 + 24..64 + 28], &0u32.to_le_bytes());
    assert_eq!(&response[64 + 28..64 + 36], &0u64.to_le_bytes());
}

#[test]
fn test_oplock_break_ack_parsing() {
    let bytes = oplock_ack(0x01);
    let ack = OplockBreakAcknowledgment::parse(&bytes).expect("parse should succeed");

    assert_eq!(&bytes[0..2], &24u16.to_le_bytes());
    assert_eq!(ack.oplock_level, OplockLevel::LevelII);
    assert_eq!(ack.file_id_persistent, 0x1234567890ABCDEF);
    assert_eq!(ack.file_id_volatile, 0xFEDCBA0987654321);
}

#[test]
fn test_lease_break_ack_parsing() {
    let bytes = lease_ack(0x01);
    let ack = LeaseBreakAcknowledgment::parse(&bytes).expect("parse should succeed");

    assert_eq!(&bytes[0..2], &36u16.to_le_bytes());
    assert_eq!(ack.lease_key, LEASE_KEY);
    assert_eq!(ack.lease_state, 0x01);
    assert_eq!(&bytes[28..36], &0u64.to_le_bytes());
}

#[test]
fn an_acknowledged_oplock_is_stored_and_echoed() {
    let awaiting = handle_oplock_break_ack(&request(), &oplock_ack(0x01)).unwrap();
    assert_eq!(awaiting.handle_id, (0xFEDCBA0987654321u128 << 64) | 0x1234567890ABCDEF);
    let mut held = HandleState::default();
    held.oplock_level = 0x09;
    let done = awaiting.on_handle(Ok(Some(held)), 1).unwrap();
    assert_eq!((done.level, done.handle.oplock_level), (1, 1));
    assert_eq!(done.response[66], 0x01);
    assert_eq!(&done.response[72..80], &0x1234567890ABCDEFu64.to_le_bytes());
    assert_eq!(&done.response[80..88], &0xFEDCBA0987654321u64.to_le_bytes());

    // The notification names the same file in the same places.
    let notification = build_oplock_break_notification(&oplock_event());
    assert_eq!(&notification[72..88], &done.response[72..88]);
}

#[test]
fn an_acknowledged_lease_is_granted_what_it_keeps() {
    let awaiting = handle_lease_break_ack(&request(), &lease_ack(0x01)).unwrap();
    assert_eq!(awaiting.lease_key, "0102030405060708090a0b0c0d0e0f10");
    let lease = LeaseEntry {
        breaking: true,
        break_to_state: 1,
        ..LeaseEntry::new(
            "0102030405060708090a0b0c0d0e0f10".to_string(),
            [1; 16],
            7,
            "s".to_string(),
            "a.txt".to_string(),
            7,
            false,
            1,
        )
    };
    let done = awaiting.on_registry(AckReply::Completed).unwrap();
    let (stored, response) = done.on_lease(Some(lease), 1);
    let stored = stored.unwrap();
    assert_eq!((stored.lease_state, stored.breaking), (1, false));
    assert_eq!(&response[72..88], &LEASE_KEY);
    assert_eq!(&response[88..92], &1u32.to_le_bytes());
}

#[test]
fn acknowledgments_are_refused_for_each_reason() {
    let status = |reply: AckReply| {
        handle_lease_break_ack(&request(), &lease_ack(0x01))
            .unwrap()
            .on_registry(reply)
            .map(|_| ())
            .map_err(|e| e.status())
    };
    assert_eq!(status(AckReply::InvalidStateSubset), Err(NtStatus::RequestNotAccepted));
    assert!(status(AckReply::NoPendingBreak).is_err());
    assert!(matches!(check_acknowledgment(None, 1), AckReply::NoPendingBreak));

    let missing = handle_oplock_break_ack(&request(), &oplock_ack(0)).unwrap();
    match missing.on_handle(Ok(None), 1) {
        Err(HandlerError::Status(s)) => assert_eq!(s, NtStatus::FileClosed),
        _ => panic!("the handle is gone"),
    }
    assert!(handle_oplock_break(&[25, 0]).is_err());
    assert!(handle_oplock_break(&[]).is_err());
    assert!(OplockBreakAcknowledgment::parse(&oplock_ack(0x55)).is_none());
}

#[test]
fn lease_conflicts_go_both_ways() {
    for a in 0..8u32 {
        for b in 0..8u32 {
            assert_eq!(has_lease_conflict(a, b), has_lease_conflict(b, a));
        }
    }
    assert!(has_lease_conflict(0x03, 0x01));
    assert!(!has_lease_conflict(0x01, 0x01));
}

#[test]
fn only_lower_oplocks_can_be_acknowledged() {
    for level in [0x00u8, 0x01] {
        let awaiting = handle_oplock_break_ack(&request(), &oplock_ack(level)).unwrap();
        let done = awaiting.on_handle(Ok(Some(HandleState::default())), 1).unwrap();
        assert_eq!(done.handle.oplock_level, level);
    }
    for level in [0x08u8, 0x09, 0xFF] {
        let awaiting = handle_oplock_break_ack(&request(), &oplock_ack(level)).unwrap();
        match awaiting.on_handle(Ok(Some(HandleState::default())), 1) {
            Err(HandlerError::Status(s)) => assert_eq!(s, NtStatus::InvalidParameter),
            _ => panic!("an oplock is never broken to level {}", level),
        }
    }
}
