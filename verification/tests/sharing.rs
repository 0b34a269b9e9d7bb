use rustsmb_server::error::HandlerError;
use rustsmb_server::handler::create::{
    has_share_conflict, CreateJob, CreateRequest, SharingRun, SharingStep,
};
use rustsmb_server::handler::lease_break::{OplockLevel, LEASE_HANDLE_CACHING};
use rustsmb_server::protocol::header::{Smb2Command, Smb2Flags, Smb2Header};
use rustsmb_server::protocol::status::NtStatus;
use rustsmb_server::state::{HandleState, LeaseEntry};

/// What comes of an existing handle when a file is opened again.
#[derive(Debug, PartialEq)]
enum Decision {
    Delete,
    SharingViolation,
    Coexist,
}

fn lease(lease_state: u32) -> LeaseEntry {
    LeaseEntry::new(
        "key".to_string(),
        [5; 16],
        9,
        "s".to_string(),
        "a.txt".to_string(),
        lease_state,
        false,
        1,
    )
}

/// Opens a file for reading beside one handle that another client has.
fn decide(handle: HandleState, lease_state: Option<u32>) -> Decision {
    let run = SharingRun {
        job: CreateJob {
            header: Smb2Header {
                structure_size: 64,
                credit_charge: 1,
                status: 0,
                command: Smb2Command::Create,
                credits: 1,
                flags: Smb2Flags(0),
                next_command: 0,
                message_id: 1,
                async_id: 0,
                tree_id: 1,
                session_id: 2,
                signature: [0; 16],
            },
            request: CreateRequest {
                oplock_level: OplockLevel::NoOplock,
                desired_access: 0x0001,
                file_attributes: 0,
                share_access: 0x07,
                create_disposition: 1,
                create_options: 0,
                name_offset: 120,
                name_length: 0,
                contexts_offset: 0,
                contexts_length: 0,
            },
            filename: "a.txt".to_string(),
            contexts: vec![],
        },
        share_name: "docs".to_string(),
        handles: vec![handle],
        done: 0,
    };
    let step = match run.step() {
        Ok(SharingStep::Lease { run, .. }) => run.on_lease(lease_state.map(lease)),
        step => step,
    };
    match step {
        Ok(SharingStep::Discard { .. }) => Decision::Delete,
        Ok(SharingStep::Next(_)) => Decision::Coexist,
        Err(HandlerError::Status(NtStatus::SharingViolation)) => Decision::SharingViolation,
        _ => panic!("one handle is to be judged"),
    }
}

fn handle(session_id: u64, oplock_level: u8, share_access: u32) -> HandleState {
    HandleState {
        persistent_id: 1,
        volatile_id: 1,
        session_id,
        oplock_level,
        share_access,
        access_mask: 0x0001,
        is_durable: true,
        ..Default::default()
    }
}

/// Whether an oplock of this level lets a handle stay open while its client is
/// away, so that the handle gives way to a new open.
fn oplock_caches_handle(oplock_level: u8) -> bool {
    decide(handle(0, oplock_level, 0x07), None) == Decision::Delete
}

fn lease_caches_handle(lease_state: u32) -> bool {
    let mut leased = handle(0, 0xFF, 0x07);
    leased.lease_key = Some([5; 16]);
    decide(leased, Some(lease_state)) == Decision::Delete
}

#[test]
fn test_batch_oplock_is_handle_caching() {
    let oplock_level: u8 = 0x09;

    assert!(
        oplock_caches_handle(oplock_level),
        "Batch oplock (0x09) provides HANDLE_CACHING"
    );
}

#[test]
fn test_level_ii_oplock_not_handle_caching() {
    let oplock_level: u8 = 0x01; // Level II

    assert!(
        !oplock_caches_handle(oplock_level),
        "Level II oplock (0x01) does not provide HANDLE_CACHING"
    );
}

#[test]
fn test_exclusive_oplock_not_handle_caching() {
    let oplock_level: u8 = 0x08; // Exclusive

    assert!(
        !oplock_caches_handle(oplock_level),
        "Exclusive oplock (0x08) does not provide HANDLE_CACHING"
    );
}

#[test]
fn test_lease_handle_caching_bit_detection() {
    const SMB2_LEASE_HANDLE_CACHING: u32 = 0x02;

    // Lease state with READ + HANDLE_CACHING
    let lease_state: u32 = 0x03; // READ (0x01) | HANDLE_CACHING (0x02)

    assert!(
        lease_caches_handle(lease_state) && LEASE_HANDLE_CACHING == SMB2_LEASE_HANDLE_CACHING,
        "Lease with SMB2_LEASE_HANDLE_CACHING (0x02) has HANDLE_CACHING"
    );
}

#[test]
fn test_lease_read_write_not_handle_caching() {
    // Lease state with READ + WRITE (no HANDLE_CACHING)
    let lease_state: u32 = 0x05; // READ (0x01) | WRITE (0x04)

    assert!(
        !lease_caches_handle(lease_state),
        "Lease with READ+WRITE but no HANDLE_CACHING does not have HANDLE_CACHING"
    );
}

#[test]
fn test_lease_rwh_is_handle_caching() {
    // Lease state with READ + WRITE + HANDLE_CACHING
    let lease_state: u32 = 0x07; // READ (0x01) | HANDLE (0x02) | WRITE (0x04)

    assert!(
        lease_caches_handle(lease_state),
        "Lease with RWH (0x07) has HANDLE_CACHING"
    );
}

#[test]
fn test_sharing_conflict_exclusive_access() {
    const FILE_READ_DATA: u32 = 0x0001;

    let existing_share_access: u32 = 0x00; // No sharing allowed
    let requested_access: u32 = FILE_READ_DATA;

    assert!(
        has_share_conflict(existing_share_access, 0, 0x07, requested_access),
        "share_access=0 conflicts with any read access"
    );
}

#[test]
fn test_no_sharing_conflict_full_sharing() {
    const FILE_SHARE_READ: u32 = 0x01;
    const FILE_SHARE_WRITE: u32 = 0x02;
    const FILE_SHARE_DELETE: u32 = 0x04;
    const FILE_READ_DATA: u32 = 0x0001;
    const FILE_WRITE_DATA: u32 = 0x0002;
    const DELETE: u32 = 0x00010000;

    let existing_share_access: u32 = FILE_SHARE_READ | FILE_SHARE_WRITE | FILE_SHARE_DELETE;
    let requested_access: u32 = FILE_READ_DATA | FILE_WRITE_DATA | DELETE;

    assert!(
        !has_share_conflict(existing_share_access, 0, 0x07, requested_access),
        "share_access=0x07 allows all access types"
    );
}

#[test]
fn test_sharing_conflict_read_only_sharing() {
    const FILE_SHARE_READ: u32 = 0x01;
    const FILE_WRITE_DATA: u32 = 0x0002;

    let existing_share_access: u32 = FILE_SHARE_READ; // Only read sharing
    let requested_access: u32 = FILE_WRITE_DATA;

    assert!(
        has_share_conflict(existing_share_access, 0, 0x07, requested_access),
        "share_access=0x01 (read only) conflicts with write access"
    );
}

#[test]
fn test_disconnected_batch_oplock_should_delete() {
    const SMB2_OPLOCK_LEVEL_BATCH: u8 = 0x09;

    let session_id: u64 = 0; // Disconnected

    assert_eq!(
        decide(handle(session_id, SMB2_OPLOCK_LEVEL_BATCH, 0x07), None),
        Decision::Delete,
        "Disconnected handle with batch oplock must be deleted"
    );

    // Conflict check should NOT be reached (conflict irrelevant when HANDLE_CACHING present)
    assert_eq!(
        decide(handle(session_id, SMB2_OPLOCK_LEVEL_BATCH, 0x00), None),
        Decision::Delete,
        "Conflict check is skipped when HANDLE_CACHING is present"
    );
}

#[test]
fn test_disconnected_lease_handle_caching_should_delete() {
    const SMB2_OPLOCK_LEVEL_LEASE: u8 = 0xFF;

    let session_id: u64 = 0; // Disconnected
    let lease_state: u32 = 0x03; // READ | HANDLE_CACHING
    let mut leased = handle(session_id, SMB2_OPLOCK_LEVEL_LEASE, 0x00);
    leased.lease_key = Some([5; 16]);

    assert_eq!(
        decide(leased, Some(lease_state)),
        Decision::Delete,
        "Disconnected handle with lease HANDLE_CACHING must be deleted"
    );
}

#[test]
fn test_disconnected_no_handle_caching_checks_conflict() {
    const SMB2_OPLOCK_LEVEL_II: u8 = 0x01;

    let session_id: u64 = 0; // Disconnected

    assert_eq!(
        decide(handle(session_id, SMB2_OPLOCK_LEVEL_II, 0x00), None),
        Decision::SharingViolation,
        "Disconnected handle without HANDLE_CACHING must check sharing conflict"
    );
}

#[test]
fn test_disconnected_no_handle_caching_no_conflict_coexists() {
    const SMB2_OPLOCK_LEVEL_II: u8 = 0x01;

    let session_id: u64 = 0; // Disconnected

    assert_eq!(
        decide(handle(session_id, SMB2_OPLOCK_LEVEL_II, 0x07), None),
        Decision::Coexist,
        "Disconnected handle without HANDLE_CACHING and no conflict can coexist"
    );
}

#[test]
fn test_connected_handle_uses_normal_flow() {
    let session_id: u64 = 12345; // Connected
    let oplock_level: u8 = 0x09; // Batch oplock

    // Connected handles are never discarded: they go through the oplock break
    assert_ne!(
        decide(handle(session_id, oplock_level, 0x07), None),
        Decision::Delete,
        "Connected handles (session_id != 0) use normal oplock break flow"
    );
}

#[test]
fn a_lease_that_is_gone_caches_nothing() {
    let mut leased = handle(0, 0xFF, 0x07);
    leased.lease_key = Some([5; 16]);
    assert_eq!(decide(leased, None), Decision::Coexist);
}
