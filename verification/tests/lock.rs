use rustsmb_server::error::HandlerError;
use rustsmb_server::handler::common::TreeReply;
use rustsmb_server::handler::lock::{
    handle_lock, FileLock, LockElement, LockFlags, LockReply, LockRun, LockStep,
};
use rustsmb_server::protocol::header::{Smb2Command, Smb2Flags, Smb2Header};
use rustsmb_server::protocol::status::NtStatus;
use rustsmb_server::state::{compute_lock_end, DistributedLock, HandleState, TreeState};

const STATUS_INVALID_PARAMETER: u32 = 0xC000000D;
const STATUS_FILE_CLOSED: u32 = 0xC0000128;

fn request() -> Smb2Header {
    Smb2Header {
        structure_size: 64,
        credit_charge: 1,
        status: 0,
        command: Smb2Command::Lock,
        credits: 1,
        flags: Smb2Flags(0),
        next_command: 0,
        message_id: 1,
        async_id: 0,
        tree_id: 1,
        session_id: 7,
        signature: [0u8; 16],
    }
}

fn lock_body(lock_count: u16, file_id: (u64, u64), locks: &[(u64, u64, u32)]) -> Vec<u8> {
    let mut body = Vec::new();
    body.extend_from_slice(&48u16.to_le_bytes()); // structure_size
    body.extend_from_slice(&lock_count.to_le_bytes()); // lock_count
    body.extend_from_slice(&0u32.to_le_bytes()); // lock_sequence
    body.extend_from_slice(&file_id.0.to_le_bytes()); // file_id_persistent
    body.extend_from_slice(&file_id.1.to_le_bytes()); // file_id_volatile
    for (offset, length, flags) in locks {
        body.extend_from_slice(&offset.to_le_bytes());
        body.extend_from_slice(&length.to_le_bytes());
        body.extend_from_slice(&flags.to_le_bytes());
        body.extend_from_slice(&0u32.to_le_bytes()); // reserved
    }
    body
}

fn handle() -> HandleState {
    HandleState {
        persistent_id: 5,
        volatile_id: 5,
        tree_id: 1,
        session_id: 7,
        path: "/test/file.txt".to_string(),
        ..Default::default()
    }
}

fn begin(locks: &[(u64, u64, u32)]) -> Result<LockRun, HandlerError> {
    let body = lock_body(locks.len() as u16, (5, 0), locks);
    let awaiting = handle_lock(&request(), &body)?.on_handle(Ok(Some(handle())))?;
    awaiting.on_tree(
        TreeReply {
            tree: Ok(Some(TreeState {
                tree_id: 1,
                session_id: 7,
                share_name: "docs".to_string(),
                share_path: "/srv".to_string(),
                access_flags: 0,
                is_dfs: false,
                created_at: 0,
            })),
            share_found: true,
        },
        "server1".to_string(),
    )
}

fn lock(
    lock_id: u64,
    handle_id: u128,
    offset: u64,
    length: u64,
    exclusive: bool,
) -> DistributedLock {
    DistributedLock::new(
        lock_id,
        handle_id,
        100,
        "server1".to_string(),
        "/test/file.txt".to_string(),
        offset,
        length,
        exclusive,
    )
}

fn refused<T>(result: Result<T, HandlerError>) -> u32 {
    match result {
        Err(HandlerError::Status(status)) => status.code(),
        _ => panic!("a status is expected"),
    }
}

/// The status of a lock that meets one of another handle.
fn conflict_status(flags: u32) -> u32 {
    let run = match begin(&[(0, 1024, flags)]).unwrap().step(1) {
        LockStep::Look(run) => run,
        _ => panic!("the locks of the file are looked up"),
    };
    match run.on_locks(&[lock(1, 99, 0, 1024, true)]) {
        LockStep::Rollback { error, .. } => error.status().code(),
        _ => panic!("the range is locked"),
    }
}

#[test]
fn test_lock_count_zero() {
    // Build a LOCK request with LockCount = 0
    let body = lock_body(0, (0, 1), &[]);
    assert_eq!(
        u16::from_le_bytes([body[2], body[3]]),
        0,
        "LockCount should be 0 for this test"
    );

    assert_eq!(
        refused(handle_lock(&request(), &body)),
        STATUS_INVALID_PARAMETER,
        "LockCount=0 MUST fail with STATUS_INVALID_PARAMETER"
    );
}

#[test]
fn test_lock_invalid_flags() {
    assert_eq!(
        LockFlags::SHARED_LOCK,
        0x01,
        "SMB2_LOCKFLAG_SHARED_LOCK = 0x01"
    );
    assert_eq!(
        LockFlags::EXCLUSIVE_LOCK,
        0x02,
        "SMB2_LOCKFLAG_EXCLUSIVE_LOCK = 0x02"
    );
    assert_eq!(LockFlags::UNLOCK, 0x04, "SMB2_LOCKFLAG_UNLOCK = 0x04");
    assert_eq!(
        LockFlags::FAIL_IMMEDIATELY,
        0x10,
        "SMB2_LOCKFLAG_FAIL_IMMEDIATELY = 0x10"
    );

    // Test invalid combination: SHARED_LOCK | EXCLUSIVE_LOCK
    let invalid_flags = LockFlags::SHARED_LOCK | LockFlags::EXCLUSIVE_LOCK;
    let element = LockElement {
        offset: 0,
        length: 1,
        flags: LockFlags::new(invalid_flags),
    };
    assert!(element.flags.is_shared() && element.flags.is_exclusive());

    assert_eq!(
        refused(element.validate()),
        STATUS_INVALID_PARAMETER,
        "Invalid flags should have multiple lock types set"
    );
}

#[test]
fn test_lock_invalid_range() {
    // Test case: offset + length > 63 bits (2^63)
    let offset: u64 = 0x7FFF_FFFF_FFFF_FFFF; // Max 63-bit value
    let length: u64 = 2; // Adding 2 would overflow 63 bits

    let element = LockElement {
        offset,
        length,
        flags: LockFlags::new(LockFlags::EXCLUSIVE_LOCK),
    };
    let result = element.validate();
    assert!(result.is_err(), "Lock range should overflow 63 bits");

    assert_eq!(
        refused(result),
        0xC00000ED,
        "Range overflow MUST return STATUS_INVALID_LOCK_RANGE"
    );
}

#[test]
fn test_lock_valid_range_at_boundary() {
    // Test case: offset + length exactly at 63-bit max
    let offset: u64 = 0x7FFF_FFFF_FFFF_FFFE;
    let length: u64 = 1;

    let element = LockElement {
        offset,
        length,
        flags: LockFlags::new(LockFlags::EXCLUSIVE_LOCK),
    };
    assert!(
        element.validate().is_ok(),
        "Lock range at boundary should be valid"
    );
}

#[test]
fn test_lock_invalid_handle() {
    // Build LOCK request with invalid handle (file_id = 99999)
    let body = lock_body(1, (99999, 99999), &[(0, 1024, 0x02)]);
    let result = handle_lock(&request(), &body).unwrap().on_handle(Ok(None));

    assert!(result.is_err());
    assert_eq!(
        refused(result),
        STATUS_FILE_CLOSED,
        "Invalid handle MUST return STATUS_FILE_CLOSED"
    );
}

#[test]
fn test_multi_lock_requires_fail_immediately() {
    // First lock: EXCLUSIVE_LOCK without FAIL_IMMEDIATELY (invalid in multi-lock)
    let flags1 = LockFlags::EXCLUSIVE_LOCK;
    // Second lock: EXCLUSIVE_LOCK with FAIL_IMMEDIATELY (valid)
    let flags2 = LockFlags::EXCLUSIVE_LOCK | LockFlags::FAIL_IMMEDIATELY;

    assert_eq!(
        refused(begin(&[(0, 10, flags1), (20, 10, flags2)])),
        STATUS_INVALID_PARAMETER,
        "Multi-lock without FAIL_IMMEDIATELY is invalid"
    );
}

#[test]
fn test_lock_error_code_differentiation() {
    // STATUS_LOCK_NOT_GRANTED = 0xC0000055 (when FAIL_IMMEDIATELY is set)
    const STATUS_LOCK_NOT_GRANTED: u32 = 0xC0000055;

    // STATUS_FILE_LOCK_CONFLICT = 0xC0000054 (when FAIL_IMMEDIATELY is not set)
    const STATUS_FILE_LOCK_CONFLICT: u32 = 0xC0000054;

    // Verify different status codes
    assert_ne!(
        NtStatus::LockNotGranted.code(),
        NtStatus::FileLockConflict.code(),
        "Different error codes for FAIL_IMMEDIATELY flag"
    );

    // Test flag detection
    let flags_with_fail_immediately =
        LockFlags::new(LockFlags::EXCLUSIVE_LOCK | LockFlags::FAIL_IMMEDIATELY);
    let flags_without_fail_immediately = LockFlags::new(LockFlags::EXCLUSIVE_LOCK);

    assert!(
        flags_with_fail_immediately.fail_immediately(),
        "Should detect FAIL_IMMEDIATELY flag"
    );
    assert!(
        !flags_without_fail_immediately.fail_immediately(),
        "Should detect missing FAIL_IMMEDIATELY flag"
    );

    assert_eq!(
        conflict_status(flags_with_fail_immediately.0),
        STATUS_LOCK_NOT_GRANTED,
        "FAIL_IMMEDIATELY conflict returns LOCK_NOT_GRANTED"
    );
    assert_eq!(
        conflict_status(flags_without_fail_immediately.0),
        STATUS_FILE_LOCK_CONFLICT,
        "Normal conflict returns FILE_LOCK_CONFLICT"
    );
}

#[test]
fn test_lock_stacking_same_handle_allowed() {
    // Create two locks from the SAME handle on the SAME range
    let handle_id: u128 = 12345;
    let lock1 = lock(1, handle_id, 0, 1024, true);
    let lock2 = lock(2, handle_id, 0, 1024, true);

    let conflicts = lock1.conflicts_with(&lock2);
    assert!(
        !conflicts,
        "Same handle should allow lock stacking (no conflict)"
    );
}

#[test]
fn test_lock_conflict_different_handles_exclusive() {
    // Existing exclusive lock from handle 1
    let existing_lock = lock(1, 111, 0, 1024, true);

    // New exclusive lock request from handle 2 on same range
    let new_lock = lock(2, 222, 0, 1024, true);

    let conflicts = existing_lock.conflicts_with(&new_lock);
    assert!(
        conflicts,
        "Different handles with overlapping exclusive locks MUST conflict"
    );
}

#[test]
fn test_lock_conflict_shared_locks_allowed() {
    // Existing shared lock from handle 1
    let existing_lock = lock(1, 111, 0, 1024, false);

    // New shared lock request from handle 2 on same range
    let new_lock = lock(2, 222, 0, 1024, false);

    let conflicts = existing_lock.conflicts_with(&new_lock);
    assert!(
        !conflicts,
        "Shared locks from different handles should NOT conflict"
    );
}

#[test]
fn test_lock_conflict_shared_vs_exclusive() {
    // Existing shared lock
    let shared_lock = lock(1, 111, 0, 1024, false);

    // New exclusive lock request from different handle
    let exclusive_lock = lock(2, 222, 0, 1024, true);

    let conflicts = shared_lock.conflicts_with(&exclusive_lock);
    assert!(
        conflicts,
        "Shared lock conflicts with exclusive lock from different handle"
    );
}

#[test]
fn test_lock_no_conflict_non_overlapping_ranges() {
    // Lock on range [0, 1024)
    let lock1 = lock(1, 111, 0, 1024, true);

    // Lock on range [2048, 3072) - completely separate
    let lock2 = lock(2, 222, 2048, 1024, true);

    let conflicts = lock1.conflicts_with(&lock2);
    assert!(
        !conflicts,
        "Non-overlapping ranges should NOT conflict"
    );
}

#[test]
fn adjacent_ranges_do_not_overlap() {
    assert!(!lock(1, 111, 0, 10, true).conflicts_with(&lock(2, 222, 10, 10, true)));
    assert!(lock(1, 111, 0, 11, true).conflicts_with(&lock(2, 222, 10, 10, true)));
    assert_eq!(
        lock(1, 111, 5, 10, true).conflicts_with(&lock(2, 222, 0, 6, false)),
        lock(2, 222, 0, 6, false).conflicts_with(&lock(1, 111, 5, 10, true))
    );
    assert_eq!(compute_lock_end(5, 10), 15);
}

#[test]
fn granted_locks_are_recorded_and_undone_together() {
    let flags = LockFlags::EXCLUSIVE_LOCK | LockFlags::FAIL_IMMEDIATELY;
    let run = begin(&[(0, 10, flags), (20, 10, flags)]).unwrap();
    let run = match run.step(1) {
        LockStep::Look(run) => run,
        _ => panic!("the locks of the file are looked up"),
    };
    let run = match run.on_locks(&[]) {
        LockStep::Lock { run, range } => {
            assert_eq!((range.start, range.length, range.exclusive), (0, 10, true));
            run
        }
        _ => panic!("the range is free"),
    };
    let run = match run.on_lock(LockReply::Done) {
        LockStep::NewId(run) => run,
        _ => panic!("a lock id is needed"),
    };
    let (run, first) = match run.on_lock_id(Some(71)) {
        LockStep::Record { run, lock } => (run, lock),
        _ => panic!("the lock is recorded"),
    };
    assert_eq!((first.lock_id, first.handle_id, first.offset), (71, 5, 0));
    assert_eq!(first.server_id, "server1");
    let run = match run.step(1) {
        LockStep::Look(run) => run,
        _ => panic!("the next range follows"),
    };
    match run.on_locks(&[lock(3, 99, 25, 1, false)]) {
        LockStep::Rollback { release, unlock, error } => {
            assert_eq!(release, vec![71]);
            assert_eq!(unlock, vec![FileLock { exclusive: true, start: 0, length: 10 }]);
            assert_eq!(error.status(), NtStatus::LockNotGranted);
        }
        _ => panic!("the second range is taken"),
    }
}

#[test]
fn all_ranges_done_is_answered() {
    let run = begin(&[(0, 10, LockFlags::UNLOCK)]).unwrap();
    let run = match run.step(1) {
        LockStep::Look(run) => run,
        _ => panic!("the locks of the file are looked up"),
    };
    let run = match run.on_locks(&[lock(44, 5, 0, 10, true)]) {
        LockStep::Unlock { run, held, .. } => {
            assert_eq!(held, Some(44));
            run
        }
        _ => panic!("the range is unlocked"),
    };
    let run = match run.on_unlock(LockReply::Done) {
        LockStep::Next(run) => run,
        _ => panic!("the range is done"),
    };
    match run.step(1) {
        LockStep::Done(response) => {
            assert_eq!(Smb2Header::parse(&response).unwrap().status, 0);
            assert_eq!(&response[64..], &[4, 0, 0, 0]);
        }
        _ => panic!("all ranges are done"),
    }
}

#[test]
fn unlocking_what_is_not_locked_is_refused() {
    let run = begin(&[(0, 10, LockFlags::UNLOCK)]).unwrap();
    let run = match run.step(1) {
        LockStep::Look(run) => run,
        _ => panic!("the locks of the file are looked up"),
    };
    let run = match run.on_locks(&[]) {
        LockStep::Unlock { run, held, .. } => {
            assert_eq!(held, None);
            run
        }
        _ => panic!("the range is unlocked"),
    };
    match run.on_unlock(LockReply::Conflict) {
        LockStep::Rollback { release, unlock, error } => {
            assert!(release.is_empty() && unlock.is_empty());
            assert_eq!(error.status(), NtStatus::InvalidLockRange);
        }
        _ => panic!("there is nothing to unlock"),
    }
}

#[test]
fn a_short_lock_request_is_refused() {
    let body = lock_body(2, (5, 0), &[(0, 10, 0x12)]);
    let awaiting = handle_lock(&request(), &body).unwrap();
    assert_eq!(refused(awaiting.on_handle(Ok(Some(handle())))), STATUS_INVALID_PARAMETER);
    assert!(handle_lock(&request(), &[48, 0]).is_err());
}

/// The request after its first range was locked.
fn first_locked(ranges: &[(u64, u64, u32)]) -> LockRun {
    let run = match begin(ranges).unwrap().step(1) {
        LockStep::Look(run) => run,
        _ => panic!("the locks of the file are looked up"),
    };
    let run = match run.on_locks(&[]) {
        LockStep::Lock { run, .. } => run,
        _ => panic!("the range is free"),
    };
    let run = match run.on_lock(LockReply::Done) {
        LockStep::NewId(run) => run,
        _ => panic!("a lock id is needed"),
    };
    match run.on_lock_id(Some(71)) {
        LockStep::Record { run, .. } => run,
        _ => panic!("the lock is recorded"),
    }
}

#[test]
fn every_failure_releases_what_was_locked() {
    let flags = LockFlags::EXCLUSIVE_LOCK | LockFlags::FAIL_IMMEDIATELY;
    let bad_range = first_locked(&[(0, 10, flags), (u64::MAX, 10, flags)]).step(1);
    let bad_flags = first_locked(&[(0, 10, flags), (20, 10, flags | LockFlags::UNLOCK)]).step(1);
    let unlock = match first_locked(&[(0, 10, flags), (20, 10, LockFlags::UNLOCK)]).step(1) {
        LockStep::Look(run) => match run.on_locks(&[]) {
            LockStep::Unlock { run, .. } => run.on_unlock(LockReply::Conflict),
            _ => panic!("the range is unlocked"),
        },
        _ => panic!("the locks of the file are looked up"),
    };
    let expected =
        [NtStatus::InvalidLockRange, NtStatus::InvalidParameter, NtStatus::InvalidLockRange];
    for (step, status) in [bad_range, bad_flags, unlock].into_iter().zip(expected) {
        match step {
            LockStep::Rollback { release, unlock, error } => {
                assert_eq!(release, vec![71]);
                assert_eq!(unlock, vec![FileLock { exclusive: true, start: 0, length: 10 }]);
                assert_eq!(error.status(), status);
            }
            _ => panic!("the request fails"),
        }
    }
}

#[test]
fn a_lock_without_an_id_is_undone_too() {
    let flags = LockFlags::SHARED_LOCK | LockFlags::FAIL_IMMEDIATELY;
    let run = match begin(&[(4, 6, flags), (u64::MAX, 10, flags)]).unwrap().step(1) {
        LockStep::Look(run) => run,
        _ => panic!("the locks of the file are looked up"),
    };
    assert_eq!((run.file().persistent_id, run.file().volatile_id), (5, 5));
    let run = match run.on_locks(&[]) {
        LockStep::Lock { run, .. } => run,
        _ => panic!("the range is free"),
    };
    let run = match run.on_lock(LockReply::Done) {
        LockStep::NewId(run) => run,
        _ => panic!("a lock id is needed"),
    };
    let run = match run.on_lock_id(None) {
        LockStep::Next(run) => run,
        _ => panic!("the lock is not recorded"),
    };
    match run.step(1) {
        LockStep::Rollback { release, unlock, .. } => {
            assert!(release.is_empty());
            assert_eq!(unlock, vec![FileLock { exclusive: false, start: 4, length: 6 }]);
        }
        _ => panic!("the second range is too long"),
    }
}
