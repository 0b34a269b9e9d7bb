use rustsmb_server::config::ServerSideCopyConfig;
use rustsmb_server::error::HandlerError;
use rustsmb_server::handler::common::TreeReply;
use rustsmb_server::handler::copychunk::{
    check_lock_conflict, handle_copychunk, CopyAwaitSource, CopyAwaitTree, CopyLocks, CopyStart,
    CopyStep, SrvCopychunkCopy, SrvCopychunkResponse,
};
use rustsmb_server::handler::ioctl::{
    build_resume_key_output, handle_ioctl, handle_request_resume_key, IoctlRequest,
    FSCTL_SRV_COPYCHUNK, FSCTL_SRV_REQUEST_RESUME_KEY,
};
use rustsmb_server::connection::Connection;
use rustsmb_server::protocol::header::{Smb2Command, Smb2Flags, Smb2Header};
use rustsmb_server::protocol::status::NtStatus;
use rustsmb_server::state::{DistributedLock, HandleState, TreeState};

const FILE_READ_DATA: u32 = 0x00000001;
const FILE_WRITE_DATA: u32 = 0x00000002;
const FILE_EXECUTE: u32 = 0x00000020;

fn request(session_id: u64) -> Smb2Header {
    Smb2Header {
        structure_size: 64,
        credit_charge: 16,
        status: 0,
        command: Smb2Command::Ioctl,
        credits: 1,
        flags: Smb2Flags(0),
        next_command: 0,
        message_id: 1,
        async_id: 0,
        tree_id: 1,
        session_id,
        signature: [0u8; 16],
    }
}

fn ioctl_body(ctl_code: u32, max_output_response: u32, input: &[u8]) -> Vec<u8> {
    let mut body = Vec::new();
    body.extend_from_slice(&57u16.to_le_bytes());
    body.extend_from_slice(&0u16.to_le_bytes());
    body.extend_from_slice(&ctl_code.to_le_bytes());
    body.extend_from_slice(&9u64.to_le_bytes());
    body.extend_from_slice(&0u64.to_le_bytes());
    body.extend_from_slice(&120u32.to_le_bytes());
    body.extend_from_slice(&(input.len() as u32).to_le_bytes());
    body.extend_from_slice(&[0; 12]);
    body.extend_from_slice(&max_output_response.to_le_bytes());
    body.extend_from_slice(&1u32.to_le_bytes());
    body.extend_from_slice(&0u32.to_le_bytes());
    body.extend_from_slice(input);
    body
}

fn copy_input(key: &[u8], chunks: &[(u64, u64, u32)]) -> Vec<u8> {
    let mut input = key[..24].to_vec();
    input.extend_from_slice(&(chunks.len() as u32).to_le_bytes());
    input.extend_from_slice(&0u32.to_le_bytes());
    for (source, target, length) in chunks {
        input.extend_from_slice(&source.to_le_bytes());
        input.extend_from_slice(&target.to_le_bytes());
        input.extend_from_slice(&length.to_le_bytes());
        input.extend_from_slice(&0u32.to_le_bytes());
    }
    input
}

fn start(
    key: &[u8],
    chunks: &[(u64, u64, u32)],
    session_id: u64,
    write_variant: bool,
) -> Result<CopyStart, HandlerError> {
    let body = ioctl_body(FSCTL_SRV_COPYCHUNK, 32, &copy_input(key, chunks));
    let parsed = IoctlRequest::parse(&body).unwrap();
    let limits = ServerSideCopyConfig::default();
    handle_copychunk(&request(session_id), &parsed, &body, write_variant, &limits, 1)
}

fn source(chunks: &[(u64, u64, u32)], write_variant: bool) -> CopyAwaitSource {
    let key = build_resume_key_output(4, 7);
    match start(&key, chunks, 7, write_variant).unwrap() {
        CopyStart::Source(awaiting) => awaiting,
        CopyStart::Limits(_) => panic!("the limits are kept"),
    }
}

/// The status and the limits that a request is answered with.
fn limits_of(chunks: &[(u64, u64, u32)]) -> (u32, u32, u32, u32) {
    let key = build_resume_key_output(4, 7);
    match start(&key, chunks, 7, false).unwrap() {
        CopyStart::Limits(response) => {
            let at = |i: usize| u32::from_le_bytes(response[i..i + 4].try_into().unwrap());
            (at(8), at(112), at(116), at(120))
        }
        CopyStart::Source(_) => panic!("a limit is exceeded"),
    }
}

const LIMITS_ANSWER: (u32, u32, u32, u32) = (0xC000000D, 256, 1_048_576, 16_777_216);

fn handle(id: u128, access_mask: u32) -> HandleState {
    HandleState {
        persistent_id: id,
        volatile_id: id,
        tree_id: 1,
        session_id: 7,
        access_mask,
        path: "a.txt".to_string(),
        ..Default::default()
    }
}

fn tree() -> TreeReply {
    TreeReply {
        tree: Ok(Some(TreeState {
            tree_id: 1,
            session_id: 7,
            share_name: "docs".to_string(),
            share_path: "/srv".to_string(),
            access_flags: 0,
            is_dfs: false,
            created_at: 0,
        })),
        share_found: true,
    }
}

fn status<T>(result: Result<T, HandlerError>) -> Option<NtStatus> {
    match result {
        Ok(_) => None,
        Err(HandlerError::Status(status)) => Some(status),
        Err(_) => panic!("a status is expected"),
    }
}

/// Whether a handle with these rights can be copied from.
fn source_status(access_mask: u32) -> Option<NtStatus> {
    let awaiting = source(&[(0, 0, 10)], false)
        .on_source(Ok(Some(handle(4, access_mask))))
        .unwrap();
    status(awaiting.on_dest(Ok(Some(handle(9, FILE_READ_DATA | FILE_WRITE_DATA)))))
}

/// Whether a handle with these rights can be copied to.
fn dest_status(access_mask: u32, write_variant: bool) -> Option<NtStatus> {
    let awaiting = source(&[(0, 0, 10)], write_variant)
        .on_source(Ok(Some(handle(4, FILE_READ_DATA))))
        .unwrap();
    assert_eq!(awaiting.dest_id, 9);
    status(awaiting.on_dest(Ok(Some(handle(9, access_mask)))))
}

fn both(chunks: &[(u64, u64, u32)]) -> CopyAwaitTree {
    source(chunks, false)
        .on_source(Ok(Some(handle(4, FILE_READ_DATA))))
        .unwrap()
        .on_dest(Ok(Some(handle(9, FILE_READ_DATA | FILE_WRITE_DATA))))
        .unwrap()
}

fn lock(handle_id: u128, offset: u64, length: u64, exclusive: bool) -> DistributedLock {
    DistributedLock::new(
        1,
        handle_id,
        100,
        "s".to_string(),
        "a.txt".to_string(),
        offset,
        length,
        exclusive,
    )
}

#[test]
fn test_resume_key_response_format() {
    let persistent_id: u128 = 0x123456789ABCDEF0;
    let session_id: u64 = 0xDEADBEEF;

    let buf = build_resume_key_output(persistent_id, session_id);

    assert_eq!(buf.len(), 32, "Resume key response must be 32 bytes");
    assert_eq!(
        &buf[..16],
        &persistent_id.to_le_bytes(),
        "Resume key bytes 0-15 should contain persistent_id"
    );
    assert_eq!(
        &buf[16..24],
        &session_id.to_le_bytes(),
        "Resume key bytes 16-23 should contain session_id"
    );
    assert_eq!(&buf[24..28], &[0u8; 4], "Context length must be 0");
    assert_eq!(&buf[28..32], &[0u8; 4], "Reserved must be 0");
}

#[test]
fn test_resume_key_max_output_too_small() {
    let max_output_response = 31u32;
    let required_size = 32u32;

    let of = |size: u32| {
        let body = ioctl_body(FSCTL_SRV_REQUEST_RESUME_KEY, size, &[]);
        let parsed = IoctlRequest::parse(&body).unwrap();
        status(handle_request_resume_key(&request(7), &parsed))
    };
    assert!(
        of(max_output_response) == Some(NtStatus::InvalidParameter) && of(required_size).is_none(),
        "MaxOutputResponse < 32 should trigger INVALID_PARAMETER"
    );
}

#[test]
fn test_copychunk_chunk_count_zero() {
    let key = build_resume_key_output(4, 7);
    assert_eq!(
        status(start(&key, &[], 7, false)),
        Some(NtStatus::InvalidParameter),
        "ChunkCount == 0 should return INVALID_PARAMETER"
    );
}

#[test]
fn test_copychunk_response_with_limits() {
    // Default server limits per config
    let max_chunks = 256u32;
    let max_chunk_size = 1_048_576u32; // 1MB
    let max_data_size = 16_777_216u32; // 16MB

    let response = SrvCopychunkResponse::with_limits(max_chunks, max_chunk_size, max_data_size);

    let buf = response.to_bytes();

    assert_eq!(buf.len(), 12, "COPYCHUNK response must be 12 bytes");

    // Verify the response contains the limits
    let chunks_written = u32::from_le_bytes(buf[0..4].try_into().unwrap());
    let chunk_bytes_written = u32::from_le_bytes(buf[4..8].try_into().unwrap());
    let total_bytes_written = u32::from_le_bytes(buf[8..12].try_into().unwrap());

    assert_eq!(
        chunks_written, max_chunks,
        "chunks_written should contain MaxNumberOfChunks"
    );
    assert_eq!(
        chunk_bytes_written, max_chunk_size,
        "chunk_bytes_written should contain MaxChunkSize"
    );
    assert_eq!(
        total_bytes_written, max_data_size,
        "total_bytes_written should contain MaxDataSize"
    );
}

#[test]
fn test_copychunk_exceeds_max_chunks() {
    let max_chunks = 256u32;
    let request_chunks = 300u32;
    assert_eq!(ServerSideCopyConfig::default().max_number_of_chunks, max_chunks);

    let chunks: Vec<(u64, u64, u32)> =
        (0..request_chunks as u64).map(|i| (i, i, 1)).collect();
    assert_eq!(
        limits_of(&chunks),
        LIMITS_ANSWER,
        "Request exceeding max chunks should return INVALID_PARAMETER with limits"
    );
}

#[test]
fn test_copychunk_chunk_length_zero() {
    let chunk_length = 0u32;

    assert_eq!(
        limits_of(&[(0, 0, chunk_length)]).0,
        NtStatus::InvalidParameter.code(),
        "Chunk length == 0 should return INVALID_PARAMETER"
    );
}

#[test]
fn test_copychunk_exceeds_max_chunk_size() {
    let max_chunk_size = 1_048_576u32; // 1MB
    let request_chunk_size = 2_000_000u32;
    assert_eq!(ServerSideCopyConfig::default().max_chunk_size, max_chunk_size);

    assert_eq!(
        limits_of(&[(0, 0, request_chunk_size)]),
        LIMITS_ANSWER,
        "Chunk size exceeding limit should return INVALID_PARAMETER with limits"
    );
}

#[test]
fn test_copychunk_exceeds_max_total_data() {
    let max_data_size = 16_777_216u32; // 16MB
    let total_requested = 20_000_000u32;
    assert_eq!(ServerSideCopyConfig::default().max_data_size, max_data_size);

    let chunks: Vec<(u64, u64, u32)> =
        (0..20u64).map(|i| (i, i, total_requested / 20)).collect();
    assert_eq!(
        limits_of(&chunks),
        LIMITS_ANSWER,
        "Total data exceeding limit should return INVALID_PARAMETER with limits"
    );
}

#[test]
fn test_copychunk_session_mismatch() {
    let resume_key_session_id = 0x1234u64;
    let request_session_id = 0x5678u64;

    let key = build_resume_key_output(4, resume_key_session_id);
    assert_eq!(
        status(start(&key, &[(0, 0, 10)], request_session_id, false)),
        Some(NtStatus::ObjectNameNotFound),
        "Session mismatch should return OBJECT_NAME_NOT_FOUND"
    );
}

#[test]
fn test_copychunk_resume_key_format() {
    // The resume key format we use:
    // - Bytes 0-15: persistent_id (u128, little-endian)
    // - Bytes 16-23: session_id (u64, little-endian)
    let persistent_id: u128 = 0x123456789ABCDEF0FEDCBA9876543210;
    let session_id: u64 = 0xDEADBEEFCAFEBABE;

    let resume_key = build_resume_key_output(persistent_id, session_id);

    // Extract and verify
    let extracted_persistent_id = u128::from_le_bytes(resume_key[..16].try_into().unwrap());
    let extracted_session_id = u64::from_le_bytes(resume_key[16..24].try_into().unwrap());

    assert_eq!(extracted_persistent_id, persistent_id);
    assert_eq!(extracted_session_id, session_id);
}

#[test]
fn test_copychunk_source_access_read_data() {
    // Source must have FILE_READ_DATA
    let source_access_mask_good = FILE_READ_DATA | FILE_WRITE_DATA;
    let source_access_mask_bad = FILE_WRITE_DATA; // Only write, no read

    assert_eq!(
        source_status(source_access_mask_good),
        None,
        "Source with FILE_READ_DATA should be allowed"
    );
    assert_eq!(
        source_status(source_access_mask_bad),
        Some(NtStatus::AccessDenied),
        "Source lacking FILE_READ_DATA should return ACCESS_DENIED"
    );
}

#[test]
fn test_copychunk_dest_access_write_data() {
    // Dest must have FILE_WRITE_DATA
    let dest_access_mask_good = FILE_READ_DATA | FILE_WRITE_DATA;
    let dest_access_mask_bad = FILE_READ_DATA; // Only read, no write

    assert_eq!(
        dest_status(dest_access_mask_good, false),
        None,
        "Dest with FILE_WRITE_DATA should be allowed"
    );
    assert_eq!(
        dest_status(dest_access_mask_bad, false),
        Some(NtStatus::AccessDenied),
        "Dest lacking FILE_WRITE_DATA should return ACCESS_DENIED"
    );
}

#[test]
fn test_copychunk_vs_copychunk_write_access() {
    let dest_write_only = FILE_WRITE_DATA;
    let dest_read_write = FILE_READ_DATA | FILE_WRITE_DATA;

    // FSCTL_SRV_COPYCHUNK requires both read and write on dest
    assert_eq!(
        dest_status(dest_write_only, false),
        Some(NtStatus::AccessDenied),
        "FSCTL_SRV_COPYCHUNK with dest lacking FILE_READ_DATA should return ACCESS_DENIED"
    );

    // FSCTL_SRV_COPYCHUNK_WRITE only requires write on dest
    assert_eq!(
        dest_status(dest_write_only, true),
        None,
        "FSCTL_SRV_COPYCHUNK_WRITE should allow dest with only FILE_WRITE_DATA"
    );

    // Both variants should allow read+write dest
    assert!(
        dest_status(dest_read_write, false).is_none()
            && dest_status(dest_read_write, true).is_none(),
        "Both variants should allow dest with FILE_READ_DATA and FILE_WRITE_DATA"
    );
}

#[test]
fn test_copychunk_parse_minimum_size() {
    // Minimum size is 32 bytes (24 source_key + 4 chunk_count + 4 reserved)
    let too_small = vec![0u8; 16];
    assert!(SrvCopychunkCopy::parse(&too_small).is_err());

    // Exactly 32 bytes with 0 chunks should work
    let mut valid = vec![0u8; 32];
    // Set chunk_count to 0 (bytes 24-27)
    valid[24..28].copy_from_slice(&0u32.to_le_bytes());
    assert!(SrvCopychunkCopy::parse(&valid).is_ok());
}

#[test]
fn test_copychunk_parse_missing_chunks() {
    // Header claims 2 chunks but no chunk data present
    let mut missing_chunks = vec![0u8; 32];
    missing_chunks[24..28].copy_from_slice(&2u32.to_le_bytes()); // chunk_count = 2

    assert!(
        SrvCopychunkCopy::parse(&missing_chunks).is_err(),
        "Parse should fail when chunk data is missing"
    );
}

#[test]
fn test_copychunk_source_access_execute() {
    // Source can have either FILE_READ_DATA or FILE_EXECUTE
    let source_with_read = FILE_READ_DATA;
    let source_with_execute = FILE_EXECUTE;
    let source_without_read_access = FILE_WRITE_DATA; // Only write, no read or execute

    assert_eq!(
        source_status(source_with_read),
        None,
        "Source with FILE_READ_DATA should be allowed"
    );
    assert_eq!(
        source_status(source_with_execute),
        None,
        "Source with FILE_EXECUTE should be allowed"
    );
    assert_eq!(
        source_status(source_without_read_access),
        Some(NtStatus::AccessDenied),
        "Source lacking both FILE_READ_DATA and FILE_EXECUTE should return ACCESS_DENIED"
    );
}

#[test]
fn test_copychunk_success_response_format() {
    // Successful copy of 3 chunks totaling 1000 bytes
    let chunks_written = 3u32;
    let total_bytes_written = 1000u32;

    let response = SrvCopychunkResponse {
        chunks_written,
        chunk_bytes_written: 0, // 0 indicates success
        total_bytes_written,
    };

    let buf = response.to_bytes();

    assert_eq!(buf.len(), 12, "Response must be 12 bytes");

    let response_chunks = u32::from_le_bytes(buf[0..4].try_into().unwrap());
    let response_chunk_bytes = u32::from_le_bytes(buf[4..8].try_into().unwrap());
    let response_total = u32::from_le_bytes(buf[8..12].try_into().unwrap());

    assert_eq!(response_chunks, 3, "chunks_written should be 3");
    assert_eq!(
        response_chunk_bytes, 0,
        "chunk_bytes_written MUST be 0 on success"
    );
    assert_eq!(response_total, 1000, "total_bytes_written should be 1000");
}

#[test]
fn test_copychunk_lock_conflict_detection() {
    // An exclusive lock of another handle on [100, 300)
    let lock_offset = 100u64;
    let lock_length = 200u64;
    let locks = [lock(9, lock_offset, lock_length, true)];

    // Case 1: Chunk completely before lock - no conflict
    let chunk1_offset = 0u64;
    let chunk1_length = 50u32;
    assert!(
        !check_lock_conflict(&locks, 4, chunk1_offset, chunk1_length),
        "Chunk before lock should not conflict"
    );

    // Case 2: Chunk completely after lock - no conflict
    let chunk2_offset = 400u64;
    let chunk2_length = 100u32;
    assert!(
        !check_lock_conflict(&locks, 4, chunk2_offset, chunk2_length),
        "Chunk after lock should not conflict"
    );

    // Case 3: Chunk overlaps with lock start - conflict
    let chunk3_offset = 50u64;
    let chunk3_length = 100u32;
    assert!(
        check_lock_conflict(&locks, 4, chunk3_offset, chunk3_length),
        "Chunk overlapping lock start should conflict"
    );

    // Case 4: Chunk inside lock - conflict
    let chunk4_offset = 150u64;
    let chunk4_length = 50u32;
    assert!(
        check_lock_conflict(&locks, 4, chunk4_offset, chunk4_length),
        "Chunk inside lock should conflict"
    );

    // Case 5: Chunk overlaps with lock end - conflict
    let chunk5_offset = 250u64;
    let chunk5_length = 100u32;
    assert!(
        check_lock_conflict(&locks, 4, chunk5_offset, chunk5_length),
        "Chunk overlapping lock end should conflict"
    );
}

#[test]
fn test_copychunk_parse_valid_chunks() {
    // Build valid COPYCHUNK request with 2 chunks
    let mut data = vec![0u8; 32 + 24 * 2]; // Header + 2 chunks (24 bytes each)

    // Source key (24 bytes) - can be zeros for parse test
    // Chunk count = 2 (bytes 24-27)
    data[24..28].copy_from_slice(&2u32.to_le_bytes());
    // Reserved = 0 (bytes 28-31)

    // Chunk 1: source_offset=0, target_offset=0, length=1000
    let chunk1_offset = 32;
    data[chunk1_offset..chunk1_offset + 8].copy_from_slice(&0u64.to_le_bytes()); // source_offset
    data[chunk1_offset + 8..chunk1_offset + 16].copy_from_slice(&0u64.to_le_bytes()); // target_offset
    data[chunk1_offset + 16..chunk1_offset + 20].copy_from_slice(&1000u32.to_le_bytes()); // length

    // Chunk 2: source_offset=1000, target_offset=2000, length=500
    let chunk2_offset = 32 + 24;
    data[chunk2_offset..chunk2_offset + 8].copy_from_slice(&1000u64.to_le_bytes()); // source_offset
    data[chunk2_offset + 8..chunk2_offset + 16].copy_from_slice(&2000u64.to_le_bytes()); // target_offset
    data[chunk2_offset + 16..chunk2_offset + 20].copy_from_slice(&500u32.to_le_bytes()); // length

    let result = SrvCopychunkCopy::parse(&data);
    assert!(result.is_ok(), "Parse should succeed for valid data");

    let copy_req = result.unwrap();
    assert_eq!(copy_req.chunk_count, 2, "Should have 2 chunks");
    assert_eq!(copy_req.chunks.len(), 2, "Should parse 2 chunks");

    assert_eq!(copy_req.chunks[0].source_offset, 0);
    assert_eq!(copy_req.chunks[0].target_offset, 0);
    assert_eq!(copy_req.chunks[0].length, 1000);

    assert_eq!(copy_req.chunks[1].source_offset, 1000);
    assert_eq!(copy_req.chunks[1].target_offset, 2000);
    assert_eq!(copy_req.chunks[1].length, 500);
}

#[test]
fn test_resume_key_session_validation() {
    // Build resume key from handle info
    let persistent_id: u128 = 0xABCDEF0123456789ABCDEF0123456789;
    let session_id: u64 = 0x1234567890ABCDEF;

    let resume_key = build_resume_key_output(persistent_id, session_id);

    // Request comes from same session - should succeed
    let request_session_id = 0x1234567890ABCDEFu64;
    assert_eq!(
        status(start(&resume_key, &[(0, 0, 10)], request_session_id, false)),
        None,
        "Same session ID should be allowed"
    );

    // Request comes from different session - should fail with OBJECT_NAME_NOT_FOUND
    let different_session_id = 0xDEADBEEFCAFEBABEu64;
    assert_eq!(
        status(start(&resume_key, &[(0, 0, 10)], different_session_id, false)),
        Some(NtStatus::ObjectNameNotFound),
        "Different session ID should return OBJECT_NAME_NOT_FOUND"
    );
}

#[test]
fn test_copychunk_response_dual_meaning() {
    // A request that exceeds the limits is told the limits
    let limits_response = SrvCopychunkResponse::with_limits(
        256,        // max chunks
        1_048_576,  // max chunk size (1MB)
        16_777_216, // max data size (16MB)
    );

    let buf = limits_response.to_bytes();

    let max_chunks = u32::from_le_bytes(buf[0..4].try_into().unwrap());
    let max_chunk_size = u32::from_le_bytes(buf[4..8].try_into().unwrap());
    let max_data = u32::from_le_bytes(buf[8..12].try_into().unwrap());

    assert_eq!(max_chunks, 256);
    assert_eq!(max_chunk_size, 1_048_576);
    assert_eq!(max_data, 16_777_216);

    // A request that succeeds is told what was written
    let success_response = SrvCopychunkResponse {
        chunks_written: 5,
        chunk_bytes_written: 0, // Must be 0 on success
        total_bytes_written: 5000,
    };

    let buf2 = success_response.to_bytes();

    let success_chunks = u32::from_le_bytes(buf2[0..4].try_into().unwrap());
    let success_chunk_bytes = u32::from_le_bytes(buf2[4..8].try_into().unwrap());
    let success_total = u32::from_le_bytes(buf2[8..12].try_into().unwrap());

    assert_eq!(success_chunks, 5);
    assert_eq!(success_chunk_bytes, 0, "Must be 0 on success");
    assert_eq!(success_total, 5000);
}

#[test]
fn a_copy_runs_chunk_by_chunk() {
    let chunks = [(0, 100, 3), (50, 200, 2)];
    let awaiting = both(&chunks).on_tree(tree()).unwrap();
    let mut run = match awaiting.on_locks(&[], &[], 1) {
        CopyLocks::Run(run) => run,
        CopyLocks::Conflict(_) => panic!("nothing is locked"),
    };
    let mut written = vec![];
    let response = loop {
        match run.step(1) {
            CopyStep::Read { run: reading, offset, length } => {
                let data = vec![offset as u8; length as usize];
                match reading.on_data(Ok(data)).unwrap() {
                    CopyStep::Write { run: writing, offset, data } => {
                        written.push((offset, data));
                        match writing.on_written(Ok(())).unwrap() {
                            CopyStep::Next(next) => run = next,
                            _ => panic!("the next chunk follows"),
                        }
                    }
                    _ => panic!("what was read is written"),
                }
            }
            CopyStep::Done(response) => break response,
            _ => panic!("each chunk is read first"),
        }
    };
    assert_eq!(written, vec![(100, vec![0, 0, 0]), (200, vec![50, 50])]);
    let output = &response[64 + 48..];
    assert_eq!(&output[0..4], &2u32.to_le_bytes());
    assert_eq!(&output[4..8], &0u32.to_le_bytes());
    assert_eq!(&output[8..12], &5u32.to_le_bytes());
}

#[test]
fn a_locked_chunk_is_not_copied() {
    let awaiting = both(&[(0, 100, 10)]).on_tree(tree()).unwrap();
    match awaiting.on_locks(&[lock(77, 5, 1, true)], &[], 1) {
        CopyLocks::Conflict(response) => {
            let header = Smb2Header::parse(&response).unwrap();
            assert_eq!(header.status, NtStatus::FileLockConflict.code());
        }
        CopyLocks::Run(_) => panic!("the source is locked"),
    }
    assert!(!check_lock_conflict(&[lock(4, 0, 10, true)], 4, 0, 10), "own locks do not count");
    assert!(!check_lock_conflict(&[lock(9, 0, 10, false)], 4, 0, 10), "shared locks do not count");
}

#[test]
fn a_missing_source_is_not_found() {
    let missing = source(&[(0, 0, 10)], false).on_source(Ok(None));
    assert_eq!(status(missing), Some(NtStatus::ObjectNameNotFound));
}

#[test]
fn a_resume_key_names_the_handle_and_the_session() {
    let body = ioctl_body(FSCTL_SRV_REQUEST_RESUME_KEY, 32, &[]);
    let connection = Connection::new(1, 65536, 65536, 65536);
    let (parsed, _) = handle_ioctl(&connection, &request(7), &body).unwrap();
    let awaiting = handle_request_resume_key(&request(7), &parsed).unwrap();
    assert_eq!(awaiting.handle_id, 9);
    let response = awaiting.on_handle(Ok(Some(handle(9, FILE_READ_DATA))), 1).unwrap();
    assert_eq!(&response[64 + 48..64 + 80], &build_resume_key_output(9, 7)[..]);
}

#[test]
fn unknown_control_codes_are_not_supported() {
    let body = ioctl_body(0x0009_0000, 32, &[]);
    let connection = Connection::new(1, 65536, 65536, 65536);
    assert_eq!(
        status(handle_ioctl(&connection, &request(7), &body)),
        Some(NtStatus::NotSupported)
    );
}

#[test]
fn a_short_source_is_counted_as_it_is() {
    let awaiting = both(&[(0, 100, 30), (50, 200, 20)]).on_tree(tree()).unwrap();
    let run = match awaiting.on_locks(&[], &[], 1) {
        CopyLocks::Run(run) => run,
        CopyLocks::Conflict(_) => panic!("nothing is locked"),
    };
    let run = match run.on_data(Ok(vec![1; 12])).unwrap() {
        CopyStep::Write { run, offset, data } => {
            assert_eq!((offset, data.len()), (100, 12));
            run
        }
        _ => panic!("what was read is written"),
    };
    let run = match run.on_data(Ok(vec![])).unwrap() {
        CopyStep::Next(run) => run,
        _ => panic!("nothing is written"),
    };
    match run.step(1) {
        CopyStep::Done(response) => {
            assert_eq!(&response[112..116], &2u32.to_le_bytes());
            assert_eq!(&response[120..124], &12u32.to_le_bytes());
        }
        _ => panic!("all chunks are done"),
    }
}
