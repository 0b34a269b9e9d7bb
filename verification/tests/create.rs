use rustsmb_server::error::HandlerError;
use rustsmb_server::handler::common::TreeReply;
use rustsmb_server::handler::create::{
    handle_create, has_share_conflict, wants_delete, wants_read, wants_write, CreateAwaitTree,
    CreateBreakStep, CreateOpen, CreateOpened, CreateOpenedStep, CreateStart, OplockInfo,
    SharingRun, SharingStep, DELETE, FILE_READ_DATA, FILE_SHARE_DELETE, FILE_SHARE_READ,
    FILE_SHARE_WRITE, FILE_WRITE_DATA, GENERIC_ALL, OPLOCK_BATCH,
};
use rustsmb_server::handler::create_context::{
    parse_create_contexts, CreateContext, CreateContextBuilder, DURABLE_FLAG_PERSISTENT,
};
use rustsmb_server::handler::create_grant::{
    gather_wishes, GrantOutcome, GrantStep, LeaseBreakResult, LeaseGrant, LeaseStart, OplockStart,
    OplockStep,
};
use rustsmb_server::handler::create_response::{
    compute_create_action, compute_response_allocation, compute_response_attributes, Disposition,
    FileTimes, FILE_CREATED, FILE_DELETE_ON_CLOSE, FILE_DIRECTORY_FILE, FILE_OPENED,
    FILE_OVERWRITTEN, FILE_SUPERSEDED,
};
use rustsmb_server::handler::lease_break::OplockLevel;
use rustsmb_server::helpers::time::{current_unix_time, filetime_to_unix};
use rustsmb_server::protocol::dialect::SmbDialect;
use rustsmb_server::protocol::header::{Smb2Command, Smb2Flags, Smb2Header};
use rustsmb_server::protocol::status::NtStatus;
use rustsmb_server::state::{HandleState, LeaseEntry, TreeState};
use rustsmb_server::storage::{
    FileType, Metadata, FILE_ATTRIBUTE_ARCHIVE, FILE_ATTRIBUTE_DIRECTORY, FILE_ATTRIBUTE_NORMAL,
    FILE_ATTRIBUTE_READONLY,
};

const FILE_ATTRIBUTE_HIDDEN: u32 = 0x02;

const TIMES: FileTimes = FileTimes {
    creation: 1,
    last_access: 2,
    last_write: 3,
    change: 4,
};

fn request() -> Smb2Header {
    Smb2Header {
        structure_size: 64,
        credit_charge: 1,
        status: 0,
        command: Smb2Command::Create,
        credits: 1,
        flags: Smb2Flags(0),
        next_command: 0,
        message_id: 8,
        async_id: 0,
        tree_id: 3,
        session_id: 7,
        signature: [0; 16],
    }
}

struct Body {
    oplock: u8,
    access: u32,
    attributes: u32,
    share: u32,
    disposition: u32,
    options: u32,
    name: &'static str,
    contexts: Vec<(&'static [u8; 4], Vec<u8>)>,
}

fn plain(name: &'static str) -> Body {
    Body {
        oplock: 0,
        access: FILE_READ_DATA,
        attributes: 0,
        share: FILE_SHARE_READ,
        disposition: Disposition::OPEN_IF,
        options: 0,
        name,
        contexts: vec![],
    }
}

fn context_bytes(contexts: &[(&'static [u8; 4], Vec<u8>)]) -> Vec<u8> {
    let mut all = Vec::new();
    for (i, (name, data)) in contexts.iter().enumerate() {
        let mut one = Vec::new();
        one.extend_from_slice(&[0; 4]);
        one.extend_from_slice(&16u16.to_le_bytes());
        one.extend_from_slice(&4u16.to_le_bytes());
        one.extend_from_slice(&0u16.to_le_bytes());
        one.extend_from_slice(&24u16.to_le_bytes());
        one.extend_from_slice(&(data.len() as u32).to_le_bytes());
        one.extend_from_slice(*name);
        one.extend_from_slice(&[0; 4]);
        one.extend_from_slice(data);
        if i + 1 < contexts.len() {
            while one.len() % 8 != 0 {
                one.push(0);
            }
            let next = one.len() as u32;
            one[0..4].copy_from_slice(&next.to_le_bytes());
        }
        all.extend_from_slice(&one);
    }
    all
}

fn encode(body: &Body) -> Vec<u8> {
    let name: Vec<u8> = body.name.encode_utf16().flat_map(|u| u.to_le_bytes()).collect();
    let contexts = context_bytes(&body.contexts);
    let mut bytes = Vec::new();
    bytes.extend_from_slice(&57u16.to_le_bytes());
    bytes.push(0);
    bytes.push(body.oplock);
    bytes.extend_from_slice(&[0; 20]);
    bytes.extend_from_slice(&body.access.to_le_bytes());
    bytes.extend_from_slice(&body.attributes.to_le_bytes());
    bytes.extend_from_slice(&body.share.to_le_bytes());
    bytes.extend_from_slice(&body.disposition.to_le_bytes());
    bytes.extend_from_slice(&body.options.to_le_bytes());
    bytes.extend_from_slice(&120u16.to_le_bytes());
    bytes.extend_from_slice(&(name.len() as u16).to_le_bytes());
    let mut gap = 0;
    while (name.len() + gap) % 8 != 0 {
        gap += 1;
    }
    let offset = if contexts.is_empty() { 0 } else { 120 + name.len() + gap };
    bytes.extend_from_slice(&(offset as u32).to_le_bytes());
    bytes.extend_from_slice(&(contexts.len() as u32).to_le_bytes());
    bytes.extend_from_slice(&name);
    bytes.extend_from_slice(&vec![0; gap]);
    bytes.extend_from_slice(&contexts);
    bytes
}

fn begin(body: &Body) -> CreateAwaitTree {
    match handle_create(&request(), &encode(body)).unwrap() {
        CreateStart::Open(a) => a,
        CreateStart::Reconnect(_) => panic!("a new handle is asked for"),
    }
}

fn tree() -> TreeReply {
    TreeReply {
        tree: Ok(Some(TreeState {
            tree_id: 3,
            session_id: 7,
            share_name: "docs".to_string(),
            share_path: "/srv".to_string(),
            access_flags: 0,
            is_dfs: false,
            created_at: 0,
        })),
        share_found: true,
    }
}

fn holder(id: u128, access: u32, share: u32) -> HandleState {
    HandleState {
        persistent_id: id,
        volatile_id: id,
        session_id: 9,
        tree_id: 1,
        access_mask: access,
        share_access: share,
        ..Default::default()
    }
}

/// Brings a request to the sharing check, with no oplocks in the way.
fn sharing(body: &Body, handles: Vec<HandleState>) -> SharingRun {
    let awaiting = begin(body).on_tree(tree()).unwrap();
    match awaiting.on_handles(Ok(handles), &vec![]).unwrap().step() {
        CreateBreakStep::Check(run) => run,
        _ => panic!("nothing is to be broken"),
    }
}

fn open(run: SharingRun) -> Result<CreateOpen, HandlerError> {
    let mut run = run;
    loop {
        match run.step()? {
            SharingStep::Open(open) => return Ok(open),
            SharingStep::Next(next) => run = next,
            SharingStep::Lease { run: waiting, .. } => match waiting.on_lease(None)? {
                SharingStep::Open(open) => return Ok(open),
                SharingStep::Next(next) => run = next,
                SharingStep::Discard { run: next, .. } => run = next,
                SharingStep::Lease { .. } => panic!("the lease was looked up"),
            },
            SharingStep::Discard { run: next, .. } => run = next,
        }
    }
}

fn opened(body: &Body, existed: bool) -> CreateOpened {
    let open = open(sharing(body, vec![])).unwrap();
    match open.on_opened(existed, Ok(Some(55)), false).unwrap() {
        CreateOpenedStep::NextId(opened) => opened,
        CreateOpenedStep::Readonly(step) => {
            let chmod = step.on_metadata(Ok(Metadata::default())).unwrap();
            chmod.on_chmod(Ok(())).unwrap()
        }
    }
}

fn refused<T>(result: Result<T, HandlerError>) -> NtStatus {
    match result {
        Err(HandlerError::Status(status)) => status,
        _ => panic!("a status is expected"),
    }
}

#[test]
fn test_create_action_supersede_existing_file() {
    let action = compute_create_action(Disposition::SUPERSEDE, true);
    assert_eq!(action, 0, "SUPERSEDE on existing file gives FILE_SUPERSEDED (0)");
}

#[test]
fn test_create_action_supersede_new_file() {
    let action = compute_create_action(Disposition::SUPERSEDE, false);
    assert_eq!(action, 2, "SUPERSEDE on new file gives FILE_CREATED (2)");
}

#[test]
fn test_create_action_open() {
    let action = compute_create_action(Disposition::OPEN, true);
    assert_eq!(action, 1, "OPEN gives FILE_OPENED (1)");
}

#[test]
fn test_create_action_create() {
    let action = compute_create_action(Disposition::CREATE, false);
    assert_eq!(action, 2, "CREATE gives FILE_CREATED (2)");
}

#[test]
fn test_create_action_open_if_existing() {
    let action = compute_create_action(Disposition::OPEN_IF, true);
    assert_eq!(action, 1, "OPEN_IF on existing file gives FILE_OPENED (1)");
}

#[test]
fn test_create_action_open_if_new() {
    let action = compute_create_action(Disposition::OPEN_IF, false);
    assert_eq!(action, 2, "OPEN_IF on new file gives FILE_CREATED (2)");
}

#[test]
fn test_create_action_overwrite() {
    let action = compute_create_action(Disposition::OVERWRITE, true);
    assert_eq!(action, 3, "OVERWRITE gives FILE_OVERWRITTEN (3)");
}

#[test]
fn test_create_action_overwrite_if_existing() {
    let action = compute_create_action(Disposition::OVERWRITE_IF, true);
    assert_eq!(action, 3, "OVERWRITE_IF on existing file gives FILE_OVERWRITTEN (3)");
}

#[test]
fn test_create_action_overwrite_if_new() {
    let action = compute_create_action(Disposition::OVERWRITE_IF, false);
    assert_eq!(action, 2, "OVERWRITE_IF on new file gives FILE_CREATED (2)");
}

/// The attributes in the response to a CREATE that made a file.
fn compute_created_file_attributes(requested_attrs: u32, is_directory: bool) -> u32 {
    let options = if is_directory { FILE_DIRECTORY_FILE } else { 0 };
    compute_response_attributes(FILE_CREATED, requested_attrs, options, &None)
}

#[test]
fn test_file_attributes_new_file_default() {
    // When no attributes requested, return just ARCHIVE
    let attrs = compute_created_file_attributes(0, false);
    assert_eq!(
        attrs, FILE_ATTRIBUTE_ARCHIVE,
        "New file with no requested attrs gives FILE_ATTRIBUTE_ARCHIVE (0x20)"
    );
}

#[test]
fn test_file_attributes_new_file_with_normal() {
    // When client requests NORMAL, we should return ARCHIVE instead
    let attrs = compute_created_file_attributes(FILE_ATTRIBUTE_NORMAL, false);
    assert_eq!(
        attrs, FILE_ATTRIBUTE_ARCHIVE,
        "NORMAL alone should become ARCHIVE for new files"
    );
}

#[test]
fn test_file_attributes_strips_normal_when_combined() {
    // If client sends NORMAL | HIDDEN, we strip NORMAL and add ARCHIVE
    let requested = FILE_ATTRIBUTE_NORMAL | FILE_ATTRIBUTE_HIDDEN;
    let attrs = compute_created_file_attributes(requested, false);
    assert_eq!(
        attrs,
        FILE_ATTRIBUTE_HIDDEN | FILE_ATTRIBUTE_ARCHIVE,
        "NORMAL must be stripped when combined with other attrs"
    );
    assert_eq!(
        attrs & FILE_ATTRIBUTE_NORMAL,
        0,
        "NORMAL attribute should not be present"
    );
}

#[test]
fn test_file_attributes_preserves_requested() {
    // Requested attributes (except NORMAL) should be preserved, with ARCHIVE added
    let requested = FILE_ATTRIBUTE_READONLY | FILE_ATTRIBUTE_HIDDEN;
    let attrs = compute_created_file_attributes(requested, false);
    assert_eq!(
        attrs,
        FILE_ATTRIBUTE_READONLY | FILE_ATTRIBUTE_HIDDEN | FILE_ATTRIBUTE_ARCHIVE,
        "Requested attrs preserved with ARCHIVE added"
    );
}

#[test]
fn test_file_attributes_archive_always_set_for_new_files() {
    // ARCHIVE should always be set for newly created files
    let attrs1 = compute_created_file_attributes(0, false);
    let attrs2 = compute_created_file_attributes(FILE_ATTRIBUTE_READONLY, false);
    let attrs3 = compute_created_file_attributes(FILE_ATTRIBUTE_NORMAL, false);

    assert!(
        (attrs1 & FILE_ATTRIBUTE_ARCHIVE) != 0,
        "ARCHIVE must be set for new file (no attrs)"
    );
    assert!(
        (attrs2 & FILE_ATTRIBUTE_ARCHIVE) != 0,
        "ARCHIVE must be set for new file (READONLY)"
    );
    assert!(
        (attrs3 & FILE_ATTRIBUTE_ARCHIVE) != 0,
        "ARCHIVE must be set for new file (NORMAL)"
    );
}

#[test]
fn test_file_attributes_directory_no_archive() {
    let attrs = compute_created_file_attributes(0, true);
    assert_eq!(
        attrs, FILE_ATTRIBUTE_DIRECTORY,
        "Directories should not force ARCHIVE"
    );
}

#[test]
fn test_oplock_level_values() {
    assert_eq!(OplockLevel::NoOplock.as_u8(), 0x00, "OPLOCK_LEVEL_NONE = 0x00");
    assert_eq!(OplockLevel::LevelII.as_u8(), 0x01, "OPLOCK_LEVEL_II = 0x01");
    assert_eq!(OplockLevel::Exclusive.as_u8(), 0x08, "OPLOCK_LEVEL_EXCLUSIVE = 0x08");
    assert_eq!(OplockLevel::Batch.as_u8(), 0x09, "OPLOCK_LEVEL_BATCH = 0x09");
    assert_eq!(OplockLevel::Lease.as_u8(), 0xFF, "OPLOCK_LEVEL_LEASE = 0xFF");
}

#[test]
fn test_oplock_level_from_u8() {
    // Verify round-trip conversion
    assert_eq!(OplockLevel::from_u8(0x00), OplockLevel::NoOplock);
    assert_eq!(OplockLevel::from_u8(0x01), OplockLevel::LevelII);
    assert_eq!(OplockLevel::from_u8(0x08), OplockLevel::Exclusive);
    assert_eq!(OplockLevel::from_u8(0x09), OplockLevel::Batch);
    assert_eq!(OplockLevel::from_u8(0xFF), OplockLevel::Lease);
}

#[test]
fn test_create_action_constants() {
    assert_eq!(FILE_SUPERSEDED, 0, "FILE_SUPERSEDED = 0x00000000");
    assert_eq!(FILE_OPENED, 1, "FILE_OPENED = 0x00000001");
    assert_eq!(FILE_CREATED, 2, "FILE_CREATED = 0x00000002");
    assert_eq!(FILE_OVERWRITTEN, 3, "FILE_OVERWRITTEN = 0x00000003");
}

#[test]
fn test_disposition_constants() {
    assert_eq!(Disposition::SUPERSEDE, 0, "FILE_SUPERSEDE = 0");
    assert_eq!(Disposition::OPEN, 1, "FILE_OPEN = 1");
    assert_eq!(Disposition::CREATE, 2, "FILE_CREATE = 2");
    assert_eq!(Disposition::OPEN_IF, 3, "FILE_OPEN_IF = 3");
    assert_eq!(Disposition::OVERWRITE, 4, "FILE_OVERWRITE = 4");
    assert_eq!(Disposition::OVERWRITE_IF, 5, "FILE_OVERWRITE_IF = 5");
}

/// Whether a durable handle is granted to a request with this oplock level.
fn supports_durable(level: u8) -> bool {
    let contexts = vec![CreateContext::DurableHandleRequest];
    gather_wishes(&contexts, OplockLevel::from_u8(level), Some(SmbDialect::Smb302)).is_durable
}

#[test]
fn test_durable_handle_oplock_requirement() {
    assert_eq!(OplockLevel::NoOplock.as_u8(), 0x00, "OPLOCK_NONE = 0x00");
    assert_eq!(OplockLevel::LevelII.as_u8(), 0x01, "OPLOCK_LEVEL_II = 0x01");
    assert_eq!(OplockLevel::Exclusive.as_u8(), 0x08, "OPLOCK_EXCLUSIVE = 0x08");
    assert_eq!(OplockLevel::Batch.as_u8(), 0x09, "OPLOCK_BATCH = 0x09");

    // Only Batch oplock allows durable handles
    assert!(
        supports_durable(OplockLevel::Batch.as_u8()),
        "Batch oplock should support durable handles"
    );
    assert!(
        !supports_durable(OplockLevel::NoOplock.as_u8()),
        "OPLOCK_NONE should not get durable handle"
    );
    assert!(
        !supports_durable(OplockLevel::LevelII.as_u8()),
        "OPLOCK_LEVEL_II should not get durable handle"
    );
    assert!(
        !supports_durable(OplockLevel::Exclusive.as_u8()),
        "OPLOCK_EXCLUSIVE should not get durable handle (needs Batch or lease)"
    );
}

/// Whether a durable handle is granted beside a lease of this state.
fn lease_supports_durable(lease_state: u32) -> bool {
    let contexts = vec![
        CreateContext::DurableHandleRequest,
        CreateContext::LeaseRequest { lease_key: [1; 16], lease_state },
    ];
    gather_wishes(&contexts, OplockLevel::Lease, Some(SmbDialect::Smb302)).is_durable
}

#[test]
fn test_durable_handle_lease_requirement() {
    const LEASE_READ: u32 = 0x01;
    const LEASE_HANDLE: u32 = 0x02;
    const LEASE_WRITE: u32 = 0x04;

    // Lease state with HANDLE caching allows durable handle
    let lease_rh = LEASE_READ | LEASE_HANDLE;
    let lease_rwh = LEASE_READ | LEASE_WRITE | LEASE_HANDLE;

    assert!(
        lease_supports_durable(lease_rh),
        "R+H lease should support durable handles"
    );
    assert!(
        lease_supports_durable(lease_rwh),
        "RWH lease should support durable handles"
    );

    // Lease without HANDLE caching does NOT allow durable handle
    let lease_r = LEASE_READ;
    let lease_rw = LEASE_READ | LEASE_WRITE;

    assert!(
        !lease_supports_durable(lease_r),
        "R-only lease should NOT support durable handles"
    );
    assert!(
        !lease_supports_durable(lease_rw),
        "RW lease should NOT support durable handles"
    );
}

#[test]
fn test_durable_handle_context_names() {
    // V1 contexts (8 bytes, padded with nulls)
    let dhnq_name: &[u8; 8] = b"DHnQ\0\0\0\0";
    let dhnc_name: &[u8; 8] = b"DHnC\0\0\0\0";

    // V2 contexts (8 bytes, padded with nulls)
    let dh2q_name: &[u8; 8] = b"DH2Q\0\0\0\0";
    let dh2c_name: &[u8; 8] = b"DH2C\0\0\0\0";

    assert_eq!(&dhnq_name[0..4], b"DHnQ", "DHnQ context name");
    assert_eq!(&dhnc_name[0..4], b"DHnC", "DHnC context name");
    assert_eq!(&dh2q_name[0..4], b"DH2Q", "DH2Q context name");
    assert_eq!(&dh2c_name[0..4], b"DH2C", "DH2C context name");

    // The names are known to the parser.
    let contexts = parse_create_contexts(&context_bytes(&[
        (b"DHnQ", vec![0; 16]),
        (b"DHnC", vec![0; 16]),
        (b"DH2Q", vec![0; 32]),
        (b"DH2C", vec![0; 36]),
    ]))
    .unwrap();
    assert!(matches!(contexts[0], CreateContext::DurableHandleRequest));
    assert!(matches!(contexts[1], CreateContext::DurableHandleReconnect { .. }));
    assert!(matches!(contexts[2], CreateContext::DurableHandleRequestV2 { .. }));
    assert!(matches!(contexts[3], CreateContext::DurableHandleReconnectV2 { .. }));
}

#[test]
fn test_dh2q_flags_persistent() {
    assert_eq!(
        DURABLE_FLAG_PERSISTENT, 0x00000002,
        "SMB2_DHANDLE_FLAG_PERSISTENT = 0x00000002"
    );
}

#[test]
fn test_file_delete_on_close_flag() {
    assert_eq!(
        FILE_DELETE_ON_CLOSE, 0x00001000,
        "FILE_DELETE_ON_CLOSE = 0x00001000"
    );

    // Verify the flag is in the expected position (bit 12)
    assert_eq!(
        FILE_DELETE_ON_CLOSE,
        1 << 12,
        "FILE_DELETE_ON_CLOSE is bit 12"
    );
}

#[test]
fn persistent_handles_need_a_dialect_that_knows_them() {
    let contexts = vec![CreateContext::DurableHandleRequestV2 {
        timeout: 5000,
        flags: DURABLE_FLAG_PERSISTENT,
        guid: [6; 16],
    }];
    let wishes = gather_wishes(&contexts, OplockLevel::Batch, Some(SmbDialect::Smb210));
    assert!(wishes.is_durable && !wishes.is_persistent);
    let wishes = gather_wishes(&contexts, OplockLevel::Batch, Some(SmbDialect::Smb300));
    assert!(wishes.is_durable && wishes.is_persistent);
    assert_eq!(wishes.durable_timeout, 5000);
    assert_eq!(wishes.create_guid, Some([6; 16]));
}

#[test]
fn attributes_of_an_opened_file_come_from_the_backend() {
    let metadata = Metadata {
        file_type: FileType::Regular,
        mode: 0o444,
        size: 100,
        ..Default::default()
    };
    let attrs = compute_response_attributes(FILE_OPENED, 0, 0, &Some(metadata));
    assert_eq!(attrs & FILE_ATTRIBUTE_READONLY, FILE_ATTRIBUTE_READONLY);
    assert_eq!(attrs & FILE_ATTRIBUTE_ARCHIVE, FILE_ATTRIBUTE_ARCHIVE);
}

#[test]
fn allocation_is_at_least_the_file() {
    let metadata = Metadata { size: 5000, blocks: 2, ..Default::default() };
    let room = compute_response_allocation(FILE_ATTRIBUTE_ARCHIVE, 0, &Some(metadata));
    assert!(room >= 5000);
    let wanted = compute_response_allocation(FILE_ATTRIBUTE_ARCHIVE, 100_000, &None);
    assert!(wanted >= 100_000);
}

#[test]
fn access_rights_are_recognised() {
    assert!(wants_read(FILE_READ_DATA) && wants_read(GENERIC_ALL));
    assert!(wants_write(FILE_WRITE_DATA) && !wants_write(FILE_READ_DATA));
    assert!(wants_delete(DELETE) && !wants_delete(FILE_WRITE_DATA));
}

#[test]
fn sharing_is_checked_both_ways() {
    let all = FILE_SHARE_READ | FILE_SHARE_WRITE | FILE_SHARE_DELETE;
    for (share1, access1, share2, access2) in [
        (0, FILE_READ_DATA, all, FILE_READ_DATA),
        (FILE_SHARE_READ, FILE_READ_DATA, all, FILE_WRITE_DATA),
        (all, GENERIC_ALL, all, GENERIC_ALL),
        (FILE_SHARE_READ, DELETE, FILE_SHARE_READ, FILE_READ_DATA),
    ] {
        assert_eq!(
            has_share_conflict(share1, access1, share2, access2),
            has_share_conflict(share2, access2, share1, access1)
        );
    }
    assert!(!has_share_conflict(all, GENERIC_ALL, all, GENERIC_ALL));
    assert!(has_share_conflict(0, FILE_READ_DATA, all, FILE_READ_DATA));
}

#[test]
fn a_conflicting_open_is_a_sharing_violation() {
    let run = sharing(&plain("a.txt"), vec![holder(1, FILE_WRITE_DATA, 0)]);
    assert_eq!(refused(open(run)), NtStatus::SharingViolation);
    let shared = sharing(&plain("a.txt"), vec![holder(1, FILE_READ_DATA, FILE_SHARE_READ)]);
    assert!(open(shared).is_ok());
}

#[test]
fn a_batch_oplock_is_broken_before_the_sharing_check() {
    let awaiting = begin(&plain("a.txt")).on_tree(tree()).unwrap();
    let mut held = holder(11, FILE_READ_DATA, FILE_SHARE_READ);
    held.oplock_level = OPLOCK_BATCH;
    let oplocks = vec![OplockInfo {
        handle_id: 11,
        level: OPLOCK_BATCH,
        server_id: "s".to_string(),
        session_id: 9,
    }];
    let run = awaiting.on_handles(Ok(vec![held.clone()]), &oplocks).unwrap();
    let run = match run.step() {
        CreateBreakStep::Break { run, handle_id, .. } => {
            assert_eq!(handle_id, 11);
            run
        }
        _ => panic!("the batch oplock is broken first"),
    };
    let (run, registered) = run.on_break(true);
    assert_eq!(registered.unwrap().0, 11);
    let run = match run.step() {
        CreateBreakStep::Refetch(again) => again.on_handles(Ok(vec![held])).unwrap(),
        _ => panic!("the handles are fetched again"),
    };
    assert!(open(run).is_ok());
}

#[test]
fn missing_tree_or_share_is_refused() {
    let mut reply = tree();
    reply.share_found = false;
    assert_eq!(refused(begin(&plain("a")).on_tree(reply)), NtStatus::BadNetworkName);
    let reply = TreeReply { tree: Err("down".to_string()), share_found: true };
    assert!(matches!(begin(&plain("a")).on_tree(reply), Err(HandlerError::Internal(_))));
}

#[test]
fn short_create_body_is_malformed() {
    assert!(matches!(
        handle_create(&request(), &[57, 0, 0]),
        Err(HandlerError::Protocol(_))
    ));
}

#[test]
fn a_reconnect_context_leads_to_the_old_handle() {
    let mut data = 0x77u64.to_le_bytes().to_vec();
    data.extend_from_slice(&[0; 8]);
    let mut body = plain("a.txt");
    body.contexts = vec![(b"DHnC", data)];
    match handle_create(&request(), &encode(&body)).unwrap() {
        CreateStart::Reconnect(a) => {
            assert_eq!(a.handle_id, 0x77);
            assert_eq!(a.filename, "a.txt");
        }
        CreateStart::Open(_) => panic!("the client comes back"),
    }
}

#[test]
fn an_open_gets_a_handle_and_a_response() {
    let mut body = plain("dir\\a.txt");
    body.options = FILE_DELETE_ON_CLOSE;
    let file = opened(&body, false);
    assert_eq!(file.action, FILE_CREATED);
    let pending = file
        .on_handle_id_at(Ok(0x1234), Some(SmbDialect::Smb302), [1; 16], 100, 100_000)
        .unwrap();
    assert!(pending.handle.delete_on_close);
    assert_eq!(pending.handle.session_id, 7);
    assert_eq!(pending.handle.share_name, "docs");
    assert!(!pending.handle.is_durable && pending.handle.create_guid.is_none());
    let pending = match pending.ask_lease_at([2; 16], "s".to_string(), 100) {
        LeaseStart::NoLease(pending) => pending,
        LeaseStart::Ask(_) => panic!("no lease was asked for"),
    };
    let store = match pending.ask_oplock() {
        OplockStart::Store(store) => store,
        OplockStart::Look(_) => panic!("no oplock was asked for"),
    };
    let stored = store.on_stored(Ok(())).unwrap();
    assert!(stored.register.is_none());
    let response = stored.on_metadata_at(Some(Metadata::default()), TIMES, 1);
    let header = Smb2Header::parse(&response).unwrap();
    assert_eq!(header.status, 0);
    let body = &response[64..];
    assert_eq!(&body[4..8], &FILE_CREATED.to_le_bytes());
    assert_eq!(&body[8..16], &1u64.to_le_bytes());
    assert_eq!(&body[64..72], &0x1234u64.to_le_bytes());
}

#[test]
fn a_durable_open_gets_a_guid_and_a_deadline() {
    let mut body = plain("a.txt");
    body.oplock = OPLOCK_BATCH;
    body.contexts = vec![(b"DHnQ", vec![0; 16])];
    let pending = opened(&body, true)
        .on_handle_id_at(Ok(5), Some(SmbDialect::Smb210), [8; 16], 100, 100_000)
        .unwrap();
    assert!(pending.handle.is_durable);
    assert_eq!(pending.handle.create_guid, Some([8; 16]));
    assert_eq!(pending.handle.reconnect_deadline, Some(160_000));
    let pending = match pending.ask_lease_at([2; 16], "s".to_string(), 100) {
        LeaseStart::NoLease(pending) => pending,
        LeaseStart::Ask(_) => panic!("no lease was asked for"),
    };
    let look = match pending.ask_oplock() {
        OplockStart::Look(look) => look,
        OplockStart::Store(_) => panic!("others may hold an oplock"),
    };
    let run = look.on_oplocks(&vec![], &"s".to_string());
    let store = match run.step() {
        OplockStep::Remaining(run) => run.on_remaining(&vec![]),
        OplockStep::Break { .. } => panic!("nobody holds an oplock"),
    };
    let stored = store.on_stored(Ok(())).unwrap();
    let registration = stored.register.as_ref().unwrap();
    assert_eq!((registration.handle_id, registration.level), (5, OPLOCK_BATCH));
    let response = stored.on_metadata_at(None, TIMES, 1);
    assert_eq!(response[64 + 2], OPLOCK_BATCH);
    let contexts = parse_create_contexts(&response[64 + 88..]);
    assert!(contexts.is_some());
}

#[test]
fn an_exclusive_oplock_is_alone() {
    let mut body = plain("a.txt");
    body.oplock = OPLOCK_BATCH;
    let pending = opened(&body, true)
        .on_handle_id_at(Ok(5), Some(SmbDialect::Smb210), [8; 16], 100, 100_000)
        .unwrap();
    let pending = match pending.ask_lease_at([2; 16], "s".to_string(), 100) {
        LeaseStart::NoLease(pending) => pending,
        LeaseStart::Ask(_) => panic!("no lease was asked for"),
    };
    let look = match pending.ask_oplock() {
        OplockStart::Look(look) => look,
        OplockStart::Store(_) => panic!("others may hold an oplock"),
    };
    let others = vec![OplockInfo {
        handle_id: 12,
        level: 1,
        server_id: "s".to_string(),
        session_id: 9,
    }];
    let mut run = look.on_oplocks(&others, &"s".to_string());
    let store = loop {
        match run.step() {
            OplockStep::Break { run: waiting, .. } => run = waiting.on_break(true).0,
            OplockStep::Remaining(run) => break run.on_remaining(&others),
        }
    };
    assert_ne!(store.open.handle.oplock_level, OPLOCK_BATCH);
}

fn lease_body() -> Body {
    let mut data = vec![4u8; 16];
    data.extend_from_slice(&3u32.to_le_bytes());
    data.extend_from_slice(&[0; 12]);
    let mut body = plain("a.txt");
    body.oplock = 0xFF;
    body.contexts = vec![(b"RqLs", data)];
    body
}

fn foreign_lease(state: u32) -> LeaseEntry {
    LeaseEntry::new(
        "other".to_string(),
        [5; 16],
        9,
        "s".to_string(),
        "a.txt".to_string(),
        state,
        false,
        1,
    )
}

#[test]
fn a_lease_is_granted_after_the_others_gave_way() {
    let pending = opened(&lease_body(), true)
        .on_handle_id_at(Ok(5), Some(SmbDialect::Smb300), [8; 16], 100, 100_000)
        .unwrap();
    let ask = match pending.ask_lease_at([2; 16], "s".to_string(), 100) {
        LeaseStart::Ask(ask) => ask,
        LeaseStart::NoLease(_) => panic!("a lease was asked for"),
    };
    assert_eq!(ask.lease.lease_key, "04040404040404040404040404040404");
    assert_eq!(ask.lease.lease_state, 3);
    let grant = LeaseGrant { granted_state: 3, conflicts: vec![foreign_lease(3)] };
    let mut run = match ask.on_grant(Some(grant)) {
        GrantOutcome::Granted(run) => run,
        GrantOutcome::Without(_) => panic!("the lease is granted"),
    };
    let mut broken = vec![];
    let registration = loop {
        match run.step() {
            GrantStep::Break { run: waiting, lease_key, break_to, .. } => {
                assert!(break_to < 3);
                broken.push(lease_key);
                run = waiting.on_break(Some(LeaseBreakResult::Acknowledged(break_to))).0;
            }
            GrantStep::Next(next) => run = next,
            GrantStep::Recheck(next) => {
                break next.on_leases(Some(vec![foreign_lease(0)]));
            }
            GrantStep::Register(registration) => break registration,
        }
    };
    assert_eq!(broken, vec!["other".to_string()]);
    assert_eq!(registration.lease_key, "04040404040404040404040404040404");
    assert_eq!(registration.open.handle.lease_key, Some([4; 16]));
}

#[test]
fn without_a_grant_there_is_no_lease() {
    let pending = opened(&lease_body(), true)
        .on_handle_id_at(Ok(5), Some(SmbDialect::Smb300), [8; 16], 100, 100_000)
        .unwrap();
    let ask = match pending.ask_lease_at([2; 16], "s".to_string(), 100) {
        LeaseStart::Ask(ask) => ask,
        LeaseStart::NoLease(_) => panic!("a lease was asked for"),
    };
    match ask.on_grant(None) {
        GrantOutcome::Without(pending) => assert_eq!(pending.granted_lease_state, 0),
        GrantOutcome::Granted(_) => panic!("nothing was granted"),
    }
}

#[test]
fn response_contexts_can_be_read_back() {
    let mut builder = CreateContextBuilder::new();
    builder.add_lease_response(&[4; 16], 3, 0);
    builder.add_maximal_access_response(0, 0x1F01FF);
    let bytes = builder.build();
    let contexts = parse_create_contexts(&bytes).unwrap();
    assert_eq!(contexts.len(), 2);
    match contexts[0] {
        CreateContext::LeaseRequest { lease_key, lease_state } => {
            assert_eq!(lease_key, [4; 16]);
            assert_eq!(lease_state, 3);
        }
        _ => panic!("a lease is expected"),
    }
    assert!(matches!(contexts[1], CreateContext::QueryMaximalAccess));
    assert_eq!(CreateContextBuilder::new().build(), Vec::<u8>::new());
}

#[test]
fn context_chain_must_stay_inside_the_data() {
    let mut bytes = context_bytes(&[(b"DHnQ", vec![0; 16]), (b"MxAc", vec![])]);
    assert!(parse_create_contexts(&bytes).is_some());
    bytes[0..4].copy_from_slice(&1000u32.to_le_bytes());
    assert!(parse_create_contexts(&bytes).is_none());
}

#[test]
fn a_new_read_only_file_is_made_read_only_in_the_backend() {
    let mut body = plain("a.txt");
    body.attributes = FILE_ATTRIBUTE_READONLY;
    let open = open(sharing(&body, vec![])).unwrap();
    assert_eq!(open.params().file_attributes, FILE_ATTRIBUTE_READONLY);
    let step = match open.on_opened(false, Ok(None), false).unwrap() {
        CreateOpenedStep::Readonly(step) => step,
        CreateOpenedStep::NextId(_) => panic!("the attribute is applied"),
    };
    let chmod = step.on_metadata(Ok(Metadata::default())).unwrap();
    assert_eq!(chmod.mode, 0o444);
    assert!(matches!(chmod.on_chmod(Err("ro".to_string())), Err(HandlerError::Vfs(_))));
}

#[test]
fn an_open_reads_the_clock() {
    let before = current_unix_time();
    let mut body = plain("a.txt");
    body.oplock = OPLOCK_BATCH;
    body.contexts = vec![(b"DHnQ", vec![0; 16])];
    let first = opened(&body, true).on_handle_id(Ok(5), Some(SmbDialect::Smb210)).unwrap();
    let second = opened(&body, true).on_handle_id(Ok(6), Some(SmbDialect::Smb210)).unwrap();
    let after = current_unix_time();
    assert!(first.handle.create_guid.is_some());
    assert_ne!(first.handle.create_guid, second.handle.create_guid);
    assert!(before <= first.handle.created_at && first.handle.created_at <= after);
    let deadline = first.handle.reconnect_deadline.unwrap();
    assert!(before * 1000 + 60_000 <= deadline && deadline < (after + 1) * 1000 + 60_000);
    let pending = match first.ask_lease([2; 16], "s".to_string()) {
        LeaseStart::NoLease(pending) => pending,
        LeaseStart::Ask(_) => panic!("no lease was asked for"),
    };
    let look = match pending.ask_oplock() {
        OplockStart::Look(look) => look,
        OplockStart::Store(_) => panic!("others may hold an oplock"),
    };
    let store = match look.on_oplocks(&vec![], &"s".to_string()).step() {
        OplockStep::Remaining(run) => run.on_remaining(&vec![]),
        OplockStep::Break { .. } => panic!("nobody holds an oplock"),
    };
    let response = store.on_stored(Ok(())).unwrap().on_metadata(None, 1);
    for offset in [72, 80, 88, 96] {
        let time = u64::from_le_bytes(response[offset..offset + 8].try_into().unwrap());
        assert!(before <= filetime_to_unix(time) && filetime_to_unix(time) <= current_unix_time());
    }
}

#[test]
fn a_handle_that_gives_way_is_no_longer_on_the_file() {
    let away = HandleState {
        persistent_id: 4,
        oplock_level: OPLOCK_BATCH,
        access_mask: FILE_READ_DATA,
        ..Default::default()
    };
    let there = HandleState { session_id: 9, share_access: 7, ..Default::default() };
    let run = sharing(&plain("a.txt"), vec![away, there]);
    let run = match run.step().unwrap() {
        SharingStep::Discard { run, handle_id, lease } => {
            assert_eq!(handle_id, 4);
            assert!(lease.is_none());
            run
        }
        _ => panic!("the handle gives way"),
    };
    assert_eq!((run.handles.len(), run.handles[0].session_id), (1, 9));
    let run = match run.step().unwrap() {
        SharingStep::Next(run) => run,
        _ => panic!("the handles can be open together"),
    };
    assert!(matches!(run.step(), Ok(SharingStep::Open(_))));
}
