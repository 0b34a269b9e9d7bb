use rustsmb_server::connection::Connection;
use rustsmb_server::error::HandlerError;
use rustsmb_server::handler::common::TreeReply;
use rustsmb_server::handler::query::{
    handle_query_directory, handle_query_info, InfoType, QueryAwaitTree, QueryStep,
};
use rustsmb_server::handler::set_info::{
    build_set_info_response, handle_set_file_info, handle_set_info, on_chmod, on_stored,
    on_truncated, rename_target, RenameChange, SetStep, TargetReply,
};
use rustsmb_server::helpers::time::unix_to_filetime;
use rustsmb_server::protocol::dialect::SmbDialect;
use rustsmb_server::protocol::header::{Smb2Command, Smb2Flags, Smb2Header};
use rustsmb_server::protocol::status::NtStatus;
use rustsmb_server::state::{HandleState, TreeState};
use rustsmb_server::storage::{DirEntry, FsStats, Metadata, UnixTime};

fn request(command: Smb2Command) -> Smb2Header {
    Smb2Header {
        structure_size: 64,
        credit_charge: 1,
        status: 0,
        command,
        credits: 1,
        flags: Smb2Flags(0),
        next_command: 0,
        message_id: 1,
        async_id: 0,
        tree_id: 1,
        session_id: 7,
        signature: [0u8; 16],
    }
}

fn connection() -> Connection {
    let mut connection = Connection::new(1, 65536, 65536, 65536);
    connection.negotiate(SmbDialect::Smb302);
    connection
}

fn handle(path: &str) -> HandleState {
    HandleState {
        persistent_id: 5,
        volatile_id: 5,
        tree_id: 1,
        session_id: 7,
        access_mask: 0x0012_0089,
        file_offset: 77,
        path: path.to_string(),
        ..Default::default()
    }
}

fn tree() -> TreeReply {
    TreeReply {
        tree: Ok(Some(TreeState {
            tree_id: 1,
            session_id: 7,
            share_name: "docs".to_string(),
            share_path: "/srv".to_string(),
            access_flags: 0,
            is_dfs: false,
            created_at: 0,
        })),
        share_found: true,
    }
}

fn refused<T>(result: Result<T, HandlerError>) -> NtStatus {
    match result {
        Err(HandlerError::Status(status)) => status,
        _ => panic!("a status is expected"),
    }
}

fn query_body(info_type: u8, class: u8, length: u32) -> Vec<u8> {
    let mut body = Vec::new();
    body.extend_from_slice(&41u16.to_le_bytes());
    body.push(info_type);
    body.push(class);
    body.extend_from_slice(&length.to_le_bytes());
    body.extend_from_slice(&[0; 8]);
    body.extend_from_slice(&4u32.to_le_bytes());
    body.extend_from_slice(&[0; 4]);
    body.extend_from_slice(&5u64.to_le_bytes());
    body.extend_from_slice(&0u64.to_le_bytes());
    body
}

fn query(info_type: u8, class: u8, length: u32) -> QueryAwaitTree {
    let body = query_body(info_type, class, length);
    let awaiting =
        handle_query_info(&connection(), &request(Smb2Command::QueryInfo), &body).unwrap();
    assert_eq!(awaiting.handle_id, 5);
    awaiting.on_handle(Ok(Some(handle("a.txt")))).unwrap()
}

fn output(response: &[u8]) -> &[u8] {
    assert_eq!(&response[66..68], &72u16.to_le_bytes());
    let length = u32::from_le_bytes(response[68..72].try_into().unwrap());
    assert_eq!(response.len(), 72 + length as usize);
    &response[72..]
}

fn rename_buffer(replace: u8, name: &str) -> Vec<u8> {
    let name: Vec<u8> = name.encode_utf16().flat_map(|u| u.to_le_bytes()).collect();
    let mut buffer = vec![0u8; 16];
    buffer[0] = replace;
    buffer.extend_from_slice(&(name.len() as u32).to_le_bytes());
    buffer.extend_from_slice(&name);
    buffer
}

fn rename(path: &str, replace: u8, name: &str) -> RenameChange {
    match handle_set_file_info(handle(path), 10, &rename_buffer(replace, name)).unwrap() {
        SetStep::Rename(change) => change,
        SetStep::Exists(change) => change,
        _ => panic!("a rename is asked for"),
    }
}

#[test]
fn position_and_access_are_told() {
    let ask = |class: u8| match query(1, class, 200).on_tree(tree(), 1).unwrap() {
        QueryStep::File(awaiting) => awaiting.on_metadata_at(Ok(Metadata::default()), 9, 1).unwrap(),
        _ => panic!("the file is asked about"),
    };
    assert_eq!(output(&ask(14)), &77u64.to_le_bytes());
    assert_eq!(output(&ask(8)), &0x0012_0089u32.to_le_bytes());
    assert_eq!(output(&ask(18)).len(), 100);
}

#[test]
fn a_buffer_that_is_too_small_is_refused() {
    match query(1, 18, 99).on_tree(tree(), 1).unwrap() {
        QueryStep::File(awaiting) => {
            let result = awaiting.on_metadata_at(Ok(Metadata::default()), 9, 1);
            assert_eq!(refused(result), NtStatus::BufferTooSmall);
        }
        _ => panic!("the file is asked about"),
    }
}

#[test]
fn file_system_and_security_are_told() {
    match query(2, 4, 200).on_tree(tree(), 1).unwrap() {
        QueryStep::FileSystem(awaiting) => {
            let response = awaiting.on_stats_at(Ok(FsStats::default()), 9, 1).unwrap();
            assert_eq!(output(&response).len(), 8);
        }
        _ => panic!("the file system is asked about"),
    }
    match query(3, 0, 200).on_tree(tree(), 1).unwrap() {
        QueryStep::Done(response) => assert_eq!(output(&response).len(), 28),
        _ => panic!("security needs nothing else"),
    }
    assert_eq!(refused(query(4, 0, 200).on_tree(tree(), 1)), NtStatus::NotSupported);
    assert!(InfoType::from_u8(9).is_none());
    assert!(handle_query_info(
        &connection(),
        &request(Smb2Command::QueryInfo),
        &query_body(9, 0, 200)
    )
    .is_err());
}

#[test]
fn a_directory_is_listed() {
    let mut body = Vec::new();
    body.extend_from_slice(&33u16.to_le_bytes());
    body.extend_from_slice(&[0; 6]);
    body.extend_from_slice(&5u64.to_le_bytes());
    body.extend_from_slice(&0u64.to_le_bytes());
    body.extend_from_slice(&[0; 4]);
    body.extend_from_slice(&4096u32.to_le_bytes());
    let header = request(Smb2Command::QueryDirectory);
    let awaiting = handle_query_directory(&connection(), &header, &body).unwrap();
    let entries = awaiting.on_handle(Ok(Some(handle("dir")))).unwrap().on_tree(tree()).unwrap();
    assert_eq!(entries.path, "dir");
    let entry = DirEntry { name: "x".to_string(), metadata: Metadata::default() };
    let response = entries.on_entries_at(Ok(vec![entry]), 3, 1).unwrap();
    assert_eq!(output(&response).len(), 96);
    assert_eq!(&output(&response)[94..], &[b'x', 0]);
}

#[test]
fn names_are_joined_to_the_parent() {
    assert_eq!(rename("dir/a.txt", 0, "b.txt").target, "dir/b.txt");
    assert_eq!(rename("x/dir/a.txt", 0, "b.txt").target, "x/dir/b.txt");
    assert_eq!(rename("dir/a.txt", 0, "\\other\\b.txt").target, "/other/b.txt");
    assert_eq!(rename("a.txt", 0, "b.txt").target, "/b.txt");
    assert_eq!(rename("", 0, "b.txt").target, "/b.txt");
    assert_eq!(rename("dir/a.txt/", 0, "b.txt").target, "dir/b.txt");
    assert_eq!(rename("dir//a.txt", 0, "b.txt").target, "dir/b.txt");
    assert_eq!(rename("dir/./a.txt/.", 0, "b.txt").target, "dir/b.txt");
    assert_eq!(rename("./a.txt", 0, "b.txt").target, "./b.txt");
    assert_eq!(rename("/", 0, "b.txt").target, "/b.txt");
    assert_eq!(rename_target("b".to_string(), None), "/b");
    assert_eq!(rename_target("b".to_string(), Some("p".to_string())), "p/b");
    assert_eq!(rename_target("/b".to_string(), Some("p".to_string())), "/b");
}

#[test]
fn a_rename_looks_first_unless_it_may_replace() {
    let keep = handle_set_file_info(handle("d/a"), 10, &rename_buffer(0, "b")).unwrap();
    let change = match keep {
        SetStep::Exists(change) => change,
        _ => panic!("the target is looked up"),
    };
    match change.on_stat(TargetReply::Absent).unwrap() {
        SetStep::Rename(change) => match change.on_renamed(Ok(())).unwrap() {
            SetStep::Store(handle) => assert_eq!(handle.path, "d/b"),
            _ => panic!("the handle follows the file"),
        },
        _ => panic!("nothing is in the way"),
    }
    let taken = rename("d/a", 0, "b").on_stat(TargetReply::Found);
    assert_eq!(refused(taken), NtStatus::ObjectNameCollision);
    let failed = rename("d/a", 0, "b").on_stat(TargetReply::Failed("x".to_string()));
    assert!(matches!(failed, Err(HandlerError::Vfs(_))));
    let replace = handle_set_file_info(handle("d/a"), 10, &rename_buffer(1, "b")).unwrap();
    assert!(matches!(replace, SetStep::Rename(_)));
    let mut short = rename_buffer(1, "b");
    short.pop();
    assert_eq!(
        refused(handle_set_file_info(handle("d/a"), 10, &short)),
        NtStatus::InvalidParameter
    );
}

#[test]
fn times_and_attributes_are_set() {
    let mut buffer = vec![0u8; 40];
    buffer[16..24].copy_from_slice(&unix_to_filetime(1000, 0).to_le_bytes());
    buffer[32..36].copy_from_slice(&1u32.to_le_bytes());
    let change = match handle_set_file_info(handle("a"), 4, &buffer).unwrap() {
        SetStep::Stat(change) => change,
        _ => panic!("the times of the file are looked up"),
    };
    let last_read = UnixTime { secs: 77, nanos: 5 };
    let last_written = UnixTime { secs: -3, nanos: 9 };
    let found = Metadata { atime: last_read, mtime: last_written, ..Default::default() };
    let change = match change.on_metadata(Ok(found)).unwrap() {
        SetStep::Times(change) => change,
        _ => panic!("the times are set"),
    };
    assert_eq!(change.path, "a");
    assert_eq!(change.access_time, last_read);
    assert_eq!(change.modify_time, UnixTime { secs: 1000, nanos: 0 });
    let mode = match change.on_times(Ok(())).unwrap() {
        SetStep::Mode(mode) => mode,
        _ => panic!("an attribute is set"),
    };
    match mode.on_metadata(Ok(Metadata::default())).unwrap() {
        SetStep::Chmod { path, mode } => assert_eq!((path.as_str(), mode), ("a", 0o444)),
        _ => panic!("the mode is set"),
    }
    assert!(matches!(on_chmod(Ok(())), Ok(SetStep::Done)));
    assert_eq!(
        refused(handle_set_file_info(handle("a"), 4, &[0; 39])),
        NtStatus::InvalidParameter
    );
}

#[test]
fn sizes_and_positions_are_set() {
    for class in [19u8, 20] {
        match handle_set_file_info(handle("a"), class, &9u64.to_le_bytes()).unwrap() {
            SetStep::Truncate { size, .. } => assert_eq!(size, 9),
            _ => panic!("the size is set"),
        }
    }
    match handle_set_file_info(handle("a"), 14, &9u64.to_le_bytes()).unwrap() {
        SetStep::Store(handle) => assert_eq!(handle.file_offset, 9),
        _ => panic!("the handle is stored"),
    }
    match handle_set_file_info(handle("a"), 13, &[1]).unwrap() {
        SetStep::Store(handle) => assert!(handle.delete_on_close),
        _ => panic!("the handle is stored"),
    }
    assert!(matches!(handle_set_file_info(handle("a"), 13, &[0]), Ok(SetStep::Done)));
    assert!(matches!(handle_set_file_info(handle("a"), 16, &[]), Ok(SetStep::Done)));
    assert_eq!(refused(handle_set_file_info(handle("a"), 99, &[])), NtStatus::NotSupported);
    assert!(matches!(on_truncated(Err("x".to_string())), Err(HandlerError::Vfs(_))));
    assert!(matches!(on_stored(Err("x".to_string())), Err(HandlerError::Internal(_))));
}

#[test]
fn set_info_finds_its_buffer() {
    let mut body = Vec::new();
    body.extend_from_slice(&33u16.to_le_bytes());
    body.push(1);
    body.push(14);
    body.extend_from_slice(&8u32.to_le_bytes());
    body.extend_from_slice(&96u16.to_le_bytes());
    body.extend_from_slice(&[0; 6]);
    body.extend_from_slice(&5u64.to_le_bytes());
    body.extend_from_slice(&0u64.to_le_bytes());
    body.extend_from_slice(&31u64.to_le_bytes());
    let header = request(Smb2Command::SetInfo);
    let step = handle_set_info(&header, &body)
        .unwrap()
        .on_handle(Ok(Some(handle("a"))))
        .unwrap()
        .on_tree(tree())
        .unwrap();
    match step {
        SetStep::Store(handle) => assert_eq!(handle.file_offset, 31),
        _ => panic!("the handle is stored"),
    }
    let response = build_set_info_response(&header, 1);
    assert_eq!(Smb2Header::parse(&response).unwrap().status, 0);
    assert!(handle_set_info(&header, &[33]).is_err());
}

#[test]
fn times_need_a_file_that_can_be_looked_up() {
    let mut buffer = vec![0u8; 40];
    buffer[8..16].copy_from_slice(&unix_to_filetime(50, 0).to_le_bytes());
    buffer[16..24].copy_from_slice(&u64::MAX.to_le_bytes());
    let stat = || match handle_set_file_info(handle("a"), 4, &buffer).unwrap() {
        SetStep::Stat(change) => change,
        _ => panic!("the times of the file are looked up"),
    };
    assert!(matches!(stat().on_metadata(Err("gone".to_string())), Err(HandlerError::Vfs(_))));
    let found = Metadata { mtime: UnixTime { secs: 8, nanos: 1 }, ..Default::default() };
    match stat().on_metadata(Ok(found)).unwrap() {
        SetStep::Times(change) => {
            assert_eq!(change.access_time, UnixTime { secs: 50, nanos: 0 });
            assert_eq!(change.modify_time, UnixTime { secs: 8, nanos: 1 });
            assert!(matches!(change.on_times(Ok(())), Ok(SetStep::Done)));
        }
        _ => panic!("the times are set"),
    }
    let nothing = handle_set_file_info(handle("a"), 4, &[0; 40]).unwrap();
    assert!(matches!(nothing, SetStep::Done));
}
