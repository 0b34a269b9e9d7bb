//! Durable handles: a client that lost its connection comes back to an open
//! file.

use vstd::prelude::*;

use crate::codec;
use crate::error;
use crate::error::HandlerError;
use crate::handler::common;
use crate::handler::common::TreeReply;
use crate::handler::create_context;
use crate::handler::create_context::{CreateContextBuilder, DURABLE_FLAG_PERSISTENT};
use crate::handler::create_response;
use crate::handler::create_response::{CreateReply, FileTimes, FILE_OPENED};
use crate::handler::lease_break::{OplockLevel, LEASE_READ_CACHING};
use crate::helpers::strings;
use crate::helpers::time::{current_unix_millis, current_unix_time};
use crate::protocol::header::Smb2Header;
use crate::protocol::status::NtStatus;
use crate::state::{HandleState, LeaseEntry};
use crate::storage::{
    FileType,
    Metadata,
    FILE_ATTRIBUTE_ARCHIVE,
    FILE_ATTRIBUTE_DIRECTORY,
    FILE_ATTRIBUTE_READONLY,
    MODE_OWNER_WRITE,
};
use crate::text;

verus! {

/// A client that comes back, and waits for its handle.
#[derive(Debug)]
pub struct ReconnectAwaitHandle {
    pub header: Smb2Header,
    /// The handle to look up.
    pub handle_id: u128,
    pub create_guid: Option<[u8; 16]>,
    pub filename: String,
}

/// Starts to handle the return of a client to a durable handle.
pub fn handle_durable_reconnect(
    header: &Smb2Header,
    persistent_id: u64,
    create_guid: Option<[u8; 16]>,
    filename: String,
) -> (a: ReconnectAwaitHandle)
    ensures
        a == (ReconnectAwaitHandle {
            header: *header,
            handle_id: persistent_id as u128,
            create_guid,
            filename,
        }),
{
    ReconnectAwaitHandle { header: *header, handle_id: persistent_id as u128, create_guid, filename }
}

/// Whether the name that a returning client gives may stand for the path of the
/// handle: it is empty, the path itself, or a placeholder.
pub open spec fn name_accepted(filename: Seq<char>, path: Seq<char>) -> bool {
    filename.len() == 0 || filename == path || "__"@.is_prefix_of(filename)
}

pub fn filename_matches(filename: &String, path: &String) -> (b: bool)
    ensures
        b == name_accepted(filename@, path@),
{
    filename.as_str().unicode_len() == 0 || *filename == *path || strings::has_prefix(
        filename.as_str(),
        "__",
    )
}

/// The status that a returning client is refused with, if it is: the handle has
/// to be durable, to belong to no session, to be waiting still, and to have the
/// client's GUID and name.
pub open spec fn reconnect_refusal(
    handle: HandleState,
    create_guid: Option<[u8; 16]>,
    filename: Seq<char>,
    now_ms: u64,
) -> Option<NtStatus> {
    if !handle.is_durable && !handle.is_persistent {
        Some(NtStatus::ObjectNameNotFound)
    } else if handle.session_id != 0 {
        Some(NtStatus::ObjectNameNotFound)
    } else if !handle.spec_can_reconnect(now_ms) {
        Some(NtStatus::ObjectNameNotFound)
    } else if create_guid is Some && handle.create_guid is Some && create_guid->0@
        != handle.create_guid->0@ {
        Some(NtStatus::ObjectNameNotFound)
    } else if !name_accepted(filename, handle.path@) {
        Some(NtStatus::InvalidParameter)
    } else {
        None
    }
}

/// Whether a handle of a client that is away has waited long enough.
pub open spec fn has_expired(handle: HandleState, now_ms: u64) -> bool {
    (handle.is_durable || handle.is_persistent) && handle.session_id == 0
        && !handle.spec_can_reconnect(now_ms)
}

/// Why a client could not come back.
#[derive(Debug)]
pub struct ReconnectRefusal {
    /// A handle that has waited long enough and is to be deleted.
    pub expired: Option<u128>,
    pub error: HandlerError,
}

/// A client that comes back, and waits for its tree.
#[derive(Debug)]
pub struct ReconnectAwaitTree {
    pub header: Smb2Header,
    pub create_guid: Option<[u8; 16]>,
    pub handle: HandleState,
}

impl ReconnectAwaitHandle {
    /// What comes of looking up the handle, at a time in milliseconds.
    pub open spec fn handle_outcome(self, reply: Result<Option<HandleState>, String>, now_ms: u64) -> Result<
        ReconnectAwaitTree,
        ReconnectRefusal,
    > {
        match reply {
            Err(text) => Err(
                ReconnectRefusal { expired: None, error: HandlerError::Internal(text) },
            ),
            Ok(None) => Err(
                ReconnectRefusal {
                    expired: None,
                    error: HandlerError::Status(NtStatus::ObjectNameNotFound),
                },
            ),
            Ok(Some(handle)) => match reconnect_refusal(
                handle,
                self.create_guid,
                self.filename@,
                now_ms,
            ) {
                None => Ok(
                    ReconnectAwaitTree {
                        header: self.header,
                        create_guid: self.create_guid,
                        handle,
                    },
                ),
                Some(status) => Err(
                    ReconnectRefusal {
                        expired: if has_expired(handle, now_ms) {
                            Some(self.handle_id)
                        } else {
                            None
                        },
                        error: HandlerError::Status(status),
                    },
                ),
            },
        }
    }

    /// Takes the handle that the state store found.
    pub fn on_handle(self, reply: Result<Option<HandleState>, String>) -> (r: Result<
        ReconnectAwaitTree,
        ReconnectRefusal,
    >)
        ensures
            exists|now_ms: u64| r == #[trigger] self.handle_outcome(reply, now_ms),
    {
        self.on_handle_at(reply, current_unix_millis())
    }

    /// Takes the handle that the state store found, at a time in milliseconds.
    pub fn on_handle_at(self, reply: Result<Option<HandleState>, String>, now_ms: u64) -> (r: Result<
        ReconnectAwaitTree,
        ReconnectRefusal,
    >)
        ensures
            r == self.handle_outcome(reply, now_ms),
    {
        let handle = match reply {
            Err(text) => {
                return Err(
                    ReconnectRefusal { expired: None, error: HandlerError::Internal(text) },
                );
            },
            Ok(None) => {
                return Err(
                    ReconnectRefusal {
                        expired: None,
                        error: HandlerError::Status(NtStatus::ObjectNameNotFound),
                    },
                );
            },
            Ok(Some(handle)) => handle,
        };
        if (!handle.is_durable && !handle.is_persistent) || handle.session_id != 0 {
            return Err(
                ReconnectRefusal {
                    expired: None,
                    error: HandlerError::Status(NtStatus::ObjectNameNotFound),
                },
            );
        }
        if !handle.can_reconnect(now_ms) {
            return Err(
                ReconnectRefusal {
                    expired: Some(self.handle_id),
                    error: HandlerError::Status(NtStatus::ObjectNameNotFound),
                },
            );
        }
        if let Some(client_guid) = &self.create_guid {
            if let Some(stored_guid) = &handle.create_guid {
                if !codec::same_array16(client_guid, stored_guid) {
                    return Err(
                        ReconnectRefusal {
                            expired: None,
                            error: HandlerError::Status(NtStatus::ObjectNameNotFound),
                        },
                    );
                }
            }
        }
        if !filename_matches(&self.filename, &handle.path) {
            return Err(
                ReconnectRefusal {
                    expired: None,
                    error: HandlerError::Status(NtStatus::InvalidParameter),
                },
            );
        }
        Ok(
            ReconnectAwaitTree { header: self.header, create_guid: self.create_guid, handle },
        )
    }
}

/// A client that comes back, and waits to learn whether its file is still there.
#[derive(Debug)]
pub struct ReconnectAwaitFile {
    pub header: Smb2Header,
    pub create_guid: Option<[u8; 16]>,
    pub handle: HandleState,
}

impl ReconnectAwaitTree {
    /// Takes the tree that the state store found.
    pub fn on_tree(self, reply: TreeReply) -> (r: Result<ReconnectAwaitFile, HandlerError>)
        ensures
            match common::tree_outcome(reply, NtStatus::InvalidParameter) {
                Err(e) => r == Err::<ReconnectAwaitFile, HandlerError>(e),
                Ok(_) => r == Ok::<ReconnectAwaitFile, HandlerError>(
                    ReconnectAwaitFile {
                        header: self.header,
                        create_guid: self.create_guid,
                        handle: self.handle,
                    },
                ),
            },
    {
        match common::accept_tree(reply, NtStatus::InvalidParameter) {
            Err(e) => Err(e),
            Ok(_) => Ok(
                ReconnectAwaitFile {
                    header: self.header,
                    create_guid: self.create_guid,
                    handle: self.handle,
                },
            ),
        }
    }
}

/// The handle after its client came back: it belongs to the session and the tree
/// of the request.
pub open spec fn reconnected(handle: HandleState, header: Smb2Header, now: u64) -> HandleState {
    HandleState {
        session_id: header.session_id,
        tree_id: header.tree_id,
        last_access: now,
        volatile_id: handle.persistent_id,
        ..handle
    }
}

/// Whether the file is the one that was opened, as far as the backend's number
/// for it tells.
pub open spec fn same_file(handle: HandleState, metadata: Metadata) -> bool {
    handle.backend_internal_id matches Some(id) ==> metadata.ino == id
}

/// A client that comes back, and whose handle is to be stored anew.
#[derive(Debug)]
pub struct ReconnectStore {
    pub header: Smb2Header,
    pub create_guid: Option<[u8; 16]>,
    /// The handle to store.
    pub handle: HandleState,
    pub metadata: Metadata,
}

impl ReconnectAwaitFile {
    /// What comes of looking at the file, at a time in seconds.
    pub open spec fn handle_to_store(self, found: Option<Metadata>, now: u64) -> Result<
        ReconnectStore,
        HandlerError,
    > {
        match found {
            None => Err(HandlerError::Status(NtStatus::ObjectNameNotFound)),
            Some(metadata) => if same_file(self.handle, metadata) {
                Ok(
                    ReconnectStore {
                        header: self.header,
                        create_guid: self.create_guid,
                        handle: reconnected(self.handle, self.header, now),
                        metadata,
                    },
                )
            } else {
                Err(HandlerError::Status(NtStatus::ObjectNameNotFound))
            },
        }
    }

    /// Takes what the backend says of the file, or that it is not there.
    pub fn on_metadata(self, found: Option<Metadata>) -> (r: Result<ReconnectStore, HandlerError>)
        ensures
            exists|now: u64| r == #[trigger] self.handle_to_store(found, now),
    {
        self.on_metadata_at(found, current_unix_time())
    }

    /// Takes what the backend says of the file, or that it is not there, at a
    /// time in seconds.
    pub fn on_metadata_at(self, found: Option<Metadata>, now: u64) -> (r: Result<
        ReconnectStore,
        HandlerError,
    >)
        ensures
            r == self.handle_to_store(found, now),
    {
        let metadata = match found {
            Some(m) => m,
            None => {
                return Err(HandlerError::Status(NtStatus::ObjectNameNotFound));
            },
        };
        if let Some(expected_id) = self.handle.backend_internal_id {
            if metadata.ino != expected_id {
                return Err(HandlerError::Status(NtStatus::ObjectNameNotFound));
            }
        }
        let mut handle = self.handle;
        handle.session_id = self.header.session_id;
        handle.tree_id = self.header.tree_id;
        handle.last_access = now;
        handle.volatile_id = handle.persistent_id;
        Ok(ReconnectStore { header: self.header, create_guid: self.create_guid, handle, metadata })
    }
}

/// A client that came back. If its handle has a lease, that is to be registered
/// for this connection, and looked up.
#[derive(Debug)]
pub struct ReconnectAwaitLease {
    pub header: Smb2Header,
    pub create_guid: Option<[u8; 16]>,
    pub handle: HandleState,
    pub metadata: Metadata,
    /// The lease's key as text.
    pub lease_key: Option<String>,
}

impl ReconnectStore {
    /// Takes the outcome of storing the handle.
    pub fn on_stored(self, reply: Result<(), String>) -> (r: Result<
        ReconnectAwaitLease,
        HandlerError,
    >)
        ensures
            match reply {
                Err(text) => r == Err::<ReconnectAwaitLease, HandlerError>(
                    HandlerError::Internal(text),
                ),
                Ok(_) => {
                    &&& r matches Ok(a)
                    &&& a.header == self.header
                    &&& a.create_guid == self.create_guid
                    &&& a.handle == self.handle
                    &&& a.metadata == self.metadata
                    &&& match self.handle.lease_key {
                        None => a.lease_key is None,
                        Some(key) => a.lease_key is Some && a.lease_key->0@ == text::hex_text(key@),
                    }
                },
            },
    {
        match reply {
            Err(text) => Err(HandlerError::Internal(text)),
            Ok(()) => {
                let lease_key = match &self.handle.lease_key {
                    None => None,
                    Some(key) => Some(text::lease_key_text(key)),
                };
                Ok(
                    ReconnectAwaitLease {
                        header: self.header,
                        create_guid: self.create_guid,
                        handle: self.handle,
                        metadata: self.metadata,
                        lease_key,
                    },
                )
            },
        }
    }
}

/// The attributes that a returning client is told.
pub open spec fn reconnect_attributes(metadata: Metadata) -> u32 {
    let kind = if metadata.file_type == FileType::Directory {
        FILE_ATTRIBUTE_ARCHIVE | FILE_ATTRIBUTE_DIRECTORY
    } else {
        FILE_ATTRIBUTE_ARCHIVE
    };
    if metadata.mode & MODE_OWNER_WRITE == 0 {
        kind | FILE_ATTRIBUTE_READONLY
    } else {
        kind
    }
}

/// The room that a file takes by its blocks, as a 64-bit number.
pub open spec fn blocks_in_bytes(blocks: u64) -> u64 {
    ((blocks * 512) % 0x1_0000_0000_0000_0000) as u64
}

/// The context that confirms a durable handle; none if the file goes away when
/// it is closed.
pub open spec fn durable_contexts(handle: HandleState, with_guid: bool) -> Seq<
    create_context::RawContext,
> {
    if handle.delete_on_close {
        Seq::empty()
    } else if handle.is_persistent {
        seq![create_context::durable_v2_context(handle.durable_timeout, DURABLE_FLAG_PERSISTENT)]
    } else if with_guid {
        seq![create_context::durable_v2_context(handle.durable_timeout, 0)]
    } else {
        seq![create_context::durable_context()]
    }
}

/// The context that confirms the lease of a handle. A lease that was not found
/// counts as one to cache reads.
pub open spec fn lease_contexts(handle: HandleState, lease: Option<LeaseEntry>) -> Seq<
    create_context::RawContext,
> {
    match handle.lease_key {
        None => Seq::empty(),
        Some(key) => match lease {
            None => seq![create_context::lease_context(key@, LEASE_READ_CACHING, 0)],
            Some(entry) => if entry.is_v2 {
                seq![
                    create_context::lease_v2_context(
                        key@,
                        entry.lease_state,
                        0,
                        codec::zeros(16),
                        entry.epoch,
                    ),
                ]
            } else {
                seq![
                    create_context::lease_context(key@, entry.lease_state, entry.epoch as u32),
                ]
            },
        },
    }
}

impl ReconnectAwaitLease {
    /// What a returning client is told about its file.
    pub open spec fn reply(self, times: FileTimes) -> CreateReply {
        CreateReply {
            oplock_level: OplockLevel::spec_from_u8(self.handle.oplock_level),
            create_action: FILE_OPENED,
            times,
            allocation_size: blocks_in_bytes(self.metadata.blocks),
            end_of_file: self.metadata.size,
            file_attributes: reconnect_attributes(self.metadata),
            handle_id: self.handle.persistent_id,
        }
    }

    pub open spec fn contexts(self, lease: Option<LeaseEntry>) -> Seq<create_context::RawContext> {
        durable_contexts(self.handle, self.create_guid is Some) + lease_contexts(self.handle, lease)
    }

    /// Takes the lease of the handle, if there is one and it was found, and
    /// builds the response, which gives the present time for those of the file.
    pub fn on_lease(self, lease: Option<LeaseEntry>, credits: u16) -> (message: Vec<u8>)
        ensures
            exists|times: FileTimes|
                times.are_clock_times() && message@ == common::response(
                    self.header,
                    NtStatus::Success,
                    credits,
                    create_response::create_body(
                        #[trigger] self.reply(times),
                        create_context::built_contexts(self.contexts(lease)),
                    ),
                ),
    {
        self.on_lease_at(lease, FileTimes::now(), credits)
    }

    /// Takes the lease of the handle, if there is one and it was found, and
    /// builds the response with the given times.
    pub fn on_lease_at(self, lease: Option<LeaseEntry>, times: FileTimes, credits: u16) -> (message:
        Vec<u8>)
        ensures
            message@ == common::response(
                self.header,
                NtStatus::Success,
                credits,
                create_response::create_body(
                    self.reply(times),
                    create_context::built_contexts(self.contexts(lease)),
                ),
            ),
    {
        let mut builder = CreateContextBuilder::new();
        if !self.handle.delete_on_close {
            if self.handle.is_persistent {
                builder.add_durable_handle_response_v2(
                    self.handle.durable_timeout,
                    DURABLE_FLAG_PERSISTENT,
                );
            } else if self.create_guid.is_some() {
                builder.add_durable_handle_response_v2(self.handle.durable_timeout, 0);
            } else {
                builder.add_durable_handle_response();
            }
        }
        assert(builder@ =~= durable_contexts(self.handle, self.create_guid is Some));
        if let Some(key) = &self.handle.lease_key {
            match &lease {
                None => {
                    builder.add_lease_response(key, LEASE_READ_CACHING, 0);
                },
                Some(entry) => {
                    if entry.is_v2 {
                        let no_parent = [0u8; 16];
                        assert(no_parent@ =~= codec::zeros(16));
                        builder.add_lease_response_v2(
                            key,
                            entry.lease_state,
                            0,
                            &no_parent,
                            entry.epoch,
                        );
                    } else {
                        builder.add_lease_response(key, entry.lease_state, entry.epoch as u32);
                    }
                },
            }
        }
        assert(builder@ =~= self.contexts(lease));
        let contexts = builder.build();
        let mut attributes: u32 = FILE_ATTRIBUTE_ARCHIVE;
        if self.metadata.file_type == FileType::Directory {
            attributes = attributes | FILE_ATTRIBUTE_DIRECTORY;
        }
        if self.metadata.mode & MODE_OWNER_WRITE == 0 {
            attributes = attributes | FILE_ATTRIBUTE_READONLY;
        }
        let reply = CreateReply {
            oplock_level: OplockLevel::from_u8(self.handle.oplock_level),
            create_action: FILE_OPENED,
            times,
            allocation_size: self.metadata.blocks.wrapping_mul(512),
            end_of_file: self.metadata.size,
            file_attributes: attributes,
            handle_id: self.handle.persistent_id,
        };
        create_response::build_create_response(&self.header, &reply, contexts.as_slice(), credits)
    }
}

/// A handle that its client left within its timeout takes the client back, if
/// it gives the right GUID and name; and then it belongs to the session again
/// and cannot be taken a second time.
pub proof fn law_reconnect_takes_client_back(
    handle: HandleState,
    header: Smb2Header,
    default_timeout_ms: u32,
    lost_at_ms: u64,
    elapsed_ms: u64,
    now: u64,
)
    requires
        handle.spec_should_preserve_for_reconnect(),
        header.session_id != 0,
        lost_at_ms + u32::MAX <= u64::MAX,
        lost_at_ms + elapsed_ms <= u64::MAX,
        elapsed_ms < handle.durable_timeout || (handle.durable_timeout == 0 && elapsed_ms
            < default_timeout_ms),
    ensures
        ({
            let waiting = handle.disconnected(default_timeout_ms, lost_at_ms);
            let now_ms = (lost_at_ms + elapsed_ms) as u64;
            let back = reconnected(waiting, header, now);
            &&& reconnect_refusal(waiting, handle.create_guid, handle.path@, now_ms) is None
            &&& common::handle_refusal(header, back) is None
            &&& forall|guid: Option<[u8; 16]>, name: Seq<char>, later_ms: u64|
                #[trigger] reconnect_refusal(back, guid, name, later_ms) == Some(
                    NtStatus::ObjectNameNotFound,
                )
        }),
{
}

/// Coming back changes nothing of the handle but whose it is and when it was
/// last used.
pub proof fn law_reconnect_keeps_handle(handle: HandleState, header: Smb2Header, now: u64)
    ensures
        ({
            let back = reconnected(handle, header, now);
            &&& back.persistent_id == handle.persistent_id
            &&& back.path == handle.path
            &&& back.share_name == handle.share_name
            &&& back.access_mask == handle.access_mask
            &&& back.share_access == handle.share_access
            &&& back.file_offset == handle.file_offset
            &&& back.is_durable == handle.is_durable
            &&& back.is_persistent == handle.is_persistent
            &&& back.lease_key == handle.lease_key
            &&& back.oplock_level == handle.oplock_level
            &&& back.delete_on_close == handle.delete_on_close
            &&& back.backend_internal_id == handle.backend_internal_id
        }),
{
}

/// Who may come back to a handle: a client whose handle is durable or outlives
/// the server, belongs to no session, still waits, has no other GUID than the
/// client, and whose path the client gives, or no name, or one that starts with
/// two underscores; nobody else.
pub proof fn law_who_may_come_back(
    handle: HandleState,
    create_guid: Option<[u8; 16]>,
    filename: Seq<char>,
    now_ms: u64,
)
    ensures
        reconnect_refusal(handle, create_guid, filename, now_ms) is None <==> {
            &&& handle.is_durable || handle.is_persistent
            &&& handle.session_id == 0
            &&& handle.reconnect_deadline is Some ==> now_ms < handle.reconnect_deadline->0
            &&& create_guid is Some && handle.create_guid is Some ==> create_guid->0@
                == handle.create_guid->0@
            &&& filename.len() == 0 || filename == handle.path@ || (filename.len() >= 2
                && filename[0] == '_' && filename[1] == '_')
        },
        has_expired(handle, now_ms) <==> (handle.is_durable || handle.is_persistent)
            && handle.session_id == 0 && handle.reconnect_deadline is Some && now_ms
            >= handle.reconnect_deadline->0,
{
    reveal_strlit("__");
    let two = "__"@;
    assert(two.len() == 2 && two[0] == '_' && two[1] == '_');
    if filename.len() >= 2 {
        let start = filename.subrange(0, 2);
        assert(start[0] == filename[0] && start[1] == filename[1]);
        if filename[0] == '_' && filename[1] == '_' {
            assert(start =~= two);
        }
    }
}

/// Only a handle that has waited long enough is deleted when its client comes
/// back too late.
pub proof fn law_late_return_deletes_handle(
    wait: ReconnectAwaitHandle,
    handle: HandleState,
    now_ms: u64,
)
    ensures
        match wait.handle_outcome(Ok(Some(handle)), now_ms) {
            Ok(a) => a.handle == handle && a.header == wait.header && a.create_guid
                == wait.create_guid,
            Err(refusal) => refusal.expired == if has_expired(handle, now_ms) {
                Some(wait.handle_id)
            } else {
                None
            },
        },
        has_expired(handle, now_ms) ==> wait.handle_outcome(Ok(Some(handle)), now_ms) is Err,
{
}

/// The handle that is stored when its client came back belongs to the session
/// and the tree of the request, if the file is still the one that was opened.
pub proof fn law_returned_handle(wait: ReconnectAwaitFile, metadata: Metadata, now: u64)
    ensures
        ({
            let r = wait.handle_to_store(Some(metadata), now);
            &&& r is Ok <==> wait.handle.backend_internal_id is None
                || wait.handle.backend_internal_id == Some(metadata.ino)
            &&& r is Err ==> error::refused(r, NtStatus::ObjectNameNotFound)
            &&& r matches Ok(store) ==> store.handle.session_id == wait.header.session_id
                && store.handle.tree_id == wait.header.tree_id && store.handle.volatile_id
                == wait.handle.persistent_id && store.handle.persistent_id
                == wait.handle.persistent_id && store.handle.last_access == now
                && store.metadata == metadata
        }),
        error::refused(wait.handle_to_store(None, now), NtStatus::ObjectNameNotFound),
{
}

/// What a returning client is told of its file: that it was opened (1), its
/// size, its blocks of 512 bytes, the oplock that the handle has, and by which
/// file id to call it; bit 5 of the attributes, bit 4 for a directory, and bit 0
/// if its owner may not write it.
pub proof fn law_returning_client_is_told(wait: ReconnectAwaitLease, times: FileTimes)
    ensures
        ({
            let reply = wait.reply(times);
            &&& reply.create_action == 1
            &&& reply.end_of_file == wait.metadata.size
            &&& wait.metadata.blocks * 512 <= u64::MAX ==> reply.allocation_size
                == wait.metadata.blocks * 512
            &&& OplockLevel::is_level(wait.handle.oplock_level)
                ==> reply.oplock_level.spec_as_u8() == wait.handle.oplock_level
            &&& reply.handle_id == wait.handle.persistent_id
            &&& reply.times == times
            &&& reply.file_attributes & 0x20 != 0
            &&& reply.file_attributes & 0x10 != 0 <==> wait.metadata.file_type
                == FileType::Directory
            &&& reply.file_attributes & 0x01 != 0 <==> wait.metadata.mode & 0o200 == 0
        }),
{
    assert(0x20u32 & 0x20 != 0 && 0x20u32 & 0x10 == 0 && 0x20u32 & 0x01 == 0 && (0x20u32 | 0x10)
        & 0x20 != 0 && (0x20u32 | 0x10) & 0x10 != 0 && (0x20u32 | 0x10) & 0x01 == 0 && (0x20u32
        | 0x01) & 0x20 != 0 && (0x20u32 | 0x01) & 0x10 == 0 && (0x20u32 | 0x01) & 0x01 != 0 && (
    0x20u32 | 0x10 | 0x01) & 0x20 != 0 && (0x20u32 | 0x10 | 0x01) & 0x10 != 0 && (0x20u32 | 0x10
        | 0x01) & 0x01 != 0) by (bit_vector);
}

/// What a returning client is told of its handle: that it is durable again,
/// unless the file goes away with it, and the state of the lease that it has; a
/// lease that is not found counts as one to cache reads (1).
pub proof fn law_returning_client_keeps_grants(
    wait: ReconnectAwaitLease,
    lease: Option<LeaseEntry>,
)
    ensures
        ({
            let contexts = wait.contexts(lease);
            let durable: int = if wait.handle.delete_on_close {
                0
            } else {
                1
            };
            let leased: int = if wait.handle.lease_key is Some {
                1
            } else {
                0
            };
            &&& contexts.len() == durable + leased
            &&& durable == 1 ==> contexts[0] == if wait.handle.is_persistent {
                create_context::durable_v2_context(wait.handle.durable_timeout, 2)
            } else if wait.create_guid is Some {
                create_context::durable_v2_context(wait.handle.durable_timeout, 0)
            } else {
                create_context::durable_context()
            }
            &&& wait.handle.lease_key matches Some(key) ==> contexts[durable] == match lease {
                None => create_context::lease_context(key@, 1, 0),
                Some(entry) => if entry.is_v2 {
                    create_context::lease_v2_context(
                        key@,
                        entry.lease_state,
                        0,
                        codec::zeros(16),
                        entry.epoch,
                    )
                } else {
                    create_context::lease_context(key@, entry.lease_state, entry.epoch as u32)
                },
            }
        }),
{
}

} // verus!
