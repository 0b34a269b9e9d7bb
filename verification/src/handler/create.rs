//! CREATE: opening a file.
//!
//! Before a file is opened, batch oplocks of other sessions on it are broken,
//! and every handle that is open already has to be compatible with the new one.

use vstd::prelude::*;

use crate::codec;
use crate::error;
use crate::error::HandlerError;
use crate::handler::common;
use crate::handler::common::TreeReply;
use crate::handler::create_context;
use crate::handler::create_context::CreateContext;
use crate::handler::create_response;
use crate::handler::create_response::FILE_OPENED;
use crate::handler::durable;
use crate::handler::durable::ReconnectAwaitHandle;
use crate::handler::lease_break::{OplockLevel, LEASE_HANDLE_CACHING};
use crate::helpers::strings;
use crate::protocol::header::Smb2Header;
use crate::protocol::status::NtStatus;
use crate::state::{HandleState, LeaseEntry};
use crate::storage;
use crate::storage::{Metadata, FILE_ATTRIBUTE_READONLY};
use crate::text;

verus! {

/// The fixed part of a CREATE request.
#[derive(Clone, Copy, Debug)]
pub struct CreateRequest {
    pub oplock_level: OplockLevel,
    pub desired_access: u32,
    pub file_attributes: u32,
    pub share_access: u32,
    pub create_disposition: u32,
    pub create_options: u32,
    pub name_offset: u16,
    pub name_length: u16,
    pub contexts_offset: u32,
    pub contexts_length: u32,
}

impl CreateRequest {
    /// The request that a body starts with.
    pub open spec fn of(body: Seq<u8>) -> CreateRequest {
        CreateRequest {
            oplock_level: OplockLevel::spec_from_u8(body[3]),
            desired_access: codec::u32_at(body, 24),
            file_attributes: codec::u32_at(body, 28),
            share_access: codec::u32_at(body, 32),
            create_disposition: codec::u32_at(body, 36),
            create_options: codec::u32_at(body, 40),
            name_offset: codec::u16_at(body, 44),
            name_length: codec::u16_at(body, 46),
            contexts_offset: codec::u32_at(body, 48),
            contexts_length: codec::u32_at(body, 52),
        }
    }

    /// Reads the fixed part, which is 56 bytes long.
    pub fn parse(body: &[u8]) -> (request: Option<CreateRequest>)
        ensures
            body@.len() < 56 ==> request is None,
            body@.len() >= 56 ==> request == Some(CreateRequest::of(body@)),
    {
        if body.len() < 56 {
            return None;
        }
        Some(
            CreateRequest {
                oplock_level: OplockLevel::from_u8(body[3]),
                desired_access: codec::get_u32(body, 24),
                file_attributes: codec::get_u32(body, 28),
                share_access: codec::get_u32(body, 32),
                create_disposition: codec::get_u32(body, 36),
                create_options: codec::get_u32(body, 40),
                name_offset: codec::get_u16(body, 44),
                name_length: codec::get_u16(body, 46),
                contexts_offset: codec::get_u32(body, 48),
                contexts_length: codec::get_u32(body, 52),
            },
        )
    }
}

/// The name that a request gives.
pub open spec fn requested_name(body: Seq<u8>) -> Seq<char> {
    let request = CreateRequest::of(body);
    strings::utf16_decode(
        strings::utf16_units(
            common::message_part(body, request.name_offset as int, request.name_length as int),
        ),
    )
}

/// Whether a name starts with a slash or a backslash, which none may: names
/// are relative to the share.
pub open spec fn is_rooted(name: Seq<char>) -> bool {
    name.len() > 0 && (name[0] == '/' || name[0] == '\\')
}

/// The path of a name: the same with slashes in place of backslashes.
pub open spec fn path_of(name: Seq<char>) -> Seq<char> {
    strings::replaced(name, '\\', "/"@)
}

/// The contexts of a request. If they cannot be read there are none.
pub open spec fn requested_contexts(body: Seq<u8>) -> Seq<create_context::RawContext> {
    let request = CreateRequest::of(body);
    let data = common::message_part(
        body,
        request.contexts_offset as int,
        request.contexts_length as int,
    );
    match create_context::raw_contexts(data, 0) {
        Some(contexts) => contexts,
        None => Seq::empty(),
    }
}

/// What a request asks for.
#[derive(Debug)]
pub struct CreateJob {
    pub header: Smb2Header,
    pub request: CreateRequest,
    /// The path of the file in its share.
    pub filename: String,
    pub contexts: Vec<CreateContext>,
}

impl CreateJob {
    /// Whether the job is that of a request.
    pub open spec fn is_job_of(self, header: Smb2Header, body: Seq<u8>) -> bool {
        &&& self.header == header
        &&& self.request == CreateRequest::of(body)
        &&& self.filename@ == path_of(requested_name(body))
        &&& create_context::are_contexts(self.contexts@, requested_contexts(body))
    }
}

/// The first context from the `n`-th on that asks to come back to a durable
/// handle: which one, and with which GUID.
pub open spec fn reconnect_context(contexts: Seq<CreateContext>, n: int) -> Option<
    (u64, Option<[u8; 16]>),
>
    decreases contexts.len() - n,
{
    if n < 0 || n >= contexts.len() {
        None
    } else {
        match contexts[n] {
            CreateContext::DurableHandleReconnect { persistent_id } => Some((persistent_id, None)),
            CreateContext::DurableHandleReconnectV2 { persistent, create_guid } => Some(
                (persistent, Some(create_guid)),
            ),
            _ => reconnect_context(contexts, n + 1),
        }
    }
}

fn find_reconnect_context(contexts: &Vec<CreateContext>) -> (r: Option<(u64, Option<[u8; 16]>)>)
    ensures
        r == reconnect_context(contexts@, 0),
{
    let mut i: usize = 0;
    while i < contexts.len()
        invariant
            i <= contexts@.len(),
            reconnect_context(contexts@, 0) == reconnect_context(contexts@, i as int),
        decreases contexts@.len() - i,
    {
        match contexts[i] {
            CreateContext::DurableHandleReconnect { persistent_id } => {
                return Some((persistent_id, None));
            },
            CreateContext::DurableHandleReconnectV2 { persistent, create_guid } => {
                return Some((persistent, Some(create_guid)));
            },
            _ => {},
        }
        i = i + 1;
    }
    None
}

/// A CREATE request that waits for its tree.
#[derive(Debug)]
pub struct CreateAwaitTree {
    pub job: CreateJob,
}

/// What a CREATE request is about.
#[derive(Debug)]
pub enum CreateStart {
    /// The client comes back to a durable handle.
    Reconnect(ReconnectAwaitHandle),
    /// A file is to be opened.
    Open(CreateAwaitTree),
}

/// Starts to handle a CREATE request.
pub fn handle_create(header: &Smb2Header, body: &[u8]) -> (r: Result<CreateStart, HandlerError>)
    ensures
        body@.len() < 56 ==> error::malformed(r, "Failed to parse create"@),
        body@.len() >= 56 && is_rooted(requested_name(body@)) ==> error::refused(
            r,
            NtStatus::InvalidParameter,
        ),
        body@.len() >= 56 && !is_rooted(requested_name(body@)) ==> exists|job: CreateJob|
            {
                &&& #[trigger] job.is_job_of(*header, body@)
                &&& match reconnect_context(job.contexts@, 0) {
                    None => r == Ok::<CreateStart, HandlerError>(
                        CreateStart::Open(CreateAwaitTree { job }),
                    ),
                    Some((persistent_id, guid)) => r == Ok::<CreateStart, HandlerError>(
                        CreateStart::Reconnect(
                            ReconnectAwaitHandle {
                                header: *header,
                                handle_id: persistent_id as u128,
                                create_guid: guid,
                                filename: job.filename,
                            },
                        ),
                    ),
                }
            },
{
    let request = match CreateRequest::parse(body) {
        Some(request) => request,
        None => {
            return Err(error::protocol_error("Failed to parse create"));
        },
    };
    let name_bytes = common::copy_message_part(
        body,
        request.name_offset as u32,
        request.name_length as u32,
    );
    let name = strings::decode_utf16le(name_bytes.as_slice());
    if name.as_str().unicode_len() > 0 {
        let first = name.as_str().get_char(0);
        if first == '/' || first == '\\' {
            return Err(HandlerError::Status(NtStatus::InvalidParameter));
        }
    }
    let filename = strings::replace_char(name.as_str(), '\\', "/");
    let data = common::copy_message_part(body, request.contexts_offset, request.contexts_length);
    let contexts = match create_context::parse_create_contexts(data.as_slice()) {
        Some(contexts) => contexts,
        None => Vec::new(),
    };
    assert(create_context::are_contexts(contexts@, requested_contexts(body@)));
    let job = CreateJob { header: *header, request, filename, contexts };
    assert(job.is_job_of(*header, body@));
    match find_reconnect_context(&job.contexts) {
        Some((persistent_id, guid)) => Ok(
            CreateStart::Reconnect(
                durable::handle_durable_reconnect(header, persistent_id, guid, job.filename),
            ),
        ),
        None => Ok(CreateStart::Open(CreateAwaitTree { job })),
    }
}

pub const FILE_READ_DATA: u32 = 0x0000_0001;

pub const FILE_WRITE_DATA: u32 = 0x0000_0002;

pub const DELETE: u32 = 0x0001_0000;

pub const GENERIC_ALL: u32 = 0x1000_0000;

pub const GENERIC_WRITE: u32 = 0x4000_0000;

pub const GENERIC_READ: u32 = 0x8000_0000;

pub const FILE_SHARE_READ: u32 = 0x01;

pub const FILE_SHARE_WRITE: u32 = 0x02;

pub const FILE_SHARE_DELETE: u32 = 0x04;

pub open spec fn spec_wants_read(access: u32) -> bool {
    access & FILE_READ_DATA != 0 || access & GENERIC_READ != 0 || access & GENERIC_ALL != 0
}

/// Whether an access mask lets its holder read.
pub fn wants_read(access: u32) -> (b: bool)
    ensures
        b == spec_wants_read(access),
{
    access & FILE_READ_DATA != 0 || access & GENERIC_READ != 0 || access & GENERIC_ALL != 0
}

pub open spec fn spec_wants_write(access: u32) -> bool {
    access & FILE_WRITE_DATA != 0 || access & GENERIC_WRITE != 0 || access & GENERIC_ALL != 0
}

/// Whether an access mask lets its holder write.
pub fn wants_write(access: u32) -> (b: bool)
    ensures
        b == spec_wants_write(access),
{
    access & FILE_WRITE_DATA != 0 || access & GENERIC_WRITE != 0 || access & GENERIC_ALL != 0
}

pub open spec fn spec_wants_delete(access: u32) -> bool {
    access & DELETE != 0 || access & GENERIC_ALL != 0
}

/// Whether an access mask lets its holder delete.
pub fn wants_delete(access: u32) -> (b: bool)
    ensures
        b == spec_wants_delete(access),
{
    access & DELETE != 0 || access & GENERIC_ALL != 0
}

/// Whether an open that shares as `share` says keeps out one that wants
/// `access`.
pub open spec fn keeps_out(share: u32, access: u32) -> bool {
    ||| share & FILE_SHARE_READ == 0 && spec_wants_read(access)
    ||| share & FILE_SHARE_WRITE == 0 && spec_wants_write(access)
    ||| share & FILE_SHARE_DELETE == 0 && spec_wants_delete(access)
}

/// Whether two opens of a file exclude each other: one of them keeps out the
/// other.
pub open spec fn share_conflict(
    existing_share: u32,
    existing_access: u32,
    requested_share: u32,
    requested_access: u32,
) -> bool {
    keeps_out(existing_share, requested_access) || keeps_out(requested_share, existing_access)
}

pub fn has_share_conflict(
    existing_share: u32,
    existing_access: u32,
    requested_share: u32,
    requested_access: u32,
) -> (b: bool)
    ensures
        b == share_conflict(existing_share, existing_access, requested_share, requested_access),
{
    (existing_share & FILE_SHARE_READ == 0 && wants_read(requested_access)) || (existing_share
        & FILE_SHARE_WRITE == 0 && wants_write(requested_access)) || (existing_share
        & FILE_SHARE_DELETE == 0 && wants_delete(requested_access)) || (requested_share
        & FILE_SHARE_READ == 0 && wants_read(existing_access)) || (requested_share
        & FILE_SHARE_WRITE == 0 && wants_write(existing_access)) || (requested_share
        & FILE_SHARE_DELETE == 0 && wants_delete(existing_access))
}

/// It does not matter which of two opens comes first.
pub proof fn law_share_conflict_is_symmetric(share1: u32, access1: u32, share2: u32, access2: u32)
    ensures
        share_conflict(share1, access1, share2, access2) == share_conflict(
            share2,
            access2,
            share1,
            access1,
        ),
{
}

/// Opens that share everything never exclude each other, and an open that
/// shares nothing excludes each one that wants to read, write or delete.
pub proof fn law_sharing_extremes(share: u32, access1: u32, access2: u32)
    ensures
        !share_conflict(7, access1, 7, access2),
        spec_wants_read(access2) || spec_wants_write(access2) || spec_wants_delete(access2)
            ==> share_conflict(0, access1, share, access2),
{
    assert(7u32 & 1 != 0 && 7u32 & 2 != 0 && 7u32 & 4 != 0) by (bit_vector);
    assert(0u32 & 1 == 0 && 0u32 & 2 == 0 && 0u32 & 4 == 0) by (bit_vector);
}

/// An oplock that somebody holds on the file.
#[derive(Clone, Debug)]
pub struct OplockInfo {
    pub handle_id: u128,
    pub level: u8,
    pub server_id: String,
    pub session_id: u64,
}

/// The number of a batch oplock.
pub const OPLOCK_BATCH: u8 = 0x09;

/// The number of an exclusive oplock.
pub const OPLOCK_EXCLUSIVE: u8 = 0x08;

/// The number of a level II oplock.
pub const OPLOCK_LEVEL_II: u8 = 0x01;

/// A CREATE request that waits for the handles and the oplocks that are on the
/// file already.
#[derive(Debug)]
pub struct CreateAwaitHandles {
    pub job: CreateJob,
    pub share_name: String,
}

impl CreateAwaitTree {
    /// Takes the tree that the state store found.
    pub fn on_tree(self, reply: TreeReply) -> (r: Result<CreateAwaitHandles, HandlerError>)
        ensures
            match common::tree_outcome(reply, NtStatus::InvalidParameter) {
                Err(e) => r == Err::<CreateAwaitHandles, HandlerError>(e),
                Ok(tree) => r == Ok::<CreateAwaitHandles, HandlerError>(
                    CreateAwaitHandles { job: self.job, share_name: tree.share_name },
                ),
            },
    {
        match common::accept_tree(reply, NtStatus::InvalidParameter) {
            Err(e) => Err(e),
            Ok(tree) => Ok(CreateAwaitHandles { job: self.job, share_name: tree.share_name }),
        }
    }
}

/// The handles of the batch oplocks that other sessions hold.
pub open spec fn batch_oplocks(oplocks: Seq<OplockInfo>, session_id: u64) -> Seq<u128>
    decreases oplocks.len(),
{
    if oplocks.len() == 0 {
        Seq::empty()
    } else {
        let before = batch_oplocks(oplocks.drop_last(), session_id);
        if oplocks.last().session_id != session_id && oplocks.last().level == OPLOCK_BATCH {
            before.push(oplocks.last().handle_id)
        } else {
            before
        }
    }
}

fn find_batch_oplocks(oplocks: &Vec<OplockInfo>, session_id: u64) -> (found: Vec<u128>)
    ensures
        found@ == batch_oplocks(oplocks@, session_id),
{
    let mut found: Vec<u128> = Vec::new();
    let mut i: usize = 0;
    while i < oplocks.len()
        invariant
            i <= oplocks@.len(),
            found@ == batch_oplocks(oplocks@.take(i as int), session_id),
        decreases oplocks@.len() - i,
    {
        let oplock = &oplocks[i];
        assert(oplocks@.take(i + 1).drop_last() =~= oplocks@.take(i as int));
        assert(oplocks@.take(i + 1).last() == oplocks@[i as int]);
        if oplock.session_id != session_id && oplock.level == OPLOCK_BATCH {
            found.push(oplock.handle_id);
        }
        i = i + 1;
    }
    assert(oplocks@.take(i as int) =~= oplocks@);
    found
}

/// A CREATE request that breaks the batch oplocks of other sessions.
#[derive(Debug)]
pub struct CreateBreakRun {
    pub job: CreateJob,
    pub share_name: String,
    pub handles: Vec<HandleState>,
    /// The handles whose oplocks are to be broken.
    pub breaks: Vec<u128>,
    /// How many of them are done.
    pub done: usize,
    /// Whether a break was started.
    pub broken: bool,
}

impl CreateAwaitHandles {
    /// Takes the handles and the oplocks on the file.
    pub fn on_handles(self, reply: Result<Vec<HandleState>, String>, oplocks: &Vec<OplockInfo>) -> (r:
        Result<CreateBreakRun, HandlerError>)
        ensures
            match reply {
                Err(text) => r == Err::<CreateBreakRun, HandlerError>(HandlerError::Internal(text)),
                Ok(handles) => r matches Ok(run) && run.wf() && run.job == self.job
                    && run.share_name == self.share_name && run.handles == handles && run.breaks@
                    == batch_oplocks(oplocks@, self.job.header.session_id) && run.done == 0
                    && !run.broken,
            },
    {
        match reply {
            Err(text) => Err(HandlerError::Internal(text)),
            Ok(handles) => {
                let breaks = find_batch_oplocks(oplocks, self.job.header.session_id);
                Ok(
                    CreateBreakRun {
                        job: self.job,
                        share_name: self.share_name,
                        handles,
                        breaks,
                        done: 0,
                        broken: false,
                    },
                )
            },
        }
    }
}

/// What has to happen next with the batch oplocks of other sessions.
#[derive(Debug)]
pub enum CreateBreakStep {
    /// Start to break the oplock of a handle to a level, without waiting, and
    /// hand to `on_break` whether that was possible.
    Break { run: CreateBreakRun, handle_id: u128, level: u8 },
    /// Look up the handles on the file once more, as their holders may have
    /// closed them, and hand them to `on_handles`.
    Refetch(CreateAwaitHandlesAgain),
    /// Check the handles.
    Check(SharingRun),
}

/// A CREATE request that waits for the handles that are still on the file.
#[derive(Debug)]
pub struct CreateAwaitHandlesAgain {
    pub job: CreateJob,
    pub share_name: String,
}

impl CreateBreakRun {
    pub open spec fn wf(self) -> bool {
        self.done <= self.breaks.len()
    }

    /// What has to happen next: a break, or the check of the handles, which are
    /// looked up once more if a break was started.
    pub open spec fn next_step(self) -> CreateBreakStep {
        if self.done < self.breaks.len() {
            CreateBreakStep::Break {
                run: self,
                handle_id: self.breaks@[self.done as int],
                level: OPLOCK_LEVEL_II,
            }
        } else if self.broken {
            CreateBreakStep::Refetch(
                CreateAwaitHandlesAgain { job: self.job, share_name: self.share_name },
            )
        } else {
            CreateBreakStep::Check(
                SharingRun {
                    job: self.job,
                    share_name: self.share_name,
                    handles: self.handles,
                    done: 0,
                },
            )
        }
    }

    /// Breaks the next oplock, or goes on to check the handles.
    pub fn step(self) -> (step: CreateBreakStep)
        requires
            self.wf(),
        ensures
            step == self.next_step(),
    {
        if self.done < self.breaks.len() {
            let handle_id: u128 = self.breaks[self.done];
            CreateBreakStep::Break { run: self, handle_id, level: OPLOCK_LEVEL_II }
        } else if self.broken {
            CreateBreakStep::Refetch(
                CreateAwaitHandlesAgain { job: self.job, share_name: self.share_name },
            )
        } else {
            CreateBreakStep::Check(
                SharingRun {
                    job: self.job,
                    share_name: self.share_name,
                    handles: self.handles,
                    done: 0,
                },
            )
        }
    }

    /// Takes whether a break was started. If it was, the registry is to note the
    /// handle's new level, which is returned beside the run.
    pub fn on_break(self, started: bool) -> (r: (CreateBreakRun, Option<(u128, u8)>))
        requires
            self.wf(),
            self.done < self.breaks.len(),
        ensures
            r.0 == (CreateBreakRun {
                done: (self.done + 1) as usize,
                broken: self.broken || started,
                ..self
            }),
            r.0.wf(),
            r.1 == if started {
                Some((self.breaks@[self.done as int], OPLOCK_LEVEL_II))
            } else {
                None
            },
    {
        let handle_id: u128 = self.breaks[self.done];
        let mut run = self;
        run.done = run.done + 1;
        if started {
            run.broken = true;
            (run, Some((handle_id, OPLOCK_LEVEL_II)))
        } else {
            (run, None)
        }
    }
}

impl CreateAwaitHandlesAgain {
    /// Takes the handles that are still on the file.
    pub fn on_handles(self, reply: Result<Vec<HandleState>, String>) -> (r: Result<
        SharingRun,
        HandlerError,
    >)
        ensures
            match reply {
                Err(text) => r == Err::<SharingRun, HandlerError>(HandlerError::Internal(text)),
                Ok(handles) => r == Ok::<SharingRun, HandlerError>(
                    SharingRun {
                        job: self.job,
                        share_name: self.share_name,
                        handles,
                        done: 0,
                    },
                ) && r->Ok_0.wf(),
            },
    {
        match reply {
            Err(text) => Err(HandlerError::Internal(text)),
            Ok(handles) => Ok(
                SharingRun { job: self.job, share_name: self.share_name, handles, done: 0 },
            ),
        }
    }
}

/// Whether a lease was found that lets its holder cache that a file is open.
pub open spec fn caches_handle(lease: Option<LeaseEntry>) -> bool {
    lease is Some && lease->0.lease_state & LEASE_HANDLE_CACHING != 0
}

/// A CREATE request whose compatibility with the handles on the file is checked
/// one by one.
#[derive(Debug)]
pub struct SharingRun {
    pub job: CreateJob,
    pub share_name: String,
    /// The handles on the file, without those that gave way.
    pub handles: Vec<HandleState>,
    /// How many handles are checked.
    pub done: usize,
}

/// What has to happen next with a handle on the file.
#[derive(Debug)]
pub enum SharingStep {
    /// Look up the lease of a handle whose client is away, and hand it to
    /// `on_lease`.
    Lease { run: SharingRun, lease_key: String },
    /// Delete a handle whose client is away, and its lease if it has one, then
    /// go on with `step`: the client cannot be told to give up what it caches.
    Discard { run: SharingRun, handle_id: u128, lease: Option<String> },
    /// Go on with `step`.
    Next(SharingRun),
    /// Open the file.
    Open(CreateOpen),
}

/// A CREATE request that may open its file.
#[derive(Debug)]
pub struct CreateOpen {
    pub job: CreateJob,
    pub share_name: String,
}

impl SharingRun {
    /// Whether the new open and a handle exclude each other.
    pub open spec fn conflicts(self, handle: HandleState) -> bool {
        share_conflict(
            handle.share_access,
            handle.access_mask,
            self.job.request.share_access,
            self.job.request.desired_access,
        )
    }

    /// The handles that are checked do not exclude the new open.
    pub open spec fn wf(self) -> bool {
        &&& self.done <= self.handles.len()
        &&& forall|k: int|
            0 <= k < self.done ==> !self.conflicts(#[trigger] self.handles@[k])
    }

    pub open spec fn busy(self) -> bool {
        self.done < self.handles.len()
    }

    /// The handle that is checked.
    pub open spec fn current(self) -> HandleState {
        self.handles@[self.done as int]
    }

    pub open spec fn advanced(self) -> SharingRun {
        SharingRun { done: (self.done + 1) as usize, ..self }
    }

    /// Whether `run` is this one without the current handle.
    pub open spec fn is_without_current(self, run: SharingRun) -> bool {
        &&& run.handles@ == self.handles@.remove(self.done as int)
        &&& run == (SharingRun { handles: run.handles, ..self })
    }

    /// Whether the lease of a handle is to be discarded with it, and which.
    pub open spec fn is_lease_of(lease: Option<String>, handle: HandleState) -> bool {
        match handle.lease_key {
            None => lease is None,
            Some(key) => lease is Some && lease->0@ == text::hex_text(key@),
        }
    }

    /// The current handle is discarded: it gives way to the new open, and only
    /// the others are left.
    pub open spec fn discards(self, r: Result<SharingStep, HandlerError>) -> bool {
        r matches Ok(SharingStep::Discard { run, handle_id, lease }) && self.is_without_current(run)
            && handle_id == self.current().persistent_id && Self::is_lease_of(lease, self.current())
    }

    /// The current handle stays: the request is refused if they exclude each
    /// other.
    pub open spec fn compares(self, r: Result<SharingStep, HandlerError>) -> bool {
        if self.conflicts(self.current()) {
            error::refused(r, NtStatus::SharingViolation)
        } else {
            r == Ok::<SharingStep, HandlerError>(SharingStep::Next(self.advanced()))
        }
    }

    fn discard(self) -> (r: Result<SharingStep, HandlerError>)
        requires
            self.wf(),
            self.busy(),
        ensures
            self.discards(r),
            r matches Ok(SharingStep::Discard { run, .. }) ==> run.wf(),
    {
        let mut run = self;
        let discarded = run.handles.remove(run.done);
        let lease = match &discarded.lease_key {
            None => None,
            Some(key) => Some(text::lease_key_text(key)),
        };
        Ok(SharingStep::Discard { run, handle_id: discarded.persistent_id, lease })
    }

    fn compare(self) -> (r: Result<SharingStep, HandlerError>)
        requires
            self.wf(),
            self.busy(),
        ensures
            self.compares(r),
            !self.conflicts(self.current()) ==> self.advanced().wf(),
    {
        let existing = &self.handles[self.done];
        if has_share_conflict(
            existing.share_access,
            existing.access_mask,
            self.job.request.share_access,
            self.job.request.desired_access,
        ) {
            return Err(HandlerError::Status(NtStatus::SharingViolation));
        }
        let mut run = self;
        run.done = run.done + 1;
        Ok(SharingStep::Next(run))
    }

    /// What comes of the next handle: when all are checked the file is opened. A
    /// handle whose client is away and caches that it is open gives way; with a
    /// lease that has to be looked up first.
    pub open spec fn is_step(self, r: Result<SharingStep, HandlerError>) -> bool {
        if !self.busy() {
            r == Ok::<SharingStep, HandlerError>(
                SharingStep::Open(CreateOpen { job: self.job, share_name: self.share_name }),
            )
        } else if self.current().session_id != 0 {
            self.compares(r)
        } else if self.current().oplock_level == OPLOCK_BATCH {
            self.discards(r)
        } else {
            match self.current().lease_key {
                None => self.compares(r),
                Some(key) => r matches Ok(SharingStep::Lease { run, lease_key }) && run == self
                    && lease_key@ == text::hex_text(key@),
            }
        }
    }

    /// Checks the next handle, or opens the file when all are checked.
    pub fn step(self) -> (r: Result<SharingStep, HandlerError>)
        requires
            self.wf(),
        ensures
            self.is_step(r),
            r matches Ok(SharingStep::Next(run)) ==> run.wf(),
            r matches Ok(SharingStep::Discard { run, .. }) ==> run.wf(),
    {
        if self.done >= self.handles.len() {
            return Ok(SharingStep::Open(CreateOpen { job: self.job, share_name: self.share_name }));
        }
        if self.handles[self.done].session_id != 0 {
            return self.compare();
        }
        if self.handles[self.done].oplock_level == OPLOCK_BATCH {
            return self.discard();
        }
        let lease_key = match &self.handles[self.done].lease_key {
            None => None,
            Some(key) => Some(text::lease_key_text(key)),
        };
        match lease_key {
            None => self.compare(),
            Some(lease_key) => Ok(SharingStep::Lease { run: self, lease_key }),
        }
    }

    /// Takes the lease of the current handle, if it was found.
    pub fn on_lease(self, lease: Option<LeaseEntry>) -> (r: Result<SharingStep, HandlerError>)
        requires
            self.wf(),
            self.busy(),
            self.current().session_id == 0,
            self.current().lease_key is Some,
        ensures
            if caches_handle(lease) {
                self.discards(r)
            } else {
                self.compares(r)
            },
            r matches Ok(SharingStep::Next(run)) ==> run.wf(),
            r matches Ok(SharingStep::Discard { run, .. }) ==> run.wf(),
    {
        let handle_caching = match lease {
            Some(entry) => entry.lease_state & LEASE_HANDLE_CACHING != 0,
            None => false,
        };
        if handle_caching {
            self.discard()
        } else {
            self.compare()
        }
    }
}

/// A file is opened only if no handle on it excludes the open. Those that gave
/// way to it, because their clients are away, are no longer on the file.
pub proof fn law_open_respects_sharing(run: SharingRun)
    requires
        run.wf(),
        !run.busy(),
    ensures
        forall|k: int|
            0 <= k < run.handles@.len() ==> !share_conflict(
                (#[trigger] run.handles@[k]).share_access,
                run.handles@[k].access_mask,
                run.job.request.share_access,
                run.job.request.desired_access,
            ),
{
}

/// What comes of an open beside handles whose clients are all there: it is
/// refused at the first handle that excludes it.
pub open spec fn sharing_outcome(run: SharingRun) -> Result<CreateOpen, HandlerError>
    decreases run.handles.len() - run.done,
{
    if !run.busy() {
        Ok(CreateOpen { job: run.job, share_name: run.share_name })
    } else if run.conflicts(run.current()) {
        Err(HandlerError::Status(NtStatus::SharingViolation))
    } else {
        sharing_outcome(run.advanced())
    }
}

/// Whether the clients of all handles on the file are there.
pub open spec fn all_connected(run: SharingRun) -> bool {
    forall|k: int|
        0 <= k < run.handles@.len() ==> (#[trigger] run.handles@[k]).session_id != 0
}

/// Each step of the check leads to its outcome.
pub proof fn law_steps_lead_to_outcome(run: SharingRun, r: Result<SharingStep, HandlerError>)
    requires
        run.wf(),
        all_connected(run),
        run.is_step(r),
    ensures
        match r {
            Ok(SharingStep::Open(open)) => sharing_outcome(run) == Ok::<CreateOpen, HandlerError>(
                open,
            ),
            Ok(SharingStep::Next(next)) => sharing_outcome(run) == sharing_outcome(next)
                && all_connected(next) && next.handles == run.handles,
            Err(e) => sharing_outcome(run) == Err::<CreateOpen, HandlerError>(e),
            _ => false,
        },
{
    if run.busy() {
        assert(run.handles@[run.done as int].session_id != 0);
    }
}

/// An open beside handles whose clients are all there is refused with a sharing
/// violation if one of them excludes it, and only then; otherwise the file is
/// opened.
pub proof fn law_refused_if_and_only_if_excluded(run: SharingRun)
    requires
        run.wf(),
    ensures
        if exists|k: int| 0 <= k < run.handles@.len() && run.conflicts(#[trigger] run.handles@[k]) {
            error::refused(sharing_outcome(run), NtStatus::SharingViolation)
        } else {
            sharing_outcome(run) == Ok::<CreateOpen, HandlerError>(
                CreateOpen { job: run.job, share_name: run.share_name },
            )
        },
    decreases run.handles.len() - run.done,
{
    if run.busy() {
        if run.conflicts(run.current()) {
            assert(run.conflicts(run.handles@[run.done as int]));
        } else {
            let next = run.advanced();
            assert(next.wf()) by {
                assert forall|k: int| 0 <= k < next.done implies !next.conflicts(
                    #[trigger] next.handles@[k],
                ) by {
                    assert(!run.conflicts(run.handles@[k]));
                }
            }
            law_refused_if_and_only_if_excluded(next);
            assert(forall|k: int|
                0 <= k < run.handles@.len() ==> next.conflicts(#[trigger] run.handles@[k])
                    == run.conflicts(run.handles@[k]));
        }
    }
}

/// How the backend is to open a file.
#[derive(Clone, Copy, Debug, PartialEq, Eq, Structural)]
pub struct CreateParams {
    pub desired_access: u32,
    pub share_access: u32,
    pub create_disposition: u32,
    pub create_options: u32,
    pub file_attributes: u32,
}

/// A CREATE request whose file is open.
#[derive(Debug)]
pub struct CreateOpened {
    pub job: CreateJob,
    pub share_name: String,
    /// What happened to the file.
    pub action: u32,
    pub is_directory: bool,
    pub backend_internal_id: Option<u64>,
}

/// What has to happen next with a file that was opened.
#[derive(Debug)]
pub enum CreateOpenedStep {
    /// The file is new or was emptied: find out its mode and hand it to
    /// `on_metadata`.
    Readonly(CreateReadonly),
    /// Get a new handle id.
    NextId(CreateOpened),
}

/// A CREATE request whose file is to become read-only or writable.
#[derive(Debug)]
pub struct CreateReadonly {
    pub opened: CreateOpened,
    pub readonly: bool,
}

impl CreateOpen {
    pub open spec fn spec_params(self) -> CreateParams {
        CreateParams {
            desired_access: self.job.request.desired_access,
            share_access: self.job.request.share_access,
            create_disposition: self.job.request.create_disposition,
            create_options: self.job.request.create_options,
            file_attributes: self.job.request.file_attributes,
        }
    }

    /// How the backend is to open the file.
    pub fn params(&self) -> (p: CreateParams)
        ensures
            p == self.spec_params(),
    {
        CreateParams {
            desired_access: self.job.request.desired_access,
            share_access: self.job.request.share_access,
            create_disposition: self.job.request.create_disposition,
            create_options: self.job.request.create_options,
            file_attributes: self.job.request.file_attributes,
        }
    }

    /// What comes of opening the file.
    pub open spec fn opened_step(
        self,
        existed: bool,
        reply: Result<Option<u64>, String>,
        is_directory: bool,
    ) -> Result<CreateOpenedStep, HandlerError> {
        match reply {
            Err(text) => Err(HandlerError::Vfs(text)),
            Ok(backend_internal_id) => {
                let action = create_response::create_action(
                    self.job.request.create_disposition,
                    existed,
                );
                let opened = CreateOpened {
                    job: self.job,
                    share_name: self.share_name,
                    action,
                    is_directory,
                    backend_internal_id,
                };
                if action == FILE_OPENED {
                    Ok(CreateOpenedStep::NextId(opened))
                } else {
                    Ok(
                        CreateOpenedStep::Readonly(
                            CreateReadonly {
                                opened,
                                readonly: self.job.request.file_attributes
                                    & FILE_ATTRIBUTE_READONLY != 0,
                            },
                        ),
                    )
                }
            },
        }
    }

    /// Takes whether the file was there before, what came of opening it (the
    /// backend's own number for it), and whether it is a directory.
    pub fn on_opened(
        self,
        existed: bool,
        reply: Result<Option<u64>, String>,
        is_directory: bool,
    ) -> (r: Result<CreateOpenedStep, HandlerError>)
        ensures
            r == self.opened_step(existed, reply, is_directory),
    {
        match reply {
            Err(text) => Err(HandlerError::Vfs(text)),
            Ok(backend_internal_id) => {
                let action: u32 = create_response::compute_create_action(
                    self.job.request.create_disposition,
                    existed,
                );
                let readonly = self.job.request.file_attributes & FILE_ATTRIBUTE_READONLY != 0;
                let opened = CreateOpened {
                    job: self.job,
                    share_name: self.share_name,
                    action,
                    is_directory,
                    backend_internal_id,
                };
                if action == FILE_OPENED {
                    Ok(CreateOpenedStep::NextId(opened))
                } else {
                    Ok(CreateOpenedStep::Readonly(CreateReadonly { opened, readonly }))
                }
            },
        }
    }
}

/// A CREATE request whose file gets a mode.
#[derive(Debug)]
pub struct CreateChmod {
    pub opened: CreateOpened,
    /// The mode to set.
    pub mode: u32,
}

impl CreateReadonly {
    /// Takes what the backend says of the file.
    pub fn on_metadata(self, reply: Result<Metadata, String>) -> (r: Result<CreateChmod, HandlerError>)
        ensures
            match reply {
                Err(text) => r == Err::<CreateChmod, HandlerError>(HandlerError::Vfs(text)),
                Ok(metadata) => r == Ok::<CreateChmod, HandlerError>(
                    CreateChmod {
                        opened: self.opened,
                        mode: storage::readonly_mode(metadata.mode, self.readonly),
                    },
                ),
            },
    {
        match reply {
            Err(text) => Err(HandlerError::Vfs(text)),
            Ok(metadata) => {
                let mode: u32 = storage::apply_readonly_attribute(metadata.mode, self.readonly);
                Ok(CreateChmod { opened: self.opened, mode })
            },
        }
    }
}

impl CreateChmod {
    /// Takes the outcome of setting the mode.
    pub fn on_chmod(self, reply: Result<(), String>) -> (r: Result<CreateOpened, HandlerError>)
        ensures
            match reply {
                Err(text) => r == Err::<CreateOpened, HandlerError>(HandlerError::Vfs(text)),
                Ok(_) => r == Ok::<CreateOpened, HandlerError>(self.opened),
            },
    {
        match reply {
            Err(text) => Err(HandlerError::Vfs(text)),
            Ok(()) => Ok(self.opened),
        }
    }
}

/// The name that a client writes into a request, as UTF-16 at the place that
/// the request says, is the name of the file; its path has slashes where the
/// name has backslashes.
pub proof fn law_requested_path(head: Seq<u8>, body: Seq<u8>, name: Seq<char>)
    requires
        head.len() == 64,
        body.len() >= 56,
        ({
            let bytes = strings::utf16_bytes(strings::utf16_encode(name));
            let offset = codec::u16_at(body, 44) as int;
            &&& 64 <= offset
            &&& codec::u16_at(body, 46) == bytes.len()
            &&& offset + bytes.len() <= 64 + body.len()
            &&& (head + body).subrange(offset, offset + bytes.len() as int) == bytes
        }),
    ensures
        requested_name(body) == name,
        path_of(requested_name(body)).len() == name.len(),
        forall|i: int|
            0 <= i < name.len() ==> #[trigger] path_of(requested_name(body))[i] == if name[i]
                == '\\' {
                '/'
            } else {
                name[i]
            },
{
    let units = strings::utf16_encode(name);
    let bytes = strings::utf16_bytes(units);
    common::law_message_part_is_in_message(
        head,
        body,
        codec::u16_at(body, 44) as int,
        bytes.len() as int,
    );
    strings::law_utf16_bytes_round_trip(units);
    strings::law_utf16_round_trip(name);
    reveal_strlit("/");
    strings::law_replaced_char_by_char(name, '\\', "/"@);
}

/// The file is opened, and later stored, as the bytes of the request say: the
/// oplock in byte 3, then the rights, the attributes, what is shared, what to
/// do and the options.
pub proof fn law_request_is_read(header: Smb2Header, body: Seq<u8>, job: CreateJob)
    requires
        body.len() >= 56,
        job.is_job_of(header, body),
    ensures
        job.header == header,
        job.filename@ == path_of(requested_name(body)),
        job.request.oplock_level.spec_as_u8() == body[3] || !OplockLevel::is_level(body[3]),
        job.request.desired_access == codec::u32_at(body, 24),
        job.request.file_attributes == codec::u32_at(body, 28),
        job.request.share_access == codec::u32_at(body, 32),
        job.request.create_disposition == codec::u32_at(body, 36),
        job.request.create_options == codec::u32_at(body, 40),
{
}

/// The batch oplocks, whose number is 9, that sessions other than the one of
/// the request hold are broken, and no others.
pub proof fn law_batch_oplocks_of_others_are_broken(oplocks: Seq<OplockInfo>, session_id: u64)
    ensures
        forall|i: int|
            0 <= i < oplocks.len() && (#[trigger] oplocks[i]).session_id != session_id
                && oplocks[i].level == 9 ==> batch_oplocks(oplocks, session_id).contains(
                oplocks[i].handle_id,
            ),
        forall|id: u128| #[trigger]
            batch_oplocks(oplocks, session_id).contains(id) ==> exists|i: int|
                0 <= i < oplocks.len() && (#[trigger] oplocks[i]).handle_id == id
                    && oplocks[i].session_id != session_id && oplocks[i].level == 9,
    decreases oplocks.len(),
{
    if oplocks.len() > 0 {
        let before = oplocks.drop_last();
        let found = batch_oplocks(before, session_id);
        let last = oplocks.last();
        law_batch_oplocks_of_others_are_broken(before, session_id);
        let all = batch_oplocks(oplocks, session_id);
        assert forall|id: u128| #[trigger] all.contains(id) == (found.contains(id) || (
        last.session_id != session_id && last.level == 9 && id == last.handle_id)) by {
            crate::handler::lemma_push_contains(found, last.handle_id, id);
        }
        assert forall|i: int|
            0 <= i < oplocks.len() && (#[trigger] oplocks[i]).session_id != session_id
                && oplocks[i].level == 9 implies all.contains(oplocks[i].handle_id) by {
            if i < before.len() {
                assert(before[i] == oplocks[i]);
            }
        }
        assert forall|id: u128| #[trigger] all.contains(id) implies exists|i: int|
            0 <= i < oplocks.len() && (#[trigger] oplocks[i]).handle_id == id
                && oplocks[i].session_id != session_id && oplocks[i].level == 9 by {
            if found.contains(id) {
                let i = choose|i: int|
                    0 <= i < before.len() && (#[trigger] before[i]).handle_id == id
                        && before[i].session_id != session_id && before[i].level == 9;
                assert(oplocks[i] == before[i]);
            } else {
                assert(oplocks[oplocks.len() - 1].handle_id == id);
            }
        }
    }
}

/// A handle whose client is away gives way to a new open if it holds a batch
/// oplock, whose number is 9. Any other one without a lease stays, and the open
/// is refused if the two exclude each other; with a lease, that is looked at
/// first.
pub proof fn law_handles_of_absent_clients(run: SharingRun, r: Result<SharingStep, HandlerError>)
    requires
        run.wf(),
        run.busy(),
        run.is_step(r),
        run.handles@[run.done as int].session_id == 0,
    ensures
        ({
            let handle = run.handles@[run.done as int];
            if handle.oplock_level == 9 {
                r matches Ok(SharingStep::Discard { run: rest, handle_id, .. }) && handle_id
                    == handle.persistent_id && rest.handles@ == run.handles@.remove(
                    run.done as int,
                )
            } else if handle.lease_key is Some {
                r is Ok && r->Ok_0 is Lease
            } else if run.conflicts(handle) {
                error::refused(r, NtStatus::SharingViolation)
            } else {
                r matches Ok(SharingStep::Next(rest)) && rest.done == run.done + 1 && rest.handles
                    == run.handles
            }
        }),
{
}

/// Two opens exclude each other if one of them does not share what the other
/// one wants to do: to read (bit 0 of the rights, or bit 31 or 28), to write
/// (bit 1, 30 or 28) or to delete (bit 16 or 28), for which bits 0, 1 and 2 of
/// what is shared stand.
pub proof fn law_sharing_bits(share1: u32, access1: u32, share2: u32, access2: u32)
    ensures
        share_conflict(share1, access1, share2, access2) <==> {
            ||| share1 & 1 == 0 && access2 & 0x9000_0001 != 0
            ||| share1 & 2 == 0 && access2 & 0x5000_0002 != 0
            ||| share1 & 4 == 0 && access2 & 0x1001_0000 != 0
            ||| share2 & 1 == 0 && access1 & 0x9000_0001 != 0
            ||| share2 & 2 == 0 && access1 & 0x5000_0002 != 0
            ||| share2 & 4 == 0 && access1 & 0x1001_0000 != 0
        },
{
    lemma_right_bits(access1);
    lemma_right_bits(access2);
}

proof fn lemma_right_bits(access: u32)
    ensures
        spec_wants_read(access) <==> access & 0x9000_0001 != 0,
        spec_wants_write(access) <==> access & 0x5000_0002 != 0,
        spec_wants_delete(access) <==> access & 0x1001_0000 != 0,
{
    assert(access & 0x9000_0001 != 0 <==> (access & 1 != 0 || access & 0x8000_0000 != 0 || access
        & 0x1000_0000 != 0)) by (bit_vector);
    assert(access & 0x5000_0002 != 0 <==> (access & 2 != 0 || access & 0x4000_0000 != 0 || access
        & 0x1000_0000 != 0)) by (bit_vector);
    assert(access & 0x1001_0000 != 0 <==> (access & 0x1_0000 != 0 || access & 0x1000_0000 != 0))
        by (bit_vector);
}

/// The first context that asks to come back to a handle decides which handle it
/// is; without one a file is opened.
pub proof fn law_first_reconnect_context_decides(contexts: Seq<CreateContext>, n: int)
    requires
        0 <= n <= contexts.len(),
    ensures
        match reconnect_context(contexts, n) {
            None => forall|i: int|
                n <= i < contexts.len() ==> !((#[trigger] contexts[i]) is DurableHandleReconnect)
                    && !(contexts[i] is DurableHandleReconnectV2),
            Some((id, guid)) => exists|i: int|
                {
                    &&& n <= i < contexts.len()
                    &&& match #[trigger] contexts[i] {
                        CreateContext::DurableHandleReconnect { persistent_id } => id
                            == persistent_id && guid is None,
                        CreateContext::DurableHandleReconnectV2 { persistent, create_guid } => id
                            == persistent && guid == Some(create_guid),
                        _ => false,
                    }
                    &&& forall|j: int|
                        n <= j < i ==> !((#[trigger] contexts[j]) is DurableHandleReconnect)
                            && !(contexts[j] is DurableHandleReconnectV2)
                },
        },
    decreases contexts.len() - n,
{
    if n < contexts.len() {
        if contexts[n] is DurableHandleReconnect || contexts[n] is DurableHandleReconnectV2 {
        } else {
            law_first_reconnect_context_decides(contexts, n + 1);
        }
    }
}

/// The backend opens the file as the bytes of the request say: with the rights
/// at 24, the attributes at 28, sharing what stands at 32, doing what stands at
/// 36, with the options at 40.
pub proof fn law_file_is_opened_as_asked(open: CreateOpen, header: Smb2Header, body: Seq<u8>)
    requires
        body.len() >= 56,
        open.job.is_job_of(header, body),
    ensures
        open.spec_params().desired_access == codec::u32_at(body, 24),
        open.spec_params().file_attributes == codec::u32_at(body, 28),
        open.spec_params().share_access == codec::u32_at(body, 32),
        open.spec_params().create_disposition == codec::u32_at(body, 36),
        open.spec_params().create_options == codec::u32_at(body, 40),
{
}

/// What comes of opening a file: one that was there and is kept goes on to its
/// handle id; one that is new, or of which the contents went away, first gets
/// the read-only attribute (bit 0) that was asked for. Nothing is lost on the
/// way.
pub proof fn law_opened_file_goes_on(
    open: CreateOpen,
    existed: bool,
    id: Option<u64>,
    is_directory: bool,
)
    ensures
        ({
            let step = open.opened_step(existed, Ok(id), is_directory)->Ok_0;
            let disposition = open.job.request.create_disposition;
            let kept = (disposition != 0 && disposition != 2 && disposition != 3 && disposition != 4
                && disposition != 5) || (disposition == 3 && existed);
            let opened = match step {
                CreateOpenedStep::NextId(opened) => opened,
                CreateOpenedStep::Readonly(change) => change.opened,
            };
            &&& open.opened_step(existed, Ok(id), is_directory) is Ok
            &&& step is NextId <==> kept
            &&& step matches CreateOpenedStep::Readonly(change) ==> (change.readonly
                <==> open.job.request.file_attributes & 1 != 0)
            &&& opened.job == open.job
            &&& opened.share_name == open.share_name
            &&& opened.is_directory == is_directory
            &&& opened.backend_internal_id == id
            &&& opened.action == create_response::create_action(disposition, existed)
        }),
{
}

/// Breaks come first, one by one, each to level II (1); then the handles are
/// checked, all of them from the first on, and looked up anew if a break was
/// started.
pub proof fn law_breaks_come_before_check(run: CreateBreakRun)
    requires
        run.wf(),
    ensures
        run.done < run.breaks.len() ==> (run.next_step() matches CreateBreakStep::Break {
            handle_id,
            level,
            ..
        } && handle_id == run.breaks@[run.done as int] && level == 1),
        run.done == run.breaks.len() && run.broken ==> run.next_step() is Refetch,
        run.done == run.breaks.len() && !run.broken ==> (run.next_step() matches
            CreateBreakStep::Check(check) && check.handles == run.handles && check.done == 0
            && check.job == run.job),
{
}

/// A lease lets its holder cache that a file is open if it is there and has bit
/// 1.
pub proof fn law_handle_caching(lease: Option<LeaseEntry>)
    ensures
        caches_handle(lease) <==> (lease matches Some(entry) && entry.lease_state & 2 != 0),
{
}

/// A name is rooted if it starts with a slash of either kind, whatever follows;
/// no other name is, and the empty one is not.
pub proof fn law_rooted_names(first: char, rest: Seq<char>)
    ensures
        is_rooted(seq![first] + rest) <==> first == '/' || first == '\\',
        !is_rooted(Seq::empty()),
{
    assert((seq![first] + rest)[0] == first);
}

} // verus!
