//! CREATE, once the file is open: what is granted of the durable handle, the
//! lease and the oplock that were asked for, and the response.

use vstd::prelude::*;

use crate::codec;
use crate::error;
use crate::error::HandlerError;
use crate::handler::common;
use crate::handler::create;
use crate::handler::create::{
    CreateOpened,
    CreateRequest,
    OplockInfo,
    SharingRun,
    SharingStep,
    OPLOCK_BATCH,
    OPLOCK_EXCLUSIVE,
    OPLOCK_LEVEL_II,
};
use crate::handler::create_context;
use crate::handler::create_context::{CreateContext, CreateContextBuilder, DURABLE_FLAG_PERSISTENT};
use crate::handler::create_response;
use crate::handler::create_response::{CreateReply, FileTimes, FILE_DELETE_ON_CLOSE};
use crate::handler::lease_break;
use crate::handler::lease_break::{OplockLevel, LEASE_HANDLE_CACHING, LEASE_READ_CACHING};
use crate::helpers::info_builders::FULL_ACCESS;
use crate::helpers::strings;
use crate::helpers::time::{current_unix_millis, current_unix_time};
use crate::protocol::dialect::SmbDialect;
use crate::protocol::header::Smb2Header;
use crate::protocol::status::NtStatus;
use crate::state;
use crate::state::{HandleState, LeaseEntry, DEFAULT_DURABLE_TIMEOUT_MS, FIRST_EPOCH};
use crate::storage::{FileType, Metadata};
use crate::text;

verus! {

/// What the contexts of a request ask for.
#[derive(Clone, Copy, Debug)]
pub struct CreateWishes {
    pub is_durable: bool,
    pub is_persistent: bool,
    pub create_guid: Option<[u8; 16]>,
    /// In milliseconds.
    pub durable_timeout: u32,
    pub oplock: OplockLevel,
    pub lease_key: Option<[u8; 16]>,
    pub lease_state: u32,
    pub lease_is_v2: bool,
    pub allocation_size: u64,
    pub maximal_access: bool,
}

/// A request without contexts asks for an oplock at most.
pub open spec fn no_wishes(oplock: OplockLevel) -> CreateWishes {
    CreateWishes {
        is_durable: false,
        is_persistent: false,
        create_guid: None,
        durable_timeout: 0,
        oplock,
        lease_key: None,
        lease_state: 0,
        lease_is_v2: false,
        allocation_size: 0,
        maximal_access: false,
    }
}

/// The oplock that is asked for beside a lease.
pub open spec fn lease_oplock(oplock: OplockLevel, state: u32) -> OplockLevel {
    if state & LEASE_READ_CACHING != 0 {
        OplockLevel::Lease
    } else {
        oplock
    }
}

/// What is asked for with one more context. Handles that outlive the server
/// need a dialect that knows them.
pub open spec fn with_context(wishes: CreateWishes, context: CreateContext, persistent_known: bool) -> CreateWishes {
    match context {
        CreateContext::DurableHandleRequest => CreateWishes { is_durable: true, ..wishes },
        CreateContext::DurableHandleRequestV2 { timeout, flags, guid } => CreateWishes {
            is_durable: true,
            create_guid: Some(guid),
            durable_timeout: timeout,
            is_persistent: wishes.is_persistent || (flags & DURABLE_FLAG_PERSISTENT != 0
                && persistent_known),
            ..wishes
        },
        CreateContext::LeaseRequest { lease_key, lease_state } => CreateWishes {
            lease_key: Some(lease_key),
            lease_state,
            oplock: lease_oplock(wishes.oplock, lease_state),
            ..wishes
        },
        CreateContext::LeaseRequestV2 { key, state } => CreateWishes {
            lease_key: Some(key),
            lease_state: state,
            lease_is_v2: true,
            oplock: lease_oplock(wishes.oplock, state),
            ..wishes
        },
        CreateContext::AllocationSize { allocation_size } => CreateWishes {
            allocation_size,
            ..wishes
        },
        CreateContext::QueryMaximalAccess => CreateWishes { maximal_access: true, ..wishes },
        _ => wishes,
    }
}

/// What the first `n` contexts ask for, beside an oplock.
pub open spec fn wishes_of(contexts: Seq<CreateContext>, n: int, oplock: OplockLevel, persistent_known: bool) -> CreateWishes
    decreases n,
{
    if n <= 0 {
        no_wishes(oplock)
    } else {
        with_context(
            wishes_of(contexts, n - 1, oplock, persistent_known),
            contexts[n - 1],
            persistent_known,
        )
    }
}

/// What is left of the wishes: a durable handle needs a batch oplock, or a lease
/// that lets it stay open.
pub open spec fn grantable(wishes: CreateWishes) -> CreateWishes {
    let caches_handle = match wishes.lease_key {
        None => wishes.oplock == OplockLevel::Batch,
        Some(_) => wishes.lease_state & LEASE_HANDLE_CACHING != 0,
    };
    CreateWishes { is_durable: wishes.is_durable && caches_handle, ..wishes }
}

/// Gathers what a request asks for.
pub fn gather_wishes(contexts: &Vec<CreateContext>, oplock: OplockLevel, dialect: Option<SmbDialect>) -> (w:
    CreateWishes)
    ensures
        w == grantable(
            wishes_of(
                contexts@,
                contexts@.len() as int,
                oplock,
                dialect is Some && dialect->0.spec_at_least(SmbDialect::Smb300),
            ),
        ),
{
    let persistent_known = match dialect {
        Some(d) => d.at_least(SmbDialect::Smb300),
        None => false,
    };
    let mut w = CreateWishes {
        is_durable: false,
        is_persistent: false,
        create_guid: None,
        durable_timeout: 0,
        oplock,
        lease_key: None,
        lease_state: 0,
        lease_is_v2: false,
        allocation_size: 0,
        maximal_access: false,
    };
    let mut i: usize = 0;
    while i < contexts.len()
        invariant
            i <= contexts@.len(),
            w == wishes_of(contexts@, i as int, oplock, persistent_known),
        decreases contexts@.len() - i,
    {
        match contexts[i] {
            CreateContext::DurableHandleRequest => {
                w.is_durable = true;
            },
            CreateContext::DurableHandleRequestV2 { timeout, flags, guid } => {
                w.is_durable = true;
                w.create_guid = Some(guid);
                w.durable_timeout = timeout;
                if flags & DURABLE_FLAG_PERSISTENT != 0 && persistent_known {
                    w.is_persistent = true;
                }
            },
            CreateContext::LeaseRequest { lease_key, lease_state } => {
                w.lease_key = Some(lease_key);
                w.lease_state = lease_state;
                if lease_state & LEASE_READ_CACHING != 0 {
                    w.oplock = OplockLevel::Lease;
                }
            },
            CreateContext::LeaseRequestV2 { key, state } => {
                w.lease_key = Some(key);
                w.lease_state = state;
                w.lease_is_v2 = true;
                if state & LEASE_READ_CACHING != 0 {
                    w.oplock = OplockLevel::Lease;
                }
            },
            CreateContext::AllocationSize { allocation_size } => {
                w.allocation_size = allocation_size;
            },
            CreateContext::QueryMaximalAccess => {
                w.maximal_access = true;
            },
            _ => {},
        }
        i = i + 1;
    }
    if w.is_durable && w.lease_key.is_none() && w.oplock != OplockLevel::Batch {
        w.is_durable = false;
    } else if w.is_durable && w.lease_key.is_some() && w.lease_state & LEASE_HANDLE_CACHING == 0 {
        w.is_durable = false;
    }
    w
}

/// A durable handle is granted only with a batch oplock or with a lease that
/// lets it stay open, and only if it was asked for.
pub proof fn law_durable_needs_caching(wishes: CreateWishes)
    ensures
        grantable(wishes).is_durable ==> wishes.is_durable && (wishes.oplock == OplockLevel::Batch
            || (wishes.lease_key is Some && wishes.lease_state & LEASE_HANDLE_CACHING != 0)),
        grantable(grantable(wishes)) == grantable(wishes),
{
}

/// How long a durable handle waits for its client.
pub open spec fn granted_timeout(durable_timeout: u32) -> u32 {
    if durable_timeout > 0 {
        durable_timeout
    } else {
        DEFAULT_DURABLE_TIMEOUT_MS
    }
}

/// The handle of a file that was opened. A durable one gets the GUID of its
/// client, or else a fresh one.
pub open spec fn opened_handle(
    opened: CreateOpened,
    wishes: CreateWishes,
    handle_id: u128,
    fresh_guid: [u8; 16],
    now: u64,
    now_ms: u64,
) -> HandleState {
    let request = opened.job.request;
    HandleState {
        persistent_id: handle_id,
        volatile_id: handle_id,
        tree_id: opened.job.header.tree_id,
        session_id: opened.job.header.session_id,
        path: opened.job.filename,
        share_name: opened.share_name,
        access_mask: request.desired_access,
        share_access: request.share_access,
        create_options: request.create_options,
        create_disposition: request.create_disposition,
        file_attributes: request.file_attributes,
        is_durable: wishes.is_durable,
        is_persistent: wishes.is_persistent,
        created_at: now,
        last_access: now,
        create_guid: if !wishes.is_durable {
            None
        } else if wishes.create_guid is Some {
            wishes.create_guid
        } else {
            Some(fresh_guid)
        },
        app_instance_id: None,
        file_offset: 0,
        durable_timeout: if wishes.is_durable {
            granted_timeout(wishes.durable_timeout)
        } else {
            wishes.durable_timeout
        },
        reconnect_deadline: if wishes.is_durable {
            Some(state::deadline(now_ms, granted_timeout(wishes.durable_timeout)))
        } else {
            None
        },
        lease_key: None,
        oplock_level: wishes.oplock.spec_as_u8(),
        bound_server_id: None,
        delete_on_close: request.create_options & FILE_DELETE_ON_CLOSE != 0,
        is_directory: opened.is_directory,
        backend_internal_id: opened.backend_internal_id,
    }
}

/// A file that is open, with the handle that it is going to get.
#[derive(Debug)]
pub struct PendingOpen {
    pub header: Smb2Header,
    pub request: CreateRequest,
    /// What happened to the file.
    pub action: u32,
    pub wishes: CreateWishes,
    pub handle: HandleState,
    pub granted_lease_state: u32,
}

impl CreateOpened {
    /// What comes of asking for a new handle id, at a time in seconds and in
    /// milliseconds.
    pub open spec fn pending_open(
        self,
        reply: Result<u128, String>,
        dialect: Option<SmbDialect>,
        fresh_guid: [u8; 16],
        now: u64,
        now_ms: u64,
    ) -> Result<PendingOpen, HandlerError> {
        let wishes = grantable(
            wishes_of(
                self.job.contexts@,
                self.job.contexts@.len() as int,
                self.job.request.oplock_level,
                dialect is Some && dialect->0.spec_at_least(SmbDialect::Smb300),
            ),
        );
        match reply {
            Err(text) => Err(HandlerError::Internal(text)),
            Ok(handle_id) => Ok(
                PendingOpen {
                    header: self.job.header,
                    request: self.job.request,
                    action: self.action,
                    wishes,
                    handle: opened_handle(self, wishes, handle_id, fresh_guid, now, now_ms),
                    granted_lease_state: 0,
                },
            ),
        }
    }

    /// Takes a new handle id. A durable handle whose client gave no GUID gets a
    /// random one.
    pub fn on_handle_id(self, reply: Result<u128, String>, dialect: Option<SmbDialect>) -> (r: Result<
        PendingOpen,
        HandlerError,
    >)
        ensures
            exists|fresh_guid: [u8; 16], now: u64, now_ms: u64|
                r == #[trigger] self.pending_open(reply, dialect, fresh_guid, now, now_ms),
    {
        self.on_handle_id_at(
            reply,
            dialect,
            text::random_guid(),
            current_unix_time(),
            current_unix_millis(),
        )
    }

    /// Takes a new handle id. `fresh_guid` is a random GUID; the time is given in
    /// seconds and in milliseconds.
    pub fn on_handle_id_at(
        self,
        reply: Result<u128, String>,
        dialect: Option<SmbDialect>,
        fresh_guid: [u8; 16],
        now: u64,
        now_ms: u64,
    ) -> (r: Result<PendingOpen, HandlerError>)
        ensures
            r == self.pending_open(reply, dialect, fresh_guid, now, now_ms),
    {
        let handle_id: u128 = match reply {
            Err(text) => {
                return Err(HandlerError::Internal(text));
            },
            Ok(handle_id) => handle_id,
        };
        let wishes = gather_wishes(&self.job.contexts, self.job.request.oplock_level, dialect);
        let request = self.job.request;
        let header = self.job.header;
        let mut handle = HandleState {
            persistent_id: handle_id,
            volatile_id: handle_id,
            tree_id: header.tree_id,
            session_id: header.session_id,
            path: self.job.filename,
            share_name: self.share_name,
            access_mask: request.desired_access,
            share_access: request.share_access,
            create_options: request.create_options,
            create_disposition: request.create_disposition,
            file_attributes: request.file_attributes,
            is_durable: wishes.is_durable,
            is_persistent: wishes.is_persistent,
            created_at: now,
            last_access: now,
            create_guid: None,
            app_instance_id: None,
            file_offset: 0,
            durable_timeout: wishes.durable_timeout,
            reconnect_deadline: None,
            lease_key: None,
            oplock_level: wishes.oplock.as_u8(),
            bound_server_id: None,
            delete_on_close: request.create_options & FILE_DELETE_ON_CLOSE != 0,
            is_directory: self.is_directory,
            backend_internal_id: self.backend_internal_id,
        };
        if wishes.is_durable {
            handle.create_guid = match wishes.create_guid {
                Some(guid) => Some(guid),
                None => Some(fresh_guid),
            };
            let timeout_ms: u32 = if wishes.durable_timeout > 0 {
                wishes.durable_timeout
            } else {
                DEFAULT_DURABLE_TIMEOUT_MS
            };
            handle.set_durable_timeout(timeout_ms, now_ms);
        }
        Ok(
            PendingOpen {
                header,
                request,
                action: self.action,
                wishes,
                handle,
                granted_lease_state: 0,
            },
        )
    }
}

/// The path by which leases on a file are kept: the share and the path in it.
pub open spec fn lease_path(handle: HandleState) -> Seq<char> {
    handle.share_name@ + seq!['/'] + handle.path@
}

/// What has to happen next for the lease of an open file.
#[derive(Debug)]
pub enum LeaseStart {
    /// Have the state store look for leases that stand against this one, grant
    /// what can be granted and store it; then hand its answer to `on_grant`.
    Ask(CreateAwaitGrant),
    /// No lease was asked for.
    NoLease(PendingOpen),
}

/// A file that waits for its lease.
#[derive(Debug)]
pub struct CreateAwaitGrant {
    pub open: PendingOpen,
    pub key: [u8; 16],
    /// The lease to store.
    pub lease: LeaseEntry,
}

impl PendingOpen {
    /// What comes of asking for the lease, at a time in seconds.
    pub open spec fn asks_lease(
        self,
        client_guid: [u8; 16],
        server_id: String,
        now: u64,
        r: LeaseStart,
    ) -> bool {
        match self.wishes.lease_key {
            None => r == LeaseStart::NoLease(self),
            Some(key) => {
                &&& r matches LeaseStart::Ask(a)
                &&& a.open == self
                &&& a.key == key
                &&& a.lease.lease_key@ == text::hex_text(key@)
                &&& a.lease.file_path@ == lease_path(self.handle)
                &&& a.lease == (LeaseEntry {
                    lease_key: a.lease.lease_key,
                    client_guid,
                    session_id: self.header.session_id,
                    server_id,
                    file_path: a.lease.file_path,
                    lease_state: self.wishes.lease_state,
                    epoch: FIRST_EPOCH,
                    created_at: now,
                    breaking: false,
                    break_to_state: 0,
                    break_started_at: None,
                    is_v2: self.wishes.lease_is_v2,
                })
            },
        }
    }

    /// Asks for the lease, if one is wanted.
    pub fn ask_lease(self, client_guid: [u8; 16], server_id: String) -> (r: LeaseStart)
        ensures
            exists|now: u64| self.asks_lease(client_guid, server_id, now, r),
    {
        self.ask_lease_at(client_guid, server_id, current_unix_time())
    }

    /// Asks for the lease, if one is wanted, at a time in seconds.
    pub fn ask_lease_at(self, client_guid: [u8; 16], server_id: String, now: u64) -> (r: LeaseStart)
        ensures
            self.asks_lease(client_guid, server_id, now, r),
    {
        match self.wishes.lease_key {
            None => LeaseStart::NoLease(self),
            Some(key) => {
                let file_path = strings::join_path(
                    self.handle.share_name.as_str(),
                    self.handle.path.as_str(),
                );
                let lease = LeaseEntry::new(
                    text::lease_key_text(&key),
                    client_guid,
                    self.header.session_id,
                    server_id,
                    file_path,
                    self.wishes.lease_state,
                    self.wishes.lease_is_v2,
                    now,
                );
                LeaseStart::Ask(CreateAwaitGrant { open: self, key, lease })
            },
        }
    }
}

/// What the state store grants of a lease, and which leases stand against it.
#[derive(Debug)]
pub struct LeaseGrant {
    pub granted_state: u32,
    pub conflicts: Vec<LeaseEntry>,
}

/// The leases that are served by one server.
pub open spec fn leases_of_server(leases: Seq<LeaseEntry>, server_id: Seq<char>) -> Seq<LeaseEntry>
    decreases leases.len(),
{
    if leases.len() == 0 {
        Seq::empty()
    } else {
        let before = leases_of_server(leases.drop_last(), server_id);
        if leases.last().server_id@ == server_id {
            before.push(leases.last())
        } else {
            before
        }
    }
}

fn take_leases_of_server(leases: Vec<LeaseEntry>, server_id: &String) -> (kept: Vec<LeaseEntry>)
    ensures
        kept@ == leases_of_server(leases@, server_id@),
{
    let mut kept: Vec<LeaseEntry> = Vec::new();
    let ghost all = leases@;
    let ghost mut done: int = 0;
    for lease in iter: leases
        invariant
            iter.seq() == all,
            done == iter.index(),
            kept@ == leases_of_server(all.take(done), server_id@),
    {
        proof {
            assert(all.take(done + 1).drop_last() =~= all.take(done));
            assert(all.take(done + 1).last() == lease);
            done = done + 1;
        }
        if lease.server_id == *server_id {
            kept.push(lease);
        }
    }
    assert(all.take(all.len() as int) =~= all);
    kept
}

/// What has to happen next with a lease that was granted.
#[derive(Debug)]
pub enum GrantStep {
    /// Break a lease of this server and hand the outcome to `on_break`.
    Break { run: LeaseBreakRun, lease_key: String, current: u32, break_to: u32, epoch: u16 },
    /// Go on with `step`.
    Next(LeaseBreakRun),
    /// Look up the leases on the file again and hand them to `on_leases`.
    Recheck(LeaseBreakRun),
    /// Register the lease for this connection, then go on with the oplock.
    Register(LeaseRegistration),
}

/// A lease that is granted.
#[derive(Debug)]
pub struct LeaseRegistration {
    pub open: PendingOpen,
    /// The lease's key as text.
    pub lease_key: String,
}

/// A lease that was granted, while the leases of this server that stand against
/// it are broken.
#[derive(Debug)]
pub struct LeaseBreakRun {
    pub open: PendingOpen,
    pub key: [u8; 16],
    /// The lease's key as text.
    pub lease_key: String,
    /// The leases of this server that stand against it.
    pub conflicts: Vec<LeaseEntry>,
    /// How many of them are done.
    pub done: usize,
}

/// What comes of asking for a lease.
#[derive(Debug)]
pub enum GrantOutcome {
    /// The lease was not stored: the file is opened without it.
    Without(PendingOpen),
    Granted(LeaseBreakRun),
}

impl CreateAwaitGrant {
    /// Takes what the state store grants, or that it failed.
    pub fn on_grant(self, reply: Option<LeaseGrant>) -> (r: GrantOutcome)
        ensures
            match reply {
                None => r == GrantOutcome::Without(self.open),
                Some(grant) => {
                    &&& r matches GrantOutcome::Granted(run)
                    &&& run.wf()
                    &&& run.open == (PendingOpen {
                        granted_lease_state: grant.granted_state,
                        ..self.open
                    })
                    &&& run.key == self.key
                    &&& run.lease_key == self.lease.lease_key
                    &&& run.conflicts@ == leases_of_server(
                        grant.conflicts@,
                        self.lease.server_id@,
                    )
                    &&& run.done == 0
                },
            },
    {
        match reply {
            None => GrantOutcome::Without(self.open),
            Some(grant) => {
                let conflicts = take_leases_of_server(grant.conflicts, &self.lease.server_id);
                let mut open = self.open;
                open.granted_lease_state = grant.granted_state;
                GrantOutcome::Granted(
                    LeaseBreakRun {
                        open,
                        key: self.key,
                        lease_key: self.lease.lease_key,
                        conflicts,
                        done: 0,
                    },
                )
            },
        }
    }
}

/// How the holder of a lease took the break.
#[derive(Clone, Copy, Debug, PartialEq, Eq, Structural)]
pub enum LeaseBreakResult {
    /// It confirmed the break and keeps this state.
    Acknowledged(u32),
    /// It did not answer.
    TimedOut,
    /// It is gone.
    Disconnected,
    /// It did not have to answer.
    NoAckRequired,
    /// The lease was broken already.
    AlreadyBroken,
}

/// The state that a holder is left with. One that does not answer, or is gone,
/// loses all of it.
pub open spec fn state_after_break(result: LeaseBreakResult, break_to: u32) -> u32 {
    match result {
        LeaseBreakResult::Acknowledged(state) => state,
        LeaseBreakResult::TimedOut => 0,
        LeaseBreakResult::Disconnected => 0,
        LeaseBreakResult::NoAckRequired => break_to,
        LeaseBreakResult::AlreadyBroken => break_to,
    }
}

/// A lease after it was broken.
pub open spec fn broken_lease(lease: LeaseEntry, state: u32) -> LeaseEntry {
    lease_break::acknowledged_lease(lease, state)
}

/// Whether one of the leases on a file, other than the one with the given key,
/// stands against a state.
pub open spec fn any_lease_conflict(leases: Seq<LeaseEntry>, lease_key: Seq<char>, requested: u32) -> bool {
    exists|i: int|
        0 <= i < leases.len() && (#[trigger] leases[i]).lease_key@ != lease_key
            && lease_break::lease_conflict(leases[i].lease_state, requested)
}

fn find_lease_conflict(leases: &Vec<LeaseEntry>, lease_key: &String, requested: u32) -> (b: bool)
    ensures
        b == any_lease_conflict(leases@, lease_key@, requested),
{
    let mut i: usize = 0;
    while i < leases.len()
        invariant
            i <= leases@.len(),
            forall|k: int|
                0 <= k < i ==> (#[trigger] leases@[k]).lease_key@ == lease_key@
                    || !lease_break::lease_conflict(leases@[k].lease_state, requested),
        decreases leases@.len() - i,
    {
        if leases[i].lease_key != *lease_key && lease_break::has_lease_conflict(
            leases[i].lease_state,
            requested,
        ) {
            return true;
        }
        i = i + 1;
    }
    false
}

impl LeaseBreakRun {
    pub open spec fn wf(self) -> bool {
        self.done <= self.conflicts.len()
    }

    pub open spec fn busy(self) -> bool {
        self.done < self.conflicts.len()
    }

    /// The lease that is being broken.
    pub open spec fn current(self) -> LeaseEntry {
        self.conflicts@[self.done as int]
    }

    /// What the lease that is being broken is left with.
    pub open spec fn break_to(self) -> u32 {
        lease_break::break_state(self.current().lease_state, self.open.wishes.lease_state)
    }

    pub open spec fn advanced(self) -> LeaseBreakRun {
        LeaseBreakRun { done: (self.done + 1) as usize, ..self }
    }

    /// The open file with its lease in a state.
    pub open spec fn with_lease(self, state: u32) -> PendingOpen {
        PendingOpen {
            granted_lease_state: state,
            handle: HandleState { lease_key: Some(self.key), ..self.open.handle },
            ..self.open
        }
    }

    fn register(self, state: u32) -> (r: LeaseRegistration)
        ensures
            r.open == self.with_lease(state),
            r.lease_key == self.lease_key,
    {
        let mut open = self.open;
        open.granted_lease_state = state;
        open.handle.lease_key = Some(self.key);
        LeaseRegistration { open, lease_key: self.lease_key }
    }

    /// Breaks the next lease, as far as that takes something from it. When all
    /// are broken more may be granted than before; with none to break the grant
    /// stands.
    pub fn step(self) -> (step: GrantStep)
        requires
            self.wf(),
        ensures
            if self.busy() {
                if self.break_to() != self.current().lease_state {
                    &&& step matches GrantStep::Break { run, lease_key, current, break_to, epoch }
                    &&& run == self
                    &&& lease_key == self.current().lease_key
                    &&& current == self.current().lease_state
                    &&& break_to == self.break_to()
                    &&& epoch == lease_break::next_epoch(self.current().epoch)
                } else {
                    step == GrantStep::Next(self.advanced())
                }
            } else if self.conflicts.len() > 0 {
                step == GrantStep::Recheck(self)
            } else {
                step == GrantStep::Register(
                    LeaseRegistration {
                        open: self.with_lease(self.open.granted_lease_state),
                        lease_key: self.lease_key,
                    },
                )
            },
            step matches GrantStep::Next(run) ==> run.wf(),
    {
        if self.done < self.conflicts.len() {
            let conflict = &self.conflicts[self.done];
            let current: u32 = conflict.lease_state;
            let break_to: u32 = lease_break::calculate_break_state(
                current,
                self.open.wishes.lease_state,
            );
            if break_to != current {
                let lease_key = conflict.lease_key.clone();
                let epoch: u16 = conflict.epoch.wrapping_add(1);
                GrantStep::Break { run: self, lease_key, current, break_to, epoch }
            } else {
                let mut run = self;
                run.done = run.done + 1;
                GrantStep::Next(run)
            }
        } else if self.conflicts.len() > 0 {
            GrantStep::Recheck(self)
        } else {
            let state: u32 = self.open.granted_lease_state;
            GrantStep::Register(self.register(state))
        }
    }

    /// Takes how the holder took the break, or that it could not be told. What
    /// is left of the lease, returned beside the run, is to be stored.
    pub fn on_break(self, result: Option<LeaseBreakResult>) -> (r: (LeaseBreakRun, Option<LeaseEntry>))
        requires
            self.wf(),
            self.busy(),
        ensures
            r.0 == self.advanced(),
            r.0.wf(),
            r.1 == match result {
                None => None,
                Some(result) => Some(
                    broken_lease(self.current(), state_after_break(result, self.break_to())),
                ),
            },
    {
        let mut run = self;
        let index: usize = run.done;
        run.done = index + 1;
        match result {
            None => (run, None),
            Some(result) => {
                let break_to: u32 = lease_break::calculate_break_state(
                    run.conflicts[index].lease_state,
                    run.open.wishes.lease_state,
                );
                let state: u32 = match result {
                    LeaseBreakResult::Acknowledged(state) => state,
                    LeaseBreakResult::TimedOut => 0,
                    LeaseBreakResult::Disconnected => 0,
                    LeaseBreakResult::NoAckRequired => break_to,
                    LeaseBreakResult::AlreadyBroken => break_to,
                };
                let conflict = &run.conflicts[index];
                let lease = LeaseEntry {
                    lease_key: conflict.lease_key.clone(),
                    client_guid: conflict.client_guid,
                    session_id: conflict.session_id,
                    server_id: conflict.server_id.clone(),
                    file_path: conflict.file_path.clone(),
                    lease_state: state,
                    epoch: conflict.epoch.wrapping_add(1),
                    created_at: conflict.created_at,
                    breaking: false,
                    break_to_state: 0,
                    break_started_at: None,
                    is_v2: conflict.is_v2,
                };
                (run, Some(lease))
            },
        }
    }

    /// What is granted once the leases that stood in the way are broken.
    pub open spec fn state_after(self, leases: Option<Vec<LeaseEntry>>) -> u32 {
        if leases is Some && !any_lease_conflict(
            leases->0@,
            self.lease_key@,
            self.open.wishes.lease_state,
        ) {
            self.open.wishes.lease_state
        } else {
            self.open.granted_lease_state
        }
    }

    /// Takes the leases that are on the file now, if they could be looked up: if
    /// none of them stands against it any more, all that was asked for is
    /// granted.
    pub fn on_leases(self, leases: Option<Vec<LeaseEntry>>) -> (r: LeaseRegistration)
        ensures
            r.lease_key == self.lease_key,
            r.open == self.with_lease(self.state_after(leases)),
    {
        let state: u32 = match leases {
            None => self.open.granted_lease_state,
            Some(leases) => if find_lease_conflict(
                &leases,
                &self.lease_key,
                self.open.wishes.lease_state,
            ) {
                self.open.granted_lease_state
            } else {
                self.open.wishes.lease_state
            },
        };
        self.register(state)
    }
}

/// What has to happen next for the oplock of an open file.
#[derive(Debug)]
pub enum OplockStart {
    /// Look up the oplocks on the file and hand them to `on_oplocks`.
    Look(CreateAwaitOplocks),
    /// There is no oplock to grant.
    Store(CreateStore),
}

/// A file that waits for the oplocks that are on it.
#[derive(Debug)]
pub struct CreateAwaitOplocks {
    pub open: PendingOpen,
}

/// A file whose handle is to be stored.
#[derive(Debug)]
pub struct CreateStore {
    pub open: PendingOpen,
}

impl PendingOpen {
    /// The oplock to register for the handle, if it has one.
    pub open spec fn registration(self) -> Option<OplockRegistration> {
        if self.wants_oplock() {
            Some(
                OplockRegistration {
                    handle_id: self.handle.persistent_id,
                    session_id: self.header.session_id,
                    level: self.wishes.oplock.spec_as_u8(),
                    path: self.handle.path,
                    share_name: self.handle.share_name,
                },
            )
        } else {
            None
        }
    }

    /// Whether an oplock is asked for, and no lease.
    pub open spec fn wants_oplock(self) -> bool {
        self.wishes.lease_key is None && self.wishes.oplock != OplockLevel::NoOplock
    }

    /// The open file with an oplock.
    pub open spec fn with_oplock(self, level: OplockLevel) -> PendingOpen {
        PendingOpen {
            wishes: CreateWishes { oplock: level, ..self.wishes },
            handle: HandleState { oplock_level: level.spec_as_u8(), ..self.handle },
            ..self
        }
    }

    /// Asks for the oplocks on the file, if one is wanted.
    pub fn ask_oplock(self) -> (r: OplockStart)
        ensures
            r == if self.wants_oplock() {
                OplockStart::Look(CreateAwaitOplocks { open: self })
            } else {
                OplockStart::Store(CreateStore { open: self.with_oplock(self.wishes.oplock) })
            },
    {
        if self.wishes.lease_key.is_none() && self.wishes.oplock != OplockLevel::NoOplock {
            OplockStart::Look(CreateAwaitOplocks { open: self })
        } else {
            let mut open = self;
            open.handle.oplock_level = open.wishes.oplock.as_u8();
            OplockStart::Store(CreateStore { open })
        }
    }
}

/// The handles of the exclusive and batch oplocks that this server serves.
pub open spec fn exclusive_oplocks(oplocks: Seq<OplockInfo>, server_id: Seq<char>) -> Seq<u128>
    decreases oplocks.len(),
{
    if oplocks.len() == 0 {
        Seq::empty()
    } else {
        let before = exclusive_oplocks(oplocks.drop_last(), server_id);
        if oplocks.last().server_id@ == server_id && (oplocks.last().level == OPLOCK_BATCH
            || oplocks.last().level == OPLOCK_EXCLUSIVE) {
            before.push(oplocks.last().handle_id)
        } else {
            before
        }
    }
}

fn find_exclusive_oplocks(oplocks: &Vec<OplockInfo>, server_id: &String) -> (found: Vec<u128>)
    ensures
        found@ == exclusive_oplocks(oplocks@, server_id@),
{
    let mut found: Vec<u128> = Vec::new();
    let mut i: usize = 0;
    while i < oplocks.len()
        invariant
            i <= oplocks@.len(),
            found@ == exclusive_oplocks(oplocks@.take(i as int), server_id@),
        decreases oplocks@.len() - i,
    {
        let oplock = &oplocks[i];
        assert(oplocks@.take(i + 1).drop_last() =~= oplocks@.take(i as int));
        assert(oplocks@.take(i + 1).last() == oplocks@[i as int]);
        if oplock.server_id == *server_id && (oplock.level == OPLOCK_BATCH || oplock.level
            == OPLOCK_EXCLUSIVE) {
            found.push(oplock.handle_id);
        }
        i = i + 1;
    }
    assert(oplocks@.take(i as int) =~= oplocks@);
    found
}

/// A file whose oplock is asked for, while the oplocks that stand against it are
/// broken.
#[derive(Debug)]
pub struct OplockBreakRun {
    pub open: PendingOpen,
    /// The handles whose oplocks are to be broken.
    pub conflicts: Vec<u128>,
    /// How many of them are done.
    pub done: usize,
}

impl CreateAwaitOplocks {
    /// Takes the oplocks that are on the file.
    pub fn on_oplocks(self, oplocks: &Vec<OplockInfo>, server_id: &String) -> (run: OplockBreakRun)
        ensures
            run.wf(),
            run.open == self.open,
            run.conflicts@ == exclusive_oplocks(oplocks@, server_id@),
            run.done == 0,
    {
        let conflicts = find_exclusive_oplocks(oplocks, server_id);
        OplockBreakRun { open: self.open, conflicts, done: 0 }
    }
}

/// What has to happen next with the oplocks that stand against a new one.
#[derive(Debug)]
pub enum OplockStep {
    /// Break the oplock of a handle to a level, wait for its holder, and hand to
    /// `on_break` whether that went well.
    Break { run: OplockBreakRun, handle_id: u128, level: u8 },
    /// Look up the oplocks on the file again and hand them to `on_remaining`.
    Remaining(OplockBreakRun),
}

/// Whether anybody holds an oplock.
pub open spec fn any_oplock(oplocks: Seq<OplockInfo>) -> bool {
    exists|i: int| 0 <= i < oplocks.len() && (#[trigger] oplocks[i]).level != 0
}

/// The oplock that is granted beside others: none that excludes them.
pub open spec fn granted_oplock(wanted: OplockLevel, others: bool) -> OplockLevel {
    if others && (wanted == OplockLevel::Batch || wanted == OplockLevel::Exclusive) {
        OplockLevel::LevelII
    } else {
        wanted
    }
}

impl OplockBreakRun {
    pub open spec fn wf(self) -> bool {
        self.done <= self.conflicts.len()
    }

    /// What has to happen next: a break, or a look at what is left.
    pub open spec fn next_step(self) -> OplockStep {
        if self.done < self.conflicts.len() {
            OplockStep::Break {
                run: self,
                handle_id: self.conflicts@[self.done as int],
                level: OPLOCK_LEVEL_II,
            }
        } else {
            OplockStep::Remaining(self)
        }
    }

    /// Breaks the next oplock, or goes on when all are broken.
    pub fn step(self) -> (step: OplockStep)
        requires
            self.wf(),
        ensures
            step == self.next_step(),
    {
        if self.done < self.conflicts.len() {
            let handle_id: u128 = self.conflicts[self.done];
            OplockStep::Break { run: self, handle_id, level: OPLOCK_LEVEL_II }
        } else {
            OplockStep::Remaining(self)
        }
    }

    /// Takes whether a break went well. If it did, the registry is to note the
    /// handle's new level, which is returned beside the run.
    pub fn on_break(self, broken: bool) -> (r: (OplockBreakRun, Option<(u128, u8)>))
        requires
            self.wf(),
            self.done < self.conflicts.len(),
        ensures
            r.0 == (OplockBreakRun { done: (self.done + 1) as usize, ..self }),
            r.0.wf(),
            r.1 == if broken {
                Some((self.conflicts@[self.done as int], OPLOCK_LEVEL_II))
            } else {
                None
            },
    {
        let handle_id: u128 = self.conflicts[self.done];
        let mut run = self;
        run.done = run.done + 1;
        if broken {
            (run, Some((handle_id, OPLOCK_LEVEL_II)))
        } else {
            (run, None)
        }
    }

    /// Takes the oplocks that are left on the file.
    #[verifier::loop_isolation(false)]
    pub fn on_remaining(self, oplocks: &Vec<OplockInfo>) -> (r: CreateStore)
        ensures
            r.open == self.open.with_oplock(
                granted_oplock(self.open.wishes.oplock, any_oplock(oplocks@)),
            ),
    {
        let mut others = false;
        let mut i: usize = 0;
        while i < oplocks.len()
            invariant
                i <= oplocks@.len(),
                others == any_oplock(oplocks@.take(i as int)),
            decreases oplocks@.len() - i,
        {
            proof {
                let before = oplocks@.take(i as int);
                let now = oplocks@.take(i + 1);
                assert(now =~= before.push(oplocks@[i as int]));
                if any_oplock(before) {
                    let k = choose|k: int| 0 <= k < before.len() && (#[trigger] before[k]).level != 0;
                    assert(now[k].level != 0);
                }
                if any_oplock(now) {
                    let k = choose|k: int| 0 <= k < now.len() && (#[trigger] now[k]).level != 0;
                    if k < i {
                        assert(before[k].level != 0);
                    }
                }
                assert(now[i as int] == oplocks@[i as int]);
            }
            if oplocks[i].level != 0 {
                others = true;
            }
            i = i + 1;
        }
        assert(oplocks@.take(i as int) =~= oplocks@);
        let mut open = self.open;
        if others && (open.wishes.oplock == OplockLevel::Batch || open.wishes.oplock
            == OplockLevel::Exclusive) {
            open.wishes.oplock = OplockLevel::LevelII;
        }
        open.handle.oplock_level = open.wishes.oplock.as_u8();
        CreateStore { open }
    }
}

/// An oplock that excludes others is never granted beside one.
pub proof fn law_exclusive_oplock_is_alone(wanted: OplockLevel, oplocks: Seq<OplockInfo>)
    ensures
        ({
            let granted = granted_oplock(wanted, any_oplock(oplocks));
            &&& granted == OplockLevel::Batch || granted == OplockLevel::Exclusive ==> forall|i: int|
                0 <= i < oplocks.len() ==> (#[trigger] oplocks[i]).level == 0
            &&& granted == wanted || granted == OplockLevel::LevelII
        }),
{
}

/// An oplock that is to be registered for this connection.
#[derive(Debug)]
pub struct OplockRegistration {
    pub handle_id: u128,
    pub session_id: u64,
    pub level: u8,
    pub path: String,
    pub share_name: String,
}

/// A file that waits for what the backend says of it. If there is a
/// registration, it comes first.
#[derive(Debug)]
pub struct CreateAwaitMetadata {
    pub open: PendingOpen,
    pub register: Option<OplockRegistration>,
}

impl CreateStore {
    /// Takes the outcome of storing the handle.
    pub fn on_stored(self, reply: Result<(), String>) -> (r: Result<CreateAwaitMetadata, HandlerError>)
        ensures
            match reply {
                Err(text) => r == Err::<CreateAwaitMetadata, HandlerError>(
                    HandlerError::Internal(text),
                ),
                Ok(_) => r == Ok::<CreateAwaitMetadata, HandlerError>(
                    CreateAwaitMetadata {
                        open: self.open,
                        register: self.open.registration(),
                    },
                ),
            },
    {
        match reply {
            Err(text) => Err(HandlerError::Internal(text)),
            Ok(()) => {
                let register = if self.open.wishes.lease_key.is_none() && self.open.wishes.oplock
                    != OplockLevel::NoOplock {
                    Some(
                        OplockRegistration {
                            handle_id: self.open.handle.persistent_id,
                            session_id: self.open.header.session_id,
                            level: self.open.wishes.oplock.as_u8(),
                            path: self.open.handle.path.clone(),
                            share_name: self.open.handle.share_name.clone(),
                        },
                    )
                } else {
                    None
                };
                Ok(CreateAwaitMetadata { open: self.open, register })
            },
        }
    }
}

/// The context that grants a durable handle.
pub open spec fn granted_durable_contexts(wishes: CreateWishes) -> Seq<create_context::RawContext> {
    if !wishes.is_durable {
        Seq::empty()
    } else if wishes.is_persistent {
        seq![create_context::durable_v2_context(wishes.durable_timeout, DURABLE_FLAG_PERSISTENT)]
    } else if wishes.create_guid is Some {
        seq![create_context::durable_v2_context(wishes.durable_timeout, 0)]
    } else {
        seq![create_context::durable_context()]
    }
}

/// The context that says what was granted of a lease.
pub open spec fn granted_lease_contexts(wishes: CreateWishes, state: u32) -> Seq<
    create_context::RawContext,
> {
    match wishes.lease_key {
        None => Seq::empty(),
        Some(key) => if wishes.lease_is_v2 {
            seq![
                create_context::lease_v2_context(key@, state, 0, codec::zeros(16), FIRST_EPOCH),
            ]
        } else {
            seq![create_context::lease_context(key@, state, 0)]
        },
    }
}

/// The context that says what the client may do.
pub open spec fn granted_access_contexts(wishes: CreateWishes) -> Seq<create_context::RawContext> {
    if wishes.maximal_access {
        seq![
            create_context::maximal_access_context(NtStatus::Success.spec_code(), FULL_ACCESS),
        ]
    } else {
        Seq::empty()
    }
}

impl CreateAwaitMetadata {
    pub open spec fn contexts(self) -> Seq<create_context::RawContext> {
        granted_durable_contexts(self.open.wishes) + granted_lease_contexts(
            self.open.wishes,
            self.open.granted_lease_state,
        ) + granted_access_contexts(self.open.wishes)
    }

    /// What the client is told about the file.
    pub open spec fn reply(self, metadata: Option<Metadata>, times: FileTimes) -> CreateReply {
        let attributes = create_response::response_attributes(
            self.open.action,
            self.open.request.file_attributes,
            self.open.request.create_options,
            metadata,
        );
        CreateReply {
            oplock_level: self.open.wishes.oplock,
            create_action: self.open.action,
            times,
            allocation_size: create_response::response_allocation(
                attributes,
                self.open.wishes.allocation_size,
                metadata,
            ),
            end_of_file: match metadata {
                Some(m) => m.size,
                None => 0,
            },
            file_attributes: attributes,
            handle_id: self.open.handle.persistent_id,
        }
    }

    /// Takes what the backend says of the file, if anything, and builds the
    /// response, which gives the present time for those of the file.
    pub fn on_metadata(self, metadata: Option<Metadata>, credits: u16) -> (message: Vec<u8>)
        ensures
            exists|times: FileTimes|
                times.are_clock_times() && message@ == common::response(
                    self.open.header,
                    NtStatus::Success,
                    credits,
                    create_response::create_body(
                        #[trigger] self.reply(metadata, times),
                        create_context::built_contexts(self.contexts()),
                    ),
                ),
    {
        self.on_metadata_at(metadata, FileTimes::now(), credits)
    }

    /// Takes what the backend says of the file, if anything, and builds the
    /// response with the given times.
    pub fn on_metadata_at(self, metadata: Option<Metadata>, times: FileTimes, credits: u16) -> (message:
        Vec<u8>)
        ensures
            message@ == common::response(
                self.open.header,
                NtStatus::Success,
                credits,
                create_response::create_body(
                    self.reply(metadata, times),
                    create_context::built_contexts(self.contexts()),
                ),
            ),
    {
        let wishes = &self.open.wishes;
        let mut builder = CreateContextBuilder::new();
        if wishes.is_durable {
            if wishes.is_persistent {
                builder.add_durable_handle_response_v2(
                    wishes.durable_timeout,
                    DURABLE_FLAG_PERSISTENT,
                );
            } else if wishes.create_guid.is_some() {
                builder.add_durable_handle_response_v2(wishes.durable_timeout, 0);
            } else {
                builder.add_durable_handle_response();
            }
        }
        assert(builder@ =~= granted_durable_contexts(*wishes));
        if let Some(key) = &wishes.lease_key {
            if wishes.lease_is_v2 {
                let no_parent = [0u8; 16];
                assert(no_parent@ =~= codec::zeros(16));
                builder.add_lease_response_v2(
                    key,
                    self.open.granted_lease_state,
                    0,
                    &no_parent,
                    FIRST_EPOCH,
                );
            } else {
                builder.add_lease_response(key, self.open.granted_lease_state, 0);
            }
        }
        assert(builder@ =~= granted_durable_contexts(*wishes) + granted_lease_contexts(
            *wishes,
            self.open.granted_lease_state,
        ));
        if wishes.maximal_access {
            builder.add_maximal_access_response(NtStatus::Success.code(), FULL_ACCESS);
        }
        assert(builder@ =~= self.contexts());
        let contexts = builder.build();
        let attributes: u32 = create_response::compute_response_attributes(
            self.open.action,
            self.open.request.file_attributes,
            self.open.request.create_options,
            &metadata,
        );
        let reply = CreateReply {
            oplock_level: wishes.oplock,
            create_action: self.open.action,
            times,
            allocation_size: create_response::compute_response_allocation(
                attributes,
                wishes.allocation_size,
                &metadata,
            ),
            end_of_file: match &metadata {
                Some(m) => m.size,
                None => 0,
            },
            file_attributes: attributes,
            handle_id: self.open.handle.persistent_id,
        };
        create_response::build_create_response(
            &self.open.header,
            &reply,
            contexts.as_slice(),
            credits,
        )
    }
}

/// The oplock that a client is told about is the one that its handle is stored
/// with, and the file id leads to that handle.
pub proof fn law_client_is_told_what_is_stored(
    open: PendingOpen,
    level: OplockLevel,
    register: Option<OplockRegistration>,
    metadata: Option<Metadata>,
    times: FileTimes,
)
    ensures
        ({
            let stored = open.with_oplock(level);
            let reply = (CreateAwaitMetadata { open: stored, register }).reply(metadata, times);
            &&& reply.oplock_level.spec_as_u8() == stored.handle.oplock_level
            &&& common::spec_handle_id(
                common::persistent_half(reply.handle_id),
                common::volatile_half(reply.handle_id),
            ) == stored.handle.persistent_id
        }),
{
    common::law_file_id_round_trip(open.handle.persistent_id);
}

/// A handle that was just opened belongs to the request that opened it.
pub proof fn law_opened_handle_is_usable(
    opened: CreateOpened,
    wishes: CreateWishes,
    handle_id: u128,
    fresh_guid: [u8; 16],
    now: u64,
    now_ms: u64,
)
    requires
        opened.job.header.session_id != 0,
    ensures
        common::handle_refusal(
            opened.job.header,
            opened_handle(opened, wishes, handle_id, fresh_guid, now, now_ms),
        ) is None,
        opened_handle(opened, wishes, handle_id, fresh_guid, now, now_ms).is_durable
            == opened_handle(opened, wishes, handle_id, fresh_guid, now, now_ms).create_guid is Some,
{
}

/// The handle that is stored for a request has what the request asked for: the
/// rights in the four bytes at 24 of its body, what it shares in those at 32,
/// the attributes at 28, what to do at 36 and the options at 40, whose bit 12
/// has the file deleted when it is closed. It stands for the file that the
/// request names, in the session and the tree of the request.
pub proof fn law_stored_handle_has_what_was_asked(
    opened: CreateOpened,
    header: Smb2Header,
    body: Seq<u8>,
    handle_id: u128,
    dialect: Option<SmbDialect>,
    fresh_guid: [u8; 16],
    now: u64,
    now_ms: u64,
)
    requires
        body.len() >= 56,
        opened.job.is_job_of(header, body),
    ensures
        ({
            let p = opened.pending_open(Ok(handle_id), dialect, fresh_guid, now, now_ms)->Ok_0;
            let stored = p.handle;
            &&& opened.pending_open(Ok(handle_id), dialect, fresh_guid, now, now_ms) is Ok
            &&& stored.access_mask == codec::u32_at(body, 24)
            &&& stored.file_attributes == codec::u32_at(body, 28)
            &&& stored.share_access == codec::u32_at(body, 32)
            &&& stored.create_disposition == codec::u32_at(body, 36)
            &&& stored.create_options == codec::u32_at(body, 40)
            &&& stored.delete_on_close == (codec::u32_at(body, 40) & 0x1000 != 0)
            &&& stored.path@ == create::path_of(create::requested_name(body))
            &&& stored.share_name == opened.share_name
            &&& stored.is_directory == opened.is_directory
            &&& stored.backend_internal_id == opened.backend_internal_id
            &&& stored.session_id == header.session_id
            &&& stored.tree_id == header.tree_id
            &&& stored.persistent_id == handle_id
            &&& stored.volatile_id == handle_id
            &&& stored.file_offset == 0
            &&& stored.created_at == now && stored.last_access == now
            &&& stored.lease_key is None
            &&& stored.bound_server_id is None
            &&& p.header == header
            &&& p.action == opened.action
            &&& p.granted_lease_state == 0
        }),
{
}

/// An open beside a handle that another request opened, and whose client is
/// there, is refused with a sharing violation if what one of the two requests
/// shares leaves out what the other one wants to do, and only then. The rights
/// stand at 24 and what is shared at 32 of each body; bits 0, 1 and 2 share
/// reading, writing and deleting.
pub proof fn law_later_open_respects_earlier_one(
    opened: CreateOpened,
    header: Smb2Header,
    body: Seq<u8>,
    handle_id: u128,
    dialect: Option<SmbDialect>,
    fresh_guid: [u8; 16],
    now: u64,
    now_ms: u64,
    stored: HandleState,
    run: SharingRun,
    later_header: Smb2Header,
    later_body: Seq<u8>,
    r: Result<SharingStep, HandlerError>,
)
    requires
        body.len() >= 56,
        later_body.len() >= 56,
        header.session_id != 0,
        opened.job.is_job_of(header, body),
        stored == (HandleState {
            oplock_level: stored.oplock_level,
            lease_key: stored.lease_key,
            ..opened.pending_open(
                Ok(handle_id),
                dialect,
                fresh_guid,
                now,
                now_ms,
            )->Ok_0.handle
        }),
        run.job.is_job_of(later_header, later_body),
        run.wf(),
        run.busy(),
        run.current() == stored,
        run.is_step(r),
    ensures
        ({
            let access = codec::u32_at(body, 24);
            let share = codec::u32_at(body, 32);
            let later_access = codec::u32_at(later_body, 24);
            let later_share = codec::u32_at(later_body, 32);
            let excluded = {
                ||| share & 1 == 0 && later_access & 0x9000_0001 != 0
                ||| share & 2 == 0 && later_access & 0x5000_0002 != 0
                ||| share & 4 == 0 && later_access & 0x1001_0000 != 0
                ||| later_share & 1 == 0 && access & 0x9000_0001 != 0
                ||| later_share & 2 == 0 && access & 0x5000_0002 != 0
                ||| later_share & 4 == 0 && access & 0x1001_0000 != 0
            };
            &&& excluded ==> error::refused(r, NtStatus::SharingViolation)
            &&& !excluded ==> (r matches Ok(SharingStep::Next(next)) && next.done == run.done
                + 1)
        }),
{
    create::law_sharing_bits(
        codec::u32_at(body, 32),
        codec::u32_at(body, 24),
        codec::u32_at(later_body, 32),
        codec::u32_at(later_body, 24),
    );
}

/// What is granted of an oplock or a lease changes nothing else about the
/// handle.
pub proof fn law_grants_keep_handle(open: PendingOpen, level: OplockLevel, run: LeaseBreakRun, state: u32)
    ensures
        open.with_oplock(level).handle == (HandleState {
            oplock_level: level.spec_as_u8(),
            ..open.handle
        }),
        open.with_oplock(level).wishes.oplock == level,
        open.with_oplock(level).granted_lease_state == open.granted_lease_state,
        run.with_lease(state).handle == (HandleState {
            lease_key: Some(run.key),
            ..run.open.handle
        }),
        run.with_lease(state).granted_lease_state == state,
        run.with_lease(state).wishes == run.open.wishes,
{
}

/// The oplocks that stand against a new one are those of this server that are
/// exclusive (number 8) or batch (number 9): each of them is broken, and no
/// other one.
pub proof fn law_excluding_oplocks_are_broken(oplocks: Seq<OplockInfo>, server_id: Seq<char>)
    ensures
        forall|i: int|
            0 <= i < oplocks.len() && (#[trigger] oplocks[i]).server_id@ == server_id && (
            oplocks[i].level == 8 || oplocks[i].level == 9) ==> exclusive_oplocks(
                oplocks,
                server_id,
            ).contains(oplocks[i].handle_id),
        forall|id: u128| #[trigger]
            exclusive_oplocks(oplocks, server_id).contains(id) ==> exists|i: int|
                0 <= i < oplocks.len() && (#[trigger] oplocks[i]).handle_id == id
                    && oplocks[i].server_id@ == server_id && (oplocks[i].level == 8
                    || oplocks[i].level == 9),
    decreases oplocks.len(),
{
    if oplocks.len() > 0 {
        let before = oplocks.drop_last();
        let found = exclusive_oplocks(before, server_id);
        let last = oplocks.last();
        let all = exclusive_oplocks(oplocks, server_id);
        law_excluding_oplocks_are_broken(before, server_id);
        assert forall|id: u128| #[trigger] all.contains(id) == (found.contains(id) || (
        last.server_id@ == server_id && (last.level == 8 || last.level == 9) && id
            == last.handle_id)) by {
            crate::handler::lemma_push_contains(found, last.handle_id, id);
        }
        assert forall|i: int|
            0 <= i < oplocks.len() && (#[trigger] oplocks[i]).server_id@ == server_id && (
            oplocks[i].level == 8 || oplocks[i].level == 9) implies all.contains(
            oplocks[i].handle_id,
        ) by {
            if i < before.len() {
                assert(before[i] == oplocks[i]);
            }
        }
        assert forall|id: u128| #[trigger] all.contains(id) implies exists|i: int|
            0 <= i < oplocks.len() && (#[trigger] oplocks[i]).handle_id == id
                && oplocks[i].server_id@ == server_id && (oplocks[i].level == 8 || oplocks[i].level
                == 9) by {
            if found.contains(id) {
                let i = choose|i: int|
                    0 <= i < before.len() && (#[trigger] before[i]).handle_id == id
                        && before[i].server_id@ == server_id && (before[i].level == 8
                        || before[i].level == 9);
                assert(oplocks[i] == before[i]);
            } else {
                assert(oplocks[oplocks.len() - 1].handle_id == id);
            }
        }
    }
}

/// The handles whose oplocks a run has asked to be broken so far.
pub open spec fn asked_to_break(run: OplockBreakRun) -> Seq<u128> {
    run.conflicts@.take(run.done as int)
}

/// Each step asks for the break of one more oplock. When a run goes on to look
/// at what is left, each exclusive (8) or batch (9) oplock of this server that
/// was on the file was asked to be broken, and no other one was. With distinct
/// handles this holds of each oplock on its own.
pub proof fn law_breaks_come_before_grant(
    run: OplockBreakRun,
    oplocks: Seq<OplockInfo>,
    server_id: Seq<char>,
)
    requires
        run.wf(),
        run.conflicts@ == exclusive_oplocks(oplocks, server_id),
    ensures
        run.done < run.conflicts.len() ==> asked_to_break(
            OplockBreakRun { done: (run.done + 1) as usize, ..run },
        ) == asked_to_break(run).push(run.conflicts@[run.done as int]),
        run.done == run.conflicts.len() ==> forall|i: int|
            0 <= i < oplocks.len() && (#[trigger] oplocks[i]).server_id@ == server_id && (
            oplocks[i].level == 8 || oplocks[i].level == 9) ==> asked_to_break(run).contains(
                oplocks[i].handle_id,
            ),
        (forall|i: int, j: int|
            0 <= i < j < oplocks.len() ==> (#[trigger] oplocks[i]).handle_id != (
            #[trigger] oplocks[j]).handle_id) ==> forall|i: int|
            0 <= i < oplocks.len() && asked_to_break(run).contains(
                (#[trigger] oplocks[i]).handle_id,
            ) ==> oplocks[i].server_id@ == server_id && (oplocks[i].level == 8 || oplocks[i].level
                == 9),
{
    law_excluding_oplocks_are_broken(oplocks, server_id);
    let asked = asked_to_break(run);
    if run.done < run.conflicts.len() {
        let next = OplockBreakRun { done: (run.done + 1) as usize, ..run };
        assert(asked_to_break(next) =~= asked.push(run.conflicts@[run.done as int]));
    } else {
        assert(asked =~= run.conflicts@);
    }
    assert forall|id: u128| #[trigger] asked.contains(id) implies run.conflicts@.contains(id) by {
        let k = choose|k: int| 0 <= k < asked.len() && asked[k] == id;
        assert(run.conflicts@[k] == id);
    }
    if forall|i: int, j: int|
        0 <= i < j < oplocks.len() ==> (#[trigger] oplocks[i]).handle_id != (
        #[trigger] oplocks[j]).handle_id {
        assert forall|i: int|
            0 <= i < oplocks.len() && asked.contains(
                (#[trigger] oplocks[i]).handle_id,
            ) implies oplocks[i].server_id@ == server_id && (oplocks[i].level == 8
            || oplocks[i].level == 9) by {
            let id = oplocks[i].handle_id;
            assert(exclusive_oplocks(oplocks, server_id).contains(id));
            let k = choose|k: int|
                0 <= k < oplocks.len() && (#[trigger] oplocks[k]).handle_id == id
                    && oplocks[k].server_id@ == server_id && (oplocks[k].level == 8
                    || oplocks[k].level == 9);
            assert(k == i);
        }
    }
}

/// The oplock that is granted, by its number: a batch (9) or exclusive (8) one
/// only if nobody else holds one of any number but 0, and then what was asked
/// for; otherwise level II (1) stands in its place. Any other one is granted as
/// it was asked for.
pub proof fn law_granted_oplock_number(wanted: OplockLevel, oplocks: Seq<OplockInfo>)
    ensures
        ({
            let granted = granted_oplock(wanted, any_oplock(oplocks)).spec_as_u8();
            let alone = forall|i: int|
                0 <= i < oplocks.len() ==> (#[trigger] oplocks[i]).level == 0;
            let excludes = wanted.spec_as_u8() == 8 || wanted.spec_as_u8() == 9;
            &&& excludes && !alone ==> granted == 1
            &&& !excludes || alone ==> granted == wanted.spec_as_u8()
        }),
{
}

/// The leases of this server that stand against a new one are broken, all of
/// them and in order, and no lease of another server.
pub proof fn law_leases_of_server_are_broken(leases: Seq<LeaseEntry>, server_id: Seq<char>)
    ensures
        leases_of_server(leases, server_id) == leases.filter(
            |lease: LeaseEntry| lease.server_id@ == server_id,
        ),
    decreases leases.len(),
{
    reveal(Seq::filter);
    if leases.len() > 0 {
        law_leases_of_server_are_broken(leases.drop_last(), server_id);
    }
}

/// What the contexts of a request ask for. A durable handle is asked for if one
/// of them is a request for it, a lease likewise, and the most that the client
/// may do is asked for by a context of its own.
pub proof fn law_wishes_come_from_contexts(
    contexts: Seq<CreateContext>,
    n: int,
    oplock: OplockLevel,
    persistent_known: bool,
)
    requires
        0 <= n <= contexts.len(),
    ensures
        ({
            let w = wishes_of(contexts, n, oplock, persistent_known);
            &&& w.is_durable <==> exists|i: int|
                0 <= i < n && ((#[trigger] contexts[i]) is DurableHandleRequest
                    || contexts[i] is DurableHandleRequestV2)
            &&& w.is_persistent <==> persistent_known && exists|i: int|
                0 <= i < n && ((#[trigger] contexts[i]) matches
                    CreateContext::DurableHandleRequestV2 { flags, .. } && flags & 2 != 0)
            &&& w.lease_key is Some <==> exists|i: int|
                0 <= i < n && ((#[trigger] contexts[i]) is LeaseRequest
                    || contexts[i] is LeaseRequestV2)
            &&& w.lease_is_v2 <==> exists|i: int|
                0 <= i < n && (#[trigger] contexts[i]) is LeaseRequestV2
            &&& w.maximal_access <==> exists|i: int|
                0 <= i < n && (#[trigger] contexts[i]) is QueryMaximalAccess
            &&& w.oplock == oplock || w.oplock == OplockLevel::Lease
        }),
    decreases n,
{
    if n > 0 {
        law_wishes_come_from_contexts(contexts, n - 1, oplock, persistent_known);
        assert(contexts[n - 1] == contexts[n - 1]);
    }
}

/// What the last context of a request asks for is what counts, whatever stands
/// before it: the key and the state of its lease, the time and the GUID of its
/// durable handle, its size. A lease that caches reads (bit 0) takes the place
/// of the oplock.
pub proof fn law_last_context_counts(
    contexts: Seq<CreateContext>,
    oplock: OplockLevel,
    persistent_known: bool,
)
    requires
        contexts.len() > 0,
    ensures
        ({
            let w = wishes_of(contexts, contexts.len() as int, oplock, persistent_known);
            match contexts.last() {
                CreateContext::LeaseRequest { lease_key, lease_state } => w.lease_key == Some(
                    lease_key,
                ) && w.lease_state == lease_state && (lease_state & 1 != 0 ==> w.oplock
                    == OplockLevel::Lease),
                CreateContext::LeaseRequestV2 { key, state } => w.lease_key == Some(key)
                    && w.lease_state == state && (state & 1 != 0 ==> w.oplock
                    == OplockLevel::Lease),
                CreateContext::DurableHandleRequestV2 { timeout, guid, .. } => w.create_guid
                    == Some(guid) && w.durable_timeout == timeout,
                CreateContext::AllocationSize { allocation_size } => w.allocation_size
                    == allocation_size,
                _ => true,
            }
        }),
{
}

/// A durable handle is granted if it was asked for beside a batch oplock (9)
/// and no lease, or beside a lease that has bit 1, and only then. Nothing else
/// of what was asked for changes.
pub proof fn law_durable_is_granted(wishes: CreateWishes)
    ensures
        grantable(wishes).is_durable <==> wishes.is_durable && (match wishes.lease_key {
            None => wishes.oplock.spec_as_u8() == 9,
            Some(_) => wishes.lease_state & 2 != 0,
        }),
        grantable(wishes) == (CreateWishes { is_durable: grantable(wishes).is_durable, ..wishes }),
{
}

/// A durable handle that is stored can be told from others by its GUID, waits
/// for its client as long as was asked for, or a minute, and no longer than
/// until then; any other handle has no GUID and does not wait.
pub proof fn law_stored_durable_handle(
    opened: CreateOpened,
    wishes: CreateWishes,
    handle_id: u128,
    fresh_guid: [u8; 16],
    now: u64,
    now_ms: u64,
)
    ensures
        ({
            let stored = opened_handle(opened, wishes, handle_id, fresh_guid, now, now_ms);
            &&& stored.is_durable == wishes.is_durable
            &&& stored.is_persistent == wishes.is_persistent
            &&& stored.oplock_level == wishes.oplock.spec_as_u8()
            &&& wishes.is_durable ==> {
                &&& stored.create_guid == Some(
                    match wishes.create_guid {
                        Some(guid) => guid,
                        None => fresh_guid,
                    },
                )
                &&& stored.durable_timeout == if wishes.durable_timeout == 0 {
                    60_000u32
                } else {
                    wishes.durable_timeout
                }
                &&& now_ms + stored.durable_timeout <= u64::MAX ==> stored.reconnect_deadline
                    == Some((now_ms + stored.durable_timeout) as u64)
            }
            &&& !wishes.is_durable ==> stored.create_guid is None && stored.reconnect_deadline
                is None
        }),
{
}

/// What a client is told of the file that it opened: the size that the backend
/// gives, and for an open that found the file what the backend says it is.
pub proof fn law_client_is_told_of_file(
    file: CreateAwaitMetadata,
    metadata: Metadata,
    times: FileTimes,
)
    ensures
        ({
            let reply = file.reply(Some(metadata), times);
            &&& reply.end_of_file == metadata.size
            &&& reply.create_action == file.open.action
            &&& reply.handle_id == file.open.handle.persistent_id
            &&& reply.oplock_level == file.open.wishes.oplock
            &&& reply.times == times
            &&& metadata.file_type == FileType::Directory ==> reply.file_attributes & 0x10 != 0
                && reply.allocation_size == 0
            &&& file.open.action != 2 && metadata.file_type != FileType::Directory
                ==> reply.file_attributes & 0x10 == 0
        }),
{
    create_response::law_attributes_describe_file(
        file.open.action,
        file.open.request.file_attributes,
        file.open.request.create_options,
        Some(metadata),
    );
}

/// What a client is told of what was granted: a context for the durable handle
/// if it got one, one for the lease with the state that was granted, one for
/// what it may do if it asked for that, and nothing else.
pub proof fn law_client_is_told_of_grants(file: CreateAwaitMetadata)
    ensures
        ({
            let w = file.open.wishes;
            let durable: int = if w.is_durable {
                1
            } else {
                0
            };
            let lease: int = if w.lease_key is Some {
                1
            } else {
                0
            };
            let access: int = if w.maximal_access {
                1
            } else {
                0
            };
            let contexts = file.contexts();
            &&& contexts.len() == durable + lease + access
            &&& w.is_durable && (w.is_persistent || w.create_guid is Some) ==> contexts[0]
                == create_context::durable_v2_context(
                w.durable_timeout,
                if w.is_persistent {
                    2
                } else {
                    0
                },
            )
            &&& w.is_durable && !w.is_persistent && w.create_guid is None ==> contexts[0]
                == create_context::durable_context()
            &&& w.lease_key matches Some(key) ==> contexts[durable] == if w.lease_is_v2 {
                create_context::lease_v2_context(
                    key@,
                    file.open.granted_lease_state,
                    0,
                    codec::zeros(16),
                    1,
                )
            } else {
                create_context::lease_context(key@, file.open.granted_lease_state, 0)
            }
            &&& w.maximal_access ==> contexts[durable + lease]
                == create_context::maximal_access_context(0, 0x1F_01FF)
        }),
{
}

/// A lease on the file other than the one with the given key stands against a
/// state if one of the two caches writes (bit 1).
pub proof fn law_standing_lease(leases: Seq<LeaseEntry>, lease_key: Seq<char>, requested: u32)
    ensures
        any_lease_conflict(leases, lease_key, requested) <==> exists|i: int|
            0 <= i < leases.len() && (#[trigger] leases[i]).lease_key@ != lease_key && (
            leases[i].lease_state & 2 != 0 || requested & 2 != 0),
{
}

/// What the holder of a lease is left with when it was told to give up all but
/// `break_to`: what it confirmed, all of that if it had nothing to confirm, and
/// nothing if it did not answer.
pub proof fn law_holder_keeps_what_it_confirmed(result: LeaseBreakResult, break_to: u32)
    ensures
        result matches LeaseBreakResult::Acknowledged(state) ==> state_after_break(
            result,
            break_to,
        ) == state,
        result is TimedOut || result is Disconnected ==> state_after_break(result, break_to) == 0,
        result is NoAckRequired || result is AlreadyBroken ==> state_after_break(result, break_to)
            == break_to,
{
}

/// An oplock that stands in the way is broken to level II (1), the next one
/// first; when none is left, what remains is looked at.
pub proof fn law_oplocks_are_broken_to_level_two(run: OplockBreakRun)
    requires
        run.wf(),
    ensures
        run.done < run.conflicts.len() ==> (run.next_step() matches OplockStep::Break {
            handle_id,
            level,
            ..
        } && handle_id == run.conflicts@[run.done as int] && level == 1),
        run.done == run.conflicts.len() ==> run.next_step() == OplockStep::Remaining(run),
{
}

/// Leases are kept by the share and the path in it: two handles share their
/// leases if they are on the same file, and only then, as long as no share has
/// a slash in its name.
pub proof fn law_leases_are_kept_by_file(a: HandleState, b: HandleState)
    requires
        !a.share_name@.contains('/'),
        !b.share_name@.contains('/'),
    ensures
        lease_path(a) == lease_path(b) <==> a.share_name@ == b.share_name@ && a.path@ == b.path@,
{
    if lease_path(a) == lease_path(b) {
        let n = a.share_name@.len() as int;
        let m = b.share_name@.len() as int;
        if n < m {
            assert(lease_path(a)[n] == '/');
            assert(lease_path(b)[n] == b.share_name@[n]);
            assert(b.share_name@.contains(b.share_name@[n]));
        } else if m < n {
            assert(lease_path(b)[m] == '/');
            assert(lease_path(a)[m] == a.share_name@[m]);
            assert(a.share_name@.contains(a.share_name@[m]));
        }
        assert(lease_path(a).subrange(0, n) =~= a.share_name@);
        assert(lease_path(b).subrange(0, n) =~= b.share_name@);
        assert(lease_path(a).skip(n + 1) =~= a.path@);
        assert(lease_path(b).skip(n + 1) =~= b.path@);
    }
}

/// The lease that is asked for is the one that the request names, in the state
/// that it names, on the file that was opened and for its session; it is new,
/// and not being broken.
pub proof fn law_lease_is_asked_for(
    open: PendingOpen,
    client_guid: [u8; 16],
    server_id: String,
    now: u64,
    r: LeaseStart,
)
    requires
        open.asks_lease(client_guid, server_id, now, r),
    ensures
        r is Ask <==> open.wishes.lease_key is Some,
        r matches LeaseStart::NoLease(same) ==> same == open,
        r matches LeaseStart::Ask(a) ==> {
            &&& a.open == open
            &&& Some(a.key) == open.wishes.lease_key
            &&& a.lease.lease_key@ == text::hex_text(a.key@)
            &&& a.lease.lease_state == open.wishes.lease_state
            &&& a.lease.is_v2 == open.wishes.lease_is_v2
            &&& a.lease.file_path@ == lease_path(open.handle)
            &&& a.lease.session_id == open.header.session_id
            &&& a.lease.client_guid == client_guid
            &&& a.lease.server_id == server_id
            &&& a.lease.epoch == 1
            &&& a.lease.created_at == now
            &&& !a.lease.breaking && a.lease.break_to_state == 0 && a.lease.break_started_at
                is None
        },
{
}

/// A lease that stands in the way loses what bit 1 of it allows, and all but bit
/// 0 if the new one has bit 1.
pub proof fn law_standing_lease_gives_way(run: LeaseBreakRun)
    requires
        run.busy(),
    ensures
        ({
            let held = run.conflicts@[run.done as int].lease_state;
            let wanted = run.open.wishes.lease_state;
            &&& wanted & 2 != 0 ==> run.break_to() == held & 1
            &&& wanted & 2 == 0 ==> run.break_to() == held & 0xFFFF_FFFD
        }),
{
    lease_break::law_lease_bits(
        run.conflicts@[run.done as int].lease_state,
        run.open.wishes.lease_state,
    );
}

/// An oplock is granted to one who asks for one and names no lease.
pub proof fn law_who_gets_an_oplock(open: PendingOpen)
    ensures
        open.wants_oplock() ==> open.wishes.lease_key is None,
        open.wishes.lease_key is None && !open.wants_oplock() ==> open.wishes.oplock
            == OplockLevel::NoOplock,
        open.wishes.oplock == OplockLevel::NoOplock ==> !open.wants_oplock(),
{
}

/// The oplock of a handle is registered under the id that the handle is found by
/// and for the session that opened it, with the level that was asked for; a
/// handle with a lease, or without an oplock, has none registered.
pub proof fn law_registered_oplock(open: PendingOpen)
    ensures
        open.registration() is Some <==> open.wishes.lease_key is None
            && open.wishes.oplock.spec_as_u8() != 0,
        open.registration() matches Some(r) ==> {
            &&& r.handle_id == open.handle.persistent_id
            &&& r.session_id == open.header.session_id
            &&& r.level == open.wishes.oplock.spec_as_u8()
            &&& r.path == open.handle.path
            &&& r.share_name == open.handle.share_name
        },
{
}

/// Once the leases in the way are broken all that was asked for is granted, if
/// none but the asker's own stands against it; otherwise what was granted
/// before, and no more.
pub proof fn law_grant_after_breaks(run: LeaseBreakRun, leases: Vec<LeaseEntry>)
    ensures
        run.state_after(None) == run.open.granted_lease_state,
        run.state_after(Some(leases)) == run.open.wishes.lease_state || run.state_after(
            Some(leases),
        ) == run.open.granted_lease_state,
        (forall|i: int|
            0 <= i < leases@.len() ==> (#[trigger] leases@[i]).lease_key@ == run.lease_key@)
            ==> run.state_after(Some(leases)) == run.open.wishes.lease_state,
        (exists|i: int|
            0 <= i < leases@.len() && (#[trigger] leases@[i]).lease_key@ != run.lease_key@
                && leases@[i].lease_state & 2 != 0) ==> run.state_after(Some(leases))
            == run.open.granted_lease_state,
        run.with_lease(run.state_after(Some(leases))).handle.lease_key == Some(run.key),
{
    law_standing_lease(leases@, run.lease_key@, run.open.wishes.lease_state);
}

/// Handles that outlive the server are known to dialects 3.0, 3.0.2 and 3.1.1,
/// and to no other, nor before a dialect is negotiated.
pub proof fn law_dialects_that_know_persistent_handles(
    opened: CreateOpened,
    handle_id: u128,
    dialect: Option<SmbDialect>,
    fresh_guid: [u8; 16],
    now: u64,
    now_ms: u64,
)
    ensures
        ({
            let known = dialect == Some(SmbDialect::Smb300) || dialect == Some(SmbDialect::Smb302)
                || dialect == Some(SmbDialect::Smb311);
            let contexts = opened.job.contexts@;
            let pending = opened.pending_open(Ok(handle_id), dialect, fresh_guid, now, now_ms);
            &&& pending matches Ok(open) && open.wishes == grantable(
                wishes_of(
                    contexts,
                    contexts.len() as int,
                    opened.job.request.oplock_level,
                    known,
                ),
            )
        }),
{
}

} // verus!
