//! LOCK: byte-range locks.
//!
//! A request holds one or more ranges to lock or to unlock. They are taken one
//! after the other; when one of them fails, the ranges that the request locked
//! before it are unlocked again, in the storage backend and in the state store.

use vstd::multiset::Multiset;
use vstd::prelude::*;

use crate::codec;
use crate::error;
use crate::error::HandlerError;
use crate::handler::common;
use crate::handler::common::TreeReply;
use crate::handler::copychunk::BackendFile;
use crate::protocol::header::Smb2Header;
use crate::protocol::status::NtStatus;
use crate::state;
use crate::state::{DistributedLock, HandleState};

verus! {

/// The flags of a range.
#[derive(Clone, Copy, Debug, PartialEq, Eq, Structural)]
pub struct LockFlags(pub u32);

impl LockFlags {
    pub const SHARED_LOCK: u32 = 0x01;
    pub const EXCLUSIVE_LOCK: u32 = 0x02;
    pub const UNLOCK: u32 = 0x04;
    pub const FAIL_IMMEDIATELY: u32 = 0x10;

    pub fn new(flags: u32) -> (f: Self)
        ensures
            f.0 == flags,
    {
        LockFlags(flags)
    }

    pub open spec fn spec_is_shared(self) -> bool {
        self.0 & Self::SHARED_LOCK != 0
    }

    pub fn is_shared(&self) -> (b: bool)
        ensures
            b == self.spec_is_shared(),
    {
        self.0 & Self::SHARED_LOCK != 0
    }

    pub open spec fn spec_is_exclusive(self) -> bool {
        self.0 & Self::EXCLUSIVE_LOCK != 0
    }

    pub fn is_exclusive(&self) -> (b: bool)
        ensures
            b == self.spec_is_exclusive(),
    {
        self.0 & Self::EXCLUSIVE_LOCK != 0
    }

    pub open spec fn spec_is_unlock(self) -> bool {
        self.0 & Self::UNLOCK != 0
    }

    pub fn is_unlock(&self) -> (b: bool)
        ensures
            b == self.spec_is_unlock(),
    {
        self.0 & Self::UNLOCK != 0
    }

    pub open spec fn spec_fail_immediately(self) -> bool {
        self.0 & Self::FAIL_IMMEDIATELY != 0
    }

    pub fn fail_immediately(&self) -> (b: bool)
        ensures
            b == self.spec_fail_immediately(),
    {
        self.0 & Self::FAIL_IMMEDIATELY != 0
    }

    /// Whether exactly one of locking shared, locking exclusively and unlocking
    /// is asked for.
    pub open spec fn valid(self) -> bool {
        let (s, e, u) = (self.spec_is_shared(), self.spec_is_exclusive(), self.spec_is_unlock());
        (s && !e && !u) || (!s && e && !u) || (!s && !e && u)
    }
}

/// One range of a request.
#[derive(Clone, Copy, Debug)]
pub struct LockElement {
    pub offset: u64,
    pub length: u64,
    pub flags: LockFlags,
}

/// The largest offset that a range may reach.
pub const MAX_LOCK_END: u64 = 0x7FFF_FFFF_FFFF_FFFF;

impl LockElement {
    /// The range that stands at an offset of a body.
    pub open spec fn at(body: Seq<u8>, i: int) -> LockElement {
        LockElement {
            offset: codec::u64_at(body, i),
            length: codec::u64_at(body, i + 8),
            flags: LockFlags(codec::u32_at(body, i + 16)),
        }
    }

    /// The status that the range is refused with, if it is.
    pub open spec fn refusal(self) -> Option<NtStatus> {
        if !self.flags.valid() {
            Some(NtStatus::InvalidParameter)
        } else if self.offset + self.length > MAX_LOCK_END {
            Some(NtStatus::InvalidLockRange)
        } else {
            None
        }
    }

    /// Checks the flags and the extent of the range.
    pub fn validate(&self) -> (r: Result<(), HandlerError>)
        ensures
            match self.refusal() {
                None => r is Ok,
                Some(status) => error::refused(r, status),
            },
    {
        let is_unlock = self.flags.is_unlock();
        let is_shared = self.flags.is_shared();
        let is_exclusive = self.flags.is_exclusive();
        if !is_unlock && !is_shared && !is_exclusive {
            return Err(HandlerError::Status(NtStatus::InvalidParameter));
        }
        if is_shared && is_exclusive {
            return Err(HandlerError::Status(NtStatus::InvalidParameter));
        }
        if is_unlock && (is_shared || is_exclusive) {
            return Err(HandlerError::Status(NtStatus::InvalidParameter));
        }
        match self.offset.checked_add(self.length) {
            Some(end) if end <= MAX_LOCK_END => Ok(()),
            _ => Err(HandlerError::Status(NtStatus::InvalidLockRange)),
        }
    }
}

/// A LOCK request that waits for its handle.
#[derive(Debug)]
pub struct LockAwaitHandle {
    pub header: Smb2Header,
    pub body: Vec<u8>,
    /// The number of ranges.
    pub count: u16,
    /// The handle to look up.
    pub handle_id: u128,
}

/// Starts to handle a LOCK request.
pub fn handle_lock(header: &Smb2Header, body: &[u8]) -> (r: Result<LockAwaitHandle, HandlerError>)
    ensures
        body@.len() < 24 ==> error::malformed(r, "Failed to parse LOCK"@),
        body@.len() >= 24 && codec::u16_at(body@, 2) == 0 ==> error::refused(
            r,
            NtStatus::InvalidParameter,
        ),
        body@.len() >= 24 && codec::u16_at(body@, 2) != 0 ==> (r matches Ok(a) && a.header
            == *header && a.body@ == body@ && a.count == codec::u16_at(body@, 2) && a.handle_id
            == common::spec_handle_id(codec::u64_at(body@, 8), codec::u64_at(body@, 16))),
        r matches Ok(a) ==> common::is_file_id_at(body@, 8, a.handle_id),
{
    if body.len() < 24 {
        return Err(error::protocol_error("Failed to parse LOCK"));
    }
    proof {
        common::lemma_file_id_at(body@, 8);
    }
    let count: u16 = codec::get_u16(body, 2);
    if count == 0 {
        return Err(HandlerError::Status(NtStatus::InvalidParameter));
    }
    let copy = codec::copy_range(body, 0, body.len());
    assert(copy@ =~= body@);
    Ok(
        LockAwaitHandle {
            header: *header,
            body: copy,
            count,
            handle_id: common::handle_id(codec::get_u64(body, 8), codec::get_u64(body, 16)),
        },
    )
}

/// Whether a body holds all the ranges that a request announces.
pub open spec fn holds_ranges(body: Seq<u8>, count: int) -> bool {
    24 + 24 * count <= body.len()
}

/// The ranges of a request.
pub open spec fn ranges(body: Seq<u8>, count: int) -> Seq<LockElement> {
    Seq::new(count as nat, |i: int| LockElement::at(body, 24 + 24 * i))
}

/// Whether a request with several ranges waits for none of them: each one that
/// locks has to fail at once if it cannot be had.
pub open spec fn none_waits(locks: Seq<LockElement>) -> bool {
    forall|i: int|
        0 <= i < locks.len() ==> (#[trigger] locks[i]).flags.spec_is_unlock()
            || locks[i].flags.spec_fail_immediately()
}

/// A LOCK request whose handle is known and which waits for its tree.
#[derive(Debug)]
pub struct LockAwaitTree {
    pub header: Smb2Header,
    pub handle: HandleState,
    pub handle_id: u128,
    pub locks: Vec<LockElement>,
}

fn parse_ranges(body: &[u8], count: u16) -> (r: Result<Vec<LockElement>, HandlerError>)
    ensures
        !holds_ranges(body@, count as int) ==> error::refused(r, NtStatus::InvalidParameter),
        holds_ranges(body@, count as int) ==> (r matches Ok(locks) && locks@ == ranges(
            body@,
            count as int,
        )),
{
    let mut locks: Vec<LockElement> = Vec::new();
    let mut i: usize = 0;
    while i < count as usize
        invariant
            i <= count,
            24 + 24 * i <= body@.len() || i == 0,
            locks@ == ranges(body@, i as int),
        decreases count - i,
    {
        let start: usize = 24 + i * 24;
        if start + 24 > body.len() {
            return Err(HandlerError::Status(NtStatus::InvalidParameter));
        }
        locks.push(
            LockElement {
                offset: codec::get_u64(body, start),
                length: codec::get_u64(body, start + 8),
                flags: LockFlags(codec::get_u32(body, start + 16)),
            },
        );
        i = i + 1;
        assert(locks@ =~= ranges(body@, i as int));
    }
    if body.len() < 24 {
        return Err(HandlerError::Status(NtStatus::InvalidParameter));
    }
    Ok(locks)
}

impl LockAwaitHandle {
    /// Takes the handle that the state store found.
    #[verifier::loop_isolation(false)]
    pub fn on_handle(self, reply: Result<Option<HandleState>, String>) -> (r: Result<
        LockAwaitTree,
        HandlerError,
    >)
        ensures
            match common::handle_outcome(self.header, reply, NtStatus::FileClosed) {
                Err(e) => r == Err::<LockAwaitTree, HandlerError>(e),
                Ok(handle) => {
                    let locks = ranges(self.body@, self.count as int);
                    if !holds_ranges(self.body@, self.count as int) || (self.count > 1
                        && !none_waits(locks)) {
                        error::refused(r, NtStatus::InvalidParameter)
                    } else {
                        r matches Ok(a) && a.header == self.header && a.handle == handle
                            && a.handle_id == self.handle_id && a.locks@ == locks
                    }
                },
            },
    {
        let handle = match common::accept_handle(&self.header, reply, NtStatus::FileClosed) {
            Ok(handle) => handle,
            Err(e) => {
                return Err(e);
            },
        };
        let locks = match parse_ranges(self.body.as_slice(), self.count) {
            Ok(locks) => locks,
            Err(e) => {
                return Err(e);
            },
        };
        if self.count > 1 {
            let mut i: usize = 0;
            while i < locks.len()
                invariant
                    i <= locks@.len(),
                    locks@ == ranges(self.body@, self.count as int),
                    forall|k: int|
                        0 <= k < i ==> (#[trigger] locks@[k]).flags.spec_is_unlock()
                            || locks@[k].flags.spec_fail_immediately(),
                decreases locks@.len() - i,
            {
                if !locks[i].flags.is_unlock() && !locks[i].flags.fail_immediately() {
                    assert(!none_waits(locks@));
                    return Err(HandlerError::Status(NtStatus::InvalidParameter));
                }
                i = i + 1;
            }
        }
        Ok(LockAwaitTree { header: self.header, handle, handle_id: self.handle_id, locks })
    }
}

/// A LOCK request whose ranges are being taken.
#[derive(Debug)]
pub struct LockRun {
    pub header: Smb2Header,
    pub handle: HandleState,
    pub handle_id: u128,
    pub server_id: String,
    pub locks: Vec<LockElement>,
    /// How many ranges are done.
    pub done: usize,
    /// The ranges that the backend locked for this request.
    pub locked: Vec<FileLock>,
    /// The locks that this request recorded in the state store, by their ids.
    pub acquired: Vec<u64>,
}

/// A range as the storage backend takes it.
#[derive(Clone, Copy, Debug, PartialEq, Eq, Structural)]
pub struct FileLock {
    pub exclusive: bool,
    pub start: u64,
    pub length: u64,
}

/// How the storage backend answered.
#[derive(Debug)]
pub enum LockReply {
    Done,
    Conflict,
    Failed(String),
}

/// What has to happen next with a LOCK request.
#[derive(Debug)]
pub enum LockStep {
    /// Look up the locks on the file and hand them to `on_locks`.
    Look(LockRun),
    /// Release a lock of the state store, if there is one, have the backend
    /// unlock the range, and hand its answer to `on_unlock`.
    Unlock { run: LockRun, held: Option<u64>, range: FileLock },
    /// Have the backend lock the range and hand its answer to `on_lock`.
    Lock { run: LockRun, range: FileLock },
    /// Get a new lock id and hand it to `on_lock_id`.
    NewId(LockRun),
    /// Record a lock in the state store, then go on with `step`.
    Record { run: LockRun, lock: DistributedLock },
    /// Go on with `step`.
    Next(LockRun),
    /// Release these locks of the state store, have the backend unlock these
    /// ranges, then answer with the error.
    Rollback { release: Vec<u64>, unlock: Vec<FileLock>, error: HandlerError },
    /// Answer with the response.
    Done(Vec<u8>),
}

impl LockAwaitTree {
    /// Takes the tree that the state store found.
    pub fn on_tree(self, reply: TreeReply, server_id: String) -> (r: Result<LockRun, HandlerError>)
        ensures
            match common::tree_outcome(reply, NtStatus::NetworkNameDeleted) {
                Err(e) => r == Err::<LockRun, HandlerError>(e),
                Ok(_) => r matches Ok(run) && run.wf() && run.header == self.header && run.handle
                    == self.handle && run.handle_id == self.handle_id && run.server_id == server_id
                    && run.locks == self.locks && run.done == 0 && run.acquired@ == Seq::<
                    u64,
                >::empty() && run.locked@ == Seq::<FileLock>::empty(),
            },
    {
        match common::accept_tree(reply, NtStatus::NetworkNameDeleted) {
            Err(e) => Err(e),
            Ok(_) => {
                let acquired: Vec<u64> = Vec::new();
                assert(acquired@ =~= Seq::<u64>::empty());
                let locked: Vec<FileLock> = Vec::new();
                assert(locked@ =~= Seq::<FileLock>::empty());
                Ok(
                    LockRun {
                        header: self.header,
                        handle: self.handle,
                        handle_id: self.handle_id,
                        server_id,
                        locks: self.locks,
                        done: 0,
                        locked,
                        acquired,
                    },
                )
            },
        }
    }
}

/// The first lock of a handle on exactly the given range.
pub open spec fn held_lock(existing: Seq<DistributedLock>, handle_id: u128, range: LockElement, n: int) -> Option<
    u64,
>
    decreases existing.len() - n,
{
    if n < 0 || n >= existing.len() {
        None
    } else if existing[n].handle_id == handle_id && existing[n].offset == range.offset
        && existing[n].length == range.length {
        Some(existing[n].lock_id)
    } else {
        held_lock(existing, handle_id, range, n + 1)
    }
}

impl LockRun {
    pub open spec fn wf(self) -> bool {
        self.done <= self.locks.len()
    }

    /// Whether a range is left to take.
    pub open spec fn busy(self) -> bool {
        self.done < self.locks.len()
    }

    /// The range that is being taken.
    pub open spec fn current(self) -> LockElement {
        self.locks@[self.done as int]
    }

    /// The file as the backend finds it again: by the id that the request named.
    pub open spec fn spec_file(self) -> BackendFile {
        BackendFile {
            persistent_id: self.handle_id,
            volatile_id: self.handle_id,
            backend_internal_id: self.handle.backend_internal_id,
        }
    }

    pub fn file(&self) -> (f: BackendFile)
        ensures
            f == self.spec_file(),
    {
        BackendFile {
            persistent_id: self.handle_id,
            volatile_id: self.handle_id,
            backend_internal_id: self.handle.backend_internal_id,
        }
    }

    /// The step that ends the request with an error, and undoes what it locked.
    pub open spec fn undone(self, error: HandlerError) -> LockStep {
        LockStep::Rollback { release: self.acquired, unlock: self.locked, error }
    }

    fn undo(self, error: HandlerError) -> (step: LockStep)
        ensures
            step == self.undone(error),
    {
        LockStep::Rollback { release: self.acquired, unlock: self.locked, error }
    }

    /// The range for the backend.
    pub open spec fn range(self) -> FileLock {
        FileLock {
            exclusive: self.current().flags.spec_is_exclusive(),
            start: self.current().offset,
            length: self.current().length,
        }
    }

    /// Whether `lock` is the current range as a lock of this handle.
    pub open spec fn is_new_lock(self, lock: DistributedLock, lock_id: u64) -> bool {
        &&& lock.lock_id == lock_id
        &&& lock.handle_id == self.handle_id
        &&& lock.session_id == self.header.session_id
        &&& lock.server_id@ == self.server_id@
        &&& lock.file_path@ == self.handle.path@
        &&& lock.offset == self.current().offset
        &&& lock.length == self.current().length
        &&& lock.exclusive == self.current().flags.spec_is_exclusive()
    }

    /// Whether the current range cannot be locked beside an existing lock.
    pub open spec fn blocked_by(self, existing: DistributedLock) -> bool {
        &&& self.handle.path@ == existing.file_path@
        &&& self.handle_id != existing.handle_id
        &&& self.current().flags.spec_is_exclusive() || existing.exclusive
        &&& self.current().offset < crate::state::lock_end(existing.offset, existing.length)
        &&& existing.offset < crate::state::lock_end(self.current().offset, self.current().length)
    }

    /// The status of a conflict: it depends on whether the range was to fail at
    /// once.
    pub open spec fn conflict_status(self) -> NtStatus {
        if self.current().flags.spec_fail_immediately() {
            NtStatus::LockNotGranted
        } else {
            NtStatus::FileLockConflict
        }
    }

    /// The run after the current range is done.
    pub open spec fn advanced(self) -> LockRun {
        LockRun { done: (self.done + 1) as usize, ..self }
    }

    fn make_lock(&self, lock_id: u64) -> (lock: DistributedLock)
        requires
            self.busy(),
        ensures
            self.is_new_lock(lock, lock_id),
    {
        let current = self.locks[self.done];
        DistributedLock::new(
            lock_id,
            self.handle_id,
            self.header.session_id,
            self.server_id.clone(),
            self.handle.path.clone(),
            current.offset,
            current.length,
            current.flags.is_exclusive(),
        )
    }

    fn conflict_error(&self) -> (e: HandlerError)
        requires
            self.busy(),
        ensures
            e == HandlerError::Status(self.conflict_status()),
    {
        if self.locks[self.done].flags.fail_immediately() {
            HandlerError::Status(NtStatus::LockNotGranted)
        } else {
            HandlerError::Status(NtStatus::FileLockConflict)
        }
    }

    fn file_lock(&self) -> (range: FileLock)
        requires
            self.busy(),
        ensures
            range == self.range(),
    {
        let current = self.locks[self.done];
        FileLock {
            exclusive: current.flags.is_exclusive(),
            start: current.offset,
            length: current.length,
        }
    }

    /// Takes the next range. When all are done the request is answered; a range
    /// that is not valid ends it, and what it has locked is released.
    pub fn step(self, credits: u16) -> (step: LockStep)
        requires
            self.wf(),
        ensures
            !self.busy() ==> (step matches LockStep::Done(m) && m@ == common::response(
                self.header,
                NtStatus::Success,
                credits,
                common::empty_body(),
            )),
            self.busy() ==> match self.current().refusal() {
                Some(status) => step == self.undone(HandlerError::Status(status)),
                None => step == LockStep::Look(self),
            },
    {
        if self.done == self.locks.len() {
            return LockStep::Done(common::build_empty_response(&self.header, credits));
        }
        match self.locks[self.done].validate() {
            Err(e) => self.undo(HandlerError::Status(e.status())),
            Ok(()) => LockStep::Look(self),
        }
    }

    /// Takes the locks on the file. A range to unlock gives up the lock that the
    /// handle holds on it; a range to lock must not conflict with any lock.
    #[verifier::loop_isolation(false)]
    pub fn on_locks(self, existing: &[DistributedLock]) -> (step: LockStep)
        requires
            self.busy(),
        ensures
            self.current().flags.spec_is_unlock() ==> step == (LockStep::Unlock {
                run: self,
                held: held_lock(existing@, self.handle_id, self.current(), 0),
                range: self.range(),
            }),
            !self.current().flags.spec_is_unlock() ==> if exists|i: int|
                0 <= i < existing@.len() && self.blocked_by(#[trigger] existing@[i]) {
                step == self.undone(HandlerError::Status(self.conflict_status()))
            } else {
                step == (LockStep::Lock { run: self, range: self.range() })
            },
    {
        let range = self.file_lock();
        let current = self.locks[self.done];
        if current.flags.is_unlock() {
            let mut i: usize = 0;
            while i < existing.len()
                invariant
                    i <= existing@.len(),
                    self.busy(),
                    current == self.current(),
                    range == self.range(),
                    held_lock(existing@, self.handle_id, current, i as int) == held_lock(
                        existing@,
                        self.handle_id,
                        current,
                        0,
                    ),
                decreases existing@.len() - i,
            {
                if existing[i].handle_id == self.handle_id && existing[i].offset == current.offset
                    && existing[i].length == current.length {
                    let found: u64 = existing[i].lock_id;
                    return LockStep::Unlock { run: self, held: Some(found), range };
                }
                i = i + 1;
            }
            return LockStep::Unlock { run: self, held: None, range };
        }
        let new_lock = self.make_lock(0);
        let mut i: usize = 0;
        while i < existing.len()
            invariant
                i <= existing@.len(),
                self.busy(),
                self.is_new_lock(new_lock, 0),
                forall|k: int| 0 <= k < i ==> !self.blocked_by(#[trigger] existing@[k]),
            decreases existing@.len() - i,
        {
            if new_lock.conflicts_with(&existing[i]) {
                assert(self.blocked_by(existing@[i as int]));
                let error = self.conflict_error();
                return self.undo(error);
            }
            i = i + 1;
        }
        LockStep::Lock { run: self, range }
    }

    /// Takes the backend's answer to an unlock.
    pub fn on_unlock(self, reply: LockReply) -> (step: LockStep)
        requires
            self.busy(),
        ensures
            match reply {
                LockReply::Done => step == LockStep::Next(self.advanced()),
                LockReply::Conflict => step == self.undone(
                    HandlerError::Status(NtStatus::InvalidLockRange),
                ),
                LockReply::Failed(text) => step == self.undone(HandlerError::Vfs(text)),
            },
    {
        match reply {
            LockReply::Done => {
                let mut run = self;
                run.done = run.done + 1;
                LockStep::Next(run)
            },
            LockReply::Conflict => self.undo(HandlerError::Status(NtStatus::InvalidLockRange)),
            LockReply::Failed(text) => self.undo(HandlerError::Vfs(text)),
        }
    }

    /// Takes the backend's answer to a lock. A range that it locked is remembered.
    pub fn on_lock(self, reply: LockReply) -> (step: LockStep)
        requires
            self.busy(),
        ensures
            match reply {
                LockReply::Done => {
                    &&& step matches LockStep::NewId(run)
                    &&& run.locked@ == self.locked@.push(self.range())
                    &&& run == (LockRun { locked: run.locked, ..self })
                },
                LockReply::Conflict => step == self.undone(
                    HandlerError::Status(self.conflict_status()),
                ),
                LockReply::Failed(text) => step == self.undone(HandlerError::Vfs(text)),
            },
    {
        match reply {
            LockReply::Done => {
                let range = self.file_lock();
                let mut run = self;
                run.locked.push(range);
                LockStep::NewId(run)
            },
            LockReply::Conflict => {
                let error = self.conflict_error();
                self.undo(error)
            },
            LockReply::Failed(text) => self.undo(HandlerError::Vfs(text)),
        }
    }

    /// Takes a new lock id. Without one the lock is not recorded in the state
    /// store, but it is undone in the backend like the others.
    pub fn on_lock_id(self, lock_id: Option<u64>) -> (step: LockStep)
        requires
            self.busy(),
        ensures
            match lock_id {
                None => step == LockStep::Next(self.advanced()),
                Some(id) => {
                    &&& step matches LockStep::Record { run, lock }
                    &&& self.is_new_lock(lock, id)
                    &&& run.acquired@ == self.acquired@.push(id)
                    &&& run == (LockRun { acquired: run.acquired, ..self.advanced() })
                },
            },
    {
        match lock_id {
            None => {
                let mut run = self;
                run.done = run.done + 1;
                LockStep::Next(run)
            },
            Some(id) => {
                let lock = self.make_lock(id);
                let mut run = self;
                run.acquired.push(id);
                run.done = run.done + 1;
                LockStep::Record { run, lock }
            },
        }
    }
}

/// A range that is locked conflicts with no lock that was there before: the
/// recorded lock and every existing one can be held together.
pub proof fn law_granted_lock_conflicts_with_none(
    run: LockRun,
    existing: Seq<DistributedLock>,
    lock: DistributedLock,
    lock_id: u64,
    i: int,
)
    requires
        run.is_new_lock(lock, lock_id),
        forall|k: int| 0 <= k < existing.len() ==> !run.blocked_by(#[trigger] existing[k]),
        0 <= i < existing.len(),
    ensures
        !lock.spec_conflicts_with(existing[i]),
        !existing[i].spec_conflicts_with(lock),
{
    assert(!run.blocked_by(existing[i]));
}

/// Only ranges of which exactly one thing is asked, and which end within 63
/// bits, are looked at further.
pub proof fn law_accepted_range_is_valid(range: LockElement)
    requires
        range.refusal() is None,
    ensures
        range.flags.valid(),
        range.offset + range.length <= MAX_LOCK_END,
        range.flags.spec_is_unlock() ==> !range.flags.spec_is_shared()
            && !range.flags.spec_is_exclusive(),
{
}

/// Whether the locks on a file are those from before a request and those that the
/// request has locked since, as long as it unlocks none: in the state store, by
/// their ids, and in the backend.
pub open spec fn holds_locks_of(
    run: LockRun,
    ids_before: Set<u64>,
    ids: Set<u64>,
    ranges_before: Multiset<FileLock>,
    ranges: Multiset<FileLock>,
) -> bool {
    &&& ids == ids_before.union(run.acquired@.to_set())
    &&& ranges == ranges_before.add(run.locked@.to_multiset())
}

/// A request starts with the locks that are on the file, and remembers each that
/// it adds: a range that the backend locks, and a lock that is recorded.
pub proof fn law_locks_are_remembered(
    run: LockRun,
    next: LockRun,
    id: u64,
    ids_before: Set<u64>,
    ids: Set<u64>,
    ranges_before: Multiset<FileLock>,
    ranges: Multiset<FileLock>,
)
    ensures
        run.acquired@.len() == 0 && run.locked@.len() == 0 ==> holds_locks_of(
            run,
            ids_before,
            ids_before,
            ranges_before,
            ranges_before,
        ),
        holds_locks_of(run, ids_before, ids, ranges_before, ranges) && next.locked@
            == run.locked@.push(run.range()) && next.acquired@ == run.acquired@ ==> holds_locks_of(
            next,
            ids_before,
            ids,
            ranges_before,
            ranges.insert(run.range()),
        ),
        holds_locks_of(run, ids_before, ids, ranges_before, ranges) && next.acquired@
            == run.acquired@.push(id) && next.locked@ == run.locked@ ==> holds_locks_of(
            next,
            ids_before,
            ids.insert(id),
            ranges_before,
            ranges,
        ),
{
    broadcast use vstd::seq_lib::group_to_multiset_ensures;

    if run.acquired@.len() == 0 && run.locked@.len() == 0 {
        assert(ids_before.union(run.acquired@.to_set()) =~= ids_before);
        assert(run.locked@ =~= Seq::<FileLock>::empty());
        assert(ranges_before.add(run.locked@.to_multiset()) =~= ranges_before);
    }
    if holds_locks_of(run, ids_before, ids, ranges_before, ranges) {
        assert(ranges.insert(run.range()) =~= ranges_before.add(
            run.locked@.push(run.range()).to_multiset(),
        ));
        let longer = run.acquired@.push(id);
        assert forall|x: u64| longer.to_set().contains(x) == (run.acquired@.to_set().contains(x) || x
            == id) by {
            crate::handler::lemma_push_contains(run.acquired@, id, x);
        }
        assert(ids.insert(id) =~= ids_before.union(longer.to_set()));
    }
}

/// A request that fails leaves the file with the locks from before it: what its
/// last step releases and unlocks is what it added, and no more. The ids of its
/// locks are new ones.
pub proof fn law_failed_request_leaves_no_lock(
    run: LockRun,
    error: HandlerError,
    ids_before: Set<u64>,
    ids: Set<u64>,
    ranges_before: Multiset<FileLock>,
    ranges: Multiset<FileLock>,
)
    requires
        holds_locks_of(run, ids_before, ids, ranges_before, ranges),
        forall|id: u64| #[trigger] run.acquired@.contains(id) ==> !ids_before.contains(id),
    ensures
        run.undone(error) matches LockStep::Rollback { release, unlock, error: e } && e == error
            && ids.difference(release@.to_set()) == ids_before && ranges.sub(
            unlock@.to_multiset(),
        ) == ranges_before,
{
    assert(ids.difference(run.acquired@.to_set()) =~= ids_before) by {
        assert forall|x: u64| ids.difference(run.acquired@.to_set()).contains(x)
            == ids_before.contains(x) by {
            assert(run.acquired@.to_set().contains(x) == run.acquired@.contains(x));
        }
    }
    assert(ranges.sub(run.locked@.to_multiset()) =~= ranges_before);
}

/// Whether a lock is one of a handle on exactly the given range.
pub open spec fn is_held(lock: DistributedLock, handle_id: u128, range: LockElement) -> bool {
    lock.handle_id == handle_id && lock.offset == range.offset && lock.length == range.length
}

/// What a handle has locked it can unlock: a lock of the handle on exactly the
/// range is found and given up, and a lock that is given up is one of the handle
/// on exactly the range.
pub proof fn law_unlock_finds_lock(existing: Seq<DistributedLock>, handle_id: u128, range: LockElement)
    ensures
        held_lock(existing, handle_id, range, 0) is Some <==> exists|i: int|
            0 <= i < existing.len() && is_held(#[trigger] existing[i], handle_id, range),
        held_lock(existing, handle_id, range, 0) matches Some(id) ==> exists|i: int|
            0 <= i < existing.len() && is_held(#[trigger] existing[i], handle_id, range)
                && existing[i].lock_id == id,
{
    lemma_held_lock(existing, handle_id, range, 0);
}

proof fn lemma_held_lock(existing: Seq<DistributedLock>, handle_id: u128, range: LockElement, n: int)
    requires
        0 <= n <= existing.len(),
    ensures
        held_lock(existing, handle_id, range, n) is None ==> forall|i: int|
            n <= i < existing.len() ==> !is_held(#[trigger] existing[i], handle_id, range),
        held_lock(existing, handle_id, range, n) matches Some(id) ==> exists|i: int|
            n <= i < existing.len() && is_held(#[trigger] existing[i], handle_id, range)
                && existing[i].lock_id == id,
    decreases existing.len() - n,
{
    if n < existing.len() {
        if is_held(existing[n], handle_id, range) {
            assert(existing[n].lock_id == held_lock(existing, handle_id, range, n)->0);
        } else {
            lemma_held_lock(existing, handle_id, range, n + 1);
        }
    }
}

/// The ranges of a request, of which the two bytes at 2 of its body say how
/// many there are, stand behind each other from 24 on, 24 bytes each: where the
/// range starts, how long it is, and in bits 0, 1, 2 and 4 of its flags whether
/// to lock it shared, to lock it exclusively, to unlock it, and not to wait.
pub proof fn law_ranges_on_wire(body: Seq<u8>, count: int, i: int)
    requires
        holds_ranges(body, count),
        0 <= i < count,
    ensures
        ({
            let range = ranges(body, count)[i];
            let flags = codec::u32_at(body, 24 + 24 * i + 16);
            &&& 24 + 24 * (i + 1) <= body.len()
            &&& ranges(body, count).len() == count
            &&& range.offset == codec::u64_at(body, 24 + 24 * i)
            &&& range.length == codec::u64_at(body, 24 + 24 * i + 8)
            &&& range.flags.spec_is_shared() <==> flags & 0x01 != 0
            &&& range.flags.spec_is_exclusive() <==> flags & 0x02 != 0
            &&& range.flags.spec_is_unlock() <==> flags & 0x04 != 0
            &&& range.flags.spec_fail_immediately() <==> flags & 0x10 != 0
        }),
{
}

/// A range is taken if its flags say one of the three things that can be done
/// with it, which makes 1, 2 or 4 of their lowest bits, and if it ends within
/// 63 bits; only then.
pub proof fn law_which_ranges_are_taken(range: LockElement)
    ensures
        range.refusal() is None <==> (range.flags.0 & 7 == 1 || range.flags.0 & 7 == 2
            || range.flags.0 & 7 == 4) && range.offset + range.length
            <= 0x7FFF_FFFF_FFFF_FFFF,
        range.refusal() == Some(NtStatus::InvalidParameter) <==> range.flags.0 & 7 != 1
            && range.flags.0 & 7 != 2 && range.flags.0 & 7 != 4,
{
    let f = range.flags.0;
    assert((f & 7 == 1 <==> f & 1 != 0 && f & 2 == 0 && f & 4 == 0) && (f & 7 == 2 <==> f & 1 == 0
        && f & 2 != 0 && f & 4 == 0) && (f & 7 == 4 <==> f & 1 == 0 && f & 2 == 0 && f & 4 != 0))
        by (bit_vector);
}

/// A range is blocked by a lock of another handle on the same file if the two
/// have a byte in common and one of them is exclusive; by nothing else. A range
/// that is to wait is told of the conflict in another way than one that is not.
pub proof fn law_what_blocks_a_range(run: LockRun, existing: DistributedLock)
    ensures
        run.blocked_by(existing) <==> {
            &&& run.handle.path@ == existing.file_path@
            &&& run.handle_id != existing.handle_id
            &&& run.current().flags.0 & 2 != 0 || existing.exclusive
            &&& exists|at: int|
                state::covers(run.current().offset, run.current().length, at)
                    && #[trigger] state::covers(existing.offset, existing.length, at)
        },
        run.conflict_status() == if run.current().flags.0 & 0x10 != 0 {
            NtStatus::LockNotGranted
        } else {
            NtStatus::FileLockConflict
        },
{
    state::lemma_common_byte(
        run.current().offset,
        run.current().length,
        existing.offset,
        existing.length,
    );
}

/// What is locked in the backend and recorded in the state store is the range
/// that the request names, for the handle and the session of the request.
pub proof fn law_recorded_lock(run: LockRun, lock: DistributedLock, lock_id: u64)
    requires
        run.is_new_lock(lock, lock_id),
    ensures
        lock.lock_id == lock_id,
        lock.handle_id == run.handle_id,
        lock.session_id == run.header.session_id,
        lock.file_path@ == run.handle.path@,
        lock.offset == run.locks@[run.done as int].offset && run.range().start == lock.offset,
        lock.length == run.locks@[run.done as int].length && run.range().length == lock.length,
        lock.exclusive <==> run.locks@[run.done as int].flags.0 & 2 != 0,
        run.range().exclusive == lock.exclusive,
        run.spec_file().persistent_id == run.handle_id,
        run.spec_file().volatile_id == run.handle_id,
        run.spec_file().backend_internal_id == run.handle.backend_internal_id,
{
}

/// A request waits for a range if it has one that neither gives up a lock (bit 2
/// of its flags) nor fails at once (bit 4).
pub proof fn law_which_ranges_wait(locks: Seq<LockElement>)
    ensures
        !none_waits(locks) <==> exists|i: int|
            0 <= i < locks.len() && (#[trigger] locks[i]).flags.0 & 4 == 0 && locks[i].flags.0
                & 0x10 == 0,
{
    if !none_waits(locks) {
        let i = choose|i: int|
            0 <= i < locks.len() && !((#[trigger] locks[i]).flags.spec_is_unlock()
                || locks[i].flags.spec_fail_immediately());
        assert(locks[i].flags.0 & 4 == 0 && locks[i].flags.0 & 0x10 == 0);
    }
}

/// A request that fails releases all that it locked so far, in the state store
/// and in the backend, and tells of the failure.
pub proof fn law_failed_request_keeps_no_lock(run: LockRun, error: HandlerError)
    ensures
        run.undone(error) matches LockStep::Rollback { release, unlock, error: told }
            && release == run.acquired && unlock == run.locked && told == error,
{
}

/// The backend is asked for the file that the request named, and for the range
/// that stands in the request.
pub proof fn law_backend_locks_named_range(run: LockRun)
    ensures
        run.spec_file().persistent_id == run.handle_id,
        run.spec_file().volatile_id == run.handle_id,
        run.spec_file().backend_internal_id == run.handle.backend_internal_id,
        run.range().start == run.current().offset,
        run.range().length == run.current().length,
        run.range().exclusive <==> run.current().flags.0 & 2 != 0,
{
}

} // verus!
