//! The state that servers share: sessions, tree connects, open handles, leases
//! and byte-range locks.

use vstd::prelude::*;

use crate::helpers::time::current_unix_millis;
use crate::protocol::dialect::SmbDialect;

verus! {

/// A session of an authenticated user.
#[derive(Clone, Debug)]
pub struct SessionState {
    pub session_id: u64,
    pub user_id: String,
    pub domain: Option<String>,
    pub session_key: Vec<u8>,
    pub dialect: SmbDialect,
    pub signing_required: bool,
    pub encryption_required: bool,
    pub is_guest: bool,
    pub is_anonymous: bool,
    /// Seconds since the start of 1970.
    pub created_at: u64,
    pub last_access: u64,
    pub expires_at: u64,
    pub bound_server_id: Option<String>,
}

/// A share that a session is connected to.
#[derive(Clone, Debug)]
pub struct TreeState {
    pub tree_id: u32,
    pub session_id: u64,
    pub share_name: String,
    pub share_path: String,
    pub access_flags: u32,
    pub is_dfs: bool,
    pub created_at: u64,
}

/// How long a durable handle waits for its client by default, in milliseconds.
pub const DEFAULT_DURABLE_TIMEOUT_MS: u32 = 60_000;

/// An open file.
#[derive(Clone, Debug)]
pub struct HandleState {
    pub persistent_id: u128,
    pub volatile_id: u128,
    pub tree_id: u32,
    /// The session that the handle belongs to; zero while its client is away.
    pub session_id: u64,
    pub path: String,
    pub share_name: String,
    pub access_mask: u32,
    pub share_access: u32,
    pub create_options: u32,
    pub create_disposition: u32,
    pub file_attributes: u32,
    pub is_durable: bool,
    pub is_persistent: bool,
    /// Seconds since the start of 1970.
    pub created_at: u64,
    pub last_access: u64,
    pub create_guid: Option<[u8; 16]>,
    pub app_instance_id: Option<[u8; 16]>,
    pub file_offset: u64,
    /// How long the handle waits for its client, in milliseconds.
    pub durable_timeout: u32,
    /// When the handle stops waiting, in milliseconds since the start of 1970.
    pub reconnect_deadline: Option<u64>,
    pub lease_key: Option<[u8; 16]>,
    pub oplock_level: u8,
    pub bound_server_id: Option<String>,
    pub delete_on_close: bool,
    pub is_directory: bool,
    /// The backend's own number for the file.
    pub backend_internal_id: Option<u64>,
}

/// The point in time `timeout_ms` after `now_ms`, or the last one there is.
pub open spec fn deadline(now_ms: u64, timeout_ms: u32) -> u64 {
    if now_ms + timeout_ms <= u64::MAX {
        (now_ms + timeout_ms) as u64
    } else {
        u64::MAX
    }
}

impl Default for HandleState {
    /// A handle of which everything is zero, empty or absent.
    fn default() -> (h: Self)
        ensures
            h.persistent_id == 0,
            h.volatile_id == 0,
            h.tree_id == 0,
            h.session_id == 0,
            h.path@ == Seq::<char>::empty(),
            h.share_name@ == Seq::<char>::empty(),
            h.access_mask == 0,
            h.share_access == 0,
            h.create_options == 0,
            h.create_disposition == 0,
            h.file_attributes == 0,
            !h.is_durable,
            !h.is_persistent,
            h.created_at == 0,
            h.last_access == 0,
            h.create_guid is None,
            h.app_instance_id is None,
            h.file_offset == 0,
            h.durable_timeout == 0,
            h.reconnect_deadline is None,
            h.lease_key is None,
            h.oplock_level == 0,
            h.bound_server_id is None,
            !h.delete_on_close,
            !h.is_directory,
            h.backend_internal_id is None,
    {
        let path = String::new();
        let share_name = String::new();
        assert(path@ =~= Seq::<char>::empty());
        assert(share_name@ =~= Seq::<char>::empty());
        HandleState {
            persistent_id: 0,
            volatile_id: 0,
            tree_id: 0,
            session_id: 0,
            path,
            share_name,
            access_mask: 0,
            share_access: 0,
            create_options: 0,
            create_disposition: 0,
            file_attributes: 0,
            is_durable: false,
            is_persistent: false,
            created_at: 0,
            last_access: 0,
            create_guid: None,
            app_instance_id: None,
            file_offset: 0,
            durable_timeout: 0,
            reconnect_deadline: None,
            lease_key: None,
            oplock_level: 0,
            bound_server_id: None,
            delete_on_close: false,
            is_directory: false,
            backend_internal_id: None,
        }
    }
}

impl HandleState {
    /// Whether the handle outlives the loss of its connection.
    pub open spec fn spec_should_preserve_for_reconnect(self) -> bool {
        self.is_durable || self.is_persistent
    }

    pub fn should_preserve_for_reconnect(&self) -> (b: bool)
        ensures
            b == self.spec_should_preserve_for_reconnect(),
    {
        self.is_durable || self.is_persistent
    }

    /// Sets how long the handle waits for its client, from now on.
    pub fn set_durable_timeout(&mut self, timeout_ms: u32, now_ms: u64)
        ensures
            *final(self) == (HandleState {
                durable_timeout: timeout_ms,
                reconnect_deadline: Some(deadline(now_ms, timeout_ms)),
                ..*old(self)
            }),
    {
        self.durable_timeout = timeout_ms;
        self.reconnect_deadline = Some(now_ms.saturating_add(timeout_ms as u64));
    }

    /// The handle after its connection was lost: it belongs to no session and
    /// waits for its client, for its own timeout or else for the given one.
    pub open spec fn disconnected(self, default_timeout_ms: u32, now_ms: u64) -> HandleState {
        let timeout = if self.durable_timeout > 0 {
            self.durable_timeout
        } else {
            default_timeout_ms
        };
        HandleState {
            session_id: 0,
            reconnect_deadline: Some(deadline(now_ms, timeout)),
            ..self
        }
    }

    pub fn prepare_for_reconnect(&mut self, default_timeout_ms: u32, now_ms: u64)
        ensures
            *final(self) == old(self).disconnected(default_timeout_ms, now_ms),
    {
        let timeout: u32 = if self.durable_timeout > 0 {
            self.durable_timeout
        } else {
            default_timeout_ms
        };
        self.session_id = 0;
        self.reconnect_deadline = Some(now_ms.saturating_add(timeout as u64));
    }

    /// Whether the handle still waits for its client.
    pub open spec fn spec_can_reconnect(self, now_ms: u64) -> bool {
        self.reconnect_deadline matches Some(d) ==> now_ms < d
    }

    pub fn can_reconnect(&self, now_ms: u64) -> (b: bool)
        ensures
            b == self.spec_can_reconnect(now_ms),
    {
        match self.reconnect_deadline {
            Some(d) => now_ms < d,
            None => true,
        }
    }
}

/// A client that comes back within the timeout can reconnect, and one that
/// comes back later cannot.
pub proof fn law_reconnect_within_timeout(
    handle: HandleState,
    default_timeout_ms: u32,
    lost_at_ms: u64,
    elapsed_ms: u64,
)
    requires
        lost_at_ms + elapsed_ms <= u64::MAX,
        lost_at_ms + u32::MAX <= u64::MAX,
    ensures
        ({
            let timeout = if handle.durable_timeout > 0 {
                handle.durable_timeout
            } else {
                default_timeout_ms
            };
            let waiting = handle.disconnected(default_timeout_ms, lost_at_ms);
            waiting.spec_can_reconnect((lost_at_ms + elapsed_ms) as u64) <==> elapsed_ms < timeout
        }),
{
}

/// The handles of a lost connection that are kept, each ready for its client to
/// come back.
pub open spec fn kept_handles(handles: Seq<HandleState>, now_ms: u64) -> Seq<HandleState>
    decreases handles.len(),
{
    if handles.len() == 0 {
        Seq::empty()
    } else if handles.last().spec_should_preserve_for_reconnect() {
        kept_handles(handles.drop_last(), now_ms).push(
            handles.last().disconnected(DEFAULT_DURABLE_TIMEOUT_MS, now_ms),
        )
    } else {
        kept_handles(handles.drop_last(), now_ms)
    }
}

/// Prepares the handles of a session whose connection was lost: the durable
/// ones are returned, ready for their client to come back.
pub fn prepare_handles_for_reconnect(handles: Vec<HandleState>) -> (kept: Vec<HandleState>)
    ensures
        exists|now_ms: u64| kept@ == kept_handles(handles@, now_ms),
{
    prepare_handles_for_reconnect_at(handles, current_unix_millis())
}

/// The same, at a time in milliseconds.
pub fn prepare_handles_for_reconnect_at(handles: Vec<HandleState>, now_ms: u64) -> (kept: Vec<
    HandleState,
>)
    ensures
        kept@ == kept_handles(handles@, now_ms),
{
    let mut kept: Vec<HandleState> = Vec::new();
    let ghost all = handles@;
    let ghost mut done: int = 0;
    for handle in iter: handles
        invariant
            iter.seq() == all,
            done == iter.index(),
            kept@ == kept_handles(all.take(done), now_ms),
    {
        let mut handle = handle;
        proof {
            assert(all.take(done + 1).drop_last() =~= all.take(done));
            assert(all.take(done + 1).last() == handle);
            done = done + 1;
        }
        if handle.should_preserve_for_reconnect() {
            handle.prepare_for_reconnect(DEFAULT_DURABLE_TIMEOUT_MS, now_ms);
            kept.push(handle);
        }
    }
    assert(all.take(all.len() as int) =~= all);
    kept
}

/// A lease on a file.
#[derive(Clone, Debug)]
pub struct LeaseEntry {
    /// The lease's key as lower-case hexadecimal digits.
    pub lease_key: String,
    pub client_guid: [u8; 16],
    pub session_id: u64,
    pub server_id: String,
    pub file_path: String,
    pub lease_state: u32,
    pub epoch: u16,
    pub created_at: u64,
    pub breaking: bool,
    pub break_to_state: u32,
    pub break_started_at: Option<u64>,
    pub is_v2: bool,
}

/// The epoch that a lease starts with.
pub const FIRST_EPOCH: u16 = 1;

impl LeaseEntry {
    /// A lease that is not being broken.
    pub fn new(
        lease_key: String,
        client_guid: [u8; 16],
        session_id: u64,
        server_id: String,
        file_path: String,
        lease_state: u32,
        is_v2: bool,
        now: u64,
    ) -> (lease: Self)
        ensures
            lease == (LeaseEntry {
                lease_key,
                client_guid,
                session_id,
                server_id,
                file_path,
                lease_state,
                epoch: FIRST_EPOCH,
                created_at: now,
                breaking: false,
                break_to_state: 0,
                break_started_at: None,
                is_v2,
            }),
    {
        LeaseEntry {
            lease_key,
            client_guid,
            session_id,
            server_id,
            file_path,
            lease_state,
            epoch: FIRST_EPOCH,
            created_at: now,
            breaking: false,
            break_to_state: 0,
            break_started_at: None,
            is_v2,
        }
    }
}

/// A byte-range lock.
#[derive(Clone, Debug)]
pub struct DistributedLock {
    pub lock_id: u64,
    pub handle_id: u128,
    pub session_id: u64,
    pub server_id: String,
    pub file_path: String,
    pub offset: u64,
    pub length: u64,
    pub exclusive: bool,
}

/// Where a locked range ends. A range of no length reaches as far as offsets do.
pub open spec fn lock_end(offset: u64, length: u64) -> u64 {
    if length == 0 || offset + length > u64::MAX {
        u64::MAX
    } else {
        (offset + length) as u64
    }
}

pub fn compute_lock_end(offset: u64, length: u64) -> (end: u64)
    ensures
        end == lock_end(offset, length),
{
    if length == 0 {
        u64::MAX
    } else {
        offset.saturating_add(length)
    }
}

impl DistributedLock {
    pub fn new(
        lock_id: u64,
        handle_id: u128,
        session_id: u64,
        server_id: String,
        file_path: String,
        offset: u64,
        length: u64,
        exclusive: bool,
    ) -> (lock: Self)
        ensures
            lock == (DistributedLock {
                lock_id,
                handle_id,
                session_id,
                server_id,
                file_path,
                offset,
                length,
                exclusive,
            }),
    {
        DistributedLock {
            lock_id,
            handle_id,
            session_id,
            server_id,
            file_path,
            offset,
            length,
            exclusive,
        }
    }

    /// Whether the two ranges have a byte in common.
    pub open spec fn overlaps(self, other: DistributedLock) -> bool {
        &&& self.offset < lock_end(other.offset, other.length)
        &&& other.offset < lock_end(self.offset, self.length)
    }

    /// Whether two locks cannot be held at the same time: they are on the same
    /// file, belong to different handles, overlap, and one of them is exclusive.
    pub open spec fn spec_conflicts_with(self, other: DistributedLock) -> bool {
        &&& self.file_path@ == other.file_path@
        &&& self.handle_id != other.handle_id
        &&& self.exclusive || other.exclusive
        &&& self.overlaps(other)
    }

    pub fn conflicts_with(&self, other: &DistributedLock) -> (b: bool)
        ensures
            b == self.spec_conflicts_with(*other),
    {
        self.handle_id != other.handle_id && (self.exclusive || other.exclusive) && self.offset
            < compute_lock_end(other.offset, other.length) && other.offset < compute_lock_end(
            self.offset,
            self.length,
        ) && self.file_path == other.file_path
    }
}

/// It does not matter which of two locks is held already.
pub proof fn law_lock_conflict_is_symmetric(a: DistributedLock, b: DistributedLock)
    ensures
        a.spec_conflicts_with(b) <==> b.spec_conflicts_with(a),
{
}

/// Locks of one handle never stand in each other's way.
pub proof fn law_same_handle_stacks_locks(a: DistributedLock, b: DistributedLock)
    requires
        a.handle_id == b.handle_id,
    ensures
        !a.spec_conflicts_with(b),
{
}

/// Shared locks never stand in each other's way.
pub proof fn law_shared_locks_coexist(a: DistributedLock, b: DistributedLock)
    requires
        !a.exclusive,
        !b.exclusive,
    ensures
        !a.spec_conflicts_with(b),
{
}

/// An exclusive lock keeps every other handle from each byte of its range.
pub proof fn law_exclusive_lock_excludes(a: DistributedLock, b: DistributedLock, byte: u64)
    requires
        a.file_path@ == b.file_path@,
        a.handle_id != b.handle_id,
        a.exclusive,
        a.offset <= byte < lock_end(a.offset, a.length),
        b.offset <= byte < lock_end(b.offset, b.length),
    ensures
        a.spec_conflicts_with(b),
{
}

/// Whether a range holds a byte. One of no length holds all bytes from its
/// start on. There is no byte at the highest offset.
pub open spec fn covers(offset: u64, length: u64, at: int) -> bool {
    &&& offset <= at < u64::MAX
    &&& length == 0 || at < offset + length
}

/// Two ranges reach into each other if they have a byte in common.
pub proof fn lemma_common_byte(a: u64, a_length: u64, b: u64, b_length: u64)
    ensures
        a < lock_end(b, b_length) && b < lock_end(a, a_length) <==> exists|at: int|
            covers(a, a_length, at) && #[trigger] covers(b, b_length, at),
{
    if a < lock_end(b, b_length) && b < lock_end(a, a_length) {
        let at: int = if a <= b {
            b as int
        } else {
            a as int
        };
        assert(covers(a, a_length, at) && covers(b, b_length, at));
    }
}

/// Two locks stand in each other's way if they are on the same file, belong to
/// different handles, one of them is exclusive, and there is a byte that both
/// of them hold; not otherwise.
pub proof fn law_locks_conflict_over_a_byte(a: DistributedLock, b: DistributedLock)
    ensures
        a.spec_conflicts_with(b) <==> {
            &&& a.file_path@ == b.file_path@
            &&& a.handle_id != b.handle_id
            &&& a.exclusive || b.exclusive
            &&& exists|at: int|
                covers(a.offset, a.length, at) && #[trigger] covers(b.offset, b.length, at)
        },
{
    lemma_common_byte(a.offset, a.length, b.offset, b.length);
}

/// What is kept of a lost connection: the handles that are durable or outlive
/// the server, all of them and in order, each without a session, and waiting
/// for as long as it was promised or a minute.
pub proof fn law_kept_handles(handles: Seq<HandleState>, now_ms: u64)
    requires
        now_ms + u32::MAX <= u64::MAX,
    ensures
        ({
            let preserved = handles.filter(|h: HandleState| h.is_durable || h.is_persistent);
            let kept = kept_handles(handles, now_ms);
            &&& kept.len() == preserved.len()
            &&& forall|i: int|
                0 <= i < kept.len() ==> (#[trigger] kept[i]) == (HandleState {
                    session_id: 0,
                    reconnect_deadline: Some(
                        (now_ms + if preserved[i].durable_timeout > 0 {
                            preserved[i].durable_timeout
                        } else {
                            60_000u32
                        }) as u64,
                    ),
                    ..preserved[i]
                })
        }),
    decreases handles.len(),
{
    reveal(Seq::filter);
    if handles.len() > 0 {
        law_kept_handles(handles.drop_last(), now_ms);
        let before = kept_handles(handles.drop_last(), now_ms);
        let kept = kept_handles(handles, now_ms);
        let preserved = handles.filter(|h: HandleState| h.is_durable || h.is_persistent);
        let earlier = handles.drop_last().filter(
            |h: HandleState| h.is_durable || h.is_persistent,
        );
        assert forall|i: int| 0 <= i < kept.len() implies (#[trigger] kept[i]) == (HandleState {
            session_id: 0,
            reconnect_deadline: Some(
                (now_ms + if preserved[i].durable_timeout > 0 {
                    preserved[i].durable_timeout
                } else {
                    60_000u32
                }) as u64,
            ),
            ..preserved[i]
        }) by {
            if i < before.len() {
                assert(kept[i] == before[i]);
                assert(preserved[i] == earlier[i]);
            }
        }
    }
}

/// A handle that lost its connection is the same but for its session and for how
/// long it waits; nobody can use it until its client comes back.
pub proof fn law_disconnected_handle(handle: HandleState, default_timeout_ms: u32, now_ms: u64)
    ensures
        ({
            let waiting = handle.disconnected(default_timeout_ms, now_ms);
            &&& waiting.session_id == 0
            &&& waiting.reconnect_deadline is Some
            &&& waiting == (HandleState {
                session_id: 0,
                reconnect_deadline: waiting.reconnect_deadline,
                ..handle
            })
        }),
        handle.spec_should_preserve_for_reconnect() <==> handle.is_durable || handle.is_persistent,
        handle.reconnect_deadline is None ==> handle.spec_can_reconnect(now_ms),
{
}

} // verus!
