//! Oplocks and leases: what a holder has to give up when somebody else opens
//! the file, how it is told, and how it answers.

use vstd::prelude::*;

use crate::codec;
use crate::error;
use crate::error::HandlerError;
use crate::handler::common;
use crate::protocol::header;
use crate::protocol::header::{Smb2Command, Smb2Flags, Smb2Header};
use crate::protocol::status::NtStatus;
use crate::state::{HandleState, LeaseEntry};

verus! {

/// How much a client may cache of an open file.
#[derive(Clone, Copy, Debug, PartialEq, Eq, Structural)]
pub enum OplockLevel {
    NoOplock,
    LevelII,
    Exclusive,
    Batch,
    /// The file is cached under a lease instead.
    Lease,
}

impl OplockLevel {
    pub open spec fn spec_as_u8(self) -> u8 {
        match self {
            OplockLevel::NoOplock => 0x00,
            OplockLevel::LevelII => 0x01,
            OplockLevel::Exclusive => 0x08,
            OplockLevel::Batch => 0x09,
            OplockLevel::Lease => 0xFF,
        }
    }

    /// The number that stands for the level on the wire.
    pub fn as_u8(&self) -> (n: u8)
        ensures
            n == self.spec_as_u8(),
    {
        match self {
            OplockLevel::NoOplock => 0x00,
            OplockLevel::LevelII => 0x01,
            OplockLevel::Exclusive => 0x08,
            OplockLevel::Batch => 0x09,
            OplockLevel::Lease => 0xFF,
        }
    }

    /// Whether a number stands for a level.
    pub open spec fn is_level(n: u8) -> bool {
        n == 0x00 || n == 0x01 || n == 0x08 || n == 0x09 || n == 0xFF
    }

    pub open spec fn spec_from_u8(n: u8) -> OplockLevel {
        if n == 0x01 {
            OplockLevel::LevelII
        } else if n == 0x08 {
            OplockLevel::Exclusive
        } else if n == 0x09 {
            OplockLevel::Batch
        } else if n == 0xFF {
            OplockLevel::Lease
        } else {
            OplockLevel::NoOplock
        }
    }

    /// The level that a number stands for; none for a number without meaning.
    pub fn from_u8(n: u8) -> (level: Self)
        ensures
            level == Self::spec_from_u8(n),
    {
        if n == 0x01 {
            OplockLevel::LevelII
        } else if n == 0x08 {
            OplockLevel::Exclusive
        } else if n == 0x09 {
            OplockLevel::Batch
        } else if n == 0xFF {
            OplockLevel::Lease
        } else {
            OplockLevel::NoOplock
        }
    }
}

/// A level survives the way over the wire.
pub proof fn law_oplock_level_round_trip(level: OplockLevel)
    ensures
        OplockLevel::spec_from_u8(level.spec_as_u8()) == level,
        OplockLevel::is_level(level.spec_as_u8()),
{
}

/// The lease bit to cache what is read.
pub const LEASE_READ_CACHING: u32 = 0x01;

/// The lease bit to cache what is written, which nobody else may hold a lease
/// beside.
pub const LEASE_WRITE_CACHING: u32 = 0x02;

/// The lease bit that lets a handle stay open while its client is away.
pub const LEASE_HANDLE_CACHING: u32 = 0x02;

/// Whether two leases on one file cannot be held at the same time.
pub open spec fn lease_conflict(existing_state: u32, requested_state: u32) -> bool {
    existing_state & LEASE_WRITE_CACHING != 0 || requested_state & LEASE_WRITE_CACHING != 0
}

pub fn has_lease_conflict(existing_state: u32, requested_state: u32) -> (b: bool)
    ensures
        b == lease_conflict(existing_state, requested_state),
{
    existing_state & LEASE_WRITE_CACHING != 0 || requested_state & LEASE_WRITE_CACHING != 0
}

/// It does not matter which of two leases is held already.
pub proof fn law_lease_conflict_is_symmetric(a: u32, b: u32)
    ensures
        lease_conflict(a, b) == lease_conflict(b, a),
{
}

/// What is left of a lease when another one is asked for: if that one wants to
/// cache writes, only the caching of reads; otherwise all but the caching of
/// writes.
pub open spec fn break_state(current: u32, requested: u32) -> u32 {
    if requested & LEASE_WRITE_CACHING != 0 {
        current & LEASE_READ_CACHING
    } else {
        current & !LEASE_WRITE_CACHING
    }
}

pub fn calculate_break_state(current: u32, requested: u32) -> (state: u32)
    ensures
        state == break_state(current, requested),
{
    if requested & LEASE_WRITE_CACHING != 0 {
        current & LEASE_READ_CACHING
    } else {
        current & !LEASE_WRITE_CACHING
    }
}

/// Whether a state holds no bit that another one lacks.
pub open spec fn is_substate(state: u32, of: u32) -> bool {
    state & !of == 0
}

/// A break only ever takes away, it takes away the caching of writes, and what
/// is left stands in nobody's way who does not want to cache writes.
pub proof fn law_break_state_gives_up(current: u32, requested: u32, other: u32)
    ensures
        is_substate(break_state(current, requested), current),
        break_state(current, requested) & LEASE_WRITE_CACHING == 0,
        other & LEASE_WRITE_CACHING == 0 ==> !lease_conflict(
            break_state(current, requested),
            other,
        ),
        break_state(break_state(current, requested), requested) == break_state(current, requested),
{
    assert((current & 1) & !current == 0) by (bit_vector);
    assert((current & !2u32) & !current == 0) by (bit_vector);
    assert((current & 1) & 2 == 0) by (bit_vector);
    assert((current & !2u32) & 2 == 0) by (bit_vector);
    assert((current & 1) & 1 == current & 1) by (bit_vector);
    assert((current & !2u32) & !2u32 == current & !2u32) by (bit_vector);
}

/// Whether the holder of an oplock has to confirm that it was broken: one that
/// allowed to cache writes has to.
pub open spec fn spec_oplock_ack_required(current_level: u8) -> bool {
    current_level == 0x09 || current_level == 0x08
}

pub fn oplock_ack_required(current_level: u8) -> (b: bool)
    ensures
        b == spec_oplock_ack_required(current_level),
{
    current_level == 0x09 || current_level == 0x08
}

/// Whether the holder of a lease has to confirm that it was broken: unless it
/// allowed to cache reads only.
pub open spec fn spec_lease_ack_required(current_state: u32) -> bool {
    current_state != LEASE_READ_CACHING
}

pub fn lease_ack_required(current_state: u32) -> (b: bool)
    ensures
        b == spec_lease_ack_required(current_state),
{
    current_state != LEASE_READ_CACHING
}

pub const OPLOCK_BREAK_NOTIFICATION_SIZE: u16 = 24;

pub const OPLOCK_BREAK_ACK_SIZE: u16 = 24;

pub const OPLOCK_BREAK_RESPONSE_SIZE: u16 = 24;

pub const LEASE_BREAK_NOTIFICATION_SIZE: u16 = 44;

pub const LEASE_BREAK_ACK_SIZE: u16 = 36;

pub const LEASE_BREAK_RESPONSE_SIZE: u16 = 36;

/// The message id of a message that answers no request.
pub const UNSOLICITED_MESSAGE_ID: u64 = 0xFFFF_FFFF_FFFF_FFFF;

/// The header of a break notification: it answers no request and belongs to no
/// session or tree.
pub open spec fn notification_header() -> Smb2Header {
    Smb2Header {
        structure_size: 64,
        credit_charge: 0,
        status: 0,
        command: Smb2Command::OplockBreak,
        credits: 0,
        flags: Smb2Flags(Smb2Flags::SERVER_TO_REDIR),
        next_command: 0,
        message_id: UNSOLICITED_MESSAGE_ID,
        async_id: 0,
        tree_id: 0,
        session_id: 0,
        signature: header::no_signature(),
    }
}

fn build_notification_header() -> (h: Smb2Header)
    ensures
        h == notification_header(),
{
    Smb2Header {
        structure_size: 64,
        credit_charge: 0,
        status: 0,
        command: Smb2Command::OplockBreak,
        credits: 0,
        flags: Smb2Flags(Smb2Flags::SERVER_TO_REDIR),
        next_command: 0,
        message_id: UNSOLICITED_MESSAGE_ID,
        async_id: 0,
        tree_id: 0,
        session_id: 0,
        signature: [0u8; 16],
    }
}

/// A lease that has to be broken.
#[derive(Clone, Copy, Debug)]
pub struct LeaseBreakEvent {
    pub break_id: u64,
    pub lease_key: [u8; 16],
    pub current_state: u32,
    pub new_state: u32,
    pub new_epoch: u16,
    pub ack_required: bool,
}

/// The flag of a lease break that asks for an answer.
pub const LEASE_BREAK_ACK_REQUIRED: u32 = 0x0000_0001;

/// The body of a lease break notification.
#[verifier::opaque]
pub open spec fn lease_break_body(event: LeaseBreakEvent) -> Seq<u8> {
    let flags = if event.ack_required {
        LEASE_BREAK_ACK_REQUIRED
    } else {
        0
    };
    codec::le16(LEASE_BREAK_NOTIFICATION_SIZE) + codec::le16(event.new_epoch) + codec::le32(flags)
        + event.lease_key@ + codec::le32(event.current_state) + codec::le32(event.new_state)
        + codec::le32(0) + codec::le32(0) + codec::le32(0)
}

/// Builds the message that tells the holder of a lease that it is broken. It is
/// not signed.
pub fn build_lease_break_notification(event: &LeaseBreakEvent) -> (message: Vec<u8>)
    ensures
        message@ == notification_header().bytes() + lease_break_body(*event),
{
    let flags: u32 = if event.ack_required {
        LEASE_BREAK_ACK_REQUIRED
    } else {
        0
    };
    let mut body: Vec<u8> = Vec::new();
    codec::put_u16(&mut body, LEASE_BREAK_NOTIFICATION_SIZE);
    codec::put_u16(&mut body, event.new_epoch);
    codec::put_u32(&mut body, flags);
    codec::put_bytes(&mut body, event.lease_key.as_slice());
    codec::put_u32(&mut body, event.current_state);
    codec::put_u32(&mut body, event.new_state);
    codec::put_u32(&mut body, 0);
    codec::put_u32(&mut body, 0);
    codec::put_u32(&mut body, 0);
    assert(body@ =~= lease_break_body(*event)) by {
        reveal(lease_break_body);
    }
    common::serialize_response(&build_notification_header(), body.as_slice())
}

/// An oplock that has to be broken.
#[derive(Clone, Copy, Debug)]
pub struct OplockBreakEvent {
    pub break_id: u64,
    pub persistent_id: u64,
    pub volatile_id: u64,
    pub current_level: u8,
    pub new_level: u8,
    pub ack_required: bool,
}

/// The level that a notification names: that of the event, unless it is not one
/// an oplock can be broken to.
pub open spec fn notified_level(new_level: u8) -> u8 {
    if new_level == 0x01 || new_level == 0x08 || new_level == 0x09 {
        new_level
    } else {
        0x00
    }
}

/// The body that names a file and an oplock level: that of a notification, of
/// its acknowledgment and of the response to it.
pub open spec fn oplock_break_body(level: u8, persistent: u64, volatile: u64) -> Seq<u8> {
    codec::le16(24) + seq![level, 0u8] + codec::le32(0) + codec::le64(persistent) + codec::le64(
        volatile,
    )
}

fn build_oplock_break_body(level: u8, persistent: u64, volatile: u64) -> (body: Vec<u8>)
    ensures
        body@ == oplock_break_body(level, persistent, volatile),
{
    let mut body: Vec<u8> = Vec::new();
    codec::put_u16(&mut body, 24);
    body.push(level);
    body.push(0);
    codec::put_u32(&mut body, 0);
    codec::put_u64(&mut body, persistent);
    codec::put_u64(&mut body, volatile);
    assert(body@ =~= oplock_break_body(level, persistent, volatile));
    body
}

/// Builds the message that tells the holder of an oplock that it is broken. It
/// is not signed.
pub fn build_oplock_break_notification(event: &OplockBreakEvent) -> (message: Vec<u8>)
    ensures
        message@ == notification_header().bytes() + oplock_break_body(
            notified_level(event.new_level),
            event.persistent_id,
            event.volatile_id,
        ),
{
    let level: u8 = if event.new_level == 0x01 || event.new_level == 0x08 || event.new_level
        == 0x09 {
        event.new_level
    } else {
        0x00
    };
    let body = build_oplock_break_body(level, event.persistent_id, event.volatile_id);
    common::serialize_response(&build_notification_header(), body.as_slice())
}

/// Whether an acknowledgment belongs to an oplock or to a lease.
#[derive(Clone, Copy, Debug, PartialEq, Eq, Structural)]
pub enum AckKind {
    Oplock,
    Lease,
}

/// What an acknowledgment that starts with a size belongs to.
pub open spec fn ack_kind(size: u16) -> Option<AckKind> {
    if size == OPLOCK_BREAK_ACK_SIZE {
        Some(AckKind::Oplock)
    } else if size == LEASE_BREAK_ACK_SIZE {
        Some(AckKind::Lease)
    } else {
        None
    }
}

/// Tells acknowledgments of oplocks and leases apart by the size that they
/// start with.
pub fn handle_oplock_break(body: &[u8]) -> (r: Result<AckKind, HandlerError>)
    ensures
        body@.len() < 2 ==> error::malformed(r, "OPLOCK_BREAK body too short"@),
        body@.len() >= 2 ==> match ack_kind(codec::u16_at(body@, 0)) {
            Some(kind) => r == Ok::<AckKind, HandlerError>(kind),
            None => error::refused(r, NtStatus::InvalidParameter),
        },
{
    if body.len() < 2 {
        return Err(error::protocol_error("OPLOCK_BREAK body too short"));
    }
    let size: u16 = codec::get_u16(body, 0);
    if size == OPLOCK_BREAK_ACK_SIZE {
        Ok(AckKind::Oplock)
    } else if size == LEASE_BREAK_ACK_SIZE {
        Ok(AckKind::Lease)
    } else {
        Err(HandlerError::Status(NtStatus::InvalidParameter))
    }
}

/// The acknowledgment of a broken oplock.
#[derive(Clone, Copy, Debug, PartialEq, Eq, Structural)]
pub struct OplockBreakAcknowledgment {
    pub oplock_level: OplockLevel,
    pub file_id_persistent: u64,
    pub file_id_volatile: u64,
}

impl OplockBreakAcknowledgment {
    /// Whether a body can be read: it is long enough and its level has a
    /// meaning.
    pub open spec fn readable(body: Seq<u8>) -> bool {
        body.len() >= 24 && OplockLevel::is_level(body[2])
    }

    pub open spec fn of(body: Seq<u8>) -> OplockBreakAcknowledgment {
        OplockBreakAcknowledgment {
            oplock_level: OplockLevel::spec_from_u8(body[2]),
            file_id_persistent: codec::u64_at(body, 8),
            file_id_volatile: codec::u64_at(body, 16),
        }
    }

    pub fn parse(body: &[u8]) -> (ack: Option<OplockBreakAcknowledgment>)
        ensures
            Self::readable(body@) ==> ack == Some(Self::of(body@)),
            !Self::readable(body@) ==> ack is None,
    {
        if body.len() < 24 {
            return None;
        }
        let n: u8 = body[2];
        if n != 0x00 && n != 0x01 && n != 0x08 && n != 0x09 && n != 0xFF {
            return None;
        }
        Some(
            OplockBreakAcknowledgment {
                oplock_level: OplockLevel::from_u8(n),
                file_id_persistent: codec::get_u64(body, 8),
                file_id_volatile: codec::get_u64(body, 16),
            },
        )
    }
}

/// The acknowledgment of a broken oplock that waits for its handle.
#[derive(Debug)]
pub struct OplockAckAwaitHandle {
    pub header: Smb2Header,
    pub ack: OplockBreakAcknowledgment,
    /// The handle to look up.
    pub handle_id: u128,
}

/// Starts to handle the acknowledgment of a broken oplock.
pub fn handle_oplock_break_ack(header: &Smb2Header, body: &[u8]) -> (r: Result<
    OplockAckAwaitHandle,
    HandlerError,
>)
    ensures
        !OplockBreakAcknowledgment::readable(body@) ==> error::malformed(
            r,
            "Failed to parse oplock ack"@,
        ),
        OplockBreakAcknowledgment::readable(body@) ==> {
            let ack = OplockBreakAcknowledgment::of(body@);
            r == Ok::<OplockAckAwaitHandle, HandlerError>(
                OplockAckAwaitHandle {
                    header: *header,
                    ack,
                    handle_id: common::spec_handle_id(
                        ack.file_id_persistent,
                        ack.file_id_volatile,
                    ),
                },
            )
        },
        r matches Ok(a) ==> common::is_file_id_at(body@, 8, a.handle_id),
{
    proof {
        if body@.len() >= 24 {
            common::lemma_file_id_at(body@, 8);
        }
    }
    match OplockBreakAcknowledgment::parse(body) {
        None => Err(error::protocol_error("Failed to parse oplock ack")),
        Some(ack) => Ok(
            OplockAckAwaitHandle {
                header: *header,
                ack,
                handle_id: common::handle_id(ack.file_id_persistent, ack.file_id_volatile),
            },
        ),
    }
}

/// Whether an oplock may be broken to a level: a holder keeps the right to read
/// from its cache at most.
pub open spec fn may_acknowledge(level: OplockLevel) -> bool {
    level == OplockLevel::NoOplock || level == OplockLevel::LevelII
}

/// What an acknowledged oplock break leads to: tell the registry, set the level
/// of the oplock there, store the handle, and answer. None of the first three
/// can make the request fail.
#[derive(Debug)]
pub struct OplockAckDone {
    pub handle_id: u128,
    pub ack: OplockBreakAcknowledgment,
    /// The level that the holder is left with.
    pub level: u8,
    pub handle: HandleState,
    pub response: Vec<u8>,
}

impl OplockAckAwaitHandle {
    /// What an acknowledgment for a handle leads to.
    pub open spec fn is_acknowledged(
        self,
        handle: HandleState,
        credits: u16,
        done: OplockAckDone,
    ) -> bool {
        &&& done.handle_id == self.handle_id
        &&& done.ack == self.ack
        &&& done.level == self.ack.oplock_level.spec_as_u8()
        &&& done.handle == (HandleState {
            oplock_level: self.ack.oplock_level.spec_as_u8(),
            ..handle
        })
        &&& done.response@ == common::response(
            self.header,
            NtStatus::Success,
            credits,
            oplock_break_body(
                self.ack.oplock_level.spec_as_u8(),
                self.ack.file_id_persistent,
                self.ack.file_id_volatile,
            ),
        )
    }

    /// Takes the handle that the state store found. A level that no oplock is
    /// broken to is refused.
    pub fn on_handle(self, reply: Result<Option<HandleState>, String>, credits: u16) -> (r: Result<
        OplockAckDone,
        HandlerError,
    >)
        ensures
            match reply {
                Err(text) => r == Err::<OplockAckDone, HandlerError>(HandlerError::Internal(text)),
                Ok(None) => error::refused(r, NtStatus::FileClosed),
                Ok(Some(handle)) => if !may_acknowledge(self.ack.oplock_level) {
                    error::refused(r, NtStatus::InvalidParameter)
                } else {
                    r matches Ok(done) && self.is_acknowledged(handle, credits, done)
                },
            },
    {
        match reply {
            Err(text) => Err(HandlerError::Internal(text)),
            Ok(None) => Err(HandlerError::Status(NtStatus::FileClosed)),
            Ok(Some(found)) => {
                if self.ack.oplock_level != OplockLevel::NoOplock && self.ack.oplock_level
                    != OplockLevel::LevelII {
                    return Err(HandlerError::Status(NtStatus::InvalidParameter));
                }
                let level: u8 = self.ack.oplock_level.as_u8();
                let mut handle = found;
                handle.oplock_level = level;
                let body = build_oplock_break_body(
                    level,
                    self.ack.file_id_persistent,
                    self.ack.file_id_volatile,
                );
                let response = common::build_response(
                    &self.header,
                    NtStatus::Success,
                    credits,
                    body.as_slice(),
                );
                Ok(
                    OplockAckDone { handle_id: self.handle_id, ack: self.ack, level, handle, response },
                )
            },
        }
    }
}

/// The acknowledgment of a broken lease.
#[derive(Clone, Copy, Debug)]
pub struct LeaseBreakAcknowledgment {
    pub lease_key: [u8; 16],
    pub lease_state: u32,
}

impl LeaseBreakAcknowledgment {
    pub open spec fn is_ack_of(self, body: Seq<u8>) -> bool {
        self.lease_key@ == body.subrange(8, 24) && self.lease_state == codec::u32_at(body, 24)
    }

    pub fn parse(body: &[u8]) -> (ack: Option<LeaseBreakAcknowledgment>)
        ensures
            match ack {
                None => body@.len() < 36,
                Some(a) => body@.len() >= 36 && a.is_ack_of(body@),
            },
    {
        if body.len() < 36 {
            return None;
        }
        Some(
            LeaseBreakAcknowledgment {
                lease_key: codec::get_array16(body, 8),
                lease_state: codec::get_u32(body, 24),
            },
        )
    }
}

/// How the registry of pending breaks takes an acknowledgment.
#[derive(Clone, Copy, Debug, PartialEq, Eq, Structural)]
pub enum AckReply {
    /// The break is completed.
    Completed,
    /// Nothing was to be acknowledged.
    NoPendingBreak,
    /// The holder claims to keep more than it was left.
    InvalidStateSubset,
    Failed,
}

/// What an acknowledgment is answered when a break that leaves a state to the
/// holder is pending, or none.
pub open spec fn ack_reply(pending: Option<u32>, acked_state: u32) -> AckReply {
    match pending {
        None => AckReply::NoPendingBreak,
        Some(break_to) => if is_substate(acked_state, break_to) {
            AckReply::Completed
        } else {
            AckReply::InvalidStateSubset
        },
    }
}

/// Judges an acknowledgment by the state that the pending break, if there is
/// one, leaves to the holder.
pub fn check_acknowledgment(pending: Option<u32>, acked_state: u32) -> (reply: AckReply)
    ensures
        reply == ack_reply(pending, acked_state),
{
    match pending {
        None => AckReply::NoPendingBreak,
        Some(break_to) => if acked_state & !break_to == 0 {
            AckReply::Completed
        } else {
            AckReply::InvalidStateSubset
        },
    }
}

/// The acknowledgment of a broken lease that waits for the registry.
#[derive(Debug)]
pub struct LeaseAckAwaitRegistry {
    pub header: Smb2Header,
    pub ack: LeaseBreakAcknowledgment,
    /// The lease's key as text.
    pub lease_key: String,
}

/// Starts to handle the acknowledgment of a broken lease.
pub fn handle_lease_break_ack(header: &Smb2Header, body: &[u8]) -> (r: Result<
    LeaseAckAwaitRegistry,
    HandlerError,
>)
    ensures
        body@.len() < 36 ==> error::malformed(r, "Failed to parse lease ack"@),
        body@.len() >= 36 ==> (r matches Ok(a) && a.header == *header && a.ack.is_ack_of(body@)
            && a.lease_key@ == crate::text::hex_text(body@.subrange(8, 24))),
{
    match LeaseBreakAcknowledgment::parse(body) {
        None => Err(error::protocol_error("Failed to parse lease ack")),
        Some(ack) => {
            let lease_key = crate::text::lease_key_text(&ack.lease_key);
            Ok(LeaseAckAwaitRegistry { header: *header, ack, lease_key })
        },
    }
}

/// An accepted acknowledgment that waits for the stored lease.
#[derive(Debug)]
pub struct LeaseAckAwaitLease {
    pub header: Smb2Header,
    pub ack: LeaseBreakAcknowledgment,
}

impl LeaseAckAwaitRegistry {
    /// Takes what the registry of pending breaks says.
    pub fn on_registry(self, reply: AckReply) -> (r: Result<LeaseAckAwaitLease, HandlerError>)
        ensures
            match reply {
                AckReply::Completed => r == Ok::<LeaseAckAwaitLease, HandlerError>(
                    LeaseAckAwaitLease { header: self.header, ack: self.ack },
                ),
                AckReply::NoPendingBreak => error::refused(r, NtStatus::InvalidParameter),
                AckReply::InvalidStateSubset => error::refused(r, NtStatus::RequestNotAccepted),
                AckReply::Failed => error::refused(r, NtStatus::InvalidParameter),
            },
    {
        match reply {
            AckReply::Completed => Ok(
                LeaseAckAwaitLease { header: self.header, ack: self.ack },
            ),
            AckReply::NoPendingBreak => Err(HandlerError::Status(NtStatus::InvalidParameter)),
            AckReply::InvalidStateSubset => Err(
                HandlerError::Status(NtStatus::RequestNotAccepted),
            ),
            AckReply::Failed => Err(HandlerError::Status(NtStatus::InvalidParameter)),
        }
    }
}

/// The epoch of a lease after its next change.
pub open spec fn next_epoch(epoch: u16) -> u16 {
    ((epoch + 1) % 0x1_0000) as u16
}

/// A lease after its break was acknowledged.
pub open spec fn acknowledged_lease(lease: LeaseEntry, acked_state: u32) -> LeaseEntry {
    LeaseEntry {
        lease_state: acked_state,
        epoch: next_epoch(lease.epoch),
        breaking: false,
        break_to_state: 0,
        break_started_at: None,
        ..lease
    }
}

/// The body of the response to the acknowledgment of a broken lease.
pub open spec fn lease_ack_body(lease_key: Seq<u8>, state: u32) -> Seq<u8> {
    codec::le16(LEASE_BREAK_RESPONSE_SIZE) + codec::le16(0) + codec::le32(0) + lease_key
        + codec::le32(state) + codec::le64(0)
}

impl LeaseAckAwaitLease {
    /// Takes the stored lease, if it was found: it is stored anew with what is
    /// left of it. The response does not depend on it.
    pub fn on_lease(self, found: Option<LeaseEntry>, credits: u16) -> (r: (Option<LeaseEntry>, Vec<u8>))
        ensures
            r.0 == match found {
                Some(lease) => Some(acknowledged_lease(lease, self.ack.lease_state)),
                None => None,
            },
            r.1@ == common::response(
                self.header,
                NtStatus::Success,
                credits,
                lease_ack_body(self.ack.lease_key@, self.ack.lease_state),
            ),
    {
        let mut body: Vec<u8> = Vec::new();
        codec::put_u16(&mut body, LEASE_BREAK_RESPONSE_SIZE);
        codec::put_u16(&mut body, 0);
        codec::put_u32(&mut body, 0);
        codec::put_bytes(&mut body, self.ack.lease_key.as_slice());
        codec::put_u32(&mut body, self.ack.lease_state);
        codec::put_u64(&mut body, 0);
        assert(body@ =~= lease_ack_body(self.ack.lease_key@, self.ack.lease_state));
        let response = common::build_response(
            &self.header,
            NtStatus::Success,
            credits,
            body.as_slice(),
        );
        let updated = match found {
            None => None,
            Some(lease) => {
                let mut lease = lease;
                lease.lease_state = self.ack.lease_state;
                lease.epoch = lease.epoch.wrapping_add(1);
                lease.breaking = false;
                lease.break_to_state = 0;
                lease.break_started_at = None;
                Some(lease)
            },
        };
        (updated, response)
    }
}

/// A notification can be told from a response: it names no request, no session
/// and no tree, and it is not signed.
pub proof fn law_notification_is_unsolicited(body: Seq<u8>, read: Smb2Header)
    requires
        read.is_header_of(notification_header().bytes() + body),
    ensures
        read.message_id == UNSOLICITED_MESSAGE_ID,
        read.session_id == 0,
        read.tree_id == 0,
        read.command == Smb2Command::OplockBreak,
        read.flags.0 == Smb2Flags::SERVER_TO_REDIR,
        !read.flags.spec_is_signed(),
{
    header::law_header_round_trip(notification_header(), body, read);
    assert(1u32 & 8u32 == 0) by (bit_vector);
}

/// An acknowledgment that answers a notification with the level that it named
/// is read back as that level and that file, and such a level is accepted if
/// oplocks are broken to it.
pub proof fn law_oplock_ack_echoes_notification(event: OplockBreakEvent)
    ensures
        ({
            let body = oplock_break_body(
                notified_level(event.new_level),
                event.persistent_id,
                event.volatile_id,
            );
            &&& body.len() == OPLOCK_BREAK_ACK_SIZE
            &&& OplockBreakAcknowledgment::readable(body)
            &&& OplockBreakAcknowledgment::of(body).oplock_level.spec_as_u8() == notified_level(
                event.new_level,
            )
            &&& notified_level(event.new_level) <= 1 ==> may_acknowledge(
                OplockBreakAcknowledgment::of(body).oplock_level,
            )
            &&& OplockBreakAcknowledgment::of(body).file_id_persistent == event.persistent_id
            &&& OplockBreakAcknowledgment::of(body).file_id_volatile == event.volatile_id
        }),
{
    let level = notified_level(event.new_level);
    let body = oplock_break_body(level, event.persistent_id, event.volatile_id);
    assert(body[2] == level);
    assert(body.subrange(8, 16) =~= codec::le64(event.persistent_id));
    assert(body.subrange(16, 24) =~= codec::le64(event.volatile_id));
    codec::lemma_read_le64(body, 8, event.persistent_id);
    codec::lemma_read_le64(body, 16, event.volatile_id);
}

/// An accepted acknowledgment never leaves the holder more than the break did.
pub proof fn law_acknowledged_state_is_granted(
    pending: Option<u32>,
    lease: LeaseEntry,
    acked_state: u32,
)
    requires
        pending is Some,
        is_substate(acked_state, pending->0),
    ensures
        is_substate(acknowledged_lease(lease, acked_state).lease_state, pending->0),
        !acknowledged_lease(lease, acked_state).breaking,
{
}

/// The bits of a lease: two leases cannot be held together if one of them has
/// bit 1. A holder that has to make room for a lease with bit 1 keeps bit 0 at
/// most, and otherwise all but bit 1.
pub proof fn law_lease_bits(existing: u32, requested: u32)
    ensures
        lease_conflict(existing, requested) <==> existing & 2 != 0 || requested & 2 != 0,
        requested & 2 != 0 ==> break_state(existing, requested) == existing & 1,
        requested & 2 == 0 ==> break_state(existing, requested) == existing & 0xFFFF_FFFD,
{
    assert(existing & !2u32 == existing & 0xFFFF_FFFD) by (bit_vector);
}

/// Who has to confirm a break: the holder of an oplock with number 8 or 9, and
/// the holder of a lease unless bit 0 is all that it has.
pub proof fn law_who_confirms(level: OplockLevel, state: u32)
    ensures
        spec_oplock_ack_required(level.spec_as_u8()) <==> level == OplockLevel::Batch || level
            == OplockLevel::Exclusive,
        spec_lease_ack_required(state) <==> state != 1,
{
}

/// The number of each oplock level, which no other one has.
pub proof fn law_oplock_numbers(level: OplockLevel, n: u8)
    ensures
        level.spec_as_u8() == 0 <==> level == OplockLevel::NoOplock,
        level.spec_as_u8() == 1 <==> level == OplockLevel::LevelII,
        level.spec_as_u8() == 8 <==> level == OplockLevel::Exclusive,
        level.spec_as_u8() == 9 <==> level == OplockLevel::Batch,
        level.spec_as_u8() == 0xFF <==> level == OplockLevel::Lease,
        OplockLevel::is_level(n) <==> OplockLevel::spec_from_u8(n).spec_as_u8() == n,
        !OplockLevel::is_level(n) ==> OplockLevel::spec_from_u8(n) == OplockLevel::NoOplock,
{
}

#[verifier::rlimit(50)]
proof fn lemma_lease_break_body(event: LeaseBreakEvent)
    ensures
        ({
            let body = lease_break_body(event);
            &&& body.len() == 44
            &&& codec::u16_at(body, 0) == 44
            &&& codec::u16_at(body, 2) == event.new_epoch
            &&& codec::u32_at(body, 4) == if event.ack_required {
                1u32
            } else {
                0u32
            }
            &&& body.subrange(8, 24) == event.lease_key@
            &&& codec::u32_at(body, 24) == event.current_state
            &&& codec::u32_at(body, 28) == event.new_state
        }),
{
    reveal(lease_break_body);
    let body = lease_break_body(event);
    let flags = if event.ack_required {
        1u32
    } else {
        0u32
    };
    assert(codec::u16_at(body, 0) == 44) by {
        assert(body.subrange(0, 2) =~= codec::le16(44));
        codec::lemma_read_le16(body, 0, 44);
    }
    assert(codec::u16_at(body, 2) == event.new_epoch) by {
        assert(body.subrange(2, 4) =~= codec::le16(event.new_epoch));
        codec::lemma_read_le16(body, 2, event.new_epoch);
    }
    assert(codec::u32_at(body, 4) == flags) by {
        assert(body.subrange(4, 8) =~= codec::le32(flags));
        codec::lemma_read_le32(body, 4, flags);
    }
    assert(body.subrange(8, 24) =~= event.lease_key@);
    assert(codec::u32_at(body, 24) == event.current_state) by {
        assert(body.subrange(24, 28) =~= codec::le32(event.current_state));
        codec::lemma_read_le32(body, 24, event.current_state);
    }
    assert(codec::u32_at(body, 28) == event.new_state) by {
        assert(body.subrange(28, 32) =~= codec::le32(event.new_state));
        codec::lemma_read_le32(body, 28, event.new_state);
    }
}

/// What the holder of a lease learns from a notification, by where it stands in
/// the body: the lease's new epoch (2), whether to confirm (bit 0 at 4), which
/// lease it is (8), what it has (24) and what it is left with (28).
pub proof fn law_lease_break_notification(event: LeaseBreakEvent)
    ensures
        ({
            let body = lease_break_body(event);
            &&& body.len() == 44
            &&& codec::u16_at(body, 0) == 44
            &&& codec::u16_at(body, 2) == event.new_epoch
            &&& codec::u32_at(body, 4) & 1 != 0 <==> event.ack_required
            &&& body.subrange(8, 24) == event.lease_key@
            &&& codec::u32_at(body, 24) == event.current_state
            &&& codec::u32_at(body, 28) == event.new_state
        }),
{
    lemma_lease_break_body(event);
    assert(1u32 & 1 != 0 && 0u32 & 1 == 0) by (bit_vector);
}

/// A holder that confirms a break with the key of the notification (8 of its
/// body) and the state that it was left with (28) is understood: the key and
/// the state of the acknowledgment stand at 8 and 24 of its body. The response
/// repeats them at the same places.
pub proof fn law_lease_ack_echoes_notification(
    event: LeaseBreakEvent,
    body: Seq<u8>,
    ack: LeaseBreakAcknowledgment,
)
    requires
        body.len() >= 36,
        ack.is_ack_of(body),
        body.subrange(8, 24) == lease_break_body(event).subrange(8, 24),
        codec::u32_at(body, 24) == codec::u32_at(lease_break_body(event), 28),
    ensures
        ack.lease_key@ == event.lease_key@,
        ack.lease_state == event.new_state,
        ({
            let response = lease_ack_body(ack.lease_key@, ack.lease_state);
            &&& response.len() == 36
            &&& codec::u16_at(response, 0) == 36
            &&& response.subrange(8, 24) == event.lease_key@
            &&& codec::u32_at(response, 24) == event.new_state
        }),
{
    lemma_lease_break_body(event);
    lemma_lease_ack_body(ack.lease_key@, ack.lease_state);
}

#[verifier::rlimit(50)]
proof fn lemma_lease_ack_body(lease_key: Seq<u8>, state: u32)
    requires
        lease_key.len() == 16,
    ensures
        ({
            let response = lease_ack_body(lease_key, state);
            &&& response.len() == 36
            &&& codec::u16_at(response, 0) == 36
            &&& response.subrange(8, 24) == lease_key
            &&& codec::u32_at(response, 24) == state
        }),
{
    let response = lease_ack_body(lease_key, state);
    assert(response.subrange(0, 2) =~= codec::le16(36));
    codec::lemma_read_le16(response, 0, 36);
    assert(response.subrange(8, 24) =~= lease_key);
    assert(response.subrange(24, 28) =~= codec::le32(state));
    codec::lemma_read_le32(response, 24, state);
}

/// An acknowledgment names the handle of the notification by the same sixteen
/// bytes, at 8 of both bodies.
pub proof fn law_oplock_notification_names_handle(level: u8, handle_id: u128)
    ensures
        common::is_file_id_at(
            oplock_break_body(
                level,
                common::persistent_half(handle_id),
                common::volatile_half(handle_id),
            ),
            8,
            handle_id,
        ),
        oplock_break_body(
            level,
            common::persistent_half(handle_id),
            common::volatile_half(handle_id),
        )[2] == level,
{
    let p = common::persistent_half(handle_id);
    let v = common::volatile_half(handle_id);
    let body = oplock_break_body(level, p, v);
    assert(body.subrange(8, 24) =~= codec::le64(p) + codec::le64(v));
}

/// The holder of an oplock may be left with none (0) or with level II (1), and
/// with nothing else.
pub proof fn law_what_an_oplock_is_broken_to(level: OplockLevel)
    ensures
        may_acknowledge(level) <==> level.spec_as_u8() <= 1,
{
}

/// A break that was confirmed leaves a lease with the confirmed state, one epoch
/// further on, and otherwise as it was, no longer being broken.
pub proof fn law_confirmed_lease(lease: LeaseEntry, state: u32)
    ensures
        ({
            let after = acknowledged_lease(lease, state);
            &&& after.lease_state == state
            &&& lease.epoch < 0xFFFF ==> after.epoch == lease.epoch + 1
            &&& lease.epoch == 0xFFFF ==> after.epoch == 0
            &&& !after.breaking && after.break_to_state == 0 && after.break_started_at is None
            &&& after.lease_key == lease.lease_key
            &&& after.client_guid == lease.client_guid
            &&& after.session_id == lease.session_id
            &&& after.server_id == lease.server_id
            &&& after.file_path == lease.file_path
            &&& after.is_v2 == lease.is_v2
        }),
{
}

/// An acknowledgment starts with its size, by which it is told what it belongs
/// to: 24 for an oplock, 36 for a lease.
pub proof fn law_ack_sizes(size: u16)
    ensures
        ack_kind(size) == Some(AckKind::Oplock) <==> size == 24,
        ack_kind(size) == Some(AckKind::Lease) <==> size == 36,
        ack_kind(size) is None <==> size != 24 && size != 36,
{
}

/// A notification answers no request: its message id is the highest there is,
/// and it belongs to no session and no tree; it is an OPLOCK_BREAK (18) from the
/// server (1).
pub proof fn law_notification_on_wire(body: Seq<u8>)
    ensures
        ({
            let m = notification_header().bytes() + body;
            &&& codec::u16_at(m, 12) == 18
            &&& codec::u32_at(m, 16) == 1
            &&& codec::u64_at(m, 24) == 0xFFFF_FFFF_FFFF_FFFF
            &&& codec::u32_at(m, 36) == 0
            &&& codec::u64_at(m, 40) == 0
            &&& codec::u32_at(m, 8) == 0
            &&& m.subrange(64, m.len() as int) == body
        }),
{
    header::law_header_layout(notification_header(), body);
}

/// The level that a notification names is the one that the oplock is broken to,
/// if that is 1, 8 or 9; otherwise none (0).
pub proof fn law_notified_level(new_level: u8)
    ensures
        new_level == 1 || new_level == 8 || new_level == 9 ==> notified_level(new_level)
            == new_level,
        new_level != 1 && new_level != 8 && new_level != 9 ==> notified_level(new_level) == 0,
{
}

/// A holder may keep what a break leaves it, or less.
pub proof fn law_substates(state: u32, of: u32)
    ensures
        is_substate(state, of) <==> state & of == state,
{
    assert((state & !of == 0) <==> (state & of == state)) by (bit_vector);
}

/// A break is done once the holder confirms a state all of whose bits the break
/// leaves to it; one that claims more is told so, and so is one of whom nothing
/// was asked.
pub proof fn law_what_may_be_confirmed(pending: Option<u32>, state: u32)
    ensures
        ack_reply(pending, state) == AckReply::Completed <==> (pending matches Some(left) && state
            & left == state),
        ack_reply(pending, state) == AckReply::NoPendingBreak <==> pending is None,
        ack_reply(pending, state) == AckReply::InvalidStateSubset <==> (pending matches Some(left)
            && state & left != state),
{
    if let Some(left) = pending {
        law_substates(state, left);
    }
}

/// A confirmed break of an oplock changes the level of the handle and nothing
/// else of it. The response tells the level (66 of the message) and the file id
/// (72 and 80) of the confirmation.
pub proof fn law_confirmed_oplock(
    wait: OplockAckAwaitHandle,
    handle: HandleState,
    credits: u16,
    done: OplockAckDone,
)
    requires
        wait.is_acknowledged(handle, credits, done),
    ensures
        done.handle_id == wait.handle_id,
        done.level == done.handle.oplock_level,
        done.handle.oplock_level == wait.ack.oplock_level.spec_as_u8(),
        done.handle == (HandleState { oplock_level: done.level, ..handle }),
        done.response@[66] == done.level,
        codec::u64_at(done.response@, 72) == wait.ack.file_id_persistent,
        codec::u64_at(done.response@, 80) == wait.ack.file_id_volatile,
        codec::u32_at(done.response@, 8) == 0,
{
    let h = header::response_header(wait.header, NtStatus::Success, credits);
    let p = wait.ack.file_id_persistent;
    let v = wait.ack.file_id_volatile;
    let body = oplock_break_body(done.level, p, v);
    header::law_header_layout(h, body);
    assert(body.subrange(8, 16) =~= codec::le64(p));
    codec::lemma_read_le64(body, 8, p);
    assert(body.subrange(16, 24) =~= codec::le64(v));
    codec::lemma_read_le64(body, 16, v);
    codec::lemma_behind(h.bytes(), body, 8);
    codec::lemma_behind(h.bytes(), body, 16);
    assert(done.response@[66] == body[2]);
}

} // verus!
