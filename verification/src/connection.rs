//! What the server keeps about one client connection.

use vstd::prelude::*;

use crate::error;
use crate::error::HandlerError;
use crate::protocol::dialect::SmbDialect;
use crate::protocol::header::Smb2Header;
use crate::protocol::status::NtStatus;

verus! {

/// The state of a connection.
#[derive(Debug)]
pub struct Connection {
    pub id: u64,
    /// The negotiated dialect.
    pub dialect: Option<SmbDialect>,
    /// The client's GUID, from its NEGOTIATE request.
    pub client_guid: [u8; 16],
    pub max_transact_size: u32,
    pub max_read_size: u32,
    pub max_write_size: u32,
    pub signing_required: bool,
    pub encryption_required: bool,
    /// Whether the connection is to end after the message at hand.
    pub disconnecting: bool,
    /// The ids of the sessions on this connection.
    pub sessions: Vec<u64>,
}

impl Connection {
    /// The sessions of the connection.
    pub open spec fn session_table(self) -> Set<u64> {
        self.sessions@.to_set()
    }

    /// Whether everything but the session table is the same.
    pub open spec fn same_settings(self, other: Connection) -> bool {
        &&& self.id == other.id
        &&& self.dialect == other.dialect
        &&& self.client_guid == other.client_guid
        &&& self.max_transact_size == other.max_transact_size
        &&& self.max_read_size == other.max_read_size
        &&& self.max_write_size == other.max_write_size
        &&& self.signing_required == other.signing_required
        &&& self.encryption_required == other.encryption_required
        &&& self.disconnecting == other.disconnecting
    }

    /// A connection on which nothing has been negotiated.
    pub fn new(id: u64, max_transact_size: u32, max_read_size: u32, max_write_size: u32) -> (c: Self)
        ensures
            c.id == id,
            c.dialect is None,
            c.client_guid@ == crate::codec::zeros(16),
            c.max_transact_size == max_transact_size,
            c.max_read_size == max_read_size,
            c.max_write_size == max_write_size,
            !c.signing_required,
            !c.encryption_required,
            !c.disconnecting,
            c.session_table() == Set::<u64>::empty(),
    {
        let c = Connection {
            id,
            dialect: None,
            client_guid: [0u8; 16],
            max_transact_size,
            max_read_size,
            max_write_size,
            signing_required: false,
            encryption_required: false,
            disconnecting: false,
            sessions: Vec::new(),
        };
        assert(c.client_guid@ =~= crate::codec::zeros(16));
        assert(c.session_table() =~= Set::<u64>::empty());
        c
    }

    /// Records the negotiated dialect.
    pub fn negotiate(&mut self, dialect: SmbDialect)
        ensures
            *final(self) == (Connection { dialect: Some(dialect), ..*old(self) }),
    {
        self.dialect = Some(dialect);
    }

    pub fn is_disconnecting(&self) -> (b: bool)
        ensures
            b == self.disconnecting,
    {
        self.disconnecting
    }

    /// Whether what is said before a session is authenticated goes into a hash.
    /// Only the newest dialect has it.
    pub fn hashes_preauth(&self) -> (b: bool)
        ensures
            b == (self.dialect == Some(SmbDialect::Smb311)),
    {
        match self.dialect {
            Some(SmbDialect::Smb311) => true,
            _ => false,
        }
    }

    pub fn has_session(&self, session_id: u64) -> (b: bool)
        ensures
            b == self.session_table().contains(session_id),
    {
        let mut i: usize = 0;
        while i < self.sessions.len()
            invariant
                i <= self.sessions@.len(),
                forall|k: int| 0 <= k < i ==> self.sessions@[k] != session_id,
            decreases self.sessions@.len() - i,
        {
            if self.sessions[i] == session_id {
                return true;
            }
            i = i + 1;
        }
        false
    }

    pub fn add_session(&mut self, session_id: u64)
        ensures
            final(self).same_settings(*old(self)),
            final(self).session_table() == old(self).session_table().insert(session_id),
    {
        if self.has_session(session_id) {
            assert(self.session_table() =~= self.session_table().insert(session_id));
            return ;
        }
        let ghost before = self.sessions@;
        self.sessions.push(session_id);
        proof {
            let now = self.sessions@;
            assert forall|x: u64| now.to_set().contains(x) == before.to_set().insert(
                session_id,
            ).contains(x) by {
                if now.contains(x) {
                    let k = choose|k: int| 0 <= k < now.len() && now[k] == x;
                    if k < before.len() {
                        assert(before[k] == x);
                    }
                }
                if before.contains(x) {
                    let k = choose|k: int| 0 <= k < before.len() && before[k] == x;
                    assert(now[k] == x);
                }
                assert(now[before.len() as int] == session_id);
            }
            assert(now.to_set() =~= before.to_set().insert(session_id));
        }
    }

    pub fn remove_session(&mut self, session_id: u64)
        ensures
            final(self).same_settings(*old(self)),
            final(self).session_table() == old(self).session_table().remove(session_id),
    {
        let mut kept: Vec<u64> = Vec::new();
        let mut i: usize = 0;
        while i < self.sessions.len()
            invariant
                i <= self.sessions@.len(),
                *self == *old(self),
                forall|x: u64|
                    kept@.contains(x) == (x != session_id && self.sessions@.subrange(
                        0,
                        i as int,
                    ).contains(x)),
            decreases self.sessions@.len() - i,
        {
            let ghost kept_before = kept@;
            let ghost seen_before = self.sessions@.subrange(0, i as int);
            let current: u64 = self.sessions[i];
            if current != session_id {
                kept.push(current);
            }
            i = i + 1;
            assert(self.sessions@.subrange(0, i as int) =~= seen_before.push(current));
            assert forall|x: u64|
                kept@.contains(x) == (x != session_id && self.sessions@.subrange(
                    0,
                    i as int,
                ).contains(x)) by {
                crate::handler::lemma_push_contains(seen_before, current, x);
                crate::handler::lemma_push_contains(kept_before, current, x);
            }
        }
        self.sessions = kept;
        proof {
            let all = old(self).sessions@;
            assert(all.subrange(0, all.len() as int) =~= all);
            assert(self.sessions@.to_set() =~= all.to_set().remove(session_id));
        }
    }

    /// The ids of the sessions.
    pub fn session_ids(&self) -> (ids: Vec<u64>)
        ensures
            ids@.to_set() == self.session_table(),
    {
        let ids = self.sessions.clone();
        assert(ids@ =~= self.sessions@);
        ids
    }

    /// Whether the dialect knows requests that cost more than one credit: 2.1
    /// and later do.
    pub open spec fn spec_supports_multi_credit(self) -> bool {
        self.dialect matches Some(d) && d.spec_at_least(SmbDialect::Smb210)
    }

    pub fn supports_multi_credit(&self) -> (b: bool)
        ensures
            b == self.spec_supports_multi_credit(),
    {
        match self.dialect {
            Some(d) => d.at_least(SmbDialect::Smb210),
            None => false,
        }
    }

    /// Whether a session can be bound to a second connection: from 3.0 on.
    pub open spec fn spec_is_multi_channel_capable(self) -> bool {
        self.dialect matches Some(d) && d.spec_at_least(SmbDialect::Smb300)
    }

    pub fn is_multi_channel_capable(&self) -> (b: bool)
        ensures
            b == self.spec_is_multi_channel_capable(),
    {
        match self.dialect {
            Some(d) => d.at_least(SmbDialect::Smb300),
            None => false,
        }
    }
}

/// The credits that a payload costs: one for each started block of 64 KiB, and
/// one if there is no payload.
pub open spec fn expected_charge(payload_size: u32) -> int {
    if payload_size == 0 {
        1
    } else {
        (payload_size - 1) / 65536 + 1
    }
}

/// Whether a request pays enough credits for its payload. The largest payloads
/// cost more than a request can pay.
pub open spec fn charge_suffices(credit_charge: u16, payload_size: u32) -> bool {
    credit_charge >= expected_charge(payload_size)
}

/// Refuses a request that does not pay enough credits for its payload, on
/// dialects that know such requests.
pub fn validate_credit_charge(
    connection: &Connection,
    header: &Smb2Header,
    payload_size: u32,
) -> (r: Result<(), HandlerError>)
    ensures
        r is Ok <==> !connection.spec_supports_multi_credit() || charge_suffices(
            header.credit_charge,
            payload_size,
        ),
        r is Err ==> error::refused(r, NtStatus::InvalidParameter),
{
    if !connection.supports_multi_credit() {
        return Ok(());
    }
    let expected: u32 = if payload_size == 0 {
        1
    } else {
        (payload_size - 1) / 65536 + 1
    };
    if (header.credit_charge as u32) < expected {
        return Err(HandlerError::Status(NtStatus::InvalidParameter));
    }
    Ok(())
}

/// A charge that suffices for a payload suffices for every smaller one.
pub proof fn law_charge_is_monotone(credit_charge: u16, larger: u32, smaller: u32)
    requires
        smaller <= larger,
        charge_suffices(credit_charge, larger),
    ensures
        charge_suffices(credit_charge, smaller),
        expected_charge(smaller) <= expected_charge(larger),
{
    if smaller > 0 {
        assert((smaller - 1) / 65536 <= (larger - 1) / 65536);
    }
}

/// A payload costs as many credits as it takes blocks of 64 KiB to hold it, and
/// not one more, but at least one.
pub proof fn law_charge_covers_payload(payload_size: u32, credit_charge: u16)
    ensures
        expected_charge(payload_size) >= 1,
        payload_size <= expected_charge(payload_size) * 65536,
        expected_charge(payload_size) > 1 ==> (expected_charge(payload_size) - 1) * 65536
            < payload_size,
        charge_suffices(credit_charge, payload_size) <==> credit_charge >= 1 && credit_charge
            * 65536 >= payload_size,
{
}

/// Which dialects know requests that cost more than one credit, and which let a
/// session be bound to a second connection.
pub proof fn law_dialects_of_connection(connection: Connection)
    ensures
        connection.spec_supports_multi_credit() <==> connection.dialect is Some
            && connection.dialect != Some(SmbDialect::Smb202),
        connection.spec_is_multi_channel_capable() <==> connection.dialect is Some
            && connection.dialect != Some(SmbDialect::Smb202) && connection.dialect != Some(
            SmbDialect::Smb210,
        ),
{
}

/// Connections that differ in no more than their sessions are the same once
/// their sessions are.
pub proof fn law_settings_and_sessions_are_all(a: Connection, b: Connection)
    requires
        a.same_settings(b),
        a.sessions == b.sessions,
    ensures
        a == b,
{
}

} // verus!
