//! SMB dialects and the capabilities that come with them.

use vstd::prelude::*;

verus! {

/// The dialects of the protocol, oldest first.
#[derive(Clone, Copy, Debug, PartialEq, Eq, Structural)]
pub enum SmbDialect {
    Smb202,
    Smb210,
    Smb300,
    Smb302,
    Smb311,
}

impl SmbDialect {
    /// The dialect's revision number; a newer dialect has a greater one.
    pub open spec fn spec_revision(self) -> u16 {
        match self {
            SmbDialect::Smb202 => 0x0202,
            SmbDialect::Smb210 => 0x0210,
            SmbDialect::Smb300 => 0x0300,
            SmbDialect::Smb302 => 0x0302,
            SmbDialect::Smb311 => 0x0311,
        }
    }

    pub fn revision(&self) -> (r: u16)
        ensures
            r == self.spec_revision(),
    {
        match self {
            SmbDialect::Smb202 => 0x0202,
            SmbDialect::Smb210 => 0x0210,
            SmbDialect::Smb300 => 0x0300,
            SmbDialect::Smb302 => 0x0302,
            SmbDialect::Smb311 => 0x0311,
        }
    }

    /// Whether the dialect is `other` or a newer one.
    pub open spec fn spec_at_least(self, other: SmbDialect) -> bool {
        self.spec_revision() >= other.spec_revision()
    }

    pub fn at_least(&self, other: SmbDialect) -> (b: bool)
        ensures
            b == self.spec_at_least(other),
    {
        self.revision() >= other.revision()
    }
}

/// Capability bits of a NEGOTIATE response.
pub struct Capabilities;

impl Capabilities {
    pub const LEASING: u32 = 0x0000_0002;
    pub const LARGE_MTU: u32 = 0x0000_0004;
    pub const MULTI_CHANNEL: u32 = 0x0000_0008;
    pub const DIRECTORY_LEASING: u32 = 0x0000_0020;
    pub const ENCRYPTION: u32 = 0x0000_0040;
}

/// Security mode of a NEGOTIATE response: signing is offered, not demanded.
pub const SIGNING_ENABLED: u16 = 0x0001;

/// The capabilities that the server announces for a dialect: large requests
/// always, leases from 2.1 on, encryption and directory leases from 3.0 on.
pub open spec fn spec_server_capabilities(dialect: SmbDialect) -> u32 {
    let leasing = if dialect.spec_at_least(SmbDialect::Smb210) {
        Capabilities::LEASING
    } else {
        0
    };
    let newer = if dialect.spec_at_least(SmbDialect::Smb300) {
        Capabilities::ENCRYPTION | Capabilities::DIRECTORY_LEASING
    } else {
        0
    };
    Capabilities::LARGE_MTU | leasing | newer
}

pub fn server_capabilities(dialect: SmbDialect) -> (caps: u32)
    ensures
        caps == spec_server_capabilities(dialect),
{
    let mut caps: u32 = Capabilities::LARGE_MTU;
    assert(Capabilities::LARGE_MTU | 0 == Capabilities::LARGE_MTU) by (bit_vector);
    if dialect.at_least(SmbDialect::Smb210) {
        caps = caps | Capabilities::LEASING;
    }
    if dialect.at_least(SmbDialect::Smb300) {
        caps = caps | (Capabilities::ENCRYPTION | Capabilities::DIRECTORY_LEASING);
    }
    assert(caps | 0 == caps) by (bit_vector);
    caps
}

/// The dialects that the server takes, most wanted first.
pub open spec fn server_dialects() -> Seq<SmbDialect> {
    seq![SmbDialect::Smb302, SmbDialect::Smb300, SmbDialect::Smb210, SmbDialect::Smb202]
}

/// Whether the server and a client that offers `offered` have `dialect` in common.
pub open spec fn is_common_dialect(offered: Seq<u16>, dialect: SmbDialect) -> bool {
    server_dialects().contains(dialect) && offered.contains(dialect.spec_revision())
}

fn offers(client_dialects: &[u16], revision: u16) -> (b: bool)
    ensures
        b == client_dialects@.contains(revision),
{
    let mut i: usize = 0;
    while i < client_dialects.len()
        invariant
            i <= client_dialects@.len(),
            forall|k: int| 0 <= k < i ==> client_dialects@[k] != revision,
        decreases client_dialects@.len() - i,
    {
        if client_dialects[i] == revision {
            return true;
        }
        i = i + 1;
    }
    false
}

/// The newest dialect that the server and a client have in common.
pub open spec fn best_dialect(offered: Seq<u16>) -> Option<SmbDialect> {
    if offered.contains(0x0302) {
        Some(SmbDialect::Smb302)
    } else if offered.contains(0x0300) {
        Some(SmbDialect::Smb300)
    } else if offered.contains(0x0210) {
        Some(SmbDialect::Smb210)
    } else if offered.contains(0x0202) {
        Some(SmbDialect::Smb202)
    } else {
        None
    }
}

/// Selects the newest dialect that the server and the client have in common.
pub fn select_dialect(client_dialects: &[u16]) -> (selected: Option<SmbDialect>)
    ensures
        selected == best_dialect(client_dialects@),
        match selected {
            Some(d) => is_common_dialect(client_dialects@, d) && (forall|other: SmbDialect|
                is_common_dialect(client_dialects@, other) ==> d.spec_at_least(other)),
            None => forall|other: SmbDialect| !is_common_dialect(client_dialects@, other),
        },
{
    proof {
        let all = server_dialects();
        assert(all[0] == SmbDialect::Smb302 && all[1] == SmbDialect::Smb300 && all[2]
            == SmbDialect::Smb210 && all[3] == SmbDialect::Smb202);
    }
    if offers(client_dialects, 0x0302) {
        return Some(SmbDialect::Smb302);
    }
    if offers(client_dialects, 0x0300) {
        return Some(SmbDialect::Smb300);
    }
    if offers(client_dialects, 0x0210) {
        return Some(SmbDialect::Smb210);
    }
    if offers(client_dialects, 0x0202) {
        return Some(SmbDialect::Smb202);
    }
    None
}

/// The revision of each dialect, which no other one has; they are ordered by
/// age.
pub proof fn law_revisions(d: SmbDialect, other: SmbDialect)
    ensures
        d.spec_revision() == 0x0202 <==> d == SmbDialect::Smb202,
        d.spec_revision() == 0x0210 <==> d == SmbDialect::Smb210,
        d.spec_revision() == 0x0300 <==> d == SmbDialect::Smb300,
        d.spec_revision() == 0x0302 <==> d == SmbDialect::Smb302,
        d.spec_revision() == 0x0311 <==> d == SmbDialect::Smb311,
        d.spec_at_least(other) || other.spec_at_least(d),
        d.spec_at_least(other) && other.spec_at_least(d) ==> d == other,
        d.spec_at_least(SmbDialect::Smb202),
        SmbDialect::Smb311.spec_at_least(d),
{
}

/// What the server announces: requests of any size (bit 2) always, leases (bit
/// 1) unless the dialect is the oldest, encryption (bit 6) and leases on
/// directories (bit 5) from 3.0 on, and nothing else.
pub proof fn law_announced_capabilities(d: SmbDialect)
    ensures
        ({
            let caps = spec_server_capabilities(d);
            let from_3 = d != SmbDialect::Smb202 && d != SmbDialect::Smb210;
            &&& caps & 0x04 != 0
            &&& caps & 0x02 != 0 <==> d != SmbDialect::Smb202
            &&& caps & 0x40 != 0 <==> from_3
            &&& caps & 0x20 != 0 <==> from_3
            &&& caps & !0x66u32 == 0
        }),
{
    assert(((0x04u32 | 0 | 0) & 0x04 != 0) && ((0x04u32 | 0 | 0) & 0x02 == 0) && ((0x04u32 | 0 | 0)
        & 0x40 == 0) && ((0x04u32 | 0 | 0) & 0x20 == 0) && ((0x04u32 | 0 | 0) & !0x66u32 == 0) && ((
    0x04u32 | 0x02 | 0) & 0x04 != 0) && ((0x04u32 | 0x02 | 0) & 0x02 != 0) && ((0x04u32 | 0x02 | 0)
        & 0x40 == 0) && ((0x04u32 | 0x02 | 0) & 0x20 == 0) && ((0x04u32 | 0x02 | 0) & !0x66u32 == 0)
        && ((0x04u32 | 0x02 | (0x40u32 | 0x20)) & 0x04 != 0) && ((0x04u32 | 0x02 | (0x40u32 | 0x20)) & 0x02
        != 0) && ((0x04u32 | 0x02 | (0x40u32 | 0x20)) & 0x40 != 0) && ((0x04u32 | 0x02 | (0x40u32 | 0x20))
        & 0x20 != 0) && ((0x04u32 | 0x02 | (0x40u32 | 0x20)) & !0x66u32 == 0)) by (bit_vector);
}

/// The server takes every dialect but the newest, by its revision: it takes the
/// newest of those that are offered, whatever else is offered and in whatever
/// order.
pub proof fn law_best_offer_is_taken(offered: Seq<u16>)
    ensures
        best_dialect(offered) is None <==> !offered.contains(0x0202) && !offered.contains(0x0210)
            && !offered.contains(0x0300) && !offered.contains(0x0302),
        best_dialect(offered) matches Some(d) ==> offered.contains(d.spec_revision()) && forall|
            revision: u16,
        |
            offered.contains(revision) && (revision == 0x0202 || revision == 0x0210 || revision
                == 0x0300 || revision == 0x0302) ==> d.spec_revision() >= revision,
{
}

/// A client and the server have a dialect in common if the client offers 2.0.2,
/// 2.1, 3.0 or 3.0.2; none of the others is taken.
pub proof fn law_common_dialects(offered: Seq<u16>, dialect: SmbDialect)
    ensures
        is_common_dialect(offered, dialect) <==> offered.contains(dialect.spec_revision()) && (
        dialect.spec_revision() == 0x0202 || dialect.spec_revision() == 0x0210
            || dialect.spec_revision() == 0x0300 || dialect.spec_revision() == 0x0302),
{
    let taken = server_dialects();
    assert(taken[0] == SmbDialect::Smb302);
    assert(taken[1] == SmbDialect::Smb300);
    assert(taken[2] == SmbDialect::Smb210);
    assert(taken[3] == SmbDialect::Smb202);
    assert(taken.contains(SmbDialect::Smb302) && taken.contains(SmbDialect::Smb300)
        && taken.contains(SmbDialect::Smb210) && taken.contains(SmbDialect::Smb202));
}

} // verus!
