//! NEGOTIATE: client and server agree on a dialect.

use vstd::prelude::*;

use crate::codec;
use crate::connection::Connection;
use crate::error;
use crate::error::HandlerError;
use crate::handler::common;
use crate::handler::ioctl;
use crate::helpers::time;
use crate::helpers::time::current_filetime;
use crate::protocol::dialect;
use crate::protocol::dialect::{SmbDialect, SIGNING_ENABLED};
use crate::protocol::header;
use crate::protocol::header::Smb2Header;
use crate::protocol::status::NtStatus;

verus! {

/// How many dialects a request lists, as far as its body reaches.
pub open spec fn offered_count(body: Seq<u8>) -> int {
    let announced = codec::u16_at(body, 2) as int;
    let room = (body.len() - 36) / 2;
    if announced <= room {
        announced
    } else {
        room
    }
}

/// The dialects that a request lists.
pub open spec fn offered_dialects(body: Seq<u8>) -> Seq<u16> {
    Seq::new(offered_count(body) as nat, |i: int| codec::u16_at(body, 36 + 2 * i))
}

fn parse_dialects(body: &[u8]) -> (dialects: Vec<u16>)
    requires
        body@.len() >= 36,
    ensures
        dialects@ == offered_dialects(body@),
{
    let announced: usize = codec::get_u16(body, 2) as usize;
    let mut dialects: Vec<u16> = Vec::new();
    let mut i: usize = 0;
    while i < announced && 36 + i * 2 + 2 <= body.len()
        invariant
            i <= announced <= 0xFFFF,
            i <= offered_count(body@),
            announced == codec::u16_at(body@, 2),
            body@.len() >= 36,
            dialects@ == offered_dialects(body@).take(i as int),
        decreases announced - i,
    {
        dialects.push(codec::get_u16(body, 36 + i * 2));
        i = i + 1;
        assert(dialects@ =~= offered_dialects(body@).take(i as int));
    }
    assert(offered_dialects(body@).take(i as int) =~= offered_dialects(body@));
    dialects
}

/// What the server says about itself.
#[derive(Clone, Copy, Debug)]
pub struct ServerOffer {
    pub dialect: SmbDialect,
    pub server_guid: [u8; 16],
    pub max_transact_size: u32,
    pub max_read_size: u32,
    pub max_write_size: u32,
    pub system_time: u64,
}

/// The body of a NEGOTIATE response. There is no security token in it and no
/// negotiate context.
#[verifier::opaque]
pub open spec fn negotiate_body(offer: ServerOffer) -> Seq<u8> {
    codec::le16(65) + codec::le16(SIGNING_ENABLED) + codec::le16(offer.dialect.spec_revision())
        + codec::le16(0) + offer.server_guid@ + codec::le32(
        dialect::spec_server_capabilities(offer.dialect),
    ) + codec::le32(offer.max_transact_size) + codec::le32(offer.max_read_size) + codec::le32(
        offer.max_write_size,
    ) + codec::le64(offer.system_time) + codec::le64(0) + codec::le16(128) + codec::le16(0)
        + codec::le32(0)
}

fn build_negotiate_body(offer: &ServerOffer) -> (body: Vec<u8>)
    ensures
        body@ == negotiate_body(*offer),
{
    let mut body: Vec<u8> = Vec::new();
    codec::put_u16(&mut body, 65);
    codec::put_u16(&mut body, SIGNING_ENABLED);
    codec::put_u16(&mut body, offer.dialect.revision());
    codec::put_u16(&mut body, 0);
    codec::put_bytes(&mut body, offer.server_guid.as_slice());
    codec::put_u32(&mut body, dialect::server_capabilities(offer.dialect));
    codec::put_u32(&mut body, offer.max_transact_size);
    codec::put_u32(&mut body, offer.max_read_size);
    codec::put_u32(&mut body, offer.max_write_size);
    codec::put_u64(&mut body, offer.system_time);
    codec::put_u64(&mut body, 0);
    codec::put_u16(&mut body, 128);
    codec::put_u16(&mut body, 0);
    codec::put_u32(&mut body, 0);
    assert(body@ =~= negotiate_body(*offer)) by {
        reveal(negotiate_body);
    }
    body
}

/// What comes of a NEGOTIATE request, at a time as a FILETIME: the newest common
/// dialect is taken, and the client's GUID is kept. A request has to list a
/// dialect.
pub open spec fn is_negotiated(
    before: Connection,
    after: Connection,
    server_guid: [u8; 16],
    header: Smb2Header,
    body: Seq<u8>,
    system_time: u64,
    credits: u16,
    r: Result<Vec<u8>, HandlerError>,
) -> bool {
    if body.len() < 36 {
        error::malformed(r, "Failed to parse negotiate"@) && after == before
    } else if codec::u16_at(body, 2) == 0 {
        error::refused(r, NtStatus::InvalidParameter) && after == before
    } else {
        match dialect::best_dialect(offered_dialects(body)) {
            None => error::refused(r, NtStatus::NotSupported) && after == before,
            Some(d) => {
                &&& after.client_guid@ == body.subrange(12, 28)
                &&& after == (Connection {
                    dialect: Some(d),
                    client_guid: after.client_guid,
                    ..before
                })
                &&& r matches Ok(m)
                &&& m@ == common::response(
                    header,
                    NtStatus::Success,
                    credits,
                    negotiate_body(
                        (ServerOffer {
                            dialect: d,
                            server_guid,
                            max_transact_size: before.max_transact_size,
                            max_read_size: before.max_read_size,
                            max_write_size: before.max_write_size,
                            system_time,
                        }),
                    ),
                )
            },
        }
    }
}

/// Handles a NEGOTIATE request.
pub fn handle_negotiate(
    connection: &mut Connection,
    server_guid: &[u8; 16],
    header: &Smb2Header,
    body: &[u8],
    credits: u16,
) -> (r: Result<Vec<u8>, HandlerError>)
    ensures
        exists|system_time: u64|
            time::is_clock_filetime(system_time) && #[trigger] is_negotiated(
                *old(connection),
                *final(connection),
                *server_guid,
                *header,
                body@,
                system_time,
                credits,
                r,
            ),
{
    let system_time: u64 = current_filetime();
    handle_negotiate_at(connection, server_guid, header, body, system_time, credits)
}

/// Handles a NEGOTIATE request, at a time as a FILETIME.
pub fn handle_negotiate_at(
    connection: &mut Connection,
    server_guid: &[u8; 16],
    header: &Smb2Header,
    body: &[u8],
    system_time: u64,
    credits: u16,
) -> (r: Result<Vec<u8>, HandlerError>)
    ensures
        is_negotiated(
            *old(connection),
            *final(connection),
            *server_guid,
            *header,
            body@,
            system_time,
            credits,
            r,
        ),
{
    if body.len() < 36 {
        return Err(error::protocol_error("Failed to parse negotiate"));
    }
    if codec::get_u16(body, 2) == 0 {
        return Err(HandlerError::Status(NtStatus::InvalidParameter));
    }
    let dialects = parse_dialects(body);
    match dialect::select_dialect(dialects.as_slice()) {
        None => Err(HandlerError::Status(NtStatus::NotSupported)),
        Some(selected) => {
            connection.negotiate(selected);
            connection.client_guid = codec::get_array16(body, 12);
            let offer = ServerOffer {
                dialect: selected,
                server_guid: *server_guid,
                max_transact_size: connection.max_transact_size,
                max_read_size: connection.max_read_size,
                max_write_size: connection.max_write_size,
                system_time,
            };
            let response = build_negotiate_body(&offer);
            Ok(common::build_response(header, NtStatus::Success, credits, response.as_slice()))
        },
    }
}

/// What is negotiated is the newest of the server's dialects that the client
/// listed. The newest dialect of all is not among them.
pub proof fn law_negotiates_newest_common_dialect(offered: Seq<u16>, other: SmbDialect)
    ensures
        dialect::best_dialect(offered) != Some(SmbDialect::Smb311),
        match dialect::best_dialect(offered) {
            Some(d) => offered.contains(d.spec_revision()) && (other != SmbDialect::Smb311
                && offered.contains(other.spec_revision()) ==> d.spec_at_least(other)),
            None => other != SmbDialect::Smb311 ==> !offered.contains(other.spec_revision()),
        },
{
}

/// A client that repeats its GUID and its dialects over the finished connection
/// is told that they are what was negotiated; one that was made to negotiate
/// another dialect than the newest it offers notices, as the dialect that it is
/// told is the negotiated one.
pub proof fn law_validation_confirms_negotiation(
    connection: Connection,
    body: Seq<u8>,
    request: ioctl::IoctlRequest,
    ioctl_body: Seq<u8>,
)
    requires
        body.len() >= 36,
        connection.dialect is Some,
        connection.dialect == dialect::best_dialect(offered_dialects(body)),
        connection.client_guid@ == body.subrange(12, 28),
        request.has_input(ioctl_body),
        request.input_count >= 24,
        ({
            let input = request.input(ioctl_body);
            &&& input.subrange(4, 20) == body.subrange(12, 28)
            &&& codec::u16_at(input, 22) == codec::u16_at(body, 2)
            &&& 24 + 2 * offered_count(body) <= input.len()
            &&& forall|i: int|
                0 <= i < offered_count(body) ==> #[trigger] codec::u16_at(input, 24 + 2 * i)
                    == codec::u16_at(body, 36 + 2 * i)
        }),
    ensures
        ioctl::validate_negotiate_refusal(connection, request, ioctl_body) is None,
{
    let input = request.input(ioctl_body);
    let offered = offered_dialects(body);
    let d = connection.dialect->0;
    assert(offered.contains(d.spec_revision()));
    let i = choose|i: int| 0 <= i < offered.len() && offered[i] == d.spec_revision();
    assert(codec::u16_at(input, 24 + 2 * i) == d.spec_revision());
}

#[verifier::rlimit(50)]
proof fn lemma_negotiate_start(offer: ServerOffer)
    ensures
        ({
            let body = negotiate_body(offer);
            &&& body.len() == 64
            &&& codec::u16_at(body, 0) == 65
            &&& codec::u16_at(body, 2) == 1
            &&& codec::u16_at(body, 4) == offer.dialect.spec_revision()
            &&& body.subrange(8, 24) == offer.server_guid@
            &&& codec::u32_at(body, 24) == dialect::spec_server_capabilities(offer.dialect)
        }),
{
    reveal(negotiate_body);
    let body = negotiate_body(offer);
    let capabilities = dialect::spec_server_capabilities(offer.dialect);
    assert(codec::u16_at(body, 0) == 65) by {
        assert(body.subrange(0, 2) =~= codec::le16(65));
        codec::lemma_read_le16(body, 0, 65);
    }
    assert(codec::u16_at(body, 2) == 1) by {
        assert(body.subrange(2, 4) =~= codec::le16(1));
        codec::lemma_read_le16(body, 2, 1);
    }
    assert(codec::u16_at(body, 4) == offer.dialect.spec_revision()) by {
        assert(body.subrange(4, 6) =~= codec::le16(offer.dialect.spec_revision()));
        codec::lemma_read_le16(body, 4, offer.dialect.spec_revision());
    }
    assert(body.subrange(8, 24) =~= offer.server_guid@);
    assert(codec::u32_at(body, 24) == capabilities) by {
        assert(body.subrange(24, 28) =~= codec::le32(capabilities));
        codec::lemma_read_le32(body, 24, capabilities);
    }
}

#[verifier::rlimit(50)]
proof fn lemma_negotiate_sizes(offer: ServerOffer)
    ensures
        ({
            let body = negotiate_body(offer);
            &&& codec::u32_at(body, 28) == offer.max_transact_size
            &&& codec::u32_at(body, 32) == offer.max_read_size
            &&& codec::u32_at(body, 36) == offer.max_write_size
            &&& codec::u64_at(body, 40) == offer.system_time
            &&& codec::u16_at(body, 56) == 128
            &&& codec::u16_at(body, 58) == 0
        }),
{
    reveal(negotiate_body);
    let body = negotiate_body(offer);
    assert(codec::u32_at(body, 28) == offer.max_transact_size) by {
        assert(body.subrange(28, 32) =~= codec::le32(offer.max_transact_size));
        codec::lemma_read_le32(body, 28, offer.max_transact_size);
    }
    assert(codec::u32_at(body, 32) == offer.max_read_size) by {
        assert(body.subrange(32, 36) =~= codec::le32(offer.max_read_size));
        codec::lemma_read_le32(body, 32, offer.max_read_size);
    }
    assert(codec::u32_at(body, 36) == offer.max_write_size) by {
        assert(body.subrange(36, 40) =~= codec::le32(offer.max_write_size));
        codec::lemma_read_le32(body, 36, offer.max_write_size);
    }
    assert(codec::u64_at(body, 40) == offer.system_time) by {
        assert(body.subrange(40, 48) =~= codec::le64(offer.system_time));
        codec::lemma_read_le64(body, 40, offer.system_time);
    }
    assert(codec::u16_at(body, 56) == 128) by {
        assert(body.subrange(56, 58) =~= codec::le16(128));
        codec::lemma_read_le16(body, 56, 128);
    }
    assert(codec::u16_at(body, 58) == 0) by {
        assert(body.subrange(58, 60) =~= codec::le16(0));
        codec::lemma_read_le16(body, 58, 0);
    }
}

/// What a client learns from a NEGOTIATE response, by where it stands in the
/// body: that the server can sign (2), the dialect (4), who the server is (8),
/// what it can do (24), how much one request may move, read and write (28, 32,
/// 36), its time (40), and that the message holds no token (58).
pub proof fn law_negotiate_response(offer: ServerOffer)
    ensures
        ({
            let body = negotiate_body(offer);
            &&& body.len() == 64
            &&& codec::u16_at(body, 0) == 65
            &&& codec::u16_at(body, 2) == 1
            &&& codec::u16_at(body, 4) == offer.dialect.spec_revision()
            &&& body.subrange(8, 24) == offer.server_guid@
            &&& codec::u32_at(body, 24) == dialect::spec_server_capabilities(offer.dialect)
            &&& codec::u32_at(body, 28) == offer.max_transact_size
            &&& codec::u32_at(body, 32) == offer.max_read_size
            &&& codec::u32_at(body, 36) == offer.max_write_size
            &&& codec::u64_at(body, 40) == offer.system_time
            &&& codec::u16_at(body, 58) == 0
        }),
{
    lemma_negotiate_start(offer);
    lemma_negotiate_sizes(offer);
}

/// The dialects that a client lists are read: as many as the two bytes at 2 of
/// the body say, two bytes each from 36 on, as far as the body holds them.
pub proof fn law_offered_dialects(body: Seq<u8>, i: int)
    requires
        body.len() >= 36,
    ensures
        36 + 2 * codec::u16_at(body, 2) <= body.len() ==> offered_dialects(body).len()
            == codec::u16_at(body, 2),
        36 + 2 * offered_dialects(body).len() <= body.len(),
        0 <= i < offered_dialects(body).len() ==> offered_dialects(body)[i] == codec::u16_at(
            body,
            36 + 2 * i,
        ),
        offered_dialects(body).len() < codec::u16_at(body, 2) ==> 36 + 2
            * offered_dialects(body).len() + 2 > body.len(),
{
}

/// After a negotiation the connection speaks the dialect that the response
/// names, which the client listed, and knows the client by the GUID at 12 of
/// its request; a request that lists none that the server speaks changes
/// nothing.
pub proof fn law_negotiation_is_remembered(
    before: Connection,
    after: Connection,
    server_guid: [u8; 16],
    header: Smb2Header,
    body: Seq<u8>,
    system_time: u64,
    credits: u16,
    r: Result<Vec<u8>, HandlerError>,
)
    requires
        body.len() >= 36,
        is_negotiated(before, after, server_guid, header, body, system_time, credits, r),
    ensures
        r is Err ==> after == before,
        r matches Ok(m) ==> {
            &&& after.dialect matches Some(d) && codec::u16_at(m@, 68) == d.spec_revision()
                && offered_dialects(body).contains(d.spec_revision())
            &&& after.client_guid@ == body.subrange(12, 28)
            &&& m@.subrange(72, 88) == server_guid@
            &&& codec::u32_at(m@, 92) == before.max_transact_size
            &&& codec::u32_at(m@, 96) == before.max_read_size
            &&& codec::u32_at(m@, 100) == before.max_write_size
            &&& codec::u64_at(m@, 104) == system_time
            &&& after.session_table() == before.session_table()
        },
{
    if let Ok(m) = r {
        let d = dialect::best_dialect(offered_dialects(body))->0;
        let offer = ServerOffer {
            dialect: d,
            server_guid,
            max_transact_size: before.max_transact_size,
            max_read_size: before.max_read_size,
            max_write_size: before.max_write_size,
            system_time,
        };
        let h = header::response_header(header, NtStatus::Success, credits);
        law_negotiate_response(offer);
        header::law_header_layout(h, negotiate_body(offer));
        lemma_negotiated_message(h.bytes(), negotiate_body(offer));
        law_negotiates_newest_common_dialect(offered_dialects(body), d);
    }
}

proof fn lemma_negotiated_message(head: Seq<u8>, body: Seq<u8>)
    requires
        head.len() == 64,
        body.len() == 64,
    ensures
        codec::u16_at(head + body, 68) == codec::u16_at(body, 4),
        (head + body).subrange(72, 88) == body.subrange(8, 24),
        codec::u32_at(head + body, 92) == codec::u32_at(body, 28),
        codec::u32_at(head + body, 96) == codec::u32_at(body, 32),
        codec::u32_at(head + body, 100) == codec::u32_at(body, 36),
        codec::u64_at(head + body, 104) == codec::u64_at(body, 40),
{
    codec::lemma_behind(head, body, 4);
    codec::lemma_behind(head, body, 8);
    codec::lemma_behind(head, body, 28);
    codec::lemma_behind(head, body, 32);
    codec::lemma_behind(head, body, 36);
    codec::lemma_behind(head, body, 40);
    assert(body.subrange(8, 24) == (head + body).subrange(72, 88));
}

} // verus!
