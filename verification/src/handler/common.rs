//! What all request handlers share: message assembly, file ids, and the checks
//! on handles and tree connects.

use vstd::prelude::*;

use crate::codec;
use crate::error;
use crate::error::HandlerError;
use crate::protocol::header;
use crate::protocol::header::{Smb2Flags, Smb2Header, SMB2_HEADER_SIZE};
use crate::protocol::status::NtStatus;
use crate::state::{HandleState, TreeState};

verus! {

/// A response: the header for a request and a status, then the body.
pub open spec fn response(request: Smb2Header, status: NtStatus, credits: u16, body: Seq<u8>) -> Seq<u8> {
    header::response_header(request, status, credits).bytes() + body
}

/// Puts a header in front of a body.
pub fn serialize_response(header: &Smb2Header, body: &[u8]) -> (message: Vec<u8>)
    ensures
        message@ == header.bytes() + body@,
{
    let mut message: Vec<u8> = Vec::new();
    header.write(&mut message);
    assert(message@ =~= header.bytes());
    codec::put_bytes(&mut message, body);
    message
}

/// Builds the response to a request.
pub fn build_response(request: &Smb2Header, status: NtStatus, credits: u16, body: &[u8]) -> (message: Vec<u8>)
    ensures
        message@ == response(*request, status, credits, body@),
{
    serialize_response(&header::build_response_header(request, status, credits), body)
}

/// The body of the responses that say nothing but that all went well: its own
/// size and two reserved bytes.
pub open spec fn empty_body() -> Seq<u8> {
    codec::le16(4) + codec::le16(0)
}

/// Builds a successful response that carries nothing.
pub fn build_empty_response(request: &Smb2Header, credits: u16) -> (message: Vec<u8>)
    ensures
        message@ == response(*request, NtStatus::Success, credits, empty_body()),
{
    let mut body: Vec<u8> = Vec::new();
    codec::put_u16(&mut body, 4);
    codec::put_u16(&mut body, 0);
    assert(body@ =~= empty_body());
    build_response(request, NtStatus::Success, credits, body.as_slice())
}

/// The body of an error response: its size, no error contexts, no error data
/// but the one byte that stands for it.
pub open spec fn error_body() -> Seq<u8> {
    codec::le16(9) + codec::zeros(7)
}

/// The header of an error response.
pub open spec fn error_header(request: Smb2Header, status: NtStatus, session_id: u64, tree_id: u32) -> Smb2Header {
    Smb2Header { session_id, tree_id, ..header::response_header(request, status, 1) }
}

/// Builds the error response to a request, for a given session and tree.
pub fn build_error_response_with_ids(
    req_header: &Smb2Header,
    status: NtStatus,
    session_id: u64,
    tree_id: u32,
) -> (message: Vec<u8>)
    ensures
        message@ == error_header(*req_header, status, session_id, tree_id).bytes() + error_body(),
{
    let mut resp_header = header::build_response_header(req_header, status, 1);
    resp_header.session_id = session_id;
    resp_header.tree_id = tree_id;
    let mut body: Vec<u8> = Vec::new();
    codec::put_u16(&mut body, 9);
    codec::put_zeros(&mut body, 7);
    assert(body@ =~= error_body());
    serialize_response(&resp_header, body.as_slice())
}

/// Builds the error response to a request that could not be handled. If not
/// even its header can be read there is no response.
pub fn build_error_response(request: &[u8], status: NtStatus) -> (message: Result<Vec<u8>, HandlerError>)
    ensures
        !Smb2Header::readable(request@) ==> error::malformed(message, "Failed to parse header"@),
        Smb2Header::readable(request@) ==> message is Ok,
        forall|h: Smb2Header|
            Smb2Header::readable(request@) && #[trigger] h.is_header_of(request@) ==> message->Ok_0@
                == error_header(h, status, h.session_id, h.tree_id).bytes() + error_body(),
{
    match Smb2Header::parse(request) {
        Some(header) => {
            proof {
                assert forall|h: Smb2Header| #[trigger] h.is_header_of(request@) implies h
                    == header by {
                    header::lemma_header_is_unique(request@, h, header);
                }
            }
            Ok(build_error_response_with_ids(&header, status, header.session_id, header.tree_id))
        },
        None => Err(error::protocol_error("Failed to parse header")),
    }
}

/// The part of a body that starts `offset` bytes into the message and is
/// `length` bytes long, as far as it lies inside the body; nothing otherwise.
pub open spec fn message_part(body: Seq<u8>, offset: int, length: int) -> Seq<u8> {
    let start = if offset >= 64 {
        offset - 64
    } else {
        0
    };
    if start + length <= body.len() {
        body.subrange(start, start + length)
    } else {
        Seq::empty()
    }
}

/// Copies a part of a message out of its body.
pub fn copy_message_part(body: &[u8], offset: u32, length: u32) -> (part: Vec<u8>)
    ensures
        part@ == message_part(body@, offset as int, length as int),
{
    let start: u64 = (offset as u64).saturating_sub(SMB2_HEADER_SIZE as u64);
    let end: u64 = start + length as u64;
    if end <= body.len() as u64 {
        codec::copy_range(body, start as usize, end as usize)
    } else {
        let part: Vec<u8> = Vec::new();
        assert(part@ =~= Seq::<u8>::empty());
        part
    }
}

/// The id of a handle: the volatile half of a file id above the persistent one.
pub open spec fn spec_handle_id(persistent: u64, volatile: u64) -> u128 {
    (persistent + 0x1_0000_0000_0000_0000 * volatile) as u128
}

pub fn handle_id(persistent: u64, volatile: u64) -> (id: u128)
    ensures
        id == spec_handle_id(persistent, volatile),
{
    persistent as u128 + 0x1_0000_0000_0000_0000 * (volatile as u128)
}

pub open spec fn persistent_half(id: u128) -> u64 {
    (id % 0x1_0000_0000_0000_0000) as u64
}

pub open spec fn volatile_half(id: u128) -> u64 {
    (id / 0x1_0000_0000_0000_0000) as u64
}

/// The two halves of a file id.
pub fn file_id(id: u128) -> (halves: (u64, u64))
    ensures
        halves == (persistent_half(id), volatile_half(id)),
{
    ((id % 0x1_0000_0000_0000_0000) as u64, (id / 0x1_0000_0000_0000_0000) as u64)
}

/// Whether the file id of a handle, as a client is given it, stands at an
/// offset of a body.
pub open spec fn is_file_id_at(body: Seq<u8>, i: int, id: u128) -> bool {
    &&& 0 <= i
    &&& i + 16 <= body.len()
    &&& body.subrange(i, i + 16) == codec::le64(persistent_half(id)) + codec::le64(
        volatile_half(id),
    )
}

/// The sixteen bytes at an offset are the file id of the handle that their
/// halves name.
pub proof fn lemma_file_id_at(body: Seq<u8>, i: int)
    requires
        0 <= i,
        i + 16 <= body.len(),
    ensures
        is_file_id_at(
            body,
            i,
            spec_handle_id(codec::u64_at(body, i), codec::u64_at(body, i + 8)),
        ),
{
    codec::lemma_write_u64_at(body, i);
    codec::lemma_write_u64_at(body, i + 8);
    law_file_id_halves(codec::u64_at(body, i), codec::u64_at(body, i + 8));
    assert(body.subrange(i, i + 16) =~= body.subrange(i, i + 8) + body.subrange(i + 8, i + 16));
}

/// Where the same file id stands in two messages, it names the same handle.
pub proof fn law_same_file_id_same_handle(
    given: Seq<u8>,
    i: int,
    id: u128,
    named: Seq<u8>,
    j: int,
    other: u128,
)
    requires
        is_file_id_at(given, i, id),
        is_file_id_at(named, j, other),
        given.subrange(i, i + 16) == named.subrange(j, j + 16),
    ensures
        id == other,
{
    law_file_id_names_handle(given, i, id);
    law_file_id_names_handle(named, j, other);
    codec::lemma_same_bytes(given, i, named, j, 16);
}

/// The file id that a client is given leads back to the handle.
pub proof fn law_file_id_round_trip(id: u128)
    ensures
        spec_handle_id(persistent_half(id), volatile_half(id)) == id,
{
}

/// Different file ids name different handles.
pub proof fn law_handle_id_is_injective(p1: u64, v1: u64, p2: u64, v2: u64)
    requires
        spec_handle_id(p1, v1) == spec_handle_id(p2, v2),
    ensures
        p1 == p2 && v1 == v2,
{
    assert(spec_handle_id(p1, v1) % 0x1_0000_0000_0000_0000 == p1);
    assert(spec_handle_id(p2, v2) % 0x1_0000_0000_0000_0000 == p2);
}

/// Whether a request may use a handle: `None` if it may, otherwise the status
/// that it is refused with. A handle of no session or of another one counts as
/// closed; one of another tree does not belong to the request.
pub open spec fn handle_refusal(header: Smb2Header, handle: HandleState) -> Option<NtStatus> {
    if handle.session_id == 0 || handle.session_id != header.session_id {
        Some(NtStatus::FileClosed)
    } else if header.tree_id != handle.tree_id {
        Some(NtStatus::InvalidParameter)
    } else {
        None
    }
}

/// Checks that a handle belongs to the session and the tree of a request.
pub fn validate_handle_tree_id(header: &Smb2Header, handle: &HandleState) -> (r: Result<(), HandlerError>)
    ensures
        match handle_refusal(*header, *handle) {
            None => r is Ok,
            Some(status) => error::refused(r, status),
        },
{
    if handle.session_id == 0 {
        return Err(HandlerError::Status(NtStatus::FileClosed));
    }
    if handle.session_id != header.session_id {
        return Err(HandlerError::Status(NtStatus::FileClosed));
    }
    if header.tree_id != handle.tree_id {
        return Err(HandlerError::Status(NtStatus::InvalidParameter));
    }
    Ok(())
}

/// What comes of looking up the handle of a request: the handle, if it is there
/// and the request may use it; a missing one is refused with `missing`.
pub open spec fn handle_outcome(
    header: Smb2Header,
    reply: Result<Option<HandleState>, String>,
    missing: NtStatus,
) -> Result<HandleState, HandlerError> {
    match reply {
        Err(text) => Err(HandlerError::Internal(text)),
        Ok(None) => Err(HandlerError::Status(missing)),
        Ok(Some(handle)) => match handle_refusal(header, handle) {
            Some(status) => Err(HandlerError::Status(status)),
            None => Ok(handle),
        },
    }
}

pub fn accept_handle(
    header: &Smb2Header,
    reply: Result<Option<HandleState>, String>,
    missing: NtStatus,
) -> (r: Result<HandleState, HandlerError>)
    ensures
        r == handle_outcome(*header, reply, missing),
{
    match reply {
        Err(text) => Err(HandlerError::Internal(text)),
        Ok(None) => Err(HandlerError::Status(missing)),
        Ok(Some(handle)) => match validate_handle_tree_id(header, &handle) {
            Ok(()) => Ok(handle),
            Err(e) => Err(HandlerError::Status(e.status())),
        },
    }
}

/// What the state store knows of the tree connect of a request, and whether a
/// backend serves its share.
#[derive(Debug)]
pub struct TreeReply {
    pub tree: Result<Option<TreeState>, String>,
    pub share_found: bool,
}

/// What comes of looking up the tree connect of a request.
pub open spec fn tree_outcome(reply: TreeReply, missing: NtStatus) -> Result<TreeState, HandlerError> {
    match reply.tree {
        Err(text) => Err(HandlerError::Internal(text)),
        Ok(None) => Err(HandlerError::Status(missing)),
        Ok(Some(tree)) => if reply.share_found {
            Ok(tree)
        } else {
            Err(HandlerError::Status(NtStatus::BadNetworkName))
        },
    }
}

pub fn accept_tree(reply: TreeReply, missing: NtStatus) -> (r: Result<TreeState, HandlerError>)
    ensures
        r == tree_outcome(reply, missing),
{
    match reply.tree {
        Err(text) => Err(HandlerError::Internal(text)),
        Ok(None) => Err(HandlerError::Status(missing)),
        Ok(Some(tree)) => if reply.share_found {
            Ok(tree)
        } else {
            Err(HandlerError::Status(NtStatus::BadNetworkName))
        },
    }
}

/// A successful response can be read back: its header answers the request.
pub proof fn law_response_answers_request(
    request: Smb2Header,
    status: NtStatus,
    credits: u16,
    body: Seq<u8>,
    read: Smb2Header,
)
    requires
        read.is_header_of(response(request, status, credits, body)),
    ensures
        read.command == request.command,
        read.message_id == request.message_id,
        read.session_id == request.session_id,
        read.tree_id == request.tree_id,
        read.status == status.spec_code(),
        read.flags.0 == Smb2Flags::SERVER_TO_REDIR,
        read.next_command == 0,
{
    header::law_header_round_trip(header::response_header(request, status, credits), body, read);
}

/// An error response carries the status of the error and names the request.
pub proof fn law_error_response_reports_status(
    request: Smb2Header,
    status: NtStatus,
    session_id: u64,
    tree_id: u32,
    read: Smb2Header,
)
    requires
        read.is_header_of(
            error_header(request, status, session_id, tree_id).bytes() + error_body(),
        ),
    ensures
        read.status == status.spec_code(),
        read.command == request.command,
        read.message_id == request.message_id,
        read.session_id == session_id,
        read.tree_id == tree_id,
        error_header(request, status, session_id, tree_id).bytes().len() + error_body().len() == 73,
{
    let h = error_header(request, status, session_id, tree_id);
    header::law_header_round_trip(h, error_body(), read);
    header::lemma_header_fields(h, error_body());
}

/// A part of a message is found where the client put it: offsets count from the
/// start of the message, whose header takes 64 bytes. A part that reaches
/// beyond the message counts as none.
pub proof fn law_message_part_is_in_message(head: Seq<u8>, body: Seq<u8>, offset: int, length: int)
    requires
        head.len() == 64,
        64 <= offset,
        0 <= length,
    ensures
        offset + length <= 64 + body.len() ==> message_part(body, offset, length) == (head
            + body).subrange(offset, offset + length),
        offset + length > 64 + body.len() ==> message_part(body, offset, length).len() == 0,
{
    if offset + length <= 64 + body.len() {
        assert(message_part(body, offset, length) =~= (head + body).subrange(
            offset,
            offset + length,
        ));
    }
}

/// The handle that the sixteen bytes at an offset name. If they are the file id
/// of a handle, as a client is given it, they name that handle.
pub proof fn law_file_id_names_handle(body: Seq<u8>, i: int, id: u128)
    requires
        0 <= i,
        i + 16 <= body.len(),
        body.subrange(i, i + 16) == codec::le64(persistent_half(id)) + codec::le64(
            volatile_half(id),
        ),
    ensures
        spec_handle_id(codec::u64_at(body, i), codec::u64_at(body, i + 8)) == id,
{
    let file_id = codec::le64(persistent_half(id)) + codec::le64(volatile_half(id));
    assert(file_id.subrange(0, 16) =~= file_id);
    assert(file_id.subrange(0, 8) =~= codec::le64(persistent_half(id)));
    assert(file_id.subrange(8, 16) =~= codec::le64(volatile_half(id)));
    codec::lemma_read_le64(file_id, 0, persistent_half(id));
    codec::lemma_read_le64(file_id, 8, volatile_half(id));
    codec::lemma_same_bytes(body, i, file_id, 0, 16);
    law_file_id_round_trip(id);
}

/// The volatile half of a file id is what the number of the handle counts in
/// units of 2^64; what is left is the persistent half.
pub proof fn law_file_id_halves(persistent: u64, volatile: u64)
    ensures
        spec_handle_id(persistent, volatile) == persistent + 0x1_0000_0000_0000_0000 * volatile,
        persistent_half(spec_handle_id(persistent, volatile)) == persistent,
        volatile_half(spec_handle_id(persistent, volatile)) == volatile,
{
}

/// A request gets at a handle if the handle is there and belongs to the session
/// and the tree of the request, and only then; it gets that handle.
pub proof fn law_only_own_handles_are_used(
    header: Smb2Header,
    reply: Result<Option<HandleState>, String>,
    missing: NtStatus,
)
    ensures
        handle_outcome(header, reply, missing) is Ok <==> (reply matches Ok(Some(handle))
            && handle.session_id == header.session_id && header.session_id != 0 && handle.tree_id
            == header.tree_id),
        handle_outcome(header, reply, missing) matches Ok(handle) ==> reply
            == Ok::<Option<HandleState>, String>(Some(handle)),
        reply == Ok::<Option<HandleState>, String>(None) ==> error::refused(
            handle_outcome(header, reply, missing),
            missing,
        ),
        reply matches Ok(Some(handle)) && handle.session_id == header.session_id
            && header.session_id != 0 && handle.tree_id != header.tree_id ==> error::refused(
            handle_outcome(header, reply, missing),
            NtStatus::InvalidParameter,
        ),
{
}

/// A request gets at a tree connect if it is known and a backend serves its
/// share, and only then.
pub proof fn law_only_served_trees_are_used(reply: TreeReply, missing: NtStatus)
    ensures
        tree_outcome(reply, missing) is Ok <==> reply.share_found && (reply.tree matches Ok(
            Some(_),
        )),
        tree_outcome(reply, missing) matches Ok(tree) ==> reply.tree
            == Ok::<Option<TreeState>, String>(Some(tree)),
        reply.tree == Ok::<Option<TreeState>, String>(None) ==> error::refused(
            tree_outcome(reply, missing),
            missing,
        ),
        reply.tree matches Ok(Some(_)) && !reply.share_found ==> error::refused(
            tree_outcome(reply, missing),
            NtStatus::BadNetworkName,
        ),
{
}

/// What a client sees of a response that carries nothing, and of an error.
#[verifier::rlimit(50)]
pub proof fn law_plain_bodies(request: Smb2Header, status: NtStatus, session_id: u64, tree_id: u32)
    ensures
        empty_body().len() == 4,
        codec::u16_at(empty_body(), 0) == 4,
        ({
            let m = error_header(request, status, session_id, tree_id).bytes() + error_body();
            &&& m.len() == 73
            &&& codec::u32_at(m, 8) == status.spec_code()
            &&& codec::u16_at(m, 14) == 1
            &&& codec::u32_at(m, 16) == 1
            &&& codec::u64_at(m, 24) == request.message_id
            &&& codec::u32_at(m, 36) == tree_id
            &&& codec::u64_at(m, 40) == session_id
            &&& codec::u16_at(m, 64) == 9
            &&& forall|k: int| 66 <= k < 73 ==> #[trigger] m[k] == 0
        }),
{
    assert(empty_body().subrange(0, 2) =~= codec::le16(4));
    codec::lemma_read_le16(empty_body(), 0, 4);
    let h = error_header(request, status, session_id, tree_id);
    let m = h.bytes() + error_body();
    header::law_header_layout(h, error_body());
    assert(m.subrange(64, 66) =~= codec::le16(9));
    codec::lemma_read_le16(m, 64, 9);
}

} // verus!
