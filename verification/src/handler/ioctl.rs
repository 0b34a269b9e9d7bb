//! IOCTL: the routing of control codes, the check of a negotiation, and resume
//! keys for server-side copies.

use vstd::prelude::*;

use crate::codec;
use crate::connection;
use crate::connection::Connection;
use crate::error;
use crate::error::HandlerError;
use crate::handler::common;
use crate::handler::create_response;
use crate::handler::create_response::CreateReply;
use crate::protocol::dialect;
use crate::protocol::dialect::SIGNING_ENABLED;
use crate::protocol::header;
use crate::protocol::header::Smb2Header;
use crate::protocol::status::NtStatus;
use crate::state::HandleState;

verus! {

pub const FSCTL_SRV_REQUEST_RESUME_KEY: u32 = 0x0014_0078;

pub const FSCTL_VALIDATE_NEGOTIATE_INFO: u32 = 0x0014_0204;

pub const FSCTL_SRV_COPYCHUNK: u32 = 0x0014_40F2;

pub const FSCTL_SRV_COPYCHUNK_WRITE: u32 = 0x0014_80F2;

/// The fixed part of an IOCTL request.
#[derive(Clone, Copy, Debug)]
pub struct IoctlRequest {
    pub ctl_code: u32,
    pub file_id_persistent: u64,
    pub file_id_volatile: u64,
    pub input_offset: u32,
    pub input_count: u32,
    pub max_output_response: u32,
}

impl IoctlRequest {
    /// The request that a body starts with.
    pub open spec fn of(body: Seq<u8>) -> IoctlRequest {
        IoctlRequest {
            ctl_code: codec::u32_at(body, 4),
            file_id_persistent: codec::u64_at(body, 8),
            file_id_volatile: codec::u64_at(body, 16),
            input_offset: codec::u32_at(body, 24),
            input_count: codec::u32_at(body, 28),
            max_output_response: codec::u32_at(body, 44),
        }
    }

    /// Reads the fixed part, which is 56 bytes long.
    pub fn parse(body: &[u8]) -> (request: Option<IoctlRequest>)
        ensures
            body@.len() < 56 ==> request is None,
            body@.len() >= 56 ==> request == Some(IoctlRequest::of(body@)),
    {
        if body.len() < 56 {
            return None;
        }
        Some(
            IoctlRequest {
                ctl_code: codec::get_u32(body, 4),
                file_id_persistent: codec::get_u64(body, 8),
                file_id_volatile: codec::get_u64(body, 16),
                input_offset: codec::get_u32(body, 24),
                input_count: codec::get_u32(body, 28),
                max_output_response: codec::get_u32(body, 44),
            },
        )
    }

    /// Where the input starts in the body.
    pub open spec fn input_start(self) -> int {
        if self.input_offset >= 64 {
            self.input_offset - 64
        } else {
            0
        }
    }

    /// Whether the input lies inside the body.
    pub open spec fn has_input(self, body: Seq<u8>) -> bool {
        self.input_start() + self.input_count <= body.len()
    }

    /// The input of the request.
    pub open spec fn input(self, body: Seq<u8>) -> Seq<u8> {
        body.subrange(self.input_start(), self.input_start() + self.input_count)
    }

    /// Copies the input out of the body.
    pub fn copy_input(&self, body: &[u8]) -> (input: Option<Vec<u8>>)
        ensures
            match input {
                Some(i) => self.has_input(body@) && i@ == self.input(body@),
                None => !self.has_input(body@),
            },
    {
        let start: u64 = (self.input_offset as u64).saturating_sub(64);
        let end: u64 = start + self.input_count as u64;
        if end > body.len() as u64 {
            return None;
        }
        Some(codec::copy_range(body, start as usize, end as usize))
    }
}

/// Which of the control codes that the server knows a request carries.
#[derive(Clone, Copy, Debug, PartialEq, Eq, Structural)]
pub enum IoctlRoute {
    ValidateNegotiate,
    RequestResumeKey,
    CopyChunk,
    CopyChunkWrite,
}

/// The route of a control code.
pub open spec fn spec_route(ctl_code: u32) -> Option<IoctlRoute> {
    if ctl_code == FSCTL_VALIDATE_NEGOTIATE_INFO {
        Some(IoctlRoute::ValidateNegotiate)
    } else if ctl_code == FSCTL_SRV_REQUEST_RESUME_KEY {
        Some(IoctlRoute::RequestResumeKey)
    } else if ctl_code == FSCTL_SRV_COPYCHUNK {
        Some(IoctlRoute::CopyChunk)
    } else if ctl_code == FSCTL_SRV_COPYCHUNK_WRITE {
        Some(IoctlRoute::CopyChunkWrite)
    } else {
        None
    }
}

/// The payload that an IOCTL request pays credits for: the larger of its input
/// and the output that it allows.
pub open spec fn spec_payload_size(request: IoctlRequest) -> u32 {
    if request.input_count >= request.max_output_response {
        request.input_count
    } else {
        request.max_output_response
    }
}

/// Reads an IOCTL request and finds its route.
pub fn handle_ioctl(connection: &Connection, header: &Smb2Header, body: &[u8]) -> (r: Result<
    (IoctlRequest, IoctlRoute),
    HandlerError,
>)
    ensures
        body@.len() < 56 ==> error::malformed(r, "Failed to parse IOCTL"@),
        body@.len() >= 56 ==> {
            let request = IoctlRequest::of(body@);
            if connection.spec_supports_multi_credit() && !connection::charge_suffices(
                header.credit_charge,
                spec_payload_size(request),
            ) {
                error::refused(r, NtStatus::InvalidParameter)
            } else {
                match spec_route(request.ctl_code) {
                    Some(route) => r == Ok::<(IoctlRequest, IoctlRoute), HandlerError>(
                        (request, route),
                    ),
                    None => error::refused(r, NtStatus::NotSupported),
                }
            }
        },
{
    let request = match IoctlRequest::parse(body) {
        Some(request) => request,
        None => {
            return Err(error::protocol_error("Failed to parse IOCTL"));
        },
    };
    let payload_size: u32 = if request.input_count >= request.max_output_response {
        request.input_count
    } else {
        request.max_output_response
    };
    match connection::validate_credit_charge(connection, header, payload_size) {
        Ok(()) => {},
        Err(e) => {
            return Err(e);
        },
    }
    if request.ctl_code == FSCTL_VALIDATE_NEGOTIATE_INFO {
        Ok((request, IoctlRoute::ValidateNegotiate))
    } else if request.ctl_code == FSCTL_SRV_REQUEST_RESUME_KEY {
        Ok((request, IoctlRoute::RequestResumeKey))
    } else if request.ctl_code == FSCTL_SRV_COPYCHUNK {
        Ok((request, IoctlRoute::CopyChunk))
    } else if request.ctl_code == FSCTL_SRV_COPYCHUNK_WRITE {
        Ok((request, IoctlRoute::CopyChunkWrite))
    } else {
        Err(HandlerError::Status(NtStatus::NotSupported))
    }
}

/// The body of an IOCTL response: it names the request's control code and file,
/// carries no input, and its output follows the fixed part.
#[verifier::opaque]
pub open spec fn ioctl_body(request: IoctlRequest, output: Seq<u8>) -> Seq<u8> {
    codec::le16(49) + codec::le16(0) + codec::le32(request.ctl_code) + codec::le64(
        request.file_id_persistent,
    ) + codec::le64(request.file_id_volatile) + codec::le32(0) + codec::le32(0) + codec::le32(112)
        + codec::le32((output.len() % 0x1_0000_0000) as u32) + codec::le32(0) + codec::le32(0)
        + output
}

/// Builds an IOCTL response.
pub fn build_ioctl_response(
    header: &Smb2Header,
    request: &IoctlRequest,
    status: NtStatus,
    credits: u16,
    output: &[u8],
) -> (message: Vec<u8>)
    ensures
        message@ == common::response(*header, status, credits, ioctl_body(*request, output@)),
{
    let mut body: Vec<u8> = Vec::new();
    codec::put_u16(&mut body, 49);
    codec::put_u16(&mut body, 0);
    codec::put_u32(&mut body, request.ctl_code);
    codec::put_u64(&mut body, request.file_id_persistent);
    codec::put_u64(&mut body, request.file_id_volatile);
    codec::put_u32(&mut body, 0);
    codec::put_u32(&mut body, 0);
    codec::put_u32(&mut body, 112);
    codec::put_u32(&mut body, (output.len() as u64 % 0x1_0000_0000) as u32);
    codec::put_u32(&mut body, 0);
    codec::put_u32(&mut body, 0);
    codec::put_bytes(&mut body, output);
    assert(body@ =~= ioctl_body(*request, output@)) by {
        reveal(ioctl_body);
    }
    common::build_response(header, status, credits, body.as_slice())
}

/// Whether one of the first `count` dialects in the input of a request, as far
/// as the input reaches, has the given revision.
pub open spec fn lists_dialect(input: Seq<u8>, count: int, revision: u16) -> bool {
    exists|i: int|
        0 <= i < count && 26 + 2 * i <= input.len() && #[trigger] codec::u16_at(input, 24 + 2 * i)
            == revision
}

/// The status that the check of a negotiation is refused with, if it is: the
/// input has to be long enough, the client the one that negotiated, and the
/// negotiated dialect one of those that it offers.
pub open spec fn validate_negotiate_refusal(
    connection: Connection,
    request: IoctlRequest,
    body: Seq<u8>,
) -> Option<NtStatus> {
    let input = request.input(body);
    if !request.has_input(body) || request.input_count < 24 {
        Some(NtStatus::InvalidParameter)
    } else if input.subrange(4, 20) != connection.client_guid@ {
        Some(NtStatus::AccessDenied)
    } else {
        match connection.dialect {
            None => Some(NtStatus::InvalidParameter),
            Some(d) => if lists_dialect(input, codec::u16_at(input, 22) as int, d.spec_revision()) {
                None
            } else {
                Some(NtStatus::AccessDenied)
            },
        }
    }
}

/// The output of a successful check: what the server announced when it
/// negotiated.
pub open spec fn validate_negotiate_output(d: dialect::SmbDialect, server_guid: Seq<u8>) -> Seq<u8> {
    codec::le32(dialect::spec_server_capabilities(d)) + server_guid + codec::le16(SIGNING_ENABLED)
        + codec::le16(d.spec_revision())
}

fn find_dialect(input: &[u8], count: u16, revision: u16) -> (b: bool)
    requires
        input@.len() >= 24,
    ensures
        b == lists_dialect(input@, count as int, revision),
{
    let mut i: usize = 0;
    while i < count as usize
        invariant
            i <= count,
            input@.len() >= 24,
            forall|k: int|
                0 <= k < i && 26 + 2 * k <= input@.len() ==> #[trigger] codec::u16_at(
                    input@,
                    24 + 2 * k,
                ) != revision,
        decreases count - i,
    {
        let offset: usize = 24 + i * 2;
        if offset + 2 <= input.len() {
            let offered: u16 = codec::get_u16(input, offset);
            if offered == revision {
                assert(codec::u16_at(input@, 24 + 2 * (i as int)) == revision);
                return true;
            }
        }
        i = i + 1;
    }
    false
}

/// Checks that client and server negotiated the same thing.
pub fn handle_validate_negotiate_info(
    connection: &Connection,
    server_guid: &[u8; 16],
    header: &Smb2Header,
    request: &IoctlRequest,
    body: &[u8],
    credits: u16,
) -> (r: Result<Vec<u8>, HandlerError>)
    ensures
        match validate_negotiate_refusal(*connection, *request, body@) {
            Some(status) => error::refused(r, status),
            None => r matches Ok(m) && m@ == common::response(
                *header,
                NtStatus::Success,
                credits,
                ioctl_body(
                    *request,
                    validate_negotiate_output(connection.dialect->0, server_guid@),
                ),
            ),
        },
{
    let input = match request.copy_input(body) {
        Some(input) => input,
        None => {
            return Err(HandlerError::Status(NtStatus::InvalidParameter));
        },
    };
    if input.len() < 24 {
        return Err(HandlerError::Status(NtStatus::InvalidParameter));
    }
    let client_guid = codec::get_array16(input.as_slice(), 4);
    if !codec::same_array16(&client_guid, &connection.client_guid) {
        return Err(HandlerError::Status(NtStatus::AccessDenied));
    }
    let negotiated = match connection.dialect {
        Some(d) => d,
        None => {
            return Err(HandlerError::Status(NtStatus::InvalidParameter));
        },
    };
    let count: u16 = codec::get_u16(input.as_slice(), 22);
    if !find_dialect(input.as_slice(), count, negotiated.revision()) {
        return Err(HandlerError::Status(NtStatus::AccessDenied));
    }
    let mut output: Vec<u8> = Vec::new();
    codec::put_u32(&mut output, dialect::server_capabilities(negotiated));
    codec::put_bytes(&mut output, server_guid.as_slice());
    codec::put_u16(&mut output, SIGNING_ENABLED);
    codec::put_u16(&mut output, negotiated.revision());
    assert(output@ =~= validate_negotiate_output(negotiated, server_guid@));
    Ok(build_ioctl_response(header, request, NtStatus::Success, credits, output.as_slice()))
}

/// A resume key: it names a handle and the session that asked for it.
pub open spec fn resume_key(persistent_id: u128, session_id: u64) -> Seq<u8> {
    codec::le128(persistent_id) + codec::le64(session_id)
}

/// The output that hands out a resume key: the key, no context, and four
/// reserved bytes.
pub open spec fn resume_key_output(persistent_id: u128, session_id: u64) -> Seq<u8> {
    resume_key(persistent_id, session_id) + codec::le32(0) + codec::le32(0)
}

/// Builds the output that hands out a resume key.
pub fn build_resume_key_output(persistent_id: u128, session_id: u64) -> (output: Vec<u8>)
    ensures
        output@ == resume_key_output(persistent_id, session_id),
{
    let mut output: Vec<u8> = Vec::new();
    codec::put_u128(&mut output, persistent_id);
    codec::put_u64(&mut output, session_id);
    codec::put_u32(&mut output, 0);
    codec::put_u32(&mut output, 0);
    assert(output@ =~= resume_key_output(persistent_id, session_id));
    output
}

/// A request for a resume key that waits for its handle.
#[derive(Debug)]
pub struct ResumeKeyAwaitHandle {
    pub header: Smb2Header,
    pub request: IoctlRequest,
    /// The handle to look up.
    pub handle_id: u128,
}

/// Starts to handle a request for a resume key. The output has to fit.
pub fn handle_request_resume_key(header: &Smb2Header, request: &IoctlRequest) -> (r: Result<
    ResumeKeyAwaitHandle,
    HandlerError,
>)
    ensures
        request.max_output_response < 32 ==> error::refused(r, NtStatus::InvalidParameter),
        request.max_output_response >= 32 ==> r == Ok::<ResumeKeyAwaitHandle, HandlerError>(
            ResumeKeyAwaitHandle {
                header: *header,
                request: *request,
                handle_id: common::spec_handle_id(
                    request.file_id_persistent,
                    request.file_id_volatile,
                ),
            },
        ),
{
    if request.max_output_response < 32 {
        return Err(HandlerError::Status(NtStatus::InvalidParameter));
    }
    Ok(
        ResumeKeyAwaitHandle {
            header: *header,
            request: *request,
            handle_id: common::handle_id(request.file_id_persistent, request.file_id_volatile),
        },
    )
}

impl ResumeKeyAwaitHandle {
    /// Takes the handle that the state store found and hands out its key.
    pub fn on_handle(self, reply: Result<Option<HandleState>, String>, credits: u16) -> (r: Result<
        Vec<u8>,
        HandlerError,
    >)
        ensures
            match common::handle_outcome(self.header, reply, NtStatus::FileClosed) {
                Err(e) => r == Err::<Vec<u8>, HandlerError>(e),
                Ok(handle) => r matches Ok(m) && m@ == common::response(
                    self.header,
                    NtStatus::Success,
                    credits,
                    ioctl_body(
                        self.request,
                        resume_key_output(handle.persistent_id, self.header.session_id),
                    ),
                ),
            },
    {
        match common::accept_handle(&self.header, reply, NtStatus::FileClosed) {
            Err(e) => Err(e),
            Ok(handle) => {
                let output = build_resume_key_output(handle.persistent_id, self.header.session_id);
                Ok(
                    build_ioctl_response(
                        &self.header,
                        &self.request,
                        NtStatus::Success,
                        credits,
                        output.as_slice(),
                    ),
                )
            },
        }
    }
}

/// A resume key leads back to the handle and the session that it was made for.
pub proof fn law_resume_key_round_trip(persistent_id: u128, session_id: u64)
    ensures
        resume_key(persistent_id, session_id).len() == 24,
        codec::u128_at(resume_key(persistent_id, session_id), 0) == persistent_id,
        codec::u64_at(resume_key(persistent_id, session_id), 16) == session_id,
        resume_key_output(persistent_id, session_id).len() == 32,
{
    let key = resume_key(persistent_id, session_id);
    assert(key.subrange(0, 16) =~= codec::le128(persistent_id));
    assert(key.subrange(16, 24) =~= codec::le64(session_id));
    codec::lemma_read_le128(key, 0, persistent_id);
    codec::lemma_read_le64(key, 16, session_id);
}

#[verifier::rlimit(50)]
proof fn lemma_ioctl_start(request: IoctlRequest, output: Seq<u8>)
    ensures
        ({
            let body = ioctl_body(request, output);
            &&& body.len() == 48 + output.len()
            &&& codec::u16_at(body, 0) == 49
            &&& codec::u32_at(body, 4) == request.ctl_code
            &&& codec::u64_at(body, 8) == request.file_id_persistent
            &&& codec::u64_at(body, 16) == request.file_id_volatile
        }),
{
    reveal(ioctl_body);
    let body = ioctl_body(request, output);
    assert(codec::u16_at(body, 0) == 49) by {
        assert(body.subrange(0, 2) =~= codec::le16(49));
        codec::lemma_read_le16(body, 0, 49);
    }
    assert(codec::u32_at(body, 4) == request.ctl_code) by {
        assert(body.subrange(4, 8) =~= codec::le32(request.ctl_code));
        codec::lemma_read_le32(body, 4, request.ctl_code);
    }
    assert(codec::u64_at(body, 8) == request.file_id_persistent) by {
        assert(body.subrange(8, 16) =~= codec::le64(request.file_id_persistent));
        codec::lemma_read_le64(body, 8, request.file_id_persistent);
    }
    assert(codec::u64_at(body, 16) == request.file_id_volatile) by {
        assert(body.subrange(16, 24) =~= codec::le64(request.file_id_volatile));
        codec::lemma_read_le64(body, 16, request.file_id_volatile);
    }
}

#[verifier::rlimit(50)]
proof fn lemma_ioctl_output(request: IoctlRequest, output: Seq<u8>)
    requires
        output.len() <= u32::MAX,
    ensures
        ({
            let body = ioctl_body(request, output);
            &&& codec::u32_at(body, 28) == 0
            &&& codec::u32_at(body, 32) == 112
            &&& codec::u32_at(body, 36) == output.len()
            &&& body.subrange(48, 48 + output.len() as int) == output
        }),
{
    reveal(ioctl_body);
    let body = ioctl_body(request, output);
    assert(codec::u32_at(body, 28) == 0) by {
        assert(body.subrange(28, 32) =~= codec::le32(0));
        codec::lemma_read_le32(body, 28, 0);
    }
    assert(codec::u32_at(body, 32) == 112) by {
        assert(body.subrange(32, 36) =~= codec::le32(112));
        codec::lemma_read_le32(body, 32, 112);
    }
    assert(codec::u32_at(body, 36) == output.len()) by {
        assert(body.subrange(36, 40) =~= codec::le32(output.len() as u32));
        codec::lemma_read_le32(body, 36, output.len() as u32);
    }
    assert(body.subrange(48, 48 + output.len() as int) =~= output);
}

/// The output of an IOCTL response stands in the message where the response
/// says: from the offset in the four bytes at 96 on, as many bytes as the four
/// at 100 say. The response repeats the control code (68) and the file id (72)
/// of the request.
#[verifier::rlimit(50)]
pub proof fn law_ioctl_response_holds_output(
    header: Smb2Header,
    request: IoctlRequest,
    status: NtStatus,
    credits: u16,
    output: Seq<u8>,
)
    requires
        output.len() <= u32::MAX,
    ensures
        ({
            let m = common::response(header, status, credits, ioctl_body(request, output));
            let offset = codec::u32_at(m, 96) as int;
            let length = codec::u32_at(m, 100) as int;
            &&& offset == 112
            &&& length == output.len()
            &&& m.len() == offset + length
            &&& m.subrange(offset, offset + length) == output
            &&& codec::u16_at(m, 64) == 49
            &&& codec::u32_at(m, 68) == request.ctl_code
            &&& codec::u64_at(m, 72) == request.file_id_persistent
            &&& codec::u64_at(m, 80) == request.file_id_volatile
            &&& codec::u32_at(m, 92) == 0
            &&& codec::u32_at(m, 8) == status.spec_code()
        }),
{
    let h = header::response_header(header, status, credits);
    let body = ioctl_body(request, output);
    header::law_header_layout(h, body);
    lemma_ioctl_start(request, output);
    lemma_ioctl_output(request, output);
    codec::lemma_behind(h.bytes(), body, 0);
    codec::lemma_behind(h.bytes(), body, 4);
    codec::lemma_behind(h.bytes(), body, 8);
    codec::lemma_behind(h.bytes(), body, 16);
    codec::lemma_behind(h.bytes(), body, 28);
    codec::lemma_behind(h.bytes(), body, 32);
    codec::lemma_behind(h.bytes(), body, 36);
    codec::lemma_behind(h.bytes(), body, 48);
    assert(body.subrange(48, 48 + output.len() as int) == output);
}

/// The input of an IOCTL request is what stands in the message where the request
/// says: from the offset in the four bytes at 24 of its body on, as many bytes
/// as the four at 28 say.
pub proof fn law_ioctl_input_is_found(head: Seq<u8>, body: Seq<u8>)
    requires
        head.len() == 64,
        body.len() >= 56,
        64 <= codec::u32_at(body, 24),
    ensures
        ({
            let request = IoctlRequest::of(body);
            let start = codec::u32_at(body, 24) as int;
            let length = codec::u32_at(body, 28) as int;
            &&& request.has_input(body) <==> start + length <= 64 + body.len()
            &&& request.has_input(body) ==> request.input(body) == (head + body).subrange(
                start,
                start + length,
            )
        }),
{
    let request = IoctlRequest::of(body);
    if request.has_input(body) {
        assert(request.input(body) =~= (head + body).subrange(
            codec::u32_at(body, 24) as int,
            codec::u32_at(body, 24) + codec::u32_at(body, 28),
        ));
    }
}

/// What an IOCTL request asks for: the control code stands at 4 of its body, how
/// much output the client can take at 44, and the file id at 8; if those are the
/// sixteen bytes at 64 of the body of a CREATE response, the request works on
/// the handle that the response is about.
pub proof fn law_ioctl_leads_to_handle(reply: CreateReply, contexts: Seq<u8>, body: Seq<u8>)
    requires
        body.len() >= 56,
    ensures
        ({
            let request = IoctlRequest::of(body);
            &&& request.ctl_code == codec::u32_at(body, 4)
            &&& request.max_output_response == codec::u32_at(body, 44)
            &&& body.subrange(8, 24) == create_response::create_body(reply, contexts).subrange(
                64,
                80,
            ) ==> common::spec_handle_id(request.file_id_persistent, request.file_id_volatile)
                == reply.handle_id
        }),
{
    create_response::law_create_response_holds_file_id(reply, contexts);
    if body.subrange(8, 24) == create_response::create_body(reply, contexts).subrange(64, 80) {
        common::law_file_id_names_handle(body, 8, reply.handle_id);
    }
}

/// The control code of each thing that a request can ask for; it pays for its
/// input or for the output that it allows, whichever is more.
pub proof fn law_control_codes(request: IoctlRequest)
    ensures
        spec_route(request.ctl_code) == Some(IoctlRoute::ValidateNegotiate) <==> request.ctl_code
            == 0x0014_0204,
        spec_route(request.ctl_code) == Some(IoctlRoute::RequestResumeKey) <==> request.ctl_code
            == 0x0014_0078,
        spec_route(request.ctl_code) == Some(IoctlRoute::CopyChunk) <==> request.ctl_code
            == 0x0014_40F2,
        spec_route(request.ctl_code) == Some(IoctlRoute::CopyChunkWrite) <==> request.ctl_code
            == 0x0014_80F2,
        spec_payload_size(request) >= request.input_count,
        spec_payload_size(request) >= request.max_output_response,
        spec_payload_size(request) == request.input_count || spec_payload_size(request)
            == request.max_output_response,
{
}

/// A client that checks what was negotiated is told what the server announced:
/// what it can do (0 of the output), who it is (4), that it can sign (20), and
/// the dialect (22).
pub proof fn law_validation_output(d: dialect::SmbDialect, server_guid: Seq<u8>)
    requires
        server_guid.len() == 16,
    ensures
        ({
            let output = validate_negotiate_output(d, server_guid);
            &&& output.len() == 24
            &&& codec::u32_at(output, 0) == dialect::spec_server_capabilities(d)
            &&& output.subrange(4, 20) == server_guid
            &&& codec::u16_at(output, 20) == 1
            &&& codec::u16_at(output, 22) == d.spec_revision()
        }),
{
    let output = validate_negotiate_output(d, server_guid);
    let capabilities = dialect::spec_server_capabilities(d);
    assert(output.subrange(0, 4) =~= codec::le32(capabilities));
    codec::lemma_read_le32(output, 0, capabilities);
    assert(output.subrange(4, 20) =~= server_guid);
    assert(output.subrange(20, 22) =~= codec::le16(1));
    codec::lemma_read_le16(output, 20, 1);
    assert(output.subrange(22, 24) =~= codec::le16(d.spec_revision()));
    codec::lemma_read_le16(output, 22, d.spec_revision());
}

/// A check of the negotiation succeeds only for the client that negotiated, by
/// the GUID at 4 of its input, and only if the negotiated dialect is one of
/// those that it lists from 24 on, of which there are as many as it says at 22.
pub proof fn law_validation_refuses_others(connection: Connection, request: IoctlRequest, body: Seq<u8>)
    ensures
        validate_negotiate_refusal(connection, request, body) is None <==> {
            let input = request.input(body);
            &&& request.has_input(body)
            &&& request.input_count >= 24
            &&& input.subrange(4, 20) == connection.client_guid@
            &&& connection.dialect is Some
            &&& exists|i: int|
                0 <= i < codec::u16_at(input, 22) && 24 + 2 * i + 2 <= input.len()
                    && #[trigger] codec::u16_at(input, 24 + 2 * i)
                    == connection.dialect->0.spec_revision()
        },
{
}

/// The output that hands out a resume key holds the key in its first 24 bytes
/// and nothing else.
pub proof fn law_resume_key_is_handed_out(persistent_id: u128, session_id: u64)
    ensures
        resume_key_output(persistent_id, session_id).subrange(0, 24) == resume_key(
            persistent_id,
            session_id,
        ),
        forall|i: int|
            24 <= i < 32 ==> #[trigger] resume_key_output(persistent_id, session_id)[i] == 0,
{
    let output = resume_key_output(persistent_id, session_id);
    assert(output.subrange(0, 24) =~= resume_key(persistent_id, session_id));
}

} // verus!
