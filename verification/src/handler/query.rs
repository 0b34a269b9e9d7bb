//! QUERY_DIRECTORY and QUERY_INFO.

use vstd::prelude::*;

use crate::codec;
use crate::connection;
use crate::connection::Connection;
use crate::error;
use crate::error::HandlerError;
use crate::handler::common;
use crate::handler::common::TreeReply;
use crate::handler::create_response;
use crate::handler::create_response::CreateReply;
use crate::helpers::info_builders;
use crate::helpers::time;
use crate::helpers::time::current_filetime;
use crate::protocol::header;
use crate::protocol::header::Smb2Header;
use crate::protocol::status::NtStatus;
use crate::state::HandleState;
use crate::storage::{DirEntry, FsStats, Metadata};

verus! {

/// The body of a response that carries a buffer.
pub open spec fn output_body(buffer: Seq<u8>) -> Seq<u8> {
    codec::le16(9) + codec::le16(72) + codec::le32((buffer.len() % 0x1_0000_0000) as u32) + buffer
}

fn build_output_response(header: &Smb2Header, buffer: &[u8], credits: u16) -> (message: Vec<u8>)
    ensures
        message@ == common::response(*header, NtStatus::Success, credits, output_body(buffer@)),
{
    let mut body: Vec<u8> = Vec::new();
    codec::put_u16(&mut body, 9);
    codec::put_u16(&mut body, 72);
    codec::put_u32(&mut body, (buffer.len() as u64 % 0x1_0000_0000) as u32);
    codec::put_bytes(&mut body, buffer);
    assert(body@ =~= output_body(buffer@));
    common::build_response(header, NtStatus::Success, credits, body.as_slice())
}

/// The buffer of a response stands where the response says.
pub proof fn law_output_response_holds_buffer(buffer: Seq<u8>)
    ensures
        common::message_part(output_body(buffer), 72, buffer.len() as int) == buffer,
{
    let body = output_body(buffer);
    assert(body.subrange(8, 8 + buffer.len() as int) =~= buffer);
}

/// A QUERY_DIRECTORY request that waits for its handle.
#[derive(Debug)]
pub struct ListAwaitHandle {
    pub header: Smb2Header,
    /// The handle to look up.
    pub handle_id: u128,
}

/// Starts to handle a QUERY_DIRECTORY request, which has to pay for what it may
/// get.
pub fn handle_query_directory(connection: &Connection, header: &Smb2Header, body: &[u8]) -> (r: Result<
    ListAwaitHandle,
    HandlerError,
>)
    ensures
        body@.len() < 32 ==> error::malformed(r, "Failed to parse query_dir"@),
        body@.len() >= 32 ==> if connection.spec_supports_multi_credit()
            && !connection::charge_suffices(header.credit_charge, codec::u32_at(body@, 28)) {
            error::refused(r, NtStatus::InvalidParameter)
        } else {
            r == Ok::<ListAwaitHandle, HandlerError>(
                ListAwaitHandle {
                    header: *header,
                    handle_id: common::spec_handle_id(
                        codec::u64_at(body@, 8),
                        codec::u64_at(body@, 16),
                    ),
                },
            )
        },
        r matches Ok(a) ==> common::is_file_id_at(body@, 8, a.handle_id),
{
    if body.len() < 32 {
        return Err(error::protocol_error("Failed to parse query_dir"));
    }
    proof {
        common::lemma_file_id_at(body@, 8);
    }
    match connection::validate_credit_charge(connection, header, codec::get_u32(body, 28)) {
        Err(e) => Err(e),
        Ok(()) => Ok(
            ListAwaitHandle {
                header: *header,
                handle_id: common::handle_id(codec::get_u64(body, 8), codec::get_u64(body, 16)),
            },
        ),
    }
}

/// A QUERY_DIRECTORY request that waits for its tree.
#[derive(Debug)]
pub struct ListAwaitTree {
    pub header: Smb2Header,
    pub handle: HandleState,
}

impl ListAwaitHandle {
    /// Takes the handle that the state store found.
    pub fn on_handle(self, reply: Result<Option<HandleState>, String>) -> (r: Result<
        ListAwaitTree,
        HandlerError,
    >)
        ensures
            match common::handle_outcome(self.header, reply, NtStatus::InvalidHandle) {
                Err(e) => r == Err::<ListAwaitTree, HandlerError>(e),
                Ok(handle) => r == Ok::<ListAwaitTree, HandlerError>(
                    ListAwaitTree { header: self.header, handle },
                ),
            },
    {
        match common::accept_handle(&self.header, reply, NtStatus::InvalidHandle) {
            Err(e) => Err(e),
            Ok(handle) => Ok(ListAwaitTree { header: self.header, handle }),
        }
    }
}

/// A QUERY_DIRECTORY request whose directory is to be listed.
#[derive(Debug)]
pub struct ListAwaitEntries {
    pub header: Smb2Header,
    /// The directory to list.
    pub path: String,
}

impl ListAwaitTree {
    /// Takes the tree that the state store found.
    pub fn on_tree(self, reply: TreeReply) -> (r: Result<ListAwaitEntries, HandlerError>)
        ensures
            match common::tree_outcome(reply, NtStatus::InvalidParameter) {
                Err(e) => r == Err::<ListAwaitEntries, HandlerError>(e),
                Ok(_) => r == Ok::<ListAwaitEntries, HandlerError>(
                    ListAwaitEntries { header: self.header, path: self.handle.path },
                ),
            },
    {
        match common::accept_tree(reply, NtStatus::InvalidParameter) {
            Err(e) => Err(e),
            Ok(_) => Ok(ListAwaitEntries { header: self.header, path: self.handle.path }),
        }
    }
}

impl ListAwaitEntries {
    /// What comes of listing the directory, at a time as a FILETIME.
    pub open spec fn is_listed(
        self,
        reply: Result<Vec<DirEntry>, String>,
        now: u64,
        credits: u16,
        r: Result<Vec<u8>, HandlerError>,
    ) -> bool {
        match reply {
            Err(text) => r == Err::<Vec<u8>, HandlerError>(HandlerError::Vfs(text)),
            Ok(entries) => r matches Ok(m) && m@ == common::response(
                self.header,
                NtStatus::Success,
                credits,
                output_body(info_builders::directory_info(entries@, 0, now)),
            ),
        }
    }

    /// Takes the entries of the directory.
    pub fn on_entries(self, reply: Result<Vec<DirEntry>, String>, credits: u16) -> (r: Result<
        Vec<u8>,
        HandlerError,
    >)
        requires
            reply matches Ok(entries) ==> forall|i: int|
                0 <= i < entries@.len() ==> info_builders::name_fits(#[trigger] entries@[i].name@),
        ensures
            exists|now: u64|
                time::is_clock_filetime(now) && #[trigger] self.is_listed(reply, now, credits, r),
    {
        self.on_entries_at(reply, current_filetime(), credits)
    }

    /// Takes the entries of the directory, at a time as a FILETIME.
    pub fn on_entries_at(self, reply: Result<Vec<DirEntry>, String>, now: u64, credits: u16) -> (r:
        Result<Vec<u8>, HandlerError>)
        requires
            reply matches Ok(entries) ==> forall|i: int|
                0 <= i < entries@.len() ==> info_builders::name_fits(#[trigger] entries@[i].name@),
        ensures
            self.is_listed(reply, now, credits, r),
    {
        match reply {
            Err(text) => Err(HandlerError::Vfs(text)),
            Ok(entries) => {
                let buffer = info_builders::directory_info_at(entries.as_slice(), now);
                Ok(build_output_response(&self.header, buffer.as_slice(), credits))
            },
        }
    }
}

/// What a QUERY_INFO or SET_INFO request is about.
#[derive(Clone, Copy, Debug, PartialEq, Eq, Structural)]
pub enum InfoType {
    File,
    FileSystem,
    Security,
    Quota,
}

impl InfoType {
    pub open spec fn spec_from_u8(n: u8) -> Option<InfoType> {
        if n == 1 {
            Some(InfoType::File)
        } else if n == 2 {
            Some(InfoType::FileSystem)
        } else if n == 3 {
            Some(InfoType::Security)
        } else if n == 4 {
            Some(InfoType::Quota)
        } else {
            None
        }
    }

    pub fn from_u8(n: u8) -> (t: Option<InfoType>)
        ensures
            t == Self::spec_from_u8(n),
    {
        if n == 1 {
            Some(InfoType::File)
        } else if n == 2 {
            Some(InfoType::FileSystem)
        } else if n == 3 {
            Some(InfoType::Security)
        } else if n == 4 {
            Some(InfoType::Quota)
        } else {
            None
        }
    }
}

/// A QUERY_INFO request.
#[derive(Clone, Copy, Debug)]
pub struct QueryInfoRequest {
    pub info_type: InfoType,
    pub file_info_class: u8,
    pub output_buffer_length: u32,
    pub additional_information: u32,
    pub file_id_persistent: u64,
    pub file_id_volatile: u64,
}

impl QueryInfoRequest {
    /// Whether a body can be read: it is 40 bytes long, and what it asks about
    /// has a meaning.
    pub open spec fn readable(body: Seq<u8>) -> bool {
        body.len() >= 40 && InfoType::spec_from_u8(body[2]) is Some
    }

    pub open spec fn of(body: Seq<u8>) -> QueryInfoRequest {
        QueryInfoRequest {
            info_type: InfoType::spec_from_u8(body[2])->0,
            file_info_class: body[3],
            output_buffer_length: codec::u32_at(body, 4),
            additional_information: codec::u32_at(body, 16),
            file_id_persistent: codec::u64_at(body, 24),
            file_id_volatile: codec::u64_at(body, 32),
        }
    }

    pub fn parse(body: &[u8]) -> (request: Option<QueryInfoRequest>)
        ensures
            Self::readable(body@) ==> request == Some(Self::of(body@)),
            !Self::readable(body@) ==> request is None,
    {
        if body.len() < 40 {
            return None;
        }
        match InfoType::from_u8(body[2]) {
            None => None,
            Some(info_type) => Some(
                QueryInfoRequest {
                    info_type,
                    file_info_class: body[3],
                    output_buffer_length: codec::get_u32(body, 4),
                    additional_information: codec::get_u32(body, 16),
                    file_id_persistent: codec::get_u64(body, 24),
                    file_id_volatile: codec::get_u64(body, 32),
                },
            ),
        }
    }
}

/// A QUERY_INFO request that waits for its handle.
#[derive(Debug)]
pub struct QueryAwaitHandle {
    pub header: Smb2Header,
    pub request: QueryInfoRequest,
    /// The handle to look up.
    pub handle_id: u128,
}

/// Starts to handle a QUERY_INFO request, which has to pay for what it may get.
pub fn handle_query_info(connection: &Connection, header: &Smb2Header, body: &[u8]) -> (r: Result<
    QueryAwaitHandle,
    HandlerError,
>)
    ensures
        !QueryInfoRequest::readable(body@) ==> error::malformed(r, "Failed to parse query_info"@),
        QueryInfoRequest::readable(body@) ==> {
            let request = QueryInfoRequest::of(body@);
            if connection.spec_supports_multi_credit() && !connection::charge_suffices(
                header.credit_charge,
                request.output_buffer_length,
            ) {
                error::refused(r, NtStatus::InvalidParameter)
            } else {
                r == Ok::<QueryAwaitHandle, HandlerError>(
                    QueryAwaitHandle {
                        header: *header,
                        request,
                        handle_id: common::spec_handle_id(
                            request.file_id_persistent,
                            request.file_id_volatile,
                        ),
                    },
                )
            }
        },
        r matches Ok(a) ==> common::is_file_id_at(body@, 24, a.handle_id),
{
    let request = match QueryInfoRequest::parse(body) {
        Some(request) => request,
        None => {
            return Err(error::protocol_error("Failed to parse query_info"));
        },
    };
    proof {
        common::lemma_file_id_at(body@, 24);
    }
    match connection::validate_credit_charge(connection, header, request.output_buffer_length) {
        Err(e) => Err(e),
        Ok(()) => Ok(
            QueryAwaitHandle {
                header: *header,
                request,
                handle_id: common::handle_id(request.file_id_persistent, request.file_id_volatile),
            },
        ),
    }
}

/// A QUERY_INFO request that waits for its tree.
#[derive(Debug)]
pub struct QueryAwaitTree {
    pub header: Smb2Header,
    pub request: QueryInfoRequest,
    pub handle: HandleState,
}

impl QueryAwaitHandle {
    /// Takes the handle that the state store found.
    pub fn on_handle(self, reply: Result<Option<HandleState>, String>) -> (r: Result<
        QueryAwaitTree,
        HandlerError,
    >)
        ensures
            match common::handle_outcome(self.header, reply, NtStatus::InvalidHandle) {
                Err(e) => r == Err::<QueryAwaitTree, HandlerError>(e),
                Ok(handle) => r == Ok::<QueryAwaitTree, HandlerError>(
                    QueryAwaitTree { header: self.header, request: self.request, handle },
                ),
            },
    {
        match common::accept_handle(&self.header, reply, NtStatus::InvalidHandle) {
            Err(e) => Err(e),
            Ok(handle) => Ok(
                QueryAwaitTree { header: self.header, request: self.request, handle },
            ),
        }
    }
}

/// What has to happen next with a QUERY_INFO request.
#[derive(Debug)]
pub enum QueryStep {
    /// Find out about the file and hand it to `on_metadata`.
    File(QueryAwaitMetadata),
    /// Find out about the volume and hand it to `on_stats`.
    FileSystem(QueryAwaitStats),
    /// Answer with the response.
    Done(Vec<u8>),
}

/// A QUERY_INFO request about a file.
#[derive(Debug)]
pub struct QueryAwaitMetadata {
    pub header: Smb2Header,
    pub request: QueryInfoRequest,
    pub handle: HandleState,
}

/// A QUERY_INFO request about a volume.
#[derive(Debug)]
pub struct QueryAwaitStats {
    pub header: Smb2Header,
    pub request: QueryInfoRequest,
}

/// The response with a buffer, if that is no longer than the client allows.
pub open spec fn answers(
    r: Result<Vec<u8>, HandlerError>,
    header: Smb2Header,
    request: QueryInfoRequest,
    buffer: Seq<u8>,
    credits: u16,
) -> bool {
    if buffer.len() > request.output_buffer_length {
        error::refused(r, NtStatus::BufferTooSmall)
    } else {
        r matches Ok(m) && m@ == common::response(
            header,
            NtStatus::Success,
            credits,
            output_body(buffer),
        )
    }
}

fn answer(header: &Smb2Header, request: &QueryInfoRequest, buffer: &[u8], credits: u16) -> (r: Result<
    Vec<u8>,
    HandlerError,
>)
    ensures
        answers(r, *header, *request, buffer@, credits),
{
    if buffer.len() as u64 > request.output_buffer_length as u64 {
        return Err(HandlerError::Status(NtStatus::BufferTooSmall));
    }
    Ok(build_output_response(header, buffer, credits))
}

impl QueryAwaitTree {
    /// Takes the tree that the state store found.
    pub fn on_tree(self, reply: TreeReply, credits: u16) -> (r: Result<QueryStep, HandlerError>)
        ensures
            match common::tree_outcome(reply, NtStatus::InvalidParameter) {
                Err(e) => r == Err::<QueryStep, HandlerError>(e),
                Ok(_) => match self.request.info_type {
                    InfoType::File => r == Ok::<QueryStep, HandlerError>(
                        QueryStep::File(
                            QueryAwaitMetadata {
                                header: self.header,
                                request: self.request,
                                handle: self.handle,
                            },
                        ),
                    ),
                    InfoType::FileSystem => r == Ok::<QueryStep, HandlerError>(
                        QueryStep::FileSystem(
                            QueryAwaitStats { header: self.header, request: self.request },
                        ),
                    ),
                    InfoType::Security => {
                        let buffer = info_builders::security_info(
                            self.request.additional_information,
                        );
                        match r {
                            Err(e) => answers(
                                Err(e),
                                self.header,
                                self.request,
                                buffer,
                                credits,
                            ),
                            Ok(QueryStep::Done(m)) => answers(
                                Ok(m),
                                self.header,
                                self.request,
                                buffer,
                                credits,
                            ),
                            Ok(_) => false,
                        }
                    },
                    InfoType::Quota => error::refused(r, NtStatus::NotSupported),
                },
            },
    {
        match common::accept_tree(reply, NtStatus::InvalidParameter) {
            Err(e) => {
                return Err(e);
            },
            Ok(_) => {},
        }
        match self.request.info_type {
            InfoType::File => Ok(
                QueryStep::File(
                    QueryAwaitMetadata {
                        header: self.header,
                        request: self.request,
                        handle: self.handle,
                    },
                ),
            ),
            InfoType::FileSystem => Ok(
                QueryStep::FileSystem(
                    QueryAwaitStats { header: self.header, request: self.request },
                ),
            ),
            InfoType::Security => {
                let buffer = info_builders::build_security_info(
                    self.request.additional_information,
                );
                match answer(&self.header, &self.request, buffer.as_slice(), credits) {
                    Ok(message) => Ok(QueryStep::Done(message)),
                    Err(e) => Err(e),
                }
            },
            InfoType::Quota => Err(HandlerError::Status(NtStatus::NotSupported)),
        }
    }
}

impl QueryAwaitMetadata {
    /// What the client is told of the file, at a time as a FILETIME. Position and
    /// access rights are those of the handle.
    pub open spec fn is_told(
        self,
        reply: Result<Metadata, String>,
        now: u64,
        credits: u16,
        r: Result<Vec<u8>, HandlerError>,
    ) -> bool {
        match reply {
            Err(text) => r == Err::<Vec<u8>, HandlerError>(HandlerError::Vfs(text)),
            Ok(metadata) => answers(
                r,
                self.header,
                self.request,
                info_builders::file_info(
                    metadata,
                    self.request.file_info_class,
                    Some(self.handle.file_offset),
                    Some(self.handle.access_mask),
                    None,
                    now,
                ),
                credits,
            ),
        }
    }

    /// Takes what the backend says of the file.
    pub fn on_metadata(self, reply: Result<Metadata, String>, credits: u16) -> (r: Result<
        Vec<u8>,
        HandlerError,
    >)
        ensures
            exists|now: u64|
                time::is_clock_filetime(now) && #[trigger] self.is_told(reply, now, credits, r),
    {
        self.on_metadata_at(reply, current_filetime(), credits)
    }

    /// Takes what the backend says of the file, at a time as a FILETIME.
    pub fn on_metadata_at(self, reply: Result<Metadata, String>, now: u64, credits: u16) -> (r: Result<
        Vec<u8>,
        HandlerError,
    >)
        ensures
            self.is_told(reply, now, credits, r),
    {
        match reply {
            Err(text) => Err(HandlerError::Vfs(text)),
            Ok(metadata) => {
                let buffer = info_builders::file_info_at(
                    &metadata,
                    self.request.file_info_class,
                    Some(self.handle.file_offset),
                    Some(self.handle.access_mask),
                    None,
                    now,
                );
                answer(&self.header, &self.request, buffer.as_slice(), credits)
            },
        }
    }
}

impl QueryAwaitStats {
    /// What the client is told of the volume, at a time as a FILETIME.
    pub open spec fn is_told(
        self,
        reply: Result<FsStats, String>,
        now: u64,
        credits: u16,
        r: Result<Vec<u8>, HandlerError>,
    ) -> bool {
        match reply {
            Err(text) => r == Err::<Vec<u8>, HandlerError>(HandlerError::Vfs(text)),
            Ok(stats) => answers(
                r,
                self.header,
                self.request,
                info_builders::fs_info(stats, self.request.file_info_class, now),
                credits,
            ),
        }
    }

    /// Takes what the backend says of the volume.
    pub fn on_stats(self, reply: Result<FsStats, String>, credits: u16) -> (r: Result<
        Vec<u8>,
        HandlerError,
    >)
        ensures
            exists|now: u64|
                time::is_clock_filetime(now) && #[trigger] self.is_told(reply, now, credits, r),
    {
        self.on_stats_at(reply, current_filetime(), credits)
    }

    /// Takes what the backend says of the volume, at a time as a FILETIME.
    pub fn on_stats_at(self, reply: Result<FsStats, String>, now: u64, credits: u16) -> (r: Result<
        Vec<u8>,
        HandlerError,
    >)
        ensures
            self.is_told(reply, now, credits, r),
    {
        match reply {
            Err(text) => Err(HandlerError::Vfs(text)),
            Ok(stats) => {
                let buffer = info_builders::fs_info_at(&stats, self.request.file_info_class, now);
                answer(&self.header, &self.request, buffer.as_slice(), credits)
            },
        }
    }
}

/// A position that a client set is the one that it is told.
pub proof fn law_position_is_told(metadata: Metadata, position: u64, access_mask: u32, now: u64)
    ensures
        codec::u64_at(
            info_builders::file_info(
                metadata,
                14,
                Some(position),
                Some(access_mask),
                None,
                now,
            ),
            0,
        ) == position,
        codec::u32_at(
            info_builders::file_info(metadata, 8, Some(position), Some(access_mask), None, now),
            0,
        ) == access_mask,
{
    let p = info_builders::file_info(metadata, 14, Some(position), Some(access_mask), None, now);
    assert(p.subrange(0, 8) =~= codec::le64(position));
    codec::lemma_read_le64(p, 0, position);
    let a = info_builders::file_info(metadata, 8, Some(position), Some(access_mask), None, now);
    assert(a.subrange(0, 4) =~= codec::le32(access_mask));
    codec::lemma_read_le32(a, 0, access_mask);
}

/// The buffer of a response stands in the message where the response says: from
/// the offset in the two bytes at 66 on, as many bytes as the four at 68 say.
pub proof fn law_output_response_on_wire(request: Smb2Header, credits: u16, buffer: Seq<u8>)
    requires
        buffer.len() <= u32::MAX,
    ensures
        ({
            let m = common::response(request, NtStatus::Success, credits, output_body(buffer));
            let offset = codec::u16_at(m, 66) as int;
            let length = codec::u32_at(m, 68) as int;
            &&& codec::u16_at(m, 64) == 9
            &&& length == buffer.len()
            &&& m.len() == offset + length
            &&& m.subrange(offset, offset + length) == buffer
        }),
{
    let h = header::response_header(request, NtStatus::Success, credits);
    header::law_header_layout(h, output_body(buffer));
    lemma_output_body(buffer);
    lemma_output_message(h.bytes(), output_body(buffer), buffer);
}

#[verifier::rlimit(50)]
proof fn lemma_output_body(buffer: Seq<u8>)
    requires
        buffer.len() <= u32::MAX,
    ensures
        ({
            let body = output_body(buffer);
            &&& body.len() == 8 + buffer.len()
            &&& codec::u16_at(body, 0) == 9
            &&& codec::u16_at(body, 2) == 72
            &&& codec::u32_at(body, 4) == buffer.len()
            &&& body.subrange(8, 8 + buffer.len() as int) == buffer
        }),
{
    let body = output_body(buffer);
    assert(body.subrange(0, 2) =~= codec::le16(9));
    codec::lemma_read_le16(body, 0, 9);
    assert(body.subrange(2, 4) =~= codec::le16(72));
    codec::lemma_read_le16(body, 2, 72);
    assert(body.subrange(4, 8) =~= codec::le32(buffer.len() as u32));
    codec::lemma_read_le32(body, 4, buffer.len() as u32);
    assert(body.subrange(8, 8 + buffer.len() as int) =~= buffer);
}

#[verifier::rlimit(50)]
proof fn lemma_output_message(head: Seq<u8>, body: Seq<u8>, buffer: Seq<u8>)
    requires
        head.len() == 64,
        body.len() == 8 + buffer.len(),
        codec::u16_at(body, 0) == 9,
        codec::u16_at(body, 2) == 72,
        codec::u32_at(body, 4) == buffer.len(),
        body.subrange(8, 8 + buffer.len() as int) == buffer,
    ensures
        codec::u16_at(head + body, 64) == 9,
        codec::u16_at(head + body, 66) == 72,
        codec::u32_at(head + body, 68) == buffer.len(),
        (head + body).subrange(72, 72 + buffer.len() as int) == buffer,
{
    codec::lemma_behind(head, body, 0);
    codec::lemma_behind(head, body, 2);
    codec::lemma_behind(head, body, 4);
    codec::lemma_behind(head, body, 8);
}

/// A QUERY_INFO, QUERY_DIRECTORY or LOCK request that names a file by the
/// sixteen bytes at 64 of the body of the CREATE response works on the handle
/// that the response is about: they stand at 24 of a QUERY_INFO body and at 8
/// of the other two.
#[verifier::rlimit(50)]
pub proof fn law_query_leads_to_handle(
    reply: CreateReply,
    contexts: Seq<u8>,
    body: Seq<u8>,
    looked_up: u128,
)
    ensures
        ({
            let file_id = create_response::create_body(reply, contexts).subrange(64, 80);
            &&& body.len() >= 40 && body.subrange(24, 40) == file_id ==> {
                &&& common::spec_handle_id(
                    QueryInfoRequest::of(body).file_id_persistent,
                    QueryInfoRequest::of(body).file_id_volatile,
                ) == reply.handle_id
                &&& common::is_file_id_at(body, 24, looked_up) ==> looked_up == reply.handle_id
            }
            &&& body.len() >= 24 && body.subrange(8, 24) == file_id && common::is_file_id_at(
                body,
                8,
                looked_up,
            ) ==> looked_up == reply.handle_id
        }),
{
    let given = create_response::create_body(reply, contexts);
    create_response::law_create_response_holds_file_id(reply, contexts);
    if body.len() >= 40 && body.subrange(24, 40) == given.subrange(64, 80) {
        common::law_file_id_names_handle(body, 24, reply.handle_id);
        if common::is_file_id_at(body, 24, looked_up) {
            common::law_same_file_id_same_handle(given, 64, reply.handle_id, body, 24, looked_up);
        }
    }
    if body.len() >= 24 && body.subrange(8, 24) == given.subrange(64, 80) {
        if common::is_file_id_at(body, 8, looked_up) {
            common::law_same_file_id_same_handle(given, 64, reply.handle_id, body, 8, looked_up);
        }
    }
}

/// What a QUERY_INFO request asks about: byte 2 says whether that is the file
/// (1), the volume (2), who may do what (3) or quotas (4), byte 3 which class of
/// information; the four bytes at 4 say how much the client can take, those at
/// 16 what of the security is asked for.
pub proof fn law_what_query_asks_about(body: Seq<u8>)
    requires
        QueryInfoRequest::readable(body),
    ensures
        ({
            let request = QueryInfoRequest::of(body);
            &&& request.info_type == InfoType::File <==> body[2] == 1
            &&& request.info_type == InfoType::FileSystem <==> body[2] == 2
            &&& request.info_type == InfoType::Security <==> body[2] == 3
            &&& request.info_type == InfoType::Quota <==> body[2] == 4
            &&& request.file_info_class == body[3]
            &&& request.output_buffer_length == codec::u32_at(body, 4)
            &&& request.additional_information == codec::u32_at(body, 16)
        }),
        body.len() >= 40 && 1 <= body[2] <= 4,
{
}

/// A client that asks for the standard information (class 5) of a file, and can
/// take it, finds the size of the file at 80 of the response; one that asks for
/// the basic information (class 4) finds its attributes at 104.
#[verifier::rlimit(50)]
pub proof fn law_client_is_told_size(
    query: QueryAwaitMetadata,
    metadata: Metadata,
    now: u64,
    credits: u16,
    m: Vec<u8>,
)
    requires
        query.is_told(Ok(metadata), now, credits, Ok(m)),
    ensures
        query.request.file_info_class == 5 ==> codec::u64_at(m@, 80) == metadata.size,
        query.request.file_info_class == 4 ==> codec::u32_at(m@, 104)
            == info_builders::attributes_of(metadata),
        query.request.file_info_class == 14 ==> codec::u64_at(m@, 72) == query.handle.file_offset,
        query.request.file_info_class == 8 ==> codec::u32_at(m@, 72) == query.handle.access_mask,
{
    let position = Some(query.handle.file_offset);
    let access = Some(query.handle.access_mask);
    let class = query.request.file_info_class;
    let buffer = info_builders::file_info(metadata, class, position, access, None, now);
    if class == 5 {
        info_builders::law_end_of_file_is_size(metadata, position, access, None, now);
        lemma_told_buffer(query.header, credits, buffer, m@);
    } else if class == 4 {
        info_builders::law_basic_information(metadata, position, access, None, now);
        lemma_told_buffer(query.header, credits, buffer, m@);
    } else if class == 14 || class == 8 {
        law_position_is_told(metadata, position->0, access->0, now);
        info_builders::law_file_info_min_size(metadata, class, position, access, None, now);
        lemma_told_buffer(query.header, credits, buffer, m@);
    }
}

#[verifier::rlimit(50)]
proof fn lemma_told_buffer(request: Smb2Header, credits: u16, buffer: Seq<u8>, m: Seq<u8>)
    requires
        buffer.len() <= u32::MAX,
        m == common::response(request, NtStatus::Success, credits, output_body(buffer)),
    ensures
        buffer.len() >= 4 ==> codec::u32_at(m, 72) == codec::u32_at(buffer, 0),
        buffer.len() >= 8 ==> codec::u64_at(m, 72) == codec::u64_at(buffer, 0),
        buffer.len() >= 16 ==> codec::u64_at(m, 80) == codec::u64_at(buffer, 8),
        buffer.len() >= 36 ==> codec::u32_at(m, 104) == codec::u32_at(buffer, 32),
{
    let h = header::response_header(request, NtStatus::Success, credits);
    header::law_header_layout(h, output_body(buffer));
    lemma_output_body(buffer);
    lemma_output_message(h.bytes(), output_body(buffer), buffer);
    lemma_in_buffer(m, buffer);
}

#[verifier::rlimit(50)]
proof fn lemma_in_buffer(m: Seq<u8>, buffer: Seq<u8>)
    requires
        m.len() == 72 + buffer.len(),
        m.subrange(72, 72 + buffer.len() as int) == buffer,
    ensures
        buffer.len() >= 4 ==> codec::u32_at(m, 72) == codec::u32_at(buffer, 0),
        buffer.len() >= 8 ==> codec::u64_at(m, 72) == codec::u64_at(buffer, 0),
        buffer.len() >= 16 ==> codec::u64_at(m, 80) == codec::u64_at(buffer, 8),
        buffer.len() >= 36 ==> codec::u32_at(m, 104) == codec::u32_at(buffer, 32),
{
    assert(m =~= m.subrange(0, 72) + buffer);
    codec::lemma_behind(m.subrange(0, 72), buffer, 0);
    codec::lemma_behind(m.subrange(0, 72), buffer, 8);
    codec::lemma_behind(m.subrange(0, 72), buffer, 32);
}

/// An answer is refused if and only if it is longer than what the client can
/// take.
pub proof fn law_answer_fits(
    r: Result<Vec<u8>, HandlerError>,
    header: Smb2Header,
    request: QueryInfoRequest,
    buffer: Seq<u8>,
    credits: u16,
)
    requires
        answers(r, header, request, buffer, credits),
    ensures
        r is Ok <==> buffer.len() <= request.output_buffer_length,
        r is Err ==> error::refused(r, NtStatus::BufferTooSmall),
{
}

/// A client that lists a directory gets the entries that the backend found, in
/// its order, where the response says that its buffer stands.
pub proof fn law_listing_on_wire(
    wait: ListAwaitEntries,
    entries: Vec<DirEntry>,
    now: u64,
    credits: u16,
    m: Vec<u8>,
)
    requires
        wait.is_listed(Ok(entries), now, credits, Ok(m)),
        info_builders::directory_info(entries@, 0, now).len() <= u32::MAX,
    ensures
        ({
            let offset = codec::u16_at(m@, 66) as int;
            let length = codec::u32_at(m@, 68) as int;
            &&& m@.len() == offset + length
            &&& m@.subrange(offset, offset + length) == info_builders::directory_info(
                entries@,
                0,
                now,
            )
            &&& codec::u32_at(m@, 8) == 0
            &&& codec::u64_at(m@, 24) == wait.header.message_id
        }),
{
    let buffer = info_builders::directory_info(entries@, 0, now);
    law_output_response_on_wire(wait.header, credits, buffer);
    header::law_response_header_on_wire(
        wait.header,
        NtStatus::Success,
        credits,
        output_body(buffer),
    );
}

} // verus!
