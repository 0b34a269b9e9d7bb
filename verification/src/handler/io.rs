//! READ, WRITE, CLOSE, and the requests that need nothing but an answer.

use vstd::prelude::*;

use crate::codec;
use crate::connection;
use crate::connection::Connection;
use crate::error;
use crate::error::HandlerError;
use crate::handler::common;
use crate::handler::common::TreeReply;
use crate::handler::compound;
use crate::handler::compound::CompoundRun;
use crate::handler::copychunk::{BackendFile, FILE_EXECUTE};
use crate::handler::create_response;
use crate::handler::create_response::CreateReply;
use crate::handler::create::{FILE_READ_DATA, GENERIC_ALL, GENERIC_READ};
use crate::helpers::time::current_unix_time;
use crate::protocol::header;
use crate::protocol::header::{Smb2Command, Smb2Header};
use crate::protocol::status::NtStatus;
use crate::state::HandleState;
use crate::text;

verus! {

/// A READ request.
#[derive(Clone, Copy, Debug)]
pub struct ReadRequest {
    pub length: u32,
    pub offset: u64,
    pub file_id_persistent: u64,
    pub file_id_volatile: u64,
    /// How many bytes the client wants at least.
    pub minimum_count: u32,
}

impl ReadRequest {
    pub open spec fn of(body: Seq<u8>) -> ReadRequest {
        ReadRequest {
            length: codec::u32_at(body, 4),
            offset: codec::u64_at(body, 8),
            file_id_persistent: codec::u64_at(body, 16),
            file_id_volatile: codec::u64_at(body, 24),
            minimum_count: codec::u32_at(body, 32),
        }
    }

    /// Reads a request, which is 48 bytes long.
    pub fn parse(body: &[u8]) -> (request: Option<ReadRequest>)
        ensures
            body@.len() < 48 ==> request is None,
            body@.len() >= 48 ==> request == Some(ReadRequest::of(body@)),
    {
        if body.len() < 48 {
            return None;
        }
        Some(
            ReadRequest {
                length: codec::get_u32(body, 4),
                offset: codec::get_u64(body, 8),
                file_id_persistent: codec::get_u64(body, 16),
                file_id_volatile: codec::get_u64(body, 24),
                minimum_count: codec::get_u32(body, 32),
            },
        )
    }
}

/// A READ request that waits for its handle.
#[derive(Debug)]
pub struct ReadAwaitHandle {
    pub header: Smb2Header,
    pub request: ReadRequest,
    /// The handle to look up.
    pub handle_id: u128,
}

/// Starts to handle a READ request, which has to pay for what it reads.
pub fn handle_read(connection: &Connection, header: &Smb2Header, body: &[u8]) -> (r: Result<
    ReadAwaitHandle,
    HandlerError,
>)
    ensures
        body@.len() < 48 ==> error::malformed(r, "Failed to parse read"@),
        body@.len() >= 48 ==> {
            let request = ReadRequest::of(body@);
            if connection.spec_supports_multi_credit() && !connection::charge_suffices(
                header.credit_charge,
                request.length,
            ) {
                error::refused(r, NtStatus::InvalidParameter)
            } else {
                r == Ok::<ReadAwaitHandle, HandlerError>(
                    ReadAwaitHandle {
                        header: *header,
                        request,
                        handle_id: common::spec_handle_id(
                            request.file_id_persistent,
                            request.file_id_volatile,
                        ),
                    },
                )
            }
        },
        r matches Ok(a) ==> common::is_file_id_at(body@, 16, a.handle_id),
{
    let request = match ReadRequest::parse(body) {
        Some(request) => request,
        None => {
            return Err(error::protocol_error("Failed to parse read"));
        },
    };
    proof {
        common::lemma_file_id_at(body@, 16);
    }
    match connection::validate_credit_charge(connection, header, request.length) {
        Err(e) => Err(e),
        Ok(()) => Ok(
            ReadAwaitHandle {
                header: *header,
                request,
                handle_id: common::handle_id(request.file_id_persistent, request.file_id_volatile),
            },
        ),
    }
}

/// Whether a handle lets its holder read: the rights to read or to execute the
/// file do.
pub open spec fn spec_may_read(access_mask: u32) -> bool {
    access_mask & (FILE_READ_DATA | FILE_EXECUTE | GENERIC_READ | GENERIC_ALL) != 0
}

pub fn may_read(access_mask: u32) -> (b: bool)
    ensures
        b == spec_may_read(access_mask),
{
    access_mask & (FILE_READ_DATA | FILE_EXECUTE | GENERIC_READ | GENERIC_ALL) != 0
}

/// Whether a handle is one that cannot be read: a directory, unless the handle
/// outlives the server.
pub open spec fn spec_is_unreadable(handle: HandleState) -> bool {
    handle.is_directory && !handle.is_persistent
}

pub fn is_unreadable(handle: &HandleState) -> (b: bool)
    ensures
        b == spec_is_unreadable(*handle),
{
    handle.is_directory && !handle.is_persistent
}

/// The status that reading a handle is refused with, if it is.
pub open spec fn read_refusal(handle: HandleState) -> Option<NtStatus> {
    if spec_is_unreadable(handle) {
        Some(NtStatus::InvalidDeviceRequest)
    } else if !spec_may_read(handle.access_mask) {
        Some(NtStatus::AccessDenied)
    } else {
        None
    }
}

/// A READ request that waits for its tree.
#[derive(Debug)]
pub struct ReadAwaitTree {
    pub header: Smb2Header,
    pub request: ReadRequest,
    pub handle: HandleState,
}

impl ReadAwaitHandle {
    /// Takes the handle that the state store found.
    pub fn on_handle(self, reply: Result<Option<HandleState>, String>) -> (r: Result<
        ReadAwaitTree,
        HandlerError,
    >)
        ensures
            match common::handle_outcome(self.header, reply, NtStatus::InvalidHandle) {
                Err(e) => r == Err::<ReadAwaitTree, HandlerError>(e),
                Ok(handle) => match read_refusal(handle) {
                    Some(status) => error::refused(r, status),
                    None => r == Ok::<ReadAwaitTree, HandlerError>(
                        ReadAwaitTree { header: self.header, request: self.request, handle },
                    ),
                },
            },
    {
        let handle = match common::accept_handle(&self.header, reply, NtStatus::InvalidHandle) {
            Ok(handle) => handle,
            Err(e) => {
                return Err(e);
            },
        };
        if is_unreadable(&handle) {
            return Err(HandlerError::Status(NtStatus::InvalidDeviceRequest));
        }
        if !may_read(handle.access_mask) {
            return Err(HandlerError::Status(NtStatus::AccessDenied));
        }
        Ok(ReadAwaitTree { header: self.header, request: self.request, handle })
    }
}

/// A READ request whose data is to be read.
#[derive(Debug)]
pub struct ReadAwaitData {
    pub header: Smb2Header,
    pub request: ReadRequest,
    pub handle: HandleState,
    /// The file to read from.
    pub file: BackendFile,
}

impl ReadAwaitTree {
    /// Takes the tree that the state store found.
    pub fn on_tree(self, reply: TreeReply) -> (r: Result<ReadAwaitData, HandlerError>)
        ensures
            match common::tree_outcome(reply, NtStatus::InvalidParameter) {
                Err(e) => r == Err::<ReadAwaitData, HandlerError>(e),
                Ok(_) => r == Ok::<ReadAwaitData, HandlerError>(
                    ReadAwaitData {
                        header: self.header,
                        request: self.request,
                        handle: self.handle,
                        file: BackendFile::spec_of(self.handle),
                    },
                ),
            },
    {
        match common::accept_tree(reply, NtStatus::InvalidParameter) {
            Err(e) => Err(e),
            Ok(_) => {
                let file = BackendFile::of(&self.handle);
                Ok(
                    ReadAwaitData {
                        header: self.header,
                        request: self.request,
                        handle: self.handle,
                        file,
                    },
                )
            },
        }
    }
}

/// Whether a read came to the end of the file: it asked for something and got
/// nothing.
pub open spec fn spec_reads_past_end(data_len: nat, length: u32) -> bool {
    data_len == 0 && length > 0
}

pub fn reads_past_end(data_len: usize, length: u32) -> (b: bool)
    ensures
        b == spec_reads_past_end(data_len as nat, length),
{
    data_len == 0 && length > 0
}

/// Whether fewer bytes were read than the client wants at least.
pub open spec fn spec_misses_minimum(data_len: nat, minimum_count: u32) -> bool {
    data_len < minimum_count
}

pub fn misses_minimum(data_len: usize, minimum_count: u32) -> (b: bool)
    ensures
        b == spec_misses_minimum(data_len as nat, minimum_count),
{
    (data_len as u64) < minimum_count as u64
}

/// The body of a READ response.
#[verifier::opaque]
pub open spec fn read_body(data: Seq<u8>) -> Seq<u8> {
    codec::le16(17) + seq![80u8, 0u8] + codec::le32((data.len() % 0x1_0000_0000) as u32)
        + codec::le32(0) + codec::le32(0) + data
}

/// A handle after `count` bytes from `offset` on were read or written.
pub open spec fn moved_handle(handle: HandleState, offset: u64, count: int, now: u64) -> HandleState {
    HandleState { file_offset: (offset + count) as u64, last_access: now, ..handle }
}

/// A READ request whose handle is to be stored with its new position.
#[derive(Debug)]
pub struct ReadStore {
    pub header: Smb2Header,
    /// The handle to store.
    pub handle: HandleState,
    pub data: Vec<u8>,
}

impl ReadAwaitData {
    /// What comes of reading.
    pub open spec fn read_to_store(self, reply: Result<Vec<u8>, String>, now: u64) -> Result<
        ReadStore,
        HandlerError,
    > {
        match reply {
            Err(text) => Err(HandlerError::Vfs(text)),
            Ok(data) => if spec_reads_past_end(data@.len(), self.request.length)
                || spec_misses_minimum(data@.len(), self.request.minimum_count) {
                Err(HandlerError::Status(NtStatus::EndOfFile))
            } else {
                Ok(
                    ReadStore {
                        header: self.header,
                        handle: moved_handle(
                            self.handle,
                            self.request.offset,
                            data@.len() as int,
                            now,
                        ),
                        data,
                    },
                )
            },
        }
    }

    /// Takes the data that was read.
    pub fn on_data(self, reply: Result<Vec<u8>, String>) -> (r: Result<ReadStore, HandlerError>)
        requires
            reply matches Ok(data) ==> self.request.offset + data@.len() <= u64::MAX,
        ensures
            exists|now: u64| r == #[trigger] self.read_to_store(reply, now),
    {
        self.on_data_at(reply, current_unix_time())
    }

    /// Takes the data that was read, at a time in seconds.
    pub fn on_data_at(self, reply: Result<Vec<u8>, String>, now: u64) -> (r: Result<
        ReadStore,
        HandlerError,
    >)
        requires
            reply matches Ok(data) ==> self.request.offset + data@.len() <= u64::MAX,
        ensures
            r == self.read_to_store(reply, now),
    {
        let data = match reply {
            Err(text) => {
                return Err(HandlerError::Vfs(text));
            },
            Ok(data) => data,
        };
        if reads_past_end(data.len(), self.request.length) || misses_minimum(
            data.len(),
            self.request.minimum_count,
        ) {
            return Err(HandlerError::Status(NtStatus::EndOfFile));
        }
        let mut handle = self.handle;
        handle.file_offset = self.request.offset + data.len() as u64;
        handle.last_access = now;
        Ok(ReadStore { header: self.header, handle, data })
    }
}

impl ReadStore {
    /// Takes the outcome of storing the handle, and builds the response.
    pub fn on_stored(self, reply: Result<(), String>, credits: u16) -> (r: Result<
        Vec<u8>,
        HandlerError,
    >)
        ensures
            match reply {
                Err(text) => r == Err::<Vec<u8>, HandlerError>(HandlerError::Internal(text)),
                Ok(_) => r matches Ok(m) && m@ == common::response(
                    self.header,
                    NtStatus::Success,
                    credits,
                    read_body(self.data@),
                ),
            },
    {
        match reply {
            Err(text) => Err(HandlerError::Internal(text)),
            Ok(()) => {
                let mut body: Vec<u8> = Vec::new();
                codec::put_u16(&mut body, 17);
                body.push(80);
                body.push(0);
                codec::put_u32(&mut body, (self.data.len() as u64 % 0x1_0000_0000) as u32);
                codec::put_u32(&mut body, 0);
                codec::put_u32(&mut body, 0);
                codec::put_bytes(&mut body, self.data.as_slice());
                assert(body@ =~= read_body(self.data@)) by {
                    reveal(read_body);
                }
                Ok(
                    common::build_response(
                        &self.header,
                        NtStatus::Success,
                        credits,
                        body.as_slice(),
                    ),
                )
            },
        }
    }
}

/// The data of a READ response stands where the response says.
pub proof fn law_read_response_holds_data(data: Seq<u8>)
    ensures
        read_body(data)[2] == 80,
        common::message_part(read_body(data), 80, data.len() as int) == data,
        data.len() <= u32::MAX ==> codec::u32_at(read_body(data), 4) == data.len(),
        codec::u16_at(read_body(data), 0) == 17,
        read_body(data).len() == 16 + data.len(),
{
    reveal(read_body);
    let body = read_body(data);
    assert(body.subrange(0, 2) =~= codec::le16(17));
    codec::lemma_read_le16(body, 0, 17);
    assert(body.subrange(16, 16 + data.len() as int) =~= data);
    assert(body.subrange(4, 8) =~= codec::le32((data.len() % 0x1_0000_0000) as u32));
    codec::lemma_read_le32(body, 4, (data.len() % 0x1_0000_0000) as u32);
}

/// A WRITE request.
#[derive(Clone, Copy, Debug)]
pub struct WriteRequest {
    pub data_offset: u16,
    pub length: u32,
    pub offset: u64,
    pub file_id_persistent: u64,
    pub file_id_volatile: u64,
}

impl WriteRequest {
    pub open spec fn of(body: Seq<u8>) -> WriteRequest {
        WriteRequest {
            data_offset: codec::u16_at(body, 2),
            length: codec::u32_at(body, 4),
            offset: codec::u64_at(body, 8),
            file_id_persistent: codec::u64_at(body, 16),
            file_id_volatile: codec::u64_at(body, 24),
        }
    }

    /// Reads the fixed part of a request, which is 48 bytes long.
    pub fn parse(body: &[u8]) -> (request: Option<WriteRequest>)
        ensures
            body@.len() < 48 ==> request is None,
            body@.len() >= 48 ==> request == Some(WriteRequest::of(body@)),
    {
        if body.len() < 48 {
            return None;
        }
        Some(
            WriteRequest {
                data_offset: codec::get_u16(body, 2),
                length: codec::get_u32(body, 4),
                offset: codec::get_u64(body, 8),
                file_id_persistent: codec::get_u64(body, 16),
                file_id_volatile: codec::get_u64(body, 24),
            },
        )
    }
}

/// A WRITE request that waits for its handle.
#[derive(Debug)]
pub struct WriteAwaitHandle {
    pub header: Smb2Header,
    pub request: WriteRequest,
    pub data: Vec<u8>,
    /// The handle to look up.
    pub handle_id: u128,
}

/// Starts to handle a WRITE request, which has to pay for what it writes. Data
/// that lies outside the request counts as none.
pub fn handle_write(connection: &Connection, header: &Smb2Header, body: &[u8]) -> (r: Result<
    WriteAwaitHandle,
    HandlerError,
>)
    ensures
        body@.len() < 48 ==> error::malformed(r, "Failed to parse write"@),
        body@.len() >= 48 ==> {
            let request = WriteRequest::of(body@);
            if connection.spec_supports_multi_credit() && !connection::charge_suffices(
                header.credit_charge,
                request.length,
            ) {
                error::refused(r, NtStatus::InvalidParameter)
            } else {
                &&& r matches Ok(a)
                &&& a.header == *header
                &&& a.request == request
                &&& a.data@ == common::message_part(
                    body@,
                    request.data_offset as int,
                    request.length as int,
                )
                &&& a.handle_id == common::spec_handle_id(
                    request.file_id_persistent,
                    request.file_id_volatile,
                )
            }
        },
        r matches Ok(a) ==> common::is_file_id_at(body@, 16, a.handle_id),
{
    let request = match WriteRequest::parse(body) {
        Some(request) => request,
        None => {
            return Err(error::protocol_error("Failed to parse write"));
        },
    };
    proof {
        common::lemma_file_id_at(body@, 16);
    }
    match connection::validate_credit_charge(connection, header, request.length) {
        Err(e) => Err(e),
        Ok(()) => Ok(
            WriteAwaitHandle {
                header: *header,
                request,
                data: common::copy_message_part(body, request.data_offset as u32, request.length),
                handle_id: common::handle_id(request.file_id_persistent, request.file_id_volatile),
            },
        ),
    }
}

/// A WRITE request that waits for its tree.
#[derive(Debug)]
pub struct WriteAwaitTree {
    pub header: Smb2Header,
    pub request: WriteRequest,
    pub data: Vec<u8>,
    pub handle: HandleState,
}

impl WriteAwaitHandle {
    /// Takes the handle that the state store found.
    pub fn on_handle(self, reply: Result<Option<HandleState>, String>) -> (r: Result<
        WriteAwaitTree,
        HandlerError,
    >)
        ensures
            match common::handle_outcome(self.header, reply, NtStatus::InvalidHandle) {
                Err(e) => r == Err::<WriteAwaitTree, HandlerError>(e),
                Ok(handle) => r == Ok::<WriteAwaitTree, HandlerError>(
                    WriteAwaitTree {
                        header: self.header,
                        request: self.request,
                        data: self.data,
                        handle,
                    },
                ),
            },
    {
        match common::accept_handle(&self.header, reply, NtStatus::InvalidHandle) {
            Err(e) => Err(e),
            Ok(handle) => Ok(
                WriteAwaitTree {
                    header: self.header,
                    request: self.request,
                    data: self.data,
                    handle,
                },
            ),
        }
    }
}

/// A WRITE request whose data is to be written.
#[derive(Debug)]
pub struct WriteAwaitBackend {
    pub header: Smb2Header,
    pub request: WriteRequest,
    /// The data to write.
    pub data: Vec<u8>,
    pub handle: HandleState,
    /// The file to write to.
    pub file: BackendFile,
}

impl WriteAwaitTree {
    /// Takes the tree that the state store found.
    pub fn on_tree(self, reply: TreeReply) -> (r: Result<WriteAwaitBackend, HandlerError>)
        ensures
            match common::tree_outcome(reply, NtStatus::InvalidParameter) {
                Err(e) => r == Err::<WriteAwaitBackend, HandlerError>(e),
                Ok(_) => r == Ok::<WriteAwaitBackend, HandlerError>(
                    WriteAwaitBackend {
                        header: self.header,
                        request: self.request,
                        data: self.data,
                        handle: self.handle,
                        file: BackendFile::spec_of(self.handle),
                    },
                ),
            },
    {
        match common::accept_tree(reply, NtStatus::InvalidParameter) {
            Err(e) => Err(e),
            Ok(_) => {
                let file = BackendFile::of(&self.handle);
                Ok(
                    WriteAwaitBackend {
                        header: self.header,
                        request: self.request,
                        data: self.data,
                        handle: self.handle,
                        file,
                    },
                )
            },
        }
    }
}

/// The body of a WRITE response.
pub open spec fn write_body(count: u32) -> Seq<u8> {
    codec::le16(17) + codec::le16(0) + codec::le32(count) + codec::le32(0) + codec::le16(0)
        + codec::le16(0)
}

impl WriteAwaitBackend {
    /// What comes of writing: the handle to store, if any, and the response.
    pub open spec fn is_written(
        self,
        reply: Result<u32, String>,
        now: u64,
        credits: u16,
        r: Result<(Option<HandleState>, Vec<u8>), HandlerError>,
    ) -> bool {
        match reply {
            Err(text) => r == Err::<(Option<HandleState>, Vec<u8>), HandlerError>(
                HandlerError::Vfs(text),
            ),
            Ok(count) => {
                &&& r matches Ok((store, m))
                &&& store == if self.handle.spec_should_preserve_for_reconnect() {
                    Some(moved_handle(self.handle, self.request.offset, count as int, now))
                } else {
                    None
                }
                &&& m@ == common::response(
                    self.header,
                    NtStatus::Success,
                    credits,
                    write_body(count),
                )
            },
        }
    }

    /// Takes how many bytes were written. A handle that outlives its connection,
    /// returned beside the response, is to be stored with its new position; if
    /// that fails the request does not.
    pub fn on_written(self, reply: Result<u32, String>, credits: u16) -> (r: Result<
        (Option<HandleState>, Vec<u8>),
        HandlerError,
    >)
        requires
            reply matches Ok(count) ==> self.request.offset + count <= u64::MAX,
        ensures
            exists|now: u64| self.is_written(reply, now, credits, r),
    {
        self.on_written_at(reply, current_unix_time(), credits)
    }

    /// Takes how many bytes were written, at a time in seconds.
    pub fn on_written_at(self, reply: Result<u32, String>, now: u64, credits: u16) -> (r: Result<
        (Option<HandleState>, Vec<u8>),
        HandlerError,
    >)
        requires
            reply matches Ok(count) ==> self.request.offset + count <= u64::MAX,
        ensures
            self.is_written(reply, now, credits, r),
    {
        let count: u32 = match reply {
            Err(text) => {
                return Err(HandlerError::Vfs(text));
            },
            Ok(count) => count,
        };
        let mut body: Vec<u8> = Vec::new();
        codec::put_u16(&mut body, 17);
        codec::put_u16(&mut body, 0);
        codec::put_u32(&mut body, count);
        codec::put_u32(&mut body, 0);
        codec::put_u16(&mut body, 0);
        codec::put_u16(&mut body, 0);
        assert(body@ =~= write_body(count));
        let message = common::build_response(
            &self.header,
            NtStatus::Success,
            credits,
            body.as_slice(),
        );
        let store = if self.handle.should_preserve_for_reconnect() {
            let mut handle = self.handle;
            handle.file_offset = self.request.offset + count as u64;
            handle.last_access = now;
            Some(handle)
        } else {
            None
        };
        Ok((store, message))
    }
}

/// A CLOSE request that waits for its handle.
#[derive(Debug)]
pub struct CloseAwaitHandle {
    pub header: Smb2Header,
    /// The handle to look up.
    pub handle_id: u128,
}

/// Starts to handle a CLOSE request.
pub fn handle_close(header: &Smb2Header, body: &[u8]) -> (r: Result<CloseAwaitHandle, HandlerError>)
    ensures
        body@.len() < 24 ==> error::malformed(r, "Failed to parse close"@),
        body@.len() >= 24 ==> r == Ok::<CloseAwaitHandle, HandlerError>(
            CloseAwaitHandle {
                header: *header,
                handle_id: common::spec_handle_id(
                    codec::u64_at(body@, 8),
                    codec::u64_at(body@, 16),
                ),
            },
        ),
        r matches Ok(a) ==> common::is_file_id_at(body@, 8, a.handle_id),
{
    if body.len() < 24 {
        return Err(error::protocol_error("Failed to parse close"));
    }
    proof {
        common::lemma_file_id_at(body@, 8);
    }
    Ok(
        CloseAwaitHandle {
            header: *header,
            handle_id: common::handle_id(codec::get_u64(body, 8), codec::get_u64(body, 16)),
        },
    )
}

/// The body of a CLOSE response. It says nothing about the file.
pub open spec fn close_body() -> Seq<u8> {
    codec::le16(60) + codec::zeros(58)
}

/// What closing a handle takes: drop its lease or its oplock, release its locks,
/// delete the file if it was to go, delete the handle, and answer. None of this
/// can make the request fail.
#[derive(Debug)]
pub struct CloseDone {
    pub handle_id: u128,
    /// The lease to drop, by its key as text.
    pub lease: Option<String>,
    /// Whether there is an oplock to drop.
    pub drop_oplock: bool,
    /// The file to delete.
    pub unlink: Option<String>,
    pub response: Vec<u8>,
}

impl CloseAwaitHandle {
    /// What closing a handle takes.
    pub open spec fn closes(self, handle: HandleState, credits: u16, done: CloseDone) -> bool {
        &&& done.handle_id == self.handle_id
        &&& match handle.lease_key {
            None => done.lease is None,
            Some(key) => done.lease is Some && done.lease->0@ == text::hex_text(key@),
        }
        &&& done.drop_oplock == (handle.lease_key is None && handle.oplock_level != 0)
        &&& done.unlink == if handle.delete_on_close {
            Some(handle.path)
        } else {
            None
        }
        &&& done.response@ == common::response(
            self.header,
            NtStatus::Success,
            credits,
            close_body(),
        )
    }

    /// Takes the handle that the state store found.
    pub fn on_handle(self, reply: Result<Option<HandleState>, String>, credits: u16) -> (r: Result<
        CloseDone,
        HandlerError,
    >)
        ensures
            match common::handle_outcome(self.header, reply, NtStatus::FileClosed) {
                Err(e) => r == Err::<CloseDone, HandlerError>(e),
                Ok(handle) => r matches Ok(done) && self.closes(handle, credits, done),
            },
    {
        let handle = match common::accept_handle(&self.header, reply, NtStatus::FileClosed) {
            Ok(handle) => handle,
            Err(e) => {
                return Err(e);
            },
        };
        let lease = match &handle.lease_key {
            None => None,
            Some(key) => Some(text::lease_key_text(key)),
        };
        let drop_oplock = handle.lease_key.is_none() && handle.oplock_level != 0;
        let unlink = if handle.delete_on_close {
            Some(handle.path)
        } else {
            None
        };
        let mut body: Vec<u8> = Vec::new();
        codec::put_u16(&mut body, 60);
        codec::put_zeros(&mut body, 58);
        assert(body@ =~= close_body());
        let response = common::build_response(
            &self.header,
            NtStatus::Success,
            credits,
            body.as_slice(),
        );
        Ok(CloseDone { handle_id: self.handle_id, lease, drop_oplock, unlink, response })
    }
}

/// Handles a FLUSH request: there is nothing to flush.
pub fn handle_flush(header: &Smb2Header, credits: u16) -> (message: Vec<u8>)
    ensures
        message@ == common::response(*header, NtStatus::Success, credits, common::empty_body()),
{
    common::build_empty_response(header, credits)
}

/// Handles an ECHO request.
pub fn handle_echo(header: &Smb2Header, credits: u16) -> (message: Vec<u8>)
    ensures
        message@ == common::response(*header, NtStatus::Success, credits, common::empty_body()),
{
    common::build_empty_response(header, credits)
}

/// Handles a CANCEL request: the pending request with this message id is to be
/// cancelled. There is no response.
pub fn handle_cancel(header: &Smb2Header) -> (cancel: u64)
    ensures
        cancel == header.message_id,
{
    header.message_id
}

/// Handles a CHANGE_NOTIFY request, which is not supported.
pub fn handle_change_notify() -> (r: Result<Vec<u8>, HandlerError>)
    ensures
        error::refused(r, NtStatus::NotSupported),
{
    Err(HandlerError::Status(NtStatus::NotSupported))
}

/// A handle of another session, or of none, cannot be read, written or closed:
/// to the request it is closed.
pub proof fn law_foreign_handle_is_closed(header: Smb2Header, handle: HandleState, missing: NtStatus)
    requires
        handle.session_id != header.session_id || handle.session_id == 0,
    ensures
        common::handle_outcome(header, Ok(Some(handle)), missing) == Err::<
            HandleState,
            HandlerError,
        >(HandlerError::Status(NtStatus::FileClosed)),
{
}

/// After a read or a write the handle stands behind the last byte, and is
/// otherwise the same.
pub proof fn law_position_follows_io(handle: HandleState, offset: u64, count: int, now: u64)
    requires
        0 <= count,
        offset + count <= u64::MAX,
    ensures
        moved_handle(handle, offset, count, now).file_offset == offset + count,
        moved_handle(handle, offset, count, now).path == handle.path,
        moved_handle(handle, offset, count, now).session_id == handle.session_id,
        moved_handle(handle, offset, count, now).persistent_id == handle.persistent_id,
        moved_handle(handle, offset, count, now).access_mask == handle.access_mask,
{
}

/// A READ, WRITE or CLOSE request that names a file by the sixteen bytes at 64
/// of the body of the CREATE response works on the handle that the response is
/// about: they stand at 16 of a READ or WRITE body and at 8 of a CLOSE body.
#[verifier::rlimit(50)]
pub proof fn law_file_id_leads_to_handle(
    reply: CreateReply,
    contexts: Seq<u8>,
    body: Seq<u8>,
    looked_up: u128,
)
    ensures
        ({
            let file_id = create_response::create_body(reply, contexts).subrange(64, 80);
            &&& body.len() >= 48 && body.subrange(16, 32) == file_id ==> {
                &&& common::spec_handle_id(
                    ReadRequest::of(body).file_id_persistent,
                    ReadRequest::of(body).file_id_volatile,
                ) == reply.handle_id
                &&& common::spec_handle_id(
                    WriteRequest::of(body).file_id_persistent,
                    WriteRequest::of(body).file_id_volatile,
                ) == reply.handle_id
                &&& common::is_file_id_at(body, 16, looked_up) ==> looked_up == reply.handle_id
            }
            &&& body.len() >= 24 && body.subrange(8, 24) == file_id ==> common::is_file_id_at(
                body,
                8,
                looked_up,
            ) ==> looked_up == reply.handle_id
        }),
{
    let given = create_response::create_body(reply, contexts);
    create_response::law_create_response_holds_file_id(reply, contexts);
    if body.len() >= 48 && body.subrange(16, 32) == given.subrange(64, 80) {
        common::law_file_id_names_handle(body, 16, reply.handle_id);
        if common::is_file_id_at(body, 16, looked_up) {
            common::law_same_file_id_same_handle(given, 64, reply.handle_id, body, 16, looked_up);
        }
    }
    if body.len() >= 24 && body.subrange(8, 24) == given.subrange(64, 80) {
        if common::is_file_id_at(body, 8, looked_up) {
            common::law_same_file_id_same_handle(given, 64, reply.handle_id, body, 8, looked_up);
        }
    }
}

/// A related READ that follows a CREATE in a compound message reads the file
/// that the CREATE opened, whatever file id it came with, and as much of it
/// and from where it asks for.
#[verifier::rlimit(50)]
pub proof fn law_related_read_reads_opened_file(
    run: CompoundRun,
    create: Smb2Header,
    credits: u16,
    reply: CreateReply,
    contexts: Seq<u8>,
    message: Seq<u8>,
)
    requires
        run.ctx.related,
        create.command == Smb2Command::Create,
        message.len() >= 64 + 48,
    ensures
        ({
            let response = common::response(
                create,
                NtStatus::Success,
                credits,
                create_response::create_body(reply, contexts),
            );
            let handled = compound::command_message(
                Smb2Command::Read,
                message,
                run.context_after(create, response),
            );
            let read = ReadRequest::of(handled.subrange(64, handled.len() as int));
            let asked = ReadRequest::of(message.subrange(64, message.len() as int));
            &&& common::spec_handle_id(read.file_id_persistent, read.file_id_volatile)
                == reply.handle_id
            &&& read.length == asked.length
            &&& read.offset == asked.offset
            &&& read.minimum_count == asked.minimum_count
        }),
{
    let body = create_response::create_body(reply, contexts);
    let head = header::response_header(create, NtStatus::Success, credits).bytes();
    let response = common::response(create, NtStatus::Success, credits, body);
    let handled = compound::command_message(
        Smb2Command::Read,
        message,
        run.context_after(create, response),
    );
    header::law_header_layout(header::response_header(create, NtStatus::Success, credits), body);
    create_response::law_create_response_names_handle(reply, contexts);
    codec::lemma_behind(head, body, 64);
    codec::lemma_behind(head, body, 72);
    compound::law_related_command_works_on_opened_file(
        run,
        create,
        response,
        Smb2Command::Read,
        message,
    );
    compound::law_only_file_id_is_replaced(
        Smb2Command::Read,
        message,
        run.context_after(create, response),
    );
    lemma_same_read(handled, message);
}

/// Two messages that differ in the sixteen bytes of the file id at most ask to
/// read the same.
proof fn lemma_same_read(handled: Seq<u8>, message: Seq<u8>)
    requires
        message.len() >= 112,
        handled.len() == message.len(),
        forall|k: int| 0 <= k < 80 || 96 <= k < message.len() ==> #[trigger] handled[k] == message[k],
    ensures
        ({
            let read = ReadRequest::of(handled.subrange(64, handled.len() as int));
            let asked = ReadRequest::of(message.subrange(64, message.len() as int));
            &&& read.length == asked.length
            &&& read.offset == asked.offset
            &&& read.minimum_count == asked.minimum_count
            &&& read.file_id_persistent == codec::u64_at(handled, 80)
            &&& read.file_id_volatile == codec::u64_at(handled, 88)
        }),
{
    let a = handled.subrange(64, handled.len() as int);
    let b = message.subrange(64, message.len() as int);
    assert(a.subrange(4, 8) =~= b.subrange(4, 8));
    assert(a.subrange(8, 16) =~= b.subrange(8, 16));
    assert(a.subrange(32, 36) =~= b.subrange(32, 36));
    assert(a.subrange(16, 24) =~= handled.subrange(80, 88));
    assert(a.subrange(24, 32) =~= handled.subrange(88, 96));
    codec::lemma_same_bytes(a, 4, b, 4, 4);
    codec::lemma_same_bytes(a, 8, b, 8, 8);
    codec::lemma_same_bytes(a, 32, b, 32, 4);
    codec::lemma_same_bytes(a, 16, handled, 80, 8);
    codec::lemma_same_bytes(a, 24, handled, 88, 8);
}

/// What a READ request asks for: as many bytes as stand at 4 of its body, from
/// the offset at 8 on, and no less than the number at 32.
pub proof fn law_read_request(length: u32, offset: u64, file_id: Seq<u8>, minimum: u32, start: Seq<u8>, rest: Seq<u8>)
    requires
        start.len() == 4,
        file_id.len() == 16,
        rest.len() >= 12,
    ensures
        ({
            let body = start + codec::le32(length) + codec::le64(offset) + file_id + codec::le32(
                minimum,
            ) + rest;
            &&& body.len() >= 48
            &&& ReadRequest::of(body).length == length
            &&& ReadRequest::of(body).offset == offset
            &&& ReadRequest::of(body).minimum_count == minimum
        }),
{
    let body = start + codec::le32(length) + codec::le64(offset) + file_id + codec::le32(minimum)
        + rest;
    assert(body.subrange(4, 8) =~= codec::le32(length));
    codec::lemma_read_le32(body, 4, length);
    assert(body.subrange(8, 16) =~= codec::le64(offset));
    codec::lemma_read_le64(body, 8, offset);
    assert(body.subrange(32, 36) =~= codec::le32(minimum));
    codec::lemma_read_le32(body, 32, minimum);
}

/// What a WRITE request asks for: to write, from the offset at 8 of its body
/// on, the bytes that stand in the message where the two bytes at 2 say, as
/// many as the four at 4 say.
pub proof fn law_write_request(head: Seq<u8>, body: Seq<u8>, data: Seq<u8>, offset: u64)
    requires
        head.len() == 64,
        body.len() >= 48,
        codec::u32_at(body, 4) == data.len(),
        codec::u64_at(body, 8) == offset,
        64 <= codec::u16_at(body, 2),
        codec::u16_at(body, 2) + data.len() <= 64 + body.len(),
        (head + body).subrange(
            codec::u16_at(body, 2) as int,
            codec::u16_at(body, 2) + data.len() as int,
        ) == data,
    ensures
        ({
            let request = WriteRequest::of(body);
            &&& request.offset == offset
            &&& request.length == data.len()
            &&& common::message_part(body, request.data_offset as int, request.length as int)
                == data
        }),
{
    common::law_message_part_is_in_message(
        head,
        body,
        codec::u16_at(body, 2) as int,
        data.len() as int,
    );
}

/// A handle can be read if its rights let it read data (bit 0), execute (bit
/// 5), or read (bit 31) or do (bit 28) anything, and it is no directory, or one
/// that outlives the server; only then.
pub proof fn law_who_may_read(handle: HandleState)
    ensures
        read_refusal(handle) is None <==> handle.access_mask & 0x9000_0021 != 0 && !(
        handle.is_directory && !handle.is_persistent),
        handle.is_directory && !handle.is_persistent ==> read_refusal(handle) == Some(
            NtStatus::InvalidDeviceRequest,
        ),
        handle.access_mask & 0x9000_0021 == 0 && !handle.is_directory ==> read_refusal(handle)
            == Some(NtStatus::AccessDenied),
{
    assert(0x1u32 | 0x20 | 0x8000_0000 | 0x1000_0000 == 0x9000_0021) by (bit_vector);
}

/// A read comes to the end of the file if it got less than the client wants at
/// least, or nothing although it asked for something; otherwise the client gets
/// what was read, and the handle stands behind it.
pub proof fn law_outcome_of_read(read: ReadAwaitData, data: Vec<u8>, now: u64)
    requires
        read.request.offset + data@.len() <= u64::MAX,
    ensures
        ({
            let r = read.read_to_store(Ok(data), now);
            let ended = data@.len() < read.request.minimum_count || (data@.len() == 0
                && read.request.length != 0);
            &&& ended <==> r is Err
            &&& ended ==> error::refused(r, NtStatus::EndOfFile)
            &&& r matches Ok(store) ==> store.data@ == data@ && store.handle.file_offset
                == read.request.offset + data@.len() && store.handle.last_access == now
                && store.handle.persistent_id == read.handle.persistent_id && store.header
                == read.header
        }),
{
}

/// A READ response holds the data in the message where it says: from the offset
/// in byte 66 on, as many bytes as the four at 68 say.
#[verifier::rlimit(50)]
pub proof fn law_read_response_on_wire(request: Smb2Header, credits: u16, data: Seq<u8>)
    requires
        data.len() <= u32::MAX,
    ensures
        ({
            let m = common::response(request, NtStatus::Success, credits, read_body(data));
            let offset = m[66] as int;
            let length = codec::u32_at(m, 68) as int;
            &&& codec::u16_at(m, 64) == 17
            &&& length == data.len()
            &&& m.len() == offset + length
            &&& m.subrange(offset, offset + length) == data
        }),
{
    let h = header::response_header(request, NtStatus::Success, credits);
    let body = read_body(data);
    header::law_header_layout(h, body);
    law_read_response_holds_data(data);
    codec::lemma_behind(h.bytes(), body, 0);
    codec::lemma_behind(h.bytes(), body, 4);
    codec::lemma_behind(h.bytes(), body, 16);
    assert(body.subrange(16, 16 + data.len() as int) == data);
}

/// A WRITE response says at 4 of its body how many bytes were written; a CLOSE
/// response says nothing of the file.
pub proof fn law_write_and_close_responses(count: u32)
    ensures
        write_body(count).len() == 16,
        codec::u16_at(write_body(count), 0) == 17,
        codec::u32_at(write_body(count), 4) == count,
        close_body().len() == 60,
        codec::u16_at(close_body(), 0) == 60,
        forall|i: int| 2 <= i < 60 ==> #[trigger] close_body()[i] == 0,
{
    let body = write_body(count);
    assert(body.subrange(0, 2) =~= codec::le16(17));
    codec::lemma_read_le16(body, 0, 17);
    assert(body.subrange(4, 8) =~= codec::le32(count));
    codec::lemma_read_le32(body, 4, count);
    assert(close_body().subrange(0, 2) =~= codec::le16(60));
    codec::lemma_read_le16(close_body(), 0, 60);
}

/// Closing a handle deletes the file if it was to go, and only then; it drops
/// the lease of the handle, or else its oplock if it has one.
pub proof fn law_close_cleans_up(
    close: CloseAwaitHandle,
    handle: HandleState,
    credits: u16,
    done: CloseDone,
)
    requires
        close.closes(handle, credits, done),
    ensures
        done.unlink is Some <==> handle.delete_on_close,
        done.unlink matches Some(path) ==> path == handle.path,
        done.lease is Some <==> handle.lease_key is Some,
        done.drop_oplock <==> handle.lease_key is None && handle.oplock_level > 0,
        !(done.lease is Some && done.drop_oplock),
        done.handle_id == close.handle_id,
        codec::u32_at(done.response@, 8) == 0,
        codec::u64_at(done.response@, 24) == close.header.message_id,
{
    header::law_response_header_on_wire(close.header, NtStatus::Success, credits, close_body());
}

/// A client is told how many bytes were written (68 of the message); the handle
/// is stored, standing behind them, if it outlives its connection, and only
/// then.
pub proof fn law_outcome_of_write(
    write: WriteAwaitBackend,
    count: u32,
    now: u64,
    credits: u16,
    store: Option<HandleState>,
    m: Vec<u8>,
)
    requires
        write.request.offset + count <= u64::MAX,
        write.is_written(Ok(count), now, credits, Ok((store, m))),
    ensures
        codec::u32_at(m@, 68) == count,
        codec::u32_at(m@, 8) == 0,
        store is Some <==> write.handle.is_durable || write.handle.is_persistent,
        store matches Some(h) ==> h == (HandleState {
            file_offset: (write.request.offset + count) as u64,
            last_access: now,
            ..write.handle
        }),
{
    let h = header::response_header(write.header, NtStatus::Success, credits);
    header::law_response_header_on_wire(
        write.header,
        NtStatus::Success,
        credits,
        write_body(count),
    );
    header::law_header_layout(h, write_body(count));
    law_write_and_close_responses(count);
    codec::lemma_behind(h.bytes(), write_body(count), 4);
}

} // verus!
