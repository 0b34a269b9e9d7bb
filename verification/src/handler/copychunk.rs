//! Server-side copies: a request names a source by its resume key, and chunks
//! of it that are copied into the file of the request.

use vstd::prelude::*;

use crate::codec;
use crate::config::ServerSideCopyConfig;
use crate::error;
use crate::error::HandlerError;
use crate::handler::common;
use crate::handler::common::TreeReply;
use crate::handler::create::{FILE_READ_DATA, FILE_WRITE_DATA};
use crate::handler::ioctl;
use crate::handler::ioctl::IoctlRequest;
use crate::protocol::header::Smb2Header;
use crate::protocol::status::NtStatus;
use crate::state;
use crate::state::{DistributedLock, HandleState};

verus! {

pub const FILE_EXECUTE: u32 = 0x0000_0020;

/// One chunk of a copy.
#[derive(Clone, Copy, Debug, PartialEq, Eq, Structural)]
pub struct SrvCopychunk {
    pub source_offset: u64,
    pub target_offset: u64,
    pub length: u32,
}

impl SrvCopychunk {
    /// The chunk that stands at an offset of the input.
    pub open spec fn at(input: Seq<u8>, i: int) -> SrvCopychunk {
        SrvCopychunk {
            source_offset: codec::u64_at(input, i),
            target_offset: codec::u64_at(input, i + 8),
            length: codec::u32_at(input, i + 16),
        }
    }
}

/// The input of a copy request.
#[derive(Clone, Debug)]
pub struct SrvCopychunkCopy {
    pub source_key: Vec<u8>,
    pub chunk_count: u32,
    pub chunks: Vec<SrvCopychunk>,
}

/// Whether an input holds a resume key and all the chunks that it announces.
pub open spec fn is_copy_input(input: Seq<u8>) -> bool {
    input.len() >= 32 && 32 + 24 * codec::u32_at(input, 24) <= input.len()
}

/// The chunks of an input.
pub open spec fn chunks_of(input: Seq<u8>, count: int) -> Seq<SrvCopychunk> {
    Seq::new(count as nat, |i: int| SrvCopychunk::at(input, 32 + 24 * i))
}

impl SrvCopychunkCopy {
    /// Reads the input of a copy request.
    pub fn parse(input: &[u8]) -> (r: Result<SrvCopychunkCopy, HandlerError>)
        ensures
            !is_copy_input(input@) ==> error::refused(r, NtStatus::InvalidParameter),
            is_copy_input(input@) ==> (r matches Ok(c) && c.source_key@ == input@.subrange(0, 24)
                && c.chunk_count == codec::u32_at(input@, 24) && c.chunks@ == chunks_of(
                input@,
                c.chunk_count as int,
            )),
    {
        if input.len() < 32 {
            return Err(HandlerError::Status(NtStatus::InvalidParameter));
        }
        let chunk_count: u32 = codec::get_u32(input, 24);
        if 32 + 24 * (chunk_count as u64) > input.len() as u64 {
            return Err(HandlerError::Status(NtStatus::InvalidParameter));
        }
        let source_key = codec::copy_range(input, 0, 24);
        let mut chunks: Vec<SrvCopychunk> = Vec::new();
        let count: usize = chunk_count as usize;
        let mut i: usize = 0;
        while i < count
            invariant
                i <= count,
                count == chunk_count,
                32 + 24 * count <= input.len(),
                chunks@ == chunks_of(input@, i as int),
            decreases count - i,
        {
            let start: usize = 32 + 24 * i;
            chunks.push(
                SrvCopychunk {
                    source_offset: codec::get_u64(input, start),
                    target_offset: codec::get_u64(input, start + 8),
                    length: codec::get_u32(input, start + 16),
                },
            );
            i = i + 1;
            assert(chunks@ =~= chunks_of(input@, i as int));
        }
        Ok(SrvCopychunkCopy { source_key, chunk_count, chunks })
    }
}

/// The output of a copy: how many chunks were written, how many bytes of a
/// chunk that was not finished, and how many bytes in all.
pub open spec fn copychunk_output(chunks: u32, chunk_bytes: u32, total: u32) -> Seq<u8> {
    codec::le32(chunks) + codec::le32(chunk_bytes) + codec::le32(total)
}

/// The output of a copy.
#[derive(Clone, Copy, Debug, PartialEq, Eq, Structural)]
pub struct SrvCopychunkResponse {
    pub chunks_written: u32,
    pub chunk_bytes_written: u32,
    pub total_bytes_written: u32,
}

impl SrvCopychunkResponse {
    /// The output that tells the client the limits of the server.
    pub fn with_limits(max_chunks: u32, max_chunk_size: u32, max_data_size: u32) -> (r: Self)
        ensures
            r == (SrvCopychunkResponse {
                chunks_written: max_chunks,
                chunk_bytes_written: max_chunk_size,
                total_bytes_written: max_data_size,
            }),
    {
        SrvCopychunkResponse {
            chunks_written: max_chunks,
            chunk_bytes_written: max_chunk_size,
            total_bytes_written: max_data_size,
        }
    }

    /// The twelve bytes of the output.
    pub fn to_bytes(&self) -> (bytes: Vec<u8>)
        ensures
            bytes@ == copychunk_output(
                self.chunks_written,
                self.chunk_bytes_written,
                self.total_bytes_written,
            ),
    {
        let mut bytes: Vec<u8> = Vec::new();
        codec::put_u32(&mut bytes, self.chunks_written);
        codec::put_u32(&mut bytes, self.chunk_bytes_written);
        codec::put_u32(&mut bytes, self.total_bytes_written);
        assert(bytes@ =~= copychunk_output(
            self.chunks_written,
            self.chunk_bytes_written,
            self.total_bytes_written,
        ));
        bytes
    }
}

/// The response that tells the client the limits of the server.
pub open spec fn limits_response(
    header: Smb2Header,
    request: IoctlRequest,
    limits: ServerSideCopyConfig,
    credits: u16,
) -> Seq<u8> {
    common::response(
        header,
        NtStatus::InvalidParameter,
        credits,
        ioctl::ioctl_body(
            request,
            copychunk_output(
                limits.max_number_of_chunks,
                limits.max_chunk_size,
                limits.max_data_size,
            ),
        ),
    )
}

/// Builds the response that tells the client the limits of the server.
pub fn build_copychunk_error_response(
    header: &Smb2Header,
    request: &IoctlRequest,
    limits: &ServerSideCopyConfig,
    credits: u16,
) -> (message: Vec<u8>)
    ensures
        message@ == limits_response(*header, *request, *limits, credits),
{
    let output = SrvCopychunkResponse::with_limits(
        limits.max_number_of_chunks,
        limits.max_chunk_size,
        limits.max_data_size,
    ).to_bytes();
    ioctl::build_ioctl_response(
        header,
        request,
        NtStatus::InvalidParameter,
        credits,
        output.as_slice(),
    )
}

/// The response to a copy that a lock stands in the way of: nothing was copied.
pub open spec fn lock_conflict_response(header: Smb2Header, request: IoctlRequest, credits: u16) -> Seq<
    u8,
> {
    common::response(
        header,
        NtStatus::FileLockConflict,
        credits,
        ioctl::ioctl_body(request, copychunk_output(0, 0, 0)),
    )
}

/// Builds the response to a copy that a lock stands in the way of.
pub fn build_copychunk_lock_error_response(
    header: &Smb2Header,
    request: &IoctlRequest,
    credits: u16,
) -> (message: Vec<u8>)
    ensures
        message@ == lock_conflict_response(*header, *request, credits),
{
    let output = SrvCopychunkResponse {
        chunks_written: 0,
        chunk_bytes_written: 0,
        total_bytes_written: 0,
    }.to_bytes();
    ioctl::build_ioctl_response(
        header,
        request,
        NtStatus::FileLockConflict,
        credits,
        output.as_slice(),
    )
}

/// The bytes of the first `n` chunks together.
pub open spec fn total_length(chunks: Seq<SrvCopychunk>, n: int) -> int
    decreases n,
{
    if n <= 0 {
        0
    } else {
        total_length(chunks, n - 1) + chunks[n - 1].length
    }
}

/// Whether the chunks keep to the limits of the server: not too many, none
/// empty, none too long, and not too many bytes together.
pub open spec fn within_limits(chunks: Seq<SrvCopychunk>, limits: ServerSideCopyConfig) -> bool {
    &&& chunks.len() <= limits.max_number_of_chunks
    &&& forall|i: int|
        0 <= i < chunks.len() ==> 0 < (#[trigger] chunks[i]).length <= limits.max_chunk_size
    &&& total_length(chunks, chunks.len() as int) <= limits.max_data_size
}

#[verifier::loop_isolation(false)]
fn check_limits(chunks: &Vec<SrvCopychunk>, limits: &ServerSideCopyConfig) -> (b: bool)
    ensures
        b == within_limits(chunks@, *limits),
{
    if chunks.len() as u64 > limits.max_number_of_chunks as u64 {
        return false;
    }
    let mut total: u64 = 0;
    let mut i: usize = 0;
    while i < chunks.len()
        invariant
            i <= chunks@.len(),
            chunks@.len() <= limits.max_number_of_chunks,
            total == total_length(chunks@, i as int),
            total <= i * 0xFFFF_FFFF,
            forall|k: int|
                0 <= k < i ==> 0 < (#[trigger] chunks@[k]).length <= limits.max_chunk_size,
        decreases chunks@.len() - i,
    {
        let length: u32 = chunks[i].length;
        if length == 0 || length > limits.max_chunk_size {
            return false;
        }
        assert(i * 0xFFFF_FFFF <= 0xFFFF_FFFF * 0xFFFF_FFFF) by (nonlinear_arith)
            requires
                i <= 0xFFFF_FFFF,
        ;
        total = total + length as u64;
        i = i + 1;
        assert(i * 0xFFFF_FFFF == (i - 1) * 0xFFFF_FFFF + 0xFFFF_FFFF) by (nonlinear_arith);
    }
    total <= limits.max_data_size as u64
}

/// What every stage of a copy carries along.
#[derive(Debug)]
pub struct CopyJob {
    pub header: Smb2Header,
    pub request: IoctlRequest,
    pub chunks: Vec<SrvCopychunk>,
    /// Whether the control code is the one that needs no read access to the
    /// destination.
    pub write_variant: bool,
}

/// What comes of the input of a copy request.
#[derive(Debug)]
pub enum CopyStart {
    /// Answer with the limits of the server.
    Limits(Vec<u8>),
    /// Look up the source and hand it to `on_source`.
    Source(CopyAwaitSource),
}

/// A copy that waits for its source.
#[derive(Debug)]
pub struct CopyAwaitSource {
    pub job: CopyJob,
    /// The handle to look up.
    pub source_id: u128,
}

/// What comes of a copy request.
pub open spec fn is_copy_start(
    header: Smb2Header,
    request: IoctlRequest,
    body: Seq<u8>,
    write_variant: bool,
    limits: ServerSideCopyConfig,
    credits: u16,
    r: Result<CopyStart, HandlerError>,
) -> bool {
    let input = request.input(body);
    let count = codec::u32_at(input, 24) as int;
    let chunks = chunks_of(input, count);
    if !request.has_input(body) || !is_copy_input(input) || count == 0 {
        error::refused(r, NtStatus::InvalidParameter)
    } else if !within_limits(chunks, limits) {
        r matches Ok(CopyStart::Limits(m)) && m@ == limits_response(
            header,
            request,
            limits,
            credits,
        )
    } else if codec::u64_at(input, 16) != header.session_id {
        error::refused(r, NtStatus::ObjectNameNotFound)
    } else {
        &&& r matches Ok(CopyStart::Source(a))
        &&& a.job.header == header
        &&& a.job.request == request
        &&& a.job.chunks@ == chunks
        &&& a.job.write_variant == write_variant
        &&& a.source_id == codec::u128_at(input, 0)
    }
}

/// Starts to handle a copy request.
pub fn handle_copychunk(
    header: &Smb2Header,
    request: &IoctlRequest,
    body: &[u8],
    write_variant: bool,
    limits: &ServerSideCopyConfig,
    credits: u16,
) -> (r: Result<CopyStart, HandlerError>)
    ensures
        is_copy_start(*header, *request, body@, write_variant, *limits, credits, r),
{
    let input = match request.copy_input(body) {
        Some(input) => input,
        None => {
            return Err(HandlerError::Status(NtStatus::InvalidParameter));
        },
    };
    let copy_req = match SrvCopychunkCopy::parse(input.as_slice()) {
        Ok(c) => c,
        Err(e) => {
            return Err(e);
        },
    };
    if copy_req.chunk_count == 0 {
        return Err(HandlerError::Status(NtStatus::InvalidParameter));
    }
    if !check_limits(&copy_req.chunks, limits) {
        return Ok(
            CopyStart::Limits(build_copychunk_error_response(header, request, limits, credits)),
        );
    }
    let source_id: u128 = codec::get_u128(input.as_slice(), 0);
    let source_session_id: u64 = codec::get_u64(input.as_slice(), 16);
    if source_session_id != header.session_id {
        return Err(HandlerError::Status(NtStatus::ObjectNameNotFound));
    }
    Ok(
        CopyStart::Source(
            CopyAwaitSource {
                job: CopyJob {
                    header: *header,
                    request: *request,
                    chunks: copy_req.chunks,
                    write_variant,
                },
                source_id,
            },
        ),
    )
}

/// A copy that waits for its destination.
#[derive(Debug)]
pub struct CopyAwaitDest {
    pub job: CopyJob,
    pub source: HandleState,
    /// The handle to look up.
    pub dest_id: u128,
}

/// What comes of looking up the source: it has to belong to the session.
pub open spec fn source_outcome(header: Smb2Header, reply: Result<Option<HandleState>, String>) -> Result<
    HandleState,
    HandlerError,
> {
    match reply {
        Err(text) => Err(HandlerError::Internal(text)),
        Ok(None) => Err(HandlerError::Status(NtStatus::ObjectNameNotFound)),
        Ok(Some(handle)) => if handle.session_id == header.session_id {
            Ok(handle)
        } else {
            Err(HandlerError::Status(NtStatus::ObjectNameNotFound))
        },
    }
}

impl CopyAwaitSource {
    /// What comes of looking up the source.
    pub open spec fn source_result(self, reply: Result<Option<HandleState>, String>) -> Result<
        CopyAwaitDest,
        HandlerError,
    > {
        match source_outcome(self.job.header, reply) {
            Err(e) => Err(e),
            Ok(source) => Ok(
                CopyAwaitDest {
                    job: self.job,
                    source,
                    dest_id: common::spec_handle_id(
                        self.job.request.file_id_persistent,
                        self.job.request.file_id_volatile,
                    ),
                },
            ),
        }
    }

    /// Takes the source that the state store found.
    pub fn on_source(self, reply: Result<Option<HandleState>, String>) -> (r: Result<
        CopyAwaitDest,
        HandlerError,
    >)
        ensures
            r == self.source_result(reply),
    {
        match reply {
            Err(text) => Err(HandlerError::Internal(text)),
            Ok(None) => Err(HandlerError::Status(NtStatus::ObjectNameNotFound)),
            Ok(Some(source)) => {
                if source.session_id != self.job.header.session_id {
                    return Err(HandlerError::Status(NtStatus::ObjectNameNotFound));
                }
                let dest_id: u128 = common::handle_id(
                    self.job.request.file_id_persistent,
                    self.job.request.file_id_volatile,
                );
                Ok(CopyAwaitDest { job: self.job, source, dest_id })
            },
        }
    }
}

/// Whether the handles give the rights that a copy needs: to read or execute
/// the source, to write the destination, and, but for the write variant, to
/// read it too.
pub open spec fn copy_allowed(source: HandleState, dest: HandleState, write_variant: bool) -> bool {
    &&& source.access_mask & (FILE_READ_DATA | FILE_EXECUTE) != 0
    &&& dest.access_mask & FILE_WRITE_DATA != 0
    &&& write_variant || dest.access_mask & FILE_READ_DATA != 0
}

/// A copy that waits for its tree.
#[derive(Debug)]
pub struct CopyAwaitTree {
    pub job: CopyJob,
    pub source: HandleState,
    pub dest: HandleState,
}

impl CopyAwaitDest {
    /// What comes of looking up the destination.
    pub open spec fn dest_result(self, reply: Result<Option<HandleState>, String>) -> Result<
        CopyAwaitTree,
        HandlerError,
    > {
        match common::handle_outcome(self.job.header, reply, NtStatus::FileClosed) {
            Err(e) => Err(e),
            Ok(dest) => if copy_allowed(self.source, dest, self.job.write_variant) {
                Ok(CopyAwaitTree { job: self.job, source: self.source, dest })
            } else {
                Err(HandlerError::Status(NtStatus::AccessDenied))
            },
        }
    }

    /// Takes the destination that the state store found.
    pub fn on_dest(self, reply: Result<Option<HandleState>, String>) -> (r: Result<
        CopyAwaitTree,
        HandlerError,
    >)
        ensures
            r == self.dest_result(reply),
    {
        let dest = match common::accept_handle(&self.job.header, reply, NtStatus::FileClosed) {
            Ok(dest) => dest,
            Err(e) => {
                return Err(e);
            },
        };
        if self.source.access_mask & (FILE_READ_DATA | FILE_EXECUTE) == 0 {
            return Err(HandlerError::Status(NtStatus::AccessDenied));
        }
        if dest.access_mask & FILE_WRITE_DATA == 0 {
            return Err(HandlerError::Status(NtStatus::AccessDenied));
        }
        if !self.job.write_variant && dest.access_mask & FILE_READ_DATA == 0 {
            return Err(HandlerError::Status(NtStatus::AccessDenied));
        }
        Ok(CopyAwaitTree { job: self.job, source: self.source, dest })
    }
}

/// A copy that waits for the locks on its source and its destination.
#[derive(Debug)]
pub struct CopyAwaitLocks {
    pub job: CopyJob,
    pub source: HandleState,
    pub dest: HandleState,
}

impl CopyAwaitTree {
    /// What comes of looking up the tree.
    pub open spec fn tree_result(self, reply: TreeReply) -> Result<CopyAwaitLocks, HandlerError> {
        match common::tree_outcome(reply, NtStatus::InvalidParameter) {
            Err(e) => Err(e),
            Ok(_) => Ok(
                CopyAwaitLocks { job: self.job, source: self.source, dest: self.dest },
            ),
        }
    }

    /// Takes the tree that the state store found.
    pub fn on_tree(self, reply: TreeReply) -> (r: Result<CopyAwaitLocks, HandlerError>)
        ensures
            r == self.tree_result(reply),
    {
        match common::accept_tree(reply, NtStatus::InvalidParameter) {
            Err(e) => Err(e),
            Ok(_) => Ok(
                CopyAwaitLocks { job: self.job, source: self.source, dest: self.dest },
            ),
        }
    }
}

/// Where a range ends, or the last offset if it would end beyond it.
pub open spec fn range_end(offset: u64, length: u32) -> u64 {
    if offset + length > u64::MAX {
        u64::MAX
    } else {
        (offset + length) as u64
    }
}

/// Whether an exclusive lock of another handle overlaps a range.
pub open spec fn range_locked(locks: Seq<DistributedLock>, handle_id: u128, offset: u64, length: u32) -> bool {
    exists|i: int|
        0 <= i < locks.len() && (#[trigger] locks[i]).handle_id != handle_id && locks[i].exclusive
            && offset < state::lock_end(locks[i].offset, locks[i].length) && locks[i].offset
            < range_end(offset, length)
}

/// Finds an exclusive lock of another handle that overlaps a range.
pub fn check_lock_conflict(locks: &[DistributedLock], handle_id: u128, offset: u64, length: u32) -> (b: bool)
    ensures
        b == range_locked(locks@, handle_id, offset, length),
{
    let range_end: u64 = offset.saturating_add(length as u64);
    let mut i: usize = 0;
    while i < locks.len()
        invariant
            i <= locks@.len(),
            range_end == self::range_end(offset, length),
            forall|k: int|
                0 <= k < i ==> !((#[trigger] locks@[k]).handle_id != handle_id
                    && locks@[k].exclusive && offset < state::lock_end(
                    locks@[k].offset,
                    locks@[k].length,
                ) && locks@[k].offset < range_end),
        decreases locks@.len() - i,
    {
        let lock = &locks[i];
        if lock.handle_id != handle_id && lock.exclusive && offset < state::compute_lock_end(
            lock.offset,
            lock.length,
        ) && lock.offset < range_end {
            return true;
        }
        i = i + 1;
    }
    false
}

/// Whether a lock stands in the way of a chunk, at its source or its target.
pub open spec fn chunk_locked(
    chunk: SrvCopychunk,
    source: HandleState,
    dest: HandleState,
    source_locks: Seq<DistributedLock>,
    dest_locks: Seq<DistributedLock>,
) -> bool {
    ||| range_locked(source_locks, source.persistent_id, chunk.source_offset, chunk.length)
    ||| range_locked(dest_locks, dest.persistent_id, chunk.target_offset, chunk.length)
}

/// A file as the storage backend finds it again.
#[derive(Clone, Copy, Debug, PartialEq, Eq, Structural)]
pub struct BackendFile {
    pub persistent_id: u128,
    pub volatile_id: u128,
    pub backend_internal_id: Option<u64>,
}

impl BackendFile {
    pub open spec fn spec_of(handle: HandleState) -> BackendFile {
        BackendFile {
            persistent_id: handle.persistent_id,
            volatile_id: handle.volatile_id,
            backend_internal_id: handle.backend_internal_id,
        }
    }

    pub fn of(handle: &HandleState) -> (f: Self)
        ensures
            f == Self::spec_of(*handle),
    {
        BackendFile {
            persistent_id: handle.persistent_id,
            volatile_id: handle.volatile_id,
            backend_internal_id: handle.backend_internal_id,
        }
    }
}

/// A copy whose chunks are being copied.
#[derive(Debug)]
pub struct CopyRun {
    pub job: CopyJob,
    pub source: BackendFile,
    pub dest: BackendFile,
    /// How many chunks are done.
    pub done: usize,
    /// The bytes that were written.
    pub total: u32,
}

/// What comes of the locks on source and destination.
#[derive(Debug)]
pub enum CopyLocks {
    /// Answer that a lock stands in the way.
    Conflict(Vec<u8>),
    /// Copy the chunks.
    Run(CopyRun),
}

impl CopyAwaitLocks {
    /// Whether a lock of another handle stands in the way of a chunk.
    pub open spec fn is_locked(
        self,
        source_locks: Seq<DistributedLock>,
        dest_locks: Seq<DistributedLock>,
    ) -> bool {
        exists|i: int|
            0 <= i < self.job.chunks@.len() && chunk_locked(
                #[trigger] self.job.chunks@[i],
                self.source,
                self.dest,
                source_locks,
                dest_locks,
            )
    }

    /// The copy before its first chunk.
    pub open spec fn run(self) -> CopyRun {
        CopyRun {
            job: self.job,
            source: BackendFile::spec_of(self.source),
            dest: BackendFile::spec_of(self.dest),
            done: 0,
            total: 0,
        }
    }

    /// What comes of the locks on source and destination.
    pub open spec fn is_outcome(
        self,
        source_locks: Seq<DistributedLock>,
        dest_locks: Seq<DistributedLock>,
        credits: u16,
        r: CopyLocks,
    ) -> bool {
        if self.is_locked(source_locks, dest_locks) {
            r matches CopyLocks::Conflict(m) && m@ == lock_conflict_response(
                self.job.header,
                self.job.request,
                credits,
            )
        } else {
            r == CopyLocks::Run(self.run())
        }
    }

    /// Takes the locks on source and destination. No chunk is copied if one of
    /// them touches a range that another handle has locked.
    #[verifier::loop_isolation(false)]
    pub fn on_locks(
        self,
        source_locks: &[DistributedLock],
        dest_locks: &[DistributedLock],
        credits: u16,
    ) -> (r: CopyLocks)
        ensures
            self.is_outcome(source_locks@, dest_locks@, credits, r),
    {
        let mut i: usize = 0;
        while i < self.job.chunks.len()
            invariant
                i <= self.job.chunks@.len(),
                forall|k: int|
                    0 <= k < i ==> !chunk_locked(
                        #[trigger] self.job.chunks@[k],
                        self.source,
                        self.dest,
                        source_locks@,
                        dest_locks@,
                    ),
            decreases self.job.chunks@.len() - i,
        {
            let chunk = self.job.chunks[i];
            if check_lock_conflict(
                source_locks,
                self.source.persistent_id,
                chunk.source_offset,
                chunk.length,
            ) || check_lock_conflict(
                dest_locks,
                self.dest.persistent_id,
                chunk.target_offset,
                chunk.length,
            ) {
                assert(chunk_locked(
                    self.job.chunks@[i as int],
                    self.source,
                    self.dest,
                    source_locks@,
                    dest_locks@,
                ));
                return CopyLocks::Conflict(
                    build_copychunk_lock_error_response(
                        &self.job.header,
                        &self.job.request,
                        credits,
                    ),
                );
            }
            i = i + 1;
        }
        CopyLocks::Run(
            CopyRun {
                source: BackendFile::of(&self.source),
                dest: BackendFile::of(&self.dest),
                job: self.job,
                done: 0,
                total: 0,
            },
        )
    }
}

/// What has to happen next with a copy.
#[derive(Debug)]
pub enum CopyStep {
    /// Read from the source and hand the data to `on_data`.
    Read { run: CopyRun, offset: u64, length: u32 },
    /// Write to the destination and hand the outcome to `on_written`.
    Write { run: CopyRun, offset: u64, data: Vec<u8> },
    /// Go on with `step`.
    Next(CopyRun),
    /// Answer with the response.
    Done(Vec<u8>),
}

impl CopyRun {
    /// The chunks that are done are no more than there are, and those are no
    /// more than a 32-bit number can count.
    pub open spec fn wf(self) -> bool {
        self.done <= self.job.chunks.len() && self.job.chunks.len() <= u32::MAX
    }

    pub open spec fn busy(self) -> bool {
        self.done < self.job.chunks.len()
    }

    /// The chunk that is being copied.
    pub open spec fn current(self) -> SrvCopychunk {
        self.job.chunks@[self.done as int]
    }

    /// The response to a copy whose chunks are all done. The bytes of an
    /// unfinished chunk are zero then.
    pub open spec fn response(self, credits: u16) -> Seq<u8> {
        common::response(
            self.job.header,
            NtStatus::Success,
            credits,
            ioctl::ioctl_body(
                self.job.request,
                copychunk_output(self.done as u32, 0, self.total),
            ),
        )
    }

    /// What has to happen next: the next chunk is read, or the copy is answered.
    pub open spec fn is_step(self, credits: u16, step: CopyStep) -> bool {
        if self.busy() {
            step == (CopyStep::Read {
                run: self,
                offset: self.current().source_offset,
                length: self.current().length,
            })
        } else {
            step matches CopyStep::Done(m) && m@ == self.response(credits)
        }
    }

    /// Takes the next chunk, or answers when all are done.
    pub fn step(self, credits: u16) -> (step: CopyStep)
        requires
            self.wf(),
        ensures
            self.is_step(credits, step),
    {
        if self.done < self.job.chunks.len() {
            let chunk = self.job.chunks[self.done];
            return CopyStep::Read {
                run: self,
                offset: chunk.source_offset,
                length: chunk.length,
            };
        }
        let output = SrvCopychunkResponse {
            chunks_written: self.done as u32,
            chunk_bytes_written: 0,
            total_bytes_written: self.total,
        }.to_bytes();
        CopyStep::Done(
            ioctl::build_ioctl_response(
                &self.job.header,
                &self.job.request,
                NtStatus::Success,
                credits,
                output.as_slice(),
            ),
        )
    }

    /// The run after a chunk of which `n` bytes were copied.
    pub open spec fn advanced(self, n: int) -> CopyRun {
        CopyRun { done: (self.done + 1) as usize, total: (self.total + n) as u32, ..self }
    }

    /// What has to happen with the data of a chunk.
    pub open spec fn data_step(self, data: Vec<u8>) -> CopyStep {
        if data@.len() == 0 {
            CopyStep::Next(self.advanced(0))
        } else {
            CopyStep::Write {
                run: self.advanced(data@.len() as int),
                offset: self.current().target_offset,
                data,
            }
        }
    }

    /// Takes the data of a chunk. What the source does not hold is not written.
    pub fn on_data(self, reply: Result<Vec<u8>, String>) -> (r: Result<CopyStep, HandlerError>)
        requires
            self.wf(),
            self.busy(),
            reply matches Ok(data) ==> self.total + data@.len() <= u32::MAX,
        ensures
            match reply {
                Err(text) => r == Err::<CopyStep, HandlerError>(HandlerError::Vfs(text)),
                Ok(data) => r == Ok::<CopyStep, HandlerError>(self.data_step(data)),
            },
    {
        match reply {
            Err(text) => Err(HandlerError::Vfs(text)),
            Ok(data) => {
                let offset: u64 = self.job.chunks[self.done].target_offset;
                let n: usize = data.len();
                let mut run = self;
                run.done = run.done + 1;
                run.total = run.total + n as u32;
                if n == 0 {
                    Ok(CopyStep::Next(run))
                } else {
                    Ok(CopyStep::Write { run, offset, data })
                }
            },
        }
    }

    /// Takes the outcome of writing a chunk.
    pub fn on_written(self, reply: Result<(), String>) -> (r: Result<CopyStep, HandlerError>)
        ensures
            match reply {
                Err(text) => r == Err::<CopyStep, HandlerError>(HandlerError::Vfs(text)),
                Ok(_) => r == Ok::<CopyStep, HandlerError>(CopyStep::Next(self)),
            },
    {
        match reply {
            Err(text) => Err(HandlerError::Vfs(text)),
            Ok(()) => Ok(CopyStep::Next(self)),
        }
    }
}

proof fn lemma_total_length_is_monotone(chunks: Seq<SrvCopychunk>, n: int, m: int)
    requires
        0 <= n <= m,
    ensures
        total_length(chunks, n) <= total_length(chunks, m),
    decreases m - n,
{
    if n < m {
        lemma_total_length_is_monotone(chunks, n, m - 1);
    }
}

/// A copy within the limits never writes more than they allow, as long as the
/// source gives no more than it is asked for: the bytes written so far are no
/// more than those of the chunks done so far, and the next chunk keeps it so.
pub proof fn law_copy_keeps_to_limits(run: CopyRun, limits: ServerSideCopyConfig, n: int)
    requires
        run.wf(),
        run.busy(),
        within_limits(run.job.chunks@, limits),
        run.total <= total_length(run.job.chunks@, run.done as int),
        0 <= n <= run.current().length,
    ensures
        run.total + n <= u32::MAX,
        run.advanced(n).total <= total_length(run.job.chunks@, run.advanced(n).done as int),
        run.advanced(n).total <= limits.max_data_size,
        run.advanced(n).wf(),
{
    let chunks = run.job.chunks@;
    assert(total_length(chunks, run.done + 1) == total_length(chunks, run.done as int)
        + chunks[run.done as int].length);
    lemma_total_length_is_monotone(chunks, run.done + 1, chunks.len() as int);
}

/// A copy whose handles and tree are there, belong to the request and give the
/// rights that it needs goes on with them, and with its chunks unchanged.
pub proof fn law_allowed_copy_goes_on(
    a: CopyAwaitSource,
    source: HandleState,
    dest: HandleState,
    tree: state::TreeState,
)
    requires
        source.session_id == a.job.header.session_id,
        common::handle_refusal(a.job.header, dest) is None,
        copy_allowed(source, dest, a.job.write_variant),
    ensures
        ({
            let awaiting_dest = a.source_result(Ok(Some(source)))->Ok_0;
            let awaiting_tree = awaiting_dest.dest_result(Ok(Some(dest)))->Ok_0;
            &&& a.source_result(Ok(Some(source))) is Ok
            &&& awaiting_dest.dest_result(Ok(Some(dest))) is Ok
            &&& awaiting_tree.tree_result((TreeReply { tree: Ok(Some(tree)), share_found: true }))
                == Ok::<CopyAwaitLocks, HandlerError>(
                CopyAwaitLocks { job: a.job, source, dest },
            )
        }),
{
}

/// The bytes of some pieces of data together.
pub open spec fn total_data(data: Seq<Vec<u8>>) -> int
    decreases data.len(),
{
    if data.len() == 0 {
        0
    } else {
        total_data(data.drop_last()) + data.last()@.len()
    }
}

/// A copy after its next chunks gave this data.
pub open spec fn copied(run: CopyRun, data: Seq<Vec<u8>>) -> CopyRun
    decreases data.len(),
{
    if data.len() == 0 {
        run
    } else {
        copied(run, data.drop_last()).advanced(data.last()@.len() as int)
    }
}

/// Whether there is a piece of data for each of the first chunks, and none is
/// longer than was asked for.
pub open spec fn is_data_of(data: Seq<Vec<u8>>, chunks: Seq<SrvCopychunk>) -> bool {
    &&& data.len() <= chunks.len()
    &&& forall|i: int| 0 <= i < data.len() ==> (#[trigger] data[i])@.len() <= chunks[i].length
}

/// A copy reports what it has done: after any number of chunks, as many are
/// done, and the total is the bytes that were read, as long as they can be counted
/// with 32 bits.
pub proof fn law_copy_counts_its_data(a: CopyAwaitLocks, data: Seq<Vec<u8>>)
    requires
        a.job.chunks@.len() <= u32::MAX,
        data.len() <= a.job.chunks@.len(),
        total_data(data) <= u32::MAX,
    ensures
        ({
            let run = copied(a.run(), data);
            &&& run.wf()
            &&& run.done == data.len()
            &&& run.total == total_data(data)
            &&& run == (CopyRun { done: run.done, total: run.total, ..a.run() })
        }),
    decreases data.len(),
{
    if data.len() > 0 {
        law_copy_counts_its_data(a, data.drop_last());
    }
}

/// Where no read gives more than it was asked for, what a copy within the limits
/// reads stays within them, and so can be counted.
pub proof fn law_read_data_keeps_to_limits(
    chunks: Seq<SrvCopychunk>,
    limits: ServerSideCopyConfig,
    data: Seq<Vec<u8>>,
)
    requires
        within_limits(chunks, limits),
        is_data_of(data, chunks),
    ensures
        total_data(data) <= total_length(chunks, data.len() as int),
        total_data(data) <= limits.max_data_size,
    decreases data.len(),
{
    if data.len() > 0 {
        let before = data.drop_last();
        assert forall|i: int| 0 <= i < before.len() implies (#[trigger] before[i])@.len()
            <= chunks[i].length by {
            assert(before[i] == data[i]);
        }
        law_read_data_keeps_to_limits(chunks, limits, before);
        assert(data.last() == data[data.len() - 1]);
    }
    lemma_total_length_is_monotone(chunks, data.len() as int, chunks.len() as int);
}

proof fn lemma_total_data_is_monotone(data: Seq<Vec<u8>>, i: int)
    requires
        0 <= i <= data.len(),
    ensures
        total_data(data.take(i)) <= total_data(data),
    decreases data.len() - i,
{
    if i < data.len() {
        lemma_total_data_is_monotone(data, i + 1);
        assert(data.take(i + 1).drop_last() =~= data.take(i));
    } else {
        assert(data.take(i) =~= data);
    }
}

/// The whole of a copy. If a lock of another handle stands in the way of a chunk,
/// it is answered with a lock conflict, and nothing is read or written. Otherwise
/// each chunk is read at its source offset, in order; what was read is written at
/// its target offset; and in the end the client is told the number of the chunks
/// and the bytes that were read. `data` is what the reads give, of any length as
/// long as all of it can be counted with 32 bits; `i` is any chunk.
pub proof fn law_whole_copy(
    a: CopyAwaitLocks,
    source_locks: Seq<DistributedLock>,
    dest_locks: Seq<DistributedLock>,
    credits: u16,
    start: CopyLocks,
    data: Seq<Vec<u8>>,
    i: int,
    step: CopyStep,
    last_step: CopyStep,
)
    requires
        a.job.chunks@.len() <= u32::MAX,
        data.len() == a.job.chunks@.len(),
        total_data(data) <= u32::MAX,
        0 <= i < data.len(),
        a.is_outcome(source_locks, dest_locks, credits, start),
        copied(a.run(), data.take(i)).is_step(credits, step),
        copied(a.run(), data).is_step(credits, last_step),
    ensures
        a.is_locked(source_locks, dest_locks) ==> (start matches CopyLocks::Conflict(m) && m@
            == common::response(
            a.job.header,
            NtStatus::FileLockConflict,
            credits,
            ioctl::ioctl_body(a.job.request, copychunk_output(0, 0, 0)),
        )),
        !a.is_locked(source_locks, dest_locks) ==> start == CopyLocks::Run(
            copied(a.run(), data.take(0)),
        ),
        step == (CopyStep::Read {
            run: copied(a.run(), data.take(i)),
            offset: a.job.chunks@[i].source_offset,
            length: a.job.chunks@[i].length,
        }),
        copied(a.run(), data.take(i)).total + data[i]@.len() <= u32::MAX,
        copied(a.run(), data.take(i)).data_step(data[i]) == if data[i]@.len() == 0 {
            CopyStep::Next(copied(a.run(), data.take(i + 1)))
        } else {
            CopyStep::Write {
                run: copied(a.run(), data.take(i + 1)),
                offset: a.job.chunks@[i].target_offset,
                data: data[i],
            }
        },
        last_step matches CopyStep::Done(m) && m@ == common::response(
            a.job.header,
            NtStatus::Success,
            credits,
            ioctl::ioctl_body(
                a.job.request,
                copychunk_output(data.len() as u32, 0, total_data(data) as u32),
            ),
        ),
{
    let before = data.take(i);
    lemma_total_data_is_monotone(data, i);
    lemma_total_data_is_monotone(data, i + 1);
    law_copy_counts_its_data(a, before);
    law_copy_counts_its_data(a, data);
    assert(data.take(0) =~= Seq::<Vec<u8>>::empty());
    assert(data.take(i + 1).drop_last() =~= before);
    assert(data.take(i + 1).last() == data[i]);
}

/// A copy request with a resume key that the server handed out: with one of the
/// same session it goes on to the handle that the key was made for and to all of
/// its chunks; with one of another session it is refused.
pub proof fn law_copy_by_resume_key(
    header: Smb2Header,
    request: IoctlRequest,
    body: Seq<u8>,
    write_variant: bool,
    limits: ServerSideCopyConfig,
    credits: u16,
    persistent_id: u128,
    session_id: u64,
    r: Result<CopyStart, HandlerError>,
)
    requires
        request.has_input(body),
        is_copy_input(request.input(body)),
        codec::u32_at(request.input(body), 24) > 0,
        within_limits(
            chunks_of(request.input(body), codec::u32_at(request.input(body), 24) as int),
            limits,
        ),
        ioctl::resume_key(persistent_id, session_id).is_prefix_of(request.input(body)),
        is_copy_start(header, request, body, write_variant, limits, credits, r),
    ensures
        session_id != header.session_id ==> error::refused(r, NtStatus::ObjectNameNotFound),
        session_id == header.session_id ==> (r matches Ok(CopyStart::Source(a)) && a.source_id
            == persistent_id && a.job.header == header && a.job.request == request && a.job.chunks@
            == chunks_of(request.input(body), codec::u32_at(request.input(body), 24) as int)
            && a.job.write_variant == write_variant && a.job.chunks@.len() > 0 && within_limits(
            a.job.chunks@,
            limits,
        )),
{
    let input = request.input(body);
    let key = ioctl::resume_key(persistent_id, session_id);
    assert(input =~= key + input.skip(key.len() as int));
    law_resume_key_opens_source(persistent_id, session_id, input.skip(key.len() as int));
}

/// A chunk that no lock stands in the way of can be read and written: no
/// exclusive lock of another handle covers one of its bytes.
pub proof fn law_unlocked_chunk(
    locks: Seq<DistributedLock>,
    handle_id: u128,
    offset: u64,
    length: u32,
    i: int,
    byte: u64,
)
    requires
        !range_locked(locks, handle_id, offset, length),
        0 <= i < locks.len(),
        locks[i].exclusive,
        locks[i].handle_id != handle_id,
        offset <= byte < range_end(offset, length),
    ensures
        !(locks[i].offset <= byte < state::lock_end(locks[i].offset, locks[i].length)),
{
    assert(locks[i].handle_id != handle_id);
}

/// A key that the server handed out is accepted by a copy of the same session,
/// and leads to the handle that it was made for.
pub proof fn law_resume_key_opens_source(persistent_id: u128, session_id: u64, rest: Seq<u8>)
    ensures
        codec::u128_at(ioctl::resume_key(persistent_id, session_id) + rest, 0) == persistent_id,
        codec::u64_at(ioctl::resume_key(persistent_id, session_id) + rest, 16) == session_id,
{
    let input = ioctl::resume_key(persistent_id, session_id) + rest;
    assert(input.subrange(0, 16) =~= codec::le128(persistent_id));
    assert(input.subrange(16, 24) =~= codec::le64(session_id));
    codec::lemma_read_le128(input, 0, persistent_id);
    codec::lemma_read_le64(input, 16, session_id);
}

/// The chunks of a copy request stand behind each other from 32 of its input on,
/// 24 bytes each, as many as the four bytes at 24 say: where a chunk starts in
/// the source, where in the destination, and how long it is.
pub proof fn law_chunks_on_wire(input: Seq<u8>, i: int)
    requires
        is_copy_input(input),
        0 <= i < codec::u32_at(input, 24),
    ensures
        ({
            let chunks = chunks_of(input, codec::u32_at(input, 24) as int);
            &&& chunks.len() == codec::u32_at(input, 24)
            &&& 32 + 24 * (i + 1) <= input.len()
            &&& chunks[i].source_offset == codec::u64_at(input, 32 + 24 * i)
            &&& chunks[i].target_offset == codec::u64_at(input, 32 + 24 * i + 8)
            &&& chunks[i].length == codec::u32_at(input, 32 + 24 * i + 16)
        }),
{
}

/// A copy needs the right to read (bit 0) or execute (bit 5) the source and to
/// write (bit 1) the destination, and, but for the write variant, to read the
/// destination (bit 0); no other right will do.
pub proof fn law_who_may_copy(source: HandleState, dest: HandleState, write_variant: bool)
    ensures
        copy_allowed(source, dest, write_variant) <==> source.access_mask & 0x21 != 0
            && dest.access_mask & 0x02 != 0 && (write_variant || dest.access_mask & 0x01 != 0),
{
    assert(0x01u32 | 0x20 == 0x21) by (bit_vector);
}

/// What a client reads from the output of a copy: at 0 how many chunks were
/// written, at 4 how many bytes of one that was not finished, at 8 how many
/// bytes in all.
pub proof fn law_copy_output(chunks: u32, chunk_bytes: u32, total: u32)
    ensures
        copychunk_output(chunks, chunk_bytes, total).len() == 12,
        codec::u32_at(copychunk_output(chunks, chunk_bytes, total), 0) == chunks,
        codec::u32_at(copychunk_output(chunks, chunk_bytes, total), 4) == chunk_bytes,
        codec::u32_at(copychunk_output(chunks, chunk_bytes, total), 8) == total,
{
    let output = copychunk_output(chunks, chunk_bytes, total);
    assert(output.subrange(0, 4) =~= codec::le32(chunks));
    codec::lemma_read_le32(output, 0, chunks);
    assert(output.subrange(4, 8) =~= codec::le32(chunk_bytes));
    codec::lemma_read_le32(output, 4, chunk_bytes);
    assert(output.subrange(8, 12) =~= codec::le32(total));
    codec::lemma_read_le32(output, 8, total);
}

/// A client whose copy goes beyond the limits of the server is told that (8 of
/// the message), and the limits: how many chunks (112), how many bytes each
/// (116) and together (120) it may copy.
pub proof fn law_limits_are_told(
    header: Smb2Header,
    request: IoctlRequest,
    limits: ServerSideCopyConfig,
    credits: u16,
)
    ensures
        ({
            let m = limits_response(header, request, limits, credits);
            &&& codec::u32_at(m, 8) == 0xC000_000D
            &&& m.len() == 124
            &&& codec::u32_at(m, 112) == limits.max_number_of_chunks
            &&& codec::u32_at(m, 116) == limits.max_chunk_size
            &&& codec::u32_at(m, 120) == limits.max_data_size
        }),
{
    let output = copychunk_output(
        limits.max_number_of_chunks,
        limits.max_chunk_size,
        limits.max_data_size,
    );
    let m = limits_response(header, request, limits, credits);
    law_copy_output(limits.max_number_of_chunks, limits.max_chunk_size, limits.max_data_size);
    lemma_output_of_copy(header, request, NtStatus::InvalidParameter, credits, output);
}

proof fn lemma_output_of_copy(
    header: Smb2Header,
    request: IoctlRequest,
    status: NtStatus,
    credits: u16,
    output: Seq<u8>,
)
    requires
        output.len() == 12,
    ensures
        ({
            let m = common::response(header, status, credits, ioctl::ioctl_body(request, output));
            &&& m.len() == 124
            &&& codec::u32_at(m, 8) == status.spec_code()
            &&& codec::u32_at(m, 112) == codec::u32_at(output, 0)
            &&& codec::u32_at(m, 116) == codec::u32_at(output, 4)
            &&& codec::u32_at(m, 120) == codec::u32_at(output, 8)
        }),
{
    let m = common::response(header, status, credits, ioctl::ioctl_body(request, output));
    ioctl::law_ioctl_response_holds_output(header, request, status, credits, output);
    assert(m.subrange(112, 124) == output);
    assert(m =~= m.subrange(0, 112) + output);
    codec::lemma_behind(m.subrange(0, 112), output, 0);
    codec::lemma_behind(m.subrange(0, 112), output, 4);
    codec::lemma_behind(m.subrange(0, 112), output, 8);
}

/// A client whose copy went through is told how many chunks (112) and how many
/// bytes (120) were written; one whose copy met a lock is told of the conflict
/// (8), and that nothing was written.
pub proof fn law_copy_is_told(run: CopyRun, credits: u16)
    requires
        run.done <= u32::MAX,
    ensures
        ({
            let m = run.response(credits);
            &&& codec::u32_at(m, 8) == 0
            &&& codec::u32_at(m, 112) == run.done
            &&& codec::u32_at(m, 116) == 0
            &&& codec::u32_at(m, 120) == run.total
        }),
        ({
            let m = lock_conflict_response(run.job.header, run.job.request, credits);
            &&& codec::u32_at(m, 8) == 0xC000_0054
            &&& codec::u32_at(m, 112) == 0
            &&& codec::u32_at(m, 116) == 0
            &&& codec::u32_at(m, 120) == 0
        }),
{
    law_copy_output(run.done as u32, 0, run.total);
    law_copy_output(0, 0, 0);
    lemma_output_of_copy(
        run.job.header,
        run.job.request,
        NtStatus::Success,
        credits,
        copychunk_output(run.done as u32, 0, run.total),
    );
    lemma_output_of_copy(
        run.job.header,
        run.job.request,
        NtStatus::FileLockConflict,
        credits,
        copychunk_output(0, 0, 0),
    );
}

/// A range of a chunk is locked if another handle holds an exclusive lock on one
/// of its bytes, and only then.
pub proof fn law_what_locks_a_range(
    locks: Seq<DistributedLock>,
    handle_id: u128,
    offset: u64,
    length: u32,
)
    requires
        length > 0,
    ensures
        range_locked(locks, handle_id, offset, length) <==> exists|i: int|
            0 <= i < locks.len() && (#[trigger] locks[i]).handle_id != handle_id
                && locks[i].exclusive && exists|at: int|
                state::covers(offset, length as u64, at) && #[trigger] state::covers(
                    locks[i].offset,
                    locks[i].length,
                    at,
                ),
{
    assert forall|i: int| 0 <= i < locks.len() implies (offset < state::lock_end(
        (#[trigger] locks[i]).offset,
        locks[i].length,
    ) && locks[i].offset < range_end(offset, length) <==> exists|at: int|
        state::covers(offset, length as u64, at) && #[trigger] state::covers(
            locks[i].offset,
            locks[i].length,
            at,
        )) by {
        state::lemma_common_byte(offset, length as u64, locks[i].offset, locks[i].length);
    }
    if range_locked(locks, handle_id, offset, length) {
        let i = choose|i: int|
            0 <= i < locks.len() && (#[trigger] locks[i]).handle_id != handle_id
                && locks[i].exclusive && offset < state::lock_end(locks[i].offset, locks[i].length)
                && locks[i].offset < range_end(offset, length);
        assert(locks[i].handle_id != handle_id);
    }
}

/// A chunk is in the way of a lock on the source where it is read and of one on
/// the destination where it is written.
pub proof fn law_where_a_chunk_is_locked(
    chunk: SrvCopychunk,
    source: HandleState,
    dest: HandleState,
    source_locks: Seq<DistributedLock>,
    dest_locks: Seq<DistributedLock>,
)
    ensures
        chunk_locked(chunk, source, dest, source_locks, dest_locks) <==> range_locked(
            source_locks,
            source.persistent_id,
            chunk.source_offset,
            chunk.length,
        ) || range_locked(dest_locks, dest.persistent_id, chunk.target_offset, chunk.length),
{
}

/// The source of a copy has to belong to the session of the request; the file of
/// the request is the destination.
pub proof fn law_source_and_destination(a: CopyAwaitSource, reply: Result<Option<HandleState>, String>)
    ensures
        a.source_result(reply) is Ok <==> (reply matches Ok(Some(handle)) && handle.session_id
            == a.job.header.session_id),
        a.source_result(reply) matches Ok(next) ==> reply == Ok::<Option<HandleState>, String>(
            Some(next.source),
        ) && next.job == a.job && next.dest_id == common::spec_handle_id(
            a.job.request.file_id_persistent,
            a.job.request.file_id_volatile,
        ),
{
}

/// A copy keeps to the limits of the server if it has no more chunks than they
/// allow, none of which is empty or longer than they allow, and if no part of it
/// is longer than they allow together.
pub proof fn law_limits(chunks: Seq<SrvCopychunk>, limits: ServerSideCopyConfig, n: int)
    requires
        0 <= n <= chunks.len(),
    ensures
        within_limits(chunks, limits) ==> chunks.len() <= limits.max_number_of_chunks
            && total_length(chunks, n) <= limits.max_data_size,
        within_limits(chunks, limits) && n < chunks.len() ==> 0 < chunks[n].length
            <= limits.max_chunk_size,
        n < chunks.len() ==> total_length(chunks, n + 1) == total_length(chunks, n)
            + chunks[n].length,
        total_length(chunks, 0) == 0,
        chunks.len() > limits.max_number_of_chunks ==> !within_limits(chunks, limits),
        n < chunks.len() && (chunks[n].length == 0 || chunks[n].length > limits.max_chunk_size)
            ==> !within_limits(chunks, limits),
        total_length(chunks, chunks.len() as int) > limits.max_data_size ==> !within_limits(
            chunks,
            limits,
        ),
{
    lemma_total_length_is_monotone(chunks, n, chunks.len() as int);
}

/// The backend finds a file by the ids of its handle, each in its own place.
pub proof fn law_backend_finds_file(handle: HandleState)
    ensures
        BackendFile::spec_of(handle).persistent_id == handle.persistent_id,
        BackendFile::spec_of(handle).volatile_id == handle.volatile_id,
        BackendFile::spec_of(handle).backend_internal_id == handle.backend_internal_id,
{
}

/// A copy starts with its first chunk, with nothing copied yet, from the file
/// that the source handle is open on to the one that the destination is open on.
pub proof fn law_copy_starts_at_beginning(wait: CopyAwaitLocks)
    ensures
        wait.run().job == wait.job,
        wait.run().source.persistent_id == wait.source.persistent_id,
        wait.run().source.backend_internal_id == wait.source.backend_internal_id,
        wait.run().dest.persistent_id == wait.dest.persistent_id,
        wait.run().dest.backend_internal_id == wait.dest.backend_internal_id,
        wait.run().done == 0,
        wait.run().total == 0,
{
}

/// A request to copy no chunk at all is refused.
pub proof fn law_copy_needs_chunks(
    header: Smb2Header,
    request: IoctlRequest,
    body: Seq<u8>,
    write_variant: bool,
    limits: ServerSideCopyConfig,
    credits: u16,
    r: Result<CopyStart, HandlerError>,
)
    requires
        is_copy_start(header, request, body, write_variant, limits, credits, r),
        codec::u32_at(request.input(body), 24) == 0,
    ensures
        error::refused(r, NtStatus::InvalidParameter),
{
}

} // verus!
