//! What a CREATE response says about the file that was opened.

use vstd::prelude::*;

use crate::codec;
use crate::handler::common;
use crate::handler::lease_break::OplockLevel;
use crate::helpers::time;
use crate::helpers::time::current_filetime;
use crate::protocol::header;
use crate::protocol::header::Smb2Header;
use crate::protocol::status::NtStatus;
use crate::storage::{
    FileType,
    Metadata,
    FILE_ATTRIBUTE_ARCHIVE,
    FILE_ATTRIBUTE_DIRECTORY,
    FILE_ATTRIBUTE_NORMAL,
    FILE_ATTRIBUTE_READONLY,
    MODE_OWNER_WRITE,
};

verus! {

/// What to do if the file is there or is not there.
pub struct Disposition;

impl Disposition {
    pub const SUPERSEDE: u32 = 0;
    pub const OPEN: u32 = 1;
    pub const CREATE: u32 = 2;
    pub const OPEN_IF: u32 = 3;
    pub const OVERWRITE: u32 = 4;
    pub const OVERWRITE_IF: u32 = 5;
}

/// An existing file was replaced.
pub const FILE_SUPERSEDED: u32 = 0;

/// An existing file was opened.
pub const FILE_OPENED: u32 = 1;

/// A new file was made.
pub const FILE_CREATED: u32 = 2;

/// The contents of an existing file were discarded.
pub const FILE_OVERWRITTEN: u32 = 3;

/// The create option that asks for a directory.
pub const FILE_DIRECTORY_FILE: u32 = 0x0000_0001;

/// The create option that asks for the file to be deleted when it is closed.
pub const FILE_DELETE_ON_CLOSE: u32 = 0x0000_1000;

/// What happened to the file, from what was asked for and whether it was there.
pub open spec fn create_action(disposition: u32, existed: bool) -> u32 {
    if disposition == Disposition::SUPERSEDE {
        if existed {
            FILE_SUPERSEDED
        } else {
            FILE_CREATED
        }
    } else if disposition == Disposition::CREATE {
        FILE_CREATED
    } else if disposition == Disposition::OPEN_IF {
        if existed {
            FILE_OPENED
        } else {
            FILE_CREATED
        }
    } else if disposition == Disposition::OVERWRITE {
        FILE_OVERWRITTEN
    } else if disposition == Disposition::OVERWRITE_IF {
        if existed {
            FILE_OVERWRITTEN
        } else {
            FILE_CREATED
        }
    } else {
        FILE_OPENED
    }
}

pub fn compute_create_action(disposition: u32, existed: bool) -> (action: u32)
    ensures
        action == create_action(disposition, existed),
{
    if disposition == Disposition::SUPERSEDE {
        if existed {
            FILE_SUPERSEDED
        } else {
            FILE_CREATED
        }
    } else if disposition == Disposition::CREATE {
        FILE_CREATED
    } else if disposition == Disposition::OPEN_IF {
        if existed {
            FILE_OPENED
        } else {
            FILE_CREATED
        }
    } else if disposition == Disposition::OVERWRITE {
        FILE_OVERWRITTEN
    } else if disposition == Disposition::OVERWRITE_IF {
        if existed {
            FILE_OVERWRITTEN
        } else {
            FILE_CREATED
        }
    } else {
        FILE_OPENED
    }
}

/// A file that was not there is only ever reported as created, unless the
/// request was one to open or to overwrite it; and one that was there is only
/// reported as created if the request was one to create it.
pub proof fn law_create_action(disposition: u32)
    requires
        disposition <= Disposition::OVERWRITE_IF,
    ensures
        create_action(disposition, false) == FILE_CREATED || disposition == Disposition::OPEN
            || disposition == Disposition::OVERWRITE,
        create_action(disposition, true) == FILE_CREATED <==> disposition == Disposition::CREATE,
{
}

pub open spec fn is_directory(metadata: Option<Metadata>) -> bool {
    metadata matches Some(m) && m.file_type == FileType::Directory
}

/// The attributes that a response reports. Those of a new file are the ones that
/// were asked for, and that it is a directory or else a file to archive; those
/// of any other file are what the backend says.
pub open spec fn response_attributes(
    action: u32,
    requested: u32,
    create_options: u32,
    metadata: Option<Metadata>,
) -> u32 {
    if action == FILE_CREATED {
        let kept = requested & !FILE_ATTRIBUTE_NORMAL;
        if is_directory(metadata) || create_options & FILE_DIRECTORY_FILE != 0 || kept
            & FILE_ATTRIBUTE_DIRECTORY != 0 {
            kept | FILE_ATTRIBUTE_DIRECTORY
        } else {
            kept | FILE_ATTRIBUTE_ARCHIVE
        }
    } else {
        match metadata {
            None => FILE_ATTRIBUTE_ARCHIVE,
            Some(m) => {
                let kind = if m.file_type == FileType::Directory {
                    FILE_ATTRIBUTE_DIRECTORY
                } else {
                    FILE_ATTRIBUTE_ARCHIVE
                };
                if m.mode & MODE_OWNER_WRITE == 0 {
                    kind | FILE_ATTRIBUTE_READONLY
                } else {
                    kind
                }
            },
        }
    }
}

pub fn compute_response_attributes(
    action: u32,
    requested: u32,
    create_options: u32,
    metadata: &Option<Metadata>,
) -> (attrs: u32)
    ensures
        attrs == response_attributes(action, requested, create_options, *metadata),
{
    if action == FILE_CREATED {
        let kept: u32 = requested & !FILE_ATTRIBUTE_NORMAL;
        let is_dir = match metadata {
            Some(m) => m.file_type == FileType::Directory,
            None => false,
        };
        if is_dir || create_options & FILE_DIRECTORY_FILE != 0 || kept & FILE_ATTRIBUTE_DIRECTORY
            != 0 {
            kept | FILE_ATTRIBUTE_DIRECTORY
        } else {
            kept | FILE_ATTRIBUTE_ARCHIVE
        }
    } else {
        match metadata {
            None => FILE_ATTRIBUTE_ARCHIVE,
            Some(m) => {
                let kind: u32 = if m.file_type == FileType::Directory {
                    FILE_ATTRIBUTE_DIRECTORY
                } else {
                    FILE_ATTRIBUTE_ARCHIVE
                };
                if m.mode & MODE_OWNER_WRITE == 0 {
                    kind | FILE_ATTRIBUTE_READONLY
                } else {
                    kind
                }
            },
        }
    }
}

/// A response never says that a file has no attributes, as others are always
/// set: it is a directory or a file to archive.
pub proof fn law_response_attributes(
    action: u32,
    requested: u32,
    create_options: u32,
    metadata: Option<Metadata>,
)
    ensures
        response_attributes(action, requested, create_options, metadata) & FILE_ATTRIBUTE_NORMAL
            == 0,
        response_attributes(action, requested, create_options, metadata) & FILE_ATTRIBUTE_DIRECTORY
            != 0 || response_attributes(action, requested, create_options, metadata)
            & FILE_ATTRIBUTE_ARCHIVE != 0,
{
    assert((requested & !0x80u32 | 0x10) & 0x80 == 0) by (bit_vector);
    assert((requested & !0x80u32 | 0x20) & 0x80 == 0) by (bit_vector);
    assert((requested & !0x80u32 | 0x10) & 0x10 != 0) by (bit_vector);
    assert((requested & !0x80u32 | 0x20) & 0x20 != 0) by (bit_vector);
    assert((0x10u32 | 0x01) & 0x80 == 0 && (0x20u32 | 0x01) & 0x80 == 0 && 0x10u32 & 0x80 == 0
        && 0x20u32 & 0x80 == 0) by (bit_vector);
    assert((0x10u32 | 0x01) & 0x10 != 0 && (0x20u32 | 0x01) & 0x20 != 0 && 0x10u32 & 0x10 != 0
        && 0x20u32 & 0x20 != 0) by (bit_vector);
}

/// A size rounded up to whole blocks of 4096 bytes. The sum is taken as a 64-bit
/// number: a size that no block can end behind counts as none.
pub open spec fn in_blocks(size: u64) -> u64 {
    (((size + 4095) % 0x1_0000_0000_0000_0000) / 4096 * 4096) as u64
}

fn round_to_blocks(size: u64) -> (n: u64)
    ensures
        n == in_blocks(size),
{
    let sum: u64 = size.wrapping_add(4095);
    assert(sum == (size + 4095) % 0x1_0000_0000_0000_0000);
    sum / 4096 * 4096
}

/// The room that a response reports: none for a directory, what was asked for if
/// it was, otherwise what the file takes.
pub open spec fn response_allocation(attributes: u32, wanted: u64, metadata: Option<Metadata>) -> u64 {
    if attributes & FILE_ATTRIBUTE_DIRECTORY != 0 {
        0
    } else if wanted > 0 {
        in_blocks(wanted)
    } else {
        match metadata {
            Some(m) => in_blocks(m.size),
            None => 0,
        }
    }
}

pub fn compute_response_allocation(attributes: u32, wanted: u64, metadata: &Option<Metadata>) -> (n: u64)
    ensures
        n == response_allocation(attributes, wanted, *metadata),
{
    if attributes & FILE_ATTRIBUTE_DIRECTORY != 0 {
        0
    } else if wanted > 0 {
        round_to_blocks(wanted)
    } else {
        match metadata {
            Some(m) => round_to_blocks(m.size),
            None => 0,
        }
    }
}

/// The room that a response reports for a file holds its contents, in whole
/// blocks and with less than a block to spare.
pub proof fn law_allocation_holds_file(size: u64)
    requires
        size <= u64::MAX - 4095,
    ensures
        size <= in_blocks(size) < size + 4096,
        in_blocks(size) % 4096 == 0,
{
}

/// The four times of a file.
#[derive(Clone, Copy, Debug, PartialEq, Eq, Structural)]
pub struct FileTimes {
    pub creation: u64,
    pub last_access: u64,
    pub last_write: u64,
    pub change: u64,
}

impl FileTimes {
    /// Whether the clock can give all four times.
    pub open spec fn are_clock_times(self) -> bool {
        &&& time::is_clock_filetime(self.creation)
        &&& time::is_clock_filetime(self.last_access)
        &&& time::is_clock_filetime(self.last_write)
        &&& time::is_clock_filetime(self.change)
    }

    /// The present time for each of them, as FILETIMEs.
    pub fn now() -> (times: FileTimes)
        ensures
            times.are_clock_times(),
    {
        FileTimes {
            creation: current_filetime(),
            last_access: current_filetime(),
            last_write: current_filetime(),
            change: current_filetime(),
        }
    }
}

/// What a CREATE response holds besides its contexts.
#[derive(Clone, Copy, Debug)]
pub struct CreateReply {
    pub oplock_level: OplockLevel,
    pub create_action: u32,
    pub times: FileTimes,
    pub allocation_size: u64,
    pub end_of_file: u64,
    pub file_attributes: u32,
    pub handle_id: u128,
}

/// The body of a CREATE response. Where the contexts are is counted from the
/// start of the message; without contexts there is no place.
#[verifier::opaque]
pub open spec fn create_body(reply: CreateReply, contexts: Seq<u8>) -> Seq<u8> {
    let offset = if contexts.len() == 0 {
        0u32
    } else {
        152u32
    };
    codec::le16(89) + seq![reply.oplock_level.spec_as_u8(), 0u8] + codec::le32(reply.create_action)
        + codec::le64(reply.times.creation) + codec::le64(reply.times.last_access) + codec::le64(
        reply.times.last_write,
    ) + codec::le64(reply.times.change) + codec::le64(reply.allocation_size) + codec::le64(
        reply.end_of_file,
    ) + codec::le32(reply.file_attributes) + codec::le32(0) + codec::le64(
        common::persistent_half(reply.handle_id),
    ) + codec::le64(common::volatile_half(reply.handle_id)) + codec::le32(offset) + codec::le32(
        (contexts.len() % 0x1_0000_0000) as u32,
    ) + contexts
}

/// Builds a CREATE response.
pub fn build_create_response(header: &Smb2Header, reply: &CreateReply, contexts: &[u8], credits: u16) -> (message:
    Vec<u8>)
    ensures
        message@ == common::response(
            *header,
            NtStatus::Success,
            credits,
            create_body(*reply, contexts@),
        ),
{
    let offset: u32 = if contexts.len() == 0 {
        0
    } else {
        152
    };
    let (persistent, volatile) = common::file_id(reply.handle_id);
    let mut body: Vec<u8> = Vec::new();
    codec::put_u16(&mut body, 89);
    body.push(reply.oplock_level.as_u8());
    body.push(0);
    codec::put_u32(&mut body, reply.create_action);
    codec::put_u64(&mut body, reply.times.creation);
    codec::put_u64(&mut body, reply.times.last_access);
    codec::put_u64(&mut body, reply.times.last_write);
    codec::put_u64(&mut body, reply.times.change);
    codec::put_u64(&mut body, reply.allocation_size);
    codec::put_u64(&mut body, reply.end_of_file);
    codec::put_u32(&mut body, reply.file_attributes);
    codec::put_u32(&mut body, 0);
    codec::put_u64(&mut body, persistent);
    codec::put_u64(&mut body, volatile);
    codec::put_u32(&mut body, offset);
    codec::put_u32(&mut body, (contexts.len() as u64 % 0x1_0000_0000) as u32);
    codec::put_bytes(&mut body, contexts);
    assert(body@ =~= create_body(*reply, contexts@)) by {
        reveal(create_body);
    }
    common::build_response(header, NtStatus::Success, credits, body.as_slice())
}

/// The file id in a CREATE response leads back to the handle, and the contexts
/// stand where the response says.
#[verifier::rlimit(50)]
pub proof fn law_create_response_names_handle(reply: CreateReply, contexts: Seq<u8>)
    ensures
        common::spec_handle_id(
            codec::u64_at(create_body(reply, contexts), 64),
            codec::u64_at(create_body(reply, contexts), 72),
        ) == reply.handle_id,
        create_body(reply, contexts).len() == 88 + contexts.len(),
        contexts.len() > 0 ==> common::message_part(
            create_body(reply, contexts),
            152,
            contexts.len() as int,
        ) == contexts,
{
    reveal(create_body);
    let body = create_body(reply, contexts);
    let p = common::persistent_half(reply.handle_id);
    let v = common::volatile_half(reply.handle_id);
    assert(body.len() == 88 + contexts.len());
    assert(body.subrange(64, 72) =~= codec::le64(p));
    assert(body.subrange(72, 80) =~= codec::le64(v));
    codec::lemma_read_le64(body, 64, p);
    codec::lemma_read_le64(body, 72, v);
    common::law_file_id_round_trip(reply.handle_id);
    assert(body.subrange(88, 88 + contexts.len() as int) =~= contexts);
}

#[verifier::rlimit(60)]
proof fn lemma_response_start(reply: CreateReply, contexts: Seq<u8>)
    ensures
        create_body(reply, contexts).len() == 88 + contexts.len(),
        create_body(reply, contexts)[2] == reply.oplock_level.spec_as_u8(),
        codec::u16_at(create_body(reply, contexts), 0) == 89,
        codec::u32_at(create_body(reply, contexts), 4) == reply.create_action,
        codec::u64_at(create_body(reply, contexts), 8) == reply.times.creation,
        codec::u64_at(create_body(reply, contexts), 16) == reply.times.last_access,
{
    reveal(create_body);
    let body = create_body(reply, contexts);
    assert(codec::u16_at(body, 0) == 89) by {
        assert(body.subrange(0, 2) =~= codec::le16(89));
        codec::lemma_read_le16(body, 0, 89);
    }
    assert(codec::u32_at(body, 4) == reply.create_action) by {
        assert(body.subrange(4, 8) =~= codec::le32(reply.create_action));
        codec::lemma_read_le32(body, 4, reply.create_action);
    }
    assert(codec::u64_at(body, 8) == reply.times.creation) by {
        assert(body.subrange(8, 16) =~= codec::le64(reply.times.creation));
        codec::lemma_read_le64(body, 8, reply.times.creation);
    }
    assert(codec::u64_at(body, 16) == reply.times.last_access) by {
        assert(body.subrange(16, 24) =~= codec::le64(reply.times.last_access));
        codec::lemma_read_le64(body, 16, reply.times.last_access);
    }
}

#[verifier::rlimit(60)]
proof fn lemma_response_times(reply: CreateReply, contexts: Seq<u8>)
    ensures
        codec::u64_at(create_body(reply, contexts), 24) == reply.times.last_write,
        codec::u64_at(create_body(reply, contexts), 32) == reply.times.change,
{
    reveal(create_body);
    let body = create_body(reply, contexts);
    assert(codec::u64_at(body, 24) == reply.times.last_write) by {
        assert(body.subrange(24, 32) =~= codec::le64(reply.times.last_write));
        codec::lemma_read_le64(body, 24, reply.times.last_write);
    }
    assert(codec::u64_at(body, 32) == reply.times.change) by {
        assert(body.subrange(32, 40) =~= codec::le64(reply.times.change));
        codec::lemma_read_le64(body, 32, reply.times.change);
    }
}

#[verifier::rlimit(60)]
proof fn lemma_response_sizes(reply: CreateReply, contexts: Seq<u8>)
    ensures
        codec::u64_at(create_body(reply, contexts), 40) == reply.allocation_size,
        codec::u64_at(create_body(reply, contexts), 48) == reply.end_of_file,
{
    reveal(create_body);
    let body = create_body(reply, contexts);
    assert(codec::u64_at(body, 40) == reply.allocation_size) by {
        assert(body.subrange(40, 48) =~= codec::le64(reply.allocation_size));
        codec::lemma_read_le64(body, 40, reply.allocation_size);
    }
    assert(codec::u64_at(body, 48) == reply.end_of_file) by {
        assert(body.subrange(48, 56) =~= codec::le64(reply.end_of_file));
        codec::lemma_read_le64(body, 48, reply.end_of_file);
    }
}

#[verifier::rlimit(60)]
proof fn lemma_response_attributes(reply: CreateReply, contexts: Seq<u8>)
    ensures
        codec::u32_at(create_body(reply, contexts), 56) == reply.file_attributes,
{
    reveal(create_body);
    let body = create_body(reply, contexts);
    assert(body.subrange(56, 60) =~= codec::le32(reply.file_attributes));
    codec::lemma_read_le32(body, 56, reply.file_attributes);
}

#[verifier::rlimit(50)]
proof fn lemma_response_contexts(reply: CreateReply, contexts: Seq<u8>)
    requires
        contexts.len() <= u32::MAX,
    ensures
        codec::u32_at(create_body(reply, contexts), 80) == if contexts.len() == 0 {
            0u32
        } else {
            152u32
        },
        codec::u32_at(create_body(reply, contexts), 84) == contexts.len(),
{
    let front = lemma_response_front(reply, contexts);
    lemma_two_numbers(
        front,
        if contexts.len() == 0 {
            0u32
        } else {
            152u32
        },
        (contexts.len() % 0x1_0000_0000) as u32,
        contexts,
    );
}

#[verifier::rlimit(50)]
proof fn lemma_response_front(reply: CreateReply, contexts: Seq<u8>) -> (front: Seq<u8>)
    ensures
        front.len() == 80,
        create_body(reply, contexts) == front + codec::le32(
            if contexts.len() == 0 {
                0u32
            } else {
                152u32
            },
        ) + codec::le32((contexts.len() % 0x1_0000_0000) as u32) + contexts,
{
    reveal(create_body);
    let front = codec::le16(89) + seq![reply.oplock_level.spec_as_u8(), 0u8] + codec::le32(
        reply.create_action,
    ) + codec::le64(reply.times.creation) + codec::le64(reply.times.last_access) + codec::le64(
        reply.times.last_write,
    ) + codec::le64(reply.times.change) + codec::le64(reply.allocation_size) + codec::le64(
        reply.end_of_file,
    ) + codec::le32(reply.file_attributes) + codec::le32(0) + codec::le64(
        common::persistent_half(reply.handle_id),
    ) + codec::le64(common::volatile_half(reply.handle_id));
    assert(front.len() == 80);
    front
}

#[verifier::rlimit(50)]
proof fn lemma_two_numbers(front: Seq<u8>, a: u32, b: u32, rest: Seq<u8>)
    ensures
        codec::u32_at(front + codec::le32(a) + codec::le32(b) + rest, front.len() as int) == a,
        codec::u32_at(front + codec::le32(a) + codec::le32(b) + rest, front.len() as int + 4) == b,
{
    let body = front + codec::le32(a) + codec::le32(b) + rest;
    let n = front.len() as int;
    assert(body.subrange(n, n + 4) =~= codec::le32(a));
    codec::lemma_read_le32(body, n, a);
    assert(body.subrange(n + 4, n + 8) =~= codec::le32(b));
    codec::lemma_read_le32(body, n + 4, b);
}

/// Where a client finds what a CREATE response says about the file.
#[verifier::rlimit(50)]
pub proof fn law_create_response_layout(reply: CreateReply, contexts: Seq<u8>)
    requires
        contexts.len() <= u32::MAX,
    ensures
        ({
            let body = create_body(reply, contexts);
            &&& body.len() == 88 + contexts.len()
            &&& codec::u16_at(body, 0) == 89
            &&& body[2] == reply.oplock_level.spec_as_u8()
            &&& codec::u32_at(body, 4) == reply.create_action
            &&& codec::u64_at(body, 8) == reply.times.creation
            &&& codec::u64_at(body, 16) == reply.times.last_access
            &&& codec::u64_at(body, 24) == reply.times.last_write
            &&& codec::u64_at(body, 32) == reply.times.change
            &&& codec::u64_at(body, 40) == reply.allocation_size
            &&& codec::u64_at(body, 48) == reply.end_of_file
            &&& codec::u32_at(body, 56) == reply.file_attributes
            &&& codec::u32_at(body, 80) == if contexts.len() == 0 {
                0u32
            } else {
                152u32
            }
            &&& codec::u32_at(body, 84) == contexts.len()
        }),
{
    lemma_response_start(reply, contexts);
    lemma_response_times(reply, contexts);
    lemma_response_sizes(reply, contexts);
    lemma_response_attributes(reply, contexts);
    lemma_response_contexts(reply, contexts);
}

/// The contexts of a CREATE response stand in the message where it says; a
/// response without contexts names no place.
#[verifier::rlimit(50)]
pub proof fn law_create_response_holds_contexts(
    request: Smb2Header,
    credits: u16,
    reply: CreateReply,
    contexts: Seq<u8>,
)
    requires
        contexts.len() <= u32::MAX,
    ensures
        ({
            let m = common::response(
                request,
                NtStatus::Success,
                credits,
                create_body(reply, contexts),
            );
            let offset = codec::u32_at(m, 144);
            let length = codec::u32_at(m, 148);
            &&& length == contexts.len()
            &&& if contexts.len() == 0 {
                offset == 0
            } else {
                m.subrange(offset as int, offset + length) == contexts
            }
        }),
{
    let body = create_body(reply, contexts);
    let head = header::response_header(request, NtStatus::Success, credits).bytes();
    header::law_header_layout(header::response_header(request, NtStatus::Success, credits), body);
    law_create_response_layout(reply, contexts);
    law_create_response_names_handle(reply, contexts);
    codec::lemma_behind(head, body, 80);
    codec::lemma_behind(head, body, 84);
    codec::lemma_behind(head, body, 88);
    assert(body.subrange(88, 88 + contexts.len() as int) == (head + body).subrange(
        152,
        152 + contexts.len() as int,
    ));
}

/// When each action is reported: 0 if a file gave way to a new one, 3 if one
/// was emptied, 2 if one was made, and 1 in all other cases.
pub proof fn law_reported_action(disposition: u32, existed: bool)
    ensures
        create_action(disposition, existed) == 0 <==> disposition == 0 && existed,
        create_action(disposition, existed) == 3 <==> disposition == 4 || (disposition == 5
            && existed),
        create_action(disposition, existed) == 2 <==> disposition == 2 || ((disposition == 0
            || disposition == 3 || disposition == 5) && !existed),
        create_action(disposition, existed) <= 3,
{
}

/// What the attributes in a response say of the file. One that is there is
/// called a directory (bit 4) or a file to archive (bit 5) as the backend says,
/// and read-only (bit 0) if its owner may not write it. A new one has the
/// attributes that were asked for besides, and is a directory if it was to be
/// one.
pub proof fn law_attributes_describe_file(
    action: u32,
    requested: u32,
    create_options: u32,
    metadata: Option<Metadata>,
)
    ensures
        ({
            let attrs = response_attributes(action, requested, create_options, metadata);
            let directory = metadata matches Some(m) && m.file_type == FileType::Directory;
            if action == 2 {
                &&& attrs & 0x10 != 0 <==> directory || create_options & 1 != 0 || requested & 0x10
                    != 0
                &&& attrs & 0x10 == 0 ==> attrs & 0x20 != 0
                &&& attrs & 0xFFFF_FF4F == requested & 0xFFFF_FF4F
            } else {
                &&& attrs & 0x10 != 0 <==> directory
                &&& attrs & 0x20 != 0 <==> !directory
                &&& attrs & 0x01 != 0 <==> (metadata matches Some(m) && m.mode & 0o200 == 0)
                &&& attrs & !0x31u32 == 0
            }
        }),
{
    assert(0o200u32 == 0x80u32);
    let kept = requested & !0x80u32;
    assert(kept & 0x10 != 0 <==> requested & 0x10 != 0) by (bit_vector)
        requires
            kept == requested & !0x80u32,
    ;
    assert((kept | 0x10) & 0x10 != 0 && (kept | 0x10) & 0xFFFF_FF4F == requested & 0xFFFF_FF4F && (
    kept | 0x20) & 0x20 != 0 && ((kept | 0x20) & 0x10 != 0 <==> kept & 0x10 != 0) && (kept & 0x10
        == 0 ==> (kept | 0x20) & 0xFFFF_FF4F == requested & 0xFFFF_FF4F)) by (bit_vector)
        requires
            kept == requested & !0x80u32,
    ;
    assert(0x10u32 & 0x10 != 0 && 0x10u32 & 0x20 == 0 && 0x10u32 & 0x01 == 0 && 0x20u32 & 0x10 == 0
        && 0x20u32 & 0x20 != 0 && 0x20u32 & 0x01 == 0 && (0x10u32 | 0x01) & 0x10 != 0 && (0x10u32
        | 0x01) & 0x20 == 0 && (0x10u32 | 0x01) & 0x01 != 0 && (0x20u32 | 0x01) & 0x10 == 0 && (
    0x20u32 | 0x01) & 0x20 != 0 && (0x20u32 | 0x01) & 0x01 != 0 && 0x10u32 & !0x31u32 == 0
        && 0x20u32 & !0x31u32 == 0 && (0x10u32 | 0x01) & !0x31u32 == 0 && (0x20u32 | 0x01)
        & !0x31u32 == 0) by (bit_vector);
}

/// The room that a response reports: none for a directory (bit 4); for a file
/// as many whole blocks of 4096 bytes as hold what was asked for, or else the
/// file, and not one more.
pub proof fn law_reported_room(attributes: u32, wanted: u64, metadata: Option<Metadata>)
    requires
        wanted <= u64::MAX - 4095,
        metadata matches Some(m) ==> m.size <= u64::MAX - 4095,
    ensures
        ({
            let room = response_allocation(attributes, wanted, metadata);
            let held = if wanted > 0 {
                wanted
            } else {
                match metadata {
                    Some(m) => m.size,
                    None => 0,
                }
            };
            &&& room % 4096 == 0
            &&& attributes & 0x10 != 0 ==> room == 0
            &&& attributes & 0x10 == 0 ==> held <= room < held + 4096
        }),
{
}

/// The file id of the handle stands at 64 of the body of a CREATE response.
#[verifier::rlimit(50)]
pub proof fn law_create_response_holds_file_id(reply: CreateReply, contexts: Seq<u8>)
    ensures
        common::is_file_id_at(create_body(reply, contexts), 64, reply.handle_id),
{
    law_create_response_names_handle(reply, contexts);
    common::lemma_file_id_at(create_body(reply, contexts), 64);
}

} // verus!
