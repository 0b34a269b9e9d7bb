//! Buffers for QUERY_INFO and QUERY_DIRECTORY responses.

use vstd::prelude::*;

use crate::codec;
use crate::helpers::strings;
use crate::helpers::time;
use crate::helpers::time::current_filetime;
use crate::storage::{
    DirEntry, FileType, FsStats, Metadata, FILE_ATTRIBUTE_ARCHIVE, FILE_ATTRIBUTE_DIRECTORY,
    FILE_ATTRIBUTE_READONLY, MODE_ALL_WRITE,
};

verus! {

pub const FILE_BASIC_INFO_SIZE: u32 = 40;

pub const FILE_STANDARD_INFO_SIZE: u32 = 24;

pub const FILE_INTERNAL_INFO_SIZE: u32 = 8;

pub const FILE_EA_INFO_SIZE: u32 = 4;

pub const FILE_ACCESS_INFO_SIZE: u32 = 4;

pub const FILE_POSITION_INFO_SIZE: u32 = 8;

pub const FILE_MODE_INFO_SIZE: u32 = 4;

pub const FILE_ALIGNMENT_INFO_SIZE: u32 = 4;

/// The fixed part of FileAllInformation; the file's name comes on top.
pub const FILE_ALL_INFO_MIN_SIZE: u32 = 96;

pub const FILE_NETWORK_OPEN_INFO_SIZE: u32 = 56;

/// The fixed part of FileFsVolumeInformation; the label comes on top.
pub const FS_VOLUME_INFO_MIN_SIZE: u32 = 18;

pub const FS_SIZE_INFO_SIZE: u32 = 24;

pub const FS_DEVICE_INFO_SIZE: u32 = 8;

/// The fixed part of FileFsAttributeInformation; the name comes on top.
pub const FS_ATTRIBUTE_INFO_MIN_SIZE: u32 = 12;

pub const FS_FULL_SIZE_INFO_SIZE: u32 = 32;

/// The smallest buffer that a file information class needs; zero for a class
/// that is not known.
pub open spec fn spec_file_info_min_size(info_class: u8) -> u32 {
    match info_class {
        4 => FILE_BASIC_INFO_SIZE,
        5 => FILE_STANDARD_INFO_SIZE,
        6 => FILE_INTERNAL_INFO_SIZE,
        7 => FILE_EA_INFO_SIZE,
        8 => FILE_ACCESS_INFO_SIZE,
        14 => FILE_POSITION_INFO_SIZE,
        16 => FILE_MODE_INFO_SIZE,
        17 => FILE_ALIGNMENT_INFO_SIZE,
        18 => FILE_ALL_INFO_MIN_SIZE,
        34 => FILE_NETWORK_OPEN_INFO_SIZE,
        _ => 0,
    }
}

pub fn file_info_min_size(info_class: u8) -> (n: u32)
    ensures
        n == spec_file_info_min_size(info_class),
{
    match info_class {
        4 => FILE_BASIC_INFO_SIZE,
        5 => FILE_STANDARD_INFO_SIZE,
        6 => FILE_INTERNAL_INFO_SIZE,
        7 => FILE_EA_INFO_SIZE,
        8 => FILE_ACCESS_INFO_SIZE,
        14 => FILE_POSITION_INFO_SIZE,
        16 => FILE_MODE_INFO_SIZE,
        17 => FILE_ALIGNMENT_INFO_SIZE,
        18 => FILE_ALL_INFO_MIN_SIZE,
        34 => FILE_NETWORK_OPEN_INFO_SIZE,
        _ => 0,
    }
}

/// The smallest buffer that a volume information class needs; zero for a class
/// that is not known.
pub open spec fn spec_fs_info_min_size(info_class: u8) -> u32 {
    match info_class {
        1 => FS_VOLUME_INFO_MIN_SIZE,
        3 => FS_SIZE_INFO_SIZE,
        4 => FS_DEVICE_INFO_SIZE,
        5 => FS_ATTRIBUTE_INFO_MIN_SIZE,
        7 => FS_FULL_SIZE_INFO_SIZE,
        _ => 0,
    }
}

pub fn fs_info_min_size(info_class: u8) -> (n: u32)
    ensures
        n == spec_fs_info_min_size(info_class),
{
    match info_class {
        1 => FS_VOLUME_INFO_MIN_SIZE,
        3 => FS_SIZE_INFO_SIZE,
        4 => FS_DEVICE_INFO_SIZE,
        5 => FS_ATTRIBUTE_INFO_MIN_SIZE,
        7 => FS_FULL_SIZE_INFO_SIZE,
        _ => 0,
    }
}

/// The attributes of a file: directory or archive, and read-only if nobody may
/// write it.
pub open spec fn attributes_of(metadata: Metadata) -> u32 {
    let kind = if metadata.file_type == FileType::Directory {
        FILE_ATTRIBUTE_DIRECTORY
    } else {
        FILE_ATTRIBUTE_ARCHIVE
    };
    if metadata.mode & MODE_ALL_WRITE == 0 {
        kind | FILE_ATTRIBUTE_READONLY
    } else {
        kind
    }
}

pub fn file_attributes_from_metadata(metadata: &Metadata) -> (attrs: u32)
    ensures
        attrs == attributes_of(*metadata),
{
    let kind: u32 = if metadata.file_type == FileType::Directory {
        FILE_ATTRIBUTE_DIRECTORY
    } else {
        FILE_ATTRIBUTE_ARCHIVE
    };
    if metadata.mode & MODE_ALL_WRITE == 0 {
        kind | FILE_ATTRIBUTE_READONLY
    } else {
        kind
    }
}

/// The four timestamps of a file, all set to `now`.
pub open spec fn timestamps(now: u64) -> Seq<u8> {
    codec::le64(now) + codec::le64(now) + codec::le64(now) + codec::le64(now)
}

fn put_timestamps(buf: &mut Vec<u8>, now: u64)
    ensures
        final(buf)@ == old(buf)@ + timestamps(now),
{
    codec::put_u64(buf, now);
    codec::put_u64(buf, now);
    codec::put_u64(buf, now);
    codec::put_u64(buf, now);
    assert(buf@ =~= old(buf)@ + timestamps(now));
}

/// The number rounded up to a multiple of eight.
pub open spec fn align8(n: int) -> int {
    (n + 7) / 8 * 8
}

/// What stands in a directory entry before the name, which takes `name_len`
/// bytes.
#[verifier::opaque]
pub open spec fn entry_head(metadata: Metadata, now: u64, next: int, name_len: int) -> Seq<u8> {
    codec::le32((next % 0x1_0000_0000) as u32) + codec::le32(0) + timestamps(now) + codec::le64(
        metadata.size,
    ) + codec::le64(metadata.size) + codec::le32(attributes_of(metadata)) + codec::le32(
        (name_len % 0x1_0000_0000) as u32,
    ) + codec::le32(0) + codec::zeros(26)
}

fn put_entry_head(buf: &mut Vec<u8>, metadata: &Metadata, now: u64, next: usize, name_len: usize)
    ensures
        final(buf)@ == old(buf)@ + entry_head(*metadata, now, next as int, name_len as int),
{
    codec::put_u32(buf, (next as u64 % 0x1_0000_0000) as u32);
    codec::put_u32(buf, 0);
    put_timestamps(buf, now);
    codec::put_u64(buf, metadata.size);
    codec::put_u64(buf, metadata.size);
    codec::put_u32(buf, file_attributes_from_metadata(metadata));
    codec::put_u32(buf, (name_len as u64 % 0x1_0000_0000) as u32);
    codec::put_u32(buf, 0);
    codec::put_zeros(buf, 26);
    assert(buf@ =~= old(buf)@ + entry_head(*metadata, now, next as int, name_len as int)) by {
        reveal(entry_head);
    }
}

/// One directory entry. `next` is the distance to the next one, zero for the
/// last; the space up to the next one is filled with zeros.
pub open spec fn directory_entry(name: Seq<char>, metadata: Metadata, now: u64, next: int) -> Seq<u8> {
    let name_bytes = strings::utf16_bytes(strings::utf16_encode(name));
    let padding = if next > 0 {
        next - 94 - name_bytes.len()
    } else {
        0
    };
    entry_head(metadata, now, next, name_bytes.len() as int) + name_bytes + codec::zeros(
        padding as nat,
    )
}

/// The entries of a directory from position `i` on.
pub open spec fn directory_info(entries: Seq<DirEntry>, i: int, now: u64) -> Seq<u8>
    decreases entries.len() - i,
{
    if i < 0 || i >= entries.len() {
        Seq::empty()
    } else {
        let next = if i < entries.len() - 1 {
            align8(94 + 2 * strings::utf16_encode(entries[i].name@).len() as int)
        } else {
            0
        };
        directory_entry(entries[i].name@, entries[i].metadata, now, next) + directory_info(
            entries,
            i + 1,
            now,
        )
    }
}

/// Whether the name of an entry, with the fixed part of the entry and padding,
/// has a length that a machine word can hold.
pub open spec fn name_fits(name: Seq<char>) -> bool {
    2 * strings::utf16_encode(name).len() + 94 + 7 <= usize::MAX
}

fn put_directory_entry(buf: &mut Vec<u8>, entry: &DirEntry, now: u64, last: bool)
    requires
        name_fits(entry.name@),
    ensures
        final(buf)@ == old(buf)@ + directory_entry(
            entry.name@,
            entry.metadata,
            now,
            if last {
                0
            } else {
                align8(94 + 2 * strings::utf16_encode(entry.name@).len() as int)
            },
        ),
{
    let ghost start = buf@;
    let name_len: usize = strings::utf16_len(entry.name.as_str());
    let entry_size: usize = 94 + name_len;
    let next: usize = if last {
        0
    } else {
        (entry_size + 7) / 8 * 8
    };
    put_entry_head(buf, &entry.metadata, now, next, name_len);
    let _ = strings::put_utf16(buf, entry.name.as_str());
    let padding: usize = if next > 0 {
        next - entry_size
    } else {
        0
    };
    codec::put_zeros(buf, padding);
    assert(buf@ =~= start + directory_entry(entry.name@, entry.metadata, now, next as int));
}

/// The entries of a directory, each dated `now`.
pub fn directory_info_at(entries: &[DirEntry], now: u64) -> (buf: Vec<u8>)
    requires
        forall|i: int| 0 <= i < entries@.len() ==> name_fits(#[trigger] entries@[i].name@),
    ensures
        buf@ == directory_info(entries@, 0, now),
{
    let mut buf: Vec<u8> = Vec::new();
    let mut i: usize = 0;
    while i < entries.len()
        invariant
            i <= entries@.len(),
            forall|k: int| 0 <= k < entries@.len() ==> name_fits(#[trigger] entries@[k].name@),
            buf@ + directory_info(entries@, i as int, now) == directory_info(entries@, 0, now),
        decreases entries@.len() - i,
    {
        let ghost before = buf@;
        let ghost rest = directory_info(entries@, i + 1, now);
        let last = i == entries.len() - 1;
        put_directory_entry(&mut buf, &entries[i], now, last);
        assert(buf@ + rest =~= before + directory_info(entries@, i as int, now));
        i = i + 1;
    }
    assert(buf@ =~= buf@ + directory_info(entries@, i as int, now));
    buf
}

/// Builds the buffer of a directory listing.
pub fn build_directory_info(entries: &[DirEntry]) -> (buf: Vec<u8>)
    requires
        forall|i: int| 0 <= i < entries@.len() ==> name_fits(#[trigger] entries@[i].name@),
    ensures
        exists|now: u64|
            time::is_clock_filetime(now) && buf@ == #[trigger] directory_info(entries@, 0, now),
{
    directory_info_at(entries, current_filetime())
}

/// The space that a file takes: the wanted size, if one is given that is not
/// zero, but no less than the file's size; otherwise what its blocks take, or
/// its size if it has none.
pub open spec fn allocation_size(metadata: Metadata, wanted: Option<u64>) -> u64 {
    match wanted {
        Some(size) if size > 0 => if size >= metadata.size {
            size
        } else {
            metadata.size
        },
        _ => if metadata.blocks == 0 {
            metadata.size
        } else if metadata.blocks * 512 <= u64::MAX {
            (metadata.blocks * 512) as u64
        } else {
            u64::MAX
        },
    }
}

fn compute_allocation_size(metadata: &Metadata, wanted: Option<u64>) -> (size: u64)
    ensures
        size == allocation_size(*metadata, wanted),
{
    if let Some(size) = wanted {
        if size > 0 {
            return if size >= metadata.size {
                size
            } else {
                metadata.size
            };
        }
    }
    if metadata.blocks == 0 {
        metadata.size
    } else if metadata.blocks <= u64::MAX / 512 {
        metadata.blocks * 512
    } else {
        u64::MAX
    }
}

/// FileBasicInformation.
pub open spec fn basic_info(metadata: Metadata, now: u64) -> Seq<u8> {
    timestamps(now) + codec::le32(attributes_of(metadata)) + codec::le32(0)
}

fn put_basic_info(buf: &mut Vec<u8>, metadata: &Metadata, now: u64)
    ensures
        final(buf)@ == old(buf)@ + basic_info(*metadata, now),
{
    put_timestamps(buf, now);
    codec::put_u32(buf, file_attributes_from_metadata(metadata));
    codec::put_u32(buf, 0);
    assert(buf@ =~= old(buf)@ + basic_info(*metadata, now));
}

/// FileStandardInformation: sizes, one link, not to be deleted, and whether the
/// file is a directory.
pub open spec fn standard_info(metadata: Metadata, wanted: Option<u64>) -> Seq<u8> {
    let directory: u8 = if metadata.file_type == FileType::Directory {
        1
    } else {
        0
    };
    codec::le64(allocation_size(metadata, wanted)) + codec::le64(metadata.size) + codec::le32(1)
        + seq![0u8, directory] + codec::zeros(2)
}

fn put_standard_info(buf: &mut Vec<u8>, metadata: &Metadata, wanted: Option<u64>)
    ensures
        final(buf)@ == old(buf)@ + standard_info(*metadata, wanted),
{
    codec::put_u64(buf, compute_allocation_size(metadata, wanted));
    codec::put_u64(buf, metadata.size);
    codec::put_u32(buf, 1);
    buf.push(0);
    buf.push(
        if metadata.file_type == FileType::Directory {
            1
        } else {
            0
        },
    );
    codec::put_zeros(buf, 2);
    assert(buf@ =~= old(buf)@ + standard_info(*metadata, wanted));
}

/// The value, or another one where there is none.
pub open spec fn or_else<T>(value: Option<T>, other: T) -> T {
    match value {
        Some(v) => v,
        None => other,
    }
}

/// All access rights to a file.
pub const FULL_ACCESS: u32 = 0x1F01FF;

/// The buffer of a file information class. A class that is not served gives
/// eight zero bytes.
pub open spec fn file_info(
    metadata: Metadata,
    info_class: u8,
    position: Option<u64>,
    access_mask: Option<u32>,
    wanted_size: Option<u64>,
    now: u64,
) -> Seq<u8> {
    match info_class {
        4 => basic_info(metadata, now),
        5 => standard_info(metadata, wanted_size),
        8 => codec::le32(or_else(access_mask, FULL_ACCESS)),
        14 => codec::le64(or_else(position, 0)),
        18 => basic_info(metadata, now) + standard_info(metadata, wanted_size) + codec::zeros(16)
            + codec::le64(or_else(position, 0)) + codec::zeros(12),
        _ => codec::zeros(8),
    }
}

/// The buffer of a file information class, with timestamps `now`.
pub fn file_info_at(
    metadata: &Metadata,
    info_class: u8,
    position: Option<u64>,
    access_mask: Option<u32>,
    allocation_size_override: Option<u64>,
    now: u64,
) -> (buf: Vec<u8>)
    ensures
        buf@ == file_info(
            *metadata,
            info_class,
            position,
            access_mask,
            allocation_size_override,
            now,
        ),
{
    let mut buf: Vec<u8> = Vec::new();
    match info_class {
        4 => {
            put_basic_info(&mut buf, metadata, now);
        },
        5 => {
            put_standard_info(&mut buf, metadata, allocation_size_override);
        },
        18 => {
            put_basic_info(&mut buf, metadata, now);
            put_standard_info(&mut buf, metadata, allocation_size_override);
            codec::put_zeros(&mut buf, 16);
            codec::put_u64(&mut buf, position.unwrap_or(0));
            codec::put_zeros(&mut buf, 12);
        },
        8 => {
            codec::put_u32(&mut buf, access_mask.unwrap_or(FULL_ACCESS));
        },
        14 => {
            codec::put_u64(&mut buf, position.unwrap_or(0));
        },
        _ => {
            codec::put_zeros(&mut buf, 8);
        },
    }
    assert(buf@ =~= file_info(
        *metadata,
        info_class,
        position,
        access_mask,
        allocation_size_override,
        now,
    ));
    buf
}

/// Builds the buffer of a file information class.
pub fn build_file_info(
    metadata: &Metadata,
    info_class: u8,
    position: Option<u64>,
    access_mask: Option<u32>,
    allocation_size_override: Option<u64>,
) -> (buf: Vec<u8>)
    ensures
        exists|now: u64|
            time::is_clock_filetime(now) && buf@ == #[trigger] file_info(
                *metadata,
                info_class,
                position,
                access_mask,
                allocation_size_override,
                now,
            ),
{
    file_info_at(
        metadata,
        info_class,
        position,
        access_mask,
        allocation_size_override,
        current_filetime(),
    )
}

/// The buffer of a volume information class. A class that is not served gives
/// eight zero bytes.
pub open spec fn fs_info(stats: FsStats, info_class: u8, now: u64) -> Seq<u8> {
    match info_class {
        1 => codec::le64(now) + codec::le32((stats.fsid % 0x1_0000_0000) as u32) + codec::le32(14)
            + codec::zeros(2) + strings::utf16_bytes(strings::utf16_encode("RustSMB"@)),
        3 => codec::le64(stats.blocks) + codec::le64(stats.blocks_available) + codec::le32(1)
            + codec::le32(stats.block_size),
        4 => codec::le32(0x07) + codec::le32(0x20),
        5 => codec::le32(0x03) + codec::le32(255) + codec::le32(8) + strings::utf16_bytes(
            strings::utf16_encode("NTFS"@),
        ),
        7 => codec::le64(stats.blocks) + codec::le64(stats.blocks_available) + codec::le64(
            stats.blocks_free,
        ) + codec::le32(1) + codec::le32(stats.block_size),
        _ => codec::zeros(8),
    }
}

proof fn lemma_label_lengths()
    ensures
        strings::utf16_encode("RustSMB"@).len() == 7,
        strings::utf16_encode("NTFS"@).len() == 4,
{
    reveal_strlit("RustSMB");
    reveal_strlit("NTFS");
    lemma_ascii_length("RustSMB"@);
    lemma_ascii_length("NTFS"@);
}

proof fn lemma_ascii_length(text: Seq<char>)
    requires
        forall|i: int| 0 <= i < text.len() ==> (#[trigger] text[i] as int) < 0x80,
    ensures
        strings::utf16_encode(text).len() == text.len(),
    decreases text.len(),
{
    if text.len() > 0 {
        let rest = text.skip(1);
        assert forall|i: int| 0 <= i < rest.len() implies (#[trigger] rest[i] as int) < 0x80 by {
            assert((text[i + 1] as int) < 0x80);
        }
        lemma_ascii_length(rest);
    }
}

/// The buffer of a volume information class, for a volume made at `now`.
pub fn fs_info_at(fs_stats: &FsStats, info_class: u8, now: u64) -> (buf: Vec<u8>)
    ensures
        buf@ == fs_info(*fs_stats, info_class, now),
{
    let mut buf: Vec<u8> = Vec::new();
    proof {
        lemma_label_lengths();
    }
    match info_class {
        1 => {
            codec::put_u64(&mut buf, now);
            codec::put_u32(&mut buf, (fs_stats.fsid % 0x1_0000_0000) as u32);
            codec::put_u32(&mut buf, 14);
            codec::put_zeros(&mut buf, 2);
            let _ = strings::put_utf16(&mut buf, "RustSMB");
        },
        3 => {
            codec::put_u64(&mut buf, fs_stats.blocks);
            codec::put_u64(&mut buf, fs_stats.blocks_available);
            codec::put_u32(&mut buf, 1);
            codec::put_u32(&mut buf, fs_stats.block_size);
        },
        4 => {
            codec::put_u32(&mut buf, 0x07);
            codec::put_u32(&mut buf, 0x20);
        },
        5 => {
            codec::put_u32(&mut buf, 0x03);
            codec::put_u32(&mut buf, 255);
            codec::put_u32(&mut buf, 8);
            let _ = strings::put_utf16(&mut buf, "NTFS");
        },
        7 => {
            codec::put_u64(&mut buf, fs_stats.blocks);
            codec::put_u64(&mut buf, fs_stats.blocks_available);
            codec::put_u64(&mut buf, fs_stats.blocks_free);
            codec::put_u32(&mut buf, 1);
            codec::put_u32(&mut buf, fs_stats.block_size);
        },
        _ => {
            codec::put_zeros(&mut buf, 8);
        },
    }
    assert(buf@ =~= fs_info(*fs_stats, info_class, now));
    buf
}

/// Builds the buffer of a volume information class.
pub fn build_fs_info(fs_stats: &FsStats, info_class: u8) -> (buf: Vec<u8>)
    ensures
        exists|now: u64|
            time::is_clock_filetime(now) && buf@ == #[trigger] fs_info(*fs_stats, info_class, now),
{
    fs_info_at(fs_stats, info_class, current_filetime())
}

/// Asks for the access control list of a file.
pub const DACL_SECURITY_INFORMATION: u32 = 0x04;

/// A security descriptor with no owner and no group: with an empty access
/// control list behind it if that was asked for, otherwise alone.
pub open spec fn security_info(additional_info: u32) -> Seq<u8> {
    let head = seq![1u8, 0u8] + codec::le16(0x8004) + codec::zeros(12);
    if additional_info & DACL_SECURITY_INFORMATION != 0 {
        head + codec::le32(20) + seq![2u8, 0u8] + codec::le16(8) + codec::zeros(4)
    } else {
        head + codec::le32(0)
    }
}

/// Builds a security descriptor.
pub fn build_security_info(additional_info: u32) -> (buf: Vec<u8>)
    ensures
        buf@ == security_info(additional_info),
{
    let mut buf: Vec<u8> = Vec::new();
    buf.push(1);
    buf.push(0);
    codec::put_u16(&mut buf, 0x8004);
    codec::put_zeros(&mut buf, 12);
    if additional_info & DACL_SECURITY_INFORMATION != 0 {
        codec::put_u32(&mut buf, 20);
        buf.push(2);
        buf.push(0);
        codec::put_u16(&mut buf, 8);
        codec::put_zeros(&mut buf, 4);
    } else {
        codec::put_u32(&mut buf, 0);
    }
    assert(buf@ =~= security_info(additional_info));
    buf
}

/// A file information buffer is at least as long as its class demands.
pub proof fn law_file_info_min_size(
    metadata: Metadata,
    info_class: u8,
    position: Option<u64>,
    access_mask: Option<u32>,
    wanted_size: Option<u64>,
    now: u64,
)
    requires
        info_class == 4 || info_class == 5 || info_class == 8 || info_class == 14 || info_class
            == 18,
    ensures
        file_info(metadata, info_class, position, access_mask, wanted_size, now).len()
            >= spec_file_info_min_size(info_class),
        info_class != 18 ==> file_info(
            metadata,
            info_class,
            position,
            access_mask,
            wanted_size,
            now,
        ).len() == spec_file_info_min_size(info_class),
{
}

/// A volume information buffer is at least as long as its class demands.
pub proof fn law_fs_info_min_size(stats: FsStats, info_class: u8, now: u64)
    ensures
        fs_info(stats, info_class, now).len() >= spec_fs_info_min_size(info_class),
{
    lemma_label_lengths();
}

#[verifier::rlimit(50)]
proof fn lemma_standard_info(metadata: Metadata, wanted: Option<u64>)
    ensures
        ({
            let info = standard_info(metadata, wanted);
            &&& info.len() == 24
            &&& codec::u64_at(info, 0) == allocation_size(metadata, wanted)
            &&& codec::u64_at(info, 8) == metadata.size
            &&& codec::u32_at(info, 16) == 1
            &&& info[20] == 0
            &&& info[21] == if metadata.file_type == FileType::Directory {
                1u8
            } else {
                0u8
            }
        }),
{
    let info = standard_info(metadata, wanted);
    let room = allocation_size(metadata, wanted);
    assert(info.subrange(0, 8) =~= codec::le64(room));
    codec::lemma_read_le64(info, 0, room);
    assert(info.subrange(8, 16) =~= codec::le64(metadata.size));
    codec::lemma_read_le64(info, 8, metadata.size);
    assert(info.subrange(16, 20) =~= codec::le32(1));
    codec::lemma_read_le32(info, 16, 1);
}

#[verifier::rlimit(50)]
proof fn lemma_basic_info(metadata: Metadata, now: u64)
    ensures
        ({
            let info = basic_info(metadata, now);
            &&& info.len() == 40
            &&& codec::u64_at(info, 0) == now
            &&& codec::u64_at(info, 8) == now
            &&& codec::u64_at(info, 16) == now
            &&& codec::u64_at(info, 24) == now
            &&& codec::u32_at(info, 32) == attributes_of(metadata)
        }),
{
    let info = basic_info(metadata, now);
    assert(info.subrange(0, 8) =~= codec::le64(now));
    codec::lemma_read_le64(info, 0, now);
    assert(info.subrange(8, 16) =~= codec::le64(now));
    codec::lemma_read_le64(info, 8, now);
    assert(info.subrange(16, 24) =~= codec::le64(now));
    codec::lemma_read_le64(info, 16, now);
    assert(info.subrange(24, 32) =~= codec::le64(now));
    codec::lemma_read_le64(info, 24, now);
    assert(info.subrange(32, 36) =~= codec::le32(attributes_of(metadata)));
    codec::lemma_read_le32(info, 32, attributes_of(metadata));
}

/// The end of a file is its size, wherever a client reads it: at 8 of the
/// standard information (class 5) and at 48 of all information (class 18). The
/// room that the file takes stands before it, and behind it that the file has
/// one link, is not to be deleted, and whether it is a directory.
pub proof fn law_end_of_file_is_size(
    metadata: Metadata,
    position: Option<u64>,
    access_mask: Option<u32>,
    wanted: Option<u64>,
    now: u64,
)
    ensures
        ({
            let standard = file_info(metadata, 5, position, access_mask, wanted, now);
            let directory = if metadata.file_type == FileType::Directory {
                1u8
            } else {
                0u8
            };
            &&& standard.len() == 24
            &&& codec::u64_at(standard, 0) == allocation_size(metadata, wanted)
            &&& codec::u64_at(standard, 8) == metadata.size
            &&& codec::u32_at(standard, 16) == 1
            &&& standard[20] == 0 && standard[21] == directory
        }),
        ({
            let all = file_info(metadata, 18, position, access_mask, wanted, now);
            let directory = if metadata.file_type == FileType::Directory {
                1u8
            } else {
                0u8
            };
            &&& all.len() == 100
            &&& codec::u64_at(all, 40) == allocation_size(metadata, wanted)
            &&& codec::u64_at(all, 48) == metadata.size
            &&& codec::u32_at(all, 56) == 1
            &&& all[60] == 0 && all[61] == directory
        }),
{
    let basic = basic_info(metadata, now);
    let standard = standard_info(metadata, wanted);
    lemma_standard_info(metadata, wanted);
    lemma_basic_info(metadata, now);
    lemma_all_info(basic, standard, position);
}

#[verifier::rlimit(50)]
proof fn lemma_all_info(basic: Seq<u8>, standard: Seq<u8>, position: Option<u64>)
    requires
        basic.len() == 40,
        standard.len() == 24,
    ensures
        ({
            let all = basic + standard + codec::zeros(16) + codec::le64(or_else(position, 0))
                + codec::zeros(12);
            &&& all.len() == 100
            &&& forall|k: int| 0 <= k < 40 ==> #[trigger] all[k] == basic[k]
            &&& forall|k: int| 0 <= k < 24 ==> all[40 + k] == #[trigger] standard[k]
            &&& codec::u64_at(all, 0) == codec::u64_at(basic, 0)
            &&& codec::u64_at(all, 8) == codec::u64_at(basic, 8)
            &&& codec::u64_at(all, 16) == codec::u64_at(basic, 16)
            &&& codec::u64_at(all, 24) == codec::u64_at(basic, 24)
            &&& codec::u32_at(all, 32) == codec::u32_at(basic, 32)
            &&& codec::u64_at(all, 40) == codec::u64_at(standard, 0)
            &&& codec::u64_at(all, 48) == codec::u64_at(standard, 8)
            &&& codec::u32_at(all, 56) == codec::u32_at(standard, 16)
            &&& all[60] == standard[20] && all[61] == standard[21]
            &&& codec::u64_at(all, 80) == or_else(position, 0)
        }),
{
    let all = basic + standard + codec::zeros(16) + codec::le64(or_else(position, 0))
        + codec::zeros(12);
    assert(all.subrange(0, 40) =~= basic.subrange(0, 40));
    assert(all.subrange(40, 64) =~= standard.subrange(0, 24));
    codec::lemma_same_bytes(all, 0, basic, 0, 40);
    codec::lemma_same_bytes(all, 40, standard, 0, 24);
    assert(all.subrange(16, 40) =~= basic.subrange(16, 40));
    codec::lemma_same_bytes(all, 16, basic, 16, 24);
    assert(all.subrange(32, 36) =~= basic.subrange(32, 36));
    codec::lemma_same_bytes(all, 32, basic, 32, 4);
    assert(all.subrange(56, 60) =~= standard.subrange(16, 20));
    codec::lemma_same_bytes(all, 56, standard, 16, 4);
    assert(all[60] == standard[20] && all[61] == standard[21]);
    assert(all.subrange(80, 88) =~= codec::le64(or_else(position, 0)));
    codec::lemma_read_le64(all, 80, or_else(position, 0));
}

/// The four times of a file and its attributes stand at 0, 8, 16, 24 and 32 of
/// the basic information (class 4) and of all information (class 18).
pub proof fn law_basic_information(
    metadata: Metadata,
    position: Option<u64>,
    access_mask: Option<u32>,
    wanted: Option<u64>,
    now: u64,
)
    ensures
        ({
            let basic = file_info(metadata, 4, position, access_mask, wanted, now);
            &&& basic.len() == 40
            &&& codec::u64_at(basic, 0) == now && codec::u64_at(basic, 8) == now
            &&& codec::u64_at(basic, 16) == now && codec::u64_at(basic, 24) == now
            &&& codec::u32_at(basic, 32) == attributes_of(metadata)
        }),
        ({
            let all = file_info(metadata, 18, position, access_mask, wanted, now);
            &&& codec::u64_at(all, 0) == now && codec::u64_at(all, 8) == now
            &&& codec::u64_at(all, 16) == now && codec::u64_at(all, 24) == now
            &&& codec::u32_at(all, 32) == attributes_of(metadata)
        }),
{
    lemma_standard_info(metadata, wanted);
    lemma_basic_info(metadata, now);
    lemma_all_info(basic_info(metadata, now), standard_info(metadata, wanted), position);
}

/// The position of a handle (class 14, and at 80 of class 18) and its rights
/// (class 8) are told as they are; where none is given, the start of the file
/// and all rights to it.
pub proof fn law_position_and_rights_are_told(
    metadata: Metadata,
    position: u64,
    access_mask: u32,
    other: Option<u32>,
    wanted: Option<u64>,
    now: u64,
)
    ensures
        codec::u64_at(file_info(metadata, 14, Some(position), other, wanted, now), 0) == position,
        codec::u64_at(file_info(metadata, 14, None, other, wanted, now), 0) == 0,
        codec::u64_at(file_info(metadata, 18, Some(position), other, wanted, now), 80) == position,
        codec::u32_at(file_info(metadata, 8, Some(position), Some(access_mask), wanted, now), 0)
            == access_mask,
        codec::u32_at(file_info(metadata, 8, Some(position), None, wanted, now), 0) == 0x1F_01FF,
{
    codec::law_numbers_round_trip(0, access_mask, position, 0);
    codec::law_numbers_round_trip(0, 0x1F_01FF, 0, 0);
    lemma_standard_info(metadata, wanted);
    lemma_basic_info(metadata, now);
    lemma_all_info(basic_info(metadata, now), standard_info(metadata, wanted), Some(position));
}

/// The room that a file takes: what is wanted for it if that holds the file;
/// otherwise its blocks of 512 bytes, or its size if it has none. A file never
/// takes less than the wanted room or its size.
pub proof fn law_room_of_file(metadata: Metadata, wanted: Option<u64>)
    ensures
        ({
            let room = allocation_size(metadata, wanted);
            &&& wanted is Some && wanted->0 > 0 ==> {
                &&& room >= wanted->0 && room >= metadata.size
                &&& room == wanted->0 || room == metadata.size
            }
            &&& wanted is None || wanted == Some(0u64) ==> {
                &&& metadata.blocks == 0 ==> room == metadata.size
                &&& metadata.blocks > 0 && metadata.blocks * 512 <= u64::MAX ==> room
                    == metadata.blocks * 512
            }
        }),
{
}

/// The attributes of a file: bit 4 for a directory, bit 5 for anything else,
/// and bit 0 if nobody may write it.
pub proof fn law_attributes_of_file(metadata: Metadata)
    ensures
        attributes_of(metadata) & 0x10 != 0 <==> metadata.file_type == FileType::Directory,
        attributes_of(metadata) & 0x20 != 0 <==> metadata.file_type != FileType::Directory,
        attributes_of(metadata) & 0x01 != 0 <==> metadata.mode & 0o222 == 0,
        attributes_of(metadata) & !0x31u32 == 0,
{
    assert(0x10u32 & 0x10 != 0 && 0x10u32 & 0x20 == 0 && 0x10u32 & 0x01 == 0 && 0x20u32 & 0x10 == 0
        && 0x20u32 & 0x20 != 0 && 0x20u32 & 0x01 == 0 && (0x10u32 | 0x01) & 0x10 != 0 && (0x10u32
        | 0x01) & 0x20 == 0 && (0x10u32 | 0x01) & 0x01 != 0 && (0x20u32 | 0x01) & 0x10 == 0 && (
    0x20u32 | 0x01) & 0x20 != 0 && (0x20u32 | 0x01) & 0x01 != 0 && 0x10u32 & !0x31u32 == 0
        && 0x20u32 & !0x31u32 == 0 && (0x10u32 | 0x01) & !0x31u32 == 0 && (0x20u32 | 0x01)
        & !0x31u32 == 0) by (bit_vector);
}

#[verifier::rlimit(50)]
proof fn lemma_entry_numbers(metadata: Metadata, now: u64, next: u32, name_len: u32)
    ensures
        ({
            let head = entry_head(metadata, now, next as int, name_len as int);
            &&& head.len() == 94
            &&& codec::u32_at(head, 0) == next
            &&& codec::u64_at(head, 40) == metadata.size
            &&& codec::u64_at(head, 48) == metadata.size
        }),
{
    reveal(entry_head);
    let head = entry_head(metadata, now, next as int, name_len as int);
    assert(codec::u32_at(head, 0) == next) by {
        assert(head.subrange(0, 4) =~= codec::le32(next));
        codec::lemma_read_le32(head, 0, next);
    }
    assert(codec::u64_at(head, 40) == metadata.size) by {
        assert(head.subrange(40, 48) =~= codec::le64(metadata.size));
        codec::lemma_read_le64(head, 40, metadata.size);
    }
    assert(codec::u64_at(head, 48) == metadata.size) by {
        assert(head.subrange(48, 56) =~= codec::le64(metadata.size));
        codec::lemma_read_le64(head, 48, metadata.size);
    }
}

#[verifier::rlimit(50)]
proof fn lemma_entry_times(metadata: Metadata, now: u64, next: u32, name_len: u32)
    ensures
        ({
            let head = entry_head(metadata, now, next as int, name_len as int);
            &&& codec::u64_at(head, 8) == now
            &&& codec::u64_at(head, 16) == now
            &&& codec::u64_at(head, 24) == now
            &&& codec::u64_at(head, 32) == now
        }),
{
    reveal(entry_head);
    let head = entry_head(metadata, now, next as int, name_len as int);
    assert(codec::u64_at(head, 8) == now) by {
        assert(head.subrange(8, 16) =~= codec::le64(now));
        codec::lemma_read_le64(head, 8, now);
    }
    assert(codec::u64_at(head, 16) == now) by {
        assert(head.subrange(16, 24) =~= codec::le64(now));
        codec::lemma_read_le64(head, 16, now);
    }
    assert(codec::u64_at(head, 24) == now) by {
        assert(head.subrange(24, 32) =~= codec::le64(now));
        codec::lemma_read_le64(head, 24, now);
    }
    assert(codec::u64_at(head, 32) == now) by {
        assert(head.subrange(32, 40) =~= codec::le64(now));
        codec::lemma_read_le64(head, 32, now);
    }
}

#[verifier::rlimit(50)]
proof fn lemma_entry_name(metadata: Metadata, now: u64, next: u32, name_len: u32)
    ensures
        ({
            let head = entry_head(metadata, now, next as int, name_len as int);
            &&& codec::u32_at(head, 56) == attributes_of(metadata)
            &&& codec::u32_at(head, 60) == name_len
        }),
{
    reveal(entry_head);
    let head = entry_head(metadata, now, next as int, name_len as int);
    assert(codec::u32_at(head, 56) == attributes_of(metadata)) by {
        assert(head.subrange(56, 60) =~= codec::le32(attributes_of(metadata)));
        codec::lemma_read_le32(head, 56, attributes_of(metadata));
    }
    assert(codec::u32_at(head, 60) == name_len) by {
        assert(head.subrange(60, 64) =~= codec::le32(name_len));
        codec::lemma_read_le32(head, 60, name_len);
    }
}

/// What stands in a directory entry before the name: how far the next one is at
/// 0, the times from 8 on, the size of the file at 40 and the room that it takes
/// at 48, its attributes at 56, and how long the name is at 60.
pub proof fn law_directory_entry_head(metadata: Metadata, now: u64, next: u32, name_len: u32)
    ensures
        ({
            let head = entry_head(metadata, now, next as int, name_len as int);
            &&& head.len() == 94
            &&& codec::u32_at(head, 0) == next
            &&& codec::u64_at(head, 8) == now && codec::u64_at(head, 16) == now
            &&& codec::u64_at(head, 24) == now && codec::u64_at(head, 32) == now
            &&& codec::u64_at(head, 40) == metadata.size
            &&& codec::u64_at(head, 48) == metadata.size
            &&& codec::u32_at(head, 56) == attributes_of(metadata)
            &&& codec::u32_at(head, 60) == name_len
        }),
{
    lemma_entry_numbers(metadata, now, next, name_len);
    lemma_entry_times(metadata, now, next, name_len);
    lemma_entry_name(metadata, now, next, name_len);
}

#[verifier::rlimit(50)]
proof fn lemma_behind_head(head: Seq<u8>, name: Seq<u8>, rest: Seq<u8>)
    requires
        head.len() == 94,
    ensures
        ({
            let all = head + name + rest;
            &&& codec::u32_at(all, 0) == codec::u32_at(head, 0)
            &&& codec::u64_at(all, 40) == codec::u64_at(head, 40)
            &&& codec::u32_at(all, 56) == codec::u32_at(head, 56)
            &&& codec::u32_at(all, 60) == codec::u32_at(head, 60)
            &&& all.subrange(94, 94 + name.len() as int) == name
        }),
{
    let all = head + name + rest;
    assert(all.subrange(0, 4) =~= head.subrange(0, 4));
    codec::lemma_same_bytes(all, 0, head, 0, 4);
    assert(all.subrange(40, 48) =~= head.subrange(40, 48));
    codec::lemma_same_bytes(all, 40, head, 40, 8);
    assert(all.subrange(56, 60) =~= head.subrange(56, 60));
    codec::lemma_same_bytes(all, 56, head, 56, 4);
    assert(all.subrange(60, 64) =~= head.subrange(60, 64));
    codec::lemma_same_bytes(all, 60, head, 60, 4);
    assert(all.subrange(94, 94 + name.len() as int) =~= name);
}

/// A client that walks through a listing finds every entry, in order: what is
/// listed from entry `i` on starts with that entry, whose name stands at 94 in
/// UTF-16 and is as long as the four bytes at 60 say, with its size at 40 and
/// its attributes at 56; and as many bytes on as the four at 0 say, a multiple
/// of eight, the entries from the next one on follow. The last entry says zero.
#[verifier::rlimit(50)]
pub proof fn law_listing_is_walkable(entries: Seq<DirEntry>, i: int, now: u64)
    requires
        0 <= i < entries.len(),
        2 * strings::utf16_encode(entries[i].name@).len() + 101 <= u32::MAX,
    ensures
        ({
            let listing = directory_info(entries, i, now);
            let name = strings::utf16_bytes(strings::utf16_encode(entries[i].name@));
            let next = codec::u32_at(listing, 0) as int;
            &&& codec::u64_at(listing, 40) == entries[i].metadata.size
            &&& codec::u32_at(listing, 56) == attributes_of(entries[i].metadata)
            &&& codec::u32_at(listing, 60) == name.len()
            &&& listing.subrange(94, 94 + name.len() as int) == name
            &&& i == entries.len() - 1 ==> next == 0 && listing.len() == 94 + name.len()
            &&& i < entries.len() - 1 ==> {
                &&& next % 8 == 0
                &&& 94 + name.len() <= next < 94 + name.len() + 8
                &&& listing.subrange(next, listing.len() as int) == directory_info(
                    entries,
                    i + 1,
                    now,
                )
            }
        }),
{
    let metadata = entries[i].metadata;
    let name = strings::utf16_bytes(strings::utf16_encode(entries[i].name@));
    let next: int = if i < entries.len() - 1 {
        align8(94 + 2 * strings::utf16_encode(entries[i].name@).len() as int)
    } else {
        0
    };
    let padding = codec::zeros(
        (if next > 0 {
            next - 94 - name.len()
        } else {
            0
        }) as nat,
    );
    let tail = directory_info(entries, i + 1, now);
    let head = entry_head(metadata, now, next, name.len() as int);
    law_directory_entry_head(metadata, now, next as u32, name.len() as u32);
    lemma_behind_head(head, name, padding + tail);
    let listing = directory_info(entries, i, now);
    assert(listing =~= head + name + (padding + tail));
    if i < entries.len() - 1 {
        assert(listing.subrange(next, listing.len() as int) =~= tail);
    } else {
        assert(tail.len() == 0);
    }
}

/// What a client learns of a volume: its blocks, those that are left and their
/// size (class 3: at 0, 8 and 20; class 7: at 0, 8, those that are free at 16,
/// and 28), each cluster being one block (at 16 and 24).
#[verifier::rlimit(50)]
pub proof fn law_volume_sizes(stats: FsStats, now: u64)
    ensures
        ({
            let info = fs_info(stats, 3, now);
            &&& info.len() == 24
            &&& codec::u64_at(info, 0) == stats.blocks
            &&& codec::u64_at(info, 8) == stats.blocks_available
            &&& codec::u32_at(info, 16) == 1
            &&& codec::u32_at(info, 20) == stats.block_size
        }),
        ({
            let info = fs_info(stats, 7, now);
            &&& info.len() == 32
            &&& codec::u64_at(info, 0) == stats.blocks
            &&& codec::u64_at(info, 8) == stats.blocks_available
            &&& codec::u64_at(info, 16) == stats.blocks_free
            &&& codec::u32_at(info, 24) == 1
            &&& codec::u32_at(info, 28) == stats.block_size
        }),
{
    let a = fs_info(stats, 3, now);
    assert(a.subrange(0, 8) =~= codec::le64(stats.blocks));
    codec::lemma_read_le64(a, 0, stats.blocks);
    assert(a.subrange(8, 16) =~= codec::le64(stats.blocks_available));
    codec::lemma_read_le64(a, 8, stats.blocks_available);
    assert(a.subrange(16, 20) =~= codec::le32(1));
    codec::lemma_read_le32(a, 16, 1);
    assert(a.subrange(20, 24) =~= codec::le32(stats.block_size));
    codec::lemma_read_le32(a, 20, stats.block_size);
    lemma_full_size(stats, now);
}

#[verifier::rlimit(50)]
proof fn lemma_full_size(stats: FsStats, now: u64)
    ensures
        ({
            let info = fs_info(stats, 7, now);
            &&& info.len() == 32
            &&& codec::u64_at(info, 0) == stats.blocks
            &&& codec::u64_at(info, 8) == stats.blocks_available
            &&& codec::u64_at(info, 16) == stats.blocks_free
            &&& codec::u32_at(info, 24) == 1
            &&& codec::u32_at(info, 28) == stats.block_size
        }),
{
    let b = fs_info(stats, 7, now);
    assert(b.subrange(0, 8) =~= codec::le64(stats.blocks));
    codec::lemma_read_le64(b, 0, stats.blocks);
    assert(b.subrange(8, 16) =~= codec::le64(stats.blocks_available));
    codec::lemma_read_le64(b, 8, stats.blocks_available);
    assert(b.subrange(16, 24) =~= codec::le64(stats.blocks_free));
    codec::lemma_read_le64(b, 16, stats.blocks_free);
    assert(b.subrange(24, 28) =~= codec::le32(1));
    codec::lemma_read_le32(b, 24, 1);
    assert(b.subrange(28, 32) =~= codec::le32(stats.block_size));
    codec::lemma_read_le32(b, 28, stats.block_size);
}

/// What a client learns of a volume: when it was made (class 1, at 0), its
/// serial number (8) and its label (18), which is as long as the four bytes at
/// 12 say; that it is a disk (class 4: 7 at 0); and the name of its file system
/// (class 5, at 12), which is as long as the four bytes at 8 say, while a name
/// in it has 255 characters at most (4).
#[verifier::rlimit(50)]
pub proof fn law_volume_names(stats: FsStats, now: u64)
    ensures
        ({
            let info = fs_info(stats, 1, now);
            let length = codec::u32_at(info, 12) as int;
            &&& codec::u64_at(info, 0) == now
            &&& codec::u32_at(info, 8) == stats.fsid % 0x1_0000_0000
            &&& info.len() == 18 + length
            &&& info.subrange(18, 18 + length) == strings::utf16_bytes(
                strings::utf16_encode("RustSMB"@),
            )
        }),
        ({
            let info = fs_info(stats, 4, now);
            &&& info.len() == 8
            &&& codec::u32_at(info, 0) == 7
            &&& codec::u32_at(info, 4) == 0x20
        }),
        ({
            let info = fs_info(stats, 5, now);
            let length = codec::u32_at(info, 8) as int;
            &&& codec::u32_at(info, 0) == 3
            &&& codec::u32_at(info, 4) == 255
            &&& info.len() == 12 + length
            &&& info.subrange(12, 12 + length) == strings::utf16_bytes(
                strings::utf16_encode("NTFS"@),
            )
        }),
{
    lemma_label_lengths();
    let a = fs_info(stats, 1, now);
    let serial = (stats.fsid % 0x1_0000_0000) as u32;
    assert(a.subrange(0, 8) =~= codec::le64(now));
    codec::lemma_read_le64(a, 0, now);
    assert(a.subrange(8, 12) =~= codec::le32(serial));
    codec::lemma_read_le32(a, 8, serial);
    assert(a.subrange(12, 16) =~= codec::le32(14));
    codec::lemma_read_le32(a, 12, 14);
    assert(a.subrange(18, 32) =~= strings::utf16_bytes(strings::utf16_encode("RustSMB"@)));
    let b = fs_info(stats, 4, now);
    assert(b.subrange(0, 4) =~= codec::le32(7));
    codec::lemma_read_le32(b, 0, 7);
    assert(b.subrange(4, 8) =~= codec::le32(0x20));
    codec::lemma_read_le32(b, 4, 0x20);
    let c = fs_info(stats, 5, now);
    assert(c.subrange(0, 4) =~= codec::le32(3));
    codec::lemma_read_le32(c, 0, 3);
    assert(c.subrange(4, 8) =~= codec::le32(255));
    codec::lemma_read_le32(c, 4, 255);
    assert(c.subrange(8, 12) =~= codec::le32(8));
    codec::lemma_read_le32(c, 8, 8);
    assert(c.subrange(12, 20) =~= strings::utf16_bytes(strings::utf16_encode("NTFS"@)));
}

/// What a client learns about who may do what with a file: the descriptor says
/// at 16 where the access control list stands, right behind the descriptor, if
/// that was asked for (bit 2), and nowhere otherwise; the list says at 2 how
/// long it is and at 4 that it is empty.
#[verifier::rlimit(50)]
pub proof fn law_security_descriptor(additional_info: u32)
    ensures
        ({
            let info = security_info(additional_info);
            &&& info[0] == 1
            &&& codec::u16_at(info, 2) == 0x8004
            &&& codec::u32_at(info, 4) == 0 && codec::u32_at(info, 8) == 0 && codec::u32_at(
                info,
                12,
            ) == 0
            &&& additional_info & 4 != 0 ==> {
                &&& codec::u32_at(info, 16) == 20
                &&& info.len() == 20 + codec::u16_at(info, 22)
                &&& info[20] == 2
                &&& codec::u16_at(info, 22) == 8
                &&& codec::u16_at(info, 24) == 0
            }
            &&& additional_info & 4 == 0 ==> codec::u32_at(info, 16) == 0 && info.len() == 20
        }),
{
    let info = security_info(additional_info);
    assert(info.subrange(2, 4) =~= codec::le16(0x8004));
    codec::lemma_read_le16(info, 2, 0x8004);
    assert(info.subrange(4, 8) =~= codec::le32(0));
    codec::lemma_read_le32(info, 4, 0);
    assert(info.subrange(8, 12) =~= codec::le32(0));
    codec::lemma_read_le32(info, 8, 0);
    assert(info.subrange(12, 16) =~= codec::le32(0));
    codec::lemma_read_le32(info, 12, 0);
    if additional_info & 4 != 0 {
        assert(info.subrange(16, 20) =~= codec::le32(20));
        codec::lemma_read_le32(info, 16, 20);
        assert(info.subrange(22, 24) =~= codec::le16(8));
        codec::lemma_read_le16(info, 22, 8);
        assert(info.subrange(24, 26) =~= codec::le16(0));
        codec::lemma_read_le16(info, 24, 0);
    } else {
        assert(info.subrange(16, 20) =~= codec::le32(0));
        codec::lemma_read_le32(info, 16, 0);
    }
}

} // verus!
