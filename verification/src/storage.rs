//! What the storage backend tells about files and volumes.

use vstd::prelude::*;

verus! {

pub const FILE_ATTRIBUTE_READONLY: u32 = 0x01;

pub const FILE_ATTRIBUTE_DIRECTORY: u32 = 0x10;

pub const FILE_ATTRIBUTE_ARCHIVE: u32 = 0x20;

pub const FILE_ATTRIBUTE_NORMAL: u32 = 0x80;

/// The owner's write permission in a file mode.
pub const MODE_OWNER_WRITE: u32 = 0o200;

/// All write permissions in a file mode.
pub const MODE_ALL_WRITE: u32 = 0o222;

/// What kind of object a path names.
#[derive(Clone, Copy, Debug, PartialEq, Eq, Structural)]
pub enum FileType {
    Regular,
    Directory,
    Other,
}

/// A point in time: seconds since the start of 1970, before it if negative, and
/// the nanoseconds beyond them.
#[derive(Clone, Copy, Debug, PartialEq, Eq, Structural)]
pub struct UnixTime {
    pub secs: i64,
    pub nanos: u32,
}

/// Properties of a file.
#[derive(Clone, Copy, Debug)]
pub struct Metadata {
    pub file_type: FileType,
    pub size: u64,
    /// Blocks of 512 bytes that the file takes.
    pub blocks: u64,
    pub mode: u32,
    /// The backend's own number for the file.
    pub ino: u64,
    /// When the file was last read.
    pub atime: UnixTime,
    /// When the file was last written.
    pub mtime: UnixTime,
}

impl Default for Metadata {
    /// An empty regular file that its owner may write, from the start of 1970.
    fn default() -> (m: Self)
        ensures
            m == (Metadata {
                file_type: FileType::Regular,
                size: 0,
                blocks: 0,
                mode: 0o644,
                ino: 0,
                atime: (UnixTime { secs: 0, nanos: 0 }),
                mtime: (UnixTime { secs: 0, nanos: 0 }),
            }),
    {
        Metadata {
            file_type: FileType::Regular,
            size: 0,
            blocks: 0,
            mode: 0o644,
            ino: 0,
            atime: UnixTime { secs: 0, nanos: 0 },
            mtime: UnixTime { secs: 0, nanos: 0 },
        }
    }
}

/// One entry of a directory.
#[derive(Clone, Debug)]
pub struct DirEntry {
    pub name: String,
    pub metadata: Metadata,
}

/// Properties of a volume.
#[derive(Clone, Copy, Debug)]
pub struct FsStats {
    pub blocks: u64,
    pub blocks_free: u64,
    pub blocks_available: u64,
    pub block_size: u32,
    pub files: u64,
    pub files_free: u64,
    pub fsid: u64,
    pub namelen: u32,
}

impl Default for FsStats {
    /// A volume of which everything is zero.
    fn default() -> (s: Self)
        ensures
            s == (FsStats {
                blocks: 0,
                blocks_free: 0,
                blocks_available: 0,
                block_size: 0,
                files: 0,
                files_free: 0,
                fsid: 0,
                namelen: 0,
            }),
    {
        FsStats {
            blocks: 0,
            blocks_free: 0,
            blocks_available: 0,
            block_size: 0,
            files: 0,
            files_free: 0,
            fsid: 0,
            namelen: 0,
        }
    }
}

/// The mode of a file after its read-only attribute is set or taken away:
/// nobody may write, or the owner may.
pub open spec fn readonly_mode(mode: u32, readonly: bool) -> u32 {
    if readonly {
        mode & !MODE_ALL_WRITE
    } else {
        mode | MODE_OWNER_WRITE
    }
}

pub fn apply_readonly_attribute(mode: u32, readonly: bool) -> (m: u32)
    ensures
        m == readonly_mode(mode, readonly),
{
    if readonly {
        mode & !MODE_ALL_WRITE
    } else {
        mode | MODE_OWNER_WRITE
    }
}

/// A file that was made read-only lets nobody write, and one that was made
/// writable lets its owner write.
pub proof fn law_readonly_mode(mode: u32)
    ensures
        readonly_mode(mode, true) & MODE_ALL_WRITE == 0,
        readonly_mode(mode, false) & MODE_OWNER_WRITE != 0,
{
    assert((mode & !MODE_ALL_WRITE) & MODE_ALL_WRITE == 0) by (bit_vector);
    assert((mode | MODE_OWNER_WRITE) & MODE_OWNER_WRITE != 0) by (bit_vector);
}

/// Making a file read-only takes the right to write from all, and making it
/// writable gives it to its owner; no other right changes.
pub proof fn law_other_rights_stay(mode: u32)
    ensures
        readonly_mode(mode, true) & 0o222 == 0,
        readonly_mode(mode, true) & !0o222u32 == mode & !0o222u32,
        readonly_mode(mode, false) & 0o200 == 0o200,
        readonly_mode(mode, false) & !0o200u32 == mode & !0o200u32,
{
    assert((mode & !0o222u32) & 0o222 == 0 && (mode & !0o222u32) & !0o222u32 == mode & !0o222u32 && (
    mode | 0o200) & 0o200 == 0o200 && (mode | 0o200) & !0o200u32 == mode & !0o200u32)
        by (bit_vector);
}

} // verus!
