use rustsmb_server::helpers::info_builders::{
    build_directory_info, build_file_info, build_fs_info, build_security_info, directory_info_at,
    file_attributes_from_metadata, file_info_at, file_info_min_size, fs_info_at, fs_info_min_size,
    FULL_ACCESS,
};
use rustsmb_server::helpers::time::filetime_to_unix;
use rustsmb_server::storage::{
    apply_readonly_attribute, DirEntry, FileType, FsStats, Metadata, FILE_ATTRIBUTE_ARCHIVE,
    FILE_ATTRIBUTE_DIRECTORY, FILE_ATTRIBUTE_READONLY,
};

fn u32_at(buf: &[u8], i: usize) -> u32 {
    u32::from_le_bytes(buf[i..i + 4].try_into().unwrap())
}

fn u64_at(buf: &[u8], i: usize) -> u64 {
    u64::from_le_bytes(buf[i..i + 8].try_into().unwrap())
}

fn entry(name: &str, file_type: FileType, size: u64) -> DirEntry {
    DirEntry {
        name: name.to_string(),
        metadata: Metadata {
            file_type,
            size,
            ..Default::default()
        },
    }
}

#[test]
fn test_build_fs_info_volume_information() {
    // FileFsVolumeInformation (info class 1)
    let fs_stats = FsStats {
        blocks: 1000000,
        blocks_free: 500000,
        blocks_available: 450000,
        block_size: 4096,
        files: 100000,
        files_free: 50000,
        fsid: 0x12345678ABCDEF00,
        namelen: 255,
    };

    let buf = build_fs_info(&fs_stats, 1);

    // Should have: VolumeCreationTime(8) + SerialNumber(4) + LabelLength(4) +
    // SupportsObjects(1) + Reserved(1) + Label(14 bytes for "RustSMB")
    assert!(buf.len() >= 18, "Volume info should have at least header");

    // Check VolumeSerialNumber comes from fsid (bytes 8-11)
    let serial = u32::from_le_bytes([buf[8], buf[9], buf[10], buf[11]]);
    assert_eq!(
        serial, 0xABCDEF00u32,
        "Serial number from lower 32 bits of fsid"
    );
}

#[test]
fn test_build_fs_info_size_information() {
    // FileFsSizeInformation (info class 3)
    let fs_stats = FsStats {
        blocks: 1000000,
        blocks_free: 500000,
        blocks_available: 450000,
        block_size: 4096,
        files: 100000,
        files_free: 50000,
        fsid: 0,
        namelen: 255,
    };

    let buf = build_fs_info(&fs_stats, 3);

    // Should have: TotalAllocationUnits(8) + AvailableAllocationUnits(8) +
    // SectorsPerAllocationUnit(4) + BytesPerSector(4) = 24 bytes
    assert_eq!(buf.len(), 24, "Size info should be 24 bytes");

    // Check TotalAllocationUnits
    let total = u64::from_le_bytes(buf[0..8].try_into().unwrap());
    assert_eq!(total, 1000000, "Total allocation units");

    // Check AvailableAllocationUnits
    let available = u64::from_le_bytes(buf[8..16].try_into().unwrap());
    assert_eq!(available, 450000, "Available allocation units");

    // Check BytesPerSector
    let bytes_per_sector = u32::from_le_bytes(buf[20..24].try_into().unwrap());
    assert_eq!(bytes_per_sector, 4096, "Bytes per sector");
}

#[test]
fn test_build_fs_info_device_information() {
    // FileFsDeviceInformation (info class 4)
    let fs_stats = FsStats::default();

    let buf = build_fs_info(&fs_stats, 4);

    // Should have: DeviceType(4) + Characteristics(4) = 8 bytes
    assert_eq!(buf.len(), 8, "Device info should be 8 bytes");

    // Check DeviceType = FILE_DEVICE_DISK (0x07)
    let device_type = u32::from_le_bytes(buf[0..4].try_into().unwrap());
    assert_eq!(
        device_type, 0x00000007,
        "Device type should be FILE_DEVICE_DISK"
    );

    // Check Characteristics includes FILE_REMOTE_DEVICE (0x20)
    let characteristics = u32::from_le_bytes(buf[4..8].try_into().unwrap());
    assert_eq!(
        characteristics & 0x20,
        0x20,
        "Characteristics should include FILE_REMOTE_DEVICE"
    );
}

#[test]
fn test_build_fs_info_attribute_information() {
    // FileFsAttributeInformation (info class 5)
    let fs_stats = FsStats::default();

    let buf = build_fs_info(&fs_stats, 5);

    // Should have: FileSystemAttributes(4) + MaxComponentNameLength(4) +
    // FileSystemNameLength(4) + Name (variable)
    assert!(
        buf.len() >= 12,
        "Attribute info should have at least header"
    );

    // Check FileSystemAttributes
    let attrs = u32::from_le_bytes(buf[0..4].try_into().unwrap());
    // Should have FILE_CASE_SENSITIVE_SEARCH | FILE_CASE_PRESERVED_NAMES = 0x03
    assert_eq!(attrs & 0x03, 0x03, "Should have case-related attributes");

    // Check MaxComponentNameLength = 255
    let max_name_len = u32::from_le_bytes(buf[4..8].try_into().unwrap());
    assert_eq!(max_name_len, 255, "Max component name length");
}

#[test]
fn test_build_fs_info_full_size_information() {
    // FileFsFullSizeInformation (info class 7)
    let fs_stats = FsStats {
        blocks: 1000000,
        blocks_free: 500000,
        blocks_available: 450000,
        block_size: 4096,
        files: 100000,
        files_free: 50000,
        fsid: 0,
        namelen: 255,
    };

    let buf = build_fs_info(&fs_stats, 7);

    // Should have: TotalAllocationUnits(8) + CallerAvailableAllocationUnits(8) +
    // ActualAvailableAllocationUnits(8) + SectorsPerAllocationUnit(4) +
    // BytesPerSector(4) = 32 bytes
    assert_eq!(buf.len(), 32, "Full size info should be 32 bytes");

    // Check TotalAllocationUnits
    let total = u64::from_le_bytes(buf[0..8].try_into().unwrap());
    assert_eq!(total, 1000000, "Total allocation units");

    // Check CallerAvailableAllocationUnits (blocks_available)
    let caller_available = u64::from_le_bytes(buf[8..16].try_into().unwrap());
    assert_eq!(caller_available, 450000, "Caller available");

    // Check ActualAvailableAllocationUnits (blocks_free)
    let actual_available = u64::from_le_bytes(buf[16..24].try_into().unwrap());
    assert_eq!(actual_available, 500000, "Actual available");
}

#[test]
fn test_build_fs_info_unknown_class() {
    // Unknown info class should return minimal data
    let fs_stats = FsStats::default();

    let buf = build_fs_info(&fs_stats, 99);

    assert_eq!(buf.len(), 8, "Unknown class should return 8 bytes of zeros");
    assert!(buf.iter().all(|&b| b == 0), "Should be all zeros");
}

#[test]
fn test_build_security_info_no_dacl() {
    // Request without DACL flag (0x00)
    let buf = build_security_info(0x00);

    // Should have minimal security descriptor header (20 bytes)
    assert_eq!(
        buf.len(),
        20,
        "Security descriptor without DACL should be 20 bytes"
    );

    // Check Revision = 1
    assert_eq!(buf[0], 1, "Revision should be 1");

    // Check Control field (bytes 2-3)
    let control = u16::from_le_bytes([buf[2], buf[3]]);
    assert_eq!(
        control & 0x8000,
        0x8000,
        "SE_SELF_RELATIVE flag should be set"
    );
}

#[test]
fn test_build_security_info_with_dacl() {
    // Request with DACL flag (0x04)
    let buf = build_security_info(0x04);

    // Should have security descriptor header (20 bytes) + DACL header (8 bytes) = 28 bytes
    assert_eq!(
        buf.len(),
        28,
        "Security descriptor with DACL should be 28 bytes"
    );

    // Check Revision = 1
    assert_eq!(buf[0], 1, "Revision should be 1");

    // Check Control field (bytes 2-3) has SE_SELF_RELATIVE and SE_DACL_PRESENT
    let control = u16::from_le_bytes([buf[2], buf[3]]);
    assert_eq!(
        control & 0x8004,
        0x8004,
        "SE_SELF_RELATIVE and SE_DACL_PRESENT should be set"
    );

    // Check OffsetDacl (bytes 16-19) points to 20
    let dacl_offset = u32::from_le_bytes([buf[16], buf[17], buf[18], buf[19]]);
    assert_eq!(dacl_offset, 20, "DACL offset should be 20");

    // Check DACL AclRevision = 2 (at offset 20)
    assert_eq!(buf[20], 2, "DACL AclRevision should be 2");

    // Check ACE count = 0 (at offset 24-25)
    let ace_count = u16::from_le_bytes([buf[24], buf[25]]);
    assert_eq!(ace_count, 0, "ACE count should be 0 (empty DACL)");
}

#[test]
fn test_build_security_info_dacl_structure() {
    // Verify DACL structure in detail
    let buf = build_security_info(0x04);

    // DACL starts at offset 20
    // ACL structure: Revision(1) + Sbz1(1) + AclSize(2) + AceCount(2) + Sbz2(2)
    let acl_revision = buf[20];
    let acl_sbz1 = buf[21];
    let acl_size = u16::from_le_bytes([buf[22], buf[23]]);
    let ace_count = u16::from_le_bytes([buf[24], buf[25]]);
    let acl_sbz2 = u16::from_le_bytes([buf[26], buf[27]]);

    assert_eq!(acl_revision, 2, "ACL Revision");
    assert_eq!(acl_sbz1, 0, "ACL Sbz1");
    assert_eq!(acl_size, 8, "ACL Size (header only)");
    assert_eq!(ace_count, 0, "ACE Count");
    assert_eq!(acl_sbz2, 0, "ACL Sbz2");
}

#[test]
fn test_build_file_info_basic() {
    let metadata = Metadata {
        file_type: FileType::Regular,
        size: 1024,
        ..Default::default()
    };

    let buf = build_file_info(&metadata, 4, None, None, None); // FileBasicInformation

    // Should have: 4 timestamps (8 bytes each) + FileAttributes (4) + Reserved (4) = 40 bytes
    assert_eq!(buf.len(), 40, "FileBasicInformation should be 40 bytes");

    // Check attributes at offset 32 (after 4 timestamps)
    // NORMAL (0x80) is only valid when NO other attributes are set
    let attrs = u32::from_le_bytes(buf[32..36].try_into().unwrap());
    assert_eq!(attrs, 0x20, "File should have ARCHIVE attribute");
}

#[test]
fn test_build_file_info_directory() {
    let metadata = Metadata {
        file_type: FileType::Directory,
        size: 0,
        ..Default::default()
    };

    let buf = build_file_info(&metadata, 4, None, None, None); // FileBasicInformation

    // Check attributes - directory should have 0x10
    let attrs = u32::from_le_bytes(buf[32..36].try_into().unwrap());
    assert_eq!(attrs, 0x10, "Directory should have DIRECTORY attribute");
}

#[test]
fn test_build_file_info_standard() {
    let metadata = Metadata {
        file_type: FileType::Regular,
        size: 4096,
        ..Default::default()
    };

    let buf = build_file_info(&metadata, 5, None, None, None); // FileStandardInformation

    // Should have: AllocationSize(8) + EndOfFile(8) + NumberOfLinks(4) +
    // DeletePending(1) + Directory(1) + Reserved(2) = 24 bytes
    assert_eq!(buf.len(), 24, "FileStandardInformation should be 24 bytes");

    // Check size at offset 0
    let alloc_size = u64::from_le_bytes(buf[0..8].try_into().unwrap());
    assert_eq!(alloc_size, 4096, "AllocationSize");

    let end_of_file = u64::from_le_bytes(buf[8..16].try_into().unwrap());
    assert_eq!(end_of_file, 4096, "EndOfFile");
}

#[test]
fn test_build_file_info_all_information_with_position() {
    let metadata = Metadata {
        file_type: FileType::Regular,
        size: 65536,
        ..Default::default()
    };

    let position = 10u64;
    let buf = build_file_info(&metadata, 18, Some(position), None, None); // FileAllInformation

    // FileAllInformation structure:
    // - FileBasicInformation (40 bytes)
    // - FileStandardInformation (24 bytes)
    // - FileInternalInformation (8 bytes)
    // - FileEaInformation (4 bytes)
    // - FileAccessInformation (4 bytes)
    // - FilePositionInformation (8 bytes) <- position at offset 80
    // - FileModeInformation (4 bytes)
    // - FileAlignmentInformation (4 bytes)
    // - FileNameInformation (4 bytes for length, 0 chars)
    // Total: 100 bytes
    assert_eq!(buf.len(), 100, "FileAllInformation should be 100 bytes");

    // Check position at offset 80 (after Basic(40) + Standard(24) + Internal(8) + EA(4) + Access(4))
    let pos = u64::from_le_bytes(buf[80..88].try_into().unwrap());
    assert_eq!(pos, 10, "Position should be 10");
}

#[test]
fn directory_entries_are_chained_and_aligned() {
    let entries = vec![
        entry("a", FileType::Regular, 5),
        entry("docs", FileType::Directory, 0),
    ];
    let buf = directory_info_at(&entries, 77);

    // 94 fixed bytes and two bytes of name, rounded up to 96.
    assert_eq!(u32_at(&buf, 0), 96);
    assert_eq!(u64_at(&buf, 8), 77);
    assert_eq!(u64_at(&buf, 32), 77);
    assert_eq!(u64_at(&buf, 40), 5);
    assert_eq!(u32_at(&buf, 56), FILE_ATTRIBUTE_ARCHIVE);
    assert_eq!(u32_at(&buf, 60), 2);
    assert_eq!(&buf[94..96], &[b'a', 0]);

    assert_eq!(u32_at(&buf, 96), 0, "the last entry has no successor");
    assert_eq!(u32_at(&buf, 96 + 56), FILE_ATTRIBUTE_DIRECTORY);
    assert_eq!(u32_at(&buf, 96 + 60), 8);
    assert_eq!(buf.len(), 96 + 94 + 8);
}

#[test]
fn directory_padding_is_zero() {
    let entries = vec![
        entry("ab", FileType::Regular, 1),
        entry("c", FileType::Regular, 2),
    ];
    let buf = directory_info_at(&entries, 1);
    assert_eq!(u32_at(&buf, 0), 104);
    assert_eq!(&buf[98..104], &[0u8; 6]);
    assert_eq!(u64_at(&buf, 104 + 40), 2);
}

#[test]
fn empty_directory_has_no_entries() {
    assert!(build_directory_info(&[]).is_empty());
}

#[test]
fn listing_is_dated_today() {
    let buf = build_directory_info(&[entry("a", FileType::Regular, 5)]);
    assert!(filetime_to_unix(u64_at(&buf, 8)) > 946684800);
}

#[test]
fn attributes_follow_type_and_mode() {
    let mut metadata = Metadata::default();
    assert_eq!(file_attributes_from_metadata(&metadata), FILE_ATTRIBUTE_ARCHIVE);
    metadata.mode = 0o444;
    assert_eq!(
        file_attributes_from_metadata(&metadata),
        FILE_ATTRIBUTE_ARCHIVE | FILE_ATTRIBUTE_READONLY
    );
    metadata.file_type = FileType::Directory;
    assert_eq!(
        file_attributes_from_metadata(&metadata),
        FILE_ATTRIBUTE_DIRECTORY | FILE_ATTRIBUTE_READONLY
    );
}

#[test]
fn readonly_takes_the_write_bits_and_gives_one_back() {
    assert_eq!(apply_readonly_attribute(0o666, true), 0o444);
    assert_eq!(apply_readonly_attribute(0o444, false), 0o644);
    assert_eq!(apply_readonly_attribute(0o666, false), 0o666);
}

#[test]
fn allocation_size_prefers_the_wanted_size() {
    let metadata = Metadata {
        size: 1000,
        blocks: 4,
        ..Default::default()
    };
    assert_eq!(u64_at(&file_info_at(&metadata, 5, None, None, None, 0), 0), 2048);
    assert_eq!(u64_at(&file_info_at(&metadata, 5, None, None, Some(8192), 0), 0), 8192);
    assert_eq!(u64_at(&file_info_at(&metadata, 5, None, None, Some(10), 0), 0), 1000);
    assert_eq!(u64_at(&file_info_at(&metadata, 5, None, None, Some(0), 0), 0), 2048);
    let sparse = Metadata { size: 1000, blocks: 0, ..Default::default() };
    assert_eq!(u64_at(&file_info_at(&sparse, 5, None, None, None, 0), 0), 1000);
}

#[test]
fn access_and_position_have_classes_of_their_own() {
    let metadata = Metadata::default();
    let buf = file_info_at(&metadata, 8, Some(3), Some(0x0012_0089), None, 9);
    assert_eq!(buf, 0x0012_0089u32.to_le_bytes());
    let buf = file_info_at(&metadata, 8, None, None, None, 9);
    assert_eq!(buf, FULL_ACCESS.to_le_bytes());
    assert_eq!(file_info_at(&metadata, 14, Some(3), None, None, 9), 3u64.to_le_bytes());
    assert_eq!(file_info_at(&metadata, 14, None, None, None, 9), 0u64.to_le_bytes());
    assert_eq!(file_info_at(&metadata, 99, Some(3), None, None, 9), [0u8; 8]);
}

#[test]
fn supported_classes_reach_their_minimum() {
    let metadata = Metadata::default();
    let stats = FsStats::default();
    for class in [4u8, 5, 8, 14, 18] {
        let file = file_info_at(&metadata, class, Some(1), None, None, 5);
        assert!(file.len() >= file_info_min_size(class) as usize, "file class {}", class);
    }
    for class in [1u8, 3, 4, 5, 7] {
        let fs = fs_info_at(&stats, class, 5);
        assert!(fs.len() >= fs_info_min_size(class) as usize, "fs class {}", class);
    }
    assert_eq!(file_info_min_size(4), 40);
    assert_eq!(file_info_min_size(34), 56);
    assert_eq!(file_info_min_size(99), 0);
    assert_eq!(fs_info_min_size(7), 32);
    assert_eq!(fs_info_min_size(2), 0);
}
