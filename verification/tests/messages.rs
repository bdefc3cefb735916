use exfat_fs::error::{
    ClusterChainError, DirEntryError, DirectoryError, EntryReaderError, ErrorMessage, ExfatError,
    ExfatFormatError, FatLoadError, FileParserError, RootError,
};
use exfat_fs::format::{FormatVolumeOptionsBuilder, FormatVolumeOptionsBuilderError};
use exfat_fs::fs::file::FileSeekError;
use exfat_fs::ramdisk::{RamDisk, RamDiskError};
use exfat_fs::root::Root;
use exfat_fs::text::{decimal, hex};

#[test]
fn numbers_in_decimal_digits() {
    assert_eq!(decimal(0), "0");
    assert_eq!(decimal(7), "7");
    assert_eq!(decimal(9), "9");
    assert_eq!(decimal(10), "10");
    assert_eq!(decimal(99), "99");
    assert_eq!(decimal(100), "100");
    assert_eq!(decimal(4096), "4096");
    assert_eq!(decimal(1_048_575), "1048575");
    assert_eq!(decimal(1234567890), "1234567890");
    assert_eq!(decimal(u64::MAX), "18446744073709551615");
    for n in [0u64, 1, 9, 10, 11, 255, 256, 1000, 65535, 4294967295, u64::MAX - 1] {
        assert_eq!(decimal(n), n.to_string());
    }
}

#[test]
fn numbers_in_hexadecimal_digits() {
    assert_eq!(hex(0), "0x0");
    assert_eq!(hex(9), "0x9");
    assert_eq!(hex(10), "0xa");
    assert_eq!(hex(15), "0xf");
    assert_eq!(hex(16), "0x10");
    assert_eq!(hex(0x100000), "0x100000");
    assert_eq!(hex(0xDEAD_BEEF), "0xdeadbeef");
    assert_eq!(hex(u64::MAX), "0xffffffffffffffff");
    for n in [1u64, 255, 256, 4095, 0x1234_5678_9ABC_DEF0] {
        assert_eq!(hex(n), format!("{:#x}", n));
    }
}

#[test]
fn messages_of_the_formatter() {
    assert_eq!(
        ExfatFormatError::InvalidBytesPerSector(513).message(),
        "Invalid bytes per sector. Must be a power of `2` and between `512` and `4096`: 513."
    );
    assert_eq!(
        ExfatFormatError::InvalidSize(1_048_575).message(),
        "Invalid volume size: 1048575."
    );
    assert_eq!(
        ExfatFormatError::InvalidPartitionOffset(u64::MAX).message(),
        "Invalid partition offset: 18446744073709551615."
    );
    assert_eq!(
        ExfatFormatError::InvalidNumberOfFats(3).message(),
        "Invalid number of FATs (must be 1 or 2): 3."
    );
    assert_eq!(
        ExfatFormatError::InvalidClusterSize(3000).message(),
        "Invalid cluster size: 3000. Must be a power of `2` and at most 32MB: 3000"
    );
    assert_eq!(
        ExfatFormatError::BoundaryAlignTooBig(4_000_000_000).message(),
        "Boundary alignment is too big: 4000000000"
    );
    assert_eq!(
        ExfatFormatError::NoSerial.message(),
        "Unable to generate unique serial number."
    );
    assert_eq!(
        ExfatFormatError::CannotPackBitmap.message(),
        "Unable to pack bitmap."
    );
    assert_eq!(
        ExfatFormatError::InvalidFileSize.message(),
        "File size does not match exFAT size."
    );
    assert_eq!(
        ExfatFormatError::InvalidUpcaseTable.message(),
        "The up-case table is not the default table."
    );
    let format: ExfatError<RamDiskError> = ExfatError::Format(ExfatFormatError::InvalidFileSize);
    assert_eq!(format.message(), "File size does not match exFAT size.");
    assert_eq!(
        ExfatError::Io(RamDiskError::WriteZero).message(),
        "I/O error: The device took less than was written.."
    );
}

#[test]
fn messages_of_the_builder() {
    assert_eq!(
        FormatVolumeOptionsBuilderError::UninitializedField("dev_size").message(),
        "`dev_size` must be initialized"
    );
    assert_eq!(
        FormatVolumeOptionsBuilderError::ValidationError("no".to_string()).message(),
        "no"
    );
    let missing = FormatVolumeOptionsBuilder::default()
        .bytes_per_sector(512)
        .build()
        .unwrap_err();
    assert_eq!(missing.message(), "`dev_size` must be initialized");
}

#[test]
fn messages_of_the_reader() {
    type R = RootError<RamDiskError>;
    assert_eq!(
        R::Io(RamDiskError::UnexpectedEop).message(),
        "I/O error: The device ended before the read was complete.."
    );
    assert_eq!(
        R::WrongFs.message(),
        "The provided volume is not an exFAT filesystem."
    );
    assert_eq!(
        R::InvalidBytesPerSectorShift(13).message(),
        "Invalid bytes per sector shift detected: 13. Must be between `9` and `12`"
    );
    assert_eq!(
        R::InvalidSectorsPerClusterShift(17).message(),
        "Invalid sectors per cluster shift detected: 17."
    );
    assert_eq!(
        R::InvalidNumberOfFats(0).message(),
        "Invalid number of FATs detected: 0. Must be either `1` or `2`."
    );
    assert_eq!(
        R::Fat(FatLoadError::InvalidOffset).message(),
        "Fat could not be parsed: FAT starts at invalid offset.."
    );
    assert_eq!(
        R::Fat(FatLoadError::ReadFailed(0x100000, RamDiskError::UnexpectedEop)).message(),
        "Fat could not be parsed: Read failed at: 0x100000.."
    );
    assert_eq!(
        R::InvalidRootDirectoryClusterIndex(7682).message(),
        "Invalid index of root directory cluster detected: 7682. Must be bigger than `2` and at most `cluster_count + 1`"
    );
    assert_eq!(
        R::ClusterChain(ClusterChainError::InvalidFirstCluster).message(),
        "Cluster chain could not be parsed: Invalid starting cluster.."
    );
    assert_eq!(
        R::ClusterChain(ClusterChainError::InvalidDataLength).message(),
        "Cluster chain could not be parsed: Invalid data length for cluster chain.."
    );
    assert_eq!(
        R::DirEntry(EntryReaderError::ReadFailed(
            4,
            5,
            RamDiskError::ClusterNotFound(5)
        ))
        .message(),
        "Entry Reader Error: Cannot read entry #4 on cluster #5.."
    );
    assert_eq!(
        R::DirEntry(EntryReaderError::Entry(DirEntryError::InvalidEntry(0xF0))).message(),
        "Entry Reader Error: Invalid directory entry detected: 240.."
    );
    assert_eq!(
        R::RootEntryNotPrimary(0xC0).message(),
        "All directory entries of the root directory must be of type `PRIMARY`. Detected entry type: 192"
    );
    assert_eq!(
        R::InvalidNumberOfAllocationBitmaps.message(),
        "More than 2 allocation bitmap root entry fields detected."
    );
    assert_eq!(
        R::InvalidAllocationBitmap.message(),
        "Corrupt allocation bitmap entry."
    );
    assert_eq!(
        R::InvalidNumberOfUpcaseTables.message(),
        "More than 1 upcase table root entry field detected."
    );
    assert_eq!(R::InvalidUpcaseTable.message(), "Corrupt upcase table entry.");
    assert_eq!(
        R::InvalidNumberOfVolumeLabels.message(),
        "More than 1 volume label root entry field detected."
    );
    assert_eq!(R::InvalidVolumeLabel.message(), "Corrupt volume label entry.");
    assert_eq!(
        R::InvalidFileEntry(FileParserError::NoStreamExtension).message(),
        "Unable to parse file entry: File entry is missing stream extension."
    );
    assert_eq!(
        R::UnexpectedRootEntry(0x85).message(),
        "Unexpected directory entry in root directory. Detected entry type: 133"
    );

    type P = FileParserError<RamDiskError>;
    assert_eq!(P::NoFileName.message(), "File entry is missing file name.");
    assert_eq!(
        P::ReadFailed(EntryReaderError::ReadFailed(
            2,
            7,
            RamDiskError::UnexpectedEop
        ))
        .message(),
        "Cannot read entry #2 on cluster #7."
    );
    assert_eq!(
        P::InvalidStreamExtension.message(),
        "Invalid stream extension entry detected."
    );
    assert_eq!(
        P::WrongFileNameEntries.message(),
        "Wrong number of file name entries detected."
    );
    assert_eq!(
        P::InvalidFileName.message(),
        "Invalid file name entry detected."
    );

    type D = DirectoryError<RamDiskError>;
    assert_eq!(
        D::CreateClustersReaderFailed(ClusterChainError::InvalidFirstCluster).message(),
        "Cannot create a clusters reader for allocation: Invalid starting cluster."
    );
    assert_eq!(
        D::ReadEntryFailed(EntryReaderError::Entry(DirEntryError::InvalidEntry(1))).message(),
        "Cannot read an entry: Invalid directory entry detected: 1."
    );
    assert_eq!(
        D::NotPrimaryEntry(0xC1).message(),
        "Detected directory entry that is not `PRIMARY`. Detected entry type: 193"
    );
    assert_eq!(
        D::NotFileEntry(0x83).message(),
        "Detected directory entry that is not a file entry. Detected entry type: 131"
    );
    assert_eq!(
        D::InvalidFileEntry(FileParserError::InvalidFileName).message(),
        "Unable to parse file entry: Invalid file name entry detected."
    );
}

#[test]
fn messages_of_the_device_in_memory() {
    assert_eq!(
        RamDiskError::UnexpectedEop.message(),
        "The device ended before the read was complete."
    );
    assert_eq!(
        RamDiskError::ClusterNotFound(7682).message(),
        "Cluster #7682 has no place on the device."
    );
    assert_eq!(
        RamDiskError::WriteZero.message(),
        "The device took less than was written."
    );
    assert_eq!(
        RamDiskError::OutOfRange.message(),
        "The position is out of range."
    );
    assert_eq!(
        FileSeekError::InvalidInput.message(),
        "The position lies before the start of the file."
    );
}

#[test]
fn the_message_of_a_volume_that_is_none() {
    let e = Root::open(RamDisk::new(vec![0u8; 4096])).err().unwrap();
    assert_eq!(
        e.message(),
        "The provided volume is not an exFAT filesystem."
    );
    let e = Root::open(RamDisk::new(vec![0u8; 100])).err().unwrap();
    assert_eq!(
        e.message(),
        "I/O error: The device ended before the read was complete.."
    );
}
