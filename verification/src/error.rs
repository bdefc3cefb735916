//! Error kinds of the formatter and of the reader.
//!
//! Errors that wrap a device failure are generic over the device's own error
//! type `E`. Every error says in a sentence what went wrong; one that shows
//! the device's failure in its sentence asks the device's error for its own.

use crate::text::{decimal, decimal_text, hex, hex_text};
use vstd::prelude::*;
use vstd::string::StringExecFns;

verus! {

/// An error that says in words what went wrong.
pub trait ErrorMessage {
    /// The words.
    spec fn text(&self) -> Seq<char>;

    /// The error's message.
    fn message(&self) -> (r: String)
        ensures
            r@ == self.text(),
    ;
}

/// Failures of the geometry solver and of the formatter's checks.
#[derive(Debug, Clone, Copy, PartialEq, Eq)]
pub enum ExfatFormatError {
    /// The sector size is not a power of two between 512 and 4096.
    InvalidBytesPerSector(u16),
    /// The volume is smaller than one mebibyte.
    InvalidSize(u64),
    /// The partition offset overflows the volume's byte arithmetic.
    InvalidPartitionOffset(u64),
    /// The number of FATs is neither 1 nor 2.
    InvalidNumberOfFats(u8),
    /// The cluster size is not a power of two between the sector size and
    /// 32 MiB, or it leads to a FAT or cluster count out of range.
    InvalidClusterSize(u32),
    /// The boundary alignment pushes the FAT or the cluster heap out of range.
    BoundaryAlignTooBig(u32),
    /// The clock did not give a serial number.
    NoSerial,
    /// The allocation bitmap does not fit between the FAT and the cluster heap.
    CannotPackBitmap,
    /// The device's length differs from the size the volume was planned for.
    InvalidFileSize,
    /// The up-case table is not the default table.
    InvalidUpcaseTable,
}

/// Failures of writing a volume.
#[derive(Debug, PartialEq, Eq)]
pub enum ExfatError<E> {
    Format(ExfatFormatError),
    Io(E),
}

/// Failures of loading the FAT.
#[derive(Debug, PartialEq, Eq)]
pub enum FatLoadError<E> {
    /// The byte offset of the active FAT does not fit in 64 bits.
    InvalidOffset,
    /// The device failed at the given byte offset.
    ReadFailed(u64, E),
}

/// Failures of building a cluster chain reader.
#[derive(Debug, Clone, Copy, PartialEq, Eq)]
pub enum ClusterChainError {
    InvalidFirstCluster,
    InvalidDataLength,
}

/// A directory entry whose type byte is not recognised.
#[derive(Debug, Clone, Copy, PartialEq, Eq)]
pub enum DirEntryError {
    InvalidEntry(u8),
}

/// Failures of reading one directory entry.
#[derive(Debug, PartialEq, Eq)]
pub enum EntryReaderError<E> {
    /// Entry number, cluster and the device's failure.
    ReadFailed(usize, u32, E),
    Entry(DirEntryError),
}

/// Failures of parsing a file set.
#[derive(Debug, PartialEq, Eq)]
pub enum FileParserError<E> {
    NoStreamExtension,
    NoFileName,
    ReadFailed(EntryReaderError<E>),
    InvalidStreamExtension,
    WrongFileNameEntries,
    InvalidFileName,
}

/// Failures of opening a volume's root directory.
#[derive(Debug, PartialEq, Eq)]
pub enum RootError<E> {
    Io(E),
    WrongFs,
    InvalidBytesPerSectorShift(u8),
    InvalidSectorsPerClusterShift(u8),
    InvalidNumberOfFats(u8),
    Fat(FatLoadError<E>),
    InvalidRootDirectoryClusterIndex(u32),
    ClusterChain(ClusterChainError),
    DirEntry(EntryReaderError<E>),
    RootEntryNotPrimary(u8),
    InvalidNumberOfAllocationBitmaps,
    InvalidAllocationBitmap,
    InvalidNumberOfUpcaseTables,
    InvalidUpcaseTable,
    InvalidNumberOfVolumeLabels,
    InvalidVolumeLabel,
    InvalidFileEntry(FileParserError<E>),
    UnexpectedRootEntry(u8),
}

/// Failures of listing a directory.
#[derive(Debug, PartialEq, Eq)]
pub enum DirectoryError<E> {
    CreateClustersReaderFailed(ClusterChainError),
    ReadEntryFailed(EntryReaderError<E>),
    NotPrimaryEntry(u8),
    NotFileEntry(u8),
    InvalidFileEntry(FileParserError<E>),
}

impl ErrorMessage for ExfatFormatError {
    open spec fn text(&self) -> Seq<char> {
        match self {
            ExfatFormatError::InvalidBytesPerSector(n) => "Invalid bytes per sector. Must be a power of `2` and between `512` and `4096`: "@
                + decimal_text(n as nat)
                + "."@,
            ExfatFormatError::InvalidSize(n) => "Invalid volume size: "@
                + decimal_text(n as nat)
                + "."@,
            ExfatFormatError::InvalidPartitionOffset(n) => "Invalid partition offset: "@
                + decimal_text(n as nat)
                + "."@,
            ExfatFormatError::InvalidNumberOfFats(n) => "Invalid number of FATs (must be 1 or 2): "@
                + decimal_text(n as nat)
                + "."@,
            ExfatFormatError::InvalidClusterSize(n) => "Invalid cluster size: "@
                + decimal_text(n as nat)
                + ". Must be a power of `2` and at most 32MB: "@
                + decimal_text(n as nat),
            ExfatFormatError::BoundaryAlignTooBig(n) => "Boundary alignment is too big: "@
                + decimal_text(n as nat),
            ExfatFormatError::NoSerial => "Unable to generate unique serial number."@,
            ExfatFormatError::CannotPackBitmap => "Unable to pack bitmap."@,
            ExfatFormatError::InvalidFileSize => "File size does not match exFAT size."@,
            ExfatFormatError::InvalidUpcaseTable => "The up-case table is not the default table."@,
        }
    }

    fn message(&self) -> (r: String) {
        match self {
            ExfatFormatError::InvalidBytesPerSector(n) => String::from_str("Invalid bytes per sector. Must be a power of `2` and between `512` and `4096`: ")
                .concat(decimal(*n as u64).as_str())
                .concat("."),
            ExfatFormatError::InvalidSize(n) => String::from_str("Invalid volume size: ")
                .concat(decimal(*n as u64).as_str())
                .concat("."),
            ExfatFormatError::InvalidPartitionOffset(n) => String::from_str("Invalid partition offset: ")
                .concat(decimal(*n as u64).as_str())
                .concat("."),
            ExfatFormatError::InvalidNumberOfFats(n) => String::from_str("Invalid number of FATs (must be 1 or 2): ")
                .concat(decimal(*n as u64).as_str())
                .concat("."),
            ExfatFormatError::InvalidClusterSize(n) => String::from_str("Invalid cluster size: ")
                .concat(decimal(*n as u64).as_str())
                .concat(". Must be a power of `2` and at most 32MB: ")
                .concat(decimal(*n as u64).as_str()),
            ExfatFormatError::BoundaryAlignTooBig(n) => String::from_str("Boundary alignment is too big: ")
                .concat(decimal(*n as u64).as_str()),
            ExfatFormatError::NoSerial => String::from_str("Unable to generate unique serial number."),
            ExfatFormatError::CannotPackBitmap => String::from_str("Unable to pack bitmap."),
            ExfatFormatError::InvalidFileSize => String::from_str("File size does not match exFAT size."),
            ExfatFormatError::InvalidUpcaseTable => String::from_str("The up-case table is not the default table."),
        }
    }
}

impl<E: ErrorMessage> ErrorMessage for ExfatError<E> {
    open spec fn text(&self) -> Seq<char> {
        match self {
            ExfatError::Format(e) => e.text(),
            ExfatError::Io(e) => "I/O error: "@
                + e.text()
                + "."@,
        }
    }

    fn message(&self) -> (r: String) {
        match self {
            ExfatError::Format(e) => e.message(),
            ExfatError::Io(e) => String::from_str("I/O error: ")
                .concat(e.message().as_str())
                .concat("."),
        }
    }
}

impl<E> ErrorMessage for FatLoadError<E> {
    open spec fn text(&self) -> Seq<char> {
        match self {
            FatLoadError::InvalidOffset => "FAT starts at invalid offset."@,
            FatLoadError::ReadFailed(at, _) => "Read failed at: "@
                + hex_text(at as nat)
                + "."@,
        }
    }

    fn message(&self) -> (r: String) {
        match self {
            FatLoadError::InvalidOffset => String::from_str("FAT starts at invalid offset."),
            FatLoadError::ReadFailed(at, _) => String::from_str("Read failed at: ")
                .concat(hex(*at as u64).as_str())
                .concat("."),
        }
    }
}

impl ErrorMessage for ClusterChainError {
    open spec fn text(&self) -> Seq<char> {
        match self {
            ClusterChainError::InvalidFirstCluster => "Invalid starting cluster."@,
            ClusterChainError::InvalidDataLength => "Invalid data length for cluster chain."@,
        }
    }

    fn message(&self) -> (r: String) {
        match self {
            ClusterChainError::InvalidFirstCluster => String::from_str("Invalid starting cluster."),
            ClusterChainError::InvalidDataLength => String::from_str("Invalid data length for cluster chain."),
        }
    }
}

impl ErrorMessage for DirEntryError {
    open spec fn text(&self) -> Seq<char> {
        match self {
            DirEntryError::InvalidEntry(t) => "Invalid directory entry detected: "@
                + decimal_text(t as nat)
                + "."@,
        }
    }

    fn message(&self) -> (r: String) {
        match self {
            DirEntryError::InvalidEntry(t) => String::from_str("Invalid directory entry detected: ")
                .concat(decimal(*t as u64).as_str())
                .concat("."),
        }
    }
}

impl<E> ErrorMessage for EntryReaderError<E> {
    open spec fn text(&self) -> Seq<char> {
        match self {
            EntryReaderError::ReadFailed(index, cluster, _) => "Cannot read entry #"@
                + decimal_text(index as nat)
                + " on cluster #"@
                + decimal_text(cluster as nat)
                + "."@,
            EntryReaderError::Entry(e) => e.text(),
        }
    }

    fn message(&self) -> (r: String) {
        match self {
            EntryReaderError::ReadFailed(index, cluster, _) => String::from_str("Cannot read entry #")
                .concat(decimal(*index as u64).as_str())
                .concat(" on cluster #")
                .concat(decimal(*cluster as u64).as_str())
                .concat("."),
            EntryReaderError::Entry(e) => e.message(),
        }
    }
}

impl<E> ErrorMessage for FileParserError<E> {
    open spec fn text(&self) -> Seq<char> {
        match self {
            FileParserError::NoStreamExtension => "File entry is missing stream extension."@,
            FileParserError::NoFileName => "File entry is missing file name."@,
            FileParserError::ReadFailed(e) => e.text(),
            FileParserError::InvalidStreamExtension => "Invalid stream extension entry detected."@,
            FileParserError::WrongFileNameEntries => "Wrong number of file name entries detected."@,
            FileParserError::InvalidFileName => "Invalid file name entry detected."@,
        }
    }

    fn message(&self) -> (r: String) {
        match self {
            FileParserError::NoStreamExtension => String::from_str("File entry is missing stream extension."),
            FileParserError::NoFileName => String::from_str("File entry is missing file name."),
            FileParserError::ReadFailed(e) => e.message(),
            FileParserError::InvalidStreamExtension => String::from_str("Invalid stream extension entry detected."),
            FileParserError::WrongFileNameEntries => String::from_str("Wrong number of file name entries detected."),
            FileParserError::InvalidFileName => String::from_str("Invalid file name entry detected."),
        }
    }
}

impl<E: ErrorMessage> ErrorMessage for RootError<E> {
    open spec fn text(&self) -> Seq<char> {
        match self {
            RootError::Io(e) => "I/O error: "@
                + e.text()
                + "."@,
            RootError::WrongFs => "The provided volume is not an exFAT filesystem."@,
            RootError::InvalidBytesPerSectorShift(n) => "Invalid bytes per sector shift detected: "@
                + decimal_text(n as nat)
                + ". Must be between `9` and `12`"@,
            RootError::InvalidSectorsPerClusterShift(n) => "Invalid sectors per cluster shift detected: "@
                + decimal_text(n as nat)
                + "."@,
            RootError::InvalidNumberOfFats(n) => "Invalid number of FATs detected: "@
                + decimal_text(n as nat)
                + ". Must be either `1` or `2`."@,
            RootError::Fat(e) => "Fat could not be parsed: "@
                + e.text()
                + "."@,
            RootError::InvalidRootDirectoryClusterIndex(n) => "Invalid index of root directory cluster detected: "@
                + decimal_text(n as nat)
                + ". Must be bigger than `2` and at most `cluster_count + 1`"@,
            RootError::ClusterChain(e) => "Cluster chain could not be parsed: "@
                + e.text()
                + "."@,
            RootError::DirEntry(e) => "Entry Reader Error: "@
                + e.text()
                + "."@,
            RootError::RootEntryNotPrimary(t) => "All directory entries of the root directory must be of type `PRIMARY`. Detected entry type: "@
                + decimal_text(t as nat),
            RootError::InvalidNumberOfAllocationBitmaps => "More than 2 allocation bitmap root entry fields detected."@,
            RootError::InvalidAllocationBitmap => "Corrupt allocation bitmap entry."@,
            RootError::InvalidNumberOfUpcaseTables => "More than 1 upcase table root entry field detected."@,
            RootError::InvalidUpcaseTable => "Corrupt upcase table entry."@,
            RootError::InvalidNumberOfVolumeLabels => "More than 1 volume label root entry field detected."@,
            RootError::InvalidVolumeLabel => "Corrupt volume label entry."@,
            RootError::InvalidFileEntry(e) => "Unable to parse file entry: "@
                + e.text(),
            RootError::UnexpectedRootEntry(t) => "Unexpected directory entry in root directory. Detected entry type: "@
                + decimal_text(t as nat),
        }
    }

    fn message(&self) -> (r: String) {
        match self {
            RootError::Io(e) => String::from_str("I/O error: ")
                .concat(e.message().as_str())
                .concat("."),
            RootError::WrongFs => String::from_str("The provided volume is not an exFAT filesystem."),
            RootError::InvalidBytesPerSectorShift(n) => String::from_str("Invalid bytes per sector shift detected: ")
                .concat(decimal(*n as u64).as_str())
                .concat(". Must be between `9` and `12`"),
            RootError::InvalidSectorsPerClusterShift(n) => String::from_str("Invalid sectors per cluster shift detected: ")
                .concat(decimal(*n as u64).as_str())
                .concat("."),
            RootError::InvalidNumberOfFats(n) => String::from_str("Invalid number of FATs detected: ")
                .concat(decimal(*n as u64).as_str())
                .concat(". Must be either `1` or `2`."),
            RootError::Fat(e) => String::from_str("Fat could not be parsed: ")
                .concat(e.message().as_str())
                .concat("."),
            RootError::InvalidRootDirectoryClusterIndex(n) => String::from_str("Invalid index of root directory cluster detected: ")
                .concat(decimal(*n as u64).as_str())
                .concat(". Must be bigger than `2` and at most `cluster_count + 1`"),
            RootError::ClusterChain(e) => String::from_str("Cluster chain could not be parsed: ")
                .concat(e.message().as_str())
                .concat("."),
            RootError::DirEntry(e) => String::from_str("Entry Reader Error: ")
                .concat(e.message().as_str())
                .concat("."),
            RootError::RootEntryNotPrimary(t) => String::from_str("All directory entries of the root directory must be of type `PRIMARY`. Detected entry type: ")
                .concat(decimal(*t as u64).as_str()),
            RootError::InvalidNumberOfAllocationBitmaps => String::from_str("More than 2 allocation bitmap root entry fields detected."),
            RootError::InvalidAllocationBitmap => String::from_str("Corrupt allocation bitmap entry."),
            RootError::InvalidNumberOfUpcaseTables => String::from_str("More than 1 upcase table root entry field detected."),
            RootError::InvalidUpcaseTable => String::from_str("Corrupt upcase table entry."),
            RootError::InvalidNumberOfVolumeLabels => String::from_str("More than 1 volume label root entry field detected."),
            RootError::InvalidVolumeLabel => String::from_str("Corrupt volume label entry."),
            RootError::InvalidFileEntry(e) => String::from_str("Unable to parse file entry: ")
                .concat(e.message().as_str()),
            RootError::UnexpectedRootEntry(t) => String::from_str("Unexpected directory entry in root directory. Detected entry type: ")
                .concat(decimal(*t as u64).as_str()),
        }
    }
}

impl<E> ErrorMessage for DirectoryError<E> {
    open spec fn text(&self) -> Seq<char> {
        match self {
            DirectoryError::CreateClustersReaderFailed(e) => "Cannot create a clusters reader for allocation: "@
                + e.text(),
            DirectoryError::ReadEntryFailed(e) => "Cannot read an entry: "@
                + e.text(),
            DirectoryError::NotPrimaryEntry(t) => "Detected directory entry that is not `PRIMARY`. Detected entry type: "@
                + decimal_text(t as nat),
            DirectoryError::NotFileEntry(t) => "Detected directory entry that is not a file entry. Detected entry type: "@
                + decimal_text(t as nat),
            DirectoryError::InvalidFileEntry(e) => "Unable to parse file entry: "@
                + e.text(),
        }
    }

    fn message(&self) -> (r: String) {
        match self {
            DirectoryError::CreateClustersReaderFailed(e) => String::from_str("Cannot create a clusters reader for allocation: ")
                .concat(e.message().as_str()),
            DirectoryError::ReadEntryFailed(e) => String::from_str("Cannot read an entry: ")
                .concat(e.message().as_str()),
            DirectoryError::NotPrimaryEntry(t) => String::from_str("Detected directory entry that is not `PRIMARY`. Detected entry type: ")
                .concat(decimal(*t as u64).as_str()),
            DirectoryError::NotFileEntry(t) => String::from_str("Detected directory entry that is not a file entry. Detected entry type: ")
                .concat(decimal(*t as u64).as_str()),
            DirectoryError::InvalidFileEntry(e) => String::from_str("Unable to parse file entry: ")
                .concat(e.message().as_str()),
        }
    }
}

} // verus!
