//! File sets: a file's primary entry, its stream extension and the entries of
//! its name.

use crate::arith::div_ceil;
use crate::codec::get_u16;
use crate::disk::ReadOffset;
use crate::entry::reader::DirEntryReader;
use crate::entry::{
    decoded, recognised_type, ClusterAllocation, DirEntry, FileAttributes, FileEntry,
    FileNameEntry, StreamExtensionEntry,
};
use crate::error::{DirEntryError, EntryReaderError, FileParserError};
use crate::label::lemma_le_value_pair;
use crate::timestamp::{spec_utc_offset, utc_offset, Timestamp, Timestamps};
use crate::utf16::{decode_utf16, text_of_units};
use vstd::prelude::*;

verus! {

/// Number of UTF-16 code units that one file name entry holds.
pub const NAME_UNITS_PER_ENTRY: u8 = 15;

/// A file set, read and checked.
#[derive(Debug)]
pub struct ParsedFileEntry {
    /// The file's name.
    pub name: String,
    /// The file's attributes.
    pub attributes: FileAttributes,
    /// The stream extension, which says where the file's data lies.
    pub stream_extension_entry: StreamExtensionEntry,
    /// The file's times.
    pub timestamps: Timestamps,
}

/// A file set as plain values.
pub struct ParsedFileView {
    pub name: Seq<char>,
    pub attributes: FileAttributes,
    pub stream_extension_entry: StreamExtensionEntry,
    pub timestamps: Timestamps,
}

impl View for ParsedFileEntry {
    type V = ParsedFileView;

    open spec fn view(&self) -> ParsedFileView {
        ParsedFileView {
            name: self.name@,
            attributes: self.attributes,
            stream_extension_entry: self.stream_extension_entry,
            timestamps: self.timestamps,
        }
    }
}

/// Why the entries behind a file's primary entry are no file set.
pub enum FileSetFault {
    /// The primary entry counts no secondary entry, or the first secondary
    /// entry is no stream extension.
    NoStreamExtension,
    /// The primary entry counts one secondary entry only, or an entry behind
    /// the stream extension is no file name entry.
    NoFileName,
    /// The directory does not have the bytes of an entry of the set.
    Unreadable,
    /// An entry of the set has a type byte that is not recognised.
    UnknownEntry(u8),
    /// The stream extension's fields cannot stand together.
    InvalidStreamExtension,
    /// The number of file name entries does not go with the name's length.
    WrongFileNameEntries,
    /// A file name entry claims an allocation, or the name is not
    /// well-formed UTF-16.
    InvalidFileName,
}

/// What the entries of a directory look like from some entry on: the 32
/// bytes of the entry that stands `j` entries ahead, where there are any.
pub type EntrySource = spec_fn(int) -> Option<Seq<u8>>;

/// The times that a file's primary entry records.
pub open spec fn timestamps_of(file: FileEntry) -> Timestamps {
    Timestamps {
        created: Timestamp {
            timestamp: file.create_timestamp,
            ten_ms_increment: file.create_10ms_increment,
            utc_offset: spec_utc_offset(file.create_utc_offset),
        },
        modified: Timestamp {
            timestamp: file.last_modified_timestamp,
            ten_ms_increment: file.last_modified_10ms_increment,
            utc_offset: spec_utc_offset(file.last_modified_utc_offset),
        },
        accessed: Timestamp {
            timestamp: file.last_accessed_timestamp,
            ten_ms_increment: 0,
            utc_offset: spec_utc_offset(file.last_accessed_utc_offset),
        },
    }
}

/// The first fault among the entries that stand for the name, from the
/// `j`-th of `count` on: each must be there, of a recognised type, and a file
/// name entry.
pub open spec fn name_entries_fault(ahead: EntrySource, count: int, j: int) -> Option<FileSetFault>
    decreases count - j,
{
    if j >= count {
        None
    } else {
        match ahead(1 + j) {
            None => Some(FileSetFault::Unreadable),
            Some(b) => if !recognised_type(b[0]) {
                Some(FileSetFault::UnknownEntry(b[0]))
            } else if b[0] != 0xC1 {
                Some(FileSetFault::NoFileName)
            } else {
                name_entries_fault(ahead, count, j + 1)
            },
        }
    }
}

/// Whether one of the `count` file name entries claims an allocation.
pub open spec fn name_entry_claims_allocation(ahead: EntrySource, count: int) -> bool {
    exists|j: int| 0 <= j < count && (#[trigger] ahead(1 + j)).unwrap()[1] & 1 != 0
}

/// The code units of a name of `length` code units: 15 in each file name
/// entry, from the entry's third byte on, least significant byte first.
pub open spec fn name_units(ahead: EntrySource, length: int) -> Seq<u16> {
    Seq::new(
        length as nat,
        |k: int|
            {
                let b = ahead(1 + k / 15).unwrap();
                (b[2 + 2 * (k % 15)] + 256 * b[3 + 2 * (k % 15)]) as u16
            },
    )
}

/// The stream extension of a file set: the first entry behind the primary
/// entry, which must count two secondary entries or more. The stream
/// extension's fields must be able to stand together; a directory's data must
/// all be valid.
pub open spec fn stream_extension_of(file: FileEntry, ahead: EntrySource) -> Result<
    StreamExtensionEntry,
    FileSetFault,
> {
    if file.secondary_count < 1 {
        Err(FileSetFault::NoStreamExtension)
    } else if file.secondary_count < 2 {
        Err(FileSetFault::NoFileName)
    } else {
        match ahead(0) {
            None => Err(FileSetFault::Unreadable),
            Some(b) => if !recognised_type(b[0]) {
                Err(FileSetFault::UnknownEntry(b[0]))
            } else if b[0] != 0xC0 {
                Err(FileSetFault::NoStreamExtension)
            } else if !decoded(b)->StreamExtension_0.spec_valid() || (
            file.file_attributes.spec_is_directory() && decoded(
                b,
            )->StreamExtension_0.valid_data_length != decoded(b)->StreamExtension_0.data_len) {
                Err(FileSetFault::InvalidStreamExtension)
            } else {
                Ok(decoded(b)->StreamExtension_0)
            },
        }
    }
}

/// The file set that stands behind a file's primary entry, or the reason why
/// there is none.
pub open spec fn parse_file_set(file: FileEntry, ahead: EntrySource) -> Result<
    ParsedFileView,
    FileSetFault,
> {
    let count = file.secondary_count - 1;
    match stream_extension_of(file, ahead) {
        Err(fault) => Err(fault),
        Ok(stream) => match name_entries_fault(ahead, count, 0) {
            Some(fault) => Err(fault),
            None => if count != div_ceil(stream.name_length as int, 15) {
                Err(FileSetFault::WrongFileNameEntries)
            } else if name_entry_claims_allocation(ahead, count) {
                Err(FileSetFault::InvalidFileName)
            } else {
                match text_of_units(name_units(ahead, stream.name_length as int)) {
                    None => Err(FileSetFault::InvalidFileName),
                    Some(name) => Ok(
                        ParsedFileView {
                            name,
                            attributes: file.file_attributes,
                            stream_extension_entry: stream,
                            timestamps: timestamps_of(file),
                        },
                    ),
                }
            },
        },
    }
}

/// Whether an error of the parser is the given fault.
pub open spec fn is_fault<E>(e: FileParserError<E>, fault: FileSetFault) -> bool {
    match fault {
        FileSetFault::NoStreamExtension => e is NoStreamExtension,
        FileSetFault::NoFileName => e is NoFileName,
        FileSetFault::Unreadable => is_read_failure(e),
        FileSetFault::UnknownEntry(t) => e matches FileParserError::ReadFailed(
            EntryReaderError::Entry(DirEntryError::InvalidEntry(u)),
        ) && u == t,
        FileSetFault::InvalidStreamExtension => e is InvalidStreamExtension,
        FileSetFault::WrongFileNameEntries => e is WrongFileNameEntries,
        FileSetFault::InvalidFileName => e is InvalidFileName,
    }
}

/// Whether an error of the parser is a failure of the device.
pub open spec fn is_read_failure<E>(e: FileParserError<E>) -> bool {
    e matches FileParserError::ReadFailed(EntryReaderError::ReadFailed(_, _, _))
}

/// Whether what the parser gave is what the entries hold.
pub open spec fn is_outcome<E>(
    r: Result<ParsedFileEntry, FileParserError<E>>,
    expected: Result<ParsedFileView, FileSetFault>,
) -> bool {
    match (r, expected) {
        (Ok(p), Ok(v)) => p@ == v,
        (Err(e), Err(fault)) => is_fault(e, fault),
        _ => false,
    }
}

impl ParsedFileEntry {
    /// Reads the file set of a file's primary entry: a stream extension whose
    /// fields can stand together, and as many file name entries as the
    /// name's length asks for, none of which claims an allocation. The name
    /// is put together from the name entries and must be well-formed UTF-16.
    ///
    /// A file entry that announces no secondary entry, or one only, is
    /// refused before anything is read. Otherwise what comes out is what the
    /// directory's entries hold, unless the device fails; a reliable device
    /// does not.
    pub fn try_new<O: ReadOffset>(file_entry: &FileEntry, reader: &mut DirEntryReader<O>) -> (r:
        Result<ParsedFileEntry, FileParserError<O::Err>>)
        requires
            old(reader).wf(),
        ensures
            final(reader).wf(),
            final(reader).cluster_reader.same_data(&old(reader).cluster_reader),
            old(reader).cluster_reader.offset <= final(reader).cluster_reader.offset <= old(
                reader,
            ).cluster_reader.offset + 32 * file_entry.secondary_count,
            r is Ok ==> final(reader).follows(old(reader), file_entry.secondary_count as int),
            file_entry.secondary_count < 1 ==> (r matches Err(FileParserError::NoStreamExtension))
                && *final(reader) == *old(reader),
            file_entry.secondary_count == 1 ==> (r matches Err(FileParserError::NoFileName))
                && *final(reader) == *old(reader),
            is_outcome(r, parse_file_set(*file_entry, |j: int| old(reader).peek(j))) || (r matches Err(
                e,
            ) && is_read_failure(e) && !old(reader).cluster_reader.disk.reliable()),
    {
        let ghost ahead: EntrySource = |j: int| old(reader).peek(j);
        let ghost start = old(reader).cluster_reader.offset as int;
        let secondary_count: u8 = file_entry.secondary_count;
        if secondary_count < 1 {
            return Err(FileParserError::NoStreamExtension);
        } else if secondary_count < 2 {
            return Err(FileParserError::NoFileName);
        }
        // The stream extension.
        let stream_extension: DirEntry = match reader.read() {
            Ok(e) => e,
            Err(e) => {
                return Err(FileParserError::ReadFailed(e));
            },
        };
        proof {
            assert(ahead(0) == old(reader).peek(0));
            stream_extension.lemma_decoded(ahead(0).unwrap());
        }
        let stream_extension_entry: StreamExtensionEntry = match stream_extension {
            DirEntry::StreamExtension(s) => {
                if !s.valid() || (file_entry.file_attributes.is_directory() && s.valid_data_length
                    != s.data_len) {
                    return Err(FileParserError::InvalidStreamExtension);
                }
                s
            },
            _ => {
                return Err(FileParserError::NoStreamExtension);
            },
        };

        // The entries of the name.
        let name_count: u8 = secondary_count - 1;
        let mut names: Vec<FileNameEntry> = Vec::new();
        let mut j: u8 = 0;
        while j < name_count
            invariant
                j <= name_count,
                name_count == file_entry.secondary_count - 1,
                reader.wf(),
                reader.cluster_reader.same_data(&old(reader).cluster_reader),
                reader.cluster_reader.offset == start + 32 * (1 + j),
                start == old(reader).cluster_reader.offset,
                ahead == (|j: int| old(reader).peek(j)),
                names@.len() == j,
                stream_extension_of(*file_entry, ahead) == Ok::<StreamExtensionEntry, FileSetFault>(
                    stream_extension_entry,
                ),
                name_entries_fault(ahead, name_count as int, 0) == name_entries_fault(
                    ahead,
                    name_count as int,
                    j as int,
                ),
                forall|i: int|
                    0 <= i < j ==> (#[trigger] ahead(1 + i)) is Some && ahead(1 + i).unwrap().len()
                        == 32 && DirEntry::FileName(names@[i]).parses(ahead(1 + i).unwrap()),
            decreases name_count - j,
        {
            let ghost here = *reader;
            proof {
                assert(here.follows(old(reader), 1 + j));
                here.lemma_follows(old(reader), 1 + j);
                assert(here.peek(0) == ahead(1 + j));
            }
            let file_name: DirEntry = match reader.read() {
                Ok(e) => e,
                Err(e) => {
                    return Err(FileParserError::ReadFailed(e));
                },
            };
            match file_name {
                DirEntry::FileName(f) => {
                    names.push(f);
                },
                _ => {
                    return Err(FileParserError::NoFileName);
                },
            }
            j = j + 1;
        }
        assert(name_entries_fault(ahead, name_count as int, 0) is None);
        let name_length: u8 = stream_extension_entry.name_length;
        let wanted: u8 = if name_length % 15 == 0 {
            name_length / 15
        } else {
            name_length / 15 + 1
        };
        if name_count != wanted {
            return Err(FileParserError::WrongFileNameEntries);
        }
        // No entry of the name may claim an allocation.
        let mut i: usize = 0;
        while i < names.len()
            invariant
                i <= names@.len(),
                names@.len() == name_count,
                name_count == file_entry.secondary_count - 1,
                reader.wf(),
                reader.cluster_reader.same_data(&old(reader).cluster_reader),
                reader.cluster_reader.offset == start + 32 * (1 + name_count),
                start == old(reader).cluster_reader.offset,
                ahead == (|j: int| old(reader).peek(j)),
                stream_extension_of(*file_entry, ahead) == Ok::<StreamExtensionEntry, FileSetFault>(
                    stream_extension_entry,
                ),
                name_entries_fault(ahead, name_count as int, 0) is None,
                name_count == div_ceil(stream_extension_entry.name_length as int, 15),
                forall|k: int|
                    0 <= k < names@.len() ==> (#[trigger] ahead(1 + k)) is Some && ahead(
                        1 + k,
                    ).unwrap().len() == 32 && DirEntry::FileName(names@[k]).parses(
                        ahead(1 + k).unwrap(),
                    ),
                forall|k: int| 0 <= k < i ==> (#[trigger] ahead(1 + k)).unwrap()[1] & 1 == 0,
            decreases names@.len() - i,
        {
            if names[i].general_secondary_flags.allocation_possible() {
                assert(ahead(1 + i as int).unwrap()[1] & 1 != 0);
                return Err(FileParserError::InvalidFileName);
            }
            i = i + 1;
        }
        assert(!name_entry_claims_allocation(ahead, name_count as int));

        // The name's code units.
        let mut units: Vec<u16> = Vec::new();
        let mut k: usize = 0;
        while k < name_length as usize
            invariant
                k <= name_length,
                name_length == stream_extension_entry.name_length,
                name_count == div_ceil(name_length as int, 15),
                names@.len() == name_count,
                name_count == file_entry.secondary_count - 1,
                reader.wf(),
                reader.cluster_reader.same_data(&old(reader).cluster_reader),
                reader.cluster_reader.offset == start + 32 * (1 + name_count),
                start == old(reader).cluster_reader.offset,
                ahead == (|j: int| old(reader).peek(j)),
                stream_extension_of(*file_entry, ahead) == Ok::<StreamExtensionEntry, FileSetFault>(
                    stream_extension_entry,
                ),
                name_entries_fault(ahead, name_count as int, 0) is None,
                !name_entry_claims_allocation(ahead, name_count as int),
                forall|n: int|
                    0 <= n < names@.len() ==> (#[trigger] ahead(1 + n)) is Some && ahead(
                        1 + n,
                    ).unwrap().len() == 32 && DirEntry::FileName(names@[n]).parses(
                        ahead(1 + n).unwrap(),
                    ),
                units@.len() == k,
                forall|n: int| 0 <= n < k ==> units@[n] == name_units(ahead, name_length as int)[n],
            decreases name_length - k,
        {
            let entry: usize = k / 15;
            let within: usize = k % 15;
            let name: &FileNameEntry = &names[entry];
            let unit: u16 = get_u16(&name.file_name, 2 * within);
            proof {
                let b = ahead(1 + entry as int).unwrap();
                lemma_le_value_pair(name.file_name@.subrange(2 * within as int, 2 * within + 2));
                assert(DirEntry::FileName(names@[entry as int]).parses(b));
                assert(name.file_name@ == b.subrange(2, 32));
                assert(name.file_name@[2 * within as int] == b[2 + 2 * within]);
                assert(name.file_name@[2 * within + 1] == b[3 + 2 * within]);
                assert(unit == name_units(ahead, name_length as int)[k as int]);
            }
            units.push(unit);
            k = k + 1;
        }
        assert(units@ =~= name_units(ahead, name_length as int));
        let name: String = match decode_utf16(&units) {
            Some(s) => s,
            None => {
                return Err(FileParserError::InvalidFileName);
            },
        };
        Ok(
            ParsedFileEntry {
                name,
                stream_extension_entry,
                attributes: file_entry.file_attributes,
                timestamps: Timestamps::new(
                    Timestamp::new(
                        file_entry.create_timestamp,
                        file_entry.create_10ms_increment,
                        utc_offset(file_entry.create_utc_offset),
                    ),
                    Timestamp::new(
                        file_entry.last_modified_timestamp,
                        file_entry.last_modified_10ms_increment,
                        utc_offset(file_entry.last_modified_utc_offset),
                    ),
                    Timestamp::new(
                        file_entry.last_accessed_timestamp,
                        0,
                        utc_offset(file_entry.last_accessed_utc_offset),
                    ),
                ),
            },
        )
    }
}

} // verus!
