//! Directories.

use crate::boot_sector::BootSector;
use crate::cluster::reader::{entry_bytes_at, spec_allocation, ClusterChainReader};
use crate::cluster::ClusterChainOptions;
use crate::disk::ReadOffset;
use crate::entry::parsed::{
    is_fault, is_read_failure, parse_file_set, EntrySource, FileSetFault, ParsedFileEntry,
};
use crate::entry::reader::DirEntryReader;
use crate::entry::{decoded, recognised_type, DirEntry, StreamExtensionEntry};
use crate::error::{ClusterChainError, DirEntryError, DirectoryError, EntryReaderError};
use crate::fat::Fat;
use crate::fs::{item_of, stream_options, FsElement, ItemView};
use crate::shared::share;
use crate::timestamp::Timestamps;
use std::sync::Arc;
use vstd::prelude::*;

verus! {

/// Why a directory cannot be listed.
pub enum DirectoryFault {
    /// The directory, or a file of it, has no cluster chain.
    Chain(ClusterChainError),
    /// The directory does not have the bytes of an entry that must be there.
    Unreadable,
    /// An entry has a type byte that is not recognised.
    UnknownEntry(u8),
    /// An entry in use is a secondary entry that belongs to no primary one.
    NotPrimary(u8),
    /// An entry in use is no file's primary entry.
    NotFile(u8),
    /// The entries behind a file's primary entry are no file set.
    FileSet(FileSetFault),
}

/// The entries from the number `from` on.
pub open spec fn entries_from(entries: EntrySource, from: int) -> EntrySource {
    |j: int| entries(from + j)
}

/// The files and directories that the entries from the number `k` on stand
/// for, behind those of `items`. Slots out of use are passed over, an entry
/// that is not in use and no slot ends the directory, and every other entry
/// must start a file set. The directory has `limit` entries at most.
pub open spec fn walk_directory(
    entries: EntrySource,
    k: int,
    limit: int,
    boot: BootSector,
    fat: Seq<u32>,
    items: Seq<ItemView>,
) -> Result<Seq<ItemView>, DirectoryFault>
    decreases
            (if limit - k > 0 {
                limit - k
            } else {
                0
            }),
{
    if k >= limit || k < 0 {
        Err(DirectoryFault::Unreadable)
    } else {
        match entries(k) {
            None => Err(DirectoryFault::Unreadable),
            Some(b) => if !recognised_type(b[0]) {
                Err(DirectoryFault::UnknownEntry(b[0]))
            } else if 0x00 < b[0] < 0x80 {
                walk_directory(entries, k + 1, limit, boot, fat, items)
            } else if b[0] < 0x81 {
                Ok(items)
            } else if b[0] & 0x40 != 0 {
                Err(DirectoryFault::NotPrimary(b[0]))
            } else if b[0] != 0x85 {
                Err(DirectoryFault::NotFile(b[0]))
            } else {
                match parse_file_set(decoded(b)->File_0, entries_from(entries, k + 1)) {
                    Err(fault) => Err(DirectoryFault::FileSet(fault)),
                    Ok(parsed) => match item_of(parsed, boot, fat) {
                        Err(e) => Err(DirectoryFault::Chain(e)),
                        Ok(item) => walk_directory(
                            entries,
                            k + 1 + decoded(b)->File_0.secondary_count,
                            limit,
                            boot,
                            fat,
                            items.push(item),
                        ),
                    },
                }
            },
        }
    }
}

/// The files and directories of the directory that a stream extension
/// describes, or the reason why it cannot be listed.
pub open spec fn list_directory(
    device: Seq<u8>,
    boot: BootSector,
    fat: Seq<u32>,
    stream: StreamExtensionEntry,
) -> Result<Seq<ItemView>, DirectoryFault> {
    match spec_allocation(boot, fat, stream.first_cluster, stream_options(stream, stream.data_len)) {
        Err(e) => Err(DirectoryFault::Chain(e)),
        Ok((chain, data_length)) => walk_directory(
            |k: int| entry_bytes_at(device, boot, chain, data_length as int, k),
            0,
            data_length as int / 32,
            boot,
            fat,
            Seq::empty(),
        ),
    }
}

/// Whether an error of listing a directory is the given fault.
pub open spec fn is_directory_fault<E>(e: DirectoryError<E>, fault: DirectoryFault) -> bool {
    match fault {
        DirectoryFault::Chain(c) => e matches DirectoryError::CreateClustersReaderFailed(d) && d == c,
        DirectoryFault::Unreadable => is_directory_read_failure(e),
        DirectoryFault::UnknownEntry(t) => e matches DirectoryError::ReadEntryFailed(
            EntryReaderError::Entry(DirEntryError::InvalidEntry(u)),
        ) && u == t,
        DirectoryFault::NotPrimary(t) => e matches DirectoryError::NotPrimaryEntry(u) && u == t,
        DirectoryFault::NotFile(t) => e matches DirectoryError::NotFileEntry(u) && u == t,
        DirectoryFault::FileSet(f) => e matches DirectoryError::InvalidFileEntry(p) && is_fault(p, f),
    }
}

/// Whether an error of listing a directory is a failure of the device.
pub open spec fn is_directory_read_failure<E>(e: DirectoryError<E>) -> bool {
    ||| e matches DirectoryError::ReadEntryFailed(EntryReaderError::ReadFailed(_, _, _))
    ||| e matches DirectoryError::InvalidFileEntry(p) && is_read_failure(p)
}

/// The files and directories of a list as plain values.
pub open spec fn item_views<O: ReadOffset>(items: Seq<FsElement<O>>) -> Seq<ItemView> {
    Seq::new(items.len(), |i: int| items[i]@)
}

/// A directory of a volume.
pub struct Directory<O: ReadOffset> {
    /// The device.
    pub disk: Arc<O>,
    /// The volume's boot sector.
    pub boot: Arc<BootSector>,
    /// The volume's FAT.
    pub fat: Arc<Fat>,
    /// The directory's name.
    pub name: String,
    /// The stream extension, which says where the directory's entries lie.
    pub stream: StreamExtensionEntry,
    /// The directory's times.
    pub timestamps: Timestamps,
}

impl<O: ReadOffset> Directory<O> {
    pub fn new(
        disk: Arc<O>,
        boot: Arc<BootSector>,
        fat: Arc<Fat>,
        name: String,
        stream: StreamExtensionEntry,
        timestamps: Timestamps,
    ) -> (r: Self)
        ensures
            r.disk == disk,
            r.boot == boot,
            r.fat == fat,
            r.name == name,
            r.stream == stream,
            r.timestamps == timestamps,
    {
        Directory { disk, boot, fat, name, stream, timestamps }
    }

    /// The directory's name.
    pub fn name(&self) -> (r: &str)
        ensures
            r@ == self.name@,
    {
        self.name.as_str()
    }

    /// The directory's times.
    pub fn timestamps(&self) -> (r: &Timestamps)
        ensures
            *r == self.timestamps,
    {
        &self.timestamps
    }

    /// Lists the directory: the files and directories that its entries stand
    /// for, up to the entry that ends it.
    ///
    /// What comes out is what the directory's entries hold, unless the
    /// device fails; a reliable device does not. The reader of each file
    /// stands at the start of the file's data.
    pub fn open(&self) -> (r: Result<Vec<FsElement<O>>, DirectoryError<O::Err>>)
        requires
            self.boot.shifts_valid(),
        ensures
            match (r, list_directory(self.disk.bytes(), *self.boot, self.fat@, self.stream)) {
                (Ok(items), Ok(views)) => item_views(items@) == views && forall|i: int|
                    0 <= i < items@.len() ==> (#[trigger] items@[i]).on_volume(
                        self.disk,
                        self.boot,
                        self.fat@,
                    ),
                (Err(e), Err(fault)) => is_directory_fault(e, fault) || (is_directory_read_failure(e)
                    && !self.disk.reliable()),
                (Err(e), Ok(_)) => is_directory_read_failure(e) && !self.disk.reliable(),
                (Ok(_), Err(_)) => false,
            },
    {
        let options = if self.stream.general_secondary_flags.no_fat_chain() {
            ClusterChainOptions::Contiguous { data_length: self.stream.data_len }
        } else {
            ClusterChainOptions::Fat { data_length: Some(self.stream.data_len) }
        };
        let chain_reader = match ClusterChainReader::try_new(
            share(&self.boot),
            &self.fat,
            self.stream.first_cluster,
            options,
            share(&self.disk),
        ) {
            Ok(c) => c,
            Err(e) => {
                return Err(DirectoryError::CreateClustersReaderFailed(e));
            },
        };
        let mut reader = DirEntryReader::from(chain_reader);
        let ghost first = reader;
        let ghost entries: EntrySource = first.entries();
        let ghost limit = reader.cluster_reader.data_length as int / 32;
        let ghost whole = walk_directory(entries, 0, limit, *self.boot, self.fat@, Seq::empty());
        proof {
            assert(entries =~= (|k: int|
                entry_bytes_at(
                    self.disk.bytes(),
                    *self.boot,
                    reader.cluster_reader.chain@,
                    reader.cluster_reader.data_length as int,
                    k,
                )));
            assert(whole == list_directory(self.disk.bytes(), *self.boot, self.fat@, self.stream));
        }
        let mut items: Vec<FsElement<O>> = Vec::new();
        let ghost mut k: int = 0;
        assert(item_views(items@) =~= Seq::<ItemView>::empty());
        loop
            invariant
                self.boot.shifts_valid(),
                reader.wf(),
                reader.cluster_reader.same_data(&first.cluster_reader),
                first.cluster_reader.disk == self.disk,
                first.cluster_reader.boot == self.boot,
                entries == first.entries(),
                limit == first.cluster_reader.data_length as int / 32,
                k >= 0,
                reader.cluster_reader.offset == 32 * k,
                whole == walk_directory(
                    entries,
                    k,
                    limit,
                    *self.boot,
                    self.fat@,
                    item_views(items@),
                ),
                whole == list_directory(self.disk.bytes(), *self.boot, self.fat@, self.stream),
                forall|i: int|
                    0 <= i < items@.len() ==> (#[trigger] items@[i]).on_volume(
                        self.disk,
                        self.boot,
                        self.fat@,
                    ),
            decreases reader.cluster_reader.data_length - reader.cluster_reader.offset,
        {
            let ghost here = reader;
            proof {
                here.lemma_peek_entries(k);
                assert(here.entries() =~= entries);
                if k >= limit {
                    assert(32 * k + 32 > here.cluster_reader.data_length);
                    assert(here.peek(0) is None);
                }
            }
            let entry: DirEntry = match reader.read() {
                Ok(e) => e,
                Err(e) => {
                    return Err(DirectoryError::ReadEntryFailed(e));
                },
            };
            proof {
                entry.lemma_decoded(entries(k).unwrap());
            }
            if entry.unused() {
                proof {
                    k = k + 1;
                }
                continue ;
            }
            if !entry.regular() {
                return Ok(items);
            } else if !entry.primary() {
                return Err(DirectoryError::NotPrimaryEntry(entry.entry_type()));
            }
            let file_entry = match entry {
                DirEntry::File(f) => f,
                _ => {
                    return Err(DirectoryError::NotFileEntry(entry.entry_type()));
                },
            };
            let ghost behind = reader;
            proof {
                behind.lemma_peek_entries(k + 1);
                assert(behind.entries() =~= entries);
                assert((|j: int| behind.peek(j)) =~= entries_from(entries, k + 1));
            }
            let parsed = match ParsedFileEntry::try_new(&file_entry, &mut reader) {
                Ok(p) => p,
                Err(e) => {
                    return Err(DirectoryError::InvalidFileEntry(e));
                },
            };
            let item = match FsElement::from_parsed(&self.disk, &self.boot, &self.fat, parsed) {
                Ok(i) => i,
                Err(e) => {
                    return Err(DirectoryError::CreateClustersReaderFailed(e));
                },
            };
            proof {
                assert(item_views(items@.push(item)) =~= item_views(items@).push(item@));
                k = k + 1 + file_entry.secondary_count;
            }
            items.push(item);
        }
    }
}

} // verus!
