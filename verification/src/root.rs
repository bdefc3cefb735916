//! The root directory: what a formatter puts into it, and what a reader
//! finds in it.

use crate::boot_sector::{active_fat_set, parsed_boot_sector, BootSector};
use crate::cluster::reader::{entry_bytes_at, spec_allocation, ClusterChainReader};
use crate::cluster::ClusterChainOptions;
use crate::codec::{le_bytes, lemma_le_bytes_len, put_bytes};
use crate::disk::{read_exact, ReadOffset};
use crate::entry::parsed::{
    is_fault, is_read_failure, parse_file_set, EntrySource, FileSetFault, ParsedFileEntry,
};
use crate::entry::reader::DirEntryReader;
use crate::entry::{
    decoded, lemma_set_checksum_skips, recognised_type, set_checksum, BitmapEntry,
    ClusterAllocation, DirEntry, UpcaseTableEntry, VolumeGuidEntry, VolumeLabelEntry,
    VOLUME_GUID_ENTRY_TYPE,
};
use crate::error::{
    ClusterChainError, DirEntryError, EntryReaderError, FatLoadError, RootError,
};
use crate::fat::{fat_byte_offset, fat_loadable, fat_words, Fat};
use crate::fs::directory::entries_from;
use crate::fs::directory::item_views;
use crate::fs::{item_of, FsElement, ItemView};
use crate::label::Label;
use crate::shared::share;
use std::sync::Arc;
use vstd::prelude::*;

verus! {

/// The bytes of a sequence of entries, 32 for each.
pub open spec fn entries_bytes(entries: Seq<DirEntry>) -> Seq<u8>
    decreases entries.len(),
{
    if entries.len() == 0 {
        Seq::empty()
    } else {
        entries_bytes(entries.drop_last()) + entries.last().spec_bytes()
    }
}

/// The bytes of the volume GUID's entry with the given checksum.
pub open spec fn guid_entry_bytes(guid: u128, sum: u16) -> Seq<u8> {
    seq![0xA0u8, 0u8] + le_bytes(sum as nat, 2) + le_bytes(0, 2) + le_bytes(guid as nat, 16)
        + Seq::new(10, |i: int| 0u8)
}

/// The 128 bytes of the root directory of a fresh volume, four entries of 32
/// bytes: the label's entry, type `0x83`, with the number of code units and
/// the 22 bytes of the label; the GUID's entry, type `0xA0`, with its
/// checksum, or an unused slot of type `0x20` where the volume has no GUID;
/// the bitmap's entry, type `0x81`, with the first cluster 2 and the bitmap's
/// length; the up-case table's entry, type `0x82`, with the table's checksum,
/// first cluster and length.
pub open spec fn fresh_root_bytes(
    volume_label: Label,
    volume_guid: Option<u128>,
    bitmap_length_bytes: u64,
    uptable_start_cluster: u32,
) -> Seq<u8> {
    (seq![0x83u8, volume_label.1] + volume_label.0@ + le_bytes(0, 8)) + (match volume_guid {
        Some(guid) => guid_entry_bytes(guid, set_checksum(0, guid_entry_bytes(guid, 0))),
        None => seq![0x20u8] + Seq::new(31, |i: int| 0u8),
    }) + (seq![0x81u8, 0u8] + Seq::new(18, |i: int| 0u8) + le_bytes(2, 4) + le_bytes(
        bitmap_length_bytes as nat,
        8,
    )) + (seq![0x82u8] + Seq::new(3, |i: int| 0u8) + le_bytes(0xE619D30D, 4) + Seq::new(
        12,
        |i: int| 0u8,
    ) + le_bytes(uptable_start_cluster as nat, 4) + le_bytes(5836, 8))
}

/// The root directory as a formatter writes it.
pub struct RawRoot {
    /// The volume label's entry.
    pub vol_label: DirEntry,
    /// The volume GUID's entry, or the slot that it leaves.
    pub vol_guid: DirEntry,
    /// The allocation bitmap's entry.
    pub bitmap: DirEntry,
    /// The up-case table's entry.
    pub uptable: DirEntry,
    /// Any further entries.
    pub items: Vec<DirEntry>,
}

impl RawRoot {
    /// The entries in their order on the volume.
    pub open spec fn entries(&self) -> Seq<DirEntry> {
        seq![self.vol_label, self.vol_guid, self.bitmap, self.uptable] + self.items@
    }

    /// The root directory's bytes.
    pub open spec fn spec_bytes(&self) -> Seq<u8> {
        entries_bytes(self.entries())
    }

    /// Whether the root directory is the one of a fresh volume with the given
    /// label, GUID, bitmap length and first cluster of the up-case table.
    pub open spec fn is_fresh(
        &self,
        volume_label: Label,
        volume_guid: Option<u128>,
        bitmap_length_bytes: u64,
        uptable_start_cluster: u32,
    ) -> bool {
        &&& self.vol_label matches DirEntry::VolumeLabel(l) && l.character_count == volume_label.1
            && l.volume_label == volume_label.0 && l._reserved == 0
        &&& match volume_guid {
            Some(guid) => self.vol_guid matches DirEntry::VolumeGuid(g) && g.volume_guid == guid
                && g.secondary_count == 0 && g.general_primary_flag == 0 && g._reserved@
                == Seq::new(10, |i: int| 0u8) && g.set_checksum == crate::entry::set_checksum(
                0,
                self.vol_guid.spec_bytes(),
            ),
            None => self.vol_guid matches DirEntry::Unused(t, p) && t == 0x20 && p@ == Seq::new(
                31,
                |i: int| 0u8,
            ),
        }
        &&& self.bitmap matches DirEntry::Bitmap(b) && b.flags == 0 && b._reserved@ == Seq::new(
            18,
            |i: int| 0u8,
        ) && b.first_cluster == 2 && b.data_len == bitmap_length_bytes
        &&& self.uptable matches DirEntry::UpcaseTable(u) && u._reserved1@ == Seq::new(
            3,
            |i: int| 0u8,
        ) && u.table_checksum == 0xE619D30D && u._reserved2@ == Seq::new(12, |i: int| 0u8)
            && u.first_cluster == uptable_start_cluster && u.data_len == 5836
        &&& self.items@.len() == 0
    }

    /// The root directory of a fresh volume: the label's entry, the GUID's
    /// entry or the slot that it leaves, the bitmap's entry and the up-case
    /// table's entry.
    pub fn new(
        volume_label: Label,
        volume_guid: Option<u128>,
        bitmap_length_bytes: u64,
        uptable_start_cluster: u32,
    ) -> (r: RawRoot)
        ensures
            r.is_fresh(volume_label, volume_guid, bitmap_length_bytes, uptable_start_cluster),
    {
        let vol_label = DirEntry::VolumeLabel(VolumeLabelEntry::new(volume_label));
        let vol_guid = match volume_guid {
            Some(guid) => DirEntry::VolumeGuid(VolumeGuidEntry::new(guid)),
            None => DirEntry::new_unused(VOLUME_GUID_ENTRY_TYPE),
        };
        let bitmap = DirEntry::Bitmap(BitmapEntry::new(bitmap_length_bytes));
        let uptable = DirEntry::UpcaseTable(UpcaseTableEntry::new(uptable_start_cluster));
        RawRoot { vol_label, vol_guid, bitmap, uptable, items: Vec::new() }
    }

    /// The root directory of a fresh volume spells the bytes of a fresh
    /// volume's root directory.
    pub proof fn lemma_fresh_bytes(
        &self,
        volume_label: Label,
        volume_guid: Option<u128>,
        bitmap_length_bytes: u64,
        uptable_start_cluster: u32,
    )
        requires
            self.is_fresh(volume_label, volume_guid, bitmap_length_bytes, uptable_start_cluster),
        ensures
            self.spec_bytes() == fresh_root_bytes(
                volume_label,
                volume_guid,
                bitmap_length_bytes,
                uptable_start_cluster,
            ),
            self.spec_bytes().len() == 128,
    {
        let e = self.entries();
        assert(e =~= seq![self.vol_label, self.vol_guid, self.bitmap, self.uptable]);
        reveal_with_fuel(entries_bytes, 5);
        assert(e.drop_last() =~= seq![self.vol_label, self.vol_guid, self.bitmap]);
        assert(e.drop_last().drop_last() =~= seq![self.vol_label, self.vol_guid]);
        assert(e.drop_last().drop_last().drop_last() =~= seq![self.vol_label]);
        assert(e.drop_last().drop_last().drop_last().drop_last() =~= Seq::<DirEntry>::empty());
        assert(entries_bytes(e) =~= self.vol_label.spec_bytes() + self.vol_guid.spec_bytes()
            + self.bitmap.spec_bytes() + self.uptable.spec_bytes());
        let l = self.vol_label.spec_bytes();
        assert(l =~= seq![0x83u8, volume_label.1] + volume_label.0@ + le_bytes(0, 8));
        let b = self.bitmap.spec_bytes();
        assert(b =~= seq![0x81u8, 0u8] + Seq::new(18, |i: int| 0u8) + le_bytes(2, 4) + le_bytes(
            bitmap_length_bytes as nat,
            8,
        ));
        let u = self.uptable.spec_bytes();
        assert(u =~= seq![0x82u8] + Seq::new(3, |i: int| 0u8) + le_bytes(0xE619D30D, 4) + Seq::new(
            12,
            |i: int| 0u8,
        ) + le_bytes(uptable_start_cluster as nat, 4) + le_bytes(5836, 8));
        let g = self.vol_guid.spec_bytes();
        match volume_guid {
            Some(guid) => {
                let sum = self.vol_guid->VolumeGuid_0.set_checksum;
                assert(g =~= guid_entry_bytes(guid, sum));
                let blank = guid_entry_bytes(guid, 0);
                lemma_le_bytes_len(sum as nat, 2);
                lemma_le_bytes_len(0, 2);
                lemma_le_bytes_len(guid as nat, 16);
                assert(0xA0u8 & 0x40 == 0) by (bit_vector);
                assert forall|i: int| 0 <= i < 32 && i != 2 && i != 3 implies g[i] == blank[i] by {
                    assert(g.subrange(4, 32) =~= blank.subrange(4, 32));
                    if i >= 4 {
                        assert(g[i] == g.subrange(4, 32)[i - 4]);
                        assert(blank[i] == blank.subrange(4, 32)[i - 4]);
                    }
                }
                lemma_set_checksum_skips(0, g, blank, 32);
                assert(g.take(32) =~= g);
                assert(blank.take(32) =~= blank);
            },
            None => {
                assert(g =~= seq![0x20u8] + Seq::new(31, |i: int| 0u8));
            },
        }
        self.vol_label.lemma_parses_bytes();
        self.vol_guid.lemma_parses_bytes();
        self.bitmap.lemma_parses_bytes();
        self.uptable.lemma_parses_bytes();
    }

    /// The root directory's bytes: those of its entries, one after the other.
    pub fn bytes(self) -> (r: Vec<u8>)
        ensures
            r@ == self.spec_bytes(),
    {
        let mut out: Vec<u8> = Vec::new();
        let ghost all = self.entries();
        let head: [DirEntry; 4] = [self.vol_label, self.vol_guid, self.bitmap, self.uptable];
        let mut i: usize = 0;
        assert(all.take(0) =~= Seq::<DirEntry>::empty());
        while i < 4
            invariant
                i <= 4,
                all == self.entries(),
                head@ == seq![self.vol_label, self.vol_guid, self.bitmap, self.uptable],
                out@ == entries_bytes(all.take(i as int)),
            decreases 4 - i,
        {
            let bytes: [u8; 32] = head[i].bytes();
            assert(all.take(i + 1).drop_last() =~= all.take(i as int));
            assert(all.take(i + 1).last() == head@[i as int]);
            put_bytes(&mut out, &bytes);
            i = i + 1;
        }
        let n: usize = self.items.len();
        let mut j: usize = 0;
        while j < n
            invariant
                j <= n,
                n == self.items@.len(),
                all == self.entries(),
                out@ == entries_bytes(all.take(4 + j)),
            decreases n - j,
        {
            let bytes: [u8; 32] = self.items[j].bytes();
            assert(all.take(4 + j + 1).drop_last() =~= all.take(4 + j));
            assert(all.take(4 + j + 1).last() == self.items@[j as int]);
            put_bytes(&mut out, &bytes);
            j = j + 1;
        }
        assert(all.take(4 + n) =~= all);
        out
    }
}

/// Why a volume cannot be opened.
pub enum RootFault {
    /// The device does not have bytes that must be there: of the boot
    /// sector, or of an entry of the root directory.
    Unreadable,
    /// The boot sector does not name the file system.
    WrongFs,
    /// The sector size is out of range.
    InvalidBytesPerSectorShift(u8),
    /// The cluster size is out of range.
    InvalidSectorsPerClusterShift(u8),
    /// The number of FATs is neither 1 nor 2, or it does not go with the
    /// flag of the active FAT.
    InvalidNumberOfFats(u8),
    /// The FAT cannot be held in memory.
    FatInvalidOffset,
    /// The device does not have the FAT's bytes at the given byte offset.
    FatUnreadable(u64),
    /// The root directory's first cluster is no cluster of the heap.
    InvalidRootDirectoryClusterIndex(u32),
    /// The root directory, or a file of it, has no cluster chain.
    Chain(ClusterChainError),
    /// An entry has a type byte that is not recognised.
    UnknownEntry(u8),
    /// An entry in use is a secondary entry that belongs to no primary one.
    RootEntryNotPrimary(u8),
    /// There are too many allocation bitmaps, or too few.
    InvalidNumberOfAllocationBitmaps,
    /// An allocation bitmap's entry is out of order or cannot stand.
    InvalidAllocationBitmap,
    /// There is more than one up-case table, or none.
    InvalidNumberOfUpcaseTables,
    /// The up-case table's entry cannot stand.
    InvalidUpcaseTable,
    /// There is more than one volume label.
    InvalidNumberOfVolumeLabels,
    /// The volume label is too long.
    InvalidVolumeLabel,
    /// The entries behind a file's primary entry are no file set.
    FileSet(FileSetFault),
    /// A primary entry has no place in a root directory.
    UnexpectedRootEntry(u8),
}

/// What a walk through a root directory has found.
pub struct RootState {
    /// Number of allocation bitmaps.
    pub bitmaps: int,
    /// Whether there is an up-case table.
    pub upcase_table: bool,
    /// The volume's label, where there is one.
    pub label: Option<Label>,
    /// The files and directories.
    pub items: Seq<ItemView>,
}

/// A volume's root directory as plain values.
pub struct RootView {
    /// The volume's label, where it has one.
    pub label: Option<Label>,
    /// The files and directories of the root directory.
    pub items: Seq<ItemView>,
}

/// Whether a boot sector's name field names the file system.
pub open spec fn names_exfat(boot: BootSector) -> bool {
    boot.filesystem_name@ == seq![0x45u8, 0x58u8, 0x46u8, 0x41u8, 0x54u8, 0x20u8, 0x20u8, 0x20u8]
}

/// The first reason why a boot sector is not one of a volume that can be
/// read, if there is one: the name, the two shifts and the number of FATs
/// are checked, in this order.
pub open spec fn boot_sector_fault(boot: BootSector) -> Option<RootFault> {
    if !names_exfat(boot) {
        Some(RootFault::WrongFs)
    } else if !(9 <= boot.bytes_per_sector_shift <= 12) {
        Some(RootFault::InvalidBytesPerSectorShift(boot.bytes_per_sector_shift))
    } else if boot.sectors_per_cluster_shift > 25 - boot.bytes_per_sector_shift {
        Some(RootFault::InvalidSectorsPerClusterShift(boot.sectors_per_cluster_shift))
    } else if boot.number_of_fats != 1 && boot.number_of_fats != 2 {
        Some(RootFault::InvalidNumberOfFats(boot.number_of_fats))
    } else if active_fat_set(boot.volume_flags) != (boot.number_of_fats == 2) {
        Some(RootFault::InvalidNumberOfFats(boot.number_of_fats))
    } else {
        None
    }
}

/// What the end of a root directory makes of what was found: a volume has
/// one allocation bitmap for each FAT and an up-case table.
pub open spec fn finish_root(boot: BootSector, state: RootState) -> Result<RootView, RootFault> {
    if (boot.number_of_fats == 2 && state.bitmaps < 2) || state.bitmaps < 1 {
        Err(RootFault::InvalidNumberOfAllocationBitmaps)
    } else if !state.upcase_table {
        Err(RootFault::InvalidNumberOfUpcaseTables)
    } else {
        Ok(RootView { label: state.label, items: state.items })
    }
}

/// What the entries of a root directory from the number `k` on add to what
/// was found ahead of them. Slots out of use are passed over, and an entry
/// that is not in use and no slot ends the directory. Of the entries in use
/// each must be a primary one: an allocation bitmap, the first or the second
/// in this order; the one up-case table; the one volume label, of 11 code
/// units at most; or the first entry of a file set. The directory has `limit`
/// entries at most.
pub open spec fn walk_root(
    entries: EntrySource,
    k: int,
    limit: int,
    boot: BootSector,
    fat: Seq<u32>,
    state: RootState,
) -> Result<RootView, RootFault>
    decreases
            (if limit - k > 0 {
                limit - k
            } else {
                0
            }),
{
    if k >= limit || k < 0 {
        Err(RootFault::Unreadable)
    } else {
        match entries(k) {
            None => Err(RootFault::Unreadable),
            Some(b) => if !recognised_type(b[0]) {
                Err(RootFault::UnknownEntry(b[0]))
            } else if 0x00 < b[0] < 0x80 {
                walk_root(entries, k + 1, limit, boot, fat, state)
            } else if b[0] < 0x81 {
                finish_root(boot, state)
            } else if b[0] & 0x40 != 0 {
                Err(RootFault::RootEntryNotPrimary(b[0]))
            } else if b[0] == 0x81 {
                let bitmap = decoded(b)->Bitmap_0;
                if state.bitmaps >= 2 {
                    Err(RootFault::InvalidNumberOfAllocationBitmaps)
                } else if state.bitmaps != bitmap.spec_index() || !bitmap.spec_valid() {
                    Err(RootFault::InvalidAllocationBitmap)
                } else {
                    walk_root(
                        entries,
                        k + 1,
                        limit,
                        boot,
                        fat,
                        RootState { bitmaps: state.bitmaps + 1, ..state },
                    )
                }
            } else if b[0] == 0x82 {
                if state.upcase_table {
                    Err(RootFault::InvalidNumberOfUpcaseTables)
                } else if !decoded(b)->UpcaseTable_0.spec_valid() {
                    Err(RootFault::InvalidUpcaseTable)
                } else {
                    walk_root(
                        entries,
                        k + 1,
                        limit,
                        boot,
                        fat,
                        RootState { upcase_table: true, ..state },
                    )
                }
            } else if b[0] == 0x83 {
                let label = decoded(b)->VolumeLabel_0;
                if state.label is Some {
                    Err(RootFault::InvalidNumberOfVolumeLabels)
                } else if label.character_count > 11 {
                    Err(RootFault::InvalidVolumeLabel)
                } else {
                    walk_root(
                        entries,
                        k + 1,
                        limit,
                        boot,
                        fat,
                        RootState {
                            label: Some(Label(label.volume_label, label.character_count)),
                            ..state
                        },
                    )
                }
            } else if b[0] == 0x85 {
                match parse_file_set(decoded(b)->File_0, entries_from(entries, k + 1)) {
                    Err(fault) => Err(RootFault::FileSet(fault)),
                    Ok(parsed) => match item_of(parsed, boot, fat) {
                        Err(e) => Err(RootFault::Chain(e)),
                        Ok(item) => walk_root(
                            entries,
                            k + 1 + decoded(b)->File_0.secondary_count,
                            limit,
                            boot,
                            fat,
                            RootState { items: state.items.push(item), ..state },
                        ),
                    },
                }
            } else {
                Err(RootFault::UnexpectedRootEntry(b[0]))
            },
        }
    }
}

/// The root directory of the volume that a device holds, or the reason why
/// the volume cannot be opened: the boot sector is read from the device's
/// first 512 bytes and checked, the root directory's first cluster must be
/// one of the heap, the FAT in use is read, and the root directory's entries
/// are walked along its cluster chain.
pub open spec fn open_volume(device: Seq<u8>) -> Result<RootView, RootFault> {
    let boot = parsed_boot_sector(device);
    let fat = fat_words(device, fat_byte_offset(boot), boot.cluster_count as nat);
    if device.len() < 512 {
        Err(RootFault::Unreadable)
    } else if boot_sector_fault(boot) is Some {
        Err(boot_sector_fault(boot).unwrap())
    } else if boot.first_cluster_of_root_directory < 2 || boot.first_cluster_of_root_directory
        > boot.cluster_count + 1 {
        Err(RootFault::InvalidRootDirectoryClusterIndex(boot.first_cluster_of_root_directory))
    } else if !fat_loadable(boot) {
        Err(RootFault::FatInvalidOffset)
    } else if boot.cluster_count > 0 && fat_byte_offset(boot) + 4 * boot.cluster_count
        > device.len() {
        Err(RootFault::FatUnreadable(fat_byte_offset(boot) as u64))
    } else {
        match spec_allocation(
            boot,
            fat,
            boot.first_cluster_of_root_directory,
            ClusterChainOptions::Fat { data_length: None },
        ) {
            Err(e) => Err(RootFault::Chain(e)),
            Ok((chain, data_length)) => walk_root(
                |k: int| entry_bytes_at(device, boot, chain, data_length as int, k),
                0,
                data_length as int / 32,
                boot,
                fat,
                RootState { bitmaps: 0, upcase_table: false, label: None, items: Seq::empty() },
            ),
        }
    }
}

/// Whether an error of opening a volume is the given fault.
pub open spec fn is_root_fault<E>(e: RootError<E>, fault: RootFault) -> bool {
    match fault {
        RootFault::Unreadable => is_root_read_failure(e),
        RootFault::WrongFs => e is WrongFs,
        RootFault::InvalidBytesPerSectorShift(t) => e matches RootError::InvalidBytesPerSectorShift(u)
            && u == t,
        RootFault::InvalidSectorsPerClusterShift(t) => e matches RootError::InvalidSectorsPerClusterShift(
            u,
        ) && u == t,
        RootFault::InvalidNumberOfFats(t) => e matches RootError::InvalidNumberOfFats(u) && u == t,
        RootFault::FatInvalidOffset => e matches RootError::Fat(FatLoadError::InvalidOffset),
        RootFault::FatUnreadable(at) => e matches RootError::Fat(FatLoadError::ReadFailed(o, _)) && o
            == at,
        RootFault::InvalidRootDirectoryClusterIndex(t) => e matches RootError::InvalidRootDirectoryClusterIndex(
            u,
        ) && u == t,
        RootFault::Chain(c) => e matches RootError::ClusterChain(d) && d == c,
        RootFault::UnknownEntry(t) => e matches RootError::DirEntry(
            EntryReaderError::Entry(DirEntryError::InvalidEntry(u)),
        ) && u == t,
        RootFault::RootEntryNotPrimary(t) => e matches RootError::RootEntryNotPrimary(u) && u == t,
        RootFault::InvalidNumberOfAllocationBitmaps => e is InvalidNumberOfAllocationBitmaps,
        RootFault::InvalidAllocationBitmap => e is InvalidAllocationBitmap,
        RootFault::InvalidNumberOfUpcaseTables => e is InvalidNumberOfUpcaseTables,
        RootFault::InvalidUpcaseTable => e is InvalidUpcaseTable,
        RootFault::InvalidNumberOfVolumeLabels => e is InvalidNumberOfVolumeLabels,
        RootFault::InvalidVolumeLabel => e is InvalidVolumeLabel,
        RootFault::FileSet(f) => e matches RootError::InvalidFileEntry(p) && is_fault(p, f),
        RootFault::UnexpectedRootEntry(t) => e matches RootError::UnexpectedRootEntry(u) && u == t,
    }
}

/// Whether an error of opening a volume is a failure of the device.
pub open spec fn is_root_read_failure<E>(e: RootError<E>) -> bool {
    ||| e is Io
    ||| e matches RootError::Fat(FatLoadError::ReadFailed(_, _))
    ||| e matches RootError::DirEntry(EntryReaderError::ReadFailed(_, _, _))
    ||| e matches RootError::InvalidFileEntry(p) && is_read_failure(p)
}

/// The root directory of a volume.
pub struct Root<O: ReadOffset> {
    /// The volume's label, where it has one.
    pub volume_label: Option<Label>,
    /// The files and directories of the root directory.
    pub items: Vec<FsElement<O>>,
}

impl<O: ReadOffset> Root<O> {
    /// The root directory as plain values.
    pub open spec fn view(&self) -> RootView {
        RootView { label: self.volume_label, items: item_views(self.items@) }
    }

    /// The volume's label, where it has one.
    pub fn label(&self) -> (r: Option<&Label>)
        ensures
            match r {
                Some(l) => self.volume_label == Some(*l),
                None => self.volume_label is None,
            },
    {
        self.volume_label.as_ref()
    }

    /// The files and directories of the root directory.
    pub fn items(&self) -> (r: &[FsElement<O>])
        ensures
            r@ == self.items@,
    {
        self.items.as_slice()
    }

    /// Opens the volume that the device holds and reads its root directory.
    ///
    /// What comes out is what the device's bytes hold, unless the device
    /// fails; a reliable device does not. The reader of each file stands at
    /// the start of the file's data.
    pub fn open(device: O) -> (r: Result<Self, RootError<O::Err>>)
        ensures
            match (r, open_volume(device.bytes())) {
                (Ok(root), Ok(view)) => root@ == view && forall|i: int|
                    0 <= i < root.items@.len() ==> (#[trigger] root.items@[i]).reads(
                        device.bytes(),
                        device.reliable(),
                        parsed_boot_sector(device.bytes()),
                        fat_words(
                            device.bytes(),
                            fat_byte_offset(parsed_boot_sector(device.bytes())),
                            parsed_boot_sector(device.bytes()).cluster_count as nat,
                        ),
                    ),
                (Err(e), Err(fault)) => is_root_fault(e, fault) || (is_root_read_failure(e)
                    && !device.reliable()),
                (Err(e), Ok(_)) => is_root_read_failure(e) && !device.reliable(),
                (Ok(_), Err(_)) => false,
            },
    {
        let ghost bytes = device.bytes();
        let ghost reliable = device.reliable();
        let disk: Arc<O> = Arc::new(device);
        let mut sector: [u8; 512] = [0u8; 512];
        match read_exact(&disk, 0, &mut sector) {
            Ok(()) => {},
            Err(e) => {
                return Err(RootError::Io(e));
            },
        }
        let parsed: BootSector = BootSector::from_bytes(&sector);
        proof {
            assert(sector@ == bytes.subrange(0, 512));
            assert(parsed.parses(bytes)) by {
                assert(forall|i: int, j: int|
                    0 <= i <= j <= 512 ==> #[trigger] sector@.subrange(i, j) =~= bytes.subrange(i, j));
            }
            parsed.lemma_parsed(bytes);
        }
        let boot_sector: Arc<BootSector> = Arc::new(parsed);

        // The file system's name.
        let name: &[u8; 8] = &boot_sector.filesystem_name;
        if !(name[0] == 0x45 && name[1] == 0x58 && name[2] == 0x46 && name[3] == 0x41 && name[4]
            == 0x54 && name[5] == 0x20 && name[6] == 0x20 && name[7] == 0x20) {
            return Err(RootError::WrongFs);
        }
        assert(names_exfat(*boot_sector)) by {
            assert(boot_sector.filesystem_name@ =~= seq![
                0x45u8,
                0x58u8,
                0x46u8,
                0x41u8,
                0x54u8,
                0x20u8,
                0x20u8,
                0x20u8,
            ]);
        }
        // The sector size.
        if boot_sector.bytes_per_sector_shift < 9 || boot_sector.bytes_per_sector_shift > 12 {
            return Err(RootError::InvalidBytesPerSectorShift(boot_sector.bytes_per_sector_shift));
        }
        // The cluster size.
        if boot_sector.sectors_per_cluster_shift > 25 - boot_sector.bytes_per_sector_shift {
            return Err(
                RootError::InvalidSectorsPerClusterShift(boot_sector.sectors_per_cluster_shift),
            );
        }
        // The number of FATs, and the FAT in use.
        let fat_num: u8 = boot_sector.number_of_fats;
        if fat_num != 1 && fat_num != 2 {
            return Err(RootError::InvalidNumberOfFats(fat_num));
        }
        let flags: u16 = boot_sector.volume_flags;
        let active_fat: bool = (flags & 0xF) & 1 == 1;
        if (active_fat && fat_num == 1) || (!active_fat && fat_num == 2) {
            return Err(RootError::InvalidNumberOfFats(fat_num));
        }
        assert(boot_sector_fault(*boot_sector) is None);

        // The root directory's first cluster.
        let first_cluster: u32 = boot_sector.first_cluster_of_root_directory;
        if first_cluster < 2 || first_cluster as u64 > boot_sector.cluster_count as u64 + 1 {
            return Err(RootError::InvalidRootDirectoryClusterIndex(first_cluster));
        }

        // The FAT.
        let fat: Arc<Fat> = match Fat::load(&disk, &boot_sector) {
            Ok(f) => Arc::new(f),
            Err(e) => {
                return Err(RootError::Fat(e));
            },
        };
        let chain_reader = match ClusterChainReader::try_new(
            share(&boot_sector),
            &fat,
            first_cluster,
            ClusterChainOptions::default(),
            share(&disk),
        ) {
            Ok(c) => c,
            Err(e) => {
                return Err(RootError::ClusterChain(e));
            },
        };
        let mut reader = DirEntryReader::from(chain_reader);
        let ghost first = reader;
        let ghost entries: EntrySource = first.entries();
        let ghost limit = reader.cluster_reader.data_length as int / 32;
        let ghost whole = open_volume(bytes);
        proof {
            assert(entries =~= (|k: int|
                entry_bytes_at(
                    bytes,
                    *boot_sector,
                    reader.cluster_reader.chain@,
                    reader.cluster_reader.data_length as int,
                    k,
                )));
        }

        // The root directory's entries.
        let mut bitmaps: u8 = 0;
        let mut upcase_table: bool = false;
        let mut volume_label: Option<Label> = None;
        let mut items: Vec<FsElement<O>> = Vec::new();
        let ghost mut k: int = 0;
        assert(item_views(items@) =~= Seq::<ItemView>::empty());
        loop
            invariant
                boot_sector.shifts_valid(),
                reader.wf(),
                reader.cluster_reader.same_data(&first.cluster_reader),
                first.cluster_reader.disk == disk,
                first.cluster_reader.boot == boot_sector,
                disk.bytes() == bytes,
                disk.reliable() == reliable,
                bytes == device.bytes(),
                reliable == device.reliable(),
                whole == open_volume(bytes),
                *boot_sector == parsed_boot_sector(bytes),
                fat@ == fat_words(
                    bytes,
                    fat_byte_offset(*boot_sector),
                    boot_sector.cluster_count as nat,
                ),
                forall|i: int|
                    0 <= i < items@.len() ==> (#[trigger] items@[i]).on_volume(
                        disk,
                        boot_sector,
                        fat@,
                    ),
                entries == first.entries(),
                limit == first.cluster_reader.data_length as int / 32,
                k >= 0,
                bitmaps <= 2,
                reader.cluster_reader.offset == 32 * k,
                whole == walk_root(
                    entries,
                    k,
                    limit,
                    *boot_sector,
                    fat@,
                    RootState {
                        bitmaps: bitmaps as int,
                        upcase_table,
                        label: volume_label,
                        items: item_views(items@),
                    },
                ),
            decreases reader.cluster_reader.data_length - reader.cluster_reader.offset,
        {
            let ghost here = reader;
            proof {
                here.lemma_peek_entries(k);
                assert(here.entries() =~= entries);
                if k >= limit {
                    assert(32 * k + 32 > here.cluster_reader.data_length);
                    assert(here.peek(0) is None);
                }
            }
            let entry: DirEntry = match reader.read() {
                Ok(e) => e,
                Err(e) => {
                    return Err(RootError::DirEntry(e));
                },
            };
            proof {
                entry.lemma_decoded(entries(k).unwrap());
            }
            // Slots out of use are passed over.
            if entry.unused() {
                proof {
                    k = k + 1;
                }
                continue ;
            }
            if !entry.regular() {
                // The end of the directory.
                if (boot_sector.number_of_fats == 2 && bitmaps < 2) || bitmaps < 1 {
                    return Err(RootError::InvalidNumberOfAllocationBitmaps);
                }
                if !upcase_table {
                    return Err(RootError::InvalidNumberOfUpcaseTables);
                }
                return Ok(Root { volume_label, items });
            } else if !entry.primary() {
                return Err(RootError::RootEntryNotPrimary(entry.entry_type()));
            }
            match entry {
                DirEntry::Bitmap(bitmap_entry) => {
                    if bitmaps >= 2 {
                        return Err(RootError::InvalidNumberOfAllocationBitmaps);
                    }
                    if bitmaps != bitmap_entry.index() || !bitmap_entry.valid() {
                        return Err(RootError::InvalidAllocationBitmap);
                    }
                    bitmaps = bitmaps + 1;
                    proof {
                        k = k + 1;
                    }
                },
                DirEntry::UpcaseTable(upcase_table_entry) => {
                    if upcase_table {
                        return Err(RootError::InvalidNumberOfUpcaseTables);
                    }
                    if !upcase_table_entry.valid() {
                        return Err(RootError::InvalidUpcaseTable);
                    }
                    upcase_table = true;
                    proof {
                        k = k + 1;
                    }
                },
                DirEntry::VolumeLabel(volume_label_entry) => {
                    if volume_label.is_some() {
                        return Err(RootError::InvalidNumberOfVolumeLabels);
                    }
                    if volume_label_entry.character_count > 11 {
                        return Err(RootError::InvalidVolumeLabel);
                    }
                    volume_label =
                    Some(Label(volume_label_entry.volume_label, volume_label_entry.character_count));
                    proof {
                        k = k + 1;
                    }
                },
                DirEntry::File(file_entry) => {
                    let ghost behind = reader;
                    proof {
                        behind.lemma_peek_entries(k + 1);
                        assert(behind.entries() =~= entries);
                        assert((|j: int| behind.peek(j)) =~= entries_from(entries, k + 1));
                    }
                    let parsed = match ParsedFileEntry::try_new(&file_entry, &mut reader) {
                        Ok(p) => p,
                        Err(e) => {
                            return Err(RootError::InvalidFileEntry(e));
                        },
                    };
                    let item = match FsElement::from_parsed(&disk, &boot_sector, &fat, parsed) {
                        Ok(i) => i,
                        Err(e) => {
                            return Err(RootError::ClusterChain(e));
                        },
                    };
                    proof {
                        assert(item_views(items@.push(item)) =~= item_views(items@).push(item@));
                        k = k + 1 + file_entry.secondary_count;
                    }
                    items.push(item);
                },
                _ => {
                    return Err(RootError::UnexpectedRootEntry(entry.entry_type()));
                },
            }
        }
    }
}

} // verus!
