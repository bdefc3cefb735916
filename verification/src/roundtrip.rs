//! What a reader finds on a volume that the formatter has just written.

use crate::boot_sector::{
    active_fat_set, parsed_boot_sector, BootParameters, BootSector, BootValues,
    FileSystemRevision, VolumeSerialNumber,
};
use crate::cluster::reader::{
    available_in, data_in, device_offset_of, entry_bytes_at, spec_allocation,
};
use crate::cluster::ClusterChainOptions;
use crate::codec::{le_bytes, lemma_byte_limits, lemma_le_bytes_len, lemma_le_value_of_bytes};
use crate::entry::parsed::EntrySource;
use crate::entry::{
    BitmapEntry, ClusterAllocation, DirEntry, UpcaseTableEntry, VolumeLabelEntry,
};
use crate::error::ClusterChainError;
use crate::fat::{fat_byte_offset, fat_loadable, fat_words, spec_chain};
use crate::format::image::{boot_region, boot_sector_image, fat_table, formatted, words_bytes};
use crate::format::image_laws::{
    lemma_boot_sector_image_len, lemma_formatted_regions, lemma_heap_within_device,
    lemma_used_clusters,
};
use crate::format::laws::{lemma_boot_parameters_valid, lemma_geometry_parts};
use crate::format::Exfat;
use crate::label::Label;
use crate::root::{
    boot_sector_fault, finish_root, fresh_root_bytes, open_volume, walk_root, RootFault,
    RootState, RootView,
};
use vstd::arithmetic::power2::lemma_pow2_adds;
use vstd::array::{spec_array_fill_for_copy_type, spec_array_update};
use vstd::prelude::*;

verus! {

/// A boot sector that holds the given parameters.
pub open spec fn boot_sector_for(v: BootValues) -> BootSector {
    BootSector {
        jump_boot: spec_array_update(
            spec_array_update(
                spec_array_update(spec_array_fill_for_copy_type::<u8, 3>(0), 0, 0xEBu8),
                1,
                0x76u8,
            ),
            2,
            0x90u8,
        ),
        filesystem_name: spec_array_update(
            spec_array_update(
                spec_array_update(
                    spec_array_update(
                        spec_array_update(spec_array_fill_for_copy_type::<u8, 8>(0x20), 0, 0x45u8),
                        1,
                        0x58u8,
                    ),
                    2,
                    0x46u8,
                ),
                3,
                0x41u8,
            ),
            4,
            0x54u8,
        ),
        _reserved: spec_array_fill_for_copy_type::<u8, 53>(0),
        partition_offset: v.partition_offset,
        volume_length: v.volume_length,
        fat_offset: v.fat_offset,
        fat_length: v.fat_length,
        cluster_heap_offset: v.cluster_heap_offset,
        cluster_count: v.cluster_count,
        first_cluster_of_root_directory: v.first_cluster_of_root_directory,
        volume_serial_number: VolumeSerialNumber(v.volume_serial_number),
        file_system_revision: FileSystemRevision { vermin: v.vermin, vermaj: v.vermaj },
        volume_flags: v.volume_flags,
        bytes_per_sector_shift: v.bytes_per_sector_shift,
        sectors_per_cluster_shift: v.sectors_per_cluster_shift,
        number_of_fats: v.number_of_fats,
        drive_select: 0x80,
        percent_in_use: 0xFF,
        _reserved2: spec_array_fill_for_copy_type::<u8, 7>(0),
        boot_code: spec_array_fill_for_copy_type::<u8, 390>(0xF4),
        boot_signature: 0xAA55,
    }
}

/// There is a boot sector for every set of parameters.
pub proof fn lemma_boot_sector_for(v: BootValues)
    ensures
        boot_sector_for(v).holds(v),
{
    broadcast use vstd::array::group_array_axioms;

    let s = boot_sector_for(v);
    assert(s.jump_boot@ =~= seq![0xEBu8, 0x76u8, 0x90u8]);
    assert(s.filesystem_name@ =~= seq![
        0x45u8,
        0x58u8,
        0x46u8,
        0x41u8,
        0x54u8,
        0x20u8,
        0x20u8,
        0x20u8,
    ]);
    assert(s._reserved@ =~= Seq::new(53, |i: int| 0u8));
    assert(s._reserved2@ =~= Seq::new(7, |i: int| 0u8));
    assert(s.boot_code@ =~= Seq::new(390, |i: int| 0xF4u8));
}

/// A device that starts with the boot sector's bytes for some parameters is
/// read as a boot sector that holds the parameters.
pub proof fn lemma_boot_sector_read_back(d: Seq<u8>, v: BootValues)
    requires
        d.len() >= 512,
        d.subrange(0, 512) == BootSector::bytes_of(v),
    ensures
        parsed_boot_sector(d).holds(v),
{
    let s = boot_sector_for(v);
    lemma_boot_sector_for(v);
    s.lemma_bytes_of_holder(v);
    s.lemma_parses_own_bytes(d);
    s.lemma_parsed(d);
}

/// The bytes of the word with the index `r` of a sequence of words are the
/// four bytes from the byte `4 * r` on.
pub proof fn lemma_words_bytes_word(w: Seq<u32>, r: int)
    requires
        0 <= r < w.len(),
    ensures
        words_bytes(w).len() == 4 * w.len(),
        words_bytes(w).subrange(4 * r, 4 * r + 4) == le_bytes(w[r] as nat, 4),
    decreases w.len(),
{
    crate::format::image::lemma_words_bytes_len(w);
    crate::format::image::lemma_words_bytes_len(w.drop_last());
    lemma_le_bytes_len(w.last() as nat, 4);
    if r == w.len() - 1 {
        assert(words_bytes(w).subrange(4 * r, 4 * r + 4) =~= le_bytes(w[r] as nat, 4));
    } else {
        lemma_words_bytes_word(w.drop_last(), r);
        assert(words_bytes(w).subrange(4 * r, 4 * r + 4) =~= words_bytes(w.drop_last()).subrange(
            4 * r,
            4 * r + 4,
        ));
    }
}

/// A device that holds the bytes of some words at a byte offset is read as
/// those words.
pub proof fn lemma_fat_word_read_back(d: Seq<u8>, at: int, w: Seq<u32>, count: nat, r: int)
    requires
        0 <= at,
        at + 4 * w.len() <= d.len(),
        d.subrange(at, at + 4 * w.len()) == words_bytes(w),
        0 <= r < w.len(),
        r < count,
    ensures
        fat_words(d, at, count)[r] == w[r],
{
    lemma_words_bytes_word(w, r);
    lemma_byte_limits();
    lemma_le_value_of_bytes(w[r] as nat, 4);
    assert(d.subrange(at + 4 * r, at + 4 * r + 4) =~= d.subrange(at, at + 4 * w.len()).subrange(
        4 * r,
        4 * r + 4,
    ));
}

/// The entries of a directory of one cluster are the 32-byte pieces of the
/// cluster.
pub proof fn lemma_single_cluster_entry(d: Seq<u8>, boot: BootSector, r: u32, at: int, k: int)
    requires
        boot.shifts_valid(),
        0 <= at <= u64::MAX,
        boot.spec_cluster_offset(r) == Some(at as u64),
        at + boot.spec_bytes_per_cluster() <= d.len(),
        0 <= k,
        32 * k + 32 <= boot.spec_bytes_per_cluster(),
    ensures
        entry_bytes_at(d, boot, seq![r], boot.spec_bytes_per_cluster() as int, k) == Some(
            d.subrange(at + 32 * k, at + 32 * k + 32),
        ),
{
    let cs = boot.spec_bytes_per_cluster() as int;
    let chain = seq![r];
    assert forall|i: int| 0 <= i < cs implies #[trigger] device_offset_of(boot, chain, i) == Some(
        at + i,
    ) by {
        vstd::arithmetic::div_mod::lemma_small_mod(i as nat, cs as nat);
        vstd::arithmetic::div_mod::lemma_basic_div(i, cs);
    }
    assert(available_in(d, boot, chain, cs, 32 * k, 32));
    assert(data_in(d, boot, chain, 32 * k, 32) =~= d.subrange(at + 32 * k, at + 32 * k + 32)) by {
        assert forall|j: int| 0 <= j < 32 implies (#[trigger] data_in(d, boot, chain, 32 * k, 32)[j])
            == d[at + 32 * k + j] by {
            assert(device_offset_of(boot, chain, 32 * k + j) == Some(at + (32 * k + j)));
        }
    }
}

/// The root directory of a fresh volume without a GUID is walked to its end:
/// the label is found, the slot of the GUID is passed over, the bitmap and
/// the up-case table are accepted, and there is no file.
pub proof fn lemma_walk_fresh_root(
    entries: EntrySource,
    limit: int,
    boot: BootSector,
    fat: Seq<u32>,
    label: Label,
    bitmap_length_bytes: u64,
    uptable_start_cluster: u32,
)
    requires
        limit >= 5,
        boot.number_of_fats == 1,
        label.1 <= 11,
        uptable_start_cluster >= 2,
        ({
            let root = fresh_root_bytes(label, None, bitmap_length_bytes, uptable_start_cluster);
            &&& entries(0) == Some(root.subrange(0, 32))
            &&& entries(1) == Some(root.subrange(32, 64))
            &&& entries(2) == Some(root.subrange(64, 96))
            &&& entries(3) == Some(root.subrange(96, 128))
            &&& entries(4) matches Some(b) && b.len() == 32 && b[0] == 0
        }),
    ensures
        walk_root(
            entries,
            0,
            limit,
            boot,
            fat,
            RootState { bitmaps: 0, upcase_table: false, label: None, items: Seq::empty() },
        ) == Ok::<RootView, RootFault>(RootView { label: Some(label), items: Seq::empty() }),
{
    broadcast use vstd::array::group_array_axioms;

    let root = fresh_root_bytes(label, None, bitmap_length_bytes, uptable_start_cluster);
    let state0 = RootState { bitmaps: 0, upcase_table: false, label: None, items: Seq::empty() };
    let state1 = RootState { label: Some(label), ..state0 };
    let state2 = RootState { bitmaps: 1, ..state1 };
    let state3 = RootState { upcase_table: true, ..state2 };
    lemma_le_bytes_len(0, 8);
    lemma_le_bytes_len(2, 4);
    lemma_le_bytes_len(bitmap_length_bytes as nat, 8);
    lemma_le_bytes_len(0xE619D30D, 4);
    lemma_le_bytes_len(uptable_start_cluster as nat, 4);
    lemma_le_bytes_len(5836, 8);
    // The label.
    let e0 = DirEntry::VolumeLabel(
        VolumeLabelEntry { character_count: label.1, volume_label: label.0, _reserved: 0 },
    );
    let b0 = root.subrange(0, 32);
    assert(b0 =~= e0.spec_bytes());
    e0.lemma_parses_bytes();
    e0.lemma_decoded(b0);
    assert(b0[0] == 0x83);
    assert(0x83u8 & 0x40 == 0) by (bit_vector);
    assert(Label(label.0, label.1) == label);
    // The slot of the GUID.
    let b1 = root.subrange(32, 64);
    assert(b1[0] == 0x20);
    // The bitmap.
    let e2 = DirEntry::Bitmap(
        BitmapEntry {
            flags: 0,
            _reserved: spec_array_fill_for_copy_type::<u8, 18>(0),
            first_cluster: 2,
            data_len: bitmap_length_bytes,
        },
    );
    let b2 = root.subrange(64, 96);
    assert(e2->Bitmap_0._reserved@ =~= Seq::new(18, |i: int| 0u8));
    assert(b2 =~= e2.spec_bytes());
    e2.lemma_parses_bytes();
    e2.lemma_decoded(b2);
    assert(b2[0] == 0x81);
    assert(0x81u8 & 0x40 == 0) by (bit_vector);
    assert(0u8 & 1 == 0) by (bit_vector);
    // The up-case table.
    let e3 = DirEntry::UpcaseTable(
        UpcaseTableEntry {
            _reserved1: spec_array_fill_for_copy_type::<u8, 3>(0),
            table_checksum: 0xE619D30D,
            _reserved2: spec_array_fill_for_copy_type::<u8, 12>(0),
            first_cluster: uptable_start_cluster,
            data_len: 5836,
        },
    );
    let b3 = root.subrange(96, 128);
    assert(e3->UpcaseTable_0._reserved1@ =~= Seq::new(3, |i: int| 0u8));
    assert(e3->UpcaseTable_0._reserved2@ =~= Seq::new(12, |i: int| 0u8));
    assert(b3 =~= e3.spec_bytes());
    e3.lemma_parses_bytes();
    e3.lemma_decoded(b3);
    assert(b3[0] == 0x82);
    assert(0x82u8 & 0x40 == 0) by (bit_vector);
    // The end.
    let done = Ok::<RootView, RootFault>(RootView { label: Some(label), items: Seq::empty() });
    assert(finish_root(boot, state3) == done);
    assert(walk_root(entries, 4, limit, boot, fat, state3) == done);
    assert(walk_root(entries, 3, limit, boot, fat, state2) == done);
    assert(walk_root(entries, 2, limit, boot, fat, state1) == done);
    assert(walk_root(entries, 1, limit, boot, fat, state1) == done);
    assert(walk_root(entries, 0, limit, boot, fat, state0) == done);
}

/// Whether a planned volume is one that can be opened once it is written:
/// it has no GUID, as a root directory has no place for one; its label has
/// 11 code units at most; the flag of the active FAT is clear; the root
/// directory's first cluster has an entry in the FAT that a reader loads;
/// the heap starts on a sector's boundary; and the FAT fits in the machine's
/// address range.
pub open spec fn opens_again(x: Exfat) -> bool {
    &&& x.format_options@.guid is None
    &&& x.format_options@.label.1 <= 11
    &&& x.volume_flags.spec_bits() & 1 == 0
    &&& x.geometry.first_cluster_of_root_directory < x.geometry.cluster_count
    &&& x.geometry.cluster_heap_offset_bytes % (x.geometry.bytes_per_sector as u32) == 0
    &&& x.geometry.cluster_count * 4 <= usize::MAX
}

/// The root directory of a fresh volume takes 128 bytes.
pub proof fn lemma_root_image_len(x: Exfat)
    ensures
        x.root_image().len() == 128,
{
    lemma_le_bytes_len(0, 8);
    lemma_le_bytes_len(2, 4);
    lemma_le_bytes_len(x.geometry.bitmap_length_bytes as nat, 8);
    lemma_le_bytes_len(0xE619D30D, 4);
    lemma_le_bytes_len(x.geometry.uptable_start_cluster as nat, 4);
    lemma_le_bytes_len(5836, 8);
    lemma_le_bytes_len(0, 2);
    if x.format_options@.guid is Some {
        let guid = x.format_options@.guid->0;
        lemma_le_bytes_len(guid as nat, 16);
        lemma_le_bytes_len(
            crate::entry::set_checksum(0, crate::root::guid_entry_bytes(guid, 0)) as nat,
            2,
        );
    }
}

/// A reader finds the boot sector of a formatted volume: the boot sector
/// that it reads holds the volume's parameters, and it has no fault.
pub proof fn lemma_boot_sector_of_formatted(base: Seq<u8>, x: Exfat, table: Seq<u8>)
    requires
        x.wf(),
        base.len() == x.format_options@.dev_size,
        x.volume_flags.spec_bits() & 1 == 0,
    ensures
        ({
            let d = formatted(base, x, table, x.root_image());
            let boot = parsed_boot_sector(d);
            &&& d.len() >= 512
            &&& boot.holds(x.boot_values())
            &&& boot_sector_fault(boot) is None
            &&& boot.shifts_valid()
            &&& boot.spec_bytes_per_sector() == x.geometry.bytes_per_sector
            &&& boot.spec_bytes_per_cluster() == x.geometry.bytes_per_cluster
            &&& boot.spec_bytes_per_cluster() == boot.spec_sectors_per_cluster()
                * boot.spec_bytes_per_sector()
            &&& fat_byte_offset(boot) == x.fat_base()
        }),
{
    let root = x.root_image();
    let d = formatted(base, x, table, root);
    let g = x.geometry;
    let q = x.format_options@.request();
    let bps = g.bytes_per_sector as int;
    let v = x.boot_values();
    x.lemma_wf_bounds();
    lemma_boot_parameters_valid(q);
    crate::format::image_laws::lemma_boot_regions(base, x, table, root);
    lemma_boot_sector_image_len(x);
    crate::format::image::lemma_region_lengths(boot_sector_image(x), bps as nat);
    let region = boot_region(boot_sector_image(x), bps as nat);
    assert(d.subrange(0, 512) =~= BootSector::bytes_of(v)) by {
        assert(region.subrange(0, 512) =~= boot_sector_image(x));
        assert(d.subrange(0, 512) =~= d.subrange(0, 12 * bps).subrange(0, 512));
    }
    lemma_boot_sector_read_back(d, v);
    let boot = parsed_boot_sector(d);
    let flags = x.volume_flags.spec_bits();
    assert((flags & 0xF) & 1 == flags & 1) by (bit_vector);
    assert(!active_fat_set(boot.volume_flags));
    lemma_pow2_adds(g.bytes_per_sector_shift as nat, g.sectors_per_cluster_shift as nat);
    assert(boot.spec_bytes_per_cluster() == boot.spec_sectors_per_cluster()
        * boot.spec_bytes_per_sector()) by (nonlinear_arith)
        requires
            boot.spec_bytes_per_cluster() == boot.spec_bytes_per_sector()
                * boot.spec_sectors_per_cluster(),
    ;
    assert(fat_byte_offset(boot) == x.fat_base()) by (nonlinear_arith)
        requires
            fat_byte_offset(boot) == (boot.fat_length * 0 + boot.fat_offset) * bps,
            x.fat_base() == g.fat_offset * bps,
            boot.fat_offset == g.fat_offset,
    ;
}

/// A reader finds the FAT of a formatted volume, and in it the chain of the
/// root directory, which is the root directory's first cluster alone.
pub proof fn lemma_fat_of_formatted(base: Seq<u8>, x: Exfat, table: Seq<u8>)
    requires
        x.wf(),
        base.len() == x.format_options@.dev_size,
        table.len() == 5836,
        opens_again(x),
    ensures
        ({
            let d = formatted(base, x, table, x.root_image());
            let boot = parsed_boot_sector(d);
            let fat = fat_words(d, fat_byte_offset(boot), boot.cluster_count as nat);
            let r = x.geometry.first_cluster_of_root_directory;
            &&& fat_loadable(boot)
            &&& fat_byte_offset(boot) + 4 * boot.cluster_count <= d.len()
            &&& boot.first_cluster_of_root_directory == r
            &&& 2 <= r <= boot.cluster_count + 1
            &&& spec_allocation(
                boot,
                fat,
                r,
                ClusterChainOptions::Fat { data_length: None },
            ) == Ok::<(Seq<u32>, u64), ClusterChainError>(
                (seq![r], x.geometry.bytes_per_cluster as u64),
            )
        }),
{
    let root = x.root_image();
    let d = formatted(base, x, table, root);
    let g = x.geometry;
    let bps = g.bytes_per_sector as int;
    let cs = g.bytes_per_cluster as int;
    let r = g.first_cluster_of_root_directory;
    lemma_root_image_len(x);
    lemma_formatted_regions(base, x, table, root);
    lemma_heap_within_device(x);
    lemma_used_clusters(x);
    lemma_boot_sector_of_formatted(base, x, table);
    let boot = parsed_boot_sector(d);
    let fat_at = x.fat_base();
    let count = boot.cluster_count as nat;
    let fat = fat_words(d, fat_at, count);
    let table_words = fat_table(g);
    assert(fat_loadable(boot));
    assert(fat_at + 4 * boot.cluster_count <= d.len());
    lemma_fat_word_read_back(d, fat_at, table_words, count, r as int);
    assert(fat[r as int] == 0xFFFF_FFFFu32);
    assert(spec_chain(fat, r, fat.len()) =~= seq![r]) by {
        reveal_with_fuel(spec_chain, 3);
        assert(spec_chain(fat, 0xFFFF_FFFFu32, (fat.len() - 1) as nat) =~= Seq::<u32>::empty());
    }
    assert(cs * 1 == cs) by (nonlinear_arith);
}

/// The cluster of the root directory of a formatted volume lies where a
/// reader looks for it.
pub proof fn lemma_root_cluster_of_formatted(base: Seq<u8>, x: Exfat, table: Seq<u8>)
    requires
        x.wf(),
        base.len() == x.format_options@.dev_size,
        table.len() == 5836,
        opens_again(x),
    ensures
        ({
            let d = formatted(base, x, table, x.root_image());
            let boot = parsed_boot_sector(d);
            boot.spec_cluster_offset(x.geometry.first_cluster_of_root_directory) == Some(
                x.geometry.root_offset_bytes as u64,
            )
        }),
{
    let d = formatted(base, x, table, x.root_image());
    let g = x.geometry;
    let bps = g.bytes_per_sector as int;
    let cs = g.bytes_per_cluster as int;
    let r = g.first_cluster_of_root_directory;
    lemma_used_clusters(x);
    lemma_boot_sector_of_formatted(base, x, table);
    lemma_sector_offset(x);
    let boot = parsed_boot_sector(d);
    let root_at = g.root_offset_bytes as int;
    let spc = boot.spec_sectors_per_cluster() as int;
    assert((boot.cluster_heap_offset + (r - 2) * spc) * bps == root_at) by (nonlinear_arith)
        requires
            boot.cluster_heap_offset * bps == g.cluster_heap_offset_bytes,
            cs == spc * bps,
            root_at == g.cluster_heap_offset_bytes + (r - 2) * cs,
    ;
}

/// The first five entries of the root directory of a formatted volume, as a
/// reader finds them: the four that the formatter wrote, and an entry that
/// ends the directory.
pub proof fn lemma_root_entries_of_formatted(base: Seq<u8>, x: Exfat, table: Seq<u8>)
    requires
        x.wf(),
        base.len() == x.format_options@.dev_size,
        table.len() == 5836,
        opens_again(x),
    ensures
        ({
            let d = formatted(base, x, table, x.root_image());
            let boot = parsed_boot_sector(d);
            let r = x.geometry.first_cluster_of_root_directory;
            let cs = x.geometry.bytes_per_cluster as int;
            let root = x.root_image();
            let entries = |k: int| entry_bytes_at(d, boot, seq![r], cs, k);
            &&& cs >= 512
            &&& boot.number_of_fats == 1
            &&& entries(0) == Some(root.subrange(0, 32))
            &&& entries(1) == Some(root.subrange(32, 64))
            &&& entries(2) == Some(root.subrange(64, 96))
            &&& entries(3) == Some(root.subrange(96, 128))
            &&& entries(4) matches Some(b) && b.len() == 32 && b[0] == 0
        }),
{
    let root = x.root_image();
    let d = formatted(base, x, table, root);
    let g = x.geometry;
    let r = g.first_cluster_of_root_directory;
    lemma_root_image_len(x);
    lemma_formatted_regions(base, x, table, root);
    lemma_boot_sector_of_formatted(base, x, table);
    lemma_root_cluster_of_formatted(base, x, table);
    lemma_heap_within_device(x);
    let boot = parsed_boot_sector(d);
    lemma_entries_of_cluster(d, boot, r, g.root_offset_bytes as int, root);
}

/// A reader that walks the root directory of a formatted volume finds the
/// label that the volume was formatted with, and no file or directory.
pub proof fn lemma_root_of_formatted(base: Seq<u8>, x: Exfat, table: Seq<u8>)
    requires
        x.wf(),
        base.len() == x.format_options@.dev_size,
        table.len() == 5836,
        opens_again(x),
    ensures
        ({
            let d = formatted(base, x, table, x.root_image());
            let boot = parsed_boot_sector(d);
            let fat = fat_words(d, fat_byte_offset(boot), boot.cluster_count as nat);
            let r = x.geometry.first_cluster_of_root_directory;
            let cs = x.geometry.bytes_per_cluster;
            walk_root(
                |k: int| entry_bytes_at(d, boot, seq![r], (cs as u64) as int, k),
                0,
                (cs as u64) as int / 32,
                boot,
                fat,
                RootState { bitmaps: 0, upcase_table: false, label: None, items: Seq::empty() },
            ) == Ok::<RootView, RootFault>(
                RootView { label: Some(x.format_options@.label), items: Seq::empty() },
            )
        }),
{
    let d = formatted(base, x, table, x.root_image());
    let g = x.geometry;
    let cs = g.bytes_per_cluster as int;
    let r = g.first_cluster_of_root_directory;
    let boot = parsed_boot_sector(d);
    let fat = fat_words(d, fat_byte_offset(boot), boot.cluster_count as nat);
    lemma_root_entries_of_formatted(base, x, table);
    lemma_uptable_start(x);
    let entries: EntrySource = |k: int| entry_bytes_at(d, boot, seq![r], cs, k);
    lemma_walk_fresh_root(
        entries,
        cs / 32,
        boot,
        fat,
        x.format_options@.label,
        g.bitmap_length_bytes as u64,
        g.uptable_start_cluster,
    );
    assert(entries =~= (|k: int| entry_bytes_at(d, boot, seq![r], (cs as u64) as int, k)));
}

/// The first five entries of a directory of one cluster whose first 128
/// bytes are given and whose other bytes are zero: the four entries that the
/// 128 bytes hold, and an entry that ends the directory.
proof fn lemma_entries_of_cluster(d: Seq<u8>, boot: BootSector, r: u32, at: int, root: Seq<u8>)
    requires
        boot.shifts_valid(),
        0 <= at <= u64::MAX,
        boot.spec_cluster_offset(r) == Some(at as u64),
        at + boot.spec_bytes_per_cluster() <= d.len(),
        boot.spec_bytes_per_cluster() >= 512,
        root.len() == 128,
        d.subrange(at, at + 128) == root,
        forall|i: int| at + 128 <= i < at + boot.spec_bytes_per_cluster() ==> #[trigger] d[i] == 0u8,
    ensures
        ({
            let cs = boot.spec_bytes_per_cluster() as int;
            let entries = |k: int| entry_bytes_at(d, boot, seq![r], cs, k);
            &&& entries(0) == Some(root.subrange(0, 32))
            &&& entries(1) == Some(root.subrange(32, 64))
            &&& entries(2) == Some(root.subrange(64, 96))
            &&& entries(3) == Some(root.subrange(96, 128))
            &&& entries(4) matches Some(b) && b.len() == 32 && b[0] == 0
        }),
{
    lemma_single_cluster_entry(d, boot, r, at, 0);
    lemma_single_cluster_entry(d, boot, r, at, 1);
    lemma_single_cluster_entry(d, boot, r, at, 2);
    lemma_single_cluster_entry(d, boot, r, at, 3);
    lemma_single_cluster_entry(d, boot, r, at, 4);
    let written = d.subrange(at, at + 128);
    assert(d.subrange(at, at + 32) =~= written.subrange(0, 32));
    assert(d.subrange(at + 32, at + 64) =~= written.subrange(32, 64));
    assert(d.subrange(at + 64, at + 96) =~= written.subrange(64, 96));
    assert(d.subrange(at + 96, at + 128) =~= written.subrange(96, 128));
    assert(d.subrange(at + 128, at + 160)[0] == d[at + 128]);
}

/// The heap's offset in sectors, times the sector size, is its offset in
/// bytes where that is a multiple of the sector size.
proof fn lemma_sector_offset(x: Exfat)
    requires
        x.wf(),
        x.geometry.cluster_heap_offset_bytes % (x.geometry.bytes_per_sector as u32) == 0,
    ensures
        x.geometry.cluster_heap_offset * x.geometry.bytes_per_sector
            == x.geometry.cluster_heap_offset_bytes,
{
    let g = x.geometry;
    let bps = g.bytes_per_sector as int;
    x.lemma_wf_bounds();
    lemma_geometry_parts(x.format_options@.request());
    vstd::arithmetic::div_mod::lemma_fundamental_div_mod(g.cluster_heap_offset_bytes as int, bps);
    assert(g.cluster_heap_offset * bps == g.cluster_heap_offset_bytes) by (nonlinear_arith)
        requires
            g.cluster_heap_offset == g.cluster_heap_offset_bytes as int / bps,
            g.cluster_heap_offset_bytes as int == bps * (g.cluster_heap_offset_bytes as int / bps)
                + g.cluster_heap_offset_bytes as int % bps,
            g.cluster_heap_offset_bytes as int % bps == 0,
    ;
}

/// The up-case table starts at the first usable cluster or behind it.
proof fn lemma_uptable_start(x: Exfat)
    requires
        x.wf(),
    ensures
        x.geometry.uptable_start_cluster >= 2,
{
    x.lemma_wf_bounds();
    lemma_geometry_parts(x.format_options@.request());
    lemma_span_facts(x.geometry.bitmap_length_bytes as int, x.geometry.bytes_per_cluster as int);
}

/// A volume that was just formatted opens again: the reader finds the label
/// that the volume was formatted with, and no file or directory.
///
/// This holds of the volumes that `opens_again` describes, and of no other:
/// a volume with a GUID has an entry in its root directory that a reader
/// does not accept there, and a heap that is too small for the root
/// directory, or that starts within a sector, leaves the reader without the
/// root directory's cluster.
pub proof fn lemma_open_formatted(base: Seq<u8>, x: Exfat, table: Seq<u8>)
    requires
        x.wf(),
        base.len() == x.format_options@.dev_size,
        table.len() == 5836,
        opens_again(x),
    ensures
        open_volume(formatted(base, x, table, x.root_image())) == Ok::<RootView, RootFault>(
            RootView { label: Some(x.format_options@.label), items: Seq::empty() },
        ),
{
    lemma_boot_sector_of_formatted(base, x, table);
    lemma_fat_of_formatted(base, x, table);
    lemma_root_of_formatted(base, x, table);
}

/// A length rounded up to whole clusters has a number of clusters that is
/// not negative.
proof fn lemma_span_facts(len: int, cs: int)
    requires
        len >= 0,
        cs > 0,
    ensures
        crate::arith::align_up(len, cs) / cs >= 0,
{
    crate::arith::lemma_align_up(len, cs);
    vstd::arithmetic::div_mod::lemma_div_pos_is_pos(crate::arith::align_up(len, cs), cs);
}

} // verus!
