//! The bytes of a freshly formatted volume.

use crate::arith::div_ceil;
use crate::boot::checksum::boot_region_checksum;
use crate::boot_sector::BootSector;
use crate::codec::{le_bytes, lemma_le_bytes_len};
use crate::disk::{overlay, zeros};
use crate::fat::{END_OF_CHAIN, MEDIA_TYPE};
use crate::format::geometry::Geometry;
use crate::format::{boot_values_of, Exfat};
use vstd::arithmetic::power2::pow2;
use vstd::prelude::*;

verus! {

/// `times` copies of `s`, one after the other.
pub open spec fn repeated(s: Seq<u8>, times: nat) -> Seq<u8>
    decreases times,
{
    if times == 0 {
        Seq::empty()
    } else {
        repeated(s, (times - 1) as nat) + s
    }
}

/// The bytes of a sequence of 32-bit words, each least significant byte first.
pub open spec fn words_bytes(w: Seq<u32>) -> Seq<u8>
    decreases w.len(),
{
    if w.len() == 0 {
        Seq::empty()
    } else {
        words_bytes(w.drop_last()) + le_bytes(w.last() as nat, 4)
    }
}

/// The first sector of a boot region: the boot sector's 512 bytes, and zeroes
/// up to the sector's end.
pub open spec fn first_sector(boot_sector: Seq<u8>, bps: nat) -> Seq<u8> {
    boot_sector + zeros((bps - 512) as nat)
}

/// An extended boot sector: all zero but for its signature in the last four
/// bytes.
pub open spec fn extended_sector(bps: nat) -> Seq<u8> {
    zeros((bps - 4) as nat) + le_bytes(0xAA550000, 4)
}

/// The eleven sectors of a boot region that its checksum is taken over: the
/// boot sector, eight extended boot sectors, the sector of OEM parameters and
/// a reserved sector, the last two all zero.
pub open spec fn checked_sectors(boot_sector: Seq<u8>, bps: nat) -> Seq<u8> {
    first_sector(boot_sector, bps) + repeated(extended_sector(bps), 8) + zeros(bps) + zeros(bps)
}

/// The last sector of a boot region: the checksum, over and over.
pub open spec fn checksum_sector(sum: u32, bps: nat) -> Seq<u8> {
    repeated(le_bytes(sum as nat, 4), bps / 4)
}

/// The twelve sectors of a boot region.
pub open spec fn boot_region(boot_sector: Seq<u8>, bps: nat) -> Seq<u8> {
    checked_sectors(boot_sector, bps) + checksum_sector(
        boot_region_checksum(checked_sectors(boot_sector, bps)),
        bps,
    )
}

/// The FAT entries of a chain of `n` clusters from cluster `first` on: each
/// points at the next cluster, the last ends the chain.
pub open spec fn chain_words(first: int, n: int) -> Seq<u32> {
    Seq::new(
        n as nat,
        |j: int|
            if j == n - 1 {
                END_OF_CHAIN
            } else {
                (first + j + 1) as u32
            },
    )
}

/// Number of clusters that the allocation bitmap takes.
pub open spec fn bitmap_clusters(g: Geometry) -> int {
    div_ceil(g.bitmap_length_bytes as int, g.bytes_per_cluster as int)
}

/// Number of clusters that the up-case table takes.
pub open spec fn uptable_clusters(g: Geometry) -> int {
    div_ceil(g.uptable_length_bytes as int, g.bytes_per_cluster as int)
}

/// Number of clusters that the root directory takes.
pub open spec fn root_clusters(g: Geometry) -> int {
    div_ceil(g.root_length_bytes as int, g.bytes_per_cluster as int)
}

/// Number of clusters in use on a fresh volume.
pub open spec fn used_clusters(g: Geometry) -> int {
    bitmap_clusters(g) + uptable_clusters(g) + root_clusters(g)
}

/// The entries of the FAT that a formatter writes: the media type, an end
/// mark, and the chains of the bitmap, the up-case table and the root
/// directory, one behind the other from cluster 2 on.
pub open spec fn fat_table(g: Geometry) -> Seq<u32> {
    seq![MEDIA_TYPE, END_OF_CHAIN] + chain_words(2, bitmap_clusters(g)) + chain_words(
        2 + bitmap_clusters(g),
        uptable_clusters(g),
    ) + chain_words(2 + bitmap_clusters(g) + uptable_clusters(g), root_clusters(g))
}

/// The byte at index `i` of a bitmap in which the first `used` clusters are
/// in use: a cluster's bit is bit `n % 8` of byte `n / 8`.
pub open spec fn bitmap_byte(used: int, i: int) -> u8 {
    if i < used / 8 {
        0xFF
    } else if i == used / 8 {
        (pow2((used % 8) as nat) - 1) as u8
    } else {
        0
    }
}

/// The `len` bytes of a bitmap in which the first `used` clusters are in use.
pub open spec fn bitmap_image(used: int, len: nat) -> Seq<u8> {
    Seq::new(len, |i: int| bitmap_byte(used, i))
}

/// Number of bytes from the volume's start that a formatter zeroes: up to
/// the end of the root directory's cluster, or all of the device.
pub open spec fn zeroed_length(x: Exfat) -> nat {
    if x.format_options@.full_format {
        x.format_options@.dev_size as nat
    } else {
        (x.geometry.root_offset_bytes + x.geometry.bytes_per_cluster) as nat
    }
}

/// The bytes of the boot sector of a planned volume.
pub open spec fn boot_sector_image(x: Exfat) -> Seq<u8> {
    BootSector::bytes_of(
        boot_values_of(
            x.geometry,
            x.volume_serial_number,
            x.file_system_revision,
            x.volume_flags.spec_bits(),
        ),
    )
}

/// What a device holds after formatting, where `base` is what it held
/// before: zeroes over the volume's structures, the main boot region at
/// sector 0, its copy at sector 12, the FAT's first entries, the bitmap, the
/// up-case table and the root directory.
pub open spec fn formatted(base: Seq<u8>, x: Exfat, table: Seq<u8>, root: Seq<u8>) -> Seq<u8> {
    let g = x.geometry;
    let bps = g.bytes_per_sector as nat;
    let region = boot_region(boot_sector_image(x), bps);
    let zeroed = overlay(base, 0, zeros(zeroed_length(x)));
    let main = overlay(zeroed, 0, region);
    let backup = overlay(main, (12 * bps) as int, region);
    let fat = overlay(backup, (g.fat_offset * bps) as int, words_bytes(fat_table(g)));
    let bitmap = overlay(
        fat,
        g.bitmap_offset_bytes as int,
        bitmap_image(used_clusters(g), g.bitmap_length_bytes as nat),
    );
    let uptable = overlay(bitmap, g.uptable_offset_bytes as int, table);
    overlay(uptable, g.root_offset_bytes as int, root)
}

pub proof fn lemma_repeated_len(s: Seq<u8>, times: nat)
    ensures
        repeated(s, times).len() == times * s.len(),
    decreases times,
{
    if times > 0 {
        lemma_repeated_len(s, (times - 1) as nat);
        assert(times * s.len() == (times - 1) * s.len() + s.len()) by (nonlinear_arith);
    } else {
        assert(0 * s.len() == 0) by (nonlinear_arith);
    }
}

pub proof fn lemma_words_bytes_len(w: Seq<u32>)
    ensures
        words_bytes(w).len() == 4 * w.len(),
    decreases w.len(),
{
    if w.len() > 0 {
        lemma_words_bytes_len(w.drop_last());
        lemma_le_bytes_len(w.last() as nat, 4);
    }
}

pub proof fn lemma_region_lengths(boot_sector: Seq<u8>, bps: nat)
    requires
        boot_sector.len() == 512,
        bps >= 512,
        bps % 4 == 0,
    ensures
        first_sector(boot_sector, bps).len() == bps,
        extended_sector(bps).len() == bps,
        checked_sectors(boot_sector, bps).len() == 11 * bps,
        forall|sum: u32| #[trigger] checksum_sector(sum, bps).len() == bps,
        boot_region(boot_sector, bps).len() == 12 * bps,
{
    lemma_le_bytes_len(0xAA550000, 4);
    lemma_repeated_len(extended_sector(bps), 8);
    assert forall|sum: u32| #[trigger] checksum_sector(sum, bps).len() == bps by {
        lemma_le_bytes_len(sum as nat, 4);
        lemma_repeated_len(le_bytes(sum as nat, 4), bps / 4);
    }
}

} // verus!
