//! Writing boot regions.

use crate::boot::checksum::{
    boot_fold, boot_region_checksum, checksum_fold, lemma_boot_fold_append,
    lemma_checksum_fold_append, repeat_fold, Checksum,
};
use crate::boot_sector::{BootSector, EXTENDED_BOOT_SIGNATURE};
use crate::codec::{le_bytes, lemma_le_bytes_len, put_fill, put_le};
use crate::disk::{
    lemma_overlay_append, lemma_overlay_within, overlay, write_at, write_zeroes, zeros, WriteSeek,
};
use crate::format::geometry::valid_sector_size;
use crate::format::image::{
    boot_region, checked_sectors, checksum_sector, extended_sector, first_sector,
    lemma_region_lengths, lemma_repeated_len, repeated,
};
use vstd::prelude::*;

verus! {

/// Offset of the main boot region, in sectors.
pub const MAIN_BOOT_OFFSET: u64 = 0;

/// Offset of the backup boot region, in sectors.
pub const BACKUP_BOOT_OFFSET: u64 = 12;

/// Number of extended boot sectors of a boot region.
pub const EXTENDED_BOOT: u64 = 8;

/// The checksum of some copies of a sector is the checksum of the bytes of
/// all of them.
pub proof fn lemma_repeat_fold(acc: u32, s: Seq<u8>, times: nat)
    ensures
        repeat_fold(acc, s, times) == checksum_fold(acc, repeated(s, times)),
    decreases times,
{
    if times > 0 {
        lemma_repeat_fold(acc, s, (times - 1) as nat);
        lemma_checksum_fold_append(acc, repeated(s, (times - 1) as nat), s);
    }
}

/// Writes `data` right behind the bytes `done` that were written from byte
/// `at` on.
pub(crate) fn append_write<T: WriteSeek>(
    f: &mut T,
    offset: u64,
    data: &[u8],
    Ghost(base): Ghost<Seq<u8>>,
    Ghost(at): Ghost<int>,
    Ghost(done): Ghost<Seq<u8>>,
) -> (r: Result<(), T::Err>)
    requires
        0 <= at,
        offset == at + done.len(),
        old(f).contents() == overlay(base, at, done),
    ensures
        final(f).dependable() == old(f).dependable(),
        r is Ok ==> final(f).contents() == overlay(base, at, done + data@),
        old(f).dependable() && at + done.len() + data@.len() <= base.len() ==> r is Ok,
{
    proof {
        lemma_overlay_append(base, at, done, data@);
        if at + done.len() <= base.len() {
            lemma_overlay_within(base, at, done);
        }
    }
    write_at(f, offset, data)
}

/// Writes `size` zero bytes right behind the bytes `done` that were written
/// from byte `at` on.
pub(crate) fn append_zeroes<T: WriteSeek>(
    f: &mut T,
    offset: u64,
    size: u64,
    Ghost(base): Ghost<Seq<u8>>,
    Ghost(at): Ghost<int>,
    Ghost(done): Ghost<Seq<u8>>,
) -> (r: Result<(), T::Err>)
    requires
        0 <= at,
        offset == at + done.len(),
        old(f).contents() == overlay(base, at, done),
    ensures
        final(f).dependable() == old(f).dependable(),
        r is Ok ==> final(f).contents() == overlay(base, at, done + zeros(size as nat)),
        old(f).dependable() && at + done.len() + size <= base.len() ==> r is Ok,
{
    proof {
        lemma_overlay_append(base, at, done, zeros(size as nat));
        if at + done.len() <= base.len() {
            lemma_overlay_within(base, at, done);
        }
    }
    write_zeroes(f, size, offset)
}

/// Offset in bytes of the sector with the given index.
pub fn offset_sector_bytes(bytes_per_sector: u16, sector_index: u64) -> (r: u64)
    requires
        sector_index <= 0xFFFF_FFFF,
    ensures
        r == bytes_per_sector * sector_index,
        r == sector_index * bytes_per_sector,
{
    assert(bytes_per_sector * sector_index <= 0xFFFF * 0xFFFF_FFFF && bytes_per_sector
        * sector_index == sector_index * bytes_per_sector) by (nonlinear_arith)
        requires
            bytes_per_sector <= 0xFFFF,
            sector_index <= 0xFFFF_FFFF,
    ;
    bytes_per_sector as u64 * sector_index
}

/// The first sector of a boot region: the boot sector's fields, and zeroes up
/// to the sector's end.
pub fn first_sector_bytes(sector: &BootSector, bytes_per_sector: u16) -> (r: Vec<u8>)
    requires
        valid_sector_size(bytes_per_sector),
    ensures
        r@ == first_sector(sector.spec_bytes(), bytes_per_sector as nat),
        r@.len() == bytes_per_sector,
{
    let mut out: Vec<u8> = sector.to_bytes();
    put_fill(&mut out, 0, bytes_per_sector as usize - 512);
    out
}

/// An extended boot sector: zeroes, and the signature in the last four bytes.
pub fn extended_sector_bytes(bytes_per_sector: u16) -> (r: Vec<u8>)
    requires
        valid_sector_size(bytes_per_sector),
    ensures
        r@ == extended_sector(bytes_per_sector as nat),
        r@.len() == bytes_per_sector,
{
    let mut out: Vec<u8> = Vec::new();
    put_fill(&mut out, 0, bytes_per_sector as usize - 4);
    put_le(&mut out, EXTENDED_BOOT_SIGNATURE as u128, 4);
    proof {
        lemma_le_bytes_len(0xAA550000, 4);
    }
    out
}

/// The checksum sector of a boot region: the checksum, least significant
/// byte first, as often as the sector takes it.
pub fn checksum_sector_bytes(sum: u32, bytes_per_sector: u16) -> (r: Vec<u8>)
    requires
        valid_sector_size(bytes_per_sector),
    ensures
        r@ == checksum_sector(sum, bytes_per_sector as nat),
        r@.len() == bytes_per_sector,
{
    let mut out: Vec<u8> = Vec::new();
    let n: usize = bytes_per_sector as usize / 4;
    let mut i: usize = 0;
    while i < n
        invariant
            i <= n,
            out@ == repeated(le_bytes(sum as nat, 4), i as nat),
        decreases n - i,
    {
        put_le(&mut out, sum as u128, 4);
        i = i + 1;
    }
    proof {
        lemma_le_bytes_len(sum as nat, 4);
        lemma_repeated_len(le_bytes(sum as nat, 4), n as nat);
    }
    out
}

/// Writes `amount` extended boot sectors from the sector `offset_sectors` on
/// and gives the bytes of one of them.
pub(crate) fn write_extended<T: WriteSeek>(
    f: &mut T,
    bytes_per_sector: u16,
    offset_sectors: u64,
    amount: u64,
    Ghost(base): Ghost<Seq<u8>>,
    Ghost(at): Ghost<int>,
    Ghost(done): Ghost<Seq<u8>>,
) -> (r: Result<Vec<u8>, T::Err>)
    requires
        valid_sector_size(bytes_per_sector),
        offset_sectors <= 0xFFFF,
        amount <= 0xFFFF,
        0 <= at,
        offset_sectors * bytes_per_sector == at + done.len(),
        old(f).contents() == overlay(base, at, done),
    ensures
        final(f).dependable() == old(f).dependable(),
        r matches Ok(buffer) ==> buffer@ == extended_sector(bytes_per_sector as nat)
            && final(f).contents() == overlay(
            base,
            at,
            done + repeated(extended_sector(bytes_per_sector as nat), amount as nat),
        ),
        old(f).dependable() && at + done.len() + amount * bytes_per_sector <= base.len()
            ==> r is Ok,
{
    let buffer: Vec<u8> = extended_sector_bytes(bytes_per_sector);
    let ghost sector = extended_sector(bytes_per_sector as nat);
    let mut i: u64 = 0;
    assert(done + repeated(sector, 0) =~= done);
    while i < amount
        invariant
            i <= amount <= 0xFFFF,
            offset_sectors <= 0xFFFF,
            valid_sector_size(bytes_per_sector),
            0 <= at,
            offset_sectors * bytes_per_sector == at + done.len(),
            buffer@ == sector,
            sector.len() == bytes_per_sector,
            f.dependable() == old(f).dependable(),
            f.contents() == overlay(base, at, done + repeated(sector, i as nat)),
        decreases amount - i,
    {
        let offset: u64 = offset_sector_bytes(bytes_per_sector, offset_sectors + i);
        proof {
            lemma_repeated_len(sector, i as nat);
            assert((offset_sectors + i) * bytes_per_sector == offset_sectors * bytes_per_sector + i
                * bytes_per_sector) by (nonlinear_arith);
            assert((done + repeated(sector, i as nat)) + sector =~= done + repeated(
                sector,
                (i + 1) as nat,
            ));
            assert(at + done.len() + i * bytes_per_sector + bytes_per_sector <= at + done.len()
                + amount * bytes_per_sector) by (nonlinear_arith)
                requires
                    i < amount,
            ;
        }
        append_write(
            f,
            offset,
            buffer.as_slice(),
            Ghost(base),
            Ghost(at),
            Ghost(done + repeated(sector, i as nat)),
        )?;
        i = i + 1;
    }
    Ok(buffer)
}

/// Writes a boot region from the sector `offset_sectors` on: the boot
/// sector, eight extended boot sectors, two sectors of zeroes and the sector
/// of the checksum of those eleven.
pub fn write_boot_region<T: WriteSeek>(
    f: &mut T,
    sector: &BootSector,
    bytes_per_sector: u16,
    offset_sectors: u64,
) -> (r: Result<(), T::Err>)
    requires
        valid_sector_size(bytes_per_sector),
        offset_sectors <= 0xFF,
    ensures
        final(f).dependable() == old(f).dependable(),
        r is Ok ==> final(f).contents() == overlay(
            old(f).contents(),
            offset_sectors * bytes_per_sector,
            boot_region(sector.spec_bytes(), bytes_per_sector as nat),
        ),
        old(f).dependable() && (offset_sectors + 12) * bytes_per_sector <= old(f).contents().len()
            ==> r is Ok,
{
    let ghost base = f.contents();
    let ghost bps = bytes_per_sector as nat;
    let ghost at = offset_sectors * bytes_per_sector;
    let ghost first = first_sector(sector.spec_bytes(), bps);
    let ghost ext = extended_sector(bps);
    proof {
        sector.lemma_bytes_len();
        lemma_region_lengths(sector.spec_bytes(), bps);
        lemma_repeated_len(ext, 8);
        assert((offset_sectors + 12) * bytes_per_sector == at + 12 * bps) by (nonlinear_arith)
            requires
                at == offset_sectors * bytes_per_sector,
                bps == bytes_per_sector,
        ;
        assert(at >= 0) by (nonlinear_arith)
            requires
                at == offset_sectors * bytes_per_sector,
        ;
    }
    let mut checksum = Checksum::new(bytes_per_sector);
    let mut index: u64 = offset_sectors;

    // The boot sector.
    let bytes: Vec<u8> = first_sector_bytes(sector, bytes_per_sector);
    assert(Seq::<u8>::empty() + bytes@ =~= first);
    append_write(
        f,
        offset_sector_bytes(bytes_per_sector, index),
        bytes.as_slice(),
        Ghost(base),
        Ghost(at),
        Ghost(Seq::empty()),
    )?;
    checksum.boot_sector(bytes.as_slice());
    index = index + 1;
    assert(index * bytes_per_sector == at + first.len()) by (nonlinear_arith)
        requires
            index == offset_sectors + 1,
            at == offset_sectors * bytes_per_sector,
            first.len() == bytes_per_sector,
    ;

    // The extended boot sectors.
    let buffer: Vec<u8> = write_extended(
        f,
        bytes_per_sector,
        index,
        EXTENDED_BOOT,
        Ghost(base),
        Ghost(at),
        Ghost(first),
    )?;
    checksum.extended_boot_sector(buffer.as_slice(), EXTENDED_BOOT);
    index = index + EXTENDED_BOOT;
    let ghost two = first + repeated(ext, 8);
    assert(index * bytes_per_sector == at + two.len()) by (nonlinear_arith)
        requires
            index == offset_sectors + 9,
            at == offset_sectors * bytes_per_sector,
            two.len() == 9 * bytes_per_sector,
    ;

    // The sector of OEM parameters, which are not in use.
    append_zeroes(
        f,
        offset_sector_bytes(bytes_per_sector, index),
        bytes_per_sector as u64,
        Ghost(base),
        Ghost(at),
        Ghost(two),
    )?;
    checksum.zero_sector();
    index = index + 1;
    let ghost three = two + zeros(bps);
    assert(index * bytes_per_sector == at + three.len()) by (nonlinear_arith)
        requires
            index == offset_sectors + 10,
            at == offset_sectors * bytes_per_sector,
            three.len() == 10 * bytes_per_sector,
    ;

    // The reserved sector.
    append_zeroes(
        f,
        offset_sector_bytes(bytes_per_sector, index),
        bytes_per_sector as u64,
        Ghost(base),
        Ghost(at),
        Ghost(three),
    )?;
    checksum.zero_sector();
    index = index + 1;
    let ghost four = three + zeros(bps);
    assert(index * bytes_per_sector == at + four.len()) by (nonlinear_arith)
        requires
            index == offset_sectors + 11,
            at == offset_sectors * bytes_per_sector,
            four.len() == 11 * bytes_per_sector,
    ;
    proof {
        assert(four =~= checked_sectors(sector.spec_bytes(), bps));
        lemma_repeat_fold(boot_fold(0, first), ext, 8);
        lemma_boot_fold_append(0, first, repeated(ext, 8));
        lemma_boot_fold_append(0, two, zeros(bps));
        lemma_boot_fold_append(0, three, zeros(bps));
        assert(checksum.value() == boot_region_checksum(four));
    }

    // The checksum sector.
    write_checksum(f, bytes_per_sector, checksum, index, Ghost(base), Ghost(at), Ghost(four))
}

/// Writes the sector of the checksum.
pub(crate) fn write_checksum<T: WriteSeek>(
    f: &mut T,
    bytes_per_sector: u16,
    checksum: Checksum,
    offset_sectors: u64,
    Ghost(base): Ghost<Seq<u8>>,
    Ghost(at): Ghost<int>,
    Ghost(done): Ghost<Seq<u8>>,
) -> (r: Result<(), T::Err>)
    requires
        valid_sector_size(bytes_per_sector),
        offset_sectors <= 0xFFFF,
        0 <= at,
        offset_sectors * bytes_per_sector == at + done.len(),
        old(f).contents() == overlay(base, at, done),
    ensures
        final(f).dependable() == old(f).dependable(),
        r is Ok ==> final(f).contents() == overlay(
            base,
            at,
            done + checksum_sector(checksum.value(), bytes_per_sector as nat),
        ),
        old(f).dependable() && at + done.len() + bytes_per_sector <= base.len() ==> r is Ok,
{
    let sum: u32 = checksum.get();
    let buffer: Vec<u8> = checksum_sector_bytes(sum, bytes_per_sector);
    append_write(
        f,
        offset_sector_bytes(bytes_per_sector, offset_sectors),
        buffer.as_slice(),
        Ghost(base),
        Ghost(at),
        Ghost(done),
    )
}

} // verus!
