//! The checksum of a boot region.

use vstd::prelude::*;

verus! {

/// One step of the checksum: the accumulator rotated right by one bit, plus
/// the byte, in 32-bit arithmetic that wraps.
pub open spec fn checksum_step(acc: u32, b: u8) -> u32 {
    (((acc % 2) * 0x8000_0000 + acc / 2 + b) % 0x1_0000_0000) as u32
}

/// The checksum of `bytes`, taken up from `acc`.
pub open spec fn checksum_fold(acc: u32, bytes: Seq<u8>) -> u32
    decreases bytes.len(),
{
    if bytes.len() == 0 {
        acc
    } else {
        checksum_step(checksum_fold(acc, bytes.drop_last()), bytes.last())
    }
}

/// Whether the byte at index `i` of a boot sector stays out of the checksum:
/// the two bytes of the volume flags and the percent-in-use byte do, as they
/// change while the volume is in use.
pub open spec fn boot_skips(i: int) -> bool {
    i == 106 || i == 107 || i == 112
}

/// The checksum of the bytes of a boot region from its start on, taken up
/// from `acc`, with the boot sector's volatile bytes left out.
pub open spec fn boot_fold(acc: u32, bytes: Seq<u8>) -> u32
    decreases bytes.len(),
{
    if bytes.len() == 0 {
        acc
    } else if boot_skips(bytes.len() - 1) {
        boot_fold(acc, bytes.drop_last())
    } else {
        checksum_step(boot_fold(acc, bytes.drop_last()), bytes.last())
    }
}

/// The checksum of `times` copies of `bytes`, taken up from `acc`.
pub open spec fn repeat_fold(acc: u32, bytes: Seq<u8>, times: nat) -> u32
    decreases times,
{
    if times == 0 {
        acc
    } else {
        checksum_fold(repeat_fold(acc, bytes, (times - 1) as nat), bytes)
    }
}

/// The checksum of a boot region: of the bytes of its first eleven sectors.
pub open spec fn boot_region_checksum(sectors: Seq<u8>) -> u32 {
    boot_fold(0, sectors)
}

/// The checksum of two runs of bytes is that of the second, taken up from
/// that of the first.
pub proof fn lemma_checksum_fold_append(acc: u32, a: Seq<u8>, b: Seq<u8>)
    ensures
        checksum_fold(acc, a + b) == checksum_fold(checksum_fold(acc, a), b),
    decreases b.len(),
{
    if b.len() == 0 {
        assert(a + b =~= a);
    } else {
        lemma_checksum_fold_append(acc, a, b.drop_last());
        assert((a + b).drop_last() =~= a + b.drop_last());
    }
}

/// Behind the boot sector's volatile bytes the checksum of a boot region goes
/// on as the plain checksum.
pub proof fn lemma_boot_fold_append(acc: u32, a: Seq<u8>, b: Seq<u8>)
    requires
        a.len() > 112,
    ensures
        boot_fold(acc, a + b) == checksum_fold(boot_fold(acc, a), b),
    decreases b.len(),
{
    if b.len() == 0 {
        assert(a + b =~= a);
    } else {
        lemma_boot_fold_append(acc, a, b.drop_last());
        assert((a + b).drop_last() =~= a + b.drop_last());
    }
}

/// A running boot-region checksum.
#[derive(Copy, Clone, Debug)]
pub struct Checksum {
    inner: u32,
    sector_size_in_bytes: u16,
}

impl Checksum {
    /// The checksum so far.
    pub closed spec fn value(&self) -> u32 {
        self.inner
    }

    /// The size of the sectors that the checksum is taken over.
    pub closed spec fn sector_size(&self) -> u16 {
        self.sector_size_in_bytes
    }

    /// A checksum that has seen no byte.
    pub fn new(sector_size_in_bytes: u16) -> (r: Checksum)
        ensures
            r.value() == 0,
            r.sector_size() == sector_size_in_bytes,
    {
        Checksum { inner: 0, sector_size_in_bytes }
    }

    fn step(acc: u32, b: u8) -> (r: u32)
        ensures
            r == checksum_step(acc, b),
    {
        let rotated: u64 = (acc % 2) as u64 * 0x8000_0000 + (acc / 2) as u64;
        ((rotated + b as u64) % 0x1_0000_0000) as u32
    }

    /// Takes in one sector that is all zero.
    pub fn zero_sector(&mut self)
        ensures
            final(self).sector_size() == old(self).sector_size(),
            final(self).value() == checksum_fold(
                old(self).value(),
                Seq::new(old(self).sector_size() as nat, |i: int| 0u8),
            ),
    {
        let n: u16 = self.sector_size_in_bytes;
        let ghost sector = Seq::new(n as nat, |i: int| 0u8);
        let mut i: u16 = 0;
        assert(sector.take(0) =~= Seq::<u8>::empty());
        while i < n
            invariant
                i <= n,
                n == self.sector_size_in_bytes,
                sector == Seq::new(n as nat, |i: int| 0u8),
                self.sector_size_in_bytes == old(self).sector_size_in_bytes,
                self.inner == checksum_fold(old(self).inner, sector.take(i as int)),
            decreases n - i,
        {
            assert(sector.take(i + 1).drop_last() =~= sector.take(i as int));
            self.inner = Checksum::step(self.inner, 0);
            i = i + 1;
        }
        assert(sector.take(n as int) =~= sector);
    }

    /// Takes in the boot sector, the first sector of the region, leaving out
    /// its volatile bytes.
    pub fn boot_sector(&mut self, sector: &[u8])
        requires
            sector@.len() == old(self).sector_size(),
        ensures
            final(self).sector_size() == old(self).sector_size(),
            final(self).value() == boot_fold(old(self).value(), sector@),
    {
        let n: u16 = self.sector_size_in_bytes;
        let mut i: u16 = 0;
        assert(sector@.take(0) =~= Seq::<u8>::empty());
        while i < n
            invariant
                i <= n,
                n == self.sector_size_in_bytes,
                n == sector@.len(),
                self.sector_size_in_bytes == old(self).sector_size_in_bytes,
                self.inner == boot_fold(old(self).inner, sector@.take(i as int)),
            decreases n - i,
        {
            assert(sector@.take(i + 1).drop_last() =~= sector@.take(i as int));
            if !(i == 106 || i == 107 || i == 112) {
                self.inner = Checksum::step(self.inner, sector[i as usize]);
            }
            i = i + 1;
        }
        assert(sector@.take(n as int) =~= sector@);
    }

    /// Takes in `amount` sectors that all hold the bytes of `sector`.
    pub fn extended_boot_sector(&mut self, sector: &[u8], amount: u64)
        requires
            sector@.len() == old(self).sector_size(),
        ensures
            final(self).sector_size() == old(self).sector_size(),
            final(self).value() == repeat_fold(old(self).value(), sector@, amount as nat),
    {
        let n: u16 = self.sector_size_in_bytes;
        let mut k: u64 = 0;
        while k < amount
            invariant
                k <= amount,
                n == self.sector_size_in_bytes,
                n == sector@.len(),
                self.sector_size_in_bytes == old(self).sector_size_in_bytes,
                self.inner == repeat_fold(old(self).inner, sector@, k as nat),
            decreases amount - k,
        {
            let ghost start = self.inner;
            let mut i: u16 = 0;
            assert(sector@.take(0) =~= Seq::<u8>::empty());
            while i < n
                invariant
                    i <= n,
                    n == self.sector_size_in_bytes,
                    n == sector@.len(),
                    self.sector_size_in_bytes == old(self).sector_size_in_bytes,
                    self.inner == checksum_fold(start, sector@.take(i as int)),
                decreases n - i,
            {
                assert(sector@.take(i + 1).drop_last() =~= sector@.take(i as int));
                self.inner = Checksum::step(self.inner, sector[i as usize]);
                i = i + 1;
            }
            assert(sector@.take(n as int) =~= sector@);
            k = k + 1;
        }
    }

    /// The checksum so far.
    pub fn get(&self) -> (r: u32)
        ensures
            r == self.value(),
    {
        self.inner
    }
}

} // verus!
