//! The file allocation table: for every cluster the cluster that follows it.

use crate::arith::{checked_add, checked_mul};
use crate::boot_sector::{active_fat_set, BootSector};
use crate::codec::{get_u32, le_value};
use crate::disk::{read_exact, ReadOffset};
use crate::error::FatLoadError;
use vstd::prelude::*;

verus! {

/// An entry of the FAT.
#[derive(Copy, Clone, Debug, PartialEq, Eq)]
pub struct FatEntry(pub u32);

/// The value of the FAT's first entry: the media type.
pub const MEDIA_TYPE: u32 = 0xFFFF_FFF8;

/// The value that ends a cluster chain.
pub const END_OF_CHAIN: u32 = 0xFFFF_FFFF;

/// The value that marks a cluster as bad.
pub const BAD_CLUSTER: u32 = 0xFFFF_FFF7;

impl FatEntry {
    /// The FAT's first entry: `F8` and three bytes `FF`.
    pub fn media_type() -> (r: FatEntry)
        ensures
            r.0 == MEDIA_TYPE,
    {
        FatEntry(MEDIA_TYPE)
    }

    /// The end of a cluster chain.
    pub fn eof() -> (r: FatEntry)
        ensures
            r.0 == END_OF_CHAIN,
    {
        FatEntry(END_OF_CHAIN)
    }

    /// A bad cluster.
    pub fn bad() -> (r: FatEntry)
        ensures
            r.0 == BAD_CLUSTER,
    {
        FatEntry(BAD_CLUSTER)
    }
}

/// Index of the FAT in use: the second where the volume has two and its
/// flags say so, the first otherwise.
pub open spec fn active_fat_index(boot: BootSector) -> int {
    if active_fat_set(boot.volume_flags) && boot.number_of_fats == 2 {
        1
    } else {
        0
    }
}

/// Byte offset of the FAT in use.
pub open spec fn fat_byte_offset(boot: BootSector) -> int {
    (boot.fat_length * active_fat_index(boot) + boot.fat_offset) * boot.spec_bytes_per_sector()
}

/// The `count` 32-bit words that a device holds from byte `offset` on, each
/// least significant byte first.
pub open spec fn fat_words(bytes: Seq<u8>, offset: int, count: nat) -> Seq<u32> {
    Seq::new(count, |i: int| le_value(bytes.subrange(offset + 4 * i, offset + 4 * i + 4)) as u32)
}

/// Whether the FAT in use can be held in memory: its byte offset fits in 64
/// bits and its length in the machine's address range.
pub open spec fn fat_loadable(boot: BootSector) -> bool {
    fat_byte_offset(boot) <= u64::MAX && boot.cluster_count * 4 <= usize::MAX
}

/// The clusters of the chain that starts at `next`, as far as `budget`
/// clusters: each cluster is followed by the one that its entry names, and
/// the chain ends where the index that comes next is below 2, at or beyond
/// the table's length, or the mark of a bad cluster.
pub open spec fn spec_chain(entries: Seq<u32>, next: u32, budget: nat) -> Seq<u32>
    decreases budget,
{
    if budget == 0 || next < 2 || next >= entries.len() || next == BAD_CLUSTER {
        Seq::empty()
    } else {
        seq![next] + spec_chain(entries, entries[next as int], (budget - 1) as nat)
    }
}

/// The FAT in use, in memory: one entry for each cluster of the heap.
#[derive(Debug, PartialEq, Eq)]
pub struct Fat {
    /// The entries, by cluster index.
    pub entries: Vec<u32>,
}

impl View for Fat {
    type V = Seq<u32>;

    open spec fn view(&self) -> Seq<u32> {
        self.entries@
    }
}

impl Fat {
    /// Reads the FAT in use from the device: as many entries as the heap has
    /// clusters.
    pub fn load<R: ReadOffset>(device: &R, boot: &BootSector) -> (r: Result<Fat, FatLoadError<R::Err>>)
        requires
            boot.shifts_valid(),
        ensures
            match r {
                Ok(fat) => fat_loadable(*boot) && fat@ == fat_words(
                    device.bytes(),
                    fat_byte_offset(*boot),
                    boot.cluster_count as nat,
                ) && (boot.cluster_count > 0 ==> fat_byte_offset(*boot) + 4 * boot.cluster_count
                    <= device.bytes().len()),
                Err(FatLoadError::InvalidOffset) => !fat_loadable(*boot),
                Err(FatLoadError::ReadFailed(at, _)) => fat_loadable(*boot) && at == fat_byte_offset(
                    *boot,
                ),
            },
            device.reliable() && fat_loadable(*boot) ==> (r is Ok <==> boot.cluster_count == 0
                || fat_byte_offset(*boot) + 4 * boot.cluster_count <= device.bytes().len()),
    {
        let flags: u16 = boot.volume_flags;
        let index: u64 = if (flags & 0xF) & 1 == 1 && boot.number_of_fats == 2 {
            1
        } else {
            0
        };
        let bps: u64 = boot.bytes_per_sector() as u64;
        let sector_offset: Option<u64> = match checked_mul(boot.fat_length as u64, index) {
            Some(a) => checked_add(a, boot.fat_offset as u64),
            None => None,
        };
        let byte_offset: u64 = match sector_offset {
            Some(s) => {
                assert(s * bps <= 0x2_0000_0000 * 4096) by (nonlinear_arith)
                    requires
                        s <= 0x2_0000_0000,
                        bps <= 4096,
                ;
                match checked_mul(s, bps) {
                    Some(b) => b,
                    None => {
                        return Err(FatLoadError::InvalidOffset);
                    },
                }
            },
            None => {
                return Err(FatLoadError::InvalidOffset);
            },
        };
        if boot.cluster_count as u64 > (usize::MAX / 4) as u64 {
            return Err(FatLoadError::InvalidOffset);
        }
        let count: usize = boot.cluster_count as usize;
        let mut bytes: Vec<u8> = vec![0u8; count * 4];
        match read_exact(device, byte_offset, bytes.as_mut_slice()) {
            Ok(()) => {},
            Err(e) => {
                return Err(FatLoadError::ReadFailed(byte_offset, e));
            },
        }
        let mut entries: Vec<u32> = Vec::new();
        let mut i: usize = 0;
        while i < count
            invariant
                i <= count,
                count == boot.cluster_count,
                count <= usize::MAX / 4,
                bytes@.len() == 4 * count,
                count > 0 ==> bytes@ == device.bytes().subrange(
                    byte_offset as int,
                    byte_offset + 4 * count,
                ) && byte_offset + 4 * count <= device.bytes().len(),
                entries@.len() == i,
                forall|j: int|
                    0 <= j < i ==> entries@[j] == fat_words(
                        device.bytes(),
                        byte_offset as int,
                        count as nat,
                    )[j],
            decreases count - i,
        {
            let word: u32 = get_u32(bytes.as_slice(), 4 * i);
            assert(bytes@.subrange(4 * i, 4 * i + 4) =~= device.bytes().subrange(
                byte_offset + 4 * i,
                byte_offset + 4 * i + 4,
            ));
            entries.push(word);
            i = i + 1;
        }
        assert(entries@ =~= fat_words(device.bytes(), byte_offset as int, count as nat));
        Ok(Fat { entries })
    }

    /// The clusters of the chain that starts at `first`.
    pub fn chain(&self, first: u32) -> (r: Vec<u32>)
        ensures
            r@ == spec_chain(self@, first, self@.len()),
    {
        let mut walker = ClusterChain::new(self, first);
        let mut out: Vec<u32> = Vec::new();
        let ghost whole = walker.remaining();
        loop
            invariant
                whole == out@ + walker.remaining(),
                whole == spec_chain(self@, first, self@.len()),
            decreases walker.budget,
        {
            match walker.next() {
                Some(c) => {
                    proof {
                        assert(out@.push(c) + walker.remaining() =~= out@ + (seq![c]
                            + walker.remaining()));
                    }
                    out.push(c);
                },
                None => {
                    assert(out@ + Seq::<u32>::empty() =~= out@);
                    return out;
                },
            }
        }
    }
}

/// A walk along a cluster chain. It ends after as many clusters as the FAT
/// has entries, which a chain without a cycle never has.
pub struct ClusterChain<'fat> {
    /// The FAT.
    pub entries: &'fat Vec<u32>,
    /// The cluster that comes next.
    pub next: u32,
    /// Number of clusters that the walk may still yield.
    pub budget: usize,
}

impl<'fat> ClusterChain<'fat> {
    /// The clusters that the walk still yields.
    pub open spec fn remaining(&self) -> Seq<u32> {
        spec_chain(self.entries@, self.next, self.budget as nat)
    }

    /// A walk along the chain that starts at `first`.
    pub fn new(table: &'fat Fat, first: u32) -> (r: ClusterChain<'fat>)
        ensures
            r.remaining() == spec_chain(table@, first, table@.len()),
            r.entries@ == table@,
            r.next == first,
            r.budget == table@.len(),
    {
        ClusterChain { entries: &table.entries, next: first, budget: table.entries.len() }
    }

    /// The next cluster of the chain, or nothing at its end.
    pub fn next(&mut self) -> (r: Option<u32>)
        ensures
            final(self).entries == old(self).entries,
            match r {
                Some(c) => old(self).remaining() == seq![c] + final(self).remaining()
                    && final(self).budget < old(self).budget,
                None => old(self).remaining().len() == 0 && *final(self) == *old(self),
            },
    {
        let next: usize = self.next as usize;
        if self.budget == 0 || next < 2 || next >= self.entries.len() || self.next
            == BAD_CLUSTER {
            return None;
        }
        self.next = self.entries[next];
        self.budget = self.budget - 1;
        Some(next as u32)
    }
}

} // verus!
