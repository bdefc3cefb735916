//! Writing the first entries of the FAT.

use crate::arith::div_ceil;
use crate::codec::{le_bytes, lemma_le_bytes_len, put_le};
use crate::disk::{overlay, WriteSeek};
use crate::fat::{FatEntry, END_OF_CHAIN, MEDIA_TYPE};
use crate::format::boot::append_write;
use crate::format::geometry::{valid_sector_size, MAX_CLUSTER_SIZE};
use crate::format::image::{
    bitmap_clusters, chain_words, fat_table, lemma_words_bytes_len, uptable_clusters,
    used_clusters, words_bytes,
};
use crate::format::Exfat;
use crate::FIRST_USABLE_CLUSTER_INDEX;
use vstd::prelude::*;

verus! {

impl Exfat {
    /// Whether the sizes that the writer computes with lie in their ranges.
    pub open spec fn sizes_bounded(&self) -> bool {
        &&& valid_sector_size(self.geometry.bytes_per_sector)
        &&& 512 <= self.geometry.bytes_per_cluster <= MAX_CLUSTER_SIZE
        &&& self.geometry.bitmap_length_bytes <= 0x2000_0000
        &&& self.geometry.uptable_length_bytes == 5836
        &&& self.geometry.root_length_bytes == 128
    }

    /// Byte offset of the FAT.
    pub open spec fn fat_base(&self) -> int {
        self.geometry.fat_offset * self.geometry.bytes_per_sector
    }

    /// Writes the FAT entry with the given index.
    fn write_fat_entry<T: WriteSeek>(
        &self,
        device: &mut T,
        entry: FatEntry,
        index: u64,
        Ghost(base): Ghost<Seq<u8>>,
        Ghost(done): Ghost<Seq<u32>>,
    ) -> (r: Result<(), T::Err>)
        requires
            self.sizes_bounded(),
            index == done.len(),
            index <= 0xFFFF_FFFF,
            old(device).contents() == overlay(base, self.fat_base(), words_bytes(done)),
        ensures
            final(device).dependable() == old(device).dependable(),
            r is Ok ==> final(device).contents() == overlay(
                base,
                self.fat_base(),
                words_bytes(done.push(entry.0)),
            ),
            old(device).dependable() && self.fat_base() + 4 * (index + 1) <= base.len() ==> r is Ok,
    {
        assert(self.geometry.fat_offset * self.geometry.bytes_per_sector <= 0xFFFF_FFFF * 4096
            && self.geometry.fat_offset * self.geometry.bytes_per_sector >= 0) by (nonlinear_arith)
            requires
                self.geometry.fat_offset <= 0xFFFF_FFFF,
                self.geometry.bytes_per_sector <= 4096,
        ;
        let offset_bytes: u64 = self.geometry.fat_offset as u64 * self.geometry.bytes_per_sector as u64
            + index * 4;
        let mut bytes: Vec<u8> = Vec::new();
        put_le(&mut bytes, entry.0 as u128, 4);
        proof {
            lemma_words_bytes_len(done);
            lemma_le_bytes_len(entry.0 as nat, 4);
            assert(done.push(entry.0).drop_last() =~= done);
            assert(bytes@ =~= le_bytes(entry.0 as nat, 4));
        }
        append_write(
            device,
            offset_bytes,
            bytes.as_slice(),
            Ghost(base),
            Ghost(self.fat_base()),
            Ghost(words_bytes(done)),
        )
    }

    /// Writes the chain of the clusters that `length` bytes take from
    /// `cluster` on, and gives the index of the first cluster behind them.
    fn write_fat_entries<T: WriteSeek>(
        &self,
        device: &mut T,
        cluster: u32,
        length: u32,
        Ghost(base): Ghost<Seq<u8>>,
        Ghost(done): Ghost<Seq<u32>>,
    ) -> (r: Result<u32, T::Err>)
        requires
            self.sizes_bounded(),
            cluster == done.len(),
            cluster <= 0x1000_0000,
            length <= 0x2000_0000,
            old(device).contents() == overlay(base, self.fat_base(), words_bytes(done)),
        ensures
            final(device).dependable() == old(device).dependable(),
            r matches Ok(next) ==> next == cluster + div_ceil(
                length as int,
                self.geometry.bytes_per_cluster as int,
            ) && final(device).contents() == overlay(
                base,
                self.fat_base(),
                words_bytes(
                    done + chain_words(
                        cluster as int,
                        div_ceil(length as int, self.geometry.bytes_per_cluster as int),
                    ),
                ),
            ),
            old(device).dependable() && self.fat_base() + 4 * (cluster + div_ceil(
                length as int,
                self.geometry.bytes_per_cluster as int,
            )) <= base.len() ==> r is Ok,
    {
        let cs: u32 = self.geometry.bytes_per_cluster;
        let clusters: u32 = if length % cs == 0 {
            length / cs
        } else {
            length / cs + 1
        };
        assert(clusters <= 0x10_0001) by (nonlinear_arith)
            requires
                clusters <= length / cs + 1,
                length <= 0x2000_0000,
                cs >= 512,
        ;
        let count: u32 = cluster + clusters;
        let ghost chain = chain_words(cluster as int, clusters as int);
        let mut current: u32 = cluster;
        assert(done + chain.take(0) =~= done);
        while current < count
            invariant
                cluster <= current <= count,
                count == cluster + clusters,
                count <= 0x2000_0000,
                clusters == div_ceil(length as int, self.geometry.bytes_per_cluster as int),
                self.sizes_bounded(),
                cluster == done.len(),
                chain == chain_words(cluster as int, clusters as int),
                device.dependable() == old(device).dependable(),
                device.contents() == overlay(
                    base,
                    self.fat_base(),
                    words_bytes(done + chain.take(current - cluster)),
                ),
            decreases count - current,
        {
            let entry: FatEntry = if current == count - 1 {
                FatEntry::eof()
            } else {
                FatEntry(current + 1)
            };
            proof {
                let so_far = done + chain.take(current - cluster);
                assert(so_far.push(entry.0) =~= done + chain.take(current - cluster + 1));
            }
            self.write_fat_entry(
                device,
                entry,
                current as u64,
                Ghost(base),
                Ghost(done + chain.take(current - cluster)),
            )?;
            current = current + 1;
        }
        assert(chain.take(clusters as int) =~= chain);
        Ok(count)
    }

    /// Writes the FAT's first entries: the media type, an end mark, and the
    /// chains of the bitmap, the up-case table and the root directory. The
    /// number of clusters in use becomes the number of clusters of the three.
    pub(crate) fn write_fat<T: WriteSeek>(&mut self, device: &mut T) -> (r: Result<(), T::Err>)
        requires
            old(self).sizes_bounded(),
        ensures
            final(device).dependable() == old(device).dependable(),
            final(self).geometry == old(self).geometry,
            final(self).format_options == old(self).format_options,
            final(self).volume_serial_number == old(self).volume_serial_number,
            final(self).file_system_revision == old(self).file_system_revision,
            final(self).volume_flags == old(self).volume_flags,
            r is Ok ==> final(self).cluster_count_used == used_clusters(old(self).geometry)
                && final(device).contents() == overlay(
                old(device).contents(),
                old(self).fat_base(),
                words_bytes(fat_table(old(self).geometry)),
            ),
            old(device).dependable() && old(self).fat_base() + 4 * (2 + used_clusters(
                old(self).geometry,
            )) <= old(device).contents().len() ==> r is Ok,
    {
        let ghost base = device.contents();
        let ghost g = self.geometry;
        proof {
            assert(words_bytes(Seq::<u32>::empty()) =~= Seq::<u8>::empty());
            assert(self.fat_base() >= 0) by (nonlinear_arith)
                requires
                    self.fat_base() == self.geometry.fat_offset * self.geometry.bytes_per_sector,
            ;
            vstd::arithmetic::div_mod::lemma_div_pos_is_pos(
                g.bitmap_length_bytes as int,
                g.bytes_per_cluster as int,
            );
            vstd::arithmetic::div_mod::lemma_div_pos_is_pos(
                g.uptable_length_bytes as int,
                g.bytes_per_cluster as int,
            );
            vstd::arithmetic::div_mod::lemma_div_pos_is_pos(
                g.root_length_bytes as int,
                g.bytes_per_cluster as int,
            );
            assert(g.bitmap_length_bytes as int / g.bytes_per_cluster as int <= 0x10_0000)
                by (nonlinear_arith)
                requires
                    g.bitmap_length_bytes <= 0x2000_0000,
                    g.bytes_per_cluster >= 512,
            ;
            assert(5836int / g.bytes_per_cluster as int <= 11) by (nonlinear_arith)
                requires
                    g.bytes_per_cluster >= 512,
            ;
            assert(128int / g.bytes_per_cluster as int <= 0) by (nonlinear_arith)
                requires
                    g.bytes_per_cluster >= 512,
            ;
        }
        // Entry 0: the media type.
        self.write_fat_entry(device, FatEntry::media_type(), 0, Ghost(base), Ghost(Seq::empty()))?;
        // Entry 1: reserved.
        self.write_fat_entry(
            device,
            FatEntry::eof(),
            1,
            Ghost(base),
            Ghost(Seq::<u32>::empty().push(MEDIA_TYPE)),
        )?;
        let ghost head = seq![MEDIA_TYPE, END_OF_CHAIN];
        assert(Seq::<u32>::empty().push(MEDIA_TYPE).push(END_OF_CHAIN) =~= head);
        // The bitmap's chain.
        let mut index: u32 = self.write_fat_entries(
            device,
            FIRST_USABLE_CLUSTER_INDEX,
            self.geometry.bitmap_length_bytes,
            Ghost(base),
            Ghost(head),
        )?;
        let ghost one = head + chain_words(2, bitmap_clusters(g));
        // The up-case table's chain.
        index =
        self.write_fat_entries(
            device,
            index,
            self.geometry.uptable_length_bytes,
            Ghost(base),
            Ghost(one),
        )?;
        let ghost two = one + chain_words(2 + bitmap_clusters(g), uptable_clusters(g));
        // The root directory's chain.
        index =
        self.write_fat_entries(
            device,
            index,
            self.geometry.root_length_bytes,
            Ghost(base),
            Ghost(two),
        )?;
        self.cluster_count_used = index - FIRST_USABLE_CLUSTER_INDEX;
        Ok(())
    }
}

} // verus!
