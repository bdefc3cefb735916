//! Writing a planned volume to a device.

use crate::arith::pow2_u64;
use crate::boot_sector::{BootParameters, BootSector};
use crate::disk::{
    lemma_overlay_within, overlay, write_at, write_zeroes, zeros, SeekFrom, WriteSeek,
};
use crate::error::{ExfatError, ExfatFormatError};
use crate::format::boot::{write_boot_region, BACKUP_BOOT_OFFSET, MAIN_BOOT_OFFSET};
use crate::format::image::{
    bitmap_byte, bitmap_image, boot_region, boot_sector_image, fat_table, formatted,
    lemma_region_lengths, lemma_words_bytes_len, used_clusters, words_bytes, zeroed_length,
};
use crate::format::laws::{lemma_boot_parameters_valid, lemma_geometry_parts};
use crate::format::Exfat;
use crate::root::{fresh_root_bytes, RawRoot};
use crate::upcase_table::{is_default_table, spec_is_default_table};
use vstd::prelude::*;

verus! {

impl Exfat {
    /// A planned volume's sizes lie in the ranges that the writer computes
    /// with.
    pub proof fn lemma_wf_bounds(&self)
        requires
            self.wf(),
        ensures
            self.sizes_bounded(),
            self.geometry.bytes_per_sector == self.format_options@.bytes_per_sector,
            self.format_options@.request().boundary_align > 0,
    {
        let q = self.format_options@.request();
        let k = choose|k: nat| k < 32 && q.boundary_align == #[trigger] vstd::arithmetic::power2::pow2(k);
        vstd::arithmetic::power2::lemma_pow2_pos(k);
        lemma_geometry_parts(q);
        lemma_boot_parameters_valid(q);
    }

    /// The root directory's bytes of the planned volume.
    pub open spec fn root_image(&self) -> Seq<u8> {
        fresh_root_bytes(
            self.format_options@.label,
            self.format_options@.guid,
            self.geometry.bitmap_length_bytes as u64,
            self.geometry.uptable_start_cluster,
        )
    }

    /// Whether a device of `len` bytes has room for every structure that the
    /// formatter writes.
    pub open spec fn image_fits(&self, len: int) -> bool {
        let g = self.geometry;
        &&& zeroed_length(*self) <= len
        &&& 24 * g.bytes_per_sector <= len
        &&& self.fat_base() + 4 * (2 + used_clusters(g)) <= len
        &&& g.bitmap_offset_bytes + g.bitmap_length_bytes <= len
        &&& g.uptable_offset_bytes + 5836 <= len
        &&& g.root_offset_bytes + 128 <= len
    }

    /// The allocation bitmap of a volume on which the first
    /// `cluster_count_used` clusters are in use: their bits are set, from the
    /// lowest bit of the first byte on, and no other.
    pub fn bitmap_bytes(&self) -> (r: Vec<u8>)
        ensures
            r@ == bitmap_image(
                self.cluster_count_used as int,
                self.geometry.bitmap_length_bytes as nat,
            ),
    {
        let len: u32 = self.geometry.bitmap_length_bytes;
        let full_bytes: u32 = self.cluster_count_used / 8;
        let remaining_bits: u32 = self.cluster_count_used % 8;
        proof {
            vstd::arithmetic::power2::lemma2_to64();
        }
        let partial: u8 = (pow2_u64(remaining_bits as u8) - 1) as u8;
        let mut bitmap: Vec<u8> = Vec::new();
        let mut i: u32 = 0;
        while i < len
            invariant
                i <= len,
                full_bytes == self.cluster_count_used / 8,
                partial == (vstd::arithmetic::power2::pow2((self.cluster_count_used % 8) as nat)
                    - 1) as u8,
                bitmap@.len() == i,
                forall|j: int|
                    0 <= j < i ==> bitmap@[j] == bitmap_byte(self.cluster_count_used as int, j),
            decreases len - i,
        {
            let byte: u8 = if i < full_bytes {
                0xff
            } else if i == full_bytes {
                partial
            } else {
                0
            };
            bitmap.push(byte);
            i = i + 1;
        }
        assert(bitmap@ =~= bitmap_image(
            self.cluster_count_used as int,
            self.geometry.bitmap_length_bytes as nat,
        ));
        bitmap
    }

    /// Writes the allocation bitmap.
    fn write_bitmap<T: WriteSeek>(&self, device: &mut T) -> (r: Result<(), T::Err>)
        ensures
            final(device).dependable() == old(device).dependable(),
            r is Ok ==> final(device).contents() == overlay(
                old(device).contents(),
                self.geometry.bitmap_offset_bytes as int,
                bitmap_image(
                    self.cluster_count_used as int,
                    self.geometry.bitmap_length_bytes as nat,
                ),
            ),
            old(device).dependable() && self.geometry.bitmap_offset_bytes
                + self.geometry.bitmap_length_bytes <= old(device).contents().len() ==> r is Ok,
    {
        let bitmap: Vec<u8> = self.bitmap_bytes();
        write_at(device, self.geometry.bitmap_offset_bytes as u64, bitmap.as_slice())
    }

    /// Writes the up-case table.
    fn write_upcase_table<T: WriteSeek>(&self, device: &mut T, table: &[u8]) -> (r: Result<
        (),
        T::Err,
    >)
        ensures
            final(device).dependable() == old(device).dependable(),
            r is Ok ==> final(device).contents() == overlay(
                old(device).contents(),
                self.geometry.uptable_offset_bytes as int,
                table@,
            ),
            old(device).dependable() && self.geometry.uptable_offset_bytes + table@.len() <= old(
                device,
            ).contents().len() ==> r is Ok,
    {
        write_at(device, self.geometry.uptable_offset_bytes as u64, table)
    }

    /// Writes the root directory.
    fn write_root_dir<T: WriteSeek>(&self, device: &mut T) -> (r: Result<(), T::Err>)
        ensures
            final(device).dependable() == old(device).dependable(),
            r is Ok ==> final(device).contents() == overlay(
                old(device).contents(),
                self.geometry.root_offset_bytes as int,
                self.root_image(),
            ),
            old(device).dependable() && self.geometry.root_offset_bytes + 128 <= old(
                device,
            ).contents().len() ==> r is Ok,
    {
        let root = RawRoot::new(
            self.format_options.label(),
            self.format_options.guid(),
            self.geometry.bitmap_length_bytes as u64,
            self.geometry.uptable_start_cluster,
        );
        proof {
            root.lemma_fresh_bytes(
                self.format_options@.label,
                self.format_options@.guid,
                self.geometry.bitmap_length_bytes as u64,
                self.geometry.uptable_start_cluster,
            );
        }
        let bytes: Vec<u8> = root.bytes();
        write_at(device, self.geometry.root_offset_bytes as u64, bytes.as_slice())
    }

    /// Formats the device: checks that `upcase_table` is the default
    /// up-case table and that the device is as long as the volume was planned
    /// for, zeroes the volume's structures or the whole device, and writes
    /// the two boot regions, the FAT, the bitmap, the up-case table and the
    /// root directory.
    ///
    /// The table is checked before the device is touched, and only by its
    /// length and its checksum: any 5836 bytes with the default table's
    /// checksum are taken for it. A device of another length gives
    /// `InvalidFileSize` unless the device itself fails first; a dependable
    /// device gives just that error and keeps its contents. On a dependable
    /// device of the right length that has room for every structure,
    /// formatting succeeds.
    pub fn write<O: WriteSeek>(&mut self, f: &mut O, upcase_table: &[u8]) -> (r: Result<
        (),
        ExfatError<O::Err>,
    >)
        requires
            old(self).wf(),
        ensures
            final(self).geometry == old(self).geometry,
            final(self).format_options == old(self).format_options,
            final(self).volume_serial_number == old(self).volume_serial_number,
            final(self).file_system_revision == old(self).file_system_revision,
            final(self).volume_flags == old(self).volume_flags,
            r is Ok ==> final(self).cluster_count_used == used_clusters(old(self).geometry)
                && final(f).contents() == formatted(
                old(f).contents(),
                *final(self),
                upcase_table@,
                old(self).root_image(),
            ),
            !spec_is_default_table(upcase_table@) ==> r == Err::<(), ExfatError<O::Err>>(
                ExfatError::Format(ExfatFormatError::InvalidUpcaseTable),
            ) && final(f).contents() == old(f).contents(),
            r matches Err(ExfatError::Format(e)) ==> (e == ExfatFormatError::InvalidUpcaseTable
                && !spec_is_default_table(upcase_table@)) || (e
                == ExfatFormatError::InvalidFileSize && old(f).contents().len() != old(
                self,
            ).format_options@.dev_size && final(f).contents() == old(f).contents()),
            old(f).contents().len() != old(self).format_options@.dev_size ==> r is Err,
            old(f).dependable() && old(f).cursor() <= old(f).contents().len() && spec_is_default_table(
                upcase_table@,
            ) && old(f).contents().len() != old(self).format_options@.dev_size ==> r == Err::<
                (),
                ExfatError<O::Err>,
            >(ExfatError::Format(ExfatFormatError::InvalidFileSize)) && final(f).contents() == old(
                f,
            ).contents(),
            old(f).dependable() && old(f).cursor() <= old(f).contents().len() && spec_is_default_table(
                upcase_table@,
            ) && old(f).contents().len() == old(self).format_options@.dev_size && old(
                self,
            ).image_fits(old(f).contents().len() as int) ==> r is Ok,
    {
        if !is_default_table(upcase_table) {
            return Err(ExfatError::Format(ExfatFormatError::InvalidUpcaseTable));
        }
        let ghost base = f.contents();
        let ghost g = self.geometry;
        let ghost bps = g.bytes_per_sector as nat;
        let ghost fits = old(f).dependable() && old(f).cursor() <= base.len() && base.len() == old(
            self,
        ).format_options@.dev_size && old(self).image_fits(base.len() as int);
        proof {
            self.lemma_wf_bounds();
        }
        let old_pos: u64 = match f.stream_position() {
            Ok(p) => p,
            Err(e) => {
                return Err(ExfatError::Io(e));
            },
        };
        let len: u64 = match f.seek(SeekFrom::End(0)) {
            Ok(p) => p,
            Err(e) => {
                return Err(ExfatError::Io(e));
            },
        };
        if old_pos != len {
            match f.seek(SeekFrom::Start(old_pos)) {
                Ok(_) => {},
                Err(e) => {
                    return Err(ExfatError::Io(e));
                },
            }
        }
        if len != self.format_options.dev_size() {
            return Err(ExfatError::Format(ExfatFormatError::InvalidFileSize));
        }
        let size: u64 = if self.format_options.full_format() {
            self.format_options.dev_size()
        } else {
            self.geometry.root_offset_bytes as u64 + self.geometry.bytes_per_cluster as u64
        };

        // Zero as much of the device as was asked for.
        match write_zeroes(f, size, 0) {
            Ok(()) => {},
            Err(e) => {
                return Err(ExfatError::Io(e));
            },
        }
        let ghost zeroed = f.contents();
        let sector: BootSector = BootSector::new(self);
        let ghost region = boot_region(sector.spec_bytes(), bps);
        proof {
            sector.lemma_bytes_of_holder(self.boot_values());
            sector.lemma_bytes_len();
            lemma_region_lengths(sector.spec_bytes(), bps);
            assert(region == boot_region(boot_sector_image(*self), bps));
            if fits {
                lemma_overlay_within(base, 0, zeros(size as nat));
            }
        }

        // The main boot region.
        match write_boot_region(f, &sector, self.geometry.bytes_per_sector, MAIN_BOOT_OFFSET) {
            Ok(()) => {},
            Err(e) => {
                return Err(ExfatError::Io(e));
            },
        }
        let ghost main = f.contents();
        proof {
            if fits {
                lemma_overlay_within(zeroed, 0, region);
            }
        }

        // The backup boot region.
        match write_boot_region(f, &sector, self.geometry.bytes_per_sector, BACKUP_BOOT_OFFSET) {
            Ok(()) => {},
            Err(e) => {
                return Err(ExfatError::Io(e));
            },
        }
        let ghost backup = f.contents();
        proof {
            if fits {
                lemma_overlay_within(main, (12 * bps) as int, region);
            }
        }

        // The FAT.
        match self.write_fat(f) {
            Ok(()) => {},
            Err(e) => {
                return Err(ExfatError::Io(e));
            },
        }
        let ghost fat = f.contents();
        proof {
            lemma_words_bytes_len(fat_table(g));
            assert(fat_table(g).len() == 2 + used_clusters(g)) by {
                vstd::arithmetic::div_mod::lemma_div_pos_is_pos(
                    g.bitmap_length_bytes as int,
                    g.bytes_per_cluster as int,
                );
                vstd::arithmetic::div_mod::lemma_div_pos_is_pos(
                    g.uptable_length_bytes as int,
                    g.bytes_per_cluster as int,
                );
                vstd::arithmetic::div_mod::lemma_div_pos_is_pos(
                    g.root_length_bytes as int,
                    g.bytes_per_cluster as int,
                );
            }
            assert(self.fat_base() >= 0) by (nonlinear_arith)
                requires
                    self.fat_base() == self.geometry.fat_offset * self.geometry.bytes_per_sector,
            ;
            if fits {
                lemma_overlay_within(backup, self.fat_base(), words_bytes(fat_table(g)));
            }
        }

        // The bitmap.
        match self.write_bitmap(f) {
            Ok(()) => {},
            Err(e) => {
                return Err(ExfatError::Io(e));
            },
        }
        let ghost bitmap = f.contents();
        proof {
            if fits {
                lemma_overlay_within(
                    fat,
                    g.bitmap_offset_bytes as int,
                    bitmap_image(used_clusters(g), g.bitmap_length_bytes as nat),
                );
            }
        }

        // The up-case table.
        match self.write_upcase_table(f, upcase_table) {
            Ok(()) => {},
            Err(e) => {
                return Err(ExfatError::Io(e));
            },
        }
        proof {
            if fits {
                lemma_overlay_within(bitmap, g.uptable_offset_bytes as int, upcase_table@);
            }
        }

        // The root directory.
        match self.write_root_dir(f) {
            Ok(()) => {},
            Err(e) => {
                return Err(ExfatError::Io(e));
            },
        }
        Ok(())
    }
}

} // verus!
