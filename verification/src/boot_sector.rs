//! The boot sector: the volume's parameters as the first sector of each boot
//! region holds them.

use crate::arith::pow2_u64;
use crate::clock::unix_epoch_seconds;
use crate::codec::{
    get_u16, get_u32, get_u64, le_bytes, le_value, put_bytes, put_le, take_array,
};
use std::time::SystemTimeError;
use vstd::arithmetic::power2::pow2;
use vstd::prelude::*;

verus! {

/// Length of the boot sector's fields, in bytes.
pub const BOOT_SECTOR_SIZE: usize = 512;

/// The jump instruction that opens a boot sector.
pub const JUMP_BOOT: [u8; 3] = [0xEB, 0x76, 0x90];

/// The file system's name, `EXFAT` and three spaces.
pub const FILESYSTEM_NAME: [u8; 8] = [0x45, 0x58, 0x46, 0x41, 0x54, 0x20, 0x20, 0x20];

/// Drive number of the first hard disk.
pub const DRIVE_SELECT: u8 = 0x80;

/// Signature of a boot sector.
pub const BOOT_SIGNATURE: u16 = 0xAA55;

/// Signature of an extended boot sector.
pub const EXTENDED_BOOT_SIGNATURE: u32 = 0xAA550000;

/// Value of the percent-in-use field that stands for "not known".
pub const PERCENT_IN_USE_UNKNOWN: u8 = 0xFF;

/// Flags of the volume's state.
#[derive(Copy, Clone, Debug, Default, PartialEq, Eq)]
pub struct VolumeFlags {
    bits: u16,
}

impl VolumeFlags {
    /// The second FAT and bitmap are the active ones.
    pub const ACTIVE_FAT: u16 = 1;

    /// The volume may be inconsistent.
    pub const VOLUME_DIRTY: u16 = 2;

    /// The medium has reported failures.
    pub const MEDIA_FAILURE: u16 = 4;

    /// Without meaning; implementations clear it.
    pub const CLEAR_TO_ZERO: u16 = 8;

    pub closed spec fn spec_bits(&self) -> u16 {
        self.bits
    }

    /// No flag set.
    pub fn empty() -> (r: VolumeFlags)
        ensures
            r.spec_bits() == 0,
    {
        VolumeFlags { bits: 0 }
    }

    /// The flags among the low four bits of `bits`.
    pub fn from_bits_truncate(bits: u16) -> (r: VolumeFlags)
        ensures
            r.spec_bits() == bits & 0xF,
    {
        VolumeFlags { bits: bits & 0xF }
    }

    /// The flags as a number.
    pub fn bits(&self) -> (r: u16)
        ensures
            r == self.spec_bits(),
    {
        self.bits
    }

    /// Whether every flag of `flags` is set.
    pub fn contains(&self, flags: u16) -> (r: bool)
        ensures
            r == (self.spec_bits() & flags == flags),
    {
        self.bits & flags == flags
    }
}

/// Whether the active-FAT flag is set in the boot sector's flags field.
pub open spec fn active_fat_set(volume_flags: u16) -> bool {
    (volume_flags & 0xF) & 1 == 1
}

/// Revision of the file system's structures.
#[derive(Debug, Clone, Copy, PartialEq, Eq)]
pub struct FileSystemRevision {
    /// Minor revision.
    pub vermin: u8,
    /// Major revision.
    pub vermaj: u8,
}

impl Default for FileSystemRevision {
    /// Revision 1.0.
    fn default() -> (r: FileSystemRevision)
        ensures
            r.vermin == 0,
            r.vermaj == 1,
    {
        FileSystemRevision { vermin: 0, vermaj: 1 }
    }
}

/// The volume's serial number.
#[derive(Copy, Clone, Debug, PartialEq, Eq)]
pub struct VolumeSerialNumber(pub u32);

impl VolumeSerialNumber {
    /// The serial number that goes with a time: the low 32 bits of the
    /// seconds since the Unix epoch.
    pub fn from_unix_seconds(seconds: u64) -> (r: VolumeSerialNumber)
        ensures
            r.0 == seconds % 0x1_0000_0000,
    {
        VolumeSerialNumber((seconds % 0x1_0000_0000) as u32)
    }

    /// A serial number from the system clock, or the clock's failure.
    pub fn try_new() -> (r: Result<VolumeSerialNumber, SystemTimeError>) {
        let seconds: u64 = unix_epoch_seconds()?;
        Ok(VolumeSerialNumber::from_unix_seconds(seconds))
    }
}

/// The main or backup boot sector of a volume.
#[derive(Debug, Clone, Copy, PartialEq, Eq)]
pub struct BootSector {
    /// The jump instruction, `EB 76 90`.
    pub jump_boot: [u8; 3],
    /// The file system's name, `EXFAT` and three spaces.
    pub filesystem_name: [u8; 8],
    /// Where older FAT systems keep their parameters; all zero.
    pub _reserved: [u8; 53],
    /// Media-relative offset of the partition, in sectors.
    pub partition_offset: u64,
    /// Size of the volume, in sectors.
    pub volume_length: u64,
    /// Offset of the first FAT, in sectors.
    pub fat_offset: u32,
    /// Length of each FAT, in sectors.
    pub fat_length: u32,
    /// Offset of the cluster heap, in sectors.
    pub cluster_heap_offset: u32,
    /// Number of clusters of the heap.
    pub cluster_count: u32,
    /// Index of the root directory's first cluster.
    pub first_cluster_of_root_directory: u32,
    /// The volume's serial number.
    pub volume_serial_number: VolumeSerialNumber,
    /// Revision of the file system's structures.
    pub file_system_revision: FileSystemRevision,
    /// Flags of the volume's state.
    pub volume_flags: u16,
    /// Base-two logarithm of the sector size.
    pub bytes_per_sector_shift: u8,
    /// Base-two logarithm of the number of sectors of a cluster.
    pub sectors_per_cluster_shift: u8,
    /// Number of FATs, 1 or 2.
    pub number_of_fats: u8,
    /// Drive number for the boot code.
    pub drive_select: u8,
    /// Share of the heap in use, or `0xFF` where it is not known.
    pub percent_in_use: u8,
    /// All zero.
    pub _reserved2: [u8; 7],
    /// The boot code; halt instructions where the volume does not boot.
    pub boot_code: [u8; 390],
    /// The signature `0xAA55`.
    pub boot_signature: u16,
}

/// The boot sector that the first 512 bytes of `b` spell.
pub open spec fn parsed_boot_sector(b: Seq<u8>) -> BootSector {
    choose|s: BootSector| s.parses(b)
}

/// The parameters of a volume that its boot sector records.
pub struct BootValues {
    /// Media-relative offset of the partition, in sectors.
    pub partition_offset: u64,
    /// Size of the volume, in sectors.
    pub volume_length: u64,
    /// Offset of the first FAT, in sectors.
    pub fat_offset: u32,
    /// Length of each FAT, in sectors.
    pub fat_length: u32,
    /// Offset of the cluster heap, in sectors.
    pub cluster_heap_offset: u32,
    /// Number of clusters of the heap.
    pub cluster_count: u32,
    /// Index of the root directory's first cluster.
    pub first_cluster_of_root_directory: u32,
    /// The volume's serial number.
    pub volume_serial_number: u32,
    /// Minor revision.
    pub vermin: u8,
    /// Major revision.
    pub vermaj: u8,
    /// Flags of the volume's state.
    pub volume_flags: u16,
    /// Base-two logarithm of the sector size.
    pub bytes_per_sector_shift: u8,
    /// Base-two logarithm of the number of sectors of a cluster.
    pub sectors_per_cluster_shift: u8,
    /// Number of FATs.
    pub number_of_fats: u8,
}

/// What a formatter knows of the volume it is about to write.
pub trait BootParameters {
    /// The parameters of the volume.
    spec fn boot_values(&self) -> BootValues;

    /// The boot sector of the volume.
    fn boot_sector(&self) -> (r: BootSector)
        ensures
            r.holds(self.boot_values()),
    ;
}

impl BootSector {
    /// The sector's 512 bytes: the fields in their order, integers least
    /// significant byte first.
    pub open spec fn spec_bytes(self) -> Seq<u8> {
        self.jump_boot@ + self.filesystem_name@ + self._reserved@ + le_bytes(
            self.partition_offset as nat,
            8,
        ) + le_bytes(self.volume_length as nat, 8) + le_bytes(self.fat_offset as nat, 4) + le_bytes(
            self.fat_length as nat,
            4,
        ) + le_bytes(self.cluster_heap_offset as nat, 4) + le_bytes(self.cluster_count as nat, 4)
            + le_bytes(self.first_cluster_of_root_directory as nat, 4) + le_bytes(
            self.volume_serial_number.0 as nat,
            4,
        ) + seq![self.file_system_revision.vermin, self.file_system_revision.vermaj] + le_bytes(
            self.volume_flags as nat,
            2,
        ) + seq![
            self.bytes_per_sector_shift,
            self.sectors_per_cluster_shift,
            self.number_of_fats,
            self.drive_select,
            self.percent_in_use,
        ] + self._reserved2@ + self.boot_code@ + le_bytes(self.boot_signature as nat, 2)
    }

    /// Whether `self` holds what the first 512 bytes of `b` spell.
    pub open spec fn parses(self, b: Seq<u8>) -> bool {
        &&& self.jump_boot@ == b.subrange(0, 3)
        &&& self.filesystem_name@ == b.subrange(3, 11)
        &&& self._reserved@ == b.subrange(11, 64)
        &&& self.partition_offset == le_value(b.subrange(64, 72))
        &&& self.volume_length == le_value(b.subrange(72, 80))
        &&& self.fat_offset == le_value(b.subrange(80, 84))
        &&& self.fat_length == le_value(b.subrange(84, 88))
        &&& self.cluster_heap_offset == le_value(b.subrange(88, 92))
        &&& self.cluster_count == le_value(b.subrange(92, 96))
        &&& self.first_cluster_of_root_directory == le_value(b.subrange(96, 100))
        &&& self.volume_serial_number.0 == le_value(b.subrange(100, 104))
        &&& self.file_system_revision.vermin == b[104]
        &&& self.file_system_revision.vermaj == b[105]
        &&& self.volume_flags == le_value(b.subrange(106, 108))
        &&& self.bytes_per_sector_shift == b[108]
        &&& self.sectors_per_cluster_shift == b[109]
        &&& self.number_of_fats == b[110]
        &&& self.drive_select == b[111]
        &&& self.percent_in_use == b[112]
        &&& self._reserved2@ == b.subrange(113, 120)
        &&& self.boot_code@ == b.subrange(120, 510)
        &&& self.boot_signature == le_value(b.subrange(510, 512))
    }

    /// Whether the sector is the one that a formatter writes for the given
    /// parameters: the fixed fields hold their constants, the reserved fields
    /// are zero, the boot code is all halt instructions and the share in use
    /// is not known.
    pub open spec fn holds(self, v: BootValues) -> bool {
        &&& self.jump_boot@ == seq![0xEBu8, 0x76u8, 0x90u8]
        &&& self.filesystem_name@ == seq![
            0x45u8,
            0x58u8,
            0x46u8,
            0x41u8,
            0x54u8,
            0x20u8,
            0x20u8,
            0x20u8,
        ]
        &&& self._reserved@ == Seq::new(53, |i: int| 0u8)
        &&& self.partition_offset == v.partition_offset
        &&& self.volume_length == v.volume_length
        &&& self.fat_offset == v.fat_offset
        &&& self.fat_length == v.fat_length
        &&& self.cluster_heap_offset == v.cluster_heap_offset
        &&& self.cluster_count == v.cluster_count
        &&& self.first_cluster_of_root_directory == v.first_cluster_of_root_directory
        &&& self.volume_serial_number.0 == v.volume_serial_number
        &&& self.file_system_revision.vermin == v.vermin
        &&& self.file_system_revision.vermaj == v.vermaj
        &&& self.volume_flags == v.volume_flags
        &&& self.bytes_per_sector_shift == v.bytes_per_sector_shift
        &&& self.sectors_per_cluster_shift == v.sectors_per_cluster_shift
        &&& self.number_of_fats == v.number_of_fats
        &&& self.drive_select == DRIVE_SELECT
        &&& self.percent_in_use == PERCENT_IN_USE_UNKNOWN
        &&& self._reserved2@ == Seq::new(7, |i: int| 0u8)
        &&& self.boot_code@ == Seq::new(390, |i: int| 0xF4u8)
        &&& self.boot_signature == BOOT_SIGNATURE
    }

    /// The 512 bytes of the boot sector that a formatter writes for the
    /// given parameters.
    pub open spec fn bytes_of(v: BootValues) -> Seq<u8> {
        seq![0xEBu8, 0x76u8, 0x90u8] + seq![
            0x45u8,
            0x58u8,
            0x46u8,
            0x41u8,
            0x54u8,
            0x20u8,
            0x20u8,
            0x20u8,
        ] + Seq::new(53, |i: int| 0u8) + le_bytes(v.partition_offset as nat, 8) + le_bytes(
            v.volume_length as nat,
            8,
        ) + le_bytes(v.fat_offset as nat, 4) + le_bytes(v.fat_length as nat, 4) + le_bytes(
            v.cluster_heap_offset as nat,
            4,
        ) + le_bytes(v.cluster_count as nat, 4) + le_bytes(
            v.first_cluster_of_root_directory as nat,
            4,
        ) + le_bytes(v.volume_serial_number as nat, 4) + seq![v.vermin, v.vermaj] + le_bytes(
            v.volume_flags as nat,
            2,
        ) + seq![
            v.bytes_per_sector_shift,
            v.sectors_per_cluster_shift,
            v.number_of_fats,
            DRIVE_SELECT,
            PERCENT_IN_USE_UNKNOWN,
        ] + Seq::new(7, |i: int| 0u8) + Seq::new(390, |i: int| 0xF4u8) + le_bytes(
            BOOT_SIGNATURE as nat,
            2,
        )
    }

    /// A boot sector that holds a volume's parameters spells the bytes that
    /// go with them.
    pub proof fn lemma_bytes_of_holder(self, v: BootValues)
        requires
            self.holds(v),
        ensures
            self.spec_bytes() == BootSector::bytes_of(v),
    {
    }

    /// The boot sector of a volume that is about to be written.
    pub fn new<M: BootParameters>(meta: &M) -> (r: BootSector)
        ensures
            r.holds(meta.boot_values()),
    {
        meta.boot_sector()
    }

    /// The sector's 512 bytes.
    pub fn to_bytes(&self) -> (r: Vec<u8>)
        ensures
            r@ == self.spec_bytes(),
            r@.len() == BOOT_SECTOR_SIZE,
    {
        let mut out: Vec<u8> = Vec::new();
        put_bytes(&mut out, &self.jump_boot);
        put_bytes(&mut out, &self.filesystem_name);
        put_bytes(&mut out, &self._reserved);
        put_le(&mut out, self.partition_offset as u128, 8);
        put_le(&mut out, self.volume_length as u128, 8);
        put_le(&mut out, self.fat_offset as u128, 4);
        put_le(&mut out, self.fat_length as u128, 4);
        put_le(&mut out, self.cluster_heap_offset as u128, 4);
        put_le(&mut out, self.cluster_count as u128, 4);
        put_le(&mut out, self.first_cluster_of_root_directory as u128, 4);
        put_le(&mut out, self.volume_serial_number.0 as u128, 4);
        out.push(self.file_system_revision.vermin);
        out.push(self.file_system_revision.vermaj);
        assert(out@ =~= self.jump_boot@ + self.filesystem_name@ + self._reserved@ + le_bytes(
            self.partition_offset as nat,
            8,
        ) + le_bytes(self.volume_length as nat, 8) + le_bytes(self.fat_offset as nat, 4) + le_bytes(
            self.fat_length as nat,
            4,
        ) + le_bytes(self.cluster_heap_offset as nat, 4) + le_bytes(self.cluster_count as nat, 4)
            + le_bytes(self.first_cluster_of_root_directory as nat, 4) + le_bytes(
            self.volume_serial_number.0 as nat,
            4,
        ) + seq![self.file_system_revision.vermin, self.file_system_revision.vermaj]);
        put_le(&mut out, self.volume_flags as u128, 2);
        let ghost head = out@;
        out.push(self.bytes_per_sector_shift);
        out.push(self.sectors_per_cluster_shift);
        out.push(self.number_of_fats);
        out.push(self.drive_select);
        out.push(self.percent_in_use);
        assert(out@ =~= head + seq![
            self.bytes_per_sector_shift,
            self.sectors_per_cluster_shift,
            self.number_of_fats,
            self.drive_select,
            self.percent_in_use,
        ]);
        put_bytes(&mut out, &self._reserved2);
        put_bytes(&mut out, &self.boot_code);
        put_le(&mut out, self.boot_signature as u128, 2);
        proof {
            self.lemma_bytes_len();
        }
        out
    }

    /// A boot sector always takes 512 bytes.
    pub proof fn lemma_bytes_len(self)
        ensures
            self.spec_bytes().len() == BOOT_SECTOR_SIZE,
    {
        crate::codec::lemma_le_bytes_len(self.partition_offset as nat, 8);
        crate::codec::lemma_le_bytes_len(self.volume_length as nat, 8);
        crate::codec::lemma_le_bytes_len(self.fat_offset as nat, 4);
        crate::codec::lemma_le_bytes_len(self.fat_length as nat, 4);
        crate::codec::lemma_le_bytes_len(self.cluster_heap_offset as nat, 4);
        crate::codec::lemma_le_bytes_len(self.cluster_count as nat, 4);
        crate::codec::lemma_le_bytes_len(self.first_cluster_of_root_directory as nat, 4);
        crate::codec::lemma_le_bytes_len(self.volume_serial_number.0 as nat, 4);
        crate::codec::lemma_le_bytes_len(self.volume_flags as nat, 2);
        crate::codec::lemma_le_bytes_len(self.boot_signature as nat, 2);
    }

    /// The boot sector that the first 512 bytes of `b` spell.
    pub fn from_bytes(b: &[u8]) -> (r: BootSector)
        requires
            b@.len() >= BOOT_SECTOR_SIZE,
        ensures
            r.parses(b@),
    {
        BootSector {
            jump_boot: take_array::<3>(b, 0),
            filesystem_name: take_array::<8>(b, 3),
            _reserved: take_array::<53>(b, 11),
            partition_offset: get_u64(b, 64),
            volume_length: get_u64(b, 72),
            fat_offset: get_u32(b, 80),
            fat_length: get_u32(b, 84),
            cluster_heap_offset: get_u32(b, 88),
            cluster_count: get_u32(b, 92),
            first_cluster_of_root_directory: get_u32(b, 96),
            volume_serial_number: VolumeSerialNumber(get_u32(b, 100)),
            file_system_revision: FileSystemRevision { vermin: b[104], vermaj: b[105] },
            volume_flags: get_u16(b, 106),
            bytes_per_sector_shift: b[108],
            sectors_per_cluster_shift: b[109],
            number_of_fats: b[110],
            drive_select: b[111],
            percent_in_use: b[112],
            _reserved2: take_array::<7>(b, 113),
            boot_code: take_array::<390>(b, 120),
            boot_signature: get_u16(b, 510),
        }
    }

    /// The bytes that a boot sector spells, at a device's start, spell the
    /// boot sector.
    pub proof fn lemma_parses_own_bytes(self, d: Seq<u8>)
        requires
            d.len() >= 512,
            d.subrange(0, 512) == self.spec_bytes(),
        ensures
            self.parses(d),
    {
        let b = self.spec_bytes();
        self.lemma_bytes_len();
        crate::codec::lemma_byte_limits();
        assert forall|i: int, j: int| 0 <= i <= j <= 512 implies #[trigger] d.subrange(i, j)
            == b.subrange(i, j) by {
            assert(d.subrange(i, j) =~= d.subrange(0, 512).subrange(i, j));
        }
        assert forall|i: int| 0 <= i < 512 implies #[trigger] d[i] == b[i] by {
            assert(d[i] == d.subrange(0, 512)[i]);
        }
        crate::codec::lemma_le_bytes_len(self.partition_offset as nat, 8);
        crate::codec::lemma_le_bytes_len(self.volume_length as nat, 8);
        crate::codec::lemma_le_bytes_len(self.fat_offset as nat, 4);
        crate::codec::lemma_le_bytes_len(self.fat_length as nat, 4);
        crate::codec::lemma_le_bytes_len(self.cluster_heap_offset as nat, 4);
        crate::codec::lemma_le_bytes_len(self.cluster_count as nat, 4);
        crate::codec::lemma_le_bytes_len(self.first_cluster_of_root_directory as nat, 4);
        crate::codec::lemma_le_bytes_len(self.volume_serial_number.0 as nat, 4);
        crate::codec::lemma_le_bytes_len(self.volume_flags as nat, 2);
        crate::codec::lemma_le_bytes_len(self.boot_signature as nat, 2);
        crate::codec::lemma_le_value_of_bytes(self.partition_offset as nat, 8);
        crate::codec::lemma_le_value_of_bytes(self.volume_length as nat, 8);
        crate::codec::lemma_le_value_of_bytes(self.fat_offset as nat, 4);
        crate::codec::lemma_le_value_of_bytes(self.fat_length as nat, 4);
        crate::codec::lemma_le_value_of_bytes(self.cluster_heap_offset as nat, 4);
        crate::codec::lemma_le_value_of_bytes(self.cluster_count as nat, 4);
        crate::codec::lemma_le_value_of_bytes(self.first_cluster_of_root_directory as nat, 4);
        crate::codec::lemma_le_value_of_bytes(self.volume_serial_number.0 as nat, 4);
        crate::codec::lemma_le_value_of_bytes(self.volume_flags as nat, 2);
        crate::codec::lemma_le_value_of_bytes(self.boot_signature as nat, 2);
        assert(b.subrange(0, 3) =~= self.jump_boot@);
        assert(b.subrange(3, 11) =~= self.filesystem_name@);
        assert(b.subrange(11, 64) =~= self._reserved@);
        assert(b.subrange(64, 72) =~= le_bytes(self.partition_offset as nat, 8));
        assert(b.subrange(72, 80) =~= le_bytes(self.volume_length as nat, 8));
        assert(b.subrange(80, 84) =~= le_bytes(self.fat_offset as nat, 4));
        assert(b.subrange(84, 88) =~= le_bytes(self.fat_length as nat, 4));
        assert(b.subrange(88, 92) =~= le_bytes(self.cluster_heap_offset as nat, 4));
        assert(b.subrange(92, 96) =~= le_bytes(self.cluster_count as nat, 4));
        assert(b.subrange(96, 100) =~= le_bytes(self.first_cluster_of_root_directory as nat, 4));
        assert(b.subrange(100, 104) =~= le_bytes(self.volume_serial_number.0 as nat, 4));
        assert(b.subrange(106, 108) =~= le_bytes(self.volume_flags as nat, 2));
        assert(b.subrange(113, 120) =~= self._reserved2@);
        assert(b.subrange(120, 510) =~= self.boot_code@);
        assert(b.subrange(510, 512) =~= le_bytes(self.boot_signature as nat, 2));
    }

    /// The bytes of a boot sector spell one boot sector only.
    pub proof fn lemma_parses_unique(self, other: BootSector, b: Seq<u8>)
        requires
            self.parses(b),
            other.parses(b),
        ensures
            self == other,
    {
        assert(self.jump_boot =~= other.jump_boot);
        assert(self.filesystem_name =~= other.filesystem_name);
        assert(self._reserved =~= other._reserved);
        assert(self._reserved2 =~= other._reserved2);
        assert(self.boot_code =~= other.boot_code);
    }

    /// The boot sector that was read from the given bytes is the boot sector
    /// that they spell.
    pub proof fn lemma_parsed(self, b: Seq<u8>)
        requires
            self.parses(b),
        ensures
            parsed_boot_sector(b) == self,
    {
        let p = parsed_boot_sector(b);
        assert(p.parses(b));
        p.lemma_parses_unique(self, b);
    }

    /// Whether the two shifts lie in the ranges that the format allows.
    pub open spec fn shifts_valid(&self) -> bool {
        &&& 9 <= self.bytes_per_sector_shift <= 12
        &&& self.sectors_per_cluster_shift <= 25 - self.bytes_per_sector_shift
    }

    pub open spec fn spec_bytes_per_sector(&self) -> nat {
        pow2(self.bytes_per_sector_shift as nat)
    }

    pub open spec fn spec_sectors_per_cluster(&self) -> nat {
        pow2(self.sectors_per_cluster_shift as nat)
    }

    pub open spec fn spec_bytes_per_cluster(&self) -> nat {
        pow2((self.bytes_per_sector_shift + self.sectors_per_cluster_shift) as nat)
    }

    /// Byte offset of a cluster of the heap, where the cluster exists and its
    /// offset fits in 64 bits.
    pub open spec fn spec_cluster_offset(&self, cluster: u32) -> Option<u64> {
        let offset = (self.cluster_heap_offset + (cluster - 2) * self.spec_sectors_per_cluster())
            * self.spec_bytes_per_sector();
        if 2 <= cluster && cluster - 2 < self.cluster_count && offset <= u64::MAX {
            Some(offset as u64)
        } else {
            None
        }
    }

    /// Size of a sector, in bytes.
    pub fn bytes_per_sector(&self) -> (r: u32)
        requires
            self.shifts_valid(),
        ensures
            r == self.spec_bytes_per_sector(),
            512 <= r <= 4096,
    {
        proof {
            vstd::arithmetic::power2::lemma2_to64();
        }
        pow2_u64(self.bytes_per_sector_shift) as u32
    }

    /// Number of sectors of a cluster.
    pub fn sectors_per_cluster(&self) -> (r: u32)
        requires
            self.shifts_valid(),
        ensures
            r == self.spec_sectors_per_cluster(),
            1 <= r <= 0x1_0000,
    {
        proof {
            vstd::arithmetic::power2::lemma2_to64();
            if self.sectors_per_cluster_shift < 16 {
                vstd::arithmetic::power2::lemma_pow2_strictly_increases(
                    self.sectors_per_cluster_shift as nat,
                    16,
                );
            }
            vstd::arithmetic::power2::lemma_pow2_pos(self.sectors_per_cluster_shift as nat);
        }
        pow2_u64(self.sectors_per_cluster_shift) as u32
    }

    /// Size of a cluster, in bytes.
    pub fn bytes_per_cluster(&self) -> (r: u32)
        requires
            self.shifts_valid(),
        ensures
            r == self.spec_bytes_per_cluster(),
            r == self.spec_bytes_per_sector() * self.spec_sectors_per_cluster(),
            512 <= r <= 0x200_0000,
    {
        proof {
            vstd::arithmetic::power2::lemma2_to64();
            let k = (self.bytes_per_sector_shift + self.sectors_per_cluster_shift) as nat;
            if k < 25 {
                vstd::arithmetic::power2::lemma_pow2_strictly_increases(k, 25);
            }
            if 9 < k {
                vstd::arithmetic::power2::lemma_pow2_strictly_increases(9, k);
            }
            vstd::arithmetic::power2::lemma_pow2_adds(
                self.bytes_per_sector_shift as nat,
                self.sectors_per_cluster_shift as nat,
            );
        }
        pow2_u64(self.bytes_per_sector_shift + self.sectors_per_cluster_shift) as u32
    }

    /// Byte offset of a cluster of the heap, where the cluster exists and its
    /// offset fits in 64 bits.
    pub fn cluster_offset(&self, cluster: u32) -> (r: Option<u64>)
        requires
            self.shifts_valid(),
        ensures
            r == self.spec_cluster_offset(cluster),
    {
        if cluster < 2 || cluster - 2 >= self.cluster_count {
            return None;
        }
        let spc: u64 = self.sectors_per_cluster() as u64;
        let bps: u64 = self.bytes_per_sector() as u64;
        let index: u64 = (cluster - 2) as u64;
        assert(index * spc <= 0x1_0000_0000_0000) by (nonlinear_arith)
            requires
                index <= 0xFFFF_FFFF,
                spc <= 0x1_0000,
        ;
        let sector: u64 = self.cluster_heap_offset as u64 + index * spc;
        assert(sector * bps <= 0x1000_1000_0000_0000) by (nonlinear_arith)
            requires
                sector <= 0x1_0001_0000_0000,
                bps <= 4096,
        ;
        Some(sector * bps)
    }
}

} // verus!
