//! Directory entries: the 32-byte records that directories are made of.
//!
//! The first byte of a record is its type. Bit `0x80` marks a record in use,
//! bit `0x40` a secondary record, which belongs to the primary record ahead of
//! it. Every type has its own layout of the 31 bytes that follow.

use crate::codec::{
    get_u128, get_u16, get_u32, get_u64, le_bytes, le_value, lemma_byte_limits,
    lemma_le_bytes_len, lemma_le_bytes_of_value, lemma_le_value_of_bytes, put_bytes, put_le,
    take_array,
};
use crate::error::DirEntryError;
use crate::label::Label;
use crate::FIRST_USABLE_CLUSTER_INDEX;
use vstd::prelude::*;

pub mod parsed;
pub mod reader;

verus! {

/// Type byte of the entry that ends a directory.
pub const END_OF_DIRECTORY_ENTRY_TYPE: u8 = 0x00;

/// Type byte that is no entry's.
pub const INVALID_ENTRY_TYPE: u8 = 0x80;

/// Type byte of the allocation bitmap's entry.
pub const BITMAP_ENTRY_TYPE: u8 = 0x81;

/// Type byte of the up-case table's entry.
pub const UPCASE_TABLE_ENTRY_TYPE: u8 = 0x82;

/// Type byte of the volume label's entry.
pub const VOLUME_LABEL_ENTRY_TYPE: u8 = 0x83;

/// Type byte of a file set's primary entry.
pub const FILE_ENTRY_TYPE: u8 = 0x85;

/// Type byte of the volume GUID's entry.
pub const VOLUME_GUID_ENTRY_TYPE: u8 = 0xA0;

/// Type byte of a stream extension.
pub const STREAM_EXTENSION_ENTRY_TYPE: u8 = 0xC0;

/// Type byte of a file name entry.
pub const FILE_NAME_ENTRY_TYPE: u8 = 0xC1;

/// Type byte of a vendor's entry without an allocation.
pub const VENDOR_EXTENSION_ENTRY_TYPE: u8 = 0xE0;

/// Type byte of a vendor's entry with an allocation.
pub const VENDOR_ALLOCATION_ENTRY_TYPE: u8 = 0xE1;

/// Checksum of the default up-case table.
pub const DEFAULT_UPCASE_TABLE_CHECKSUM: u32 = 0xE619D30D;

/// Length of the default up-case table, in bytes.
pub const DEFAULT_UPCASE_TABLE_LENGTH: u64 = 5836;

/// Attributes of a file.
#[derive(Copy, Clone, Debug, PartialEq, Eq)]
pub struct FileAttributes(pub u16);

impl FileAttributes {
    pub fn is_read_only(self) -> (r: bool)
        ensures
            r == (self.0 & 0x0001 != 0),
    {
        (self.0 & 0x0001) != 0
    }

    pub fn is_hidden(self) -> (r: bool)
        ensures
            r == (self.0 & 0x0002 != 0),
    {
        (self.0 & 0x0002) != 0
    }

    pub fn is_system(self) -> (r: bool)
        ensures
            r == (self.0 & 0x0004 != 0),
    {
        (self.0 & 0x0004) != 0
    }

    pub open spec fn spec_is_directory(self) -> bool {
        self.0 & 0x0010 != 0
    }

    pub fn is_directory(self) -> (r: bool)
        ensures
            r == self.spec_is_directory(),
    {
        (self.0 & 0x0010) != 0
    }

    pub fn is_archive(self) -> (r: bool)
        ensures
            r == (self.0 & 0x0020 != 0),
    {
        (self.0 & 0x0020) != 0
    }
}

/// Flags of a secondary entry.
#[derive(Copy, Clone, Debug, PartialEq, Eq)]
pub struct GeneralSecondaryFlags(pub u8);

impl GeneralSecondaryFlags {
    pub open spec fn spec_allocation_possible(self) -> bool {
        self.0 & 1 != 0
    }

    pub open spec fn spec_no_fat_chain(self) -> bool {
        self.0 & 2 != 0
    }

    /// Whether the entry may have clusters of its own.
    pub fn allocation_possible(self) -> (r: bool)
        ensures
            r == self.spec_allocation_possible(),
    {
        (self.0 & 1) != 0
    }

    /// Whether the clusters follow one another without the FAT saying so.
    pub fn no_fat_chain(self) -> (r: bool)
        ensures
            r == self.spec_no_fat_chain(),
    {
        (self.0 & 2) != 0
    }
}

/// Entries that say where an allocation lies.
pub trait ClusterAllocation {
    /// Whether the entry's fields can stand together.
    spec fn spec_valid(&self) -> bool;

    /// Whether the entry's fields can stand together.
    fn valid(&self) -> (r: bool)
        ensures
            r == self.spec_valid(),
    ;
}

/// The allocation bitmap's entry of the root directory.
#[derive(Copy, Clone, Debug, PartialEq, Eq)]
pub struct BitmapEntry {
    /// Bit 0 tells the first bitmap from the second.
    pub flags: u8,
    /// All zero.
    pub _reserved: [u8; 18],
    /// Index of the bitmap's first cluster.
    pub first_cluster: u32,
    /// Length of the bitmap, in bytes.
    pub data_len: u64,
}

impl BitmapEntry {
    /// The 31 bytes of the entry behind its type byte: the fields in their
    /// order, integers least significant byte first.
    pub open spec fn spec_payload(self) -> Seq<u8> {
        seq![self.flags] + self._reserved@ + le_bytes(self.first_cluster as nat, 4) + le_bytes(self.data_len as nat, 8)
    }

    /// Whether the fields are what the 32 bytes `b` of an entry spell.
    pub open spec fn parses(self, b: Seq<u8>) -> bool {
        &&& self.flags == b[1]
        &&& self._reserved@ == b.subrange(2, 20)
        &&& self.first_cluster == le_value(b.subrange(20, 24))
        &&& self.data_len == le_value(b.subrange(24, 32))
    }

    /// Appends the 31 bytes of the entry behind its type byte.
    pub fn put(&self, out: &mut Vec<u8>)
        ensures
            final(out)@ == old(out)@ + self.spec_payload(),
            self.spec_payload().len() == 31,
    {
        out.push(self.flags);
        assert(out@ =~= old(out)@ + seq![self.flags]);
        put_bytes(out, &self._reserved);
        assert(out@ =~= old(out)@ + seq![self.flags] + self._reserved@);
        put_le(out, self.first_cluster as u128, 4);
        assert(out@ =~= old(out)@ + seq![self.flags] + self._reserved@ + le_bytes(self.first_cluster as nat, 4));
        put_le(out, self.data_len as u128, 8);
        assert(out@ =~= old(out)@ + seq![self.flags] + self._reserved@ + le_bytes(self.first_cluster as nat, 4) + le_bytes(self.data_len as nat, 8));
        proof {
            self.lemma_payload_len();
        }
        assert(out@ =~= old(out)@ + self.spec_payload());
    }

    /// The payload always takes 31 bytes.
    pub proof fn lemma_payload_len(self)
        ensures
            self.spec_payload().len() == 31,
    {
        lemma_le_bytes_len(self.first_cluster as nat, 4);
        lemma_le_bytes_len(self.data_len as nat, 8);
    }

    /// The fields that the 32 bytes `b` of an entry spell.
    pub fn parse(b: &[u8]) -> (r: BitmapEntry)
        requires
            b@.len() == 32,
        ensures
            r.parses(b@),
    {
        BitmapEntry {
            flags: b[1],
            _reserved: take_array::<18>(b, 2),
            first_cluster: get_u32(b, 20),
            data_len: get_u64(b, 24),
        }
    }

    /// Fields that were read from an entry's bytes spell the bytes that they
    /// were read from.
    pub proof fn lemma_payload_of_parsed(self, b: Seq<u8>)
        requires
            b.len() == 32,
            self.parses(b),
        ensures
            self.spec_payload() == b.subrange(1, 32),
    {
        lemma_le_bytes_of_value(b.subrange(20, 24));
        lemma_le_bytes_of_value(b.subrange(24, 32));
        self.lemma_payload_len();
        assert(self.spec_payload() =~= b.subrange(1, 32));
    }

    /// The bytes that the fields spell, behind any type byte, spell the fields.
    pub proof fn lemma_parses_payload(self, t: u8)
        ensures
            self.parses(seq![t] + self.spec_payload()),
    {
        let b = seq![t] + self.spec_payload();
        self.lemma_payload_len();
        lemma_byte_limits();
        assert(b.subrange(2, 20) =~= self._reserved@);
        lemma_le_bytes_len(self.first_cluster as nat, 4);
        lemma_le_value_of_bytes(self.first_cluster as nat, 4);
        assert(b.subrange(20, 24) =~= le_bytes(self.first_cluster as nat, 4));
        lemma_le_bytes_len(self.data_len as nat, 8);
        lemma_le_value_of_bytes(self.data_len as nat, 8);
        assert(b.subrange(24, 32) =~= le_bytes(self.data_len as nat, 8));
    }

    /// The bytes of an entry spell one entry only.
    pub proof fn lemma_parses_unique(self, other: BitmapEntry, b: Seq<u8>)
        requires
            self.parses(b),
            other.parses(b),
        ensures
            self == other,
    {
        assert(self._reserved =~= other._reserved);
    }
}

/// The up-case table's entry of the root directory.
#[derive(Copy, Clone, Debug, PartialEq, Eq)]
pub struct UpcaseTableEntry {
    /// All zero.
    pub _reserved1: [u8; 3],
    /// Checksum of the table's bytes.
    pub table_checksum: u32,
    /// All zero.
    pub _reserved2: [u8; 12],
    /// Index of the table's first cluster.
    pub first_cluster: u32,
    /// Length of the table, in bytes.
    pub data_len: u64,
}

impl UpcaseTableEntry {
    /// The 31 bytes of the entry behind its type byte: the fields in their
    /// order, integers least significant byte first.
    pub open spec fn spec_payload(self) -> Seq<u8> {
        self._reserved1@ + le_bytes(self.table_checksum as nat, 4) + self._reserved2@ + le_bytes(self.first_cluster as nat, 4) + le_bytes(self.data_len as nat, 8)
    }

    /// Whether the fields are what the 32 bytes `b` of an entry spell.
    pub open spec fn parses(self, b: Seq<u8>) -> bool {
        &&& self._reserved1@ == b.subrange(1, 4)
        &&& self.table_checksum == le_value(b.subrange(4, 8))
        &&& self._reserved2@ == b.subrange(8, 20)
        &&& self.first_cluster == le_value(b.subrange(20, 24))
        &&& self.data_len == le_value(b.subrange(24, 32))
    }

    /// Appends the 31 bytes of the entry behind its type byte.
    pub fn put(&self, out: &mut Vec<u8>)
        ensures
            final(out)@ == old(out)@ + self.spec_payload(),
            self.spec_payload().len() == 31,
    {
        put_bytes(out, &self._reserved1);
        assert(out@ =~= old(out)@ + self._reserved1@);
        put_le(out, self.table_checksum as u128, 4);
        assert(out@ =~= old(out)@ + self._reserved1@ + le_bytes(self.table_checksum as nat, 4));
        put_bytes(out, &self._reserved2);
        assert(out@ =~= old(out)@ + self._reserved1@ + le_bytes(self.table_checksum as nat, 4) + self._reserved2@);
        put_le(out, self.first_cluster as u128, 4);
        assert(out@ =~= old(out)@ + self._reserved1@ + le_bytes(self.table_checksum as nat, 4) + self._reserved2@ + le_bytes(self.first_cluster as nat, 4));
        put_le(out, self.data_len as u128, 8);
        assert(out@ =~= old(out)@ + self._reserved1@ + le_bytes(self.table_checksum as nat, 4) + self._reserved2@ + le_bytes(self.first_cluster as nat, 4) + le_bytes(self.data_len as nat, 8));
        proof {
            self.lemma_payload_len();
        }
        assert(out@ =~= old(out)@ + self.spec_payload());
    }

    /// The payload always takes 31 bytes.
    pub proof fn lemma_payload_len(self)
        ensures
            self.spec_payload().len() == 31,
    {
        lemma_le_bytes_len(self.table_checksum as nat, 4);
        lemma_le_bytes_len(self.first_cluster as nat, 4);
        lemma_le_bytes_len(self.data_len as nat, 8);
    }

    /// The fields that the 32 bytes `b` of an entry spell.
    pub fn parse(b: &[u8]) -> (r: UpcaseTableEntry)
        requires
            b@.len() == 32,
        ensures
            r.parses(b@),
    {
        UpcaseTableEntry {
            _reserved1: take_array::<3>(b, 1),
            table_checksum: get_u32(b, 4),
            _reserved2: take_array::<12>(b, 8),
            first_cluster: get_u32(b, 20),
            data_len: get_u64(b, 24),
        }
    }

    /// Fields that were read from an entry's bytes spell the bytes that they
    /// were read from.
    pub proof fn lemma_payload_of_parsed(self, b: Seq<u8>)
        requires
            b.len() == 32,
            self.parses(b),
        ensures
            self.spec_payload() == b.subrange(1, 32),
    {
        lemma_le_bytes_of_value(b.subrange(4, 8));
        lemma_le_bytes_of_value(b.subrange(20, 24));
        lemma_le_bytes_of_value(b.subrange(24, 32));
        self.lemma_payload_len();
        assert(self.spec_payload() =~= b.subrange(1, 32));
    }

    /// The bytes that the fields spell, behind any type byte, spell the fields.
    pub proof fn lemma_parses_payload(self, t: u8)
        ensures
            self.parses(seq![t] + self.spec_payload()),
    {
        let b = seq![t] + self.spec_payload();
        self.lemma_payload_len();
        lemma_byte_limits();
        assert(b.subrange(1, 4) =~= self._reserved1@);
        lemma_le_bytes_len(self.table_checksum as nat, 4);
        lemma_le_value_of_bytes(self.table_checksum as nat, 4);
        assert(b.subrange(4, 8) =~= le_bytes(self.table_checksum as nat, 4));
        assert(b.subrange(8, 20) =~= self._reserved2@);
        lemma_le_bytes_len(self.first_cluster as nat, 4);
        lemma_le_value_of_bytes(self.first_cluster as nat, 4);
        assert(b.subrange(20, 24) =~= le_bytes(self.first_cluster as nat, 4));
        lemma_le_bytes_len(self.data_len as nat, 8);
        lemma_le_value_of_bytes(self.data_len as nat, 8);
        assert(b.subrange(24, 32) =~= le_bytes(self.data_len as nat, 8));
    }

    /// The bytes of an entry spell one entry only.
    pub proof fn lemma_parses_unique(self, other: UpcaseTableEntry, b: Seq<u8>)
        requires
            self.parses(b),
            other.parses(b),
        ensures
            self == other,
    {
        assert(self._reserved1 =~= other._reserved1);
        assert(self._reserved2 =~= other._reserved2);
    }
}

/// The volume label's entry of the root directory.
#[derive(Copy, Clone, Debug, PartialEq, Eq)]
pub struct VolumeLabelEntry {
    /// Number of UTF-16 code units of the label.
    pub character_count: u8,
    /// The label's code units, least significant byte first.
    pub volume_label: [u8; 22],
    /// Zero.
    pub _reserved: u64,
}

impl VolumeLabelEntry {
    /// The 31 bytes of the entry behind its type byte: the fields in their
    /// order, integers least significant byte first.
    pub open spec fn spec_payload(self) -> Seq<u8> {
        seq![self.character_count] + self.volume_label@ + le_bytes(self._reserved as nat, 8)
    }

    /// Whether the fields are what the 32 bytes `b` of an entry spell.
    pub open spec fn parses(self, b: Seq<u8>) -> bool {
        &&& self.character_count == b[1]
        &&& self.volume_label@ == b.subrange(2, 24)
        &&& self._reserved == le_value(b.subrange(24, 32))
    }

    /// Appends the 31 bytes of the entry behind its type byte.
    pub fn put(&self, out: &mut Vec<u8>)
        ensures
            final(out)@ == old(out)@ + self.spec_payload(),
            self.spec_payload().len() == 31,
    {
        out.push(self.character_count);
        assert(out@ =~= old(out)@ + seq![self.character_count]);
        put_bytes(out, &self.volume_label);
        assert(out@ =~= old(out)@ + seq![self.character_count] + self.volume_label@);
        put_le(out, self._reserved as u128, 8);
        assert(out@ =~= old(out)@ + seq![self.character_count] + self.volume_label@ + le_bytes(self._reserved as nat, 8));
        proof {
            self.lemma_payload_len();
        }
        assert(out@ =~= old(out)@ + self.spec_payload());
    }

    /// The payload always takes 31 bytes.
    pub proof fn lemma_payload_len(self)
        ensures
            self.spec_payload().len() == 31,
    {
        lemma_le_bytes_len(self._reserved as nat, 8);
    }

    /// The fields that the 32 bytes `b` of an entry spell.
    pub fn parse(b: &[u8]) -> (r: VolumeLabelEntry)
        requires
            b@.len() == 32,
        ensures
            r.parses(b@),
    {
        VolumeLabelEntry {
            character_count: b[1],
            volume_label: take_array::<22>(b, 2),
            _reserved: get_u64(b, 24),
        }
    }

    /// Fields that were read from an entry's bytes spell the bytes that they
    /// were read from.
    pub proof fn lemma_payload_of_parsed(self, b: Seq<u8>)
        requires
            b.len() == 32,
            self.parses(b),
        ensures
            self.spec_payload() == b.subrange(1, 32),
    {
        lemma_le_bytes_of_value(b.subrange(24, 32));
        self.lemma_payload_len();
        assert(self.spec_payload() =~= b.subrange(1, 32));
    }

    /// The bytes that the fields spell, behind any type byte, spell the fields.
    pub proof fn lemma_parses_payload(self, t: u8)
        ensures
            self.parses(seq![t] + self.spec_payload()),
    {
        let b = seq![t] + self.spec_payload();
        self.lemma_payload_len();
        lemma_byte_limits();
        assert(b.subrange(2, 24) =~= self.volume_label@);
        lemma_le_bytes_len(self._reserved as nat, 8);
        lemma_le_value_of_bytes(self._reserved as nat, 8);
        assert(b.subrange(24, 32) =~= le_bytes(self._reserved as nat, 8));
    }

    /// The bytes of an entry spell one entry only.
    pub proof fn lemma_parses_unique(self, other: VolumeLabelEntry, b: Seq<u8>)
        requires
            self.parses(b),
            other.parses(b),
        ensures
            self == other,
    {
        assert(self.volume_label =~= other.volume_label);
    }
}

/// The primary entry of a file set.
#[derive(Copy, Clone, Debug, PartialEq, Eq)]
pub struct FileEntry {
    /// Number of secondary entries that follow.
    pub secondary_count: u8,
    /// Checksum of the whole set.
    pub set_checksum: u16,
    /// Attributes of the file.
    pub file_attributes: FileAttributes,
    /// Zero.
    pub _reserved1: u16,
    /// Packed date and time of creation.
    pub create_timestamp: u32,
    /// Packed date and time of the last change.
    pub last_modified_timestamp: u32,
    /// Packed date and time of the last access.
    pub last_accessed_timestamp: u32,
    /// Hundredths of a second to add to the creation time.
    pub create_10ms_increment: u8,
    /// Hundredths of a second to add to the time of the last change.
    pub last_modified_10ms_increment: u8,
    /// Offset from UTC of the creation time.
    pub create_utc_offset: u8,
    /// Offset from UTC of the time of the last change.
    pub last_modified_utc_offset: u8,
    /// Offset from UTC of the time of the last access.
    pub last_accessed_utc_offset: u8,
    /// All zero.
    pub _reserved2: [u8; 7],
}

impl FileEntry {
    /// The 31 bytes of the entry behind its type byte: the fields in their
    /// order, integers least significant byte first.
    pub open spec fn spec_payload(self) -> Seq<u8> {
        seq![self.secondary_count] + le_bytes(self.set_checksum as nat, 2) + le_bytes(self.file_attributes.0 as nat, 2) + le_bytes(self._reserved1 as nat, 2) + le_bytes(self.create_timestamp as nat, 4) + le_bytes(self.last_modified_timestamp as nat, 4) + le_bytes(self.last_accessed_timestamp as nat, 4) + seq![self.create_10ms_increment] + seq![self.last_modified_10ms_increment] + seq![self.create_utc_offset] + seq![self.last_modified_utc_offset] + seq![self.last_accessed_utc_offset] + self._reserved2@
    }

    /// Whether the fields are what the 32 bytes `b` of an entry spell.
    pub open spec fn parses(self, b: Seq<u8>) -> bool {
        &&& self.secondary_count == b[1]
        &&& self.set_checksum == le_value(b.subrange(2, 4))
        &&& self.file_attributes.0 == le_value(b.subrange(4, 6))
        &&& self._reserved1 == le_value(b.subrange(6, 8))
        &&& self.create_timestamp == le_value(b.subrange(8, 12))
        &&& self.last_modified_timestamp == le_value(b.subrange(12, 16))
        &&& self.last_accessed_timestamp == le_value(b.subrange(16, 20))
        &&& self.create_10ms_increment == b[20]
        &&& self.last_modified_10ms_increment == b[21]
        &&& self.create_utc_offset == b[22]
        &&& self.last_modified_utc_offset == b[23]
        &&& self.last_accessed_utc_offset == b[24]
        &&& self._reserved2@ == b.subrange(25, 32)
    }

    /// Appends the 31 bytes of the entry behind its type byte.
    pub fn put(&self, out: &mut Vec<u8>)
        ensures
            final(out)@ == old(out)@ + self.spec_payload(),
            self.spec_payload().len() == 31,
    {
        out.push(self.secondary_count);
        assert(out@ =~= old(out)@ + seq![self.secondary_count]);
        put_le(out, self.set_checksum as u128, 2);
        assert(out@ =~= old(out)@ + seq![self.secondary_count] + le_bytes(self.set_checksum as nat, 2));
        put_le(out, self.file_attributes.0 as u128, 2);
        assert(out@ =~= old(out)@ + seq![self.secondary_count] + le_bytes(self.set_checksum as nat, 2) + le_bytes(self.file_attributes.0 as nat, 2));
        put_le(out, self._reserved1 as u128, 2);
        assert(out@ =~= old(out)@ + seq![self.secondary_count] + le_bytes(self.set_checksum as nat, 2) + le_bytes(self.file_attributes.0 as nat, 2) + le_bytes(self._reserved1 as nat, 2));
        put_le(out, self.create_timestamp as u128, 4);
        assert(out@ =~= old(out)@ + seq![self.secondary_count] + le_bytes(self.set_checksum as nat, 2) + le_bytes(self.file_attributes.0 as nat, 2) + le_bytes(self._reserved1 as nat, 2) + le_bytes(self.create_timestamp as nat, 4));
        put_le(out, self.last_modified_timestamp as u128, 4);
        assert(out@ =~= old(out)@ + seq![self.secondary_count] + le_bytes(self.set_checksum as nat, 2) + le_bytes(self.file_attributes.0 as nat, 2) + le_bytes(self._reserved1 as nat, 2) + le_bytes(self.create_timestamp as nat, 4) + le_bytes(self.last_modified_timestamp as nat, 4));
        put_le(out, self.last_accessed_timestamp as u128, 4);
        assert(out@ =~= old(out)@ + seq![self.secondary_count] + le_bytes(self.set_checksum as nat, 2) + le_bytes(self.file_attributes.0 as nat, 2) + le_bytes(self._reserved1 as nat, 2) + le_bytes(self.create_timestamp as nat, 4) + le_bytes(self.last_modified_timestamp as nat, 4) + le_bytes(self.last_accessed_timestamp as nat, 4));
        out.push(self.create_10ms_increment);
        assert(out@ =~= old(out)@ + seq![self.secondary_count] + le_bytes(self.set_checksum as nat, 2) + le_bytes(self.file_attributes.0 as nat, 2) + le_bytes(self._reserved1 as nat, 2) + le_bytes(self.create_timestamp as nat, 4) + le_bytes(self.last_modified_timestamp as nat, 4) + le_bytes(self.last_accessed_timestamp as nat, 4) + seq![self.create_10ms_increment]);
        out.push(self.last_modified_10ms_increment);
        assert(out@ =~= old(out)@ + seq![self.secondary_count] + le_bytes(self.set_checksum as nat, 2) + le_bytes(self.file_attributes.0 as nat, 2) + le_bytes(self._reserved1 as nat, 2) + le_bytes(self.create_timestamp as nat, 4) + le_bytes(self.last_modified_timestamp as nat, 4) + le_bytes(self.last_accessed_timestamp as nat, 4) + seq![self.create_10ms_increment] + seq![self.last_modified_10ms_increment]);
        out.push(self.create_utc_offset);
        assert(out@ =~= old(out)@ + seq![self.secondary_count] + le_bytes(self.set_checksum as nat, 2) + le_bytes(self.file_attributes.0 as nat, 2) + le_bytes(self._reserved1 as nat, 2) + le_bytes(self.create_timestamp as nat, 4) + le_bytes(self.last_modified_timestamp as nat, 4) + le_bytes(self.last_accessed_timestamp as nat, 4) + seq![self.create_10ms_increment] + seq![self.last_modified_10ms_increment] + seq![self.create_utc_offset]);
        out.push(self.last_modified_utc_offset);
        assert(out@ =~= old(out)@ + seq![self.secondary_count] + le_bytes(self.set_checksum as nat, 2) + le_bytes(self.file_attributes.0 as nat, 2) + le_bytes(self._reserved1 as nat, 2) + le_bytes(self.create_timestamp as nat, 4) + le_bytes(self.last_modified_timestamp as nat, 4) + le_bytes(self.last_accessed_timestamp as nat, 4) + seq![self.create_10ms_increment] + seq![self.last_modified_10ms_increment] + seq![self.create_utc_offset] + seq![self.last_modified_utc_offset]);
        out.push(self.last_accessed_utc_offset);
        assert(out@ =~= old(out)@ + seq![self.secondary_count] + le_bytes(self.set_checksum as nat, 2) + le_bytes(self.file_attributes.0 as nat, 2) + le_bytes(self._reserved1 as nat, 2) + le_bytes(self.create_timestamp as nat, 4) + le_bytes(self.last_modified_timestamp as nat, 4) + le_bytes(self.last_accessed_timestamp as nat, 4) + seq![self.create_10ms_increment] + seq![self.last_modified_10ms_increment] + seq![self.create_utc_offset] + seq![self.last_modified_utc_offset] + seq![self.last_accessed_utc_offset]);
        put_bytes(out, &self._reserved2);
        assert(out@ =~= old(out)@ + seq![self.secondary_count] + le_bytes(self.set_checksum as nat, 2) + le_bytes(self.file_attributes.0 as nat, 2) + le_bytes(self._reserved1 as nat, 2) + le_bytes(self.create_timestamp as nat, 4) + le_bytes(self.last_modified_timestamp as nat, 4) + le_bytes(self.last_accessed_timestamp as nat, 4) + seq![self.create_10ms_increment] + seq![self.last_modified_10ms_increment] + seq![self.create_utc_offset] + seq![self.last_modified_utc_offset] + seq![self.last_accessed_utc_offset] + self._reserved2@);
        proof {
            self.lemma_payload_len();
        }
        assert(out@ =~= old(out)@ + self.spec_payload());
    }

    /// The payload always takes 31 bytes.
    pub proof fn lemma_payload_len(self)
        ensures
            self.spec_payload().len() == 31,
    {
        lemma_le_bytes_len(self.set_checksum as nat, 2);
        lemma_le_bytes_len(self.file_attributes.0 as nat, 2);
        lemma_le_bytes_len(self._reserved1 as nat, 2);
        lemma_le_bytes_len(self.create_timestamp as nat, 4);
        lemma_le_bytes_len(self.last_modified_timestamp as nat, 4);
        lemma_le_bytes_len(self.last_accessed_timestamp as nat, 4);
    }

    /// The fields that the 32 bytes `b` of an entry spell.
    pub fn parse(b: &[u8]) -> (r: FileEntry)
        requires
            b@.len() == 32,
        ensures
            r.parses(b@),
    {
        FileEntry {
            secondary_count: b[1],
            set_checksum: get_u16(b, 2),
            file_attributes: FileAttributes(get_u16(b, 4)),
            _reserved1: get_u16(b, 6),
            create_timestamp: get_u32(b, 8),
            last_modified_timestamp: get_u32(b, 12),
            last_accessed_timestamp: get_u32(b, 16),
            create_10ms_increment: b[20],
            last_modified_10ms_increment: b[21],
            create_utc_offset: b[22],
            last_modified_utc_offset: b[23],
            last_accessed_utc_offset: b[24],
            _reserved2: take_array::<7>(b, 25),
        }
    }

    /// Fields that were read from an entry's bytes spell the bytes that they
    /// were read from.
    pub proof fn lemma_payload_of_parsed(self, b: Seq<u8>)
        requires
            b.len() == 32,
            self.parses(b),
        ensures
            self.spec_payload() == b.subrange(1, 32),
    {
        lemma_le_bytes_of_value(b.subrange(2, 4));
        lemma_le_bytes_of_value(b.subrange(4, 6));
        lemma_le_bytes_of_value(b.subrange(6, 8));
        lemma_le_bytes_of_value(b.subrange(8, 12));
        lemma_le_bytes_of_value(b.subrange(12, 16));
        lemma_le_bytes_of_value(b.subrange(16, 20));
        self.lemma_payload_len();
        assert(self.spec_payload() =~= b.subrange(1, 32));
    }

    /// The bytes that the fields spell, behind any type byte, spell the fields.
    pub proof fn lemma_parses_payload(self, t: u8)
        ensures
            self.parses(seq![t] + self.spec_payload()),
    {
        let b = seq![t] + self.spec_payload();
        self.lemma_payload_len();
        lemma_byte_limits();
        lemma_le_bytes_len(self.set_checksum as nat, 2);
        lemma_le_value_of_bytes(self.set_checksum as nat, 2);
        assert(b.subrange(2, 4) =~= le_bytes(self.set_checksum as nat, 2));
        lemma_le_bytes_len(self.file_attributes.0 as nat, 2);
        lemma_le_value_of_bytes(self.file_attributes.0 as nat, 2);
        assert(b.subrange(4, 6) =~= le_bytes(self.file_attributes.0 as nat, 2));
        lemma_le_bytes_len(self._reserved1 as nat, 2);
        lemma_le_value_of_bytes(self._reserved1 as nat, 2);
        assert(b.subrange(6, 8) =~= le_bytes(self._reserved1 as nat, 2));
        lemma_le_bytes_len(self.create_timestamp as nat, 4);
        lemma_le_value_of_bytes(self.create_timestamp as nat, 4);
        assert(b.subrange(8, 12) =~= le_bytes(self.create_timestamp as nat, 4));
        lemma_le_bytes_len(self.last_modified_timestamp as nat, 4);
        lemma_le_value_of_bytes(self.last_modified_timestamp as nat, 4);
        assert(b.subrange(12, 16) =~= le_bytes(self.last_modified_timestamp as nat, 4));
        lemma_le_bytes_len(self.last_accessed_timestamp as nat, 4);
        lemma_le_value_of_bytes(self.last_accessed_timestamp as nat, 4);
        assert(b.subrange(16, 20) =~= le_bytes(self.last_accessed_timestamp as nat, 4));
        assert(b.subrange(25, 32) =~= self._reserved2@);
    }

    /// The bytes of an entry spell one entry only.
    pub proof fn lemma_parses_unique(self, other: FileEntry, b: Seq<u8>)
        requires
            self.parses(b),
            other.parses(b),
        ensures
            self == other,
    {
        assert(self._reserved2 =~= other._reserved2);
    }
}

/// The volume GUID's entry of the root directory.
#[derive(Copy, Clone, Debug, PartialEq, Eq)]
pub struct VolumeGuidEntry {
    /// Zero: the entry stands alone.
    pub secondary_count: u8,
    /// Checksum of the entry.
    pub set_checksum: u16,
    /// Zero.
    pub general_primary_flag: u16,
    /// The GUID.
    pub volume_guid: u128,
    /// All zero.
    pub _reserved: [u8; 10],
}

impl VolumeGuidEntry {
    /// The 31 bytes of the entry behind its type byte: the fields in their
    /// order, integers least significant byte first.
    pub open spec fn spec_payload(self) -> Seq<u8> {
        seq![self.secondary_count] + le_bytes(self.set_checksum as nat, 2) + le_bytes(self.general_primary_flag as nat, 2) + le_bytes(self.volume_guid as nat, 16) + self._reserved@
    }

    /// Whether the fields are what the 32 bytes `b` of an entry spell.
    pub open spec fn parses(self, b: Seq<u8>) -> bool {
        &&& self.secondary_count == b[1]
        &&& self.set_checksum == le_value(b.subrange(2, 4))
        &&& self.general_primary_flag == le_value(b.subrange(4, 6))
        &&& self.volume_guid == le_value(b.subrange(6, 22))
        &&& self._reserved@ == b.subrange(22, 32)
    }

    /// Appends the 31 bytes of the entry behind its type byte.
    pub fn put(&self, out: &mut Vec<u8>)
        ensures
            final(out)@ == old(out)@ + self.spec_payload(),
            self.spec_payload().len() == 31,
    {
        out.push(self.secondary_count);
        assert(out@ =~= old(out)@ + seq![self.secondary_count]);
        put_le(out, self.set_checksum as u128, 2);
        assert(out@ =~= old(out)@ + seq![self.secondary_count] + le_bytes(self.set_checksum as nat, 2));
        put_le(out, self.general_primary_flag as u128, 2);
        assert(out@ =~= old(out)@ + seq![self.secondary_count] + le_bytes(self.set_checksum as nat, 2) + le_bytes(self.general_primary_flag as nat, 2));
        put_le(out, self.volume_guid as u128, 16);
        assert(out@ =~= old(out)@ + seq![self.secondary_count] + le_bytes(self.set_checksum as nat, 2) + le_bytes(self.general_primary_flag as nat, 2) + le_bytes(self.volume_guid as nat, 16));
        put_bytes(out, &self._reserved);
        assert(out@ =~= old(out)@ + seq![self.secondary_count] + le_bytes(self.set_checksum as nat, 2) + le_bytes(self.general_primary_flag as nat, 2) + le_bytes(self.volume_guid as nat, 16) + self._reserved@);
        proof {
            self.lemma_payload_len();
        }
        assert(out@ =~= old(out)@ + self.spec_payload());
    }

    /// The payload always takes 31 bytes.
    pub proof fn lemma_payload_len(self)
        ensures
            self.spec_payload().len() == 31,
    {
        lemma_le_bytes_len(self.set_checksum as nat, 2);
        lemma_le_bytes_len(self.general_primary_flag as nat, 2);
        lemma_le_bytes_len(self.volume_guid as nat, 16);
    }

    /// The fields that the 32 bytes `b` of an entry spell.
    pub fn parse(b: &[u8]) -> (r: VolumeGuidEntry)
        requires
            b@.len() == 32,
        ensures
            r.parses(b@),
    {
        VolumeGuidEntry {
            secondary_count: b[1],
            set_checksum: get_u16(b, 2),
            general_primary_flag: get_u16(b, 4),
            volume_guid: get_u128(b, 6),
            _reserved: take_array::<10>(b, 22),
        }
    }

    /// Fields that were read from an entry's bytes spell the bytes that they
    /// were read from.
    pub proof fn lemma_payload_of_parsed(self, b: Seq<u8>)
        requires
            b.len() == 32,
            self.parses(b),
        ensures
            self.spec_payload() == b.subrange(1, 32),
    {
        lemma_le_bytes_of_value(b.subrange(2, 4));
        lemma_le_bytes_of_value(b.subrange(4, 6));
        lemma_le_bytes_of_value(b.subrange(6, 22));
        self.lemma_payload_len();
        assert(self.spec_payload() =~= b.subrange(1, 32));
    }

    /// The bytes that the fields spell, behind any type byte, spell the fields.
    pub proof fn lemma_parses_payload(self, t: u8)
        ensures
            self.parses(seq![t] + self.spec_payload()),
    {
        let b = seq![t] + self.spec_payload();
        self.lemma_payload_len();
        lemma_byte_limits();
        lemma_le_bytes_len(self.set_checksum as nat, 2);
        lemma_le_value_of_bytes(self.set_checksum as nat, 2);
        assert(b.subrange(2, 4) =~= le_bytes(self.set_checksum as nat, 2));
        lemma_le_bytes_len(self.general_primary_flag as nat, 2);
        lemma_le_value_of_bytes(self.general_primary_flag as nat, 2);
        assert(b.subrange(4, 6) =~= le_bytes(self.general_primary_flag as nat, 2));
        lemma_le_bytes_len(self.volume_guid as nat, 16);
        lemma_le_value_of_bytes(self.volume_guid as nat, 16);
        assert(b.subrange(6, 22) =~= le_bytes(self.volume_guid as nat, 16));
        assert(b.subrange(22, 32) =~= self._reserved@);
    }

    /// The bytes of an entry spell one entry only.
    pub proof fn lemma_parses_unique(self, other: VolumeGuidEntry, b: Seq<u8>)
        requires
            self.parses(b),
            other.parses(b),
        ensures
            self == other,
    {
        assert(self._reserved =~= other._reserved);
    }
}

/// The entry of a file set that says where the data lies.
#[derive(Copy, Clone, Debug, PartialEq, Eq)]
pub struct StreamExtensionEntry {
    /// Whether an allocation is possible and whether the FAT is in use.
    pub general_secondary_flags: GeneralSecondaryFlags,
    /// Zero.
    pub _reserved1: u8,
    /// Number of UTF-16 code units of the file name.
    pub name_length: u8,
    /// Hash of the up-cased file name.
    pub name_hash: u16,
    /// Zero.
    pub _reserved2: u16,
    /// Number of bytes that were written.
    pub valid_data_length: u64,
    /// Zero.
    pub _reserved3: u32,
    /// Index of the first cluster of the data.
    pub first_cluster: u32,
    /// Number of bytes that are allocated.
    pub data_len: u64,
}

impl StreamExtensionEntry {
    /// The 31 bytes of the entry behind its type byte: the fields in their
    /// order, integers least significant byte first.
    pub open spec fn spec_payload(self) -> Seq<u8> {
        seq![self.general_secondary_flags.0] + seq![self._reserved1] + seq![self.name_length] + le_bytes(self.name_hash as nat, 2) + le_bytes(self._reserved2 as nat, 2) + le_bytes(self.valid_data_length as nat, 8) + le_bytes(self._reserved3 as nat, 4) + le_bytes(self.first_cluster as nat, 4) + le_bytes(self.data_len as nat, 8)
    }

    /// Whether the fields are what the 32 bytes `b` of an entry spell.
    pub open spec fn parses(self, b: Seq<u8>) -> bool {
        &&& self.general_secondary_flags.0 == b[1]
        &&& self._reserved1 == b[2]
        &&& self.name_length == b[3]
        &&& self.name_hash == le_value(b.subrange(4, 6))
        &&& self._reserved2 == le_value(b.subrange(6, 8))
        &&& self.valid_data_length == le_value(b.subrange(8, 16))
        &&& self._reserved3 == le_value(b.subrange(16, 20))
        &&& self.first_cluster == le_value(b.subrange(20, 24))
        &&& self.data_len == le_value(b.subrange(24, 32))
    }

    /// Appends the 31 bytes of the entry behind its type byte.
    pub fn put(&self, out: &mut Vec<u8>)
        ensures
            final(out)@ == old(out)@ + self.spec_payload(),
            self.spec_payload().len() == 31,
    {
        out.push(self.general_secondary_flags.0);
        assert(out@ =~= old(out)@ + seq![self.general_secondary_flags.0]);
        out.push(self._reserved1);
        assert(out@ =~= old(out)@ + seq![self.general_secondary_flags.0] + seq![self._reserved1]);
        out.push(self.name_length);
        assert(out@ =~= old(out)@ + seq![self.general_secondary_flags.0] + seq![self._reserved1] + seq![self.name_length]);
        put_le(out, self.name_hash as u128, 2);
        assert(out@ =~= old(out)@ + seq![self.general_secondary_flags.0] + seq![self._reserved1] + seq![self.name_length] + le_bytes(self.name_hash as nat, 2));
        put_le(out, self._reserved2 as u128, 2);
        assert(out@ =~= old(out)@ + seq![self.general_secondary_flags.0] + seq![self._reserved1] + seq![self.name_length] + le_bytes(self.name_hash as nat, 2) + le_bytes(self._reserved2 as nat, 2));
        put_le(out, self.valid_data_length as u128, 8);
        assert(out@ =~= old(out)@ + seq![self.general_secondary_flags.0] + seq![self._reserved1] + seq![self.name_length] + le_bytes(self.name_hash as nat, 2) + le_bytes(self._reserved2 as nat, 2) + le_bytes(self.valid_data_length as nat, 8));
        put_le(out, self._reserved3 as u128, 4);
        assert(out@ =~= old(out)@ + seq![self.general_secondary_flags.0] + seq![self._reserved1] + seq![self.name_length] + le_bytes(self.name_hash as nat, 2) + le_bytes(self._reserved2 as nat, 2) + le_bytes(self.valid_data_length as nat, 8) + le_bytes(self._reserved3 as nat, 4));
        put_le(out, self.first_cluster as u128, 4);
        assert(out@ =~= old(out)@ + seq![self.general_secondary_flags.0] + seq![self._reserved1] + seq![self.name_length] + le_bytes(self.name_hash as nat, 2) + le_bytes(self._reserved2 as nat, 2) + le_bytes(self.valid_data_length as nat, 8) + le_bytes(self._reserved3 as nat, 4) + le_bytes(self.first_cluster as nat, 4));
        put_le(out, self.data_len as u128, 8);
        assert(out@ =~= old(out)@ + seq![self.general_secondary_flags.0] + seq![self._reserved1] + seq![self.name_length] + le_bytes(self.name_hash as nat, 2) + le_bytes(self._reserved2 as nat, 2) + le_bytes(self.valid_data_length as nat, 8) + le_bytes(self._reserved3 as nat, 4) + le_bytes(self.first_cluster as nat, 4) + le_bytes(self.data_len as nat, 8));
        proof {
            self.lemma_payload_len();
        }
        assert(out@ =~= old(out)@ + self.spec_payload());
    }

    /// The payload always takes 31 bytes.
    pub proof fn lemma_payload_len(self)
        ensures
            self.spec_payload().len() == 31,
    {
        lemma_le_bytes_len(self.name_hash as nat, 2);
        lemma_le_bytes_len(self._reserved2 as nat, 2);
        lemma_le_bytes_len(self.valid_data_length as nat, 8);
        lemma_le_bytes_len(self._reserved3 as nat, 4);
        lemma_le_bytes_len(self.first_cluster as nat, 4);
        lemma_le_bytes_len(self.data_len as nat, 8);
    }

    /// The fields that the 32 bytes `b` of an entry spell.
    pub fn parse(b: &[u8]) -> (r: StreamExtensionEntry)
        requires
            b@.len() == 32,
        ensures
            r.parses(b@),
    {
        StreamExtensionEntry {
            general_secondary_flags: GeneralSecondaryFlags(b[1]),
            _reserved1: b[2],
            name_length: b[3],
            name_hash: get_u16(b, 4),
            _reserved2: get_u16(b, 6),
            valid_data_length: get_u64(b, 8),
            _reserved3: get_u32(b, 16),
            first_cluster: get_u32(b, 20),
            data_len: get_u64(b, 24),
        }
    }

    /// Fields that were read from an entry's bytes spell the bytes that they
    /// were read from.
    pub proof fn lemma_payload_of_parsed(self, b: Seq<u8>)
        requires
            b.len() == 32,
            self.parses(b),
        ensures
            self.spec_payload() == b.subrange(1, 32),
    {
        lemma_le_bytes_of_value(b.subrange(4, 6));
        lemma_le_bytes_of_value(b.subrange(6, 8));
        lemma_le_bytes_of_value(b.subrange(8, 16));
        lemma_le_bytes_of_value(b.subrange(16, 20));
        lemma_le_bytes_of_value(b.subrange(20, 24));
        lemma_le_bytes_of_value(b.subrange(24, 32));
        self.lemma_payload_len();
        assert(self.spec_payload() =~= b.subrange(1, 32));
    }

    /// The bytes that the fields spell, behind any type byte, spell the fields.
    pub proof fn lemma_parses_payload(self, t: u8)
        ensures
            self.parses(seq![t] + self.spec_payload()),
    {
        let b = seq![t] + self.spec_payload();
        self.lemma_payload_len();
        lemma_byte_limits();
        lemma_le_bytes_len(self.name_hash as nat, 2);
        lemma_le_value_of_bytes(self.name_hash as nat, 2);
        assert(b.subrange(4, 6) =~= le_bytes(self.name_hash as nat, 2));
        lemma_le_bytes_len(self._reserved2 as nat, 2);
        lemma_le_value_of_bytes(self._reserved2 as nat, 2);
        assert(b.subrange(6, 8) =~= le_bytes(self._reserved2 as nat, 2));
        lemma_le_bytes_len(self.valid_data_length as nat, 8);
        lemma_le_value_of_bytes(self.valid_data_length as nat, 8);
        assert(b.subrange(8, 16) =~= le_bytes(self.valid_data_length as nat, 8));
        lemma_le_bytes_len(self._reserved3 as nat, 4);
        lemma_le_value_of_bytes(self._reserved3 as nat, 4);
        assert(b.subrange(16, 20) =~= le_bytes(self._reserved3 as nat, 4));
        lemma_le_bytes_len(self.first_cluster as nat, 4);
        lemma_le_value_of_bytes(self.first_cluster as nat, 4);
        assert(b.subrange(20, 24) =~= le_bytes(self.first_cluster as nat, 4));
        lemma_le_bytes_len(self.data_len as nat, 8);
        lemma_le_value_of_bytes(self.data_len as nat, 8);
        assert(b.subrange(24, 32) =~= le_bytes(self.data_len as nat, 8));
    }

    /// The bytes of an entry spell one entry only.
    pub proof fn lemma_parses_unique(self, other: StreamExtensionEntry, b: Seq<u8>)
        requires
            self.parses(b),
            other.parses(b),
        ensures
            self == other,
    {
    }
}

/// An entry of a file set that holds up to 15 code units of the name.
#[derive(Copy, Clone, Debug, PartialEq, Eq)]
pub struct FileNameEntry {
    /// Must not say that an allocation is possible.
    pub general_secondary_flags: GeneralSecondaryFlags,
    /// Code units of the name, least significant byte first.
    pub file_name: [u8; 30],
}

impl FileNameEntry {
    /// The 31 bytes of the entry behind its type byte: the fields in their
    /// order, integers least significant byte first.
    pub open spec fn spec_payload(self) -> Seq<u8> {
        seq![self.general_secondary_flags.0] + self.file_name@
    }

    /// Whether the fields are what the 32 bytes `b` of an entry spell.
    pub open spec fn parses(self, b: Seq<u8>) -> bool {
        &&& self.general_secondary_flags.0 == b[1]
        &&& self.file_name@ == b.subrange(2, 32)
    }

    /// Appends the 31 bytes of the entry behind its type byte.
    pub fn put(&self, out: &mut Vec<u8>)
        ensures
            final(out)@ == old(out)@ + self.spec_payload(),
            self.spec_payload().len() == 31,
    {
        out.push(self.general_secondary_flags.0);
        assert(out@ =~= old(out)@ + seq![self.general_secondary_flags.0]);
        put_bytes(out, &self.file_name);
        assert(out@ =~= old(out)@ + seq![self.general_secondary_flags.0] + self.file_name@);
        proof {
            self.lemma_payload_len();
        }
        assert(out@ =~= old(out)@ + self.spec_payload());
    }

    /// The payload always takes 31 bytes.
    pub proof fn lemma_payload_len(self)
        ensures
            self.spec_payload().len() == 31,
    {
    }

    /// The fields that the 32 bytes `b` of an entry spell.
    pub fn parse(b: &[u8]) -> (r: FileNameEntry)
        requires
            b@.len() == 32,
        ensures
            r.parses(b@),
    {
        FileNameEntry {
            general_secondary_flags: GeneralSecondaryFlags(b[1]),
            file_name: take_array::<30>(b, 2),
        }
    }

    /// Fields that were read from an entry's bytes spell the bytes that they
    /// were read from.
    pub proof fn lemma_payload_of_parsed(self, b: Seq<u8>)
        requires
            b.len() == 32,
            self.parses(b),
        ensures
            self.spec_payload() == b.subrange(1, 32),
    {
        self.lemma_payload_len();
        assert(self.spec_payload() =~= b.subrange(1, 32));
    }

    /// The bytes that the fields spell, behind any type byte, spell the fields.
    pub proof fn lemma_parses_payload(self, t: u8)
        ensures
            self.parses(seq![t] + self.spec_payload()),
    {
        let b = seq![t] + self.spec_payload();
        self.lemma_payload_len();
        lemma_byte_limits();
        assert(b.subrange(2, 32) =~= self.file_name@);
    }

    /// The bytes of an entry spell one entry only.
    pub proof fn lemma_parses_unique(self, other: FileNameEntry, b: Seq<u8>)
        requires
            self.parses(b),
            other.parses(b),
        ensures
            self == other,
    {
        assert(self.file_name =~= other.file_name);
    }
}

/// A vendor's entry without an allocation.
#[derive(Copy, Clone, Debug, PartialEq, Eq)]
pub struct VendorExtensionEntry {
    /// Flags.
    pub general_secondary_flag: u8,
    /// The vendor's GUID.
    pub vendor_guid: u128,
    /// As the vendor defines.
    pub vendor_defined: [u8; 14],
}

impl VendorExtensionEntry {
    /// The 31 bytes of the entry behind its type byte: the fields in their
    /// order, integers least significant byte first.
    pub open spec fn spec_payload(self) -> Seq<u8> {
        seq![self.general_secondary_flag] + le_bytes(self.vendor_guid as nat, 16) + self.vendor_defined@
    }

    /// Whether the fields are what the 32 bytes `b` of an entry spell.
    pub open spec fn parses(self, b: Seq<u8>) -> bool {
        &&& self.general_secondary_flag == b[1]
        &&& self.vendor_guid == le_value(b.subrange(2, 18))
        &&& self.vendor_defined@ == b.subrange(18, 32)
    }

    /// Appends the 31 bytes of the entry behind its type byte.
    pub fn put(&self, out: &mut Vec<u8>)
        ensures
            final(out)@ == old(out)@ + self.spec_payload(),
            self.spec_payload().len() == 31,
    {
        out.push(self.general_secondary_flag);
        assert(out@ =~= old(out)@ + seq![self.general_secondary_flag]);
        put_le(out, self.vendor_guid as u128, 16);
        assert(out@ =~= old(out)@ + seq![self.general_secondary_flag] + le_bytes(self.vendor_guid as nat, 16));
        put_bytes(out, &self.vendor_defined);
        assert(out@ =~= old(out)@ + seq![self.general_secondary_flag] + le_bytes(self.vendor_guid as nat, 16) + self.vendor_defined@);
        proof {
            self.lemma_payload_len();
        }
        assert(out@ =~= old(out)@ + self.spec_payload());
    }

    /// The payload always takes 31 bytes.
    pub proof fn lemma_payload_len(self)
        ensures
            self.spec_payload().len() == 31,
    {
        lemma_le_bytes_len(self.vendor_guid as nat, 16);
    }

    /// The fields that the 32 bytes `b` of an entry spell.
    pub fn parse(b: &[u8]) -> (r: VendorExtensionEntry)
        requires
            b@.len() == 32,
        ensures
            r.parses(b@),
    {
        VendorExtensionEntry {
            general_secondary_flag: b[1],
            vendor_guid: get_u128(b, 2),
            vendor_defined: take_array::<14>(b, 18),
        }
    }

    /// Fields that were read from an entry's bytes spell the bytes that they
    /// were read from.
    pub proof fn lemma_payload_of_parsed(self, b: Seq<u8>)
        requires
            b.len() == 32,
            self.parses(b),
        ensures
            self.spec_payload() == b.subrange(1, 32),
    {
        lemma_le_bytes_of_value(b.subrange(2, 18));
        self.lemma_payload_len();
        assert(self.spec_payload() =~= b.subrange(1, 32));
    }

    /// The bytes that the fields spell, behind any type byte, spell the fields.
    pub proof fn lemma_parses_payload(self, t: u8)
        ensures
            self.parses(seq![t] + self.spec_payload()),
    {
        let b = seq![t] + self.spec_payload();
        self.lemma_payload_len();
        lemma_byte_limits();
        lemma_le_bytes_len(self.vendor_guid as nat, 16);
        lemma_le_value_of_bytes(self.vendor_guid as nat, 16);
        assert(b.subrange(2, 18) =~= le_bytes(self.vendor_guid as nat, 16));
        assert(b.subrange(18, 32) =~= self.vendor_defined@);
    }

    /// The bytes of an entry spell one entry only.
    pub proof fn lemma_parses_unique(self, other: VendorExtensionEntry, b: Seq<u8>)
        requires
            self.parses(b),
            other.parses(b),
        ensures
            self == other,
    {
        assert(self.vendor_defined =~= other.vendor_defined);
    }
}

/// A vendor's entry with an allocation.
#[derive(Copy, Clone, Debug, PartialEq, Eq)]
pub struct VendorAllocationEntry {
    /// Flags.
    pub general_secondary_flag: u8,
    /// The vendor's GUID.
    pub vendor_guid: u128,
    /// As the vendor defines.
    pub vendor_defined: u16,
    /// Index of the first cluster of the allocation.
    pub first_cluster: u32,
    /// Length of the allocation, in bytes.
    pub data_len: u64,
}

impl VendorAllocationEntry {
    /// The 31 bytes of the entry behind its type byte: the fields in their
    /// order, integers least significant byte first.
    pub open spec fn spec_payload(self) -> Seq<u8> {
        seq![self.general_secondary_flag] + le_bytes(self.vendor_guid as nat, 16) + le_bytes(self.vendor_defined as nat, 2) + le_bytes(self.first_cluster as nat, 4) + le_bytes(self.data_len as nat, 8)
    }

    /// Whether the fields are what the 32 bytes `b` of an entry spell.
    pub open spec fn parses(self, b: Seq<u8>) -> bool {
        &&& self.general_secondary_flag == b[1]
        &&& self.vendor_guid == le_value(b.subrange(2, 18))
        &&& self.vendor_defined == le_value(b.subrange(18, 20))
        &&& self.first_cluster == le_value(b.subrange(20, 24))
        &&& self.data_len == le_value(b.subrange(24, 32))
    }

    /// Appends the 31 bytes of the entry behind its type byte.
    pub fn put(&self, out: &mut Vec<u8>)
        ensures
            final(out)@ == old(out)@ + self.spec_payload(),
            self.spec_payload().len() == 31,
    {
        out.push(self.general_secondary_flag);
        assert(out@ =~= old(out)@ + seq![self.general_secondary_flag]);
        put_le(out, self.vendor_guid as u128, 16);
        assert(out@ =~= old(out)@ + seq![self.general_secondary_flag] + le_bytes(self.vendor_guid as nat, 16));
        put_le(out, self.vendor_defined as u128, 2);
        assert(out@ =~= old(out)@ + seq![self.general_secondary_flag] + le_bytes(self.vendor_guid as nat, 16) + le_bytes(self.vendor_defined as nat, 2));
        put_le(out, self.first_cluster as u128, 4);
        assert(out@ =~= old(out)@ + seq![self.general_secondary_flag] + le_bytes(self.vendor_guid as nat, 16) + le_bytes(self.vendor_defined as nat, 2) + le_bytes(self.first_cluster as nat, 4));
        put_le(out, self.data_len as u128, 8);
        assert(out@ =~= old(out)@ + seq![self.general_secondary_flag] + le_bytes(self.vendor_guid as nat, 16) + le_bytes(self.vendor_defined as nat, 2) + le_bytes(self.first_cluster as nat, 4) + le_bytes(self.data_len as nat, 8));
        proof {
            self.lemma_payload_len();
        }
        assert(out@ =~= old(out)@ + self.spec_payload());
    }

    /// The payload always takes 31 bytes.
    pub proof fn lemma_payload_len(self)
        ensures
            self.spec_payload().len() == 31,
    {
        lemma_le_bytes_len(self.vendor_guid as nat, 16);
        lemma_le_bytes_len(self.vendor_defined as nat, 2);
        lemma_le_bytes_len(self.first_cluster as nat, 4);
        lemma_le_bytes_len(self.data_len as nat, 8);
    }

    /// The fields that the 32 bytes `b` of an entry spell.
    pub fn parse(b: &[u8]) -> (r: VendorAllocationEntry)
        requires
            b@.len() == 32,
        ensures
            r.parses(b@),
    {
        VendorAllocationEntry {
            general_secondary_flag: b[1],
            vendor_guid: get_u128(b, 2),
            vendor_defined: get_u16(b, 18),
            first_cluster: get_u32(b, 20),
            data_len: get_u64(b, 24),
        }
    }

    /// Fields that were read from an entry's bytes spell the bytes that they
    /// were read from.
    pub proof fn lemma_payload_of_parsed(self, b: Seq<u8>)
        requires
            b.len() == 32,
            self.parses(b),
        ensures
            self.spec_payload() == b.subrange(1, 32),
    {
        lemma_le_bytes_of_value(b.subrange(2, 18));
        lemma_le_bytes_of_value(b.subrange(18, 20));
        lemma_le_bytes_of_value(b.subrange(20, 24));
        lemma_le_bytes_of_value(b.subrange(24, 32));
        self.lemma_payload_len();
        assert(self.spec_payload() =~= b.subrange(1, 32));
    }

    /// The bytes that the fields spell, behind any type byte, spell the fields.
    pub proof fn lemma_parses_payload(self, t: u8)
        ensures
            self.parses(seq![t] + self.spec_payload()),
    {
        let b = seq![t] + self.spec_payload();
        self.lemma_payload_len();
        lemma_byte_limits();
        lemma_le_bytes_len(self.vendor_guid as nat, 16);
        lemma_le_value_of_bytes(self.vendor_guid as nat, 16);
        assert(b.subrange(2, 18) =~= le_bytes(self.vendor_guid as nat, 16));
        lemma_le_bytes_len(self.vendor_defined as nat, 2);
        lemma_le_value_of_bytes(self.vendor_defined as nat, 2);
        assert(b.subrange(18, 20) =~= le_bytes(self.vendor_defined as nat, 2));
        lemma_le_bytes_len(self.first_cluster as nat, 4);
        lemma_le_value_of_bytes(self.first_cluster as nat, 4);
        assert(b.subrange(20, 24) =~= le_bytes(self.first_cluster as nat, 4));
        lemma_le_bytes_len(self.data_len as nat, 8);
        lemma_le_value_of_bytes(self.data_len as nat, 8);
        assert(b.subrange(24, 32) =~= le_bytes(self.data_len as nat, 8));
    }

    /// The bytes of an entry spell one entry only.
    pub proof fn lemma_parses_unique(self, other: VendorAllocationEntry, b: Seq<u8>)
        requires
            self.parses(b),
            other.parses(b),
        ensures
            self == other,
    {
    }
}

impl BitmapEntry {
    /// The entry of the first allocation bitmap, which starts at the heap's
    /// first cluster and is `data_len` bytes long.
    pub fn new(data_len: u64) -> (r: BitmapEntry)
        ensures
            r.flags == 0,
            r._reserved@ == Seq::new(18, |i: int| 0u8),
            r.first_cluster == FIRST_USABLE_CLUSTER_INDEX,
            r.data_len == data_len,
    {
        let zeros: [u8; 18] = [0u8; 18];
        assert(zeros@ =~= Seq::new(18, |i: int| 0u8));
        BitmapEntry {
            flags: 0,
            _reserved: zeros,
            first_cluster: FIRST_USABLE_CLUSTER_INDEX,
            data_len,
        }
    }

    pub open spec fn spec_index(&self) -> u8 {
        self.flags & 1
    }

    /// Which of the two bitmaps the entry stands for, 0 or 1.
    pub fn index(&self) -> (r: u8)
        ensures
            r == self.spec_index(),
            r <= 1,
    {
        let flags: u8 = self.flags;
        assert(flags & 1 <= 1) by (bit_vector);
        flags & 1
    }
}

impl ClusterAllocation for BitmapEntry {
    open spec fn spec_valid(&self) -> bool {
        self.first_cluster >= 2
    }

    fn valid(&self) -> (r: bool) {
        !(self.first_cluster == 0 && self.data_len != 0 || self.first_cluster < 2)
    }
}

impl UpcaseTableEntry {
    /// The entry of the default up-case table, stored from cluster
    /// `first_cluster` on.
    pub fn new(first_cluster: u32) -> (r: UpcaseTableEntry)
        ensures
            r._reserved1@ == Seq::new(3, |i: int| 0u8),
            r.table_checksum == DEFAULT_UPCASE_TABLE_CHECKSUM,
            r._reserved2@ == Seq::new(12, |i: int| 0u8),
            r.first_cluster == first_cluster,
            r.data_len == DEFAULT_UPCASE_TABLE_LENGTH,
    {
        let zeros3: [u8; 3] = [0u8; 3];
        let zeros12: [u8; 12] = [0u8; 12];
        assert(zeros3@ =~= Seq::new(3, |i: int| 0u8));
        assert(zeros12@ =~= Seq::new(12, |i: int| 0u8));
        UpcaseTableEntry {
            _reserved1: zeros3,
            table_checksum: DEFAULT_UPCASE_TABLE_CHECKSUM,
            _reserved2: zeros12,
            first_cluster,
            data_len: DEFAULT_UPCASE_TABLE_LENGTH,
        }
    }
}

impl ClusterAllocation for UpcaseTableEntry {
    open spec fn spec_valid(&self) -> bool {
        self.first_cluster >= 2
    }

    fn valid(&self) -> (r: bool) {
        !(self.first_cluster == 0 && self.data_len != 0 || self.first_cluster < 2)
    }
}

impl VolumeLabelEntry {
    /// The entry of a volume label.
    pub fn new(label: Label) -> (r: VolumeLabelEntry)
        ensures
            r.character_count == label.1,
            r.volume_label == label.0,
            r._reserved == 0,
    {
        VolumeLabelEntry { character_count: label.1, volume_label: label.0, _reserved: 0 }
    }
}

impl VolumeGuidEntry {
    /// The entry of a volume GUID, with its checksum.
    pub fn new(volume_guid: u128) -> (r: VolumeGuidEntry)
        ensures
            r.secondary_count == 0,
            r.general_primary_flag == 0,
            r.volume_guid == volume_guid,
            r._reserved@ == Seq::new(10, |i: int| 0u8),
            r.set_checksum == set_checksum(0, DirEntry::VolumeGuid(r).spec_bytes()),
    {
        let zeros: [u8; 10] = [0u8; 10];
        assert(zeros@ =~= Seq::new(10, |i: int| 0u8));
        let blank = VolumeGuidEntry {
            secondary_count: 0,
            set_checksum: 0,
            general_primary_flag: 0,
            volume_guid,
            _reserved: zeros,
        };
        let sum: u16 = DirEntry::VolumeGuid(blank).checksum(0);
        let done = VolumeGuidEntry {
            secondary_count: 0,
            set_checksum: sum,
            general_primary_flag: 0,
            volume_guid,
            _reserved: zeros,
        };
        proof {
            let a = DirEntry::VolumeGuid(blank).spec_bytes();
            let b = DirEntry::VolumeGuid(done).spec_bytes();
            blank.lemma_payload_len();
            done.lemma_payload_len();
            lemma_le_bytes_len(0, 2);
            lemma_le_bytes_len(sum as nat, 2);
            assert(0xA0u8 & 0x40 == 0) by (bit_vector);
            assert forall|i: int| 0 <= i < 32 && i != 2 && i != 3 implies a[i] == b[i] by {
                assert(a.subrange(4, 32) =~= b.subrange(4, 32));
                if i >= 4 {
                    assert(a[i] == a.subrange(4, 32)[i - 4]);
                    assert(b[i] == b.subrange(4, 32)[i - 4]);
                }
            }
            lemma_set_checksum_skips(0, a, b, 32);
            assert(a.take(32) =~= a);
            assert(b.take(32) =~= b);
        }
        done
    }
}

impl ClusterAllocation for StreamExtensionEntry {
    open spec fn spec_valid(&self) -> bool {
        &&& self.first_cluster >= 2
        &&& self.general_secondary_flags.spec_allocation_possible()
        &&& self.name_length > 0
        &&& self.valid_data_length <= self.data_len
    }

    fn valid(&self) -> (r: bool) {
        !(self.first_cluster == 0 && self.data_len != 0 || self.first_cluster < 2)
            && self.general_secondary_flags.allocation_possible() && self.name_length > 0
            && self.valid_data_length <= self.data_len
    }
}

/// One step of an entry set's checksum: the sum rotated right by one bit,
/// plus the byte, in 16-bit arithmetic that wraps.
pub open spec fn sum_step(sum: u16, b: u8) -> u16 {
    (((sum % 2) * 0x8000 + sum / 2 + b) % 0x1_0000) as u16
}

/// Whether the byte at index `i` of an entry of the given type stays out of
/// the checksum: the two bytes in which a primary entry keeps the checksum.
pub open spec fn skips_own_checksum(entry_type: u8, i: int) -> bool {
    entry_type & 0x40 == 0 && (i == 2 || i == 3)
}

/// The checksum of the first bytes of an entry, taken up from `sum`.
pub open spec fn set_checksum(sum: u16, bytes: Seq<u8>) -> u16
    decreases bytes.len(),
{
    if bytes.len() == 0 {
        sum
    } else if skips_own_checksum(bytes[0], bytes.len() - 1) {
        set_checksum(sum, bytes.drop_last())
    } else {
        sum_step(set_checksum(sum, bytes.drop_last()), bytes.last())
    }
}

/// The checksum of a primary entry does not depend on the bytes in which the
/// entry keeps it.
pub proof fn lemma_set_checksum_skips(sum: u16, a: Seq<u8>, b: Seq<u8>, n: int)
    requires
        0 <= n <= a.len(),
        a.len() == b.len(),
        a.len() > 0 ==> a[0] & 0x40 == 0,
        forall|i: int| 0 <= i < a.len() && i != 2 && i != 3 ==> a[i] == b[i],
    ensures
        set_checksum(sum, a.take(n)) == set_checksum(sum, b.take(n)),
    decreases n,
{
    if n > 0 {
        lemma_set_checksum_skips(sum, a, b, n - 1);
        assert(a.take(n).drop_last() =~= a.take(n - 1));
        assert(b.take(n).drop_last() =~= b.take(n - 1));
    }
}

/// Whether a type byte is one that entries are read with.
pub open spec fn recognised_type(t: u8) -> bool {
    t <= 0x83 || t == 0x85 || t == 0xA0 || t == 0xC0 || t == 0xC1 || t == 0xE0 || t == 0xE1
}

/// The entry that 32 bytes with a recognised type byte spell.
pub open spec fn decoded(b: Seq<u8>) -> DirEntry {
    choose|e: DirEntry| e.parses(b)
}

/// A directory entry.
#[derive(Copy, Clone, Debug, PartialEq, Eq)]
pub enum DirEntry {
    /// The end of the directory; type `0x00`.
    EndOfDirectory([u8; 31]),
    /// A slot that is not in use, with its type byte, `0x01` to `0x7F`.
    Unused(u8, [u8; 31]),
    /// The type `0x80`, which no entry has.
    Invalid([u8; 31]),
    /// Type `0x81`.
    Bitmap(BitmapEntry),
    /// Type `0x82`.
    UpcaseTable(UpcaseTableEntry),
    /// Type `0x83`.
    VolumeLabel(VolumeLabelEntry),
    /// Type `0x85`.
    File(FileEntry),
    /// Type `0xA0`.
    VolumeGuid(VolumeGuidEntry),
    /// Type `0xC0`.
    StreamExtension(StreamExtensionEntry),
    /// Type `0xC1`.
    FileName(FileNameEntry),
    /// Type `0xE0`.
    VendorExtension(VendorExtensionEntry),
    /// Type `0xE1`.
    VendorAllocation(VendorAllocationEntry),
}

impl DirEntry {
    /// The entry's type byte.
    pub open spec fn spec_entry_type(self) -> u8 {
        match self {
            DirEntry::EndOfDirectory(_) => 0x00,
            DirEntry::Unused(t, _) => t,
            DirEntry::Invalid(_) => 0x80,
            DirEntry::Bitmap(_) => 0x81,
            DirEntry::UpcaseTable(_) => 0x82,
            DirEntry::VolumeLabel(_) => 0x83,
            DirEntry::File(_) => 0x85,
            DirEntry::VolumeGuid(_) => 0xA0,
            DirEntry::StreamExtension(_) => 0xC0,
            DirEntry::FileName(_) => 0xC1,
            DirEntry::VendorExtension(_) => 0xE0,
            DirEntry::VendorAllocation(_) => 0xE1,
        }
    }

    /// The 31 bytes behind the type byte.
    pub open spec fn spec_payload(self) -> Seq<u8> {
        match self {
            DirEntry::EndOfDirectory(p) => p@,
            DirEntry::Unused(_, p) => p@,
            DirEntry::Invalid(p) => p@,
            DirEntry::Bitmap(e) => e.spec_payload(),
            DirEntry::UpcaseTable(e) => e.spec_payload(),
            DirEntry::VolumeLabel(e) => e.spec_payload(),
            DirEntry::File(e) => e.spec_payload(),
            DirEntry::VolumeGuid(e) => e.spec_payload(),
            DirEntry::StreamExtension(e) => e.spec_payload(),
            DirEntry::FileName(e) => e.spec_payload(),
            DirEntry::VendorExtension(e) => e.spec_payload(),
            DirEntry::VendorAllocation(e) => e.spec_payload(),
        }
    }

    /// The entry's 32 bytes.
    pub open spec fn spec_bytes(self) -> Seq<u8> {
        seq![self.spec_entry_type()] + self.spec_payload()
    }

    /// Whether the entry is what the 32 bytes `b` spell: the variant goes by
    /// the type byte, the fields by the bytes behind it.
    pub open spec fn parses(self, b: Seq<u8>) -> bool {
        &&& self.spec_entry_type() == b[0]
        &&& match self {
            DirEntry::EndOfDirectory(p) => p@ == b.subrange(1, 32),
            DirEntry::Unused(t, p) => 0x01 <= t <= 0x7F && p@ == b.subrange(1, 32),
            DirEntry::Invalid(p) => p@ == b.subrange(1, 32),
            DirEntry::Bitmap(e) => e.parses(b),
            DirEntry::UpcaseTable(e) => e.parses(b),
            DirEntry::VolumeLabel(e) => e.parses(b),
            DirEntry::File(e) => e.parses(b),
            DirEntry::VolumeGuid(e) => e.parses(b),
            DirEntry::StreamExtension(e) => e.parses(b),
            DirEntry::FileName(e) => e.parses(b),
            DirEntry::VendorExtension(e) => e.parses(b),
            DirEntry::VendorAllocation(e) => e.parses(b),
        }
    }

    /// An entry that was read from 32 bytes spells the bytes that it was read
    /// from.
    pub proof fn lemma_bytes_of_parsed(self, b: Seq<u8>)
        requires
            b.len() == 32,
            self.parses(b),
        ensures
            self.spec_bytes() == b,
    {
        match self {
            DirEntry::EndOfDirectory(p) => {},
            DirEntry::Unused(t, p) => {},
            DirEntry::Invalid(p) => {},
            DirEntry::Bitmap(e) => e.lemma_payload_of_parsed(b),
            DirEntry::UpcaseTable(e) => e.lemma_payload_of_parsed(b),
            DirEntry::VolumeLabel(e) => e.lemma_payload_of_parsed(b),
            DirEntry::File(e) => e.lemma_payload_of_parsed(b),
            DirEntry::VolumeGuid(e) => e.lemma_payload_of_parsed(b),
            DirEntry::StreamExtension(e) => e.lemma_payload_of_parsed(b),
            DirEntry::FileName(e) => e.lemma_payload_of_parsed(b),
            DirEntry::VendorExtension(e) => e.lemma_payload_of_parsed(b),
            DirEntry::VendorAllocation(e) => e.lemma_payload_of_parsed(b),
        }
        assert(self.spec_bytes() =~= b);
    }

    /// The bytes that an entry spells are 32, and they spell the entry.
    pub proof fn lemma_parses_bytes(self)
        requires
            self matches DirEntry::Unused(t, _) ==> 0x01 <= t <= 0x7F,
        ensures
            self.spec_bytes().len() == 32,
            self.parses(self.spec_bytes()),
    {
        let t = self.spec_entry_type();
        let b = self.spec_bytes();
        match self {
            DirEntry::EndOfDirectory(p) => {
                assert(b.subrange(1, 32) =~= p@);
            },
            DirEntry::Unused(_, p) => {
                assert(b.subrange(1, 32) =~= p@);
            },
            DirEntry::Invalid(p) => {
                assert(b.subrange(1, 32) =~= p@);
            },
            DirEntry::Bitmap(e) => {
                e.lemma_parses_payload(t);
                e.lemma_payload_len();
            },
            DirEntry::UpcaseTable(e) => {
                e.lemma_parses_payload(t);
                e.lemma_payload_len();
            },
            DirEntry::VolumeLabel(e) => {
                e.lemma_parses_payload(t);
                e.lemma_payload_len();
            },
            DirEntry::File(e) => {
                e.lemma_parses_payload(t);
                e.lemma_payload_len();
            },
            DirEntry::VolumeGuid(e) => {
                e.lemma_parses_payload(t);
                e.lemma_payload_len();
            },
            DirEntry::StreamExtension(e) => {
                e.lemma_parses_payload(t);
                e.lemma_payload_len();
            },
            DirEntry::FileName(e) => {
                e.lemma_parses_payload(t);
                e.lemma_payload_len();
            },
            DirEntry::VendorExtension(e) => {
                e.lemma_parses_payload(t);
                e.lemma_payload_len();
            },
            DirEntry::VendorAllocation(e) => {
                e.lemma_parses_payload(t);
                e.lemma_payload_len();
            },
        }
    }

    /// The bytes of an entry spell one entry only.
    pub proof fn lemma_parses_unique(self, other: DirEntry, b: Seq<u8>)
        requires
            self.parses(b),
            other.parses(b),
        ensures
            self == other,
    {
        match (self, other) {
            (DirEntry::EndOfDirectory(p), DirEntry::EndOfDirectory(q)) => {
                assert(p =~= q);
            },
            (DirEntry::Unused(_, p), DirEntry::Unused(_, q)) => {
                assert(p =~= q);
            },
            (DirEntry::Invalid(p), DirEntry::Invalid(q)) => {
                assert(p =~= q);
            },
            (DirEntry::Bitmap(e), DirEntry::Bitmap(f)) => e.lemma_parses_unique(f, b),
            (DirEntry::UpcaseTable(e), DirEntry::UpcaseTable(f)) => e.lemma_parses_unique(f, b),
            (DirEntry::VolumeLabel(e), DirEntry::VolumeLabel(f)) => e.lemma_parses_unique(f, b),
            (DirEntry::File(e), DirEntry::File(f)) => e.lemma_parses_unique(f, b),
            (DirEntry::VolumeGuid(e), DirEntry::VolumeGuid(f)) => e.lemma_parses_unique(f, b),
            (DirEntry::StreamExtension(e), DirEntry::StreamExtension(f)) => e.lemma_parses_unique(
                f,
                b,
            ),
            (DirEntry::FileName(e), DirEntry::FileName(f)) => e.lemma_parses_unique(f, b),
            (DirEntry::VendorExtension(e), DirEntry::VendorExtension(f)) => e.lemma_parses_unique(
                f,
                b,
            ),
            (DirEntry::VendorAllocation(e), DirEntry::VendorAllocation(f)) => e.lemma_parses_unique(
                f,
                b,
            ),
            _ => {},
        }
    }

    /// The entry that is read from the given bytes is the entry that they
    /// spell.
    pub proof fn lemma_decoded(self, b: Seq<u8>)
        requires
            self.parses(b),
        ensures
            decoded(b) == self,
    {
        let d = decoded(b);
        assert(d.parses(b));
        d.lemma_parses_unique(self, b);
    }

    /// Reads an entry from its 32 bytes. The type bytes `0x00` to `0x83`,
    /// `0x85`, `0xA0`, `0xC0`, `0xC1`, `0xE0` and `0xE1` are recognised; any
    /// other is an error. The entry that comes out spells the bytes that went
    /// in.
    pub fn try_from(value: [u8; 32]) -> (r: Result<DirEntry, DirEntryError>)
        ensures
            match r {
                Ok(e) => recognised_type(value@[0]) && e.parses(value@) && e.spec_bytes() == value@,
                Err(e) => !recognised_type(value@[0]) && e == DirEntryError::InvalidEntry(value@[0]),
            },
    {
        let b: &[u8] = value.as_slice();
        let t: u8 = b[0];
        let entry: DirEntry = if t == 0x00 {
            DirEntry::EndOfDirectory(take_array::<31>(b, 1))
        } else if t < 0x80 {
            DirEntry::Unused(t, take_array::<31>(b, 1))
        } else if t == 0x80 {
            DirEntry::Invalid(take_array::<31>(b, 1))
        } else if t == 0x81 {
            DirEntry::Bitmap(BitmapEntry::parse(b))
        } else if t == 0x82 {
            DirEntry::UpcaseTable(UpcaseTableEntry::parse(b))
        } else if t == 0x83 {
            DirEntry::VolumeLabel(VolumeLabelEntry::parse(b))
        } else if t == 0x85 {
            DirEntry::File(FileEntry::parse(b))
        } else if t == 0xA0 {
            DirEntry::VolumeGuid(VolumeGuidEntry::parse(b))
        } else if t == 0xC0 {
            DirEntry::StreamExtension(StreamExtensionEntry::parse(b))
        } else if t == 0xC1 {
            DirEntry::FileName(FileNameEntry::parse(b))
        } else if t == 0xE0 {
            DirEntry::VendorExtension(VendorExtensionEntry::parse(b))
        } else if t == 0xE1 {
            DirEntry::VendorAllocation(VendorAllocationEntry::parse(b))
        } else {
            return Err(DirEntryError::InvalidEntry(t));
        };
        proof {
            entry.lemma_bytes_of_parsed(value@);
        }
        Ok(entry)
    }

    /// The entry's type byte.
    pub fn entry_type(&self) -> (r: u8)
        ensures
            r == self.spec_entry_type(),
    {
        match self {
            DirEntry::EndOfDirectory(_) => 0x00,
            DirEntry::Unused(t, _) => *t,
            DirEntry::Invalid(_) => 0x80,
            DirEntry::Bitmap(_) => 0x81,
            DirEntry::UpcaseTable(_) => 0x82,
            DirEntry::VolumeLabel(_) => 0x83,
            DirEntry::File(_) => 0x85,
            DirEntry::VolumeGuid(_) => 0xA0,
            DirEntry::StreamExtension(_) => 0xC0,
            DirEntry::FileName(_) => 0xC1,
            DirEntry::VendorExtension(_) => 0xE0,
            DirEntry::VendorAllocation(_) => 0xE1,
        }
    }

    /// Whether the entry is in use and of a type of its own.
    pub fn regular(&self) -> (r: bool)
        ensures
            r == (self.spec_entry_type() >= 0x81),
    {
        self.entry_type() >= 0x81
    }

    /// Whether the entry is a primary one.
    pub fn primary(&self) -> (r: bool)
        ensures
            r == (self.spec_entry_type() & 0x40 == 0),
    {
        (self.entry_type() & 0x40) == 0
    }

    /// Whether the entry is a slot that is not in use.
    pub fn unused(&self) -> (r: bool)
        ensures
            r == (0x00 < self.spec_entry_type() < 0x80),
    {
        self.entry_type() > 0x00 && self.entry_type() < 0x80
    }

    /// The slot that an entry of the given type leaves when it goes out of
    /// use: all zero behind the type byte, which loses its in-use bit.
    pub fn new_unused(entry_type: u8) -> (r: DirEntry)
        ensures
            r.spec_entry_type() == entry_type % 128,
            r.spec_payload() == Seq::new(31, |i: int| 0u8),
            r is Unused || r is EndOfDirectory,
    {
        let zeros: [u8; 31] = [0u8; 31];
        assert(zeros@ =~= Seq::new(31, |i: int| 0u8));
        let t: u8 = entry_type % 128;
        if t == 0 {
            DirEntry::EndOfDirectory(zeros)
        } else {
            DirEntry::Unused(t, zeros)
        }
    }

    /// The entry's 32 bytes.
    pub fn bytes(&self) -> (r: [u8; 32])
        ensures
            r@ == self.spec_bytes(),
    {
        let mut out: Vec<u8> = Vec::new();
        out.push(self.entry_type());
        match self {
            DirEntry::EndOfDirectory(p) => put_bytes(&mut out, p),
            DirEntry::Unused(_, p) => put_bytes(&mut out, p),
            DirEntry::Invalid(p) => put_bytes(&mut out, p),
            DirEntry::Bitmap(e) => e.put(&mut out),
            DirEntry::UpcaseTable(e) => e.put(&mut out),
            DirEntry::VolumeLabel(e) => e.put(&mut out),
            DirEntry::File(e) => e.put(&mut out),
            DirEntry::VolumeGuid(e) => e.put(&mut out),
            DirEntry::StreamExtension(e) => e.put(&mut out),
            DirEntry::FileName(e) => e.put(&mut out),
            DirEntry::VendorExtension(e) => e.put(&mut out),
            DirEntry::VendorAllocation(e) => e.put(&mut out),
        }
        assert(out@ =~= self.spec_bytes());
        let r: [u8; 32] = take_array::<32>(out.as_slice(), 0);
        assert(out@.subrange(0, 32) =~= out@);
        r
    }

    /// The checksum of an entry set up to and with this entry, taken up from
    /// the checksum `input` of the entries ahead of it. A primary entry's own
    /// checksum field stays out of the sum.
    pub fn checksum(&self, input: u16) -> (r: u16)
        ensures
            r == set_checksum(input, self.spec_bytes()),
    {
        let bytes: [u8; 32] = self.bytes();
        let mut sum: u16 = input;
        let primary: bool = (bytes[0] & 0x40) == 0;
        let mut i: usize = 0;
        assert(bytes@.take(0) =~= Seq::<u8>::empty());
        while i < 32
            invariant
                i <= 32,
                bytes@.len() == 32,
                primary == (bytes@[0] & 0x40 == 0),
                sum == set_checksum(input, bytes@.take(i as int)),
            decreases 32 - i,
        {
            assert(bytes@.take(i + 1).drop_last() =~= bytes@.take(i as int));
            if !(primary && (i == 2 || i == 3)) {
                let rotated: u32 = (sum % 2) as u32 * 0x8000 + (sum / 2) as u32;
                sum = ((rotated + bytes[i] as u32) % 0x1_0000) as u16;
            }
            i = i + 1;
        }
        assert(bytes@.take(32) =~= bytes@);
        sum
    }
}

} // verus!
