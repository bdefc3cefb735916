//! Formatting: the options, the volume's geometry and the writer that emits
//! the volume.

use crate::arith::{is_power_of_two, log2_exact};
use crate::boot_sector::{
    BootParameters, BootSector, BootValues, FileSystemRevision, VolumeFlags, VolumeSerialNumber,
    BOOT_SIGNATURE, DRIVE_SELECT, FILESYSTEM_NAME, JUMP_BOOT, PERCENT_IN_USE_UNKNOWN,
};
use crate::error::{ErrorMessage, ExfatFormatError};
use crate::format::geometry::{
    default_cluster_size, spec_default_cluster_size, spec_solve, valid_sector_size, Geometry,
    GeometryRequest,
};
use crate::format::laws::{lemma_default_cluster_size, lemma_smallest_volume};
use crate::label::Label;
use crate::DEFAULT_BOUNDARY_ALIGNEMENT;
use vstd::prelude::*;
use vstd::string::StringExecFns;

pub mod boot;
pub mod fat;
pub mod geometry;
pub mod image;
pub mod image_laws;
pub mod laws;
pub mod write;

verus! {

/// The options of formatting a volume. They are made by a
/// [`FormatVolumeOptionsBuilder`], which checks them.
#[derive(Copy, Clone, Debug)]
pub struct FormatVolumeOptions {
    pack_bitmap: bool,
    full_format: bool,
    dev_size: u64,
    label: Label,
    guid: Option<u128>,
    partition_offset: u64,
    bytes_per_sector: u16,
    boundary_align: u32,
}

/// The options as plain values.
pub struct FormatVolumeOptionsView {
    /// Whether the bitmap moves into the gap between the FAT and the heap.
    pub pack_bitmap: bool,
    /// Whether the whole device is zeroed, not only the volume's structures.
    pub full_format: bool,
    /// Size of the device, in bytes.
    pub dev_size: u64,
    /// The volume's label.
    pub label: Label,
    /// The volume's GUID, where it has one.
    pub guid: Option<u128>,
    /// Media-relative offset of the partition, in bytes.
    pub partition_offset: u64,
    /// Size of a sector, in bytes.
    pub bytes_per_sector: u16,
    /// Granularity to which the FAT and the cluster heap are aligned, in bytes.
    pub boundary_align: u32,
}

impl View for FormatVolumeOptions {
    type V = FormatVolumeOptionsView;

    closed spec fn view(&self) -> FormatVolumeOptionsView {
        FormatVolumeOptionsView {
            pack_bitmap: self.pack_bitmap,
            full_format: self.full_format,
            dev_size: self.dev_size,
            label: self.label,
            guid: self.guid,
            partition_offset: self.partition_offset,
            bytes_per_sector: self.bytes_per_sector,
            boundary_align: self.boundary_align,
        }
    }
}

impl FormatVolumeOptionsView {
    /// Whether the options are ones that a builder lets through: the sector
    /// size is a power of two between 512 and 4096, the boundary alignment a
    /// power of two.
    pub open spec fn valid(self) -> bool {
        valid_sector_size(self.bytes_per_sector) && is_power_of_two(self.boundary_align as int)
    }

    /// What the geometry solver is asked for.
    pub open spec fn request(self) -> GeometryRequest {
        GeometryRequest {
            partition_offset: self.partition_offset,
            bytes_per_sector: self.bytes_per_sector,
            bytes_per_cluster: spec_default_cluster_size(self.dev_size),
            size: self.dev_size,
            boundary_align: self.boundary_align,
            pack_bitmap: self.pack_bitmap,
        }
    }
}

impl FormatVolumeOptions {
    /// Whether the bitmap moves into the gap between the FAT and the heap.
    pub fn pack_bitmap(&self) -> (r: bool)
        ensures
            r == self@.pack_bitmap,
    {
        self.pack_bitmap
    }

    /// Whether the whole device is zeroed.
    pub fn full_format(&self) -> (r: bool)
        ensures
            r == self@.full_format,
    {
        self.full_format
    }

    /// Size of the device, in bytes.
    pub fn dev_size(&self) -> (r: u64)
        ensures
            r == self@.dev_size,
    {
        self.dev_size
    }

    /// The volume's label.
    pub fn label(&self) -> (r: Label)
        ensures
            r == self@.label,
    {
        self.label
    }

    /// The volume's GUID, where it has one.
    pub fn guid(&self) -> (r: Option<u128>)
        ensures
            r == self@.guid,
    {
        self.guid
    }

    /// Media-relative offset of the partition, in bytes.
    pub fn partition_offset(&self) -> (r: u64)
        ensures
            r == self@.partition_offset,
    {
        self.partition_offset
    }

    /// Size of a sector, in bytes.
    pub fn bytes_per_sector(&self) -> (r: u16)
        ensures
            r == self@.bytes_per_sector,
    {
        self.bytes_per_sector
    }

    /// Granularity to which the FAT and the cluster heap are aligned.
    pub fn boundary_align(&self) -> (r: u32)
        ensures
            r == self@.boundary_align,
    {
        self.boundary_align
    }

    /// What the geometry solver is asked for.
    pub fn request(&self) -> (r: GeometryRequest)
        ensures
            r == self@.request(),
    {
        GeometryRequest {
            partition_offset: self.partition_offset,
            bytes_per_sector: self.bytes_per_sector,
            bytes_per_cluster: default_cluster_size(self.dev_size),
            size: self.dev_size,
            boundary_align: self.boundary_align,
            pack_bitmap: self.pack_bitmap,
        }
    }
}

/// Why a builder did not give options.
#[derive(Debug, PartialEq, Eq)]
pub enum FormatVolumeOptionsBuilderError {
    /// A field without a default was not set.
    UninitializedField(&'static str),
    /// A field was set to a value that is not allowed.
    ValidationError(String),
}

impl ErrorMessage for FormatVolumeOptionsBuilderError {
    open spec fn text(&self) -> Seq<char> {
        match self {
            FormatVolumeOptionsBuilderError::UninitializedField(field) => "`"@ + field@
                + "` must be initialized"@,
            FormatVolumeOptionsBuilderError::ValidationError(reason) => reason@,
        }
    }

    fn message(&self) -> (r: String) {
        match self {
            FormatVolumeOptionsBuilderError::UninitializedField(field) => String::from_str("`")
                .concat(field)
                .concat("` must be initialized"),
            FormatVolumeOptionsBuilderError::ValidationError(reason) => reason.clone(),
        }
    }
}

/// Collects the options of formatting a volume. The size of the device and
/// the size of a sector must be set; every other option has a default.
#[derive(Copy, Clone, Debug)]
pub struct FormatVolumeOptionsBuilder {
    /// Whether to pack the bitmap, where it was set.
    pub pack_bitmap: Option<bool>,
    /// Whether to zero the whole device, where it was set.
    pub full_format: Option<bool>,
    /// Size of the device, where it was set.
    pub dev_size: Option<u64>,
    /// The label, where it was set.
    pub label: Option<Label>,
    /// The GUID, where it was set.
    pub guid: Option<Option<u128>>,
    /// The partition's offset, where it was set.
    pub partition_offset: Option<u64>,
    /// The sector size, where it was set.
    pub bytes_per_sector: Option<u16>,
    /// The boundary alignment, where it was set.
    pub boundary_align: Option<u32>,
}

impl Default for FormatVolumeOptionsBuilder {
    /// A builder in which nothing is set.
    fn default() -> (r: FormatVolumeOptionsBuilder)
        ensures
            r.pack_bitmap.is_none(),
            r.full_format.is_none(),
            r.dev_size.is_none(),
            r.label.is_none(),
            r.guid.is_none(),
            r.partition_offset.is_none(),
            r.bytes_per_sector.is_none(),
            r.boundary_align.is_none(),
    {
        FormatVolumeOptionsBuilder {
            pack_bitmap: None,
            full_format: None,
            dev_size: None,
            label: None,
            guid: None,
            partition_offset: None,
            bytes_per_sector: None,
            boundary_align: None,
        }
    }
}

impl FormatVolumeOptionsBuilder {
    /// Whether to pack the bitmap right behind the FAT. Defaults to `true`.
    pub fn pack_bitmap(self, value: bool) -> (r: FormatVolumeOptionsBuilder)
        ensures
            r == (FormatVolumeOptionsBuilder { pack_bitmap: Some(value), ..self }),
    {
        FormatVolumeOptionsBuilder { pack_bitmap: Some(value), ..self }
    }

    /// Whether to zero the whole device. Defaults to `false`.
    pub fn full_format(self, value: bool) -> (r: FormatVolumeOptionsBuilder)
        ensures
            r == (FormatVolumeOptionsBuilder { full_format: Some(value), ..self }),
    {
        FormatVolumeOptionsBuilder { full_format: Some(value), ..self }
    }

    /// Size of the device, in bytes.
    pub fn dev_size(self, value: u64) -> (r: FormatVolumeOptionsBuilder)
        ensures
            r == (FormatVolumeOptionsBuilder { dev_size: Some(value), ..self }),
    {
        FormatVolumeOptionsBuilder { dev_size: Some(value), ..self }
    }

    /// The volume's label. Defaults to the empty label.
    pub fn label(self, value: Label) -> (r: FormatVolumeOptionsBuilder)
        ensures
            r == (FormatVolumeOptionsBuilder { label: Some(value), ..self }),
    {
        FormatVolumeOptionsBuilder { label: Some(value), ..self }
    }

    /// The volume's GUID. Defaults to none.
    pub fn guid(self, value: Option<u128>) -> (r: FormatVolumeOptionsBuilder)
        ensures
            r == (FormatVolumeOptionsBuilder { guid: Some(value), ..self }),
    {
        FormatVolumeOptionsBuilder { guid: Some(value), ..self }
    }

    /// Media-relative offset of the partition, in bytes. Defaults to 0.
    pub fn partition_offset(self, value: u64) -> (r: FormatVolumeOptionsBuilder)
        ensures
            r == (FormatVolumeOptionsBuilder { partition_offset: Some(value), ..self }),
    {
        FormatVolumeOptionsBuilder { partition_offset: Some(value), ..self }
    }

    /// Size of a sector, in bytes: a power of two between 512 and 4096.
    pub fn bytes_per_sector(self, value: u16) -> (r: FormatVolumeOptionsBuilder)
        ensures
            r == (FormatVolumeOptionsBuilder { bytes_per_sector: Some(value), ..self }),
    {
        FormatVolumeOptionsBuilder { bytes_per_sector: Some(value), ..self }
    }

    /// Granularity to which the FAT and the cluster heap are aligned: a power
    /// of two. Defaults to one mebibyte.
    pub fn boundary_align(self, value: u32) -> (r: FormatVolumeOptionsBuilder)
        ensures
            r == (FormatVolumeOptionsBuilder { boundary_align: Some(value), ..self }),
    {
        FormatVolumeOptionsBuilder { boundary_align: Some(value), ..self }
    }

    /// Whether the fields that are set hold values that are allowed.
    pub open spec fn spec_valid(&self) -> bool {
        &&& self.bytes_per_sector matches Some(b) ==> valid_sector_size(b)
        &&& self.boundary_align matches Some(a) ==> is_power_of_two(a as int)
    }

    /// Checks the fields that are set: the sector size must be a power of two
    /// between 512 and 4096, the boundary alignment a power of two.
    pub fn validate(&self) -> (r: Result<(), String>)
        ensures
            r is Ok <==> self.spec_valid(),
            r matches Err(message) ==> message@ == (if self.bytes_per_sector matches Some(b)
                && !valid_sector_size(b) {
                "Bytes per sector field must be a power of two and between `512` and `4096`."@
            } else {
                "Boundary alignment field must be a power of two."@
            }),
    {
        if let Some(b) = self.bytes_per_sector {
            if !(b == 512 || b == 1024 || b == 2048 || b == 4096) {
                return Err(
                    String::from_str(
                        "Bytes per sector field must be a power of two and between `512` and `4096`.",
                    ),
                );
            }
        }
        if let Some(a) = self.boundary_align {
            if log2_exact(a).is_none() {
                return Err(String::from_str("Boundary alignment field must be a power of two."));
            }
        }
        Ok(())
    }

    /// The options that were collected. Fails where the device's size or the
    /// sector size is not set, or where a field does not pass the check.
    pub fn build(&self) -> (r: Result<FormatVolumeOptions, FormatVolumeOptionsBuilderError>)
        ensures
            r is Ok <==> self.dev_size.is_some() && self.bytes_per_sector.is_some()
                && self.spec_valid(),
            r matches Err(e) ==> (if !self.spec_valid() {
                e is ValidationError
            } else if self.dev_size.is_none() {
                e matches FormatVolumeOptionsBuilderError::UninitializedField(name) && name@
                    == "dev_size"@
            } else {
                e matches FormatVolumeOptionsBuilderError::UninitializedField(name) && name@
                    == "bytes_per_sector"@
            }),
            r matches Ok(o) ==> o@.valid() && o@ == (FormatVolumeOptionsView {
                pack_bitmap: self.pack_bitmap.unwrap_or(true),
                full_format: self.full_format.unwrap_or(false),
                dev_size: self.dev_size.unwrap(),
                label: if self.label is Some {
                    self.label.unwrap()
                } else {
                    o@.label
                },
                guid: self.guid.unwrap_or(None),
                partition_offset: self.partition_offset.unwrap_or(0),
                bytes_per_sector: self.bytes_per_sector.unwrap(),
                boundary_align: self.boundary_align.unwrap_or(DEFAULT_BOUNDARY_ALIGNEMENT),
            }),
            r matches Ok(o) ==> self.label.is_none() ==> o@.label.1 == 0 && o@.label.0@ == Seq::new(
                22,
                |i: int| 0u8,
            ),
    {
        match self.validate() {
            Err(message) => {
                return Err(FormatVolumeOptionsBuilderError::ValidationError(message));
            },
            Ok(()) => {},
        }
        let dev_size: u64 = match self.dev_size {
            Some(v) => v,
            None => {
                return Err(FormatVolumeOptionsBuilderError::UninitializedField("dev_size"));
            },
        };
        let bytes_per_sector: u16 = match self.bytes_per_sector {
            Some(v) => v,
            None => {
                return Err(FormatVolumeOptionsBuilderError::UninitializedField("bytes_per_sector"));
            },
        };
        let boundary_align: u32 = match self.boundary_align {
            Some(v) => v,
            None => DEFAULT_BOUNDARY_ALIGNEMENT,
        };
        proof {
            vstd::arithmetic::power2::lemma2_to64();
            assert(DEFAULT_BOUNDARY_ALIGNEMENT == vstd::arithmetic::power2::pow2(20));
        }
        Ok(
            FormatVolumeOptions {
                pack_bitmap: match self.pack_bitmap {
                    Some(v) => v,
                    None => true,
                },
                full_format: match self.full_format {
                    Some(v) => v,
                    None => false,
                },
                dev_size,
                label: match self.label {
                    Some(v) => v,
                    None => Label::default(),
                },
                guid: match self.guid {
                    Some(v) => v,
                    None => None,
                },
                partition_offset: match self.partition_offset {
                    Some(v) => v,
                    None => 0,
                },
                bytes_per_sector,
                boundary_align,
            },
        )
    }
}

/// A volume that is about to be formatted: its geometry and what else goes
/// into its structures.
#[derive(Copy, Clone, Debug)]
pub struct Exfat {
    /// Every offset and length of the volume.
    pub geometry: Geometry,
    /// Number of clusters in use; known once the FAT is written.
    pub cluster_count_used: u32,
    /// Revision of the file system's structures.
    pub file_system_revision: FileSystemRevision,
    /// Flags of the volume's state.
    pub volume_flags: VolumeFlags,
    /// The volume's serial number.
    pub volume_serial_number: VolumeSerialNumber,
    /// The options that the volume was planned with.
    pub format_options: FormatVolumeOptions,
}

impl Exfat {
    /// Whether the geometry is the one that the solver gives for the options.
    pub open spec fn wf(&self) -> bool {
        &&& self.format_options@.valid()
        &&& spec_solve(self.format_options@.request()) == Ok::<Geometry, ExfatFormatError>(
            self.geometry,
        )
    }

    /// Plans a volume with the given serial number: the cluster size goes by
    /// the device's size, the geometry is the solver's, no cluster is in use
    /// yet, the revision is 1.0 and no flag is set. A device is too small
    /// exactly where it has less than one mebibyte.
    pub fn with_serial(format_options: FormatVolumeOptions, serial: VolumeSerialNumber) -> (r: Result<
        Exfat,
        ExfatFormatError,
    >)
        requires
            format_options@.valid(),
        ensures
            match r {
                Ok(x) => {
                    &&& x.wf()
                    &&& x.format_options == format_options
                    &&& x.volume_serial_number == serial
                    &&& x.cluster_count_used == 0
                    &&& x.file_system_revision == (FileSystemRevision { vermin: 0, vermaj: 1 })
                    &&& x.volume_flags.spec_bits() == 0
                },
                Err(e) => spec_solve(format_options@.request()) == Err::<Geometry, ExfatFormatError>(e),
            },
            format_options@.dev_size < 0x10_0000 <==> r == Err::<Exfat, ExfatFormatError>(
                ExfatFormatError::InvalidSize(format_options@.dev_size),
            ),
    {
        proof {
            let q = format_options@.request();
            let k = choose|k: nat| k < 32 && q.boundary_align == #[trigger] vstd::arithmetic::power2::pow2(k);
            vstd::arithmetic::power2::lemma_pow2_pos(k);
            lemma_default_cluster_size(q.size, q.bytes_per_sector);
            lemma_smallest_volume(q);
        }
        let request: GeometryRequest = format_options.request();
        let geometry: Geometry = Geometry::solve(&request)?;
        Ok(
            Exfat {
                geometry,
                cluster_count_used: 0,
                file_system_revision: FileSystemRevision::default(),
                volume_flags: VolumeFlags::empty(),
                volume_serial_number: serial,
                format_options,
            },
        )
    }

    /// Plans a volume, with a serial number from the system clock. Every
    /// error but `NoSerial` is the geometry solver's; `NoSerial` comes where
    /// the geometry is fine and the clock fails. A device is too small
    /// exactly where it has less than one mebibyte.
    pub fn try_from(format_options: FormatVolumeOptions) -> (r: Result<Exfat, ExfatFormatError>)
        requires
            format_options@.valid(),
        ensures
            match r {
                Ok(x) => {
                    &&& x.wf()
                    &&& x.format_options == format_options
                    &&& x.cluster_count_used == 0
                    &&& x.file_system_revision == (FileSystemRevision { vermin: 0, vermaj: 1 })
                    &&& x.volume_flags.spec_bits() == 0
                },
                Err(e) => if spec_solve(format_options@.request()) is Ok {
                    e == ExfatFormatError::NoSerial
                } else {
                    spec_solve(format_options@.request()) == Err::<Geometry, ExfatFormatError>(e)
                },
            },
            format_options@.dev_size < 0x10_0000 <==> r == Err::<Exfat, ExfatFormatError>(
                ExfatFormatError::InvalidSize(format_options@.dev_size),
            ),
    {
        proof {
            let q = format_options@.request();
            let k = choose|k: nat| k < 32 && q.boundary_align == #[trigger] vstd::arithmetic::power2::pow2(k);
            vstd::arithmetic::power2::lemma_pow2_pos(k);
            lemma_default_cluster_size(q.size, q.bytes_per_sector);
            lemma_smallest_volume(q);
        }
        let planned: Exfat = Exfat::with_serial(format_options, VolumeSerialNumber(0))?;
        match VolumeSerialNumber::try_new() {
            Ok(serial) => Ok(
                Exfat {
                    geometry: planned.geometry,
                    cluster_count_used: 0,
                    file_system_revision: planned.file_system_revision,
                    volume_flags: planned.volume_flags,
                    volume_serial_number: serial,
                    format_options,
                },
            ),
            Err(_) => Err(ExfatFormatError::NoSerial),
        }
    }
}

/// The boot parameters that go with a geometry.
pub open spec fn boot_values_of(
    geometry: Geometry,
    serial: VolumeSerialNumber,
    revision: FileSystemRevision,
    flags: u16,
) -> BootValues {
    BootValues {
        partition_offset: geometry.partition_offset,
        volume_length: geometry.volume_length,
        fat_offset: geometry.fat_offset,
        fat_length: geometry.fat_length,
        cluster_heap_offset: geometry.cluster_heap_offset,
        cluster_count: geometry.cluster_count,
        first_cluster_of_root_directory: geometry.first_cluster_of_root_directory,
        volume_serial_number: serial.0,
        vermin: revision.vermin,
        vermaj: revision.vermaj,
        volume_flags: flags,
        bytes_per_sector_shift: geometry.bytes_per_sector_shift,
        sectors_per_cluster_shift: geometry.sectors_per_cluster_shift,
        number_of_fats: geometry.number_of_fats,
    }
}

/// The boot sector of a volume with the given parameters: the fixed fields
/// hold their constants, the reserved fields are zero, the boot code is all
/// halt instructions and the share in use is not known.
pub fn make_boot_sector(
    geometry: &Geometry,
    serial: VolumeSerialNumber,
    revision: FileSystemRevision,
    flags: u16,
) -> (r: BootSector)
    ensures
        r.holds(boot_values_of(*geometry, serial, revision, flags)),
{
    let reserved: [u8; 53] = [0u8; 53];
    let reserved2: [u8; 7] = [0u8; 7];
    let boot_code: [u8; 390] = [0xF4u8; 390];
    assert(reserved@ =~= Seq::new(53, |i: int| 0u8));
    assert(reserved2@ =~= Seq::new(7, |i: int| 0u8));
    assert(boot_code@ =~= Seq::new(390, |i: int| 0xF4u8));
    assert(JUMP_BOOT@ =~= seq![0xEBu8, 0x76u8, 0x90u8]);
    assert(FILESYSTEM_NAME@ =~= seq![
        0x45u8,
        0x58u8,
        0x46u8,
        0x41u8,
        0x54u8,
        0x20u8,
        0x20u8,
        0x20u8,
    ]);
    BootSector {
        jump_boot: JUMP_BOOT,
        filesystem_name: FILESYSTEM_NAME,
        _reserved: reserved,
        partition_offset: geometry.partition_offset,
        volume_length: geometry.volume_length,
        fat_offset: geometry.fat_offset,
        fat_length: geometry.fat_length,
        cluster_heap_offset: geometry.cluster_heap_offset,
        cluster_count: geometry.cluster_count,
        first_cluster_of_root_directory: geometry.first_cluster_of_root_directory,
        volume_serial_number: serial,
        file_system_revision: revision,
        volume_flags: flags,
        bytes_per_sector_shift: geometry.bytes_per_sector_shift,
        sectors_per_cluster_shift: geometry.sectors_per_cluster_shift,
        number_of_fats: geometry.number_of_fats,
        drive_select: DRIVE_SELECT,
        percent_in_use: PERCENT_IN_USE_UNKNOWN,
        _reserved2: reserved2,
        boot_code,
        boot_signature: BOOT_SIGNATURE,
    }
}

impl BootParameters for Exfat {
    open spec fn boot_values(&self) -> BootValues {
        boot_values_of(
            self.geometry,
            self.volume_serial_number,
            self.file_system_revision,
            self.volume_flags.spec_bits(),
        )
    }

    fn boot_sector(&self) -> (r: BootSector) {
        make_boot_sector(
            &self.geometry,
            self.volume_serial_number,
            self.file_system_revision,
            self.volume_flags.bits(),
        )
    }
}

} // verus!
