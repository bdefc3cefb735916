//! The boot region of a volume whose sector and cluster sizes the caller
//! picks.

use crate::boot::FormatOptions;
use crate::boot_sector::{
    BootParameters, BootSector, BootValues, FileSystemRevision, VolumeSerialNumber,
};
use crate::disk::{lemma_overlay_within, overlay, write_zeroes, zeros, SeekFrom, WriteSeek};
use crate::error::{ExfatError, ExfatFormatError};
use crate::format::boot::{write_boot_region, MAIN_BOOT_OFFSET};
use crate::format::geometry::{
    spec_solve, valid_cluster_size, valid_sector_size, Geometry, GeometryRequest,
};
use crate::format::image::boot_region;
use crate::format::laws::{
    lemma_boot_parameters_valid, lemma_geometry_parts, lemma_sector_size_checked,
    lemma_smallest_volume,
};
use crate::format::{boot_values_of, make_boot_sector};
use vstd::prelude::*;

verus! {

/// The parameters of a volume's boot region.
#[derive(Copy, Clone, Debug)]
pub struct BootSectorMeta {
    /// Every offset and length of the volume.
    pub geometry: Geometry,
    /// Size of the volume, in bytes.
    pub size: u64,
    /// Granularity to which the FAT and the cluster heap are aligned.
    pub boundary_align: u32,
    /// The volume's serial number.
    pub volume_serial_number: VolumeSerialNumber,
    /// Revision of the file system's structures.
    pub file_system_revision: FileSystemRevision,
    /// Flags of the volume's state.
    pub volume_flags: u16,
    /// What else the writer was told.
    pub format_options: FormatOptions,
    /// Media-relative offset of the partition, in bytes.
    pub partition_offset_bytes: u64,
}

impl BootSectorMeta {
    /// What the geometry solver is asked for.
    pub open spec fn request(
        partition_offset: u64,
        bytes_per_sector: u16,
        bytes_per_cluster: u32,
        size: u64,
        boundary_align: u32,
        format_options: FormatOptions,
    ) -> GeometryRequest {
        GeometryRequest {
            partition_offset,
            bytes_per_sector,
            bytes_per_cluster,
            size,
            boundary_align,
            pack_bitmap: format_options.pack_bitmap,
        }
    }

    /// Whether the geometry is the one that the solver gives for the sizes.
    pub open spec fn wf(&self) -> bool {
        &&& self.boundary_align > 0
        &&& spec_solve(
            BootSectorMeta::request(
                self.partition_offset_bytes,
                self.geometry.bytes_per_sector,
                self.geometry.bytes_per_cluster,
                self.size,
                self.boundary_align,
                self.format_options,
            ),
        ) == Ok::<Geometry, ExfatFormatError>(self.geometry)
    }

    /// The parameters of a volume with the given serial number. A device
    /// smaller than the volume gives `InvalidFileSize`; every other error is
    /// the geometry solver's: a sector size that is no power of two between
    /// 512 and 4096 is turned down first, and with sizes in order a volume
    /// is too small exactly where it has less than one mebibyte.
    pub fn with_serial(
        partition_offset: u64,
        bytes_per_sector: u16,
        bytes_per_cluster: u32,
        size: u64,
        boundary_align: u32,
        format_options: FormatOptions,
        serial: VolumeSerialNumber,
    ) -> (r: Result<BootSectorMeta, ExfatFormatError>)
        requires
            boundary_align > 0,
        ensures
            match r {
                Ok(m) => {
                    &&& format_options.dev_size >= size
                    &&& m.wf()
                    &&& m.geometry.bytes_per_sector == bytes_per_sector
                    &&& m.geometry.bytes_per_cluster == bytes_per_cluster
                    &&& m.size == size
                    &&& m.boundary_align == boundary_align
                    &&& m.partition_offset_bytes == partition_offset
                    &&& m.format_options == format_options
                    &&& m.volume_serial_number == serial
                    &&& m.volume_flags == 0
                    &&& m.file_system_revision == (FileSystemRevision { vermin: 0, vermaj: 1 })
                },
                Err(e) => if format_options.dev_size < size {
                    e == ExfatFormatError::InvalidFileSize
                } else {
                    spec_solve(
                        BootSectorMeta::request(
                            partition_offset,
                            bytes_per_sector,
                            bytes_per_cluster,
                            size,
                            boundary_align,
                            format_options,
                        ),
                    ) == Err::<Geometry, ExfatFormatError>(e)
                },
            },
            format_options.dev_size >= size ==> (!valid_sector_size(bytes_per_sector) <==> r == Err::<
                BootSectorMeta,
                ExfatFormatError,
            >(ExfatFormatError::InvalidBytesPerSector(bytes_per_sector))),
            format_options.dev_size >= size && valid_sector_size(bytes_per_sector)
                && valid_cluster_size(bytes_per_cluster, bytes_per_sector) ==> (size < 0x10_0000
                <==> r == Err::<BootSectorMeta, ExfatFormatError>(
                ExfatFormatError::InvalidSize(size),
            )),
    {
        proof {
            let q = BootSectorMeta::request(
                partition_offset,
                bytes_per_sector,
                bytes_per_cluster,
                size,
                boundary_align,
                format_options,
            );
            lemma_sector_size_checked(q);
            if valid_sector_size(bytes_per_sector) && valid_cluster_size(
                bytes_per_cluster,
                bytes_per_sector,
            ) {
                lemma_smallest_volume(q);
            }
        }
        if format_options.dev_size < size {
            return Err(ExfatFormatError::InvalidFileSize);
        }
        let request = GeometryRequest {
            partition_offset,
            bytes_per_sector,
            bytes_per_cluster,
            size,
            boundary_align,
            pack_bitmap: format_options.pack_bitmap,
        };
        let geometry: Geometry = Geometry::solve(&request)?;
        proof {
            lemma_geometry_parts(request);
        }
        Ok(
            BootSectorMeta {
                geometry,
                size,
                boundary_align,
                volume_serial_number: serial,
                file_system_revision: FileSystemRevision::default(),
                volume_flags: 0,
                format_options,
                partition_offset_bytes: partition_offset,
            },
        )
    }

    /// The parameters of a volume, with a serial number from the system
    /// clock. `NoSerial` comes where the sizes are fine and the clock fails.
    /// A sector size that is no power of two between 512 and 4096 is turned
    /// down ahead of everything but a device that is smaller than the
    /// volume, and with sizes in order a volume is too small exactly where
    /// it has less than one mebibyte.
    pub fn try_new(
        partition_offset: u64,
        bytes_per_sector: u16,
        bytes_per_cluster: u32,
        size: u64,
        boundary_align: u32,
        format_options: FormatOptions,
    ) -> (r: Result<BootSectorMeta, ExfatFormatError>)
        requires
            boundary_align > 0,
        ensures
            match r {
                Ok(m) => {
                    &&& format_options.dev_size >= size
                    &&& m.wf()
                    &&& m.geometry.bytes_per_sector == bytes_per_sector
                    &&& m.geometry.bytes_per_cluster == bytes_per_cluster
                    &&& m.size == size
                    &&& m.boundary_align == boundary_align
                    &&& m.partition_offset_bytes == partition_offset
                    &&& m.format_options == format_options
                    &&& m.volume_flags == 0
                    &&& m.file_system_revision == (FileSystemRevision { vermin: 0, vermaj: 1 })
                },
                Err(e) => if format_options.dev_size < size {
                    e == ExfatFormatError::InvalidFileSize
                } else if spec_solve(
                    BootSectorMeta::request(
                        partition_offset,
                        bytes_per_sector,
                        bytes_per_cluster,
                        size,
                        boundary_align,
                        format_options,
                    ),
                ) is Ok {
                    e == ExfatFormatError::NoSerial
                } else {
                    spec_solve(
                        BootSectorMeta::request(
                            partition_offset,
                            bytes_per_sector,
                            bytes_per_cluster,
                            size,
                            boundary_align,
                            format_options,
                        ),
                    ) == Err::<Geometry, ExfatFormatError>(e)
                },
            },
            format_options.dev_size >= size ==> (!valid_sector_size(bytes_per_sector) <==> r == Err::<
                BootSectorMeta,
                ExfatFormatError,
            >(ExfatFormatError::InvalidBytesPerSector(bytes_per_sector))),
            format_options.dev_size >= size && valid_sector_size(bytes_per_sector)
                && valid_cluster_size(bytes_per_cluster, bytes_per_sector) ==> (size < 0x10_0000
                <==> r == Err::<BootSectorMeta, ExfatFormatError>(
                ExfatFormatError::InvalidSize(size),
            )),
    {
        proof {
            let q = BootSectorMeta::request(
                partition_offset,
                bytes_per_sector,
                bytes_per_cluster,
                size,
                boundary_align,
                format_options,
            );
            lemma_sector_size_checked(q);
            if valid_sector_size(bytes_per_sector) && valid_cluster_size(
                bytes_per_cluster,
                bytes_per_sector,
            ) {
                lemma_smallest_volume(q);
            }
        }
        let planned: BootSectorMeta = BootSectorMeta::with_serial(
            partition_offset,
            bytes_per_sector,
            bytes_per_cluster,
            size,
            boundary_align,
            format_options,
            VolumeSerialNumber(0),
        )?;
        match VolumeSerialNumber::try_new() {
            Ok(serial) => Ok(
                BootSectorMeta {
                    geometry: planned.geometry,
                    size,
                    boundary_align,
                    volume_serial_number: serial,
                    file_system_revision: planned.file_system_revision,
                    volume_flags: 0,
                    format_options,
                    partition_offset_bytes: partition_offset,
                },
            ),
            Err(_) => Err(ExfatFormatError::NoSerial),
        }
    }

    /// Number of bytes from the volume's start that are zeroed: all of the
    /// volume, or up to the end of the root directory's cluster.
    pub open spec fn zeroed_length(&self) -> nat {
        if self.format_options.full_format {
            self.size as nat
        } else {
            (self.geometry.root_offset_bytes + self.geometry.bytes_per_cluster) as nat
        }
    }

    /// Zeroes the volume's structures or all of the volume and writes the
    /// main boot region. A device whose length is not the size that the
    /// options name gives `InvalidFileSize` unless the device itself fails
    /// first; a dependable device gives just that error and keeps its
    /// contents.
    pub fn write<O: WriteSeek>(&self, f: &mut O) -> (r: Result<(), ExfatError<O::Err>>)
        requires
            self.wf(),
        ensures
            r is Ok ==> final(f).contents() == overlay(
                overlay(old(f).contents(), 0, zeros(self.zeroed_length())),
                0,
                boot_region(BootSector::bytes_of(self.boot_values()), self.geometry.bytes_per_sector as nat),
            ),
            r matches Err(ExfatError::Format(e)) ==> e == ExfatFormatError::InvalidFileSize && old(
                f,
            ).contents().len() != self.format_options.dev_size && final(f).contents() == old(
                f,
            ).contents(),
            old(f).contents().len() != self.format_options.dev_size ==> r is Err,
            old(f).dependable() && old(f).contents().len() != self.format_options.dev_size ==> r
                == Err::<(), ExfatError<O::Err>>(
                ExfatError::Format(ExfatFormatError::InvalidFileSize),
            ) && final(f).contents() == old(f).contents(),
            old(f).dependable() && old(f).contents().len() == self.format_options.dev_size
                && self.zeroed_length() <= self.format_options.dev_size && 12
                * self.geometry.bytes_per_sector <= self.format_options.dev_size ==> r is Ok,
    {
        let ghost base = f.contents();
        proof {
            let q = BootSectorMeta::request(
                self.partition_offset_bytes,
                self.geometry.bytes_per_sector,
                self.geometry.bytes_per_cluster,
                self.size,
                self.boundary_align,
                self.format_options,
            );
            lemma_geometry_parts(q);
            lemma_boot_parameters_valid(q);
        }
        let len: u64 = match f.seek(SeekFrom::End(0)) {
            Ok(p) => p,
            Err(e) => {
                return Err(ExfatError::Io(e));
            },
        };
        if len != self.format_options.dev_size {
            return Err(ExfatError::Format(ExfatFormatError::InvalidFileSize));
        }
        let size: u64 = if self.format_options.full_format {
            self.size
        } else {
            self.geometry.root_offset_bytes as u64 + self.geometry.bytes_per_cluster as u64
        };
        match write_zeroes(f, size, 0) {
            Ok(()) => {},
            Err(e) => {
                return Err(ExfatError::Io(e));
            },
        }
        let sector: BootSector = BootSector::new(self);
        proof {
            sector.lemma_bytes_of_holder(self.boot_values());
            if old(f).dependable() && base.len() == self.format_options.dev_size && size
                <= self.format_options.dev_size {
                lemma_overlay_within(base, 0, zeros(size as nat));
            }
        }
        match write_boot_region(f, &sector, self.geometry.bytes_per_sector, MAIN_BOOT_OFFSET) {
            Ok(()) => Ok(()),
            Err(e) => Err(ExfatError::Io(e)),
        }
    }
}

impl BootParameters for BootSectorMeta {
    open spec fn boot_values(&self) -> BootValues {
        boot_values_of(
            self.geometry,
            self.volume_serial_number,
            self.file_system_revision,
            self.volume_flags,
        )
    }

    fn boot_sector(&self) -> (r: BootSector) {
        make_boot_sector(
            &self.geometry,
            self.volume_serial_number,
            self.file_system_revision,
            self.volume_flags,
        )
    }
}

} // verus!
