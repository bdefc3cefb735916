use exfat_fs::boot::meta::BootSectorMeta;
use exfat_fs::boot::FormatOptions;
use exfat_fs::error::ExfatFormatError;
use exfat_fs::format::geometry::{
    bitmap_bytes, default_cluster_size, Geometry, GeometryRequest, MAX_CLUSTER_COUNT,
};
use exfat_fs::format::{Exfat, FormatVolumeOptionsBuilder, FormatVolumeOptionsBuilderError};
use exfat_fs::{GB, KB, MB};

fn request(size: u64, pack_bitmap: bool) -> GeometryRequest {
    GeometryRequest {
        partition_offset: 0,
        bytes_per_sector: 512,
        bytes_per_cluster: default_cluster_size(size),
        size,
        boundary_align: 1024 * 1024,
        pack_bitmap,
    }
}

#[test]
fn default_cluster_size_steps() {
    assert_eq!(default_cluster_size(0), 4096);
    assert_eq!(default_cluster_size(256 * MB as u64), 4096);
    assert_eq!(default_cluster_size(256 * MB as u64 + 1), 32768);
    assert_eq!(default_cluster_size(32 * GB as u64), 32768);
    assert_eq!(default_cluster_size(32 * GB as u64 + 1), 131072);
    assert_eq!(default_cluster_size(u64::MAX), 131072);
}

#[test]
fn solve_small_simple() {
    let g = Geometry::solve(&request(256 * MB as u64, false)).unwrap();
    assert_eq!(g.partition_offset, 0);
    assert_eq!(g.volume_length, 524288);
    assert_eq!(g.fat_offset, 2048);
    assert_eq!(g.fat_offset_bytes, 1048576);
    assert_eq!(g.fat_length, 510);
    assert_eq!(g.fat_length_bytes, 261120);
    assert_eq!(g.cluster_heap_offset, 4096);
    assert_eq!(g.cluster_heap_offset_bytes, 2097152);
    assert_eq!(g.cluster_count, 65024);
    assert_eq!(g.first_cluster_of_root_directory, 6);
    assert_eq!(g.bytes_per_sector_shift, 9);
    assert_eq!(g.sectors_per_cluster_shift, 3);
    assert_eq!(g.number_of_fats, 1);
    assert_eq!(g.bytes_per_cluster, 4096);
    assert_eq!(g.bitmap_offset_bytes, 2097152);
    assert_eq!(g.bitmap_length_bytes, 8128);
    assert_eq!(g.uptable_offset_bytes, 2097152 + 8192);
    assert_eq!(g.uptable_start_cluster, 4);
    assert_eq!(g.uptable_length_bytes, 5836);
    assert_eq!(g.root_offset_bytes, 2097152 + 8192 + 8192);
    assert_eq!(g.root_length_bytes, 128);
}

#[test]
fn solve_small_packed() {
    let g = Geometry::solve(&request(256 * MB as u64, true)).unwrap();
    assert_eq!(g.volume_length, 524288);
    assert_eq!(g.fat_offset, 2048);
    assert_eq!(g.fat_length, 510);
    assert_eq!(g.cluster_heap_offset, 4080);
    assert_eq!(g.cluster_count, 65026);
    assert_eq!(g.first_cluster_of_root_directory, 6);
    assert_eq!(g.bitmap_length_bytes, 8129);
    assert_eq!(g.bitmap_offset_bytes, 4080 * 512);
    // The first cluster behind the bitmap is the one on the boundary.
    assert_eq!(g.uptable_offset_bytes, 2097152);
    assert_ne!(g.cluster_heap_offset_bytes % (1024 * 1024), 0);
}

#[test]
fn solve_medium() {
    let g = Geometry::solve(&request(5 * GB as u64, false)).unwrap();
    assert_eq!(g.volume_length, 10485760);
    assert_eq!(g.fat_offset, 2048);
    assert_eq!(g.fat_length, 1280);
    assert_eq!(g.cluster_heap_offset, 4096);
    assert_eq!(g.cluster_count, 163776);
    assert_eq!(g.first_cluster_of_root_directory, 4);
    assert_eq!(g.bytes_per_sector_shift, 9);
    assert_eq!(g.sectors_per_cluster_shift, 6);
    assert_eq!(g.bytes_per_cluster, 32768);
}

#[test]
fn one_mebibyte_is_accepted() {
    let g = Geometry::solve(&GeometryRequest {
        partition_offset: 0,
        bytes_per_sector: 512,
        bytes_per_cluster: 4096,
        size: 1024 * 1024,
        boundary_align: 512,
        pack_bitmap: false,
    })
    .unwrap();
    assert_eq!(g.volume_length, 2048);
    assert_eq!(g.fat_offset, 24);
    assert_eq!(g.fat_length, 2);
    assert_eq!(g.cluster_heap_offset, 26);
    assert_eq!(g.cluster_count, 252);
    assert_eq!(g.bitmap_length_bytes, 32);
    assert_eq!(g.first_cluster_of_root_directory, 5);
}

#[test]
fn below_one_mebibyte_is_invalid_size() {
    let size = 1024 * 1024 - 1;
    let r = Geometry::solve(&GeometryRequest {
        partition_offset: 0,
        bytes_per_sector: 512,
        bytes_per_cluster: 4096,
        size,
        boundary_align: 512,
        pack_bitmap: false,
    });
    assert_eq!(r, Err(ExfatFormatError::InvalidSize(size)));
    let options = FormatVolumeOptionsBuilder::default()
        .dev_size(size)
        .bytes_per_sector(512)
        .build()
        .unwrap();
    assert_eq!(
        Exfat::try_from(options).err(),
        Some(ExfatFormatError::InvalidSize(size))
    );
}

#[test]
fn sector_sizes_out_of_range_are_rejected() {
    for bps in [0u16, 1, 256, 511, 513, 768, 3000, 4095, 8192, 32768, 65535] {
        let r = Geometry::solve(&GeometryRequest {
            partition_offset: 0,
            bytes_per_sector: bps,
            bytes_per_cluster: 4096,
            size: 64 * MB as u64,
            boundary_align: 1024 * 1024,
            pack_bitmap: false,
        });
        assert_eq!(r, Err(ExfatFormatError::InvalidBytesPerSector(bps)));
        let built = FormatVolumeOptionsBuilder::default()
            .dev_size(64 * MB as u64)
            .bytes_per_sector(bps)
            .build();
        assert!(matches!(
            built,
            Err(FormatVolumeOptionsBuilderError::ValidationError(_))
        ));
    }
    for bps in [512u16, 1024, 2048, 4096] {
        let r = Geometry::solve(&GeometryRequest {
            partition_offset: 0,
            bytes_per_sector: bps,
            bytes_per_cluster: 4096,
            size: 64 * MB as u64,
            boundary_align: 1024 * 1024,
            pack_bitmap: false,
        });
        let g = r.unwrap();
        assert_eq!(1u32 << g.bytes_per_sector_shift, bps as u32);
        assert_eq!(
            1u32 << (g.bytes_per_sector_shift + g.sectors_per_cluster_shift),
            4096
        );
    }
}

#[test]
fn cluster_sizes_out_of_range_are_rejected() {
    for cs in [0u32, 256, 3000, 4097, 64 * 1024 * 1024, u32::MAX] {
        let r = BootSectorMeta::try_new(
            0,
            512,
            cs,
            64 * MB as u64,
            1024 * 1024,
            FormatOptions::new(false, false, 64 * MB as u64),
        );
        assert_eq!(r.err(), Some(ExfatFormatError::InvalidClusterSize(cs)));
    }
    // A cluster of the sector's size and one of 32 MiB are fine.
    assert!(BootSectorMeta::try_new(
        0,
        4096,
        4096,
        64 * MB as u64,
        1024 * 1024,
        FormatOptions::new(false, false, 64 * MB as u64),
    )
    .is_ok());
    assert!(BootSectorMeta::try_new(
        0,
        512,
        32 * 1024 * 1024,
        GB as u64,
        1024 * 1024,
        FormatOptions::new(false, false, GB as u64),
    )
    .is_ok());
}

#[test]
fn device_smaller_than_volume_is_invalid_file_size() {
    let r = BootSectorMeta::try_new(
        0,
        512,
        4 * KB as u32,
        64 * MB as u64,
        1024 * 1024,
        FormatOptions::new(false, false, 64 * MB as u64 - 1),
    );
    assert_eq!(r.err(), Some(ExfatFormatError::InvalidFileSize));
}

#[test]
fn partition_offset_overflow_is_invalid_partition_offset() {
    let r = Geometry::solve(&GeometryRequest {
        partition_offset: u64::MAX,
        bytes_per_sector: 512,
        bytes_per_cluster: 4096,
        size: 64 * MB as u64,
        boundary_align: 1024 * 1024,
        pack_bitmap: false,
    });
    assert_eq!(r, Err(ExfatFormatError::InvalidPartitionOffset(u64::MAX)));
    // One byte of room less than the boot sectors take.
    let r = Geometry::solve(&GeometryRequest {
        partition_offset: u64::MAX - 24 * 512 + 1,
        bytes_per_sector: 512,
        bytes_per_cluster: 4096,
        size: 64 * MB as u64,
        boundary_align: 1,
        pack_bitmap: false,
    });
    assert_eq!(
        r,
        Err(ExfatFormatError::InvalidPartitionOffset(
            u64::MAX - 24 * 512 + 1
        ))
    );
}

#[test]
fn rounding_beyond_64_bits_is_boundary_align_too_big() {
    let r = Geometry::solve(&GeometryRequest {
        partition_offset: u64::MAX - 24 * 512,
        bytes_per_sector: 512,
        bytes_per_cluster: 4096,
        size: 64 * MB as u64,
        boundary_align: 1024 * 1024,
        pack_bitmap: false,
    });
    assert_eq!(r, Err(ExfatFormatError::BoundaryAlignTooBig(1024 * 1024)));
}

#[test]
fn heap_beyond_device_is_boundary_align_too_big() {
    let r = Geometry::solve(&GeometryRequest {
        partition_offset: 0,
        bytes_per_sector: 512,
        bytes_per_cluster: 4096,
        size: 2 * MB as u64,
        boundary_align: 1024 * 1024,
        pack_bitmap: false,
    });
    assert_eq!(r, Err(ExfatFormatError::BoundaryAlignTooBig(1024 * 1024)));
}

#[test]
fn fat_beyond_device_is_invalid_cluster_size() {
    let r = Geometry::solve(&GeometryRequest {
        partition_offset: 0,
        bytes_per_sector: 512,
        bytes_per_cluster: 4096,
        size: MB as u64,
        boundary_align: 1024 * 1024,
        pack_bitmap: false,
    });
    assert_eq!(r, Err(ExfatFormatError::InvalidClusterSize(4096)));
}

#[test]
fn bitmap_without_gap_cannot_be_packed() {
    let r = Geometry::solve(&GeometryRequest {
        partition_offset: 0,
        bytes_per_sector: 512,
        bytes_per_cluster: 4096,
        size: 256 * MB as u64,
        boundary_align: 4096,
        pack_bitmap: true,
    });
    assert_eq!(r, Err(ExfatFormatError::CannotPackBitmap));
    let g = Geometry::solve(&GeometryRequest {
        partition_offset: 0,
        bytes_per_sector: 512,
        bytes_per_cluster: 4096,
        size: 256 * MB as u64,
        boundary_align: 4096,
        pack_bitmap: false,
    })
    .unwrap();
    assert_eq!(g.fat_offset_bytes, 12288);
    assert_eq!(g.fat_length_bytes, 262144);
    assert_eq!(g.cluster_heap_offset_bytes, 274432);
    assert_eq!(g.cluster_count, 65469);
}

#[test]
fn bitmap_length_is_an_eighth_rounded_up() {
    assert_eq!(bitmap_bytes(0), 0);
    assert_eq!(bitmap_bytes(1), 1);
    assert_eq!(bitmap_bytes(8), 1);
    assert_eq!(bitmap_bytes(9), 2);
    assert_eq!(bitmap_bytes(65024), 8128);
    assert_eq!(bitmap_bytes(u32::MAX), 0x2000_0000);
}

#[test]
fn computed_geometries_keep_their_invariants() {
    let sizes: [u64; 6] = [
        MB as u64,
        MB as u64 + 8192,
        32 * MB as u64,
        256 * MB as u64 + 777,
        5 * GB as u64,
        40 * GB as u64,
    ];
    let aligns: [u32; 5] = [1, 512, 4096, 65536, 1024 * 1024];
    let offsets: [u64; 4] = [0, 512, 1024 * 1024, 3 * 1024 * 1024 + 512];
    let mut solved = 0;
    for size in sizes {
        for align in aligns {
            for offset in offsets {
                for bps in [512u16, 4096] {
                    for pack in [false, true] {
                        let q = GeometryRequest {
                            partition_offset: offset,
                            bytes_per_sector: bps,
                            bytes_per_cluster: default_cluster_size(size),
                            size,
                            boundary_align: align,
                            pack_bitmap: pack,
                        };
                        let g = match Geometry::solve(&q) {
                            Ok(g) => g,
                            Err(_) => continue,
                        };
                        solved += 1;
                        let cs = g.bytes_per_cluster as u64;
                        let span = (g.bitmap_length_bytes as u64).div_ceil(cs) * cs;
                        assert_eq!((g.fat_offset_bytes as u64 + offset) % align as u64, 0);
                        if offset % align as u64 == 0 {
                            assert_eq!(g.fat_offset_bytes % align, 0);
                        }
                        let moved = if pack { span } else { 0 };
                        assert_eq!(
                            (g.cluster_heap_offset_bytes as u64 + moved + offset) % align as u64,
                            0
                        );
                        assert!(g.cluster_count <= MAX_CLUSTER_COUNT);
                        assert!(g.cluster_count <= 0xFFFFFFF5);
                        assert!(g.first_cluster_of_root_directory >= 2);
                        let used = span / cs + 5836u64.div_ceil(cs) + 1;
                        assert_eq!(g.first_cluster_of_root_directory as u64, 2 + used - 1);
                        assert_eq!(
                            used <= g.cluster_count as u64,
                            g.first_cluster_of_root_directory as u64 <= g.cluster_count as u64 + 1
                        );
                        assert!(g.fat_offset >= 24);
                        assert!(
                            g.fat_offset_bytes as u64 + g.fat_length_bytes
                                <= g.cluster_heap_offset_bytes as u64
                        );
                        assert!(
                            g.cluster_heap_offset as u64
                                + g.cluster_count as u64 * (cs / bps as u64)
                                <= g.volume_length
                        );
                        assert!(g.volume_length * bps as u64 >= MB as u64);
                        assert_eq!(g.bitmap_length_bytes, g.cluster_count.div_ceil(8));
                    }
                }
            }
        }
    }
    assert!(solved > 100);
}

#[test]
fn root_cluster_can_lie_beyond_a_tiny_heap() {
    let g = Geometry::solve(&GeometryRequest {
        partition_offset: 0,
        bytes_per_sector: 512,
        bytes_per_cluster: 4096,
        size: MB as u64 + 8192,
        boundary_align: 512 * 1024,
        pack_bitmap: false,
    })
    .unwrap();
    assert_eq!(g.cluster_count, 2);
    assert_eq!(g.first_cluster_of_root_directory, 5);
}

#[test]
fn builder_defaults_and_required_fields() {
    let missing = FormatVolumeOptionsBuilder::default()
        .bytes_per_sector(512)
        .build();
    assert_eq!(
        missing.err(),
        Some(FormatVolumeOptionsBuilderError::UninitializedField(
            "dev_size"
        ))
    );
    let missing = FormatVolumeOptionsBuilder::default().dev_size(1).build();
    assert_eq!(
        missing.err(),
        Some(FormatVolumeOptionsBuilderError::UninitializedField(
            "bytes_per_sector"
        ))
    );
    let bad = FormatVolumeOptionsBuilder::default()
        .dev_size(1)
        .bytes_per_sector(512)
        .boundary_align(3)
        .build();
    assert_eq!(
        bad.err(),
        Some(FormatVolumeOptionsBuilderError::ValidationError(
            "Boundary alignment field must be a power of two.".to_string()
        ))
    );
    let o = FormatVolumeOptionsBuilder::default()
        .dev_size(77)
        .bytes_per_sector(1024)
        .build()
        .unwrap();
    assert!(o.pack_bitmap());
    assert!(!o.full_format());
    assert_eq!(o.dev_size(), 77);
    assert_eq!(o.label().1, 0);
    assert_eq!(o.label().0, [0u8; 22]);
    assert_eq!(o.guid(), None);
    assert_eq!(o.partition_offset(), 0);
    assert_eq!(o.bytes_per_sector(), 1024);
    assert_eq!(o.boundary_align(), 1024 * 1024);
    let q = o.request();
    assert_eq!(q.bytes_per_cluster, 4096);
    assert_eq!(q.size, 77);
    assert!(q.pack_bitmap);
}

#[test]
fn planned_volume_starts_without_used_clusters() {
    let options = FormatVolumeOptionsBuilder::default()
        .dev_size(64 * MB as u64)
        .bytes_per_sector(512)
        .partition_offset(1024 * 1024)
        .build()
        .unwrap();
    let x = Exfat::try_from(options).unwrap();
    assert_eq!(x.cluster_count_used, 0);
    assert_eq!(x.file_system_revision.vermaj, 1);
    assert_eq!(x.file_system_revision.vermin, 0);
    assert_eq!(x.volume_flags.bits(), 0);
    assert_eq!(x.geometry.partition_offset, 2048);
    assert_eq!(x.geometry, Geometry::solve(&options.request()).unwrap());
}

#[test]
fn boot_parameters_turn_down_the_sector_size_first() {
    // Whatever else is wrong with the sizes, the sector size is named.
    for bps in [0u16, 1, 256, 511, 513, 1000, 3072, 4097, 8192, u16::MAX] {
        for (cs, size) in [(4096u32, 64 * MB as u64), (3000, 64 * MB as u64), (4096, 5), (0, 0)] {
            let r = BootSectorMeta::try_new(
                0,
                bps,
                cs,
                size,
                1024 * 1024,
                FormatOptions::new(false, false, 64 * MB as u64),
            );
            assert_eq!(r.err(), Some(ExfatFormatError::InvalidBytesPerSector(bps)));
        }
    }
    // The sector size is not named where it is in order.
    for bps in [512u16, 1024, 2048, 4096] {
        let r = BootSectorMeta::try_new(
            0,
            bps,
            3000,
            64 * MB as u64,
            1024 * 1024,
            FormatOptions::new(false, false, 64 * MB as u64),
        );
        assert_eq!(r.err(), Some(ExfatFormatError::InvalidClusterSize(3000)));
    }
}

#[test]
fn boot_parameters_of_the_smallest_volume() {
    let new = |size: u64| {
        BootSectorMeta::try_new(
            0,
            512,
            4096,
            size,
            4096,
            FormatOptions::new(false, false, 64 * MB as u64),
        )
    };
    assert!(new(MB as u64).is_ok());
    assert_eq!(new(MB as u64).unwrap().size, 1_048_576);
    assert_eq!(
        new(MB as u64 - 1).err(),
        Some(ExfatFormatError::InvalidSize(1_048_575))
    );
    assert_eq!(new(0).err(), Some(ExfatFormatError::InvalidSize(0)));
    assert!(new(MB as u64 + 1).is_ok());
}
