//! The geometry solver: from the size of a device and a handful of options to
//! the place and length of every structure of the volume.

use crate::arith::{
    align_up, align_up_u32, align_up_u64, checked_add, checked_div, checked_mul, checked_sub,
    div_ceil, is_power_of_two, lemma_align_up, lemma_log2_pow2, log2, log2_exact,
};
use crate::error::ExfatFormatError;
use vstd::arithmetic::div_mod::{
    lemma_div_is_ordered, lemma_div_is_ordered_by_denominator, lemma_div_nonincreasing,
};
use vstd::arithmetic::power2::{
    lemma2_to64, lemma_pow2_strictly_increases, lemma_pow2_subtracts, pow2,
};
use vstd::prelude::*;

verus! {

/// Largest number of clusters a volume may have.
pub const MAX_CLUSTER_COUNT: u32 = 0xFFFFFFF5;

/// Largest size of a cluster, in bytes.
pub const MAX_CLUSTER_SIZE: u32 = 0x200_0000;

/// Size of the up-case table, in bytes.
pub const UPCASE_TABLE_SIZE_BYTES: u32 = 5836;

/// Size of the smallest volume, in bytes.
pub const MIN_VOLUME_SIZE: u64 = 0x10_0000;

/// Number of sectors that the two boot regions reserve ahead of the FAT.
pub const BOOT_SECTORS: u64 = 24;

/// Every offset and length that formatting needs, as the solver computed them.
#[derive(Debug, Clone, Copy, PartialEq, Eq)]
pub struct Geometry {
    /// Media-relative offset of the partition, in sectors.
    pub partition_offset: u64,
    /// Size of the volume, in sectors.
    pub volume_length: u64,
    /// Offset of the FAT, in sectors.
    pub fat_offset: u32,
    /// Length of the FAT, in sectors.
    pub fat_length: u32,
    /// Offset of the cluster heap, in sectors.
    pub cluster_heap_offset: u32,
    /// Number of clusters of the heap.
    pub cluster_count: u32,
    /// Index of the root directory's first cluster.
    pub first_cluster_of_root_directory: u32,
    /// Base-two logarithm of the sector size.
    pub bytes_per_sector_shift: u8,
    /// Base-two logarithm of the number of sectors of a cluster.
    pub sectors_per_cluster_shift: u8,
    /// Number of FATs.
    pub number_of_fats: u8,
    /// Size of a sector, in bytes.
    pub bytes_per_sector: u16,
    /// Size of a cluster, in bytes.
    pub bytes_per_cluster: u32,
    /// Offset of the FAT, in bytes.
    pub fat_offset_bytes: u32,
    /// Length of the FAT, in bytes.
    pub fat_length_bytes: u64,
    /// Offset of the cluster heap, in bytes.
    pub cluster_heap_offset_bytes: u32,
    /// Offset of the allocation bitmap, in bytes.
    pub bitmap_offset_bytes: u32,
    /// Length of the allocation bitmap, in bytes.
    pub bitmap_length_bytes: u32,
    /// Offset of the up-case table, in bytes.
    pub uptable_offset_bytes: u32,
    /// Index of the up-case table's first cluster.
    pub uptable_start_cluster: u32,
    /// Length of the up-case table, in bytes.
    pub uptable_length_bytes: u32,
    /// Offset of the root directory, in bytes.
    pub root_offset_bytes: u32,
    /// Length of the root directory that a formatted volume starts with, in
    /// bytes: four entries of 32 bytes.
    pub root_length_bytes: u32,
}

/// The options that the solver reads.
#[derive(Debug, Clone, Copy, PartialEq, Eq)]
pub struct GeometryRequest {
    /// Media-relative offset of the partition, in bytes.
    pub partition_offset: u64,
    /// Size of a sector, in bytes.
    pub bytes_per_sector: u16,
    /// Size of a cluster, in bytes.
    pub bytes_per_cluster: u32,
    /// Size of the device, in bytes.
    pub size: u64,
    /// Granularity to which the FAT and the cluster heap are aligned, in bytes.
    pub boundary_align: u32,
    /// Whether the bitmap moves into the gap between the FAT and the heap.
    pub pack_bitmap: bool,
}

pub open spec fn valid_sector_size(bps: u16) -> bool {
    bps == 512 || bps == 1024 || bps == 2048 || bps == 4096
}

pub open spec fn valid_cluster_size(cs: u32, bps: u16) -> bool {
    is_power_of_two(cs as int) && bps <= cs <= MAX_CLUSTER_SIZE
}

/// The cluster size that goes with a device size.
pub open spec fn spec_default_cluster_size(size: u64) -> u32 {
    if size <= 0x1000_0000 {
        0x1000
    } else if size <= 0x8_0000_0000 {
        0x8000
    } else {
        0x2_0000
    }
}

/// Offset of the FAT in bytes: the first boundary behind the boot regions,
/// counted from the partition's start.
pub open spec fn spec_fat_offset_bytes(q: GeometryRequest) -> Result<int, ExfatFormatError> {
    let start = BOOT_SECTORS * q.bytes_per_sector + q.partition_offset;
    let aligned = align_up(start, q.boundary_align as int);
    if start > u64::MAX {
        Err(ExfatFormatError::InvalidPartitionOffset(q.partition_offset))
    } else if aligned > u64::MAX || aligned - q.partition_offset > u32::MAX {
        Err(ExfatFormatError::BoundaryAlignTooBig(q.boundary_align))
    } else {
        Ok(aligned - q.partition_offset)
    }
}

/// Upper bound on the number of clusters that the FAT is sized for.
pub open spec fn spec_max_clusters(q: GeometryRequest, fat_offset_bytes: int) -> int {
    (q.size - fat_offset_bytes - 9) / (q.bytes_per_cluster + 4) + 1
}

/// Length of the FAT in bytes: four bytes for each cluster and for the two
/// reserved entries, rounded up to whole sectors.
pub open spec fn spec_fat_length_bytes(q: GeometryRequest, fat_offset_bytes: int) -> Result<
    int,
    ExfatFormatError,
> {
    let bytes = align_up((spec_max_clusters(q, fat_offset_bytes) + 2) * 4, q.bytes_per_sector as int);
    if q.size - fat_offset_bytes - 9 < 0 || bytes / (q.bytes_per_sector as int) > u32::MAX {
        Err(ExfatFormatError::InvalidClusterSize(q.bytes_per_cluster))
    } else {
        Ok(bytes)
    }
}

/// Offset of the cluster heap in bytes: the first boundary behind the FAT,
/// counted from the partition's start.
pub open spec fn spec_heap_offset_bytes(
    q: GeometryRequest,
    fat_offset_bytes: int,
    fat_length_bytes: int,
) -> Result<int, ExfatFormatError> {
    let end = q.partition_offset + fat_offset_bytes + fat_length_bytes;
    let aligned = align_up(end, q.boundary_align as int);
    if end > u64::MAX {
        Err(ExfatFormatError::InvalidPartitionOffset(q.partition_offset))
    } else if aligned > u64::MAX || aligned - q.partition_offset > u32::MAX || aligned
        - q.partition_offset >= q.size {
        Err(ExfatFormatError::BoundaryAlignTooBig(q.boundary_align))
    } else {
        Ok(aligned - q.partition_offset)
    }
}

/// Number of clusters between the heap's start and the device's end.
pub open spec fn spec_cluster_count(q: GeometryRequest, heap_offset_bytes: int) -> Result<
    int,
    ExfatFormatError,
> {
    let count = (q.size - heap_offset_bytes) / (q.bytes_per_cluster as int);
    let sectors = q.size / (q.bytes_per_sector as u64) - heap_offset_bytes / (
    q.bytes_per_sector as int);
    let by_sectors = sectors / (q.bytes_per_cluster as int / q.bytes_per_sector as int);
    if count > MAX_CLUSTER_COUNT || count > by_sectors {
        Err(ExfatFormatError::InvalidClusterSize(q.bytes_per_cluster))
    } else {
        Ok(count)
    }
}

/// Length in bytes of a bitmap of `clusters` bits.
pub open spec fn spec_bitmap_bytes(clusters: int) -> int {
    div_ceil(clusters, 8)
}

/// What packing the bitmap settles on.
pub struct Packed {
    /// Bytes, a whole number of clusters, that the heap moves down by.
    pub moved_bytes: int,
    /// Number of clusters of the heap, those of the bitmap counted in.
    pub cluster_count: int,
    /// Length of the bitmap, in bytes.
    pub bitmap_length_bytes: int,
}

/// Moves the heap's start down by the clusters of the bitmap, which grow the
/// heap and so the bitmap, until the bitmap's size in clusters stays.
/// `moved` is the size tried, in bytes.
pub open spec fn spec_pack(
    cluster_count: int,
    heap_offset_bytes: int,
    fat_end_bytes: int,
    cluster_size: int,
    moved: int,
) -> Result<Packed, ExfatFormatError>
    decreases heap_offset_bytes - moved,
{
    let clusters = moved / cluster_size;
    let total = cluster_count + clusters;
    let again = align_up(spec_bitmap_bytes(total), cluster_size);
    if fat_end_bytes < 0 || heap_offset_bytes - moved < fat_end_bytes || cluster_count
        > MAX_CLUSTER_COUNT - clusters {
        Err(ExfatFormatError::CannotPackBitmap)
    } else if again == moved {
        Ok(Packed { moved_bytes: moved, cluster_count: total, bitmap_length_bytes: spec_bitmap_bytes(total) })
    } else if again < moved || again > heap_offset_bytes {
        Err(ExfatFormatError::CannotPackBitmap)
    } else {
        spec_pack(cluster_count, heap_offset_bytes, fat_end_bytes, cluster_size, again)
    }
}

/// Places the bitmap, the up-case table and the root directory one after the
/// other from the heap's start, each on whole clusters.
pub open spec fn spec_layout(
    q: GeometryRequest,
    fat_offset_bytes: int,
    fat_length_bytes: int,
    heap_offset_bytes: int,
    cluster_count: int,
    bitmap_length_bytes: int,
) -> Result<Geometry, ExfatFormatError> {
    let cs = q.bytes_per_cluster as int;
    let bps = q.bytes_per_sector as int;
    let bitmap_span = align_up(bitmap_length_bytes, cs);
    let uptable_span = align_up(UPCASE_TABLE_SIZE_BYTES as int, cs);
    let uptable_offset = heap_offset_bytes + bitmap_span;
    let root_offset = uptable_offset + uptable_span;
    if root_offset > u32::MAX {
        Err(ExfatFormatError::InvalidClusterSize(q.bytes_per_cluster))
    } else {
        Ok(
            Geometry {
                partition_offset: (q.partition_offset / (q.bytes_per_sector as u64)) as u64,
                volume_length: (q.size / (q.bytes_per_sector as u64)) as u64,
                fat_offset: (fat_offset_bytes / bps) as u32,
                fat_length: (fat_length_bytes / bps) as u32,
                cluster_heap_offset: (heap_offset_bytes / bps) as u32,
                cluster_count: cluster_count as u32,
                first_cluster_of_root_directory: (2 + bitmap_span / cs + uptable_span / cs) as u32,
                bytes_per_sector_shift: log2(bps) as u8,
                sectors_per_cluster_shift: log2(cs / bps) as u8,
                number_of_fats: 1,
                bytes_per_sector: q.bytes_per_sector,
                bytes_per_cluster: q.bytes_per_cluster,
                fat_offset_bytes: fat_offset_bytes as u32,
                fat_length_bytes: fat_length_bytes as u64,
                cluster_heap_offset_bytes: heap_offset_bytes as u32,
                bitmap_offset_bytes: heap_offset_bytes as u32,
                bitmap_length_bytes: bitmap_length_bytes as u32,
                uptable_offset_bytes: uptable_offset as u32,
                uptable_start_cluster: (2 + bitmap_span / cs) as u32,
                uptable_length_bytes: UPCASE_TABLE_SIZE_BYTES,
                root_offset_bytes: root_offset as u32,
                root_length_bytes: 128,
            },
        )
    }
}

/// The heap and what lies in it, once the FAT is placed.
pub open spec fn spec_heap(q: GeometryRequest, fat_offset_bytes: int, fat_length_bytes: int) -> Result<
    Geometry,
    ExfatFormatError,
> {
    match spec_heap_offset_bytes(q, fat_offset_bytes, fat_length_bytes) {
        Err(e) => Err(e),
        Ok(heap) => match spec_cluster_count(q, heap) {
            Err(e) => Err(e),
            Ok(count) => if q.pack_bitmap {
                match spec_pack(
                    count,
                    heap,
                    fat_offset_bytes + fat_length_bytes,
                    q.bytes_per_cluster as int,
                    align_up(spec_bitmap_bytes(count), q.bytes_per_cluster as int),
                ) {
                    Err(e) => Err(e),
                    Ok(p) => spec_layout(
                        q,
                        fat_offset_bytes,
                        fat_length_bytes,
                        heap - p.moved_bytes,
                        p.cluster_count,
                        p.bitmap_length_bytes,
                    ),
                }
            } else {
                spec_layout(
                    q,
                    fat_offset_bytes,
                    fat_length_bytes,
                    heap,
                    count,
                    spec_bitmap_bytes(count),
                )
            },
        },
    }
}

/// The geometry of a volume, or the reason why the request has none.
pub open spec fn spec_solve(q: GeometryRequest) -> Result<Geometry, ExfatFormatError> {
    if !valid_sector_size(q.bytes_per_sector) {
        Err(ExfatFormatError::InvalidBytesPerSector(q.bytes_per_sector))
    } else if !valid_cluster_size(q.bytes_per_cluster, q.bytes_per_sector) {
        Err(ExfatFormatError::InvalidClusterSize(q.bytes_per_cluster))
    } else if q.size / (q.bytes_per_sector as u64) < MIN_VOLUME_SIZE / (q.bytes_per_sector as u64) {
        Err(ExfatFormatError::InvalidSize(q.size))
    } else {
        match spec_fat_offset_bytes(q) {
            Err(e) => Err(e),
            Ok(fat_offset) => match spec_fat_length_bytes(q, fat_offset) {
                Err(e) => Err(e),
                Ok(fat_length) => spec_heap(q, fat_offset, fat_length),
            },
        }
    }
}

/// Default cluster size for a device of the given size: 4 KiB up to 256 MiB,
/// 32 KiB up to 32 GiB, 128 KiB above.
pub fn default_cluster_size(size: u64) -> (r: u32)
    ensures
        r == spec_default_cluster_size(size),
{
    if size <= 0x1000_0000 {
        0x1000
    } else if size <= 0x8_0000_0000 {
        0x8000
    } else {
        0x2_0000
    }
}

fn fat_offset_bytes(q: &GeometryRequest) -> (r: Result<u32, ExfatFormatError>)
    requires
        q.boundary_align > 0,
    ensures
        match r {
            Ok(v) => spec_fat_offset_bytes(*q) == Ok::<int, ExfatFormatError>(v as int),
            Err(e) => spec_fat_offset_bytes(*q) == Err::<int, ExfatFormatError>(e),
        },
{
    let boot: Option<u64> = checked_mul(q.bytes_per_sector as u64, BOOT_SECTORS);
    let start: Option<u64> = match boot {
        Some(b) => checked_add(b, q.partition_offset),
        None => None,
    };
    match start {
        None => Err(ExfatFormatError::InvalidPartitionOffset(q.partition_offset)),
        Some(s) => {
            proof {
                lemma_align_up(s as int, q.boundary_align as int);
            }
            match align_up_u64(s, q.boundary_align as u64) {
                None => Err(ExfatFormatError::BoundaryAlignTooBig(q.boundary_align)),
                Some(a) => {
                    let offset: u64 = a - q.partition_offset;
                    if offset > u32::MAX as u64 {
                        Err(ExfatFormatError::BoundaryAlignTooBig(q.boundary_align))
                    } else {
                        Ok(offset as u32)
                    }
                },
            }
        },
    }
}

fn fat_length_bytes(q: &GeometryRequest, fat_offset: u32) -> (r: Result<u64, ExfatFormatError>)
    requires
        valid_sector_size(q.bytes_per_sector),
        q.bytes_per_cluster >= 512,
    ensures
        match r {
            Ok(v) => spec_fat_length_bytes(*q, fat_offset as int) == Ok::<int, ExfatFormatError>(
                v as int,
            ),
            Err(e) => spec_fat_length_bytes(*q, fat_offset as int) == Err::<int, ExfatFormatError>(e),
        },
{
    let bad = ExfatFormatError::InvalidClusterSize(q.bytes_per_cluster);
    let room: Option<u64> = match checked_sub(q.size, fat_offset as u64) {
        Some(a) => match checked_sub(a, 8) {
            Some(b) => checked_sub(b, 1),
            None => None,
        },
        None => None,
    };
    match room {
        None => Err(bad),
        Some(n) => {
            let per: u64 = q.bytes_per_cluster as u64 + 4;
            proof {
                lemma_div_is_ordered_by_denominator(n as int, 516, per as int);
            }
            let entries: Option<u64> = match checked_div(n, per) {
                Some(d) => match checked_add(d, 1) {
                    Some(m) => match checked_add(m, 2) {
                        Some(e) => checked_mul(e, 4),
                        None => None,
                    },
                    None => None,
                },
                None => None,
            };
            match entries {
                None => Err(bad),
                Some(raw) => {
                    proof {
                        lemma_align_up(raw as int, q.bytes_per_sector as int);
                    }
                    match align_up_u64(raw, q.bytes_per_sector as u64) {
                        None => Err(bad),
                        Some(bytes) => {
                            if bytes / (q.bytes_per_sector as u64) > u32::MAX as u64 {
                                Err(bad)
                            } else {
                                Ok(bytes)
                            }
                        },
                    }
                },
            }
        },
    }
}

fn heap_offset_bytes(q: &GeometryRequest, fat_offset: u32, fat_length: u64) -> (r: Result<
    u32,
    ExfatFormatError,
>)
    requires
        q.boundary_align > 0,
    ensures
        match r {
            Ok(v) => spec_heap_offset_bytes(*q, fat_offset as int, fat_length as int) == Ok::<
                int,
                ExfatFormatError,
            >(v as int),
            Err(e) => spec_heap_offset_bytes(*q, fat_offset as int, fat_length as int) == Err::<
                int,
                ExfatFormatError,
            >(e),
        },
{
    let end: Option<u64> = match checked_add(q.partition_offset, fat_offset as u64) {
        Some(a) => checked_add(a, fat_length),
        None => None,
    };
    match end {
        None => Err(ExfatFormatError::InvalidPartitionOffset(q.partition_offset)),
        Some(e) => {
            proof {
                lemma_align_up(e as int, q.boundary_align as int);
            }
            match align_up_u64(e, q.boundary_align as u64) {
                None => Err(ExfatFormatError::BoundaryAlignTooBig(q.boundary_align)),
                Some(a) => {
                    let offset: u64 = a - q.partition_offset;
                    if offset > u32::MAX as u64 || offset >= q.size {
                        Err(ExfatFormatError::BoundaryAlignTooBig(q.boundary_align))
                    } else {
                        Ok(offset as u32)
                    }
                },
            }
        },
    }
}

fn cluster_count(q: &GeometryRequest, heap: u32) -> (r: Result<u32, ExfatFormatError>)
    requires
        valid_sector_size(q.bytes_per_sector),
        q.bytes_per_cluster >= q.bytes_per_sector,
        heap < q.size,
    ensures
        match r {
            Ok(v) => spec_cluster_count(*q, heap as int) == Ok::<int, ExfatFormatError>(v as int),
            Err(e) => spec_cluster_count(*q, heap as int) == Err::<int, ExfatFormatError>(e),
        },
{
    let bps: u64 = q.bytes_per_sector as u64;
    let count: u64 = (q.size - heap as u64) / (q.bytes_per_cluster as u64);
    proof {
        lemma_div_is_ordered(heap as int, q.size as int, bps as int);
        lemma_div_is_ordered(bps as int, q.bytes_per_cluster as int, bps as int);
    }
    let sectors: u64 = q.size / bps - heap as u64 / bps;
    let by_sectors: u64 = sectors / (q.bytes_per_cluster as u64 / bps);
    if count > MAX_CLUSTER_COUNT as u64 || count > by_sectors {
        Err(ExfatFormatError::InvalidClusterSize(q.bytes_per_cluster))
    } else {
        Ok(count as u32)
    }
}

/// Length in bytes of a bitmap of `clusters` bits.
pub fn bitmap_bytes(clusters: u32) -> (r: u32)
    ensures
        r == spec_bitmap_bytes(clusters as int),
        r <= 0x2000_0000,
{
    if clusters % 8 == 0 {
        clusters / 8
    } else {
        clusters / 8 + 1
    }
}

/// `len` rounded up to whole clusters of `cs` bytes.
fn cluster_span(len: u32, cs: u32) -> (r: u32)
    requires
        0 < cs <= MAX_CLUSTER_SIZE,
        len <= 0x2000_0000,
    ensures
        r == align_up(len as int, cs as int),
        r <= 0x2200_0000,
        r % cs == 0,
{
    proof {
        lemma_align_up(len as int, cs as int);
    }
    align_up_u32(len, cs)
}

fn pack(count: u32, heap: u32, fat_end: u64, cs: u32) -> (r: Result<(u32, u32, u32), ExfatFormatError>)
    requires
        0 < cs <= MAX_CLUSTER_SIZE,
    ensures
        match r {
            Ok((moved, total, bitmap)) => spec_pack(
                count as int,
                heap as int,
                fat_end as int,
                cs as int,
                align_up(spec_bitmap_bytes(count as int), cs as int),
            ) == Ok::<Packed, ExfatFormatError>(
                Packed {
                    moved_bytes: moved as int,
                    cluster_count: total as int,
                    bitmap_length_bytes: bitmap as int,
                },
            ) && moved <= heap && bitmap <= 0x2000_0000,
            Err(e) => spec_pack(
                count as int,
                heap as int,
                fat_end as int,
                cs as int,
                align_up(spec_bitmap_bytes(count as int), cs as int),
            ) == Err::<Packed, ExfatFormatError>(e),
        },
{
    let mut moved: u32 = cluster_span(bitmap_bytes(count), cs);
    let ghost first = moved as int;
    loop
        invariant
            0 < cs <= MAX_CLUSTER_SIZE,
            moved <= 0x2200_0000,
            spec_pack(count as int, heap as int, fat_end as int, cs as int, moved as int)
                == spec_pack(count as int, heap as int, fat_end as int, cs as int, first),
            first == align_up(spec_bitmap_bytes(count as int), cs as int),
        decreases 0x2200_0000 - moved,
    {
        let clusters: u32 = moved / cs;
        if moved > heap || ((heap - moved) as u64) < fat_end || count > MAX_CLUSTER_COUNT - clusters {
            return Err(ExfatFormatError::CannotPackBitmap);
        }
        let total: u32 = count + clusters;
        let bitmap: u32 = bitmap_bytes(total);
        let again: u32 = cluster_span(bitmap, cs);
        if again == moved {
            return Ok((moved, total, bitmap));
        }
        if again < moved || again > heap {
            return Err(ExfatFormatError::CannotPackBitmap);
        }
        moved = again;
    }
}

fn layout(
    q: &GeometryRequest,
    fat_offset: u32,
    fat_length: u64,
    heap: u32,
    count: u32,
    bitmap: u32,
) -> (r: Result<Geometry, ExfatFormatError>)
    requires
        valid_sector_size(q.bytes_per_sector),
        valid_cluster_size(q.bytes_per_cluster, q.bytes_per_sector),
        bitmap <= 0x2000_0000,
        fat_length / (q.bytes_per_sector as u64) <= u32::MAX,
    ensures
        r == spec_layout(
            *q,
            fat_offset as int,
            fat_length as int,
            heap as int,
            count as int,
            bitmap as int,
        ),
{
    let cs: u32 = q.bytes_per_cluster;
    let bps: u32 = q.bytes_per_sector as u32;
    let bitmap_span: u32 = cluster_span(bitmap, cs);
    let uptable_span: u32 = cluster_span(UPCASE_TABLE_SIZE_BYTES, cs);
    let root_offset: u64 = heap as u64 + bitmap_span as u64 + uptable_span as u64;
    if root_offset > u32::MAX as u64 {
        return Err(ExfatFormatError::InvalidClusterSize(q.bytes_per_cluster));
    }
    let sector_shift: Option<u8> = log2_exact(bps);
    let cluster_shift: Option<u8> = log2_exact(cs / bps);
    proof {
        lemma2_to64();
        assert(bps == pow2(9) || bps == pow2(10) || bps == pow2(11) || bps == pow2(12));
        let kc = choose|k: nat| k < 32 && cs == #[trigger] pow2(k);
        let kb = choose|k: nat| k < 32 && bps == #[trigger] pow2(k);
        if kc < kb {
            lemma_pow2_strictly_increases(kc, kb);
        }
        lemma_pow2_subtracts(kb, kc);
        assert(cs / bps == pow2((kc - kb) as nat));
        lemma_log2_pow2(kb);
        lemma_log2_pow2((kc - kb) as nat);
        if sector_shift is Some {
            lemma_log2_pow2(sector_shift->0 as nat);
        }
        if cluster_shift is Some {
            lemma_log2_pow2(cluster_shift->0 as nat);
        }
        lemma_div_nonincreasing(bitmap_span as int, cs as int);
        lemma_div_nonincreasing(uptable_span as int, cs as int);
    }
    match (sector_shift, cluster_shift) {
        (Some(bytes_per_sector_shift), Some(sectors_per_cluster_shift)) => Ok(
            Geometry {
                partition_offset: q.partition_offset / (bps as u64),
                volume_length: q.size / (bps as u64),
                fat_offset: fat_offset / bps,
                fat_length: (fat_length / (bps as u64)) as u32,
                cluster_heap_offset: heap / bps,
                cluster_count: count,
                first_cluster_of_root_directory: 2 + bitmap_span / cs + uptable_span / cs,
                bytes_per_sector_shift,
                sectors_per_cluster_shift,
                number_of_fats: 1,
                bytes_per_sector: q.bytes_per_sector,
                bytes_per_cluster: cs,
                fat_offset_bytes: fat_offset,
                fat_length_bytes: fat_length,
                cluster_heap_offset_bytes: heap,
                bitmap_offset_bytes: heap,
                bitmap_length_bytes: bitmap,
                uptable_offset_bytes: heap + bitmap_span,
                uptable_start_cluster: 2 + bitmap_span / cs,
                uptable_length_bytes: UPCASE_TABLE_SIZE_BYTES,
                root_offset_bytes: root_offset as u32,
                root_length_bytes: 128,
            },
        ),
        _ => Err(ExfatFormatError::InvalidClusterSize(q.bytes_per_cluster)),
    }
}

impl Geometry {
    /// Computes the geometry of a volume: the sector and cluster sizes are
    /// checked, the FAT is put on the first boundary behind the 24 boot
    /// sectors, the cluster heap on the first boundary behind the FAT, and the
    /// bitmap, the up-case table and the root directory follow one another
    /// from the heap's start. Each way in which a request has no geometry
    /// gives its own error.
    pub fn solve(q: &GeometryRequest) -> (r: Result<Geometry, ExfatFormatError>)
        requires
            q.boundary_align > 0,
        ensures
            r == spec_solve(*q),
    {
        let bps: u16 = q.bytes_per_sector;
        if !(bps == 512 || bps == 1024 || bps == 2048 || bps == 4096) {
            return Err(ExfatFormatError::InvalidBytesPerSector(bps));
        }
        let cs: u32 = q.bytes_per_cluster;
        if log2_exact(cs).is_none() || cs < bps as u32 || cs > MAX_CLUSTER_SIZE {
            return Err(ExfatFormatError::InvalidClusterSize(cs));
        }
        if q.size / (bps as u64) < MIN_VOLUME_SIZE / (bps as u64) {
            return Err(ExfatFormatError::InvalidSize(q.size));
        }
        let fat_offset: u32 = fat_offset_bytes(q)?;
        let fat_length: u64 = fat_length_bytes(q, fat_offset)?;
        let heap: u32 = heap_offset_bytes(q, fat_offset, fat_length)?;
        let count: u32 = cluster_count(q, heap)?;
        if q.pack_bitmap {
            let fat_end: u64 = fat_offset as u64 + fat_length;
            let (moved, total, bitmap) = pack(count, heap, fat_end, cs)?;
            layout(q, fat_offset, fat_length, heap - moved, total, bitmap)
        } else {
            layout(q, fat_offset, fat_length, heap, count, bitmap_bytes(count))
        }
    }
}

} // verus!
