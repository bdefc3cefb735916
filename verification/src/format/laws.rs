//! What holds of every geometry that the solver computes.

use crate::arith::{align_up, div_ceil, is_power_of_two, lemma_align_up, lemma_log2_pow2, log2};
use crate::error::ExfatFormatError;
use crate::format::geometry::{
    spec_bitmap_bytes, spec_cluster_count, spec_default_cluster_size, spec_fat_length_bytes,
    spec_fat_offset_bytes,
    spec_heap, spec_heap_offset_bytes, spec_layout, spec_pack, spec_solve, valid_cluster_size,
    valid_sector_size, Geometry, GeometryRequest, Packed, MAX_CLUSTER_COUNT, MAX_CLUSTER_SIZE,
    UPCASE_TABLE_SIZE_BYTES,
};
use vstd::arithmetic::div_mod::{
    lemma_div_is_ordered, lemma_div_pos_is_pos, lemma_fundamental_div_mod,
    lemma_hoist_over_denominator, lemma_mod_multiples_basic,
};
use vstd::arithmetic::power2::{
    lemma2_to64, lemma_pow2_adds, lemma_pow2_strictly_increases, lemma_pow2_subtracts, pow2,
};
use vstd::prelude::*;

verus! {

/// Number of bytes by which packing moved the heap's start down: the clusters
/// of the bitmap when the bitmap is packed, nothing otherwise.
pub open spec fn packed_span(q: GeometryRequest, g: Geometry) -> int {
    if q.pack_bitmap {
        align_up(g.bitmap_length_bytes as int, g.bytes_per_cluster as int)
    } else {
        0
    }
}

/// Number of clusters that the bitmap, the up-case table and the root
/// directory take at the heap's start.
pub open spec fn system_clusters(g: Geometry) -> int {
    div_ceil(g.bitmap_length_bytes as int, g.bytes_per_cluster as int) + div_ceil(
        g.uptable_length_bytes as int,
        g.bytes_per_cluster as int,
    ) + 1
}

proof fn lemma_difference_of_multiples(x: int, y: int, a: int)
    requires
        a > 0,
        x % a == 0,
        y % a == 0,
    ensures
        (x - y) % a == 0,
        (x + y) % a == 0,
{
    lemma_fundamental_div_mod(x, a);
    lemma_fundamental_div_mod(y, a);
    let kx = x / a;
    let ky = y / a;
    assert(x - y == (kx - ky) * a) by (nonlinear_arith)
        requires
            x == a * kx,
            y == a * ky,
    ;
    assert(x + y == (kx + ky) * a) by (nonlinear_arith)
        requires
            x == a * kx,
            y == a * ky,
    ;
    lemma_mod_multiples_basic(kx - ky, a);
    lemma_mod_multiples_basic(kx + ky, a);
}

/// What a successful packing gives: the heap moved by the bitmap's own span,
/// which leaves the FAT untouched and the cluster count within its limit.
pub proof fn lemma_pack_result(count: int, heap: int, fat_end: int, cs: int, moved: int)
    requires
        cs > 0,
        count >= 0,
        moved >= 0,
        moved % cs == 0,
        spec_pack(count, heap, fat_end, cs, moved) is Ok,
    ensures
        ({
            let p = spec_pack(count, heap, fat_end, cs, moved)->Ok_0;
            &&& 0 <= fat_end <= heap - p.moved_bytes
            &&& p.moved_bytes >= 0
            &&& p.moved_bytes % cs == 0
            &&& p.cluster_count == count + p.moved_bytes / cs
            &&& p.cluster_count <= MAX_CLUSTER_COUNT
            &&& p.bitmap_length_bytes == spec_bitmap_bytes(p.cluster_count)
            &&& align_up(p.bitmap_length_bytes, cs) == p.moved_bytes
        }),
    decreases heap - moved,
{
    let clusters = moved / cs;
    let total = count + clusters;
    let again = align_up(spec_bitmap_bytes(total), cs);
    lemma_div_pos_is_pos(moved, cs);
    if again != moved {
        assert(spec_bitmap_bytes(total) >= 0);
        lemma_align_up(spec_bitmap_bytes(total), cs);
        lemma_pack_result(count, heap, fat_end, cs, again);
    }
}

/// The FAT starts on a boundary of the medium: its byte offset from the
/// partition's start, added to the partition's own offset, is a multiple of
/// the boundary alignment; so is the offset alone where the partition itself
/// starts on a boundary.
pub proof fn lemma_fat_offset_aligned(q: GeometryRequest)
    requires
        q.boundary_align > 0,
        spec_solve(q) is Ok,
    ensures
        (spec_solve(q)->Ok_0.fat_offset_bytes + q.partition_offset) % (q.boundary_align as int) == 0,
        q.partition_offset % (q.boundary_align as u64) == 0 ==> spec_solve(q)->Ok_0.fat_offset_bytes
            % q.boundary_align == 0,
{
    let a = q.boundary_align as int;
    let start = 24 * q.bytes_per_sector + q.partition_offset;
    lemma_align_up(start, a);
    lemma_geometry_parts(q);
    if q.partition_offset % (q.boundary_align as u64) == 0 {
        lemma_difference_of_multiples(align_up(start, a), q.partition_offset as int, a);
    }
}

/// The shifts of valid sector and cluster sizes fit in a byte.
proof fn lemma_shifts(q: GeometryRequest)
    requires
        valid_sector_size(q.bytes_per_sector),
        valid_cluster_size(q.bytes_per_cluster, q.bytes_per_sector),
    ensures
        9 <= log2(q.bytes_per_sector as int) <= 12,
        q.bytes_per_sector == pow2(log2(q.bytes_per_sector as int) as nat),
        0 <= log2(q.bytes_per_cluster as int / q.bytes_per_sector as int) <= 25 - log2(
            q.bytes_per_sector as int,
        ),
        q.bytes_per_cluster as int / q.bytes_per_sector as int == pow2(
            log2(q.bytes_per_cluster as int / q.bytes_per_sector as int) as nat,
        ),
        q.bytes_per_cluster == pow2(
            (log2(q.bytes_per_sector as int) + log2(
                q.bytes_per_cluster as int / q.bytes_per_sector as int,
            )) as nat,
        ),
        q.bytes_per_cluster == (q.bytes_per_cluster as int / q.bytes_per_sector as int)
            * q.bytes_per_sector,
{
    let cs = q.bytes_per_cluster as int;
    let bps = q.bytes_per_sector as int;
    lemma2_to64();
    let kc = choose|k: nat| k < 32 && cs == #[trigger] pow2(k);
    let kb: nat = if bps == 512 {
        9
    } else if bps == 1024 {
        10
    } else if bps == 2048 {
        11
    } else {
        12
    };
    assert(bps == pow2(kb));
    if kc < kb {
        lemma_pow2_strictly_increases(kc, kb);
    }
    if kc > 25 {
        lemma_pow2_strictly_increases(25, kc);
    }
    lemma_pow2_subtracts(kb, kc);
    lemma_pow2_adds(kb, (kc - kb) as nat);
    let spc = cs / bps;
    assert(spc == pow2((kc - kb) as nat));
    assert(cs == spc * bps) by (nonlinear_arith)
        requires
            cs == bps * spc,
    ;
    lemma_log2_pow2(kb);
    lemma_log2_pow2((kc - kb) as nat);
}

/// How the fields of a computed geometry come from the solver's steps.
pub proof fn lemma_geometry_parts(q: GeometryRequest)
    requires
        q.boundary_align > 0,
        spec_solve(q) is Ok,
    ensures
        ({
            let g = spec_solve(q)->Ok_0;
            let fat_offset = spec_fat_offset_bytes(q)->Ok_0;
            let fat_length = spec_fat_length_bytes(q, fat_offset)->Ok_0;
            let heap = spec_heap_offset_bytes(q, fat_offset, fat_length)->Ok_0;
            let count = spec_cluster_count(q, heap)->Ok_0;
            let cs = q.bytes_per_cluster as int;
            &&& valid_sector_size(q.bytes_per_sector)
            &&& valid_cluster_size(q.bytes_per_cluster, q.bytes_per_sector)
            &&& spec_fat_offset_bytes(q) is Ok
            &&& spec_fat_length_bytes(q, fat_offset) is Ok
            &&& spec_heap_offset_bytes(q, fat_offset, fat_length) is Ok
            &&& spec_cluster_count(q, heap) is Ok
            &&& g.fat_offset_bytes == fat_offset
            &&& g.fat_length_bytes == fat_length
            &&& g.bytes_per_sector == q.bytes_per_sector
            &&& g.bytes_per_cluster == q.bytes_per_cluster
            &&& g.uptable_length_bytes == UPCASE_TABLE_SIZE_BYTES
            &&& g.bitmap_offset_bytes == g.cluster_heap_offset_bytes
            &&& g.number_of_fats == 1
            &&& g.root_length_bytes == 128
            &&& g.partition_offset == q.partition_offset / (q.bytes_per_sector as u64)
            &&& g.volume_length == q.size / (q.bytes_per_sector as u64)
            &&& g.fat_offset == fat_offset / (q.bytes_per_sector as int)
            &&& g.fat_length == fat_length / (q.bytes_per_sector as int)
            &&& g.cluster_heap_offset == g.cluster_heap_offset_bytes / (q.bytes_per_sector as u32)
            &&& g.bytes_per_sector_shift == log2(q.bytes_per_sector as int)
            &&& g.sectors_per_cluster_shift == log2(cs / (q.bytes_per_sector as int))
            &&& g.cluster_heap_offset_bytes + packed_span(q, g) == heap
            &&& g.cluster_count == count + packed_span(q, g) / cs
            &&& packed_span(q, g) % cs == 0
            &&& 0 <= count <= MAX_CLUSTER_COUNT
            &&& g.cluster_count <= MAX_CLUSTER_COUNT
            &&& fat_offset + fat_length <= g.cluster_heap_offset_bytes
            &&& g.bitmap_length_bytes == spec_bitmap_bytes(g.cluster_count as int)
            &&& g.uptable_offset_bytes == g.cluster_heap_offset_bytes + align_up(
                g.bitmap_length_bytes as int,
                cs,
            )
            &&& g.root_offset_bytes == g.uptable_offset_bytes + align_up(
                UPCASE_TABLE_SIZE_BYTES as int,
                cs,
            )
            &&& g.uptable_start_cluster == 2 + align_up(g.bitmap_length_bytes as int, cs) / cs
            &&& g.first_cluster_of_root_directory == g.uptable_start_cluster + align_up(
                UPCASE_TABLE_SIZE_BYTES as int,
                cs,
            ) / cs
        }),
{
    let fat_offset = spec_fat_offset_bytes(q)->Ok_0;
    let fat_length = spec_fat_length_bytes(q, fat_offset)->Ok_0;
    let heap = spec_heap_offset_bytes(q, fat_offset, fat_length)->Ok_0;
    let count = spec_cluster_count(q, heap)->Ok_0;
    let cs = q.bytes_per_cluster as int;
    let bps = q.bytes_per_sector as int;
    assert(spec_heap(q, fat_offset, fat_length) is Ok);
    lemma_shifts(q);
    lemma_div_pos_is_pos(fat_offset, bps);
    lemma_div_pos_is_pos(fat_length, bps);
    vstd::arithmetic::div_mod::lemma_div_nonincreasing(fat_offset, bps);
    lemma_align_up(24 * q.bytes_per_sector + q.partition_offset, q.boundary_align as int);
    lemma_align_up(q.partition_offset + fat_offset + fat_length, q.boundary_align as int);
    lemma_div_pos_is_pos(q.size - heap, cs);
    assert(count >= 0);
    assert(spec_bitmap_bytes(count) >= 0);
    lemma_align_up(spec_bitmap_bytes(count), cs);
    lemma_align_up(UPCASE_TABLE_SIZE_BYTES as int, cs);
    if q.pack_bitmap {
        let first = align_up(spec_bitmap_bytes(count), cs);
        lemma_pack_result(count, heap, fat_offset + fat_length, cs, first);
        let p = spec_pack(count, heap, fat_offset + fat_length, cs, first)->Ok_0;
        assert(spec_bitmap_bytes(p.cluster_count) >= 0);
        lemma_align_up(p.bitmap_length_bytes, cs);
        lemma_div_pos_is_pos(p.moved_bytes, cs);
        lemma_div_pos_is_pos(p.moved_bytes, cs);
        let g = spec_solve(q)->Ok_0;
        assert(g == spec_layout(
            q,
            fat_offset,
            fat_length,
            heap - p.moved_bytes,
            p.cluster_count,
            p.bitmap_length_bytes,
        )->Ok_0);
        lemma_div_pos_is_pos(heap - p.moved_bytes, bps);
        vstd::arithmetic::div_mod::lemma_div_nonincreasing(heap - p.moved_bytes, bps);
        assert(p.bitmap_length_bytes <= 0x2000_0000);
    } else {
        let g = spec_solve(q)->Ok_0;
        assert(g == spec_layout(q, fat_offset, fat_length, heap, count, spec_bitmap_bytes(count))->Ok_0);
        lemma_div_pos_is_pos(heap, bps);
        vstd::arithmetic::div_mod::lemma_div_nonincreasing(heap, bps);
        assert(0int / cs == 0) by (nonlinear_arith)
            requires
                cs > 0,
        ;
        assert(0int % cs == 0) by (nonlinear_arith)
            requires
                cs > 0,
        ;
    }
}

/// The cluster heap starts on a boundary of the medium once the clusters
/// that packing moved ahead of it are counted back in: where the bitmap is
/// not packed, or its span is itself a multiple of the alignment, the heap's
/// byte offset added to the partition's offset is a multiple of the boundary
/// alignment; where it is packed, the first cluster behind the bitmap is the
/// one on the boundary.
pub proof fn lemma_heap_offset_aligned(q: GeometryRequest)
    requires
        q.boundary_align > 0,
        spec_solve(q) is Ok,
    ensures
        ({
            let g = spec_solve(q)->Ok_0;
            let a = q.boundary_align as int;
            &&& (g.cluster_heap_offset_bytes + packed_span(q, g) + q.partition_offset) % a == 0
            &&& packed_span(q, g) % a == 0 ==> (g.cluster_heap_offset_bytes + q.partition_offset)
                % a == 0
            &&& packed_span(q, g) % a == 0 && q.partition_offset % (q.boundary_align as u64) == 0
                ==> g.cluster_heap_offset_bytes % q.boundary_align == 0
        }),
{
    let g = spec_solve(q)->Ok_0;
    let a = q.boundary_align as int;
    lemma_geometry_parts(q);
    let fat_offset = spec_fat_offset_bytes(q)->Ok_0;
    let fat_length = spec_fat_length_bytes(q, fat_offset)->Ok_0;
    lemma_align_up(q.partition_offset + fat_offset + fat_length, a);
    let whole = g.cluster_heap_offset_bytes + packed_span(q, g) + q.partition_offset;
    assert(whole % a == 0);
    if packed_span(q, g) % a == 0 {
        lemma_difference_of_multiples(whole, packed_span(q, g), a);
        if q.partition_offset % (q.boundary_align as u64) == 0 {
            lemma_difference_of_multiples(
                g.cluster_heap_offset_bytes + q.partition_offset,
                q.partition_offset as int,
                a,
            );
        }
    }
}

/// No computed geometry has more clusters than the format allows.
pub proof fn lemma_cluster_count_bounded(q: GeometryRequest)
    requires
        q.boundary_align > 0,
        spec_solve(q) is Ok,
    ensures
        spec_solve(q)->Ok_0.cluster_count <= 0xFFFF_FFF5,
{
    lemma_geometry_parts(q);
}

/// The root directory's first cluster is never below the first usable
/// cluster, and it is the cluster right behind the bitmap and the up-case
/// table. It lies within the heap exactly where the heap has room for the
/// bitmap, the up-case table and one cluster of root directory.
pub proof fn lemma_root_cluster_in_range(q: GeometryRequest)
    requires
        q.boundary_align > 0,
        spec_solve(q) is Ok,
    ensures
        ({
            let g = spec_solve(q)->Ok_0;
            &&& g.first_cluster_of_root_directory >= 2
            &&& g.first_cluster_of_root_directory == 2 + system_clusters(g) - 1
            &&& system_clusters(g) <= g.cluster_count <==> g.first_cluster_of_root_directory
                <= g.cluster_count + 1
        }),
{
    let g = spec_solve(q)->Ok_0;
    let cs = q.bytes_per_cluster as int;
    lemma_geometry_parts(q);
    lemma_span_in_clusters(g.bitmap_length_bytes as int, cs);
    lemma_span_in_clusters(UPCASE_TABLE_SIZE_BYTES as int, cs);
}

/// A length rounded up to whole clusters holds as many clusters as the
/// length divided by the cluster size, rounded up.
pub proof fn lemma_span_in_clusters(len: int, cs: int)
    requires
        len >= 0,
        cs > 0,
    ensures
        align_up(len, cs) / cs == div_ceil(len, cs),
        div_ceil(len, cs) >= 0,
{
    lemma_align_up(len, cs);
    vstd::arithmetic::div_mod::lemma_div_by_multiple(div_ceil(len, cs), cs);
    lemma_div_pos_is_pos(len, cs);
}

/// The invariants of the boot parameters: the shifts are the logarithms of
/// the sector and cluster sizes and lie in their ranges, the FAT leaves the
/// 24 boot sectors alone and ends before the heap, the volume has at least
/// one mebibyte, and the heap's clusters end within the volume.
pub proof fn lemma_boot_parameters_valid(q: GeometryRequest)
    requires
        q.boundary_align > 0,
        spec_solve(q) is Ok,
    ensures
        ({
            let g = spec_solve(q)->Ok_0;
            &&& 9 <= g.bytes_per_sector_shift <= 12
            &&& g.bytes_per_sector == pow2(g.bytes_per_sector_shift as nat)
            &&& g.sectors_per_cluster_shift <= 25 - g.bytes_per_sector_shift
            &&& g.bytes_per_cluster == pow2(
                (g.bytes_per_sector_shift + g.sectors_per_cluster_shift) as nat,
            )
            &&& g.bytes_per_sector <= g.bytes_per_cluster <= MAX_CLUSTER_SIZE
            &&& g.number_of_fats == 1
            &&& g.fat_offset >= 24
            &&& g.volume_length * g.bytes_per_sector >= 0x10_0000
            &&& g.cluster_count <= MAX_CLUSTER_COUNT
            &&& g.cluster_heap_offset + g.cluster_count * pow2(g.sectors_per_cluster_shift as nat)
                <= g.volume_length
        }),
{
    let g = spec_solve(q)->Ok_0;
    let cs = q.bytes_per_cluster as int;
    let bps = q.bytes_per_sector as int;
    lemma_geometry_parts(q);
    lemma_shifts(q);
    let spc = cs / bps;
    // The FAT leaves the boot sectors alone.
    let fat_offset = spec_fat_offset_bytes(q)->Ok_0;
    let fat_length = spec_fat_length_bytes(q, fat_offset)->Ok_0;
    lemma_align_up(24 * q.bytes_per_sector + q.partition_offset, q.boundary_align as int);
    assert(fat_offset >= 24 * bps);
    lemma_div_is_ordered(24 * bps, fat_offset, bps);
    vstd::arithmetic::div_mod::lemma_div_multiples_vanish(24, bps);
    assert(g.fat_offset == fat_offset / bps);
    // The volume has a mebibyte.
    lemma_fundamental_div_mod(q.size as int, bps);
    assert(g.volume_length == q.size / (q.bytes_per_sector as u64));
    assert(g.volume_length * bps >= 0x10_0000) by (nonlinear_arith)
        requires
            g.volume_length >= 0x10_0000int / bps,
            bps == 512 || bps == 1024 || bps == 2048 || bps == 4096,
    ;
    // The heap's clusters end within the volume.
    let heap = spec_heap_offset_bytes(q, fat_offset, fat_length)->Ok_0;
    let count = spec_cluster_count(q, heap)->Ok_0;
    let sectors = q.size as int / bps - heap / bps;
    lemma_div_is_ordered(heap, q.size as int, bps);
    lemma_fundamental_div_mod(sectors, spc);
    assert(count * spc <= sectors) by (nonlinear_arith)
        requires
            count <= sectors / spc,
            sectors == spc * (sectors / spc) + sectors % spc,
            0 <= sectors % spc,
            spc > 0,
    ;
    let span = packed_span(q, g);
    let moved_clusters = span / cs;
    lemma_fundamental_div_mod(span, cs);
    lemma_div_pos_is_pos(span, cs);
    assert(span == moved_clusters * spc * bps) by (nonlinear_arith)
        requires
            span == cs * moved_clusters + span % cs,
            span % cs == 0,
            cs == spc * bps,
    ;
    lemma_hoist_over_denominator(g.cluster_heap_offset_bytes as int, moved_clusters * spc, bps as nat);
    assert(heap / bps == g.cluster_heap_offset_bytes as int / bps + moved_clusters * spc);
    vstd::arithmetic::div_mod::lemma_div_nonincreasing(g.cluster_heap_offset_bytes as int, bps);
    lemma_div_pos_is_pos(g.cluster_heap_offset_bytes as int, bps);
    assert(g.cluster_heap_offset == g.cluster_heap_offset_bytes as int / bps);
    assert((count + moved_clusters) * spc == count * spc + moved_clusters * spc)
        by (nonlinear_arith);
    assert(g.volume_length == q.size as int / bps);
}

/// Packing the bitmap fails in one way only.
pub proof fn lemma_pack_error(count: int, heap: int, fat_end: int, cs: int, moved: int)
    ensures
        spec_pack(count, heap, fat_end, cs, moved) is Err ==> spec_pack(
            count,
            heap,
            fat_end,
            cs,
            moved,
        ) == Err::<Packed, ExfatFormatError>(ExfatFormatError::CannotPackBitmap),
    decreases heap - moved,
{
    let clusters = moved / cs;
    let total = count + clusters;
    let again = align_up(spec_bitmap_bytes(total), cs);
    if !(fat_end < 0 || heap - moved < fat_end || count > MAX_CLUSTER_COUNT - clusters) && again
        != moved && !(again < moved || again > heap) {
        lemma_pack_error(count, heap, fat_end, cs, again);
    }
}

/// A device has fewer sectors than a mebibyte has exactly where it has fewer
/// bytes.
pub proof fn lemma_size_in_sectors(size: u64, bps: u16)
    requires
        valid_sector_size(bps),
    ensures
        size / (bps as u64) < 0x10_0000u64 / (bps as u64) <==> size < 0x10_0000,
{
    let b = bps as u64;
    let s = size / b;
    let m = 0x10_0000u64 / b;
    if bps == 512 {
        assert(s == size / 512 && m == 2048) by (nonlinear_arith)
            requires
                b == 512,
                s == size / b,
                m == 0x10_0000u64 / b,
        ;
    } else if bps == 1024 {
        assert(s == size / 1024 && m == 1024) by (nonlinear_arith)
            requires
                b == 1024,
                s == size / b,
                m == 0x10_0000u64 / b,
        ;
    } else if bps == 2048 {
        assert(s == size / 2048 && m == 512) by (nonlinear_arith)
            requires
                b == 2048,
                s == size / b,
                m == 0x10_0000u64 / b,
        ;
    } else {
        assert(s == size / 4096 && m == 256) by (nonlinear_arith)
            requires
                b == 4096,
                s == size / b,
                m == 0x10_0000u64 / b,
        ;
    }
}

/// Behind the checks of the sizes the solver fails with one of four errors.
pub proof fn lemma_later_errors(q: GeometryRequest)
    requires
        q.boundary_align > 0,
        valid_sector_size(q.bytes_per_sector),
        valid_cluster_size(q.bytes_per_cluster, q.bytes_per_sector),
        q.size >= 0x10_0000,
    ensures
        spec_solve(q) matches Err(e) ==> e == ExfatFormatError::InvalidPartitionOffset(
            q.partition_offset,
        ) || e == ExfatFormatError::BoundaryAlignTooBig(q.boundary_align) || e
            == ExfatFormatError::InvalidClusterSize(q.bytes_per_cluster) || e
            == ExfatFormatError::CannotPackBitmap,
{
    lemma_size_in_sectors(q.size, q.bytes_per_sector);
    if spec_fat_offset_bytes(q) is Ok {
        let fat_offset = spec_fat_offset_bytes(q)->Ok_0;
        if spec_fat_length_bytes(q, fat_offset) is Ok {
            let fat_length = spec_fat_length_bytes(q, fat_offset)->Ok_0;
            if spec_heap_offset_bytes(q, fat_offset, fat_length) is Ok {
                let heap = spec_heap_offset_bytes(q, fat_offset, fat_length)->Ok_0;
                if spec_cluster_count(q, heap) is Ok {
                    let count = spec_cluster_count(q, heap)->Ok_0;
                    lemma_pack_error(
                        count,
                        heap,
                        fat_offset + fat_length,
                        q.bytes_per_cluster as int,
                        align_up(spec_bitmap_bytes(count), q.bytes_per_cluster as int),
                    );
                }
            }
        }
    }
}

/// A sector size that is no power of two between 512 and 4096 is the first
/// thing that the solver turns down, and nothing else gives that error.
pub proof fn lemma_sector_size_checked(q: GeometryRequest)
    requires
        q.boundary_align > 0,
    ensures
        !valid_sector_size(q.bytes_per_sector) <==> spec_solve(q) == Err::<
            Geometry,
            ExfatFormatError,
        >(ExfatFormatError::InvalidBytesPerSector(q.bytes_per_sector)),
        valid_sector_size(q.bytes_per_sector) <==> (q.bytes_per_sector as int >= 512
            && q.bytes_per_sector as int <= 4096 && is_power_of_two(q.bytes_per_sector as int)),
{
    lemma2_to64();
    let b = q.bytes_per_sector as int;
    if is_power_of_two(b) && 512 <= b <= 4096 {
        let k = choose|k: nat| k < 32 && b == #[trigger] pow2(k);
        if k < 9 {
            lemma_pow2_strictly_increases(k, 9);
        }
        if k > 12 {
            lemma_pow2_strictly_increases(12, k);
        }
    }
    if valid_sector_size(q.bytes_per_sector) {
        assert(b == pow2(9) || b == pow2(10) || b == pow2(11) || b == pow2(12));
        if valid_cluster_size(q.bytes_per_cluster, q.bytes_per_sector) && q.size >= 0x10_0000 {
            lemma_later_errors(q);
        }
    }
}

/// The cluster size that goes with a device's size is in order with every
/// sector size.
pub proof fn lemma_default_cluster_size(size: u64, bytes_per_sector: u16)
    requires
        valid_sector_size(bytes_per_sector),
    ensures
        valid_cluster_size(spec_default_cluster_size(size), bytes_per_sector),
{
    lemma2_to64();
    assert(0x1000 == pow2(12));
    assert(0x8000 == pow2(15));
    assert(0x2_0000 == pow2(17));
}

/// With sector and cluster sizes in order, a device is too small exactly
/// where it has less than one mebibyte: one mebibyte is accepted, one byte
/// less is not.
pub proof fn lemma_smallest_volume(q: GeometryRequest)
    requires
        q.boundary_align > 0,
        valid_sector_size(q.bytes_per_sector),
        valid_cluster_size(q.bytes_per_cluster, q.bytes_per_sector),
    ensures
        q.size < 0x10_0000 <==> spec_solve(q) == Err::<Geometry, ExfatFormatError>(
            ExfatFormatError::InvalidSize(q.size),
        ),
{
    lemma_size_in_sectors(q.size, q.bytes_per_sector);
    if q.size >= 0x10_0000 {
        lemma_later_errors(q);
    }
}

} // verus!
