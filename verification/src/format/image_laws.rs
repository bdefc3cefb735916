//! What holds of every freshly formatted volume.

use crate::arith::{align_up, div_ceil, lemma_align_up};
use crate::boot::checksum::boot_region_checksum;
use crate::codec::{le_bytes, lemma_le_bytes_len};
use crate::disk::{
    lemma_overlay_inside, lemma_overlay_outside, lemma_overlay_within, overlay, zeros,
};
use crate::format::geometry::spec_max_clusters;
use crate::format::image::{
    bitmap_clusters, bitmap_image, boot_region, boot_sector_image, checked_sectors,
    checksum_sector, fat_table, formatted, lemma_region_lengths, lemma_words_bytes_len,
    repeated, root_clusters, uptable_clusters, used_clusters, words_bytes, zeroed_length,
};
use crate::format::laws::{
    lemma_boot_parameters_valid, lemma_geometry_parts, lemma_span_in_clusters, packed_span,
};
use crate::format::Exfat;
use vstd::arithmetic::div_mod::{lemma_div_pos_is_pos, lemma_fundamental_div_mod};
use vstd::prelude::*;

verus! {

/// The heap of a planned volume ends within the device, and it has no more
/// clusters than the FAT has entries for.
pub proof fn lemma_heap_within_device(x: Exfat)
    requires
        x.wf(),
    ensures
        x.geometry.cluster_heap_offset_bytes + x.geometry.cluster_count
            * x.geometry.bytes_per_cluster <= x.format_options@.dev_size,
        4 * (x.geometry.cluster_count + 2) <= x.geometry.fat_length_bytes,
        x.geometry.fat_offset_bytes + x.geometry.fat_length_bytes
            <= x.geometry.cluster_heap_offset_bytes,
        x.fat_base() <= x.geometry.fat_offset_bytes,
        24 * x.geometry.bytes_per_sector <= x.fat_base(),
        x.sizes_bounded(),
{
    let q = x.format_options@.request();
    let g = x.geometry;
    x.lemma_wf_bounds();
    lemma_geometry_parts(q);
    lemma_boot_parameters_valid(q);
    let cs = g.bytes_per_cluster as int;
    let bps = g.bytes_per_sector as int;
    let size = q.size as int;
    let fob = g.fat_offset_bytes as int;
    let flb = g.fat_length_bytes as int;
    let heap = g.cluster_heap_offset_bytes as int;
    let span = packed_span(q, g);
    let heap0 = heap + span;
    let count0 = (size - heap0) / cs;
    let moved = span / cs;
    lemma_fundamental_div_mod(size - heap0, cs);
    lemma_fundamental_div_mod(span, cs);
    assert(g.cluster_count == count0 + moved);
    assert(heap + (count0 + moved) * cs <= size) by (nonlinear_arith)
        requires
            size - heap0 == cs * count0 + (size - heap0) % cs,
            0 <= (size - heap0) % cs,
            span == cs * moved + span % cs,
            span % cs == 0,
            heap0 == heap + span,
    ;
    // The FAT has an entry for every cluster.
    let room = size - fob - 9;
    let mc = spec_max_clusters(q, fob);
    lemma_fundamental_div_mod(room, cs + 4);
    lemma_align_up((mc + 2) * 4, bps);
    vstd::arithmetic::div_mod::lemma_mod_pos_bound(room, cs + 4);
    assert(g.cluster_count as int <= mc) by (nonlinear_arith)
        requires
            heap + g.cluster_count * cs <= size,
            fob + flb <= heap,
            flb >= (mc + 2) * 4,
            mc == room / (cs + 4) + 1,
            room == (cs + 4) * (room / (cs + 4)) + room % (cs + 4),
            room % (cs + 4) < cs + 4,
            room == size - fob - 9,
            cs >= 1,
            g.cluster_count >= 0,
    ;
    // The FAT starts on or ahead of its byte offset, behind the boot regions.
    lemma_fundamental_div_mod(fob, bps);
    lemma_div_pos_is_pos(fob, bps);
    vstd::arithmetic::div_mod::lemma_mod_pos_bound(fob, bps);
    assert(x.fat_base() <= fob) by (nonlinear_arith)
        requires
            x.fat_base() == g.fat_offset * bps,
            g.fat_offset == fob / bps,
            fob == bps * (fob / bps) + fob % bps,
            0 <= fob % bps,
    ;
    assert(24 * bps <= x.fat_base()) by (nonlinear_arith)
        requires
            x.fat_base() == g.fat_offset * bps,
            g.fat_offset >= 24,
            bps > 0,
    ;
}

/// The clusters in use on a fresh volume are those ahead of the root
/// directory's first cluster, and that cluster.
pub proof fn lemma_used_clusters(x: Exfat)
    requires
        x.wf(),
    ensures
        used_clusters(x.geometry) == x.geometry.first_cluster_of_root_directory - 1,
        root_clusters(x.geometry) == 1,
        bitmap_clusters(x.geometry) >= 0,
        uptable_clusters(x.geometry) >= 1,
        x.geometry.uptable_offset_bytes == x.geometry.cluster_heap_offset_bytes + bitmap_clusters(
            x.geometry,
        ) * x.geometry.bytes_per_cluster,
        x.geometry.root_offset_bytes == x.geometry.cluster_heap_offset_bytes + (
        x.geometry.first_cluster_of_root_directory - 2) * x.geometry.bytes_per_cluster,
        fat_table(x.geometry).len() == 2 + used_clusters(x.geometry),
        fat_table(x.geometry)[x.geometry.first_cluster_of_root_directory as int] == 0xFFFF_FFFFu32,
{
    let q = x.format_options@.request();
    let g = x.geometry;
    x.lemma_wf_bounds();
    lemma_geometry_parts(q);
    let cs = g.bytes_per_cluster as int;
    lemma_span_in_clusters(g.bitmap_length_bytes as int, cs);
    lemma_span_in_clusters(5836, cs);
    lemma_span_in_clusters(128, cs);
    lemma_align_up(g.bitmap_length_bytes as int, cs);
    lemma_align_up(5836, cs);
    assert(div_ceil(128, cs) == 1) by {
        vstd::arithmetic::div_mod::lemma_small_mod(128, cs as nat);
        vstd::arithmetic::div_mod::lemma_basic_div(128, cs);
    }
    assert(div_ceil(5836, cs) >= 1) by {
        lemma_div_pos_is_pos(5836, cs);
        if 5836int % cs == 0 {
            lemma_fundamental_div_mod(5836, cs);
            assert(5836int / cs != 0) by (nonlinear_arith)
                requires
                    5836int == cs * (5836int / cs) + 5836int % cs,
                    5836int % cs == 0,
            ;
        }
    }
    let bc = bitmap_clusters(g);
    let uc = uptable_clusters(g);
    assert(align_up(g.bitmap_length_bytes as int, cs) == bc * cs);
    assert(align_up(5836, cs) == uc * cs);
    assert((bc + uc) * cs == bc * cs + uc * cs) by (nonlinear_arith);
}

/// The structures of a formatted volume lie where the geometry places them:
/// the two boot regions at the device's start, the FAT's first entries, the
/// bitmap, the up-case table and the root directory each at its offset, with
/// zeroes behind the root directory's entries up to the end of its cluster.
pub proof fn lemma_formatted_regions(base: Seq<u8>, x: Exfat, table: Seq<u8>, root: Seq<u8>)
    requires
        x.wf(),
        base.len() == x.format_options@.dev_size,
        table.len() == 5836,
        root.len() == 128,
        x.geometry.first_cluster_of_root_directory <= x.geometry.cluster_count + 1,
    ensures
        ({
            let d = formatted(base, x, table, root);
            let g = x.geometry;
            let bps = g.bytes_per_sector as int;
            let region = boot_region(boot_sector_image(x), bps as nat);
            &&& d.len() == base.len()
            &&& x.image_fits(base.len() as int)
            &&& g.root_offset_bytes + g.bytes_per_cluster <= d.len()
            &&& region.len() == 12 * bps
            &&& d.subrange(0, 12 * bps) == region
            &&& d.subrange(12 * bps, 24 * bps) == region
            &&& d.subrange(x.fat_base(), x.fat_base() + 4 * (2 + used_clusters(g))) == words_bytes(
                fat_table(g),
            )
            &&& d.subrange(
                g.bitmap_offset_bytes as int,
                g.bitmap_offset_bytes + g.bitmap_length_bytes,
            ) == bitmap_image(used_clusters(g), g.bitmap_length_bytes as nat)
            &&& d.subrange(g.uptable_offset_bytes as int, g.uptable_offset_bytes + 5836) == table
            &&& d.subrange(g.root_offset_bytes as int, g.root_offset_bytes + 128) == root
            &&& forall|i: int|
                g.root_offset_bytes + 128 <= i < g.root_offset_bytes + g.bytes_per_cluster
                    ==> #[trigger] d[i] == 0u8
        }),
{
    let g = x.geometry;
    let q = x.format_options@.request();
    let bps = g.bytes_per_sector as int;
    let cs = g.bytes_per_cluster as int;
    let len = base.len() as int;
    x.lemma_wf_bounds();
    lemma_geometry_parts(q);
    lemma_heap_within_device(x);
    lemma_used_clusters(x);
    let used = used_clusters(g);
    let r = g.first_cluster_of_root_directory as int;
    let heap = g.cluster_heap_offset_bytes as int;
    // The root directory's cluster ends within the heap.
    assert(g.root_offset_bytes + cs <= heap + g.cluster_count * cs) by (nonlinear_arith)
        requires
            g.root_offset_bytes == heap + (r - 2) * cs,
            r <= g.cluster_count + 1,
            cs > 0,
    ;
    lemma_align_up(g.bitmap_length_bytes as int, cs);
    lemma_align_up(5836, cs);
    let region = boot_region(boot_sector_image(x), bps as nat);
    lemma_boot_sector_image_len(x);
    lemma_region_lengths(boot_sector_image(x), bps as nat);
    lemma_words_bytes_len(fat_table(g));
    let fat_bytes = words_bytes(fat_table(g));
    let bitmap_bytes = bitmap_image(used, g.bitmap_length_bytes as nat);
    let fat_at = x.fat_base();
    let bitmap_at = g.bitmap_offset_bytes as int;
    let uptable_at = g.uptable_offset_bytes as int;
    let root_at = g.root_offset_bytes as int;
    let zero_len = zeroed_length(x) as int;
    // The order of the structures.
    assert(24 * bps <= fat_at);
    assert(fat_at + fat_bytes.len() <= bitmap_at);
    assert(bitmap_at + bitmap_bytes.len() <= uptable_at);
    assert(uptable_at + 5836 <= root_at);
    assert(root_at + cs <= len);
    assert(root_at + 128 <= root_at + cs);
    assert(zero_len <= len);
    assert(root_at + cs <= zero_len);

    lemma_layers(
        base,
        zero_len,
        region,
        fat_at,
        fat_bytes,
        bitmap_at,
        bitmap_bytes,
        uptable_at,
        table,
        root_at,
        root,
        cs,
    );
    assert(12 * bps + 12 * bps == 24 * bps);
}

/// Seven writes that follow one another on a device, each behind the one
/// before and none beyond the device's end, leave what each of them wrote:
/// zeroes from the start, two copies of a region at the start, and four
/// structures further on, the last of which lies within a cluster that ends
/// within the zeroes.
proof fn lemma_layers(
    base: Seq<u8>,
    zero_len: int,
    region: Seq<u8>,
    fat_at: int,
    fat_bytes: Seq<u8>,
    bitmap_at: int,
    bitmap_bytes: Seq<u8>,
    uptable_at: int,
    table: Seq<u8>,
    root_at: int,
    root: Seq<u8>,
    cs: int,
)
    requires
        2 * region.len() <= fat_at,
        fat_at + fat_bytes.len() <= bitmap_at,
        bitmap_at + bitmap_bytes.len() <= uptable_at,
        uptable_at + table.len() <= root_at,
        root.len() <= cs,
        root_at + cs <= zero_len <= base.len(),
    ensures
        ({
            let n = region.len() as int;
            let d = overlay(
                overlay(
                    overlay(
                        overlay(
                            overlay(
                                overlay(overlay(base, 0, zeros(zero_len as nat)), 0, region),
                                n,
                                region,
                            ),
                            fat_at,
                            fat_bytes,
                        ),
                        bitmap_at,
                        bitmap_bytes,
                    ),
                    uptable_at,
                    table,
                ),
                root_at,
                root,
            );
            &&& d.len() == base.len()
            &&& d.subrange(0, n) == region
            &&& d.subrange(n, 2 * n) == region
            &&& d.subrange(fat_at, fat_at + fat_bytes.len()) == fat_bytes
            &&& d.subrange(bitmap_at, bitmap_at + bitmap_bytes.len()) == bitmap_bytes
            &&& d.subrange(uptable_at, uptable_at + table.len()) == table
            &&& d.subrange(root_at, root_at + root.len()) == root
            &&& forall|i: int| root_at + root.len() <= i < root_at + cs ==> #[trigger] d[i] == 0u8
        }),
{
    let n = region.len() as int;
    let zeroed = overlay(base, 0, zeros(zero_len as nat));
    let main = overlay(zeroed, 0, region);
    let backup = overlay(main, n, region);
    let fat = overlay(backup, fat_at, fat_bytes);
    let bitmap = overlay(fat, bitmap_at, bitmap_bytes);
    let uptable = overlay(bitmap, uptable_at, table);
    let d = overlay(uptable, root_at, root);
    // No write lengthens the device.
    lemma_overlay_within(base, 0, zeros(zero_len as nat));
    lemma_overlay_within(zeroed, 0, region);
    lemma_overlay_within(main, n, region);
    lemma_overlay_within(backup, fat_at, fat_bytes);
    lemma_overlay_within(fat, bitmap_at, bitmap_bytes);
    lemma_overlay_within(bitmap, uptable_at, table);
    lemma_overlay_within(uptable, root_at, root);
    // The first copy of the region.
    assert(d.subrange(0, n) == region) by {
        lemma_kept(main, n, region, 0, n, region);
        lemma_kept(backup, fat_at, fat_bytes, 0, n, region);
        lemma_kept(fat, bitmap_at, bitmap_bytes, 0, n, region);
        lemma_kept(bitmap, uptable_at, table, 0, n, region);
        lemma_kept(uptable, root_at, root, 0, n, region);
    }
    // The second copy of the region.
    assert(d.subrange(n, 2 * n) == region) by {
        lemma_kept(backup, fat_at, fat_bytes, n, 2 * n, region);
        lemma_kept(fat, bitmap_at, bitmap_bytes, n, 2 * n, region);
        lemma_kept(bitmap, uptable_at, table, n, 2 * n, region);
        lemma_kept(uptable, root_at, root, n, 2 * n, region);
    }
    assert(d.subrange(fat_at, fat_at + fat_bytes.len()) == fat_bytes) by {
        lemma_kept(fat, bitmap_at, bitmap_bytes, fat_at, fat_at + fat_bytes.len(), fat_bytes);
        lemma_kept(bitmap, uptable_at, table, fat_at, fat_at + fat_bytes.len(), fat_bytes);
        lemma_kept(uptable, root_at, root, fat_at, fat_at + fat_bytes.len(), fat_bytes);
    }
    assert(d.subrange(bitmap_at, bitmap_at + bitmap_bytes.len()) == bitmap_bytes) by {
        lemma_kept(
            bitmap,
            uptable_at,
            table,
            bitmap_at,
            bitmap_at + bitmap_bytes.len(),
            bitmap_bytes,
        );
        lemma_kept(
            uptable,
            root_at,
            root,
            bitmap_at,
            bitmap_at + bitmap_bytes.len(),
            bitmap_bytes,
        );
    }
    assert(d.subrange(uptable_at, uptable_at + table.len()) == table) by {
        lemma_kept(uptable, root_at, root, uptable_at, uptable_at + table.len(), table);
    }
    // The zeroes behind the last structure.
    let lo = root_at + root.len();
    let hi = root_at + cs;
    let gap = zeros((hi - lo) as nat);
    assert(d.subrange(lo, hi) == gap) by {
        lemma_overlay_inside(base, 0, zeros(zero_len as nat), lo, hi);
        assert(zeros(zero_len as nat).subrange(lo, hi) =~= gap);
        assert(zeroed.subrange(lo, hi) == gap) by {
            if lo == hi {
                assert(zeroed.subrange(lo, hi) =~= gap);
            }
        }
        lemma_kept(zeroed, 0, region, lo, hi, gap);
        lemma_kept(main, n, region, lo, hi, gap);
        lemma_kept(backup, fat_at, fat_bytes, lo, hi, gap);
        lemma_kept(fat, bitmap_at, bitmap_bytes, lo, hi, gap);
        lemma_kept(bitmap, uptable_at, table, lo, hi, gap);
        lemma_kept(uptable, root_at, root, lo, hi, gap);
    }
    assert forall|i: int| lo <= i < hi implies #[trigger] d[i] == 0u8 by {
        assert(d[i] == d.subrange(lo, hi)[i - lo]);
    }
}

/// What a write does not touch stays as it was.
proof fn lemma_kept(prev: Seq<u8>, at: int, data: Seq<u8>, lo: int, hi: int, content: Seq<u8>)
    requires
        0 <= at,
        0 <= lo <= hi <= prev.len(),
        hi <= at || at + data.len() <= lo,
        prev.subrange(lo, hi) == content,
    ensures
        overlay(prev, at, data).subrange(lo, hi) == content,
{
    lemma_overlay_outside(prev, at, data, lo, hi);
}

/// Two copies of a region at a device's start stay what they are where
/// every later write starts behind them.
proof fn lemma_boot_layers(
    base: Seq<u8>,
    zero_len: nat,
    region: Seq<u8>,
    fat_at: int,
    fat_bytes: Seq<u8>,
    bitmap_at: int,
    bitmap_bytes: Seq<u8>,
    uptable_at: int,
    table: Seq<u8>,
    root_at: int,
    root: Seq<u8>,
)
    requires
        region.len() > 0,
        2 * region.len() <= base.len(),
        2 * region.len() <= fat_at,
        2 * region.len() <= bitmap_at,
        2 * region.len() <= uptable_at,
        2 * region.len() <= root_at,
    ensures
        ({
            let n = region.len() as int;
            let d = overlay(
                overlay(
                    overlay(
                        overlay(
                            overlay(overlay(overlay(base, 0, zeros(zero_len)), 0, region), n, region),
                            fat_at,
                            fat_bytes,
                        ),
                        bitmap_at,
                        bitmap_bytes,
                    ),
                    uptable_at,
                    table,
                ),
                root_at,
                root,
            );
            &&& d.len() >= base.len()
            &&& d.subrange(0, n) == region
            &&& d.subrange(n, 2 * n) == region
        }),
{
    let n = region.len() as int;
    let zeroed = overlay(base, 0, zeros(zero_len));
    let main = overlay(zeroed, 0, region);
    let backup = overlay(main, n, region);
    let fat = overlay(backup, fat_at, fat_bytes);
    let bitmap = overlay(fat, bitmap_at, bitmap_bytes);
    let uptable = overlay(bitmap, uptable_at, table);
    let d = overlay(uptable, root_at, root);
    lemma_overlay_inside(base, 0, zeros(zero_len), 0, 0);
    lemma_overlay_inside(zeroed, 0, region, 0, n);
    assert(region.subrange(0, n) =~= region);
    lemma_overlay_inside(main, n, region, n, 2 * n);
    lemma_overlay_outside(backup, fat_at, fat_bytes, 0, 2 * n);
    lemma_overlay_outside(fat, bitmap_at, bitmap_bytes, 0, 2 * n);
    lemma_overlay_outside(bitmap, uptable_at, table, 0, 2 * n);
    lemma_overlay_outside(uptable, root_at, root, 0, 2 * n);
    assert(d.subrange(0, n) == region) by {
        lemma_kept(main, n, region, 0, n, region);
        lemma_kept(backup, fat_at, fat_bytes, 0, n, region);
        lemma_kept(fat, bitmap_at, bitmap_bytes, 0, n, region);
        lemma_kept(bitmap, uptable_at, table, 0, n, region);
        lemma_kept(uptable, root_at, root, 0, n, region);
    }
    assert(d.subrange(n, 2 * n) == region) by {
        lemma_kept(backup, fat_at, fat_bytes, n, 2 * n, region);
        lemma_kept(fat, bitmap_at, bitmap_bytes, n, 2 * n, region);
        lemma_kept(bitmap, uptable_at, table, n, 2 * n, region);
        lemma_kept(uptable, root_at, root, n, 2 * n, region);
    }
}

/// The boot sector of a planned volume takes 512 bytes.
pub proof fn lemma_boot_sector_image_len(x: Exfat)
    ensures
        boot_sector_image(x).len() == 512,
{
    let g = x.geometry;
    lemma_le_bytes_len(g.partition_offset as nat, 8);
    lemma_le_bytes_len(g.volume_length as nat, 8);
    lemma_le_bytes_len(g.fat_offset as nat, 4);
    lemma_le_bytes_len(g.fat_length as nat, 4);
    lemma_le_bytes_len(g.cluster_heap_offset as nat, 4);
    lemma_le_bytes_len(g.cluster_count as nat, 4);
    lemma_le_bytes_len(g.first_cluster_of_root_directory as nat, 4);
    lemma_le_bytes_len(x.volume_serial_number.0 as nat, 4);
    lemma_le_bytes_len(x.volume_flags.spec_bits() as nat, 2);
    lemma_le_bytes_len(0xAA55, 2);
}

/// The two boot regions of a formatted volume are its first 24 sectors, and
/// each holds the twelve sectors of the volume's boot region.
pub proof fn lemma_boot_regions(base: Seq<u8>, x: Exfat, table: Seq<u8>, root: Seq<u8>)
    requires
        x.wf(),
        base.len() == x.format_options@.dev_size,
    ensures
        ({
            let d = formatted(base, x, table, root);
            let bps = x.geometry.bytes_per_sector as int;
            &&& 24 * bps <= d.len()
            &&& boot_region(boot_sector_image(x), bps as nat).len() == 12 * bps
            &&& d.subrange(0, 12 * bps) == boot_region(boot_sector_image(x), bps as nat)
            &&& d.subrange(12 * bps, 24 * bps) == boot_region(boot_sector_image(x), bps as nat)
        }),
{
    let g = x.geometry;
    let q = x.format_options@.request();
    let bps = g.bytes_per_sector as int;
    x.lemma_wf_bounds();
    lemma_geometry_parts(q);
    lemma_heap_within_device(x);
    lemma_boot_sector_image_len(x);
    lemma_region_lengths(boot_sector_image(x), bps as nat);
    lemma_align_up(g.bitmap_length_bytes as int, g.bytes_per_cluster as int);
    lemma_align_up(5836, g.bytes_per_cluster as int);
    let region = boot_region(boot_sector_image(x), bps as nat);
    assert(24 * bps <= base.len()) by {
        lemma_boot_parameters_valid(q);
        assert(g.volume_length * bps <= q.size) by {
            lemma_fundamental_div_mod(q.size as int, bps);
            vstd::arithmetic::div_mod::lemma_mod_pos_bound(q.size as int, bps);
            assert(g.volume_length * bps == bps * (q.size as int / bps)) by (nonlinear_arith)
                requires
                    g.volume_length == q.size as int / bps,
            ;
        }
    }
    lemma_boot_layers(
        base,
        zeroed_length(x),
        region,
        x.fat_base(),
        words_bytes(fat_table(g)),
        g.bitmap_offset_bytes as int,
        bitmap_image(used_clusters(g), g.bitmap_length_bytes as nat),
        g.uptable_offset_bytes as int,
        table,
        g.root_offset_bytes as int,
        root,
    );
    assert(12 * bps + 12 * bps == 24 * bps);
}

/// The main boot region and the backup boot region of a formatted volume
/// hold the same bytes, sector by sector.
pub proof fn lemma_boot_regions_agree(base: Seq<u8>, x: Exfat, table: Seq<u8>, root: Seq<u8>)
    requires
        x.wf(),
        base.len() == x.format_options@.dev_size,
    ensures
        ({
            let d = formatted(base, x, table, root);
            let bps = x.geometry.bytes_per_sector as int;
            &&& d.subrange(0, 12 * bps) == d.subrange(12 * bps, 24 * bps)
            &&& forall|k: int|
                0 <= k < 12 ==> #[trigger] d.subrange(k * bps, (k + 1) * bps) == d.subrange(
                    (12 + k) * bps,
                    (13 + k) * bps,
                )
        }),
{
    lemma_boot_regions(base, x, table, root);
    x.lemma_wf_bounds();
    let d = formatted(base, x, table, root);
    let bps = x.geometry.bytes_per_sector as int;
    let main = d.subrange(0, 12 * bps);
    let backup = d.subrange(12 * bps, 24 * bps);
    assert forall|k: int| 0 <= k < 12 implies #[trigger] d.subrange(k * bps, (k + 1) * bps)
        == d.subrange((12 + k) * bps, (13 + k) * bps) by {
        assert(0 <= k * bps && (k + 1) * bps <= 12 * bps && (k + 1) * bps == k * bps + bps && (12
            + k) * bps == 12 * bps + k * bps && (13 + k) * bps == 12 * bps + (k + 1) * bps)
            by (nonlinear_arith)
            requires
                0 <= k < 12,
                bps > 0,
        ;
        assert(d.subrange(k * bps, (k + 1) * bps) =~= main.subrange(k * bps, (k + 1) * bps));
        assert(d.subrange((12 + k) * bps, (13 + k) * bps) =~= backup.subrange(
            k * bps,
            (k + 1) * bps,
        ));
    }
}

/// The checksum sector of each boot region of a formatted volume holds the
/// checksum of the region's first eleven sectors, least significant byte
/// first, as often as the sector takes four bytes.
pub proof fn lemma_checksum_sector(base: Seq<u8>, x: Exfat, table: Seq<u8>, root: Seq<u8>)
    requires
        x.wf(),
        base.len() == x.format_options@.dev_size,
    ensures
        ({
            let d = formatted(base, x, table, root);
            let bps = x.geometry.bytes_per_sector as int;
            let sum = boot_region_checksum(d.subrange(0, 11 * bps));
            &&& d.subrange(11 * bps, 12 * bps) == repeated(le_bytes(sum as nat, 4), (bps / 4) as nat)
            &&& d.subrange(23 * bps, 24 * bps) == repeated(le_bytes(sum as nat, 4), (bps / 4) as nat)
        }),
{
    lemma_boot_regions(base, x, table, root);
    x.lemma_wf_bounds();
    lemma_boot_sector_image_len(x);
    let d = formatted(base, x, table, root);
    let bps = x.geometry.bytes_per_sector as int;
    let image = boot_sector_image(x);
    let region = boot_region(image, bps as nat);
    let checked = checked_sectors(image, bps as nat);
    lemma_region_lengths(image, bps as nat);
    let sum = boot_region_checksum(checked);
    assert(region.subrange(0, 11 * bps) =~= checked);
    assert(region.subrange(11 * bps, 12 * bps) =~= checksum_sector(sum, bps as nat));
    assert(d.subrange(0, 11 * bps) =~= d.subrange(0, 12 * bps).subrange(0, 11 * bps));
    assert(d.subrange(11 * bps, 12 * bps) =~= d.subrange(0, 12 * bps).subrange(11 * bps, 12 * bps));
    assert(d.subrange(23 * bps, 24 * bps) =~= d.subrange(12 * bps, 24 * bps).subrange(
        11 * bps,
        12 * bps,
    ));
}

} // verus!
