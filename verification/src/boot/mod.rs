//! Boot regions: their checksum, and a writer for the boot region alone of a
//! volume whose cluster size the caller picks.

use vstd::prelude::*;

pub mod checksum;
pub mod meta;

verus! {

/// What a boot region writer is told besides the volume's sizes.
#[derive(Copy, Clone, Debug, PartialEq, Eq)]
pub struct FormatOptions {
    /// Whether the bitmap moves into the gap between the FAT and the heap.
    pub pack_bitmap: bool,
    /// Whether the whole device is zeroed.
    pub full_format: bool,
    /// Size of the target device, in bytes.
    pub dev_size: u64,
}

impl FormatOptions {
    pub fn new(pack_bitmap: bool, full_format: bool, dev_size: u64) -> (r: FormatOptions)
        ensures
            r.pack_bitmap == pack_bitmap,
            r.full_format == full_format,
            r.dev_size == dev_size,
    {
        FormatOptions { pack_bitmap, full_format, dev_size }
    }
}

} // verus!
