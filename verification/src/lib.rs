//! Formatting block devices as exFAT volumes and reading the directory tree of
//! an existing exFAT volume.
//!
//! The formatter computes the volume geometry, then emits the boot regions, the
//! FAT, the allocation bitmap, the up-case table and the root directory. The
//! reader validates the boot sector, loads the FAT and walks directory entry
//! sets along cluster chains.
//!
//! Devices are reached through the traits of [`disk`]; every other function is
//! stated over the bytes such a device holds.

use vstd::prelude::*;

pub use label::Label;

pub mod arith;
pub mod boot;
pub mod boot_sector;
pub mod clock;
pub mod cluster;
pub mod codec;
pub mod disk;
pub mod entry;
pub mod error;
pub mod fat;
pub mod format;
pub mod fs;
pub mod label;
pub mod ramdisk;
pub mod root;
pub mod roundtrip;
pub mod shared;
pub mod text;
pub mod timestamp;
pub mod upcase_table;
pub mod utf16;

verus! {

pub const GB: u32 = 1024 * 1024 * 1024;

pub const MB: u32 = 1024 * 1024;

pub const KB: u16 = 1024;

/// Default byte granularity to which the FAT and the cluster heap are aligned.
pub const DEFAULT_BOUNDARY_ALIGNEMENT: u32 = 1024 * 1024;

/// First usable cluster index of the cluster heap.
pub const FIRST_USABLE_CLUSTER_INDEX: u32 = 2;

} // verus!
