//! Files and directories of a volume.

use crate::boot_sector::BootSector;
use crate::cluster::reader::spec_allocation;
use crate::cluster::ClusterChainOptions;
use crate::disk::ReadOffset;
use crate::entry::parsed::{ParsedFileEntry, ParsedFileView};
use crate::entry::StreamExtensionEntry;
use crate::error::ClusterChainError;
use crate::fat::Fat;
use crate::fs::directory::Directory;
use crate::fs::file::File;
use crate::shared::share;
use crate::timestamp::Timestamps;
use std::sync::Arc;
use vstd::prelude::*;

pub mod directory;
pub mod file;

verus! {

/// A file or a directory.
pub enum FsElement<O: ReadOffset> {
    /// A file.
    F(File<O>),
    /// A directory.
    D(Directory<O>),
}

/// A file or a directory as plain values.
pub enum ItemView {
    /// A file: its name, the number of its bytes, its times, and the
    /// clusters and the length of its data where it has any.
    File { name: Seq<char>, len: u64, timestamps: Timestamps, allocation: Option<(Seq<u32>, u64)> },
    /// A directory: its name, its stream extension and its times.
    Directory { name: Seq<char>, stream: StreamExtensionEntry, timestamps: Timestamps },
}

/// How the clusters of the data of a stream extension are found.
pub open spec fn stream_options(stream: StreamExtensionEntry, data_length: u64) -> ClusterChainOptions {
    if stream.general_secondary_flags.spec_no_fat_chain() {
        ClusterChainOptions::Contiguous { data_length }
    } else {
        ClusterChainOptions::Fat { data_length: Some(data_length) }
    }
}

/// The file or directory that a file set stands for, or the reason why a
/// file's data has no cluster chain. A file reads as many bytes as are valid.
pub open spec fn item_of(parsed: ParsedFileView, boot: BootSector, fat: Seq<u32>) -> Result<
    ItemView,
    ClusterChainError,
> {
    let stream = parsed.stream_extension_entry;
    if parsed.attributes.spec_is_directory() {
        Ok(ItemView::Directory { name: parsed.name, stream, timestamps: parsed.timestamps })
    } else if stream.first_cluster == 0 {
        Ok(
            ItemView::File {
                name: parsed.name,
                len: stream.valid_data_length,
                timestamps: parsed.timestamps,
                allocation: None,
            },
        )
    } else {
        match spec_allocation(
            boot,
            fat,
            stream.first_cluster,
            stream_options(stream, stream.valid_data_length),
        ) {
            Err(e) => Err(e),
            Ok(a) => Ok(
                ItemView::File {
                    name: parsed.name,
                    len: stream.valid_data_length,
                    timestamps: parsed.timestamps,
                    allocation: Some(a),
                },
            ),
        }
    }
}

impl<O: ReadOffset> FsElement<O> {
    /// The file or directory as plain values.
    pub open spec fn view(&self) -> ItemView {
        match self {
            FsElement::F(f) => ItemView::File {
                name: f.name@,
                len: f.len,
                timestamps: f.timestamps,
                allocation: match f.reader {
                    Some(r) => Some((r.chain@, r.data_length)),
                    None => None,
                },
            },
            FsElement::D(d) => ItemView::Directory {
                name: d.name@,
                stream: d.stream,
                timestamps: d.timestamps,
            },
        }
    }

    /// Whether the file or directory was just opened on the given volume: a
    /// file's reader is in order, reads that volume and stands at the start
    /// of the data.
    pub open spec fn on_volume(&self, disk: Arc<O>, boot: Arc<BootSector>, fat: Seq<u32>) -> bool {
        match self {
            FsElement::F(f) => f.wf() && (f.reader matches Some(r) ==> r.disk == disk && r.boot
                == boot && r.offset == 0),
            FsElement::D(d) => d.disk == disk && d.boot == boot && d.fat@ == fat,
        }
    }

    /// Whether the file or directory was just opened on the volume with the
    /// given boot sector and FAT, on a device that holds the given bytes: a
    /// file's reader is in order, reads that device and stands at the start
    /// of the data; a directory lists from that device.
    pub open spec fn reads(
        &self,
        device: Seq<u8>,
        reliable: bool,
        boot: BootSector,
        fat: Seq<u32>,
    ) -> bool {
        match self {
            FsElement::F(f) => f.wf() && (f.reader matches Some(r) ==> r.disk.bytes() == device
                && r.disk.reliable() == reliable && *r.boot == boot && r.offset == 0),
            FsElement::D(d) => d.disk.bytes() == device && d.disk.reliable() == reliable && *d.boot
                == boot && d.fat@ == fat && boot.shifts_valid(),
        }
    }

    /// The file or directory that a file set stands for.
    pub fn from_parsed(
        disk: &Arc<O>,
        boot: &Arc<BootSector>,
        fat: &Arc<Fat>,
        parsed: ParsedFileEntry,
    ) -> (r: Result<FsElement<O>, ClusterChainError>)
        requires
            boot.shifts_valid(),
        ensures
            match r {
                Ok(item) => item_of(parsed@, **boot, fat@) == Ok::<ItemView, ClusterChainError>(
                    item@,
                ) && item.on_volume(*disk, *boot, fat@),
                Err(e) => item_of(parsed@, **boot, fat@) == Err::<ItemView, ClusterChainError>(e),
            },
    {
        if parsed.attributes.is_directory() {
            Ok(
                FsElement::D(
                    Directory::new(
                        share(disk),
                        share(boot),
                        share(fat),
                        parsed.name,
                        parsed.stream_extension_entry,
                        parsed.timestamps,
                    ),
                ),
            )
        } else {
            match File::try_new(
                share(disk),
                share(boot),
                fat,
                parsed.name,
                parsed.stream_extension_entry,
                parsed.timestamps,
            ) {
                Ok(f) => Ok(FsElement::F(f)),
                Err(e) => Err(e),
            }
        }
    }
}

} // verus!
