//! Files.

use crate::boot_sector::BootSector;
use crate::cluster::reader::{spec_allocation, ClusterChainReader};
use crate::cluster::ClusterChainOptions;
use crate::disk::{ReadOffset, SeekFrom};
use crate::entry::StreamExtensionEntry;
use crate::error::{ClusterChainError, ErrorMessage};
use crate::fat::Fat;
use crate::fs::stream_options;
use crate::timestamp::Timestamps;
use std::sync::Arc;
use vstd::prelude::*;
use vstd::string::StringExecFns;

verus! {

/// Why a file's reader was not moved.
#[derive(Debug, Clone, Copy, PartialEq, Eq)]
pub enum FileSeekError {
    /// The position lies before the file's start.
    InvalidInput,
}

impl ErrorMessage for FileSeekError {
    open spec fn text(&self) -> Seq<char> {
        match self {
            FileSeekError::InvalidInput => "The position lies before the start of the file."@,
        }
    }

    fn message(&self) -> (r: String) {
        match self {
            FileSeekError::InvalidInput => String::from_str("The position lies before the start of the file."),
        }
    }
}

/// A file of a volume.
pub struct File<O: ReadOffset> {
    /// The file's name.
    pub name: String,
    /// Number of the file's bytes.
    pub len: u64,
    /// The reader of the file's data, where the file has any.
    pub reader: Option<ClusterChainReader<O>>,
    /// The file's times.
    pub timestamps: Timestamps,
}

/// The distance that a negative displacement goes back.
fn distance_back(d: i64) -> (r: u64)
    requires
        d < 0,
    ensures
        r == -d,
{
    if d == i64::MIN {
        0x8000_0000_0000_0000
    } else {
        (-d) as u64
    }
}

/// Where a seek in data of `len` bytes ends, from the position `at`: never
/// behind the data's end, and nowhere where it aims before the start.
pub open spec fn seek_result(pos: SeekFrom, at: int, len: int) -> Option<int> {
    match pos {
        SeekFrom::Start(v) => Some(
            if v <= len {
                v as int
            } else {
                len
            },
        ),
        SeekFrom::End(v) => if v >= 0 {
            Some(len)
        } else if len + v >= 0 {
            Some(len + v)
        } else {
            None
        },
        SeekFrom::Current(v) => if v >= 0 {
            Some(
                if at + v <= len {
                    at + v
                } else {
                    len
                },
            )
        } else if at + v >= 0 {
            Some(at + v)
        } else {
            None
        },
    }
}

impl<O: ReadOffset> File<O> {
    /// Whether the file's reader, where it has one, is in order.
    pub open spec fn wf(&self) -> bool {
        self.reader matches Some(r) ==> r.wf()
    }

    /// A file whose data the stream extension describes: the reader reads
    /// as many bytes as are valid, along the FAT's chain or along clusters
    /// that follow one another. A file without a first cluster has no reader.
    pub fn try_new(
        disk: Arc<O>,
        boot: Arc<BootSector>,
        fat: &Fat,
        name: String,
        stream: StreamExtensionEntry,
        timestamps: Timestamps,
    ) -> (r: Result<Self, ClusterChainError>)
        requires
            boot.shifts_valid(),
        ensures
            match r {
                Ok(f) => f.name == name && f.len == stream.valid_data_length && f.timestamps
                    == timestamps && f.wf() && (if stream.first_cluster == 0 {
                    f.reader is None
                } else {
                    f.reader matches Some(reader) && spec_allocation(
                        *boot,
                        fat@,
                        stream.first_cluster,
                        stream_options(stream, stream.valid_data_length),
                    ) == Ok::<(Seq<u32>, u64), ClusterChainError>((reader.chain@, reader.data_length))
                        && reader.offset == 0 && reader.boot == boot && reader.disk == disk
                }),
                Err(e) => stream.first_cluster != 0 && spec_allocation(
                    *boot,
                    fat@,
                    stream.first_cluster,
                    stream_options(stream, stream.valid_data_length),
                ) == Err::<(Seq<u32>, u64), ClusterChainError>(e),
            },
    {
        let first_cluster: u32 = stream.first_cluster;
        let len: u64 = stream.valid_data_length;
        let reader = if first_cluster == 0 {
            None
        } else {
            let options = if stream.general_secondary_flags.no_fat_chain() {
                ClusterChainOptions::Contiguous { data_length: len }
            } else {
                ClusterChainOptions::Fat { data_length: Some(len) }
            };
            Some(ClusterChainReader::try_new(boot, fat, first_cluster, options, disk)?)
        };
        Ok(File { name, len, reader, timestamps })
    }

    /// The file's name.
    pub fn name(&self) -> (r: &str)
        ensures
            r@ == self.name@,
    {
        self.name.as_str()
    }

    /// Whether the file has no byte.
    pub fn is_empty(&self) -> (r: bool)
        ensures
            r == (self.len == 0),
    {
        self.len == 0
    }

    /// Number of the file's bytes.
    pub fn len(&self) -> (r: u64)
        ensures
            r == self.len,
    {
        self.len
    }

    /// The file's times.
    pub fn timestamps(&self) -> (r: &Timestamps)
        ensures
            *r == self.timestamps,
    {
        &self.timestamps
    }

    /// Moves the reader and says where it stands. A position behind the
    /// data's end becomes the end; one before the start is an error. A file
    /// without data stands at 0 whatever is asked.
    pub fn seek(&mut self, pos: SeekFrom) -> (r: Result<u64, FileSeekError>)
        requires
            old(self).wf(),
        ensures
            final(self).wf(),
            final(self).name == old(self).name,
            final(self).len == old(self).len,
            final(self).timestamps == old(self).timestamps,
            match old(self).reader {
                None => r == Ok::<u64, FileSeekError>(0) && final(self).reader is None,
                Some(before) => final(self).reader matches Some(after) && after.same_data(&before)
                    && match seek_result(pos, before.offset as int, before.data_length as int) {
                    Some(o) => r == Ok::<u64, FileSeekError>(o as u64) && after.offset == o,
                    None => r == Err::<u64, FileSeekError>(FileSeekError::InvalidInput)
                        && after.offset == before.offset,
                },
            },
    {
        match &mut self.reader {
            None => Ok(0),
            Some(r) => {
                let len: u64 = r.data_length();
                let at: u64 = r.stream_position();
                let o: u64 = match pos {
                    SeekFrom::Start(v) => if v <= len {
                        v
                    } else {
                        len
                    },
                    SeekFrom::End(v) => {
                        if v >= 0 {
                            len
                        } else {
                            let back: u64 = distance_back(v);
                            if back <= len {
                                len - back
                            } else {
                                return Err(FileSeekError::InvalidInput);
                            }
                        }
                    },
                    SeekFrom::Current(v) => {
                        if v >= 0 {
                            if v as u64 <= len - at {
                                at + v as u64
                            } else {
                                len
                            }
                        } else {
                            let back: u64 = distance_back(v);
                            if back <= at {
                                at - back
                            } else {
                                return Err(FileSeekError::InvalidInput);
                            }
                        }
                    },
                };
                r.seek(o);
                Ok(o)
            },
        }
    }

    /// Moves the reader to the file's start.
    pub fn rewind(&mut self)
        requires
            old(self).wf(),
        ensures
            final(self).wf(),
            final(self).name == old(self).name,
            final(self).len == old(self).len,
            final(self).timestamps == old(self).timestamps,
            match old(self).reader {
                None => final(self).reader is None,
                Some(before) => final(self).reader matches Some(after) && after.same_data(&before)
                    && after.offset == 0,
            },
    {
        match &mut self.reader {
            Some(r) => {
                r.rewind();
            },
            None => {},
        }
    }

    /// Number of bytes of data that lie behind the reader.
    pub fn stream_position(&self) -> (r: u64)
        ensures
            r == (match self.reader {
                Some(reader) => reader.offset,
                None => 0,
            }),
    {
        match &self.reader {
            Some(r) => r.stream_position(),
            None => 0,
        }
    }

    /// Reads bytes of the file into the start of `buf`: as many as `buf`
    /// takes and as lie ahead in the reader's cluster and in the data. A
    /// file without data gives none.
    pub fn read(&mut self, buf: &mut [u8]) -> (r: Result<usize, O::Err>)
        requires
            old(self).wf(),
        ensures
            final(self).wf(),
            final(self).name == old(self).name,
            final(self).len == old(self).len,
            final(self).timestamps == old(self).timestamps,
            final(buf)@.len() == old(buf)@.len(),
            match old(self).reader {
                None => r matches Ok(n) && n == 0 && final(buf)@ == old(buf)@ && final(self).reader
                    is None,
                Some(before) => final(self).reader matches Some(after) && after.same_data(&before)
                    && match r {
                    Ok(n) => n == before.chunk(old(buf)@.len() as int) && after.offset
                        == before.offset + n && (n > 0 ==> before.available(
                        before.offset as int,
                        n as int,
                    )) && final(buf)@ == before.data(before.offset as int, n as int) + old(
                        buf,
                    )@.skip(n as int),
                    Err(_) => after.offset == before.offset,
                } && (before.disk.reliable() ==> (r is Ok <==> before.chunk(
                    old(buf)@.len() as int,
                ) == 0 || before.available(
                    before.offset as int,
                    before.chunk(old(buf)@.len() as int),
                ))),
            },
    {
        match &mut self.reader {
            Some(v) => v.read(buf),
            None => Ok(0),
        }
    }
}

} // verus!
