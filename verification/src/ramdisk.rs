//! A device held in memory. It grows where a write reaches beyond its end, as
//! a file would, and never fails within the address range of the machine.

use crate::disk::{overlay, seek_target, PartitionError, ReadOffset, SeekFrom, WriteSeek};
use crate::error::ErrorMessage;
use crate::text::{decimal, decimal_text};
use vstd::prelude::*;
use vstd::string::StringExecFns;

verus! {

/// Why an operation on a [`RamDisk`] failed.
#[derive(Debug, Clone, Copy, PartialEq, Eq)]
pub enum RamDiskError {
    /// A read found the device's end too early.
    UnexpectedEop,
    /// The cluster has no byte offset.
    ClusterNotFound(u32),
    /// A write came out short.
    WriteZero,
    /// The position lies before the device's start or beyond what the
    /// machine can address.
    OutOfRange,
}

impl ErrorMessage for RamDiskError {
    open spec fn text(&self) -> Seq<char> {
        match self {
            RamDiskError::UnexpectedEop => "The device ended before the read was complete."@,
            RamDiskError::ClusterNotFound(n) => "Cluster #"@
                + decimal_text(n as nat)
                + " has no place on the device."@,
            RamDiskError::WriteZero => "The device took less than was written."@,
            RamDiskError::OutOfRange => "The position is out of range."@,
        }
    }

    fn message(&self) -> (r: String) {
        match self {
            RamDiskError::UnexpectedEop => String::from_str("The device ended before the read was complete."),
            RamDiskError::ClusterNotFound(n) => String::from_str("Cluster #")
                .concat(decimal(*n as u64).as_str())
                .concat(" has no place on the device."),
            RamDiskError::WriteZero => String::from_str("The device took less than was written."),
            RamDiskError::OutOfRange => String::from_str("The position is out of range."),
        }
    }
}

impl PartitionError for RamDiskError {
    fn unexpected_eop() -> (r: Self)
        ensures
            r == RamDiskError::UnexpectedEop,
    {
        RamDiskError::UnexpectedEop
    }

    fn cluster_not_found(cluster: u32) -> (r: Self)
        ensures
            r == RamDiskError::ClusterNotFound(cluster),
    {
        RamDiskError::ClusterNotFound(cluster)
    }
}

/// A device whose bytes live in a vector.
#[derive(Debug, PartialEq, Eq)]
pub struct RamDisk {
    /// The device's bytes.
    pub data: Vec<u8>,
    /// The byte offset at which the next write lands.
    pub position: u64,
}

/// The distance that a negative displacement goes back.
fn magnitude(d: i64) -> (r: u64)
    requires
        d < 0,
    ensures
        r == -d,
{
    if d == i64::MIN {
        0x8000_0000_0000_0000
    } else {
        (-d) as u64
    }
}

/// Whether a write of `len` bytes at `position` ends within the addresses of
/// the machine and of the cursor.
pub open spec fn fits_in_memory(position: int, len: int) -> bool {
    len == 0 || (position + len <= usize::MAX && position + len <= u64::MAX)
}

impl RamDisk {
    /// A device that holds `data`, with the cursor at its start.
    pub fn new(data: Vec<u8>) -> (r: RamDisk)
        ensures
            r.data == data,
            r.position == 0,
    {
        RamDisk { data, position: 0 }
    }

    /// The device's bytes.
    pub fn as_slice(&self) -> (r: &[u8])
        ensures
            r@ == self.data@,
    {
        self.data.as_slice()
    }

    /// Puts `buf` at the cursor, growing the device where needed.
    fn put(&mut self, buf: &[u8]) -> (r: Result<(), RamDiskError>)
        ensures
            r is Ok ==> final(self).data@ == overlay(old(self).data@, old(self).position as int, buf@)
                && final(self).position == old(self).position + buf@.len(),
            r is Ok <==> fits_in_memory(old(self).position as int, buf@.len() as int),
            old(self).position + buf@.len() <= old(self).data@.len() ==> r is Ok,
            r matches Err(e) ==> e == RamDiskError::OutOfRange && *final(self) == *old(self),
    {
        let n: usize = buf.len();
        let len: usize = self.data.len();
        if n == 0 {
            return Ok(());
        }
        if self.position > (usize::MAX - n) as u64 || self.position > u64::MAX - n as u64 {
            return Err(RamDiskError::OutOfRange);
        }
        let at: usize = self.position as usize;
        let end: usize = at + n;
        let ghost before = self.data@;
        if end > self.data.len() {
            self.data.resize(end, 0);
        }
        let mut i: usize = 0;
        while i < n
            invariant
                i <= n,
                n == buf@.len(),
                at + n == end,
                end <= self.data@.len(),
                self.position == old(self).position,
                self.data@.len() == overlay(before, at as int, buf@).len(),
                forall|j: int|
                    0 <= j < self.data@.len() ==> self.data@[j] == (if at <= j < at + i {
                        buf@[j - at]
                    } else if j < before.len() {
                        before[j]
                    } else {
                        0u8
                    }),
            decreases n - i,
        {
            self.data.set(at + i, buf[i]);
            i = i + 1;
        }
        assert(self.data@ =~= overlay(before, at as int, buf@));
        self.position = self.position + n as u64;
        Ok(())
    }
}

impl WriteSeek for RamDisk {
    type Err = RamDiskError;

    open spec fn contents(&self) -> Seq<u8> {
        self.data@
    }

    open spec fn cursor(&self) -> nat {
        self.position as nat
    }

    open spec fn dependable(&self) -> bool {
        true
    }

    fn write(&mut self, buf: &[u8]) -> (r: Result<usize, Self::Err>)
        ensures
            r is Ok <==> fits_in_memory(old(self).position as int, buf@.len() as int),
            r matches Ok(n) ==> n == buf@.len(),
            r matches Err(e) ==> e == RamDiskError::OutOfRange && *final(self) == *old(self),
    {
        assert(buf@.take(buf@.len() as int) =~= buf@);
        match self.put(buf) {
            Ok(()) => Ok(buf.len()),
            Err(e) => Err(e),
        }
    }

    fn failed_to_write(&self) -> (r: Self::Err)
        ensures
            r == RamDiskError::WriteZero,
    {
        RamDiskError::WriteZero
    }

    fn write_all(&mut self, buf: &[u8]) -> (r: Result<(), Self::Err>)
        ensures
            r is Ok <==> fits_in_memory(old(self).position as int, buf@.len() as int),
            r matches Err(e) ==> e == RamDiskError::OutOfRange && *final(self) == *old(self),
    {
        self.put(buf)
    }

    fn seek(&mut self, pos: SeekFrom) -> (r: Result<u64, Self::Err>)
        ensures
            r is Ok <==> 0 <= seek_target(
                pos,
                old(self).position as int,
                old(self).data@.len() as int,
            ) <= u64::MAX,
            r matches Err(e) ==> e == RamDiskError::OutOfRange && *final(self) == *old(self),
    {
        let len: u64 = self.data.len() as u64;
        let target: Option<u64> = match pos {
            SeekFrom::Start(x) => Some(x),
            SeekFrom::End(d) => if d >= 0 {
                if d as u64 <= u64::MAX - len {
                    Some(len + d as u64)
                } else {
                    None
                }
            } else {
                let back: u64 = magnitude(d);
                if back <= len {
                    Some(len - back)
                } else {
                    None
                }
            },
            SeekFrom::Current(d) => if d >= 0 {
                if d as u64 <= u64::MAX - self.position {
                    Some(self.position + d as u64)
                } else {
                    None
                }
            } else {
                let back: u64 = magnitude(d);
                if back <= self.position {
                    Some(self.position - back)
                } else {
                    None
                }
            },
        };
        match target {
            Some(p) => {
                self.position = p;
                Ok(p)
            },
            None => Err(RamDiskError::OutOfRange),
        }
    }

    fn stream_position(&mut self) -> (r: Result<u64, Self::Err>)
        ensures
            r is Ok,
    {
        Ok(self.position)
    }
}

impl ReadOffset for RamDisk {
    type Err = RamDiskError;

    open spec fn bytes(&self) -> Seq<u8> {
        self.data@
    }

    open spec fn reliable(&self) -> bool {
        true
    }

    fn read_at(&self, offset: u64, buffer: &mut [u8]) -> (r: Result<usize, Self::Err>)
        ensures
            r is Ok,
    {
        let len: usize = self.data.len();
        let want: usize = buffer.len();
        if offset >= len as u64 {
            return Ok(0);
        }
        let at: usize = offset as usize;
        let n: usize = if len - at < want {
            len - at
        } else {
            want
        };
        let mut i: usize = 0;
        while i < n
            invariant
                i <= n <= want,
                at + n <= len,
                len == self.data@.len(),
                want == buffer@.len(),
                buffer@.len() == old(buffer)@.len(),
                forall|j: int| 0 <= j < i ==> buffer@[j] == self.data@[at + j],
                forall|j: int| i <= j < want ==> buffer@[j] == old(buffer)@[j],
            decreases n - i,
        {
            buffer[i] = self.data[at + i];
            i = i + 1;
        }
        assert(buffer@ =~= self.data@.subrange(offset as int, offset + n) + old(buffer)@.skip(n as int));
        assert(n == 0 ==> buffer@ =~= old(buffer)@);
        Ok(n)
    }
}

} // verus!
