//! A reader of the entries of a directory.

use crate::cluster::reader::{entry_bytes_at, ClusterChainReader};
use crate::disk::ReadOffset;
use crate::entry::{recognised_type, DirEntry};
use crate::error::{DirEntryError, EntryReaderError};
use vstd::prelude::*;

verus! {

/// A reader of the entries of a directory, one after the other along the
/// directory's cluster chain.
pub struct DirEntryReader<O> {
    /// The reader of the directory's bytes.
    pub cluster_reader: ClusterChainReader<O>,
    /// Number of the next entry within its cluster.
    pub index: usize,
}

impl<O: ReadOffset> DirEntryReader<O> {
    pub open spec fn wf(&self) -> bool {
        self.cluster_reader.wf()
    }

    /// The 32 bytes of the entry that stands `j` entries ahead, where the
    /// directory has them.
    pub open spec fn peek(&self, j: int) -> Option<Seq<u8>> {
        if self.cluster_reader.available(self.cluster_reader.offset + 32 * j, 32) {
            Some(self.cluster_reader.data(self.cluster_reader.offset + 32 * j, 32))
        } else {
            None
        }
    }

    /// Whether `self` stands `n` entries behind `other` in the same
    /// directory.
    pub open spec fn follows(&self, other: &Self, n: int) -> bool {
        &&& self.cluster_reader.same_data(&other.cluster_reader)
        &&& self.cluster_reader.offset == other.cluster_reader.offset + 32 * n
    }

    /// A reader that stands `n` entries behind another sees what the other
    /// sees `n` entries further ahead.
    pub proof fn lemma_follows(&self, other: &Self, n: int)
        requires
            self.follows(other, n),
        ensures
            forall|j: int| #[trigger] self.peek(j) == other.peek(j + n),
    {
        assert forall|j: int| #[trigger] self.peek(j) == other.peek(j + n) by {
            let a = self.cluster_reader.offset + 32 * j;
            assert(a == other.cluster_reader.offset + 32 * (j + n));
            assert forall|i: int|
                self.cluster_reader.device_offset(i) == other.cluster_reader.device_offset(i) by {}
            assert(self.cluster_reader.available(a, 32) == other.cluster_reader.available(a, 32));
            assert(self.cluster_reader.data(a, 32) =~= other.cluster_reader.data(a, 32));
        }
    }

    /// The entries of the directory by their numbers: the 32 bytes of the
    /// entry with the number `k`, where the directory has them.
    pub open spec fn entries(&self) -> spec_fn(int) -> Option<Seq<u8>> {
        |k: int|
            entry_bytes_at(
                self.cluster_reader.disk.bytes(),
                *self.cluster_reader.boot,
                self.cluster_reader.chain@,
                self.cluster_reader.data_length as int,
                k,
            )
    }

    /// A reader that stands behind `k` entries sees the entries from the
    /// number `k` on.
    pub proof fn lemma_peek_entries(&self, k: int)
        requires
            self.cluster_reader.offset == 32 * k,
        ensures
            forall|j: int| #[trigger] self.peek(j) == (self.entries())(k + j),
            forall|j: int| (#[trigger] self.peek(j)) matches Some(b) ==> b.len() == 32,
    {
        assert forall|j: int| #[trigger] self.peek(j) == (self.entries())(k + j) by {
            assert(self.cluster_reader.offset + 32 * j == 32 * (k + j));
        }
    }

    /// A reader of the entries that the bytes of `value` hold.
    pub fn from(value: ClusterChainReader<O>) -> (r: DirEntryReader<O>)
        ensures
            r.cluster_reader == value,
            r.index == 0,
    {
        DirEntryReader { cluster_reader: value, index: 0 }
    }

    /// Reads the next entry. An entry whose 32 bytes the directory does not
    /// have is a read failure, which names the entry's number within its
    /// cluster and the cluster; an entry with a type byte that is not
    /// recognised is an entry error.
    pub fn read(&mut self) -> (r: Result<DirEntry, EntryReaderError<O::Err>>)
        requires
            old(self).wf(),
        ensures
            final(self).wf(),
            final(self).cluster_reader.same_data(&old(self).cluster_reader),
            old(self).cluster_reader.offset <= final(self).cluster_reader.offset <= old(
                self,
            ).cluster_reader.offset + 32,
            match r {
                Ok(e) => old(self).peek(0) matches Some(b) && recognised_type(b[0]) && e.parses(b)
                    && final(self).follows(old(self), 1),
                Err(EntryReaderError::Entry(DirEntryError::InvalidEntry(t))) => old(self).peek(
                    0,
                ) matches Some(b) && !recognised_type(b[0]) && t == b[0] && final(self).follows(
                    old(self),
                    1,
                ),
                Err(EntryReaderError::ReadFailed(index, cluster, _)) => index == old(self).index
                    && cluster == old(self).cluster_reader.spec_current(),
            },
            old(self).cluster_reader.disk.reliable() ==> (r matches Err(
                EntryReaderError::ReadFailed(_, _, _),
            ) <==> old(self).peek(0) is None),
            final(self).index == (if r matches Err(EntryReaderError::ReadFailed(_, _, _)) {
                old(self).index
            } else if final(self).cluster_reader.spec_current() != old(
                self,
            ).cluster_reader.spec_current() {
                0
            } else if old(self).index < usize::MAX {
                (old(self).index + 1) as usize
            } else {
                old(self).index
            }),
    {
        let cluster: u32 = self.cluster_reader.current();
        let index: usize = self.index;
        let mut entry: [u8; 32] = [0u8; 32];
        match self.cluster_reader.read_exact(&mut entry) {
            Ok(()) => {},
            Err(e) => {
                return Err(EntryReaderError::ReadFailed(index, cluster, e));
            },
        }
        if self.cluster_reader.current() != cluster {
            self.index = 0;
        } else if self.index < usize::MAX {
            self.index = self.index + 1;
        }
        match DirEntry::try_from(entry) {
            Ok(e) => Ok(e),
            Err(err) => Err(EntryReaderError::Entry(err)),
        }
    }
}

} // verus!
