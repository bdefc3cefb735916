//! A reader of the bytes of a cluster chain.

use crate::arith::{checked_mul, div_ceil};
use crate::boot_sector::BootSector;
use crate::cluster::ClusterChainOptions;
use crate::disk::{read_exact, PartitionError, ReadOffset};
use crate::error::ClusterChainError;
use crate::fat::{spec_chain, Fat};
use std::sync::Arc;
use vstd::arithmetic::div_mod::{
    lemma_div_pos_is_pos, lemma_fundamental_div_mod, lemma_fundamental_div_mod_converse,
};
use vstd::prelude::*;

verus! {

/// The clusters and the length of the data of an allocation, or the reason
/// why it has none: a FAT chain must not be empty, the data must fit into its
/// clusters, and the clusters of a contiguous allocation must have indices of
/// 32 bits.
pub open spec fn spec_allocation(
    boot: BootSector,
    fat: Seq<u32>,
    first_cluster: u32,
    options: ClusterChainOptions,
) -> Result<(Seq<u32>, u64), ClusterChainError> {
    let cs = boot.spec_bytes_per_cluster() as int;
    match options {
        ClusterChainOptions::Contiguous { data_length } => {
            let count = div_ceil(data_length as int, cs);
            if first_cluster + count > u32::MAX || count > usize::MAX {
                Err(ClusterChainError::InvalidDataLength)
            } else {
                Ok((Seq::new(count as nat, |j: int| (first_cluster + j) as u32), data_length))
            }
        },
        ClusterChainOptions::Fat { data_length } => {
            let chain = spec_chain(fat, first_cluster, fat.len());
            if chain.len() == 0 {
                Err(ClusterChainError::InvalidFirstCluster)
            } else if cs * chain.len() > u64::MAX {
                Err(ClusterChainError::InvalidDataLength)
            } else {
                match data_length {
                    None => Ok((chain, (cs * chain.len()) as u64)),
                    Some(n) => if n > cs * chain.len() {
                        Err(ClusterChainError::InvalidDataLength)
                    } else {
                        Ok((chain, n))
                    },
                }
            }
        },
    }
}

/// Bytes of one cluster stay in that cluster: `k` bytes behind an offset that
/// stands `k` or more bytes ahead of the cluster's end.
pub proof fn lemma_same_cluster(off: int, k: int, cs: int)
    requires
        cs > 0,
        off >= 0,
        0 <= k,
        off % cs + k < cs,
    ensures
        (off + k) / cs == off / cs,
        (off + k) % cs == off % cs + k,
{
    lemma_fundamental_div_mod(off, cs);
    assert(off + k == (off / cs) * cs + (off % cs + k)) by (nonlinear_arith)
        requires
            off == cs * (off / cs) + off % cs,
    ;
    lemma_fundamental_div_mod_converse(off + k, cs, off / cs, off % cs + k);
}

/// Byte offset on the device of the byte `i` of the data that the clusters
/// of `chain` hold, where its cluster exists.
pub open spec fn device_offset_of(boot: BootSector, chain: Seq<u32>, i: int) -> Option<int> {
    match boot.spec_cluster_offset(chain[i / (boot.spec_bytes_per_cluster() as int)]) {
        Some(at) => Some(at + i % (boot.spec_bytes_per_cluster() as int)),
        None => None,
    }
}

/// Whether the `n` bytes from byte `from` on of the `data_length` bytes of
/// data that the clusters of `chain` hold are there: they are data, their
/// clusters exist and the device holds them.
pub open spec fn available_in(
    device: Seq<u8>,
    boot: BootSector,
    chain: Seq<u32>,
    data_length: int,
    from: int,
    n: int,
) -> bool {
    &&& from + n <= data_length
    &&& forall|i: int|
        from <= i < from + n ==> (#[trigger] device_offset_of(boot, chain, i)) is Some
            && device_offset_of(boot, chain, i).unwrap() < device.len()
}

/// The `n` bytes from byte `from` on of the data that the clusters of
/// `chain` hold.
pub open spec fn data_in(device: Seq<u8>, boot: BootSector, chain: Seq<u32>, from: int, n: int) -> Seq<
    u8,
> {
    Seq::new(n as nat, |j: int| device[device_offset_of(boot, chain, from + j).unwrap()])
}

/// The 32 bytes of the directory entry with the number `k` in the data that
/// the clusters of `chain` hold, where the data has them.
pub open spec fn entry_bytes_at(
    device: Seq<u8>,
    boot: BootSector,
    chain: Seq<u32>,
    data_length: int,
    k: int,
) -> Option<Seq<u8>> {
    if available_in(device, boot, chain, data_length, 32 * k, 32) {
        Some(data_in(device, boot, chain, 32 * k, 32))
    } else {
        None
    }
}

/// A reader of the data of an allocation: a sequence of clusters and the
/// number of bytes of them that are data.
pub struct ClusterChainReader<O> {
    /// The volume's boot sector.
    pub boot: Arc<BootSector>,
    /// The clusters, in the order of the data.
    pub chain: Vec<u32>,
    /// Number of bytes of data.
    pub data_length: u64,
    /// Number of bytes of data that lie behind the reader.
    pub offset: u64,
    /// The device.
    pub disk: Arc<O>,
}

impl<O: ReadOffset> ClusterChainReader<O> {
    /// Size of a cluster, in bytes.
    pub open spec fn cluster_size(&self) -> int {
        self.boot.spec_bytes_per_cluster() as int
    }

    /// Whether the reader stands within its data and the data within the
    /// clusters.
    pub open spec fn wf(&self) -> bool {
        &&& self.boot.shifts_valid()
        &&& self.offset <= self.data_length
        &&& self.data_length <= self.cluster_size() * self.chain@.len()
    }

    /// Byte offset on the device of the byte `i` of the data, where its
    /// cluster exists.
    pub open spec fn device_offset(&self, i: int) -> Option<int> {
        device_offset_of(*self.boot, self.chain@, i)
    }

    /// Whether the `n` bytes of data from byte `from` on are there: they are
    /// data, their clusters exist and the device holds them.
    pub open spec fn available(&self, from: int, n: int) -> bool {
        available_in(self.disk.bytes(), *self.boot, self.chain@, self.data_length as int, from, n)
    }

    /// The byte `i` of the data.
    pub open spec fn byte(&self, i: int) -> u8 {
        self.disk.bytes()[self.device_offset(i).unwrap()]
    }

    /// The `n` bytes of data from byte `from` on.
    pub open spec fn data(&self, from: int, n: int) -> Seq<u8> {
        data_in(self.disk.bytes(), *self.boot, self.chain@, from, n)
    }

    /// Number of bytes that one read takes where `want` are asked for: as
    /// many as lie ahead in the reader's cluster and in the data.
    pub open spec fn chunk(&self, want: int) -> int {
        let cs = self.cluster_size();
        let in_cluster = cs - self.offset as int % cs;
        let in_data = self.data_length - self.offset;
        if want == 0 || self.offset == self.data_length {
            0
        } else if want <= in_cluster && want <= in_data {
            want
        } else if in_cluster <= in_data {
            in_cluster
        } else {
            in_data
        }
    }

    /// Whether `self` reads the same data as `other`, whatever their offsets.
    pub open spec fn same_data(&self, other: &Self) -> bool {
        &&& self.boot == other.boot
        &&& self.chain@ == other.chain@
        &&& self.data_length == other.data_length
        &&& self.disk == other.disk
    }

    /// A cluster has at least 512 bytes and at most 32 MiB.
    pub proof fn lemma_cluster_size(&self)
        requires
            self.boot.shifts_valid(),
        ensures
            512 <= self.cluster_size() <= 0x200_0000,
    {
        vstd::arithmetic::power2::lemma2_to64();
        let k = (self.boot.bytes_per_sector_shift + self.boot.sectors_per_cluster_shift) as nat;
        if k < 25 {
            vstd::arithmetic::power2::lemma_pow2_strictly_increases(k, 25);
        }
        if 9 < k {
            vstd::arithmetic::power2::lemma_pow2_strictly_increases(9, k);
        }
    }

    /// Number of bytes of data.
    pub fn data_length(&self) -> (r: u64)
        ensures
            r == self.data_length,
    {
        self.data_length
    }

    /// Moves the reader to byte `off` of the data; refuses an offset beyond
    /// the data's end.
    pub fn seek(&mut self, off: u64) -> (r: bool)
        ensures
            r == (off <= old(self).data_length),
            final(self).same_data(old(self)),
            final(self).offset == (if r {
                off
            } else {
                old(self).offset
            }),
    {
        if off > self.data_length {
            return false;
        }
        self.offset = off;
        true
    }

    /// Moves the reader to the data's start.
    pub fn rewind(&mut self)
        ensures
            final(self).same_data(old(self)),
            final(self).offset == 0,
    {
        self.offset = 0;
    }

    /// Number of bytes of data that lie behind the reader.
    pub fn stream_position(&self) -> (r: u64)
        ensures
            r == self.offset,
    {
        self.offset
    }

    /// A reader of the data of an allocation, at the data's start. The
    /// clusters are those from `first_cluster` on that hold the data, or the
    /// FAT's chain from `first_cluster` on.
    pub fn try_new(
        boot: Arc<BootSector>,
        fat: &Fat,
        first_cluster: u32,
        options: ClusterChainOptions,
        disk: Arc<O>,
    ) -> (r: Result<Self, ClusterChainError>)
        requires
            boot.shifts_valid(),
        ensures
            match r {
                Ok(reader) => spec_allocation(*boot, fat@, first_cluster, options) == Ok::<
                    (Seq<u32>, u64),
                    ClusterChainError,
                >((reader.chain@, reader.data_length)) && reader.offset == 0 && reader.boot == boot
                    && reader.disk == disk && reader.wf(),
                Err(e) => spec_allocation(*boot, fat@, first_cluster, options) == Err::<
                    (Seq<u32>, u64),
                    ClusterChainError,
                >(e),
            },
    {
        let cluster_size_bytes: u64 = boot.bytes_per_cluster() as u64;
        let (chain, data_length) = match options {
            ClusterChainOptions::Contiguous { data_length } => {
                proof {
                    vstd::arithmetic::div_mod::lemma_div_is_ordered_by_denominator(
                        data_length as int,
                        512,
                        cluster_size_bytes as int,
                    );
                }
                let count: u64 = if data_length % cluster_size_bytes == 0 {
                    data_length / cluster_size_bytes
                } else {
                    data_length / cluster_size_bytes + 1
                };
                if count > u32::MAX as u64 - first_cluster as u64 || count > usize::MAX as u64 {
                    return Err(ClusterChainError::InvalidDataLength);
                }
                let mut chain: Vec<u32> = Vec::new();
                let mut j: u64 = 0;
                while j < count
                    invariant
                        j <= count,
                        first_cluster + count <= u32::MAX,
                        chain@.len() == j,
                        forall|k: int| 0 <= k < j ==> chain@[k] == first_cluster + k,
                    decreases count - j,
                {
                    chain.push(first_cluster + j as u32);
                    j = j + 1;
                }
                proof {
                    assert(chain@ =~= Seq::new(count as nat, |j: int| (first_cluster + j) as u32));
                    lemma_fundamental_div_mod(data_length as int, cluster_size_bytes as int);
                    assert(data_length <= cluster_size_bytes * count) by (nonlinear_arith)
                        requires
                            data_length == cluster_size_bytes * (data_length as int
                                / cluster_size_bytes as int) + data_length as int
                                % cluster_size_bytes as int,
                            data_length as int % cluster_size_bytes as int == 0 ==> count
                                == data_length as int / cluster_size_bytes as int,
                            data_length as int % cluster_size_bytes as int != 0 ==> count
                                == data_length as int / cluster_size_bytes as int + 1,
                            (0 <= data_length as int % cluster_size_bytes as int),
                            (data_length as int % cluster_size_bytes as int) < (
                            cluster_size_bytes as int),
                    ;
                }
                (chain, data_length)
            },
            ClusterChainOptions::Fat { data_length } => {
                let chain: Vec<u32> = fat.chain(first_cluster);
                if chain.len() == 0 {
                    return Err(ClusterChainError::InvalidFirstCluster);
                }
                let capacity: u64 = match checked_mul(cluster_size_bytes, chain.len() as u64) {
                    Some(c) => c,
                    None => {
                        return Err(ClusterChainError::InvalidDataLength);
                    },
                };
                let data_length: u64 = match data_length {
                    Some(n) => n,
                    None => capacity,
                };
                if data_length > capacity {
                    return Err(ClusterChainError::InvalidDataLength);
                }
                (chain, data_length)
            },
        };
        Ok(ClusterChainReader { boot, chain, data_length, offset: 0, disk })
    }

    /// The cluster that holds the byte that the reader stands ahead of; at
    /// the end of the last cluster, the last cluster; 0 where there is none.
    pub fn current(&self) -> (r: u32)
        requires
            self.boot.shifts_valid(),
        ensures
            r == self.spec_current(),
    {
        let index: u64 = self.offset / self.boot.bytes_per_cluster() as u64;
        let len: usize = self.chain.len();
        if index < len as u64 {
            self.chain[index as usize]
        } else if len > 0 {
            self.chain[len - 1]
        } else {
            0
        }
    }

    /// The cluster that holds the byte that the reader stands ahead of; at
    /// the end of the last cluster, the last cluster; 0 where there is none.
    pub open spec fn spec_current(&self) -> u32 {
        let index = self.offset as int / self.cluster_size();
        if index < self.chain@.len() {
            self.chain@[index]
        } else if self.chain@.len() > 0 {
            self.chain@[self.chain@.len() - 1]
        } else {
            0
        }
    }

    /// Reads bytes of data into the start of `buf`: as many as `buf` takes
    /// and as lie ahead in the reader's cluster and in the data.
    pub fn read(&mut self, buf: &mut [u8]) -> (r: Result<usize, O::Err>)
        requires
            old(self).wf(),
        ensures
            final(self).wf(),
            final(self).same_data(old(self)),
            final(buf)@.len() == old(buf)@.len(),
            match r {
                Ok(n) => n == old(self).chunk(old(buf)@.len() as int) && final(self).offset == old(
                    self,
                ).offset + n && (n > 0 ==> old(self).available(old(self).offset as int, n as int))
                    && final(buf)@ == old(self).data(old(self).offset as int, n as int) + old(
                    buf,
                )@.skip(n as int),
                Err(_) => final(self).offset == old(self).offset,
            },
            old(self).disk.reliable() ==> (r is Ok <==> old(self).chunk(old(buf)@.len() as int) == 0
                || old(self).available(
                old(self).offset as int,
                old(self).chunk(old(buf)@.len() as int),
            )),
    {
        if buf.len() == 0 || self.offset == self.data_length {
            assert(self.data(self.offset as int, 0) + buf@.skip(0) =~= buf@);
            return Ok(0);
        }
        let cluster_size: u64 = self.boot.bytes_per_cluster() as u64;
        let within: u64 = self.offset % cluster_size;
        let cluster_remaining: u64 = cluster_size - within;
        let data_remaining: u64 = self.data_length - self.offset;
        let remaining: u64 = if cluster_remaining < data_remaining {
            cluster_remaining
        } else {
            data_remaining
        };
        let amount: usize = if (buf.len() as u64) < remaining {
            buf.len()
        } else {
            remaining as usize
        };
        let index: u64 = self.offset / cluster_size;
        let len: usize = self.chain.len();
        proof {
            lemma_fundamental_div_mod(self.offset as int, cluster_size as int);
            lemma_div_pos_is_pos(self.offset as int, cluster_size as int);
            assert(index < self.chain@.len()) by (nonlinear_arith)
                requires
                    self.offset == cluster_size * index + within,
                    self.offset < self.data_length,
                    self.data_length <= cluster_size * self.chain@.len(),
                    0 <= within,
                    cluster_size > 0,
                    index >= 0,
            ;
        }
        let cluster: u32 = self.chain[index as usize];
        let base: u64 = match self.boot.cluster_offset(cluster) {
            Some(at) => at,
            None => {
                proof {
                    lemma_same_cluster(self.offset as int, 0, cluster_size as int);
                    assert(device_offset_of(*self.boot, self.chain@, self.offset as int) is None);
                }
                return Err(O::Err::cluster_not_found(cluster));
            },
        };
        assert(base <= 0x1000_1000_0000_0000) by {
            assert(self.boot.spec_sectors_per_cluster() <= 0x1_0000) by {
                vstd::arithmetic::power2::lemma2_to64();
                if self.boot.sectors_per_cluster_shift < 16 {
                    vstd::arithmetic::power2::lemma_pow2_strictly_increases(
                        self.boot.sectors_per_cluster_shift as nat,
                        16,
                    );
                }
            }
            assert(self.boot.spec_bytes_per_sector() <= 4096) by {
                vstd::arithmetic::power2::lemma2_to64();
            }
            let spc = self.boot.spec_sectors_per_cluster() as int;
            let bps = self.boot.spec_bytes_per_sector() as int;
            let heap = self.boot.cluster_heap_offset as int;
            let idx = cluster as int - 2;
            assert((heap + idx * spc) * bps <= 0x1000_1000_0000_0000) by (nonlinear_arith)
                requires
                    0 <= heap <= 0xFFFF_FFFF,
                    0 <= idx <= 0xFFFF_FFFF,
                    0 <= spc <= 0x1_0000,
                    0 <= bps <= 4096,
            ;
        }
        let at: u64 = base + within;
        let ghost start = self.offset as int;
        proof {
            assert forall|k: int| 0 <= k < amount implies #[trigger] device_offset_of(
                *self.boot,
                self.chain@,
                start + k,
            ) == Some(at + k) by {
                lemma_same_cluster(start, k, cluster_size as int);
            }
        }
        let (head, _) = buf.split_at_mut(amount);
        match read_exact(&self.disk, at, head) {
            Ok(()) => {},
            Err(e) => {
                proof {
                    if self.disk.reliable() {
                        assert(at + amount > self.disk.bytes().len());
                        assert(device_offset_of(*self.boot, self.chain@, start + (amount - 1))
                            == Some(at + (amount - 1)));
                        assert(!self.available(start, amount as int));
                    }
                }
                return Err(e);
            },
        }
        proof {
            assert forall|i: int| start <= i < start + amount implies (#[trigger] device_offset_of(
                *self.boot,
                self.chain@,
                i,
            )) is Some && device_offset_of(*self.boot, self.chain@, i).unwrap()
                < self.disk.bytes().len() by {
                assert(device_offset_of(*self.boot, self.chain@, start + (i - start)) == Some(
                    at + (i - start),
                ));
            }
            assert(self.available(start, amount as int));
            assert(head@ =~= self.data(start, amount as int)) by {
                assert forall|j: int| 0 <= j < amount implies head@[j] == self.byte(start + j) by {
                    assert(device_offset_of(*self.boot, self.chain@, start + j) == Some(at + j));
                }
            }
            assert(buf@ =~= self.data(start, amount as int) + old(buf)@.skip(amount as int));
        }
        self.offset = self.offset + amount as u64;
        Ok(amount)
    }

    /// Reads as many bytes of data as `buf` takes. Data that ends before
    /// `buf` is full gives the unexpected-end error, and the reader then
    /// stands at the end of the data where the device gave all that was
    /// left. Whatever the outcome, the bytes that the reader has passed
    /// stand at the start of `buf`.
    pub fn read_exact(&mut self, buf: &mut [u8]) -> (r: Result<(), O::Err>)
        requires
            old(self).wf(),
        ensures
            final(self).wf(),
            final(self).same_data(old(self)),
            final(buf)@.len() == old(buf)@.len(),
            old(self).offset <= final(self).offset <= old(self).offset + old(buf)@.len(),
            r is Ok ==> final(self).offset == old(self).offset + old(buf)@.len() && final(buf)@
                == old(self).data(old(self).offset as int, old(buf)@.len() as int) && (old(
                buf,
            )@.len() > 0 ==> old(self).available(
                old(self).offset as int,
                old(buf)@.len() as int,
            )),
            old(self).disk.reliable() ==> (r is Ok <==> old(buf)@.len() == 0 || old(self).available(
                old(self).offset as int,
                old(buf)@.len() as int,
            )),
            old(self).disk.reliable() && old(self).offset + old(buf)@.len() > old(self).data_length
                && old(self).available(
                old(self).offset as int,
                old(self).data_length - old(self).offset,
            ) ==> r is Err && final(self).offset == old(self).data_length,
            final(buf)@.take(final(self).offset - old(self).offset) == old(self).data(
                old(self).offset as int,
                final(self).offset - old(self).offset,
            ),
    {
        let total: usize = buf.len();
        let mut done: usize = 0;
        let ghost start = self.offset as int;
        while done < total
            invariant
                done <= total,
                total == old(buf)@.len(),
                buf@.len() == total,
                self.wf(),
                self.same_data(old(self)),
                start == old(self).offset,
                self.offset == start + done,
                done > 0 ==> old(self).available(start, done as int),
                forall|j: int| 0 <= j < done ==> buf@[j] == old(self).byte(start + j),
            decreases total - done,
        {
            let ghost before = buf@;
            let ghost here = *self;
            let (_, rest) = buf.split_at_mut(done);
            let got = self.read(rest);
            proof {
                assert forall|i: int| here.device_offset(i) == old(self).device_offset(i) by {}
                assert forall|i: int| here.byte(i) == old(self).byte(i) by {}
            }
            match got {
                Err(e) => {
                    proof {
                        if old(self).disk.reliable() && old(self).available(start, total as int) {
                            let c = here.chunk(total - done);
                            assert(here.available(start + done, c));
                        }
                        if old(self).disk.reliable() && old(self).available(
                            start,
                            old(self).data_length - start,
                        ) {
                            let c = here.chunk(total - done);
                            assert(here.available(start + done, c));
                        }
                        assert(buf@ == before.subrange(0, done as int) + rest@);
                        assert(buf@.take(done as int) =~= old(self).data(start, done as int));
                    }
                    return Err(e);
                },
                Ok(n) => {
                    if n == 0 {
                        proof {
                            here.lemma_cluster_size();
                            vstd::arithmetic::div_mod::lemma_mod_pos_bound(
                                here.offset as int,
                                here.cluster_size(),
                            );
                        }
                        assert(!old(self).available(start, total as int));
                        proof {
                            assert(buf@ == before.subrange(0, done as int) + rest@);
                            assert(buf@.take(done as int) =~= old(self).data(start, done as int));
                        }
                        return Err(O::Err::unexpected_eop());
                    }
                    proof {
                        assert(buf@ == before.subrange(0, done as int) + rest@);
                        assert forall|j: int| 0 <= j < done + n implies buf@[j] == old(self).byte(
                            start + j,
                        ) by {
                            if j < done {
                                assert(buf@[j] == before.subrange(0, done as int)[j]);
                            } else {
                                assert(buf@[j] == rest@[j - done]);
                                assert(rest@[j - done] == here.data(start + done, n as int)[j
                                    - done]);
                            }
                        }
                        assert(old(self).available(start, done + n)) by {
                            assert(here.available(start + done, n as int));
                            assert forall|i: int| start <= i < start + done + n implies (
                            #[trigger] device_offset_of(*old(self).boot, old(self).chain@, i))
                                is Some && device_offset_of(
                                *old(self).boot,
                                old(self).chain@,
                                i,
                            ).unwrap() < old(self).disk.bytes().len() by {
                                if i >= start + done {
                                    assert(device_offset_of(*here.boot, here.chain@, i) is Some);
                                }
                            }
                        }
                    }
                    done = done + n;
                },
            }
        }
        proof {
            assert(buf@ =~= old(self).data(start, total as int));
        }
        Ok(())
    }
}

} // verus!
