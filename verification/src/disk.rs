//! Block devices: what the formatter writes to and what the reader reads
//! from, and a device held in memory.

use std::sync::Arc;
use vstd::prelude::*;
use vstd::slice::slice_subrange;

verus! {

/// A position to seek to.
#[derive(Debug, Clone, Copy, PartialEq, Eq)]
pub enum SeekFrom {
    /// Bytes from the device's start.
    Start(u64),
    /// Bytes from the device's end.
    End(i64),
    /// Bytes from the cursor.
    Current(i64),
}

/// The contents of a device after `data` was written at byte `at`: the bytes
/// written replace what was there, and a write that reaches beyond the end
/// lengthens the contents, with zeroes in any gap.
pub open spec fn overlay(base: Seq<u8>, at: int, data: Seq<u8>) -> Seq<u8> {
    if data.len() == 0 {
        base
    } else {
        Seq::new(
            (if base.len() >= at + data.len() {
                base.len() as int
            } else {
                at + data.len()
            }) as nat,
            |i: int|
                if at <= i < at + data.len() {
                    data[i - at]
                } else if i < base.len() {
                    base[i]
                } else {
                    0u8
                },
        )
    }
}

/// `n` zero bytes.
pub open spec fn zeros(n: nat) -> Seq<u8> {
    Seq::new(n, |i: int| 0u8)
}

/// The byte offset that a seek aims at.
pub open spec fn seek_target(pos: SeekFrom, cursor: int, len: int) -> int {
    match pos {
        SeekFrom::Start(x) => x as int,
        SeekFrom::End(d) => len + d,
        SeekFrom::Current(d) => cursor + d,
    }
}

/// Two writes, the second right behind the first, are one write of both.
pub proof fn lemma_overlay_append(base: Seq<u8>, at: int, x: Seq<u8>, y: Seq<u8>)
    requires
        at >= 0,
    ensures
        overlay(overlay(base, at, x), at + x.len(), y) == overlay(base, at, x + y),
{
    if x.len() == 0 {
        assert(x + y =~= y);
    } else if y.len() == 0 {
        assert(x + y =~= x);
    } else {
        assert(overlay(overlay(base, at, x), at + x.len(), y) =~= overlay(base, at, x + y));
    }
}

/// A write within the device leaves its length alone, puts the data where it
/// was aimed and leaves every other byte as it was.
pub proof fn lemma_overlay_within(base: Seq<u8>, at: int, data: Seq<u8>)
    requires
        0 <= at,
        at + data.len() <= base.len(),
    ensures
        overlay(base, at, data).len() == base.len(),
        overlay(base, at, data).subrange(at, at + data.len()) == data,
        forall|i: int|
            0 <= i < base.len() && !(at <= i < at + data.len()) ==> #[trigger] overlay(
                base,
                at,
                data,
            )[i] == base[i],
{
    if data.len() > 0 {
        assert(overlay(base, at, data).subrange(at, at + data.len()) =~= data);
    } else {
        assert(base.subrange(at, at) =~= data);
    }
}

/// A write leaves alone what lies ahead of it and what lies behind it.
pub proof fn lemma_overlay_outside(base: Seq<u8>, at: int, data: Seq<u8>, lo: int, hi: int)
    requires
        0 <= at,
        0 <= lo <= hi <= base.len(),
        hi <= at || at + data.len() <= lo,
    ensures
        overlay(base, at, data).len() >= base.len(),
        overlay(base, at, data).subrange(lo, hi) == base.subrange(lo, hi),
{
    assert(overlay(base, at, data).subrange(lo, hi) =~= base.subrange(lo, hi));
}

/// A write puts its bytes where it was aimed.
pub proof fn lemma_overlay_inside(base: Seq<u8>, at: int, data: Seq<u8>, lo: int, hi: int)
    requires
        0 <= at <= lo <= hi <= at + data.len(),
    ensures
        overlay(base, at, data).len() >= at + data.len() || data.len() == 0,
        overlay(base, at, data).len() >= base.len(),
        lo < hi ==> overlay(base, at, data).subrange(lo, hi) == data.subrange(lo - at, hi - at),
{
    if lo < hi {
        assert(overlay(base, at, data).subrange(lo, hi) =~= data.subrange(lo - at, hi - at));
    }
}

/// Errors that the reader makes up itself.
pub trait PartitionError: Sized {
    /// The device ended before a read was complete.
    fn unexpected_eop() -> Self;

    /// A cluster's byte offset does not exist.
    fn cluster_not_found(cluster: u32) -> Self;
}

/// A device that is written at a cursor.
///
/// The contract of each method says what a call that returns `Ok` has done
/// to the device; a call that returns `Err` may leave the contents in any
/// state. Success is owed only by a device that calls itself dependable, and
/// only for operations within its bounds.
pub trait WriteSeek {
    type Err;

    /// The bytes that the device holds.
    spec fn contents(&self) -> Seq<u8>;

    /// The byte offset at which the next write lands.
    spec fn cursor(&self) -> nat;

    /// Whether every operation that stays within the device succeeds in full.
    spec fn dependable(&self) -> bool;

    /// Writes some first bytes of `buf` at the cursor and says how many.
    fn write(&mut self, buf: &[u8]) -> (r: Result<usize, Self::Err>)
        ensures
            final(self).dependable() == old(self).dependable(),
            r matches Ok(n) ==> n <= buf@.len() && final(self).contents() == overlay(
                old(self).contents(),
                old(self).cursor() as int,
                buf@.take(n as int),
            ) && final(self).cursor() == old(self).cursor() + n,
            old(self).dependable() && old(self).cursor() + buf@.len() <= old(self).contents().len()
                ==> (r matches Ok(n) && n == buf@.len()),
    ;

    /// The error that stands for a write that came out short.
    fn failed_to_write(&self) -> Self::Err;

    /// Writes all of `buf` at the cursor.
    fn write_all(&mut self, buf: &[u8]) -> (r: Result<(), Self::Err>)
        ensures
            final(self).dependable() == old(self).dependable(),
            r is Ok ==> final(self).contents() == overlay(
                old(self).contents(),
                old(self).cursor() as int,
                buf@,
            ) && final(self).cursor() == old(self).cursor() + buf@.len(),
            old(self).dependable() && old(self).cursor() + buf@.len() <= old(self).contents().len()
                ==> r is Ok,
    ;

    /// Moves the cursor and says where it stands.
    fn seek(&mut self, pos: SeekFrom) -> (r: Result<u64, Self::Err>)
        ensures
            final(self).dependable() == old(self).dependable(),
            final(self).contents() == old(self).contents(),
            r matches Ok(p) ==> p == seek_target(
                pos,
                old(self).cursor() as int,
                old(self).contents().len() as int,
            ) && final(self).cursor() == p,
            old(self).dependable() && 0 <= seek_target(
                pos,
                old(self).cursor() as int,
                old(self).contents().len() as int,
            ) <= old(self).contents().len() ==> r is Ok,
    ;

    /// Says where the cursor stands.
    fn stream_position(&mut self) -> (r: Result<u64, Self::Err>)
        ensures
            final(self).dependable() == old(self).dependable(),
            final(self).contents() == old(self).contents(),
            final(self).cursor() == old(self).cursor(),
            r matches Ok(p) ==> p == old(self).cursor(),
            old(self).dependable() && old(self).cursor() <= old(self).contents().len() ==> r is Ok,
    ;
}

/// A device that is read at byte offsets.
///
/// A read that returns `Ok` has filled the buffer's first bytes with the
/// device's own. Success is owed only by a device that calls itself reliable:
/// such a device hands out as many bytes as it holds from the offset on, up to
/// the buffer's length.
pub trait ReadOffset {
    type Err: PartitionError;

    /// The bytes that the device holds.
    spec fn bytes(&self) -> Seq<u8>;

    /// Whether every read succeeds with all the bytes there are.
    spec fn reliable(&self) -> bool;

    /// Reads bytes from `offset` into the start of `buffer` and says how many.
    fn read_at(&self, offset: u64, buffer: &mut [u8]) -> (r: Result<usize, Self::Err>)
        ensures
            final(buffer)@.len() == old(buffer)@.len(),
            r matches Ok(n) ==> n <= old(buffer)@.len() && (n == 0 ==> final(buffer)@ == old(
                buffer,
            )@) && (n > 0 ==> offset + n <= self.bytes().len() && final(buffer)@
                == self.bytes().subrange(offset as int, offset + n) + old(buffer)@.skip(n as int)),
            self.reliable() ==> (r matches Ok(n) && n == readable(
                self.bytes().len() as int,
                offset as int,
                old(buffer)@.len() as int,
            )),
    ;
}

/// Number of bytes that a read of `want` bytes at `offset` finds in a device
/// of `len` bytes.
pub open spec fn readable(len: int, offset: int, want: int) -> int {
    if offset >= len {
        0
    } else if len - offset < want {
        len - offset
    } else {
        want
    }
}

/// Reads exactly `buffer.len()` bytes from `offset`. A read that finds no
/// byte before the buffer is full ends with the unexpected-end error, and so
/// does a read that reaches the end of the 64-bit range.
pub fn read_exact<O: ReadOffset>(device: &O, offset: u64, buffer: &mut [u8]) -> (r: Result<
    (),
    O::Err,
>)
    ensures
        final(buffer)@.len() == old(buffer)@.len(),
        r is Ok && old(buffer)@.len() > 0 ==> offset + old(buffer)@.len() <= device.bytes().len()
            && final(buffer)@ == device.bytes().subrange(
            offset as int,
            offset + old(buffer)@.len(),
        ),
        device.reliable() ==> (r is Ok <==> old(buffer)@.len() == 0 || (offset + old(buffer)@.len()
            <= device.bytes().len() && offset + old(buffer)@.len() <= u64::MAX)),
{
    let total: usize = buffer.len();
    let mut done: usize = 0;
    while done < total
        invariant
            done <= total,
            total == old(buffer)@.len(),
            buffer@.len() == total,
            offset + done <= u64::MAX,
            done > 0 ==> offset + done <= device.bytes().len(),
            forall|j: int| 0 <= j < done ==> buffer@[j] == device.bytes()[offset + j],
        decreases total - done,
    {
        let ghost before = buffer@;
        let (_, rest) = buffer.split_at_mut(done);
        let got = device.read_at(offset + done as u64, rest);
        match got {
            Err(e) => {
                return Err(e);
            },
            Ok(n) => {
                if n == 0 {
                    return Err(O::Err::unexpected_eop());
                }
                if n as u64 > u64::MAX - offset - done as u64 {
                    return Err(O::Err::unexpected_eop());
                }
                proof {
                    assert(buffer@ == before.subrange(0, done as int) + rest@);
                    assert forall|j: int| 0 <= j < done + n implies buffer@[j] == device.bytes()[offset
                        + j] by {
                        if j < done {
                            assert(buffer@[j] == before.subrange(0, done as int)[j]);
                        } else {
                            assert(buffer@[j] == rest@[j - done]);
                        }
                    }
                }
                done = done + n;
            },
        }
    }
    proof {
        if total > 0 {
            assert(buffer@ =~= device.bytes().subrange(offset as int, offset + total));
        }
    }
    Ok(())
}

impl<T: ReadOffset> ReadOffset for Arc<T> {
    type Err = T::Err;

    open spec fn bytes(&self) -> Seq<u8> {
        (**self).bytes()
    }

    open spec fn reliable(&self) -> bool {
        (**self).reliable()
    }

    fn read_at(&self, offset: u64, buffer: &mut [u8]) -> (r: Result<usize, Self::Err>) {
        (**self).read_at(offset, buffer)
    }
}

/// Seeks to `offset` and writes all of `data` there.
pub fn write_at<T: WriteSeek>(f: &mut T, offset: u64, data: &[u8]) -> (r: Result<(), T::Err>)
    ensures
        final(f).dependable() == old(f).dependable(),
        r is Ok ==> final(f).contents() == overlay(old(f).contents(), offset as int, data@),
        old(f).dependable() && offset + data@.len() <= old(f).contents().len() ==> r is Ok,
{
    f.seek(SeekFrom::Start(offset))?;
    f.write_all(data)
}

/// Writes `size` zero bytes from the absolute byte offset `offset` on.
pub fn write_zeroes<T: WriteSeek>(f: &mut T, size: u64, offset: u64) -> (r: Result<(), T::Err>)
    ensures
        final(f).dependable() == old(f).dependable(),
        r is Ok ==> final(f).contents() == overlay(old(f).contents(), offset as int, zeros(size as nat)),
        old(f).dependable() && offset + size <= old(f).contents().len() ==> r is Ok,
{
    let buffer: [u8; 4096] = [0u8; 4096];
    f.seek(SeekFrom::Start(offset))?;
    let mut remaining: u64 = size;
    assert(zeros(0) =~= Seq::<u8>::empty());
    while remaining > 0
        invariant
            remaining <= size,
            f.dependable() == old(f).dependable(),
            f.cursor() == offset + (size - remaining),
            f.contents() == overlay(old(f).contents(), offset as int, zeros((size - remaining) as nat)),
            old(f).dependable() && offset + size <= old(f).contents().len() ==> f.contents().len()
                == old(f).contents().len(),
            forall|i: int| 0 <= i < 4096 ==> buffer@[i] == 0u8,
        decreases remaining,
    {
        let step: usize = if remaining < 4096 {
            remaining as usize
        } else {
            4096
        };
        let chunk: &[u8] = slice_subrange(buffer.as_slice(), 0, step);
        let ghost before = f.contents();
        let written: usize = f.write(chunk)?;
        if written != step {
            return Err(f.failed_to_write());
        }
        proof {
            let so_far = zeros((size - remaining) as nat);
            assert(chunk@.take(step as int) =~= zeros(step as nat));
            lemma_overlay_append(old(f).contents(), offset as int, so_far, zeros(step as nat));
            assert(so_far + zeros(step as nat) =~= zeros((size - remaining + step) as nat));
            if old(f).dependable() && offset + size <= old(f).contents().len() {
                lemma_overlay_within(
                    old(f).contents(),
                    offset as int,
                    zeros((size - remaining + step) as nat),
                );
            }
        }
        remaining = remaining - step as u64;
    }
    Ok(())
}

} // verus!
