//! Little-endian encoding of the integer fields of on-disk records.
//!
//! Every multi-byte field of the volume is stored least significant byte
//! first. The functions here are the only place where integers and bytes are
//! converted into one another.

use vstd::prelude::*;

verus! {

/// Number of values that `n` bytes can hold: 256 to the power `n`.
pub open spec fn byte_limit(n: nat) -> nat
    decreases n,
{
    if n == 0 {
        1
    } else {
        256 * byte_limit((n - 1) as nat)
    }
}

/// The `n` low bytes of `x`, least significant first.
pub open spec fn le_bytes(x: nat, n: nat) -> Seq<u8>
    decreases n,
{
    if n == 0 {
        Seq::empty()
    } else {
        seq![(x % 256) as u8] + le_bytes(x / 256, (n - 1) as nat)
    }
}

/// The number that the bytes `s` spell, least significant first.
pub open spec fn le_value(s: Seq<u8>) -> nat
    decreases s.len(),
{
    if s.len() == 0 {
        0
    } else {
        s[0] as nat + 256 * le_value(s.drop_first())
    }
}

pub proof fn lemma_byte_limits()
    ensures
        byte_limit(0) == 1,
        byte_limit(1) == 0x100,
        byte_limit(2) == 0x1_0000,
        byte_limit(4) == 0x1_0000_0000,
        byte_limit(8) == 0x1_0000_0000_0000_0000,
        byte_limit(16) == 0x1_0000_0000_0000_0000_0000_0000_0000_0000,
{
    reveal_with_fuel(byte_limit, 17);
}

pub proof fn lemma_le_bytes_len(x: nat, n: nat)
    ensures
        le_bytes(x, n).len() == n,
    decreases n,
{
    if n > 0 {
        lemma_le_bytes_len(x / 256, (n - 1) as nat);
    }
}

pub proof fn lemma_le_value_bound(s: Seq<u8>)
    ensures
        le_value(s) < byte_limit(s.len()),
    decreases s.len(),
{
    if s.len() > 0 {
        lemma_le_value_bound(s.drop_first());
    }
}

/// Decoding what was encoded gives the number back, as far as `n` bytes hold it.
pub proof fn lemma_le_value_of_bytes(x: nat, n: nat)
    requires
        x < byte_limit(n),
    ensures
        le_value(le_bytes(x, n)) == x,
    decreases n,
{
    if n > 0 {
        let rest = le_bytes(x / 256, (n - 1) as nat);
        lemma_le_value_of_bytes(x / 256, (n - 1) as nat);
        assert(le_bytes(x, n).drop_first() =~= rest);
    }
}

/// Encoding what was decoded gives the bytes back.
pub proof fn lemma_le_bytes_of_value(s: Seq<u8>)
    ensures
        le_bytes(le_value(s), s.len()) == s,
    decreases s.len(),
{
    if s.len() > 0 {
        let t = s.drop_first();
        lemma_le_bytes_of_value(t);
        let v = le_value(s);
        assert(v % 256 == s[0] as nat);
        assert(v / 256 == le_value(t));
        assert(le_bytes(v, s.len()) =~= s);
    } else {
        assert(le_bytes(le_value(s), 0) =~= s);
    }
}

/// Appends the `n` low bytes of `v` to `out`, least significant first.
pub fn put_le(out: &mut Vec<u8>, v: u128, n: usize)
    requires
        n <= 16,
    ensures
        final(out)@ == old(out)@ + le_bytes(v as nat, n as nat),
{
    let mut rest: u128 = v;
    let mut i: usize = 0;
    let ghost start = out@;
    while i < n
        invariant
            i <= n,
            start + le_bytes(v as nat, n as nat) == out@ + le_bytes(rest as nat, (n - i) as nat),
        decreases n - i,
    {
        let ghost before = out@;
        out.push((rest % 256) as u8);
        proof {
            let tail = le_bytes((rest / 256) as nat, (n - i - 1) as nat);
            assert(le_bytes(rest as nat, (n - i) as nat) == seq![(rest % 256) as u8] + tail);
            assert(before + (seq![(rest % 256) as u8] + tail) =~= before.push((rest % 256) as u8)
                + tail);
        }
        rest = rest / 256;
        i = i + 1;
    }
    assert(le_bytes(rest as nat, 0) =~= Seq::<u8>::empty());
    assert(out@ + Seq::<u8>::empty() =~= out@);
}

/// Reads the number that `n` bytes of `b` from index `at` spell.
pub fn get_le(b: &[u8], at: usize, n: usize) -> (v: u128)
    requires
        n <= 16,
        at + n <= b@.len(),
    ensures
        v == le_value(b@.subrange(at as int, at + n)),
{
    let mut v: u128 = 0;
    let mut i: usize = n;
    let len: usize = b.len();
    assert(b@.subrange(at + n, at + n) =~= Seq::<u8>::empty());
    while i > 0
        invariant
            i <= n,
            n <= 16,
            len == b@.len(),
            at + n <= b@.len(),
            v == le_value(b@.subrange(at + i, at + n)),
        decreases i,
    {
        proof {
            let s = b@.subrange(at + i - 1, at + n);
            let t = b@.subrange(at + i, at + n);
            assert(s.drop_first() =~= t);
            assert(s[0] == b@[at + i - 1]);
            lemma_le_value_bound(t);
            lemma_le_value_bound(s);
            lemma_byte_limit_monotone(s.len(), 16);
            lemma_byte_limits();
        }
        i = i - 1;
        v = v * 256 + b[at + i] as u128;
    }
    v
}

pub proof fn lemma_byte_limit_monotone(a: nat, b: nat)
    requires
        a <= b,
    ensures
        byte_limit(a) <= byte_limit(b),
    decreases b,
{
    if a < b {
        lemma_byte_limit_monotone(a, (b - 1) as nat);
    }
}

/// Reads a 16-bit field.
pub fn get_u16(b: &[u8], at: usize) -> (v: u16)
    requires
        at + 2 <= b@.len(),
    ensures
        v == le_value(b@.subrange(at as int, at + 2)),
{
    proof {
        lemma_le_value_bound(b@.subrange(at as int, at + 2));
        lemma_byte_limits();
    }
    get_le(b, at, 2) as u16
}

/// Reads a 32-bit field.
pub fn get_u32(b: &[u8], at: usize) -> (v: u32)
    requires
        at + 4 <= b@.len(),
    ensures
        v == le_value(b@.subrange(at as int, at + 4)),
{
    proof {
        lemma_le_value_bound(b@.subrange(at as int, at + 4));
        lemma_byte_limits();
    }
    get_le(b, at, 4) as u32
}

/// Reads a 64-bit field.
pub fn get_u64(b: &[u8], at: usize) -> (v: u64)
    requires
        at + 8 <= b@.len(),
    ensures
        v == le_value(b@.subrange(at as int, at + 8)),
{
    proof {
        lemma_le_value_bound(b@.subrange(at as int, at + 8));
        lemma_byte_limits();
    }
    get_le(b, at, 8) as u64
}

/// Reads a 128-bit field.
pub fn get_u128(b: &[u8], at: usize) -> (v: u128)
    requires
        at + 16 <= b@.len(),
    ensures
        v == le_value(b@.subrange(at as int, at + 16)),
{
    get_le(b, at, 16)
}

/// Appends the bytes of `src` to `out`.
pub fn put_bytes(out: &mut Vec<u8>, src: &[u8])
    ensures
        final(out)@ == old(out)@ + src@,
{
    let mut i: usize = 0;
    let n: usize = src.len();
    while i < n
        invariant
            i <= n,
            n == src@.len(),
            out@ == old(out)@ + src@.take(i as int),
        decreases n - i,
    {
        out.push(src[i]);
        assert(src@.take(i + 1) =~= src@.take(i as int).push(src@[i as int]));
        assert(old(out)@ + src@.take(i + 1) =~= (old(out)@ + src@.take(i as int)).push(src@[i as int]));
        i = i + 1;
    }
    assert(src@.take(n as int) =~= src@);
}

/// Appends `n` copies of `byte` to `out`.
pub fn put_fill(out: &mut Vec<u8>, byte: u8, n: usize)
    ensures
        final(out)@ == old(out)@ + Seq::new(n as nat, |i: int| byte),
{
    let mut i: usize = 0;
    while i < n
        invariant
            i <= n,
            out@ == old(out)@ + Seq::new(i as nat, |j: int| byte),
        decreases n - i,
    {
        out.push(byte);
        assert(old(out)@ + Seq::new((i + 1) as nat, |j: int| byte) =~= (old(out)@ + Seq::new(
            i as nat,
            |j: int| byte,
        )).push(byte));
        i = i + 1;
    }
}

/// Copies `N` bytes of `b` from index `at` into an array.
pub fn take_array<const N: usize>(b: &[u8], at: usize) -> (r: [u8; N])
    requires
        at + N <= b@.len(),
    ensures
        r@ == b@.subrange(at as int, at + N),
{
    let mut r: [u8; N] = [0u8; N];
    let mut i: usize = 0;
    let len: usize = b.len();
    while i < N
        invariant
            i <= N,
            len == b@.len(),
            at + N <= b@.len(),
            r@.len() == N,
            forall|j: int| 0 <= j < i ==> r@[j] == b@[at + j],
        decreases N - i,
    {
        r[i] = b[at + i];
        i = i + 1;
    }
    assert(r@ =~= b@.subrange(at as int, at + N));
    r
}

} // verus!
