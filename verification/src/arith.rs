//! Integer helpers shared by the geometry solver and the on-disk codecs:
//! overflow-checked arithmetic, alignment and exact base-two logarithms.

use checked_num::CheckedU64;
use vstd::arithmetic::logarithm::{lemma_log_pow, log};
use vstd::arithmetic::power2::{
    lemma2_to64, lemma_pow2, lemma_pow2_strictly_increases, lemma_pow2_unfold, pow2,
};
use vstd::prelude::*;

verus! {

/// Smallest multiple of `a` that is not below `x`.
pub open spec fn align_up(x: int, a: int) -> int {
    if x % a == 0 {
        x
    } else {
        x + (a - x % a)
    }
}

/// Quotient of `x` by `d`, rounded up.
pub open spec fn div_ceil(x: int, d: int) -> int {
    if x % d == 0 {
        x / d
    } else {
        x / d + 1
    }
}

/// Whether `x` is one of the powers of two that 32 bits hold.
pub open spec fn is_power_of_two(x: int) -> bool {
    exists|k: nat| k < 32 && x == #[trigger] pow2(k)
}

/// Base-two logarithm, rounded down.
pub open spec fn log2(x: int) -> int {
    log(2, x)
}

/// The logarithm of a power of two is its exponent.
pub proof fn lemma_log2_pow2(k: nat)
    ensures
        log2(pow2(k) as int) == k,
{
    lemma_pow2(k);
    lemma_log_pow(2, k);
}

/// Sum of two 64-bit values through `checked_num`: the `Add` impl of
/// `CheckedNum<u64>` forwards to the primitive's checked addition, so the
/// result is the exact sum when it fits and nothing otherwise.
#[verifier::external_body]
pub(crate) fn checked_add(a: u64, b: u64) -> (r: Option<u64>)
    ensures
        a + b <= u64::MAX ==> r == Some((a + b) as u64),
        a + b > u64::MAX ==> r.is_none(),
{
    (CheckedU64::new(a) + b).as_option()
}

/// Difference of two 64-bit values through `checked_num`: the `Sub` impl of
/// `CheckedNum<u64>` forwards to the primitive's checked subtraction, so the
/// result is the exact difference when it is not negative and nothing
/// otherwise.
#[verifier::external_body]
pub(crate) fn checked_sub(a: u64, b: u64) -> (r: Option<u64>)
    ensures
        a >= b ==> r == Some((a - b) as u64),
        a < b ==> r.is_none(),
{
    (CheckedU64::new(a) - b).as_option()
}

/// Product of two 64-bit values through `checked_num`: the `Mul` impl of
/// `CheckedNum<u64>` forwards to the primitive's checked multiplication, so
/// the result is the exact product when it fits and nothing otherwise.
#[verifier::external_body]
pub(crate) fn checked_mul(a: u64, b: u64) -> (r: Option<u64>)
    ensures
        a * b <= u64::MAX ==> r == Some((a * b) as u64),
        a * b > u64::MAX ==> r.is_none(),
{
    (CheckedU64::new(a) * b).as_option()
}

/// Quotient of two 64-bit values through `checked_num`: the `Div` impl of
/// `CheckedNum<u64>` forwards to the primitive's checked division, which
/// gives nothing for a zero divisor and the truncated quotient otherwise.
#[verifier::external_body]
pub(crate) fn checked_div(a: u64, b: u64) -> (r: Option<u64>)
    ensures
        b != 0 ==> r == Some((a / b) as u64),
        b == 0 ==> r.is_none(),
{
    (CheckedU64::new(a) / b).as_option()
}

/// Rounds `x` up to the next multiple of `a`, or gives nothing when that
/// multiple does not fit in 64 bits.
pub fn align_up_u64(x: u64, a: u64) -> (r: Option<u64>)
    requires
        a > 0,
    ensures
        align_up(x as int, a as int) <= u64::MAX ==> r == Some(align_up(x as int, a as int) as u64),
        align_up(x as int, a as int) > u64::MAX ==> r.is_none(),
{
    let rem: u64 = x % a;
    if rem == 0 {
        Some(x)
    } else {
        checked_add(x, a - rem)
    }
}

/// Rounds `x` up to the next multiple of `a` where the caller knows that the
/// result fits.
pub fn align_up_u32(x: u32, a: u32) -> (r: u32)
    requires
        a > 0,
        align_up(x as int, a as int) <= u32::MAX,
    ensures
        r == align_up(x as int, a as int),
{
    let rem: u32 = x % a;
    if rem == 0 {
        x
    } else {
        x + (a - rem)
    }
}

/// Exponent `k` with `x == 2^k`, when there is one.
pub fn log2_exact(x: u32) -> (r: Option<u8>)
    ensures
        match r {
            Some(k) => k < 32 && x == pow2(k as nat),
            None => forall|k: nat| k < 32 ==> x != #[trigger] pow2(k),
        },
{
    let mut p: u64 = 1;
    let mut k: u8 = 0;
    proof {
        lemma2_to64();
    }
    while k < 32
        invariant
            k <= 32,
            p == pow2(k as nat),
            p <= 0x1_0000_0000,
            forall|j: nat| j < k ==> x != #[trigger] pow2(j),
        decreases 32 - k,
    {
        if p == x as u64 {
            return Some(k);
        }
        proof {
            lemma_pow2_unfold((k + 1) as nat);
            lemma2_to64();
            if k + 1 < 32 {
                lemma_pow2_strictly_increases((k + 1) as nat, 32);
            }
        }
        p = p * 2;
        k = k + 1;
    }
    None
}

/// Two to the power `k`.
pub fn pow2_u64(k: u8) -> (r: u64)
    requires
        k < 64,
    ensures
        r == pow2(k as nat),
{
    let mut p: u64 = 1;
    let mut i: u8 = 0;
    proof {
        lemma2_to64();
    }
    while i < k
        invariant
            i <= k < 64,
            p == pow2(i as nat),
        decreases k - i,
    {
        proof {
            lemma_pow2_unfold((i + 1) as nat);
            vstd::arithmetic::power2::lemma2_to64_rest();
            if i + 1 < 63 {
                lemma_pow2_strictly_increases((i + 1) as nat, 63);
            }
        }
        p = p * 2;
        i = i + 1;
    }
    p
}

/// Facts about rounding up that the solver and its laws rely on.
pub proof fn lemma_align_up(x: int, a: int)
    requires
        x >= 0,
        a > 0,
    ensures
        align_up(x, a) % a == 0,
        x <= align_up(x, a) < x + a,
        align_up(x, a) == div_ceil(x, a) * a,
{
    let q: int = x / a;
    let r: int = x % a;
    assert(x == a * q + r) by {
        vstd::arithmetic::div_mod::lemma_fundamental_div_mod(x, a);
    }
    if r == 0 {
        assert(align_up(x, a) == q * a) by (nonlinear_arith)
            requires
                x == a * q + r,
                r == 0,
                align_up(x, a) == x,
        ;
    } else {
        assert(align_up(x, a) == (q + 1) * a) by (nonlinear_arith)
            requires
                x == a * q + r,
                align_up(x, a) == x + (a - r),
        ;
        vstd::arithmetic::div_mod::lemma_mod_multiples_basic(q + 1, a);
    }
}

} // verus!
