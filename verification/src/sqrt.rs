//! Floor square roots: what they are, and the outside routine that computes them.

use integer_sqrt::IntegerSquareRoot;
use vstd::prelude::*;

verus! {

/// `r` is the floor of the square root of `n`.
pub open spec fn is_floor_sqrt(n: nat, r: nat) -> bool {
    r * r <= n && n < (r + 1) * (r + 1)
}

/// The floor of the square root of `n`.
pub open spec fn isqrt(n: nat) -> nat {
    choose|r: nat| is_floor_sqrt(n, r)
}

/// A number has at most one floor square root.
pub proof fn lemma_floor_sqrt_unique(n: nat, a: nat, b: nat)
    requires
        is_floor_sqrt(n, a),
        is_floor_sqrt(n, b),
    ensures
        a == b,
{
    if a < b {
        assert((a + 1) * (a + 1) <= b * b) by (nonlinear_arith)
            requires
                a + 1 <= b,
        ;
    } else if b < a {
        assert((b + 1) * (b + 1) <= a * a) by (nonlinear_arith)
            requires
                b + 1 <= a,
        ;
    }
}

/// Every number has a floor square root.
pub proof fn lemma_floor_sqrt_exists(n: nat) -> (r: nat)
    ensures
        is_floor_sqrt(n, r),
    decreases n,
{
    if n == 0 {
        assert(is_floor_sqrt(0, 0)) by (nonlinear_arith);
        0
    } else {
        let p = lemma_floor_sqrt_exists((n - 1) as nat);
        if (p + 1) * (p + 1) <= n {
            assert(is_floor_sqrt(n, p + 1)) by (nonlinear_arith)
                requires
                    (p + 1) * (p + 1) <= n,
                    n - 1 < (p + 1) * (p + 1),
            ;
            p + 1
        } else {
            assert(is_floor_sqrt(n, p)) by (nonlinear_arith)
                requires
                    p * p <= n - 1,
                    n < (p + 1) * (p + 1),
            ;
            p
        }
    }
}

/// `isqrt(n)` is the floor square root of `n`.
pub proof fn lemma_isqrt_is_floor_sqrt(n: nat)
    ensures
        is_floor_sqrt(n, isqrt(n)),
{
    let r = lemma_floor_sqrt_exists(n);
}

/// Whatever is a floor square root of `n` is `isqrt(n)`.
pub proof fn lemma_isqrt_is(n: nat, r: nat)
    requires
        is_floor_sqrt(n, r),
    ensures
        isqrt(n) == r,
{
    lemma_isqrt_is_floor_sqrt(n);
    lemma_floor_sqrt_unique(n, r, isqrt(n));
}

/// The floor square root of a number below `bound * bound` is below `bound`.
pub proof fn lemma_isqrt_below(n: nat, bound: nat)
    requires
        n < bound * bound,
    ensures
        isqrt(n) < bound,
{
    lemma_isqrt_is_floor_sqrt(n);
    let r = isqrt(n);
    if r >= bound {
        assert(bound * bound <= r * r) by (nonlinear_arith)
            requires
                bound <= r,
        ;
    }
}

/// Calls `integer_sqrt` of the crate `integer-sqrt` on a `u128`.
///
/// Trusted: the result is the floor of the square root of `n`, as that crate
/// documents for unsigned integers, on which it never fails.
#[verifier::external_body]
pub(crate) fn integer_sqrt_u128(n: u128) -> (r: u128)
    ensures
        is_floor_sqrt(n as nat, r as nat),
{
    n.integer_sqrt()
}

/// The floor square root of a 128-bit number, which fits in 64 bits.
pub fn floor_sqrt(n: u128) -> (r: u128)
    ensures
        r == isqrt(n as nat),
        r <= u64::MAX,
{
    let r = integer_sqrt_u128(n);
    proof {
        lemma_isqrt_is(n as nat, r as nat);
        lemma_isqrt_below(n as nat, 0x1_0000_0000_0000_0000);
    }
    r
}

} // verus!
