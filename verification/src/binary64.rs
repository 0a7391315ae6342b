//! Binary64 numbers as their 64-bit patterns.
//!
//! A pattern is a sign bit, eleven exponent bits and fifty-two fraction bits.
//! Verified code never does arithmetic on these numbers: it compares them,
//! strips their sign and picks among them, all of which is exact on the
//! pattern itself.

use vstd::prelude::*;
use vstd::arithmetic::power2::{
    lemma_pow2_pos,
    lemma_pow2_strictly_increases,
    lemma_pow2_unfold,
    pow2,
};

verus! {

/// The sign bit of a pattern.
pub const SIGN_BIT: u64 = 0x8000_0000_0000_0000;

/// Positive infinity: every exponent bit set, no fraction bit.
pub const INFINITY: u64 = 0x7FF0_0000_0000_0000;

/// Positive zero.
pub const ZERO: u64 = 0;

/// The number one.
pub const ONE: u64 = 0x3FF0_0000_0000_0000;

/// The number minus one.
pub const NEG_ONE: u64 = 0xBFF0_0000_0000_0000;

/// Whether the sign bit is set.
pub open spec fn negative(bits: u64) -> bool {
    bits >= SIGN_BIT
}

/// The pattern without its sign bit, as a number.
pub open spec fn magnitude(bits: u64) -> int {
    if bits >= SIGN_BIT {
        bits - SIGN_BIT
    } else {
        bits as int
    }
}

/// Whether the pattern is not a number: all exponent bits set and some
/// fraction bit.
pub open spec fn nan(bits: u64) -> bool {
    magnitude(bits) > INFINITY
}

/// The place of a number in the order of all numbers. Larger numbers have
/// larger ranks, both zeros have rank 0, and infinities sit at the ends.
/// Meaningless for a pattern that is not a number.
pub open spec fn rank(bits: u64) -> int {
    if negative(bits) {
        -magnitude(bits)
    } else {
        magnitude(bits)
    }
}

/// `a < b` as numbers; false when either is not a number.
pub open spec fn lt(a: u64, b: u64) -> bool {
    !nan(a) && !nan(b) && rank(a) < rank(b)
}

/// `a <= b` as numbers; false when either is not a number.
pub open spec fn le(a: u64, b: u64) -> bool {
    !nan(a) && !nan(b) && rank(a) <= rank(b)
}

/// `a > b` as numbers; false when either is not a number.
pub open spec fn gt(a: u64, b: u64) -> bool {
    lt(b, a)
}

/// The pattern with its sign bit cleared.
pub open spec fn abs(bits: u64) -> u64 {
    magnitude(bits) as u64
}

/// Tests whether a pattern is not a number.
pub fn is_nan(bits: u64) -> (r: bool)
    ensures
        r == nan(bits),
{
    absolute(bits) > INFINITY
}

/// Clears the sign bit.
pub fn absolute(bits: u64) -> (r: u64)
    ensures
        r == abs(bits),
        r < SIGN_BIT,
        nan(r) == nan(bits),
        !nan(bits) ==> rank(r) == magnitude(bits) && rank(r) >= 0,
{
    if bits >= SIGN_BIT {
        bits - SIGN_BIT
    } else {
        bits
    }
}

/// Tests `a < b` as numbers.
pub fn less(a: u64, b: u64) -> (r: bool)
    ensures
        r == lt(a, b),
{
    if is_nan(a) || is_nan(b) {
        return false;
    }
    let ma: u64 = absolute(a);
    let mb: u64 = absolute(b);
    if a >= SIGN_BIT {
        if b >= SIGN_BIT {
            mb < ma
        } else {
            ma > 0 || mb > 0
        }
    } else {
        if b >= SIGN_BIT {
            false
        } else {
            ma < mb
        }
    }
}

/// Tests `a <= b` as numbers.
pub fn at_most(a: u64, b: u64) -> (r: bool)
    ensures
        r == le(a, b),
{
    if is_nan(a) || is_nan(b) {
        return false;
    }
    !less(b, a)
}

/// Tests `a > b` as numbers.
pub fn greater(a: u64, b: u64) -> (r: bool)
    ensures
        r == gt(a, b),
{
    less(b, a)
}

/// Whether the pattern is a finite number: not every exponent bit is set.
pub open spec fn finite(bits: u64) -> bool {
    magnitude(bits) < INFINITY
}

/// The size of the finite number whose pattern, without its sign, is
/// `magnitude`, counted in units of the smallest positive number. With `e`
/// the exponent bits and `f` the fraction bits, that is `f` where `e` is
/// zero, and `(2^52 + f) * 2^(e - 1)` otherwise.
pub open spec fn size(magnitude: int) -> int {
    let e = magnitude / 0x10_0000_0000_0000;
    let f = magnitude % 0x10_0000_0000_0000;
    if e <= 0 {
        f
    } else {
        (0x10_0000_0000_0000 + f) * pow2((e - 1) as nat)
    }
}

/// The finite number that a pattern stands for, in units of the smallest
/// positive number.
pub open spec fn scaled(bits: u64) -> int {
    if negative(bits) {
        -size(magnitude(bits))
    } else {
        size(magnitude(bits))
    }
}

/// A larger magnitude stands for a larger size.
pub proof fn lemma_size_increases(x: int, y: int)
    requires
        0 <= x < y,
    ensures
        0 <= size(x) < size(y),
{
    let h: int = 0x10_0000_0000_0000;
    let ex = x / h;
    let fx = x % h;
    let ey = y / h;
    let fy = y % h;
    assert(0 <= ex <= ey);
    if ex > 0 {
        lemma_pow2_pos((ex - 1) as nat);
        assert(0 <= (h + fx) * pow2((ex - 1) as nat)) by (nonlinear_arith)
            requires
                0 <= h + fx,
                pow2((ex - 1) as nat) > 0,
        ;
    }
    if ex == ey {
        assert(fx < fy);
        if ex > 0 {
            let p = pow2((ex - 1) as nat);
            assert((h + fx) * p < (h + fy) * p) by (nonlinear_arith)
                requires
                    fx < fy,
                    p > 0,
            ;
        }
    } else {
        let q = pow2((ey - 1) as nat);
        lemma_pow2_pos((ey - 1) as nat);
        assert(h * q <= (h + fy) * q) by (nonlinear_arith)
            requires
                0 <= fy,
                q > 0,
                h > 0,
        ;
        if ex == 0 {
            assert(h * 1 <= h * q) by (nonlinear_arith)
                requires
                    q >= 1,
                    h > 0,
            ;
        } else {
            let p = pow2((ex - 1) as nat);
            lemma_pow2_unfold(ex as nat);
            if ex < ey - 1 {
                lemma_pow2_strictly_increases(ex as nat, (ey - 1) as nat);
            }
            assert(2 * p <= q);
            assert((h + fx) * p < h * q) by (nonlinear_arith)
                requires
                    0 <= fx < h,
                    p > 0,
                    2 * p <= q,
            ;
        }
    }
}

/// Ranks order finite patterns as the numbers they stand for are ordered, and
/// two finite patterns have the same rank exactly when they stand for the
/// same number.
pub proof fn lemma_rank_orders_as_numbers(a: u64, b: u64)
    requires
        finite(a),
        finite(b),
    ensures
        rank(a) < rank(b) <==> scaled(a) < scaled(b),
        rank(a) == rank(b) <==> scaled(a) == scaled(b),
{
    let x = magnitude(a);
    let y = magnitude(b);
    assert(size(0) == 0);
    if x < y {
        lemma_size_increases(x, y);
    }
    if y < x {
        lemma_size_increases(y, x);
    }
    if 0 < x {
        lemma_size_increases(0, x);
    }
    if 0 < y {
        lemma_size_increases(0, y);
    }
}

} // verus!
