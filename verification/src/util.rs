//! Small arithmetic helpers shared by the fixed-point simulation code.

use vstd::prelude::*;

verus! {

/// Quotient rounded toward zero, as hardware division computes it.
/// In specifications `/` is Euclidean division, which differs on negative
/// dividends; the fixed-point arithmetic here rounds toward zero.
pub open spec fn div_tz(a: int, b: int) -> int
    recommends
        b > 0,
{
    if a >= 0 {
        a / b
    } else {
        -((-a) / b)
    }
}

/// Quotient rounded up; used for tier boundaries and chunk sizes.
pub open spec fn ceil_div(a: int, b: int) -> int
    recommends
        a >= 0,
        b > 0,
{
    (a + b - 1) / b
}

/// Executable truncating division of a possibly negative dividend.
pub fn div_trunc(a: i64, b: i64) -> (r: i64)
    requires
        b > 0,
        a > i64::MIN,
    ensures
        r == div_tz(a as int, b as int),
{
    if a >= 0 {
        a / b
    } else {
        -((-a) / b)
    }
}

/// The magnitude of a truncating quotient never exceeds the dividend's.
pub proof fn lemma_div_tz_bound(a: int, b: int, bound: int)
    requires
        b > 0,
        -bound <= a <= bound,
        0 <= bound,
    ensures
        -bound <= div_tz(a, b) <= bound,
{
    if a >= 0 {
        assert(0 <= a / b <= a) by (nonlinear_arith)
            requires
                b > 0,
                a >= 0,
        ;
    } else {
        assert(0 <= (-a) / b <= -a) by (nonlinear_arith)
            requires
                b > 0,
                a < 0,
        ;
    }
}

/// A product of bounded factors is bounded by the product of the bounds.
pub proof fn lemma_mul_abs_bound(a: int, b: int, aa: int, bb: int)
    by (nonlinear_arith)
    requires
        -aa <= a <= aa,
        -bb <= b <= bb,
        0 <= aa,
        0 <= bb,
    ensures
        -(aa * bb) <= a * b <= aa * bb,
{
}

/// Executable ceiling division on u64.
pub fn ceil_div_u64(a: u64, b: u64) -> (r: u64)
    requires
        b > 0,
    ensures
        r == ceil_div(a as int, b as int),
{
    if a == 0 {
        proof {
            assert((b - 1) as int / b as int == 0) by (nonlinear_arith)
                requires
                    b > 0,
            ;
        }
        0
    } else {
        proof {
            lemma_ceil_div_shift(a as int, b as int);
            assert((a - 1) as int / b as int <= a - 1) by (nonlinear_arith)
                requires
                    a >= 1,
                    b > 0,
            ;
        }
        (a - 1) / b + 1
    }
}

/// Executable ceiling division on usize; used for chunk sizes.
pub fn ceil_div_usize(a: usize, b: usize) -> (r: usize)
    requires
        b > 0,
    ensures
        r == ceil_div(a as int, b as int),
{
    if a == 0 {
        proof {
            assert((b - 1) as int / b as int == 0) by (nonlinear_arith)
                requires
                    b > 0,
            ;
        }
        0
    } else {
        proof {
            lemma_ceil_div_shift(a as int, b as int);
            assert((a - 1) as int / b as int <= a - 1) by (nonlinear_arith)
                requires
                    a >= 1,
                    b > 0,
            ;
        }
        (a - 1) / b + 1
    }
}

/// Rounding up equals one more than rounding down of the predecessor.
proof fn lemma_ceil_div_shift(a: int, b: int)
    requires
        a >= 1,
        b > 0,
    ensures
        (a - 1) / b + 1 == ceil_div(a, b),
{
    assert((a - 1) / b + 1 == (a + b - 1) / b) by (nonlinear_arith)
        requires
            a >= 1,
            b > 0,
    ;
}

} // verus!
