//! Fixed-point sine and cosine on milliradian angles, scaled by 1000.
//!
//! The quad writer only needs a smooth, bounded approximation to rotate
//! sprite corners; this is the classical rational approximation of the sine
//! on a half turn, reflected onto the second half.  Its defining property
//! here is exactness with respect to its own specification and the bound
//! `|sin| <= 1000`, which the overflow proofs of the projection rely on.

use vstd::prelude::*;

use crate::star::TAU_MIL;

verus! {

/// Scale of trigonometric values: 1000 stands for 1.0.
pub const TRIG_ONE: i64 = 1000;

/// Half a turn, in milliradians.
pub const PI_MIL: i64 = 3142;

/// A quarter turn, in milliradians.
pub const HALF_PI_MIL: i64 = 1571;

/// The rational sine approximation on a half turn, scaled by 1000:
/// `16 x (pi - x) / (5 pi^2 - 4 x (pi - x))`.
pub open spec fn sin_half_spec(x: int) -> int
    recommends
        0 <= x <= PI_MIL,
{
    let p = x * (PI_MIL - x);
    16 * p * TRIG_ONE / (5 * PI_MIL * PI_MIL - 4 * p)
}

/// Sine of a normalized angle: the second half turn mirrors the first.
pub open spec fn sin_spec(a: int) -> int
    recommends
        0 <= a < TAU_MIL,
{
    if a < PI_MIL {
        sin_half_spec(a)
    } else {
        -sin_half_spec(a - PI_MIL)
    }
}

/// Cosine as the sine advanced by a quarter turn.
pub open spec fn cos_spec(a: int) -> int
    recommends
        0 <= a < TAU_MIL,
{
    if a + HALF_PI_MIL >= TAU_MIL {
        sin_spec(a + HALF_PI_MIL - TAU_MIL)
    } else {
        sin_spec(a + HALF_PI_MIL)
    }
}

/// The half-turn approximation stays within [0, 1000].
pub proof fn lemma_sin_half_bounded(x: int)
    requires
        0 <= x <= PI_MIL,
    ensures
        0 <= sin_half_spec(x) <= TRIG_ONE,
{
    let p = x * (PI_MIL - x);
    assert(0 <= p && 20 * p <= 5 * PI_MIL * PI_MIL) by (nonlinear_arith)
        requires
            0 <= x <= PI_MIL,
            p == x * (PI_MIL - x),
    ;
    let den = 5 * PI_MIL * PI_MIL - 4 * p;
    assert(den >= 4 * p + (5 * PI_MIL * PI_MIL - 20 * p));
    assert(0 <= 16 * p * TRIG_ONE / den <= TRIG_ONE) by (nonlinear_arith)
        requires
            0 <= p,
            den > 0,
            16 * p <= den,
    ;
}

/// The sine of any normalized angle stays within [-1000, 1000].
pub proof fn lemma_sin_bounded(a: int)
    requires
        0 <= a < TAU_MIL,
    ensures
        -TRIG_ONE <= sin_spec(a) <= TRIG_ONE,
{
    if a < PI_MIL {
        lemma_sin_half_bounded(a);
    } else {
        lemma_sin_half_bounded(a - PI_MIL);
    }
}

/// The cosine of any normalized angle stays within [-1000, 1000].
pub proof fn lemma_cos_bounded(a: int)
    requires
        0 <= a < TAU_MIL,
    ensures
        -TRIG_ONE <= cos_spec(a) <= TRIG_ONE,
{
    if a + HALF_PI_MIL >= TAU_MIL {
        lemma_sin_bounded(a + HALF_PI_MIL - TAU_MIL);
    } else {
        lemma_sin_bounded(a + HALF_PI_MIL);
    }
}

/// Executable sine on a normalized milliradian angle.
pub fn sin_mil(a: i64) -> (r: i64)
    requires
        0 <= a < TAU_MIL,
    ensures
        r == sin_spec(a as int),
        -TRIG_ONE <= r <= TRIG_ONE,
{
    proof {
        lemma_sin_bounded(a as int);
    }
    if a < PI_MIL {
        sin_half(a)
    } else {
        -sin_half(a - PI_MIL)
    }
}

/// Executable cosine on a normalized milliradian angle.
pub fn cos_mil(a: i64) -> (r: i64)
    requires
        0 <= a < TAU_MIL,
    ensures
        r == cos_spec(a as int),
        -TRIG_ONE <= r <= TRIG_ONE,
{
    proof {
        lemma_cos_bounded(a as int);
    }
    if a + HALF_PI_MIL >= TAU_MIL {
        sin_mil(a + HALF_PI_MIL - TAU_MIL)
    } else {
        sin_mil(a + HALF_PI_MIL)
    }
}

/// The half-turn approximation itself.
fn sin_half(x: i64) -> (r: i64)
    requires
        0 <= x <= PI_MIL,
    ensures
        r == sin_half_spec(x as int),
        0 <= r <= TRIG_ONE,
{
    proof {
        lemma_sin_half_bounded(x as int);
        assert(0 <= x as int * (PI_MIL - x) as int <= HALF_PI_MIL * HALF_PI_MIL) by (
        nonlinear_arith)
            requires
                0 <= x <= PI_MIL,
        ;
    }
    let p = x * (PI_MIL - x);
    proof {
        assert(20 * p <= 5 * PI_MIL * PI_MIL) by (nonlinear_arith)
            requires
                p == x as int * (PI_MIL - x) as int,
                0 <= x <= PI_MIL,
        ;
    }
    let den = 5 * PI_MIL * PI_MIL - 4 * p;
    16 * p * TRIG_ONE / den
}

} // verus!
