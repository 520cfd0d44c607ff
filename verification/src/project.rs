//! The projector: pure fixed-point functions from star state to screen
//! space — perspective scale, projected position, and depth shading.

use vstd::prelude::*;

use crate::config::StarConfig;
use crate::util::div_trunc;
use crate::util::div_tz;
use crate::util::lemma_div_tz_bound;
use crate::util::lemma_mul_abs_bound;

verus! {

/// Perspective scale in thousandths: `near / depth`.
pub open spec fn scale_spec(depth: int, near: int) -> int
    recommends
        depth > 0,
{
    near * 1000 / depth
}

/// Projected x in mils: the aspect correction applies to x only.
pub open spec fn screen_x_spec(x: int, scale: int, aspect: int, width: int) -> int {
    width * 1000 / 2 + div_tz(div_tz(x * scale, 1000) * aspect, 1000)
}

/// Projected y in mils.
pub open spec fn screen_y_spec(y: int, scale: int, height: int) -> int {
    height * 1000 / 2 + div_tz(y * scale, 1000)
}

/// Brightness from the depth ratio `(depth - near) / (far - near)`, clamped
/// to [0, 1] and mapped to [0, 255], rounding to the nearest level.
pub open spec fn brightness_spec(depth: int, near: int, far: int) -> int
    recommends
        near < far,
{
    let den = far - near;
    let t = if depth - near < 0 {
        0
    } else if depth - near > den {
        den
    } else {
        depth - near
    };
    ((den - t) * 255 + den / 2) / den
}

/// A color channel darkened by saturating subtraction.
pub open spec fn darkened(base: int, darkness: int) -> int {
    if base < darkness {
        0
    } else {
        base - darkness
    }
}

/// Executable perspective scale.
pub fn perspective_scale(depth: i64, near: i64) -> (r: i64)
    requires
        0 < depth,
        0 < near <= 100_000,
    ensures
        r == scale_spec(depth as int, near as int),
        0 <= r <= 100_000_000,
{
    proof {
        assert(0 <= near as int * 1000 / depth as int <= near * 1000) by (nonlinear_arith)
            requires
                depth >= 1,
                0 < near,
        ;
    }
    near * 1000 / depth
}

/// Executable projected position.  The bounds on the result leave room for
/// the rotated corner offsets that the quad writer adds.
pub fn screen_pos(x: i64, y: i64, scale: i64, cfg: &StarConfig) -> (p: (i64, i64))
    requires
        cfg.valid(),
        -cfg.pos_limit() <= x <= cfg.pos_limit(),
        -cfg.pos_limit() <= y <= cfg.pos_limit(),
        0 <= scale <= 100_000_000,
    ensures
        p.0 == screen_x_spec(x as int, scale as int, cfg.aspect_mil(), cfg.width as int),
        p.1 == screen_y_spec(y as int, scale as int, cfg.height as int),
        -10_000_000_000_000_000 <= p.0 <= 10_000_000_000_000_000,
        -10_000_000_000_000_000 <= p.1 <= 10_000_000_000_000_000,
{
    let aspect: i64 = cfg.width as i64 * 1000 / cfg.height as i64;
    proof {
        assert(0 <= cfg.width as int * 1000 / cfg.height as int <= 20000) by (nonlinear_arith)
            requires
                cfg.height >= 1,
                cfg.width as int * 1000 <= 20000 * cfg.height as int,
        ;
        assert(cfg.pos_limit() <= 2_000_000_000) by {
            assert(cfg.spread as int * cfg.aspect_mil() <= 2_000_000_000_000) by (nonlinear_arith)
                requires
                    0 < cfg.spread <= 100_000_000,
                    0 <= cfg.aspect_mil() <= 20000,
            ;
            assert(cfg.spread as int * cfg.aspect_mil() / 1000 <= 2_000_000_000) by (
            nonlinear_arith)
                requires
                    cfg.spread as int * cfg.aspect_mil() <= 2_000_000_000_000,
                    cfg.spread as int * cfg.aspect_mil() >= 0,
            ;
            assert(cfg.spread as int * cfg.aspect_mil() >= 0) by (nonlinear_arith)
                requires
                    cfg.spread >= 0,
                    cfg.aspect_mil() >= 0,
            ;
        }
        lemma_mul_abs_bound(x as int, scale as int, 2_000_000_000, 100_000_000);
        lemma_mul_abs_bound(y as int, scale as int, 2_000_000_000, 100_000_000);
        lemma_div_tz_bound(x as int * scale as int, 1000, 200_000_000_000_000_000);
        lemma_div_tz_bound(y as int * scale as int, 1000, 200_000_000_000_000_000);
    }
    let xs = div_trunc(x * scale, 1000);
    proof {
        lemma_div_tz_quotient(x as int * scale as int);
        lemma_mul_abs_bound(xs as int, aspect as int, 200_000_000_000_000, 20000);
        lemma_div_tz_bound(xs as int * aspect as int, 1000, 4_000_000_000_000_000_000);
        lemma_div_tz_quotient(xs as int * aspect as int);
        lemma_div_tz_quotient(y as int * scale as int);
    }
    let xa = div_trunc(xs * aspect, 1000);
    let ys = div_trunc(y * scale, 1000);
    let px = cfg.width as i64 * 1000 / 2 + xa;
    let py = cfg.height as i64 * 1000 / 2 + ys;
    (px, py)
}

/// A truncating division by 1000 shrinks the magnitude a thousandfold.
proof fn lemma_div_tz_quotient(a: int)
    ensures
        -(if a >= 0 {
            a
        } else {
            -a
        }) / 1000 <= div_tz(a, 1000) <= (if a >= 0 {
            a
        } else {
            -a
        }) / 1000,
        1000 * div_tz(a, 1000) - 1000 < a < 1000 * div_tz(a, 1000) + 1000,
{
    if a >= 0 {
        assert(1000 * (a / 1000) <= a < 1000 * (a / 1000) + 1000) by (nonlinear_arith);
    } else {
        assert(1000 * ((-a) / 1000) <= -a < 1000 * ((-a) / 1000) + 1000) by (nonlinear_arith);
    }
}

/// Executable brightness.
pub fn brightness(depth: i64, near: i64, far: i64) -> (b: u8)
    requires
        0 < near < far <= 1_000_000_000,
    ensures
        b == brightness_spec(depth as int, near as int, far as int),
{
    let den = far - near;
    let t = if depth < near {
        0
    } else if depth - near > den {
        den
    } else {
        depth - near
    };
    proof {
        assert(((den - t) as int * 255 + den as int / 2) / den as int <= 255) by (nonlinear_arith)
            requires
                0 <= t <= den,
                den > 0,
        ;
        assert(((den - t) as int * 255 + den as int / 2) / den as int >= 0) by (nonlinear_arith)
            requires
                0 <= t <= den,
                den > 0,
        ;
    }
    let b = ((den - t) * 255 + den / 2) / den;
    b as u8
}

/// Executable saturating darkening of one channel.
pub fn darken(base: u8, darkness: u8) -> (r: u8)
    ensures
        r == darkened(base as int, darkness as int),
{
    if base < darkness {
        0
    } else {
        base - darkness
    }
}

} // verus!
