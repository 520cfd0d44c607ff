//! The quad writer: fills the four vertices of one star's screen quad in the
//! CPU-side vertex mirror.  Positions are in mils of a pixel, texture
//! coordinates in sprite pixels.

use vstd::prelude::*;

use crate::config::StarConfig;
use crate::project::brightness;
use crate::project::brightness_spec;
use crate::project::darken;
use crate::project::darkened;
use crate::project::perspective_scale;
use crate::project::scale_spec;
use crate::project::screen_pos;
use crate::project::screen_x_spec;
use crate::project::screen_y_spec;
use crate::star::Star;
use crate::trig::cos_mil;
use crate::trig::cos_spec;
use crate::trig::sin_mil;
use crate::trig::sin_spec;
use crate::util::div_trunc;
use crate::util::div_tz;
use crate::util::lemma_div_tz_bound;
use crate::util::lemma_mul_abs_bound;

verus! {

/// One vertex of the mirror: screen position (mils), color, and texture
/// coordinate (sprite pixels).
#[derive(Clone, Copy, PartialEq, Eq, Structural, Debug)]
pub struct Vertex {
    pub px: i64,
    pub py: i64,
    pub r: u8,
    pub g: u8,
    pub b: u8,
    pub a: u8,
    pub tx: i64,
    pub ty: i64,
}

impl Vertex {
    /// The all-zero vertex every mirror slot starts as.
    pub fn zeroed() -> (v: Vertex)
        ensures
            v == Vertex::zero(),
    {
        Vertex { px: 0, py: 0, r: 0, g: 0, b: 0, a: 0, tx: 0, ty: 0 }
    }

    /// The all-zero vertex.
    pub open spec fn zero() -> Vertex {
        Vertex { px: 0, py: 0, r: 0, g: 0, b: 0, a: 0, tx: 0, ty: 0 }
    }

    /// The same vertex with a fully transparent color; position and texture
    /// coordinates are left as they were, which is harmless because the
    /// color alone makes the quad invisible.
    pub open spec fn transparent_copy(self) -> Vertex {
        Vertex { r: 0, g: 0, b: 0, a: 0, ..self }
    }
}

/// Local corner offsets before rotation, in the order top-left, top-right,
/// bottom-right, bottom-left.
pub open spec fn corner_x(r_px: int, j: int) -> int {
    if j == 0 || j == 3 {
        -r_px
    } else {
        r_px
    }
}

/// See `corner_x`.
pub open spec fn corner_y(r_px: int, j: int) -> int {
    if j == 0 || j == 1 {
        -r_px
    } else {
        r_px
    }
}

/// Texture x-coordinate of corner `j`: the sprite is mapped corner to
/// corner and never rotated; the visible rotation comes from the positions.
pub open spec fn tex_x(cfg: StarConfig, j: int) -> int {
    if j == 1 || j == 2 {
        cfg.tex_w as int
    } else {
        0
    }
}

/// See `tex_x`.
pub open spec fn tex_y(cfg: StarConfig, j: int) -> int {
    if j == 2 || j == 3 {
        cfg.tex_h as int
    } else {
        0
    }
}

/// The vertex the quad writer produces for corner `j` of a visible star:
/// the corner offset is rotated by the star's angle, translated to the
/// projected screen position, and tinted by the depth-shaded base color.
pub open spec fn quad_vertex(s: Star, cfg: StarConfig, j: int) -> Vertex
    recommends
        s.depth > 0,
        0 <= j < 4,
{
    let scale = scale_spec(s.depth as int, cfg.near as int);
    let sx = screen_x_spec(s.x as int, scale, cfg.aspect_mil(), cfg.width as int);
    let sy = screen_y_spec(s.y as int, scale, cfg.height as int);
    let dark = 255 - brightness_spec(s.depth as int, cfg.near as int, cfg.far as int);
    let r_px = cfg.radius * scale / 1000;
    let cx = corner_x(r_px, j);
    let cy = corner_y(r_px, j);
    let sv = sin_spec(s.rotation as int);
    let cv = cos_spec(s.rotation as int);
    Vertex {
        px: (sx + div_tz(cx * cv - cy * sv, 1000)) as i64,
        py: (sy + div_tz(cx * sv + cy * cv, 1000)) as i64,
        r: darkened(cfg.base_r as int, dark) as u8,
        g: darkened(cfg.base_g as int, dark) as u8,
        b: darkened(cfg.base_b as int, dark) as u8,
        a: 255,
        tx: tex_x(cfg, j) as i64,
        ty: tex_y(cfg, j) as i64,
    }
}

/// How the four mirror slots of star `k` relate to the star after a write:
/// a visible star's slots hold its quad; an invisible star's slots keep
/// their old positions and texture coordinates but turn fully transparent.
pub open spec fn quad_written(
    pre: Seq<Vertex>,
    post: Seq<Vertex>,
    s: Star,
    cfg: StarConfig,
    k: int,
) -> bool {
    if s.active {
        &&& post[4 * k] == quad_vertex(s, cfg, 0)
        &&& post[4 * k + 1] == quad_vertex(s, cfg, 1)
        &&& post[4 * k + 2] == quad_vertex(s, cfg, 2)
        &&& post[4 * k + 3] == quad_vertex(s, cfg, 3)
    } else {
        &&& post[4 * k] == pre[4 * k].transparent_copy()
        &&& post[4 * k + 1] == pre[4 * k + 1].transparent_copy()
        &&& post[4 * k + 2] == pre[4 * k + 2].transparent_copy()
        &&& post[4 * k + 3] == pre[4 * k + 3].transparent_copy()
    }
}

/// Fill the four vertices of star `k` in the mirror.  Slots of other stars
/// are untouched.
pub fn write_quad(mirror: &mut Vec<Vertex>, k: usize, star: &Star, cfg: &StarConfig)
    requires
        cfg.valid(),
        star.wf(*cfg),
        star.active ==> star.depth > 0,
        old(mirror)@.len() == 4 * cfg.n,
        k < cfg.n,
    ensures
        final(mirror)@.len() == old(mirror)@.len(),
        forall|m: int|
            0 <= m < old(mirror)@.len() && !(4 * k <= m < 4 * k + 4) ==> final(mirror)@[m] == old(
                mirror,
            )@[m],
        quad_written(old(mirror)@, final(mirror)@, *star, *cfg, k as int),
{
    let base = 4 * k;
    if !star.active {
        let v0 = mirror[base];
        let v1 = mirror[base + 1];
        let v2 = mirror[base + 2];
        let v3 = mirror[base + 3];
        mirror[base] = Vertex { r: 0, g: 0, b: 0, a: 0, ..v0 };
        mirror[base + 1] = Vertex { r: 0, g: 0, b: 0, a: 0, ..v1 };
        mirror[base + 2] = Vertex { r: 0, g: 0, b: 0, a: 0, ..v2 };
        mirror[base + 3] = Vertex { r: 0, g: 0, b: 0, a: 0, ..v3 };
        return ;
    }
    let scale = perspective_scale(star.depth, cfg.near);
    let (sx, sy) = screen_pos(star.x, star.y, scale, cfg);
    let bright = brightness(star.depth, cfg.near, cfg.far);
    let dark = 255 - bright;
    let cr = darken(cfg.base_r, dark);
    let cg = darken(cfg.base_g, dark);
    let cb = darken(cfg.base_b, dark);
    proof {
        lemma_mul_abs_bound(cfg.radius as int, scale as int, 1_000_000_000, 100_000_000);
        assert(0 <= cfg.radius as int * scale as int / 1000 <= 100_000_000_000_000) by (
        nonlinear_arith)
            requires
                0 <= cfg.radius as int * scale as int <= 100_000_000_000_000_000,
        ;
    }
    let r_px = cfg.radius * scale / 1000;
    let sv = sin_mil(star.rotation);
    let cv = cos_mil(star.rotation);
    let mut j: usize = 0;
    while j < 4
        invariant
            cfg.valid(),
            star.wf(*cfg),
            star.active,
            star.depth > 0,
            mirror@.len() == 4 * cfg.n,
            k < cfg.n,
            base == 4 * k,
            0 <= j <= 4,
            scale == scale_spec(star.depth as int, cfg.near as int),
            0 <= scale <= 100_000_000,
            sx == screen_x_spec(star.x as int, scale as int, cfg.aspect_mil(), cfg.width as int),
            sy == screen_y_spec(star.y as int, scale as int, cfg.height as int),
            -10_000_000_000_000_000 <= sx <= 10_000_000_000_000_000,
            -10_000_000_000_000_000 <= sy <= 10_000_000_000_000_000,
            dark == 255 - brightness_spec(star.depth as int, cfg.near as int, cfg.far as int),
            cr == darkened(cfg.base_r as int, dark as int),
            cg == darkened(cfg.base_g as int, dark as int),
            cb == darkened(cfg.base_b as int, dark as int),
            r_px == cfg.radius * scale_spec(star.depth as int, cfg.near as int) / 1000,
            0 <= r_px <= 100_000_000_000_000,
            sv == sin_spec(star.rotation as int) && -1000 <= sv <= 1000,
            cv == cos_spec(star.rotation as int) && -1000 <= cv <= 1000,
            forall|m: int|
                0 <= m < mirror@.len() && !(4 * k <= m < 4 * k + j) ==> mirror@[m] == old(
                    mirror,
                )@[m],
            forall|j2: int| 0 <= j2 < j ==> mirror@[4 * k + j2] == #[trigger] quad_vertex(*star, *cfg, j2),
        decreases 4 - j,
    {
        let cx = if j == 0 || j == 3 {
            -r_px
        } else {
            r_px
        };
        let cy = if j == 0 || j == 1 {
            -r_px
        } else {
            r_px
        };
        proof {
            lemma_mul_abs_bound(cx as int, cv as int, 100_000_000_000_000, 1000);
            lemma_mul_abs_bound(cy as int, sv as int, 100_000_000_000_000, 1000);
            lemma_mul_abs_bound(cx as int, sv as int, 100_000_000_000_000, 1000);
            lemma_mul_abs_bound(cy as int, cv as int, 100_000_000_000_000, 1000);
            lemma_div_tz_bound(
                cx as int * cv as int - cy as int * sv as int,
                1000,
                200_000_000_000_000_000,
            );
            lemma_div_tz_bound(
                cx as int * sv as int + cy as int * cv as int,
                1000,
                200_000_000_000_000_000,
            );
        }
        let rx = div_trunc(cx * cv - cy * sv, 1000);
        let ry = div_trunc(cx * sv + cy * cv, 1000);
        let tx = if j == 1 || j == 2 {
            cfg.tex_w as i64
        } else {
            0
        };
        let ty = if j == 2 || j == 3 {
            cfg.tex_h as i64
        } else {
            0
        };
        let v = Vertex { px: sx + rx, py: sy + ry, r: cr, g: cg, b: cb, a: 255, tx, ty };
        proof {
            assert(v == quad_vertex(*star, *cfg, j as int));
        }
        mirror[base + j] = v;
        j += 1;
    }
}

} // verus!
