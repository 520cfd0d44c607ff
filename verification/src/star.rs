//! One star: lateral position, depth, rotation, and the rules that advance
//! and re-spawn it.  All coordinates are in mils (thousandths of a world
//! unit); angles are in milliradians.

use vstd::prelude::*;

use crate::config::BASE_FPS;
use crate::config::StarConfig;
use crate::rng::rand_in;
use crate::util::div_tz;
use crate::util::div_trunc;
use crate::util::lemma_div_tz_bound;
use crate::util::lemma_mul_abs_bound;

verus! {

/// A full turn, in milliradians.
pub const TAU_MIL: i64 = 6283;

/// Largest rotation rate, in milliradians per frame.
pub const ROT_RATE_LIMIT: i64 = 25;

/// Per-star state.  `depth` grows away from the camera; `active` caches the
/// visibility test of the most recent update.
#[derive(Clone, Copy, PartialEq, Eq, Structural, Debug)]
pub struct Star {
    pub x: i64,
    pub y: i64,
    pub depth: i64,
    pub rotation: i64,
    pub rotation_speed: i64,
    pub active: bool,
}

/// A star is visible while it is in front of the camera and its perspective
/// scale `near / depth` still exceeds one thousandth.
pub open spec fn visible(depth: int, near: int) -> bool {
    0 < depth < 1000 * near
}

/// The depth change of one frame: `speed` is calibrated for the base frame
/// rate and scaled down at higher frame rates, rounding toward zero.
pub open spec fn advance_delta(speed: int, fps_limit: int) -> int {
    div_tz(speed * BASE_FPS, fps_limit)
}

/// Where one depth-advance step lands: crossing the behind-camera plane
/// re-spawns at the far plane and vice versa, everything else just moves.
pub open spec fn wrapped_depth(depth: int, delta: int, cfg: StarConfig) -> int {
    let d = depth - delta;
    if d <= -cfg.behind {
        cfg.far as int
    } else if d >= cfg.far {
        -cfg.behind as int
    } else {
        d
    }
}

/// Angles stay normalized to one turn.
pub open spec fn norm_angle(a: int) -> int
    recommends
        -TAU_MIL <= a < 2 * TAU_MIL,
{
    if a < 0 {
        a + TAU_MIL
    } else if a >= TAU_MIL {
        a - TAU_MIL
    } else {
        a
    }
}

/// The point lies outside the spawn dead zone around the screen center.
pub open spec fn outside_dead_zone(x: int, y: int, cfg: StarConfig) -> bool {
    !(-cfg.dead_half_x() <= x <= cfg.dead_half_x() && -cfg.dead_half_y() <= y
        <= cfg.dead_half_y())
}

impl Star {
    /// Bounds every fixed-point computation relies on.
    pub open spec fn wf(self, cfg: StarConfig) -> bool {
        &&& -cfg.pos_limit() <= self.x <= cfg.pos_limit()
        &&& -cfg.pos_limit() <= self.y <= cfg.pos_limit()
        &&& -cfg.behind <= self.depth <= cfg.far
        &&& 0 <= self.rotation < TAU_MIL
        &&& -ROT_RATE_LIMIT <= self.rotation_speed <= ROT_RATE_LIMIT
    }

    /// How one update step relates the new star to the old: the depth moves
    /// and wraps, the rotation advances, the visibility flag is recomputed,
    /// and the lateral position is kept unless the star re-spawned, in which
    /// case it lies somewhere outside the dead zone.
    pub open spec fn advanced(pre: Star, post: Star, speed: int, cfg: StarConfig) -> bool {
        let d = pre.depth - advance_delta(speed, cfg.fps_limit as int);
        &&& post.depth == wrapped_depth(pre.depth as int, advance_delta(speed, cfg.fps_limit as int), cfg)
        &&& post.rotation == norm_angle(pre.rotation + pre.rotation_speed)
        &&& post.rotation_speed == pre.rotation_speed
        &&& post.active == visible(post.depth as int, cfg.near as int)
        &&& (-cfg.behind < d < cfg.far ==> post.x == pre.x && post.y == pre.y)
        &&& (!(-cfg.behind < d < cfg.far) ==> outside_dead_zone(post.x as int, post.y as int, cfg))
    }

    /// A star starts at the origin of the world, facing the camera.
    pub fn new() -> (s: Star)
        ensures
            s == (Star { x: 0, y: 0, depth: 0, rotation: 0, rotation_speed: 0, active: true }),
    {
        Star { x: 0, y: 0, depth: 0, rotation: 0, rotation_speed: 0, active: true }
    }

    /// Draws a lateral position uniformly over the spawn box, rejecting
    /// points inside the dead zone.  After a bounded number of rejections
    /// the point is pushed to the edge of the box, which also lies outside
    /// the dead zone; only the position fields change.
    pub fn rand_pos(&mut self, cfg: &StarConfig)
        requires
            cfg.valid(),
        ensures
            -cfg.pos_limit() <= final(self).x <= cfg.pos_limit(),
            -cfg.pos_limit() <= final(self).y <= cfg.pos_limit(),
            outside_dead_zone(final(self).x as int, final(self).y as int, *cfg),
            final(self).depth == old(self).depth,
            final(self).rotation == old(self).rotation,
            final(self).rotation_speed == old(self).rotation_speed,
            final(self).active == old(self).active,
    {
        let aspect: i64 = cfg.width as i64 * 1000 / cfg.height as i64;
        proof {
            assert(0 <= cfg.width as int * 1000 / cfg.height as int <= 20000) by (nonlinear_arith)
                requires
                    cfg.height >= 1,
                    cfg.width as int * 1000 <= 20000 * cfg.height as int,
            ;
            lemma_mul_abs_bound(cfg.spread as int, aspect as int, 100_000_000, 20000);
        }
        let limit: i64 = cfg.spread * aspect / 1000;
        let dzx: i64 = cfg.width as i64 * cfg.dead_zone_pct * 5;
        let dzy: i64 = cfg.height as i64 * cfg.dead_zone_pct * 5;
        proof {
            lemma_mul_abs_bound(cfg.width as int, cfg.dead_zone_pct as int, 100_000, 100);
            lemma_mul_abs_bound(cfg.height as int, cfg.dead_zone_pct as int, 100_000, 100);
        }
        let mut tries: u32 = 0;
        while tries < 64
            invariant
                cfg.valid(),
                aspect == cfg.aspect_mil(),
                0 <= aspect <= 20000,
                limit == cfg.pos_limit(),
                dzx == cfg.dead_half_x(),
                dzy == cfg.dead_half_y(),
                self.depth == old(self).depth,
                self.rotation == old(self).rotation,
                self.rotation_speed == old(self).rotation_speed,
                self.active == old(self).active,
            decreases 64 - tries,
        {
            let rx = rand_in(-cfg.spread, cfg.spread);
            let ry = rand_in(-cfg.spread, cfg.spread);
            proof {
                lemma_mul_abs_bound(rx as int, aspect as int, 100_000_000, 20000);
                lemma_mul_abs_bound(ry as int, aspect as int, 100_000_000, 20000);
                lemma_mul_abs_bound(rx as int, aspect as int, cfg.spread as int, aspect as int);
                lemma_mul_abs_bound(ry as int, aspect as int, cfg.spread as int, aspect as int);
                lemma_div_tz_scaled_bound(rx as int * aspect as int, cfg.spread as int * aspect as int);
                lemma_div_tz_scaled_bound(ry as int * aspect as int, cfg.spread as int * aspect as int);
                assert(cfg.spread as int * aspect as int / 1000 == cfg.pos_limit()) by {
                    assert(cfg.spread as int * cfg.aspect_mil() == cfg.spread as int * aspect as int);
                }
            }
            let x = div_trunc(rx * aspect, 1000);
            let y = div_trunc(ry * aspect, 1000);
            if !(-dzx <= x && x <= dzx && -dzy <= y && y <= dzy) {
                self.x = x;
                self.y = y;
                return ;
            }
            tries += 1;
        }
        // The dead zone is strictly inside the spawn box, so its edge is a
        // safe landing spot when every draw was rejected.
        self.x = limit;
        self.y = 0;
    }

    /// Fresh state for a newly created star: position outside the dead zone,
    /// depth uniform between the clip planes, arbitrary rotation, and a
    /// small rotation rate.  The visibility flag is left for the next update.
    pub fn randomize(&mut self, cfg: &StarConfig)
        requires
            cfg.valid(),
        ensures
            final(self).wf(*cfg),
            cfg.near <= final(self).depth < cfg.far,
            outside_dead_zone(final(self).x as int, final(self).y as int, *cfg),
            final(self).active == old(self).active,
    {
        self.rand_pos(cfg);
        self.depth = Star::rand_distance(cfg);
        self.rotation = rand_in(0, TAU_MIL);
        self.rotation_speed = rand_in(-ROT_RATE_LIMIT, ROT_RATE_LIMIT);
    }

    /// A depth drawn uniformly between the near and far planes.
    pub fn rand_distance(cfg: &StarConfig) -> (d: i64)
        requires
            cfg.valid(),
        ensures
            cfg.near <= d < cfg.far,
    {
        rand_in(cfg.near, cfg.far)
    }

    /// The visibility test: a star is drawn while its perspective scale
    /// `near / depth` exceeds one thousandth.
    pub fn is_visible(&self, cfg: &StarConfig) -> (r: bool)
        requires
            cfg.valid(),
    ensures
            r == visible(self.depth as int, cfg.near as int),
    {
        0 < self.depth && self.depth < 1000 * cfg.near
    }

    /// One frame of motion: the depth advances by the speed (scaled to the
    /// frame rate), a star crossing the behind plane re-spawns at the far
    /// plane and vice versa, the rotation advances by its rate, and the
    /// visibility flag is recomputed.
    pub fn update(&mut self, speed: i64, cfg: &StarConfig)
        requires
            cfg.valid(),
            old(self).wf(*cfg),
            -1000 * cfg.fps_limit <= speed <= 1000 * cfg.fps_limit,
        ensures
            final(self).wf(*cfg),
            Star::advanced(*old(self), *final(self), speed as int, *cfg),
            -cfg.behind <= final(self).depth <= cfg.far,
            old(self).depth - advance_delta(speed as int, cfg.fps_limit as int) <= -cfg.behind
                ==> final(self).depth == cfg.far,
            old(self).depth - advance_delta(speed as int, cfg.fps_limit as int) >= cfg.far
                ==> final(self).depth == -cfg.behind,
    {
        proof {
            lemma_mul_abs_bound(speed as int, BASE_FPS as int, 1_000_000_000, 60);
            lemma_div_tz_bound(speed as int * BASE_FPS as int, cfg.fps_limit as int, 60_000_000_000);
        }
        let delta = div_trunc(speed * (BASE_FPS as i64), cfg.fps_limit as i64);
        let d = self.depth - delta;

        let mut rot = self.rotation + self.rotation_speed;
        if rot < 0 {
            rot = rot + TAU_MIL;
        } else if rot >= TAU_MIL {
            rot = rot - TAU_MIL;
        }
        self.rotation = rot;

        if d <= -cfg.behind {
            self.rand_pos(cfg);
            self.depth = cfg.far;
        } else if d >= cfg.far {
            self.rand_pos(cfg);
            self.depth = -cfg.behind;
        } else {
            self.depth = d;
        }

        self.active = 0 < self.depth && self.depth < 1000 * cfg.near;
    }
}

/// With speed zero the depth does not move, so a star strictly between the
/// wrap planes whose visibility flag is current is a fixed point of the
/// depth-advance: depth and active flag stay exactly as they were, however
/// often the advance runs.
pub proof fn lemma_paused_advance_fixpoint(pre: Star, post: Star, cfg: StarConfig)
    requires
        cfg.valid(),
        Star::advanced(pre, post, 0, cfg),
        -cfg.behind < pre.depth < cfg.far,
        pre.active == visible(pre.depth as int, cfg.near as int),
    ensures
        post.depth == pre.depth,
        post.active == pre.active,
        post.x == pre.x,
        post.y == pre.y,
{
    assert(0 * BASE_FPS == 0) by (nonlinear_arith);
    assert(0int / cfg.fps_limit as int == 0) by (nonlinear_arith)
        requires
            cfg.fps_limit >= 1,
    ;
    assert(advance_delta(0, cfg.fps_limit as int) == 0);
}

/// Division by the frame rate never enlarges a magnitude, so the scaled
/// per-frame depth delta stays within the product bound.
proof fn lemma_div_tz_scaled_bound(a: int, abound: int)
    requires
        -abound <= a <= abound,
        0 <= abound,
    ensures
        -(abound / 1000) <= div_tz(a, 1000) <= abound / 1000,
{
    if a >= 0 {
        assert(0 <= a / 1000 <= abound / 1000) by (nonlinear_arith)
            requires
                0 <= a <= abound,
        ;
    } else {
        assert(0 <= (-a) / 1000 <= abound / 1000) by (nonlinear_arith)
            requires
                0 <= -a <= abound,
        ;
    }
}

} // verus!
