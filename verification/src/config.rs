//! Immutable configuration of the starfield: viewport, depth planes, tier
//! table, sprite facts.  All world-space lengths are in mils (thousandths of
//! a world unit); one pixel corresponds to one world unit at the near plane.

use vstd::prelude::*;

verus! {

/// Frame rate the tier intervals are calibrated for.
pub const BASE_FPS: u64 = 60;

/// Default frame-rate cap.
pub const DEFAULT_MAX_FPS: u64 = 60;

/// Default number of stars.
pub const DEFAULT_STAR_AMOUNT: usize = 500_000;

/// Default speed, in mils of depth per frame at the base frame rate.
pub const DEFAULT_SPEED: i64 = 800;

/// Default star radius, in mils of world units.
pub const DEFAULT_STAR_RADIUS: i64 = 150_000;

/// Far clip plane, in mils.
pub const FAR_PLANE: i64 = 2_200_000;

/// Near clip plane, in mils.
pub const NEAR_PLANE: i64 = 5_500;

/// How far behind the camera a star may travel before it re-spawns, in mils.
pub const BEHIND_CAMERA: i64 = 60_500;

/// Half-extent of the lateral spawn box, in mils (forty times the far plane).
pub const SPREAD: i64 = 88_000_000;

/// Percentage of the viewport covered by the spawn dead zone.
pub const DEAD_ZONE_PCT: i64 = 70;

/// One update tier: stars whose index lies in the band
/// `[lo_pct, hi_pct)` percent behind the nearest-index cursor are recomputed
/// every `interval` frames (at the base frame rate).
#[derive(Clone, Copy, PartialEq, Eq, Structural, Debug)]
pub struct Tier {
    pub lo_pct: u64,
    pub hi_pct: u64,
    pub interval: u64,
}

impl Tier {
    /// A band must be non-empty, lie within [0, 100], and fire at least once
    /// every `interval >= 1` frames.
    pub open spec fn valid(self) -> bool {
        &&& self.lo_pct < self.hi_pct <= 100
        &&& 1 <= self.interval <= 1_000_000
    }
}

/// Immutable configuration shared by all parts of the starfield.
///
/// `width`/`height` are the viewport in pixels; `tex_w`/`tex_h` the star
/// sprite in pixels; `base_*` the color sampled at the sprite's center;
/// the planes, `spread` and `radius` are in mils.
#[derive(Debug)]
pub struct StarConfig {
    pub width: u32,
    pub height: u32,
    pub n: usize,
    pub fps_limit: u64,
    pub radius: i64,
    pub near: i64,
    pub far: i64,
    pub behind: i64,
    pub spread: i64,
    pub dead_zone_pct: i64,
    pub tex_w: u32,
    pub tex_h: u32,
    pub base_r: u8,
    pub base_g: u8,
    pub base_b: u8,
    pub base_a: u8,
    pub tiers: Vec<Tier>,
}

impl StarConfig {
    /// Pixel aspect correction, in mils: `width / height` scaled by 1000.
    pub open spec fn aspect_mil(self) -> int {
        self.width * 1000 as int / self.height as int
    }

    /// Half-width of the spawn dead zone, in mils of world units.
    pub open spec fn dead_half_x(self) -> int {
        self.width * self.dead_zone_pct * 5
    }

    /// Half-height of the spawn dead zone, in mils of world units.
    pub open spec fn dead_half_y(self) -> int {
        self.height * self.dead_zone_pct * 5
    }

    /// Largest lateral coordinate a star can be given, in mils.
    pub open spec fn pos_limit(self) -> int {
        self.spread * self.aspect_mil() / 1000
    }

    /// Bounds that keep every fixed-point computation inside i64 and make
    /// the spawn box strictly wider than the dead zone.
    pub open spec fn valid(self) -> bool {
        &&& 1 <= self.height <= self.width <= 100_000
        &&& self.width <= 20 * self.height
        &&& 1 <= self.n <= 100_000_000
        &&& 1 <= self.fps_limit <= 1_000_000
        &&& 0 < self.radius <= 1_000_000_000
        &&& 0 < self.near <= 100_000
        &&& self.near < self.far <= 1_000_000_000
        &&& 0 < self.behind <= 1_000_000_000
        &&& 0 < self.spread <= 100_000_000
        &&& 0 <= self.dead_zone_pct <= 100
        &&& 1 <= self.tex_w <= 1_000_000
        &&& 1 <= self.tex_h <= 1_000_000
        &&& self.dead_half_x() < self.pos_limit()
        &&& self.dead_half_y() < self.pos_limit()
        &&& forall|i: int| 0 <= i < self.tiers@.len() ==> (#[trigger] self.tiers@[i]).valid()
    }

    /// The default four-band tier table: the nearest tenth of the array is
    /// recomputed every frame, the farthest forty percent every eighth frame.
    pub fn default_tiers() -> (t: Vec<Tier>)
        ensures
            t@.len() == 4,
            forall|i: int| 0 <= i < t@.len() ==> (#[trigger] t@[i]).valid(),
            t@[0] == (Tier { lo_pct: 0, hi_pct: 10, interval: 1 }),
            t@[1] == (Tier { lo_pct: 10, hi_pct: 30, interval: 2 }),
            t@[2] == (Tier { lo_pct: 30, hi_pct: 60, interval: 4 }),
            t@[3] == (Tier { lo_pct: 60, hi_pct: 100, interval: 8 }),
    {
        let mut t: Vec<Tier> = Vec::new();
        t.push(Tier { lo_pct: 0, hi_pct: 10, interval: 1 });
        t.push(Tier { lo_pct: 10, hi_pct: 30, interval: 2 });
        t.push(Tier { lo_pct: 30, hi_pct: 60, interval: 4 });
        t.push(Tier { lo_pct: 60, hi_pct: 100, interval: 8 });
        t
    }


    /// A configuration with the default planes, spread, dead zone and tier
    /// table, for a given viewport, population, frame-rate cap, radius and
    /// sprite.
    pub fn with_defaults(
        width: u32,
        height: u32,
        n: usize,
        fps_limit: u64,
        radius: i64,
        tex_w: u32,
        tex_h: u32,
        base: (u8, u8, u8, u8),
    ) -> (c: StarConfig)
        ensures
            c.width == width && c.height == height && c.n == n && c.fps_limit == fps_limit,
            c.radius == radius && c.tex_w == tex_w && c.tex_h == tex_h,
            c.near == NEAR_PLANE && c.far == FAR_PLANE && c.behind == BEHIND_CAMERA,
            c.spread == SPREAD && c.dead_zone_pct == DEAD_ZONE_PCT,
            c.base_r == base.0 && c.base_g == base.1 && c.base_b == base.2 && c.base_a == base.3,
            c.tiers@.len() == 4,
            forall|i: int| 0 <= i < c.tiers@.len() ==> (#[trigger] c.tiers@[i]).valid(),
    {
        StarConfig {
            width,
            height,
            n,
            fps_limit,
            radius,
            near: NEAR_PLANE,
            far: FAR_PLANE,
            behind: BEHIND_CAMERA,
            spread: SPREAD,
            dead_zone_pct: DEAD_ZONE_PCT,
            tex_w,
            tex_h,
            base_r: base.0,
            base_g: base.1,
            base_b: base.2,
            base_a: base.3,
            tiers: StarConfig::default_tiers(),
        }
    }

    /// Executable validity check, for callers that assemble a configuration
    /// from unchecked input.
    pub fn check_valid(&self) -> (r: bool)
        ensures
            r == self.valid(),
    {
        let mut tiers_ok = true;
        let mut i: usize = 0;
        while i < self.tiers.len()
            invariant
                0 <= i <= self.tiers@.len(),
                tiers_ok == forall|j: int| 0 <= j < i ==> (#[trigger] self.tiers@[j]).valid(),
            decreases self.tiers@.len() - i,
        {
            let t = self.tiers[i];
            if !(t.lo_pct < t.hi_pct && t.hi_pct <= 100 && 1 <= t.interval && t.interval
                <= 1_000_000) {
                tiers_ok = false;
            }
            i += 1;
        }
        let scalars_ok = 1 <= self.height && self.height <= self.width && self.width <= 100_000
            && self.width <= 20 * self.height && 1 <= self.n && self.n <= 100_000_000 && 1
            <= self.fps_limit && self.fps_limit <= 1_000_000 && 0 < self.radius && self.radius
            <= 1_000_000_000 && 0 < self.near && self.near <= 100_000 && self.near < self.far
            && self.far <= 1_000_000_000 && 0 < self.behind && self.behind <= 1_000_000_000 && 0
            < self.spread && self.spread <= 100_000_000 && 0 <= self.dead_zone_pct
            && self.dead_zone_pct <= 100 && 1 <= self.tex_w && self.tex_w <= 1_000_000 && 1
            <= self.tex_h && self.tex_h <= 1_000_000;
        if !scalars_ok {
            return false;
        }
        let aspect: i64 = self.width as i64 * 1000 / self.height as i64;
        proof {
            assert(0 <= self.width as int * 1000 / self.height as int <= 20000) by (nonlinear_arith)
                requires
                    self.height >= 1,
                    self.width as int * 1000 <= 20000 * self.height as int,
            ;
            crate::util::lemma_mul_abs_bound(
                self.spread as int,
                aspect as int,
                100_000_000,
                20000,
            );
            crate::util::lemma_mul_abs_bound(
                self.width as int,
                self.dead_zone_pct as int,
                100_000,
                100,
            );
            crate::util::lemma_mul_abs_bound(
                self.height as int,
                self.dead_zone_pct as int,
                100_000,
                100,
            );
        }
        let pos_limit: i64 = self.spread * aspect / 1000;
        self.width as i64 * self.dead_zone_pct * 5 < pos_limit && self.height as i64
            * self.dead_zone_pct * 5 < pos_limit && tiers_ok
    }
}

} // verus!
