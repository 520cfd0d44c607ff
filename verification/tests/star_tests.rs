//! Per-star behaviour: depth advance, wrapping, and the visibility test.

use starfield::config::StarConfig;
use starfield::star::Star;

fn cfg_star(n: usize) -> StarConfig {
    StarConfig::with_defaults(1920, 1080, n, 60, 150_000, 64, 64, (255, 255, 255, 255))
}

fn plain_star(depth: i64) -> Star {
    Star { x: 1_000_000, y: -2_000_000, depth, rotation: 100, rotation_speed: 5, active: true }
}

#[test]
fn config_defaults_are_valid() {
    assert!(cfg_star(4).check_valid());
    let mut bad = cfg_star(4);
    bad.far = bad.near;
    assert!(!bad.check_valid());
}

#[test]
fn depth_advance_moves_by_speed_at_base_rate() {
    let cfg = cfg_star(4);
    let mut s = plain_star(100_000);
    s.update(800, &cfg);
    assert_eq!(s.depth, 99_200);
    assert_eq!(s.x, 1_000_000);
    assert_eq!(s.y, -2_000_000);
    assert_eq!(s.rotation, 105);
    assert!(s.active);
}

#[test]
fn depth_advance_scales_with_fps() {
    let mut cfg = cfg_star(4);
    cfg.fps_limit = 120;
    let mut s = plain_star(100_000);
    // 800 * 60 / 120 = 400 mils per frame at twice the base rate
    s.update(800, &cfg);
    assert_eq!(s.depth, 99_600);
}

#[test]
fn arriving_exactly_at_behind_respawns_at_far() {
    let cfg = cfg_star(4);
    let mut s = plain_star(-60_400);
    // -60_400 - 100 lands exactly on the behind plane
    s.update(100, &cfg);
    assert_eq!(s.depth, cfg.far);
    assert!(s.active);
}

#[test]
fn arriving_exactly_at_far_respawns_behind() {
    let cfg = cfg_star(4);
    let mut s = plain_star(2_199_900);
    // 2_199_900 + 100 lands exactly on the far plane
    s.update(-100, &cfg);
    assert_eq!(s.depth, -cfg.behind);
    assert!(!s.active);
}

#[test]
fn depth_stays_between_planes() {
    let cfg = cfg_star(4);
    for (d0, sp) in [
        (-60_499i64, 60_000i64),
        (2_199_999, -60_000),
        (5_500, 0),
        (100, 200),
        (-60_500, 0),
        (2_200_000, 0),
    ] {
        let mut s = plain_star(d0);
        s.update(sp, &cfg);
        assert!(-cfg.behind <= s.depth && s.depth <= cfg.far);
    }
}

#[test]
fn paused_advance_changes_neither_depth_nor_active() {
    let cfg = cfg_star(4);
    let mut s = plain_star(123_456);
    // one update settles the visibility flag; depth does not move at speed 0
    s.update(0, &cfg);
    let depth = s.depth;
    let active = s.active;
    for _ in 0..1000 {
        s.update(0, &cfg);
        assert_eq!(s.depth, depth);
        assert_eq!(s.active, active);
    }
    // rotation still advanced all along
    assert_eq!(s.rotation, (100 + 1001 * 5) % 6283);
}

#[test]
fn visibility_threshold_is_a_thousand_nears() {
    let cfg = cfg_star(4);
    // depth == NEAR * 1000: the scale is exactly 0.001, not above it
    let s = Star { depth: 5_500_000, ..plain_star(0) };
    assert!(!s.is_visible(&cfg));
    // depth == NEAR * 999: just visible
    let s = Star { depth: 5_494_500, ..plain_star(0) };
    assert!(s.is_visible(&cfg));
    // behind the camera: never visible
    let s = Star { depth: -10, ..plain_star(0) };
    assert!(!s.is_visible(&cfg));
    let s = Star { depth: 100, ..plain_star(0) };
    assert!(s.is_visible(&cfg));
}

#[test]
fn randomize_lands_between_planes_and_off_center() {
    let cfg = cfg_star(4);
    for _ in 0..100 {
        let mut s = Star::new();
        s.randomize(&cfg);
        assert!(cfg.near <= s.depth && s.depth < cfg.far);
        let dzx = cfg.width as i64 * cfg.dead_zone_pct * 5;
        let dzy = cfg.height as i64 * cfg.dead_zone_pct * 5;
        assert!(s.x.abs() > dzx || s.y.abs() > dzy);
        assert!(0 <= s.rotation && s.rotation < 6283);
        assert!(-25 <= s.rotation_speed && s.rotation_speed < 25);
    }
}

#[test]
fn rand_distance_stays_in_range() {
    let cfg = cfg_star(4);
    for _ in 0..1000 {
        let d = Star::rand_distance(&cfg);
        assert!(cfg.near <= d && d < cfg.far);
    }
}
