//! Exact values of the projector, the fixed-point trigonometry, the quad
//! writer, and the small interface types.

use starfield::config::StarConfig;
use starfield::project::brightness;
use starfield::project::darken;
use starfield::project::perspective_scale;
use starfield::quad::Vertex;
use starfield::star::Star;
use starfield::stars::Stars;
use starfield::trig::cos_mil;
use starfield::trig::sin_mil;
use starfield::ui::GElementID;
use starfield::ui::InfoKind;

fn cfg_render(n: usize) -> StarConfig {
    StarConfig::with_defaults(1920, 1080, n, 60, 150_000, 64, 64, (200, 180, 160, 255))
}

#[test]
fn sine_hits_the_cardinal_points() {
    assert_eq!(sin_mil(0), 0);
    // a quarter turn: exactly one
    assert_eq!(sin_mil(1571), 1000);
    // close to a half turn: back near zero
    assert!(sin_mil(3141).abs() <= 2);
    // three quarter turn: exactly minus one
    assert_eq!(sin_mil(3142 + 1571), -1000);
    assert_eq!(cos_mil(0), 1000);
    assert!(cos_mil(1571).abs() <= 2);
    for a in 0..6283i64 {
        assert!(sin_mil(a).abs() <= 1000);
        assert!(cos_mil(a).abs() <= 1000);
    }
}

#[test]
fn perspective_scale_is_near_over_depth() {
    // at the near plane the scale is exactly one (a thousand thousandths)
    assert_eq!(perspective_scale(5_500, 5_500), 1000);
    assert_eq!(perspective_scale(11_000, 5_500), 500);
    assert_eq!(perspective_scale(2_200_000, 5_500), 2);
}

#[test]
fn brightness_runs_from_full_to_dark() {
    assert_eq!(brightness(5_500, 5_500, 2_200_000), 255);
    assert_eq!(brightness(2_200_000, 5_500, 2_200_000), 0);
    // the exact midpoint lands on 128 (rounded up from 127.5)
    assert_eq!(brightness(1_102_750, 5_500, 2_200_000), 128);
    // clamped outside the planes
    assert_eq!(brightness(-60_000, 5_500, 2_200_000), 255);
    assert_eq!(brightness(9_000_000, 5_500, 2_200_000), 0);
}

#[test]
fn darken_saturates_at_zero() {
    assert_eq!(darken(200, 55), 145);
    assert_eq!(darken(55, 200), 0);
    assert_eq!(darken(255, 255), 0);
    assert_eq!(darken(10, 0), 10);
}

#[test]
fn quad_of_a_centered_unrotated_star() {
    let mut field = Stars::new(cfg_render(1));
    // a star dead ahead at the near plane, not rotated
    field.stars[0] =
        Star { x: 0, y: 0, depth: 5_500, rotation: 0, rotation_speed: 0, active: true };
    field.update_vertex_ranges(&vec![(0, 1)]);
    // scale 1000: the radius projects to exactly 150000 mils; the center of
    // a 1920x1080 viewport is (960000, 540000) mils; brightness 255 keeps
    // the base color untouched
    let expect = |px: i64, py: i64, tx: i64, ty: i64| Vertex {
        px,
        py,
        r: 200,
        g: 180,
        b: 160,
        a: 255,
        tx,
        ty,
    };
    assert_eq!(field.star_vertices[0], expect(810_000, 390_000, 0, 0));
    assert_eq!(field.star_vertices[1], expect(1_110_000, 390_000, 64, 0));
    assert_eq!(field.star_vertices[2], expect(1_110_000, 690_000, 64, 64));
    assert_eq!(field.star_vertices[3], expect(810_000, 690_000, 0, 64));
}

#[test]
fn invisible_star_keeps_position_but_turns_transparent() {
    let mut field = Stars::new(cfg_render(1));
    field.stars[0] =
        Star { x: 0, y: 0, depth: 5_500, rotation: 0, rotation_speed: 0, active: true };
    field.update_vertex_ranges(&vec![(0, 1)]);
    let before = field.star_vertices.clone();
    // the star moves behind the camera and becomes inactive
    field.stars[0].depth = -10;
    field.stars[0].active = false;
    field.update_vertex_ranges(&vec![(0, 1)]);
    for j in 0..4 {
        let v = field.star_vertices[j];
        assert_eq!(v.a, 0);
        assert_eq!((v.r, v.g, v.b), (0, 0, 0));
        assert_eq!((v.px, v.py), (before[j].px, before[j].py));
        assert_eq!((v.tx, v.ty), (before[j].tx, before[j].ty));
    }
}

#[test]
fn rotated_quad_turns_its_corners() {
    let mut field = Stars::new(cfg_render(1));
    // a quarter turn: (cos, sin) = (0 within rounding, 1000)
    field.stars[0] =
        Star { x: 0, y: 0, depth: 5_500, rotation: 1571, rotation_speed: 0, active: true };
    field.update_vertex_ranges(&vec![(0, 1)]);
    let cv = cos_mil(1571);
    // corner 0 before rotation is (-150000, -150000); after a quarter turn
    // it lands at (150000 - eps, -150000 - eps) relative to the center
    let rx = (-150_000 * cv - -150_000 * 1000) / 1000;
    let ry = (-150_000 * 1000 + -150_000 * cv) / 1000;
    assert_eq!(field.star_vertices[0].px, 960_000 + rx);
    assert_eq!(field.star_vertices[0].py, 540_000 + ry);
}

#[test]
fn info_kind_cycles_through_all_three() {
    let mut k = InfoKind::default();
    assert_eq!(k, InfoKind::Overlay);
    k.next();
    assert_eq!(k, InfoKind::Hidden);
    k.next();
    assert_eq!(k, InfoKind::Egui);
    k.next();
    assert_eq!(k, InfoKind::Overlay);
}

#[test]
fn element_ids_are_plain_values() {
    let a = GElementID::new();
    let b = GElementID { inner: a.inner };
    assert_eq!(a, b);
    let c = GElementID { inner: a.inner.wrapping_add(1) };
    assert_ne!(a, c);
}
