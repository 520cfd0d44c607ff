//! The starfield engine end to end: construction, the per-frame update,
//! speed events, keyframes, and the untouched-slot guarantee.

use starfield::config::StarConfig;
use starfield::quad::Vertex;
use starfield::stars::StarEvent;
use starfield::stars::Stars;

fn cfg_engine(n: usize) -> StarConfig {
    StarConfig::with_defaults(1920, 1080, n, 60, 150_000, 64, 64, (255, 255, 255, 255))
}

#[test]
fn construction_sorts_and_fills_every_quad() {
    let field = Stars::new(cfg_engine(4));
    assert_eq!(field.stars.len(), 4);
    assert_eq!(field.star_vertices.len(), 16);
    // sorted by descending depth: index 0 is the farthest star
    for w in field.stars.windows(2) {
        assert!(w[0].depth >= w[1].depth);
    }
    // freshly spawned stars all sit between the planes, so every one of the
    // sixteen vertex slots is opaque
    for v in &field.star_vertices {
        assert_eq!(v.a, 255);
    }
    assert_eq!(field.speed, 800);
    assert_eq!(field.last_sorted_frame, 0);
}

#[test]
fn speed_events_follow_the_keyboard() {
    let mut field = Stars::new(cfg_engine(4));
    assert_eq!(field.speed, 800);
    field.process_event(&StarEvent::SpeedUp { shift: false }, 1);
    assert_eq!(field.speed, 900);
    field.process_event(&StarEvent::SpeedUp { shift: true }, 2);
    assert_eq!(field.speed, 1900);
    field.process_event(&StarEvent::Pause, 3);
    assert_eq!(field.speed, 0);
    // the next update is a keyframe: the whole array in one range,
    // regardless of the frame number
    let ranges = field.update(7);
    assert_eq!(ranges, vec![(0, 4)]);
}

#[test]
fn speed_is_clamped_to_the_frame_rate() {
    let mut field = Stars::new(cfg_engine(4));
    for _ in 0..100 {
        field.process_event(&StarEvent::SpeedUp { shift: true }, 1);
    }
    assert_eq!(field.speed, 60_000);
    for _ in 0..300 {
        field.process_event(&StarEvent::SpeedDown { shift: true }, 1);
    }
    assert_eq!(field.speed, -60_000);
}

#[test]
fn reaching_zero_speed_arms_a_keyframe() {
    let mut field = Stars::new(cfg_engine(8));
    // 800 -> -200 -> clamp path never hits zero; step to zero exactly
    for _ in 0..8 {
        field.process_event(&StarEvent::SpeedDown { shift: false }, 5);
    }
    assert_eq!(field.speed, 0);
    assert_eq!(field.last_sorted_frame, 5);
    let ranges = field.update(3);
    assert_eq!(ranges, vec![(0, 8)]);
}

#[test]
fn sorts_happen_every_sixth_frame_in_motion() {
    let mut field = Stars::new(cfg_engine(16));
    field.update(6);
    assert_eq!(field.last_sorted_frame, 6);
    field.update(7);
    assert_eq!(field.last_sorted_frame, 6);
    field.update(11);
    assert_eq!(field.last_sorted_frame, 6);
    field.update(12);
    assert_eq!(field.last_sorted_frame, 12);
    // paused fields do not re-sort on the cadence
    field.process_event(&StarEvent::Pause, 13);
    assert_eq!(field.last_sorted_frame, 13);
    field.update(18);
    field.update(24);
    assert_eq!(field.last_sorted_frame, 13);
}

#[test]
fn depth_stays_in_range_across_many_frames() {
    let mut field = Stars::new(cfg_engine(50));
    for frame in 1..200u64 {
        field.update(frame);
        for s in &field.stars {
            assert!(-field.cfg.behind <= s.depth && s.depth <= field.cfg.far);
        }
    }
}

#[test]
fn unscheduled_stars_keep_their_slots_byte_identical() {
    let mut field = Stars::new(cfg_engine(100));
    // settle past the construction keyframe
    field.update(1);
    let before: Vec<Vertex> = field.star_vertices.clone();
    // frame 1 fires only the nearest band
    let ranges = field.update(1);
    for k in 0..100usize {
        let scheduled = ranges.iter().any(|&(a, b)| a <= k && k < b);
        if !scheduled {
            for j in 0..4 {
                assert_eq!(field.star_vertices[4 * k + j], before[4 * k + j]);
            }
        }
    }
}

#[test]
fn keyframe_recomputes_the_whole_array_once() {
    let mut field = Stars::new(cfg_engine(10));
    field.process_event(&StarEvent::Pause, 1);
    let ranges = field.update(7);
    assert_eq!(ranges, vec![(0, 10)]);
    // consumed: the next frame schedules by tiers again
    let ranges = field.update(1);
    assert_eq!(ranges, vec![(9, 10)]);
}

#[test]
fn paused_still_field_is_a_fixed_point() {
    let mut field = Stars::new(cfg_engine(10));
    field.process_event(&StarEvent::Pause, 1);
    for s in field.stars.iter_mut() {
        s.rotation_speed = 0;
    }
    // the keyframe makes the mirror agree with the star array
    field.update(1);
    let stars_before = field.stars.clone();
    let mirror_before = field.star_vertices.clone();
    for frame in 2..20u64 {
        field.update(frame);
        assert_eq!(field.stars, stars_before);
        assert_eq!(field.star_vertices, mirror_before);
    }
}

#[test]
fn nearest_cursor_finds_the_last_behind_star() {
    let mut field = Stars::new(cfg_engine(5));
    assert_eq!(field.find_index_zero_distance(), 0);
    field.stars[1].depth = -10;
    field.stars[3].depth = -20;
    assert_eq!(field.find_index_zero_distance(), 3);
}

#[test]
fn chunking_splits_the_array_evenly() {
    let field = Stars::new(cfg_engine(10));
    assert_eq!(field.star_chunks(3), 4);
    assert_eq!(field.star_chunks(10), 1);
    assert_eq!(field.star_chunks(16), 1);
}
