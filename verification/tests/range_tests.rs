//! The tiering scheduler and the range merger.

use starfield::config::StarConfig;
use starfield::config::Tier;
use starfield::ranges::merge_ranges;
use starfield::tiers::due_ranges;

fn default_tiers() -> Vec<Tier> {
    StarConfig::default_tiers()
}

#[test]
fn first_frame_schedules_only_the_nearest_band() {
    // ten stars, one frame in: only the every-frame tier fires, and it
    // claims the nearest ten percent, rounded up to at least one star
    let out = due_ranges(&default_tiers(), 1, 60, 10, 10);
    assert_eq!(out, vec![(9, 10)]);
}

#[test]
fn frame_24_covers_everything() {
    // all four intervals divide 24; the merged union is the whole array
    let raw = due_ranges(&default_tiers(), 24, 60, 100, 100);
    let merged = merge_ranges(&raw, 100);
    assert_eq!(merged, vec![(0, 100)]);
}

#[test]
fn wrap_around_band_splits_in_two() {
    // nearest cursor at 5: the nearest band [0,10) wraps and is emitted as
    // two ranges; the second band lands at (75,95); merging coalesces the
    // adjacent (75,95) and (95,100)
    let raw = due_ranges(&default_tiers(), 2, 60, 5, 100);
    assert_eq!(raw, vec![(95, 100), (0, 5), (75, 95)]);
    let merged = merge_ranges(&raw, 100);
    assert_eq!(merged, vec![(0, 5), (75, 100)]);
}

#[test]
fn cursor_at_zero_emits_the_band_correctly() {
    // with the cursor at index 0 the nearest band sits at the array's end
    let out = due_ranges(&default_tiers(), 1, 60, 0, 100);
    assert_eq!(out, vec![(90, 100)]);
    // with the cursor at 3 it wraps: two ranges whose widths sum to the
    // band width of ten stars
    let out = due_ranges(&default_tiers(), 1, 60, 3, 100);
    assert_eq!(out, vec![(93, 100), (0, 3)]);
    assert_eq!((out[0].1 - out[0].0) + (out[1].1 - out[1].0), 10);
}

#[test]
fn intervals_scale_with_the_frame_rate() {
    // at 120 Hz every interval doubles: the two-frame tier fires on frame 4,
    // not on frame 2, where only the every-frame tier (now every second
    // frame) is due
    let raw2 = due_ranges(&default_tiers(), 2, 120, 100, 100);
    assert_eq!(raw2, vec![(90, 100)]);
    let raw3 = due_ranges(&default_tiers(), 3, 120, 100, 100);
    assert_eq!(raw3, vec![]);
    let raw4 = due_ranges(&default_tiers(), 4, 120, 100, 100);
    assert_eq!(raw4, vec![(90, 100), (70, 90)]);
}

#[test]
fn scheduled_ranges_stay_inside_the_array() {
    for nearest in [0usize, 1, 7, 50, 99, 100] {
        for frame in 0u64..32 {
            let out = due_ranges(&default_tiers(), frame, 60, nearest, 100);
            for &(a, b) in &out {
                assert!(a <= b && b <= 100);
            }
        }
    }
}

#[test]
fn merge_coalesces_overlap_and_adjacency() {
    let input = vec![(5, 10), (8, 12), (12, 15), (20, 22)];
    let out = merge_ranges(&input, 30);
    assert_eq!(out, vec![(5, 15), (20, 22)]);
    // non-overlapping and non-adjacent
    for w in out.windows(2) {
        assert!(w[0].1 < w[1].0);
    }
}

#[test]
fn merge_is_idempotent_on_its_output() {
    let input = vec![(14, 20), (0, 3), (2, 5), (5, 9), (25, 26), (26, 26)];
    let once = merge_ranges(&input, 40);
    let twice = merge_ranges(&once, 40);
    assert_eq!(once, twice);
}

#[test]
fn merge_keeps_single_and_empty_lists() {
    let empty: Vec<(usize, usize)> = vec![];
    assert_eq!(merge_ranges(&empty, 10), vec![]);
    assert_eq!(merge_ranges(&vec![(2, 7)], 10), vec![(2, 7)]);
}

#[test]
fn merge_covers_exactly_the_input() {
    let input = vec![(3, 6), (10, 12), (5, 10), (20, 21)];
    let out = merge_ranges(&input, 30);
    for i in 0..30usize {
        let in_input = input.iter().any(|&(a, b)| a <= i && i < b);
        let in_out = out.iter().any(|&(a, b)| a <= i && i < b);
        assert_eq!(in_input, in_out);
    }
}

#[test]
fn degenerate_tier_table_covers_everything_each_frame() {
    // a single band over the whole array at interval one isolates the
    // scheduler from the tier table
    let tiers = vec![Tier { lo_pct: 0, hi_pct: 100, interval: 1 }];
    let raw = due_ranges(&tiers, 7, 60, 40, 50);
    let merged = merge_ranges(&raw, 50);
    assert_eq!(raw, vec![(40, 50), (0, 40)]);
    assert_eq!(merged, vec![(0, 50)]);
}
