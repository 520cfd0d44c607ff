//! The frame-timing counter and its rolling frame-time window.

use starfield::counter::Counters;

#[test]
fn frame_counting_and_lazy_snapshots() {
    let mut c = Counters::start(60);
    assert_eq!(c.frames, 0);
    assert_eq!(c.ms_per_frame(), 16);
    // the very first frame takes a snapshot
    c.frame_start(0);
    assert_eq!(c.frames, 1);
    assert_eq!(c.l_frames, 1);
    // later frames do not, until a full period has passed
    c.frame_start(10);
    assert_eq!(c.frames, 2);
    assert_eq!(c.l_frames, 1);
    assert_eq!(c.dframes(), 1);
    for ms in 2..59u64 {
        c.frame_start(ms * 10);
    }
    assert_eq!(c.frames, 59);
    assert_eq!(c.l_frames, 1);
    c.frame_start(590);
    assert_eq!(c.frames, 60);
    assert_eq!(c.l_frames, 60);
    assert_eq!(c.dframes(), 0);
}

#[test]
fn fps_is_frames_per_second_since_the_snapshot() {
    let mut c = Counters::start(60);
    c.frame_start(0);
    // no time has passed: the target rate is displayed
    assert_eq!(c.fps(), 60_000);
    c.frame_start(10);
    // one frame in ten milliseconds: a hundred frames per second
    assert_eq!(c.fps(), 100_000);
    c.frame_start(40);
    assert_eq!(c.fps(), 50_000);
}

#[test]
fn frame_times_average_over_the_window() {
    let mut c = Counters::start(60);
    assert_eq!(c.a_frame_time(), 0);
    c.frame_start(100);
    c.frame_prepare_display(116);
    assert_eq!(c.a_frame_time(), 16);
    c.frame_start(120);
    c.frame_prepare_display(130);
    // (16 + 10) / 2 = 13
    assert_eq!(c.a_frame_time(), 13);
    c.frame_start(140);
    c.frame_prepare_display(141);
    // (16 + 10 + 1) / 3 = 9
    assert_eq!(c.a_frame_time(), 9);
}

#[test]
fn window_drops_the_oldest_entry_when_full() {
    let mut c = Counters::start(2);
    c.frame_start(0);
    c.frame_prepare_display(5);
    c.frame_start(10);
    c.frame_prepare_display(17);
    // window [5, 7]
    assert_eq!(c.a_frame_time(), 6);
    c.frame_start(20);
    c.frame_prepare_display(29);
    // window [7, 9]: the 5 fell out
    assert_eq!(c.a_frame_time(), 8);
}

#[test]
fn seconds_track_the_clock_samples() {
    let mut c = Counters::start(30);
    c.frame_start(2500);
    assert_eq!(c.seconds(), 2);
    assert_eq!(c.dseconds(), 0);
    c.frame_start(4100);
    assert_eq!(c.seconds(), 4);
    assert_eq!(c.dseconds(), 1);
}
