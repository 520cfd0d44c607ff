//! The frame-timing counter: a monotonic frame index, elapsed wall time in
//! milliseconds, lazily reset deltas for the displayed rate, and a rolling
//! window of the last `fps_limit` frame times.  The caller samples the clock
//! and hands milliseconds in; everything else is computed here.

use ringbuffer::AllocRingBuffer;
use vstd::arithmetic::div_mod::lemma_add_mod_noop;
use vstd::arithmetic::div_mod::lemma_small_mod;
use vstd::prelude::*;

use crate::ringbuf::ring_cap;
use crate::ringbuf::ring_items;
use crate::ringbuf::ring_new;
use crate::ringbuf::ring_push;
use crate::ringbuf::ring_seq;

verus! {

/// The sum of a window of frame times.
pub open spec fn seq_sum(s: Seq<u64>) -> int
    decreases s.len(),
{
    if s.len() == 0 {
        0
    } else {
        seq_sum(s.drop_last()) + s.last()
    }
}

/// Frame and wall-time bookkeeping.  The `l_` fields are the lazy snapshots
/// taken every `fps_limit` frames, from which the displayed rate is derived.
pub struct Counters {
    pub frames: u64,
    pub l_frames: u64,
    pub millis: u64,
    pub l_millis: u64,
    pub fps_limit: u64,
    pub frame_times: AllocRingBuffer<u64>,
}

impl Counters {
    /// The counter's invariant.  The snapshot lags the frame counter by less
    /// than one display period, and it only ever rests on frame one or on a
    /// multiple of the period — which is what makes the lag bound inductive.
    pub open spec fn wf(self) -> bool {
        &&& 1 <= self.fps_limit <= 1_000_000
        &&& self.l_frames <= self.frames < self.l_frames + self.fps_limit
        &&& (self.l_frames == 0 && self.frames == 0) || (self.l_frames == 1 && self.frames
            < self.fps_limit) || (self.l_frames >= 1 && self.l_frames % self.fps_limit == 0)
        &&& self.l_millis <= self.millis
        &&& ring_cap(self.frame_times) == self.fps_limit
        &&& ring_seq(self.frame_times).len() <= self.fps_limit
    }

    /// A fresh counter at frame zero with an empty frame-time window.
    pub fn start(fps_limit: u64) -> (c: Counters)
        requires
            1 <= fps_limit <= 1_000_000,
        ensures
            c.wf(),
            c.frames == 0,
            c.l_frames == 0,
            c.millis == 0,
            c.l_millis == 0,
            c.fps_limit == fps_limit,
            ring_seq(c.frame_times) == Seq::<u64>::empty(),
    {
        Counters {
            frames: 0,
            l_frames: 0,
            millis: 0,
            l_millis: 0,
            fps_limit,
            frame_times: ring_new(fps_limit as usize),
        }
    }

    /// Whole milliseconds each frame may take at the target rate.
    pub fn ms_per_frame(&self) -> (r: u64)
        requires
            self.wf(),
        ensures
            r == 1000 as int / self.fps_limit as int,
    {
        1000 / self.fps_limit
    }

    /// Begin a frame: record the clock sample and advance the frame counter;
    /// every `fps_limit` frames (and on the very first) the lazy snapshot is
    /// taken, which resets the deltas the displayed rate is computed from.
    pub fn frame_start(&mut self, now_millis: u64)
        requires
            old(self).wf(),
            old(self).millis <= now_millis,
            old(self).frames < u64::MAX,
        ensures
            final(self).wf(),
            final(self).frames == old(self).frames + 1,
            final(self).millis == now_millis,
            final(self).fps_limit == old(self).fps_limit,
            final(self).frame_times == old(self).frame_times,
            (final(self).frames % final(self).fps_limit == 0 || final(self).frames == 1) ==> (
            final(self).l_frames == final(self).frames && final(self).l_millis == now_millis),
            !(final(self).frames % final(self).fps_limit == 0 || final(self).frames == 1) ==> (
            final(self).l_frames == old(self).l_frames && final(self).l_millis == old(
                self,
            ).l_millis),
    {
        self.millis = now_millis;
        self.frames = self.frames + 1;
        if self.frames % self.fps_limit == 0 || self.frames == 1 {
            self.l_millis = self.millis;
            self.l_frames = self.frames;
        } else {
            proof {
                let fps = self.fps_limit as int;
                let l = self.l_frames as int;
                let f = self.frames as int;
                lemma_small_mod(0nat, fps as nat);
                if l >= 1 && l % fps == 0 {
                    // the step before a full period would have reset, so the
                    // lag stays short
                    if f == l + fps {
                        lemma_add_mod_noop(l, fps, fps);
                        assert(fps % fps == 0) by {
                            lemma_add_mod_noop(0, fps, fps);
                        }
                        assert(f % fps == 0);
                    } else {
                        let r = f - l;
                        lemma_add_mod_noop(l, r, fps);
                        lemma_small_mod(r as nat, fps as nat);
                        assert(f % fps == r);
                    }
                } else {
                    // the snapshot rests on frame one: a full period from
                    // there passes through frame `fps_limit`, which resets
                    lemma_small_mod(f as nat, fps as nat);
                }
            }
        }
    }

    /// Frames since the last snapshot.
    pub fn dframes(&self) -> (r: u64)
        requires
            self.wf(),
        ensures
            r == self.frames - self.l_frames,
    {
        self.frames - self.l_frames
    }

    /// Whole seconds since the last snapshot.
    pub fn dseconds(&self) -> (r: u64)
        requires
            self.wf(),
        ensures
            r == (self.millis - self.l_millis) as int / 1000,
    {
        (self.millis - self.l_millis) / 1000
    }

    /// Whole elapsed seconds.
    pub fn seconds(&self) -> (r: u64)
        requires
            self.wf(),
        ensures
            r == self.millis as int / 1000,
    {
        self.millis / 1000
    }

    /// The displayed rate, in thousandths of a frame per second.  Before the
    /// first millisecond has passed it reads as the target rate.
    pub fn fps(&self) -> (r: u64)
        requires
            self.wf(),
        ensures
            self.millis == self.l_millis ==> r == self.fps_limit * 1000,
            self.millis != self.l_millis ==> r == (self.frames - self.l_frames) * 1_000_000 as int
                / (self.millis - self.l_millis) as int,
    {
        let dmillis = self.millis - self.l_millis;
        if dmillis == 0 {
            return self.fps_limit * 1000;
        }
        let df = self.frames - self.l_frames;
        df * 1_000_000 / dmillis
    }

    /// The average of the rolling frame-time window, in milliseconds; zero
    /// while the window is empty.
    pub fn a_frame_time(&self) -> (r: u64)
        requires
            self.wf(),
        ensures
            ring_seq(self.frame_times).len() == 0 ==> r == 0,
            ring_seq(self.frame_times).len() > 0 ==> r == seq_sum(ring_seq(self.frame_times))
                / ring_seq(self.frame_times).len() as int,
    {
        let items = ring_items(&self.frame_times);
        if items.len() == 0 {
            return 0;
        }
        let mut sum: u128 = 0;
        let mut i: usize = 0;
        while i < items.len()
            invariant
                0 <= i <= items@.len(),
                sum == seq_sum(items@.take(i as int)),
                sum <= i * 0xffff_ffff_ffff_ffff,
                items@.len() <= 1_000_000,
            decreases items@.len() - i,
        {
            proof {
                assert(items@.take(i as int + 1).drop_last() =~= items@.take(i as int));
                assert((i + 1) as int * 0xffff_ffff_ffff_ffff == i as int * 0xffff_ffff_ffff_ffff
                    + 0xffff_ffff_ffff_ffff) by (nonlinear_arith);
            }
            sum = sum + items[i] as u128;
            i += 1;
        }
        proof {
            assert(items@.take(items@.len() as int) =~= items@);
            assert(sum as int / items@.len() as int <= 0xffff_ffff_ffff_ffff) by (nonlinear_arith)
                requires
                    0 <= sum <= items@.len() * 0xffff_ffff_ffff_ffff,
                    items@.len() >= 1,
            ;
        }
        (sum / items.len() as u128) as u64
    }

    /// End a frame: push its duration — the clock sample minus the frame's
    /// start time — into the rolling window, dropping the oldest entry once
    /// the window is full.
    pub fn frame_prepare_display(&mut self, now_millis: u64)
        requires
            old(self).wf(),
            old(self).millis <= now_millis,
        ensures
            final(self).wf(),
            final(self).frames == old(self).frames,
            final(self).millis == old(self).millis,
            final(self).l_frames == old(self).l_frames,
            final(self).l_millis == old(self).l_millis,
            final(self).fps_limit == old(self).fps_limit,
            ring_seq(final(self).frame_times) == (if ring_seq(old(self).frame_times).len()
                < ring_cap(old(self).frame_times) {
                ring_seq(old(self).frame_times).push((now_millis - old(self).millis) as u64)
            } else {
                ring_seq(old(self).frame_times).drop_first().push(
                    (now_millis - old(self).millis) as u64,
                )
            }),
    {
        ring_push(&mut self.frame_times, now_millis - self.millis);
    }
}

} // verus!
