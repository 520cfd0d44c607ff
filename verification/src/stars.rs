//! The starfield engine: the depth-sorted star array, the CPU-side vertex
//! mirror, and the per-frame update that ties scheduler, merger and quad
//! writer together.  The GPU buffer itself lives outside the library; the
//! merged ranges returned by `update` tell the caller which mirror regions
//! to upload.

use vstd::prelude::*;
use vstd::relations::sorted_by;
use vstd::relations::strongly_connected;
use vstd::relations::transitive;

use crate::config::DEFAULT_SPEED;
use crate::config::StarConfig;
use crate::quad::Vertex;
use crate::quad::quad_vertex;
use crate::quad::quad_written;
use crate::quad::write_quad;
use crate::ranges::covered;
use crate::ranges::lemma_covered_take;
use crate::ranges::lemma_separated_before;
use crate::ranges::merge_ranges;
use crate::ranges::merge_spec;
use crate::ranges::ranges_valid;
use crate::ranges::separated;
use crate::sorting::insertion_sort_by;
use crate::sorting::lemma_insert_at;
use crate::sorting::lemma_sort_ensures;
use crate::star::Star;
use crate::tiers::due_ranges;
use crate::tiers::raw_ranges;
use crate::util::ceil_div;
use crate::util::ceil_div_usize;

verus! {

/// Stars are kept sorted by descending depth: index 0 is the farthest star.
pub open spec fn by_depth_desc() -> spec_fn(Star, Star) -> bool {
    |a: Star, b: Star| a.depth >= b.depth
}

/// The depth order admits every pair in some direction and is transitive.
pub proof fn lemma_by_depth_ordering()
    ensures
        strongly_connected(by_depth_desc()),
        transitive(by_depth_desc()),
{
}

/// How a speed adjustment lands: the sum, clamped to the frame-rate bound.
pub open spec fn clamped(v: int, bound: int) -> int {
    if v < -bound {
        -bound
    } else if v > bound {
        bound
    } else {
        v
    }
}

/// An input the starfield reacts to: speed up or slow down by a tenth of a
/// unit (ten times that with shift held), or pause outright.
#[derive(Clone, Copy, PartialEq, Eq, Structural, Debug)]
pub enum StarEvent {
    SpeedUp { shift: bool },
    SpeedDown { shift: bool },
    Pause,
}

/// The starfield engine.
pub struct Stars {
    pub stars: Vec<Star>,
    pub star_vertices: Vec<Vertex>,
    pub cfg: StarConfig,
    pub speed: i64,
    pub last_sorted_frame: u64,
    pub keyframe: bool,
}

/// The four mirror slots of star `k` are byte-identical in both mirrors.
pub open spec fn slots_eq(pre: Seq<Vertex>, post: Seq<Vertex>, k: int) -> bool {
    &&& post[4 * k] == pre[4 * k]
    &&& post[4 * k + 1] == pre[4 * k + 1]
    &&& post[4 * k + 2] == pre[4 * k + 2]
    &&& post[4 * k + 3] == pre[4 * k + 3]
}

/// The mirror agrees with one star: a visible star's slots hold exactly its
/// quad, an invisible star's slots are fully transparent.
pub open spec fn star_slots_current(s: Star, mirror: Seq<Vertex>, cfg: StarConfig, k: int) -> bool {
    if s.active {
        &&& mirror[4 * k] == quad_vertex(s, cfg, 0)
        &&& mirror[4 * k + 1] == quad_vertex(s, cfg, 1)
        &&& mirror[4 * k + 2] == quad_vertex(s, cfg, 2)
        &&& mirror[4 * k + 3] == quad_vertex(s, cfg, 3)
    } else {
        &&& mirror[4 * k] == mirror[4 * k].transparent_copy()
        &&& mirror[4 * k + 1] == mirror[4 * k + 1].transparent_copy()
        &&& mirror[4 * k + 2] == mirror[4 * k + 2].transparent_copy()
        &&& mirror[4 * k + 3] == mirror[4 * k + 3].transparent_copy()
    }
}

/// The vertex mirror is the pure image of the star array: every star's
/// slots are current.
pub open spec fn mirror_matches(stars: Seq<Star>, mirror: Seq<Vertex>, cfg: StarConfig) -> bool {
    forall|k: int| 0 <= k < stars.len() ==> #[trigger] star_slots_current(stars[k], mirror, cfg, k)
}



/// The nearest-index cursor of a star array: the largest index whose star
/// is already behind the camera plane (depth < 0), or zero when no star is.
pub open spec fn nearest_cursor(s: Seq<Star>) -> int
    decreases s.len(),
{
    if s.len() == 0 {
        0
    } else if s.last().depth < 0 {
        s.len() - 1
    } else {
        nearest_cursor(s.drop_last())
    }
}

/// The star array the depth advance starts from: on a sort frame in motion
/// it is the sorted array, otherwise the array as it was.
pub open spec fn mid_stars(pre: Stars, frame: int) -> Seq<Star> {
    if frame % 6 == 0 && pre.speed != 0 {
        insertion_sort_by(pre.stars@, by_depth_desc())
    } else {
        pre.stars@
    }
}

/// A star the paused depth-advance cannot move: strictly between the wrap
/// planes, with a current visibility flag.
pub open spec fn paused_fixed(s: Star, cfg: StarConfig) -> bool {
    &&& -cfg.behind < s.depth < cfg.far
    &&& s.active == crate::star::visible(s.depth as int, cfg.near as int)
}

/// A star no paused frame can change at all: additionally, it does not
/// rotate.
pub open spec fn paused_steady(s: Star, cfg: StarConfig) -> bool {
    &&& paused_fixed(s, cfg)
    &&& s.rotation_speed == 0
}


/// Sorting the star array is idempotent: the stable sort of a sorted array
/// is the array itself, so sorting twice gives exactly what sorting once
/// gives, even when stars share a depth.
pub proof fn lemma_star_sort_idempotent(s: Seq<Star>)
    ensures
        insertion_sort_by(insertion_sort_by(s, by_depth_desc()), by_depth_desc())
            == insertion_sort_by(s, by_depth_desc()),
{
    lemma_by_depth_ordering();
    crate::sorting::lemma_sort_idempotent(s, by_depth_desc());
}

/// Star properties hold of any rearrangement of the same stars.
pub proof fn lemma_star_props_permutation(s: Seq<Star>, t: Seq<Star>, cfg: StarConfig)
    requires
        s.to_multiset() == t.to_multiset(),
        forall|i: int| 0 <= i < s.len() ==> (#[trigger] s[i]).wf(cfg),
        forall|i: int| 0 <= i < s.len() ==> ((#[trigger] s[i]).active ==> s[i].depth > 0),
    ensures
        forall|i: int| 0 <= i < t.len() ==> (#[trigger] t[i]).wf(cfg),
        forall|i: int| 0 <= i < t.len() ==> ((#[trigger] t[i]).active ==> t[i].depth > 0),
{
    broadcast use vstd::seq_lib::group_to_multiset_ensures;

    assert forall|i: int| 0 <= i < t.len() implies (#[trigger] t[i]).wf(cfg) && (t[i].active
        ==> t[i].depth > 0) by {
        assert(t.to_multiset().contains(t[i]));
        assert(s.contains(t[i]));
        let j = choose|j: int| 0 <= j < s.len() && s[j] == t[i];
        assert(s[j].wf(cfg));
    }
}

impl Stars {
    /// The engine's invariant: a valid configuration, one star array of the
    /// configured size, four mirror slots per star, well-formed stars whose
    /// visibility flag never points at a star behind the camera, and a speed
    /// within the clamp bound.
    pub open spec fn wf(self) -> bool {
        &&& self.cfg.valid()
        &&& self.stars@.len() == self.cfg.n
        &&& self.star_vertices@.len() == 4 * self.cfg.n
        &&& forall|i: int| 0 <= i < self.stars@.len() ==> (#[trigger] self.stars@[i]).wf(self.cfg)
        &&& forall|i: int|
            0 <= i < self.stars@.len() ==> ((#[trigger] self.stars@[i]).active
                ==> self.stars@[i].depth > 0)
        &&& -1000 * self.cfg.fps_limit <= self.speed <= 1000 * self.cfg.fps_limit
    }

    /// Sort the star array by descending depth (stable), and remember the
    /// frame the sort ran on.  Afterwards index 0 is the farthest star.
    pub fn sort(&mut self, frame: u64)
        requires
            old(self).wf(),
        ensures
            final(self).wf(),
            final(self).stars@ == insertion_sort_by(old(self).stars@, by_depth_desc()),
            sorted_by(final(self).stars@, by_depth_desc()),
            final(self).stars@.to_multiset() == old(self).stars@.to_multiset(),
            final(self).last_sorted_frame == frame,
            final(self).star_vertices == old(self).star_vertices,
            final(self).cfg == old(self).cfg,
            final(self).speed == old(self).speed,
            final(self).keyframe == old(self).keyframe,
    {
        let ghost input = self.stars@;
        let mut out: Vec<Star> = Vec::new();
        let mut i: usize = 0;
        while i < self.stars.len()
            invariant
                0 <= i <= self.stars@.len(),
                self.stars@ == input,
                out@ == insertion_sort_by(input.take(i as int), by_depth_desc()),
            decreases self.stars@.len() - i,
        {
            let x = self.stars[i];
            let ghost prev = out@;
            let mut j: usize = 0;
            while j < out.len() && out[j].depth >= x.depth
                invariant
                    0 <= j <= out@.len(),
                    out@ == prev,
                    forall|k: int| 0 <= k < j ==> by_depth_desc()(#[trigger] out@[k], x),
                decreases out@.len() - j,
            {
                j += 1;
            }
            proof {
                lemma_insert_at(prev, x, by_depth_desc(), j as int);
            }
            out.insert(j, x);
            proof {
                assert(out@ =~= prev.subrange(0, j as int) + seq![x] + prev.subrange(
                    j as int,
                    prev.len() as int,
                ));
                assert(input.take(i as int + 1).drop_last() =~= input.take(i as int));
                assert(input.take(i as int + 1).last() == x);
            }
            i += 1;
        }
        proof {
            assert(input.take(input.len() as int) =~= input);
            lemma_by_depth_ordering();
            lemma_sort_ensures(input, by_depth_desc());
            lemma_star_props_permutation(input, out@, self.cfg);
        }
        self.stars = out;
        self.last_sorted_frame = frame;
    }

    /// The nearest-index cursor: the largest index whose star is already
    /// behind the camera plane (depth < 0), or zero when no star is.
    pub fn find_index_zero_distance(&self) -> (r: usize)
        requires
            self.wf(),
        ensures
            r <= self.stars@.len(),
            r == nearest_cursor(self.stars@),
            (exists|i: int| 0 <= i < self.stars@.len() && (#[trigger] self.stars@[i]).depth < 0)
                ==> (r < self.stars@.len() && self.stars@[r as int].depth < 0 && forall|j: int|
                r < j < self.stars@.len() ==> (#[trigger] self.stars@[j]).depth >= 0),
            !(exists|i: int| 0 <= i < self.stars@.len() && (#[trigger] self.stars@[i]).depth < 0)
                ==> r == 0,
    {
        let ghost all = self.stars@;
        let mut i = self.stars.len();
        proof {
            assert(all.take(all.len() as int) =~= all);
        }
        while i > 0
            invariant
                0 <= i <= self.stars@.len(),
                all == self.stars@,
                nearest_cursor(all) == nearest_cursor(all.take(i as int)),
                forall|j: int|
                    i <= j < self.stars@.len() ==> (#[trigger] self.stars@[j]).depth >= 0,
            decreases i,
        {
            proof {
                assert(all.take(i as int).drop_last() =~= all.take(i as int - 1));
                assert(all.take(i as int).last() == all[i as int - 1]);
            }
            i -= 1;
            if self.stars[i].depth < 0 {
                return i;
            }
        }
        proof {
            assert(all.take(0) =~= Seq::<Star>::empty());
        }
        0
    }

    /// The chunk size that splits the star array evenly over `workers`
    /// parallel workers.
    pub fn star_chunks(&self, workers: usize) -> (c: usize)
        requires
            self.wf(),
            workers >= 1,
        ensures
            c == ceil_div(self.cfg.n as int, workers as int),
    {
        ceil_div_usize(self.stars.len(), workers)
    }

    /// Add to the speed (tenfold with the modifier held) and clamp it to the
    /// frame-rate bound.  Reaching exactly zero pauses the field: the array
    /// is sorted once more and the next update becomes a keyframe.
    pub fn adjust_speed(&mut self, add_speed: i64, modifier: bool, frame: u64)
        requires
            old(self).wf(),
            -1_000_000 <= add_speed <= 1_000_000,
        ensures
            final(self).wf(),
            final(self).speed == clamped(
                old(self).speed + add_speed * (if modifier {
                    10int
                } else {
                    1int
                }),
                1000 * old(self).cfg.fps_limit,
            ),
            final(self).cfg == old(self).cfg,
            final(self).star_vertices == old(self).star_vertices,
            final(self).speed != 0 ==> (final(self).stars == old(self).stars
                && final(self).last_sorted_frame == old(self).last_sorted_frame
                && final(self).keyframe == old(self).keyframe),
            final(self).speed == 0 ==> final(self).keyframe && final(self).last_sorted_frame
                == frame && final(self).stars@ == insertion_sort_by(
                old(self).stars@,
                by_depth_desc(),
            ),
    {
        let bounds = 1000 * self.cfg.fps_limit as i64;
        let add = add_speed * (if modifier {
            10
        } else {
            1
        });
        let mut speed = self.speed + add;
        if speed < -bounds {
            speed = -bounds;
        } else if speed > bounds {
            speed = bounds;
        }
        self.speed = speed;
        if self.speed == 0 {
            self.keyframe = true;
            self.sort(frame);
        }
    }

    /// React to one input event: W and S nudge the speed by a tenth of a
    /// unit (ten times that with shift), shift+space pauses outright.  A
    /// speed reaching zero makes the next update a keyframe.
    pub fn process_event(&mut self, event: &StarEvent, frame: u64)
        requires
            old(self).wf(),
        ensures
            final(self).wf(),
            final(self).cfg == old(self).cfg,
            final(self).star_vertices == old(self).star_vertices,
            (*event matches StarEvent::SpeedUp { shift } ==> final(self).speed == clamped(
                old(self).speed + 100 * (if shift {
                    10int
                } else {
                    1int
                }),
                1000 * old(self).cfg.fps_limit,
            )),
            (*event matches StarEvent::SpeedDown { shift } ==> final(self).speed == clamped(
                old(self).speed - 100 * (if shift {
                    10int
                } else {
                    1int
                }),
                1000 * old(self).cfg.fps_limit,
            )),
            *event is Pause ==> final(self).speed == 0,
            final(self).speed == 0 ==> final(self).keyframe,
            final(self).speed != 0 ==> (final(self).keyframe == old(self).keyframe
                && final(self).stars == old(self).stars),
    {
        match event {
            StarEvent::SpeedUp { shift } => {
                self.adjust_speed(100, *shift, frame);
            },
            StarEvent::SpeedDown { shift } => {
                self.adjust_speed(-100, *shift, frame);
            },
            StarEvent::Pause => {
                self.speed = 0;
                self.keyframe = true;
                self.sort(frame);
            },
        }
    }

    /// The ranges due this frame.  A pending keyframe claims the whole array
    /// once and is consumed; otherwise the firing tiers' raw ranges are
    /// coalesced into a minimal disjoint, non-adjacent list covering the
    /// same indices.  Every range lies within the array.
    pub fn get_update_ranges(&mut self, frame: u64, fps_limit: u64, nearest_idx: usize) -> (out:
        Vec<(usize, usize)>)
        requires
            old(self).wf(),
            1 <= fps_limit <= 1_000_000,
            nearest_idx <= old(self).cfg.n,
        ensures
            final(self).wf(),
            final(self).stars == old(self).stars,
            final(self).star_vertices == old(self).star_vertices,
            final(self).cfg == old(self).cfg,
            final(self).speed == old(self).speed,
            final(self).last_sorted_frame == old(self).last_sorted_frame,
            !final(self).keyframe,
            old(self).keyframe ==> out@ == seq![(0usize, old(self).cfg.n)],
            !old(self).keyframe ==> out@ == merge_spec(
                raw_ranges(
                    old(self).cfg.tiers@,
                    frame as int,
                    fps_limit as int,
                    nearest_idx as int,
                    old(self).cfg.n as int,
                ),
            ),
            !old(self).keyframe ==> (forall|i: int|
                covered(out@, i) <==> covered(
                    raw_ranges(
                        old(self).cfg.tiers@,
                        frame as int,
                        fps_limit as int,
                        nearest_idx as int,
                        old(self).cfg.n as int,
                    ),
                    i,
                )),
            ranges_valid(out@, old(self).cfg.n as int),
            separated(out@),
    {
        let star_count = self.stars.len();
        if self.keyframe {
            self.keyframe = false;
            let mut out: Vec<(usize, usize)> = Vec::new();
            out.push((0, star_count));
            proof {
                assert(out@ =~= seq![(0usize, self.cfg.n)]);
            }
            return out;
        }
        let raw = due_ranges(&self.cfg.tiers, frame, fps_limit, nearest_idx, star_count);
        merge_ranges(&raw, star_count)
    }

    /// Recompute the mirror slots of every star inside the given disjoint
    /// ranges.  Slots of stars outside the ranges are byte-identical before
    /// and after the call.
    pub fn update_vertex_ranges(&mut self, ranges: &Vec<(usize, usize)>)
        requires
            old(self).wf(),
            ranges_valid(ranges@, old(self).cfg.n as int),
            separated(ranges@),
        ensures
            final(self).wf(),
            final(self).stars == old(self).stars,
            final(self).cfg == old(self).cfg,
            final(self).speed == old(self).speed,
            final(self).last_sorted_frame == old(self).last_sorted_frame,
            final(self).keyframe == old(self).keyframe,
            final(self).star_vertices@.len() == old(self).star_vertices@.len(),
            forall|k: int|
                0 <= k < old(self).cfg.n && !covered(ranges@, k) ==> slots_eq(
                    old(self).star_vertices@,
                    final(self).star_vertices@,
                    k,
                ),
            forall|k: int|
                0 <= k < old(self).cfg.n && covered(ranges@, k) ==> quad_written(
                    old(self).star_vertices@,
                    final(self).star_vertices@,
                    old(self).stars@[k],
                    old(self).cfg,
                    k,
                ),
    {
        let ghost pre = old(self).star_vertices@;
        let mut r: usize = 0;
        while r < ranges.len()
            invariant
                self.wf(),
                self.cfg == old(self).cfg,
                self.stars == old(self).stars,
                self.speed == old(self).speed,
                self.last_sorted_frame == old(self).last_sorted_frame,
                self.keyframe == old(self).keyframe,
                self.star_vertices@.len() == pre.len(),
                pre == old(self).star_vertices@,
                ranges_valid(ranges@, self.cfg.n as int),
                separated(ranges@),
                0 <= r <= ranges@.len(),
                forall|k: int|
                    0 <= k < self.cfg.n && !covered(ranges@.take(r as int), k) ==> slots_eq(
                        pre,
                        self.star_vertices@,
                        k,
                    ),
                forall|k: int|
                    0 <= k < self.cfg.n && covered(ranges@.take(r as int), k) ==> quad_written(
                        pre,
                        self.star_vertices@,
                        self.stars@[k],
                        self.cfg,
                        k,
                    ),
            decreases ranges@.len() - r,
        {
            let (s, e) = ranges[r];
            let ghost taken = ranges@.take(r as int);
            let mut k: usize = s;
            while k < e
                invariant
                    self.wf(),
                    self.cfg == old(self).cfg,
                    self.stars == old(self).stars,
                    self.speed == old(self).speed,
                    self.last_sorted_frame == old(self).last_sorted_frame,
                    self.keyframe == old(self).keyframe,
                    self.star_vertices@.len() == pre.len(),
                    pre == old(self).star_vertices@,
                    ranges_valid(ranges@, self.cfg.n as int),
                    separated(ranges@),
                    0 <= r < ranges@.len(),
                    taken == ranges@.take(r as int),
                    (s, e) == ranges@[r as int],
                    s <= k <= e <= self.cfg.n,
                    forall|k2: int|
                        0 <= k2 < self.cfg.n && !covered(taken, k2) && !(s <= k2 < k) ==> slots_eq(
                            pre,
                            self.star_vertices@,
                            k2,
                        ),
                    forall|k2: int|
                        0 <= k2 < self.cfg.n && covered(taken, k2) ==> quad_written(
                            pre,
                            self.star_vertices@,
                            self.stars@[k2],
                            self.cfg,
                            k2,
                        ),
                    forall|k2: int|
                        s <= k2 < k ==> quad_written(
                            pre,
                            self.star_vertices@,
                            self.stars@[k2],
                            self.cfg,
                            k2,
                        ),
                decreases e - k,
            {
                let ghost before = self.star_vertices@;
                let star = self.stars[k];
                write_quad(&mut self.star_vertices, k, &star, &self.cfg);
                proof {
                    // a star inside this range was never written before, so
                    // its old slots are the original ones
                    assert forall|k2: int|
                        0 <= k2 < self.cfg.n && covered(taken, k2) implies quad_written(
                        pre,
                        self.star_vertices@,
                        self.stars@[k2],
                        self.cfg,
                        k2,
                    ) by {
                        let a = choose|a: int|
                            0 <= a < taken.len() && (#[trigger] taken[a]).0 <= k2 < taken[a].1;
                        assert(taken[a] == ranges@[a]);
                        lemma_separated_before(ranges@, self.cfg.n as int, a, r as int);
                        assert(k2 < s);
                        assert(slots_eq(before, self.star_vertices@, k2));
                    }
                    let ghost ki = k as int;
                    assert(!covered(taken, ki)) by {
                        if covered(taken, ki) {
                            let a = choose|a: int|
                                0 <= a < taken.len() && (#[trigger] taken[a]).0 <= ki
                                    < taken[a].1;
                            assert(taken[a] == ranges@[a]);
                            lemma_separated_before(ranges@, self.cfg.n as int, a, r as int);
                        }
                    }
                    assert(slots_eq(pre, before, k as int));
                    assert(quad_written(pre, self.star_vertices@, self.stars@[k as int], self.cfg, k as int));
                }
                k += 1;
            }
            proof {
                assert forall|k2: int|
                    0 <= k2 < self.cfg.n && covered(ranges@.take(r as int + 1), k2) implies
                    quad_written(pre, self.star_vertices@, self.stars@[k2], self.cfg, k2) by {
                    lemma_covered_take(ranges@, r as int, k2);
                }
                assert forall|k2: int|
                    0 <= k2 < self.cfg.n && !covered(ranges@.take(r as int + 1), k2) implies
                    slots_eq(pre, self.star_vertices@, k2) by {
                    lemma_covered_take(ranges@, r as int, k2);
                }
            }
            r += 1;
        }
        proof {
            assert(ranges@.take(ranges@.len() as int) =~= ranges@);
        }
    }

    /// Build the field: every star randomized between the clip planes, the
    /// mirror allocated all-transparent, the array sorted far-to-near, and
    /// one full keyframe fill so the mirror starts consistent with it.
    pub fn new(cfg: StarConfig) -> (field: Stars)
        requires
            cfg.valid(),
        ensures
            field.wf(),
            field.cfg == cfg,
            field.speed == DEFAULT_SPEED,
            field.last_sorted_frame == 0,
            !field.keyframe,
            field.stars@.len() == cfg.n,
            sorted_by(field.stars@, by_depth_desc()),
            forall|k: int|
                0 <= k < cfg.n ==> (cfg.near <= (#[trigger] field.stars@[k]).depth < cfg.far
                    && field.stars@[k].active),
            mirror_matches(field.stars@, field.star_vertices@, cfg),
    {
        let n = cfg.n;
        let mut stars: Vec<Star> = Vec::new();
        let mut i: usize = 0;
        while i < n
            invariant
                cfg.valid(),
                n == cfg.n,
                0 <= i <= n,
                stars@.len() == i,
                forall|k: int| 0 <= k < i ==> (#[trigger] stars@[k]).wf(cfg),
                forall|k: int|
                    0 <= k < i ==> (cfg.near <= (#[trigger] stars@[k]).depth < cfg.far
                        && stars@[k].active),
            decreases n - i,
        {
            let mut st = Star::new();
            st.randomize(&cfg);
            stars.push(st);
            i += 1;
        }
        let mut mirror: Vec<Vertex> = Vec::new();
        let mut m: usize = 0;
        while m < 4 * n
            invariant
                cfg.valid(),
                n == cfg.n,
                0 <= m <= 4 * n,
                mirror@.len() == m,
            decreases 4 * n - m,
        {
            mirror.push(Vertex::zeroed());
            m += 1;
        }
        let mut field = Stars {
            stars,
            star_vertices: mirror,
            cfg,
            speed: DEFAULT_SPEED,
            last_sorted_frame: 0,
            keyframe: true,
        };
        assert(field.wf());
        let ghost unsorted = field.stars@;
        field.sort(0);
        proof {
            broadcast use vstd::seq_lib::group_to_multiset_ensures;

            assert forall|k: int| 0 <= k < field.stars@.len() implies (cfg.near <= (
            #[trigger] field.stars@[k]).depth < cfg.far && field.stars@[k].active) by {
                assert(field.stars@.to_multiset().contains(field.stars@[k]));
                assert(unsorted.contains(field.stars@[k]));
                let j = choose|j: int| 0 <= j < unsorted.len() && unsorted[j] == field.stars@[k];
            }
        }
        let nearest = field.stars.len();
        let fps = field.cfg.fps_limit;
        let rs = field.get_update_ranges(0, fps, nearest);
        let ghost mirror_pre = field.star_vertices@;
        field.update_vertex_ranges(&rs);
        proof {
            assert forall|k: int| 0 <= k < cfg.n implies #[trigger] covered(rs@, k) by {
                assert(rs@[0] == (0usize, cfg.n));
                assert(rs@[0].0 <= k < rs@[0].1);
            }
            assert forall|k: int| 0 <= k < field.stars@.len() implies #[trigger] star_slots_current(
                field.stars@[k],
                field.star_vertices@,
                cfg,
                k,
            ) by {
                assert(covered(rs@, k));
                assert(quad_written(
                    mirror_pre,
                    field.star_vertices@,
                    field.stars@[k],
                    cfg,
                    k,
                ));
            }
        }
        field
    }

    /// One frame: an optional re-sort (every sixth frame, and only while the
    /// field is in motion), the per-star depth advance, the scheduler and
    /// merger, and the partial mirror rewrite.  Returns the merged ranges so
    /// the caller can upload exactly those mirror regions to the GPU buffer.
    pub fn update(&mut self, frame: u64) -> (ranges: Vec<(usize, usize)>)
        requires
            old(self).wf(),
        ensures
            final(self).wf(),
            final(self).cfg == old(self).cfg,
            final(self).speed == old(self).speed,
            !final(self).keyframe,
            final(self).stars@.len() == old(self).cfg.n,
            final(self).star_vertices@.len() == old(self).star_vertices@.len(),
            ranges_valid(ranges@, old(self).cfg.n as int),
            separated(ranges@),
            (frame % 6 == 0 && old(self).speed != 0) ==> final(self).last_sorted_frame == frame,
            !(frame % 6 == 0 && old(self).speed != 0) ==> final(self).last_sorted_frame == old(
                self,
            ).last_sorted_frame,
            forall|k: int|
                0 <= k < old(self).cfg.n ==> Star::advanced(
                    mid_stars(*old(self), frame as int)[k],
                    #[trigger] final(self).stars@[k],
                    old(self).speed as int,
                    old(self).cfg,
                ),
            forall|k: int|
                0 <= k < old(self).cfg.n ==> -old(self).cfg.behind <= (
                #[trigger] final(self).stars@[k]).depth <= old(self).cfg.far,
            forall|k: int|
                0 <= k < old(self).cfg.n && !covered(ranges@, k) ==> slots_eq(
                    old(self).star_vertices@,
                    final(self).star_vertices@,
                    k,
                ),
            forall|k: int|
                0 <= k < old(self).cfg.n && covered(ranges@, k) ==> quad_written(
                    old(self).star_vertices@,
                    final(self).star_vertices@,
                    final(self).stars@[k],
                    old(self).cfg,
                    k,
                ),
            !old(self).keyframe ==> ranges@ == merge_spec(
                raw_ranges(
                    old(self).cfg.tiers@,
                    frame as int,
                    old(self).cfg.fps_limit as int,
                    nearest_cursor(final(self).stars@),
                    old(self).cfg.n as int,
                ),
            ),
            old(self).keyframe ==> ranges@ == seq![(0usize, old(self).cfg.n)],
            old(self).keyframe ==> (forall|k: int|
                0 <= k < old(self).cfg.n ==> #[trigger] covered(ranges@, k)),
            old(self).keyframe ==> mirror_matches(
                final(self).stars@,
                final(self).star_vertices@,
                old(self).cfg,
            ),
            (old(self).speed == 0 && (forall|k: int|
                0 <= k < old(self).cfg.n ==> paused_fixed(
                    #[trigger] old(self).stars@[k],
                    old(self).cfg,
                ))) ==> (forall|k: int|
                0 <= k < old(self).cfg.n ==> ((#[trigger] final(self).stars@[k]).depth == old(
                    self,
                ).stars@[k].depth && final(self).stars@[k].active == old(self).stars@[k].active)),
            (old(self).speed == 0 && mirror_matches(
                old(self).stars@,
                old(self).star_vertices@,
                old(self).cfg,
            ) && (forall|k: int|
                0 <= k < old(self).cfg.n ==> paused_steady(
                    #[trigger] old(self).stars@[k],
                    old(self).cfg,
                ))) ==> (final(self).stars@ == old(self).stars@ && final(self).star_vertices@
                == old(self).star_vertices@),
    {
        let ghost pre = *old(self);
        if frame % 6 == 0 && self.speed != 0 {
            self.sort(frame);
        }
        proof {
            assert(self.stars@ == mid_stars(pre, frame as int));
        }
        let ghost mid = self.stars@;
        let speed = self.speed;
        let mut k: usize = 0;
        while k < self.stars.len()
            invariant
                self.wf(),
                self.cfg == pre.cfg,
                self.speed == pre.speed,
                speed == pre.speed,
                self.star_vertices == pre.star_vertices,
                self.keyframe == pre.keyframe,
                (frame % 6 == 0 && pre.speed != 0) ==> self.last_sorted_frame == frame,
                !(frame % 6 == 0 && pre.speed != 0) ==> self.last_sorted_frame
                    == pre.last_sorted_frame,
                0 <= k <= self.stars@.len(),
                self.stars@.len() == mid.len() == pre.cfg.n,
                forall|j: int|
                    0 <= j < k ==> Star::advanced(
                        mid[j],
                        #[trigger] self.stars@[j],
                        pre.speed as int,
                        pre.cfg,
                    ),
                forall|j: int| k <= j < mid.len() ==> self.stars@[j] == mid[j],
                forall|j: int| 0 <= j < mid.len() ==> (#[trigger] mid[j]).wf(pre.cfg),
            decreases self.stars@.len() - k,
        {
            let mut s = self.stars[k];
            s.update(speed, &self.cfg);
            self.stars[k] = s;
            k += 1;
        }
        let nearest = self.find_index_zero_distance();
        let fps = self.cfg.fps_limit;
        let ghost advanced_stars = self.stars@;
        let ghost mirror_before = self.star_vertices@;
        let rs = self.get_update_ranges(frame, fps, nearest);
        self.update_vertex_ranges(&rs);
        proof {
            assert(self.stars@ == advanced_stars);
            assert(mirror_before == pre.star_vertices@);
            if pre.keyframe {
                assert forall|k2: int| 0 <= k2 < pre.cfg.n implies #[trigger] covered(rs@, k2) by {
                    assert(rs@[0] == (0usize, pre.cfg.n));
                    assert(rs@[0].0 <= k2 < rs@[0].1);
                }
                assert forall|k2: int| 0 <= k2 < self.stars@.len() implies
                    #[trigger] star_slots_current(
                    self.stars@[k2],
                    self.star_vertices@,
                    pre.cfg,
                    k2,
                ) by {
                    assert(covered(rs@, k2));
                    assert(quad_written(
                        mirror_before,
                        self.star_vertices@,
                        self.stars@[k2],
                        pre.cfg,
                        k2,
                    ));
                }
            }
            if pre.speed == 0 && (forall|k2: int|
                0 <= k2 < pre.cfg.n ==> paused_fixed(#[trigger] pre.stars@[k2], pre.cfg)) {
                assert(mid == pre.stars@);
                assert forall|k2: int| 0 <= k2 < pre.cfg.n implies ((
                #[trigger] self.stars@[k2]).depth == pre.stars@[k2].depth && self.stars@[k2].active
                    == pre.stars@[k2].active && (pre.stars@[k2].rotation_speed == 0
                    ==> self.stars@[k2] == pre.stars@[k2])) by {
                    crate::star::lemma_paused_advance_fixpoint(
                        pre.stars@[k2],
                        self.stars@[k2],
                        pre.cfg,
                    );
                }
                if mirror_matches(pre.stars@, pre.star_vertices@, pre.cfg) && (forall|k2: int|
                    0 <= k2 < pre.cfg.n ==> paused_steady(#[trigger] pre.stars@[k2], pre.cfg)) {
                    assert(self.stars@ =~= pre.stars@);
                    assert forall|m: int|
                        0 <= m < self.star_vertices@.len() implies self.star_vertices@[m]
                        == pre.star_vertices@[m] by {
                        let k2 = m / 4;
                        assert(m == 4 * k2 + (m % 4));
                        assert(0 <= m % 4 < 4);
                        assert(star_slots_current(pre.stars@[k2], pre.star_vertices@, pre.cfg, k2));
                        if covered(rs@, k2) {
                            assert(quad_written(
                                pre.star_vertices@,
                                self.star_vertices@,
                                self.stars@[k2],
                                pre.cfg,
                                k2,
                            ));
                        } else {
                            assert(slots_eq(pre.star_vertices@, self.star_vertices@, k2));
                        }
                    }
                    assert(self.star_vertices@ =~= pre.star_vertices@);
                }
            }
        }
        rs
    }
}

} // verus!
