//! The tiering scheduler: which circular index ranges of the star array are
//! due for recomputation on a given frame.  Stars are indexed in
//! depth-descending order, so a band of percentages measured back from the
//! nearest-index cursor selects stars of similar apparent motion.

use vstd::prelude::*;

use crate::config::BASE_FPS;
use crate::config::Tier;
use crate::util::ceil_div;
use crate::util::ceil_div_u64;

verus! {

/// A tier's interval, scaled so that the number of wall-clock recomputations
/// per second is kept when the frame rate exceeds the base rate.
pub open spec fn scaled_interval(interval: int, fps_limit: int) -> int {
    interval * ceil_div(fps_limit, BASE_FPS as int)
}

/// Whether a tier fires on this frame.
pub open spec fn tier_due(t: Tier, frame: int, fps_limit: int) -> bool {
    frame % scaled_interval(t.interval as int, fps_limit) == 0
}

/// First index of the band, counted back from the nearest-index cursor.
pub open spec fn tier_lo_idx(t: Tier, n: int) -> int {
    ceil_div(n * t.lo_pct, 100)
}

/// One-past-last index of the band, counted back from the cursor.
pub open spec fn tier_hi_idx(t: Tier, n: int) -> int {
    ceil_div(n * t.hi_pct, 100)
}

/// The ranges a firing tier asks for: the band is anchored `hi..lo` indices
/// behind the cursor, modulo the array length; a band that wraps past index
/// zero is emitted as up to two linear ranges.
pub open spec fn tier_emit(t: Tier, n: int, nearest: int) -> Seq<(usize, usize)> {
    let start = (nearest + n - tier_hi_idx(t, n)) % n;
    let end = (nearest + n - tier_lo_idx(t, n)) % n;
    if start >= end && !(start == 0 && end == 0) {
        if end > 0 {
            seq![(start as usize, n as usize), (0usize, end as usize)]
        } else {
            seq![(start as usize, n as usize)]
        }
    } else {
        seq![(start as usize, end as usize)]
    }
}

/// All ranges due on this frame, in tier-table order.
pub open spec fn raw_ranges(
    tiers: Seq<Tier>,
    frame: int,
    fps_limit: int,
    nearest: int,
    n: int,
) -> Seq<(usize, usize)>
    decreases tiers.len(),
{
    if tiers.len() == 0 {
        Seq::empty()
    } else {
        raw_ranges(tiers.drop_last(), frame, fps_limit, nearest, n) + (if tier_due(
            tiers.last(),
            frame,
            fps_limit,
        ) {
            tier_emit(tiers.last(), n, nearest)
        } else {
            Seq::empty()
        })
    }
}

/// Every range a tier emits is well-formed: within the array, start at or
/// before end.
pub proof fn lemma_tier_emit_valid(t: Tier, n: int, nearest: int)
    requires
        t.valid(),
        0 < n <= 100_000_000,
        0 <= nearest <= n,
    ensures
        forall|k: int|
            0 <= k < tier_emit(t, n, nearest).len() ==> (#[trigger] tier_emit(t, n, nearest)[k]).0
                <= tier_emit(t, n, nearest)[k].1 <= n,
{
    let hi = tier_hi_idx(t, n);
    let lo = tier_lo_idx(t, n);
    lemma_tier_idx_in_array(t, n);
    let a = nearest + n - hi;
    let b = nearest + n - lo;
    assert(0 <= a % n < n && 0 <= b % n < n) by (nonlinear_arith)
        requires
            n > 0,
            a >= 0,
            b >= 0,
    ;
    let start = a % n;
    let end = b % n;
    let s = tier_emit(t, n, nearest);
    assert forall|k: int| 0 <= k < s.len() implies (#[trigger] s[k]).0 <= s[k].1 <= n by {
        if start >= end && !(start == 0 && end == 0) {
            assert(s[0] == (start as usize, n as usize));
            if end > 0 {
                assert(s.len() == 2 && s[1] == (0usize, end as usize));
            }
        } else {
            assert(s[0] == (start as usize, end as usize));
        }
    }
}

/// Band boundaries never pass the end of the array.
pub proof fn lemma_tier_idx_in_array(t: Tier, n: int)
    requires
        t.valid(),
        0 < n,
    ensures
        0 <= tier_lo_idx(t, n) <= tier_hi_idx(t, n) <= n,
{
    assert(0 <= (n * t.lo_pct + 99) / 100) by (nonlinear_arith)
        requires
            n > 0,
            t.lo_pct >= 0,
    ;
    assert((n * t.hi_pct + 99) / 100 <= n) by (nonlinear_arith)
        requires
            n > 0,
            t.hi_pct <= 100,
    ;
    assert((n * t.lo_pct + 99) / 100 <= (n * t.hi_pct + 99) / 100) by (nonlinear_arith)
        requires
            n > 0,
            t.lo_pct < t.hi_pct,
    ;
}

/// Executable scheduler over one tier table.  Emits, in table order, the
/// ranges of every tier whose scaled interval divides the frame number.
pub fn due_ranges(
    tiers: &Vec<Tier>,
    frame: u64,
    fps_limit: u64,
    nearest: usize,
    n: usize,
) -> (out: Vec<(usize, usize)>)
    requires
        forall|i: int| 0 <= i < tiers@.len() ==> (#[trigger] tiers@[i]).valid(),
        1 <= fps_limit <= 1_000_000,
        0 < n <= 100_000_000,
        nearest <= n,
    ensures
        out@ == raw_ranges(tiers@, frame as int, fps_limit as int, nearest as int, n as int),
        forall|k: int| 0 <= k < out@.len() ==> (#[trigger] out@[k]).0 <= out@[k].1 <= n,
{
    let ghost gframe = frame as int;
    let ghost gfps = fps_limit as int;
    let ghost gnear = nearest as int;
    let ghost gn = n as int;
    let mut out: Vec<(usize, usize)> = Vec::new();
    let scale = ceil_div_u64(fps_limit, BASE_FPS);
    proof {
        assert(1 <= (fps_limit + 59) as int / 60 <= 16667) by (nonlinear_arith)
            requires
                1 <= fps_limit <= 1_000_000,
        ;
    }
    let mut i: usize = 0;
    while i < tiers.len()
        invariant
            forall|j: int| 0 <= j < tiers@.len() ==> (#[trigger] tiers@[j]).valid(),
            1 <= fps_limit <= 1_000_000,
            0 < n <= 100_000_000,
            nearest <= n,
            0 <= i <= tiers@.len(),
            1 <= scale == ceil_div(gfps, BASE_FPS as int) <= 16667,
            gframe == frame as int && gfps == fps_limit as int && gnear == nearest as int && gn
                == n as int,
            out@ == raw_ranges(tiers@.take(i as int), gframe, gfps, gnear, gn),
            forall|k: int| 0 <= k < out@.len() ==> (#[trigger] out@[k]).0 <= out@[k].1 <= n,
        decreases tiers@.len() - i,
    {
        let t = tiers[i];
        assert(t.valid());
        assert(t == tiers@.take(i as int + 1).last());
        assert(tiers@.take(i as int + 1).drop_last() =~= tiers@.take(i as int));
        proof {
            lemma_tier_emit_valid(t, gn, gnear);
            lemma_tier_idx_in_array(t, gn);
            assert(1 <= t.interval as int * scale as int <= 1_000_000 * 16667) by (nonlinear_arith)
                requires
                    1 <= t.interval <= 1_000_000,
                    1 <= scale <= 16667,
            ;
        }
        let interval = t.interval * scale;
        if frame % interval == 0 {
            let hi64 = ceil_div_u64(n as u64 * t.hi_pct, 100);
            let lo64 = ceil_div_u64(n as u64 * t.lo_pct, 100);
            let hi = hi64 as usize;
            let lo = lo64 as usize;
            let start = (nearest + n - hi) % n;
            let end = (nearest + n - lo) % n;
            proof {
                assert(0 <= (gnear + gn - tier_hi_idx(t, gn)) % gn < gn && 0 <= (gnear + gn
                    - tier_lo_idx(t, gn)) % gn < gn) by (nonlinear_arith)
                    requires
                        gn > 0,
                        gnear + gn - tier_hi_idx(t, gn) >= 0,
                        gnear + gn - tier_lo_idx(t, gn) >= 0,
                ;
            }
            if start >= end && !(start == 0 && end == 0) {
                out.push((start, n));
                if end > 0 {
                    out.push((0, end));
                }
            } else {
                out.push((start, end));
            }
        }
        proof {
            assert(out@ =~= raw_ranges(tiers@.take(i as int + 1), gframe, gfps, gnear, gn));
        }
        i += 1;
    }
    proof {
        assert(tiers@.take(tiers@.len() as int) =~= tiers@);
    }
    out
}

} // verus!
