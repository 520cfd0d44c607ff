//! Coalescing of half-open index ranges: the scheduler's raw ranges are
//! sorted by start and swept into a minimal list of disjoint, non-adjacent
//! ranges covering exactly the same indices.  Fewer ranges mean fewer
//! partial uploads of the vertex buffer.

use vstd::prelude::*;
use vstd::relations::sorted_by;
use vstd::relations::strongly_connected;
use vstd::relations::transitive;

use crate::sorting::insertion_sort_by;
use crate::sorting::lemma_insert_at;
use crate::sorting::lemma_sort_ensures;
use crate::sorting::lemma_sort_of_sorted;

verus! {

/// Ranges are ordered by their start index; ties keep their original order.
pub open spec fn by_start() -> spec_fn((usize, usize), (usize, usize)) -> bool {
    |a: (usize, usize), b: (usize, usize)| a.0 <= b.0
}

/// Whether index `i` lies in one of the half-open ranges.
pub open spec fn covered(rs: Seq<(usize, usize)>, i: int) -> bool {
    exists|k: int| 0 <= k < rs.len() && (#[trigger] rs[k]).0 <= i < rs[k].1
}

/// Every range starts at or before its end and ends within the array.
pub open spec fn ranges_valid(rs: Seq<(usize, usize)>, n: int) -> bool {
    forall|k: int| 0 <= k < rs.len() ==> (#[trigger] rs[k]).0 <= rs[k].1 <= n
}

/// Each range ends strictly before the next begins: the list is disjoint
/// and has no two adjacent ranges left to merge.
pub open spec fn separated(rs: Seq<(usize, usize)>) -> bool {
    forall|k: int| 0 <= k < rs.len() - 1 ==> (#[trigger] rs[k]).1 < rs[k + 1].0
}

/// The sweep of the merge: `rest` must be sorted by start and start at or
/// after `cur.0`.  A range reaching into or touching the current one widens
/// it; any other range closes the current one and opens its own.
pub open spec fn sweep(rest: Seq<(usize, usize)>, cur: (usize, usize)) -> Seq<(usize, usize)>
    decreases rest.len(),
{
    if rest.len() == 0 {
        seq![cur]
    } else if rest.first().0 <= cur.1 {
        sweep(
            rest.drop_first(),
            (cur.0, if cur.1 >= rest.first().1 {
                cur.1
            } else {
                rest.first().1
            }),
        )
    } else {
        seq![cur] + sweep(rest.drop_first(), rest.first())
    }
}

/// What the executable merge computes: sort by start, then sweep.
/// Lists of at most one range pass through untouched.
pub open spec fn merge_spec(rs: Seq<(usize, usize)>) -> Seq<(usize, usize)> {
    if rs.len() <= 1 {
        rs
    } else {
        let t = insertion_sort_by(rs, by_start());
        sweep(t.drop_first(), t.first())
    }
}

/// The order by start admits every pair in some direction and is transitive.
pub proof fn lemma_by_start_ordering()
    ensures
        strongly_connected(by_start()),
        transitive(by_start()),
{
}

/// Peeling the first range off a list splits its coverage.
pub proof fn lemma_covered_unfold(rs: Seq<(usize, usize)>, i: int)
    requires
        rs.len() > 0,
    ensures
        covered(rs, i) <==> (rs[0].0 <= i < rs[0].1 || covered(rs.drop_first(), i)),
{
    if covered(rs, i) {
        let k = choose|k: int| 0 <= k < rs.len() && (#[trigger] rs[k]).0 <= i < rs[k].1;
        if k > 0 {
            assert(rs.drop_first()[k - 1] == rs[k]);
            assert(covered(rs.drop_first(), i));
        }
    }
    if covered(rs.drop_first(), i) {
        let k = choose|k: int|
            0 <= k < rs.drop_first().len() && (#[trigger] rs.drop_first()[k]).0 <= i
                < rs.drop_first()[k].1;
        assert(rs[k + 1] == rs.drop_first()[k]);
        assert(covered(rs, i));
    }
}

/// Coverage only depends on which ranges are in the list, not their order.
pub proof fn lemma_covered_permutation(s: Seq<(usize, usize)>, t: Seq<(usize, usize)>, i: int)
    requires
        s.to_multiset() == t.to_multiset(),
    ensures
        covered(s, i) == covered(t, i),
{
    broadcast use vstd::seq_lib::group_to_multiset_ensures;

    if covered(s, i) {
        let k = choose|k: int| 0 <= k < s.len() && (#[trigger] s[k]).0 <= i < s[k].1;
        assert(s.to_multiset().contains(s[k]));
        assert(t.contains(s[k]));
        let j = choose|j: int| 0 <= j < t.len() && t[j] == s[k];
        assert(covered(t, i));
    }
    if covered(t, i) {
        let k = choose|k: int| 0 <= k < t.len() && (#[trigger] t[k]).0 <= i < t[k].1;
        assert(t.to_multiset().contains(t[k]));
        assert(s.contains(t[k]));
        let j = choose|j: int| 0 <= j < s.len() && s[j] == t[k];
        assert(covered(s, i));
    }
}

/// Validity only depends on which ranges are in the list.
pub proof fn lemma_valid_permutation(s: Seq<(usize, usize)>, t: Seq<(usize, usize)>, n: int)
    requires
        s.to_multiset() == t.to_multiset(),
        ranges_valid(s, n),
    ensures
        ranges_valid(t, n),
{
    broadcast use vstd::seq_lib::group_to_multiset_ensures;

    assert forall|k: int| 0 <= k < t.len() implies (#[trigger] t[k]).0 <= t[k].1 <= n by {
        assert(t.to_multiset().contains(t[k]));
        assert(s.contains(t[k]));
        let j = choose|j: int| 0 <= j < s.len() && s[j] == t[k];
        assert(s[j].0 <= s[j].1 <= n);
    }
}

/// What the sweep covers, one index at a time: exactly the union of `cur`
/// and the remaining ranges.
pub proof fn lemma_sweep_covered(rest: Seq<(usize, usize)>, cur: (usize, usize), i: int)
    requires
        sorted_by(rest, by_start()),
        forall|k: int| 0 <= k < rest.len() ==> cur.0 <= (#[trigger] rest[k]).0,
    ensures
        covered(sweep(rest, cur), i) <==> (covered(rest, i) || cur.0 <= i < cur.1),
    decreases rest.len(),
{
    let out = sweep(rest, cur);
    if rest.len() == 0 {
        if cur.0 <= i < cur.1 {
            assert(out[0].0 <= i < out[0].1);
            assert(covered(out, i));
        }
    } else {
        let head = rest.first();
        let rest2 = rest.drop_first();
        lemma_sorted_tail(rest);
        lemma_covered_unfold(rest, i);
        if head.0 <= cur.1 {
            let widened = (
                cur.0,
                if cur.1 >= head.1 {
                    cur.1
                } else {
                    head.1
                },
            );
            assert(cur.0 <= head.0) by {
                assert(cur.0 <= rest[0].0);
            }
            lemma_sweep_covered(rest2, widened, i);
            assert(out == sweep(rest2, widened));
        } else {
            assert(cur.0 <= head.0) by {
                assert(cur.0 <= rest[0].0);
            }
            lemma_sweep_covered(rest2, head, i);
            let sub = sweep(rest2, head);
            assert(out == seq![cur] + sub);
            lemma_covered_unfold(out, i);
            assert(out.drop_first() =~= sub);
            assert(out[0] == cur);
        }
    }
}

/// Dropping the first range keeps a list sorted and ahead of its head.
proof fn lemma_sorted_tail(rest: Seq<(usize, usize)>)
    requires
        rest.len() > 0,
        sorted_by(rest, by_start()),
    ensures
        sorted_by(rest.drop_first(), by_start()),
        forall|k: int|
            0 <= k < rest.drop_first().len() ==> rest[0].0 <= (#[trigger] rest.drop_first()[k]).0,
{
    let rest2 = rest.drop_first();
    assert forall|a: int, b: int| 0 <= a < b < rest2.len() implies by_start()(
        rest2[a],
        rest2[b],
    ) by {
        assert(by_start()(rest[a + 1], rest[b + 1]));
    }
    assert forall|k: int| 0 <= k < rest2.len() implies rest[0].0 <= (#[trigger] rest2[k]).0 by {
        assert(by_start()(rest[0], rest[k + 1]));
    }
}

/// The sweep's shape: the result is valid, sorted, separated, and keeps the
/// first start.
pub proof fn lemma_sweep_shape(rest: Seq<(usize, usize)>, cur: (usize, usize), n: int)
    requires
        sorted_by(rest, by_start()),
        ranges_valid(rest, n),
        cur.0 <= cur.1 <= n,
        forall|k: int| 0 <= k < rest.len() ==> cur.0 <= (#[trigger] rest[k]).0,
    ensures
        sweep(rest, cur).len() >= 1,
        sweep(rest, cur)[0].0 == cur.0,
        ranges_valid(sweep(rest, cur), n),
        separated(sweep(rest, cur)),
        sorted_by(sweep(rest, cur), by_start()),
    decreases rest.len(),
{
    let out = sweep(rest, cur);
    if rest.len() == 0 {
    } else {
        let head = rest.first();
        let rest2 = rest.drop_first();
        lemma_sorted_tail(rest);
        assert(ranges_valid(rest2, n)) by {
            assert forall|k: int| 0 <= k < rest2.len() implies (#[trigger] rest2[k]).0 <= rest2[k].1
                <= n by {
                assert(rest[k + 1].0 <= rest[k + 1].1 <= n);
            }
        }
        assert(cur.0 <= head.0) by {
            assert(cur.0 <= rest[0].0);
        }
        assert(head.0 <= head.1 <= n) by {
            assert(rest[0].0 <= rest[0].1 <= n);
        }
        if head.0 <= cur.1 {
            let widened = (
                cur.0,
                if cur.1 >= head.1 {
                    cur.1
                } else {
                    head.1
                },
            );
            lemma_sweep_shape(rest2, widened, n);
            assert(out == sweep(rest2, widened));
        } else {
            lemma_sweep_shape(rest2, head, n);
            let sub = sweep(rest2, head);
            assert(out =~= seq![cur] + sub);
            assert(out[0] == cur);
            assert(forall|k: int| 1 <= k < out.len() ==> (#[trigger] out[k]) == sub[k - 1]);
            assert(separated(out)) by {
                assert forall|k: int| 0 <= k < out.len() - 1 implies (#[trigger] out[k]).1 < out[k
                    + 1].0 by {
                    if k == 0 {
                        assert(out[1] == sub[0]);
                        assert(sub[0].0 == head.0);
                    } else {
                        assert(sub[k - 1].1 < sub[k].0);
                    }
                }
            }
            assert(sorted_by(out, by_start())) by {
                assert forall|a: int, b: int| 0 <= a < b < out.len() implies by_start()(
                    out[a],
                    out[b],
                ) by {
                    if a == 0 {
                        if b == 1 {
                            assert(out[1] == sub[0] && sub[0].0 == head.0);
                        } else {
                            assert(by_start()(sub[0], sub[b - 1]));
                            assert(sub[0].0 == head.0);
                        }
                    } else {
                        assert(by_start()(sub[a - 1], sub[b - 1]));
                    }
                }
            }
        }
    }
}

/// A sorted, separated list is a fixed point of the sweep.
pub proof fn lemma_sweep_of_separated(rs: Seq<(usize, usize)>)
    requires
        rs.len() >= 1,
        separated(rs),
    ensures
        sweep(rs.drop_first(), rs.first()) == rs,
    decreases rs.len(),
{
    let rest = rs.drop_first();
    if rest.len() == 0 {
        assert(sweep(rest, rs.first()) =~= rs);
    } else {
        assert(rs[0].1 < rs[1].0);
        assert(rest.first() == rs[1]);
        assert(separated(rest)) by {
            assert forall|k: int| 0 <= k < rest.len() - 1 implies (#[trigger] rest[k]).1 < rest[k
                + 1].0 by {
                assert(rs[k + 1].1 < rs[k + 2].0);
            }
        }
        lemma_sweep_of_separated(rest);
        assert(rest.drop_first() =~= rs.drop_first().drop_first());
        assert(sweep(rest, rs.first()) =~= seq![rs.first()] + sweep(rest.drop_first(), rest.first()));
        assert(sweep(rs.drop_first(), rs.first()) =~= rs);
    }
}

/// Merging what a merge produced changes nothing.
pub proof fn lemma_merge_idempotent(rs: Seq<(usize, usize)>, n: int)
    requires
        ranges_valid(rs, n),
    ensures
        merge_spec(merge_spec(rs)) == merge_spec(rs),
{
    lemma_by_start_ordering();
    if rs.len() <= 1 {
    } else {
        let t = insertion_sort_by(rs, by_start());
        lemma_sort_ensures(rs, by_start());
        lemma_valid_permutation(rs, t, n);
        assert(forall|k: int| 0 <= k < t.drop_first().len() ==> (#[trigger] t.drop_first()[k])
            == t[k + 1]);
        assert(sorted_by(t.drop_first(), by_start())) by {
            assert forall|a: int, b: int| 0 <= a < b < t.drop_first().len() implies by_start()(
                t.drop_first()[a],
                t.drop_first()[b],
            ) by {
                assert(by_start()(t[a + 1], t[b + 1]));
            }
        }
        assert(ranges_valid(t.drop_first(), n));
        assert(forall|k: int|
            0 <= k < t.drop_first().len() ==> t[0].0 <= (#[trigger] t.drop_first()[k]).0) by {
            assert(forall|k: int| 0 <= k < t.drop_first().len() ==> by_start()(
                t[0],
                #[trigger] t[k + 1],
            ));
        }
        lemma_sweep_shape(t.drop_first(), t.first(), n);
        let out = sweep(t.drop_first(), t.first());
        if out.len() <= 1 {
        } else {
            lemma_sort_of_sorted(out, by_start());
            lemma_sweep_of_separated(out);
        }
    }
}

/// Executable stable insertion sort of ranges by their start index.
fn sort_ranges(v: &Vec<(usize, usize)>) -> (out: Vec<(usize, usize)>)
    ensures
        out@ == insertion_sort_by(v@, by_start()),
{
    let mut out: Vec<(usize, usize)> = Vec::new();
    let mut i: usize = 0;
    while i < v.len()
        invariant
            0 <= i <= v@.len(),
            out@ == insertion_sort_by(v@.take(i as int), by_start()),
        decreases v@.len() - i,
    {
        let x = v[i];
        let ghost prev = out@;
        let mut j: usize = 0;
        while j < out.len() && out[j].0 <= x.0
            invariant
                0 <= j <= out@.len(),
                out@ == prev,
                forall|k: int| 0 <= k < j ==> by_start()(#[trigger] out@[k], x),
            decreases out@.len() - j,
        {
            j += 1;
        }
        proof {
            lemma_insert_at(prev, x, by_start(), j as int);
        }
        out.insert(j, x);
        proof {
            assert(out@ =~= prev.subrange(0, j as int) + seq![x] + prev.subrange(
                j as int,
                prev.len() as int,
            ));
            assert(v@.take(i as int + 1).drop_last() =~= v@.take(i as int));
            assert(v@.take(i as int + 1).last() == x);
        }
        i += 1;
    }
    proof {
        assert(v@.take(v@.len() as int) =~= v@);
    }
    out
}

/// Coalesce overlapping and adjacent ranges into a minimal, sorted,
/// disjoint list covering exactly the same indices.
pub fn merge_ranges(ranges: &Vec<(usize, usize)>, star_count: usize) -> (out: Vec<(usize, usize)>)
    requires
        ranges_valid(ranges@, star_count as int),
    ensures
        out@ == merge_spec(ranges@),
        ranges_valid(out@, star_count as int),
        separated(out@),
        sorted_by(out@, by_start()),
        forall|i: int| covered(out@, i) <==> covered(ranges@, i),
{
    proof {
        lemma_by_start_ordering();
    }
    if ranges.len() <= 1 {
        let mut out: Vec<(usize, usize)> = Vec::new();
        if ranges.len() == 1 {
            out.push(ranges[0]);
        }
        proof {
            assert(out@ =~= ranges@);
        }
        return out;
    }
    let sorted = sort_ranges(ranges);
    proof {
        lemma_sort_ensures(ranges@, by_start());
        lemma_valid_permutation(ranges@, sorted@, star_count as int);
        assert(sorted_by(sorted@.drop_first(), by_start())) by {
            assert forall|a: int, b: int|
                0 <= a < b < sorted@.drop_first().len() implies by_start()(
                sorted@.drop_first()[a],
                sorted@.drop_first()[b],
            ) by {
                assert(by_start()(sorted@[a + 1], sorted@[b + 1]));
            }
        }
        assert(ranges_valid(sorted@.drop_first(), star_count as int)) by {
            assert forall|k: int|
                0 <= k < sorted@.drop_first().len() implies (#[trigger] sorted@.drop_first()[k]).0
                <= sorted@.drop_first()[k].1 <= star_count by {
                assert(sorted@[k + 1].0 <= sorted@[k + 1].1 <= star_count);
            }
        }
        assert(forall|k: int|
            0 <= k < sorted@.drop_first().len() ==> sorted@[0].0 <= (
            #[trigger] sorted@.drop_first()[k]).0) by {
            assert(forall|k: int|
                0 <= k < sorted@.drop_first().len() ==> by_start()(
                    sorted@[0],
                    #[trigger] sorted@[k + 1],
                ));
        }
        lemma_sweep_shape(sorted@.drop_first(), sorted@[0], star_count as int);
        lemma_covered_unfold(sorted@, 0);
    }
    let ghost target = sweep(sorted@.drop_first(), sorted@[0]);
    let mut res: Vec<(usize, usize)> = Vec::new();
    let mut cur: (usize, usize) = sorted[0];
    let mut i: usize = 1;
    while i < sorted.len()
        invariant
            1 <= i <= sorted@.len(),
            res@ + sweep(sorted@.skip(i as int), cur) == target,
        decreases sorted@.len() - i,
    {
        let nxt = sorted[i];
        proof {
            assert(sorted@.skip(i as int).first() == nxt);
            assert(sorted@.skip(i as int).drop_first() =~= sorted@.skip(i as int + 1));
        }
        if nxt.0 <= cur.1 {
            if nxt.1 > cur.1 {
                cur = (cur.0, nxt.1);
            } else {
                cur = (cur.0, cur.1);
            }
        } else {
            res.push(cur);
            cur = nxt;
        }
        proof {
            assert(res@ + sweep(sorted@.skip(i as int + 1), cur) =~= target);
        }
        i += 1;
    }
    proof {
        assert(sorted@.skip(sorted@.len() as int) =~= Seq::<(usize, usize)>::empty());
    }
    res.push(cur);
    proof {
        assert(res@ =~= target);
        assert forall|i2: int| covered(res@, i2) <==> covered(ranges@, i2) by {
            lemma_sweep_covered(sorted@.drop_first(), sorted@[0], i2);
            lemma_covered_unfold(sorted@, i2);
            lemma_covered_permutation(ranges@, sorted@, i2);
        }
    }
    res
}

/// Coverage of a one-longer prefix: the old prefix or the new range.
pub proof fn lemma_covered_take(rs: Seq<(usize, usize)>, r: int, i: int)
    requires
        0 <= r < rs.len(),
    ensures
        covered(rs.take(r + 1), i) <==> (covered(rs.take(r), i) || rs[r].0 <= i < rs[r].1),
{
    let a = rs.take(r);
    let b = rs.take(r + 1);
    if covered(b, i) {
        let k = choose|k: int| 0 <= k < b.len() && (#[trigger] b[k]).0 <= i < b[k].1;
        if k < r {
            assert(a[k] == b[k]);
            assert(covered(a, i));
        } else {
            assert(b[k] == rs[r]);
        }
    }
    if covered(a, i) {
        let k = choose|k: int| 0 <= k < a.len() && (#[trigger] a[k]).0 <= i < a[k].1;
        assert(b[k] == a[k]);
        assert(covered(b, i));
    }
    if rs[r].0 <= i < rs[r].1 {
        assert(b[r] == rs[r]);
        assert(covered(b, i));
    }
}

/// In a separated, valid list every earlier range ends before a later one
/// begins.
pub proof fn lemma_separated_before(rs: Seq<(usize, usize)>, n: int, a: int, b: int)
    requires
        separated(rs),
        ranges_valid(rs, n),
        0 <= a < b < rs.len(),
    ensures
        rs[a].1 <= rs[b].0,
    decreases b - a,
{
    if b == a + 1 {
        assert(rs[a].1 < rs[a + 1].0);
    } else {
        assert(rs[a].1 < rs[a + 1].0);
        assert(rs[a + 1].0 <= rs[a + 1].1);
        lemma_separated_before(rs, n, a + 1, b);
    }
}

} // verus!
