//! A deterministic, stable insertion sort at the specification level.
//!
//! The executable sorts in this crate promise that their output equals
//! `insertion_sort_by` of their input.  Pinning the output to one function
//! (rather than just "sorted and a permutation") is what makes idempotence
//! of sorting provable even when elements compare equal.

use vstd::prelude::*;
use vstd::relations::sorted_by;
use vstd::relations::strongly_connected;
use vstd::relations::transitive;

verus! {

/// Insert `x` behind every leading element that may stay in front of it.
/// On ties `leq` holds, so `x` lands after its equals: insertion is stable.
pub open spec fn seq_insert_by<A>(s: Seq<A>, x: A, leq: spec_fn(A, A) -> bool) -> Seq<A>
    decreases s.len(),
{
    if s.len() == 0 {
        seq![x]
    } else if leq(s.first(), x) {
        seq![s.first()] + seq_insert_by(s.drop_first(), x, leq)
    } else {
        seq![x] + s
    }
}

/// Stable insertion sort: elements are inserted left to right.
pub open spec fn insertion_sort_by<A>(s: Seq<A>, leq: spec_fn(A, A) -> bool) -> Seq<A>
    decreases s.len(),
{
    if s.len() == 0 {
        s
    } else {
        seq_insert_by(insertion_sort_by(s.drop_last(), leq), s.last(), leq)
    }
}

/// Inserting adds exactly the new element: the contents are preserved.
pub proof fn lemma_insert_multiset<A>(s: Seq<A>, x: A, leq: spec_fn(A, A) -> bool)
    ensures
        seq_insert_by(s, x, leq).len() == s.len() + 1,
        seq_insert_by(s, x, leq).to_multiset() == s.to_multiset().insert(x),
    decreases s.len(),
{
    broadcast use vstd::seq_lib::group_to_multiset_ensures;

    if s.len() == 0 {
        assert(seq_insert_by(s, x, leq) =~= Seq::empty().push(x));
        assert(seq_insert_by(s, x, leq).to_multiset() =~= s.to_multiset().insert(x));
    } else if leq(s.first(), x) {
        lemma_insert_multiset(s.drop_first(), x, leq);
        let t = seq_insert_by(s.drop_first(), x, leq);
        assert(seq_insert_by(s, x, leq) =~= t.insert(0, s.first()));
        assert(s =~= s.drop_first().insert(0, s.first()));
        vstd::seq_lib::to_multiset_insert(t, 0, s.first());
        vstd::seq_lib::to_multiset_insert(s.drop_first(), 0, s.first());
        assert(seq_insert_by(s, x, leq).to_multiset() =~= s.to_multiset().insert(x));
    } else {
        assert(seq_insert_by(s, x, leq) =~= s.insert(0, x));
        vstd::seq_lib::to_multiset_insert(s, 0, x);
    }
}

/// Inserting into a sorted sequence keeps it sorted.
pub proof fn lemma_insert_sorted<A>(s: Seq<A>, x: A, leq: spec_fn(A, A) -> bool)
    requires
        sorted_by(s, leq),
        strongly_connected(leq),
        transitive(leq),
    ensures
        sorted_by(seq_insert_by(s, x, leq), leq),
    decreases s.len(),
{
    if s.len() == 0 {
    } else if leq(s.first(), x) {
        assert(sorted_by(s.drop_first(), leq));
        lemma_insert_sorted(s.drop_first(), x, leq);
        let t = seq_insert_by(s.drop_first(), x, leq);
        lemma_insert_multiset(s.drop_first(), x, leq);
        broadcast use vstd::seq_lib::group_to_multiset_ensures;

        let r = seq_insert_by(s, x, leq);
        assert forall|i: int, j: int| 0 <= i < j < r.len() implies #[trigger] leq(r[i], r[j]) by {
            if i == 0 {
                assert(r[0] == s.first());
                assert(t.to_multiset().contains(t[j - 1]));
                if t.to_multiset().contains(t[j - 1]) {
                    if t[j - 1] == x {
                        assert(leq(s.first(), x));
                    } else {
                        assert(s.drop_first().to_multiset().contains(t[j - 1]));
                        let k = choose|k: int|
                            0 <= k < s.drop_first().len() && s.drop_first()[k] == t[j - 1];
                        assert(leq(s[0], s[k + 1]));
                    }
                }
            } else {
                assert(r[i] == t[i - 1] && r[j] == t[j - 1]);
            }
        }
    } else {
        let r = seq_insert_by(s, x, leq);
        assert(leq(x, s.first()));
        assert forall|i: int, j: int| 0 <= i < j < r.len() implies #[trigger] leq(r[i], r[j]) by {
            if i == 0 {
                if j == 1 {
                    assert(leq(x, s.first()));
                } else {
                    assert(leq(s[0], s[j - 1]));
                    assert(leq(x, s[j - 1]));
                }
            } else {
                assert(leq(s[i - 1], s[j - 1]));
            }
        }
    }
}

/// The sort's output is sorted and holds the same contents as its input.
pub proof fn lemma_sort_ensures<A>(s: Seq<A>, leq: spec_fn(A, A) -> bool)
    requires
        strongly_connected(leq),
        transitive(leq),
    ensures
        insertion_sort_by(s, leq).len() == s.len(),
        insertion_sort_by(s, leq).to_multiset() == s.to_multiset(),
        sorted_by(insertion_sort_by(s, leq), leq),
    decreases s.len(),
{
    broadcast use vstd::seq_lib::group_to_multiset_ensures;

    if s.len() == 0 {
    } else {
        lemma_sort_ensures(s.drop_last(), leq);
        lemma_insert_multiset(insertion_sort_by(s.drop_last(), leq), s.last(), leq);
        lemma_insert_sorted(insertion_sort_by(s.drop_last(), leq), s.last(), leq);
        assert(s =~= s.drop_last().push(s.last()));
        assert(s.drop_last().push(s.last()).to_multiset() == s.drop_last().to_multiset().insert(
            s.last(),
        ));
    }
}

/// When `x` may come behind every element, insertion appends.
pub proof fn lemma_insert_after_all<A>(s: Seq<A>, x: A, leq: spec_fn(A, A) -> bool)
    requires
        forall|i: int| 0 <= i < s.len() ==> leq(#[trigger] s[i], x),
    ensures
        seq_insert_by(s, x, leq) == s.push(x),
    decreases s.len(),
{
    if s.len() == 0 {
        assert(seq_insert_by(s, x, leq) =~= s.push(x));
    } else {
        assert(leq(s[0], x));
        lemma_insert_after_all(s.drop_first(), x, leq);
        assert(seq_insert_by(s, x, leq) =~= s.push(x));
    }
}

/// Sorting a sorted sequence gives it back unchanged.
pub proof fn lemma_sort_of_sorted<A>(s: Seq<A>, leq: spec_fn(A, A) -> bool)
    requires
        sorted_by(s, leq),
        strongly_connected(leq),
    ensures
        insertion_sort_by(s, leq) == s,
    decreases s.len(),
{
    if s.len() == 0 {
    } else {
        assert(sorted_by(s.drop_last(), leq));
        lemma_sort_of_sorted(s.drop_last(), leq);
        assert forall|i: int| 0 <= i < s.drop_last().len() implies leq(
            #[trigger] s.drop_last()[i],
            s.last(),
        ) by {
            assert(leq(s[i], s[s.len() - 1]));
        }
        lemma_insert_after_all(s.drop_last(), s.last(), leq);
        assert(insertion_sort_by(s, leq) =~= s);
    }
}

/// Sorting twice is the same as sorting once.
pub proof fn lemma_sort_idempotent<A>(s: Seq<A>, leq: spec_fn(A, A) -> bool)
    requires
        strongly_connected(leq),
        transitive(leq),
    ensures
        insertion_sort_by(insertion_sort_by(s, leq), leq) == insertion_sort_by(s, leq),
{
    lemma_sort_ensures(s, leq);
    lemma_sort_of_sorted(insertion_sort_by(s, leq), leq);
}

/// Where an executable scan stops is where the specification inserts:
/// `j` is the first position whose element may not stay in front of `x`.
pub proof fn lemma_insert_at<A>(s: Seq<A>, x: A, leq: spec_fn(A, A) -> bool, j: int)
    requires
        0 <= j <= s.len(),
        forall|k: int| 0 <= k < j ==> leq(#[trigger] s[k], x),
        j == s.len() || !leq(s[j], x),
    ensures
        seq_insert_by(s, x, leq) == s.subrange(0, j) + seq![x] + s.subrange(j, s.len() as int),
    decreases s.len(),
{
    if s.len() == 0 {
        assert(seq_insert_by(s, x, leq) =~= s.subrange(0, j) + seq![x] + s.subrange(
            j,
            s.len() as int,
        ));
    } else if j == 0 {
        assert(!leq(s.first(), x));
        assert(seq_insert_by(s, x, leq) =~= s.subrange(0, j) + seq![x] + s.subrange(
            j,
            s.len() as int,
        ));
    } else {
        assert(leq(s[0], x));
        assert forall|k: int| 0 <= k < j - 1 implies leq(#[trigger] s.drop_first()[k], x) by {
            assert(s.drop_first()[k] == s[k + 1]);
        }
        lemma_insert_at(s.drop_first(), x, leq, j - 1);
        assert(seq_insert_by(s, x, leq) =~= s.subrange(0, j) + seq![x] + s.subrange(
            j,
            s.len() as int,
        ));
    }
}

} // verus!
