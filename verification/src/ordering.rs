//! Ascending rearrangement of fixed-point samples.
use crate::fixed::Fixed;
use vstd::multiset::Multiset;
use vstd::prelude::*;
use vstd::relations::{sorted_by, total_ordering};
use vstd::seq_lib::{lemma_multiset_commutative, lemma_sorted_unique};

verus! {

/// The order in which samples are ranked: by value, smallest first.
pub open spec fn raw_leq() -> spec_fn(Fixed, Fixed) -> bool {
    |a: Fixed, b: Fixed| a.raw <= b.raw
}

/// The samples of `s` rearranged in ascending order.
pub open spec fn ascending(s: Seq<Fixed>) -> Seq<Fixed> {
    s.sort_by(raw_leq())
}

/// `sorted` holds exactly the samples of `s`, smallest first.
pub open spec fn is_ascending_arrangement(sorted: Seq<Fixed>, s: Seq<Fixed>) -> bool {
    &&& sorted_by(sorted, raw_leq())
    &&& sorted.to_multiset() == s.to_multiset()
}

/// Ranking by value is a total order on fixed-point numbers.
pub proof fn lemma_raw_leq_total()
    ensures
        total_ordering(raw_leq()),
{
    let leq = raw_leq();
    assert forall|x: Fixed, y: Fixed| #[trigger] leq(x, y) && #[trigger] leq(y, x) implies x
        == y by {
        assert(x.raw == y.raw);
    }
}

/// `ascending` yields an ascending arrangement, and it is the only one.
pub proof fn lemma_ascending_is(sorted: Seq<Fixed>, s: Seq<Fixed>)
    ensures
        is_ascending_arrangement(ascending(s), s),
        ascending(s).len() == s.len(),
        is_ascending_arrangement(sorted, s) ==> sorted == ascending(s),
{
    lemma_raw_leq_total();
    s.lemma_sort_by_ensures(raw_leq());
    s.to_multiset_ensures();
    ascending(s).to_multiset_ensures();
    if is_ascending_arrangement(sorted, s) {
        lemma_sorted_unique(sorted, ascending(s), raw_leq());
    }
}

/// Appending the next sample of an ascending run to what has been merged so
/// far, none of which is larger, keeps the merged part ascending, accounts
/// for the sample, and leaves nothing merged that is larger than the sample
/// after it.
proof fn lemma_merge_step(merged: Seq<Fixed>, run: Seq<Fixed>, taken: int, rest: Multiset<Fixed>)
    requires
        0 <= taken < run.len(),
        sorted_by(run, raw_leq()),
        sorted_by(merged, raw_leq()),
        merged.to_multiset() == run.take(taken).to_multiset().add(rest),
        forall|k: int| 0 <= k < merged.len() ==> (#[trigger] merged[k]).raw <= run[taken].raw,
    ensures
        sorted_by(merged.push(run[taken]), raw_leq()),
        merged.push(run[taken]).to_multiset() == run.take(taken + 1).to_multiset().add(rest),
        forall|k: int|
            0 <= k <= merged.len() && taken + 1 < run.len() ==> (#[trigger] merged.push(
                run[taken],
            )[k]).raw <= run[taken + 1].raw,
{
    broadcast use vstd::multiset::group_multiset_axioms;
    broadcast use vstd::multiset::group_multiset_properties;

    let x = run[taken];
    let grown = merged.push(x);
    assert(run.take(taken + 1) =~= run.take(taken).push(x));
    vstd::seq_lib::to_multiset_build(merged, x);
    vstd::seq_lib::to_multiset_build(run.take(taken), x);
    assert(grown.to_multiset() =~= run.take(taken + 1).to_multiset().add(rest));
    assert forall|a: int, b: int| 0 <= a < b < grown.len() implies (raw_leq())(
        grown[a],
        grown[b],
    ) by {
        if b < merged.len() {
            assert((raw_leq())(merged[a], merged[b]));
        } else {
            assert(merged[a].raw <= x.raw);
        }
    }
    assert forall|k: int| 0 <= k <= merged.len() && taken + 1 < run.len() implies (
    #[trigger] grown[k]).raw <= run[taken + 1].raw by {
        assert((raw_leq())(run[taken], run[taken + 1]));
        if k < merged.len() {
            assert(merged[k].raw <= x.raw);
        }
    }
}

/// Merges two ascending runs into one.
fn merge_runs(left: &Vec<Fixed>, right: &Vec<Fixed>) -> (out: Vec<Fixed>)
    requires
        sorted_by(left@, raw_leq()),
        sorted_by(right@, raw_leq()),
        left@.len() + right@.len() <= usize::MAX,
    ensures
        sorted_by(out@, raw_leq()),
        out@.to_multiset() == left@.to_multiset().add(right@.to_multiset()),
        out@.len() == left@.len() + right@.len(),
{
    broadcast use vstd::multiset::group_multiset_axioms;
    broadcast use vstd::seq_lib::group_to_multiset_ensures;

    let mut out: Vec<Fixed> = Vec::new();
    let mut i: usize = 0;
    let mut j: usize = 0;
    assert(left@.take(0) =~= Seq::<Fixed>::empty());
    assert(right@.take(0) =~= Seq::<Fixed>::empty());
    assert(out@.to_multiset() =~= left@.take(0).to_multiset().add(right@.take(0).to_multiset()));
    while i < left.len() || j < right.len()
        invariant
            i <= left@.len(),
            j <= right@.len(),
            left@.len() + right@.len() <= usize::MAX,
            out@.len() == i + j,
            sorted_by(left@, raw_leq()),
            sorted_by(right@, raw_leq()),
            sorted_by(out@, raw_leq()),
            out@.to_multiset() == left@.take(i as int).to_multiset().add(
                right@.take(j as int).to_multiset(),
            ),
            forall|k: int|
                0 <= k < out@.len() && i < left@.len() ==> (#[trigger] out@[k]).raw
                    <= left@[i as int].raw,
            forall|k: int|
                0 <= k < out@.len() && j < right@.len() ==> (#[trigger] out@[k]).raw
                    <= right@[j as int].raw,
        decreases left@.len() - i + right@.len() - j,
    {
        let take_left = if i >= left.len() {
            false
        } else if j >= right.len() {
            true
        } else {
            left[i].raw <= right[j].raw
        };
        if take_left {
            proof {
                lemma_merge_step(out@, left@, i as int, right@.take(j as int).to_multiset());
            }
            out.push(left[i]);
            i = i + 1;
        } else {
            proof {
                assert(out@.to_multiset() =~= right@.take(j as int).to_multiset().add(
                    left@.take(i as int).to_multiset(),
                ));
                lemma_merge_step(out@, right@, j as int, left@.take(i as int).to_multiset());
                assert(right@.take(j + 1).to_multiset().add(left@.take(i as int).to_multiset())
                    =~= left@.take(i as int).to_multiset().add(right@.take(j + 1).to_multiset()));
            }
            out.push(right[j]);
            j = j + 1;
        }
    }
    assert(left@.take(i as int) =~= left@);
    assert(right@.take(j as int) =~= right@);
    out
}

/// Sorts the samples `v[lo..hi]` into a new vector.
fn sort_range(v: &Vec<Fixed>, lo: usize, hi: usize) -> (out: Vec<Fixed>)
    requires
        lo <= hi <= v@.len(),
    ensures
        is_ascending_arrangement(out@, v@.subrange(lo as int, hi as int)),
        out@.len() == hi - lo,
    decreases hi - lo,
{
    if hi - lo <= 1 {
        let mut out: Vec<Fixed> = Vec::new();
        if hi - lo == 1 {
            out.push(v[lo]);
        }
        assert(out@ =~= v@.subrange(lo as int, hi as int));
        out
    } else {
        let mid = lo + (hi - lo) / 2;
        let left = sort_range(v, lo, mid);
        let right = sort_range(v, mid, hi);
        let out = merge_runs(&left, &right);
        proof {
            let a = v@.subrange(lo as int, mid as int);
            let b = v@.subrange(mid as int, hi as int);
            assert(a + b =~= v@.subrange(lo as int, hi as int));
            lemma_multiset_commutative(a, b);
        }
        out
    }
}

/// Returns the samples of `v` in ascending order.
pub fn sort_ascending(v: &Vec<Fixed>) -> (out: Vec<Fixed>)
    ensures
        out@ == ascending(v@),
        out@.len() == v@.len(),
{
    let out = sort_range(v, 0, v.len());
    proof {
        assert(v@.subrange(0, v@.len() as int) =~= v@);
        lemma_ascending_is(out@, v@);
    }
    out
}

} // verus!
