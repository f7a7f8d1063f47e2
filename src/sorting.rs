//! Ascending order of samples: a verified merge sort and the model it meets.
use vstd::prelude::*;
use vstd::relations::{sorted_by, total_ordering};
use vstd::seq_lib::{lemma_multiset_commutative, lemma_sorted_unique};

verus! {

broadcast use vstd::seq_lib::group_to_multiset_ensures, vstd::multiset::group_multiset_axioms;

/// The order in which samples are arranged: ascending keys.
pub open spec fn key_leq() -> spec_fn(i64, i64) -> bool {
    |a: i64, b: i64| a <= b
}

/// The samples in ascending order, ties kept side by side.
pub open spec fn sorted_samples(s: Seq<i64>) -> Seq<i64> {
    s.sort_by(key_leq())
}

/// Every element is no greater than any that follows it.
pub open spec fn is_sorted(t: Seq<i64>) -> bool {
    forall|i: int, j: int| 0 <= i <= j < t.len() ==> t[i] <= t[j]
}

proof fn lemma_key_leq_total()
    ensures
        total_ordering(key_leq()),
{
}

/// The ascending arrangement is sorted, holds the same samples, and has their number.
pub proof fn lemma_sorted_samples(s: Seq<i64>)
    ensures
        is_sorted(sorted_samples(s)),
        sorted_samples(s).to_multiset() == s.to_multiset(),
        sorted_samples(s).len() == s.len(),
{
    lemma_key_leq_total();
    s.lemma_sort_by_ensures(key_leq());
    let t = sorted_samples(s);
    assert forall|i: int, j: int| 0 <= i <= j < t.len() implies t[i] <= t[j] by {
        if i < j {
            assert(key_leq()(t[i], t[j]));
        }
    }
    assert(t.to_multiset().len() == s.to_multiset().len());
}

/// A sorted arrangement of the same samples is the ascending arrangement.
pub proof fn lemma_sorted_is_unique(s: Seq<i64>, t: Seq<i64>)
    requires
        is_sorted(t),
        t.to_multiset() == s.to_multiset(),
    ensures
        t == sorted_samples(s),
{
    lemma_key_leq_total();
    lemma_sorted_samples(s);
    let u = sorted_samples(s);
    assert(sorted_by(t, key_leq())) by {
        assert forall|i: int, j: int| 0 <= i < j < t.len() implies #[trigger] key_leq()(
            t[i],
            t[j],
        ) by {}
    }
    assert(sorted_by(u, key_leq())) by {
        assert forall|i: int, j: int| 0 <= i < j < u.len() implies #[trigger] key_leq()(
            u[i],
            u[j],
        ) by {}
    }
    lemma_sorted_unique(t, u, key_leq());
}

/// Merges two sorted vectors into one sorted vector holding both.
fn merge(a: &Vec<i64>, b: &Vec<i64>) -> (r: Vec<i64>)
    requires
        is_sorted(a@),
        is_sorted(b@),
        a.len() + b.len() <= usize::MAX,
    ensures
        is_sorted(r@),
        r@.to_multiset() == a@.to_multiset().add(b@.to_multiset()),
{
    let mut r: Vec<i64> = Vec::new();
    let mut i: usize = 0;
    let mut j: usize = 0;
    while i < a.len() || j < b.len()
        invariant
            is_sorted(a@),
            is_sorted(b@),
            a.len() + b.len() <= usize::MAX,
            i <= a.len(),
            j <= b.len(),
            r.len() == i + j,
            is_sorted(r@),
            r@.to_multiset() == a@.subrange(0, i as int).to_multiset().add(
                b@.subrange(0, j as int).to_multiset(),
            ),
            r.len() > 0 && i < a.len() ==> r@.last() <= a@[i as int],
            r.len() > 0 && j < b.len() ==> r@.last() <= b@[j as int],
        decreases a.len() + b.len() - i - j,
    {
        if j >= b.len() || (i < a.len() && a[i] <= b[j]) {
            let x = a[i];
            proof {
                assert(a@.subrange(0, i + 1) =~= a@.subrange(0, i as int).push(x));
            }
            r.push(x);
            i = i + 1;
        } else {
            let x = b[j];
            proof {
                assert(b@.subrange(0, j + 1) =~= b@.subrange(0, j as int).push(x));
            }
            r.push(x);
            j = j + 1;
        }
    }
    proof {
        assert(a@.subrange(0, i as int) =~= a@);
        assert(b@.subrange(0, j as int) =~= b@);
    }
    r
}

/// Sorts the samples at positions `lo..hi`.
fn sort_range(v: &Vec<i64>, lo: usize, hi: usize) -> (r: Vec<i64>)
    requires
        lo <= hi <= v.len(),
    ensures
        is_sorted(r@),
        r@.to_multiset() == v@.subrange(lo as int, hi as int).to_multiset(),
    decreases hi - lo,
{
    if hi - lo <= 1 {
        let mut r: Vec<i64> = Vec::new();
        if hi > lo {
            r.push(v[lo]);
        }
        proof {
            assert(r@ =~= v@.subrange(lo as int, hi as int));
        }
        r
    } else {
        let mid: usize = lo + (hi - lo) / 2;
        let a = sort_range(v, lo, mid);
        let b = sort_range(v, mid, hi);
        proof {
            let s = v@.subrange(lo as int, hi as int);
            assert(s =~= v@.subrange(lo as int, mid as int) + v@.subrange(mid as int, hi as int));
            lemma_multiset_commutative(
                v@.subrange(lo as int, mid as int),
                v@.subrange(mid as int, hi as int),
            );
            assert(a.len() == a@.to_multiset().len());
            assert(b.len() == b@.to_multiset().len());
        }
        merge(&a, &b)
    }
}

/// Returns the samples in ascending order, in O(n log n) comparisons.
pub fn sort_samples(samples: &Vec<i64>) -> (r: Vec<i64>)
    ensures
        r@ == sorted_samples(samples@),
{
    let r = sort_range(samples, 0, samples.len());
    proof {
        assert(samples@.subrange(0, samples@.len() as int) =~= samples@);
        lemma_sorted_is_unique(samples@, r@);
    }
    r
}

} // verus!
