//! Laws that relate the quantile engine and the geometry builder.
use vstd::prelude::*;
use crate::geometry::{
    first_at_least, is_outlier, last_at_most, outlier_pred, outliers_of, region_of,
    whisker_max_of, whisker_min_of, Fences, Region,
};
use crate::quantile::{lemma_indices_ordered, summary_of, QuantileSummary};
use crate::sorting::{is_sorted, lemma_sorted_is_unique, lemma_sorted_samples, sorted_samples};

verus! {

/// Among sorted samples, the first one at or above a bound exists when some sample
/// reaches it, and is no greater than that sample.
proof fn lemma_first_at_least_below(t: Seq<i64>, bound: i64, k: int)
    requires
        is_sorted(t),
        0 <= k < t.len(),
        t[k] >= bound,
    ensures
        first_at_least(t, bound) is Some,
        first_at_least(t, bound)->0 <= t[k],
    decreases t.len(),
{
    if t[0] < bound {
        let u = t.drop_first();
        assert(is_sorted(u)) by {
            assert forall|i: int, j: int| 0 <= i <= j < u.len() implies u[i] <= u[j] by {
                assert(t[i + 1] <= t[j + 1]);
            }
        }
        assert(u[k - 1] == t[k]);
        lemma_first_at_least_below(u, bound, k - 1);
    } else {
        assert(t[0] <= t[k]);
    }
}

/// Among sorted samples, the last one at or below a bound exists when some sample
/// stays under it, and is no smaller than that sample.
proof fn lemma_last_at_most_above(t: Seq<i64>, bound: i64, k: int)
    requires
        is_sorted(t),
        0 <= k < t.len(),
        t[k] <= bound,
    ensures
        last_at_most(t, bound) is Some,
        last_at_most(t, bound)->0 >= t[k],
    decreases t.len(),
{
    if t.last() > bound {
        let u = t.drop_last();
        assert(is_sorted(u)) by {
            assert forall|i: int, j: int| 0 <= i <= j < u.len() implies u[i] <= u[j] by {
                assert(t[i] <= t[j]);
            }
        }
        assert(u[k] == t[k]);
        lemma_last_at_most_above(u, bound, k);
    } else {
        assert(t[k] <= t[t.len() - 1]);
    }
}

proof fn lemma_first_at_least_found(t: Seq<i64>, bound: i64)
    ensures
        first_at_least(t, bound) is None ==> forall|j: int| 0 <= j < t.len() ==> t[j] < bound,
        first_at_least(t, bound) is Some ==> exists|k: int|
            0 <= k < t.len() && t[k] == first_at_least(t, bound)->0 && t[k] >= bound && forall|
                j: int,
            | 0 <= j < k ==> t[j] < bound,
    decreases t.len(),
{
    if t.len() > 0 && t[0] < bound {
        let u = t.drop_first();
        lemma_first_at_least_found(u, bound);
        assert forall|j: int| 0 < j < t.len() implies t[j] == u[j - 1] by {}
        if first_at_least(u, bound) is Some {
            let k = choose|k: int|
                0 <= k < u.len() && u[k] == first_at_least(u, bound)->0 && u[k] >= bound && forall|
                    j: int,
                | 0 <= j < k ==> u[j] < bound;
            assert(t[k + 1] == u[k]);
            assert forall|j: int| 0 <= j < k + 1 implies t[j] < bound by {
                if j > 0 {
                    assert(t[j] == u[j - 1]);
                }
            }
        }
    } else if t.len() > 0 {
        assert(t[0] == first_at_least(t, bound)->0);
    }
}

proof fn lemma_last_at_most_found(t: Seq<i64>, bound: i64)
    ensures
        last_at_most(t, bound) is None ==> forall|j: int| 0 <= j < t.len() ==> t[j] > bound,
        last_at_most(t, bound) is Some ==> exists|k: int|
            0 <= k < t.len() && t[k] == last_at_most(t, bound)->0 && t[k] <= bound && forall|
                j: int,
            | k < j < t.len() ==> t[j] > bound,
    decreases t.len(),
{
    if t.len() > 0 && t.last() > bound {
        let u = t.drop_last();
        lemma_last_at_most_found(u, bound);
        assert forall|j: int| 0 <= j < u.len() implies t[j] == u[j] by {}
    } else if t.len() > 0 {
        assert(t[t.len() - 1] == last_at_most(t, bound)->0);
    }
}

/// The lower whisker ends at the smallest sample not below the lower fence, and at
/// the first quartile when every sample is below it; the upper whisker ends at the
/// largest sample not above the upper fence, and at the third quartile when every
/// sample is above it.
pub proof fn lemma_whisker_ends(s: Seq<i64>, q: QuantileSummary, f: Fences)
    ensures
        (exists|i: int| 0 <= i < s.len() && s[i] >= f.lower) ==> {
            let w = whisker_min_of(s, q, f);
            &&& s.contains(w)
            &&& w >= f.lower
            &&& forall|i: int| 0 <= i < s.len() && s[i] >= f.lower ==> w <= s[i]
        },
        (forall|i: int| 0 <= i < s.len() ==> s[i] < f.lower) ==> whisker_min_of(s, q, f) == q.q1,
        (exists|i: int| 0 <= i < s.len() && s[i] <= f.upper) ==> {
            let w = whisker_max_of(s, q, f);
            &&& s.contains(w)
            &&& w <= f.upper
            &&& forall|i: int| 0 <= i < s.len() && s[i] <= f.upper ==> w >= s[i]
        },
        (forall|i: int| 0 <= i < s.len() ==> s[i] > f.upper) ==> whisker_max_of(s, q, f) == q.q3,
{
    broadcast use vstd::seq_lib::group_to_multiset_ensures;

    let t = sorted_samples(s);
    lemma_sorted_samples(s);
    lemma_first_at_least_found(t, f.lower);
    lemma_last_at_most_found(t, f.upper);
    assert forall|x: i64| s.contains(x) <==> t.contains(x) by {
        assert(s.contains(x) <==> s.to_multiset().count(x) > 0);
        assert(t.contains(x) <==> t.to_multiset().count(x) > 0);
    }
    assert forall|i: int| 0 <= i < s.len() implies exists|j: int|
        0 <= j < t.len() && t[j] == #[trigger] s[i] by {
        assert(s.contains(s[i]));
        assert(t.contains(s[i]));
    }
    if first_at_least(t, f.lower) is Some {
        let k = choose|k: int|
            0 <= k < t.len() && t[k] == first_at_least(t, f.lower)->0 && t[k] >= f.lower && forall|
                j: int,
            | 0 <= j < k ==> t[j] < f.lower;
        assert(t.contains(t[k]));
        assert forall|i: int| 0 <= i < s.len() && s[i] >= f.lower implies t[k] <= s[i] by {
            let j = choose|j: int| 0 <= j < t.len() && t[j] == s[i];
            if j < k {
            } else {
                assert(t[k] <= t[j]);
            }
        }
    } else {
        assert forall|i: int| 0 <= i < s.len() implies s[i] < f.lower by {
            let j = choose|j: int| 0 <= j < t.len() && t[j] == s[i];
        }
    }
    if last_at_most(t, f.upper) is Some {
        let k = choose|k: int|
            0 <= k < t.len() && t[k] == last_at_most(t, f.upper)->0 && t[k] <= f.upper && forall|
                j: int,
            | k < j < t.len() ==> t[j] > f.upper;
        assert(t.contains(t[k]));
        assert forall|i: int| 0 <= i < s.len() && s[i] <= f.upper implies t[k] >= s[i] by {
            let j = choose|j: int| 0 <= j < t.len() && t[j] == s[i];
            if j > k {
            } else {
                assert(t[j] <= t[k]);
            }
        }
    } else {
        assert forall|i: int| 0 <= i < s.len() implies s[i] > f.upper by {
            let j = choose|j: int| 0 <= j < t.len() && t[j] == s[i];
        }
    }
}

/// The quartiles of a non-empty sample set are samples of it and lie in order.
pub proof fn lemma_quartiles_ordered(s: Seq<i64>)
    requires
        s.len() > 0,
    ensures
        summary_of(s).q1 <= summary_of(s).median <= summary_of(s).q3,
        s.contains(summary_of(s).q1),
        s.contains(summary_of(s).median),
        s.contains(summary_of(s).q3),
{
    broadcast use vstd::seq_lib::group_to_multiset_ensures;

    let t = sorted_samples(s);
    let n = s.len() as int;
    lemma_sorted_samples(s);
    lemma_indices_ordered(n);
    assert(t[n / 4] <= t[n / 2]);
    assert(t[n / 2] <= t[(3 * n) / 4]);
    assert forall|k: int| 0 <= k < n implies s.contains(#[trigger] t[k]) by {
        assert(t.contains(t[k]));
        assert(t.to_multiset().count(t[k]) > 0);
    }
}

/// For a non-empty sample set whose fences enclose the box, the whiskers and the
/// quartiles lie in order: `whisker_min <= q1 <= median <= q3 <= whisker_max`.
pub proof fn lemma_box_ordering(s: Seq<i64>, f: Fences)
    requires
        s.len() > 0,
        f.lower <= summary_of(s).q1,
        summary_of(s).q3 <= f.upper,
    ensures
        ({
            let q = summary_of(s);
            whisker_min_of(s, q, f) <= q.q1 <= q.median <= q.q3 <= whisker_max_of(s, q, f)
        }),
{
    let t = sorted_samples(s);
    let n = s.len() as int;
    lemma_sorted_samples(s);
    lemma_indices_ordered(n);
    lemma_first_at_least_below(t, f.lower, n / 4);
    lemma_last_at_most_above(t, f.upper, (3 * n) / 4);
    assert(t[n / 4] <= t[n / 2]);
    assert(t[n / 2] <= t[(3 * n) / 4]);
}

/// How many samples fall in a region.
pub open spec fn region_count(s: Seq<i64>, q: QuantileSummary, f: Fences, r: Region) -> nat {
    s.filter(|x: i64| region_of(x, q, f) == r).len()
}

proof fn lemma_region_counts_sum(s: Seq<i64>, q: QuantileSummary, f: Fences)
    ensures
        region_count(s, q, f, Region::LowerWhisker) + region_count(s, q, f, Region::Box)
            + region_count(s, q, f, Region::UpperWhisker) + region_count(s, q, f, Region::Outlier)
            == s.len(),
    decreases s.len(),
{
    reveal(Seq::filter);
    if s.len() > 0 {
        lemma_region_counts_sum(s.drop_last(), q, f);
    }
}

/// Rearranging a sequence does not change how many of its elements pass a filter.
proof fn lemma_filter_len_rearranged(s1: Seq<i64>, s2: Seq<i64>, p: spec_fn(i64) -> bool)
    requires
        s1.to_multiset() == s2.to_multiset(),
    ensures
        s1.filter(p).len() == s2.filter(p).len(),
    decreases s1.len(),
{
    broadcast use vstd::seq_lib::group_to_multiset_ensures, vstd::multiset::group_multiset_axioms;

    reveal(Seq::filter);
    if s1.len() > 0 {
        let x = s1.last();
        let rest = s1.drop_last();
        assert(s1 =~= rest.push(x));
        assert(s1.to_multiset().count(x) > 0);
        assert(s2.contains(x));
        let i = choose|i: int| 0 <= i < s2.len() && s2[i] == x;
        let r = s2.remove(i);
        assert(r.to_multiset() =~= rest.to_multiset());
        lemma_filter_len_rearranged(rest, r, p);
        let a = s2.subrange(0, i);
        let b = s2.subrange(i + 1, s2.len() as int);
        assert(s2 =~= a + (seq![x] + b));
        assert(r =~= a + b);
        Seq::filter_distributes_over_add(a, seq![x] + b, p);
        Seq::filter_distributes_over_add(seq![x], b, p);
        Seq::filter_distributes_over_add(a, b, p);
        assert(seq![x].drop_last() =~= Seq::<i64>::empty());
        let one: nat = if p(x) { 1 } else { 0 };
        assert(seq![x].last() == x);
        assert(Seq::<i64>::empty().filter(p).len() == 0);
        assert(seq![x].filter(p).len() == one);
        assert(s1.filter(p).len() == rest.filter(p).len() + one);
        assert(s2.filter(p) == a.filter(p) + (seq![x].filter(p) + b.filter(p)));
        assert(r.filter(p) == a.filter(p) + b.filter(p));
    } else {
        assert(s2.to_multiset().len() == 0);
    }
}

/// Every sample lies in exactly one of four regions: inside the fences below the box,
/// in the box, inside the fences above the box, or outside the fences; the four
/// counts add up to the number of samples, and the geometry lists exactly as many
/// outliers as there are samples in the outlier region.
pub proof fn lemma_partition(s: Seq<i64>, q: QuantileSummary, f: Fences)
    requires
        f.lower <= q.q1 <= q.q3 <= f.upper,
    ensures
        forall|x: i64|
            (#[trigger] region_of(x, q, f) == Region::LowerWhisker <==> f.lower <= x < q.q1)
                && (region_of(x, q, f) == Region::Box <==> q.q1 <= x <= q.q3) && (region_of(
                x,
                q,
                f,
            ) == Region::UpperWhisker <==> q.q3 < x <= f.upper) && (region_of(x, q, f)
                == Region::Outlier <==> is_outlier(x, f)),
        region_count(s, q, f, Region::LowerWhisker) + region_count(s, q, f, Region::Box)
            + region_count(s, q, f, Region::UpperWhisker) + region_count(s, q, f, Region::Outlier)
            == s.len(),
        outliers_of(s, f).len() == region_count(s, q, f, Region::Outlier),
{
    lemma_region_counts_sum(s, q, f);
    let p = |x: i64| region_of(x, q, f) == Region::Outlier;
    assert(p =~= outlier_pred(f));
    lemma_sorted_samples(s);
    lemma_filter_len_rearranged(sorted_samples(s), s, p);
}

/// The summary and the geometry depend on the samples as a multiset only: two
/// arrangements of the same values, or the same input twice, give identical results.
pub proof fn lemma_order_irrelevant(s1: Seq<i64>, s2: Seq<i64>, f: Fences)
    requires
        s1.to_multiset() == s2.to_multiset(),
    ensures
        sorted_samples(s1) == sorted_samples(s2),
        s1.len() == s2.len(),
        s1.len() > 0 ==> summary_of(s1) == summary_of(s2),
        forall|q: QuantileSummary|
            whisker_min_of(s1, q, f) == #[trigger] whisker_min_of(s2, q, f) && whisker_max_of(
                s1,
                q,
                f,
            ) == whisker_max_of(s2, q, f),
        outliers_of(s1, f) == outliers_of(s2, f),
{
    lemma_sorted_samples(s1);
    lemma_sorted_samples(s2);
    lemma_sorted_is_unique(s2, sorted_samples(s1));
}

} // verus!
