//! Box geometry: whisker ends, outliers and the regions that samples fall in.
use vstd::prelude::*;
use crate::quantile::QuantileSummary;
use crate::sorting::{sort_samples, sorted_samples};

verus! {

/// The outlier thresholds: a sample strictly outside `lower..=upper` is an outlier.
#[derive(Debug, Clone, Copy, PartialEq, Eq, Structural)]
pub struct Fences {
    pub lower: i64,
    pub upper: i64,
}

/// Where a sample falls relative to the box and the fences.
#[derive(Debug, Clone, Copy, PartialEq, Eq, Structural)]
pub enum Region {
    /// Inside the fences, below the first quartile.
    LowerWhisker,
    /// Between the first and third quartiles, both included.
    Box,
    /// Inside the fences, above the third quartile.
    UpperWhisker,
    /// Strictly outside the fences.
    Outlier,
}

/// Drawable parts of one box plot, in data coordinates.
#[derive(Debug, PartialEq, Eq)]
pub struct BoxGeometry {
    /// Left edge of the box: the first quartile.
    pub box_low: i64,
    /// Right edge of the box: the third quartile.
    pub box_high: i64,
    /// Position of the median marker.
    pub median: i64,
    /// Outer end of the lower whisker, which runs to `box_low`.
    pub whisker_min: i64,
    /// Outer end of the upper whisker, which runs from `box_high`.
    pub whisker_max: i64,
    /// The outliers, in ascending order.
    pub outliers: Vec<i64>,
}

/// The sample lies strictly outside the fences.
pub open spec fn is_outlier(x: i64, f: Fences) -> bool {
    x < f.lower || x > f.upper
}

/// `is_outlier` as a filter predicate.
pub open spec fn outlier_pred(f: Fences) -> spec_fn(i64) -> bool {
    |x: i64| is_outlier(x, f)
}

/// The region of a sample: outliers first, then by the quartiles.
pub open spec fn region_of(x: i64, q: QuantileSummary, f: Fences) -> Region {
    if is_outlier(x, f) {
        Region::Outlier
    } else if x < q.q1 {
        Region::LowerWhisker
    } else if x <= q.q3 {
        Region::Box
    } else {
        Region::UpperWhisker
    }
}

/// The first element of `t` that is at least `bound`.
pub open spec fn first_at_least(t: Seq<i64>, bound: i64) -> Option<i64>
    decreases t.len(),
{
    if t.len() == 0 {
        None
    } else if t[0] >= bound {
        Some(t[0])
    } else {
        first_at_least(t.drop_first(), bound)
    }
}

/// The last element of `t` that is at most `bound`.
pub open spec fn last_at_most(t: Seq<i64>, bound: i64) -> Option<i64>
    decreases t.len(),
{
    if t.len() == 0 {
        None
    } else if t.last() <= bound {
        Some(t.last())
    } else {
        last_at_most(t.drop_last(), bound)
    }
}

/// The smallest sample not below the lower fence, or the first quartile if there is none.
pub open spec fn whisker_min_of(s: Seq<i64>, q: QuantileSummary, f: Fences) -> i64 {
    match first_at_least(sorted_samples(s), f.lower) {
        Some(x) => x,
        None => q.q1,
    }
}

/// The largest sample not above the upper fence, or the third quartile if there is none.
pub open spec fn whisker_max_of(s: Seq<i64>, q: QuantileSummary, f: Fences) -> i64 {
    match last_at_most(sorted_samples(s), f.upper) {
        Some(x) => x,
        None => q.q3,
    }
}

/// The samples strictly outside the fences, in ascending order.
pub open spec fn outliers_of(s: Seq<i64>, f: Fences) -> Seq<i64> {
    sorted_samples(s).filter(outlier_pred(f))
}

/// Places one sample relative to the box and the fences.
pub fn classify(x: i64, summary: &QuantileSummary, fences: &Fences) -> (r: Region)
    ensures
        r == region_of(x, *summary, *fences),
{
    if x < fences.lower || x > fences.upper {
        Region::Outlier
    } else if x < summary.q1 {
        Region::LowerWhisker
    } else if x <= summary.q3 {
        Region::Box
    } else {
        Region::UpperWhisker
    }
}

/// Builds the box, median, whiskers and outlier list of a sample set.
pub fn build(samples: &Vec<i64>, summary: &QuantileSummary, fences: &Fences) -> (g: BoxGeometry)
    ensures
        g.box_low == summary.q1,
        g.box_high == summary.q3,
        g.median == summary.median,
        g.whisker_min == whisker_min_of(samples@, *summary, *fences),
        g.whisker_max == whisker_max_of(samples@, *summary, *fences),
        g.outliers@ == outliers_of(samples@, *fences),
{
    let t = sort_samples(samples);
    let n = t.len();
    let ghost lower = fences.lower;
    let ghost upper = fences.upper;
    proof {
        assert(t@.subrange(0, n as int) =~= t@);
    }

    let mut i: usize = 0;
    while i < n && t[i] < fences.lower
        invariant
            n == t.len(),
            lower == fences.lower,
            i <= n,
            first_at_least(t@, lower) == first_at_least(t@.subrange(i as int, n as int), lower),
        decreases n - i,
    {
        proof {
            assert(t@.subrange(i as int, n as int).drop_first() =~= t@.subrange(
                i + 1,
                n as int,
            ));
        }
        i = i + 1;
    }
    let whisker_min = if i < n {
        t[i]
    } else {
        summary.q1
    };

    let mut j: usize = n;
    while j > 0 && t[j - 1] > fences.upper
        invariant
            n == t.len(),
            upper == fences.upper,
            j <= n,
            last_at_most(t@, upper) == last_at_most(t@.subrange(0, j as int), upper),
        decreases j,
    {
        proof {
            assert(t@.subrange(0, j as int).drop_last() =~= t@.subrange(0, j - 1));
        }
        j = j - 1;
    }
    let whisker_max = if j > 0 {
        t[j - 1]
    } else {
        summary.q3
    };

    let mut outliers: Vec<i64> = Vec::new();
    for k in 0..n
        invariant
            n == t.len(),
            outliers@ == t@.subrange(0, k as int).filter(outlier_pred(*fences)),
    {
        let x = t[k];
        proof {
            reveal(Seq::filter);
            assert(t@.subrange(0, k + 1).drop_last() =~= t@.subrange(0, k as int));
        }
        if classify(x, summary, fences) == Region::Outlier {
            outliers.push(x);
        }
    }
    proof {
        assert(t@.subrange(0, n as int) =~= t@);
    }
    BoxGeometry {
        box_low: summary.q1,
        box_high: summary.q3,
        median: summary.median,
        whisker_min,
        whisker_max,
        outliers,
    }
}

} // verus!
