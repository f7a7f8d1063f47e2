//! The quantile engine: quartiles by the nearest-rank-floor rule.
use vstd::prelude::*;
use crate::sorting::{lemma_sorted_samples, sort_samples, sorted_samples};

verus! {

/// Why no summary could be computed.
#[derive(Debug, Clone, Copy, PartialEq, Eq, Structural)]
pub enum StatsError {
    /// The sample set holds no value.
    EmptyInput,
}

/// Quartiles of a sample set, each one of its samples.
#[derive(Debug, Clone, Copy, PartialEq, Eq, Structural)]
pub struct QuantileSummary {
    pub q1: i64,
    pub median: i64,
    pub q3: i64,
}

/// Position of the first quartile in `n` sorted samples: `floor(n / 4)`.
pub open spec fn q1_index(n: int) -> int {
    n / 4
}

/// Position of the median in `n` sorted samples: `floor(n / 2)`.
pub open spec fn median_index(n: int) -> int {
    n / 2
}

/// Position of the third quartile in `n` sorted samples: `floor(3n / 4)`.
pub open spec fn q3_index(n: int) -> int {
    (3 * n) / 4
}

/// The quartiles of a non-empty sample set by the nearest-rank-floor rule.
pub open spec fn summary_of(s: Seq<i64>) -> QuantileSummary
    recommends
        s.len() > 0,
{
    let t = sorted_samples(s);
    QuantileSummary {
        q1: t[q1_index(s.len() as int)],
        median: t[median_index(s.len() as int)],
        q3: t[q3_index(s.len() as int)],
    }
}

/// The three positions lie in order inside `0..n`.
pub proof fn lemma_indices_ordered(n: int)
    requires
        n > 0,
    ensures
        0 <= q1_index(n) <= median_index(n) <= q3_index(n) < n,
{
}

/// Computes `floor(3n / 4)` without overflow.
fn three_quarters(n: usize) -> (r: usize)
    ensures
        r as int == q3_index(n as int),
{
    let q: usize = n / 4;
    let m: usize = n % 4;
    assert((3 * n as int) / 4 == 3 * q + (3 * m) / 4) by (nonlinear_arith)
        requires
            n as int == 4 * q + m,
            0 <= m < 4,
    ;
    q * 3 + m * 3 / 4
}

/// Computes the quartile summary of the samples, or reports an empty set.
pub fn compute(samples: &Vec<i64>) -> (r: Result<QuantileSummary, StatsError>)
    ensures
        samples@.len() == 0 ==> r == Err::<QuantileSummary, StatsError>(StatsError::EmptyInput),
        samples@.len() > 0 ==> r == Ok::<QuantileSummary, StatsError>(summary_of(samples@)),
{
    let n = samples.len();
    if n == 0 {
        return Err(StatsError::EmptyInput);
    }
    let sorted = sort_samples(samples);
    proof {
        lemma_sorted_samples(samples@);
        lemma_indices_ordered(n as int);
    }
    let q3_at = three_quarters(n);
    Ok(QuantileSummary { q1: sorted[n / 4], median: sorted[n / 2], q3: sorted[q3_at] })
}

} // verus!
