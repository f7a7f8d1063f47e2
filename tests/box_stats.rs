use boxplot::geometry::{build, classify, BoxGeometry, Fences, Region};
use boxplot::order_key::{sample_bits, sample_key};
use boxplot::quantile::{compute, QuantileSummary, StatsError};
use boxplot::sorting::sort_samples;

fn key(x: f64) -> i64 {
    sample_key(x.to_bits())
}

fn value(k: i64) -> f64 {
    f64::from_bits(sample_bits(k))
}

fn keys(xs: &[f64]) -> Vec<i64> {
    xs.iter().map(|&x| key(x)).collect()
}

struct Plot {
    q1: f64,
    median: f64,
    q3: f64,
    iqr: f64,
    lower: f64,
    upper: f64,
    whisker_min: f64,
    whisker_max: f64,
    outliers: Vec<f64>,
}

fn plot(xs: &[f64]) -> Result<Plot, StatsError> {
    let ks = keys(xs);
    let summary = compute(&ks)?;
    let q1 = value(summary.q1);
    let q3 = value(summary.q3);
    let iqr = q3 - q1;
    let lower = q1 - 1.5 * iqr;
    let upper = q3 + 1.5 * iqr;
    let fences = Fences { lower: key(lower), upper: key(upper) };
    let g = build(&ks, &summary, &fences);
    assert_eq!(g.box_low, summary.q1);
    assert_eq!(g.box_high, summary.q3);
    assert_eq!(g.median, summary.median);
    Ok(Plot {
        q1,
        median: value(summary.median),
        q3,
        iqr,
        lower,
        upper,
        whisker_min: value(g.whisker_min),
        whisker_max: value(g.whisker_max),
        outliers: g.outliers.iter().map(|&k| value(k)).collect(),
    })
}

#[test]
fn single_sample_collapses_everything() {
    let p = plot(&[5.0]).unwrap();
    assert_eq!(p.q1, 5.0);
    assert_eq!(p.median, 5.0);
    assert_eq!(p.q3, 5.0);
    assert_eq!(p.iqr, 0.0);
    assert_eq!(p.lower, 5.0);
    assert_eq!(p.upper, 5.0);
    assert!(p.outliers.is_empty());
    assert_eq!(p.whisker_min, 5.0);
    assert_eq!(p.whisker_max, 5.0);
}

#[test]
fn empty_input_is_rejected() {
    assert_eq!(compute(&Vec::new()), Err(StatsError::EmptyInput));
    assert!(matches!(plot(&[]), Err(StatsError::EmptyInput)));
}

#[test]
fn one_to_ten() {
    let p = plot(&[1.0, 2.0, 3.0, 4.0, 5.0, 6.0, 7.0, 8.0, 9.0, 10.0]).unwrap();
    assert_eq!(p.q1, 3.0);
    assert_eq!(p.median, 6.0);
    assert_eq!(p.q3, 8.0);
    assert_eq!(p.iqr, 5.0);
    assert_eq!(p.lower, -4.5);
    assert_eq!(p.upper, 15.5);
    assert!(p.outliers.is_empty());
    assert_eq!(p.whisker_min, 1.0);
    assert_eq!(p.whisker_max, 10.0);
}

#[test]
fn one_to_nine_and_a_hundred() {
    let p = plot(&[1.0, 2.0, 3.0, 4.0, 5.0, 6.0, 7.0, 8.0, 9.0, 100.0]).unwrap();
    assert_eq!(p.q1, 3.0);
    assert_eq!(p.median, 6.0);
    assert_eq!(p.q3, 8.0);
    assert_eq!(p.iqr, 5.0);
    assert_eq!(p.lower, -4.5);
    assert_eq!(p.upper, 15.5);
    assert_eq!(p.outliers, vec![100.0]);
    assert_eq!(p.whisker_min, 1.0);
    assert_eq!(p.whisker_max, 9.0);
}

#[test]
fn quartile_positions_round_down() {
    let four = compute(&vec![40, 30, 20, 10]).unwrap();
    assert_eq!(four, QuantileSummary { q1: 20, median: 30, q3: 40 });
    let seven = compute(&vec![7, 6, 5, 4, 3, 2, 1]).unwrap();
    assert_eq!(seven, QuantileSummary { q1: 2, median: 4, q3: 6 });
    let two = compute(&vec![9, -9]).unwrap();
    assert_eq!(two, QuantileSummary { q1: -9, median: 9, q3: 9 });
}

#[test]
fn unsorted_input_is_sorted_first() {
    let p = plot(&[10.0, 1.0, 9.0, 2.0, 8.0, 3.0, 7.0, 4.0, 6.0, 5.0]).unwrap();
    assert_eq!((p.q1, p.median, p.q3), (3.0, 6.0, 8.0));
}

#[test]
fn outliers_come_in_ascending_order() {
    let p = plot(&[100.0, 1.0, 2.0, 3.0, 4.0, 5.0, 6.0, 7.0, 8.0, -50.0]).unwrap();
    assert_eq!(p.outliers, vec![-50.0, 100.0]);
    assert_eq!(p.whisker_min, 1.0);
    assert_eq!(p.whisker_max, 8.0);
}

#[test]
fn negative_and_fractional_samples() {
    let p = plot(&[-2.5, -1.25, 0.0, 0.5, 41.3, -0.75]).unwrap();
    assert_eq!(p.q1, -1.25);
    assert_eq!(p.median, 0.0);
    assert_eq!(p.q3, 0.5);
    assert_eq!(p.iqr, 1.75);
    assert_eq!(p.outliers, vec![41.3]);
    assert_eq!(p.whisker_min, -2.5);
    assert_eq!(p.whisker_max, 0.5);
}

#[test]
fn whiskers_fall_back_to_the_box() {
    let ks = vec![1, 2, 3, 4];
    let summary = compute(&ks).unwrap();
    let fences = Fences { lower: 10, upper: -10 };
    let g = build(&ks, &summary, &fences);
    assert_eq!(g.whisker_min, summary.q1);
    assert_eq!(g.whisker_max, summary.q3);
    assert_eq!(g.outliers, vec![1, 2, 3, 4]);
}

#[test]
fn build_twice_gives_the_same_geometry() {
    let a = vec![5, 1, 4, 1, 5, 9, 2, 6, 5, 3, 5, 80];
    let mut b = a.clone();
    b.reverse();
    let sa = compute(&a).unwrap();
    let sb = compute(&b).unwrap();
    assert_eq!(sa, sb);
    let fences = Fences { lower: -3, upper: 11 };
    let first: BoxGeometry = build(&a, &sa, &fences);
    let second = build(&a, &sa, &fences);
    let reversed = build(&b, &sb, &fences);
    assert_eq!(first, second);
    assert_eq!(first, reversed);
    assert_eq!(first.outliers, vec![80]);
}

#[test]
fn classify_each_region() {
    let summary = QuantileSummary { q1: 3, median: 6, q3: 8 };
    let fences = Fences { lower: -4, upper: 15 };
    assert_eq!(classify(-5, &summary, &fences), Region::Outlier);
    assert_eq!(classify(-4, &summary, &fences), Region::LowerWhisker);
    assert_eq!(classify(2, &summary, &fences), Region::LowerWhisker);
    assert_eq!(classify(3, &summary, &fences), Region::Box);
    assert_eq!(classify(8, &summary, &fences), Region::Box);
    assert_eq!(classify(9, &summary, &fences), Region::UpperWhisker);
    assert_eq!(classify(15, &summary, &fences), Region::UpperWhisker);
    assert_eq!(classify(16, &summary, &fences), Region::Outlier);
}

#[test]
fn sort_keeps_every_sample() {
    assert_eq!(sort_samples(&vec![3, -1, 3, 0, -7]), vec![-7, -1, 0, 3, 3]);
    assert_eq!(sort_samples(&Vec::new()), Vec::<i64>::new());
}

#[test]
fn keys_follow_numeric_order() {
    let xs = [f64::NEG_INFINITY, -1e300, -2.0, -1.5, -0.0, 0.0, 1e-300, 1.5, 2.0, f64::INFINITY];
    for w in xs.windows(2) {
        assert!(key(w[0]) < key(w[1]), "{} {}", w[0], w[1]);
    }
    assert_eq!(key(0.0), 0);
    assert_eq!(key(-0.0), -1);
    assert!(key(f64::NAN) > key(f64::INFINITY));
    assert!(key(-f64::NAN) > key(f64::INFINITY));
}

#[test]
fn keys_decode_to_their_samples() {
    for x in [0.0, -0.0, 1.0, -1.0, 41.3, -1e-300, f64::MAX, f64::MIN, f64::INFINITY, f64::NEG_INFINITY] {
        assert_eq!(value(key(x)).to_bits(), x.to_bits());
    }
    assert!(value(key(-f64::NAN)).is_nan());
    assert!(value(key(-f64::NAN)).is_sign_positive());
}

#[test]
fn nan_sorts_above_every_number() {
    let ks = keys(&[f64::NAN, 1.0, f64::INFINITY, -3.0]);
    let sorted: Vec<f64> = sort_samples(&ks).iter().map(|&k| value(k)).collect();
    assert_eq!(sorted[..3], [-3.0, 1.0, f64::INFINITY]);
    assert!(sorted[3].is_nan());
}

fn next(state: &mut u64) -> u64 {
    *state = state.wrapping_mul(6364136223846793005).wrapping_add(1442695040888963407);
    *state >> 33
}

#[test]
fn random_sets_partition_and_stay_ordered() {
    let mut state: u64 = 42;
    for _ in 0..200 {
        let n = (next(&mut state) % 1000 + 1) as usize;
        let xs: Vec<f64> = (0..n).map(|_| (next(&mut state) % 200_001) as f64 / 100.0 - 1000.0).collect();
        let p = plot(&xs).unwrap();
        assert!(p.whisker_min <= p.q1);
        assert!(p.q1 <= p.median);
        assert!(p.median <= p.q3);
        assert!(p.q3 <= p.whisker_max);
        let below = xs.iter().filter(|&&x| x >= p.lower && x < p.q1).count();
        let inside = xs.iter().filter(|&&x| x >= p.q1 && x <= p.q3).count();
        let above = xs.iter().filter(|&&x| x > p.q3 && x <= p.upper).count();
        let out = xs.iter().filter(|&&x| x < p.lower || x > p.upper).count();
        assert_eq!(below + inside + above + out, n);
        assert_eq!(out, p.outliers.len());
        assert!(p.outliers.windows(2).all(|w| w[0] <= w[1]));
        assert!(p.outliers.iter().all(|&x| x < p.lower || x > p.upper));
    }
}
