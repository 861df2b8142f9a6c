//! Tests of the statistics on concrete series.

use stock_stats::analytics::{max, min, n_window_sma, price_diff};
use stock_stats::frac::Frac;
use stock_stats::series::PriceSeries;

/// Numerators carry three decimal places in these tests.
const SCALE: i64 = 1000;

/// Builds a series from decimal prices, storing each exactly as a scaled
/// numerator.
fn series(vals: &[f64]) -> PriceSeries {
    let prices: Vec<i64> = vals.iter().map(|v| (v * SCALE as f64).round() as i64).collect();
    PriceSeries::new(prices, SCALE).unwrap()
}

fn scaled_to_f64(v: i64) -> f64 {
    v as f64 / SCALE as f64
}

fn frac_to_f64(f: Frac) -> f64 {
    f.num as f64 / f.den as f64
}

#[test]
fn test_max() {
    let s = series(&[1.5, 2.0, 3.0, 30.123, 123.0, 123.1]);
    assert_eq!(max(&s).map(scaled_to_f64), Some(123.1));
}

#[test]
fn test_max_with_empty_input() {
    let s = series(&[]);
    assert_eq!(max(&s), None);
}

#[test]
fn test_min() {
    let s = series(&[1.5, 2.0, 3.0, 30.123, 123.0, 123.1]);
    assert_eq!(min(&s).map(scaled_to_f64), Some(1.5));
}

#[test]
fn test_min_without_input() {
    let s = series(&[]);
    assert_eq!(min(&s), None);
}

#[test]
fn max_is_at_least_min_and_every_element() {
    let vals = [3.25, -1.5, 7.0, 7.0, 0.0];
    let s = series(&vals);
    let mx = max(&s).unwrap();
    let mn = min(&s).unwrap();
    assert!(mn <= mx);
    for v in vals {
        assert!(scaled_to_f64(mn) <= v && v <= scaled_to_f64(mx));
    }
}

#[test]
fn price_diff_of_empty_is_absent() {
    assert_eq!(price_diff(&series(&[])), None);
}

#[test]
fn price_diff_of_single_element_is_zero() {
    let (abs, rel) = price_diff(&series(&[42.125])).unwrap();
    assert_eq!(frac_to_f64(abs), 0.0);
    assert_eq!(frac_to_f64(rel), 0.0);
}

#[test]
fn price_diff_guards_zero_first_price() {
    let (abs, rel) = price_diff(&series(&[0.0, 5.0])).unwrap();
    assert_eq!(frac_to_f64(abs), 5.0);
    assert_eq!(frac_to_f64(rel), 5.0);
}

#[test]
fn price_diff_relative_is_fraction_of_first() {
    let (abs, rel) = price_diff(&series(&[100.0, 110.0])).unwrap();
    assert_eq!(frac_to_f64(abs), 10.0);
    assert_eq!(frac_to_f64(rel), 0.1);
}

#[test]
fn price_diff_handles_negative_first_price() {
    let (abs, rel) = price_diff(&series(&[-2.0, 4.0])).unwrap();
    assert_eq!(frac_to_f64(abs), 6.0);
    assert!(rel.den > 0);
    assert_eq!(frac_to_f64(rel), -3.0);
}

#[test]
fn sma_of_three_windows() {
    let s = series(&[1.0, 2.0, 3.0, 4.0, 5.0]);
    let means: Vec<f64> = n_window_sma(3, &s).unwrap().into_iter().map(frac_to_f64).collect();
    assert_eq!(means, vec![2.0, 3.0, 4.0]);
}

#[test]
fn sma_of_empty_is_absent_for_any_window() {
    for n in [0usize, 1, 3, 100] {
        assert_eq!(n_window_sma(n, &series(&[])), None);
    }
}

#[test]
fn sma_window_of_whole_series_is_single_mean() {
    let s = series(&[1.0, 2.0]);
    let means = n_window_sma(2, &s).unwrap();
    assert_eq!(means.len(), 1);
    assert_eq!(frac_to_f64(means[0]), 1.5);
}

#[test]
fn sma_window_of_one_returns_each_price() {
    let vals = [1.5, 2.0, 3.0];
    let s = series(&vals);
    let means: Vec<f64> = n_window_sma(1, &s).unwrap().into_iter().map(frac_to_f64).collect();
    assert_eq!(means, vals.to_vec());
}

#[test]
fn sma_degenerate_window_is_present_but_empty() {
    let s = series(&[1.0, 2.0, 3.0]);
    assert_eq!(n_window_sma(0, &s).unwrap().len(), 0);
    assert_eq!(n_window_sma(4, &s).unwrap().len(), 0);
}

#[test]
fn rerunning_each_statistic_gives_identical_output() {
    let vals = [1.5, 2.0, 3.0, 30.123, 123.0, 123.1];
    let s1 = series(&vals);
    let s2 = series(&vals);
    assert_eq!(max(&s1), max(&s2));
    assert_eq!(min(&s1), min(&s2));
    assert_eq!(price_diff(&s1), price_diff(&s2));
    assert_eq!(n_window_sma(3, &s1), n_window_sma(3, &s2));
}

#[test]
fn series_rejects_a_scale_that_is_not_positive() {
    assert!(PriceSeries::new(vec![1, 2], 0).is_none());
    assert!(PriceSeries::new(vec![1, 2], -5).is_none());
    assert!(PriceSeries::new(vec![1, 2], 1).is_some());
}
