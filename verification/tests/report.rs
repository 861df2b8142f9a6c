//! Tests of quote ordering and the per-symbol summary run.

use stock_stats::quotes::{closing_prices, sort_by_timestamp};
use stock_stats::report::{summarize, summary_row, FetchError};
use stock_stats::series::PriceSeries;

const SCALE: i64 = 1000;

fn series(vals: &[f64]) -> PriceSeries {
    let prices: Vec<i64> = vals.iter().map(|v| (v * SCALE as f64).round() as i64).collect();
    PriceSeries::new(prices, SCALE).unwrap()
}

fn scaled_to_f64(v: i64) -> f64 {
    v as f64 / SCALE as f64
}

#[test]
fn quotes_are_sorted_chronologically() {
    let mut quotes: Vec<(i64, i64)> = vec![(300, 30), (100, 10), (200, 20)];
    sort_by_timestamp(&mut quotes);
    assert_eq!(quotes, vec![(100, 10), (200, 20), (300, 30)]);
    assert_eq!(closing_prices(&quotes), vec![10, 20, 30]);
}

#[test]
fn sorting_keeps_duplicate_timestamps() {
    let mut quotes: Vec<(i64, i64)> = vec![(2, 7), (1, 5), (2, 6), (1, 4)];
    sort_by_timestamp(&mut quotes);
    let times: Vec<i64> = quotes.iter().map(|q| q.0).collect();
    assert_eq!(times, vec![1, 1, 2, 2]);
    let mut prices: Vec<i64> = quotes.iter().map(|q| q.1).collect();
    prices.sort();
    assert_eq!(prices, vec![4, 5, 6, 7]);
}

#[test]
fn summary_row_reports_max_min_last() {
    let row = summary_row(&series(&[1.5, 2.0, 3.0, 30.123, 123.0, 123.1])).unwrap();
    assert_eq!(scaled_to_f64(row.max_price), 123.1);
    assert_eq!(scaled_to_f64(row.min_price), 1.5);
    assert_eq!(scaled_to_f64(row.last_price), 123.1);
}

#[test]
fn summary_row_of_empty_series_is_absent() {
    assert!(summary_row(&series(&[])).is_none());
}

#[test]
fn pipeline_emits_rows_only_for_symbols_with_data() {
    let results = vec![
        ("AAA".to_string(), Ok(series(&[1.5, 2.0, 3.0, 30.123, 123.0, 123.1]))),
        ("BBB".to_string(), Ok(series(&[]))),
    ];
    let rows = summarize(&results);
    assert_eq!(rows.len(), 1);
    assert_eq!(rows[0].0, "AAA");
    assert_eq!(scaled_to_f64(rows[0].1.max_price), 123.1);
    assert_eq!(scaled_to_f64(rows[0].1.min_price), 1.5);
    assert_eq!(scaled_to_f64(rows[0].1.last_price), 123.1);
}

#[test]
fn pipeline_survives_a_failed_fetch() {
    let results = vec![
        ("AAA".to_string(), Err(FetchError::DataUnavailable)),
        ("BBB".to_string(), Ok(series(&[2.0, 1.0]))),
    ];
    let rows = summarize(&results);
    assert_eq!(rows.len(), 1);
    assert_eq!(rows[0].0, "BBB");
    assert_eq!(scaled_to_f64(rows[0].1.max_price), 2.0);
    assert_eq!(scaled_to_f64(rows[0].1.min_price), 1.0);
    assert_eq!(scaled_to_f64(rows[0].1.last_price), 1.0);
}
