//! Per-symbol summary rows, and the run over a whole symbol list.

use vstd::prelude::*;
use crate::analytics::{max, min, seq_max, seq_min};
use crate::series::PriceSeries;

verus! {

/// The one failure a quote source reports: the data could not be had, or
/// the response was malformed. The analytics never inspect the cause; they
/// only distinguish "got a series" from "failed to get one".
#[derive(Clone, Copy, PartialEq, Eq, Structural, Debug)]
pub enum FetchError {
    DataUnavailable,
}

/// A per-symbol output row: maximum, minimum and most recent price, as
/// scaled numerators over the series scale.
#[derive(Clone, Copy, PartialEq, Eq, Structural, Debug)]
pub struct SummaryRow {
    pub max_price: i64,
    pub min_price: i64,
    pub last_price: i64,
}

/// What `summary_row` returns: absent for an empty series, else the
/// maximum, minimum and last price.
pub open spec fn spec_summary_row(prices: Seq<i64>) -> Option<SummaryRow> {
    if prices.len() == 0 {
        None
    } else {
        Some(
            SummaryRow {
                max_price: seq_max(prices),
                min_price: seq_min(prices),
                last_price: prices.last(),
            },
        )
    }
}

/// The summary row for one series; absent exactly when the series is empty.
pub fn summary_row(series: &PriceSeries) -> (r: Option<SummaryRow>)
    ensures
        r == spec_summary_row(series.prices@),
{
    match (max(series), min(series), series.last_price()) {
        (Some(mx), Some(mn), Some(la)) => Some(
            SummaryRow { max_price: mx, min_price: mn, last_price: la },
        ),
        _ => None,
    }
}

/// What `summarize` returns: one row per symbol whose fetch succeeded with
/// a nonempty series, in input order. A failed fetch or an empty series
/// contributes no row.
pub open spec fn spec_summarize(
    rs: Seq<(String, Result<PriceSeries, FetchError>)>,
) -> Seq<(String, SummaryRow)>
    decreases rs.len(),
{
    if rs.len() == 0 {
        Seq::empty()
    } else {
        let prev = spec_summarize(rs.drop_last());
        match rs.last().1 {
            Ok(series) => if series.prices@.len() > 0 {
                prev.push((rs.last().0, spec_summary_row(series.prices@)->0))
            } else {
                prev
            },
            Err(_) => prev,
        }
    }
}

/// One summary row per symbol whose quotes arrived and were nonempty, in
/// input order. A failure or an empty series for one symbol produces no row
/// for it and does not stop the remaining symbols.
pub fn summarize(
    results: &Vec<(String, Result<PriceSeries, FetchError>)>,
) -> (rows: Vec<(String, SummaryRow)>)
    ensures
        rows@ == spec_summarize(results@),
{
    let n = results.len();
    let mut rows: Vec<(String, SummaryRow)> = Vec::new();
    let mut i: usize = 0;
    while i < n
        invariant
            n == results@.len(),
            0 <= i <= n,
            rows@ == spec_summarize(results@.subrange(0, i as int)),
        decreases n - i,
    {
        let entry = &results[i];
        match &entry.1 {
            Ok(series) => {
                match summary_row(series) {
                    Some(row) => {
                        rows.push((entry.0.clone(), row));
                    },
                    None => {},
                }
            },
            Err(_) => {},
        }
        proof {
            assert(results@.subrange(0, i + 1).drop_last() =~= results@.subrange(0, i as int));
            assert(results@.subrange(0, i + 1).last() == results@[i as int]);
        }
        i = i + 1;
    }
    proof {
        assert(results@.subrange(0, n as int) =~= results@);
    }
    rows
}

} // verus!
