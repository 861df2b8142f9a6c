//! The price-series data model.

use vstd::prelude::*;

verus! {

/// A chronologically ordered closing-price series, held exactly.
///
/// Element `i` denotes the rational price `prices[i] / scale`; index 0 is the
/// earliest observation, the last index the most recent. The scale is fixed
/// for the whole series and must be positive. A series is never mutated once
/// built.
pub struct PriceSeries {
    pub prices: Vec<i64>,
    pub scale: i64,
}

impl PriceSeries {
    /// Well-formed: the scale is positive.
    pub open spec fn wf(self) -> bool {
        self.scale > 0
    }

    /// Builds a series from scaled prices; fails exactly when the scale is
    /// not positive.
    pub fn new(prices: Vec<i64>, scale: i64) -> (r: Option<PriceSeries>)
        ensures
            r is Some <==> scale > 0,
            r is Some ==> r->0.prices@ == prices@ && r->0.scale == scale && r->0.wf(),
    {
        if scale > 0 {
            Some(PriceSeries { prices, scale })
        } else {
            None
        }
    }

    /// The most recent price, as a scaled numerator; absent for an empty
    /// series.
    pub fn last_price(&self) -> (r: Option<i64>)
        ensures
            r is Some <==> self.prices@.len() > 0,
            r is Some ==> r->0 == self.prices@.last(),
    {
        let n = self.prices.len();
        if n > 0 {
            Some(self.prices[n - 1])
        } else {
            None
        }
    }
}

} // verus!
