//! Exact fractions used as statistic results.

use vstd::prelude::*;

verus! {

/// An exact fraction `num / den` with a positive denominator.
///
/// Statistics that divide (the relative price delta, a window mean) return
/// their result in this form instead of rounding it.
#[derive(Clone, Copy, PartialEq, Eq, Structural, Debug)]
pub struct Frac {
    pub num: i128,
    pub den: i128,
}

impl Frac {
    /// Well-formed: the denominator is positive.
    pub open spec fn wf(self) -> bool {
        self.den > 0
    }

    /// The fraction denotes the rational number `n / d` (for `d != 0`).
    pub open spec fn is_ratio(self, n: int, d: int) -> bool {
        d != 0 && self.num * d == n * self.den
    }
}

} // verus!
