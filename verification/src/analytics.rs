//! The four statistics over a price series.

use vstd::prelude::*;
use crate::frac::Frac;
use crate::series::PriceSeries;

verus! {

/// The largest element of `s`, as a fold seeded at `i64::MIN`; `i64::MIN`
/// itself for an empty sequence.
pub open spec fn seq_max(s: Seq<i64>) -> i64
    decreases s.len(),
{
    if s.len() == 0 {
        i64::MIN
    } else {
        let m = seq_max(s.drop_last());
        if s.last() > m {
            s.last()
        } else {
            m
        }
    }
}

/// The smallest element of `s`, as a fold seeded at `i64::MAX`; `i64::MAX`
/// itself for an empty sequence.
pub open spec fn seq_min(s: Seq<i64>) -> i64
    decreases s.len(),
{
    if s.len() == 0 {
        i64::MAX
    } else {
        let m = seq_min(s.drop_last());
        if s.last() < m {
            s.last()
        } else {
            m
        }
    }
}

/// What `max` returns: absent for an empty series, else the largest price.
pub open spec fn spec_max(s: Seq<i64>) -> Option<i64> {
    if s.len() == 0 {
        None
    } else {
        Some(seq_max(s))
    }
}

/// What `min` returns: absent for an empty series, else the smallest price.
pub open spec fn spec_min(s: Seq<i64>) -> Option<i64> {
    if s.len() == 0 {
        None
    } else {
        Some(seq_min(s))
    }
}

/// The maximum price of the series, as a scaled numerator; absent exactly
/// when the series is empty. Prices are exact rationals, so no comparison is
/// ever undefined.
pub fn max(series: &PriceSeries) -> (r: Option<i64>)
    ensures
        r == spec_max(series.prices@),
{
    let n = series.prices.len();
    if n == 0 {
        return None;
    }
    let mut acc: i64 = i64::MIN;
    let mut i: usize = 0;
    while i < n
        invariant
            0 <= i <= n,
            n == series.prices@.len(),
            acc == seq_max(series.prices@.subrange(0, i as int)),
        decreases n - i,
    {
        let p = series.prices[i];
        proof {
            assert(series.prices@.subrange(0, i + 1).drop_last()
                =~= series.prices@.subrange(0, i as int));
            assert(series.prices@.subrange(0, i + 1).last() == series.prices@[i as int]);
        }
        if p > acc {
            acc = p;
        }
        i = i + 1;
    }
    proof {
        assert(series.prices@.subrange(0, n as int) =~= series.prices@);
    }
    Some(acc)
}

/// The minimum price of the series, as a scaled numerator; absent exactly
/// when the series is empty.
pub fn min(series: &PriceSeries) -> (r: Option<i64>)
    ensures
        r == spec_min(series.prices@),
{
    let n = series.prices.len();
    if n == 0 {
        return None;
    }
    let mut acc: i64 = i64::MAX;
    let mut i: usize = 0;
    while i < n
        invariant
            0 <= i <= n,
            n == series.prices@.len(),
            acc == seq_min(series.prices@.subrange(0, i as int)),
        decreases n - i,
    {
        let p = series.prices[i];
        proof {
            assert(series.prices@.subrange(0, i + 1).drop_last()
                =~= series.prices@.subrange(0, i as int));
            assert(series.prices@.subrange(0, i + 1).last() == series.prices@[i as int]);
        }
        if p < acc {
            acc = p;
        }
        i = i + 1;
    }
    proof {
        assert(series.prices@.subrange(0, n as int) =~= series.prices@);
    }
    Some(acc)
}

/// The maximum of a nonempty sequence is one of its elements and is at least
/// every element; the minimum is one of its elements and is at most every
/// element.
pub proof fn lemma_max_min_bounds(s: Seq<i64>)
    requires
        s.len() > 0,
    ensures
        s.contains(seq_max(s)),
        s.contains(seq_min(s)),
        forall|i: int| 0 <= i < s.len() ==> s[i] <= seq_max(s),
        forall|i: int| 0 <= i < s.len() ==> seq_min(s) <= s[i],
    decreases s.len(),
{
    if s.len() == 1 {
        assert(s.drop_last() =~= Seq::<i64>::empty());
        assert(seq_max(s.drop_last()) == i64::MIN);
        assert(seq_min(s.drop_last()) == i64::MAX);
        assert(s[0] == seq_max(s));
        assert(s[0] == seq_min(s));
    } else {
        lemma_max_min_bounds(s.drop_last());
        assert forall|i: int| 0 <= i < s.len() implies s[i] <= seq_max(s) by {
            if i < s.len() - 1 {
                assert(s.drop_last()[i] == s[i]);
            }
        }
        assert forall|i: int| 0 <= i < s.len() implies seq_min(s) <= s[i] by {
            if i < s.len() - 1 {
                assert(s.drop_last()[i] == s[i]);
            }
        }
        if seq_max(s) == s.last() {
            assert(s[s.len() - 1] == seq_max(s));
        } else {
            let j = choose|j: int|
                0 <= j < s.drop_last().len() && s.drop_last()[j] == seq_max(s.drop_last());
            assert(s[j] == seq_max(s));
        }
        if seq_min(s) == s.last() {
            assert(s[s.len() - 1] == seq_min(s));
        } else {
            let j = choose|j: int|
                0 <= j < s.drop_last().len() && s.drop_last()[j] == seq_min(s.drop_last());
            assert(s[j] == seq_min(s));
        }
    }
}

/// The absolute price delta `last - first`, over the series scale.
pub open spec fn spec_abs_delta(prices: Seq<i64>, scale: int) -> Frac {
    Frac { num: (prices.last() - prices.first()) as i128, den: scale as i128 }
}

/// The relative price delta: the absolute delta divided by the first price,
/// or by one when the first price is zero (an explicit approximation that
/// guards the division, not a general rule for zero-priced assets).
pub open spec fn spec_rel_delta(prices: Seq<i64>, scale: int) -> Frac {
    let d = prices.last() - prices.first();
    let f = prices.first() as int;
    if f == 0 {
        Frac { num: d as i128, den: scale as i128 }
    } else if f > 0 {
        Frac { num: d as i128, den: f as i128 }
    } else {
        Frac { num: (-d) as i128, den: (-f) as i128 }
    }
}

/// What `price_diff` returns: absent for an empty series, else the absolute
/// and relative delta between the first and the last price.
pub open spec fn spec_price_diff(prices: Seq<i64>, scale: int) -> Option<(Frac, Frac)> {
    if prices.len() == 0 {
        None
    } else {
        Some((spec_abs_delta(prices, scale), spec_rel_delta(prices, scale)))
    }
}

/// The absolute and relative change from the first to the last price; absent
/// exactly when the series is empty.
///
/// For a one-element series both deltas are zero. The absolute delta is the
/// rational `(last - first) / scale`; the relative delta divides it by the
/// first price, substituting one for a first price of exactly zero.
pub fn price_diff(series: &PriceSeries) -> (r: Option<(Frac, Frac)>)
    requires
        series.wf(),
    ensures
        r == spec_price_diff(series.prices@, series.scale as int),
        r is Some <==> series.prices@.len() > 0,
        r matches Some(d) ==> {
            let first = series.prices@.first() as int;
            let last = series.prices@.last() as int;
            &&& d.0.wf()
            &&& d.1.wf()
            &&& d.0.is_ratio(last - first, series.scale as int)
            &&& (first != 0 ==> d.1.is_ratio(last - first, first))
            &&& (first == 0 ==> d.1.is_ratio(last - first, series.scale as int))
        },
{
    let n = series.prices.len();
    if n == 0 {
        return None;
    }
    let first = series.prices[0];
    let last = series.prices[n - 1];
    let d: i128 = last as i128 - first as i128;
    let absolute = Frac { num: d, den: series.scale as i128 };
    let relative = if first == 0 {
        absolute
    } else if first > 0 {
        Frac { num: d, den: first as i128 }
    } else {
        Frac { num: -d, den: -(first as i128) }
    };
    proof {
        let fi = first as int;
        let di = d as int;
        if fi < 0 {
            assert((-di) * fi == di * (-fi)) by (nonlinear_arith);
        }
    }
    Some((absolute, relative))
}

/// The sum of a sequence of prices, front to back.
pub open spec fn seq_sum(s: Seq<i64>) -> int
    decreases s.len(),
{
    if s.len() == 0 {
        0
    } else {
        s[0] + seq_sum(s.drop_first())
    }
}

/// Appending one price adds it to the sum.
proof fn lemma_seq_sum_push(s: Seq<i64>, x: i64)
    ensures
        seq_sum(s.push(x)) == seq_sum(s) + x,
    decreases s.len(),
{
    if s.len() == 0 {
        assert(s.push(x).drop_first() =~= Seq::<i64>::empty());
        assert(s.push(x)[0] == x);
        assert(seq_sum(Seq::<i64>::empty()) == 0);
        assert(seq_sum(s.push(x)) == x + seq_sum(s.push(x).drop_first()));
        assert(seq_sum(s) == 0);
    } else {
        lemma_seq_sum_push(s.drop_first(), x);
        assert(s.push(x).drop_first() =~= s.drop_first().push(x));
        assert(s.push(x)[0] == s[0]);
        assert(seq_sum(s.push(x)) == s[0] + seq_sum(s.push(x).drop_first()));
        assert(seq_sum(s) == s[0] + seq_sum(s.drop_first()));
    }
}

/// The sum of `k` prices lies between `k * i64::MIN` and `k * i64::MAX`.
proof fn lemma_seq_sum_bounds(s: Seq<i64>)
    ensures
        s.len() * (i64::MIN as int) <= seq_sum(s) <= s.len() * (i64::MAX as int),
    decreases s.len(),
{
    if s.len() == 0 {
    } else {
        lemma_seq_sum_bounds(s.drop_first());
        let k = s.len() as int;
        assert((k - 1) * (i64::MIN as int) + (i64::MIN as int) == k * (i64::MIN as int))
            by (nonlinear_arith);
        assert((k - 1) * (i64::MAX as int) + (i64::MAX as int) == k * (i64::MAX as int))
            by (nonlinear_arith);
    }
}

/// The sum of fewer than `2^64` prices stays far enough inside `i128` that
/// one more price can be added or removed without overflow.
proof fn lemma_seq_sum_in_i128(s: Seq<i64>)
    requires
        s.len() < 0x1_0000_0000_0000_0000,
    ensures
        -0x7FFF_FFFF_FFFF_FFFF_8000_0000_0000_0000 <= seq_sum(s),
        seq_sum(s) <= 0x7FFF_FFFF_FFFF_FFFE_8000_0000_0000_0001,
{
    lemma_seq_sum_bounds(s);
    let k = s.len() as int;
    assert(k * (i64::MIN as int) >= -0x7FFF_FFFF_FFFF_FFFF_8000_0000_0000_0000)
        by (nonlinear_arith)
        requires 0 <= k < 0x1_0000_0000_0000_0000;
    assert(k * (i64::MAX as int) <= 0x7FFF_FFFF_FFFF_FFFE_8000_0000_0000_0001)
        by (nonlinear_arith)
        requires 0 <= k < 0x1_0000_0000_0000_0000;
}

/// The mean of the window of length `n` starting at `i`, as an exact
/// fraction over the denominator `n * scale`.
pub open spec fn window_mean(prices: Seq<i64>, scale: int, n: int, i: int) -> Frac {
    Frac {
        num: seq_sum(prices.subrange(i, i + n)) as i128,
        den: (n * scale) as i128,
    }
}

/// What `n_window_sma` returns: absent for an empty series; for a window
/// size between one and the length, one exact mean per window position; for
/// a window size of zero or beyond the length, an empty sequence (there is
/// no window of that size, but the series itself was not empty).
pub open spec fn spec_sma(prices: Seq<i64>, scale: int, n: int) -> Option<Seq<Frac>> {
    if prices.len() == 0 {
        None
    } else if n < 1 || n > prices.len() {
        Some(Seq::empty())
    } else {
        Some(Seq::new((prices.len() - n + 1) as nat, |i: int| window_mean(prices, scale, n, i)))
    }
}

/// The simple moving average: one exact mean per contiguous window of length
/// `n`, sliding by one; absent exactly when the series is empty.
///
/// For `n == 0` or `n` beyond the series length the result is present but
/// empty, which keeps "no such window" distinct from "no data at all".
/// Computed with a running sum, in one pass.
pub fn n_window_sma(n: usize, series: &PriceSeries) -> (r: Option<Vec<Frac>>)
    requires
        series.wf(),
    ensures
        r is Some <==> series.prices@.len() > 0,
        r matches Some(v) ==> spec_sma(series.prices@, series.scale as int, n as int)
            matches Some(ms) && v@ == ms,
        r matches Some(v) ==> (1 <= n && n <= series.prices@.len() ==> {
            &&& v@.len() == series.prices@.len() - n + 1
            &&& forall|k: int| 0 <= k < v@.len()
                ==> #[trigger] v@[k] == window_mean(series.prices@, series.scale as int, n as int, k)
        }),
        r matches Some(v) ==> ((n == 0 || n > series.prices@.len()) ==> v@.len() == 0),
{
    let len = series.prices.len();
    if len == 0 {
        return None;
    }
    if n == 0 || n > len {
        let empty: Vec<Frac> = Vec::new();
        proof {
            assert(empty@ =~= Seq::<Frac>::empty());
        }
        return Some(empty);
    }
    let ghost ps = series.prices@;
    let ghost sc = series.scale as int;
    proof {
        assert((n as int) * sc <= 0x7FFF_FFFF_FFFF_FFFF_FFFF_FFFF_FFFF_FFFF && 0 < (n as int) * sc)
            by (nonlinear_arith)
            requires
                1 <= (n as int),
                (n as int) < 0x1_0000_0000_0000_0000,
                0 < sc,
                sc <= 0x7FFF_FFFF_FFFF_FFFF;
    }
    let den: i128 = (n as i128) * (series.scale as i128);
    let mut sum: i128 = 0;
    let mut j: usize = 0;
    while j < n
        invariant
            0 <= j <= n <= len,
            len == ps.len(),
            ps == series.prices@,
            sum as int == seq_sum(ps.subrange(0, j as int)),
        decreases n - j,
    {
        let p = series.prices[j];
        proof {
            lemma_seq_sum_in_i128(ps.subrange(0, j as int));
            lemma_seq_sum_push(ps.subrange(0, j as int), ps[j as int]);
            assert(ps.subrange(0, j as int).push(ps[j as int]) =~= ps.subrange(0, j + 1));
        }
        sum = sum + (p as i128);
        j = j + 1;
    }
    let count = len - n + 1;
    let mut out: Vec<Frac> = Vec::new();
    let mut i: usize = 0;
    while i < count
        invariant
            1 <= n <= len,
            len == ps.len(),
            ps == series.prices@,
            sc == series.scale as int,
            count == len - n + 1,
            0 <= i <= count,
            den as int == (n as int) * sc,
            0 < (n as int) * sc <= 0x7FFF_FFFF_FFFF_FFFF_FFFF_FFFF_FFFF_FFFF,
            i < count ==> sum as int == seq_sum(ps.subrange(i as int, i + n)),
            out@.len() == i,
            forall|k: int| 0 <= k < i ==> #[trigger] out@[k] == window_mean(ps, sc, n as int, k),
        decreases count - i,
    {
        proof {
            lemma_seq_sum_in_i128(ps.subrange(i as int, i + n));
        }
        out.push(Frac { num: sum, den });
        if i + 1 < count {
            let p_old = series.prices[i];
            let p_new = series.prices[i + n];
            proof {
                let w = ps.subrange(i as int, i + n);
                assert(w.drop_first() =~= ps.subrange(i + 1, i + n));
                assert(w[0] == ps[i as int]);
                assert(seq_sum(w) == ps[i as int] + seq_sum(ps.subrange(i + 1, i + n)));
            }
            let mid: i128 = sum - (p_old as i128);
            proof {
                lemma_seq_sum_in_i128(ps.subrange(i + 1, i + n));
                lemma_seq_sum_push(ps.subrange(i + 1, i + n), ps[i + n]);
                assert(ps.subrange(i + 1, i + n).push(ps[i + n]) =~= ps.subrange(i + 1, i + n + 1));
            }
            sum = mid + (p_new as i128);
        }
        i = i + 1;
    }
    proof {
        assert(out@ =~= Seq::new((ps.len() - n + 1) as nat, |k: int| window_mean(ps, sc, n as int, k)));
    }
    Some(out)
}

/// Re-running any of the statistics on the same series and window size
/// yields the identical result: each is a pure function of its inputs, with
/// no hidden state, and the executable functions return exactly these
/// values.
pub proof fn lemma_statistics_deterministic(a: PriceSeries, b: PriceSeries, n: usize)
    requires
        a.prices@ == b.prices@,
        a.scale == b.scale,
    ensures
        spec_max(a.prices@) == spec_max(b.prices@),
        spec_min(a.prices@) == spec_min(b.prices@),
        spec_price_diff(a.prices@, a.scale as int) == spec_price_diff(b.prices@, b.scale as int),
        spec_sma(a.prices@, a.scale as int, n as int) == spec_sma(b.prices@, b.scale as int, n as int),
{
}

/// For every nonempty series the maximum is at least the minimum.
pub proof fn lemma_max_ge_min(s: Seq<i64>)
    requires
        s.len() > 0,
    ensures
        seq_min(s) <= seq_max(s),
{
    lemma_max_min_bounds(s);
    let j = choose|j: int| 0 <= j < s.len() && s[j] == seq_max(s);
    assert(seq_min(s) <= s[j]);
}

} // verus!
