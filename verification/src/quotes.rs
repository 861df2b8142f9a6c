//! Ordering raw quotes chronologically.
//!
//! A provider hands back quotes as (timestamp, scaled price) pairs in no
//! guaranteed order; the analytics assume ascending time. Sorting and price
//! extraction are verified here, so a series handed to the analytics really
//! is chronological.

use vstd::prelude::*;
use vstd::seq_lib::group_to_multiset_ensures;

verus! {

/// The quotes stand in ascending timestamp order.
pub open spec fn sorted_by_time(s: Seq<(i64, i64)>) -> bool {
    forall|a: int, b: int|
        0 <= a < b < s.len() ==> (#[trigger] s[a]).0 <= (#[trigger] s[b]).0
}

/// Sorts quotes into ascending timestamp order in place, by adjacent swaps;
/// the collection of quotes itself is unchanged.
pub fn sort_by_timestamp(quotes: &mut Vec<(i64, i64)>)
    ensures
        sorted_by_time(final(quotes)@),
        final(quotes)@.to_multiset() == old(quotes)@.to_multiset(),
        final(quotes)@.len() == old(quotes)@.len(),
{
    let n = quotes.len();
    let mut i: usize = 1;
    while i < n
        invariant
            n == quotes@.len(),
            1 <= i,
            quotes@.to_multiset() == old(quotes)@.to_multiset(),
            forall|a: int, b: int|
                0 <= a < b < i ==> (#[trigger] quotes@[a]).0 <= (#[trigger] quotes@[b]).0,
        decreases n - i,
    {
        let mut j: usize = i;
        while j > 0 && quotes[j - 1].0 > quotes[j].0
            invariant
                n == quotes@.len(),
                0 <= j <= i < n,
                quotes@.to_multiset() == old(quotes)@.to_multiset(),
                forall|a: int, b: int|
                    0 <= a < b <= i && b != j
                        ==> (#[trigger] quotes@[a]).0 <= (#[trigger] quotes@[b]).0,
            decreases j,
        {
            let x = quotes[j - 1];
            let y = quotes[j];
            let ghost before = quotes@;
            quotes.set(j - 1, y);
            quotes.set(j, x);
            proof {
                broadcast use group_to_multiset_ensures;

                assert(quotes@.to_multiset() =~= before.to_multiset());
            }
            j = j - 1;
        }
        i = i + 1;
    }
}

/// The prices of the quotes, in the order given.
pub open spec fn spec_prices(s: Seq<(i64, i64)>) -> Seq<i64> {
    s.map_values(|q: (i64, i64)| q.1)
}

/// Extracts the price of each quote, keeping the order.
pub fn closing_prices(quotes: &Vec<(i64, i64)>) -> (r: Vec<i64>)
    ensures
        r@ == spec_prices(quotes@),
{
    let n = quotes.len();
    let mut out: Vec<i64> = Vec::new();
    let mut i: usize = 0;
    while i < n
        invariant
            n == quotes@.len(),
            0 <= i <= n,
            out@ == spec_prices(quotes@.subrange(0, i as int)),
        decreases n - i,
    {
        out.push(quotes[i].1);
        proof {
            assert(quotes@.subrange(0, i + 1).map_values(|q: (i64, i64)| q.1)
                =~= quotes@.subrange(0, i as int).map_values(|q: (i64, i64)| q.1).push(
                quotes@[i as int].1));
        }
        i = i + 1;
    }
    proof {
        assert(quotes@.subrange(0, n as int) =~= quotes@);
    }
    out
}

} // verus!
