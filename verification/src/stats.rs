//! Aggregation of a price series into summary statistics.

use vstd::prelude::*;

verus! {

use vstd::arithmetic::div_mod::lemma_div_is_ordered;
use vstd::arithmetic::div_mod::lemma_div_multiples_vanish;
use vstd::arithmetic::div_mod::lemma_fundamental_div_mod;
use vstd::arithmetic::div_mod::lemma_fundamental_div_mod_converse;
use vstd::arithmetic::mul::lemma_mul_inequality;
use crate::series::PriceSeries;
use crate::series::Sample;

/// Sum of the prices of a series.
pub open spec fn price_sum(s: Seq<Sample>) -> int
    decreases s.len(),
{
    if s.len() == 0 {
        0
    } else {
        price_sum(s.drop_last()) + s.last().price
    }
}

/// Smallest price of a series; 0 for an empty one.
pub open spec fn price_min(s: Seq<Sample>) -> int
    decreases s.len(),
{
    if s.len() == 0 {
        0
    } else if s.len() == 1 {
        s[0].price as int
    } else if s.last().price < price_min(s.drop_last()) {
        s.last().price as int
    } else {
        price_min(s.drop_last())
    }
}

/// Largest price of a series; 0 for an empty one.
pub open spec fn price_max(s: Seq<Sample>) -> int
    decreases s.len(),
{
    if s.len() == 0 {
        0
    } else if s.len() == 1 {
        s[0].price as int
    } else if s.last().price > price_max(s.drop_last()) {
        s.last().price as int
    } else {
        price_max(s.drop_last())
    }
}

/// Mean, extrema and count of a price series. `count == 0` is the sentinel
/// for "no data", with the other fields a defined zero rather than an error.
/// The mean is the floor of the exact arithmetic mean, in the same fixed-point
/// subunit as the prices.
#[derive(Clone, Copy, PartialEq, Eq, Structural, Debug)]
pub struct StatsSummary {
    pub mean: i64,
    pub min: i64,
    pub max: i64,
    pub count: usize,
}

/// The sum of a non-empty series is bounded by its extrema times its length.
pub proof fn lemma_price_sum_bounds(s: Seq<Sample>)
    requires
        s.len() > 0,
    ensures
        price_min(s) * s.len() <= price_sum(s),
        price_sum(s) <= price_max(s) * s.len(),
    decreases s.len(),
{
    if s.len() == 1 {
        assert(price_sum(s.drop_last()) == 0);
        assert(price_sum(s) == s[0].price);
    } else {
        let d = s.drop_last();
        let l = d.len() as int;
        let a = price_min(s);
        let b = price_max(s);
        lemma_price_sum_bounds(d);
        lemma_mul_inequality(a, price_min(d), l);
        lemma_mul_inequality(price_max(d), b, l);
        assert(a * (l + 1) == a * l + a) by (nonlinear_arith);
        assert(b * (l + 1) == b * l + b) by (nonlinear_arith);
        assert(price_sum(s) == price_sum(d) + s.last().price);
        assert(a * l <= price_min(d) * l);
        assert(price_min(d) * l <= price_sum(d));
        assert(a * s.len() == a * (l + 1));
        assert(a * s.len() <= price_sum(s));
        assert(price_max(d) * l <= b * l);
        assert(price_sum(d) <= price_max(d) * l);
        assert(b * s.len() == b * (l + 1));
        assert(price_sum(s) <= b * s.len());
    }
}

/// The floor-rounded mean of a non-empty series lies between its extrema.
pub proof fn lemma_mean_between_extremes(s: Seq<Sample>)
    requires
        s.len() > 0,
    ensures
        price_min(s) <= price_sum(s) / (s.len() as int),
        price_sum(s) / (s.len() as int) <= price_max(s),
{
    let n = s.len() as int;
    lemma_price_sum_bounds(s);
    lemma_div_is_ordered(price_min(s) * n, price_sum(s), n);
    lemma_div_is_ordered(price_sum(s), price_max(s) * n, n);
    lemma_div_multiples_vanish(price_min(s), n);
    lemma_div_multiples_vanish(price_max(s), n);
    assert(price_min(s) * n == n * price_min(s)) by (nonlinear_arith);
    assert(price_max(s) * n == n * price_max(s)) by (nonlinear_arith);
}

/// Aggregates a series: count of samples, extrema and floor-rounded mean of
/// the prices. An empty series yields the all-zero sentinel summary.
pub fn summarize(series: &PriceSeries) -> (r: StatsSummary)
    ensures
        r.count == series.samples@.len(),
        series.samples@.len() == 0 ==> r == (StatsSummary { mean: 0, min: 0, max: 0, count: 0 }),
        series.samples@.len() > 0 ==> {
            &&& r.min == price_min(series.samples@)
            &&& r.max == price_max(series.samples@)
            &&& r.mean == price_sum(series.samples@) / (series.samples@.len() as int)
        },
{
    let n = series.samples.len();
    if n == 0 {
        return StatsSummary { mean: 0, min: 0, max: 0, count: 0 };
    }
    let first = series.samples[0];
    let mut mn: i64 = first.price;
    let mut mx: i64 = first.price;
    let mut sum: i128 = first.price as i128;
    let mut i: usize = 1;
    proof {
        let t = series.samples@.take(1);
        assert(t =~= seq![series.samples@[0]]);
        assert(t.drop_last() =~= Seq::<Sample>::empty());
        assert(price_sum(t.drop_last()) == 0);
    }
    while i < n
        invariant
            1 <= i <= n,
            n == series.samples@.len(),
            mn == price_min(series.samples@.take(i as int)),
            mx == price_max(series.samples@.take(i as int)),
            sum == price_sum(series.samples@.take(i as int)),
            -0x8000_0000_0000_0000 * (i as int) <= sum <= 0x8000_0000_0000_0000 * (i as int),
        decreases n - i,
    {
        let s = series.samples[i];
        proof {
            let t = series.samples@.take(i as int + 1);
            assert(t.drop_last() =~= series.samples@.take(i as int));
            assert(t.last() == s);
            assert(-0x8000_0000_0000_0000 * (i as int + 1) == -0x8000_0000_0000_0000 * (i as int)
                + -0x8000_0000_0000_0000);
            assert(0x8000_0000_0000_0000 * (i as int + 1) == 0x8000_0000_0000_0000 * (i as int)
                + 0x8000_0000_0000_0000);
        }
        if s.price < mn {
            mn = s.price;
        }
        if s.price > mx {
            mx = s.price;
        }
        sum = sum + s.price as i128;
        i = i + 1;
    }
    proof {
        assert(series.samples@.take(n as int) =~= series.samples@);
        lemma_mean_between_extremes(series.samples@);
    }
    let mean: i64 = floor_mean(sum, n, Ghost(series.samples@));
    StatsSummary { mean, min: mn, max: mx, count: n }
}

/// Floor division of the accumulated price sum by the sample count.
fn floor_mean(sum: i128, n: usize, samples: Ghost<Seq<Sample>>) -> (r: i64)
    requires
        n > 0,
        n == samples@.len(),
        sum == price_sum(samples@),
        -0x8000_0000_0000_0000 * (n as int) <= sum <= 0x8000_0000_0000_0000 * (n as int),
        price_min(samples@) <= (sum as int) / (n as int) <= price_max(samples@),
        i64::MIN <= price_min(samples@) <= i64::MAX,
        i64::MIN <= price_max(samples@) <= i64::MAX,
    ensures
        r == price_sum(samples@) / (samples@.len() as int),
{
    if sum >= 0 {
        let q = (sum as u128) / (n as u128);
        proof {
            assert(q == (sum as int) / (n as int));
        }
        q as i64
    } else {
        let a = (-sum) as u128;
        let q = a / (n as u128);
        let rm = a % (n as u128);
        proof {
            lemma_fundamental_div_mod(a as int, n as int);
        }
        let mean128: i128 = if rm == 0 {
            proof {
                let qi = q as int;
                let ni = n as int;
                assert((-qi) * ni == -(ni * qi)) by (nonlinear_arith);
                lemma_fundamental_div_mod_converse(sum as int, ni, -qi, 0);
            }
            -(q as i128)
        } else {
            proof {
                let qi = q as int;
                let ni = n as int;
                assert((-qi - 1) * ni == -(ni * qi) - ni) by (nonlinear_arith);
                lemma_fundamental_div_mod_converse(sum as int, ni, -qi - 1, ni - rm);
            }
            -(q as i128) - 1
        };
        mean128 as i64
    }
}

} // verus!
