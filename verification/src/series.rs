//! Price observations and series.

use vstd::prelude::*;

verus! {

use vstd::string::StringExecFns;

/// One price observation: a UTC instant (seconds since the Unix epoch) and a
/// price. Prices are fixed-point integers in a subunit the caller picks (for
/// example thousandths of the series' unit); spot prices may be negative.
#[derive(Clone, Copy, PartialEq, Eq, Structural, Debug)]
pub struct Sample {
    pub instant: i64,
    pub price: i64,
}

/// An ordered sequence of samples sharing one unit. Order is preserved from
/// the source; an empty series is a valid value, not an error.
pub struct PriceSeries {
    pub samples: Vec<Sample>,
    pub unit: String,
}

/// Pairs the `i`-th instant with the `i`-th price, as a pricing service
/// reports them in two aligned arrays. Trailing entries of the longer array,
/// should the lengths disagree, have no partner and are not kept.
pub fn series_from_parts(instants: &Vec<i64>, prices: &Vec<i64>, unit: &str) -> (r: PriceSeries)
    ensures
        r.unit@ == unit@,
        r.samples@.len() == if instants@.len() <= prices@.len() {
            instants@.len()
        } else {
            prices@.len()
        },
        forall|i: int|
            0 <= i < r.samples@.len() ==> (#[trigger] r.samples@[i]) == (Sample {
                instant: instants@[i],
                price: prices@[i],
            }),
{
    let n = if instants.len() <= prices.len() {
        instants.len()
    } else {
        prices.len()
    };
    let mut samples: Vec<Sample> = Vec::new();
    let mut i: usize = 0;
    while i < n
        invariant
            0 <= i <= n,
            n == if instants@.len() <= prices@.len() {
                instants@.len()
            } else {
                prices@.len()
            },
            samples@.len() == i,
            forall|j: int|
                0 <= j < i ==> (#[trigger] samples@[j]) == (Sample {
                    instant: instants@[j],
                    price: prices@[j],
                }),
        decreases n - i,
    {
        samples.push(Sample { instant: instants[i], price: prices[i] });
        i = i + 1;
    }
    PriceSeries { samples, unit: String::from_str(unit) }
}

} // verus!
