//! Narrowing a raw price series to the samples of one local calendar day.
//!
//! A pricing service windows its answer by UTC date, so a series fetched for
//! a local day can carry samples of an adjacent UTC day. The filter keeps
//! exactly the samples whose instant, read on the target zone's clock, falls
//! on the target civil date — in their original order, dropping silently any
//! sample whose instant cannot be converted.

use vstd::prelude::*;

verus! {

use vstd::string::StringExecFns;
use crate::day::CalendarDay;
use crate::series::PriceSeries;
use crate::series::Sample;
use crate::zone::TS_MIN;
use crate::zone::TS_MAX;
use crate::zone::local_day_index;
use crate::zone::compute_local_day_index;
use crate::calendar::compute_day_index;

/// Whether a sample belongs to the day with index `target_di` in a zone: its
/// instant is convertible (in range) and shows that civil date on the zone's
/// local clock.
pub open spec fn on_day(zone: Seq<char>, target_di: int, s: Sample) -> bool {
    &&& TS_MIN <= s.instant <= TS_MAX
    &&& local_day_index(zone, s.instant as int) == target_di
}

/// `on_day` as a predicate value, for `Seq::filter`.
pub open spec fn day_pred(zone: Seq<char>, target_di: int) -> spec_fn(Sample) -> bool {
    |s: Sample| on_day(zone, target_di, s)
}

/// Keeps exactly the samples of the target day, in their original order:
/// the output is the input filtered by `on_day` — an order-preserving
/// subsequence. Samples whose instant cannot be converted are dropped.
pub fn filter_to_day(series: &PriceSeries, day: &CalendarDay) -> (out: PriceSeries)
    requires
        day.wf(),
    ensures
        out.unit@ == series.unit@,
        out.samples@ == series.samples@.filter(day_pred(day.zone@, day.index())),
{
    let ghost pred = day_pred(day.zone@, day.index());
    let target = compute_day_index(day.year, day.month, day.day);
    let n = series.samples.len();
    let mut kept: Vec<Sample> = Vec::new();
    let mut i: usize = 0;
    proof {
        assert(series.samples@.take(0) =~= Seq::<Sample>::empty());
        assert(Seq::<Sample>::empty().filter(pred) =~= Seq::<Sample>::empty());
    }
    while i < n
        invariant
            0 <= i <= n,
            n == series.samples@.len(),
            day.wf(),
            target == day.index(),
            0 <= target,
            pred == day_pred(day.zone@, day.index()),
            kept@ == series.samples@.take(i as int).filter(pred),
        decreases n - i,
    {
        let s = series.samples[i];
        let keep: bool = match compute_local_day_index(day.zone.as_str(), s.instant) {
            Some(di) => di == target,
            None => false,
        };
        proof {
            assert(keep == pred(s));
            let t = series.samples@.take(i as int);
            assert(series.samples@.take(i as int + 1) =~= t.push(s));
            t.lemma_filter_push(s, pred);
        }
        if keep {
            kept.push(s);
        }
        i = i + 1;
    }
    proof {
        assert(series.samples@.take(n as int) =~= series.samples@);
    }
    PriceSeries { samples: kept, unit: String::from_str(series.unit.as_str()) }
}

/// The filtered series is a (possibly empty) selection from its input:
/// never longer, every kept sample on the target day, and every input
/// sample on the target day kept. Order preservation is built into
/// `Seq::filter` itself, which `filter_to_day`'s contract states.
pub proof fn lemma_filter_keeps_exactly_the_day(input: Seq<Sample>, zone: Seq<char>, di: int)
    ensures
        input.filter(day_pred(zone, di)).len() <= input.len(),
        forall|i: int|
            0 <= i < input.filter(day_pred(zone, di)).len() ==> on_day(
                zone,
                di,
                #[trigger] input.filter(day_pred(zone, di))[i],
            ),
        forall|i: int|
            0 <= i < input.len() && on_day(zone, di, #[trigger] input[i]) ==> input.filter(
                day_pred(zone, di),
            ).contains(input[i]),
{
    broadcast use vstd::seq_lib::group_filter_ensures;

    let pred = day_pred(zone, di);
    assert forall|i: int|
        0 <= i < input.len() && on_day(zone, di, #[trigger] input[i]) implies input.filter(
        pred,
    ).contains(input[i]) by {
        assert(pred(input[i]));
    }
}

/// Checks the date and zone, then filters: the requires-free face of
/// `filter_to_day`. `None` exactly when the date is not a real civil date of
/// years 1 to 9999 or the zone is unknown.
pub fn filter_to_day_checked(series: &PriceSeries, year: i64, month: i64, day: i64, zone: &str)
    -> (r: Option<PriceSeries>)
    ensures
        (match r {
            Some(out) => {
                &&& crate::calendar::valid_date(year as int, month as int, day as int)
                &&& crate::zone::zone_known(zone@)
                &&& out.unit@ == series.unit@
                &&& out.samples@ == series.samples@.filter(
                    day_pred(zone@, crate::calendar::day_index(year as int, month as int, day as int)),
                )
            },
            None => !(crate::calendar::valid_date(year as int, month as int, day as int)
                && crate::zone::zone_known(zone@)),
        }),
{
    match CalendarDay::new(year, month, day, zone) {
        Some(cd) => Some(filter_to_day(series, &cd)),
        None => None,
    }
}

} // verus!
