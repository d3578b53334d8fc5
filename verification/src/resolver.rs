//! Resolving an instant and a timezone into a calendar day and the UTC
//! query window that bounds it.
//!
//! The civil day a zone shows at a given instant runs from local midnight to
//! local 23:59:59. Each bound is converted to UTC with the zone's offset *at
//! that local moment* — never a fixed offset, since the day may contain a
//! DST transition. A local midnight that does not exist (spring-forward gap)
//! resolves forward to the nearest valid instant instead of failing.

use vstd::prelude::*;

verus! {

use vstd::string::StringExecFns;
use crate::calendar::valid_date;
use crate::calendar::day_index;
use crate::calendar::day_index_limit;
use crate::calendar::date_chars;
use crate::calendar::compute_days_before_year;
use crate::calendar::compute_civil_date;
use crate::calendar::format_date;
use crate::calendar::lemma_day_index_injective;
use crate::calendar::lemma_days_before_year_bounds;
use crate::day::CalendarDay;
use crate::zone::zone_known;
use crate::zone::zone_offset;
use crate::zone::zone_local_map;
use crate::zone::zone_exists;
use crate::zone::forward_resolution;
use crate::zone::resolve_local_forward;
use crate::zone::compute_local_day_index;
use crate::zone::compute_utc_day_index;
use crate::zone::compute_epoch_shift;
use crate::zone::utc_day_index;
use crate::zone::local_day_index;
use crate::zone::day_start_local;
use crate::zone::day_end_local;
use crate::zone::GAP_SCAN;
use crate::zone::TS_MIN;
use crate::zone::TS_MAX;

/// The UTC window bounding one local calendar day: the resolved first and
/// last instant of the day, and their UTC civil dates as the `YYYY-MM-DD`
/// strings a pricing service consumes (equal or adjacent, depending on the
/// zone's offset).
pub struct QueryWindow {
    pub start_ts: i64,
    pub end_ts: i64,
    pub start_date: String,
    pub end_date: String,
}

/// The civil date written by a day index: the unique valid (year, month,
/// day) with that index.
pub open spec fn civil_of_index(di: int) -> (int, int, int) {
    choose|t: (int, int, int)| valid_date(t.0, t.1, t.2) && day_index(t.0, t.1, t.2) == di
}

/// The ten characters `YYYY-MM-DD` of the civil date with day index `di`.
pub open spec fn date_chars_of_index(di: int) -> Seq<char> {
    date_chars(civil_of_index(di).0, civil_of_index(di).1, civil_of_index(di).2)
}

/// `civil_of_index` recovers exactly the date that produced the index.
pub proof fn lemma_civil_of_index(y: int, m: int, d: int)
    requires
        valid_date(y, m, d),
    ensures
        civil_of_index(day_index(y, m, d)) == (y, m, d),
{
    let di = day_index(y, m, d);
    let w = (y, m, d);
    assert(valid_date(w.0, w.1, w.2) && day_index(w.0, w.1, w.2) == di);
    assert(exists|t: (int, int, int)| valid_date(t.0, t.1, t.2) && day_index(t.0, t.1, t.2)
        == di);
    let t = civil_of_index(di);
    lemma_day_index_injective(t.0, t.1, t.2, y, m, d);
}

/// Resolves the instant `now` and a timezone into the calendar day the zone
/// shows at that instant, and the UTC query window bounding that day.
///
/// On success, the day is the local civil date of `now`; the window's start
/// and end are local midnight and local 23:59:59 resolved to UTC with the
/// offset in force at each moment (shifted forward past a spring-forward
/// gap); and the window's date strings write the UTC civil dates of those
/// two instants. `None` only when the zone is unknown, `now` or the civil
/// dates leave the supported range, or no valid local time exists within the
/// forward scan — so a day containing a DST transition still resolves.
pub fn resolve_query(now: i64, zone: &str) -> (r: Option<(CalendarDay, QueryWindow)>)
    ensures
        (match r {
            Some(res) => ({
                let cd = res.0;
                let qw = res.1;
                let ldi = local_day_index(zone@, now as int);
                &&& zone_known(zone@)
                &&& TS_MIN <= now <= TS_MAX
                &&& cd.wf()
                &&& cd.zone@ == zone@
                &&& cd.index() == ldi
                &&& forward_resolution(zone@, day_start_local(ldi), GAP_SCAN as nat) == Some(
                    qw.start_ts as int,
                )
                &&& forward_resolution(zone@, day_end_local(ldi), GAP_SCAN as nat) == Some(
                    qw.end_ts as int,
                )
                &&& (zone_local_map(zone@, day_start_local(ldi)) matches Some(p) ==> qw.start_ts
                    == p.0 && qw.start_ts + zone_offset(zone@, qw.start_ts as int)
                    == day_start_local(ldi))
                &&& (zone_local_map(zone@, day_end_local(ldi)) matches Some(p) ==> qw.end_ts
                    == p.0 && qw.end_ts + zone_offset(zone@, qw.end_ts as int) == day_end_local(
                    ldi,
                ))
                &&& qw.start_date@ == date_chars_of_index(utc_day_index(qw.start_ts as int))
                &&& qw.end_date@ == date_chars_of_index(utc_day_index(qw.end_ts as int))
            }),
            None => ({
                let ldi = local_day_index(zone@, now as int);
                let s = forward_resolution(zone@, day_start_local(ldi), GAP_SCAN as nat);
                let e = forward_resolution(zone@, day_end_local(ldi), GAP_SCAN as nat);
                ||| !zone_known(zone@)
                ||| !(TS_MIN <= now <= TS_MAX)
                ||| ldi < 0
                ||| ldi >= day_index_limit()
                ||| s is None
                ||| e is None
                ||| (s matches Some(u) && !(0 <= utc_day_index(u) < day_index_limit()))
                ||| (e matches Some(u) && !(0 <= utc_day_index(u) < day_index_limit()))
            }),
        }),
{
    if !zone_exists(zone) {
        return None;
    }
    if now < TS_MIN || now > TS_MAX {
        return None;
    }
    let ldi = match compute_local_day_index(zone, now) {
        Some(v) => v,
        None => {
            return None;
        },
    };
    let limit = compute_days_before_year(10000);
    proof {
        lemma_days_before_year_bounds(10000);
    }
    if ldi >= limit {
        return None;
    }
    let civil = compute_civil_date(ldi);
    let shift = compute_epoch_shift();
    let start_local = ldi * 86400 - shift;
    let end_local = start_local + 86399;
    let start_ts = match resolve_local_forward(zone, start_local) {
        Some(u) => u,
        None => {
            return None;
        },
    };
    let end_ts = match resolve_local_forward(zone, end_local) {
        Some(u) => u,
        None => {
            return None;
        },
    };
    let sdi = match compute_utc_day_index(start_ts) {
        Some(v) => v,
        None => {
            return None;
        },
    };
    if sdi >= limit {
        return None;
    }
    let edi = match compute_utc_day_index(end_ts) {
        Some(v) => v,
        None => {
            return None;
        },
    };
    if edi >= limit {
        return None;
    }
    let start_civil = compute_civil_date(sdi);
    let end_civil = compute_civil_date(edi);
    let start_date = format_date(start_civil.0, start_civil.1, start_civil.2);
    let end_date = format_date(end_civil.0, end_civil.1, end_civil.2);
    proof {
        lemma_civil_of_index(start_civil.0 as int, start_civil.1 as int, start_civil.2 as int);
        lemma_civil_of_index(end_civil.0 as int, end_civil.1 as int, end_civil.2 as int);
    }
    Some(
        (
            CalendarDay {
                year: civil.0,
                month: civil.1,
                day: civil.2,
                zone: String::from_str(zone),
            },
            QueryWindow { start_ts, end_ts, start_date, end_date },
        ),
    )
}

} // verus!
