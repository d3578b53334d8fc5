//! A calendar day: a civil date interpreted in a named timezone.

use vstd::prelude::*;

verus! {

use vstd::string::StringExecFns;
use crate::calendar::valid_date;
use crate::calendar::day_index;
use crate::calendar::month_days;
use crate::zone::zone_known;
use crate::zone::zone_exists;

/// A civil date (year, month, day) together with the timezone it is
/// interpreted in. Produced once per run by the resolver, or checked by
/// `CalendarDay::new`.
pub struct CalendarDay {
    pub year: i64,
    pub month: i64,
    pub day: i64,
    pub zone: String,
}

impl CalendarDay {
    /// The date is a real civil date and the zone names a known timezone.
    pub open spec fn wf(&self) -> bool {
        &&& valid_date(self.year as int, self.month as int, self.day as int)
        &&& zone_known(self.zone@)
    }

    /// Day index (days since 0001-01-01) of the civil date.
    pub open spec fn index(&self) -> int {
        day_index(self.year as int, self.month as int, self.day as int)
    }

    /// Builds a well-formed calendar day, or nothing when the date is not a
    /// real civil date of years 1 to 9999 or the zone name is unknown.
    pub fn new(year: i64, month: i64, day: i64, zone: &str) -> (r: Option<CalendarDay>)
        ensures
            (match r {
                Some(cd) => {
                    &&& cd.year == year
                    &&& cd.month == month
                    &&& cd.day == day
                    &&& cd.zone@ == zone@
                    &&& cd.wf()
                },
                None => !(valid_date(year as int, month as int, day as int) && zone_known(
                    zone@,
                )),
            }),
    {
        if 1 <= year && year < 10000 && 1 <= month && month <= 12 && 1 <= day && day
            <= month_days(year, month) && zone_exists(zone) {
            Some(CalendarDay { year, month, day, zone: String::from_str(zone) })
        } else {
            None
        }
    }
}

} // verus!
