//! Named timezones, behind a narrow trusted boundary.
//!
//! Three facts about a timezone come from `chrono-tz` and are taken on trust:
//! whether a zone name is known, the zone's UTC offset at an instant, and how
//! the zone maps a local wall-clock second to UTC instants. Everything built
//! on them — in particular the forward scan past a spring-forward gap — is
//! verified.

use vstd::prelude::*;

verus! {

use vstd::arithmetic::div_mod::lemma_div_is_ordered;
use crate::calendar::day_index;
use crate::calendar::lemma_days_before_year_bounds;
use crate::calendar::compute_day_index;

/// Instants (seconds since the Unix epoch, UTC) this crate works with.
/// The range spans far past the supported civil years 1 to 9999 while
/// staying clear of `chrono`'s own limits, so the trusted calls below
/// cannot panic.
pub const TS_MIN: i64 = -4_000_000_000_000;

/// Largest supported instant; see `TS_MIN`.
pub const TS_MAX: i64 = 4_000_000_000_000;

/// How many seconds past a nonexistent local time the resolver will scan
/// forward for a valid one. Real spring-forward gaps are at most one day.
pub const GAP_SCAN: i64 = 90000;

/// Whether a zone name denotes a zone of the bundled tz database.
pub uninterp spec fn zone_known(zone: Seq<char>) -> bool;

/// The zone's UTC offset, in seconds, in effect at a UTC instant.
pub uninterp spec fn zone_offset(zone: Seq<char>, ts: int) -> int;

/// How the zone maps a local wall-clock second to UTC instants: `None` when
/// the local time does not exist (a spring-forward gap), otherwise the pair
/// of the earliest and latest UTC instant showing that local time (equal
/// outside fall-back overlaps).
pub uninterp spec fn zone_local_map(zone: Seq<char>, local: int) -> Option<(int, int)>;

/// How a zone maps one local wall-clock second to UTC instants.
pub enum LocalProjection {
    /// The local time does not exist in the zone (spring-forward gap).
    Absent,
    /// Exactly one UTC instant shows this local time.
    Unique(i64),
    /// Two UTC instants show this local time (fall-back overlap),
    /// earliest first.
    Twofold(i64, i64),
}

/// Relies on `chrono_tz::Tz`'s `FromStr`: a name parses exactly when it is a
/// zone of the tz database compiled into the crate.
#[verifier::external_body]
pub(crate) fn zone_exists(zone: &str) -> (r: bool)
    ensures
        r == zone_known(zone@),
{
    zone.parse::<chrono_tz::Tz>().is_ok()
}

/// Relies on `chrono_tz::Tz::offset_from_utc_datetime` (via
/// `chrono::Offset::fix`): the zone's offset at a UTC instant, a function of
/// the zone and the instant alone, kept strictly within one day by
/// `chrono::FixedOffset`.
#[verifier::external_body]
pub(crate) fn utc_offset_at(zone: &str, ts: i64) -> (r: i32)
    requires
        zone_known(zone@),
        TS_MIN <= ts <= TS_MAX,
    ensures
        r as int == zone_offset(zone@, ts as int),
        -86400 < r < 86400,
{
    let tz: chrono_tz::Tz = zone.parse().unwrap();
    let utc = chrono::DateTime::from_timestamp(ts, 0).unwrap().naive_utc();
    chrono::Offset::fix(&chrono::TimeZone::offset_from_utc_datetime(&tz, &utc)).local_minus_utc()
}

/// Relies on `chrono_tz::Tz::from_local_datetime`: how the zone maps a local
/// wall-clock second to UTC instants. Each returned instant `u` carries the
/// offset in effect at `u`, so it shows the given local time again:
/// `u + zone_offset(u) == local`; with an offset strictly within one day,
/// `u` stays within a day of `local`.
#[verifier::external_body]
pub(crate) fn project_local(zone: &str, local: i64) -> (r: LocalProjection)
    requires
        zone_known(zone@),
        TS_MIN <= local <= TS_MAX,
    ensures
        (match r {
            LocalProjection::Absent => zone_local_map(zone@, local as int) is None,
            LocalProjection::Unique(u) => {
                &&& zone_local_map(zone@, local as int) == Some((u as int, u as int))
                &&& u + zone_offset(zone@, u as int) == local
                &&& local - 86400 < u < local + 86400
            },
            LocalProjection::Twofold(a, b) => {
                &&& zone_local_map(zone@, local as int) == Some((a as int, b as int))
                &&& a < b
                &&& a + zone_offset(zone@, a as int) == local
                &&& b + zone_offset(zone@, b as int) == local
                &&& local - 86400 < a < local + 86400
                &&& local - 86400 < b < local + 86400
            },
        }),
{
    let tz: chrono_tz::Tz = zone.parse().unwrap();
    let naive = chrono::DateTime::from_timestamp(local, 0).unwrap().naive_utc();
    match chrono::TimeZone::from_local_datetime(&tz, &naive) {
        chrono::LocalResult::None => LocalProjection::Absent,
        chrono::LocalResult::Single(dt) => LocalProjection::Unique(dt.timestamp()),
        chrono::LocalResult::Ambiguous(a, b) => LocalProjection::Twofold(
            a.timestamp(),
            b.timestamp(),
        ),
    }
}

/// Seconds between day 0 of the day-index line (0001-01-01) and the Unix
/// epoch. Adding it to a Unix timestamp makes every supported instant's day
/// arithmetic nonnegative.
pub open spec fn epoch_day_shift() -> int {
    day_index(1970, 1, 1) * 86400
}

/// Day index (days since 0001-01-01) of the UTC civil date of an instant.
pub open spec fn utc_day_index(ts: int) -> int {
    (ts + epoch_day_shift()) / 86400
}

/// Day index of the civil date an instant shows on a zone's local clock.
pub open spec fn local_day_index(zone: Seq<char>, ts: int) -> int {
    utc_day_index(ts + zone_offset(zone, ts))
}

/// First second of a day, on the local clock, as seconds since the Unix
/// epoch read off that clock.
pub open spec fn day_start_local(di: int) -> int {
    di * 86400 - epoch_day_shift()
}

/// Last second (23:59:59) of a day on the local clock.
pub open spec fn day_end_local(di: int) -> int {
    day_start_local(di) + 86399
}

/// Seconds of `epoch_day_shift`, as a run-time value.
pub fn compute_epoch_shift() -> (r: i64)
    ensures
        r == epoch_day_shift(),
        0 < r <= 366 * 1969 * 86400,
{
    let di = compute_day_index(1970, 1, 1);
    proof {
        lemma_days_before_year_bounds(1970);
    }
    di * 86400
}

/// Day index of the UTC civil date of an instant; `None` when that date
/// falls before year 1.
pub fn compute_utc_day_index(ts: i64) -> (r: Option<i64>)
    requires
        TS_MIN - 2 * 86400 <= ts <= TS_MAX + 2 * 86400,
    ensures
        (match r {
            Some(di) => di == utc_day_index(ts as int) && di >= 0,
            None => utc_day_index(ts as int) < 0,
        }),
{
    let shift = compute_epoch_shift();
    let shifted = ts + shift;
    if shifted < 0 {
        proof {
            lemma_div_is_ordered(shifted as int, -1, 86400);
        }
        None
    } else {
        Some(((shifted as u64) / 86400) as i64)
    }
}

/// Day index of the civil date an instant shows in a zone; `None` when the
/// instant is out of range or its local date falls before year 1.
pub fn compute_local_day_index(zone: &str, ts: i64) -> (r: Option<i64>)
    requires
        zone_known(zone@),
    ensures
        (match r {
            Some(di) => {
                &&& TS_MIN <= ts <= TS_MAX
                &&& di == local_day_index(zone@, ts as int)
                &&& di >= 0
            },
            None => !(TS_MIN <= ts <= TS_MAX) || local_day_index(zone@, ts as int) < 0,
        }),
{
    if ts < TS_MIN || ts > TS_MAX {
        return None;
    }
    let off = utc_offset_at(zone, ts);
    let shift = compute_epoch_shift();
    let shifted = ts + off as i64 + shift;
    if shifted < 0 {
        proof {
            lemma_div_is_ordered(shifted as int, -1, 86400);
        }
        None
    } else {
        Some(((shifted as u64) / 86400) as i64)
    }
}

/// The UTC instant a local wall-clock second resolves to: the earliest
/// instant showing it, or — when the local time falls in a gap — the
/// earliest instant of the first later local time that exists, up to `fuel`
/// seconds ahead.
pub open spec fn forward_resolution(zone: Seq<char>, local: int, fuel: nat) -> Option<int>
    decreases fuel,
{
    match zone_local_map(zone, local) {
        Some(p) => Some(p.0),
        None => {
            if fuel == 0 {
                None
            } else {
                forward_resolution(zone, local + 1, (fuel - 1) as nat)
            }
        },
    }
}

/// Resolves a local wall-clock second of a zone to a UTC instant, shifting
/// forward past a spring-forward gap to the nearest valid local time.
pub fn resolve_local_forward(zone: &str, local: i64) -> (r: Option<i64>)
    requires
        zone_known(zone@),
        TS_MIN <= local,
        local + GAP_SCAN <= TS_MAX,
    ensures
        (match r {
            Some(u) => {
                &&& forward_resolution(zone@, local as int, GAP_SCAN as nat) == Some(u as int)
                &&& local - 86400 < u < local + GAP_SCAN + 86400
                &&& (zone_local_map(zone@, local as int) matches Some(p) ==> u == p.0 && u
                    + zone_offset(zone@, u as int) == local)
            },
            None => forward_resolution(zone@, local as int, GAP_SCAN as nat) is None,
        }),
{
    let mut k: i64 = 0;
    loop
        invariant
            0 <= k <= GAP_SCAN,
            zone_known(zone@),
            TS_MIN <= local,
            local + GAP_SCAN <= TS_MAX,
            k > 0 ==> zone_local_map(zone@, local as int) is None,
            forward_resolution(zone@, local as int, GAP_SCAN as nat) == forward_resolution(
                zone@,
                local + k,
                (GAP_SCAN - k) as nat,
            ),
        decreases GAP_SCAN - k,
    {
        match project_local(zone, local + k) {
            LocalProjection::Absent => {
                if k == GAP_SCAN {
                    return None;
                }
                proof {
                    assert(forward_resolution(zone@, local + k, (GAP_SCAN - k) as nat)
                        == forward_resolution(zone@, local + k + 1, (GAP_SCAN - k - 1) as nat));
                }
                k = k + 1;
            },
            LocalProjection::Unique(u) => {
                return Some(u);
            },
            LocalProjection::Twofold(a, b) => {
                return Some(a);
            },
        }
    }
}

} // verus!
