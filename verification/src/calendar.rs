//! Proleptic Gregorian calendar arithmetic on plain integers.
//!
//! A civil date (year, month, day) is mapped to a *day index*: the number of
//! days since 0001-01-01. All conversions between instants and civil dates in
//! this crate go through day indexes, so the calendar rules live here once.

use vstd::prelude::*;

verus! {

use vstd::string::StringExecFns;

/// A Gregorian leap year: divisible by 4, except centuries not divisible by 400.
pub open spec fn is_leap_year(y: int) -> bool {
    y % 4 == 0 && (y % 100 != 0 || y % 400 == 0)
}

/// Number of days in a civil year.
pub open spec fn days_in_year(y: int) -> int {
    if is_leap_year(y) {
        366
    } else {
        365
    }
}

/// Number of days in a month of a given year (month numbered 1 to 12).
pub open spec fn days_in_month(y: int, m: int) -> int {
    if m == 2 {
        if is_leap_year(y) {
            29
        } else {
            28
        }
    } else if m == 4 || m == 6 || m == 9 || m == 11 {
        30
    } else {
        31
    }
}

/// Days from 0001-01-01 up to the first day of year `y`.
pub open spec fn days_before_year(y: int) -> int
    decreases y,
{
    if y <= 1 {
        0
    } else {
        days_before_year(y - 1) + days_in_year(y - 1)
    }
}

/// Days from the first of January of year `y` up to the first day of month `m`.
pub open spec fn days_before_month(y: int, m: int) -> int
    decreases m,
{
    if m <= 1 {
        0
    } else {
        days_before_month(y, m - 1) + days_in_month(y, m - 1)
    }
}

/// A civil date this crate supports: years 1 to 9999, a real month and day.
pub open spec fn valid_date(y: int, m: int, d: int) -> bool {
    &&& 1 <= y < 10000
    &&& 1 <= m <= 12
    &&& 1 <= d <= days_in_month(y, m)
}

/// Day index of a civil date: days since 0001-01-01 (which has index 0).
pub open spec fn day_index(y: int, m: int, d: int) -> int {
    days_before_year(y) + days_before_month(y, m) + d - 1
}

/// One past the largest supported day index.
pub open spec fn day_index_limit() -> int {
    days_before_year(10000)
}

pub proof fn lemma_days_before_year_bounds(y: int)
    requires
        1 <= y,
    ensures
        365 * (y - 1) <= days_before_year(y) <= 366 * (y - 1),
    decreases y,
{
    if y > 1 {
        lemma_days_before_year_bounds(y - 1);
    }
}

pub proof fn lemma_days_before_year_mono(y1: int, y2: int)
    requires
        y1 <= y2,
    ensures
        days_before_year(y1) <= days_before_year(y2),
        y1 >= 1 && y1 < y2 ==> days_before_year(y1) + days_in_year(y1) <= days_before_year(y2),
    decreases y2 - y1,
{
    if y1 < y2 {
        lemma_days_before_year_mono(y1, y2 - 1);
    }
}

pub proof fn lemma_days_before_month_mono(y: int, m1: int, m2: int)
    requires
        m1 <= m2,
    ensures
        days_before_month(y, m1) <= days_before_month(y, m2),
        m1 >= 1 && m1 < m2 ==> days_before_month(y, m1) + days_in_month(y, m1)
            <= days_before_month(y, m2),
    decreases m2 - m1,
{
    if m1 < m2 {
        lemma_days_before_month_mono(y, m1, m2 - 1);
    }
}

/// The twelve months of a year sum to that year's length.
pub proof fn lemma_months_cover_year(y: int)
    ensures
        days_before_month(y, 13) == days_in_year(y),
{
    reveal_with_fuel(days_before_month, 14);
}

/// A valid date's day index sits inside its year's slice of the day line.
pub proof fn lemma_day_index_range(y: int, m: int, d: int)
    requires
        valid_date(y, m, d),
    ensures
        days_before_year(y) <= day_index(y, m, d),
        day_index(y, m, d) < days_before_year(y) + days_in_year(y),
        days_before_year(y) + days_in_year(y) == days_before_year(y + 1),
        0 <= day_index(y, m, d) < day_index_limit(),
{
    lemma_days_before_month_mono(y, 1, m);
    lemma_days_before_month_mono(y, m + 1, 13);
    lemma_days_before_month_mono(y, m, m + 1);
    lemma_months_cover_year(y);
    lemma_days_before_year_mono(1, y);
    lemma_days_before_year_mono(y + 1, 10000);
    assert(days_before_year(y + 1) == days_before_year(y) + days_in_year(y));
}

/// Day indexes determine civil dates: no two valid dates share one.
pub proof fn lemma_day_index_injective(y1: int, m1: int, d1: int, y2: int, m2: int, d2: int)
    requires
        valid_date(y1, m1, d1),
        valid_date(y2, m2, d2),
        day_index(y1, m1, d1) == day_index(y2, m2, d2),
    ensures
        y1 == y2 && m1 == m2 && d1 == d2,
{
    lemma_day_index_range(y1, m1, d1);
    lemma_day_index_range(y2, m2, d2);
    if y1 < y2 {
        lemma_days_before_year_mono(y1 + 1, y2);
        assert(false);
    }
    if y2 < y1 {
        lemma_days_before_year_mono(y2 + 1, y1);
        assert(false);
    }
    // Same year: compare the month slices.
    if m1 < m2 {
        lemma_days_before_month_mono(y1, m1 + 1, m2);
        lemma_days_before_month_mono(y1, m1, m1 + 1);
        assert(false);
    }
    if m2 < m1 {
        lemma_days_before_month_mono(y1, m2 + 1, m1);
        lemma_days_before_month_mono(y1, m2, m2 + 1);
        assert(false);
    }
}

/// Whether a year is a Gregorian leap year.
pub fn leap_year(y: i64) -> (r: bool)
    requires
        0 <= y,
    ensures
        r == is_leap_year(y as int),
{
    y % 4 == 0 && (y % 100 != 0 || y % 400 == 0)
}

/// Length of a month in days.
pub fn month_days(y: i64, m: i64) -> (r: i64)
    requires
        0 <= y,
        1 <= m <= 12,
    ensures
        r == days_in_month(y as int, m as int),
{
    if m == 2 {
        if leap_year(y) {
            29
        } else {
            28
        }
    } else if m == 4 || m == 6 || m == 9 || m == 11 {
        30
    } else {
        31
    }
}

/// Length of a year in days.
pub fn year_days(y: i64) -> (r: i64)
    requires
        0 <= y,
    ensures
        r == days_in_year(y as int),
{
    if leap_year(y) {
        366
    } else {
        365
    }
}

/// Days from 0001-01-01 up to the first day of year `y`.
pub fn compute_days_before_year(y: i64) -> (r: i64)
    requires
        1 <= y <= 10000,
    ensures
        r == days_before_year(y as int),
{
    let mut acc: i64 = 0;
    let mut i: i64 = 1;
    while i < y
        invariant
            1 <= i <= y <= 10000,
            acc == days_before_year(i as int),
            0 <= acc <= 366 * (i - 1),
        decreases y - i,
    {
        acc = acc + year_days(i);
        i = i + 1;
    }
    acc
}

/// Day index (days since 0001-01-01) of a valid civil date.
pub fn compute_day_index(y: i64, m: i64, d: i64) -> (r: i64)
    requires
        valid_date(y as int, m as int, d as int),
    ensures
        r == day_index(y as int, m as int, d as int),
        0 <= r < day_index_limit(),
{
    let before_year = compute_days_before_year(y);
    proof {
        lemma_days_before_year_bounds(y as int);
    }
    let mut before_month: i64 = 0;
    let mut i: i64 = 1;
    while i < m
        invariant
            1 <= i <= m <= 12,
            0 <= y < 10000,
            before_month == days_before_month(y as int, i as int),
            0 <= before_month <= 31 * (i - 1),
        decreases m - i,
    {
        before_month = before_month + month_days(y, i);
        i = i + 1;
    }
    proof {
        lemma_day_index_range(y as int, m as int, d as int);
    }
    before_year + before_month + d - 1
}

/// Civil date of a day index: the inverse of `compute_day_index`.
pub fn compute_civil_date(di: i64) -> (r: (i64, i64, i64))
    requires
        0 <= di < day_index_limit(),
    ensures
        valid_date(r.0 as int, r.1 as int, r.2 as int),
        day_index(r.0 as int, r.1 as int, r.2 as int) == di,
{
    let mut y: i64 = 1;
    let mut acc: i64 = 0;
    while y < 10000
        invariant_except_break
            1 <= y <= 10000,
            acc == days_before_year(y as int),
            acc <= di < day_index_limit(),
            0 <= acc <= 366 * (y - 1),
        ensures
            1 <= y < 10000,
            acc == days_before_year(y as int),
            acc <= di,
            di < acc + days_in_year(y as int),
            0 <= acc,
        decreases 10000 - y,
    {
        let yd = year_days(y);
        if acc + yd <= di {
            acc = acc + yd;
            y = y + 1;
            proof {
                if y == 10000 {
                    assert(days_before_year(10000) == days_before_year(9999) + days_in_year(
                        9999,
                    ));
                    assert(false);
                }
            }
        } else {
            break ;
        }
    }
    let rem = di - acc;
    let mut m: i64 = 1;
    let mut macc: i64 = 0;
    while m < 12
        invariant_except_break
            1 <= m <= 12,
            1 <= y < 10000,
            macc == days_before_month(y as int, m as int),
            0 <= macc <= rem,
            rem < days_in_year(y as int),
            rem == di - days_before_year(y as int),
            acc == days_before_year(y as int),
        ensures
            1 <= m <= 12,
            macc == days_before_month(y as int, m as int),
            0 <= macc <= rem,
            rem - macc < days_in_month(y as int, m as int) || m == 12,
            rem == di - days_before_year(y as int),
            acc == days_before_year(y as int),
            1 <= y < 10000,
        decreases 12 - m,
    {
        let md = month_days(y, m);
        if macc + md <= rem {
            macc = macc + md;
            m = m + 1;
        } else {
            break ;
        }
    }
    proof {
        if rem - macc >= days_in_month(y as int, m as int) {
            // Only reachable when the loop ran to m == 12 without breaking.
            lemma_months_cover_year(y as int);
            assert(days_before_month(y as int, 13) == days_before_month(y as int, 12)
                + days_in_month(y as int, 12));
            assert(false);
        }
    }
    let d = rem - macc + 1;
    (y, m, d)
}

/// The decimal digit characters, by value.
pub open spec fn digit_char(v: int) -> char {
    if v == 0 {
        '0'
    } else if v == 1 {
        '1'
    } else if v == 2 {
        '2'
    } else if v == 3 {
        '3'
    } else if v == 4 {
        '4'
    } else if v == 5 {
        '5'
    } else if v == 6 {
        '6'
    } else if v == 7 {
        '7'
    } else if v == 8 {
        '8'
    } else {
        '9'
    }
}

/// The ten characters `YYYY-MM-DD` that write a civil date.
pub open spec fn date_chars(y: int, m: int, d: int) -> Seq<char> {
    seq![
        digit_char(y / 1000 % 10),
        digit_char(y / 100 % 10),
        digit_char(y / 10 % 10),
        digit_char(y % 10),
        '-',
        digit_char(m / 10 % 10),
        digit_char(m % 10),
        '-',
        digit_char(d / 10 % 10),
        digit_char(d % 10),
    ]
}

fn digit_str(v: u64) -> (r: &'static str)
    requires
        v < 10,
    ensures
        r@ == seq![digit_char(v as int)],
{
    if v == 0 {
        proof {
            reveal_strlit("0");
            assert("0"@ =~= seq![digit_char(0)]);
        }
        "0"
    } else if v == 1 {
        proof {
            reveal_strlit("1");
            assert("1"@ =~= seq![digit_char(1)]);
        }
        "1"
    } else if v == 2 {
        proof {
            reveal_strlit("2");
            assert("2"@ =~= seq![digit_char(2)]);
        }
        "2"
    } else if v == 3 {
        proof {
            reveal_strlit("3");
            assert("3"@ =~= seq![digit_char(3)]);
        }
        "3"
    } else if v == 4 {
        proof {
            reveal_strlit("4");
            assert("4"@ =~= seq![digit_char(4)]);
        }
        "4"
    } else if v == 5 {
        proof {
            reveal_strlit("5");
            assert("5"@ =~= seq![digit_char(5)]);
        }
        "5"
    } else if v == 6 {
        proof {
            reveal_strlit("6");
            assert("6"@ =~= seq![digit_char(6)]);
        }
        "6"
    } else if v == 7 {
        proof {
            reveal_strlit("7");
            assert("7"@ =~= seq![digit_char(7)]);
        }
        "7"
    } else if v == 8 {
        proof {
            reveal_strlit("8");
            assert("8"@ =~= seq![digit_char(8)]);
        }
        "8"
    } else {
        proof {
            reveal_strlit("9");
            assert("9"@ =~= seq![digit_char(9)]);
        }
        "9"
    }
}

/// Writes a civil date as the ten characters `YYYY-MM-DD`.
pub fn format_date(y: i64, m: i64, d: i64) -> (s: String)
    requires
        1 <= y < 10000,
        1 <= m <= 99,
        1 <= d <= 99,
    ensures
        s@ == date_chars(y as int, m as int, d as int),
{
    let yu = y as u64;
    let mu = m as u64;
    let du = d as u64;
    let mut s = String::new();
    s.append(digit_str(yu / 1000 % 10));
    s.append(digit_str(yu / 100 % 10));
    s.append(digit_str(yu / 10 % 10));
    s.append(digit_str(yu % 10));
    proof {
        reveal_strlit("-");
        assert("-"@ =~= seq!['-']);
    }
    s.append("-");
    s.append(digit_str(mu / 10 % 10));
    s.append(digit_str(mu % 10));
    s.append("-");
    s.append(digit_str(du / 10 % 10));
    s.append(digit_str(du % 10));
    proof {
        assert(s@ =~= date_chars(y as int, m as int, d as int));
    }
    s
}

} // verus!
