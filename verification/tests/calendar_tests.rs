use spotday::calendar::compute_civil_date;
use spotday::calendar::compute_day_index;
use spotday::calendar::compute_days_before_year;
use spotday::calendar::format_date;
use spotday::calendar::leap_year;
use spotday::calendar::month_days;

#[test]
fn leap_year_rules() {
    assert!(leap_year(2024));
    assert!(!leap_year(2023));
    assert!(!leap_year(1900));
    assert!(leap_year(2000));
}

#[test]
fn month_lengths() {
    assert_eq!(month_days(2024, 2), 29);
    assert_eq!(month_days(2023, 2), 28);
    assert_eq!(month_days(2024, 1), 31);
    assert_eq!(month_days(2024, 4), 30);
    assert_eq!(month_days(2024, 12), 31);
}

#[test]
fn unix_epoch_day_index() {
    // 1970-01-01 is 719162 days after 0001-01-01, proleptic Gregorian.
    assert_eq!(compute_day_index(1970, 1, 1), 719162);
}

#[test]
fn day_index_round_trips() {
    assert_eq!(compute_civil_date(719162), (1970, 1, 1));
    let di = compute_day_index(2024, 2, 29);
    assert_eq!(compute_civil_date(di), (2024, 2, 29));
    let di2 = compute_day_index(1999, 12, 31);
    assert_eq!(compute_civil_date(di2), (1999, 12, 31));
    assert_eq!(compute_civil_date(di2 + 1), (2000, 1, 1));
    assert_eq!(compute_civil_date(0), (1, 1, 1));
}

#[test]
fn day_index_agrees_with_unix_days() {
    // 2024-01-15 is Unix day 19737.
    assert_eq!(compute_day_index(2024, 1, 15) - compute_day_index(1970, 1, 1), 19737);
}

#[test]
fn days_before_year_totals() {
    assert_eq!(compute_days_before_year(2), 365);
    assert_eq!(compute_days_before_year(5), 4 * 365 + 1);
}

#[test]
fn formats_dates_with_padding() {
    assert_eq!(format_date(2024, 1, 15), "2024-01-15");
    assert_eq!(format_date(987, 12, 3), "0987-12-03");
    assert_eq!(format_date(1, 1, 1), "0001-01-01");
    assert_eq!(format_date(9999, 10, 31), "9999-10-31");
}
