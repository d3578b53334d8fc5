use spotday::resolver::resolve_query;
use spotday::zone::resolve_local_forward;

#[test]
fn fixed_offset_day_windows_by_that_offset() {
    // 2024-01-15 has no DST transition in Berlin: the whole day is UTC+1,
    // so the window is local midnight / 23:59:59 shifted by exactly 3600 s.
    let now = 1_705_312_800; // 2024-01-15T10:00:00Z, 11:00 local
    let (day, window) = resolve_query(now, "Europe/Berlin").unwrap();
    assert_eq!((day.year, day.month, day.day), (2024, 1, 15));
    assert_eq!(day.zone, "Europe/Berlin");
    assert_eq!(window.start_ts, 1_705_273_200); // 2024-01-14T23:00:00Z
    assert_eq!(window.end_ts, 1_705_273_200 + 86_399); // 2024-01-15T22:59:59Z
    assert_eq!(window.start_date, "2024-01-14");
    assert_eq!(window.end_date, "2024-01-15");
}

#[test]
fn spring_forward_day_still_resolves() {
    // 2024-03-31: Berlin jumps 02:00 -> 03:00, a 23-hour civil day.
    // Midnight exists (UTC+1); the day ends under UTC+2.
    let now = 1_711_886_400; // 2024-03-31T12:00:00Z, 14:00 local
    let (day, window) = resolve_query(now, "Europe/Berlin").unwrap();
    assert_eq!((day.year, day.month, day.day), (2024, 3, 31));
    assert_eq!(window.start_ts, 1_711_839_600); // 2024-03-30T23:00:00Z
    assert_eq!(window.end_ts, 1_711_922_399); // 2024-03-31T21:59:59Z
    assert_eq!(window.end_ts - window.start_ts + 1, 23 * 3600);
    assert_eq!(window.start_date, "2024-03-30");
    assert_eq!(window.end_date, "2024-03-31");
}

#[test]
fn fall_back_day_spans_twenty_five_hours() {
    // 2024-10-27: Berlin falls back 03:00 -> 02:00, a 25-hour civil day.
    let now = 1_730_030_400; // 2024-10-27T12:00:00Z, 13:00 local
    let (day, window) = resolve_query(now, "Europe/Berlin").unwrap();
    assert_eq!((day.year, day.month, day.day), (2024, 10, 27));
    assert_eq!(window.start_ts, 1_729_980_000); // 2024-10-26T22:00:00Z (UTC+2)
    assert_eq!(window.end_ts, 1_730_069_999); // 2024-10-27T22:59:59Z (UTC+1)
    assert_eq!(window.end_ts - window.start_ts + 1, 25 * 3600);
    assert_eq!(window.start_date, "2024-10-26");
    assert_eq!(window.end_date, "2024-10-27");
}

#[test]
fn repeated_local_time_resolves_to_earliest_instant() {
    // 02:30 local on Berlin's fall-back day exists twice; the earlier UTC
    // instant (under UTC+2, before the clocks went back) wins.
    let local_0230 = 1_729_987_200 + 9_000; // 2024-10-27, 02:30 on the local clock
    let resolved = resolve_local_forward("Europe/Berlin", local_0230).unwrap();
    assert_eq!(resolved, local_0230 - 7_200); // 2024-10-27T00:30:00Z
}

#[test]
fn nonexistent_local_time_resolves_past_the_gap() {
    // 02:30 local on Berlin's spring-forward day 2024-03-31 does not exist:
    // the scan moves forward to 03:00 local, i.e. 01:00:00Z.
    let local_0230 = 1_711_843_200 + 9_000;
    let resolved = resolve_local_forward("Europe/Berlin", local_0230).unwrap();
    assert_eq!(resolved, 1_711_843_200 + 3_600); // 2024-03-31T01:00:00Z
}

#[test]
fn midnight_gap_shifts_forward_to_nearest_valid_instant() {
    // Sao Paulo began DST at midnight on 2018-11-04: local 00:00..00:59:59
    // did not exist. The day's start resolves forward to 01:00 local, which
    // is 2018-11-04T03:00:00Z — the same instant local midnight would have
    // mapped to from the other side of the gap.
    let now = 1_541_332_800; // 2018-11-04T12:00:00Z, 10:00 local (UTC-2)
    let (day, window) = resolve_query(now, "America/Sao_Paulo").unwrap();
    assert_eq!((day.year, day.month, day.day), (2018, 11, 4));
    assert_eq!(window.start_ts, 1_541_300_400); // 2018-11-04T03:00:00Z
    assert_eq!(window.end_ts, 1_541_289_600 + 86_399 + 7_200); // 2018-11-05T01:59:59Z
    assert_eq!(window.start_date, "2018-11-04");
    assert_eq!(window.end_date, "2018-11-05");
}

#[test]
fn local_date_can_differ_from_utc_date() {
    // 2024-01-15T23:30:00Z is already 2024-01-16 00:30 in Berlin.
    let now = 1_705_276_800 + 86_400 - 1_800;
    let (day, _window) = resolve_query(now, "Europe/Berlin").unwrap();
    assert_eq!((day.year, day.month, day.day), (2024, 1, 16));
}

#[test]
fn unknown_zone_resolves_to_nothing() {
    assert!(resolve_query(1_705_312_800, "Atlantis/Nowhere").is_none());
    assert!(resolve_query(1_705_312_800, "").is_none());
}

#[test]
fn out_of_range_instant_resolves_to_nothing() {
    assert!(resolve_query(4_100_000_000_000, "Europe/Berlin").is_none());
    assert!(resolve_query(-4_100_000_000_000, "Europe/Berlin").is_none());
}

#[test]
fn utc_zone_day_aligns_with_utc() {
    let now = 1_705_312_800; // 2024-01-15T10:00:00Z
    let (day, window) = resolve_query(now, "UTC").unwrap();
    assert_eq!((day.year, day.month, day.day), (2024, 1, 15));
    assert_eq!(window.start_ts, 1_705_276_800);
    assert_eq!(window.end_ts, 1_705_276_800 + 86_399);
    assert_eq!(window.start_date, "2024-01-15");
    assert_eq!(window.end_date, "2024-01-15");
}
