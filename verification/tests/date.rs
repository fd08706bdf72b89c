use tira::date::{civil_from_days, days_from_civil, days_since_epoch, iso_to_days, month_length, next_month, today_days};

#[test]
fn epoch_and_known_dates_map_to_expected_day_counts() {
    assert_eq!(days_from_civil(1970, 1, 1), 0);
    assert_eq!(days_from_civil(1970, 1, 2), 1);
    assert_eq!(days_from_civil(1969, 12, 31), -1);
    // 2000-03-01 is 11017 days after the epoch (a well-known reference).
    assert_eq!(days_from_civil(2000, 3, 1), 11017);
}

#[test]
fn civil_round_trips_through_days() {
    for &(y, m, d) in &[(1970, 1, 1), (2024, 2, 29), (2026, 6, 11), (1999, 12, 31)] {
        let days = days_from_civil(y, m, d);
        assert_eq!(civil_from_days(days), (y, m, d));
    }
}

#[test]
fn iso_prefix_parses_and_ignores_time_and_zone() {
    assert_eq!(
        iso_to_days("2026-06-03T10:30:55+0200"),
        Some(days_from_civil(2026, 6, 3))
    );
    assert_eq!(iso_to_days("not-a-date"), None);
    assert_eq!(iso_to_days("2026-13-01T00:00:00Z"), None);
}

#[test]
fn next_month_rolls_over_the_year() {
    assert_eq!(next_month(2026, 6), (2026, 7));
    assert_eq!(next_month(2026, 12), (2027, 1));
}

#[test]
fn days_before_the_epoch_and_across_eras_round_trip() {
    for &(y, m, d) in &[(1600, 3, 1), (1900, 2, 28), (2000, 2, 29), (-1, 12, 31), (2400, 12, 31)] {
        assert_eq!(civil_from_days(days_from_civil(y, m, d)), (y, m, d));
    }
    assert_eq!(civil_from_days(-719468), (0, 3, 1));
    assert_eq!(days_from_civil(0, 3, 1), -719468);
}

#[test]
fn every_day_of_a_leap_cycle_round_trips() {
    let start = days_from_civil(1999, 1, 1);
    let end = days_from_civil(2403, 1, 1);
    let mut previous = civil_from_days(start - 1);
    for days in start..end {
        let date = civil_from_days(days);
        assert_eq!(days_from_civil(date.0, date.1, date.2), days);
        assert_ne!(date, previous);
        previous = date;
    }
}

#[test]
fn short_and_oddly_cut_timestamps_are_not_dates() {
    assert_eq!(iso_to_days("2026-06-0"), None);
    assert_eq!(iso_to_days("2026-06"), None);
    assert_eq!(iso_to_days("2026-06-00T"), None);
    assert_eq!(iso_to_days("2026-06-32T"), None);
    assert_eq!(iso_to_days("+2026-6-03"), Some(days_from_civil(2026, 6, 3)));
    assert_eq!(iso_to_days("-1-12-31xx"), None);
    assert_eq!(iso_to_days("1-2-3-éé"), Some(days_from_civil(1, 2, 3)));
    assert_eq!(iso_to_days("1-2-3-ééé"), Some(days_from_civil(1, 2, 3)));
    assert_eq!(iso_to_days("1-2-3-aééé"), None);
    assert_eq!(iso_to_days("2026-+6-03"), Some(days_from_civil(2026, 6, 3)));
    assert_eq!(iso_to_days("2026--6-03"), None);
}

#[test]
fn seconds_become_whole_days() {
    assert_eq!(days_since_epoch(None), 0);
    assert_eq!(days_since_epoch(Some(86_399)), 0);
    assert_eq!(days_since_epoch(Some(86_400 * 3 + 5)), 3);
    assert!(today_days() > days_from_civil(2020, 1, 1));
}

#[test]
fn impossible_calendar_days_are_no_date() {
    assert_eq!(iso_to_days("2026-02-31"), None);
    assert_eq!(iso_to_days("2023-02-29T10:00:00.000+0200"), None);
    assert_eq!(iso_to_days("2026-04-31"), None);
    assert_eq!(iso_to_days("2024-02-29"), Some(days_from_civil(2024, 2, 29)));
    assert_eq!(iso_to_days("2000-02-29"), Some(days_from_civil(2000, 2, 29)));
    assert_eq!(iso_to_days("1900-02-29"), None);
    assert_eq!(month_length(2024, 2), 29);
    assert_eq!(month_length(-4, 2), 29);
    assert_eq!(month_length(-100, 2), 28);
    assert_eq!(month_length(2026, 11), 30);
}
