use chrono::Datelike;
use skool::dates::{
    civil_from_days, days_from_civil, is_leap, iso_week_of_day, iso_weeks_in_year,
    weekday_from_days, DateRange, DayBound, IsoWeek,
};

#[test]
fn epoch_is_day_zero() {
    assert_eq!(days_from_civil(1970, 1, 1), 0);
    assert_eq!(days_from_civil(1970, 1, 2), 1);
    assert_eq!(days_from_civil(1969, 12, 31), -1);
}

#[test]
fn civil_matches_chrono() {
    let cases = [
        (2024i32, 3u8, 4u8),
        (2024, 2, 29),
        (2000, 1, 1),
        (1999, 12, 31),
        (1, 1, 1),
        (9999, 12, 31),
    ];
    for (y, m, d) in cases {
        let expected = chrono::NaiveDate::from_ymd_opt(y, m as u32, d as u32)
            .unwrap()
            .signed_duration_since(chrono::NaiveDate::from_ymd_opt(1970, 1, 1).unwrap())
            .num_days();
        assert_eq!(days_from_civil(y, m, d), expected);
    }
}

#[test]
fn civil_round_trip() {
    for days in [-719162i64, -1, 0, 1, 19786, 2932896] {
        let (y, m, d) = civil_from_days(days);
        assert_eq!(days_from_civil(y, m, d), days);
    }
}

#[test]
fn civil_of_known_days() {
    assert_eq!(civil_from_days(0), (1970, 1, 1));
    assert_eq!(civil_from_days(19786), (2024, 3, 4));
    assert_eq!(civil_from_days(-719162), (1, 1, 1));
    assert_eq!(civil_from_days(2932896), (9999, 12, 31));
    // a leap day
    assert_eq!(civil_from_days(days_from_civil(2024, 2, 29)), (2024, 2, 29));
}

#[test]
fn weekday_of_known_days() {
    // 1970-01-01 was a Thursday.
    assert_eq!(weekday_from_days(0), 4);
    // 2024-03-04 was a Monday.
    assert_eq!(weekday_from_days(days_from_civil(2024, 3, 4)), 1);
    // 2024-03-10 was a Sunday.
    assert_eq!(weekday_from_days(days_from_civil(2024, 3, 10)), 7);
}

#[test]
fn leap_years() {
    assert!(is_leap(2000));
    assert!(is_leap(2024));
    assert!(!is_leap(1900));
    assert!(!is_leap(2023));
}

#[test]
fn weeks_in_year_matches_iso() {
    assert_eq!(iso_weeks_in_year(2020), 53);
    assert_eq!(iso_weeks_in_year(2024), 52);
    assert_eq!(iso_weeks_in_year(2015), 53);
}

#[test]
fn week_mondays_match_chrono() {
    for (y, w) in [(2024i32, 10u8), (2024, 6), (2020, 53), (2021, 1)] {
        let week = IsoWeek { year: y, week: w };
        assert!(week.valid());
        let monday = week.with_weekday(1);
        let expected = chrono::NaiveDate::from_isoywd_opt(y, w as u32, chrono::Weekday::Mon)
            .unwrap()
            .signed_duration_since(chrono::NaiveDate::from_ymd_opt(1970, 1, 1).unwrap())
            .num_days();
        assert_eq!(monday, expected);
    }
}

#[test]
fn week_of_day_round_trip() {
    for days in [0i64, 19786, 18200, -3] {
        let week = iso_week_of_day(days);
        let expected = chrono::NaiveDate::from_ymd_opt(1970, 1, 1)
            .unwrap()
            .checked_add_signed(chrono::Duration::days(days))
            .unwrap()
            .iso_week();
        assert_eq!(week.year, expected.year());
        assert_eq!(week.week as u32, expected.week());
    }
}

#[test]
fn range_bounds() {
    let range = DateRange {
        start: DayBound::Included(10),
        end: DayBound::Excluded(20),
    };
    assert!(range.contains(10));
    assert!(range.contains(19));
    assert!(!range.contains(9));
    assert!(!range.contains(20));
    let full = DateRange::full();
    assert!(full.contains(-100000));
    assert!(full.contains(100000));
}
