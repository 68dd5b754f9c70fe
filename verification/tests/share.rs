use skool::dates::{days_from_civil, DateRange, DayBound, IsoWeek};
use skool::error::AppError;
use skool::share::{authorize_week, ical_weeks, resolve_share, Id, Link, LinkRow, Options};

fn range_2024_feb_to_mar() -> DateRange {
    DateRange {
        start: DayBound::Included(days_from_civil(2024, 2, 5)),
        end: DayBound::Included(days_from_civil(2024, 3, 10)),
    }
}

#[test]
fn week_window_permits_and_denies() {
    let range = range_2024_feb_to_mar();
    // 2024-W6: Monday 2024-02-05, Sunday 2024-02-11 — inside.
    assert!(authorize_week(&range, IsoWeek { year: 2024, week: 6 }).is_ok());
    // 2024-W11: Sunday 2024-03-17 falls outside.
    assert!(matches!(
        authorize_week(&range, IsoWeek { year: 2024, week: 11 }),
        Err(AppError::InvalidShareLink)
    ));
    // 2024-W5: Monday 2024-01-29 falls outside.
    assert!(matches!(
        authorize_week(&range, IsoWeek { year: 2024, week: 5 }),
        Err(AppError::InvalidShareLink)
    ));
}

#[test]
fn expiry_denies_at_and_after() {
    let row = LinkRow {
        owner: [7; 16],
        expires_at: Some(1000),
        range: DateRange::full(),
    };
    assert!(matches!(
        resolve_share(Some(row), 1000),
        Err(AppError::InvalidShareLink)
    ));
    assert!(matches!(
        resolve_share(Some(row), 5000),
        Err(AppError::InvalidShareLink)
    ));
    let (owner, _) = resolve_share(Some(row), 999).unwrap();
    assert_eq!(owner, [7; 16]);
}

#[test]
fn missing_row_is_invalid_link() {
    assert!(matches!(
        resolve_share(None, 0),
        Err(AppError::InvalidShareLink)
    ));
}

#[test]
fn link_without_expiry_never_expires() {
    let row = LinkRow {
        owner: [1; 16],
        expires_at: None,
        range: DateRange::full(),
    };
    assert!(resolve_share(Some(row), i64::MAX).is_ok());
}

#[test]
fn fresh_ids_differ() {
    let a = Id::new();
    let b = Id::new();
    assert_ne!(a.bytes, b.bytes);
}

#[test]
fn new_link_is_unused() {
    let link = Link::new(Options::default());
    assert!(link.last_used.is_none());
    assert!(link.options.expires_at.is_none());
}

#[test]
fn ical_weeks_caps_at_28() {
    let today = days_from_civil(2024, 3, 4);
    let weeks = ical_weeks(today, &DateRange::full());
    assert_eq!(weeks.len(), 28);
    // Starts four weeks before today.
    assert_eq!(weeks[0].year, 2024);
    assert_eq!(weeks[0].week, 6);
    assert_eq!(weeks[1].week, 7);
}

#[test]
fn ical_weeks_stops_at_range_edge() {
    let today = days_from_civil(2024, 3, 4);
    let weeks = ical_weeks(today, &range_2024_feb_to_mar());
    // Weeks 6 through 10 of 2024 fit wholly inside the range.
    assert_eq!(weeks.len(), 5);
    assert_eq!(weeks[0].week, 6);
    assert_eq!(weeks[4].week, 10);
}
