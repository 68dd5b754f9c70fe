use skool::agenda::{build_calendar, event_text, format_utc, ical_escape, Lesson};
use skool::class::{from_filters, SchoolHash};
use skool::dates::{days_from_civil, IsoWeek};
use skool::error::AppError;
use skool::query::{parse_schedule_query, Selection};
use skool::schedule::{Class, Filters, Student};
use skool::share::Id;
use skool::System;

#[test]
fn school_hash_is_deterministic_and_distinct() {
    let a = SchoolHash::new(System::Skolplattformen, b"unit-1");
    let b = SchoolHash::new(System::Skolplattformen, b"unit-1");
    let c = SchoolHash::new(System::Skolplattformen, b"unit-2");
    assert_eq!(a.bytes, b.bytes);
    assert_ne!(a.bytes, c.bytes);
    assert_eq!(a.bytes.len(), 32);
}

#[test]
fn school_hash_matches_tagged_digest() {
    let h = SchoolHash::new(System::Skolplattformen, b"unit-1");
    let mut input = vec![System::Skolplattformen.as_u8()];
    input.extend_from_slice(b"unit-1");
    assert_eq!(h.bytes, *blake3::hash(&input).as_bytes());
}

fn filters(classes: Vec<Class>) -> Filters {
    Filters {
        classes,
        students: vec![Student { person_guid: "p".to_string() }],
    }
}

#[test]
fn class_needs_exactly_one_filter_entry() {
    let one = filters(vec![Class {
        group_guid: "G".to_string(),
        group_name: "8A".to_string(),
    }]);
    let class = from_filters("unit-1", &one).unwrap();
    assert_eq!(class.reference, "G");
    assert_eq!(class.name, "8A");
    assert_eq!(
        class.school.bytes,
        SchoolHash::new(System::Skolplattformen, b"unit-1").bytes
    );

    assert!(from_filters("unit-1", &filters(vec![])).is_err());
    let two = filters(vec![
        Class { group_guid: "G".to_string(), group_name: "8A".to_string() },
        Class { group_guid: "H".to_string(), group_name: "8B".to_string() },
    ]);
    assert!(from_filters("unit-1", &two).is_err());
}

fn this_week() -> IsoWeek {
    IsoWeek { year: 2024, week: 10 }
}

#[test]
fn query_with_year_and_week() {
    let q = parse_schedule_query(Some(2024), Some(10), None, None, this_week()).unwrap();
    assert_eq!(q.week.year, 2024);
    assert_eq!(q.week.week, 10);
    assert!(matches!(q.selection, Selection::CurrentUser));
}

#[test]
fn query_defaults_to_current_week() {
    let q = parse_schedule_query(None, None, None, None, this_week()).unwrap();
    assert_eq!(q.week.year, 2024);
    assert_eq!(q.week.week, 10);
}

#[test]
fn query_rejects_half_a_week() {
    assert!(parse_schedule_query(Some(2024), None, None, None, this_week()).is_err());
    assert!(parse_schedule_query(None, Some(10), None, None, this_week()).is_err());
}

#[test]
fn query_rejects_invalid_week() {
    assert!(parse_schedule_query(Some(2024), Some(0), None, None, this_week()).is_err());
    assert!(parse_schedule_query(Some(2024), Some(53), None, None, this_week()).is_err());
    assert!(parse_schedule_query(Some(2020), Some(53), None, None, this_week()).is_ok());
}

#[test]
fn query_rejects_contradictory_selection() {
    let r = parse_schedule_query(
        Some(2024),
        Some(10),
        Some("class".to_string()),
        Some(Id::new()),
        this_week(),
    );
    match r {
        Err(AppError::BadRequest(m)) => assert_eq!(m, "contradictory selection"),
        _ => panic!("contradiction accepted"),
    }
}

#[test]
fn query_selects_class_or_share() {
    let q = parse_schedule_query(None, None, Some("8A".to_string()), None, this_week()).unwrap();
    assert!(matches!(q.selection, Selection::Class(_)));
    let q = parse_schedule_query(None, None, None, Some(Id::new()), this_week()).unwrap();
    assert!(matches!(q.selection, Selection::OtherUser(_)));
}

#[test]
fn utc_formatting() {
    assert_eq!(format_utc(0).unwrap(), "19700101T000000Z");
    assert_eq!(format_utc(1709535600).unwrap(), "20240304T070000Z");
    assert_eq!(format_utc(-1).unwrap(), "19691231T235959Z");
    // outside the supported years nothing renders
    assert_eq!(format_utc(i64::MAX), None);
    assert_eq!(format_utc(i64::MIN), None);
    assert_eq!(format_utc(days_from_civil(9999, 12, 31) * 86400 + 86399).unwrap(), "99991231T235959Z");
}

#[test]
fn escaping_calendar_text() {
    assert_eq!(ical_escape("plain"), "plain");
    assert_eq!(ical_escape("a,b;c\\d\ne"), "a\\,b\\;c\\\\d\\ne");
}

fn lesson() -> Lesson {
    Lesson {
        teacher: Some("Mr A".to_string()),
        location: Some("R12".to_string()),
        start: 1709535600,
        end: 1709538300,
        course: Some("Math".to_string()),
        id: [
            0x11, 0x22, 0x33, 0x44, 0x55, 0x66, 0x77, 0x88, 0x99, 0xaa, 0xbb, 0xcc, 0xdd,
            0xee, 0xff, 0x00,
        ],
        color: None,
    }
}

#[test]
fn event_block() {
    let text = event_text(&lesson()).unwrap();
    assert_eq!(
        text,
        "BEGIN:VEVENT\r\nUID:11223344-5566-7788-99aa-bbccddeeff00\r\nDTSTART:20240304T070000Z\r\nDTEND:20240304T074500Z\r\nSUMMARY:Math\r\nLOCATION:R12\r\nDESCRIPTION:Mr A\r\nEND:VEVENT\r\n"
    );
}

#[test]
fn unnamed_lesson_gets_placeholder_summary() {
    let mut l = lesson();
    l.course = None;
    l.teacher = None;
    l.location = None;
    let text = event_text(&l).unwrap();
    assert!(text.contains("SUMMARY:(Namnl\u{f6}s)\r\n"));
    assert!(!text.contains("LOCATION"));
    assert!(!text.contains("DESCRIPTION"));
}

#[test]
fn calendar_document() {
    let doc = build_calendar(&vec![lesson()]);
    assert!(doc.starts_with("BEGIN:VCALENDAR\r\nVERSION:2.0\r\nPRODID:-//skool//agenda//EN\r\n"));
    assert!(doc.ends_with("END:VCALENDAR\r\n"));
    assert!(doc.contains("BEGIN:VEVENT"));
    let empty = build_calendar(&vec![]);
    assert_eq!(
        empty,
        "BEGIN:VCALENDAR\r\nVERSION:2.0\r\nPRODID:-//skool//agenda//EN\r\nEND:VCALENDAR\r\n"
    );
}
