use skool::agenda::{parse_color, Rgba};
use skool::dates::IsoWeek;
use skool::error::AppError;
use skool::schedule::{
    lessons_from_response, parse_wall_time, single_timetable, timetables_from_response,
    LessonBox, LessonInfo, Selection, Timetable,
};
use chrono::{Datelike, TimeZone, Timelike};

fn timetable(unit: &str) -> Timetable {
    Timetable {
        school_guid: "sg".to_string(),
        unit_guid: unit.to_string(),
        school_id: "school".to_string(),
        timetable_id: None,
        person_guid: "pg".to_string(),
        first_name: "A".to_string(),
        last_name: "B".to_string(),
    }
}

fn info(guid: &str, texts: &[&str], start: &str, end: &str, dow: u8) -> LessonInfo {
    LessonInfo {
        guid_id: guid.to_string(),
        texts: texts.iter().map(|s| s.to_string()).collect(),
        time_start: start.to_string(),
        time_end: end.to_string(),
        day_of_week_number: dow,
    }
}

#[test]
fn selection_request_parts() {
    let class = Selection::Class("cg");
    let student = Selection::Student("sg");
    assert_eq!(class.selection_type(), 0);
    assert_eq!(student.selection_type(), 5);
    assert_eq!(class.selection_guid(), "cg");
    assert_eq!(student.selection_guid(), "sg");
}

#[test]
fn absent_timetable_list_is_empty() {
    assert!(timetables_from_response(None).is_empty());
    assert_eq!(timetables_from_response(Some(vec![timetable("u")])).len(), 1);
}

#[test]
fn single_timetable_wants_exactly_one() {
    assert!(matches!(
        single_timetable(vec![]),
        Err(AppError::TimetableNotFound)
    ));
    assert!(matches!(
        single_timetable(vec![timetable("a"), timetable("b")]),
        Err(AppError::InternalError)
    ));
    let only = single_timetable(vec![timetable("a")]).unwrap();
    assert_eq!(only.unit_guid, "a");
}

#[test]
fn wall_time_accepts_both_shapes() {
    assert_eq!(parse_wall_time("08:00"), Some((8, 0)));
    assert_eq!(parse_wall_time("08:00:30"), Some((8, 0)));
    assert_eq!(parse_wall_time("23:59"), Some((23, 59)));
    assert_eq!(parse_wall_time("24:00"), None);
    assert_eq!(parse_wall_time("08:60"), None);
    assert_eq!(parse_wall_time("8:00"), None);
    assert_eq!(parse_wall_time("08:00:60"), None);
    assert_eq!(parse_wall_time("08-00"), None);
}

#[test]
fn color_literals() {
    assert_eq!(
        parse_color("#abcdef"),
        Some(Rgba { r: 0xab, g: 0xcd, b: 0xef, a: 255 })
    );
    assert_eq!(
        parse_color("#FFF"),
        Some(Rgba { r: 255, g: 255, b: 255, a: 255 })
    );
    assert_eq!(
        parse_color("#11223344"),
        Some(Rgba { r: 0x11, g: 0x22, b: 0x33, a: 0x44 })
    );
    assert_eq!(parse_color("red"), None);
    assert_eq!(parse_color("#12345"), None);
}

fn namespace() -> uuid::Uuid {
    uuid::Uuid::from_bytes([
        0x66, 0x2c, 0x31, 0x31, 0xb1, 0x81, 0x40, 0xdc, 0x88, 0xb4, 0x05, 0x2b, 0x18, 0xce,
        0x53, 0x4b,
    ])
}

#[test]
fn lesson_mapping() {
    let week = IsoWeek { year: 2024, week: 10 };
    let lessons = lessons_from_response(
        week,
        0,
        vec![info("L1", &["Math", "Mr A", "R12"], "08:00", "08:45", 1)],
        vec![LessonBox {
            b_color: "#abcdef".to_string(),
            lesson_guids: Some(vec!["L1".to_string()]),
        }],
    )
    .unwrap();
    assert_eq!(lessons.len(), 1);
    let l = &lessons[0];
    assert_eq!(l.course.as_deref(), Some("Math"));
    assert_eq!(l.teacher.as_deref(), Some("Mr A"));
    assert_eq!(l.location.as_deref(), Some("R12"));
    // 2024-03-04T08:00+01:00 == 2024-03-04T07:00:00Z
    assert_eq!(l.start, 1709535600);
    assert_eq!(l.end, 1709538300);
    assert_eq!(l.color, Some(Rgba { r: 0xab, g: 0xcd, b: 0xef, a: 255 }));
    assert_eq!(l.id, *uuid::Uuid::new_v5(&namespace(), b"L1").as_bytes());
}

#[test]
fn lesson_mapping_two_texts() {
    let week = IsoWeek { year: 2024, week: 10 };
    let lessons = lessons_from_response(
        week,
        0,
        vec![info("L1", &["Math", "R12"], "08:00", "08:45", 1)],
        vec![],
    )
    .unwrap();
    assert_eq!(lessons.len(), 1);
    let l = &lessons[0];
    assert_eq!(l.course.as_deref(), Some("Math"));
    assert_eq!(l.teacher, None);
    assert_eq!(l.location.as_deref(), Some("R12"));
    assert_eq!(l.color, None);
}

#[test]
fn lesson_empty_texts_are_skipped() {
    let week = IsoWeek { year: 2024, week: 10 };
    let lessons = lessons_from_response(
        week,
        0,
        vec![info("L1", &["", "Math", "", "R12"], "08:00", "08:45", 1)],
        vec![],
    )
    .unwrap();
    assert_eq!(lessons[0].course.as_deref(), Some("Math"));
    assert_eq!(lessons[0].location.as_deref(), Some("R12"));
}

#[test]
fn lesson_dropped_on_bad_weekday_or_time() {
    let week = IsoWeek { year: 2024, week: 10 };
    let lessons = lessons_from_response(
        week,
        0,
        vec![
            info("L1", &["Math"], "08:00", "08:45", 0),
            info("L2", &["Math"], "08:00", "08:45", 8),
            info("L3", &["Math"], "8 am", "08:45", 1),
            info("L4", &["Math"], "08:00", "08:45", 2),
        ],
        vec![],
    )
    .unwrap();
    assert_eq!(lessons.len(), 1);
    assert_eq!(lessons[0].id, *uuid::Uuid::new_v5(&namespace(), b"L4").as_bytes());
}

#[test]
fn lesson_dropped_when_it_ends_before_it_starts() {
    let week = IsoWeek { year: 2024, week: 10 };
    let lessons = lessons_from_response(
        week,
        0,
        vec![
            info("L1", &["Math"], "08:45", "08:00", 1),
            info("L2", &["Math"], "08:00", "08:00", 1),
        ],
        vec![],
    )
    .unwrap();
    assert!(lessons.is_empty());
}

#[test]
fn lesson_id_is_stable_across_materialisations() {
    let week = IsoWeek { year: 2024, week: 10 };
    let one = lessons_from_response(
        week,
        0,
        vec![info("L1", &["Math"], "08:00", "08:45", 1)],
        vec![],
    )
    .unwrap();
    let other_week = IsoWeek { year: 2024, week: 11 };
    let two = lessons_from_response(
        other_week,
        0,
        vec![info("L1", &["Other", "Texts"], "10:00", "10:45", 3)],
        vec![],
    )
    .unwrap();
    assert_eq!(one[0].id, two[0].id);
}

#[test]
fn validation_errors_fail_the_reply() {
    let week = IsoWeek { year: 2024, week: 10 };
    let r = lessons_from_response(week, 1, vec![], vec![]);
    assert!(r.is_err());
}

#[test]
fn unparsable_colour_fails_the_reply() {
    let week = IsoWeek { year: 2024, week: 10 };
    let r = lessons_from_response(
        week,
        0,
        vec![],
        vec![LessonBox { b_color: "nope".to_string(), lesson_guids: None }],
    );
    assert!(r.is_err());
}

#[test]
fn timezone_law_round_trip() {
    // A lesson at 08:00 local on 2024-03-04 (CET) materialises to 07:00Z,
    // and chrono's conversion back to Stockholm shows 08:00 on that date.
    let week = IsoWeek { year: 2024, week: 10 };
    let lessons = lessons_from_response(
        week,
        0,
        vec![info("L1", &["Math"], "08:00", "08:45", 1)],
        vec![],
    )
    .unwrap();
    let t = lessons[0].start;
    assert_eq!(t, 1709535600);
    let back = chrono_tz::Europe::Stockholm.timestamp_opt(t, 0).unwrap();
    assert_eq!(back.hour(), 8);
    assert_eq!(back.minute(), 0);
    assert_eq!(back.day(), 4);
    assert_eq!(back.month(), 3);
}

#[test]
fn timezone_drops_gap_and_fold() {
    // Spring-forward gap: 2024-03-31 (Sunday of week 13) has no 02:30.
    let lessons = lessons_from_response(
        IsoWeek { year: 2024, week: 13 },
        0,
        vec![info("L1", &["Math"], "02:30", "03:30", 7)],
        vec![],
    )
    .unwrap();
    assert!(lessons.is_empty());
    // Autumn fold: 2024-10-27 (Sunday of week 43) has 02:30 twice.
    let lessons = lessons_from_response(
        IsoWeek { year: 2024, week: 43 },
        0,
        vec![info("L1", &["Math"], "02:30", "03:30", 7)],
        vec![],
    )
    .unwrap();
    assert!(lessons.is_empty());
}

#[test]
fn app_error_statuses() {
    assert_eq!(AppError::InternalError.status_code(), 500);
    assert_eq!(AppError::BadRequest("x").status_code(), 400);
    assert_eq!(AppError::NotFound("x").status_code(), 404);
    assert_eq!(AppError::TimetableNotFound.status_code(), 404);
    assert_eq!(AppError::MissingCredentials.status_code(), 401);
    assert_eq!(AppError::InvalidShareLink.status_code(), 401);
}
