//! The upstream timetable RPC surface: its echo types, the per-request
//! selection, and the materialisation of upstream lesson rows into domain
//! lessons.

use vstd::prelude::*;

use crate::agenda::{parse_color, spec_parse_color, Lesson, Rgba};
use crate::dates::IsoWeek;
use crate::error::{AppError, Error};
use crate::tz::{stockholm_to_utc, stockholm_utc_of, stockholm_wall_of};
use vstd::string::StringSliceAdditionalSpecFns;
use vstd::utf8::encode_utf8;

verus! {

/// A timetable the upstream lists for the logged-in student.
#[derive(Debug, Clone)]
pub struct Timetable {
    pub school_guid: String,
    pub unit_guid: String,
    pub school_id: String,
    pub timetable_id: Option<String>,
    pub person_guid: String,
    pub first_name: String,
    pub last_name: String,
}

/// A class the upstream's filters list.
#[derive(Debug, Clone)]
pub struct Class {
    pub group_guid: String,
    pub group_name: String,
}

/// A student the upstream's filters list.
#[derive(Debug, Clone)]
pub struct Student {
    pub person_guid: String,
}

/// The filters available for a unit.
#[derive(Debug, Clone)]
pub struct Filters {
    pub classes: Vec<Class>,
    pub students: Vec<Student>,
}

/// Timetable selection: whose lessons a request asks for.
#[derive(Debug, Clone, Copy)]
pub enum Selection<'a> {
    /// Select a class by GUID.
    Class(&'a str),
    /// Select a student by person GUID.
    Student(&'a str),
}

impl<'a> Selection<'a> {
    /// The GUID the request carries.
    pub fn selection_guid(&self) -> (r: &'a str)
        ensures
            self matches Selection::Class(g) ==> r@ == g@,
            self matches Selection::Student(g) ==> r@ == g@,
    {
        match self {
            Selection::Class(g) => g,
            Selection::Student(g) => g,
        }
    }

    /// The numeric selection type the request carries: 0 for a class, 5 for
    /// a student.
    pub fn selection_type(&self) -> (r: u8)
        ensures
            r == 0 <==> self is Class,
            r == 5 <==> self is Student,
    {
        match self {
            Selection::Class(_) => 0,
            Selection::Student(_) => 5,
        }
    }
}

/// The timetable list of the upstream's reply: an absent field means an
/// empty list, not an error.
pub fn timetables_from_response(student_timetables: Option<Vec<Timetable>>) -> (r: Vec<Timetable>)
    ensures
        student_timetables matches Some(v) ==> r == v,
        student_timetables is None ==> r@.len() == 0,
{
    match student_timetables {
        Some(v) => v,
        None => Vec::new(),
    }
}

/// The sole timetable of the list: this service only serves accounts with
/// exactly one. None at all is a missing timetable; several is an internal
/// fault.
pub fn single_timetable(timetables: Vec<Timetable>) -> (r: Result<Timetable, AppError>)
    ensures
        r is Ok <==> timetables@.len() == 1,
        r matches Ok(t) ==> t == timetables@[0],
        timetables@.len() == 0 ==> (r matches Err(e) && e is TimetableNotFound),
        timetables@.len() > 1 ==> (r matches Err(e) && e is InternalError),
{
    if timetables.len() == 0 {
        return Err(AppError::TimetableNotFound);
    }
    if timetables.len() == 1 {
        let mut v = timetables;
        match v.pop() {
            Some(t) => Ok(t),
            None => {
                proof {
                    assert(false);
                }
                Err(AppError::InternalError)
            },
        }
    } else {
        Err(AppError::InternalError)
    }
}

/// A lesson row as the upstream sends it.
#[derive(Debug, Clone)]
pub struct LessonInfo {
    pub guid_id: String,
    pub texts: Vec<String>,
    pub time_start: String,
    pub time_end: String,
    pub day_of_week_number: u8,
}

impl LessonInfo {
    /// The ISO weekday (1 = Monday .. 7 = Sunday) the upstream number names,
    /// if it names one.
    pub fn weekday(&self) -> (r: Option<u8>)
        ensures
            r is Some <==> 1 <= self.day_of_week_number <= 7,
            r matches Some(w) ==> w == self.day_of_week_number,
    {
        let n = self.day_of_week_number;
        if 1 <= n && n <= 7 {
            Some(n)
        } else {
            None
        }
    }
}

/// A colour box of the upstream's reply: a colour literal and the lessons it
/// applies to.
#[derive(Debug, Clone)]
pub struct LessonBox {
    pub b_color: String,
    pub lesson_guids: Option<Vec<String>>,
}

/// Whether a byte is an ASCII decimal digit.
pub open spec fn spec_is_digit(b: u8) -> bool {
    48 <= b <= 57
}

/// The value of two decimal digit bytes.
pub open spec fn spec_dec2(a: u8, b: u8) -> int {
    (a - 48) * 10 + (b - 48)
}

/// What a wall-clock literal parses to: `HH:MM`, or `HH:MM:SS` with the
/// seconds tolerated and discarded; hours below 24, minutes and seconds
/// below 60.
pub open spec fn spec_parse_wall(s: Seq<u8>) -> Option<(u8, u8)> {
    if s.len() != 5 && s.len() != 8 {
        None
    } else if !(spec_is_digit(s[0]) && spec_is_digit(s[1]) && s[2] == 58 && spec_is_digit(s[3])
        && spec_is_digit(s[4])) {
        None
    } else if s.len() == 8 && !(s[5] == 58 && spec_is_digit(s[6]) && spec_is_digit(s[7])
        && spec_dec2(s[6], s[7]) < 60) {
        None
    } else if spec_dec2(s[0], s[1]) < 24 && spec_dec2(s[3], s[4]) < 60 {
        Some((spec_dec2(s[0], s[1]) as u8, spec_dec2(s[3], s[4]) as u8))
    } else {
        None
    }
}

/// Parse a wall-clock literal.
pub fn parse_wall_time(s: &str) -> (r: Option<(u8, u8)>)
    ensures
        r == spec_parse_wall(s.spec_bytes()),
{
    let b = s.as_bytes_vec();
    let n = b.len();
    if n != 5 && n != 8 {
        return None;
    }
    if !(is_digit(b[0]) && is_digit(b[1]) && b[2] == 58 && is_digit(b[3]) && is_digit(b[4])) {
        return None;
    }
    if n == 8 {
        if !(b[5] == 58 && is_digit(b[6]) && is_digit(b[7])) {
            return None;
        }
        let ss = (b[6] - 48) * 10 + (b[7] - 48);
        if ss >= 60 {
            return None;
        }
    }
    let hh = (b[0] - 48) * 10 + (b[1] - 48);
    let mm = (b[3] - 48) * 10 + (b[4] - 48);
    if hh < 24 && mm < 60 {
        Some((hh, mm))
    } else {
        None
    }
}

fn is_digit(b: u8) -> (r: bool)
    ensures
        r == spec_is_digit(b),
{
    48 <= b && b <= 57
}

/// The character sequences of a list of strings.
pub open spec fn texts_view(ts: Seq<String>) -> Seq<Seq<char>> {
    ts.map_values(|s: String| s@)
}

/// The non-empty entries of a text list, in order.
pub open spec fn spec_nonempty_texts(ts: Seq<Seq<char>>) -> Seq<Seq<char>>
    decreases ts.len(),
{
    if ts.len() == 0 {
        Seq::empty()
    } else {
        spec_nonempty_texts(ts.drop_last()) + (if ts.last().len() > 0 {
            seq![ts.last()]
        } else {
            Seq::empty()
        })
    }
}

/// The course of a filtered text list: its first entry.
pub open spec fn spec_texts_course(f: Seq<Seq<char>>) -> Option<Seq<char>> {
    if f.len() >= 1 {
        Some(f[0])
    } else {
        None
    }
}

/// The teacher of a filtered text list: the middle entry, present only with
/// exactly three entries.
pub open spec fn spec_texts_teacher(f: Seq<Seq<char>>) -> Option<Seq<char>> {
    if f.len() == 3 {
        Some(f[1])
    } else {
        None
    }
}

/// The location of a filtered text list: the last entry of a two- or
/// three-entry list; any other shape is undefined upstream and yields none.
pub open spec fn spec_texts_location(f: Seq<Seq<char>>) -> Option<Seq<char>> {
    if f.len() == 2 {
        Some(f[1])
    } else if f.len() == 3 {
        Some(f[2])
    } else {
        None
    }
}

/// The character sequence of an optional string.
pub open spec fn spec_opt_str(o: Option<String>) -> Option<Seq<char>> {
    match o {
        Some(s) => Some(s@),
        None => None,
    }
}

/// Split a lesson's texts into course, teacher and location: empty strings
/// are dropped first, then one entry is a course alone, two are course and
/// location, three are course, teacher and location, and any other shape
/// keeps only the course.
pub fn split_texts(texts: &Vec<String>) -> (r: (Option<String>, Option<String>, Option<String>))
    ensures
        spec_opt_str(r.0) == spec_texts_course(spec_nonempty_texts(texts_view(texts@))),
        spec_opt_str(r.1) == spec_texts_teacher(spec_nonempty_texts(texts_view(texts@))),
        spec_opt_str(r.2) == spec_texts_location(spec_nonempty_texts(texts_view(texts@))),
{
    let mut filtered: Vec<String> = Vec::new();
    let mut i: usize = 0;
    while i < texts.len()
        invariant
            i <= texts@.len(),
            texts_view(filtered@) == spec_nonempty_texts(texts_view(texts@.take(i as int))),
        decreases texts@.len() - i,
    {
        proof {
            assert(texts_view(texts@.take(i + 1)).drop_last() =~= texts_view(
                texts@.take(i as int),
            ));
            assert(texts_view(texts@.take(i + 1)).last() == texts@[i as int]@);
        }
        if !texts[i].as_str().is_empty() {
            filtered.push(texts[i].clone());
            proof {
                assert(texts_view(filtered@) =~= spec_nonempty_texts(
                    texts_view(texts@.take(i + 1)),
                ));
            }
        } else {
            proof {
                assert(texts_view(filtered@) =~= spec_nonempty_texts(
                    texts_view(texts@.take(i + 1)),
                ));
            }
        }
        i += 1;
    }
    proof {
        assert(texts@.take(texts@.len() as int) =~= texts@);
    }
    let n = filtered.len();
    if n == 1 {
        (Some(filtered[0].clone()), None, None)
    } else if n == 2 {
        (Some(filtered[0].clone()), None, Some(filtered[1].clone()))
    } else if n == 3 {
        (Some(filtered[0].clone()), Some(filtered[1].clone()), Some(filtered[2].clone()))
    } else if n >= 4 {
        (Some(filtered[0].clone()), None, None)
    } else {
        (None, None, None)
    }
}

/// The colour a box's literal parses to.
pub open spec fn spec_box_color(b: LessonBox) -> Option<Rgba> {
    spec_parse_color(encode_utf8(b.b_color@))
}

/// Whether every box colour literal parses.
pub open spec fn spec_boxes_ok(boxes: Seq<LessonBox>) -> bool {
    forall|i: int| 0 <= i < boxes.len() ==> (#[trigger] spec_box_color(boxes[i])) is Some
}

/// The `(lesson guid, colour)` pairs of one box.
pub open spec fn spec_box_pairs_of(b: LessonBox) -> Seq<(Seq<char>, Rgba)> {
    match b.lesson_guids {
        Some(gs) => gs@.map_values(|g: String| (g@, spec_box_color(b)->Some_0)),
        None => Seq::empty(),
    }
}

/// The `(lesson guid, colour)` pairs of all boxes, flattened in order.
pub open spec fn spec_box_pairs(boxes: Seq<LessonBox>) -> Seq<(Seq<char>, Rgba)>
    decreases boxes.len(),
{
    if boxes.len() == 0 {
        Seq::empty()
    } else {
        spec_box_pairs(boxes.drop_last()) + spec_box_pairs_of(boxes.last())
    }
}

/// The character-level view of built colour pairs.
pub open spec fn pairs_view(v: Seq<(String, Rgba)>) -> Seq<(Seq<char>, Rgba)> {
    v.map_values(|p: (String, Rgba)| (p.0@, p.1))
}

/// The colour of a guid: the last matching pair wins, as a map built by
/// insertion would have it.
pub open spec fn spec_lookup_color(pairs: Seq<(Seq<char>, Rgba)>, guid: Seq<char>) -> Option<Rgba>
    decreases pairs.len(),
{
    if pairs.len() == 0 {
        None
    } else if pairs.last().0 == guid {
        Some(pairs.last().1)
    } else {
        spec_lookup_color(pairs.drop_last(), guid)
    }
}

/// Flatten the boxes into `(guid, colour)` pairs; an unparsable colour
/// literal fails the whole reply.
fn build_color_pairs(boxes: &Vec<LessonBox>) -> (r: Result<Vec<(String, Rgba)>, Error>)
    ensures
        r is Ok <==> spec_boxes_ok(boxes@),
        r matches Ok(v) ==> pairs_view(v@) == spec_box_pairs(boxes@),
        r matches Err(e) ==> (e matches Error::ScrapingFailed { details } && details@
            == "invalid color"@),
{
    let mut out: Vec<(String, Rgba)> = Vec::new();
    let mut i: usize = 0;
    while i < boxes.len()
        invariant
            i <= boxes@.len(),
            pairs_view(out@) == spec_box_pairs(boxes@.take(i as int)),
            forall|k: int| 0 <= k < i ==> (#[trigger] spec_box_color(boxes@[k])) is Some,
        decreases boxes@.len() - i,
    {
        let b = &boxes[i];
        let color = match parse_color(b.b_color.as_str()) {
            Some(c) => c,
            None => {
                return Err(
                    Error::ScrapingFailed { details: String::from_str("invalid color") },
                );
            },
        };
        proof {
            assert(boxes@.take(i + 1).drop_last() =~= boxes@.take(i as int));
            assert(boxes@.take(i + 1).last() == boxes@[i as int]);
        }
        match &b.lesson_guids {
            Some(gs) => {
                let mut k: usize = 0;
                let ghost out0 = pairs_view(out@);
                while k < gs.len()
                    invariant
                        k <= gs@.len(),
                        i < boxes@.len(),
                        color == spec_box_color(boxes@[i as int])->Some_0,
                        boxes@[i as int].lesson_guids matches Some(g2) && g2@ == gs@,
                        pairs_view(out@) == out0 + gs@.take(k as int).map_values(
                            |g: String| (g@, color),
                        ),
                    decreases gs@.len() - k,
                {
                    let g = gs[k].clone();
                    let ghost gv = g@;
                    let ghost outp = out@;
                    out.push((g, color));
                    proof {
                        assert(gv == gs@[k as int]@);
                        assert(pairs_view(out@) =~= pairs_view(outp).push((gv, color)));
                        assert(gs@.take(k + 1) =~= gs@.take(k as int).push(gs@[k as int]));
                        assert(gs@.take(k + 1).map_values(|g: String| (g@, color)) =~= gs@.take(
                            k as int,
                        ).map_values(|g: String| (g@, color)).push((gs@[k as int]@, color)));
                        assert(pairs_view(out@) =~= out0 + gs@.take(k + 1).map_values(
                            |g: String| (g@, color),
                        ));
                    }
                    k += 1;
                }
                proof {
                    assert(gs@.take(gs@.len() as int) =~= gs@);
                    assert(gs@.map_values(|g: String| (g@, color)) =~= spec_box_pairs_of(
                        boxes@[i as int],
                    ));
                    assert(pairs_view(out@) =~= spec_box_pairs(boxes@.take(i + 1)));
                }
            },
            None => {
                proof {
                    assert(spec_box_pairs_of(boxes@[i as int]) =~= Seq::<(Seq<char>, Rgba)>::empty());
                    assert(pairs_view(out@) =~= spec_box_pairs(boxes@.take(i + 1)));
                }
            },
        }
        i += 1;
    }
    proof {
        assert(boxes@.take(boxes@.len() as int) =~= boxes@);
    }
    Ok(out)
}

/// Find the colour of a guid: the last matching pair.
fn lookup_color(pairs: &Vec<(String, Rgba)>, guid: &String) -> (r: Option<Rgba>)
    ensures
        r == spec_lookup_color(pairs_view(pairs@), guid@),
{
    let mut j = pairs.len();
    proof {
        assert(pairs@.take(pairs@.len() as int) =~= pairs@);
    }
    while j > 0
        invariant
            j <= pairs@.len(),
            spec_lookup_color(pairs_view(pairs@), guid@) == spec_lookup_color(
                pairs_view(pairs@.take(j as int)),
                guid@,
            ),
        decreases j,
    {
        proof {
            assert(pairs_view(pairs@.take(j as int)).drop_last() =~= pairs_view(
                pairs@.take(j - 1),
            ));
            assert(pairs_view(pairs@.take(j as int)).last() == (
                pairs@[j - 1].0@,
                pairs@[j - 1].1,
            ));
        }
        if pairs[j - 1].0 == *guid {
            return Some(pairs[j - 1].1);
        }
        j -= 1;
    }
    None
}

/// The fixed namespace lesson ids are derived in.
pub open spec fn spec_uuid_namespace() -> Seq<u8> {
    seq![
        0x66u8,
        0x2cu8,
        0x31u8,
        0x31u8,
        0xb1u8,
        0x81u8,
        0x40u8,
        0xdcu8,
        0x88u8,
        0xb4u8,
        0x05u8,
        0x2bu8,
        0x18u8,
        0xceu8,
        0x53u8,
        0x4bu8,
    ]
}

fn uuid_namespace() -> (r: [u8; 16])
    ensures
        r@ == spec_uuid_namespace(),
{
    let a: [u8; 16] = [
        0x66,
        0x2c,
        0x31,
        0x31,
        0xb1,
        0x81,
        0x40,
        0xdc,
        0x88,
        0xb4,
        0x05,
        0x2b,
        0x18,
        0xce,
        0x53,
        0x4b,
    ];
    proof {
        assert(a@ =~= spec_uuid_namespace());
    }
    a
}

/// What a version-5 UUID is for a namespace and a name: a function of the
/// two byte strings alone.
pub uninterp spec fn uuid_v5_of(ns: Seq<u8>, name: Seq<u8>) -> Seq<u8>;

/// Relies on uuid::Uuid::new_v5: the SHA-1-based version-5 UUID, a function
/// of namespace and name alone, sixteen bytes.
#[verifier::external_body]
fn uuid_v5(ns: &[u8; 16], name: &[u8]) -> (r: [u8; 16])
    ensures
        r@ == uuid_v5_of(ns@, name@),
{
    *uuid::Uuid::new_v5(&uuid::Uuid::from_bytes(*ns), name).as_bytes()
}

/// Whether an upstream lesson row survives materialisation: a weekday from
/// 1 to 7, both wall times parse, both localise to unambiguous instants,
/// and the lesson ends strictly after it starts.
pub open spec fn spec_lesson_kept(week: IsoWeek, info: LessonInfo) -> bool {
    let wd = info.day_of_week_number as int;
    let day = week.spec_with_weekday(wd);
    let st = spec_parse_wall(encode_utf8(info.time_start@));
    let en = spec_parse_wall(encode_utf8(info.time_end@));
    let st_t = stockholm_utc_of(day, st->Some_0.0 as int, st->Some_0.1 as int);
    let en_t = stockholm_utc_of(day, en->Some_0.0 as int, en->Some_0.1 as int);
    1 <= wd <= 7 && st is Some && en is Some && st_t is Some && en_t is Some && en_t->Some_0
        > st_t->Some_0
}

/// The fields of a materialised lesson, relative to its upstream row: the
/// instants localise the parsed wall times on the week's day — and convert
/// back to those wall times — the id is the version-5 UUID of the upstream
/// guid, and the texts split as course, teacher and location.
pub open spec fn spec_lesson_core(week: IsoWeek, info: LessonInfo, l: Lesson) -> bool {
    let wd = info.day_of_week_number as int;
    let day = week.spec_with_weekday(wd);
    let st = spec_parse_wall(encode_utf8(info.time_start@))->Some_0;
    let en = spec_parse_wall(encode_utf8(info.time_end@))->Some_0;
    let f = spec_nonempty_texts(texts_view(info.texts@));
    stockholm_utc_of(day, st.0 as int, st.1 as int) == Some(l.start as int) && stockholm_wall_of(
        l.start as int,
    ) == (day, st.0 as int, st.1 as int) && stockholm_utc_of(day, en.0 as int, en.1 as int)
        == Some(l.end as int) && stockholm_wall_of(l.end as int) == (
        day,
        en.0 as int,
        en.1 as int,
    ) && l.id@ == uuid_v5_of(spec_uuid_namespace(), encode_utf8(info.guid_id@)) && spec_opt_str(
        l.course,
    ) == spec_texts_course(f) && spec_opt_str(l.teacher) == spec_texts_teacher(f) && spec_opt_str(
        l.location,
    ) == spec_texts_location(f)
}

/// A materialised lesson together with its colour from the box pairs.
pub open spec fn spec_lesson_matches(
    week: IsoWeek,
    info: LessonInfo,
    pairs: Seq<(Seq<char>, Rgba)>,
    l: Lesson,
) -> bool {
    spec_lesson_core(week, info, l) && l.color == spec_lookup_color(pairs, info.guid_id@)
}

/// The upstream rows that survive materialisation, in order.
pub open spec fn spec_kept(week: IsoWeek, lessons: Seq<LessonInfo>) -> Seq<LessonInfo>
    decreases lessons.len(),
{
    if lessons.len() == 0 {
        Seq::empty()
    } else {
        spec_kept(week, lessons.drop_last()) + (if spec_lesson_kept(week, lessons.last()) {
            seq![lessons.last()]
        } else {
            Seq::empty()
        })
    }
}

/// Materialise one upstream row, with the colour already looked up.
pub fn checked_agenda_lesson(week: IsoWeek, info: &LessonInfo, color: Option<Rgba>) -> (r: Option<
    Lesson,
>)
    requires
        week.spec_valid(),
    ensures
        r is Some <==> spec_lesson_kept(week, *info),
        r matches Some(l) ==> spec_lesson_core(week, *info, l) && l.color == color && l.end
            > l.start,
{
    let wd = match info.weekday() {
        Some(w) => w,
        None => {
            return None;
        },
    };
    let day = week.with_weekday(wd);
    let st = match parse_wall_time(info.time_start.as_str()) {
        Some(t) => t,
        None => {
            return None;
        },
    };
    let en = match parse_wall_time(info.time_end.as_str()) {
        Some(t) => t,
        None => {
            return None;
        },
    };
    let start = match stockholm_to_utc(day, st.0, st.1) {
        Some(t) => t,
        None => {
            return None;
        },
    };
    let end = match stockholm_to_utc(day, en.0, en.1) {
        Some(t) => t,
        None => {
            return None;
        },
    };
    if end <= start {
        return None;
    }
    let (course, teacher, location) = split_texts(&info.texts);
    let ns = uuid_namespace();
    let id = uuid_v5(&ns, info.guid_id.as_str().as_bytes());
    Some(Lesson { teacher, location, start, end, course, id, color })
}

/// Materialise an upstream lessons reply for a week: a non-empty validation
/// list or an unparsable colour fails the reply; otherwise exactly the
/// well-formed rows come out, in order, with their fields as
/// [`spec_lesson_matches`] states them.
pub fn lessons_from_response(
    week: IsoWeek,
    validation_count: usize,
    lesson_info: Vec<LessonInfo>,
    box_list: Vec<LessonBox>,
) -> (r: Result<Vec<Lesson>, Error>)
    requires
        week.spec_valid(),
    ensures
        r is Ok <==> (validation_count == 0 && spec_boxes_ok(box_list@)),
        r matches Ok(out) ==> out@.len() == spec_kept(week, lesson_info@).len(),
        r matches Ok(out) ==> forall|j: int|
            0 <= j < out@.len() ==> spec_lesson_matches(
                week,
                spec_kept(week, lesson_info@)[j],
                spec_box_pairs(box_list@),
                #[trigger] out@[j],
            ),
        r matches Ok(out) ==> forall|j: int| 0 <= j < out@.len() ==> (#[trigger] out@[j]).end
            > out@[j].start,
        validation_count != 0 ==> (r matches Err(e) && e matches Error::ScrapingFailed {
            details,
        } && details@ == "skola24 validation error"@),
        validation_count == 0 && r is Err ==> (r matches Err(e) && e matches Error::ScrapingFailed {
            details,
        } && details@ == "invalid color"@),
        r matches Err(e) ==> e is ScrapingFailed,
{
    if validation_count != 0 {
        return Err(Error::ScrapingFailed { details: String::from_str("skola24 validation error") });
    }
    let pairs = match build_color_pairs(&box_list) {
        Ok(p) => p,
        Err(e) => {
            return Err(e);
        },
    };
    let mut out: Vec<Lesson> = Vec::new();
    let mut i: usize = 0;
    while i < lesson_info.len()
        invariant
            week.spec_valid(),
            i <= lesson_info@.len(),
            pairs_view(pairs@) == spec_box_pairs(box_list@),
            out@.len() == spec_kept(week, lesson_info@.take(i as int)).len(),
            forall|j: int|
                0 <= j < out@.len() ==> spec_lesson_matches(
                    week,
                    spec_kept(week, lesson_info@.take(i as int))[j],
                    spec_box_pairs(box_list@),
                    #[trigger] out@[j],
                ),
            forall|j: int| 0 <= j < out@.len() ==> (#[trigger] out@[j]).end > out@[j].start,
        decreases lesson_info@.len() - i,
    {
        let info = &lesson_info[i];
        let color = lookup_color(&pairs, &info.guid_id);
        proof {
            assert(lesson_info@.take(i + 1).drop_last() =~= lesson_info@.take(i as int));
            assert(lesson_info@.take(i + 1).last() == lesson_info@[i as int]);
        }
        match checked_agenda_lesson(week, info, color) {
            Some(l) => {
                out.push(l);
                proof {
                    let kept = spec_kept(week, lesson_info@.take(i + 1));
                    assert(kept =~= spec_kept(week, lesson_info@.take(i as int)) + seq![
                        lesson_info@[i as int],
                    ]);
                    assert(kept[kept.len() - 1] == lesson_info@[i as int]);
                }
            },
            None => {
                proof {
                    assert(spec_kept(week, lesson_info@.take(i + 1)) =~= spec_kept(
                        week,
                        lesson_info@.take(i as int),
                    ));
                }
            },
        }
        i += 1;
    }
    proof {
        assert(lesson_info@.take(lesson_info@.len() as int) =~= lesson_info@);
    }
    Ok(out)
}

/// Law: the lesson id is stable. Two materialisations whose upstream rows
/// carry the same lesson guid get the same id, whatever else differs.
pub proof fn lemma_lesson_id_stable(week1: IsoWeek, info1: LessonInfo, l1: Lesson, week2: IsoWeek, info2: LessonInfo, l2: Lesson)
    requires
        spec_lesson_core(week1, info1, l1),
        spec_lesson_core(week2, info2, l2),
        info1.guid_id@ == info2.guid_id@,
    ensures
        l1.id@ == l2.id@,
{
}

} // verus!
