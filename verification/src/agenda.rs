//! The domain lesson: UTC instants, display texts, a stable id and a colour.

use vstd::prelude::*;

use crate::hexs::{spec_hex_nibble, spec_is_hex_digit};
use vstd::string::StringSliceAdditionalSpecFns;

verus! {

/// A colour with 8-bit channels.
#[derive(Debug, Clone, Copy, PartialEq, Eq, Structural)]
pub struct Rgba {
    pub r: u8,
    pub g: u8,
    pub b: u8,
    pub a: u8,
}

/// A lesson of the domain model: UTC start and end (unix seconds), up to
/// three display texts, the stable id, and the timetable colour.
#[derive(Debug, Clone)]
pub struct Lesson {
    pub teacher: Option<String>,
    pub location: Option<String>,
    pub start: i64,
    pub end: i64,
    pub course: Option<String>,
    pub id: [u8; 16],
    pub color: Option<Rgba>,
}

/// What a hex colour literal parses to: `#rgb`, `#rgba`, `#rrggbb` or
/// `#rrggbbaa`, case-insensitive; anything else is refused.
pub open spec fn spec_parse_color(s: Seq<u8>) -> Option<Rgba> {
    if s.len() < 1 || s[0] != 35 {
        None
    } else if !(forall|i: int| 1 <= i < s.len() ==> spec_is_hex_digit(#[trigger] s[i])) {
        None
    } else if s.len() == 4 {
        Some(
            Rgba {
                r: (spec_hex_nibble(s[1]) * 17) as u8,
                g: (spec_hex_nibble(s[2]) * 17) as u8,
                b: (spec_hex_nibble(s[3]) * 17) as u8,
                a: 255,
            },
        )
    } else if s.len() == 5 {
        Some(
            Rgba {
                r: (spec_hex_nibble(s[1]) * 17) as u8,
                g: (spec_hex_nibble(s[2]) * 17) as u8,
                b: (spec_hex_nibble(s[3]) * 17) as u8,
                a: (spec_hex_nibble(s[4]) * 17) as u8,
            },
        )
    } else if s.len() == 7 {
        Some(
            Rgba {
                r: (spec_hex_nibble(s[1]) * 16 + spec_hex_nibble(s[2])) as u8,
                g: (spec_hex_nibble(s[3]) * 16 + spec_hex_nibble(s[4])) as u8,
                b: (spec_hex_nibble(s[5]) * 16 + spec_hex_nibble(s[6])) as u8,
                a: 255,
            },
        )
    } else if s.len() == 9 {
        Some(
            Rgba {
                r: (spec_hex_nibble(s[1]) * 16 + spec_hex_nibble(s[2])) as u8,
                g: (spec_hex_nibble(s[3]) * 16 + spec_hex_nibble(s[4])) as u8,
                b: (spec_hex_nibble(s[5]) * 16 + spec_hex_nibble(s[6])) as u8,
                a: (spec_hex_nibble(s[7]) * 16 + spec_hex_nibble(s[8])) as u8,
            },
        )
    } else {
        None
    }
}

/// Parse a hex colour literal.
pub fn parse_color(s: &str) -> (r: Option<Rgba>)
    ensures
        r == spec_parse_color(s.spec_bytes()),
{
    let bytes = s.as_bytes_vec();
    let n = bytes.len();
    if n < 1 || bytes[0] != 35 {
        return None;
    }
    let mut i: usize = 1;
    while i < n
        invariant
            bytes@ == s.spec_bytes(),
            n == bytes@.len(),
            1 <= i <= n,
            forall|j: int| 1 <= j < i ==> spec_is_hex_digit(#[trigger] bytes@[j]),
        decreases n - i,
    {
        let b = bytes[i];
        if !((48 <= b && b <= 57) || (97 <= b && b <= 102) || (65 <= b && b <= 70)) {
            return None;
        }
        i += 1;
    }
    if n == 4 {
        Some(
            Rgba {
                r: nibble(bytes[1]) * 17,
                g: nibble(bytes[2]) * 17,
                b: nibble(bytes[3]) * 17,
                a: 255,
            },
        )
    } else if n == 5 {
        Some(
            Rgba {
                r: nibble(bytes[1]) * 17,
                g: nibble(bytes[2]) * 17,
                b: nibble(bytes[3]) * 17,
                a: nibble(bytes[4]) * 17,
            },
        )
    } else if n == 7 {
        Some(
            Rgba {
                r: nibble(bytes[1]) * 16 + nibble(bytes[2]),
                g: nibble(bytes[3]) * 16 + nibble(bytes[4]),
                b: nibble(bytes[5]) * 16 + nibble(bytes[6]),
                a: 255,
            },
        )
    } else if n == 9 {
        Some(
            Rgba {
                r: nibble(bytes[1]) * 16 + nibble(bytes[2]),
                g: nibble(bytes[3]) * 16 + nibble(bytes[4]),
                b: nibble(bytes[5]) * 16 + nibble(bytes[6]),
                a: nibble(bytes[7]) * 16 + nibble(bytes[8]),
            },
        )
    } else {
        None
    }
}

fn nibble(b: u8) -> (r: u8)
    requires
        spec_is_hex_digit(b),
    ensures
        r == spec_hex_nibble(b),
        r < 16,
{
    if 48 <= b && b <= 57 {
        b - 48
    } else if 97 <= b && b <= 102 {
        b - 87
    } else {
        b - 55
    }
}

/// Two decimal digit characters of a value below 100.
pub open spec fn spec_two_digits(n: int) -> Seq<char> {
    seq![((48 + n / 10) as u8) as char, ((48 + n % 10) as u8) as char]
}

/// Four decimal digit characters of a value below 10000.
pub open spec fn spec_four_digits(n: int) -> Seq<char> {
    seq![
        ((48 + n / 1000) as u8) as char,
        ((48 + n / 100 % 10) as u8) as char,
        ((48 + n / 10 % 10) as u8) as char,
        ((48 + n % 10) as u8) as char,
    ]
}

/// A UTC timestamp in calendar basic format: date, `T`, time, `Z`.
pub open spec fn spec_timestamp_chars(y: int, m: int, d: int, hh: int, mm: int, ss: int) -> Seq<
    char,
> {
    spec_four_digits(y) + spec_two_digits(m) + spec_two_digits(d) + seq!['T'] + spec_two_digits(hh)
        + spec_two_digits(mm) + spec_two_digits(ss) + seq!['Z']
}

/// Whether a character sequence is the calendar text of a UTC instant:
/// some valid civil date and time of day that add up to exactly that
/// instant, rendered as [`spec_timestamp_chars`].
#[verifier::opaque]
pub open spec fn spec_is_utc_text(s: Seq<char>, ts: int) -> bool {
    exists|y: int, m: int, d: int, hh: int, mm: int, ss: int|
        {
            &&& crate::dates::spec_valid_civil(y, m, d)
            &&& 0 <= hh < 24
            &&& 0 <= mm < 60
            &&& 0 <= ss < 60
            &&& crate::dates::spec_days_from_civil(y, m, d) * 86400 + hh * 3600 + mm * 60 + ss
                == ts
            &&& s == #[trigger] spec_timestamp_chars(y, m, d, hh, mm, ss)
        }
}

fn push_two_digits(out: &mut String, n: u8)
    requires
        n < 100,
    ensures
        final(out)@ == old(out)@ + spec_two_digits(n as int),
{
    crate::strutil::string_push(out, (48 + n / 10) as char);
    crate::strutil::string_push(out, (48 + n % 10) as char);
    proof {
        assert(out@ =~= old(out)@ + spec_two_digits(n as int));
    }
}

fn push_four_digits(out: &mut String, n: u16)
    requires
        n < 10000,
    ensures
        final(out)@ == old(out)@ + spec_four_digits(n as int),
{
    crate::strutil::string_push(out, (48 + n / 1000) as u8 as char);
    crate::strutil::string_push(out, (48 + n / 100 % 10) as u8 as char);
    crate::strutil::string_push(out, (48 + n / 10 % 10) as u8 as char);
    crate::strutil::string_push(out, (48 + n % 10) as u8 as char);
    proof {
        assert(out@ =~= old(out)@ + spec_four_digits(n as int));
    }
}

/// Whether an instant lies within the years the calendar text covers.
pub open spec fn spec_renderable_instant(ts: int) -> bool {
    crate::dates::MIN_DAY * 86400 <= ts <= crate::dates::MAX_DAY * 86400 + 86399
}

/// Render a unix instant as calendar UTC text: exactly the instants of the
/// supported years render.
#[verifier::rlimit(30)]
pub fn format_utc(ts: i64) -> (r: Option<String>)
    ensures
        r is Some <==> spec_renderable_instant(ts as int),
        r matches Some(s) ==> spec_is_utc_text(s@, ts as int),
{
    if ts < crate::dates::MIN_DAY * 86400 || ts > crate::dates::MAX_DAY * 86400 + 86399 {
        return None;
    }
    let z: u64 = (ts - crate::dates::MIN_DAY * 86400) as u64;
    let day_shift: u64 = z / 86400;
    let secs: u64 = z % 86400;
    let days: i64 = (day_shift as i64) + crate::dates::MIN_DAY;
    proof {
        vstd::arithmetic::div_mod::lemma_div_is_ordered(
            z as int,
            (crate::dates::MAX_DAY - crate::dates::MIN_DAY) * 86400 + 86399,
            86400,
        );
    }
    let civil = crate::dates::civil_from_days(days);
    let hh: u64 = secs / 3600;
    let rem: u64 = secs % 3600;
    let mm: u64 = rem / 60;
    let ss: u64 = rem % 60;
    let mut out = String::new();
    push_four_digits(&mut out, civil.0 as u16);
    push_two_digits(&mut out, civil.1);
    push_two_digits(&mut out, civil.2);
    crate::strutil::string_push(&mut out, 'T');
    push_two_digits(&mut out, hh as u8);
    push_two_digits(&mut out, mm as u8);
    push_two_digits(&mut out, ss as u8);
    crate::strutil::string_push(&mut out, 'Z');
    proof {
        let y = civil.0 as int;
        let m = civil.1 as int;
        let d = civil.2 as int;
        assert(z == day_shift * 86400 + secs);
        assert(secs == hh * 3600 + rem);
        assert(rem == mm * 60 + ss);
        assert(crate::dates::spec_days_from_civil(y, m, d) == days as int);
        assert(days * 86400 + (hh as int) * 3600 + (mm as int) * 60 + (ss as int) == ts as int);
        assert(out@ =~= spec_timestamp_chars(y, m, d, hh as int, mm as int, ss as int));
        reveal(spec_is_utc_text);
        assert(spec_is_utc_text(out@, ts as int));
    }
    Some(out)
}

/// Calendar TEXT escaping: backslash, semicolon, comma and newline are
/// escaped, a newline as `\n`.
pub open spec fn spec_ical_escaped(s: Seq<char>) -> Seq<char>
    decreases s.len(),
{
    if s.len() == 0 {
        Seq::empty()
    } else {
        spec_ical_escaped(s.drop_last()) + (if s.last() == '\\' {
            seq!['\\', '\\']
        } else if s.last() == ';' {
            seq!['\\', ';']
        } else if s.last() == ',' {
            seq!['\\', ',']
        } else if s.last() == '\n' {
            seq!['\\', 'n']
        } else {
            seq![s.last()]
        })
    }
}

/// Escape a string as calendar TEXT.
pub fn ical_escape(s: &str) -> (r: String)
    ensures
        r@ == spec_ical_escaped(s@),
{
    let mut out = String::new();
    let len = s.unicode_len();
    let mut i: usize = 0;
    while i < len
        invariant
            len == s@.len(),
            i <= len,
            out@ == spec_ical_escaped(s@.take(i as int)),
        decreases len - i,
    {
        let c = s.get_char(i);
        proof {
            assert(s@.take(i + 1).drop_last() =~= s@.take(i as int));
            assert(s@.take(i + 1).last() == s@[i as int]);
        }
        if c == '\\' {
            crate::strutil::string_push(&mut out, '\\');
            crate::strutil::string_push(&mut out, '\\');
        } else if c == ';' {
            crate::strutil::string_push(&mut out, '\\');
            crate::strutil::string_push(&mut out, ';');
        } else if c == ',' {
            crate::strutil::string_push(&mut out, '\\');
            crate::strutil::string_push(&mut out, ',');
        } else if c == '\n' {
            crate::strutil::string_push(&mut out, '\\');
            crate::strutil::string_push(&mut out, 'n');
        } else {
            crate::strutil::string_push(&mut out, c);
        }
        proof {
            assert(out@ =~= spec_ical_escaped(s@.take(i + 1)));
        }
        i += 1;
    }
    proof {
        assert(s@.take(s@.len() as int) =~= s@);
    }
    out
}

/// The summary of a lesson: its course, or the unnamed placeholder.
pub open spec fn spec_summary_source(l: Lesson) -> Seq<char> {
    match l.course {
        Some(c) => c@,
        None => "(Namnl\u{f6}s)"@,
    }
}

/// One VEVENT block: the lesson's id as UID, its instants as start and
/// end, the summary, and location and description when present.
#[verifier::opaque]
pub open spec fn spec_event_body(l: Lesson, st: Seq<char>, en: Seq<char>) -> Seq<char> {
    "BEGIN:VEVENT\r\nUID:"@ + crate::hexs::spec_uuid_hyphenated(l.id@) + "\r\nDTSTART:"@ + st
        + "\r\nDTEND:"@ + en + "\r\nSUMMARY:"@ + spec_ical_escaped(spec_summary_source(l)) + (
    match l.location {
        Some(loc) => "\r\nLOCATION:"@ + spec_ical_escaped(loc@),
        None => Seq::empty(),
    }) + (match l.teacher {
        Some(t) => "\r\nDESCRIPTION:"@ + spec_ical_escaped(t@),
        None => Seq::empty(),
    }) + "\r\nEND:VEVENT\r\n"@
}

/// Whether a lesson's instants both render as calendar text.
pub open spec fn spec_renderable(l: Lesson) -> bool {
    spec_renderable_instant(l.start as int) && spec_renderable_instant(l.end as int)
}

/// Render one lesson as a VEVENT: exactly the lessons of the supported
/// years render, each to its event body.
pub fn event_text(l: &Lesson) -> (r: Option<String>)
    ensures
        r is Some <==> spec_renderable(*l),
        r matches Some(s) ==> spec_event_for(s@, *l),
{
    let st = match format_utc(l.start) {
        Some(s) => s,
        None => {
            return None;
        },
    };
    let en = match format_utc(l.end) {
        Some(s) => s,
        None => {
            return None;
        },
    };
    let mut out = String::from_str("BEGIN:VEVENT\r\nUID:");
    out.append(crate::hexs::uuid_hyphenated(&l.id).as_str());
    out.append("\r\nDTSTART:");
    out.append(st.as_str());
    out.append("\r\nDTEND:");
    out.append(en.as_str());
    out.append("\r\nSUMMARY:");
    match &l.course {
        Some(c) => {
            out.append(ical_escape(c.as_str()).as_str());
        },
        None => {
            out.append(ical_escape("(Namnl\u{f6}s)").as_str());
        },
    }
    match &l.location {
        Some(loc) => {
            out.append("\r\nLOCATION:");
            out.append(ical_escape(loc.as_str()).as_str());
        },
        None => {},
    }
    match &l.teacher {
        Some(t) => {
            out.append("\r\nDESCRIPTION:");
            out.append(ical_escape(t.as_str()).as_str());
        },
        None => {},
    }
    out.append("\r\nEND:VEVENT\r\n");
    proof {
        reveal(spec_event_body);
        assert(out@ =~= spec_event_body(*l, st@, en@));
        assert(spec_is_utc_text(st@, l.start as int) && spec_is_utc_text(en@, l.end as int)
            && out@ == spec_event_body(*l, st@, en@));
        assert(spec_event_for(out@, *l));
    }
    Some(out)
}

/// What a calendar document opens with.
pub open spec fn spec_calendar_prefix() -> Seq<char> {
    "BEGIN:VCALENDAR\r\nVERSION:2.0\r\nPRODID:-//skool//agenda//EN\r\n"@
}

/// What a calendar document closes with.
pub open spec fn spec_calendar_suffix() -> Seq<char> {
    "END:VCALENDAR\r\n"@
}

/// The lessons of a list whose instants render, in order.
pub open spec fn spec_rendered(lessons: Seq<Lesson>) -> Seq<Lesson>
    decreases lessons.len(),
{
    if lessons.len() == 0 {
        Seq::empty()
    } else {
        spec_rendered(lessons.drop_last()) + (if spec_renderable(lessons.last()) {
            seq![lessons.last()]
        } else {
            Seq::empty()
        })
    }
}

/// A list of event texts, joined.
pub open spec fn spec_concat_texts(evs: Seq<Seq<char>>) -> Seq<char>
    decreases evs.len(),
{
    if evs.len() == 0 {
        Seq::empty()
    } else {
        spec_concat_texts(evs.drop_last()) + evs.last()
    }
}

/// A text is the VEVENT of a lesson: its body around calendar texts of the
/// lesson's two instants.
pub open spec fn spec_event_for(ev: Seq<char>, l: Lesson) -> bool {
    exists|st: Seq<char>, en: Seq<char>|
        spec_is_utc_text(st, l.start as int) && spec_is_utc_text(en, l.end as int) && ev
            == #[trigger] spec_event_body(l, st, en)
}

/// One event text per rendered lesson, in order.
pub open spec fn spec_events_of(evs: Seq<Seq<char>>, rendered: Seq<Lesson>) -> bool {
    evs.len() == rendered.len() && (forall|j: int|
        0 <= j < evs.len() ==> #[trigger] spec_event_for(evs[j], rendered[j]))
}

/// Assemble a single VCALENDAR: exactly one VEVENT per lesson of the
/// supported years, in order, between the fixed opening and closing lines;
/// nothing else is added.
#[verifier::rlimit(100)]
#[verifier::spinoff_prover]
pub fn build_calendar(lessons: &Vec<Lesson>) -> (r: String)
    ensures
        exists|evs: Seq<Seq<char>>|
            #[trigger] spec_events_of(evs, spec_rendered(lessons@)) && r@
                == spec_calendar_prefix() + spec_concat_texts(evs) + spec_calendar_suffix(),
{
    let mut out = String::from_str("BEGIN:VCALENDAR\r\nVERSION:2.0\r\nPRODID:-//skool//agenda//EN\r\n");
    let ghost prefix = out@;
    let ghost mut evs: Seq<Seq<char>> = Seq::empty();
    let mut i: usize = 0;
    proof {
        assert(out@ =~= spec_calendar_prefix() + spec_concat_texts(evs));
    }
    while i < lessons.len()
        invariant
            prefix == spec_calendar_prefix(),
            i <= lessons@.len(),
            spec_events_of(evs, spec_rendered(lessons@.take(i as int))),
            out@ == spec_calendar_prefix() + spec_concat_texts(evs),
        decreases lessons@.len() - i,
    {
        proof {
            assert(lessons@.take(i + 1).drop_last() =~= lessons@.take(i as int));
            assert(lessons@.take(i + 1).last() == lessons@[i as int]);
        }
        match event_text(&lessons[i]) {
            Some(ev) => {
                let ghost before = evs;
                proof {
                    evs = evs.push(ev@);
                }
                out.append(ev.as_str());
                proof {
                    assert(evs.drop_last() =~= before);
                    assert(spec_concat_texts(evs) == spec_concat_texts(before) + ev@);
                    assert(out@ =~= spec_calendar_prefix() + spec_concat_texts(evs));
                    let rold = spec_rendered(lessons@.take(i as int));
                    let rnew = spec_rendered(lessons@.take(i + 1));
                    assert(rnew =~= rold.push(lessons@[i as int]));
                    assert(before.len() == rold.len());
                    assert(evs.len() == rnew.len());
                    assert forall|j: int|
                        0 <= j < evs.len() implies #[trigger] spec_event_for(
                        evs[j],
                        rnew[j],
                    ) by {
                        if j < before.len() {
                            assert(spec_event_for(before[j], rold[j]));
                            assert(evs[j] == before[j]);
                            assert(rnew[j] == rold[j]);
                        } else {
                            assert(evs[j] == ev@);
                            assert(rnew[j] == lessons@[i as int]);
                        }
                    }
                    assert(spec_events_of(evs, rnew));
                }
            },
            None => {
                proof {
                    assert(spec_rendered(lessons@.take(i + 1)) =~= spec_rendered(
                        lessons@.take(i as int),
                    ));
                }
            },
        }
        i += 1;
    }
    proof {
        assert(lessons@.take(lessons@.len() as int) =~= lessons@);
    }
    out.append("END:VCALENDAR\r\n");
    proof {
        assert(out@ =~= spec_calendar_prefix() + spec_concat_texts(evs) + spec_calendar_suffix());
    }
    out
}

} // verus!
