//! Share links: opaque revocable capabilities over a validity window and a
//! week range.

use vstd::prelude::*;

use crate::crypt::random_bytes;
use crate::dates::{DateRange, IsoWeek, MAX_DAY, MIN_DAY};
use crate::error::AppError;
use crate::strutil::bytes32_from_vec;

verus! {

/// A share-link id: 32 random bytes, treated as a bearer secret.
#[derive(Debug, Clone, Copy)]
pub struct Id {
    pub bytes: [u8; 32],
}

impl Id {
    /// Draw a fresh, unguessable id. Nothing is promised of its value.
    pub fn new() -> Id {
        let v = random_bytes(32);
        Id { bytes: bytes32_from_vec(&v) }
    }
}

/// Options of a link: an optional expiry instant and the shared date range.
#[derive(Debug, Clone, Copy)]
pub struct Options {
    pub expires_at: Option<i64>,
    pub range: DateRange,
}

impl Default for Options {
    /// No expiry, every date shared.
    fn default() -> (r: Options)
        ensures
            r.expires_at is None,
            r.range.start is Unbounded,
            r.range.end is Unbounded,
    {
        Options { expires_at: None, range: DateRange::full() }
    }
}

/// A share link as the owner sees it.
#[derive(Debug, Clone, Copy)]
pub struct Link {
    pub id: Id,
    pub options: Options,
    pub last_used: Option<i64>,
}

impl Link {
    /// A fresh link for the given options, never used yet.
    pub fn new(options: Options) -> (r: Link)
        ensures
            r.options == options,
            r.last_used is None,
    {
        Link { id: Id::new(), options, last_used: None }
    }
}

/// A stored link row, as resolution reads it back.
#[derive(Debug, Clone, Copy)]
pub struct LinkRow {
    pub owner: [u8; 16],
    pub expires_at: Option<i64>,
    pub range: DateRange,
}

/// Resolve a share id against the row the store returned and the clock: a
/// missing row is an invalid link, and a link with an expiry denies every
/// request at or after that instant.
pub fn resolve_share(row: Option<LinkRow>, now: i64) -> (r: Result<([u8; 16], DateRange), AppError>)
    ensures
        r is Ok <==> (row matches Some(l) && (l.expires_at matches Some(t) ==> now < t)),
        r matches Ok(p) ==> row matches Some(l) && p.0 == l.owner && p.1 == l.range,
        r matches Err(e) ==> e is InvalidShareLink,
{
    match row {
        None => Err(AppError::InvalidShareLink),
        Some(l) => {
            match l.expires_at {
                Some(t) => {
                    if now >= t {
                        Err(AppError::InvalidShareLink)
                    } else {
                        Ok((l.owner, l.range))
                    }
                },
                None => Ok((l.owner, l.range)),
            }
        },
    }
}

/// Whether a week lies within a shared range: both its Monday and its
/// Sunday must.
pub open spec fn spec_week_allowed(range: DateRange, week: IsoWeek) -> bool {
    range.spec_contains(week.spec_with_weekday(1)) && range.spec_contains(
        week.spec_with_weekday(7),
    )
}

/// Enforce the week window of a range: a week whose Monday or Sunday falls
/// outside is denied as an invalid share link.
pub fn authorize_week(range: &DateRange, week: IsoWeek) -> (r: Result<(), AppError>)
    requires
        week.spec_valid(),
    ensures
        r is Ok <==> spec_week_allowed(*range, week),
        r matches Err(e) ==> e is InvalidShareLink,
{
    let mon = week.with_weekday(1);
    let sun = week.with_weekday(7);
    if range.contains(mon) && range.contains(sun) {
        Ok(())
    } else {
        Err(AppError::InvalidShareLink)
    }
}

/// Whether a week is the one covering a day.
pub open spec fn spec_week_covers(week: IsoWeek, day: int) -> bool {
    week.spec_monday() <= day < week.spec_monday() + 7
}

/// Law: one week covers a day. Two valid ISO weeks covering the same day
/// share their Monday, and with it their Sunday and their window.
pub proof fn lemma_covering_week_unique(w1: IsoWeek, w2: IsoWeek, day: int)
    requires
        w1.spec_valid(),
        w2.spec_valid(),
        spec_week_covers(w1, day),
        spec_week_covers(w2, day),
    ensures
        w1.spec_monday() == w2.spec_monday(),
{
    crate::dates::lemma_week_monday_residue(w1);
    crate::dates::lemma_week_monday_residue(w2);
    crate::dates::lemma_same_r_aligned(w1.spec_monday(), w2.spec_monday());
    let dd = w1.spec_monday() - w2.spec_monday();
    vstd::arithmetic::div_mod::lemma_fundamental_div_mod(dd, 7);
    assert(dd == 7 * (dd / 7));
    assert(-6 <= dd <= 6);
}

/// The weeks of a calendar feed: starting four weeks before today, step a
/// week at a time while Monday and Sunday stay within the shared range, and
/// stop after at most 28 weeks — taking every eligible week until the
/// first that falls outside.
pub fn ical_weeks(today: i64, range: &DateRange) -> (r: Vec<IsoWeek>)
    requires
        MIN_DAY + 36 <= today,
        today <= MAX_DAY - 204,
    ensures
        r@.len() <= 28,
        forall|j: int|
            0 <= j < r@.len() ==> (#[trigger] r@[j]).spec_valid() && spec_week_allowed(
                *range,
                r@[j],
            ) && spec_week_covers(r@[j], today - 28 + 7 * j),
        r@.len() < 28 ==> (forall|w: IsoWeek|
            w.spec_valid() && #[trigger] spec_week_covers(w, today - 28 + 7 * r@.len())
                ==> !spec_week_allowed(*range, w)),
{
    let first = today - 28;
    let mut out: Vec<IsoWeek> = Vec::new();
    let mut k: usize = 0;
    while k < 28
        invariant
            MIN_DAY + 36 <= today <= MAX_DAY - 204,
            first == today - 28,
            k <= 28,
            out@.len() == k,
            forall|j: int|
                0 <= j < out@.len() ==> (#[trigger] out@[j]).spec_valid() && spec_week_allowed(
                    *range,
                    out@[j],
                ) && spec_week_covers(out@[j], first + 7 * j),
        decreases 28 - k,
    {
        let day = first + 7 * (k as i64);
        let week = crate::dates::iso_week_of_day(day);
        if authorize_week(range, week).is_err() {
            proof {
                assert forall|w: IsoWeek|
                    w.spec_valid() && #[trigger] spec_week_covers(
                        w,
                        today - 28 + 7 * out@.len(),
                    ) implies !spec_week_allowed(*range, w) by {
                    lemma_covering_week_unique(w, week, day as int);
                    assert(w.spec_with_weekday(1) == week.spec_with_weekday(1));
                    assert(w.spec_with_weekday(7) == week.spec_with_weekday(7));
                }
            }
            return out;
        }
        out.push(week);
        k += 1;
    }
    out
}

} // verus!
