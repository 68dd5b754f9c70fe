//! Parsing of schedule requests: the ISO week asked for and whose schedule
//! is selected, rejected up-front when contradictory.

use vstd::prelude::*;

use crate::dates::IsoWeek;
use crate::error::AppError;
use crate::share::Id;

verus! {

/// Whose schedule a request reads.
#[derive(Debug)]
pub enum Selection {
    /// A classmate's, through a class reference.
    Class(String),
    /// A share-link owner's.
    OtherUser(Id),
    /// The caller's own.
    CurrentUser,
}

/// A parsed schedule request.
#[derive(Debug)]
pub struct ScheduleQuery {
    pub week: IsoWeek,
    pub selection: Selection,
}

/// Parse the query string of a schedule request. Year and week come
/// together or not at all; absent, the week holding today — handed in
/// already resolved — is read. A class reference and a share id together
/// are contradictory.
pub fn parse_schedule_query(
    year: Option<i32>,
    week: Option<u32>,
    class: Option<String>,
    share: Option<Id>,
    today_week: IsoWeek,
) -> (r: Result<ScheduleQuery, AppError>)
    requires
        today_week.spec_valid(),
    ensures
        r matches Ok(q) ==> q.week.spec_valid(),
        (match (year, week) {
            (Some(y), Some(w)) => r is Ok <==> (1 <= y <= 9999 && 1 <= w
                <= crate::dates::spec_iso_weeks_in_year(y as int) && !(class is Some
                && share is Some)),
            (None, None) => r is Ok <==> !(class is Some && share is Some),
            _ => r is Err,
        }),
        r matches Ok(q) ==> (match (year, week) {
            (Some(y), Some(w)) => q.week.year == y && q.week.week as u32 == w,
            (None, None) => q.week == today_week,
            _ => true,
        }),
        r matches Ok(q) ==> (match q.selection {
            Selection::Class(c) => class matches Some(c2) && c@ == c2@ && share is None,
            Selection::OtherUser(id) => share matches Some(s2) && id.bytes@ == s2.bytes@ && class
                is None,
            Selection::CurrentUser => class is None && share is None,
        }),
        class is Some && share is Some ==> r is Err,
        r matches Err(e) ==> e is BadRequest,
{
    let parsed_week: IsoWeek = match (year, week) {
        (Some(y), Some(w)) => {
            if y < 1 || y > 9999 || w < 1 || w > 53 {
                return Err(AppError::BadRequest("invalid iso week"));
            }
            let candidate = IsoWeek { year: y, week: w as u8 };
            if !candidate.valid() {
                return Err(AppError::BadRequest("invalid iso week"));
            }
            candidate
        },
        (Some(_), None) => {
            return Err(AppError::BadRequest("week"));
        },
        (None, Some(_)) => {
            return Err(AppError::BadRequest("year"));
        },
        (None, None) => today_week,
    };
    let selection = match (class, share) {
        (Some(c), None) => Selection::Class(c),
        (None, Some(id)) => Selection::OtherUser(id),
        (None, None) => Selection::CurrentUser,
        (Some(_), Some(_)) => {
            return Err(AppError::BadRequest("contradictory selection"));
        },
    };
    Ok(ScheduleQuery { week: parsed_week, selection })
}

} // verus!
