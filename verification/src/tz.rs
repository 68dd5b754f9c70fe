//! Europe/Stockholm wall time against UTC instants, through the timezone
//! database.

use vstd::prelude::*;

use chrono::TimeZone;

verus! {

/// The UTC instant (unix seconds) of a Europe/Stockholm wall time, given as
/// a day number and hour/minute; `None` where the wall time is ambiguous
/// (autumn fold) or does not exist (spring gap). A function of its arguments
/// alone: the timezone database is fixed.
pub uninterp spec fn stockholm_utc_of(day: int, hour: int, minute: int) -> Option<int>;

/// The Europe/Stockholm wall time `(day, hour, minute)` of a UTC instant.
/// A function of its argument alone.
pub uninterp spec fn stockholm_wall_of(t: int) -> (int, int, int);

/// Relies on chrono-tz's Europe::Stockholm with chrono's
/// TimeZone::from_local_datetime: a unique local interpretation gives the
/// instant whose conversion back to Stockholm is the same wall time, and the
/// instant of a date within years 1 to 9999 stays within fixed bounds.
#[verifier::external_body]
pub(crate) fn stockholm_to_utc(day: i64, hour: u8, minute: u8) -> (r: Option<i64>)
    requires
        hour < 24,
        minute < 60,
    ensures
        r matches Some(t) ==> stockholm_utc_of(day as int, hour as int, minute as int)
            == Some(t as int),
        r is None ==> stockholm_utc_of(day as int, hour as int, minute as int) is None,
        r matches Some(t) ==> stockholm_wall_of(t as int) == (
            day as int,
            hour as int,
            minute as int,
        ),
{
    let ce_days: i32 = match (day + 719163).try_into() {
        Ok(v) => v,
        Err(_) => {
            return None;
        },
    };
    let date = chrono::NaiveDate::from_num_days_from_ce_opt(ce_days)?;
    let time = chrono::NaiveTime::from_hms_opt(hour as u32, minute as u32, 0)?;
    let local = chrono_tz::Europe::Stockholm.from_local_datetime(&date.and_time(time)).single()?;
    Some(local.with_timezone(&chrono::Utc).timestamp())
}

} // verus!
