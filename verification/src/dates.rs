//! Civil-calendar arithmetic on day numbers (days since 1970-01-01), ISO
//! weeks, and date ranges with open or closed bounds.

use vstd::prelude::*;

verus! {

/// Day number of 0000-03-01 relative to 1970-01-01, negated: the offset that
/// keeps the era arithmetic non-negative for all years from 1 to 9999.
pub const DAY_OFFSET: u64 = 719468;

/// Smallest supported day number: 0001-01-01.
pub const MIN_DAY: i64 = -719162;

/// Largest supported day number: 9999-12-31.
pub const MAX_DAY: i64 = 2932896;

/// Whether a year is a leap year of the Gregorian calendar.
pub open spec fn spec_is_leap(y: int) -> bool {
    y % 4 == 0 && (y % 100 != 0 || y % 400 == 0)
}

pub fn is_leap(y: i32) -> (r: bool)
    ensures
        r == spec_is_leap(y as int),
{
    y % 4 == 0 && (y % 100 != 0 || y % 400 == 0)
}

/// Days in a month of a year.
pub open spec fn spec_days_in_month(y: int, m: int) -> int {
    if m == 2 {
        if spec_is_leap(y) {
            29
        } else {
            28
        }
    } else if m == 4 || m == 6 || m == 9 || m == 11 {
        30
    } else {
        31
    }
}

pub fn days_in_month(y: i32, m: u8) -> (r: u8)
    requires
        1 <= m <= 12,
        y >= 0,
    ensures
        r == spec_days_in_month(y as int, m as int),
{
    if m == 2 {
        if is_leap(y) {
            29
        } else {
            28
        }
    } else if m == 4 || m == 6 || m == 9 || m == 11 {
        30
    } else {
        31
    }
}

/// Day number of a civil date: the standard era decomposition of the
/// Gregorian calendar, counting from 1970-01-01.
pub open spec fn spec_days_from_civil(y: int, m: int, d: int) -> int {
    let yp = if m <= 2 {
        y - 1
    } else {
        y
    };
    let era = yp / 400;
    let yoe = yp - era * 400;
    let mp = if m > 2 {
        m - 3
    } else {
        m + 9
    };
    let doy = (153 * mp + 2) / 5 + d - 1;
    let doe = yoe * 365 + yoe / 4 - yoe / 100 + doy;
    era * 146097 + doe - 719468
}

/// Whether a (year, month, day) triple is a date this module supports.
pub open spec fn spec_valid_civil(y: int, m: int, d: int) -> bool {
    1 <= y <= 9999 && 1 <= m <= 12 && 1 <= d <= spec_days_in_month(y, m)
}

/// Day number of a civil date.
pub fn days_from_civil(y: i32, m: u8, d: u8) -> (r: i64)
    requires
        1 <= y <= 9999,
        1 <= m <= 12,
        1 <= d <= 31,
    ensures
        r == spec_days_from_civil(y as int, m as int, d as int),
        MIN_DAY <= r <= MAX_DAY + 30,
{
    let yp: u64 = if m <= 2 {
        (y - 1) as u64
    } else {
        y as u64
    };
    let era: u64 = yp / 400;
    let yoe: u64 = yp - era * 400;
    let mp: u64 = if m > 2 {
        (m - 3) as u64
    } else {
        (m + 9) as u64
    };
    let doy: u64 = (153 * mp + 2) / 5 + (d - 1) as u64;
    let doe: u64 = yoe * 365 + yoe / 4 - yoe / 100 + doy;
    let total: u64 = era * 146097 + doe;
    (total as i64) - 719468
}

/// ISO weekday (1 = Monday .. 7 = Sunday) of a day number. The offset keeps
/// the dividend non-negative over the supported years; day 0 is a Thursday.
pub open spec fn spec_weekday(days: int) -> int {
    ((days + 719468) % 7 + 2) % 7 + 1
}

pub fn weekday_from_days(days: i64) -> (r: u8)
    requires
        MIN_DAY <= days <= MAX_DAY + 30,
    ensures
        r == spec_weekday(days as int),
        1 <= r <= 7,
{
    let shifted: u64 = (days + 719468) as u64;
    let r = ((shifted % 7 + 2) % 7 + 1) as u8;
    r
}

/// Day number of the Monday of ISO week 1 of a year: the Monday of the week
/// that holds January 4th.
pub open spec fn spec_iso_week1_monday(y: int) -> int {
    let jan4 = spec_days_from_civil(y, 1, 4);
    jan4 - (spec_weekday(jan4) - 1)
}

pub fn iso_week1_monday(y: i32) -> (r: i64)
    requires
        1 <= y <= 9999,
    ensures
        r == spec_iso_week1_monday(y as int),
{
    let jan4 = days_from_civil(y, 1, 4);
    let wd = weekday_from_days(jan4);
    jan4 - (wd - 1) as i64
}

/// How many ISO weeks a year has: 53 when January 1st or December 31st falls
/// on a Thursday, else 52.
pub open spec fn spec_iso_weeks_in_year(y: int) -> int {
    if spec_weekday(spec_days_from_civil(y, 1, 1)) == 4 || spec_weekday(
        spec_days_from_civil(y, 12, 31),
    ) == 4 {
        53
    } else {
        52
    }
}

pub fn iso_weeks_in_year(y: i32) -> (r: u8)
    requires
        1 <= y <= 9999,
    ensures
        r == spec_iso_weeks_in_year(y as int),
{
    let jan1 = days_from_civil(y, 1, 1);
    let dec31 = days_from_civil(y, 12, 31);
    if weekday_from_days(jan1) == 4 || weekday_from_days(dec31) == 4 {
        53
    } else {
        52
    }
}

/// An ISO week: a year and a week number, Monday first.
#[derive(Debug, Clone, Copy, PartialEq, Eq, Structural)]
pub struct IsoWeek {
    pub year: i32,
    pub week: u8,
}

impl IsoWeek {
    /// Whether the pair names a week the year has.
    pub open spec fn spec_valid(&self) -> bool {
        1 <= self.year <= 9999 && 1 <= self.week <= spec_iso_weeks_in_year(self.year as int)
    }

    pub fn valid(&self) -> (r: bool)
        ensures
            r == self.spec_valid(),
    {
        1 <= self.year && self.year <= 9999 && 1 <= self.week && self.week <= iso_weeks_in_year(
            self.year,
        )
    }

    /// Day number of the Monday of this week.
    pub open spec fn spec_monday(&self) -> int {
        spec_iso_week1_monday(self.year as int) + 7 * (self.week - 1)
    }

    /// Day number of a weekday (1 = Monday .. 7 = Sunday) of this week.
    pub open spec fn spec_with_weekday(&self, weekday: int) -> int {
        self.spec_monday() + (weekday - 1)
    }

    /// Day number of the given weekday of this week.
    pub fn with_weekday(&self, weekday: u8) -> (r: i64)
        requires
            self.spec_valid(),
            1 <= weekday <= 7,
        ensures
            r == self.spec_with_weekday(weekday as int),
    {
        let monday = iso_week1_monday(self.year) + 7 * ((self.week - 1) as i64);
        monday + (weekday - 1) as i64
    }
}

/// One end of a date range, as a range over day numbers carries it.
#[derive(Debug, Clone, Copy, PartialEq, Eq, Structural)]
pub enum DayBound {
    Included(i64),
    Excluded(i64),
    Unbounded,
}

/// A range of day numbers with independent lower and upper bounds.
#[derive(Debug, Clone, Copy, PartialEq, Eq, Structural)]
pub struct DateRange {
    pub start: DayBound,
    pub end: DayBound,
}

impl DateRange {
    /// The range that admits every date.
    pub fn full() -> (r: DateRange)
        ensures
            r.start is Unbounded,
            r.end is Unbounded,
            forall|d: int| r.spec_contains(d),
    {
        DateRange { start: DayBound::Unbounded, end: DayBound::Unbounded }
    }

    /// Whether a day number lies within the range.
    pub open spec fn spec_contains(&self, d: int) -> bool {
        (match self.start {
            DayBound::Included(s) => d >= s,
            DayBound::Excluded(s) => d > s,
            DayBound::Unbounded => true,
        }) && (match self.end {
            DayBound::Included(e) => d <= e,
            DayBound::Excluded(e) => d < e,
            DayBound::Unbounded => true,
        })
    }

    pub fn contains(&self, d: i64) -> (r: bool)
        ensures
            r == self.spec_contains(d as int),
    {
        (match self.start {
            DayBound::Included(s) => d >= s,
            DayBound::Excluded(s) => d > s,
            DayBound::Unbounded => true,
        }) && (match self.end {
            DayBound::Included(e) => d <= e,
            DayBound::Excluded(e) => d < e,
            DayBound::Unbounded => true,
        })
    }
}

/// Days before the March-based year `yoe` of a 400-year era: 365 a year,
/// plus a leap day after the years the cycle grants one.
pub open spec fn spec_year_days(yoe: int) -> int {
    yoe * 365 + yoe / 4 - yoe / 100
}

fn year_days(yoe: u64) -> (r: u64)
    requires
        yoe <= 400,
    ensures
        r as int == spec_year_days(yoe as int),
{
    proof {
        vstd::arithmetic::div_mod::lemma_div_nonincreasing(yoe as int, 100);
        vstd::arithmetic::div_mod::lemma_div_pos_is_pos(yoe as int, 4);
        vstd::arithmetic::div_mod::lemma_div_pos_is_pos(yoe as int, 100);
    }
    yoe * 365 + yoe / 4 - yoe / 100
}

/// Days before the March-based month `mp` (0 is March) within a year.
pub open spec fn spec_month_days(mp: int) -> int {
    (153 * mp + 2) / 5
}

fn month_days(mp: u64) -> (r: u64)
    requires
        mp <= 11,
    ensures
        r as int == spec_month_days(mp as int),
{
    (153 * mp + 2) / 5
}

/// One step of a division by a positive constant: the quotient grows by one
/// exactly at the multiples.
proof fn lemma_div_succ(a: int, c: int)
    requires
        1 <= a,
        1 <= c,
    ensures
        a % c == 0 ==> a / c == (a - 1) / c + 1,
        a % c != 0 ==> a / c == (a - 1) / c,
{
    vstd::arithmetic::div_mod::lemma_fundamental_div_mod(a, c);
    let q = a / c;
    let r = a % c;
    if r == 0 {
        assert(a == c * q);
        assert((q - 1) * c + (c - 1) == c * q - 1) by (nonlinear_arith);
        assert(a - 1 == (q - 1) * c + (c - 1));
        vstd::arithmetic::div_mod::lemma_fundamental_div_mod_converse_div(a - 1, c, q - 1, c - 1);
    } else {
        assert(a == c * q + r);
        assert(q * c == c * q) by (nonlinear_arith);
        assert(a - 1 == q * c + (r - 1));
        vstd::arithmetic::div_mod::lemma_fundamental_div_mod_converse_div(a - 1, c, q, r - 1);
    }
}

/// The year table steps by 365 days, or 366 exactly before an in-cycle leap
/// year: one divisible by four but not by a hundred. (The cycle's own 400th
/// leap day is the era's final day, past the table.)
proof fn lemma_year_days_step(yoe: int)
    requires
        1 <= yoe <= 400,
    ensures
        spec_year_days(yoe) == spec_year_days(yoe - 1) + 365 + (if yoe % 4 == 0 && yoe % 100 != 0 {
            1int
        } else {
            0int
        }),
{
    lemma_div_succ(yoe, 4);
    lemma_div_succ(yoe, 100);
    if yoe % 100 == 0 {
        vstd::arithmetic::div_mod::lemma_fundamental_div_mod(yoe, 100);
        let k = yoe / 100;
        assert(yoe == 100 * k);
        assert(yoe == 4 * (25 * k) + 0);
        vstd::arithmetic::div_mod::lemma_fundamental_div_mod_converse_mod(yoe, 4, 25 * k, 0);
        assert(yoe % 4 == 0);
    }
}

/// Shifting a day number shifts its residue: the weekday base of `x + k`
/// is the base of `x` plus `k`, modulo seven.
proof fn lemma_r_shift(x: int, k: int)
    ensures
        (x + k + 719468) % 7 == ((x + 719468) % 7 + k) % 7,
{
    let q = (x + 719468) / 7;
    let r = (x + 719468) % 7;
    vstd::arithmetic::div_mod::lemma_fundamental_div_mod(x + 719468, 7);
    let s = (r + k) / 7;
    let u = (r + k) % 7;
    vstd::arithmetic::div_mod::lemma_fundamental_div_mod(r + k, 7);
    assert(x + k + 719468 == (q + s) * 7 + u) by (nonlinear_arith)
        requires
            x + 719468 == 7 * q + r,
            r + k == 7 * s + u,
    ;
    vstd::arithmetic::div_mod::lemma_fundamental_div_mod_converse_mod(x + k + 719468, 7, q + s, u);
}

/// Two day numbers with the same residue lie a whole number of weeks
/// apart.
pub(crate) proof fn lemma_same_r_aligned(a: int, b: int)
    requires
        (a + 719468) % 7 == (b + 719468) % 7,
    ensures
        (a - b) % 7 == 0,
{
    let qa = (a + 719468) / 7;
    let qb = (b + 719468) / 7;
    vstd::arithmetic::div_mod::lemma_fundamental_div_mod(a + 719468, 7);
    vstd::arithmetic::div_mod::lemma_fundamental_div_mod(b + 719468, 7);
    assert(a - b == (qa - qb) * 7 + 0) by (nonlinear_arith)
        requires
            a + 719468 == 7 * qa + (a + 719468) % 7,
            b + 719468 == 7 * qb + (b + 719468) % 7,
            (a + 719468) % 7 == (b + 719468) % 7,
    ;
    vstd::arithmetic::div_mod::lemma_fundamental_div_mod_converse_mod(a - b, 7, qa - qb, 0);
}

/// A year runs 365 days from its January 1st to its December 31st, 366 in
/// a leap year.
proof fn lemma_year_length(y: int)
    requires
        1 <= y <= 9999,
    ensures
        spec_days_from_civil(y, 12, 31) - spec_days_from_civil(y, 1, 1) == 364 + (if spec_is_leap(
            y,
        ) {
            1int
        } else {
            0int
        }),
{
    let e1 = (y - 1) / 400;
    let o1 = (y - 1) - e1 * 400;
    let e2 = y / 400;
    let o2 = y - e2 * 400;
    lemma_div_succ(y, 400);
    if y % 400 == 0 {
        vstd::arithmetic::div_mod::lemma_fundamental_div_mod(y, 400);
        assert(y == 400 * e2);
        assert(e1 == e2 - 1);
        assert(o1 == 399 && o2 == 0);
        assert(spec_year_days(399) == 145731);
        assert(spec_year_days(0) == 0);
        vstd::arithmetic::div_mod::lemma_mod_multiples_vanish(100 * e2, 0, 4);
        assert(y % 4 == 0);
        assert(spec_is_leap(y));
    } else {
        assert(e1 == e2);
        assert(o2 == o1 + 1);
        assert(1 <= o2 <= 399);
        lemma_div_succ(o2, 4);
        lemma_div_succ(o2, 100);
        vstd::arithmetic::div_mod::lemma_fundamental_div_mod(y, 400);
        assert(y == 400 * e2 + o2);
        vstd::arithmetic::div_mod::lemma_mod_multiples_vanish(100 * e2, o2, 4);
        assert(y % 4 == (400 * e2 + o2) % 4 == o2 % 4);
        vstd::arithmetic::div_mod::lemma_mod_multiples_vanish(4 * e2, o2, 100);
        assert(y % 100 == o2 % 100);
        if o2 % 100 == 0 {
            vstd::arithmetic::div_mod::lemma_fundamental_div_mod(o2, 100);
            let k = o2 / 100;
            assert(o2 == 4 * (25 * k) + 0);
            vstd::arithmetic::div_mod::lemma_fundamental_div_mod_converse_mod(o2, 4, 25 * k, 0);
            assert(o2 % 4 == 0);
        }
    }
}

/// A date's day number lies between its year's January 1st and its
/// December 31st.
proof fn lemma_civil_year_bounds(y: int, m: int, d: int)
    requires
        spec_valid_civil(y, m, d),
    ensures
        spec_days_from_civil(y, 1, 1) <= spec_days_from_civil(y, m, d),
        spec_days_from_civil(y, m, d) <= spec_days_from_civil(y, 12, 31),
{
    let e1 = (y - 1) / 400;
    let o1 = (y - 1) - e1 * 400;
    let e2 = y / 400;
    let o2 = y - e2 * 400;
    lemma_div_succ(y, 400);
    if m <= 2 {
        let mp = m + 9;
        let doy = spec_month_days(mp) + d - 1;
        if m == 1 {
            assert(spec_month_days(10) == 306);
            assert(doy <= 336);
        } else {
            assert(spec_month_days(11) == 337);
            assert(d <= 29);
            assert(doy <= 365);
        }
        assert(306 <= doy <= 365);
        if y % 400 == 0 {
            vstd::arithmetic::div_mod::lemma_fundamental_div_mod(y, 400);
            assert(y == 400 * e2);
            assert(e1 == e2 - 1);
            assert(o1 == 399 && o2 == 0);
            assert(spec_year_days(399) == 145731);
            assert(spec_year_days(0) == 0);
        } else {
            assert(e1 == e2);
            assert(o2 == o1 + 1);
            assert(1 <= o2 <= 399);
            lemma_div_succ(o2, 4);
            lemma_div_succ(o2, 100);
        }
    } else {
        let mp = m - 3;
        let doy = spec_month_days(mp) + d - 1;
        assert(0 <= mp <= 9);
        vstd::arithmetic::div_mod::lemma_div_is_ordered(153 * mp + 2, 1379, 5);
        assert(1379int / 5 == 275);
        assert(doy <= 305);
        vstd::arithmetic::div_mod::lemma_div_pos_is_pos(153 * mp + 2, 5);
        assert(doy >= 0);
        if y % 400 == 0 {
            vstd::arithmetic::div_mod::lemma_fundamental_div_mod(y, 400);
            assert(y == 400 * e2);
            assert(e1 == e2 - 1);
            assert(o1 == 399 && o2 == 0);
            assert(spec_year_days(399) == 145731);
            assert(spec_year_days(0) == 0);
        } else {
            assert(e1 == e2);
            assert(o2 == o1 + 1);
            assert(1 <= o2 <= 399);
            lemma_div_succ(o2, 4);
            lemma_div_succ(o2, 100);
        }
    }
}

/// A civil date read back from a day number: total over the supported
/// range, with the read-back date proved to map to exactly that day.
pub fn civil_from_days(days: i64) -> (r: (i32, u8, u8))
    requires
        MIN_DAY <= days <= MAX_DAY,
    ensures
        spec_valid_civil(r.0 as int, r.1 as int, r.2 as int),
        spec_days_from_civil(r.0 as int, r.1 as int, r.2 as int) == days,
{
    let z: u64 = (days + 719468) as u64;
    proof {
        assert(306 <= z <= 3652364);
        vstd::arithmetic::div_mod::lemma_div_is_ordered(z as int, 3652364, 146097);
        assert(3652364int / 146097 == 24);
    }
    let era: u64 = z / 146097;
    proof {
        vstd::arithmetic::div_mod::lemma_fundamental_div_mod(z as int, 146097);
        vstd::arithmetic::div_mod::lemma_div_pos_is_pos(z as int, 146097);
    }
    let doe: u64 = z - era * 146097;

    // The year of the era: the largest whose day table starts at or before
    // `doe`. The table is scanned whole; no monotonicity is assumed.
    let mut yoe: u64 = 0;
    let mut cand: u64 = 1;
    while cand <= 399
        invariant
            yoe < cand <= 400,
            doe < 146097,
            spec_year_days(yoe as int) <= doe as int,
            forall|c: int| yoe < c < cand ==> spec_year_days(c) > doe as int,
        decreases 400 - cand,
    {
        if year_days(cand) <= doe {
            yoe = cand;
        }
        cand += 1;
    }
    let yd: u64 = year_days(yoe);
    let doy: u64 = doe - yd;
    proof {
        assert(spec_year_days(400) == 146096);
        if yoe < 399 {
            lemma_year_days_step(yoe as int + 1);
            assert(spec_year_days(yoe as int + 1) > doe as int);
            assert(doy < 367);
        } else {
            assert(spec_year_days(399) == 145731);
            assert(doy <= 365);
        }
        assert(doy <= 365);
    }

    // The month within the March-based year: again the largest whose day
    // count starts at or before `doy`.
    proof {
        assert(spec_month_days(0) == 0);
        assert(spec_month_days(1) == 31);
        assert(spec_month_days(2) == 61);
        assert(spec_month_days(3) == 92);
        assert(spec_month_days(4) == 122);
        assert(spec_month_days(5) == 153);
        assert(spec_month_days(6) == 184);
        assert(spec_month_days(7) == 214);
        assert(spec_month_days(8) == 245);
        assert(spec_month_days(9) == 275);
        assert(spec_month_days(10) == 306);
        assert(spec_month_days(11) == 337);
    }
    let mut mp: u64 = 0;
    let mut mcand: u64 = 1;
    while mcand <= 11
        invariant
            mp < mcand <= 12,
            doy <= 365,
            spec_month_days(mp as int) <= doy as int,
            forall|c: int| mp < c < mcand ==> spec_month_days(c) > doy as int,
        decreases 12 - mcand,
    {
        if month_days(mcand) <= doy {
            mp = mcand;
        }
        mcand += 1;
    }
    let d: u64 = doy - month_days(mp) + 1;
    let m: u64 = if mp < 10 {
        mp + 3
    } else {
        mp - 9
    };
    let yp: u64 = era * 400 + yoe;
    let y: u64 = if m <= 2 {
        yp + 1
    } else {
        yp
    };

    proof {
        let zi = z as int;
        let erai = era as int;
        let yoei = yoe as int;
        let doei = doe as int;
        let doyi = doy as int;
        let mpi = mp as int;
        let di = d as int;
        let mi = m as int;
        let ypi = yp as int;
        let yi = y as int;

        // The day number decomposes exactly into era, year table and day.
        assert(zi == erai * 146097 + doei);
        vstd::arithmetic::div_mod::lemma_fundamental_div_mod_converse_div(ypi, 400, erai, yoei);
        assert(ypi / 400 == erai);

        // The year stays within the supported span.
        if yi <= 0 {
            assert(erai == 0 && yoei == 0 && mi >= 3);
            assert(spec_month_days(mpi) <= 275);
            assert(doyi <= 305);
            assert(zi <= 305);
            assert(false);
        }
        if yi >= 10000 {
            assert(erai == 24 && yoei == 399 && mi <= 2);
            assert(mpi >= 10);
            assert(doyi >= 306);
            assert(doei >= 145731 + 306);
            assert(zi >= 24 * 146097 + 146037);
            assert(false);
        }

        // The day fits its month.
        if mp < 11 {
            assert(spec_month_days(mpi + 1) > doyi);
            if mpi == 0 {
                assert(di <= 31 && mi == 3);
            } else if mpi == 1 {
                assert(di <= 30 && mi == 4);
            } else if mpi == 2 {
                assert(di <= 31 && mi == 5);
            } else if mpi == 3 {
                assert(di <= 30 && mi == 6);
            } else if mpi == 4 {
                assert(di <= 31 && mi == 7);
            } else if mpi == 5 {
                assert(di <= 31 && mi == 8);
            } else if mpi == 6 {
                assert(di <= 30 && mi == 9);
            } else if mpi == 7 {
                assert(di <= 31 && mi == 10);
            } else if mpi == 8 {
                assert(di <= 30 && mi == 11);
            } else if mpi == 9 {
                assert(di <= 31 && mi == 12);
            } else {
                assert(di <= 31 && mi == 1);
            }
            assert(1 <= di <= spec_days_in_month(yi, mi));
        } else {
            // February: a 29th day appears only before a leap year.
            assert(mi == 2 && di <= 29);
            if di == 29 {
                assert(doyi == 365);
                if yoe < 399 {
                    lemma_year_days_step(yoei + 1);
                    assert(spec_year_days(yoei + 1) > doei);
                    assert((yoei + 1) % 4 == 0 && (yoei + 1) % 100 != 0);
                    assert(yi == erai * 400 + yoei + 1);
                    vstd::arithmetic::div_mod::lemma_mod_multiples_vanish(
                        erai * 100,
                        yoei + 1,
                        4,
                    );
                    assert(yi % 4 == (yoei + 1) % 4);
                    vstd::arithmetic::div_mod::lemma_mod_multiples_vanish(
                        erai * 4,
                        yoei + 1,
                        100,
                    );
                    assert(yi % 100 == (yoei + 1) % 100);
                    assert(spec_is_leap(yi));
                } else {
                    assert(yi == erai * 400 + 400);
                    vstd::arithmetic::div_mod::lemma_mod_multiples_vanish(erai + 1, 0, 400);
                    assert(yi % 400 == 0);
                    vstd::arithmetic::div_mod::lemma_mod_multiples_vanish(
                        (erai + 1) * 100,
                        0,
                        4,
                    );
                    assert(yi % 4 == 0);
                    assert(spec_is_leap(yi));
                }
            }
            assert(1 <= di <= spec_days_in_month(yi, mi));
        }

        // Reading the constructed date back gives the day number.
        assert(spec_days_from_civil(yi, mi, di) == days as int);
    }
    ((y as i32), (m as u8), (d as u8))
}

/// The Monday of a valid ISO week carries the Monday residue.
pub(crate) proof fn lemma_week_monday_residue(w: IsoWeek)
    requires
        w.spec_valid(),
    ensures
        (w.spec_monday() + 719468) % 7 == 5,
{
    let yi = w.year as int;
    let jan4 = spec_days_from_civil(yi, 1, 4);
    lemma_r_shift(jan4, -(spec_weekday(jan4) - 1));
    let w1 = spec_iso_week1_monday(yi);
    assert((w1 + 719468) % 7 == 5);
    lemma_r_shift(w1, 7 * (w.week - 1));
    vstd::arithmetic::div_mod::lemma_mod_multiples_vanish(w.week - 1, 5, 7);
    assert((w.spec_monday() + 719468) % 7 == 5);
}

/// The ISO week a day number falls in: total over its range, with the
/// week proved valid and proved to cover the day.
#[verifier::rlimit(60)]
pub fn iso_week_of_day(days: i64) -> (r: IsoWeek)
    requires
        MIN_DAY + 7 <= days <= MAX_DAY - 7,
    ensures
        r.spec_valid(),
        r.spec_monday() <= days < r.spec_monday() + 7,
{
    let wd = weekday_from_days(days);
    let thursday = days + (4 - wd as i64);
    let civil = civil_from_days(thursday);
    let y = civil.0;
    let week1 = iso_week1_monday(y);
    proof {
        let di = days as int;
        let th = thursday as int;
        let yi = y as int;
        let jan1 = spec_days_from_civil(yi, 1, 1);
        let jan4 = spec_days_from_civil(yi, 1, 4);
        let dec31 = spec_days_from_civil(yi, 12, 31);
        let w1 = week1 as int;

        // The Thursday of the day's week carries residue 1.
        lemma_r_shift(di, 4 - spec_weekday(di));
        assert((th + 719468) % 7 == 1);

        // It lies within its civil year, whose week-1 Monday it follows.
        lemma_civil_year_bounds(yi, civil.1 as int, civil.2 as int);
        assert(jan1 <= th <= dec31);
        assert(jan4 == jan1 + 3);
        let rj = (jan1 + 719468) % 7;
        lemma_r_shift(jan1, 3);
        assert((jan4 + 719468) % 7 == (rj + 3) % 7);
        lemma_r_shift(jan4, -(spec_weekday(jan4) - 1));
        assert((w1 + 719468) % 7 == 5);
        lemma_r_shift(th, -3);
        assert((th - 3 + 719468) % 7 == 5);
        lemma_same_r_aligned(th - 3, w1);
        let dd = th - 3 - w1;
        assert(dd % 7 == 0);
        vstd::arithmetic::div_mod::lemma_fundamental_div_mod(dd, 7);
        assert(dd == 7 * (dd / 7));
        assert(w1 >= jan4 - 6);
        assert(dd >= -6);
        assert(dd >= 0);

        // The week number stays within the year's weeks.
        lemma_year_length(yi);
        let leap: int = if spec_is_leap(yi) {
            1
        } else {
            0
        };
        assert(dec31 == jan1 + 364 + leap);
        lemma_r_shift(jan1, 364 + leap);
        vstd::arithmetic::div_mod::lemma_fundamental_div_mod(rj + 364 + leap, 7);
        vstd::arithmetic::div_mod::lemma_mod_multiples_vanish(52, rj + leap, 7);
        assert((dec31 + 719468) % 7 == (rj + leap) % 7);
        let wk = spec_iso_weeks_in_year(yi);
        assert(spec_weekday(jan1) == (rj + 2) % 7 + 1);
        if wk == 52 {
            assert(spec_weekday(jan1) != 4 && spec_weekday(dec31) != 4);
            assert(rj != 1);
            assert((rj + leap) % 7 != 1);
            // the latest allowed Thursday keeps the gap under 52 weeks
            vstd::arithmetic::div_mod::lemma_fundamental_div_mod(
                (jan4 + 719468) % 7 + 2,
                7,
            );
            assert(dd <= dec31 - 3 - w1);
            assert(dd <= 363);
            assert(dd / 7 <= 51);
        } else {
            assert(wk == 53);
            assert(dd <= dec31 - 3 - w1);
            assert(dd <= 368);
            assert(dd / 7 <= 52);
        }
        assert(1 <= dd / 7 + 1 <= wk);
    }
    let week_index = (thursday - 3 - week1) / 7;
    let week = (week_index + 1) as u8;
    let candidate = IsoWeek { year: y, week };
    proof {
        assert(candidate.spec_valid());
        assert(candidate.spec_monday() == thursday - 3);
        assert(days - (thursday - 3) == spec_weekday(days as int) - 1);
    }
    candidate
}

} // verus!
