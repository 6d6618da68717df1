//! Calendar dates and the arithmetic the chart-range resolver needs.
//!
//! A [`Date`] is a proleptic Gregorian calendar date. Day-level
//! arithmetic is specified through [`days_from_civil`], the count of
//! days since 1970-01-01; month-level subtraction clamps the day to the
//! target month's length. The executable arithmetic is done by chrono
//! behind the trusted wrappers at the end of this module.

use vstd::prelude::*;

verus! {

/// Smallest year a date may carry (chrono `NaiveDate`'s range).
pub const MIN_DATE_YEAR: i32 = -262143;

/// Largest year a date may carry (chrono `NaiveDate`'s range).
pub const MAX_DATE_YEAR: i32 = 262142;

/// Gregorian leap-year rule.
pub open spec fn is_leap_year(y: int) -> bool {
    (y % 4 == 0 && y % 100 != 0) || y % 400 == 0
}

/// Number of days of month `m` in year `y`.
pub open spec fn days_in_month(y: int, m: int) -> int {
    if m == 2 {
        if is_leap_year(y) {
            29
        } else {
            28
        }
    } else if m == 4 || m == 6 || m == 9 || m == 11 {
        30
    } else {
        31
    }
}

/// The triple is a real calendar date within the supported year range.
pub open spec fn date_ok(y: int, m: int, d: int) -> bool {
    &&& MIN_DATE_YEAR <= y <= MAX_DATE_YEAR
    &&& 1 <= m <= 12
    &&& 1 <= d <= days_in_month(y, m)
}

/// Days since 1970-01-01 of the proleptic Gregorian date `(y, m, d)`.
/// (The era-based form of the civil-from-date calculation; negative
/// before the epoch.)
pub open spec fn days_from_civil(y: int, m: int, d: int) -> int {
    let yy = if m <= 2 {
        y - 1
    } else {
        y
    };
    let era = yy / 400;
    let yoe = yy - era * 400;
    let mp = if m > 2 {
        m - 3
    } else {
        m + 9
    };
    let doy = (153 * mp + 2) / 5 + d - 1;
    let doe = yoe * 365 + yoe / 4 - yoe / 100 + doy;
    era * 146097 + doe - 719468
}

/// Day number of the smallest supported date.
pub open spec fn min_day_number() -> int {
    days_from_civil(MIN_DATE_YEAR as int, 1, 1)
}

/// Day number of the largest supported date.
pub open spec fn max_day_number() -> int {
    days_from_civil(MAX_DATE_YEAR as int, 12, 31)
}

/// A proleptic Gregorian calendar date.
#[derive(Debug, Clone, Copy, PartialEq, Eq, Structural)]
pub struct Date {
    pub year: i32,
    pub month: u8,
    pub day: u8,
}

impl Date {
    /// The date is a real calendar date in the supported range.
    pub open spec fn wf(self) -> bool {
        date_ok(self.year as int, self.month as int, self.day as int)
    }

    /// Days since 1970-01-01.
    pub open spec fn day_number(self) -> int {
        days_from_civil(self.year as int, self.month as int, self.day as int)
    }

    /// Build a date, validating it; `None` exactly on invalid triples.
    pub fn new(year: i32, month: u8, day: u8) -> (r: Option<Date>)
        ensures
            match r {
                Some(d) => date_ok(year as int, month as int, day as int) && d == (Date {
                    year,
                    month,
                    day,
                }),
                None => !date_ok(year as int, month as int, day as int),
            },
    {
        if year < MIN_DATE_YEAR || year > MAX_DATE_YEAR || month < 1 || month > 12 || day < 1 {
            return None;
        }
        let leap = (year % 4 == 0 && year % 100 != 0) || year % 400 == 0;
        let dim: u8 = if month == 2 {
            if leap {
                29
            } else {
                28
            }
        } else if month == 4 || month == 6 || month == 9 || month == 11 {
            30
        } else {
            31
        };
        proof {
            assert(is_leap_year(year as int) == leap);
        }
        if day > dim {
            return None;
        }
        Some(Date { year, month, day })
    }

    /// Chronological order: `self` is on or before `other`.
    pub open spec fn le_spec(self, other: Date) -> bool {
        self.day_number() <= other.day_number()
    }

    /// `self` is on or before `other`.
    pub fn le(self, other: Date) -> (r: bool)
        requires
            self.wf(),
            other.wf(),
        ensures
            r == self.le_spec(other),
    {
        chrono_date_diff_days(&other, &self) >= 0
    }
}

/// Total month count of a (year, month) pair, for month arithmetic.
pub open spec fn months_total(y: int, m: int) -> int {
    y * 12 + m - 1
}

/// Year after subtracting `n` months from `(y, m)`.
pub open spec fn sub_months_year(y: int, m: int, n: int) -> int {
    (months_total(y, m) - n) / 12
}

/// Month after subtracting `n` months from `(y, m)`.
pub open spec fn sub_months_month(y: int, m: int, n: int) -> int {
    (months_total(y, m) - n) % 12 + 1
}

/// Day after subtracting `n` months from `(y, m, d)`: the original day,
/// clamped to the target month's length.
pub open spec fn sub_months_day(y: int, m: int, d: int, n: int) -> int {
    let dm = days_in_month(sub_months_year(y, m, n), sub_months_month(y, m, n));
    if d > dm {
        dm
    } else {
        d
    }
}

/// Relies on chrono's `NaiveDate::from_ymd_opt` and
/// `NaiveDate::checked_sub_months`: calendar month subtraction that
/// clamps the day to the target month's length, returning `None`
/// exactly when the resulting year falls below `NaiveDate`'s range
/// (subtracting months can only move the year down).
#[verifier::external_body]
pub(crate) fn chrono_sub_months(y: i32, m: u8, d: u8, n: u32) -> (r: Option<(i32, u8, u8)>)
    requires
        date_ok(y as int, m as int, d as int),
        n <= 1200,
    ensures
        match r {
            Some(t) => {
                &&& t.0 == sub_months_year(y as int, m as int, n as int)
                &&& t.1 == sub_months_month(y as int, m as int, n as int)
                &&& t.2 == sub_months_day(y as int, m as int, d as int, n as int)
                &&& date_ok(t.0 as int, t.1 as int, t.2 as int)
            },
            None => sub_months_year(y as int, m as int, n as int) < MIN_DATE_YEAR,
        },
{
    let date = chrono::NaiveDate::from_ymd_opt(y, m as u32, d as u32)?;
    let out = date.checked_sub_months(chrono::Months::new(n))?;
    Some((chrono::Datelike::year(&out), chrono::Datelike::month(&out) as u8, chrono::Datelike::day(&out) as u8))
}

/// Relies on chrono's `NaiveDate::checked_sub_days`: moves a date back
/// `n` whole days, returning `None` exactly when the result would fall
/// outside `NaiveDate`'s range.
#[verifier::external_body]
pub(crate) fn chrono_sub_days(y: i32, m: u8, d: u8, n: u32) -> (r: Option<(i32, u8, u8)>)
    requires
        date_ok(y as int, m as int, d as int),
    ensures
        match r {
            Some(t) => {
                &&& date_ok(t.0 as int, t.1 as int, t.2 as int)
                &&& days_from_civil(t.0 as int, t.1 as int, t.2 as int) == days_from_civil(
                    y as int,
                    m as int,
                    d as int,
                ) - n
            },
            None => days_from_civil(y as int, m as int, d as int) - n < min_day_number(),
        },
{
    let date = chrono::NaiveDate::from_ymd_opt(y, m as u32, d as u32)?;
    let out = date.checked_sub_days(chrono::Days::new(n as u64))?;
    Some((chrono::Datelike::year(&out), chrono::Datelike::month(&out) as u8, chrono::Datelike::day(&out) as u8))
}

/// Relies on chrono's `NaiveDate::signed_duration_since` and
/// `TimeDelta::num_days`: the exact difference between two dates in
/// whole days.
#[verifier::external_body]
pub(crate) fn chrono_date_diff_days(a: &Date, b: &Date) -> (r: i64)
    requires
        a.wf(),
        b.wf(),
    ensures
        r == a.day_number() - b.day_number(),
{
    let da = chrono::NaiveDate::from_ymd_opt(a.year, a.month as u32, a.day as u32).unwrap();
    let db = chrono::NaiveDate::from_ymd_opt(b.year, b.month as u32, b.day as u32).unwrap();
    da.signed_duration_since(db).num_days()
}

/// Relies on chrono's `NaiveDate::and_hms_opt`, `NaiveDateTime::and_utc`
/// and `DateTime::timestamp`: the Unix seconds of the given UTC date
/// and time of day (86,400 seconds per day, leap seconds ignored).
#[verifier::external_body]
pub(crate) fn chrono_unix_seconds(date: &Date, h: u8, mi: u8, s: u8) -> (r: i64)
    requires
        date.wf(),
        h < 24,
        mi < 60,
        s < 60,
    ensures
        r == date.day_number() * 86400 + h * 3600 + mi * 60 + s,
{
    let d = chrono::NaiveDate::from_ymd_opt(date.year, date.month as u32, date.day as u32)
        .unwrap();
    let dt = d.and_hms_opt(h as u32, mi as u32, s as u32).unwrap();
    dt.and_utc().timestamp()
}

/// Unix seconds of the first instant of the day (00:00:00 UTC).
pub fn day_start_timestamp(date: &Date) -> (r: i64)
    requires
        date.wf(),
    ensures
        r == date.day_number() * 86400,
{
    chrono_unix_seconds(date, 0, 0, 0)
}

/// Unix seconds of the last second of the day (23:59:59 UTC).
pub fn day_end_timestamp(date: &Date) -> (r: i64)
    requires
        date.wf(),
    ensures
        r == date.day_number() * 86400 + 86399,
{
    chrono_unix_seconds(date, 23, 59, 59)
}

} // verus!
