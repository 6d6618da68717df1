//! The chart-range resolver: mapping a named preset to a concrete start
//! date relative to an end date, the fetch day-count derived from it,
//! and the date validations of chart mode.
//!
//! A month-based preset subtracts calendar months (day clamped to the
//! target month), falling back to a fixed day count only when the
//! calendar subtraction leaves the supported date range. "Year to date"
//! is January 1st of the end date's year; "all" has no lower bound.

use vstd::prelude::*;
use vstd::pervasive::unreached;

use crate::dates::{
    Date, MIN_DATE_YEAR, date_ok, days_in_month, min_day_number, sub_months_year,
    sub_months_month, sub_months_day, chrono_sub_months, chrono_sub_days,
    chrono_date_diff_days,
};
use crate::errors::{Error, ErrorV};
use crate::strutil::push_char;

verus! {

/// Upper bound on the day count requested from a provider (about one
/// hundred years), bounding request size.
pub const MAX_CHART_FETCH_DAYS: u32 = 36_500;

/// A named chart range preset.
#[derive(Debug, Clone, Copy, PartialEq, Eq, Structural)]
pub enum ChartRange {
    OneDay,
    FiveDays,
    OneMonth,
    SixMonths,
    Ytd,
    OneYear,
    FiveYears,
    All,
}

impl ChartRange {
    /// The CLI-facing label of the preset.
    pub open spec fn label_spec(self) -> Seq<char> {
        match self {
            ChartRange::OneDay => "1D"@,
            ChartRange::FiveDays => "5D"@,
            ChartRange::OneMonth => "1M"@,
            ChartRange::SixMonths => "6M"@,
            ChartRange::Ytd => "YTD"@,
            ChartRange::OneYear => "1Y"@,
            ChartRange::FiveYears => "5Y"@,
            ChartRange::All => "ALL"@,
        }
    }

    /// Render the preset as its CLI-facing label.
    pub fn label(self) -> (r: &'static str)
        ensures
            r@ == self.label_spec(),
    {
        match self {
            ChartRange::OneDay => "1D",
            ChartRange::FiveDays => "5D",
            ChartRange::OneMonth => "1M",
            ChartRange::SixMonths => "6M",
            ChartRange::Ytd => "YTD",
            ChartRange::OneYear => "1Y",
            ChartRange::FiveYears => "5Y",
            ChartRange::All => "ALL",
        }
    }

    /// Calendar months subtracted by the preset, when it is
    /// month-based.
    pub open spec fn months_back(self) -> int {
        match self {
            ChartRange::OneMonth => 1,
            ChartRange::SixMonths => 6,
            ChartRange::OneYear => 12,
            ChartRange::FiveYears => 60,
            _ => 0,
        }
    }

    /// Fixed day count the preset subtracts, directly (day-based
    /// presets) or as the fallback (month-based presets).
    pub open spec fn fallback_days(self) -> int {
        match self {
            ChartRange::OneDay => 1,
            ChartRange::FiveDays => 5,
            ChartRange::OneMonth => 30,
            ChartRange::SixMonths => 182,
            ChartRange::OneYear => 365,
            ChartRange::FiveYears => 1825,
            _ => 0,
        }
    }

    /// The preset's day subtraction stays inside the supported date
    /// range (the inputs on which the resolver is defined).
    pub open spec fn start_defined(self, end: Date) -> bool {
        end.day_number() - self.fallback_days() >= min_day_number()
    }

    /// What the resolver returns for this preset and end date.
    pub open spec fn start_date_spec(self, end: Date, r: Option<Date>) -> bool {
        match self {
            ChartRange::All => r is None,
            ChartRange::Ytd => r == Some(Date { year: end.year, month: 1u8, day: 1u8 }),
            ChartRange::OneDay | ChartRange::FiveDays => r matches Some(d) && d.wf()
                && d.day_number() == end.day_number() - self.fallback_days(),
            _ => {
                let n = self.months_back();
                if sub_months_year(end.year as int, end.month as int, n) >= MIN_DATE_YEAR {
                    r matches Some(d) && d.wf() && d.year == sub_months_year(
                        end.year as int,
                        end.month as int,
                        n,
                    ) && d.month == sub_months_month(end.year as int, end.month as int, n)
                        && d.day == sub_months_day(
                        end.year as int,
                        end.month as int,
                        end.day as int,
                        n,
                    )
                } else {
                    r matches Some(d) && d.wf() && d.day_number() == end.day_number()
                        - self.fallback_days()
                }
            },
        }
    }

    /// Resolve the preset to a concrete start date relative to `end`;
    /// `None` means "no lower bound -- fetch everything available".
    pub fn start_date(self, end: Date) -> (r: Option<Date>)
        requires
            end.wf(),
            self.start_defined(end),
        ensures
            self.start_date_spec(end, r),
    {
        match self {
            ChartRange::All => None,
            ChartRange::Ytd => {
                proof {
                    assert(days_in_month(end.year as int, 1) == 31);
                }
                Some(Date { year: end.year, month: 1, day: 1 })
            },
            ChartRange::OneDay => Some(sub_days_in_range(end, 1)),
            ChartRange::FiveDays => Some(sub_days_in_range(end, 5)),
            ChartRange::OneMonth => Some(sub_months_or_days(end, 1, 30)),
            ChartRange::SixMonths => Some(sub_months_or_days(end, 6, 182)),
            ChartRange::OneYear => Some(sub_months_or_days(end, 12, 365)),
            ChartRange::FiveYears => Some(sub_months_or_days(end, 60, 1825)),
        }
    }
}

/// Subtract `n` days from a date known to stay in range.
fn sub_days_in_range(end: Date, n: u32) -> (r: Date)
    requires
        end.wf(),
        end.day_number() - n >= min_day_number(),
    ensures
        r.wf(),
        r.day_number() == end.day_number() - n,
{
    match chrono_sub_days(end.year, end.month, end.day, n) {
        Some(t) => Date { year: t.0, month: t.1, day: t.2 },
        None => unreached(),
    }
}

/// Calendar month subtraction with day-count fallback: the month-based
/// preset's computation.
fn sub_months_or_days(end: Date, months: u32, days: u32) -> (r: Date)
    requires
        end.wf(),
        months <= 1200,
        end.day_number() - days >= min_day_number(),
    ensures
        r.wf(),
        if sub_months_year(end.year as int, end.month as int, months as int) >= MIN_DATE_YEAR {
            &&& r.year == sub_months_year(end.year as int, end.month as int, months as int)
            &&& r.month == sub_months_month(end.year as int, end.month as int, months as int)
            &&& r.day == sub_months_day(
                end.year as int,
                end.month as int,
                end.day as int,
                months as int,
            )
        } else {
            r.day_number() == end.day_number() - days
        },
{
    match chrono_sub_months(end.year, end.month, end.day, months) {
        Some(t) => Date { year: t.0, month: t.1, day: t.2 },
        None => sub_days_in_range(end, days),
    }
}

/// What the fetch day-count is: `max(1, today - start)`, capped at
/// [`MAX_CHART_FETCH_DAYS`]; the cap itself when no start bound exists.
pub open spec fn fetch_days_spec(start_date: Option<Date>, today: Date) -> int {
    match start_date {
        None => MAX_CHART_FETCH_DAYS as int,
        Some(s) => {
            let d = today.day_number() - s.day_number();
            let dd = if d < 1 {
                1
            } else {
                d
            };
            if dd > MAX_CHART_FETCH_DAYS {
                MAX_CHART_FETCH_DAYS as int
            } else {
                dd
            }
        },
    }
}

/// Day count to request from a provider for the chart window ending
/// today.
pub fn compute_chart_fetch_days(start_date: Option<Date>, today: Date) -> (r: u32)
    requires
        today.wf(),
        start_date matches Some(s) ==> s.wf(),
    ensures
        r == fetch_days_spec(start_date, today),
{
    match start_date {
        None => MAX_CHART_FETCH_DAYS,
        Some(s) => {
            let d = chrono_date_diff_days(&today, &s);
            if d < 1 {
                1
            } else if d > MAX_CHART_FETCH_DAYS as i64 {
                MAX_CHART_FETCH_DAYS
            } else {
                d as u32
            }
        },
    }
}

/// Validate the chart window: the end date may not lie in the future,
/// and the start date may not lie after the end date.
pub fn validate_chart_dates(start: Option<Date>, end: Date, today: Date) -> (r: Result<
    (),
    Error,
>)
    requires
        end.wf(),
        today.wf(),
        start matches Some(s) ==> s.wf(),
    ensures
        r is Ok <==> (end.le_spec(today) && (start matches Some(s) ==> s.le_spec(end))),
        r matches Err(e) ==> if !end.le_spec(today) {
            e@ == ErrorV::Config("chart end date cannot be in the future"@)
        } else {
            e@ == ErrorV::Config("chart start date cannot be after chart end date"@)
        },
{
    if !end.le(today) {
        return Err(Error::Config("chart end date cannot be in the future".to_owned()));
    }
    if let Some(s) = start {
        if !s.le(end) {
            return Err(Error::Config("chart start date cannot be after chart end date".to_owned()));
        }
    }
    Ok(())
}


/// The character of a decimal digit.
pub open spec fn digit_char(d: nat) -> char {
    ((48 + d) as u8) as char
}

/// Decimal digits of `n`, most significant first.
pub open spec fn dec_digits(n: nat) -> Seq<char>
    decreases n,
{
    if n < 10 {
        seq![digit_char(n)]
    } else {
        dec_digits(n / 10).push(digit_char(n % 10))
    }
}

/// `n` zero-padded to two digits (for months and days).
pub open spec fn two_digits(n: nat) -> Seq<char> {
    if n < 10 {
        seq!['0'] + dec_digits(n)
    } else {
        dec_digits(n)
    }
}

/// `n` zero-padded to four digits (for years up to 9999).
pub open spec fn four_digits(n: nat) -> Seq<char> {
    if n < 10 {
        seq!['0', '0', '0'] + dec_digits(n)
    } else if n < 100 {
        seq!['0', '0'] + dec_digits(n)
    } else if n < 1000 {
        seq!['0'] + dec_digits(n)
    } else {
        dec_digits(n)
    }
}

/// A year as the `%Y` format renders it: zero-padded to four digits,
/// with a sign for years outside `0..=9999`.
pub open spec fn year_str(y: int) -> Seq<char> {
    if y > 9999 {
        seq!['+'] + dec_digits(y as nat)
    } else if y >= 0 {
        four_digits(y as nat)
    } else if y < -9999 {
        seq!['-'] + dec_digits((-y) as nat)
    } else {
        seq!['-'] + four_digits((-y) as nat)
    }
}

/// A date as `%Y-%m-%d` renders it.
pub open spec fn date_str(d: Date) -> Seq<char> {
    year_str(d.year as int) + seq!['-'] + two_digits(d.month as nat) + seq!['-'] + two_digits(
        d.day as nat,
    )
}

/// Append the decimal digits of `n`.
fn push_dec(out: &mut String, n: u32)
    ensures
        final(out)@ == old(out)@ + dec_digits(n as nat),
    decreases n,
{
    if n < 10 {
        push_char(out, ((48 + n) as u8) as char);
        proof {
            assert(old(out)@.push(digit_char(n as nat)) =~= old(out)@ + dec_digits(n as nat));
        }
    } else {
        push_dec(out, n / 10);
        push_char(out, ((48 + (n % 10)) as u8) as char);
        proof {
            assert((old(out)@ + dec_digits((n / 10) as nat)).push(digit_char((n % 10) as nat))
                =~= old(out)@ + dec_digits(n as nat));
        }
    }
}

/// Append `n` zero-padded to two digits.
fn push_two_digits(out: &mut String, n: u32)
    ensures
        final(out)@ == old(out)@ + two_digits(n as nat),
{
    if n < 10 {
        push_char(out, '0');
        push_dec(out, n);
        proof {
            assert(old(out)@.push('0') + dec_digits(n as nat) =~= old(out)@ + two_digits(
                n as nat,
            ));
        }
    } else {
        push_dec(out, n);
    }
}

/// Append `n` zero-padded to four digits.
fn push_four_digits(out: &mut String, n: u32)
    requires
        n <= 9999,
    ensures
        final(out)@ == old(out)@ + four_digits(n as nat),
{
    let ghost base = out@;
    if n < 10 {
        push_char(out, '0');
        push_char(out, '0');
        push_char(out, '0');
    } else if n < 100 {
        push_char(out, '0');
        push_char(out, '0');
    } else if n < 1000 {
        push_char(out, '0');
    }
    push_dec(out, n);
    proof {
        assert(out@ =~= base + four_digits(n as nat));
    }
}

/// Append a date in `%Y-%m-%d` form.
fn push_date(out: &mut String, d: &Date)
    requires
        d.wf(),
    ensures
        final(out)@ == old(out)@ + date_str(*d),
{
    let ghost base = out@;
    if d.year > 9999 {
        push_char(out, '+');
        push_dec(out, d.year as u32);
    } else if d.year >= 0 {
        push_four_digits(out, d.year as u32);
    } else if d.year < -9999 {
        push_char(out, '-');
        push_dec(out, (-(d.year as i64)) as u32);
    } else {
        push_char(out, '-');
        push_four_digits(out, (-(d.year as i64)) as u32);
    }
    push_char(out, '-');
    push_two_digits(out, d.month as u32);
    push_char(out, '-');
    push_two_digits(out, d.day as u32);
    proof {
        assert(out@ =~= base + date_str(*d));
    }
}

/// The label shown above a chart: the explicit `start..end` window when
/// a start date exists, the preset's own label otherwise.
pub fn format_chart_range_label(start_date: Option<Date>, end_date: Date, fallback: ChartRange)
    -> (r: String)
    requires
        end_date.wf(),
        start_date matches Some(s) ==> s.wf(),
    ensures
        match start_date {
            Some(s) => r@ == date_str(s) + ".."@ + date_str(end_date),
            None => r@ == fallback.label_spec(),
        },
{
    match start_date {
        Some(s) => {
            let mut out = String::new();
            proof {
                assert(out@ =~= Seq::<char>::empty());
            }
            push_date(&mut out, &s);
            out.append("..");
            push_date(&mut out, &end_date);
            proof {
                assert(out@ =~= date_str(s) + ".."@ + date_str(end_date));
            }
            out
        },
        None => fallback.label().to_owned(),
    }
}

} // verus!
