use vstd::prelude::*;

use crate::error::DateTimeError;

verus! {

/// True for Gregorian leap years.
pub open spec fn spec_is_leap_year(y: int) -> bool {
    (y % 4 == 0 && y % 100 != 0) || y % 400 == 0
}

/// Number of days in the given month of the given year (month in 1..=12).
pub open spec fn spec_days_in_month(y: int, m: int) -> int {
    if m == 2 {
        if spec_is_leap_year(y) {
            29
        } else {
            28
        }
    } else if m == 4 || m == 6 || m == 9 || m == 11 {
        30
    } else {
        31
    }
}

/// A (year, month, day) triple is a valid Gregorian calendar date.
pub open spec fn spec_valid_date(y: int, m: int, d: int) -> bool {
    1 <= m <= 12 && 1 <= d <= spec_days_in_month(y, m)
}

/// A year/month/day triple with no associated time-of-day or timezone.
/// Values produced by this library always satisfy `valid()`.
#[derive(Clone, Copy, Debug, PartialEq, Eq, Structural)]
pub struct CalendarDate {
    pub year: i32,
    pub month: u32,
    pub day: u32,
}

impl CalendarDate {
    /// The invariant: a valid Gregorian calendar date.
    pub open spec fn valid(self) -> bool {
        spec_valid_date(self.year as int, self.month as int, self.day as int)
    }

    /// Builds a date from its fields, rejecting anything that is not a
    /// valid Gregorian calendar date (month 13, Feb 30, ...).
    pub fn from_ymd(year: i32, month: u32, day: u32) -> (r: Option<CalendarDate>)
        ensures
            r is Some <==> spec_valid_date(year as int, month as int, day as int),
            r is Some ==> r->0 == (CalendarDate { year, month, day }),
            r is Some ==> r->0.valid(),
    {
        if 1 <= month && month <= 12 && 1 <= day && day <= days_in_month(year, month) {
            Some(CalendarDate { year, month, day })
        } else {
            None
        }
    }
}

/// Executable leap-year test.
#[verifier::rlimit(30)]
pub fn is_leap_year(y: i32) -> (r: bool)
    ensures
        r == spec_is_leap_year(y as int),
{
    let by4: bool = y % 4 == 0;
    let by100: bool = y % 100 == 0;
    let by400: bool = y % 400 == 0;
    proof {
        assert(by4 == ((y as int) % 4 == 0)) by (nonlinear_arith)
            requires
                by4 == ((y as i32) % (4 as i32) == 0),
        ;
        assert(by100 == ((y as int) % 100 == 0)) by (nonlinear_arith)
            requires
                by100 == ((y as i32) % (100 as i32) == 0),
        ;
        assert(by400 == ((y as int) % 400 == 0)) by (nonlinear_arith)
            requires
                by400 == ((y as i32) % (400 as i32) == 0),
        ;
    }
    (by4 && !by100) || by400
}

/// Executable month length (month in 1..=12).
pub fn days_in_month(y: i32, m: u32) -> (r: u32)
    requires
        1 <= m <= 12,
    ensures
        r == spec_days_in_month(y as int, m as int),
{
    if m == 2 {
        if is_leap_year(y) {
            29
        } else {
            28
        }
    } else if m == 4 || m == 6 || m == 9 || m == 11 {
        30
    } else {
        31
    }
}

/// Number of days in the given year.
pub open spec fn spec_days_in_year(y: int) -> int {
    if spec_is_leap_year(y) {
        366
    } else {
        365
    }
}

/// Days from 1970-01-01 to the first day of year `y` (negative before 1970).
pub open spec fn spec_days_before_year(y: int) -> int
    decreases (if y >= 1970 { y - 1970 } else { 1970 - y }),
{
    if y > 1970 {
        spec_days_before_year(y - 1) + spec_days_in_year(y - 1)
    } else if y < 1970 {
        spec_days_before_year(y + 1) - spec_days_in_year(y)
    } else {
        0
    }
}

/// Days from the first day of year `y` to the first day of its month `m`.
pub open spec fn spec_days_before_month(y: int, m: int) -> int
    decreases m,
{
    if m <= 1 {
        0
    } else {
        spec_days_before_month(y, m - 1) + spec_days_in_month(y, m - 1)
    }
}

/// Days from 1970-01-01 to the given calendar date (negative before 1970).
pub open spec fn spec_epoch_days(y: int, m: int, d: int) -> int {
    spec_days_before_year(y) + spec_days_before_month(y, m) + (d - 1)
}

/// Each year contributes between 365 and 366 days, so the day count from
/// 1970 grows linearly with the year.
pub proof fn lemma_days_before_year_bounds(y: int)
    ensures
        y >= 1970 ==> 365 * (y - 1970) <= spec_days_before_year(y) <= 366 * (y - 1970),
        y < 1970 ==> 366 * (y - 1970) <= spec_days_before_year(y) <= 365 * (y - 1970),
    decreases (if y >= 1970 { y - 1970 } else { 1970 - y }),
{
    if y > 1970 {
        lemma_days_before_year_bounds(y - 1);
    } else if y < 1970 {
        lemma_days_before_year_bounds(y + 1);
    }
}

/// Months contribute between 28 and 31 days each.
pub proof fn lemma_days_before_month_bounds(y: int, m: int)
    requires
        1 <= m <= 13,
    ensures
        28 * (m - 1) <= spec_days_before_month(y, m) <= 31 * (m - 1),
    decreases m,
{
    if m > 1 {
        lemma_days_before_month_bounds(y, m - 1);
    }
}

/// Executable day count from 1970-01-01 to the first day of year `y`.
pub fn days_before_year(y: i32) -> (r: i64)
    requires
        -9999 <= y <= 9999,
    ensures
        r == spec_days_before_year(y as int),
{
    proof {
        lemma_days_before_year_bounds(y as int);
    }
    let mut acc: i64 = 0;
    if y >= 1970 {
        let mut i: i32 = 1970;
        while i < y
            invariant
                1970 <= i <= y <= 9999,
                acc == spec_days_before_year(i as int),
                spec_days_before_year(i as int) <= 366 * (i - 1970),
            decreases y - i,
        {
            proof {
                lemma_days_before_year_bounds(i as int);
                lemma_days_before_year_bounds(i + 1 as int);
            }
            acc = acc + if is_leap_year(i) {
                366
            } else {
                365
            };
            i = i + 1;
        }
    } else {
        let mut i: i32 = 1970;
        while i > y
            invariant
                -9999 <= y <= i <= 1970,
                acc == spec_days_before_year(i as int),
                366 * (i - 1970) <= spec_days_before_year(i as int),
            decreases i - y,
        {
            proof {
                lemma_days_before_year_bounds(i as int);
                lemma_days_before_year_bounds(i - 1 as int);
            }
            acc = acc - if is_leap_year(i - 1) {
                366
            } else {
                365
            };
            i = i - 1;
        }
    }
    acc
}

/// Executable day count from the first day of year `y` to month `m`.
pub fn days_before_month(y: i32, m: u32) -> (r: u32)
    requires
        1 <= m <= 12,
    ensures
        r == spec_days_before_month(y as int, m as int),
{
    proof {
        lemma_days_before_month_bounds(y as int, m as int);
    }
    let mut acc: u32 = 0;
    let mut i: u32 = 1;
    while i < m
        invariant
            1 <= i <= m <= 12,
            acc == spec_days_before_month(y as int, i as int),
            spec_days_before_month(y as int, i as int) <= 31 * (i - 1),
        decreases m - i,
    {
        proof {
            lemma_days_before_month_bounds(y as int, i as int);
            lemma_days_before_month_bounds(y as int, i + 1 as int);
        }
        acc = acc + days_in_month(y, i);
        i = i + 1;
    }
    acc
}

/// Executable day count from 1970-01-01 to the given date.
pub fn epoch_days(date: &CalendarDate) -> (r: i64)
    requires
        date.valid(),
        -9999 <= date.year <= 9999,
    ensures
        r == spec_epoch_days(date.year as int, date.month as int, date.day as int),
        -4_380_700 <= r <= 2_939_000,
{
    proof {
        lemma_days_before_year_bounds(date.year as int);
        lemma_days_before_month_bounds(date.year as int, date.month as int);
    }
    let years: i64 = days_before_year(date.year);
    let months: u32 = days_before_month(date.year, date.month);
    years + months as i64 + (date.day as i64 - 1)
}

/// A calendar date as held by the secondary date library that this module
/// bridges to. That representation restricts years to -9999..=9999 and
/// stores month and day in a byte each; values of this type always satisfy
/// `valid()`. Adapter code converts between this type and the foreign one
/// field by field.
#[derive(Clone, Copy, Debug, PartialEq, Eq, Structural)]
pub struct BridgedDate {
    pub year: i32,
    pub month: u8,
    pub day: u8,
}

impl BridgedDate {
    /// The invariant: a valid Gregorian date within the bridged library's
    /// supported year range.
    pub open spec fn valid(self) -> bool {
        &&& spec_valid_date(self.year as int, self.month as int, self.day as int)
        &&& -9999 <= self.year <= 9999
    }
}

/// What `to_date` returns: the same triple when the year fits the bridged
/// representation, and nothing otherwise.
pub open spec fn spec_to_date(y: int, m: int, d: int) -> Option<(int, int, int)> {
    if -9999 <= y <= 9999 {
        Some((y, m, d))
    } else {
        None
    }
}

/// What `from_date` returns: always the same triple, since every date the
/// bridged representation admits is also a valid date here.
pub open spec fn spec_from_date(y: int, m: int, d: int) -> Option<(int, int, int)> {
    Some((y, m, d))
}

/// Bridges a date into the secondary representation. Fails exactly when the
/// year lies outside that representation's -9999..=9999 range.
pub fn to_date(date: CalendarDate) -> (r: Result<BridgedDate, DateTimeError>)
    requires
        date.valid(),
    ensures
        r is Ok <==> spec_to_date(date.year as int, date.month as int, date.day as int) is Some,
        r is Ok ==> (r->Ok_0.year as int, r->Ok_0.month as int, r->Ok_0.day as int)
            == spec_to_date(date.year as int, date.month as int, date.day as int)->0,
        r is Ok ==> r->Ok_0.valid(),
        r is Err ==> r->Err_0 == DateTimeError::InvalidDateError,
{
    if -9999 <= date.year && date.year <= 9999 {
        Ok(BridgedDate { year: date.year, month: date.month as u8, day: date.day as u8 })
    } else {
        Err(DateTimeError::InvalidDateError)
    }
}

/// Bridges a date back from the secondary representation. Every date that
/// representation admits is valid here, so this never fails.
pub fn from_date(date: BridgedDate) -> (r: Result<CalendarDate, DateTimeError>)
    requires
        date.valid(),
    ensures
        r is Ok,
        r is Ok ==> (r->Ok_0.year as int, r->Ok_0.month as int, r->Ok_0.day as int)
            == spec_from_date(date.year as int, date.month as int, date.day as int)->0,
        r is Ok ==> r->Ok_0.valid(),
{
    Ok(CalendarDate { year: date.year, month: date.month as u32, day: date.day as u32 })
}

/// Bridging a date out and back yields the date it started from, whenever
/// the year fits the bridged representation.
pub proof fn lemma_date_bridge_round_trip(y: int, m: int, d: int)
    requires
        spec_valid_date(y, m, d),
        -9999 <= y <= 9999,
    ensures
        spec_to_date(y, m, d) is Some,
        spec_from_date(
            (spec_to_date(y, m, d)->0).0,
            (spec_to_date(y, m, d)->0).1,
            (spec_to_date(y, m, d)->0).2,
        ) == Some((y, m, d)),
{
}

} // verus!
