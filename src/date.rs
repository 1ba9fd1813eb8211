//! Calendar dates as day numbers of the proleptic Gregorian calendar.
use chrono::Datelike;
use vstd::prelude::*;

verus! {

/// First year that chrono's `NaiveDate` can hold.
pub const MIN_YEAR: i32 = -262143;

/// Last year that chrono's `NaiveDate` can hold.
pub const MAX_YEAR: i32 = 262142;

/// Day number of January 1 of `MIN_YEAR`.
pub const MIN_DAYS: i32 = -95746129;

/// Day number of December 31 of `MAX_YEAR`.
pub const MAX_DAYS: i32 = 95745399;

pub open spec fn is_leap_year(y: int) -> bool {
    y % 4 == 0 && (y % 100 != 0 || y % 400 == 0)
}

pub open spec fn days_in_month(y: int, m: int) -> int {
    if m == 2 {
        if is_leap_year(y) { 29 } else { 28 }
    } else if m == 4 || m == 6 || m == 9 || m == 11 {
        30
    } else {
        31
    }
}

/// A year, month and day that name a day of the calendar.
pub open spec fn valid_ymd(y: int, m: int, d: int) -> bool {
    1 <= m <= 12 && 1 <= d <= days_in_month(y, m)
}

/// Days of the years before year `y`, counted from the start of year 1.
pub open spec fn days_before_year(y: int) -> int {
    365 * (y - 1) + (y - 1) / 4 - (y - 1) / 100 + (y - 1) / 400
}

/// Days of the months of year `y` before month `m`.
pub open spec fn days_before_month(y: int, m: int) -> int {
    let common: int = if m == 1 { 0 }
        else if m == 2 { 31 }
        else if m == 3 { 59 }
        else if m == 4 { 90 }
        else if m == 5 { 120 }
        else if m == 6 { 151 }
        else if m == 7 { 181 }
        else if m == 8 { 212 }
        else if m == 9 { 243 }
        else if m == 10 { 273 }
        else if m == 11 { 304 }
        else { 334 };
    if m > 2 && is_leap_year(y) { common + 1 } else { common }
}

/// Day number of a calendar date: January 1 of year 1 is day 1, and year 0
/// is the year before it.
pub open spec fn days_from_civil(y: int, m: int, d: int) -> int {
    days_before_year(y) + days_before_month(y, m) + d
}

/// The calendar date whose day number is `n`.
pub open spec fn civil_of(n: int) -> (int, int, int) {
    choose|t: (int, int, int)| valid_ymd(t.0, t.1, t.2) && days_from_civil(t.0, t.1, t.2) == n
}

/// Day of the week of day number `n`: Monday is 1, Sunday is 7
/// (day 1, January 1 of year 1, was a Monday).
pub open spec fn weekday_of(n: int) -> int {
    (n - 1) % 7 + 1
}

/// Days from a day of the week (Monday is 1) up to the next Friday, or 0 on a Friday.
pub open spec fn days_till_friday_spec(weekday: int) -> int {
    ((5 + 7) - weekday) % 7
}

/// Day number of the Friday that ends the week holding day `n`.
pub open spec fn friday_of(n: int) -> int {
    n + days_till_friday_spec(weekday_of(n))
}

/// A day of the calendar, kept as its day number.
#[derive(Clone, Copy, Debug, PartialEq, Eq, Structural)]
pub struct Date {
    days: i32,
}

impl Date {
    /// Day number of this date.
    pub closed spec fn day_number(self) -> int {
        self.days as int
    }

    pub open spec fn wf(self) -> bool {
        MIN_DAYS <= self.day_number() <= MAX_DAYS
    }

    /// The date with day number `days`, where chrono's range holds it.
    pub fn from_days(days: i32) -> (r: Option<Date>)
        ensures
            r is Some <==> MIN_DAYS <= days <= MAX_DAYS,
            r matches Some(d) ==> d.wf() && d.day_number() == days,
    {
        if MIN_DAYS <= days && days <= MAX_DAYS {
            Some(Date { days })
        } else {
            None
        }
    }

    /// The date of a year, month and day, where it exists and chrono's range holds it.
    pub fn from_ymd(year: i32, month: u32, day: u32) -> (r: Option<Date>)
        ensures
            r is Some <==> valid_ymd(year as int, month as int, day as int) && MIN_YEAR <= year
                <= MAX_YEAR,
            r matches Some(d) ==> d.wf() && d.day_number() == days_from_civil(
                year as int,
                month as int,
                day as int,
            ),
    {
        match day_number_of_ymd(year, month, day) {
            Some(days) => Some(Date { days }),
            None => None,
        }
    }

    pub fn days(&self) -> (r: i32)
        ensures
            r == self.day_number(),
    {
        self.days
    }

    /// Year, month and day of this date.
    pub fn ymd(&self) -> (r: (i32, u32, u32))
        requires
            self.wf(),
        ensures
            (r.0 as int, r.1 as int, r.2 as int) == civil_of(self.day_number()),
            valid_ymd(r.0 as int, r.1 as int, r.2 as int),
            MIN_YEAR <= r.0 <= MAX_YEAR,
    {
        ymd_of_day_number(self.days)
    }

    /// Day of the week, Monday being 1 and Sunday 7.
    pub fn weekday(&self) -> (r: u32)
        ensures
            r == weekday_of(self.day_number()),
            1 <= r <= 7,
    {
        let m: i64 = (self.days as i64 - 1) % 7;
        let w: i64 = if m < 0 { m + 8 } else { m + 1 };
        w as u32
    }
}

/// Relies on chrono's `NaiveDate::from_ymd_opt`, which gives `None` exactly for a
/// month or day that does not exist and for a year outside `MIN_YEAR..=MAX_YEAR`,
/// and on `Datelike::num_days_from_ce`, which counts days with January 1 of year 1
/// as day 1.
#[verifier::external_body]
fn day_number_of_ymd(year: i32, month: u32, day: u32) -> (r: Option<i32>)
    ensures
        r is Some <==> (valid_ymd(year as int, month as int, day as int) && MIN_YEAR <= year <= MAX_YEAR),
        r matches Some(n) ==> (n == days_from_civil(year as int, month as int, day as int) && MIN_DAYS <= n <= MAX_DAYS),
{
    chrono::NaiveDate::from_ymd_opt(year, month, day).map(|d| d.num_days_from_ce())
}

/// Relies on chrono's `NaiveDate::from_num_days_from_ce_opt`, which gives the date of a
/// day number (January 1 of year 1 being day 1) for every day number in chrono's range,
/// and on `Datelike`'s `year`, `month` and `day` of that date.
#[verifier::external_body]
fn ymd_of_day_number(days: i32) -> (r: (i32, u32, u32))
    requires
        MIN_DAYS <= days <= MAX_DAYS,
    ensures
        (r.0 as int, r.1 as int, r.2 as int) == civil_of(days as int),
        valid_ymd(r.0 as int, r.1 as int, r.2 as int),
        days_from_civil(r.0 as int, r.1 as int, r.2 as int) == days,
        MIN_YEAR <= r.0 <= MAX_YEAR,
{
    let d = chrono::NaiveDate::from_num_days_from_ce_opt(days).unwrap();
    (d.year(), d.month(), d.day())
}

/// Days from a day of the week (Monday is 1, Sunday 7) up to the next Friday,
/// 0 on a Friday.
pub fn days_till_friday(weekday: u32) -> (r: u32)
    requires
        1 <= weekday <= 7,
    ensures
        r == days_till_friday_spec(weekday as int),
        r <= 6,
{
    ((5 + 7) - weekday) % 7
}

/// The Friday on or after `d`: the last day of the Saturday-to-Friday week
/// that holds `d`.
pub fn this_friday(d: &Date) -> (r: Date)
    requires
        d.wf(),
        friday_of(d.day_number()) <= MAX_DAYS,
    ensures
        r.wf(),
        r.day_number() == friday_of(d.day_number()),
{
    let k = days_till_friday(d.weekday());
    Date { days: d.days + k as i32 }
}

/// The Friday on or after a date lies within the six days that follow it, is a
/// Friday, and is its own Friday.
pub proof fn lemma_this_friday(n: int)
    ensures
        n <= friday_of(n) <= n + 6,
        weekday_of(friday_of(n)) == 5,
        friday_of(friday_of(n)) == friday_of(n),
{
}

} // verus!
