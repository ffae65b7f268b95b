//! Utilities around the library: calendar arithmetic for timestamps and
//! coloured text for terminals.

pub mod terminal;
pub mod text;

use vstd::prelude::*;

verus! {

/// The number of seconds in a day.
pub const SECONDS_IN_A_DAY: u64 = 86400;

/// Whether `year` is a leap year of the Gregorian calendar.
pub open spec fn is_leap(year: int) -> bool {
    (year % 4 == 0 && year % 100 != 0) || year % 400 == 0
}

/// The number of days of `year`.
pub open spec fn year_len(year: int) -> int {
    if is_leap(year) {
        366
    } else {
        365
    }
}

/// The number of days of the month `month` of `year`, and 0 where `month`
/// is not a month.
pub open spec fn month_len(year: int, month: int) -> int {
    if month == 1 || month == 3 || month == 5 || month == 7 || month == 8 || month == 10 || month
        == 12 {
        31
    } else if month == 4 || month == 6 || month == 9 || month == 11 {
        30
    } else if month == 2 {
        if is_leap(year) {
            29
        } else {
            28
        }
    } else {
        0
    }
}

/// The number of days from the first day of 1970 to the first day of
/// `year`.
pub open spec fn days_before_year(year: int) -> int
    decreases year,
{
    if year <= 1970 {
        0
    } else {
        days_before_year(year - 1) + year_len(year - 1)
    }
}

/// The number of days from the first day of `year` to the first day of its
/// month `month`.
pub open spec fn days_before_month(year: int, month: int) -> int
    decreases month,
{
    if month <= 1 {
        0
    } else {
        days_before_month(year, month - 1) + month_len(year, month - 1)
    }
}

/// Whether the given year is a leap year.
pub fn is_leap_year(year: u64) -> (leap: bool)
    ensures
        leap == is_leap(year as int),
{
    (year % 4 == 0 && year % 100 != 0) || (year % 400 == 0)
}

/// The number of days in the given year.
pub fn days_in_year(year: u64) -> (days: u64)
    ensures
        days == year_len(year as int),
{
    if is_leap_year(year) {
        366
    } else {
        365
    }
}

/// The number of days in the given month of the given year; 0 where the
/// month is none of the twelve.
pub fn days_in_month(year: u64, month: u8) -> (days: u64)
    ensures
        days == month_len(year as int, month as int),
{
    match month {
        1 | 3 | 5 | 7 | 8 | 10 | 12 => 31,
        4 | 6 | 9 | 11 => 30,
        2 => {
            if is_leap_year(year) {
                29
            } else {
                28
            }
        },
        _ => 0,
    }
}

/// Splits a number of seconds into whole days, hours, minutes and seconds.
pub fn calculate_hour_minute_second(timestamp: u64) -> (parts: (u64, u64, u64, u64))
    ensures
        timestamp == parts.0 * 86400 + parts.1 * 3600 + parts.2 * 60 + parts.3,
        parts.1 < 24,
        parts.2 < 60,
        parts.3 < 60,
{
    let days = timestamp / SECONDS_IN_A_DAY;
    let remaining_seconds = timestamp % SECONDS_IN_A_DAY;
    let hours = remaining_seconds / 3600;
    let remaining_seconds = remaining_seconds % 3600;
    let minutes = remaining_seconds / 60;
    let seconds = remaining_seconds % 60;
    (days, hours, minutes, seconds)
}

/// A year has twelve months: the days before a thirteenth month are the
/// days of the year.
pub proof fn lemma_year_is_twelve_months(year: int)
    ensures
        days_before_month(year, 13) == year_len(year),
{
    reveal_with_fuel(days_before_month, 14);
}

/// The date, as year, month and day of the month, that lies `days` days
/// behind the first of January 1970.
pub fn calculate_year_month_day(days: u64) -> (date: (u64, u8, u64))
    ensures
        date.0 >= 1970,
        1 <= date.1 <= 12,
        1 <= date.2 <= month_len(date.0 as int, date.1 as int),
        days == days_before_year(date.0 as int) + days_before_month(date.0 as int, date.1 as int)
            + date.2 - 1,
{
    let mut left = days;
    let mut year: u64 = 1970;
    let mut month: u8 = 1;
    while left >= days_in_year(year)
        invariant
            year >= 1970,
            days == days_before_year(year as int) + left,
            365 * (year - 1970) <= days_before_year(year as int),
        decreases left,
    {
        left = left - days_in_year(year);
        year = year + 1;
    }
    proof {
        lemma_year_is_twelve_months(year as int);
        reveal_with_fuel(days_before_month, 14);
    }
    while left >= days_in_month(year, month)
        invariant
            1 <= month <= 12,
            days == days_before_year(year as int) + days_before_month(year as int, month as int)
                + left,
            days_before_month(year as int, month as int) + left < year_len(year as int),
            days_before_month(year as int, 13) == year_len(year as int),
        decreases left,
    {
        proof {
            reveal_with_fuel(days_before_month, 14);
        }
        left = left - days_in_month(year, month);
        month = month + 1;
    }
    (year, month, 1 + left)
}

/// The levels of a log record, the most severe first.
#[derive(Debug, Clone, Copy, PartialEq, Eq, Structural)]
pub enum LogLevel {
    Error,
    Warn,
    Info,
    Debug,
    Trace,
}

/// The number of seconds by which log records are dated back: six hours.
pub const LOG_OFFSET: u64 = 21600;

/// The colour code of a level: cyan for traces, blue for debugging, green
/// for information, yellow for warnings and red for errors.
pub open spec fn color_code(level: LogLevel) -> Seq<char> {
    match level {
        LogLevel::Trace => "36"@,
        LogLevel::Debug => "34"@,
        LogLevel::Info => "32"@,
        LogLevel::Warn => "33"@,
        LogLevel::Error => "31"@,
    }
}

/// The colour code in which a record of the given level is printed.
pub fn level_color(level: LogLevel) -> (code: &'static str)
    ensures
        code@ == color_code(level),
{
    match level {
        LogLevel::Trace => "36",
        LogLevel::Debug => "34",
        LogLevel::Info => "32",
        LogLevel::Warn => "33",
        LogLevel::Error => "31",
    }
}

/// The date and the time of day at which a record is dated: six hours
/// before `timestamp`, the seconds since the first of January 1970, as
/// year, month, day, hours, minutes and seconds.
pub fn log_time(timestamp: u64) -> (time: (u64, u8, u64, u64, u64, u64))
    requires
        timestamp >= LOG_OFFSET,
    ensures
        time.0 >= 1970,
        1 <= time.1 <= 12,
        1 <= time.2 <= month_len(time.0 as int, time.1 as int),
        time.3 < 24,
        time.4 < 60,
        time.5 < 60,
        timestamp - LOG_OFFSET == (days_before_year(time.0 as int) + days_before_month(
            time.0 as int,
            time.1 as int,
        ) + time.2 - 1) * 86400 + time.3 * 3600 + time.4 * 60 + time.5,
{
    let parts = calculate_hour_minute_second(timestamp - LOG_OFFSET);
    let date = calculate_year_month_day(parts.0);
    (date.0, date.1, date.2, parts.1, parts.2, parts.3)
}

} // verus!
