//! Dates and times of day: when a run was recorded, and when the decoder was
//! built.
//!
//! The calendar is that of the `chrono` crate, which checks every date and
//! reads every text. A date or a time that it has accepted is kept as plain
//! numbers.

use vstd::prelude::*;
use crate::error::XdrkError;

verus! {

/// The error of `chrono`'s parsers.
#[verifier::external_type_specification]
#[verifier::external_body]
pub struct ExParseError(chrono::ParseError);

/// The first year of the calendar.
pub const MIN_YEAR: i32 = -262_143;

/// The last year of the calendar.
pub const MAX_YEAR: i32 = 262_142;

/// A day of the calendar.
#[derive(Clone, Copy, Debug, PartialEq, Eq, Structural)]
pub struct Date {
    pub year: i32,
    pub month: u32,
    pub day: u32,
}

/// A time of day. The nanoseconds of a leap second count on from a thousand
/// million, in the last second of a minute.
#[derive(Clone, Copy, Debug, PartialEq, Eq, Structural)]
pub struct Time {
    pub hour: u32,
    pub minute: u32,
    pub second: u32,
    pub nanosecond: u32,
}

/// A day and a time of that day.
#[derive(Clone, Copy, Debug, PartialEq, Eq, Structural)]
pub struct DateTime {
    pub date: Date,
    pub time: Time,
}

/// The fields of a broken-down time as the C library keeps it: the month
/// counts from zero and the year from 1900.
#[derive(Clone, Copy, Debug, PartialEq, Eq, Structural)]
pub struct Tm {
    pub tm_sec: i32,
    pub tm_min: i32,
    pub tm_hour: i32,
    pub tm_mday: i32,
    pub tm_mon: i32,
    pub tm_year: i32,
    pub tm_wday: i32,
    pub tm_yday: i32,
    pub tm_isdst: i32,
}

/// Whether a year of the Gregorian calendar has a 29th of February.
pub open spec fn is_leap_year(year: int) -> bool {
    year % 4 == 0 && (year % 100 != 0 || year % 400 == 0)
}

/// The number of days of a month.
pub open spec fn days_in_month(year: int, month: int) -> int {
    if month == 2 {
        if is_leap_year(year) {
            29
        } else {
            28
        }
    } else if month == 4 || month == 6 || month == 9 || month == 11 {
        30
    } else {
        31
    }
}

/// Whether the calendar has the given day.
pub open spec fn is_calendar_date(year: int, month: int, day: int) -> bool {
    &&& MIN_YEAR <= year <= MAX_YEAR
    &&& 1 <= month <= 12
    &&& 1 <= day <= days_in_month(year, month)
}

/// Whether a day has the given time, to the second.
pub open spec fn is_clock_time(hour: int, minute: int, second: int) -> bool {
    0 <= hour < 24 && 0 <= minute < 60 && 0 <= second < 60
}

impl Date {
    /// The date is a day of the calendar.
    pub open spec fn wf(self) -> bool {
        is_calendar_date(self.year as int, self.month as int, self.day as int)
    }
}

impl Time {
    /// The time is a time of day.
    pub open spec fn wf(self) -> bool {
        &&& is_clock_time(self.hour as int, self.minute as int, self.second as int)
        &&& self.nanosecond < 2_000_000_000
        &&& self.nanosecond >= 1_000_000_000 ==> self.second == 59
    }
}

impl DateTime {
    /// Both the day and the time of day exist.
    pub open spec fn wf(self) -> bool {
        self.date.wf() && self.time.wf()
    }

    /// The given time of the given day.
    pub fn new(date: Date, time: Time) -> (r: DateTime)
        ensures
            r == (DateTime { date, time }),
    {
        DateTime { date, time }
    }
}

/// The date that `chrono::NaiveDate::parse_from_str` reads from `text` by
/// `format`, if it reads one.
pub uninterp spec fn parsed_date(text: Seq<char>, format: Seq<char>) -> Option<Date>;

/// The time that `chrono::NaiveTime::parse_from_str` reads from `text` by
/// `format`, if it reads one.
pub uninterp spec fn parsed_time(text: Seq<char>, format: Seq<char>) -> Option<Time>;

/// Calls `chrono::NaiveDate::parse_from_str` and takes the year, the month
/// and the day of the date that it gives. Trusted: the result is what that
/// function reads from these arguments, and a date that it gives is a day of
/// the calendar.
#[verifier::external_body]
fn parse_date(text: &str, format: &str) -> (r: Result<Date, chrono::ParseError>)
    ensures
        r is Ok ==> parsed_date(text@, format@) == Some(r->Ok_0) && r->Ok_0.wf(),
        r is Err ==> parsed_date(text@, format@) is None,
{
    match chrono::NaiveDate::parse_from_str(text, format) {
        Ok(date) => Ok(
            Date {
                year: chrono::Datelike::year(&date),
                month: chrono::Datelike::month(&date),
                day: chrono::Datelike::day(&date),
            },
        ),
        Err(e) => Err(e),
    }
}

/// Calls `chrono::NaiveTime::parse_from_str` and takes the hour, the minute,
/// the second and the nanosecond of the time that it gives. Trusted: the
/// result is what that function reads from these arguments, and a time that
/// it gives is a time of day.
#[verifier::external_body]
fn parse_time(text: &str, format: &str) -> (r: Result<Time, chrono::ParseError>)
    ensures
        r is Ok ==> parsed_time(text@, format@) == Some(r->Ok_0) && r->Ok_0.wf(),
        r is Err ==> parsed_time(text@, format@) is None,
{
    match chrono::NaiveTime::parse_from_str(text, format) {
        Ok(time) => Ok(
            Time {
                hour: chrono::Timelike::hour(&time),
                minute: chrono::Timelike::minute(&time),
                second: chrono::Timelike::second(&time),
                nanosecond: chrono::Timelike::nanosecond(&time),
            },
        ),
        Err(e) => Err(e),
    }
}

/// Calls `chrono::NaiveDate::from_ymd_opt`. Trusted: it gives a date if and
/// only if the year is within the calendar and the month has that day, and
/// the date that it gives has the year, the month and the day it was asked
/// for.
#[verifier::external_body]
fn calendar_date(year: i32, month: u32, day: u32) -> (r: Option<Date>)
    ensures
        r is Some <==> is_calendar_date(year as int, month as int, day as int),
        r is Some ==> r->0 == (Date { year, month, day }),
{
    match chrono::NaiveDate::from_ymd_opt(year, month, day) {
        Some(date) => Some(
            Date {
                year: chrono::Datelike::year(&date),
                month: chrono::Datelike::month(&date),
                day: chrono::Datelike::day(&date),
            },
        ),
        None => None,
    }
}

/// Calls `chrono::NaiveTime::from_hms_opt`. Trusted: it gives a time if and
/// only if the hour is below 24 and the minute and the second are below 60,
/// and the time that it gives has that hour, minute and second and no
/// nanoseconds.
#[verifier::external_body]
fn clock_time(hour: u32, minute: u32, second: u32) -> (r: Option<Time>)
    ensures
        r is Some <==> is_clock_time(hour as int, minute as int, second as int),
        r is Some ==> r->0 == (Time { hour, minute, second, nanosecond: 0 }),
{
    match chrono::NaiveTime::from_hms_opt(hour, minute, second) {
        Some(time) => Some(
            Time {
                hour: chrono::Timelike::hour(&time),
                minute: chrono::Timelike::minute(&time),
                second: chrono::Timelike::second(&time),
                nanosecond: chrono::Timelike::nanosecond(&time),
            },
        ),
        None => None,
    }
}

/// The date of the given year, month and day, if the calendar has that day.
pub fn date_of(year: i32, month: u32, day: u32) -> (r: Option<Date>)
    ensures
        r is Some <==> is_calendar_date(year as int, month as int, day as int),
        r is Some ==> r->0 == (Date { year, month, day }) && r->0.wf(),
{
    calendar_date(year, month, day)
}

/// The time of the given hour, minute and second, if a day has that time.
pub fn time_of(hour: u32, minute: u32, second: u32) -> (r: Option<Time>)
    ensures
        r is Some <==> is_clock_time(hour as int, minute as int, second as int),
        r is Some ==> r->0 == (Time { hour, minute, second, nanosecond: 0 }) && r->0.wf(),
{
    clock_time(hour, minute, second)
}

/// The date and time that a broken-down time stands for, if it stands for
/// one: the year is counted from 1900 and the month from zero, and neither
/// the day nor the time of day may be out of range.
pub open spec fn tm_datetime(tm: Tm) -> Option<DateTime> {
    if is_calendar_date(tm.tm_year + 1900, tm.tm_mon + 1, tm.tm_mday as int) && is_clock_time(
        tm.tm_hour as int,
        tm.tm_min as int,
        tm.tm_sec as int,
    ) {
        Some(
            DateTime {
                date: Date {
                    year: (tm.tm_year + 1900) as i32,
                    month: (tm.tm_mon + 1) as u32,
                    day: tm.tm_mday as u32,
                },
                time: Time {
                    hour: tm.tm_hour as u32,
                    minute: tm.tm_min as u32,
                    second: tm.tm_sec as u32,
                    nanosecond: 0,
                },
            },
        )
    } else {
        None
    }
}

/// Reads a broken-down time. Fails if it stands for no date and time.
pub fn datetime_of_tm(tm: &Tm) -> (r: Result<DateTime, XdrkError>)
    ensures
        match r {
            Ok(datetime) => tm_datetime(*tm) == Some(datetime) && datetime.wf(),
            Err(e) => e == XdrkError::InvalidDate && tm_datetime(*tm) is None,
        },
{
    if tm.tm_year > 300_000 || tm.tm_year < -300_000 || tm.tm_mon < 0 || tm.tm_mon > 11
        || tm.tm_mday < 0 || tm.tm_hour < 0 || tm.tm_min < 0 || tm.tm_sec < 0 {
        return Err(XdrkError::InvalidDate);
    }
    let date = date_of(tm.tm_year + 1900, (tm.tm_mon + 1) as u32, tm.tm_mday as u32);
    let time = time_of(tm.tm_hour as u32, tm.tm_min as u32, tm.tm_sec as u32);
    match (date, time) {
        (Some(date), Some(time)) => Ok(DateTime::new(date, time)),
        _ => Err(XdrkError::InvalidDate),
    }
}

/// The date on which the decoder was built, as the decoder writes it: the
/// short name of the month, the day and the year.
pub open spec fn library_date_of(text: Seq<char>) -> Option<Date> {
    parsed_date(text, "%b %d %Y"@)
}

/// The time at which the decoder was built, as the decoder writes it: hours,
/// minutes and seconds, with colons between them.
pub open spec fn library_time_of(text: Seq<char>) -> Option<Time> {
    parsed_time(text, "%H:%M:%S"@)
}

/// Reads the date on which the decoder was built. Fails if the text is no
/// such date.
pub fn library_date(text: &str) -> (r: Result<Date, XdrkError>)
    ensures
        match r {
            Ok(date) => library_date_of(text@) == Some(date) && date.wf(),
            Err(e) => e == XdrkError::InvalidDate && library_date_of(text@) is None,
        },
{
    match parse_date(text, "%b %d %Y") {
        Ok(date) => Ok(date),
        Err(_) => Err(XdrkError::InvalidDate),
    }
}

/// Reads the time at which the decoder was built. Fails if the text is no
/// such time.
pub fn library_time(text: &str) -> (r: Result<Time, XdrkError>)
    ensures
        match r {
            Ok(time) => library_time_of(text@) == Some(time) && time.wf(),
            Err(e) => e == XdrkError::InvalidDate && library_time_of(text@) is None,
        },
{
    match parse_time(text, "%H:%M:%S") {
        Ok(time) => Ok(time),
        Err(_) => Err(XdrkError::InvalidDate),
    }
}

/// Puts the date and the time at which the decoder was built together from
/// what was read of each. Fails if either is missing.
pub fn library_datetime_from(date: Option<Date>, time: Option<Time>) -> (r: Result<
    DateTime,
    XdrkError,
>)
    ensures
        date is Some && time is Some ==> r == Ok::<DateTime, XdrkError>(
            DateTime { date: date->0, time: time->0 },
        ),
        date is None || time is None ==> r == Err::<DateTime, XdrkError>(XdrkError::InvalidDate),
{
    match (date, time) {
        (Some(date), Some(time)) => Ok(DateTime::new(date, time)),
        _ => Err(XdrkError::InvalidDate),
    }
}

/// Reads the date and the time at which the decoder was built. Fails if
/// either text is not what it should be.
pub fn library_datetime(date: &str, time: &str) -> (r: Result<DateTime, XdrkError>)
    ensures
        match r {
            Ok(datetime) => library_date_of(date@) == Some(datetime.date) && library_time_of(time@)
                == Some(datetime.time) && datetime.wf(),
            Err(e) => e == XdrkError::InvalidDate && (library_date_of(date@) is None
                || library_time_of(time@) is None),
        },
{
    let date = match library_date(date) {
        Ok(date) => Some(date),
        Err(_) => None,
    };
    let time = match library_time(time) {
        Ok(time) => Some(time),
        Err(_) => None,
    };
    library_datetime_from(date, time)
}

} // verus!
