//! Where the ranges of the dashboard begin.

use vstd::prelude::*;
use vstd::string::*;

use crate::clock::{local_time_millis, local_today};
use crate::db::logs::DAY_MS;
use crate::text::str_eq;

verus! {

/// A moment moved back by a span, within the range of the clock.
pub open spec fn moved_back(moment: i64, span: int) -> i64 {
    let exact = moment - span;
    if exact > i64::MAX {
        i64::MAX
    } else if exact < i64::MIN {
        i64::MIN
    } else {
        exact as i64
    }
}

/// A moment moved back by a span, within the range of the clock.
pub fn move_back(moment: i64, span: i64) -> (r: i64)
    ensures
        r == moved_back(moment, span as int),
{
    let exact: i128 = (moment as i128) - (span as i128);
    if exact > 0x7fff_ffff_ffff_ffff {
        i64::MAX
    } else if exact < -0x8000_0000_0000_0000 {
        i64::MIN
    } else {
        exact as i64
    }
}

/// The fields of a local date and time: year, month, day, hour, minute and
/// second.
#[derive(Debug, Clone, Copy, PartialEq, Eq)]
pub struct DateTimeFields {
    pub year: i32,
    pub month: u32,
    pub day: u32,
    pub hour: u32,
    pub minute: u32,
    pub second: u32,
}

/// The first moment of a day: midnight.
pub fn day_start_fields(date: (i32, u32, u32)) -> (r: DateTimeFields)
    ensures
        r == (DateTimeFields {
            year: date.0,
            month: date.1,
            day: date.2,
            hour: 0,
            minute: 0,
            second: 0,
        }),
{
    DateTimeFields { year: date.0, month: date.1, day: date.2, hour: 0, minute: 0, second: 0 }
}

/// The last second of a day: 23:59:59.
pub fn day_end_fields(date: (i32, u32, u32)) -> (r: DateTimeFields)
    ensures
        r == (DateTimeFields {
            year: date.0,
            month: date.1,
            day: date.2,
            hour: 23,
            minute: 59,
            second: 59,
        }),
{
    DateTimeFields { year: date.0, month: date.1, day: date.2, hour: 23, minute: 59, second: 59 }
}

/// The first moment of the year of a day: midnight of 1 January.
pub fn year_start_fields(date: (i32, u32, u32)) -> (r: DateTimeFields)
    ensures
        r == (DateTimeFields { year: date.0, month: 1, day: 1, hour: 0, minute: 0, second: 0 }),
{
    DateTimeFields { year: date.0, month: 1, day: 1, hour: 0, minute: 0, second: 0 }
}

/// The fields of the start of month `k + 1` of a year, for `k` below twelve,
/// and of the start of the next year for `k` twelve: midnight of the first
/// day. There are none beyond that, nor for a next year that the calendar
/// cannot number.
pub open spec fn month_start_of(year: i32, k: u8) -> Option<DateTimeFields> {
    if k < 12 {
        Some(
            DateTimeFields {
                year,
                month: (k + 1) as u32,
                day: 1,
                hour: 0,
                minute: 0,
                second: 0,
            },
        )
    } else if k == 12 && year < i32::MAX {
        Some(
            DateTimeFields {
                year: (year + 1) as i32,
                month: 1,
                day: 1,
                hour: 0,
                minute: 0,
                second: 0,
            },
        )
    } else {
        None
    }
}

/// The fields of the start of a month of a year, or of the next year.
pub fn month_start_fields(year: i32, k: u8) -> (r: Option<DateTimeFields>)
    ensures
        r == month_start_of(year, k),
{
    if k < 12 {
        Some(
            DateTimeFields {
                year,
                month: (k + 1) as u32,
                day: 1,
                hour: 0,
                minute: 0,
                second: 0,
            },
        )
    } else if k == 12 && year < 0x7fff_ffff {
        Some(DateTimeFields { year: year + 1, month: 1, day: 1, hour: 0, minute: 0, second: 0 })
    } else {
        None
    }
}

/// The moment of a local date and time, as the local calendar gives it.
pub fn moment_of(fields: DateTimeFields, failure: &str) -> (r: Result<i64, String>)
    ensures
        r matches Err(e) ==> e@ == failure@,
{
    found_or(
        local_time_millis(
            fields.year,
            fields.month,
            fields.day,
            fields.hour,
            fields.minute,
            fields.second,
        ),
        failure,
    )
}

/// The start of today in the local time zone, in milliseconds since the Unix
/// epoch.
pub fn get_today_start() -> (r: Result<i64, String>)
    ensures
        r matches Err(e) ==> e@ == "Failed to create today start timestamp"@,
{
    moment_of(day_start_fields(local_today()), "Failed to create today start timestamp")
}

/// The last second of today in the local time zone, in milliseconds since
/// the Unix epoch.
pub fn get_today_end() -> (r: Result<i64, String>)
    ensures
        r matches Err(e) ==> e@ == "Failed to create today end timestamp"@,
{
    moment_of(day_end_fields(local_today()), "Failed to create today end timestamp")
}

/// The start of this year in the local time zone, in milliseconds since the
/// Unix epoch.
pub fn get_year_start() -> (r: Result<i64, String>)
    ensures
        r matches Err(e) ==> e@ == "Failed to create year start timestamp"@,
{
    moment_of(year_start_fields(local_today()), "Failed to create year start timestamp")
}

/// What the calendar found, or the failure that is reported where it found
/// nothing.
pub fn found_or<T>(found: Option<T>, failure: &str) -> (r: Result<T, String>)
    ensures
        match found {
            Some(value) => r == Ok::<T, String>(value),
            None => r matches Err(e) && e@ == failure@,
        },
{
    match found {
        Some(value) => Ok(value),
        None => Err(String::from_str(failure)),
    }
}

/// True for the names of the four ranges.
pub open spec fn is_range(name: Seq<char>) -> bool {
    name == "hour"@ || name == "day"@ || name == "week"@ || name == "month"@
}

/// Where a range begins, given the start and the end of today and the start
/// of the year: `hour` at the start of today, `day` six days before it,
/// `week` 28 days before the end of today, `month` at the start of the year.
/// Any other name is no range.
pub open spec fn range_start_of(
    name: Seq<char>,
    today_start: i64,
    today_end: i64,
    year_start: i64,
) -> Option<i64> {
    if name == "hour"@ {
        Some(today_start)
    } else if name == "day"@ {
        Some(moved_back(today_start, 6 * DAY_MS))
    } else if name == "week"@ {
        Some(moved_back(today_end, 28 * DAY_MS))
    } else if name == "month"@ {
        Some(year_start)
    } else {
        None
    }
}

/// Where a range begins, given the start and the end of today and the start
/// of the year.
pub fn range_start(time_range: &str, today_start: i64, today_end: i64, year_start: i64) -> (r:
    Option<i64>)
    ensures
        r == range_start_of(time_range@, today_start, today_end, year_start),
{
    if str_eq(time_range, "hour") {
        Some(today_start)
    } else if str_eq(time_range, "day") {
        Some(move_back(today_start, 6 * 86_400_000))
    } else if str_eq(time_range, "week") {
        Some(move_back(today_end, 28 * 86_400_000))
    } else if str_eq(time_range, "month") {
        Some(year_start)
    } else {
        None
    }
}

/// What is reported when the local calendar fails to give the moment that
/// a range is measured from.
pub open spec fn range_failure(name: Seq<char>) -> Seq<char> {
    if name == "week"@ {
        "Failed to create today end timestamp"@
    } else if name == "month"@ {
        "Failed to create year start timestamp"@
    } else {
        "Failed to create today start timestamp"@
    }
}

/// Where a range begins today. A name that is no range has no beginning;
/// a range has one unless the local calendar fails to give the day.
pub fn get_timestamp_for_range(time_range: &str) -> (r: Result<Option<i64>, String>)
    ensures
        match r {
            Ok(Some(start)) => exists|a: i64, b: i64, c: i64|
                range_start_of(time_range@, a, b, c) == Some(start),
            Ok(None) => !is_range(time_range@),
            Err(e) => is_range(time_range@) && e@ == range_failure(time_range@),
        },
{
    proof {
        reveal_strlit("hour");
        reveal_strlit("day");
        reveal_strlit("week");
        reveal_strlit("month");
        assert("hour"@.len() == 4 && "day"@.len() == 3 && "week"@.len() == 4 && "month"@.len()
            == 5);
        assert("hour"@[0] == 'h' && "week"@[0] == 'w');
    }
    if str_eq(time_range, "hour") || str_eq(time_range, "day") {
        match get_today_start() {
            Ok(today_start) => {
                let r = range_start(time_range, today_start, 0, 0);
                Ok(r)
            },
            Err(e) => Err(e),
        }
    } else if str_eq(time_range, "week") {
        match get_today_end() {
            Ok(today_end) => {
                let r = range_start(time_range, 0, today_end, 0);
                Ok(r)
            },
            Err(e) => Err(e),
        }
    } else if str_eq(time_range, "month") {
        match get_year_start() {
            Ok(year_start) => {
                let r = range_start(time_range, 0, 0, year_start);
                Ok(r)
            },
            Err(e) => Err(e),
        }
    } else {
        Ok(None)
    }
}

} // verus!
