//! The wall clock and the local calendar, by way of `chrono`. What these
//! return depends on the moment and on the machine's time zone, so nothing is
//! said of it beyond the ranges that `chrono` documents.

use vstd::prelude::*;

verus! {

/// `chrono::Utc::now` read with `timestamp_millis`: the current time in
/// milliseconds since the Unix epoch.
#[verifier::external_body]
pub(crate) fn now_millis() -> i64 {
    chrono::Utc::now().timestamp_millis()
}

/// `chrono::Local::now` read with `Datelike::year`, `month` and `day`:
/// today's date in the local time zone. The month is from 1 to 12 and the
/// day from 1 to 31.
#[verifier::external_body]
pub(crate) fn local_today() -> (r: (i32, u32, u32))
    ensures
        1 <= r.1 <= 12,
        1 <= r.2 <= 31,
{
    let now = chrono::Local::now();
    (chrono::Datelike::year(&now), chrono::Datelike::month(&now), chrono::Datelike::day(&now))
}

/// `TimeZone::with_ymd_and_hms` on `chrono::Local`, read with `single` and
/// `timestamp_millis`: the moment of a local date and time in milliseconds
/// since the Unix epoch, where the local calendar has exactly one such
/// moment.
#[verifier::external_body]
pub(crate) fn local_time_millis(
    year: i32,
    month: u32,
    day: u32,
    hour: u32,
    min: u32,
    sec: u32,
) -> Option<i64> {
    match chrono::TimeZone::with_ymd_and_hms(&chrono::Local, year, month, day, hour, min, sec)
        .single() {
        Some(moment) => Some(moment.timestamp_millis()),
        None => None,
    }
}

/// The step at which the current hour could not be cut off.
#[derive(Debug, Clone, Copy, PartialEq, Eq)]
pub enum HourStep {
    Minute,
    Second,
    Nanosecond,
}

/// `chrono::Local::now` with minute, second and nanosecond set to zero by
/// `Timelike::with_minute`, `with_second` and `with_nanosecond`, read with
/// `timestamp_millis`: the start of the current local hour, or the step that
/// gave nothing.
#[verifier::external_body]
pub(crate) fn local_hour_start() -> Result<i64, HourStep> {
    let now = chrono::Local::now();
    match chrono::Timelike::with_minute(&now, 0) {
        Some(a) => match chrono::Timelike::with_second(&a, 0) {
            Some(b) => match chrono::Timelike::with_nanosecond(&b, 0) {
                Some(c) => Ok(c.timestamp_millis()),
                None => Err(HourStep::Nanosecond),
            },
            None => Err(HourStep::Second),
        },
        None => Err(HourStep::Minute),
    }
}

/// `TimeZone::timestamp_millis_opt` on `chrono::Local`, read with `single`
/// and `Timelike::hour`: the local hour of a moment, from 0 to 23.
#[verifier::external_body]
pub(crate) fn local_hour_of(millis: i64) -> (r: Option<u32>)
    ensures
        r matches Some(hour) ==> hour <= 23,
{
    match chrono::TimeZone::timestamp_millis_opt(&chrono::Local, millis).single() {
        Some(moment) => Some(chrono::Timelike::hour(&moment)),
        None => None,
    }
}

/// `TimeZone::timestamp_millis_opt` on `chrono::Local`, read with `single`,
/// `Datelike::month` and `day`: the local month, from 1 to 12, and day of the
/// month, from 1 to 31, of a moment.
#[verifier::external_body]
pub(crate) fn local_month_day_of(millis: i64) -> (r: Option<(u32, u32)>)
    ensures
        r matches Some(date) ==> 1 <= date.0 <= 12 && 1 <= date.1 <= 31,
{
    match chrono::TimeZone::timestamp_millis_opt(&chrono::Local, millis).single() {
        Some(moment) => Some((chrono::Datelike::month(&moment), chrono::Datelike::day(&moment))),
        None => None,
    }
}

} // verus!
