//! The token series of the dashboard: for each range a fixed number of
//! buckets of equal width, oldest first, each with the tokens of the rows
//! that fall into it.

use vstd::prelude::*;
use vstd::string::*;

use crate::clock::{local_hour_of, local_hour_start, local_month_day_of, local_today, HourStep};
use crate::db::logs::log_views;
use crate::db::stats::time_range::{
    found_or, get_today_end, get_today_start, moment_of, month_start_fields, month_start_of,
    move_back, moved_back,
};
use crate::db::stats::types::{
    cache_reads_in, point_views, requests_in, shown, tokens_in, TokenDataPoint,
    TokenDataPointView,
};
use crate::logger::{RequestLog, RequestLogView};
use crate::text::{concat, decimal, push_decimal, str_eq};

verus! {

/// The width of an hourly bucket, in milliseconds.
pub const HOUR_MS: i64 = 3_600_000;

/// The width of a daily bucket, in milliseconds.
pub const DAY_WIDTH_MS: i64 = 86_400_000;

/// The width of a weekly bucket, in milliseconds.
pub const WEEK_MS: i64 = 604_800_000;

/// What the three sums of a window are, as they are shown.
pub struct WindowSums {
    pub requests: i32,
    pub tokens: i32,
    pub cache_reads: i32,
}

fn clamp_wide(n: i128) -> (r: i32)
    ensures
        r == shown(n as int),
{
    if n > 0x7fff_ffff {
        i32::MAX
    } else if n < -0x8000_0000 {
        i32::MIN
    } else {
        n as i32
    }
}

/// The sums over the rows that were written at or after `from` and before
/// `to`.
pub fn window_sums(logs: &Vec<RequestLog>, from: i128, to: i128) -> (r: WindowSums)
    ensures
        r.requests == shown(
            requests_in(log_views(logs@), from as int, to as int, logs@.len() as int),
        ),
        r.tokens == shown(tokens_in(log_views(logs@), from as int, to as int, logs@.len() as int)),
        r.cache_reads == shown(
            cache_reads_in(log_views(logs@), from as int, to as int, logs@.len() as int),
        ),
{
    let ghost rows = log_views(logs@);
    let mut requests: i128 = 0;
    let mut tokens: i128 = 0;
    let mut cache_reads: i128 = 0;
    let mut i: usize = 0;
    while i < logs.len()
        invariant
            i <= logs@.len(),
            rows == log_views(logs@),
            requests == requests_in(rows, from as int, to as int, i as int),
            tokens == tokens_in(rows, from as int, to as int, i as int),
            cache_reads == cache_reads_in(rows, from as int, to as int, i as int),
            0 <= requests <= i,
            -(i as int) * 0x2_0000_0000 <= tokens <= (i as int) * 0x2_0000_0000,
            -(i as int) * 0x2_0000_0000 <= cache_reads <= (i as int) * 0x2_0000_0000,
        decreases logs.len() - i,
    {
        let log = &logs[i];
        assert(rows[i as int] == log@);
        let moment: i128 = log.timestamp as i128;
        if from <= moment && moment < to {
            let all: i128 = (log.input_tokens as i128) + (log.output_tokens as i128) + (
            log.cache_creation_input_tokens as i128) + (log.cache_read_input_tokens as i128);
            requests = requests + 1;
            tokens = tokens + all;
            cache_reads = cache_reads + (log.cache_read_input_tokens as i128);
        }
        i += 1;
    }
    WindowSums {
        requests: clamp_wide(requests),
        tokens: clamp_wide(tokens),
        cache_reads: clamp_wide(cache_reads),
    }
}

/// A number written with at least two digits.
pub open spec fn padded(n: nat) -> Seq<char> {
    if n < 10 {
        "0"@ + decimal(n)
    } else {
        decimal(n)
    }
}

/// The label of an hourly bucket.
pub open spec fn hour_label(hour: u32) -> Seq<char> {
    padded(hour as nat) + ":00"@
}

/// The label of a daily bucket.
pub open spec fn day_label(month: u32, day: u32) -> Seq<char> {
    decimal(month as nat) + "月"@ + decimal(day as nat) + "日"@
}

/// The label of a weekly bucket.
pub open spec fn week_label(week: nat) -> Seq<char> {
    "第"@ + decimal(week) + "周"@
}

/// The label of a monthly bucket.
pub open spec fn month_label(month: nat) -> Seq<char> {
    decimal(month) + "月"@
}

/// The point of bucket `k` of a series that starts at `start` with buckets
/// of the given width: the tokens of the rows written in the bucket.
pub open spec fn bucket(
    rows: Seq<RequestLogView>,
    start: int,
    width: int,
    k: int,
    label: Seq<char>,
) -> TokenDataPointView {
    TokenDataPointView {
        label,
        tokens: shown(tokens_in(rows, start + k * width, start + (k + 1) * width, rows.len() as int)),
        cache_read_tokens: shown(
            cache_reads_in(rows, start + k * width, start + (k + 1) * width, rows.len() as int),
        ),
    }
}

/// True for the hourly series around the hour that starts at `current`:
/// thirteen buckets of one hour, from five hours before it on, each labelled
/// with its local hour.
pub open spec fn is_hourly_series(
    points: Seq<TokenDataPointView>,
    rows: Seq<RequestLogView>,
    current: i64,
    hours: Seq<u32>,
) -> bool {
    &&& points.len() == 13
    &&& hours.len() == 13
    &&& forall|k: int|
        0 <= k < 13 ==> #[trigger] points[k] == bucket(
            rows,
            moved_back(current, 5 * HOUR_MS) as int,
            HOUR_MS as int,
            k,
            hour_label(hours[k]),
        )
}

/// True for the daily series that ends on the day that starts at
/// `today_start`: seven buckets of one day, from six days before it on, each
/// labelled with its local month and day.
pub open spec fn is_daily_series(
    points: Seq<TokenDataPointView>,
    rows: Seq<RequestLogView>,
    today_start: i64,
    dates: Seq<(u32, u32)>,
) -> bool {
    &&& points.len() == 7
    &&& dates.len() == 7
    &&& forall|k: int|
        0 <= k < 7 ==> #[trigger] points[k] == bucket(
            rows,
            moved_back(today_start, 6 * DAY_WIDTH_MS) as int,
            DAY_WIDTH_MS as int,
            k,
            day_label(dates[k].0, dates[k].1),
        )
}

/// True for the weekly series that ends at `today_end`: four buckets of
/// seven days, from 28 days before it on, numbered from 1.
pub open spec fn is_weekly_series(
    points: Seq<TokenDataPointView>,
    rows: Seq<RequestLogView>,
    today_end: i64,
) -> bool {
    &&& points.len() == 4
    &&& forall|k: int|
        0 <= k < 4 ==> #[trigger] points[k] == bucket(
            rows,
            moved_back(today_end, 28 * DAY_WIDTH_MS) as int,
            WEEK_MS as int,
            k,
            week_label((k + 1) as nat),
        )
}

/// The point of the rows written at or after `from` and before `to`.
pub open spec fn window_point(
    rows: Seq<RequestLogView>,
    from: int,
    to: int,
    label: Seq<char>,
) -> TokenDataPointView {
    TokenDataPointView {
        label,
        tokens: shown(tokens_in(rows, from, to, rows.len() as int)),
        cache_read_tokens: shown(cache_reads_in(rows, from, to, rows.len() as int)),
    }
}

/// True for the monthly series of a year whose months start at the given
/// moments, the thirteenth being the start of the next year: twelve buckets,
/// one for each calendar month, numbered from 1. A row counts in the bucket
/// of the month in which it was written.
pub open spec fn is_monthly_series(
    points: Seq<TokenDataPointView>,
    rows: Seq<RequestLogView>,
    starts: Seq<i64>,
) -> bool {
    &&& points.len() == 12
    &&& starts.len() == 13
    &&& forall|k: int|
        0 <= k < 12 ==> #[trigger] points[k] == window_point(
            rows,
            starts[k] as int,
            starts[k + 1] as int,
            month_label((k + 1) as nat),
        )
}

fn point(logs: &Vec<RequestLog>, start: i64, width: i64, k: u8, label: String) -> (r:
    TokenDataPoint)
    requires
        0 < width <= WEEK_MS,
    ensures
        r@ == bucket(log_views(logs@), start as int, width as int, k as int, label@),
{
    assert(0 <= (k as int) * (width as int) <= 255 * 604_800_000) by (nonlinear_arith)
        requires
            0 <= k <= 255,
            0 < width <= 604_800_000,
    ;
    let from: i128 = (start as i128) + (k as i128) * (width as i128);
    let to: i128 = from + (width as i128);
    assert(start + (k + 1) * width == start + k * width + width) by (nonlinear_arith);
    let sums = window_sums(logs, from, to);
    TokenDataPoint { label, tokens: sums.tokens, cache_read_tokens: sums.cache_reads }
}

/// The hourly series around the hour that starts at `current_hour`: thirteen
/// buckets of one hour, from five hours before it to seven hours after it.
/// `hours` gives the local hour of each bucket for its label.
pub fn hourly_stats_at(logs: &Vec<RequestLog>, current_hour: i64, hours: &[u32; 13]) -> (r: Vec<
    TokenDataPoint,
>)
    ensures
        is_hourly_series(point_views(r@), log_views(logs@), current_hour, hours@),
{
    let start = move_back(current_hour, 5 * 3_600_000);
    let mut out: Vec<TokenDataPoint> = Vec::new();
    let mut k: u8 = 0;
    while k < 13
        invariant
            k <= 13,
            out@.len() == k,
            start == moved_back(current_hour, 5 * HOUR_MS),
            forall|j: int|
                0 <= j < k ==> (#[trigger] out@[j])@ == bucket(
                    log_views(logs@),
                    start as int,
                    HOUR_MS as int,
                    j,
                    hour_label(hours@[j]),
                ),
        decreases 13 - k,
    {
        let hour = hours[k as usize];
        let mut label = String::new();
        if hour < 10 {
            label.append("0");
        }
        push_decimal(&mut label, hour as u64);
        label.append(":00");
        proof {
            assert(label@ =~= hour_label(hour));
        }
        out.push(point(logs, start, 3_600_000, k, label));
        k += 1;
    }
    out
}

/// The daily series that ends today: seven buckets of one day, from six days
/// before `today_start` on. `dates` gives the local month and day of each
/// bucket for its label.
pub fn daily_stats_at(logs: &Vec<RequestLog>, today_start: i64, dates: &[(u32, u32); 7]) -> (r:
    Vec<TokenDataPoint>)
    ensures
        is_daily_series(point_views(r@), log_views(logs@), today_start, dates@),
{
    let start = move_back(today_start, 6 * 86_400_000);
    let mut out: Vec<TokenDataPoint> = Vec::new();
    let mut k: u8 = 0;
    while k < 7
        invariant
            k <= 7,
            out@.len() == k,
            start == moved_back(today_start, 6 * DAY_WIDTH_MS),
            forall|j: int|
                0 <= j < k ==> (#[trigger] out@[j])@ == bucket(
                    log_views(logs@),
                    start as int,
                    DAY_WIDTH_MS as int,
                    j,
                    day_label(dates@[j].0, dates@[j].1),
                ),
        decreases 7 - k,
    {
        let date = dates[k as usize];
        let mut label = String::new();
        push_decimal(&mut label, date.0 as u64);
        label.append("月");
        push_decimal(&mut label, date.1 as u64);
        label.append("日");
        proof {
            assert(label@ =~= day_label(date.0, date.1));
        }
        out.push(point(logs, start, 86_400_000, k, label));
        k += 1;
    }
    out
}

/// The weekly series that ends today: four buckets of seven days, from 28
/// days before `today_end` on.
pub fn weekly_stats_at(logs: &Vec<RequestLog>, today_end: i64) -> (r: Vec<TokenDataPoint>)
    ensures
        is_weekly_series(point_views(r@), log_views(logs@), today_end),
{
    let start = move_back(today_end, 28 * 86_400_000);
    let mut out: Vec<TokenDataPoint> = Vec::new();
    let mut k: u8 = 0;
    while k < 4
        invariant
            k <= 4,
            out@.len() == k,
            start == moved_back(today_end, 28 * DAY_WIDTH_MS),
            forall|j: int|
                0 <= j < k ==> (#[trigger] out@[j])@ == bucket(
                    log_views(logs@),
                    start as int,
                    WEEK_MS as int,
                    j,
                    week_label((j + 1) as nat),
                ),
        decreases 4 - k,
    {
        let mut label = String::from_str("第");
        push_decimal(&mut label, (k + 1) as u64);
        label.append("周");
        proof {
            assert(label@ =~= week_label((k + 1) as nat));
        }
        out.push(point(logs, start, 604_800_000, k, label));
        k += 1;
    }
    out
}

/// The monthly series of a year: twelve buckets, one for each calendar
/// month. `starts` gives the start of each month and, last, of the next
/// year.
pub fn monthly_stats_at(logs: &Vec<RequestLog>, starts: &[i64; 13]) -> (r: Vec<TokenDataPoint>)
    ensures
        is_monthly_series(point_views(r@), log_views(logs@), starts@),
{
    let mut out: Vec<TokenDataPoint> = Vec::new();
    let mut k: u8 = 0;
    while k < 12
        invariant
            k <= 12,
            out@.len() == k,
            forall|j: int|
                0 <= j < k ==> (#[trigger] out@[j])@ == window_point(
                    log_views(logs@),
                    starts@[j] as int,
                    starts@[j + 1] as int,
                    month_label((j + 1) as nat),
                ),
        decreases 12 - k,
    {
        let mut label = String::new();
        push_decimal(&mut label, (k + 1) as u64);
        label.append("月");
        proof {
            assert(label@ =~= month_label((k + 1) as nat));
        }
        let from = starts[k as usize];
        let to = starts[(k + 1) as usize];
        let sums = window_sums(logs, from as i128, to as i128);
        out.push(TokenDataPoint { label, tokens: sums.tokens, cache_read_tokens: sums.cache_reads });
        k += 1;
    }
    out
}

/// The buckets of a series follow each other in time: each begins where the
/// one before it ends.
pub proof fn lemma_buckets_ascend(start: int, width: int, k: int)
    requires
        width > 0,
    ensures
        start + k * width < start + (k + 1) * width,
        start + (k + 1) * width == start + k * width + width,
{
    assert(start + (k + 1) * width == start + k * width + width) by (nonlinear_arith);
}

/// The number of buckets of a range: 13 for `hour`, 7 for `day`, 4 for
/// `week`, 12 for `month`.
pub open spec fn series_len(name: Seq<char>) -> Option<nat> {
    if name == "hour"@ {
        Some(13nat)
    } else if name == "day"@ {
        Some(7nat)
    } else if name == "week"@ {
        Some(4nat)
    } else if name == "month"@ {
        Some(12nat)
    } else {
        None
    }
}

/// The start of bucket `k` of a series that starts at `start` with buckets
/// of the given width, where it is a moment of the clock.
pub open spec fn bucket_start(start: i64, k: u8, width: i64) -> Option<i64> {
    let exact = start + k * width;
    if i64::MIN <= exact <= i64::MAX {
        Some(exact as i64)
    } else {
        None
    }
}

/// The start of bucket `k` of a series.
pub fn bucket_moment(start: i64, k: u8, width: i64) -> (r: Option<i64>)
    ensures
        r == bucket_start(start, k, width),
{
    assert(-255 * 0x8000_0000_0000_0000 <= (k as int) * (width as int) <= 255
        * 0x8000_0000_0000_0000) by (nonlinear_arith)
        requires
            0 <= k <= 255,
            -0x8000_0000_0000_0000 <= width <= 0x7fff_ffff_ffff_ffff,
    ;
    let exact: i128 = (start as i128) + (k as i128) * (width as i128);
    if exact > 0x7fff_ffff_ffff_ffff || exact < -0x8000_0000_0000_0000 {
        None
    } else {
        Some(exact as i64)
    }
}

fn hour_at(start: i64, k: u8) -> (r: Result<u32, String>)
    requires
        k < 13,
    ensures
        is_hour_of_bucket(start, k, r),
{
    match bucket_moment(start, k, 3_600_000) {
        Some(moment) => found_or(local_hour_of(moment), "Failed to create time from timestamp"),
        None => Err(String::from_str("Failed to create time from timestamp")),
    }
}

fn date_at(start: i64, k: u8) -> (r: Result<(u32, u32), String>)
    requires
        k < 7,
    ensures
        is_date_of_bucket(start, k, r),
{
    match bucket_moment(start, k, 86_400_000) {
        Some(moment) => found_or(
            local_month_day_of(moment),
            "Failed to create date from timestamp",
        ),
        None => Err(String::from_str("Failed to create date from timestamp")),
    }
}

/// True when `r` is what asking for the local hour of bucket `k` can give,
/// in an hourly series that starts at `start`: an hour of the day, and that
/// only where the bucket begins within the range of the clock; else the
/// failure that is reported.
pub open spec fn is_hour_of_bucket(start: i64, k: u8, r: Result<u32, String>) -> bool {
    match r {
        Ok(hour) => hour <= 23 && bucket_start(start, k, HOUR_MS) is Some,
        Err(e) => e@ == "Failed to create time from timestamp"@,
    }
}

/// True when `r` is what asking for the local date of bucket `k` can give,
/// in a daily series that starts at `start`: a month and a day of the month,
/// and that only where the bucket begins within the range of the clock; else
/// the failure that is reported.
pub open spec fn is_date_of_bucket(start: i64, k: u8, r: Result<(u32, u32), String>) -> bool {
    match r {
        Ok(date) => {
            &&& 1 <= date.0 <= 12
            &&& 1 <= date.1 <= 31
            &&& bucket_start(start, k, DAY_WIDTH_MS) is Some
        },
        Err(e) => e@ == "Failed to create date from timestamp"@,
    }
}

/// True when `points` is the series of the named range for some moment: the
/// hourly series around some hour, the daily or weekly series that ends on
/// some day, or the monthly series of some year.
pub open spec fn is_series_of(
    name: Seq<char>,
    points: Seq<TokenDataPointView>,
    rows: Seq<RequestLogView>,
) -> bool {
    if name == "hour"@ {
        exists|current: i64, hours: Seq<u32>|
            #[trigger] is_hourly_series(points, rows, current, hours)
    } else if name == "day"@ {
        exists|today_start: i64, dates: Seq<(u32, u32)>|
            #[trigger] is_daily_series(points, rows, today_start, dates)
    } else if name == "week"@ {
        exists|today_end: i64| #[trigger] is_weekly_series(points, rows, today_end)
    } else if name == "month"@ {
        exists|starts: Seq<i64>| #[trigger] is_monthly_series(points, rows, starts)
    } else {
        false
    }
}

/// What is reported when the current hour cannot be cut off at a step.
pub open spec fn hour_failure_of(step: HourStep) -> Seq<char> {
    match step {
        HourStep::Minute => "Failed to set minute to 0"@,
        HourStep::Second => "Failed to set second to 0"@,
        HourStep::Nanosecond => "Failed to set nanosecond to 0"@,
    }
}

/// The report for a step at which the current hour could not be cut off.
pub fn hour_failure(step: HourStep) -> (r: String)
    ensures
        r@ == hour_failure_of(step),
{
    match step {
        HourStep::Minute => String::from_str("Failed to set minute to 0"),
        HourStep::Second => String::from_str("Failed to set second to 0"),
        HourStep::Nanosecond => String::from_str("Failed to set nanosecond to 0"),
    }
}

/// The hourly series around the current local hour.
pub fn get_hourly_stats(logs: &Vec<RequestLog>) -> (r: Result<Vec<TokenDataPoint>, String>)
    ensures
        match r {
            Ok(points) => is_series_of("hour"@, point_views(points@), log_views(logs@)),
            Err(e) => (exists|step: HourStep| e@ == #[trigger] hour_failure_of(step)) || e@
                == "Failed to create time from timestamp"@,
        },
{
    proof {
        reveal_strlit("hour");
        reveal_strlit("day");
        reveal_strlit("week");
        reveal_strlit("month");
        assert("hour"@.len() == 4 && "day"@.len() == 3 && "week"@.len() == 4 && "month"@.len()
            == 5);
        assert("hour"@[0] == 'h' && "week"@[0] == 'w');
    }
    let current_hour = match local_hour_start() {
        Ok(moment) => moment,
        Err(step) => {
            return Err(hour_failure(step));
        },
    };
    let start = move_back(current_hour, 5 * 3_600_000);
    let mut hours: Vec<u32> = Vec::new();
    let mut k: u8 = 0;
    while k < 13
        invariant
            k <= 13,
            hours@.len() == k,
        decreases 13 - k,
    {
        match hour_at(start, k) {
            Ok(hour) => {
                hours.push(hour);
            },
            Err(e) => {
                return Err(e);
            },
        }
        k += 1;
    }
    let table: [u32; 13] = [
        hours[0],
        hours[1],
        hours[2],
        hours[3],
        hours[4],
        hours[5],
        hours[6],
        hours[7],
        hours[8],
        hours[9],
        hours[10],
        hours[11],
        hours[12],
    ];
    let points = hourly_stats_at(logs, current_hour, &table);
    assert(is_hourly_series(point_views(points@), log_views(logs@), current_hour, table@));
    Ok(points)
}

/// The daily series that ends today.
pub fn get_daily_stats(logs: &Vec<RequestLog>) -> (r: Result<Vec<TokenDataPoint>, String>)
    ensures
        match r {
            Ok(points) => is_series_of("day"@, point_views(points@), log_views(logs@)),
            Err(e) => e@ == "Failed to create today start timestamp"@ || e@
                == "Failed to create date from timestamp"@,
        },
{
    proof {
        reveal_strlit("hour");
        reveal_strlit("day");
        reveal_strlit("week");
        reveal_strlit("month");
        assert("hour"@.len() == 4 && "day"@.len() == 3 && "week"@.len() == 4 && "month"@.len()
            == 5);
        assert("hour"@[0] == 'h' && "week"@[0] == 'w');
    }
    let today_start = match get_today_start() {
        Ok(moment) => moment,
        Err(e) => {
            return Err(e);
        },
    };
    let start = move_back(today_start, 6 * 86_400_000);
    let mut dates: Vec<(u32, u32)> = Vec::new();
    let mut k: u8 = 0;
    while k < 7
        invariant
            k <= 7,
            dates@.len() == k,
        decreases 7 - k,
    {
        match date_at(start, k) {
            Ok(date) => {
                dates.push(date);
            },
            Err(e) => {
                return Err(e);
            },
        }
        k += 1;
    }
    let table: [(u32, u32); 7] = [
        dates[0],
        dates[1],
        dates[2],
        dates[3],
        dates[4],
        dates[5],
        dates[6],
    ];
    let points = daily_stats_at(logs, today_start, &table);
    assert(is_daily_series(point_views(points@), log_views(logs@), today_start, table@));
    Ok(points)
}

/// The weekly series that ends today.
pub fn get_weekly_stats(logs: &Vec<RequestLog>) -> (r: Result<Vec<TokenDataPoint>, String>)
    ensures
        match r {
            Ok(points) => is_series_of("week"@, point_views(points@), log_views(logs@)),
            Err(e) => e@ == "Failed to create today end timestamp"@,
        },
{
    proof {
        reveal_strlit("hour");
        reveal_strlit("day");
        reveal_strlit("week");
        reveal_strlit("month");
        assert("hour"@.len() == 4 && "day"@.len() == 3 && "week"@.len() == 4 && "month"@.len()
            == 5);
        assert("hour"@[0] == 'h' && "week"@[0] == 'w');
    }
    match get_today_end() {
        Ok(today_end) => {
            let points = weekly_stats_at(logs, today_end);
            assert(is_weekly_series(point_views(points@), log_views(logs@), today_end));
            Ok(points)
        },
        Err(e) => Err(e),
    }
}

/// The start of month `k + 1` of a year, or of the next year for `k`
/// twelve, as the local calendar gives it.
fn month_start_at(year: i32, k: u8) -> (r: Result<i64, String>)
    ensures
        r matches Err(e) ==> e@ == "Failed to create month start timestamp"@,
        month_start_of(year, k) is None ==> r is Err,
{
    match month_start_fields(year, k) {
        Some(fields) => moment_of(fields, "Failed to create month start timestamp"),
        None => Err(String::from_str("Failed to create month start timestamp")),
    }
}

/// The monthly series of this year: one bucket for each calendar month, from
/// 1 January on.
pub fn get_monthly_stats(logs: &Vec<RequestLog>) -> (r: Result<Vec<TokenDataPoint>, String>)
    ensures
        match r {
            Ok(points) => is_series_of("month"@, point_views(points@), log_views(logs@)),
            Err(e) => e@ == "Failed to create month start timestamp"@,
        },
{
    proof {
        reveal_strlit("hour");
        reveal_strlit("day");
        reveal_strlit("week");
        reveal_strlit("month");
        assert("hour"@.len() == 4 && "day"@.len() == 3 && "week"@.len() == 4 && "month"@.len()
            == 5);
        assert("hour"@[0] == 'h' && "week"@[0] == 'w');
    }
    let (year, _, _) = local_today();
    let mut starts: Vec<i64> = Vec::new();
    let mut k: u8 = 0;
    while k < 13
        invariant
            k <= 13,
            starts@.len() == k,
        decreases 13 - k,
    {
        match month_start_at(year, k) {
            Ok(moment) => {
                starts.push(moment);
            },
            Err(e) => {
                return Err(e);
            },
        }
        k += 1;
    }
    let table: [i64; 13] = [
        starts[0],
        starts[1],
        starts[2],
        starts[3],
        starts[4],
        starts[5],
        starts[6],
        starts[7],
        starts[8],
        starts[9],
        starts[10],
        starts[11],
        starts[12],
    ];
    let points = monthly_stats_at(logs, &table);
    assert(is_monthly_series(point_views(points@), log_views(logs@), table@));
    Ok(points)
}

/// True for what is reported when the local calendar fails to give a moment
/// or a label of a series.
pub open spec fn is_calendar_failure(message: Seq<char>) -> bool {
    ||| exists|step: HourStep| message == #[trigger] hour_failure_of(step)
    ||| message == "Failed to create time from timestamp"@
    ||| message == "Failed to create date from timestamp"@
    ||| message == "Failed to create today start timestamp"@
    ||| message == "Failed to create today end timestamp"@
    ||| message == "Failed to create year start timestamp"@
    ||| message == "Failed to create month start timestamp"@
}

/// The token series of a range, from the rows of the log. A name that is no
/// range is refused; a series, where there is one, has the number of buckets
/// of its range. A range has a series unless the local calendar fails.
pub fn get_token_stats(time_range: &str, logs: &Vec<RequestLog>) -> (r: Result<
    Vec<TokenDataPoint>,
    String,
>)
    ensures
        r matches Ok(points) ==> series_len(time_range@) == Some(points@.len()),
        r matches Ok(points) ==> is_series_of(time_range@, point_views(points@), log_views(logs@)),
        series_len(time_range@) is None ==> (r matches Err(e) && e@ == "Invalid time range: "@
            + time_range@),
        series_len(time_range@) is Some ==> (r matches Err(e) ==> is_calendar_failure(e@)),
{
    proof {
        reveal_strlit("hour");
        reveal_strlit("day");
        reveal_strlit("week");
        reveal_strlit("month");
        assert("hour"@.len() == 4 && "day"@.len() == 3 && "week"@.len() == 4 && "month"@.len()
            == 5);
        assert("hour"@[0] == 'h' && "week"@[0] == 'w');
    }
    if str_eq(time_range, "hour") {
        get_hourly_stats(logs)
    } else if str_eq(time_range, "day") {
        get_daily_stats(logs)
    } else if str_eq(time_range, "week") {
        get_weekly_stats(logs)
    } else if str_eq(time_range, "month") {
        get_monthly_stats(logs)
    } else {
        Err(concat("Invalid time range: ", time_range))
    }
}

} // verus!
