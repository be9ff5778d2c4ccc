use prism_proxy::commands::{get_dashboard_stats as shown_dashboard, get_token_stats as shown_series};
use prism_proxy::db::stats::dashboard::{dashboard_stats_at, get_dashboard_stats};
use prism_proxy::clock::HourStep;
use prism_proxy::db::stats::time_range::{
    day_end_fields, day_start_fields, found_or, get_timestamp_for_range, get_today_end,
    get_today_start, get_year_start, moment_of, month_start_fields, move_back, range_start,
    year_start_fields, DateTimeFields,
};
use prism_proxy::db::stats::token_stats::{
    bucket_moment, daily_stats_at, get_token_stats, hour_failure, hourly_stats_at,
    monthly_stats_at, weekly_stats_at, window_sums,
};
use prism_proxy::logger::{ModelMode, RequestLog};

const HOUR: i64 = 3_600_000;
const DAY: i64 = 86_400_000;

fn row(id: &str, timestamp: i64, tokens: [i32; 4]) -> RequestLog {
    let mut r = RequestLog::with_identity(
        id.to_string(),
        timestamp,
        "pid".to_string(),
        "P".to_string(),
        "m".to_string(),
        ModelMode::Passthrough,
        "m".to_string(),
        "u".to_string(),
        0,
    );
    r.input_tokens = tokens[0];
    r.output_tokens = tokens[1];
    r.cache_creation_input_tokens = tokens[2];
    r.cache_read_input_tokens = tokens[3];
    r
}

#[test]
fn window_sums_count_the_rows_inside() {
    let logs = vec![
        row("a", 10, [1, 2, 3, 4]),
        row("b", 20, [10, 0, 0, 5]),
        row("c", 30, [100, 0, 0, 0]),
    ];
    let s = window_sums(&logs, 10, 30);
    assert_eq!((s.requests, s.tokens, s.cache_reads), (2, 25, 9));
    let none = window_sums(&logs, 31, 1000);
    assert_eq!((none.requests, none.tokens, none.cache_reads), (0, 0, 0));
    let empty = window_sums(&logs, 30, 10);
    assert_eq!(empty.requests, 0);
}

#[test]
fn window_sums_are_shown_within_range() {
    let logs = vec![row("a", 1, [i32::MAX, i32::MAX, 0, i32::MAX]), row("b", 1, [1, 0, 0, 1])];
    let s = window_sums(&logs, 0, 2);
    assert_eq!(s.tokens, i32::MAX);
    assert_eq!(s.cache_reads, i32::MAX);
    let low = vec![row("a", 1, [i32::MIN, i32::MIN, 0, 0])];
    assert_eq!(window_sums(&low, 0, 2).tokens, i32::MIN);
}

#[test]
fn hourly_series_has_thirteen_buckets_around_now() {
    let now = 1_700_000_000_000 / HOUR * HOUR;
    let hours = [19, 20, 21, 22, 23, 0, 1, 2, 3, 4, 5, 6, 7];
    let logs = vec![
        row("before", now - 5 * HOUR - 1, [9, 9, 9, 9]),
        row("first", now - 5 * HOUR, [1, 1, 0, 0]),
        row("current", now + 59, [0, 0, 2, 3]),
        row("current2", now + HOUR - 1, [10, 0, 0, 1]),
        row("last", now + 8 * HOUR - 1, [0, 7, 0, 0]),
        row("after", now + 8 * HOUR, [9, 9, 9, 9]),
    ];
    let points = hourly_stats_at(&logs, now, &hours);
    assert_eq!(points.len(), 13);
    let labels: Vec<&str> = points.iter().map(|p| p.label.as_str()).collect();
    assert_eq!(
        labels,
        vec![
            "19:00", "20:00", "21:00", "22:00", "23:00", "00:00", "01:00", "02:00", "03:00",
            "04:00", "05:00", "06:00", "07:00"
        ]
    );
    let tokens: Vec<i32> = points.iter().map(|p| p.tokens).collect();
    assert_eq!(tokens, vec![2, 0, 0, 0, 0, 16, 0, 0, 0, 0, 0, 0, 7]);
    let cache: Vec<i32> = points.iter().map(|p| p.cache_read_tokens).collect();
    assert_eq!(cache, vec![0, 0, 0, 0, 0, 4, 0, 0, 0, 0, 0, 0, 0]);
}

#[test]
fn daily_series_has_seven_buckets_ending_today() {
    let today = 1_700_000_000_000 / DAY * DAY;
    let dates = [(2, 27), (2, 28), (3, 1), (3, 2), (3, 3), (3, 4), (3, 5)];
    let logs = vec![
        row("a", today - 6 * DAY, [1, 0, 0, 0]),
        row("b", today - 1, [2, 0, 0, 0]),
        row("c", today, [4, 0, 0, 4]),
        row("d", today + DAY, [8, 0, 0, 0]),
        row("e", today - 6 * DAY - 1, [16, 0, 0, 0]),
    ];
    let points = daily_stats_at(&logs, today, &dates);
    assert_eq!(points.len(), 7);
    assert_eq!(points[0].label, "2月27日");
    assert_eq!(points[2].label, "3月1日");
    assert_eq!(points[6].label, "3月5日");
    let tokens: Vec<i32> = points.iter().map(|p| p.tokens).collect();
    assert_eq!(tokens, vec![1, 0, 0, 0, 0, 2, 8]);
    assert_eq!(points[6].cache_read_tokens, 4);
}

#[test]
fn weekly_series_has_four_buckets_ending_today() {
    let end = 1_700_000_000_000;
    let logs = vec![
        row("a", end - 28 * DAY, [1, 0, 0, 0]),
        row("b", end - 21 * DAY - 1, [2, 0, 0, 0]),
        row("c", end - 1, [4, 0, 0, 0]),
        row("d", end, [8, 0, 0, 0]),
        row("e", end - 14 * DAY, [16, 0, 0, 0]),
    ];
    let points = weekly_stats_at(&logs, end);
    let labels: Vec<&str> = points.iter().map(|p| p.label.as_str()).collect();
    assert_eq!(labels, vec!["第1周", "第2周", "第3周", "第4周"]);
    let tokens: Vec<i32> = points.iter().map(|p| p.tokens).collect();
    assert_eq!(tokens, vec![3, 0, 16, 4]);
}

fn month_starts_of_2024() -> [i64; 13] {
    let lengths: [i64; 12] = [31, 29, 31, 30, 31, 30, 31, 31, 30, 31, 30, 31];
    let mut starts = [1_704_067_200_000i64; 13];
    for k in 0..12 {
        starts[k + 1] = starts[k] + lengths[k] * DAY;
    }
    starts
}

#[test]
fn monthly_series_follows_the_calendar_months() {
    let starts = month_starts_of_2024();
    let start = starts[0];
    let logs = vec![
        row("a", start, [1, 0, 0, 0]),
        row("b", start + 30 * DAY, [2, 0, 0, 0]),
        row("c", start + 31 * DAY, [4, 0, 0, 0]),
        row("d", start + 366 * DAY - 1, [8, 0, 0, 1]),
        row("e", start + 366 * DAY, [16, 0, 0, 0]),
        row("f", start - 1, [32, 0, 0, 0]),
        row("g", starts[2] - 1, [64, 0, 0, 0]),
        row("h", start + 360 * DAY, [128, 0, 0, 0]),
    ];
    let points = monthly_stats_at(&logs, &starts);
    assert_eq!(points.len(), 12);
    assert_eq!(points[0].label, "1月");
    assert_eq!(points[9].label, "10月");
    assert_eq!(points[11].label, "12月");
    let tokens: Vec<i32> = points.iter().map(|p| p.tokens).collect();
    assert_eq!(tokens, vec![3, 68, 0, 0, 0, 0, 0, 0, 0, 0, 0, 137]);
    assert_eq!(points[11].cache_read_tokens, 1);
}

#[test]
fn a_row_of_today_counts_in_the_current_month() {
    let today = get_today_start().unwrap();
    let logs = vec![row("a", today, [1, 2, 3, 4])];
    let points = get_token_stats("month", &logs).unwrap();
    let month = chrono::Datelike::month(&chrono::Local::now()) as usize;
    let tokens: Vec<i32> = points.iter().map(|p| p.tokens).collect();
    let sum: i32 = tokens.iter().sum();
    assert_eq!(sum, 10);
    assert!(tokens[month - 1] == 10 || tokens[month % 12] == 10);
    let year_start = get_year_start().unwrap();
    let first = get_token_stats("month", &vec![row("b", year_start, [5, 0, 0, 0])]).unwrap();
    assert_eq!(first[0].tokens, 5);
    let before = get_token_stats("month", &vec![row("c", year_start - 1, [5, 0, 0, 0])]).unwrap();
    assert!(before.iter().all(|p| p.tokens == 0));
}

#[test]
fn bucket_moments_are_exact() {
    assert_eq!(bucket_moment(100, 3, 10), Some(130));
    assert_eq!(bucket_moment(100, 0, 10), Some(100));
    assert_eq!(bucket_moment(-5 * HOUR, 12, HOUR), Some(7 * HOUR));
    assert_eq!(bucket_moment(1_704_067_200_000, 6, DAY), Some(1_704_067_200_000 + 6 * DAY));
    assert_eq!(bucket_moment(i64::MAX, 1, 1), None);
    assert_eq!(bucket_moment(i64::MAX, 0, 1), Some(i64::MAX));
    assert_eq!(bucket_moment(i64::MIN, 1, -1), None);
    assert_eq!(bucket_moment(i64::MAX - 12 * HOUR, 12, HOUR), Some(i64::MAX));
    assert_eq!(bucket_moment(0, 255, i64::MAX), None);
}

#[test]
fn calendar_fields_are_exact() {
    let day = (2024, 2, 29);
    assert_eq!(
        day_start_fields(day),
        DateTimeFields { year: 2024, month: 2, day: 29, hour: 0, minute: 0, second: 0 }
    );
    assert_eq!(
        day_end_fields(day),
        DateTimeFields { year: 2024, month: 2, day: 29, hour: 23, minute: 59, second: 59 }
    );
    assert_eq!(
        year_start_fields(day),
        DateTimeFields { year: 2024, month: 1, day: 1, hour: 0, minute: 0, second: 0 }
    );
    assert_eq!(
        month_start_fields(2024, 0),
        Some(DateTimeFields { year: 2024, month: 1, day: 1, hour: 0, minute: 0, second: 0 })
    );
    assert_eq!(
        month_start_fields(2024, 11),
        Some(DateTimeFields { year: 2024, month: 12, day: 1, hour: 0, minute: 0, second: 0 })
    );
    assert_eq!(
        month_start_fields(2024, 12),
        Some(DateTimeFields { year: 2025, month: 1, day: 1, hour: 0, minute: 0, second: 0 })
    );
    assert_eq!(month_start_fields(i32::MAX, 12), None);
    assert_eq!(month_start_fields(2024, 13), None);
}

#[test]
fn moments_come_from_the_fields() {
    let day = (2024, 1, 15);
    let start = moment_of(day_start_fields(day), "no start").unwrap();
    let end = moment_of(day_end_fields(day), "no end").unwrap();
    assert_eq!(end - start, 86_399_000);
    let year = moment_of(year_start_fields(day), "no year").unwrap();
    assert_eq!(start - year, 14 * DAY);
    let february = moment_of(month_start_fields(2024, 1).unwrap(), "no month").unwrap();
    assert_eq!(february - year, 31 * DAY);
    let no_such_day = DateTimeFields { year: 2023, month: 2, day: 29, hour: 0, minute: 0, second: 0 };
    assert_eq!(moment_of(no_such_day, "no such day"), Err("no such day".to_string()));
}

#[test]
fn each_step_of_the_hour_has_its_failure() {
    assert_eq!(hour_failure(HourStep::Minute), "Failed to set minute to 0");
    assert_eq!(hour_failure(HourStep::Second), "Failed to set second to 0");
    assert_eq!(hour_failure(HourStep::Nanosecond), "Failed to set nanosecond to 0");
}

#[test]
fn token_stats_have_the_length_of_their_range() {
    let logs = vec![row("a", 0, [1, 1, 1, 1])];
    assert_eq!(get_token_stats("hour", &logs).unwrap().len(), 13);
    assert_eq!(get_token_stats("day", &logs).unwrap().len(), 7);
    assert_eq!(get_token_stats("week", &logs).unwrap().len(), 4);
    assert_eq!(get_token_stats("month", &logs).unwrap().len(), 12);
    assert_eq!(get_token_stats("year", &logs).err(), Some("Invalid time range: year".to_string()));
    assert_eq!(get_token_stats("", &logs).err(), Some("Invalid time range: ".to_string()));
    let week = get_token_stats("week", &Vec::new()).unwrap();
    assert!(week.iter().all(|p| p.tokens == 0 && p.cache_read_tokens == 0));
    assert_eq!(week[0].label, "第1周");
    let hours = get_token_stats("hour", &logs).unwrap();
    assert!(hours.iter().all(|p| p.label.len() == 5 && p.label.ends_with(":00")));
}

#[test]
fn dashboard_counts_today_and_all_time() {
    let logs = vec![
        row("a", 99, [1, 2, 3, 4]),
        row("b", 100, [10, 0, 0, 0]),
        row("c", i64::MAX, [0, 5, 0, 0]),
        row("d", i64::MIN, [100, 0, 0, 0]),
    ];
    let s = dashboard_stats_at(&logs, 100);
    assert_eq!(s.today_requests, 2);
    assert_eq!(s.today_tokens, 15);
    assert_eq!(s.total_requests, 4);
    assert_eq!(s.total_tokens, 125);
    let empty = dashboard_stats_at(&Vec::new(), 0);
    assert_eq!(
        (empty.today_requests, empty.today_tokens, empty.total_requests, empty.total_tokens),
        (0, 0, 0, 0)
    );
    let now = get_dashboard_stats(&logs).unwrap();
    assert_eq!(now.total_requests, 4);
    assert_eq!(now.today_requests, 1);
}

#[test]
fn ranges_begin_where_they_should() {
    assert_eq!(range_start("hour", 1000, 2000, 3000), Some(1000));
    assert_eq!(range_start("day", 1_000_000_000, 0, 0), Some(1_000_000_000 - 6 * DAY));
    assert_eq!(range_start("week", 0, 5_000_000_000, 0), Some(5_000_000_000 - 28 * DAY));
    assert_eq!(range_start("month", 1, 2, 3), Some(3));
    assert_eq!(range_start("year", 1, 2, 3), None);
    assert_eq!(range_start("day", i64::MIN, 0, 0), Some(i64::MIN));
    assert_eq!(move_back(10, 3), 7);
    assert_eq!(move_back(i64::MAX, -1), i64::MAX);
}

#[test]
fn todays_anchors_are_in_order() {
    let start = get_today_start().unwrap();
    let end = get_today_end().unwrap();
    let year = get_year_start().unwrap();
    assert!(year <= start);
    assert!(start < end);
    assert!(end - start <= 25 * HOUR);
    assert!(start > 1_600_000_000_000);
    assert_eq!(get_timestamp_for_range("hour"), Ok(Some(start)));
    assert_eq!(get_timestamp_for_range("day"), Ok(Some(start - 6 * DAY)));
    assert_eq!(get_timestamp_for_range("week"), Ok(Some(end - 28 * DAY)));
    assert_eq!(get_timestamp_for_range("month"), Ok(Some(year)));
    assert_eq!(get_timestamp_for_range("all"), Ok(None));
}

#[test]
fn control_surface_shows_dashboard_and_series() {
    let logs = vec![row("a", 5, [1, 2, 3, 4]), row("b", i64::MAX, [1, 0, 0, 0])];
    let stats = shown_dashboard(&logs).unwrap();
    assert_eq!(stats.total_requests, 2);
    assert_eq!(stats.total_tokens, 11);
    assert_eq!(stats.today_requests, 1);
    assert_eq!(stats.today_tokens, 1);
    let months = shown_series("month", &logs).unwrap();
    assert_eq!(months.len(), 12);
    assert_eq!(months[0].label, "1月");
    assert_eq!(months[11].label, "12月");
    assert!(months.iter().all(|p| p.tokens == 0));
    assert_eq!(shown_series("hour", &logs).unwrap().len(), 13);
    assert_eq!(shown_series("x", &logs).err(), Some("Invalid time range: x".to_string()));
}

#[test]
fn daily_labels_name_month_and_day() {
    let days = get_token_stats("day", &Vec::new()).unwrap();
    assert_eq!(days.len(), 7);
    for point in &days {
        let (month, rest) = point.label.split_once('月').unwrap();
        let day = rest.strip_suffix('日').unwrap();
        let month: u32 = month.parse().unwrap();
        let day: u32 = day.parse().unwrap();
        assert!((1..=12).contains(&month));
        assert!((1..=31).contains(&day));
    }
}

#[test]
fn what_the_calendar_found_is_handed_on() {
    assert_eq!(found_or(Some(42i64), "nothing"), Ok(42));
    assert_eq!(found_or(Some((3u32, 5u32)), "nothing"), Ok((3, 5)));
    assert_eq!(found_or(None::<i64>, "nothing found"), Err("nothing found".to_string()));
}
