//! The numbers at the head of the dashboard.

use vstd::prelude::*;

use crate::db::logs::log_views;
use crate::db::stats::time_range::get_today_start;
use crate::db::stats::token_stats::window_sums;
use crate::db::stats::types::{end_of_time, requests_in, shown, tokens_in, DashboardStats};
use crate::logger::{RequestLog, RequestLogView};

verus! {

/// The dashboard numbers of a log on a day that starts at `today_start`:
/// the requests and tokens since then, and those of all time.
pub open spec fn dashboard_of(rows: Seq<RequestLogView>, today_start: i64) -> DashboardStats {
    DashboardStats {
        today_requests: shown(
            requests_in(rows, today_start as int, end_of_time(), rows.len() as int),
        ),
        today_tokens: shown(tokens_in(rows, today_start as int, end_of_time(), rows.len() as int)),
        total_requests: shown(rows.len() as int),
        total_tokens: shown(tokens_in(rows, i64::MIN as int, end_of_time(), rows.len() as int)),
    }
}

/// Every row is a request of all time.
pub proof fn lemma_all_rows_count(rows: Seq<RequestLogView>, upto: int)
    requires
        0 <= upto <= rows.len(),
    ensures
        requests_in(rows, i64::MIN as int, end_of_time(), upto) == upto,
    decreases upto,
{
    if upto > 0 {
        lemma_all_rows_count(rows, upto - 1);
    }
}

/// The dashboard numbers of a log on a day that starts at `today_start`.
pub fn dashboard_stats_at(logs: &Vec<RequestLog>, today_start: i64) -> (r: DashboardStats)
    ensures
        r == dashboard_of(log_views(logs@), today_start),
{
    let today = window_sums(logs, today_start as i128, 0x8000_0000_0000_0000);
    let total = window_sums(logs, -0x8000_0000_0000_0000, 0x8000_0000_0000_0000);
    proof {
        lemma_all_rows_count(log_views(logs@), logs@.len() as int);
    }
    DashboardStats {
        today_requests: today.requests,
        today_tokens: today.tokens,
        total_requests: total.requests,
        total_tokens: total.tokens,
    }
}

/// Today's dashboard numbers of a log.
pub fn get_dashboard_stats(logs: &Vec<RequestLog>) -> (r: Result<DashboardStats, String>)
    ensures
        match r {
            Ok(stats) => exists|today_start: i64|
                stats == dashboard_of(log_views(logs@), today_start),
            Err(e) => e@ == "Failed to create today start timestamp"@,
        },
{
    match get_today_start() {
        Ok(today_start) => Ok(dashboard_stats_at(logs, today_start)),
        Err(e) => Err(e),
    }
}

} // verus!
