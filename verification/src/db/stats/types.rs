//! The records of the dashboard.

use vstd::prelude::*;

use crate::logger::RequestLogView;

verus! {

/// The numbers at the head of the dashboard.
#[derive(Debug, Clone, Copy, PartialEq, Eq, Structural)]
pub struct DashboardStats {
    pub today_requests: i32,
    pub today_tokens: i32,
    pub total_requests: i32,
    pub total_tokens: i32,
}

/// One point of a token series.
#[derive(Debug)]
pub struct TokenDataPoint {
    pub label: String,
    pub tokens: i32,
    /// The tokens that were read from the cache.
    pub cache_read_tokens: i32,
}

/// The mathematical content of a [`TokenDataPoint`].
pub struct TokenDataPointView {
    pub label: Seq<char>,
    pub tokens: i32,
    pub cache_read_tokens: i32,
}

impl View for TokenDataPoint {
    type V = TokenDataPointView;

    open spec fn view(&self) -> TokenDataPointView {
        TokenDataPointView {
            label: self.label@,
            tokens: self.tokens,
            cache_read_tokens: self.cache_read_tokens,
        }
    }
}

/// The views of a series, in order.
pub open spec fn point_views(points: Seq<TokenDataPoint>) -> Seq<TokenDataPointView> {
    Seq::new(points.len(), |i: int| points[i]@)
}

/// A sum as the dashboard shows it: the sum itself, or the nearest value
/// that fits.
pub open spec fn shown(n: int) -> i32 {
    if n > i32::MAX {
        i32::MAX
    } else if n < i32::MIN {
        i32::MIN
    } else {
        n as i32
    }
}

/// All tokens of a row: input, output, and both cache counts.
pub open spec fn row_tokens(row: RequestLogView) -> int {
    row.input_tokens + row.output_tokens + row.cache_creation_input_tokens
        + row.cache_read_input_tokens
}

/// True when a row was written at or after `from` and before `to`.
pub open spec fn in_window(row: RequestLogView, from: int, to: int) -> bool {
    from <= row.timestamp < to
}

/// The number of rows in a window, among the first `upto`.
pub open spec fn requests_in(rows: Seq<RequestLogView>, from: int, to: int, upto: int) -> int
    decreases upto,
{
    if upto <= 0 {
        0
    } else {
        requests_in(rows, from, to, upto - 1) + if in_window(rows[upto - 1], from, to) {
            1int
        } else {
            0int
        }
    }
}

/// The tokens of the rows in a window, among the first `upto`.
pub open spec fn tokens_in(rows: Seq<RequestLogView>, from: int, to: int, upto: int) -> int
    decreases upto,
{
    if upto <= 0 {
        0
    } else {
        tokens_in(rows, from, to, upto - 1) + if in_window(rows[upto - 1], from, to) {
            row_tokens(rows[upto - 1])
        } else {
            0int
        }
    }
}

/// The cache-read tokens of the rows in a window, among the first `upto`.
pub open spec fn cache_reads_in(rows: Seq<RequestLogView>, from: int, to: int, upto: int) -> int
    decreases upto,
{
    if upto <= 0 {
        0
    } else {
        cache_reads_in(rows, from, to, upto - 1) + if in_window(rows[upto - 1], from, to) {
            rows[upto - 1].cache_read_input_tokens as int
        } else {
            0int
        }
    }
}

/// The first moment after the range of the clock: a window that ends here
/// has no end.
pub open spec fn end_of_time() -> int {
    i64::MAX + 1
}

} // verus!
