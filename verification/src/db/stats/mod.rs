//! What the dashboard derives from the request log.

pub mod dashboard;
pub mod ranking;
pub mod shares;
pub mod time_range;
pub mod token_stats;
pub mod types;
