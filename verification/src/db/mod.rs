//! The telemetry store: the request log and what is derived from it.

pub mod config;
pub mod logs;
pub mod stats;
