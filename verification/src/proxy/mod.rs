//! The reverse proxy: its listener configuration, the request rules and the
//! stream relay.

pub mod handler;
pub mod lifecycle;
pub mod proxy_config;
pub mod stream;
pub mod token_counter;
pub mod utils;
