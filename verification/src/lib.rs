//! Request-forwarding engine of a local reverse proxy for LLM APIs: the rules
//! by which requests are admitted, rewritten and accounted for, with their
//! contracts.
//!
//! - [`config`]: upstream profiles, model mapping, and the profile store.
//! - [`proxy`]: the auth gate and request rules, the header rules, the stream
//!   relay's bookkeeping, the local token counter, and the lifecycle
//!   controller of the listener.
//! - [`logger`] and [`db`]: the request log and what the dashboard derives
//!   from it.
//! - [`commands`]: what the control surface does to all of these.
//! - [`json`], [`text`], [`strs`], [`clock`], [`ident`]: JSON documents, text
//!   helpers, and the clock and random source.

pub mod clock;
pub mod commands;
pub mod config;
pub mod db;
pub mod ident;
pub mod json;
pub mod logger;
pub mod proxy;
pub mod strs;
pub mod text;
