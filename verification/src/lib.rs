//! Configuration, pattern resolution and metrics bookkeeping for an HTTP and
//! WebSocket stress-testing tool.

pub mod text;
pub mod time;
pub mod constants;
pub mod errors;
pub mod json;
pub mod address;
pub mod config;
pub mod message;
pub mod patterns;
pub mod common;
pub mod metrics;
pub mod client;
pub mod laws;
