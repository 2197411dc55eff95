//! Metrics of a stress test: per client, and over all clients.

pub mod client;
pub mod totals;
pub mod aggregate;

pub mod reporting;
