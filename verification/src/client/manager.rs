//! Decisions of the manager that runs the clients.

use vstd::prelude::*;
use crate::config::{Config, ConnectionMode, ProtocolConfig, WSMode};
use crate::constants::{DEFAULT_GLOBAL_TIMEOUT_MINUTES, EXTRA_CLEANUP_TIME_SECONDS};
use crate::time::{Duration, MAX_DURATION_NANOS, NANOS_PER_SEC};

verus! {

/// Whether the test shares one broadcast tracker between its clients: in
/// WebSocket broadcast mode only.
pub fn tracks_broadcasts(config: &Config) -> (b: bool)
    ensures
        b == (config.protocol == (ProtocolConfig::WebSocket { mode: WSMode::Broadcast })),
{
    match (config.connection_mode(), config.ws_mode()) {
        (ConnectionMode::Ws, Some(WSMode::Broadcast)) => true,
        _ => false,
    }
}

/// How many clients receive each message a WebSocket client sends: all of
/// them in broadcast mode, the sender alone in echo mode.
pub fn message_audience(config: &Config) -> (n: u32)
    ensures
        n == if config.protocol == (ProtocolConfig::WebSocket { mode: WSMode::Broadcast }) {
            config.client.count
        } else {
            1
        },
{
    match config.ws_mode() {
        Some(WSMode::Broadcast) => config.client.count,
        _ => 1,
    }
}

/// How long the manager waits for all clients: the test duration (five
/// minutes without one) plus thirty seconds of cleanup time.
pub fn global_timeout(config: &Config) -> (d: Duration)
    requires
        config.test.duration matches Some(t) ==> t@ + EXTRA_CLEANUP_TIME_SECONDS * NANOS_PER_SEC
            <= MAX_DURATION_NANOS,
    ensures
        d@ == match config.test.duration {
            Some(t) => t@ as int,
            None => DEFAULT_GLOBAL_TIMEOUT_MINUTES * 60 * NANOS_PER_SEC,
        } + EXTRA_CLEANUP_TIME_SECONDS * NANOS_PER_SEC,
{
    let base = match config.test_duration() {
        Some(t) => t,
        None => Duration::from_secs(DEFAULT_GLOBAL_TIMEOUT_MINUTES * 60),
    };
    base.plus(Duration::from_secs(EXTRA_CLEANUP_TIME_SECONDS))
}

} // verus!
