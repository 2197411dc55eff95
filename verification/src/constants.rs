//! Application-wide constants.

use vstd::prelude::*;

verus! {

/// The most clients a test may run.
pub const MAX_CLIENTS_LIMIT: u32 = 10_000;

/// Connection attempts a WebSocket client makes before it gives up.
pub const MAX_RECONNECT_ATTEMPTS: u32 = 5;

/// The wait before the first reconnection attempt, in milliseconds.
pub const INITIAL_BACKOFF_MS: u64 = 1_000;

/// Capacity of the channels between a WebSocket client and its tasks.
pub const CHANNEL_BUFFER_SIZE: usize = 100;

/// Delay between the starts of two clients, in milliseconds.
pub const CLIENT_START_DELAY_MS: u64 = 10;

/// Period of the check for timed-out messages, in seconds.
pub const TIMEOUT_CHECK_INTERVAL_SECS: u64 = 1;

/// How long a test without a duration may run before it is cut, in minutes.
pub const DEFAULT_GLOBAL_TIMEOUT_MINUTES: u64 = 5;

/// Extra time granted to clients to finish, in seconds.
pub const EXTRA_CLEANUP_TIME_SECONDS: u64 = 30;

/// Period of the progress dots, in milliseconds.
pub const PROGRESS_DOT_INTERVAL_MS: u64 = 500;

/// Number of sent requests between two sweeps for timed-out requests.
pub const BULK_TIMEOUT_CLEANUP_INTERVAL: u64 = 50;

/// Number of sent requests between two debug log lines.
pub const DEBUG_LOG_INTERVAL: u64 = 100;

} // verus!
