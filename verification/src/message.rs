//! Message identifiers and the bookkeeping of a message awaiting its answer.

use vstd::prelude::*;
use crate::time::{Duration, Instant, MAX_DURATION_NANOS, elapsed_between};

verus! {

/// The identifier of a message: the `id` field of its JSON payload.
#[derive(Debug, Clone, PartialEq, Eq, Hash)]
pub struct MessageId(pub String);

impl MessageId {
    /// The identifier `s`.
    pub fn from(s: String) -> (m: MessageId)
        ensures
            m.0@ == s@,
    {
        MessageId(s)
    }

    /// The identifier as text.
    pub fn as_str(&self) -> (s: &str)
        ensures
            s@ == self.0@,
    {
        self.0.as_str()
    }
}

/// A sent message awaiting its response.
#[derive(Debug, Clone, Copy)]
pub struct PendingMessage {
    pub sent_at: Instant,
    pub timeout_at: Instant,
}

impl PendingMessage {
    /// A message sent at `now` that times out `timeout` later.
    pub fn new(now: Instant, timeout: Duration) -> (p: PendingMessage)
        requires
            now@ + timeout@ <= MAX_DURATION_NANOS,
        ensures
            p.sent_at == now,
            p.timeout_at@ == now@ + timeout@,
    {
        PendingMessage { sent_at: now, timeout_at: now.plus(timeout) }
    }

    /// The round-trip time of a response received at `response_received_at`
    /// (zero where that is before the send).
    pub fn calculate_rtt(&self, response_received_at: Instant) -> (d: Duration)
        ensures
            d@ == elapsed_between(response_received_at@, self.sent_at@),
    {
        response_received_at.duration_since(self.sent_at)
    }
}

} // verus!
