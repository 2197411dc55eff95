//! Decisions of a WebSocket client.

use vstd::prelude::*;
use crate::config::{missing_id_message, Config};
use crate::constants::{INITIAL_BACKOFF_MS, MAX_RECONNECT_ATTEMPTS};
use crate::errors::BombError;
use crate::json::{json_document, JsonDocumentView, JsonFieldView};
use crate::message::MessageId;
use crate::time::{Duration, NANOS_PER_MILLI};

verus! {

/// What a client does after a failed connection attempt.
#[derive(Debug, Clone, Copy, PartialEq, Eq, Structural)]
pub enum ReconnectAction {
    /// Try again after this pause.
    Retry(Duration),
    /// Stop: the attempts are used up.
    GiveUp,
}

/// `2^n`.
pub open spec fn power_of_two(n: nat) -> nat
    decreases n,
{
    if n == 0 {
        1
    } else {
        2 * power_of_two((n - 1) as nat)
    }
}

/// The pause before attempt `failed_attempts + 1`: the initial backoff,
/// doubled for each failure after the first.
pub open spec fn backoff_millis(failed_attempts: u32) -> int {
    INITIAL_BACKOFF_MS * power_of_two(if failed_attempts > 0 {
        (failed_attempts - 1) as nat
    } else {
        0
    })
}

/// After `failed_attempts` failed connection attempts: give up once they
/// reach the maximum, else retry after an exponentially growing pause.
pub fn after_failed_attempt(failed_attempts: u32) -> (a: ReconnectAction)
    ensures
        failed_attempts >= MAX_RECONNECT_ATTEMPTS ==> a == ReconnectAction::GiveUp,
        failed_attempts < MAX_RECONNECT_ATTEMPTS ==> (a matches ReconnectAction::Retry(d) && d@
            == backoff_millis(failed_attempts) * NANOS_PER_MILLI),
{
    if failed_attempts >= MAX_RECONNECT_ATTEMPTS {
        return ReconnectAction::GiveUp;
    }
    let doublings = if failed_attempts > 0 {
        failed_attempts - 1
    } else {
        0
    };
    let factor: u64 = match doublings {
        0 => 1,
        1 => 2,
        2 => 4,
        _ => 8,
    };
    assert(factor == power_of_two(doublings as nat)) by {
        reveal_with_fuel(power_of_two, 4);
    }
    ReconnectAction::Retry(Duration::from_millis(INITIAL_BACKOFF_MS * factor))
}

/// What a text received from the server is to a client.
#[derive(Debug)]
pub enum Arrival {
    /// It came before the client sent anything: it is ignored.
    BeforeSending,
    /// No message ID could be read from it.
    Unreadable(BombError),
    /// It carries the message ID.
    Message(MessageId),
}

/// Reads a text received from the server: ignored until the client has
/// started sending, else the message ID that it carries in its string
/// field `id`, or why there is none.
pub fn read_arrival(has_started_sending: bool, received_json: &str) -> (a: Arrival)
    ensures
        !has_started_sending ==> a is BeforeSending,
        has_started_sending ==> match json_document(received_json@, "id"@) {
            JsonDocumentView::Malformed(e) => a matches Arrival::Unreadable(BombError::JsonSerialization(m))
                && m@ == e,
            JsonDocumentView::Object(JsonFieldView::Text(id)) => a matches Arrival::Message(m) && m.0@ == id,
            _ => a matches Arrival::Unreadable(BombError::Config(m)) && m@ == missing_id_message(),
        },
{
    if !has_started_sending {
        return Arrival::BeforeSending;
    }
    match Config::extract_message_id_typed(received_json) {
        Ok(id) => Arrival::Message(id),
        Err(e) => Arrival::Unreadable(e),
    }
}

} // verus!
