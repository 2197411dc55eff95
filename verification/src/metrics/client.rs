//! Metrics of one client.

use vstd::prelude::*;
use std::collections::HashMap;
use crate::common::ClientId;
use crate::time::{Duration, NANOS_PER_MILLI};

verus! {

broadcast use vstd::std_specs::hash::group_hash_axioms;

/// The metrics of one client. Counters are `u64` and wrap on overflow, as
/// `u64` addition does in a release build.
#[derive(Debug)]
pub struct ClientMetrics {
    pub client_id: ClientId,
    pub messages_sent: u64,
    pub messages_received: u64,
    pub messages_failed: u64,
    pub connection_errors: u64,
    pub total_rtt_ms: u64,
    pub min_rtt_ms: Option<u64>,
    pub max_rtt_ms: Option<u64>,
    pub http_connections_created: u64,
    pub http_connections_reused: u64,
    pub http_status_codes: HashMap<u16, u64>,
    pub total_clients: u32,
}

/// `a + 1` in wrapping `u64` arithmetic.
pub open spec fn bump(a: u64) -> u64 {
    vstd::wrapping::u64_specs::wrapping_add(a, 1)
}

/// A round-trip time in whole milliseconds, capped at `u64::MAX`.
pub open spec fn rtt_millis(rtt: Duration) -> u64 {
    let ms = rtt@ / (NANOS_PER_MILLI as nat);
    if ms <= u64::MAX {
        ms as u64
    } else {
        u64::MAX
    }
}

/// The status-code counts after one more response with `code`.
pub open spec fn count_code(m: Map<u16, u64>, code: u16) -> Map<u16, u64> {
    m.insert(
        code,
        if m.contains_key(code) {
            bump(m[code])
        } else {
            1
        },
    )
}

/// All fields of `a` and `b` agree, status codes by their contents.
pub open spec fn same_metrics(a: ClientMetrics, b: ClientMetrics) -> bool {
    &&& a.client_id == b.client_id
    &&& a.messages_sent == b.messages_sent
    &&& a.messages_received == b.messages_received
    &&& a.messages_failed == b.messages_failed
    &&& a.connection_errors == b.connection_errors
    &&& a.total_rtt_ms == b.total_rtt_ms
    &&& a.min_rtt_ms == b.min_rtt_ms
    &&& a.max_rtt_ms == b.max_rtt_ms
    &&& a.http_connections_created == b.http_connections_created
    &&& a.http_connections_reused == b.http_connections_reused
    &&& a.http_status_codes@ == b.http_status_codes@
    &&& a.total_clients == b.total_clients
}

/// `m` is the fresh metrics of `client_id` in a test of `total_clients`
/// clients: all counters zero, no round-trip times, no status codes.
pub open spec fn is_fresh(m: ClientMetrics, client_id: ClientId, total_clients: u32) -> bool {
    &&& m.client_id == client_id
    &&& m.messages_sent == 0
    &&& m.messages_received == 0
    &&& m.messages_failed == 0
    &&& m.connection_errors == 0
    &&& m.total_rtt_ms == 0
    &&& m.min_rtt_ms is None
    &&& m.max_rtt_ms is None
    &&& m.http_connections_created == 0
    &&& m.http_connections_reused == 0
    &&& m.http_status_codes@ == Map::<u16, u64>::empty()
    &&& m.total_clients == total_clients
}

/// The round-trip statistics are consistent: a minimum and a maximum exist
/// once a response was received, and the minimum is at most the maximum.
pub open spec fn rtt_consistent(m: ClientMetrics) -> bool {
    &&& (m.min_rtt_ms is Some <==> m.max_rtt_ms is Some)
    &&& (m.messages_received == 0 ==> m.min_rtt_ms is None)
    &&& (m.min_rtt_ms matches Some(lo) ==> m.max_rtt_ms matches Some(hi) && lo <= hi)
}

/// The events that a client's metrics record.
#[derive(Debug, Clone, Copy)]
pub enum MetricEvent {
    /// A message was sent.
    Sent,
    /// A response arrived this long after its message was sent.
    Success(Duration),
    /// A message failed.
    Failure,
    /// A connection failed.
    ConnectionError,
    /// A new HTTP connection was opened.
    HttpConnectionCreated,
    /// An HTTP connection was reused.
    HttpConnectionReused,
    /// An HTTP response had this status code.
    HttpStatus(u16),
}

/// `new` is `old` with the event `e` recorded.
pub open spec fn recorded(e: MetricEvent, new: ClientMetrics, old: ClientMetrics) -> bool {
    match e {
        MetricEvent::Sent => same_metrics(new, ClientMetrics { messages_sent: bump(old.messages_sent), ..old }),
        MetricEvent::Success(rtt) => same_metrics(new, after_success(old, rtt)),
        MetricEvent::Failure => same_metrics(
            new,
            ClientMetrics { messages_failed: bump(old.messages_failed), ..old },
        ),
        MetricEvent::ConnectionError => same_metrics(
            new,
            ClientMetrics { connection_errors: bump(old.connection_errors), ..old },
        ),
        MetricEvent::HttpConnectionCreated => same_metrics(
            new,
            ClientMetrics { http_connections_created: bump(old.http_connections_created), ..old },
        ),
        MetricEvent::HttpConnectionReused => same_metrics(
            new,
            ClientMetrics { http_connections_reused: bump(old.http_connections_reused), ..old },
        ),
        MetricEvent::HttpStatus(code) => new.http_status_codes@ == count_code(
            old.http_status_codes@,
            code,
        ) && same_metrics(new, ClientMetrics { http_status_codes: new.http_status_codes, ..old }),
    }
}

/// `m` after a response that took `rtt`: one more response, its
/// milliseconds added to the total, and the minimum and maximum updated.
pub open spec fn after_success(m: ClientMetrics, rtt: Duration) -> ClientMetrics {
    let ms = rtt_millis(rtt);
    ClientMetrics {
        messages_received: bump(m.messages_received),
        total_rtt_ms: vstd::wrapping::u64_specs::wrapping_add(m.total_rtt_ms, ms),
        min_rtt_ms: Some(
            match m.min_rtt_ms {
                Some(lo) => if lo <= ms {
                    lo
                } else {
                    ms
                },
                None => ms,
            },
        ),
        max_rtt_ms: Some(
            match m.max_rtt_ms {
                Some(hi) => if hi >= ms {
                    hi
                } else {
                    ms
                },
                None => ms,
            },
        ),
        ..m
    }
}

/// The quotient `num / den` of two counts, which the caller divides in
/// whatever number type it prints. A zero `den` stands for the quotient
/// that such a division gives.
#[derive(Debug, Clone, Copy)]
pub struct Ratio {
    pub num: u128,
    pub den: u128,
}

impl Clone for ClientMetrics {
    fn clone(&self) -> (c: Self)
        ensures
            same_metrics(c, *self),
    {
        ClientMetrics {
            client_id: self.client_id,
            messages_sent: self.messages_sent,
            messages_received: self.messages_received,
            messages_failed: self.messages_failed,
            connection_errors: self.connection_errors,
            total_rtt_ms: self.total_rtt_ms,
            min_rtt_ms: self.min_rtt_ms,
            max_rtt_ms: self.max_rtt_ms,
            http_connections_created: self.http_connections_created,
            http_connections_reused: self.http_connections_reused,
            http_status_codes: self.http_status_codes.clone(),
            total_clients: self.total_clients,
        }
    }
}

impl ClientMetrics {
    /// Fresh metrics for `client_id`: all counters zero, no round-trip
    /// times, one participating client.
    pub fn new(client_id: ClientId) -> (m: ClientMetrics)
        ensures
            is_fresh(m, client_id, 1),
            rtt_consistent(m),
    {
        ClientMetrics {
            client_id,
            messages_sent: 0,
            messages_received: 0,
            messages_failed: 0,
            connection_errors: 0,
            total_rtt_ms: 0,
            min_rtt_ms: None,
            max_rtt_ms: None,
            http_connections_created: 0,
            http_connections_reused: 0,
            http_status_codes: HashMap::new(),
            total_clients: 1,
        }
    }

    /// Records a response received `rtt` after its message was sent.
    pub fn record_success(&mut self, rtt: Duration)
        ensures
            recorded(MetricEvent::Success(rtt), *final(self), *old(self)),
    {
        let ms = rtt.as_millis();
        let rtt_ms: u64 = if ms <= u64::MAX as u128 {
            ms as u64
        } else {
            u64::MAX
        };
        self.messages_received = self.messages_received.wrapping_add(1);
        self.total_rtt_ms = self.total_rtt_ms.wrapping_add(rtt_ms);
        self.min_rtt_ms = Some(
            match self.min_rtt_ms {
                Some(min) => if min <= rtt_ms {
                    min
                } else {
                    rtt_ms
                },
                None => rtt_ms,
            },
        );
        self.max_rtt_ms = Some(
            match self.max_rtt_ms {
                Some(max) => if max >= rtt_ms {
                    max
                } else {
                    rtt_ms
                },
                None => rtt_ms,
            },
        );
    }

    /// Records a sent message.
    pub fn record_sent(&mut self)
        ensures
            recorded(MetricEvent::Sent, *final(self), *old(self)),
    {
        self.messages_sent = self.messages_sent.wrapping_add(1);
    }

    /// Records a failed message.
    pub fn record_failure(&mut self)
        ensures
            recorded(MetricEvent::Failure, *final(self), *old(self)),
    {
        self.messages_failed = self.messages_failed.wrapping_add(1);
    }

    /// Records a connection error.
    pub fn record_connection_error(&mut self)
        ensures
            recorded(MetricEvent::ConnectionError, *final(self), *old(self)),
    {
        self.connection_errors = self.connection_errors.wrapping_add(1);
    }

    /// Records a newly created HTTP connection.
    pub fn record_http_connection_created(&mut self)
        ensures
            recorded(MetricEvent::HttpConnectionCreated, *final(self), *old(self)),
    {
        self.http_connections_created = self.http_connections_created.wrapping_add(1);
    }

    /// Records a reused HTTP connection.
    pub fn record_http_connection_reused(&mut self)
        ensures
            recorded(MetricEvent::HttpConnectionReused, *final(self), *old(self)),
    {
        self.http_connections_reused = self.http_connections_reused.wrapping_add(1);
    }

    /// Records one more response with the HTTP status `status_code`.
    pub fn record_http_status_code(&mut self, status_code: u16)
        ensures
            recorded(MetricEvent::HttpStatus(status_code), *final(self), *old(self)),
    {
        let count = match self.http_status_codes.get(&status_code) {
            Some(c) => c.wrapping_add(1),
            None => 1,
        };
        self.http_status_codes.insert(status_code, count);
    }

    /// Messages attempted: sent plus failed (wrapping).
    pub fn total_attempted(&self) -> (n: u64)
        ensures
            n == vstd::wrapping::u64_specs::wrapping_add(self.messages_sent, self.messages_failed),
    {
        self.messages_sent.wrapping_add(self.messages_failed)
    }

    /// Whether the client attempted a message or had a connection error.
    pub fn has_activity(&self) -> (b: bool)
        ensures
            b == (vstd::wrapping::u64_specs::wrapping_add(self.messages_sent, self.messages_failed)
                > 0 || self.connection_errors > 0),
    {
        self.total_attempted() > 0 || self.connection_errors > 0
    }

    /// The success rate in percent, as a quotient: 100 when nothing was
    /// sent; otherwise the responses per message sent, times 100, where in
    /// a broadcast test (more than one client) each response is counted as
    /// one share of the number of clients.
    pub fn success_ratio(&self) -> (r: Ratio)
        ensures
            self.messages_sent == 0 ==> r.num == 100 && r.den == 1,
            self.messages_sent > 0 && self.total_clients > 1 ==> r.num == 100 * self.messages_received
                && r.den == self.total_clients * self.messages_sent,
            self.messages_sent > 0 && self.total_clients <= 1 ==> r.num == 100 * self.messages_received
                && r.den == self.messages_sent,
    {
        if self.messages_sent == 0 {
            return Ratio { num: 100, den: 1 };
        }
        let num = 100 * (self.messages_received as u128);
        if self.total_clients > 1 {
            assert((self.total_clients as u128) * (self.messages_sent as u128) <= 0xffff_ffffu128 * 0xffff_ffff_ffff_ffffu128) by (nonlinear_arith)
                requires
                    self.total_clients <= 0xffff_ffffu32,
                    self.messages_sent <= 0xffff_ffff_ffff_ffffu64,
            ;
            Ratio { num, den: (self.total_clients as u128) * (self.messages_sent as u128) }
        } else {
            Ratio { num, den: self.messages_sent as u128 }
        }
    }

    /// The mean round-trip time in milliseconds, as a quotient: the total
    /// over the number of responses, or zero without responses.
    pub fn avg_rtt_ratio(&self) -> (r: Ratio)
        ensures
            self.messages_received == 0 ==> r.num == 0 && r.den == 1,
            self.messages_received > 0 ==> r.num == self.total_rtt_ms && r.den == self.messages_received,
    {
        if self.messages_received == 0 {
            Ratio { num: 0, den: 1 }
        } else {
            Ratio { num: self.total_rtt_ms as u128, den: self.messages_received as u128 }
        }
    }
}

} // verus!
