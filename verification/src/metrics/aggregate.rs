//! Metrics over all clients. The totals are `u64` counters that wrap on
//! overflow, as atomic counters do; the per-client metrics are kept by
//! client number. Sharing the metrics between concurrent clients is the
//! caller's business.

use vstd::prelude::*;
use std::collections::HashMap;
use vstd::std_specs::iter::IteratorSpec;
use crate::common::ClientId;
use crate::metrics::client::{bump, count_code, is_fresh, recorded, same_metrics, ClientMetrics, MetricEvent, Ratio};
use crate::metrics::totals::{lemma_sum_over_clients, lemma_wrapped_step, lists_clients, received_of, rtt_of, sum_over, sum_over_clients, wrapped, wrapped_total};
use crate::time::Duration;

verus! {

broadcast use vstd::std_specs::hash::group_hash_axioms;

/// Metrics over all clients.
#[derive(Debug)]
pub struct AggregateMetrics {
    pub total_messages_sent: u64,
    pub total_messages_received: u64,
    pub total_messages_failed: u64,
    pub total_connection_errors: u64,
    pub total_reconnections: u64,
    pub total_http_connections_created: u64,
    pub total_http_connections_reused: u64,
    pub http_status_codes: HashMap<u16, u64>,
    pub client_metrics: HashMap<u32, ClientMetrics>,
}

/// The metrics of client `id` in `new` are those of `old` with `e`
/// recorded, where `old` has that client; all other clients are unchanged.
pub open spec fn client_recorded(e: MetricEvent, new: Map<u32, ClientMetrics>, old: Map<u32, ClientMetrics>, id: u32) -> bool {
    &&& new.dom() == old.dom()
    &&& forall|k: u32| #[trigger] new.contains_key(k) && k != id ==> new[k] == old[k]
    &&& old.contains_key(id) ==> recorded(e, new[id], old[id])
}

/// Every total other than `kept`... stays: the totals of `new` equal those
/// of `old`.
pub open spec fn same_totals(new: AggregateMetrics, old: AggregateMetrics) -> bool {
    &&& new.total_messages_sent == old.total_messages_sent
    &&& new.total_messages_received == old.total_messages_received
    &&& new.total_messages_failed == old.total_messages_failed
    &&& new.total_connection_errors == old.total_connection_errors
    &&& new.total_reconnections == old.total_reconnections
    &&& new.total_http_connections_created == old.total_http_connections_created
    &&& new.total_http_connections_reused == old.total_http_connections_reused
    &&& new.http_status_codes@ == old.http_status_codes@
}

/// The smallest of the values `Some` in `vs`, if any.
pub open spec fn least_some(vs: Seq<Option<u64>>) -> Option<u64>
    decreases vs.len(),
{
    if vs.len() == 0 {
        None
    } else {
        let rest = least_some(vs.drop_last());
        match vs.last() {
            None => rest,
            Some(v) => match rest {
                None => Some(v),
                Some(r) => Some(if v < r { v } else { r }),
            },
        }
    }
}

/// The largest of the values `Some` in `vs`, if any.
pub open spec fn greatest_some(vs: Seq<Option<u64>>) -> Option<u64>
    decreases vs.len(),
{
    if vs.len() == 0 {
        None
    } else {
        let rest = greatest_some(vs.drop_last());
        match vs.last() {
            None => rest,
            Some(v) => match rest {
                None => Some(v),
                Some(r) => Some(if v > r { v } else { r }),
            },
        }
    }
}

pub proof fn lemma_least_some(vs: Seq<Option<u64>>)
    ensures
        least_some(vs) matches Some(m) ==> exists|i: int| 0 <= i < vs.len() && vs[i] == Some(m),
        least_some(vs) matches Some(m) ==> forall|i: int|
            0 <= i < vs.len() && (#[trigger] vs[i]) is Some ==> m <= vs[i]->0,
        least_some(vs) is None ==> forall|i: int| 0 <= i < vs.len() ==> (#[trigger] vs[i]) is None,
    decreases vs.len(),
{
    if vs.len() > 0 {
        let init = vs.drop_last();
        lemma_least_some(init);
        assert forall|i: int| 0 <= i < init.len() implies init[i] == vs[i] by {}
        if let Some(m) = least_some(vs) {
            if least_some(init) is Some && vs.last() is Some {
                let k = choose|k: int| 0 <= k < init.len() && init[k] == least_some(init);
                assert(vs[k] == init[k]);
            } else if least_some(init) is Some {
                let k = choose|k: int| 0 <= k < init.len() && init[k] == least_some(init);
                assert(vs[k] == init[k]);
            }
            assert(vs[vs.len() - 1] == vs.last());
        }
    }
}

pub proof fn lemma_greatest_some(vs: Seq<Option<u64>>)
    ensures
        greatest_some(vs) matches Some(m) ==> exists|i: int| 0 <= i < vs.len() && vs[i] == Some(m),
        greatest_some(vs) matches Some(m) ==> forall|i: int|
            0 <= i < vs.len() && (#[trigger] vs[i]) is Some ==> m >= vs[i]->0,
        greatest_some(vs) is None ==> forall|i: int| 0 <= i < vs.len() ==> (#[trigger] vs[i]) is None,
    decreases vs.len(),
{
    if vs.len() > 0 {
        let init = vs.drop_last();
        lemma_greatest_some(init);
        assert forall|i: int| 0 <= i < init.len() implies init[i] == vs[i] by {}
        if let Some(m) = greatest_some(vs) {
            if greatest_some(init) is Some {
                let k = choose|k: int| 0 <= k < init.len() && init[k] == greatest_some(init);
                assert(vs[k] == init[k]);
            }
            assert(vs[vs.len() - 1] == vs.last());
        }
    }
}

/// `new` is `old` after the event `e` of client `id`: the matching total
/// bumped (wrapping), or the status code counted, and the event recorded
/// in the metrics of the client where it has any.
pub open spec fn aggregate_recorded(e: MetricEvent, new: AggregateMetrics, old: AggregateMetrics, id: u32) -> bool {
    &&& client_recorded(e, new.clients(), old.clients(), id)
    &&& match e {
        MetricEvent::Sent => same_totals(
            new,
            AggregateMetrics { total_messages_sent: bump(old.total_messages_sent), ..old },
        ),
        MetricEvent::Success(_) => same_totals(
            new,
            AggregateMetrics { total_messages_received: bump(old.total_messages_received), ..old },
        ),
        MetricEvent::Failure => same_totals(
            new,
            AggregateMetrics { total_messages_failed: bump(old.total_messages_failed), ..old },
        ),
        MetricEvent::ConnectionError => same_totals(
            new,
            AggregateMetrics { total_connection_errors: bump(old.total_connection_errors), ..old },
        ),
        MetricEvent::HttpConnectionCreated => same_totals(
            new,
            AggregateMetrics {
                total_http_connections_created: bump(old.total_http_connections_created),
                ..old
            },
        ),
        MetricEvent::HttpConnectionReused => same_totals(
            new,
            AggregateMetrics { total_http_connections_reused: bump(old.total_http_connections_reused), ..old },
        ),
        MetricEvent::HttpStatus(code) => new.http_status_codes@ == count_code(old.http_status_codes@, code)
            && same_totals(new, AggregateMetrics { http_status_codes: new.http_status_codes, ..old }),
    }
}

/// Each total is the sum of the matching counter over all clients, in
/// wrapping `u64` arithmetic.
pub open spec fn totals_match_clients(a: AggregateMetrics) -> bool {
    let cs = a.clients();
    &&& a.total_messages_sent == wrapped_total(cs, |m: ClientMetrics| m.messages_sent as nat)
    &&& a.total_messages_received == wrapped_total(cs, |m: ClientMetrics| m.messages_received as nat)
    &&& a.total_messages_failed == wrapped_total(cs, |m: ClientMetrics| m.messages_failed as nat)
    &&& a.total_connection_errors == wrapped_total(cs, |m: ClientMetrics| m.connection_errors as nat)
    &&& a.total_http_connections_created == wrapped_total(
        cs,
        |m: ClientMetrics| m.http_connections_created as nat,
    )
    &&& a.total_http_connections_reused == wrapped_total(
        cs,
        |m: ClientMetrics| m.http_connections_reused as nat,
    )
}

/// Some client of `cs` counts more than one client in its test: the test
/// broadcasts.
pub open spec fn broadcasting(cs: Map<u32, ClientMetrics>) -> bool {
    exists|k: u32| #[trigger] cs.contains_key(k) && cs[k].total_clients > 1
}

/// The round-trip milliseconds of all clients, summed in wrapping `u64`
/// arithmetic.
pub open spec fn wrapped_rtt_total(cs: Map<u32, ClientMetrics>) -> u64 {
    wrapped(sum_over_clients(cs, |m: ClientMetrics| rtt_of(m)))
}

/// The responses of all clients, summed in wrapping `u64` arithmetic.
pub open spec fn wrapped_received_total(cs: Map<u32, ClientMetrics>) -> u64 {
    wrapped(sum_over_clients(cs, |m: ClientMetrics| received_of(m)))
}

/// `x` has the same contents as the metrics of some client in `cs`.
pub open spec fn copies_some_client(cs: Map<u32, ClientMetrics>, x: ClientMetrics) -> bool {
    exists|k: u32| cs.contains_key(k) && same_metrics(x, #[trigger] cs[k])
}

impl AggregateMetrics {
    /// The metrics of each client, by client number.
    pub open spec fn clients(self) -> Map<u32, ClientMetrics> {
        self.client_metrics@
    }

    /// Fresh metrics: all totals zero, no clients.
    pub fn new() -> (m: AggregateMetrics)
        ensures
            m.total_messages_sent == 0,
            m.total_messages_received == 0,
            m.total_messages_failed == 0,
            m.total_connection_errors == 0,
            m.total_reconnections == 0,
            m.total_http_connections_created == 0,
            m.total_http_connections_reused == 0,
            m.http_status_codes@ == Map::<u16, u64>::empty(),
            m.clients() == Map::<u32, ClientMetrics>::empty(),
    {
        AggregateMetrics {
            total_messages_sent: 0,
            total_messages_received: 0,
            total_messages_failed: 0,
            total_connection_errors: 0,
            total_reconnections: 0,
            total_http_connections_created: 0,
            total_http_connections_reused: 0,
            http_status_codes: HashMap::new(),
            client_metrics: HashMap::new(),
        }
    }

    /// Starts fresh metrics for `client_id` (replacing any it had).
    pub fn init_client(&mut self, client_id: ClientId)
        ensures
            same_totals(*final(self), *old(self)),
            final(self).clients().dom() == old(self).clients().dom().insert(client_id.0),
            forall|k: u32| #[trigger] final(self).clients().contains_key(k) && k != client_id.0 ==> final(self).clients()[k] == old(self).clients()[k],
            is_fresh(final(self).clients()[client_id.0], client_id, 1),
    {
        let m = ClientMetrics::new(client_id);
        self.client_metrics.insert(client_id.0, m);
    }

    /// Starts fresh metrics for `client_id` in a test of `total_clients`
    /// clients, by which broadcast results are normalized.
    pub fn init_client_with_count(&mut self, client_id: ClientId, total_clients: u32)
        ensures
            same_totals(*final(self), *old(self)),
            final(self).clients().dom() == old(self).clients().dom().insert(client_id.0),
            forall|k: u32| #[trigger] final(self).clients().contains_key(k) && k != client_id.0 ==> final(self).clients()[k] == old(self).clients()[k],
            is_fresh(final(self).clients()[client_id.0], client_id, total_clients),
    {
        let mut m = ClientMetrics::new(client_id);
        m.total_clients = total_clients;
        self.client_metrics.insert(client_id.0, m);
    }

    /// Applies `e` to the metrics of client `id`, if it has any.
    fn record_for_client(&mut self, id: u32, e: MetricEvent)
        ensures
            same_totals(*final(self), *old(self)),
            client_recorded(e, final(self).clients(), old(self).clients(), id),
    {
        match self.client_metrics.remove(&id) {
            Some(mut m) => {
                match e {
                    MetricEvent::Sent => m.record_sent(),
                    MetricEvent::Success(rtt) => m.record_success(rtt),
                    MetricEvent::Failure => m.record_failure(),
                    MetricEvent::ConnectionError => m.record_connection_error(),
                    MetricEvent::HttpConnectionCreated => m.record_http_connection_created(),
                    MetricEvent::HttpConnectionReused => m.record_http_connection_reused(),
                    MetricEvent::HttpStatus(code) => m.record_http_status_code(code),
                }
                self.client_metrics.insert(id, m);
                proof {
                    assert(self.client_metrics@.dom() =~= old(self).client_metrics@.dom());
                }
            },
            None => {
                proof {
                    assert(self.client_metrics@ =~= old(self).client_metrics@);
                }
            },
        }
    }

    /// Records a message sent by `client_id`.
    pub fn record_message_sent(&mut self, client_id: ClientId)
        ensures
            aggregate_recorded(MetricEvent::Sent, *final(self), *old(self), client_id.0),
    {
        self.total_messages_sent = self.total_messages_sent.wrapping_add(1);
        self.record_for_client(client_id.0, MetricEvent::Sent);
    }

    /// Records a response that `client_id` received `rtt` after sending.
    pub fn record_message_success(&mut self, client_id: ClientId, rtt: Duration)
        ensures
            aggregate_recorded(MetricEvent::Success(rtt), *final(self), *old(self), client_id.0),
    {
        self.total_messages_received = self.total_messages_received.wrapping_add(1);
        self.record_for_client(client_id.0, MetricEvent::Success(rtt));
    }

    /// Records a failed message of `client_id`.
    pub fn record_message_failure(&mut self, client_id: ClientId)
        ensures
            aggregate_recorded(MetricEvent::Failure, *final(self), *old(self), client_id.0),
    {
        self.total_messages_failed = self.total_messages_failed.wrapping_add(1);
        self.record_for_client(client_id.0, MetricEvent::Failure);
    }

    /// Records a connection error of `client_id`.
    pub fn record_connection_error(&mut self, client_id: ClientId)
        ensures
            aggregate_recorded(MetricEvent::ConnectionError, *final(self), *old(self), client_id.0),
    {
        self.total_connection_errors = self.total_connection_errors.wrapping_add(1);
        self.record_for_client(client_id.0, MetricEvent::ConnectionError);
    }

    /// Records an HTTP connection that `client_id` opened.
    pub fn record_http_connection_created(&mut self, client_id: ClientId)
        ensures
            aggregate_recorded(MetricEvent::HttpConnectionCreated, *final(self), *old(self), client_id.0),
    {
        self.total_http_connections_created = self.total_http_connections_created.wrapping_add(1);
        self.record_for_client(client_id.0, MetricEvent::HttpConnectionCreated);
    }

    /// Records an HTTP connection that `client_id` reused.
    pub fn record_http_connection_reused(&mut self, client_id: ClientId)
        ensures
            aggregate_recorded(MetricEvent::HttpConnectionReused, *final(self), *old(self), client_id.0),
    {
        self.total_http_connections_reused = self.total_http_connections_reused.wrapping_add(1);
        self.record_for_client(client_id.0, MetricEvent::HttpConnectionReused);
    }

    /// Records an HTTP response with `status_code` received by `client_id`.
    pub fn record_http_status_code(&mut self, client_id: ClientId, status_code: u16)
        ensures
            aggregate_recorded(MetricEvent::HttpStatus(status_code), *final(self), *old(self), client_id.0),
    {
        let count = match self.http_status_codes.get(&status_code) {
            Some(c) => c.wrapping_add(1),
            None => 1,
        };
        self.http_status_codes.insert(status_code, count);
        self.record_for_client(client_id.0, MetricEvent::HttpStatus(status_code));
    }

    /// Copies of the metrics of all clients, in no particular order.
    pub fn get_client_metrics(&self) -> (v: Vec<ClientMetrics>)
        ensures
            v.len() == self.clients().dom().len(),
            forall|i: int| 0 <= i < v.len() ==> copies_some_client(self.clients(), #[trigger] v@[i]),
            forall|k: u32| #[trigger] self.clients().contains_key(k) ==> exists|i: int| 0 <= i < v.len() && same_metrics(#[trigger] v@[i], self.clients()[k]),
    {
        let ghost vs = vstd::std_specs::hash::spec_values_iter(&self.client_metrics).remaining();
        proof {
            vstd::std_specs::hash::axiom_spec_values_iter(&self.client_metrics);
        }
        let mut v: Vec<ClientMetrics> = Vec::new();
        for m in it: self.client_metrics.values()
            invariant
                v.len() == it.index(),
                it.seq() == vs,
                forall|i: int| 0 <= i < v.len() ==> same_metrics(#[trigger] v@[i], *vs[i]),
        {
            v.push(m.clone());
        }
        proof {
            let u = vs.unref();
            assert(u.to_set() == self.clients().values());
            assert forall|i: int| 0 <= i < v.len() implies copies_some_client(self.clients(), #[trigger] v@[i]) by {
                assert(u[i] == *vs[i]);
                assert(u.to_set().contains(u[i]));
                assert(self.clients().values().contains(u[i]));
                let k = choose|k: u32| self.clients().dom().contains(k) && self.clients()[k] == u[i];
                assert(self.clients().contains_key(k) && same_metrics(v@[i], self.clients()[k]));
            }
            assert forall|k: u32| #[trigger] self.clients().contains_key(k) implies exists|i: int| 0 <= i < v.len() && same_metrics(#[trigger] v@[i], self.clients()[k]) by {
                assert(self.clients().values().contains(self.clients()[k]));
                assert(u.to_set().contains(self.clients()[k]));
                let i = choose|i: int| 0 <= i < u.len() && u[i] == self.clients()[k];
                assert(u[i] == *vs[i]);
                assert(same_metrics(v@[i], self.clients()[k]));
            }
        }
        v
    }
    /// The smallest minimum round-trip time of any client, if any client
    /// has one.
    pub fn overall_min_rtt_ms(&self) -> (r: Option<u64>)
        ensures
            match r {
                Some(m) => (exists|k: u32| #[trigger] self.clients().contains_key(k) && self.clients()[k].min_rtt_ms == Some(m))
                    && forall|k: u32| #[trigger] self.clients().contains_key(k) && self.clients()[k].min_rtt_ms is Some ==> m <= self.clients()[k].min_rtt_ms->0,
                None => forall|k: u32| #[trigger] self.clients().contains_key(k) ==> self.clients()[k].min_rtt_ms is None,
            },
    {
        let ghost vs = vstd::std_specs::hash::spec_values_iter(&self.client_metrics).remaining();
        let ghost mins = vs.map_values(|c: &ClientMetrics| c.min_rtt_ms);
        proof {
            vstd::std_specs::hash::axiom_spec_values_iter(&self.client_metrics);
        }
        let mut acc: Option<u64> = None;
        for m in it: self.client_metrics.values()
            invariant
                it.seq() == vs,
                mins == vs.map_values(|c: &ClientMetrics| c.min_rtt_ms),
                acc == least_some(mins.take(it.index() as int)),
        {
            let ghost k = it.index() as int;
            assert(mins.take(k + 1).drop_last() =~= mins.take(k));
            assert(mins.take(k + 1).last() == m.min_rtt_ms);
            acc = match m.min_rtt_ms {
                None => acc,
                Some(v) => match acc {
                    None => Some(v),
                    Some(a) => Some(if v < a { v } else { a }),
                },
            };
        }
        proof {
            assert(mins.take(mins.len() as int) =~= mins);
            lemma_least_some(mins);
            let u = vs.unref();
            assert(u.to_set() == self.clients().values());
            match acc {
                Some(m) => {
                    let i = choose|i: int| 0 <= i < mins.len() && mins[i] == Some(m);
                    assert(u[i] == *vs[i]);
                    assert(u.to_set().contains(u[i]));
                    let k = choose|k: u32| self.clients().dom().contains(k) && self.clients()[k] == u[i];
                    assert(self.clients().contains_key(k) && self.clients()[k].min_rtt_ms == Some(m));
                    assert forall|k: u32| #[trigger] self.clients().contains_key(k) && self.clients()[k].min_rtt_ms is Some implies m <= self.clients()[k].min_rtt_ms->0 by {
                        assert(self.clients().values().contains(self.clients()[k]));
                        let j = choose|j: int| 0 <= j < u.len() && u[j] == self.clients()[k];
                        assert(u[j] == *vs[j]);
                        assert(mins[j] == self.clients()[k].min_rtt_ms);
                    }
                },
                None => {
                    assert forall|k: u32| #[trigger] self.clients().contains_key(k) implies self.clients()[k].min_rtt_ms is None by {
                        assert(self.clients().values().contains(self.clients()[k]));
                        let j = choose|j: int| 0 <= j < u.len() && u[j] == self.clients()[k];
                        assert(u[j] == *vs[j]);
                        assert(mins[j] == self.clients()[k].min_rtt_ms);
                    }
                },
            }
        }
        acc
    }

    /// The largest maximum round-trip time of any client, if any client
    /// has one.
    pub fn overall_max_rtt_ms(&self) -> (r: Option<u64>)
        ensures
            match r {
                Some(m) => (exists|k: u32| #[trigger] self.clients().contains_key(k) && self.clients()[k].max_rtt_ms == Some(m))
                    && forall|k: u32| #[trigger] self.clients().contains_key(k) && self.clients()[k].max_rtt_ms is Some ==> m >= self.clients()[k].max_rtt_ms->0,
                None => forall|k: u32| #[trigger] self.clients().contains_key(k) ==> self.clients()[k].max_rtt_ms is None,
            },
    {
        let ghost vs = vstd::std_specs::hash::spec_values_iter(&self.client_metrics).remaining();
        let ghost maxs = vs.map_values(|c: &ClientMetrics| c.max_rtt_ms);
        proof {
            vstd::std_specs::hash::axiom_spec_values_iter(&self.client_metrics);
        }
        let mut acc: Option<u64> = None;
        for m in it: self.client_metrics.values()
            invariant
                it.seq() == vs,
                maxs == vs.map_values(|c: &ClientMetrics| c.max_rtt_ms),
                acc == greatest_some(maxs.take(it.index() as int)),
        {
            let ghost k = it.index() as int;
            assert(maxs.take(k + 1).drop_last() =~= maxs.take(k));
            assert(maxs.take(k + 1).last() == m.max_rtt_ms);
            acc = match m.max_rtt_ms {
                None => acc,
                Some(v) => match acc {
                    None => Some(v),
                    Some(a) => Some(if v > a { v } else { a }),
                },
            };
        }
        proof {
            assert(maxs.take(maxs.len() as int) =~= maxs);
            lemma_greatest_some(maxs);
            let u = vs.unref();
            assert(u.to_set() == self.clients().values());
            match acc {
                Some(m) => {
                    let i = choose|i: int| 0 <= i < maxs.len() && maxs[i] == Some(m);
                    assert(u[i] == *vs[i]);
                    assert(u.to_set().contains(u[i]));
                    let k = choose|k: u32| self.clients().dom().contains(k) && self.clients()[k] == u[i];
                    assert(self.clients().contains_key(k) && self.clients()[k].max_rtt_ms == Some(m));
                    assert forall|k: u32| #[trigger] self.clients().contains_key(k) && self.clients()[k].max_rtt_ms is Some implies m >= self.clients()[k].max_rtt_ms->0 by {
                        assert(self.clients().values().contains(self.clients()[k]));
                        let j = choose|j: int| 0 <= j < u.len() && u[j] == self.clients()[k];
                        assert(u[j] == *vs[j]);
                        assert(maxs[j] == self.clients()[k].max_rtt_ms);
                    }
                },
                None => {
                    assert forall|k: u32| #[trigger] self.clients().contains_key(k) implies self.clients()[k].max_rtt_ms is None by {
                        assert(self.clients().values().contains(self.clients()[k]));
                        let j = choose|j: int| 0 <= j < u.len() && u[j] == self.clients()[k];
                        assert(u[j] == *vs[j]);
                        assert(maxs[j] == self.clients()[k].max_rtt_ms);
                    }
                },
            }
        }
        acc
    }

    /// The success rate of the whole test in percent, as a quotient: 100
    /// when nothing was sent; otherwise the responses per message sent,
    /// times 100, where in a broadcast test each response counts as one
    /// share of the client count that the metrics of one of the clients
    /// hold.
    pub fn overall_success_ratio(&self) -> (r: Ratio)
        ensures
            self.total_messages_sent == 0 ==> r.num == 100 && r.den == 1,
            self.total_messages_sent > 0 ==> r.num == 100 * self.total_messages_received,
            self.total_messages_sent > 0 && broadcasting(self.clients()) ==> exists|k: u32|
                #[trigger] self.clients().contains_key(k) && r.den == self.clients()[k].total_clients
                    * self.total_messages_sent,
            self.total_messages_sent > 0 && !broadcasting(self.clients()) ==> r.den == self.total_messages_sent,
    {
        let sent = self.total_messages_sent;
        if sent == 0 {
            return Ratio { num: 100, den: 1 };
        }
        let num = 100 * (self.total_messages_received as u128);
        let ghost vs = vstd::std_specs::hash::spec_values_iter(&self.client_metrics).remaining();
        proof {
            vstd::std_specs::hash::axiom_spec_values_iter(&self.client_metrics);
        }
        let mut first: Option<u32> = None;
        let mut broadcast = false;
        for m in it: self.client_metrics.values()
            invariant
                it.seq() == vs,
                it.index() == 0 ==> first is None,
                it.index() > 0 ==> first == Some(vs[0].total_clients),
                broadcast <==> exists|i: int| 0 <= i < it.index() && (#[trigger] vs[i]).total_clients > 1,
        {
            let ghost i = it.index() as int;
            if first.is_none() {
                first = Some(m.total_clients);
            }
            if m.total_clients > 1 {
                broadcast = true;
            }
            assert(*vs[i] == *m);
        }
        let ghost u = vs.unref();
        proof {
            assert(u.to_set() == self.clients().values());
        }
        if broadcast {
            let tc = first.unwrap();
            proof {
                assert(u[0] == *vs[0]);
                assert(u.to_set().contains(u[0]));
                assert(self.clients().values().contains(u[0]));
            }
            assert((tc as u128) * (sent as u128) <= 0xffff_ffffu128 * 0xffff_ffff_ffff_ffffu128) by (nonlinear_arith)
                requires
                    tc <= 0xffff_ffffu32,
                    sent <= 0xffff_ffff_ffff_ffffu64,
            ;
            let den = (tc as u128) * (sent as u128);
            proof {
                let k = choose|k: u32| self.clients().dom().contains(k) && self.clients()[k] == u[0];
                assert(self.clients().contains_key(k) && den == self.clients()[k].total_clients * sent);
                let i = choose|i: int| 0 <= i < vs.len() && (#[trigger] vs[i]).total_clients > 1;
                assert(u[i] == *vs[i]);
                assert(u.to_set().contains(u[i]));
                assert(self.clients().values().contains(u[i]));
                let kb = choose|kb: u32| self.clients().dom().contains(kb) && self.clients()[kb] == u[i];
                assert(self.clients().contains_key(kb) && self.clients()[kb].total_clients > 1);
            }
            Ratio { num, den }
        } else {
            proof {
                if broadcasting(self.clients()) {
                    let k = choose|k: u32| #[trigger] self.clients().contains_key(k) && self.clients()[k].total_clients > 1;
                    assert(self.clients().values().contains(self.clients()[k]));
                    assert(u.to_set().contains(self.clients()[k]));
                    let j = choose|j: int| 0 <= j < u.len() && u[j] == self.clients()[k];
                    assert(u[j] == *vs[j]);
                    assert(vs[j].total_clients > 1);
                }
            }
            Ratio { num, den: sent as u128 }
        }
    }

    /// The mean round-trip time of all responses in milliseconds, as a
    /// quotient of the clients' totals summed in wrapping `u64` arithmetic:
    /// zero when that sum of responses is zero.
    pub fn overall_avg_rtt_ratio(&self) -> (r: Ratio)
        ensures
            wrapped_received_total(self.clients()) == 0 ==> r.num == 0 && r.den == 1,
            wrapped_received_total(self.clients()) != 0 ==> r.num == wrapped_rtt_total(self.clients())
                && r.den == wrapped_received_total(self.clients()),
    {
        let ghost cs = self.clients();
        let ghost ks = vstd::std_specs::hash::spec_keys_iter(&self.client_metrics).remaining();
        proof {
            vstd::std_specs::hash::axiom_spec_keys_iter(&self.client_metrics);
        }
        let ghost keys = ks.unref();
        let mut rtt: u64 = 0;
        let mut received: u64 = 0;
        for k in it: self.client_metrics.keys()
            invariant
                it.seq() == ks,
                keys == ks.unref(),
                keys.to_set() == cs.dom(),
                cs == self.clients(),
                rtt == wrapped(sum_over(cs, keys.take(it.index() as int), |m: ClientMetrics| rtt_of(m))),
                received == wrapped(sum_over(cs, keys.take(it.index() as int), |m: ClientMetrics| received_of(m))),
        {
            let ghost i = it.index() as int;
            proof {
                assert(keys[i] == *k);
                assert(keys.to_set().contains(keys[i]));
            }
            let m = self.client_metrics.get(k).unwrap();
            proof {
                let t = keys.take(i + 1);
                assert(t.drop_last() =~= keys.take(i));
                assert(t.last() == *k);
                lemma_wrapped_step(sum_over(cs, keys.take(i), |m: ClientMetrics| rtt_of(m)), m.total_rtt_ms);
                lemma_wrapped_step(sum_over(cs, keys.take(i), |m: ClientMetrics| received_of(m)), m.messages_received);
            }
            rtt = rtt.wrapping_add(m.total_rtt_ms);
            received = received.wrapping_add(m.messages_received);
        }
        proof {
            assert(keys.take(keys.len() as int) =~= keys);
            assert(lists_clients(cs, keys));
            lemma_sum_over_clients(cs, keys, |m: ClientMetrics| rtt_of(m));
            lemma_sum_over_clients(cs, keys, |m: ClientMetrics| received_of(m));
        }
        if received == 0 {
            Ratio { num: 0, den: 1 }
        } else {
            Ratio { num: rtt as u128, den: received as u128 }
        }
    }
}

} // verus!
