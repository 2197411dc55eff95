//! Message tracking: when a client's loop ends, and the bookkeeping of
//! broadcast messages across clients.

use vstd::prelude::*;
use crate::common::ClientId;
use crate::config::Config;
use crate::message::MessageId;
use crate::time::{Duration, Instant, MAX_DURATION_NANOS, NANOS_PER_MILLI, elapsed_between};

verus! {

/// The state of a client's message loop.
#[derive(Debug, Clone, Copy)]
pub struct LoopState {
    pub messages_sent: u64,
    pub target_messages: Option<u64>,
    pub start_time: Instant,
    pub test_duration: Option<Duration>,
}

/// The loop is over: the message target is reached, or the test duration
/// has passed at `now`.
pub open spec fn loop_finished(s: LoopState, now: Instant) -> bool {
    ||| (s.target_messages matches Some(t) && s.messages_sent >= t)
    ||| (s.test_duration matches Some(d) && elapsed_between(now@, s.start_time@) >= d@)
}

impl LoopState {
    /// The loop state of a client that starts at `now`: nothing sent, the
    /// target and duration of the configuration.
    pub fn new(config: &Config, now: Instant) -> (s: LoopState)
        requires
            config.test.total_messages is Some ==> config.client.count > 0,
        ensures
            s.messages_sent == 0,
            s.start_time == now,
            s.test_duration == config.test.duration,
            match config.test.total_messages {
                Some(total) => s.target_messages == Some((total / (config.client.count as u64)) as u64),
                None => s.target_messages is None,
            },
    {
        LoopState {
            messages_sent: 0,
            target_messages: config.messages_per_client(),
            start_time: now,
            test_duration: config.test_duration(),
        }
    }

    /// Whether the loop is over at `now`.
    pub fn check_termination_conditions(&self, client_id: ClientId, now: Instant) -> (b: bool)
        ensures
            b == loop_finished(*self, now),
    {
        if let Some(target) = self.target_messages {
            if self.messages_sent >= target {
                return true;
            }
        }
        if let Some(duration) = self.test_duration {
            if now.elapsed_reached(self.start_time, duration) {
                return true;
            }
        }
        false
    }
}

/// A broadcast message awaiting the responses of all clients.
#[derive(Debug)]
pub struct BroadcastMessage {
    pub message_id: MessageId,
    pub sender_id: ClientId,
    pub send_time: Instant,
    pub responses: Vec<(ClientId, Duration)>,
    pub timeout_at: Instant,
    pub finalized: bool,
}

/// The share of a finalized broadcast message credited to one client that
/// received it: how many clients received the message out of how many, and
/// the sum of their round-trip times.
#[derive(Debug, Clone, Copy, PartialEq, Eq, Structural)]
pub struct BroadcastShare {
    pub client_id: ClientId,
    pub response_count: usize,
    pub total_clients: u32,
    pub total_rtt_ms: u64,
}

/// What is known of a tracked broadcast message.
pub struct TrackedView {
    pub id: Seq<char>,
    pub sender: ClientId,
    pub send_time: nat,
    pub responses: Seq<(ClientId, nat)>,
    pub timeout_at: nat,
    pub finalized: bool,
}

pub open spec fn tracked_view(m: BroadcastMessage) -> TrackedView {
    TrackedView {
        id: m.message_id.0@,
        sender: m.sender_id,
        send_time: m.send_time@,
        responses: m.responses@.map_values(|r: (ClientId, Duration)| (r.0, r.1@)),
        timeout_at: m.timeout_at@,
        finalized: m.finalized,
    }
}

/// Tracks broadcast messages across clients. One tracker serves all clients
/// of a test; the caller shares it between them.
#[derive(Debug)]
pub struct BroadcastTracker {
    messages: Vec<BroadcastMessage>,
    total_clients: u32,
    timeout: Duration,
}

/// No two entries track the same message.
pub open spec fn distinct_ids(ms: Seq<TrackedView>) -> bool {
    forall|i: int, j: int| 0 <= i < ms.len() && 0 <= j < ms.len() && i != j ==> ms[i].id != ms[j].id
}

/// The index of the entry tracking `id`, if any.
pub open spec fn index_of(ms: Seq<TrackedView>, id: Seq<char>) -> Option<int> {
    if exists|i: int| 0 <= i < ms.len() && (#[trigger] ms[i]).id == id {
        Some(choose|i: int| 0 <= i < ms.len() && (#[trigger] ms[i]).id == id)
    } else {
        None
    }
}

/// The entry of a message sent by `sender` at `now`, timing out `timeout`
/// later, without responses.
pub open spec fn fresh_entry(id: Seq<char>, sender: ClientId, now: nat, timeout: nat) -> TrackedView {
    TrackedView {
        id,
        sender,
        send_time: now,
        responses: Seq::empty(),
        timeout_at: now + timeout,
        finalized: false,
    }
}

/// A message is ready to be finalized at `now`: every client responded, or
/// its time is up.
pub open spec fn ready(e: TrackedView, total_clients: u32, now: nat) -> bool {
    !e.finalized && (e.responses.len() >= total_clients || now >= e.timeout_at)
}

/// The sum, wrapping in `u64`, of the whole milliseconds of the first `n`
/// round-trip times, each truncated to `u64`.
pub open spec fn rtt_sum(rs: Seq<(ClientId, nat)>, n: int) -> u64
    decreases n,
{
    if n <= 0 {
        0
    } else {
        vstd::wrapping::u64_specs::wrapping_add(
            rtt_sum(rs, n - 1),
            ((rs[n - 1].1 / (NANOS_PER_MILLI as nat)) % 0x1_0000_0000_0000_0000) as u64,
        )
    }
}

/// The shares of a finalized message: one per response, in order.
pub open spec fn shares_of(e: TrackedView, total_clients: u32) -> Seq<BroadcastShare> {
    Seq::new(
        e.responses.len(),
        |i: int|
            BroadcastShare {
                client_id: e.responses[i].0,
                response_count: e.responses.len() as usize,
                total_clients,
                total_rtt_ms: rtt_sum(e.responses, e.responses.len() as int),
            },
    )
}

/// The shares of all messages among `es` that are ready at `now`, in order.
pub open spec fn finalized_shares(es: Seq<TrackedView>, total_clients: u32, now: nat) -> Seq<BroadcastShare>
    decreases es.len(),
{
    if es.len() == 0 {
        Seq::empty()
    } else {
        finalized_shares(es.drop_last(), total_clients, now) + if ready(
            es.last(),
            total_clients,
            now,
        ) {
            shares_of(es.last(), total_clients)
        } else {
            Seq::empty()
        }
    }
}

/// The messages among `es` that are not ready at `now`, in order.
pub open spec fn unready(es: Seq<TrackedView>, total_clients: u32, now: nat) -> Seq<TrackedView>
    decreases es.len(),
{
    if es.len() == 0 {
        Seq::empty()
    } else {
        unready(es.drop_last(), total_clients, now) + if ready(es.last(), total_clients, now) {
            Seq::empty()
        } else {
            seq![es.last()]
        }
    }
}

pub proof fn lemma_unready_ids(es: Seq<TrackedView>, total_clients: u32, now: nat)
    ensures
        forall|i: int|
            0 <= i < unready(es, total_clients, now).len() ==> exists|j: int|
                0 <= j < es.len() && (#[trigger] unready(es, total_clients, now)[i]) == es[j],
        distinct_ids(es) ==> distinct_ids(unready(es, total_clients, now)),
    decreases es.len(),
{
    if es.len() > 0 {
        let init = es.drop_last();
        lemma_unready_ids(init, total_clients, now);
        let u = unready(es, total_clients, now);
        let ui = unready(init, total_clients, now);
        assert forall|i: int| 0 <= i < u.len() implies exists|j: int|
            0 <= j < es.len() && (#[trigger] u[i]) == es[j] by {
            if i < ui.len() {
                assert(u[i] == ui[i]);
                let j = choose|j: int| 0 <= j < init.len() && ui[i] == init[j];
                assert(es[j] == init[j]);
            } else {
                assert(u[i] == es.last());
                assert(es[es.len() - 1] == es.last());
            }
        }
        if distinct_ids(es) {
            assert(distinct_ids(init)) by {
                assert forall|i: int, j: int|
                    0 <= i < init.len() && 0 <= j < init.len() && i != j implies init[i].id
                    != init[j].id by {
                    assert(init[i] == es[i]);
                    assert(init[j] == es[j]);
                }
            }
            assert forall|i: int, j: int|
                0 <= i < u.len() && 0 <= j < u.len() && i != j implies u[i].id != u[j].id by {
                if i < ui.len() && j < ui.len() {
                    assert(u[i] == ui[i]);
                    assert(u[j] == ui[j]);
                } else if i < ui.len() {
                    assert(u[i] == ui[i]);
                    let k = choose|k: int| 0 <= k < init.len() && ui[i] == init[k];
                    assert(u[j] == es.last());
                    assert(init[k] == es[k]);
                    assert(es[es.len() - 1] == es.last());
                } else if j < ui.len() {
                    assert(u[j] == ui[j]);
                    let k = choose|k: int| 0 <= k < init.len() && ui[j] == init[k];
                    assert(u[i] == es.last());
                    assert(init[k] == es[k]);
                    assert(es[es.len() - 1] == es.last());
                }
            }
        }
    }
}

pub proof fn lemma_update_keeps_distinct(es: Seq<TrackedView>, i: int, e: TrackedView)
    requires
        distinct_ids(es),
        0 <= i < es.len(),
        e.id == es[i].id,
    ensures
        distinct_ids(es.update(i, e)),
{
    let nv = es.update(i, e);
    assert forall|a: int, b: int|
        0 <= a < nv.len() && 0 <= b < nv.len() && a != b implies nv[a].id != nv[b].id by {
        assert(nv[a].id == es[a].id);
        assert(nv[b].id == es[b].id);
    }
}

impl BroadcastTracker {
    #[verifier::type_invariant]
    closed spec fn well_formed(self) -> bool {
        distinct_ids(self.messages@.map_values(|m: BroadcastMessage| tracked_view(m)))
    }

    /// The tracked messages, in the order they were first registered.
    pub closed spec fn entries(self) -> Seq<TrackedView> {
        self.messages@.map_values(|m: BroadcastMessage| tracked_view(m))
    }

    /// The number of participating clients.
    pub closed spec fn clients(self) -> u32 {
        self.total_clients
    }

    /// How long a message is tracked.
    pub closed spec fn message_timeout(self) -> Duration {
        self.timeout
    }

    /// A tracker for `total_clients` clients that tracks each message for
    /// `timeout`.
    pub fn new(total_clients: u32, timeout: Duration) -> (t: BroadcastTracker)
        ensures
            t.entries() == Seq::<TrackedView>::empty(),
            t.clients() == total_clients,
            t.message_timeout() == timeout,
    {
        let t = BroadcastTracker { messages: Vec::new(), total_clients, timeout };
        assert(t.entries() =~= Seq::<TrackedView>::empty());
        t
    }

    /// The index of the entry for `id`.
    fn find(&self, id: &MessageId) -> (r: Option<usize>)
        ensures
            match r {
                Some(i) => i < self.entries().len() && self.entries()[i as int].id == id.0@,
                None => index_of(self.entries(), id.0@) is None,
            },
    {
        let ghost es = self.entries();
        let mut i: usize = 0;
        while i < self.messages.len()
            invariant
                i <= self.messages.len(),
                es == self.entries(),
                es.len() == self.messages.len(),
                forall|j: int| 0 <= j < i ==> (#[trigger] es[j]).id != id.0@,
            decreases self.messages.len() - i,
        {
            assert(es[i as int] == tracked_view(self.messages@[i as int]));
            if self.messages[i].message_id.0 == id.0 {
                return Some(i);
            }
            i += 1;
        }
        proof {
            if exists|j: int| 0 <= j < es.len() && (#[trigger] es[j]).id == id.0@ {
                let j = choose|j: int| 0 <= j < es.len() && (#[trigger] es[j]).id == id.0@;
                assert(es[j].id != id.0@);
            }
        }
        None
    }

    /// Registers a message that `sender_id` sent at `now` (replacing any
    /// entry with the same ID).
    pub fn register_sent(&mut self, message_id: MessageId, sender_id: ClientId, now: Instant)
        requires
            now@ + old(self).message_timeout()@ <= MAX_DURATION_NANOS,
        ensures
            final(self).clients() == old(self).clients(),
            final(self).message_timeout() == old(self).message_timeout(),
            final(self).entries() == match index_of(old(self).entries(), message_id.0@) {
                Some(i) => old(self).entries().update(
                    i,
                    fresh_entry(message_id.0@, sender_id, now@, old(self).message_timeout()@),
                ),
                None => old(self).entries().push(
                    fresh_entry(message_id.0@, sender_id, now@, old(self).message_timeout()@),
                ),
            },
    {
        proof {
            use_type_invariant(&*self);
        }
        let ghost es = self.entries();
        let entry = BroadcastMessage {
            message_id: message_id,
            sender_id,
            send_time: now,
            responses: Vec::new(),
            timeout_at: now.plus(self.timeout),
            finalized: false,
        };
        assert(tracked_view(entry).responses =~= Seq::<(ClientId, nat)>::empty());
        let found = self.find(&entry.message_id);
        match found {
            Some(i) => {
                proof {
                    assert(es[i as int].id == entry.message_id.0@);
                    let k = choose|k: int| 0 <= k < es.len() && (#[trigger] es[k]).id == entry.message_id.0@;
                    if k != i {
                        assert(es[k].id != es[i as int].id);
                    }
                }
                let mut messages: Vec<BroadcastMessage> = Vec::new();
                std::mem::swap(&mut messages, &mut self.messages);
                messages.set(i, entry);
                proof {
                    let nv = messages@.map_values(|m: BroadcastMessage| tracked_view(m));
                    assert(nv =~= es.update(i as int, tracked_view(entry)));
                    lemma_update_keeps_distinct(es, i as int, tracked_view(entry));
                }
                self.messages = messages;
            },
            None => {
                let mut messages: Vec<BroadcastMessage> = Vec::new();
                std::mem::swap(&mut messages, &mut self.messages);
                messages.push(entry);
                proof {
                    let nv = messages@.map_values(|m: BroadcastMessage| tracked_view(m));
                    assert(nv =~= es.push(tracked_view(entry)));
                    assert forall|a: int, b: int|
                        0 <= a < nv.len() && 0 <= b < nv.len() && a != b implies nv[a].id != nv[b].id by {
                        if a < es.len() && b < es.len() {
                        } else if a < es.len() {
                            assert(es[a].id != entry.message_id.0@);
                        } else {
                            assert(es[b].id != entry.message_id.0@);
                        }
                    }
                }
                self.messages = messages;
            },
        }
    }

    /// Records that `receiver_id` received the broadcast `message_id` at
    /// `now`; returns the sender. Messages that are not tracked (never
    /// registered, or already finalized) are ignored.
    pub fn record_response(&mut self, message_id: &MessageId, receiver_id: ClientId, now: Instant) -> (sender: Option<ClientId>)
        ensures
            final(self).clients() == old(self).clients(),
            final(self).message_timeout() == old(self).message_timeout(),
            match index_of(old(self).entries(), message_id.0@) {
                Some(i) => if old(self).entries()[i].finalized {
                    sender is None && final(self).entries() == old(self).entries()
                } else {
                    sender == Some(old(self).entries()[i].sender) && final(self).entries()
                        == old(self).entries().update(
                        i,
                        TrackedView {
                            responses: old(self).entries()[i].responses.push(
                                (
                                    receiver_id,
                                    elapsed_between(now@, old(self).entries()[i].send_time),
                                ),
                            ),
                            ..old(self).entries()[i]
                        },
                    )
                },
                None => sender is None && final(self).entries() == old(self).entries(),
            },
    {
        proof {
            use_type_invariant(&*self);
        }
        let ghost es = self.entries();
        match self.find(message_id) {
            Some(i) => {
                proof {
                    assert(es[i as int].id == message_id.0@);
                    let k = choose|k: int| 0 <= k < es.len() && (#[trigger] es[k]).id == message_id.0@;
                    if k != i {
                        assert(es[k].id != es[i as int].id);
                    }
                }
                assert(es[i as int] == tracked_view(self.messages@[i as int]));
                if self.messages[i].finalized {
                    return None;
                }
                let sender = self.messages[i].sender_id;
                let rtt = now.duration_since(self.messages[i].send_time);
                let mut messages: Vec<BroadcastMessage> = Vec::new();
                std::mem::swap(&mut messages, &mut self.messages);
                let mut entry = messages.remove(i);
                let ghost before = tracked_view(entry);
                entry.responses.push((receiver_id, rtt));
                assert(tracked_view(entry).responses =~= before.responses.push(
                    (receiver_id, rtt@),
                ));
                messages.insert(i, entry);
                proof {
                    let nv = messages@.map_values(|m: BroadcastMessage| tracked_view(m));
                    assert(nv =~= es.update(i as int, tracked_view(entry)));
                    lemma_update_keeps_distinct(es, i as int, tracked_view(entry));
                }
                self.messages = messages;
                Some(sender)
            },
            None => None,
        }
    }

    /// Finalizes the messages that are ready at `now` (every client
    /// responded, or their time is up): stops tracking them and returns, for
    /// each response to each of them, the share credited to its receiver.
    pub fn finalize_ready_messages(&mut self, now: Instant) -> (shares: Vec<BroadcastShare>)
        ensures
            final(self).clients() == old(self).clients(),
            final(self).message_timeout() == old(self).message_timeout(),
            shares@ == finalized_shares(old(self).entries(), old(self).clients(), now@),
            final(self).entries() == unready(old(self).entries(), old(self).clients(), now@),
    {
        proof {
            use_type_invariant(&*self);
        }
        let ghost es = self.entries();
        let total = self.total_clients;
        let mut messages: Vec<BroadcastMessage> = Vec::new();
        std::mem::swap(&mut messages, &mut self.messages);
        assert(messages@.map_values(|m: BroadcastMessage| tracked_view(m)) == es);
        let mut kept: Vec<BroadcastMessage> = Vec::new();
        let mut shares: Vec<BroadcastShare> = Vec::new();
        for entry in it: messages
            invariant
                total == old(self).clients(),
                es == it.seq().map_values(|m: BroadcastMessage| tracked_view(m)),
                shares@ == finalized_shares(es.take(it.index() as int), total, now@),
                kept@.map_values(|m: BroadcastMessage| tracked_view(m)) == unready(
                    es.take(it.index() as int),
                    total,
                    now@,
                ),
        {
            let ghost k = it.index() as int;
            let ghost e = tracked_view(entry);
            assert(es.take(k + 1).drop_last() =~= es.take(k));
            assert(es.take(k + 1).last() == e);
            let n = entry.responses.len();
            let is_ready = !entry.finalized && (n as u64 >= total as u64 || now.not_before(
                &entry.timeout_at,
            ));
            if is_ready {
                let mut sum: u64 = 0;
                let mut j: usize = 0;
                while j < n
                    invariant
                        j <= n == entry.responses.len(),
                        e == tracked_view(entry),
                        sum == rtt_sum(e.responses, j as int),
                    decreases n - j,
                {
                    assert(e.responses[j as int] == (entry.responses@[j as int].0, entry.responses@[j as int].1@));
                    let ms = entry.responses[j].1.as_millis();
                    sum = sum.wrapping_add((ms % 0x1_0000_0000_0000_0000u128) as u64);
                    j += 1;
                }
                let ghost before = shares@;
                let mut j: usize = 0;
                while j < n
                    invariant
                        j <= n == entry.responses.len(),
                        e == tracked_view(entry),
                        sum == rtt_sum(e.responses, n as int),
                        shares@ == before + shares_of(e, total).take(j as int),
                    decreases n - j,
                {
                    assert(shares_of(e, total).take(j + 1) =~= shares_of(e, total).take(j as int).push(shares_of(e, total)[j as int]));
                    shares.push(
                        BroadcastShare {
                            client_id: entry.responses[j].0,
                            response_count: n,
                            total_clients: total,
                            total_rtt_ms: sum,
                        },
                    );
                    j += 1;
                }
                assert(shares_of(e, total).take(n as int) =~= shares_of(e, total));
                let ghost kv = kept@.map_values(|m: BroadcastMessage| tracked_view(m));
                assert(kv + Seq::<TrackedView>::empty() =~= kv);
            } else {
                let ghost kv = kept@.map_values(|m: BroadcastMessage| tracked_view(m));
                kept.push(entry);
                assert(kept@.map_values(|m: BroadcastMessage| tracked_view(m)) =~= kv + seq![e]);
                assert(shares@ + Seq::<BroadcastShare>::empty() =~= shares@);
            }
        }
        assert(es.take(es.len() as int) =~= es);
        proof {
            lemma_unready_ids(es, total, now@);
        }
        self.messages = kept;
        shares
    }
}

} // verus!
