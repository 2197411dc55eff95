//! The messages a client sent and still awaits responses to.

use vstd::prelude::*;
use crate::message::{MessageId, PendingMessage};
use crate::time::{elapsed_between, Duration, Instant};

verus! {

/// What is known of one awaited message: its ID, when it was sent and when
/// it times out.
pub struct AwaitedView {
    pub id: Seq<char>,
    pub sent_at: nat,
    pub timeout_at: nat,
}

pub open spec fn awaited_view(e: (MessageId, PendingMessage)) -> AwaitedView {
    AwaitedView { id: e.0.0@, sent_at: e.1.sent_at@, timeout_at: e.1.timeout_at@ }
}

/// No two entries await the same message.
pub open spec fn distinct_awaited(es: Seq<AwaitedView>) -> bool {
    forall|i: int, j: int| 0 <= i < es.len() && 0 <= j < es.len() && i != j ==> es[i].id != es[j].id
}

/// The position of the message `id`, if it is awaited.
pub open spec fn position_of(es: Seq<AwaitedView>, id: Seq<char>) -> Option<int> {
    if exists|i: int| 0 <= i < es.len() && (#[trigger] es[i]).id == id {
        Some(choose|i: int| 0 <= i < es.len() && (#[trigger] es[i]).id == id)
    } else {
        None
    }
}

/// `i` is the first of the earliest-sent entries.
pub open spec fn is_oldest(es: Seq<AwaitedView>, i: int) -> bool {
    &&& 0 <= i < es.len()
    &&& forall|j: int| 0 <= j < es.len() ==> es[i].sent_at <= (#[trigger] es[j]).sent_at
    &&& forall|j: int| 0 <= j < i ==> (#[trigger] es[j]).sent_at > es[i].sent_at
}

/// `es` with the message `e` added, or put in place of the entry with the
/// same ID.
pub open spec fn with_awaited(es: Seq<AwaitedView>, e: AwaitedView) -> Seq<AwaitedView> {
    match position_of(es, e.id) {
        Some(i) => es.update(i, e),
        None => es.push(e),
    }
}

/// The entries of `es` that have not timed out at `now`, in order.
pub open spec fn unexpired(es: Seq<AwaitedView>, now: nat) -> Seq<AwaitedView>
    decreases es.len(),
{
    if es.len() == 0 {
        Seq::empty()
    } else {
        unexpired(es.drop_last(), now) + if es.last().timeout_at <= now {
            Seq::empty()
        } else {
            seq![es.last()]
        }
    }
}

/// The latest timeout among `es`, if any.
pub open spec fn latest_timeout_of(es: Seq<AwaitedView>) -> Option<nat>
    decreases es.len(),
{
    if es.len() == 0 {
        None
    } else {
        match latest_timeout_of(es.drop_last()) {
            None => Some(es.last().timeout_at),
            Some(t) => Some(if es.last().timeout_at > t {
                es.last().timeout_at
            } else {
                t
            }),
        }
    }
}

pub proof fn lemma_unexpired_members(es: Seq<AwaitedView>, now: nat)
    ensures
        unexpired(es, now).len() <= es.len(),
        forall|i: int|
            0 <= i < unexpired(es, now).len() ==> exists|j: int|
                0 <= j < es.len() && (#[trigger] unexpired(es, now)[i]) == es[j],
        distinct_awaited(es) ==> distinct_awaited(unexpired(es, now)),
    decreases es.len(),
{
    if es.len() > 0 {
        let init = es.drop_last();
        lemma_unexpired_members(init, now);
        let u = unexpired(es, now);
        let ui = unexpired(init, now);
        assert forall|i: int| 0 <= i < u.len() implies exists|j: int|
            0 <= j < es.len() && (#[trigger] u[i]) == es[j] by {
            if i < ui.len() {
                assert(u[i] == ui[i]);
                let j = choose|j: int| 0 <= j < init.len() && ui[i] == init[j];
                assert(es[j] == init[j]);
            } else {
                assert(u[i] == es.last());
                assert(es[es.len() - 1] == es.last());
            }
        }
        if distinct_awaited(es) {
            assert(distinct_awaited(init)) by {
                assert forall|i: int, j: int|
                    0 <= i < init.len() && 0 <= j < init.len() && i != j implies init[i].id
                    != init[j].id by {
                    assert(init[i] == es[i]);
                    assert(init[j] == es[j]);
                }
            }
            assert forall|i: int, j: int|
                0 <= i < u.len() && 0 <= j < u.len() && i != j implies u[i].id != u[j].id by {
                if i < ui.len() && j < ui.len() {
                    assert(u[i] == ui[i]);
                    assert(u[j] == ui[j]);
                } else if i < ui.len() {
                    assert(u[i] == ui[i]);
                    let k = choose|k: int| 0 <= k < init.len() && ui[i] == init[k];
                    assert(u[j] == es.last());
                    assert(init[k] == es[k]);
                    assert(es[es.len() - 1] == es.last());
                } else if j < ui.len() {
                    assert(u[j] == ui[j]);
                    let k = choose|k: int| 0 <= k < init.len() && ui[j] == init[k];
                    assert(u[i] == es.last());
                    assert(init[k] == es[k]);
                    assert(es[es.len() - 1] == es.last());
                }
            }
        }
    }
}

/// The messages a client awaits responses to, each at most once.
#[derive(Debug)]
pub struct PendingMessages {
    entries: Vec<(MessageId, PendingMessage)>,
}

impl PendingMessages {
    #[verifier::type_invariant]
    closed spec fn well_formed(self) -> bool {
        distinct_awaited(self.entries@.map_values(|e: (MessageId, PendingMessage)| awaited_view(e)))
    }

    /// The awaited messages, in the order they were first sent.
    pub closed spec fn awaited(self) -> Seq<AwaitedView> {
        self.entries@.map_values(|e: (MessageId, PendingMessage)| awaited_view(e))
    }

    /// No message awaited.
    pub fn new() -> (p: PendingMessages)
        ensures
            p.awaited() == Seq::<AwaitedView>::empty(),
    {
        let p = PendingMessages { entries: Vec::new() };
        assert(p.awaited() =~= Seq::<AwaitedView>::empty());
        p
    }

    /// The number of awaited messages.
    pub fn len(&self) -> (n: usize)
        ensures
            n == self.awaited().len(),
    {
        self.entries.len()
    }

    fn find(&self, id: &MessageId) -> (r: Option<usize>)
        ensures
            match r {
                Some(i) => i < self.awaited().len() && self.awaited()[i as int].id == id.0@
                    && position_of(self.awaited(), id.0@) == Some(i as int),
                None => position_of(self.awaited(), id.0@) is None,
            },
    {
        proof {
            use_type_invariant(self);
        }
        let ghost es = self.awaited();
        let mut i: usize = 0;
        while i < self.entries.len()
            invariant
                i <= self.entries.len(),
                es == self.awaited(),
                es.len() == self.entries.len(),
                distinct_awaited(es),
                forall|j: int| 0 <= j < i ==> (#[trigger] es[j]).id != id.0@,
            decreases self.entries.len() - i,
        {
            assert(es[i as int] == awaited_view(self.entries@[i as int]));
            if self.entries[i].0.0 == id.0 {
                proof {
                    let k = choose|k: int| 0 <= k < es.len() && (#[trigger] es[k]).id == id.0@;
                    if k != i {
                        assert(es[k].id != es[i as int].id);
                    }
                }
                return Some(i);
            }
            i += 1;
        }
        proof {
            if exists|j: int| 0 <= j < es.len() && (#[trigger] es[j]).id == id.0@ {
                let j = choose|j: int| 0 <= j < es.len() && (#[trigger] es[j]).id == id.0@;
                assert(es[j].id != id.0@);
            }
        }
        None
    }

    /// Starts awaiting the message `id` (replacing an entry with that ID).
    /// Where `max_pending` or more messages are awaited already, the oldest
    /// is dropped first; the result says whether one was.
    pub fn insert_with_limit(&mut self, id: MessageId, message: PendingMessage, max_pending: usize) -> (dropped: bool)
        ensures
            dropped == (old(self).awaited().len() >= max_pending && old(self).awaited().len() > 0),
            dropped ==> exists|i: int|
                is_oldest(old(self).awaited(), i) && #[trigger] final(self).awaited() == with_awaited(
                    old(self).awaited().remove(i),
                    awaited_view((id, message)),
                ),
            !dropped ==> final(self).awaited() == with_awaited(
                old(self).awaited(),
                awaited_view((id, message)),
            ),
    {
        proof {
            use_type_invariant(&*self);
        }
        let ghost es = self.awaited();
        let mut entries: Vec<(MessageId, PendingMessage)> = Vec::new();
        std::mem::swap(&mut entries, &mut self.entries);
        let dropped = entries.len() >= max_pending && entries.len() > 0;
        let ghost mut oldest: int = 0;
        if dropped {
            let mut best: usize = 0;
            let mut j: usize = 1;
            while j < entries.len()
                invariant
                    0 <= best < j <= entries.len(),
                    es == entries@.map_values(|e: (MessageId, PendingMessage)| awaited_view(e)),
                    forall|k: int| 0 <= k < j ==> es[best as int].sent_at <= (#[trigger] es[k]).sent_at,
                    forall|k: int| 0 <= k < best ==> (#[trigger] es[k]).sent_at > es[best as int].sent_at,
                decreases entries.len() - j,
            {
                assert(es[j as int] == awaited_view(entries@[j as int]));
                assert(es[best as int] == awaited_view(entries@[best as int]));
                if !entries[j].1.sent_at.not_before(&entries[best].1.sent_at) {
                    best = j;
                }
                j += 1;
            }
            let _ = entries.remove(best);
            proof {
                oldest = best as int;
                assert(entries@.map_values(|e: (MessageId, PendingMessage)| awaited_view(e)) =~= es.remove(best as int));
            }
        }
        let ghost base = if dropped {
            es.remove(oldest)
        } else {
            es
        };
        proof {
            if dropped {
                assert(distinct_awaited(base)) by {
                    assert forall|a: int, b: int|
                        0 <= a < base.len() && 0 <= b < base.len() && a != b implies base[a].id != base[b].id by {
                        let a2 = if a < oldest { a } else { a + 1 };
                        let b2 = if b < oldest { b } else { b + 1 };
                        assert(base[a] == es[a2]);
                        assert(base[b] == es[b2]);
                    }
                }
            } else {
                assert(entries@.map_values(|e: (MessageId, PendingMessage)| awaited_view(e)) =~= es);
            }
        }
        self.entries = entries;
        assert(self.awaited() == base);
        let found = self.find(&id);
        let ghost e = awaited_view((id, message));
        let mut entries: Vec<(MessageId, PendingMessage)> = Vec::new();
        std::mem::swap(&mut entries, &mut self.entries);
        match found {
            Some(i) => {
                entries.set(i, (id, message));
                proof {
                    let nv = entries@.map_values(|x: (MessageId, PendingMessage)| awaited_view(x));
                    assert(nv =~= base.update(i as int, e));
                    assert forall|a: int, b: int|
                        0 <= a < nv.len() && 0 <= b < nv.len() && a != b implies nv[a].id != nv[b].id by {
                        assert(nv[a].id == base[a].id);
                        assert(nv[b].id == base[b].id);
                    }
                }
            },
            None => {
                entries.push((id, message));
                proof {
                    let nv = entries@.map_values(|x: (MessageId, PendingMessage)| awaited_view(x));
                    assert(nv =~= base.push(e));
                    assert forall|a: int, b: int|
                        0 <= a < nv.len() && 0 <= b < nv.len() && a != b implies nv[a].id != nv[b].id by {
                        if a < base.len() && b < base.len() {
                        } else if a < base.len() {
                            assert(base[a].id != e.id);
                        } else {
                            assert(base[b].id != e.id);
                        }
                    }
                }
            },
        }
        self.entries = entries;
        proof {
            assert(self.awaited() == with_awaited(base, e));
            if dropped {
                assert(is_oldest(es, oldest));
            }
        }
        dropped
    }

    /// Stops awaiting the message `id`; returns its entry if it was awaited.
    pub fn take(&mut self, id: &MessageId) -> (r: Option<PendingMessage>)
        ensures
            match position_of(old(self).awaited(), id.0@) {
                Some(i) => r matches Some(p) && awaited_view((*id, p)).sent_at == old(self).awaited()[i].sent_at
                    && awaited_view((*id, p)).timeout_at == old(self).awaited()[i].timeout_at
                    && final(self).awaited() == old(self).awaited().remove(i),
                None => r is None && final(self).awaited() == old(self).awaited(),
            },
    {
        proof {
            use_type_invariant(&*self);
        }
        let ghost es = self.awaited();
        match self.find(id) {
            Some(i) => {
                let mut entries: Vec<(MessageId, PendingMessage)> = Vec::new();
                std::mem::swap(&mut entries, &mut self.entries);
                assert(es[i as int] == awaited_view(entries@[i as int]));
                let (_, p) = entries.remove(i);
                proof {
                    let nv = entries@.map_values(|x: (MessageId, PendingMessage)| awaited_view(x));
                    assert(nv =~= es.remove(i as int));
                    assert forall|a: int, b: int|
                        0 <= a < nv.len() && 0 <= b < nv.len() && a != b implies nv[a].id != nv[b].id by {
                        let a2 = if a < i { a } else { a + 1 };
                        let b2 = if b < i { b } else { b + 1 };
                        assert(nv[a] == es[a2]);
                        assert(nv[b] == es[b2]);
                    }
                }
                self.entries = entries;
                Some(p)
            },
            None => None,
        }
    }

    /// Takes the response to the message `id`, received at `now`: the
    /// message is no longer awaited, and its round-trip time is returned;
    /// `None` for a message not awaited.
    pub fn answer(&mut self, id: &MessageId, now: Instant) -> (rtt: Option<Duration>)
        ensures
            match position_of(old(self).awaited(), id.0@) {
                Some(i) => rtt matches Some(d) && d@ == elapsed_between(now@, old(self).awaited()[i].sent_at)
                    && final(self).awaited() == old(self).awaited().remove(i),
                None => rtt is None && final(self).awaited() == old(self).awaited(),
            },
    {
        match self.take(id) {
            Some(p) => Some(p.calculate_rtt(now)),
            None => None,
        }
    }

    /// Stops awaiting every message whose timeout is at or before `now`;
    /// returns how many there were.
    pub fn remove_expired(&mut self, now: Instant) -> (n: usize)
        ensures
            final(self).awaited() == unexpired(old(self).awaited(), now@),
            n == old(self).awaited().len() - final(self).awaited().len(),
    {
        proof {
            use_type_invariant(&*self);
        }
        let ghost es = self.awaited();
        let mut entries: Vec<(MessageId, PendingMessage)> = Vec::new();
        std::mem::swap(&mut entries, &mut self.entries);
        let total = entries.len();
        let mut kept: Vec<(MessageId, PendingMessage)> = Vec::new();
        for e in it: entries
            invariant
                es == it.seq().map_values(|x: (MessageId, PendingMessage)| awaited_view(x)),
                kept@.map_values(|x: (MessageId, PendingMessage)| awaited_view(x)) == unexpired(
                    es.take(it.index() as int),
                    now@,
                ),
        {
            let ghost k = it.index() as int;
            assert(es.take(k + 1).drop_last() =~= es.take(k));
            assert(es.take(k + 1).last() == awaited_view(e));
            let ghost kv = kept@.map_values(|x: (MessageId, PendingMessage)| awaited_view(x));
            if !now.not_before(&e.1.timeout_at) {
                kept.push(e);
                assert(kept@.map_values(|x: (MessageId, PendingMessage)| awaited_view(x)) =~= kv
                    + seq![awaited_view(e)]);
            } else {
                assert(kv + Seq::<AwaitedView>::empty() =~= kv);
            }
        }
        assert(es.take(es.len() as int) =~= es);
        proof {
            lemma_unexpired_members(es, now@);
        }
        let n = total - kept.len();
        self.entries = kept;
        n
    }

    /// The latest timeout among the awaited messages, if any.
    pub fn latest_timeout(&self) -> (t: Option<Instant>)
        ensures
            match latest_timeout_of(self.awaited()) {
                Some(l) => t matches Some(i) && i@ == l,
                None => t is None,
            },
    {
        let ghost es = self.awaited();
        let mut latest: Option<Instant> = None;
        let mut i: usize = 0;
        while i < self.entries.len()
            invariant
                i <= self.entries.len(),
                es == self.awaited(),
                es.len() == self.entries.len(),
                match latest_timeout_of(es.take(i as int)) {
                    Some(l) => latest matches Some(x) && x@ == l,
                    None => latest is None,
                },
            decreases self.entries.len() - i,
        {
            assert(es.take(i + 1).drop_last() =~= es.take(i as int));
            assert(es.take(i + 1).last() == awaited_view(self.entries@[i as int]));
            let t = self.entries[i].1.timeout_at;
            latest = match latest {
                None => Some(t),
                Some(l) => if !l.not_before(&t) {
                    Some(t)
                } else {
                    Some(l)
                },
            };
            i += 1;
        }
        assert(es.take(es.len() as int) =~= es);
        latest
    }

    /// Stops awaiting every message; returns how many there were.
    pub fn clear(&mut self) -> (n: usize)
        ensures
            n == old(self).awaited().len(),
            final(self).awaited() == Seq::<AwaitedView>::empty(),
    {
        let n = self.entries.len();
        self.entries = Vec::new();
        assert(self.awaited() =~= Seq::<AwaitedView>::empty());
        n
    }
}

} // verus!
