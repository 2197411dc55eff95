//! Sums of a per-client count over all clients, which do not depend on the
//! order in which the clients are listed.

use vstd::prelude::*;
use vstd::arithmetic::div_mod::{lemma_add_mod_noop_right, lemma_mod_sub_multiples_vanish, lemma_small_mod};
use crate::metrics::client::ClientMetrics;

verus! {

/// The number of `u64` values: sums of `u64` counters wrap modulo this.
pub open spec fn u64_range() -> nat {
    0x1_0000_0000_0000_0000
}

/// `n` reduced to a `u64`, as wrapping additions leave it.
pub open spec fn wrapped(n: nat) -> u64 {
    (n % u64_range()) as u64
}

/// The sum of `f` over the clients of `cs` named by `ks`, in order.
pub open spec fn sum_over(cs: Map<u32, ClientMetrics>, ks: Seq<u32>, f: spec_fn(ClientMetrics) -> nat) -> nat
    decreases ks.len(),
{
    if ks.len() == 0 {
        0
    } else {
        sum_over(cs, ks.drop_last(), f) + f(cs[ks.last()])
    }
}

/// `ks` names each client of `cs` exactly once.
pub open spec fn lists_clients(cs: Map<u32, ClientMetrics>, ks: Seq<u32>) -> bool {
    ks.no_duplicates() && ks.to_set() == cs.dom()
}

/// The sum of `f` over all clients of `cs` (which, by
/// `lemma_sum_any_listing`, any listing of them gives).
pub open spec fn sum_over_clients(cs: Map<u32, ClientMetrics>, f: spec_fn(ClientMetrics) -> nat) -> nat {
    sum_over(cs, choose|ks: Seq<u32>| lists_clients(cs, ks), f)
}

/// The round-trip milliseconds of a client, as a natural number.
pub open spec fn rtt_of(m: ClientMetrics) -> nat {
    m.total_rtt_ms as nat
}

/// The responses of a client, as a natural number.
pub open spec fn received_of(m: ClientMetrics) -> nat {
    m.messages_received as nat
}

proof fn lemma_sum_remove(cs: Map<u32, ClientMetrics>, ks: Seq<u32>, j: int, f: spec_fn(ClientMetrics) -> nat)
    requires
        0 <= j < ks.len(),
    ensures
        sum_over(cs, ks, f) == sum_over(cs, ks.remove(j), f) + f(cs[ks[j]]),
    decreases ks.len(),
{
    if j == ks.len() - 1 {
        assert(ks.remove(j) =~= ks.drop_last());
    } else {
        lemma_sum_remove(cs, ks.drop_last(), j, f);
        assert(ks.remove(j).drop_last() =~= ks.drop_last().remove(j));
        assert(ks.remove(j).last() == ks.last());
    }
}

/// Two listings of the same clients, each without repetition, give the
/// same sum.
pub proof fn lemma_sum_any_listing(cs: Map<u32, ClientMetrics>, a: Seq<u32>, b: Seq<u32>, f: spec_fn(ClientMetrics) -> nat)
    requires
        a.no_duplicates(),
        b.no_duplicates(),
        a.to_set() == b.to_set(),
    ensures
        sum_over(cs, a, f) == sum_over(cs, b, f),
    decreases a.len(),
{
    if a.len() == 0 {
        if b.len() > 0 {
            assert(b.to_set().contains(b[0]));
            assert(a.to_set().contains(b[0]));
        }
    } else {
        let x = a.last();
        assert(a.to_set().contains(x)) by {
            assert(a[a.len() - 1] == x);
        }
        assert(b.to_set().contains(x));
        let j = choose|j: int| 0 <= j < b.len() && b[j] == x;
        let a2 = a.drop_last();
        let b2 = b.remove(j);
        assert(a2.no_duplicates()) by {
            assert forall|p: int, q: int| 0 <= p < a2.len() && 0 <= q < a2.len() && p != q implies a2[p] != a2[q] by {
                assert(a2[p] == a[p] && a2[q] == a[q]);
            }
        }
        assert(b2.no_duplicates()) by {
            assert forall|p: int, q: int| 0 <= p < b2.len() && 0 <= q < b2.len() && p != q implies b2[p] != b2[q] by {
                let pp = if p < j { p } else { p + 1 };
                let qq = if q < j { q } else { q + 1 };
                assert(b2[p] == b[pp] && b2[q] == b[qq]);
            }
        }
        assert(a2.to_set() =~= b2.to_set()) by {
            assert forall|y: u32| a2.to_set().contains(y) implies b2.to_set().contains(y) by {
                let i = choose|i: int| 0 <= i < a2.len() && a2[i] == y;
                assert(a[i] == y);
                assert(y != x) by {
                    assert(a[a.len() - 1] == x);
                }
                assert(a.to_set().contains(y));
                assert(b.to_set().contains(y));
                let k = choose|k: int| 0 <= k < b.len() && b[k] == y;
                assert(k != j);
                if k < j {
                    assert(b2[k] == y);
                } else {
                    assert(b2[k - 1] == y);
                }
            }
            assert forall|y: u32| b2.to_set().contains(y) implies a2.to_set().contains(y) by {
                let i = choose|i: int| 0 <= i < b2.len() && b2[i] == y;
                let ii = if i < j { i } else { i + 1 };
                assert(b[ii] == y);
                assert(ii != j);
                assert(y != x);
                assert(b.to_set().contains(y));
                assert(a.to_set().contains(y));
                let k = choose|k: int| 0 <= k < a.len() && a[k] == y;
                assert(k != a.len() - 1);
                assert(a2[k] == y);
            }
        }
        lemma_sum_any_listing(cs, a2, b2, f);
        lemma_sum_remove(cs, b, j, f);
    }
}

/// The sum over any listing of the clients is the sum over all clients.
pub proof fn lemma_sum_over_clients(cs: Map<u32, ClientMetrics>, ks: Seq<u32>, f: spec_fn(ClientMetrics) -> nat)
    requires
        lists_clients(cs, ks),
    ensures
        sum_over(cs, ks, f) == sum_over_clients(cs, f),
{
    let chosen = choose|ks: Seq<u32>| lists_clients(cs, ks);
    assert(lists_clients(cs, chosen));
    lemma_sum_any_listing(cs, ks, chosen, f);
}

/// Adding `x` to a wrapped sum wraps the larger sum.
pub proof fn lemma_wrapped_step(s: nat, x: u64)
    ensures
        wrapped(s + x as nat) == vstd::wrapping::u64_specs::wrapping_add(wrapped(s), x),
{
    let m = u64_range() as int;
    let a = s % u64_range();
    lemma_add_mod_noop_right(x as int, s as int, m);
    if a + x < m {
        lemma_small_mod((a + x) as nat, m as nat);
    } else {
        lemma_mod_sub_multiples_vanish((a + x) as int, m);
        lemma_small_mod((a + x - m) as nat, m as nat);
    }
}

/// The sum of `f` over all clients of `cs`, wrapped as `u64` counters
/// wrap.
pub open spec fn wrapped_total(cs: Map<u32, ClientMetrics>, f: spec_fn(ClientMetrics) -> nat) -> u64 {
    wrapped(sum_over_clients(cs, f))
}

/// A finite set of clients can be listed.
pub proof fn lemma_listing_exists(cs: Map<u32, ClientMetrics>)
    requires
        cs.dom().finite(),
    ensures
        lists_clients(cs, cs.dom().to_seq()),
{
    lemma_to_seq_no_duplicates(cs.dom());
    cs.dom().lemma_to_seq_to_set_id();
}

proof fn lemma_to_seq_no_duplicates(s: Set<u32>)
    requires
        s.finite(),
    ensures
        s.to_seq().no_duplicates(),
    decreases s.len(),
{
    if s.len() > 0 {
        let x = s.choose();
        let rest = s.remove(x);
        lemma_to_seq_no_duplicates(rest);
        rest.lemma_to_seq_to_set_id();
        let t = s.to_seq();
        let r = rest.to_seq();
        assert(t =~= Seq::<u32>::empty().push(x) + r);
        assert forall|i: int, j: int| 0 <= i < t.len() && 0 <= j < t.len() && i != j implies t[i] != t[j] by {
            if i == 0 && j > 0 {
                assert(t[j] == r[j - 1]);
                assert(r.to_set().contains(r[j - 1]));
            } else if j == 0 && i > 0 {
                assert(t[i] == r[i - 1]);
                assert(r.to_set().contains(r[i - 1]));
            } else if i > 0 && j > 0 {
                assert(t[i] == r[i - 1] && t[j] == r[j - 1]);
            }
        }
    }
}

/// A listing that does not name `k` sums the same with any entry at `k`.
proof fn lemma_sum_without(cs: Map<u32, ClientMetrics>, ks: Seq<u32>, k: u32, m: ClientMetrics, f: spec_fn(ClientMetrics) -> nat)
    requires
        !ks.contains(k),
    ensures
        sum_over(cs.insert(k, m), ks, f) == sum_over(cs, ks, f),
    decreases ks.len(),
{
    if ks.len() > 0 {
        assert(!ks.drop_last().contains(k)) by {
            if ks.drop_last().contains(k) {
                let i = choose|i: int| 0 <= i < ks.drop_last().len() && ks.drop_last()[i] == k;
                assert(ks[i] == k);
            }
        }
        assert(ks.last() != k) by {
            assert(ks[ks.len() - 1] == ks.last());
        }
        lemma_sum_without(cs, ks.drop_last(), k, m, f);
    }
}

/// Replacing the entry at `k` in a listing that names `k` once changes the
/// sum by the difference.
proof fn lemma_sum_replace(cs: Map<u32, ClientMetrics>, ks: Seq<u32>, k: u32, m: ClientMetrics, f: spec_fn(ClientMetrics) -> nat)
    requires
        ks.no_duplicates(),
        ks.contains(k),
    ensures
        sum_over(cs.insert(k, m), ks, f) + f(cs[k]) == sum_over(cs, ks, f) + f(m),
    decreases ks.len(),
{
    let init = ks.drop_last();
    if ks.last() == k {
        assert(!init.contains(k)) by {
            if init.contains(k) {
                let i = choose|i: int| 0 <= i < init.len() && init[i] == k;
                assert(ks[i] == ks[ks.len() - 1]);
            }
        }
        lemma_sum_without(cs, init, k, m, f);
    } else {
        assert(init.contains(k)) by {
            let i = choose|i: int| 0 <= i < ks.len() && ks[i] == k;
            assert(i != ks.len() - 1);
            assert(init[i] == k);
        }
        assert(init.no_duplicates()) by {
            assert forall|p: int, q: int| 0 <= p < init.len() && 0 <= q < init.len() && p != q implies init[p] != init[q] by {
                assert(init[p] == ks[p] && init[q] == ks[q]);
            }
        }
        lemma_sum_replace(cs, init, k, m, f);
    }
}

/// Replacing the metrics of a client changes a sum over all clients by the
/// difference.
pub proof fn lemma_sum_update(cs: Map<u32, ClientMetrics>, k: u32, m: ClientMetrics, f: spec_fn(ClientMetrics) -> nat)
    requires
        cs.dom().finite(),
        cs.contains_key(k),
    ensures
        sum_over_clients(cs.insert(k, m), f) + f(cs[k]) == sum_over_clients(cs, f) + f(m),
{
    let ks = cs.dom().to_seq();
    lemma_listing_exists(cs);
    assert(cs.insert(k, m).dom() =~= cs.dom());
    assert(ks.to_set().contains(k));
    lemma_sum_replace(cs, ks, k, m, f);
    lemma_sum_over_clients(cs, ks, f);
    lemma_sum_over_clients(cs.insert(k, m), ks, f);
}

/// Adding a client adds its count to a sum over all clients.
pub proof fn lemma_sum_insert(cs: Map<u32, ClientMetrics>, k: u32, m: ClientMetrics, f: spec_fn(ClientMetrics) -> nat)
    requires
        cs.dom().finite(),
        !cs.contains_key(k),
    ensures
        sum_over_clients(cs.insert(k, m), f) == sum_over_clients(cs, f) + f(m),
{
    let ks = cs.dom().to_seq();
    lemma_listing_exists(cs);
    let ks2 = ks.push(k);
    assert(!ks.contains(k)) by {
        if ks.contains(k) {
            assert(ks.to_set().contains(k));
        }
    }
    assert(ks2.drop_last() =~= ks);
    lemma_sum_without(cs, ks, k, m, f);
    assert(lists_clients(cs.insert(k, m), ks2)) by {
        assert forall|p: int, q: int| 0 <= p < ks2.len() && 0 <= q < ks2.len() && p != q implies ks2[p] != ks2[q] by {
            if p < ks.len() && q < ks.len() {
                assert(ks2[p] == ks[p] && ks2[q] == ks[q]);
            } else if p < ks.len() {
                assert(ks2[p] == ks[p]);
                assert(ks.contains(ks[p]));
            } else if q < ks.len() {
                assert(ks2[q] == ks[q]);
                assert(ks.contains(ks[q]));
            }
        }
        assert forall|x: u32| ks2.to_set().contains(x) <==> cs.insert(k, m).dom().contains(x) by {
            if ks2.contains(x) {
                let i = choose|i: int| 0 <= i < ks2.len() && ks2[i] == x;
                if i < ks.len() {
                    assert(ks[i] == x);
                    assert(ks.to_set().contains(x));
                }
            }
            if cs.insert(k, m).dom().contains(x) {
                if x == k {
                    assert(ks2[ks.len() as int] == x);
                } else {
                    assert(ks.to_set().contains(x));
                    let i = choose|i: int| 0 <= i < ks.len() && ks[i] == x;
                    assert(ks2[i] == x);
                }
            }
        }
        assert(ks2.to_set() =~= cs.insert(k, m).dom());
    }
    lemma_sum_over_clients(cs, ks, f);
    lemma_sum_over_clients(cs.insert(k, m), ks2, f);
}

/// Over no clients, every sum is zero.
pub proof fn lemma_sum_empty(f: spec_fn(ClientMetrics) -> nat)
    ensures
        sum_over_clients(Map::<u32, ClientMetrics>::empty(), f) == 0,
{
    let cs = Map::<u32, ClientMetrics>::empty();
    let ks = Seq::<u32>::empty();
    assert(ks.to_set() =~= cs.dom());
    lemma_sum_over_clients(cs, ks, f);
}

/// A sum in which one `u64` count was bumped (wrapping) wraps to the
/// bumped wrapped sum.
pub proof fn lemma_wrapped_bump(s_old: nat, s_new: nat, a: u64)
    requires
        s_new + a == s_old + vstd::wrapping::u64_specs::wrapping_add(a, 1),
    ensures
        wrapped(s_new) == vstd::wrapping::u64_specs::wrapping_add(wrapped(s_old), 1),
{
    lemma_wrapped_step(s_old, 1);
    if a < u64::MAX {
        assert(s_new == s_old + 1);
    } else {
        assert(s_new + u64_range() == s_old + 1);
        lemma_mod_sub_multiples_vanish((s_old + 1) as int, u64_range() as int);
    }
}

} // verus!
