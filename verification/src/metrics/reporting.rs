//! What a test report shows of the HTTP status codes.

use vstd::prelude::*;
use vstd::std_specs::iter::IteratorSpec;
use crate::metrics::aggregate::AggregateMetrics;

verus! {

broadcast use vstd::std_specs::hash::group_hash_axioms;

/// The name that a report gives to an HTTP status code.
pub open spec fn status_label(code: u16) -> Seq<char> {
    if code == 200 {
        "OK"@
    } else if code == 201 {
        "Created"@
    } else if code == 400 {
        "Bad Request"@
    } else if code == 401 {
        "Unauthorized"@
    } else if code == 403 {
        "Forbidden"@
    } else if code == 404 {
        "Not Found"@
    } else if code == 500 {
        "Internal Server Error"@
    } else if code == 502 {
        "Bad Gateway"@
    } else if code == 503 {
        "Service Unavailable"@
    } else {
        "Unknown"@
    }
}

/// The name of an HTTP status code in a report.
pub fn status_text(code: u16) -> (t: &'static str)
    ensures
        t@ == status_label(code),
{
    match code {
        200 => "OK",
        201 => "Created",
        400 => "Bad Request",
        401 => "Unauthorized",
        403 => "Forbidden",
        404 => "Not Found",
        500 => "Internal Server Error",
        502 => "Bad Gateway",
        503 => "Service Unavailable",
        _ => "Unknown",
    }
}

/// `v` lists the entries of `codes`, each once, by increasing code.
pub open spec fn by_code(v: Seq<(u16, u64)>, codes: Map<u16, u64>) -> bool {
    &&& forall|i: int, j: int| 0 <= i < j < v.len() ==> (#[trigger] v[i]).0 < (#[trigger] v[j]).0
    &&& forall|i: int| 0 <= i < v.len() ==> codes.contains_key((#[trigger] v[i]).0) && codes[v[i].0] == v[i].1
    &&& forall|c: u16| #[trigger] codes.contains_key(c) ==> exists|i: int| 0 <= i < v.len() && (#[trigger] v[i]).0 == c
}

/// The codes of `v` increase strictly.
pub open spec fn increasing_codes(v: Seq<(u16, u64)>) -> bool {
    forall|i: int, j: int| 0 <= i < j < v.len() ==> (#[trigger] v[i]).0 < (#[trigger] v[j]).0
}

/// Puts `(code, count)` into `v` where its code belongs.
fn insert_by_code(v: &mut Vec<(u16, u64)>, code: u16, count: u64)
    requires
        increasing_codes(old(v)@),
        forall|i: int| 0 <= i < old(v).len() ==> (#[trigger] old(v)@[i]).0 != code,
    ensures
        increasing_codes(final(v)@),
        final(v).len() == old(v).len() + 1,
        forall|e: (u16, u64)| #[trigger] final(v)@.contains(e) <==> (old(v)@.contains(e) || e == (code, count)),
{
    let mut p: usize = 0;
    while p < v.len() && v[p].0 < code
        invariant
            p <= v.len(),
            forall|i: int| 0 <= i < p ==> (#[trigger] v@[i]).0 < code,
        decreases v.len() - p,
    {
        p += 1;
    }
    let ghost before = v@;
    proof {
        if p < v.len() {
            assert(v@[p as int].0 != code);
        }
    }
    v.insert(p, (code, count));
    proof {
        assert forall|i: int, j: int| 0 <= i < j < v.len() implies (#[trigger] v@[i]).0 < (#[trigger] v@[j]).0 by {
            if j < p {
                assert(v@[i] == before[i] && v@[j] == before[j]);
            } else if j == p {
                assert(v@[i] == before[i]);
            } else if i < p {
                assert(v@[i] == before[i] && v@[j] == before[j - 1]);
                if j - 1 > p {
                    assert(before[p as int].0 < before[j - 1].0);
                }
            } else if i == p {
                assert(v@[j] == before[j - 1]);
                if j - 1 > p {
                    assert(before[p as int].0 < before[j - 1].0);
                }
            } else {
                assert(v@[i] == before[i - 1] && v@[j] == before[j - 1]);
            }
        }
        assert forall|e: (u16, u64)| #[trigger] v@.contains(e) <==> (before.contains(e) || e == (code, count)) by {
            if v@.contains(e) {
                let i = choose|i: int| 0 <= i < v.len() && v@[i] == e;
                if i < p {
                    assert(before[i] == e);
                } else if i > p {
                    assert(before[i - 1] == e);
                }
            }
            if before.contains(e) {
                let i = choose|i: int| 0 <= i < before.len() && before[i] == e;
                if i < p {
                    assert(v@[i] == e);
                } else {
                    assert(v@[i + 1] == e);
                }
            }
            if e == (code, count) {
                assert(v@[p as int] == e);
            }
        }
    }
}

impl AggregateMetrics {
    /// The HTTP status codes received and how often each came, by
    /// increasing code.
    pub fn status_code_counts(&self) -> (v: Vec<(u16, u64)>)
        ensures
            by_code(v@, self.http_status_codes@),
    {
        let ghost codes = self.http_status_codes@;
        let ghost ks = vstd::std_specs::hash::spec_keys_iter(&self.http_status_codes).remaining();
        proof {
            vstd::std_specs::hash::axiom_spec_keys_iter(&self.http_status_codes);
        }
        let ghost keys = ks.unref();
        let mut v: Vec<(u16, u64)> = Vec::new();
        for k in it: self.http_status_codes.keys()
            invariant
                it.seq() == ks,
                keys == ks.unref(),
                keys.no_duplicates(),
                keys.to_set() == codes.dom(),
                codes == self.http_status_codes@,
                increasing_codes(v@),
                forall|e: (u16, u64)| #[trigger] v@.contains(e) ==> codes.contains_key(e.0) && codes[e.0] == e.1
                    && keys.take(it.index() as int).contains(e.0),
                forall|j: int| 0 <= j < it.index() ==> v@.contains((#[trigger] keys[j], codes[keys[j]])),
        {
            let ghost idx = it.index() as int;
            proof {
                assert(keys[idx] == *k);
                assert(keys.to_set().contains(keys[idx]));
            }
            let code = *k;
            let count = *self.http_status_codes.get(k).unwrap();
            proof {
                assert forall|i: int| 0 <= i < v.len() implies (#[trigger] v@[i]).0 != code by {
                    assert(v@.contains(v@[i]));
                    let j = choose|j: int| 0 <= j < idx && keys.take(idx)[j] == v@[i].0;
                    assert(keys[j] == keys.take(idx)[j]);
                }
            }
            let ghost before = v@;
            insert_by_code(&mut v, code, count);
            proof {
                assert forall|e: (u16, u64)| #[trigger] v@.contains(e) implies codes.contains_key(e.0) && codes[e.0] == e.1
                    && keys.take(idx + 1).contains(e.0) by {
                    if before.contains(e) {
                        let j = choose|j: int| 0 <= j < idx && keys.take(idx)[j] == e.0;
                        assert(keys.take(idx + 1)[j] == e.0);
                    } else {
                        assert(keys.take(idx + 1)[idx] == e.0);
                    }
                }
                assert forall|j: int| 0 <= j < idx + 1 implies v@.contains((#[trigger] keys[j], codes[keys[j]])) by {
                    if j < idx {
                        assert(before.contains((keys[j], codes[keys[j]])));
                    }
                }
            }
        }
        proof {
            assert forall|i: int| 0 <= i < v.len() implies codes.contains_key((#[trigger] v@[i]).0) && codes[v@[i].0] == v@[i].1 by {
                assert(v@.contains(v@[i]));
            }
            assert forall|c: u16| #[trigger] codes.contains_key(c) implies exists|i: int| 0 <= i < v.len() && (#[trigger] v@[i]).0 == c by {
                assert(keys.to_set().contains(c));
                let j = choose|j: int| 0 <= j < keys.len() && keys[j] == c;
                assert(v@.contains((keys[j], codes[keys[j]])));
                let i = choose|i: int| 0 <= i < v.len() && v@[i] == (keys[j], codes[keys[j]]);
                assert(v@[i].0 == c);
            }
        }
        v
    }
}

} // verus!
