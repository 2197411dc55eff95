//! Properties that relate several operations of the library, or that hold
//! of every input or every state.

use vstd::prelude::*;
use crate::client::messaging::{distinct_ids, index_of, ready, unready, TrackedView, lemma_unready_ids};
use crate::client::pending::{distinct_awaited, is_oldest, latest_timeout_of, with_awaited, AwaitedView, position_of, unexpired};
use crate::client::websocket::{backoff_millis, power_of_two};
use crate::address::url_parts;
use crate::config::{first_bad_header, header_pair, Config, HttpMethod, ProtocolConfig, WSMode};
use crate::config::parser::{converted_from, duration_result, u64_modulus, ConnectionModeArg, HttpMethodArg, RawConfig, WSModeArg};
use crate::config::validation::{headers_error, payload_error, payload_error_of, validation_error, client_error, test_error, target_error};
use crate::json::{json_document, JsonDocumentView, JsonFieldView};
use crate::common::ClientId;
use crate::metrics::aggregate::{aggregate_recorded, same_totals, totals_match_clients, AggregateMetrics};
use crate::metrics::client::{after_success, is_fresh, recorded, rtt_consistent, rtt_millis, ClientMetrics, MetricEvent};
use crate::metrics::totals::{lemma_sum_empty, lemma_sum_insert, lemma_sum_update, lemma_wrapped_bump, sum_over_clients};
use crate::patterns::grammar::{matches_in, PatternKind};
use crate::patterns::values::{int_bound, int_choice};
use crate::patterns::{decimals_of, pass_result, replacements_ok, splice};
use vstd::utf8::encode_utf8;
use crate::text::{
    all_ascii_digits, digits_value, find_char, is_ascii_digit, is_white_space, lemma_find_char_bounds,
    parse_u64_spec, skip_ws, trim, trim_end_from, parse_i64_spec,
};
use crate::time::Duration;

verus! {

// ---------------------------------------------------------------------------
// Configuration
// ---------------------------------------------------------------------------

proof fn lemma_find_char_contains(h: Seq<char>, c: char)
    ensures
        find_char(h, c, 0) < h.len() <==> h.contains(c),
{
    lemma_find_char_bounds(h, c, 0);
    if h.contains(c) {
        let i = choose|i: int| 0 <= i < h.len() && h[i] == c;
        if find_char(h, c, 0) >= h.len() {
            assert(h[i] != c);
        }
    }
}

/// A configuration that passes validation has custom headers that all
/// split into a key and a value: `custom_headers` cannot fail on it.
pub proof fn law_validated_headers_split(c: Config)
    requires
        validation_error(c) is None,
    ensures
        first_bad_header(c.target.headers@) is None,
        forall|i: int|
            0 <= i < c.target.headers.len() ==> header_pair(#[trigger] c.target.headers@[i]@) is Some,
{
    assert(headers_error(c) is None);
    assert forall|i: int| 0 <= i < c.target.headers.len() implies header_pair(
        #[trigger] c.target.headers@[i]@,
    ) is Some by {
        lemma_find_char_contains(c.target.headers@[i]@, ':');
        if !c.target.headers@[i]@.contains(':') {
            assert(0 <= i < c.target.headers.len() && !(c.target.headers@[i]@).contains(':'));
        }
    }
    if exists|i: int| 0 <= i < c.target.headers.len() && header_pair(#[trigger] c.target.headers@[i]@) is None {
        let i = choose|i: int| 0 <= i < c.target.headers.len() && header_pair(#[trigger] c.target.headers@[i]@) is None;
        assert(header_pair(c.target.headers@[i]@) is Some);
    }
}

/// A configuration that passes validation has between 1 and 10000
/// clients, a nonzero timeout, a termination condition with nonzero
/// values, and a payload that is a JSON object whose `id` is a string in
/// WebSocket mode, and a target URL whose scheme suits the mode. So the
/// message share of each client is defined, and the message ID of the
/// payload can be extracted.
pub proof fn law_validated_config_is_runnable(c: Config)
    requires
        validation_error(c) is None,
    ensures
        1 <= c.client.count <= 10_000,
        c.client.timeout@ > 0,
        c.test.duration is Some || c.test.total_messages is Some,
        c.test.duration matches Some(d) ==> d@ > 0,
        c.test.total_messages matches Some(n) ==> n > 0,
        json_document(c.test.payload@, "id"@) is Object,
        c.protocol is WebSocket ==> json_document(c.test.payload@, "id"@) matches JsonDocumentView::Object(JsonFieldView::Text(_)),
        url_parts(c.target.url@) matches Ok((scheme, _, _)) && (if c.protocol is WebSocket {
            scheme == "ws"@ || scheme == "wss"@
        } else {
            scheme == "http"@ || scheme == "https"@
        }),
{
    assert(target_error(c) is None);
    assert(client_error(c) is None);
    assert(test_error(c) is None);
    assert(payload_error(c) is None);
}

proof fn lemma_trim_plain(s: Seq<char>)
    requires
        forall|i: int| 0 <= i < s.len() ==> !is_white_space(#[trigger] s[i]),
    ensures
        trim(s) == s,
{
    assert(skip_ws(s, 0) == 0);
    if s.len() > 0 {
        assert(!is_white_space(s[s.len() - 1]));
    }
    assert(trim_end_from(s, 0, s.len() as int) == s.len());
    assert(s.subrange(0, s.len() as int) =~= s);
}

/// A run of decimal digits followed by a unit counts seconds (`s`),
/// minutes (`m`) or hours (`h`), in either case, and a bare run of digits
/// counts seconds; minutes and hours are multiplied in wrapping `u64`
/// arithmetic.
pub proof fn law_duration_units(d: Seq<char>)
    requires
        d.len() > 0,
        all_ascii_digits(d),
        digits_value(d) <= u64::MAX,
    ensures
        duration_result(d) == Ok::<u64, Seq<char>>(digits_value(d) as u64),
        duration_result(d.push('s')) == Ok::<u64, Seq<char>>(digits_value(d) as u64),
        duration_result(d.push('S')) == Ok::<u64, Seq<char>>(digits_value(d) as u64),
        duration_result(d.push('m')) == Ok::<u64, Seq<char>>(((digits_value(d) as int * 60) % u64_modulus()) as u64),
        duration_result(d.push('M')) == Ok::<u64, Seq<char>>(((digits_value(d) as int * 60) % u64_modulus()) as u64),
        duration_result(d.push('h')) == Ok::<u64, Seq<char>>(((digits_value(d) as int * 3600) % u64_modulus()) as u64),
        duration_result(d.push('H')) == Ok::<u64, Seq<char>>(((digits_value(d) as int * 3600) % u64_modulus()) as u64),
{
    assert forall|i: int| 0 <= i < d.len() implies !is_white_space(#[trigger] d[i]) by {
        assert(is_ascii_digit(d[i]));
    }
    lemma_trim_plain(d);
    assert(d.len() > 0 && all_ascii_digits(d));
    assert(d.last() == d[d.len() - 1]);
    assert(is_ascii_digit(d.last()));
    assert(parse_u64_spec(d) == Some(digits_value(d) as u64)) by {
        if d[0] == '+' {
            assert(is_ascii_digit(d[0]));
        }
    }
    let units = seq!['s', 'S', 'm', 'M', 'h', 'H'];
    assert forall|k: int| 0 <= k < 6 implies #[trigger] trim(d.push(units[k])) == d.push(units[k]) && d.push(units[k]).drop_last() == d by {
        let e = d.push(units[k]);
        assert forall|i: int| 0 <= i < e.len() implies !is_white_space(#[trigger] e[i]) by {
            if i < d.len() {
                assert(e[i] == d[i]);
                assert(is_ascii_digit(d[i]));
            }
        }
        lemma_trim_plain(e);
        assert(e.drop_last() =~= d);
    }
    assert(trim(d.push('s')) == d.push('s') && d.push('s').drop_last() == d) by { assert(units[0] == 's'); }
    assert(trim(d.push('S')) == d.push('S') && d.push('S').drop_last() == d) by { assert(units[1] == 'S'); }
    assert(trim(d.push('m')) == d.push('m') && d.push('m').drop_last() == d) by { assert(units[2] == 'm'); }
    assert(trim(d.push('M')) == d.push('M') && d.push('M').drop_last() == d) by { assert(units[3] == 'M'); }
    assert(trim(d.push('h')) == d.push('h') && d.push('h').drop_last() == d) by { assert(units[4] == 'h'); }
    assert(trim(d.push('H')) == d.push('H') && d.push('H').drop_last() == d) by { assert(units[5] == 'H'); }
}

/// The clients together send at most the requested total, and fewer than
/// one message per client short of it: each sends the total divided by the
/// number of clients, rounded down.
pub proof fn law_message_shares(total: u64, count: u32)
    requires
        count > 0,
    ensures
        count * (total / (count as u64)) <= total,
        total < count * (total / (count as u64) + 1),
{
    let q = total / (count as u64);
    let r = total % (count as u64);
    assert(total == count * q + r && 0 <= r < count) by (nonlinear_arith)
        requires
            count > 0,
            q == total / (count as u64),
            r == total % (count as u64),
    ;
    assert(count * (q + 1) == count * q + count) by (nonlinear_arith);
}

/// A message interval never exceeds the per-second budget: `rate` messages
/// spaced by the interval fit in one second.
pub proof fn law_interval_fits_rate(rate: u32)
    requires
        rate > 0,
    ensures
        (1000int / (rate as int)) * (rate as int) <= 1000,
{
    assert((1000int / (rate as int)) * (rate as int) <= 1000) by (nonlinear_arith)
        requires
            rate > 0,
    ;
}

// ---------------------------------------------------------------------------
// Placeholders
// ---------------------------------------------------------------------------

/// A pass leaves a text without placeholders of its kind unchanged.
pub proof fn law_pass_without_placeholders_is_identity(kind: PatternKind, s: Seq<char>, out: Seq<char>)
    requires
        matches_in(kind, s).len() == 0,
        pass_result(kind, s, out),
    ensures
        out == s,
{
    let reps = choose|reps: Seq<Seq<char>>|
        #[trigger] replacements_ok(kind, s, matches_in(kind, s), reps) && out == splice(
            s,
            matches_in(kind, s),
            reps,
            0,
        );
    assert(s.subrange(0, s.len() as int) =~= s);
}

/// The bounds of an integer placeholder may come in either order: where
/// both parse, swapping them allows the same values.
pub proof fn law_int_bounds_in_either_order(f1: Seq<char>, f2: Seq<char>, v: int, r: Seq<char>)
    requires
        parse_i64_spec(trim(f1)) is Some,
        parse_i64_spec(trim(f2)) is Some,
    ensures
        int_choice(f1, f2, v, r) <==> int_choice(f2, f1, v, r),
{
    assert(int_bound(f1, 0) == int_bound(f1, 100));
    assert(int_bound(f2, 0) == int_bound(f2, 100));
}

// ---------------------------------------------------------------------------
// Metrics
// ---------------------------------------------------------------------------

/// Recording a response keeps the round-trip statistics consistent (as long
/// as the response counter does not wrap), and the new round-trip time
/// lies between the minimum and the maximum afterwards.
pub proof fn law_success_keeps_rtt_consistent(m: ClientMetrics, rtt: Duration)
    requires
        rtt_consistent(m),
        m.messages_received < u64::MAX,
    ensures
        rtt_consistent(after_success(m, rtt)),
        after_success(m, rtt).min_rtt_ms matches Some(lo) && lo <= rtt_millis(rtt),
        after_success(m, rtt).max_rtt_ms matches Some(hi) && hi >= rtt_millis(rtt),
        after_success(m, rtt).messages_received == m.messages_received + 1,
{
}

/// Every recorded event keeps the round-trip statistics of a client
/// consistent, as long as the response counter does not wrap: fresh metrics
/// are consistent, and so is whatever recording makes of consistent ones.
pub proof fn law_recording_keeps_rtt_consistent(e: MetricEvent, old_m: ClientMetrics, new_m: ClientMetrics)
    requires
        rtt_consistent(old_m),
        old_m.messages_received < u64::MAX,
        recorded(e, new_m, old_m),
    ensures
        rtt_consistent(new_m),
{
}

/// Fresh metrics, with every total zero and no clients, have each total
/// equal to the sum of its counter over the clients.
pub proof fn law_fresh_totals_match(a: AggregateMetrics)
    requires
        a.total_messages_sent == 0,
        a.total_messages_received == 0,
        a.total_messages_failed == 0,
        a.total_connection_errors == 0,
        a.total_http_connections_created == 0,
        a.total_http_connections_reused == 0,
        a.clients() == Map::<u32, ClientMetrics>::empty(),
    ensures
        totals_match_clients(a),
{
    lemma_sum_empty(|m: ClientMetrics| m.messages_sent as nat);
    lemma_sum_empty(|m: ClientMetrics| m.messages_received as nat);
    lemma_sum_empty(|m: ClientMetrics| m.messages_failed as nat);
    lemma_sum_empty(|m: ClientMetrics| m.connection_errors as nat);
    lemma_sum_empty(|m: ClientMetrics| m.http_connections_created as nat);
    lemma_sum_empty(|m: ClientMetrics| m.http_connections_reused as nat);
}

/// Registering a client that is not known yet keeps each total the sum of
/// its counter over the clients: the new client starts from zero.
pub proof fn law_registering_keeps_totals(old_a: AggregateMetrics, new_a: AggregateMetrics, id: ClientId, total_clients: u32)
    requires
        totals_match_clients(old_a),
        !old_a.clients().contains_key(id.0),
        same_totals(new_a, old_a),
        new_a.clients().dom() == old_a.clients().dom().insert(id.0),
        forall|k: u32| #[trigger] new_a.clients().contains_key(k) && k != id.0 ==> new_a.clients()[k] == old_a.clients()[k],
        is_fresh(new_a.clients()[id.0], id, total_clients),
    ensures
        totals_match_clients(new_a),
{
    broadcast use vstd::std_specs::hash::group_hash_axioms;
    let co = old_a.clients();
    let cn = new_a.clients();
    let m = cn[id.0];
    assert(co.dom().finite());
    assert(cn =~= co.insert(id.0, m));
    lemma_sum_insert(co, id.0, m, |m: ClientMetrics| m.messages_sent as nat);
    lemma_sum_insert(co, id.0, m, |m: ClientMetrics| m.messages_received as nat);
    lemma_sum_insert(co, id.0, m, |m: ClientMetrics| m.messages_failed as nat);
    lemma_sum_insert(co, id.0, m, |m: ClientMetrics| m.connection_errors as nat);
    lemma_sum_insert(co, id.0, m, |m: ClientMetrics| m.http_connections_created as nat);
    lemma_sum_insert(co, id.0, m, |m: ClientMetrics| m.http_connections_reused as nat);
}

/// Recording an event of a known client keeps each total the sum of its
/// counter over the clients (in wrapping `u64` arithmetic): the event bumps
/// the total and the client's counter alike.
pub proof fn law_recording_keeps_totals(e: MetricEvent, old_a: AggregateMetrics, new_a: AggregateMetrics, id: u32)
    requires
        totals_match_clients(old_a),
        old_a.clients().contains_key(id),
        aggregate_recorded(e, new_a, old_a, id),
    ensures
        totals_match_clients(new_a),
{
    broadcast use vstd::std_specs::hash::group_hash_axioms;
    let co = old_a.clients();
    let cn = new_a.clients();
    let m = cn[id];
    assert(co.dom().finite());
    assert(cn =~= co.insert(id, m));
    let f_sent = |m: ClientMetrics| m.messages_sent as nat;
    let f_received = |m: ClientMetrics| m.messages_received as nat;
    let f_failed = |m: ClientMetrics| m.messages_failed as nat;
    let f_errors = |m: ClientMetrics| m.connection_errors as nat;
    let f_created = |m: ClientMetrics| m.http_connections_created as nat;
    let f_reused = |m: ClientMetrics| m.http_connections_reused as nat;
    lemma_sum_update(co, id, m, f_sent);
    lemma_sum_update(co, id, m, f_received);
    lemma_sum_update(co, id, m, f_failed);
    lemma_sum_update(co, id, m, f_errors);
    lemma_sum_update(co, id, m, f_created);
    lemma_sum_update(co, id, m, f_reused);
    match e {
        MetricEvent::Sent => lemma_wrapped_bump(
            sum_over_clients(co, f_sent),
            sum_over_clients(cn, f_sent),
            co[id].messages_sent,
        ),
        MetricEvent::Success(_) => lemma_wrapped_bump(
            sum_over_clients(co, f_received),
            sum_over_clients(cn, f_received),
            co[id].messages_received,
        ),
        MetricEvent::Failure => lemma_wrapped_bump(
            sum_over_clients(co, f_failed),
            sum_over_clients(cn, f_failed),
            co[id].messages_failed,
        ),
        MetricEvent::ConnectionError => lemma_wrapped_bump(
            sum_over_clients(co, f_errors),
            sum_over_clients(cn, f_errors),
            co[id].connection_errors,
        ),
        MetricEvent::HttpConnectionCreated => lemma_wrapped_bump(
            sum_over_clients(co, f_created),
            sum_over_clients(cn, f_created),
            co[id].http_connections_created,
        ),
        MetricEvent::HttpConnectionReused => lemma_wrapped_bump(
            sum_over_clients(co, f_reused),
            sum_over_clients(cn, f_reused),
            co[id].http_connections_reused,
        ),
        MetricEvent::HttpStatus(_) => {},
    }
}

// ---------------------------------------------------------------------------
// Broadcast tracking
// ---------------------------------------------------------------------------

/// Once finalized, a broadcast message is no longer tracked: the messages
/// left after finalizing at `now` are exactly those not ready then, and a
/// message that was ready has no entry any more.
pub proof fn law_finalized_messages_are_forgotten(es: Seq<TrackedView>, total_clients: u32, now: nat, id: Seq<char>)
    requires
        distinct_ids(es),
        index_of(es, id) matches Some(i) && ready(es[i], total_clients, now),
    ensures
        index_of(unready(es, total_clients, now), id) is None,
        forall|k: int|
            0 <= k < unready(es, total_clients, now).len() ==> !ready(
                #[trigger] unready(es, total_clients, now)[k],
                total_clients,
                now,
            ),
{
    lemma_unready_members_not_ready(es, total_clients, now);
    lemma_unready_ids(es, total_clients, now);
    let u = unready(es, total_clients, now);
    let i = index_of(es, id)->0;
    if exists|k: int| 0 <= k < u.len() && (#[trigger] u[k]).id == id {
        let k = choose|k: int| 0 <= k < u.len() && (#[trigger] u[k]).id == id;
        let j = choose|j: int| 0 <= j < es.len() && u[k] == es[j];
        if j != i {
            assert(es[j].id != es[i].id);
        }
        assert(!ready(u[k], total_clients, now));
    }
}

proof fn lemma_unready_members_not_ready(es: Seq<TrackedView>, total_clients: u32, now: nat)
    ensures
        forall|k: int|
            0 <= k < unready(es, total_clients, now).len() ==> !ready(
                #[trigger] unready(es, total_clients, now)[k],
                total_clients,
                now,
            ),
    decreases es.len(),
{
    if es.len() > 0 {
        lemma_unready_members_not_ready(es.drop_last(), total_clients, now);
        let u = unready(es, total_clients, now);
        let ui = unready(es.drop_last(), total_clients, now);
        assert forall|k: int| 0 <= k < u.len() implies !ready(#[trigger] u[k], total_clients, now) by {
            if k < ui.len() {
                assert(u[k] == ui[k]);
            }
        }
    }
}

// ---------------------------------------------------------------------------
// Awaited messages
// ---------------------------------------------------------------------------

/// The memory protection of a client: with a positive limit, a store that
/// holds at most `max_pending` messages still does after one more is
/// inserted (dropping the oldest where needed).
pub proof fn law_pending_limit_holds(old_es: Seq<AwaitedView>, new_es: Seq<AwaitedView>, e: AwaitedView, max_pending: nat, dropped: bool)
    requires
        max_pending > 0,
        old_es.len() <= max_pending,
        dropped == (old_es.len() >= max_pending && old_es.len() > 0),
        dropped ==> exists|i: int| #[trigger] is_oldest(old_es, i) && new_es == with_awaited(old_es.remove(i), e),
        !dropped ==> new_es == with_awaited(old_es, e),
    ensures
        new_es.len() <= max_pending,
{
    if dropped {
        let i = choose|i: int| #[trigger] is_oldest(old_es, i) && new_es == with_awaited(old_es.remove(i), e);
        let base = old_es.remove(i);
        assert(base.len() == old_es.len() - 1);
        match position_of(base, e.id) {
            Some(j) => {},
            None => {},
        }
    } else {
        match position_of(old_es, e.id) {
            Some(j) => {},
            None => {},
        }
    }
}

/// A response is credited once: once the response to a message is taken,
/// another response with the same ID finds nothing awaited.
pub proof fn law_response_taken_once(es: Seq<AwaitedView>, id: Seq<char>)
    requires
        distinct_awaited(es),
        position_of(es, id) is Some,
    ensures
        position_of(es.remove(position_of(es, id)->0), id) is None,
{
    let i = position_of(es, id)->0;
    let rest = es.remove(i);
    if exists|k: int| 0 <= k < rest.len() && (#[trigger] rest[k]).id == id {
        let k = choose|k: int| 0 <= k < rest.len() && (#[trigger] rest[k]).id == id;
        let j = if k < i { k } else { k + 1 };
        assert(rest[k] == es[j]);
        assert(es[i].id == id);
    }
}

/// After expired messages are removed at `now`, none of those left has
/// timed out at `now`.
pub proof fn law_no_expired_left(es: Seq<AwaitedView>, now: nat)
    ensures
        forall|k: int| 0 <= k < unexpired(es, now).len() ==> (#[trigger] unexpired(es, now)[k]).timeout_at > now,
    decreases es.len(),
{
    if es.len() > 0 {
        law_no_expired_left(es.drop_last(), now);
        let u = unexpired(es, now);
        let ui = unexpired(es.drop_last(), now);
        assert forall|k: int| 0 <= k < u.len() implies (#[trigger] u[k]).timeout_at > now by {
            if k < ui.len() {
                assert(u[k] == ui[k]);
            }
        }
    }
}

// ---------------------------------------------------------------------------
// HTTP connections
// ---------------------------------------------------------------------------

/// The first request to a host opens a connection; every later request to
/// the same host reuses it: once noted, a host is known.
pub proof fn law_connection_reused(hosts: Set<Seq<char>>, host: Seq<char>)
    ensures
        hosts.insert(host).contains(host),
        hosts.insert(host).insert(host) == hosts.insert(host),
{
    assert(hosts.insert(host).insert(host) =~= hosts.insert(host));
}

// ---------------------------------------------------------------------------
// Reconnection
// ---------------------------------------------------------------------------

/// Each failed reconnection attempt doubles the pause before the next.
pub proof fn law_backoff_doubles(failed_attempts: u32)
    requires
        1 <= failed_attempts < u32::MAX,
    ensures
        backoff_millis((failed_attempts + 1) as u32) == 2 * backoff_millis(failed_attempts),
{
    assert(power_of_two(failed_attempts as nat) == 2 * power_of_two((failed_attempts - 1) as nat));
    assert(backoff_millis((failed_attempts + 1) as u32) == 1000 * power_of_two(failed_attempts as nat));
    assert(1000 * (2 * power_of_two((failed_attempts - 1) as nat)) == 2 * (1000 * power_of_two((failed_attempts - 1) as nat))) by (nonlinear_arith);
}

// ---------------------------------------------------------------------------
// What the operations keep and give
// ---------------------------------------------------------------------------

/// Finalizing keeps, in order, exactly the messages that are not ready: those
/// already finalized, and those that still lack a response from some client
/// and whose time is not up.
pub proof fn law_finalize_keeps_waiting_messages(es: Seq<TrackedView>, total_clients: u32, now: nat)
    ensures
        unready(es, total_clients, now) == es.filter(
            |e: TrackedView| e.finalized || (e.responses.len() < total_clients && now < e.timeout_at),
        ),
    decreases es.len(),
{
    reveal(Seq::filter);
    if es.len() > 0 {
        law_finalize_keeps_waiting_messages(es.drop_last(), total_clients, now);
        let u = unready(es.drop_last(), total_clients, now);
        assert(u + Seq::<TrackedView>::empty() =~= u);
        assert(u + seq![es.last()] =~= u.push(es.last()));
    }
}

proof fn lemma_find_char_at(s: Seq<char>, c: char, i: int, j: int)
    requires
        0 <= i <= j <= s.len(),
        forall|k: int| i <= k < j ==> s[k] != c,
        j < s.len() ==> s[j] == c,
    ensures
        find_char(s, c, i) == j,
{
    lemma_find_char_bounds(s, c, i);
    let r = find_char(s, c, i);
    if r < j {
        assert(s[r] == c);
    } else if r > j {
        assert(s[j] != c);
    }
}

proof fn lemma_ascii_digits_bytes(d: Seq<char>)
    requires
        all_ascii_digits(d),
    ensures
        encode_utf8(d).len() == d.len(),
    decreases d.len(),
{
    if d.len() > 0 {
        assert(is_ascii_digit(d[0]));
        assert(all_ascii_digits(d.drop_first())) by {
            assert forall|i: int| 0 <= i < d.drop_first().len() implies is_ascii_digit(#[trigger] d.drop_first()[i]) by {
                assert(d.drop_first()[i] == d[i + 1]);
            }
        }
        lemma_ascii_digits_bytes(d.drop_first());
    }
}

/// A float placeholder prints as many decimals as its minimum is written
/// with: for a minimum of an integer part, a `.` and `k` digits, `k`; for a
/// minimum without a `.`, none.
pub proof fn law_float_precision_counts_decimals(int_part: Seq<char>, decimals: Seq<char>)
    requires
        !int_part.contains('.'),
        all_ascii_digits(decimals),
    ensures
        decimals_of(int_part + seq!['.'] + decimals) == decimals.len(),
        decimals_of(int_part) == 0,
{
    let t = int_part + seq!['.'] + decimals;
    let n = int_part.len() as int;
    assert forall|k: int| 0 <= k < n implies t[k] != '.' by {
        assert(t[k] == int_part[k]);
        if t[k] == '.' {
            assert(int_part.contains('.'));
        }
    }
    assert(t[n] == '.');
    lemma_find_char_at(t, '.', 0, n);
    assert forall|k: int| n + 1 <= k < t.len() implies t[k] != '.' by {
        assert(t[k] == decimals[k - n - 1]);
        assert(is_ascii_digit(decimals[k - n - 1]));
    }
    lemma_find_char_at(t, '.', n + 1, t.len() as int);
    assert(t.subrange(n + 1, t.len() as int) =~= decimals);
    lemma_ascii_digits_bytes(decimals);
    assert forall|k: int| 0 <= k < int_part.len() implies int_part[k] != '.' by {
        if int_part[k] == '.' {
            assert(int_part.contains('.'));
        }
    }
    lemma_find_char_at(int_part, '.', 0, int_part.len() as int);
}

/// The converted configuration carries the mode arguments over by name:
/// the WebSocket mode and each HTTP method argument give the mode and the
/// method of the same name.
pub proof fn law_modes_carried_by_name(c: Config, raw: RawConfig)
    requires
        converted_from(c, raw),
    ensures
        raw.mode == ConnectionModeArg::Ws && raw.ws_mode == WSModeArg::Echo ==> c.protocol
            == (ProtocolConfig::WebSocket { mode: WSMode::Echo }),
        raw.mode == ConnectionModeArg::Ws && raw.ws_mode == WSModeArg::Broadcast ==> c.protocol
            == (ProtocolConfig::WebSocket { mode: WSMode::Broadcast }),
        raw.mode == ConnectionModeArg::Http && raw.http_method == HttpMethodArg::Get ==> c.protocol
            == (ProtocolConfig::Http { method: HttpMethod::Get }),
        raw.mode == ConnectionModeArg::Http && raw.http_method == HttpMethodArg::Post ==> c.protocol
            == (ProtocolConfig::Http { method: HttpMethod::Post }),
        raw.mode == ConnectionModeArg::Http && raw.http_method == HttpMethodArg::Put ==> c.protocol
            == (ProtocolConfig::Http { method: HttpMethod::Put }),
        raw.mode == ConnectionModeArg::Http && raw.http_method == HttpMethodArg::Delete ==> c.protocol
            == (ProtocolConfig::Http { method: HttpMethod::Delete }),
        raw.mode == ConnectionModeArg::Http && raw.http_method == HttpMethodArg::Patch ==> c.protocol
            == (ProtocolConfig::Http { method: HttpMethod::Patch }),
{
}

/// The latest timeout of the awaited messages is there exactly when a
/// message is awaited; it is the timeout of one of them, and no awaited
/// message times out later.
pub proof fn law_latest_timeout_is_the_maximum(es: Seq<AwaitedView>)
    ensures
        latest_timeout_of(es) is Some <==> es.len() > 0,
        latest_timeout_of(es) matches Some(t) ==> (exists|i: int| 0 <= i < es.len() && (#[trigger] es[i]).timeout_at == t),
        latest_timeout_of(es) matches Some(t) ==> (forall|i: int| 0 <= i < es.len() ==> (#[trigger] es[i]).timeout_at <= t),
    decreases es.len(),
{
    if es.len() > 0 {
        let init = es.drop_last();
        law_latest_timeout_is_the_maximum(init);
        assert forall|i: int| 0 <= i < init.len() implies init[i] == es[i] by {}
        assert(es[es.len() - 1] == es.last());
        if let Some(t) = latest_timeout_of(es) {
            if let Some(ti) = latest_timeout_of(init) {
                let k = choose|k: int| 0 <= k < init.len() && (#[trigger] init[k]).timeout_at == ti;
                assert(es[k] == init[k]);
            }
            assert forall|i: int| 0 <= i < es.len() implies (#[trigger] es[i]).timeout_at <= t by {
                if i < init.len() {
                    assert(es[i] == init[i]);
                }
            }
        }
    }
}

/// In HTTP mode every payload that parses as a JSON object is accepted,
/// whatever its `id` field holds.
pub proof fn law_http_accepts_any_object(payload: Seq<char>, method: HttpMethod, field: JsonFieldView, c: Config)
    ensures
        payload_error_of(payload, ProtocolConfig::Http { method }, JsonDocumentView::Object(field)) is None,
        c.protocol is Http && json_document(c.test.payload@, "id"@) is Object ==> payload_error(c) is None,
{
}

} // verus!
