//! Decisions and bookkeeping of an HTTP client.

use vstd::prelude::*;
use vstd::string::StringExecFns;
use crate::address::{parse_url, parts_view, url_parts, UrlParts};
use crate::config::{Config, HttpMethod};
use crate::constants::BULK_TIMEOUT_CLEANUP_INTERVAL;
use crate::errors::{BombError, Result};
use crate::json::{json_document, JsonDocumentView, JsonFieldView};
use crate::message::MessageId;
use crate::patterns::values::{new_uuid_text, uuid_text};
use crate::text::{natural_text, string_of, u128_text};

verus! {

/// Whether requests with `method` carry the payload as a JSON body: POST,
/// PUT and PATCH do, GET and DELETE do not.
pub fn carries_body(method: HttpMethod) -> (b: bool)
    ensures
        b == (method == HttpMethod::Post || method == HttpMethod::Put || method == HttpMethod::Patch),
{
    match method {
        HttpMethod::Post | HttpMethod::Put | HttpMethod::Patch => true,
        HttpMethod::Get | HttpMethod::Delete => false,
    }
}

/// Whether the sweep for timed-out requests is due after `messages_sent`
/// requests: at every multiple of the cleanup interval.
pub fn cleanup_due(messages_sent: u64) -> (b: bool)
    ensures
        b == (messages_sent % BULK_TIMEOUT_CLEANUP_INTERVAL == 0),
{
    messages_sent % BULK_TIMEOUT_CLEANUP_INTERVAL == 0
}

/// Whether an HTTP status counts as a success: the 2xx codes.
pub fn status_is_success(status: u16) -> (b: bool)
    ensures
        b == (200 <= status < 300),
{
    200 <= status && status < 300
}

/// The host and port by which an HTTP client tells its connections apart:
/// `host:port`, with `unknown` for a URL without host and 80 for one
/// without port.
pub open spec fn host_key_text(parts: (Seq<char>, Option<Seq<char>>, Option<u16>)) -> Seq<char> {
    let host = match parts.1 {
        Some(h) => h,
        None => "unknown"@,
    };
    let port: u16 = match parts.2 {
        Some(p) => p,
        None => 80,
    };
    host + ":"@ + natural_text(port as nat)
}

/// The connection key of the request URL `url`, or the URL's parse error.
pub fn host_key(url: &str) -> (r: Result<String>)
    ensures
        match url_parts(url@) {
            Ok(p) => r matches Ok(k) && k@ == host_key_text(p),
            Err(e) => r matches Err(BombError::UrlParse(m)) && m@ == e,
        },
{
    match parse_url(url) {
        Err(e) => Err(BombError::UrlParse(e)),
        Ok(parts) => Ok(host_key_of(&parts)),
    }
}

/// The connection key of a parsed URL.
pub fn host_key_of(parts: &UrlParts) -> (k: String)
    ensures
        k@ == host_key_text(parts_view(*parts)),
{
    let mut k = String::new();
    match &parts.host {
        Some(h) => k.append(h.as_str()),
        None => k.append("unknown"),
    }
    k.append(":");
    let port: u16 = match parts.port {
        Some(p) => p,
        None => 80,
    };
    let digits = string_of(&u128_text(port as u128));
    k.append(digits.as_str());
    k
}

/// The hosts that an HTTP client has connected to, by connection key.
#[derive(Debug)]
pub struct ConnectedHosts {
    hosts: Vec<String>,
}

impl ConnectedHosts {
    /// The connection keys seen so far.
    pub closed spec fn hosts(self) -> Set<Seq<char>> {
        self.hosts@.map_values(|h: String| h@).to_set()
    }

    /// No host seen yet.
    pub fn new() -> (c: ConnectedHosts)
        ensures
            c.hosts() == Set::<Seq<char>>::empty(),
    {
        let c = ConnectedHosts { hosts: Vec::new() };
        assert(c.hosts() =~= Set::<Seq<char>>::empty());
        c
    }

    /// Notes a request to `host`; returns whether it needs a new connection,
    /// that is whether the host was not seen before.
    pub fn note(&mut self, host: String) -> (is_new: bool)
        ensures
            is_new == !old(self).hosts().contains(host@),
            final(self).hosts() == old(self).hosts().insert(host@),
    {
        let ghost before = self.hosts@.map_values(|h: String| h@);
        let mut i: usize = 0;
        while i < self.hosts.len()
            invariant
                i <= self.hosts.len(),
                before == self.hosts@.map_values(|h: String| h@),
                forall|j: int| 0 <= j < i ==> before[j] != host@,
            decreases self.hosts.len() - i,
        {
            if self.hosts[i] == host {
                proof {
                    assert(before[i as int] == host@);
                    assert(before.contains(host@));
                    assert(self.hosts() =~= self.hosts().insert(host@));
                }
                return false;
            }
            i += 1;
        }
        proof {
            assert(!before.contains(host@));
        }
        self.hosts.push(host);
        proof {
            let after = self.hosts@.map_values(|h: String| h@);
            assert(after =~= before.push(host@));
            assert(after.to_set() =~= before.to_set().insert(host@)) by {
                assert forall|x: Seq<char>| after.to_set().contains(x) <==> before.to_set().insert(host@).contains(x) by {
                    if after.contains(x) {
                        let k = choose|k: int| 0 <= k < after.len() && after[k] == x;
                        if k < before.len() {
                            assert(before[k] == x);
                        }
                    }
                    if before.contains(x) {
                        let k = choose|k: int| 0 <= k < before.len() && before[k] == x;
                        assert(after[k] == x);
                    }
                    if x == host@ {
                        assert(after[before.len() as int] == x);
                    }
                }
            }
        }
        true
    }
}

/// The ID under which an HTTP request is awaited: the payload's string
/// field `id` where it has one, else a fresh random UUID.
pub fn request_message_id(payload: &str) -> (id: MessageId)
    ensures
        match json_document(payload@, "id"@) {
            JsonDocumentView::Object(JsonFieldView::Text(t)) => id.0@ == t,
            _ => uuid_text(id.0@),
        },
{
    match Config::extract_message_id(payload) {
        Ok(id) => MessageId(id),
        Err(_) => MessageId(new_uuid_text()),
    }
}

} // verus!
