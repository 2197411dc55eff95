//! The configuration summary at the head of a test report.

use vstd::prelude::*;
use vstd::string::StringExecFns;
use vstd::utf8::encode_utf8;
use super::{Config, ConnectionMode, HttpMethod, ProtocolConfig, WSMode, mode_of};
use crate::text::{chars_of, natural_text, push_char, string_of, string_of_range, u128_text};
use crate::time::NANOS_PER_SEC;

verus! {

/// The target and client lines of a summary.
pub open spec fn summary_head(c: Config) -> Seq<char> {
    "   Target:           "@ + c.target.url@ + "\n   Clients:          "@ + natural_text(c.client.count as nat)
        + "\n"@
}

/// The termination lines of a summary: a duration alone, or a message
/// total alone with its share per client; nothing otherwise.
pub open spec fn summary_stop(c: Config) -> Seq<char> {
    match (c.test.duration, c.test.total_messages) {
        (Some(d), None) => "   Duration:         "@ + natural_text(d@ / (NANOS_PER_SEC as nat)) + "s\n"@,
        (None, Some(total)) => "   Total Messages:   "@ + natural_text(total as nat) + "\n   Per Client:       "@
            + natural_text(total as nat / (c.client.count as nat)) + " messages\n"@,
        _ => Seq::<char>::empty(),
    }
}

/// The rate and timeout lines of a summary.
pub open spec fn summary_pace(c: Config) -> Seq<char> {
    "   Message Rate:     "@ + natural_text(c.test.message_rate as nat)
        + " msg/s per client\n   Timeout:          "@ + natural_text(c.client.timeout@ / (NANOS_PER_SEC as nat))
        + "s\n"@
}

/// The warning line of a summary in insecure mode.
pub open spec fn summary_warning(c: Config) -> Seq<char> {
    if c.target.insecure {
        "   Security:         ⚠️  Insecure mode enabled\n"@
    } else {
        Seq::<char>::empty()
    }
}

/// The summary lines of `c` in a test report.
pub open spec fn report_summary_text(c: Config) -> Seq<char> {
    summary_head(c) + summary_stop(c) + summary_pace(c) + summary_warning(c)
}

/// Appends the decimal text of `n` to `s`.
fn push_number(s: &mut String, n: u64)
    ensures
        final(s)@ == old(s)@ + natural_text(n as nat),
{
    let digits = string_of(&u128_text(n as u128));
    s.append(digits.as_str());
}

fn head_lines(c: &Config) -> (s: String)
    ensures
        s@ == summary_head(*c),
{
    let mut s = String::new();
    s.append("   Target:           ");
    s.append(c.target.url.as_str());
    s.append("\n   Clients:          ");
    push_number(&mut s, c.client.count as u64);
    s.append("\n");
    assert(s@ =~= summary_head(*c));
    s
}

fn stop_lines(c: &Config) -> (s: String)
    requires
        c.test.total_messages is Some ==> c.client.count > 0,
    ensures
        s@ == summary_stop(*c),
{
    let mut s = String::new();
    match (c.test.duration, c.test.total_messages) {
        (Some(d), None) => {
            s.append("   Duration:         ");
            push_number(&mut s, d.as_secs());
            s.append("s\n");
        },
        (None, Some(total)) => {
            let per_client = match c.messages_per_client() {
                Some(n) => n,
                None => 0,
            };
            s.append("   Total Messages:   ");
            push_number(&mut s, total);
            s.append("\n   Per Client:       ");
            push_number(&mut s, per_client);
            s.append(" messages\n");
        },
        _ => {},
    }
    assert(s@ =~= summary_stop(*c));
    s
}

fn pace_lines(c: &Config) -> (s: String)
    ensures
        s@ == summary_pace(*c),
{
    let mut s = String::new();
    s.append("   Message Rate:     ");
    push_number(&mut s, c.test.message_rate as u64);
    s.append(" msg/s per client\n   Timeout:          ");
    push_number(&mut s, c.client.timeout.as_secs());
    s.append("s\n");
    assert(s@ =~= summary_pace(*c));
    s
}

impl Config {
    /// The configuration summary of a test report.
    pub fn report_summary(&self) -> (s: String)
        requires
            self.test.total_messages is Some ==> self.client.count > 0,
        ensures
            s@ == report_summary_text(*self),
    {
        let mut s = head_lines(self);
        let stop = stop_lines(self);
        s.append(stop.as_str());
        let pace = pace_lines(self);
        s.append(pace.as_str());
        if self.target.insecure {
            s.append("   Security:         ⚠️  Insecure mode enabled\n");
        }
        assert(s@ =~= report_summary_text(*self));
        s
    }
}

// ---------------------------------------------------------------------------
// The summary printed when a test starts
// ---------------------------------------------------------------------------

/// `encode_utf8` takes a concatenation to a concatenation.
pub proof fn lemma_encode_concat(a: Seq<char>, b: Seq<char>)
    ensures
        encode_utf8(a + b) == encode_utf8(a) + encode_utf8(b),
    decreases a.len(),
{
    if a.len() == 0 {
        assert(a + b =~= b);
        assert(encode_utf8(a) =~= Seq::<u8>::empty());
        assert(encode_utf8(a) + encode_utf8(b) =~= encode_utf8(b));
    } else {
        assert((a + b)[0] == a[0]);
        assert((a + b).drop_first() =~= a.drop_first() + b);
        lemma_encode_concat(a.drop_first(), b);
        assert(encode_utf8(a + b) =~= encode_utf8(a) + encode_utf8(b));
    }
}

/// Each character takes at least one byte: a longer prefix takes more.
pub proof fn lemma_prefix_bytes_grow(p: Seq<char>, j: int, k: int)
    requires
        0 <= j <= k <= p.len(),
    ensures
        encode_utf8(p.take(k)).len() >= encode_utf8(p.take(j)).len() + (k - j),
    decreases k - j,
{
    if j < k {
        lemma_prefix_bytes_grow(p, j, k - 1);
        assert(p.take(k) =~= p.take(k - 1) + seq![p[k - 1]]);
        lemma_encode_concat(p.take(k - 1), seq![p[k - 1]]);
        assert(seq![p[k - 1]].drop_first() =~= Seq::<char>::empty());
        assert(encode_utf8(Seq::<char>::empty()) =~= Seq::<u8>::empty());
    }
}

/// A prefix of `p` ends at byte 47.
pub open spec fn has_cut_at_47(p: Seq<char>) -> bool {
    exists|k: int| 0 <= k <= p.len() && #[trigger] encode_utf8(p.take(k)).len() == 47
}

/// The first 47 bytes of `p`, as text (where they end on a character).
pub open spec fn payload_preview(p: Seq<char>) -> Seq<char> {
    p.take(choose|k: int| 0 <= k <= p.len() && #[trigger] encode_utf8(p.take(k)).len() == 47)
}

/// The text of the first 47 bytes of `payload`.
fn preview_of(payload: &str) -> (r: String)
    requires
        has_cut_at_47(payload@),
    ensures
        r@ == payload_preview(payload@),
{
    let chars = chars_of(payload);
    let ghost p = payload@;
    let mut k: usize = 0;
    let mut bytes: usize = 0;
    proof {
        assert(p.take(0) =~= Seq::<char>::empty());
        assert(encode_utf8(Seq::<char>::empty()) =~= Seq::<u8>::empty());
    }
    while k < chars.len() && bytes < 47
        invariant
            chars@ == p,
            k <= chars.len(),
            bytes == encode_utf8(p.take(k as int)).len(),
            k > 0 ==> encode_utf8(p.take(k - 1)).len() < 47,
        decreases chars.len() - k,
    {
        let mut one = String::new();
        push_char(&mut one, chars[k]);
        let width = one.as_str().len();
        proof {
            assert(one@ =~= seq![chars@[k as int]]);
            assert(p.take(k + 1) =~= p.take(k as int) + one@);
            lemma_encode_concat(p.take(k as int), one@);
            assert(one@.drop_first() =~= Seq::<char>::empty());
            assert(encode_utf8(Seq::<char>::empty()) =~= Seq::<u8>::empty());
            assert(width == encode_utf8(one@).len());
            assert(width <= 4);
        }
        bytes = bytes + width;
        k += 1;
    }
    let ghost chosen = choose|j: int| 0 <= j <= p.len() && #[trigger] encode_utf8(p.take(j)).len() == 47;
    proof {
        assert(0 <= chosen <= p.len() && encode_utf8(p.take(chosen)).len() == 47);
        if chosen < k {
            lemma_prefix_bytes_grow(p, chosen, k - 1);
        } else if chosen > k {
            lemma_prefix_bytes_grow(p, k as int, chosen);
        }
    }
    string_of_range(&chars, 0, k)
}

/// The name of an HTTP method, as `Debug` writes it.
pub open spec fn method_name(m: HttpMethod) -> Seq<char> {
    match m {
        HttpMethod::Get => "Get"@,
        HttpMethod::Post => "Post"@,
        HttpMethod::Put => "Put"@,
        HttpMethod::Delete => "Delete"@,
        HttpMethod::Patch => "Patch"@,
    }
}

/// The name of a WebSocket mode, as `Debug` writes it.
pub open spec fn mode_name(m: WSMode) -> Seq<char> {
    match m {
        WSMode::Echo => "Echo"@,
        WSMode::Broadcast => "Broadcast"@,
    }
}

/// The protocol lines of the start summary.
pub open spec fn summary_protocol(c: Config) -> Seq<char> {
    match c.protocol {
        ProtocolConfig::Http { method } => "   HTTP Method:      "@ + method_name(method) + "\n   Connection Mode:  Http\n"@,
        ProtocolConfig::WebSocket { mode } => "   Mode:             "@ + mode_name(mode) + "\n   Connection Mode:  Ws\n"@,
    }
}

/// The payload line of the start summary: the payload, or its first 47
/// bytes and its length in bytes where it is longer than 50 bytes.
pub open spec fn summary_payload(c: Config) -> Seq<char> {
    let label = match mode_of(c.protocol) {
        ConnectionMode::Ws => "Payload:"@,
        ConnectionMode::Http => "Request Body:"@,
    };
    let p = c.test.payload@;
    if encode_utf8(p).len() > 50 {
        "   "@ + label + "          "@ + payload_preview(p) + "... ("@ + natural_text(encode_utf8(p).len())
            + " chars)\n"@
    } else {
        "   "@ + label + "          "@ + p + "\n"@
    }
}

/// The header lines of a list of custom headers, one each.
pub open spec fn header_lines(hs: Seq<String>) -> Seq<char>
    decreases hs.len(),
{
    if hs.len() == 0 {
        Seq::<char>::empty()
    } else {
        header_lines(hs.drop_last()) + "                     "@ + hs.last()@ + "\n"@
    }
}

/// The custom-header lines of the start summary, where there are any.
pub open spec fn summary_headers(c: Config) -> Seq<char> {
    if c.target.headers.len() == 0 {
        Seq::<char>::empty()
    } else {
        "   Custom Headers:   "@ + natural_text(c.target.headers.len() as nat) + "\n"@ + header_lines(c.target.headers@)
    }
}

/// The summary printed when a test starts.
pub open spec fn start_summary_text(c: Config) -> Seq<char> {
    "💣 Bomb Stress Test Configuration:\n"@ + summary_head(c) + summary_stop(c) + summary_pace(c) + summary_protocol(c)
        + summary_payload(c) + summary_headers(c) + summary_warning(c) + "\n"@
}

fn protocol_lines(c: &Config) -> (s: String)
    ensures
        s@ == summary_protocol(*c),
{
    let mut s = String::new();
    match c.protocol {
        ProtocolConfig::Http { method } => {
            s.append("   HTTP Method:      ");
            match method {
                HttpMethod::Get => s.append("Get"),
                HttpMethod::Post => s.append("Post"),
                HttpMethod::Put => s.append("Put"),
                HttpMethod::Delete => s.append("Delete"),
                HttpMethod::Patch => s.append("Patch"),
            }
            s.append("\n   Connection Mode:  Http\n");
        },
        ProtocolConfig::WebSocket { mode } => {
            s.append("   Mode:             ");
            match mode {
                WSMode::Echo => s.append("Echo"),
                WSMode::Broadcast => s.append("Broadcast"),
            }
            s.append("\n   Connection Mode:  Ws\n");
        },
    }
    assert(s@ =~= summary_protocol(*c));
    s
}

fn payload_lines(c: &Config) -> (s: String)
    requires
        encode_utf8(c.test.payload@).len() <= usize::MAX,
        encode_utf8(c.test.payload@).len() > 50 ==> has_cut_at_47(c.test.payload@),
    ensures
        s@ == summary_payload(*c),
{
    let mut s = String::new();
    s.append("   ");
    match c.connection_mode() {
        ConnectionMode::Ws => s.append("Payload:"),
        ConnectionMode::Http => s.append("Request Body:"),
    }
    s.append("          ");
    let text = c.test.payload.as_str();
    let n = text.len();
    assert(text@ == c.test.payload@);
    assert(n == encode_utf8(text@).len());
    if n > 50 {
        let preview = preview_of(c.test.payload.as_str());
        s.append(preview.as_str());
        s.append("... (");
        push_number(&mut s, n as u64);
        s.append(" chars)\n");
    } else {
        s.append(c.test.payload.as_str());
        s.append("\n");
    }
    assert(s@ =~= summary_payload(*c));
    s
}

fn headers_lines(c: &Config) -> (s: String)
    ensures
        s@ == summary_headers(*c),
{
    let mut s = String::new();
    if c.target.headers.len() == 0 {
        assert(s@ =~= summary_headers(*c));
        return s;
    }
    s.append("   Custom Headers:   ");
    push_number(&mut s, c.target.headers.len() as u64);
    s.append("\n");
    let ghost top = s@;
    let mut i: usize = 0;
    while i < c.target.headers.len()
        invariant
            i <= c.target.headers.len(),
            s@ == top + header_lines(c.target.headers@.take(i as int)),
        decreases c.target.headers.len() - i,
    {
        let ghost hs = c.target.headers@.take(i + 1);
        assert(hs.drop_last() =~= c.target.headers@.take(i as int));
        s.append("                     ");
        s.append(c.target.headers[i].as_str());
        s.append("\n");
        i += 1;
        assert(s@ =~= top + header_lines(hs));
    }
    assert(c.target.headers@.take(c.target.headers.len() as int) =~= c.target.headers@);
    assert(s@ =~= summary_headers(*c));
    s
}

impl Config {
    /// The summary printed when a test starts.
    pub fn start_summary(&self) -> (s: String)
        requires
            self.test.total_messages is Some ==> self.client.count > 0,
            encode_utf8(self.test.payload@).len() <= usize::MAX,
            encode_utf8(self.test.payload@).len() > 50 ==> has_cut_at_47(self.test.payload@),
        ensures
            s@ == start_summary_text(*self),
    {
        let mut s = String::new();
        s.append("💣 Bomb Stress Test Configuration:\n");
        let part = head_lines(self);
        s.append(part.as_str());
        let part = stop_lines(self);
        s.append(part.as_str());
        let part = pace_lines(self);
        s.append(part.as_str());
        let part = protocol_lines(self);
        s.append(part.as_str());
        let part = payload_lines(self);
        s.append(part.as_str());
        let part = headers_lines(self);
        s.append(part.as_str());
        if self.target.insecure {
            s.append("   Security:         ⚠️  Insecure mode enabled\n");
        }
        s.append("\n");
        assert(s@ =~= start_summary_text(*self));
        s
    }
}

} // verus!
