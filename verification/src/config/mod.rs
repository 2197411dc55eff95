//! Configuration of a stress test: its structures, the presets, the
//! conversion from command-line arguments, and validation.

pub mod defaults;
pub mod parser;
pub mod validation;
pub mod summary;

use vstd::prelude::*;
use vstd::string::StringExecFns;
use crate::errors::{BombError, Result};
use crate::json::{inspect_json, JsonDocument, JsonDocumentView, JsonField, JsonFieldView, json_document};
use crate::text::{chars_of, find_char, find_char_from, trim, trimmed};
use crate::time::{Duration, NANOS_PER_MILLI};

verus! {

/// Connection protocol mode.
#[derive(Debug, Clone, Copy, PartialEq, Eq, Structural)]
pub enum ConnectionMode {
    /// HTTP protocol mode.
    Http,
    /// WebSocket protocol mode.
    Ws,
}

/// WebSocket server behavior mode.
#[derive(Debug, Clone, Copy, PartialEq, Eq, Structural)]
pub enum WSMode {
    /// The server echoes messages back to their sender (default).
    Echo,
    /// The server broadcasts messages to all connected clients.
    Broadcast,
}

/// HTTP method for stress testing.
#[derive(Debug, Clone, Copy, PartialEq, Eq, Structural)]
pub enum HttpMethod {
    Get,
    Post,
    Put,
    Delete,
    Patch,
}

/// Target configuration.
#[derive(Debug, Clone)]
pub struct TargetConfig {
    pub url: String,
    pub insecure: bool,
    pub headers: Vec<String>,
}

/// Client configuration.
#[derive(Debug, Clone)]
pub struct ClientConfig {
    pub count: u32,
    pub timeout: Duration,
    pub max_pending_messages: usize,
}

/// Test execution configuration.
#[derive(Debug, Clone)]
pub struct TestConfig {
    pub duration: Option<Duration>,
    pub total_messages: Option<u64>,
    pub message_rate: u32,
    pub payload: String,
}

/// Output configuration.
#[derive(Debug, Clone)]
pub struct OutputConfig {
    pub verbose: bool,
}

/// Protocol-specific configuration.
#[derive(Debug, Clone, Copy, PartialEq, Eq, Structural)]
pub enum ProtocolConfig {
    Http { method: HttpMethod },
    WebSocket { mode: WSMode },
}

/// Main configuration structure.
#[derive(Debug, Clone)]
pub struct Config {
    pub target: TargetConfig,
    pub client: ClientConfig,
    pub test: TestConfig,
    pub output: OutputConfig,
    pub protocol: ProtocolConfig,
}

/// The connection mode that a protocol configuration selects.
pub open spec fn mode_of(p: ProtocolConfig) -> ConnectionMode {
    match p {
        ProtocolConfig::Http { .. } => ConnectionMode::Http,
        ProtocolConfig::WebSocket { .. } => ConnectionMode::Ws,
    }
}

/// A header of the form `Key: Value`, split at its first `:` and trimmed.
pub open spec fn header_pair(h: Seq<char>) -> Option<(Seq<char>, Seq<char>)> {
    let c = find_char(h, ':', 0);
    if c < h.len() {
        Some((trim(h.subrange(0, c)), trim(h.subrange(c + 1, h.len() as int))))
    } else {
        None
    }
}

/// The message for a header that has no `:`.
pub open spec fn bad_header_message(h: Seq<char>) -> Seq<char> {
    "Invalid header format '"@ + h + "'. Use 'Key: Value' format"@
}

/// The index of the first header without a `:`, if any.
pub open spec fn first_bad_header(hs: Seq<String>) -> Option<int> {
    if exists|i: int| 0 <= i < hs.len() && header_pair(#[trigger] hs[i]@) is None {
        Some(
            choose|i: int|
                0 <= i < hs.len() && header_pair(#[trigger] hs[i]@) is None && forall|j: int|
                    0 <= j < i ==> header_pair(#[trigger] hs[j]@) is Some,
        )
    } else {
        None
    }
}

/// The message of a payload whose `id` is missing or not a string.
pub open spec fn missing_id_message() -> Seq<char> {
    "Missing or invalid 'id' field in payload"@
}

/// `r` is the message ID that the parsed payload `doc` carries: its `id`
/// where that is a string, the parse error, or the missing-ID error.
pub open spec fn message_id_result(r: Result<String>, doc: JsonDocumentView) -> bool {
    match doc {
        JsonDocumentView::Malformed(e) => r matches Err(BombError::JsonSerialization(m)) && m@ == e,
        JsonDocumentView::Object(JsonFieldView::Text(id)) => r matches Ok(s) && s@ == id,
        _ => r matches Err(BombError::Config(m)) && m@ == missing_id_message(),
    }
}

/// The message for a header without a `:`.
pub fn bad_header_error(h: &String) -> (e: BombError)
    ensures
        e matches BombError::Config(m) && m@ == bad_header_message(h@),
{
    let mut m = String::new();
    m.append("Invalid header format '");
    m.append(h.as_str());
    m.append("'. Use 'Key: Value' format");
    BombError::Config(m)
}

/// Splits one header at its first `:` and trims both halves.
pub fn split_header(h: &String) -> (r: Option<(String, String)>)
    ensures
        match r {
            Some((k, v)) => header_pair(h@) == Some((k@, v@)),
            None => header_pair(h@) is None,
        },
{
    let chars = chars_of(h.as_str());
    let c = find_char_from(&chars, ':', 0);
    if c < chars.len() {
        let key = trimmed(&chars, 0, c);
        let value = trimmed(&chars, c + 1, chars.len());
        Some((key, value))
    } else {
        None
    }
}

impl Config {
    /// Parses and validates a configuration from command-line arguments
    /// that have already been read into a `RawConfig`.
    pub fn from_args(raw: parser::RawConfig) -> (r: Result<Config>)
        ensures
            parser::conversion_error(raw) matches Some(m) ==> r matches Err(BombError::Config(e))
                && e@ == m,
            parser::conversion_error(raw) is None ==> match r {
                Ok(c) => parser::converted_from(c, raw) && validation::validation_error(c) is None,
                Err(e) => exists|c: Config|
                    parser::converted_from(c, raw) && (#[trigger] validation::validation_error(c)
                        matches Some(m) && e matches BombError::Config(x) && x@ == m),
            },
    {
        let config = match Config::try_from(raw) {
            Ok(c) => c,
            Err(e) => return Err(e),
        };
        match validation::validate(&config) {
            Ok(()) => Ok(config),
            Err(e) => Err(e),
        }
    }

    /// Extracts the message ID, the string field `id`, from a JSON payload.
    pub fn extract_message_id(payload_json: &str) -> (r: Result<String>)
        ensures
            message_id_result(r, json_document(payload_json@, "id"@)),
    {
        Self::message_id_of(inspect_json(payload_json, "id"))
    }

    /// The message ID that a parsed payload `doc` (with its field `id`
    /// looked up) carries: the field where it is a string, else why not.
    pub fn message_id_of(doc: JsonDocument) -> (r: Result<String>)
        ensures
            message_id_result(r, doc@),
    {
        match doc {
            JsonDocument::Malformed(e) => Err(BombError::JsonSerialization(e)),
            JsonDocument::Object(JsonField::Text(id)) => Ok(id),
            _ => {
                let mut m = String::new();
                m.append("Missing or invalid 'id' field in payload");
                Err(BombError::Config(m))
            },
        }
    }

    /// Extracts the message ID as a `MessageId`.
    pub fn extract_message_id_typed(payload_json: &str) -> (r: Result<crate::message::MessageId>)
        ensures
            match json_document(payload_json@, "id"@) {
                JsonDocumentView::Malformed(e) => r matches Err(BombError::JsonSerialization(m))
                    && m@ == e,
                JsonDocumentView::Object(JsonFieldView::Text(id)) => r matches Ok(s) && s.0@
                    == id,
                _ => r matches Err(BombError::Config(m)) && m@ == missing_id_message(),
            },
    {
        match Self::extract_message_id(payload_json) {
            Ok(id) => Ok(crate::message::MessageId(id)),
            Err(e) => Err(e),
        }
    }

    /// The connection mode.
    pub fn connection_mode(&self) -> (m: ConnectionMode)
        ensures
            m == mode_of(self.protocol),
    {
        match &self.protocol {
            ProtocolConfig::Http { .. } => ConnectionMode::Http,
            ProtocolConfig::WebSocket { .. } => ConnectionMode::Ws,
        }
    }

    /// The custom headers as trimmed key-value pairs; the first header
    /// without a `:` is an error.
    pub fn custom_headers(&self) -> (r: Result<Vec<(String, String)>>)
        ensures
            match first_bad_header(self.target.headers@) {
                None => r matches Ok(v) && v.len() == self.target.headers.len() && forall|i: int|
                    0 <= i < v.len() ==> header_pair(#[trigger] self.target.headers@[i]@) == Some(
                        (v@[i].0@, v@[i].1@),
                    ),
                Some(i) => r matches Err(BombError::Config(m)) && m@ == bad_header_message(
                    self.target.headers@[i]@,
                ),
            },
    {
        let mut headers: Vec<(String, String)> = Vec::new();
        let mut i: usize = 0;
        while i < self.target.headers.len()
            invariant
                i <= self.target.headers.len(),
                headers.len() == i,
                forall|j: int|
                    0 <= j < i ==> header_pair(#[trigger] self.target.headers@[j]@) == Some(
                        (headers@[j].0@, headers@[j].1@),
                    ),
            decreases self.target.headers.len() - i,
        {
            match split_header(&self.target.headers[i]) {
                Some(pair) => {
                    headers.push(pair);
                },
                None => {
                    proof {
                        let hs = self.target.headers@;
                        assert(header_pair(hs[i as int]@) is None && forall|j: int|
                            0 <= j < i ==> header_pair(#[trigger] hs[j]@) is Some);
                        let k = choose|k: int|
                            0 <= k < hs.len() && header_pair(#[trigger] hs[k]@) is None && forall|
                                j: int,
                            | 0 <= j < k ==> header_pair(#[trigger] hs[j]@) is Some;
                        if k < i {
                            assert(header_pair(hs[k]@) is Some);
                        }
                        if k > i {
                            assert(header_pair(hs[i as int]@) is Some);
                        }
                        assert(first_bad_header(hs) == Some(i as int));
                    }
                    return Err(bad_header_error(&self.target.headers[i]));
                },
            }
            i += 1;
        }
        proof {
            let hs = self.target.headers@;
            if exists|k: int| 0 <= k < hs.len() && header_pair(#[trigger] hs[k]@) is None {
                let k = choose|k: int| 0 <= k < hs.len() && header_pair(#[trigger] hs[k]@) is None;
                assert(header_pair(hs[k]@) is Some);
            }
        }
        Ok(headers)
    }

    /// The test duration.
    pub fn test_duration(&self) -> (d: Option<Duration>)
        ensures
            d == self.test.duration,
    {
        self.test.duration
    }

    /// The number of messages each client sends: the total divided by the
    /// number of clients, rounded down.
    pub fn messages_per_client(&self) -> (n: Option<u64>)
        requires
            self.test.total_messages is Some ==> self.client.count > 0,
        ensures
            match self.test.total_messages {
                Some(total) => n == Some((total / (self.client.count as u64)) as u64),
                None => n is None,
            },
    {
        match self.test.total_messages {
            Some(total) => Some(total / self.client.count as u64),
            None => None,
        }
    }

    /// The HTTP method, in HTTP mode.
    pub fn http_method(&self) -> (m: Option<HttpMethod>)
        ensures
            match self.protocol {
                ProtocolConfig::Http { method } => m == Some(method),
                _ => m is None,
            },
    {
        match &self.protocol {
            ProtocolConfig::Http { method } => Some(*method),
            _ => None,
        }
    }

    /// The WebSocket mode, in WebSocket mode.
    pub fn ws_mode(&self) -> (m: Option<WSMode>)
        ensures
            match self.protocol {
                ProtocolConfig::WebSocket { mode } => m == Some(mode),
                _ => m is None,
            },
    {
        match &self.protocol {
            ProtocolConfig::WebSocket { mode } => Some(*mode),
            _ => None,
        }
    }

    /// The interval between two messages of one client: `1000 / rate`
    /// milliseconds, rounded down; none where the rate is zero (unlimited).
    pub fn message_interval(&self) -> (d: Option<Duration>)
        ensures
            self.test.message_rate == 0 ==> d is None,
            self.test.message_rate > 0 ==> (d matches Some(i) && i@ == (1000int / (
            self.test.message_rate as int)) * NANOS_PER_MILLI),
    {
        if self.test.message_rate > 0 {
            Some(Duration::from_millis(1000 / self.test.message_rate as u64))
        } else {
            None
        }
    }

    /// The response timeout.
    pub fn timeout_duration(&self) -> (d: Duration)
        ensures
            d == self.client.timeout,
    {
        self.client.timeout
    }
}

} // verus!
