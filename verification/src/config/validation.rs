//! Configuration validation.

use vstd::prelude::*;
use vstd::string::StringExecFns;
use super::{Config, ConnectionMode, ProtocolConfig, mode_of, bad_header_message, bad_header_error};
use crate::address::{parse_url, parsed_view, url_parts, UrlParts};
use crate::constants::MAX_CLIENTS_LIMIT;
use crate::errors::{BombError, Result};
use crate::json::{inspect_json, json_document, JsonDocument, JsonDocumentView, JsonField, JsonFieldView};
use crate::text::{chars_of, contains_char};

verus! {

/// Why a target URL `url` is refused in `mode`, given what `url::Url::parse`
/// made of it: a parse error, or a scheme that does not suit the mode.
pub open spec fn target_error_of(
    url: Seq<char>,
    mode: ConnectionMode,
    parsed: std::result::Result<(Seq<char>, Option<Seq<char>>, Option<u16>), Seq<char>>,
) -> Option<Seq<char>> {
    match parsed {
        Err(e) => Some("Invalid target URL '"@ + url + "': "@ + e),
        Ok((scheme, _, _)) => match mode {
            ConnectionMode::Ws => if scheme == "ws"@ || scheme == "wss"@ {
                None
            } else {
                Some(
                    "Invalid URL scheme '"@ + scheme
                        + "' for WebSocket mode. Only 'ws' and 'wss' are supported"@,
                )
            },
            ConnectionMode::Http => if scheme == "http"@ || scheme == "https"@ {
                None
            } else {
                Some(
                    "Invalid URL scheme '"@ + scheme
                        + "' for HTTP mode. Only 'http' and 'https' are supported"@,
                )
            },
        },
    }
}

/// Why the target is refused, if it is.
pub open spec fn target_error(c: Config) -> Option<Seq<char>> {
    target_error_of(c.target.url@, mode_of(c.protocol), url_parts(c.target.url@))
}

/// Why the client settings are refused, if they are.
pub open spec fn client_error(c: Config) -> Option<Seq<char>> {
    if c.client.count == 0 {
        Some("Number of clients must be greater than 0"@)
    } else if c.client.count > MAX_CLIENTS_LIMIT {
        Some("Number of clients cannot exceed 10000"@)
    } else if c.client.timeout@ == 0 {
        Some("Timeout must be greater than 0"@)
    } else {
        None
    }
}

/// Why the termination settings are refused, if they are.
pub open spec fn test_error(c: Config) -> Option<Seq<char>> {
    if c.test.duration is None && c.test.total_messages is None {
        Some("Must specify either --duration or --total-messages to define test termination"@)
    } else if c.test.duration matches Some(d) && d@ == 0 {
        Some("Duration must be greater than 0"@)
    } else if c.test.total_messages == Some(0u64) {
        Some("Total messages must be greater than 0"@)
    } else {
        None
    }
}

/// Why a payload is refused under `protocol`, given what
/// `serde_json` made of it (with its field `id` looked up): it must be a
/// JSON object, and in WebSocket mode its `id` must be a string.
pub open spec fn payload_error_of(payload: Seq<char>, protocol: ProtocolConfig, doc: JsonDocumentView) -> Option<Seq<char>> {
    match doc {
        JsonDocumentView::Malformed(_) => Some("Invalid JSON payload format: '"@ + payload + "'"@),
        JsonDocumentView::NotAnObject => Some("Payload must be a JSON object"@),
        JsonDocumentView::Object(field) => match protocol {
            ProtocolConfig::WebSocket { .. } => match field {
                JsonFieldView::Absent => Some(
                    "Payload JSON must contain an 'id' field for WebSocket mode"@,
                ),
                JsonFieldView::NonText => Some("Payload 'id' field must be a string"@),
                JsonFieldView::Text(_) => None,
            },
            ProtocolConfig::Http { .. } => None,
        },
    }
}

/// Why the payload is refused, if it is.
pub open spec fn payload_error(c: Config) -> Option<Seq<char>> {
    payload_error_of(c.test.payload@, c.protocol, json_document(c.test.payload@, "id"@))
}

/// Why the headers are refused, if they are: the first without a `:`.
pub open spec fn headers_error(c: Config) -> Option<Seq<char>> {
    if exists|i: int|
        0 <= i < c.target.headers.len() && !(#[trigger] c.target.headers@[i]@).contains(':') {
        let i = choose|i: int|
            0 <= i < c.target.headers.len() && !(#[trigger] c.target.headers@[i]@).contains(':')
                && forall|j: int|
                0 <= j < i ==> (#[trigger] c.target.headers@[j]@).contains(':');
        Some(bad_header_message(c.target.headers@[i]@))
    } else {
        None
    }
}

/// Why `c` is refused, if it is: the first check that fails, in the order
/// target, clients, termination, payload, headers.
pub open spec fn validation_error(c: Config) -> Option<Seq<char>> {
    if target_error(c) is Some {
        target_error(c)
    } else if client_error(c) is Some {
        client_error(c)
    } else if test_error(c) is Some {
        test_error(c)
    } else if payload_error(c) is Some {
        payload_error(c)
    } else {
        headers_error(c)
    }
}

/// A configuration error carrying `m`.
pub open spec fn config_error_with(r: Result<()>, m: Option<Seq<char>>) -> bool {
    match m {
        None => r is Ok,
        Some(msg) => r matches Err(BombError::Config(e)) && e@ == msg,
    }
}

/// Whether the characters of `s` equal those of `lit`.
fn same_text(s: &Vec<char>, lit: &str) -> (b: bool)
    ensures
        b == (s@ == lit@),
{
    let l = chars_of(lit);
    if s.len() != l.len() {
        return false;
    }
    let mut i: usize = 0;
    while i < s.len()
        invariant
            i <= s.len() == l.len(),
            l@ == lit@,
            forall|j: int| 0 <= j < i ==> s@[j] == l@[j],
        decreases s.len() - i,
    {
        if s[i] != l[i] {
            assert(s@[i as int] != l@[i as int]);
            return false;
        }
        i += 1;
    }
    assert(s@ =~= l@);
    true
}

/// A configuration error with the message `a + b + c`.
fn config_error3(a: &str, b: &str, c: &str) -> (e: BombError)
    ensures
        e matches BombError::Config(m) && m@ == a@ + b@ + c@,
{
    let mut m = String::new();
    m.append(a);
    m.append(b);
    m.append(c);
    BombError::Config(m)
}

/// A configuration error with the message `a`.
fn config_error(a: &str) -> (e: BombError)
    ensures
        e matches BombError::Config(m) && m@ == a@,
{
    let mut m = String::new();
    m.append(a);
    BombError::Config(m)
}

/// Validates the configuration: the target URL and its scheme, the client
/// settings, the termination settings, the payload and the headers.
pub fn validate(config: &Config) -> (r: Result<()>)
    ensures
        config_error_with(r, validation_error(*config)),
{
    match validate_target(config) {
        Ok(()) => {},
        Err(e) => return Err(e),
    }
    match validate_client_config(config) {
        Ok(()) => {},
        Err(e) => return Err(e),
    }
    match validate_test_config(config) {
        Ok(()) => {},
        Err(e) => return Err(e),
    }
    match validate_payload(config) {
        Ok(()) => {},
        Err(e) => return Err(e),
    }
    validate_headers(config)
}

/// Validates the target URL and that its scheme suits the connection mode.
pub fn validate_target(config: &Config) -> (r: Result<()>)
    ensures
        config_error_with(r, target_error(*config)),
{
    check_target(config.target.url.as_str(), config.connection_mode(), parse_url(config.target.url.as_str()))
}

/// Checks a target URL `url` in `mode`, given what `url::Url::parse` made
/// of it.
pub fn check_target(url: &str, mode: ConnectionMode, parsed: std::result::Result<UrlParts, String>) -> (r: Result<()>)
    ensures
        config_error_with(r, target_error_of(url@, mode, parsed_view(parsed))),
{
    match parsed {
        Err(e) => {
            let mut m = String::new();
            m.append("Invalid target URL '");
            m.append(url);
            m.append("': ");
            m.append(e.as_str());
            Err(BombError::Config(m))
        },
        Ok(parts) => {
            let scheme = parts.scheme;
            let s = chars_of(scheme.as_str());
            match mode {
                ConnectionMode::Ws => {
                    if same_text(&s, "ws") || same_text(&s, "wss") {
                        Ok(())
                    } else {
                        Err(
                            config_error3(
                                "Invalid URL scheme '",
                                scheme.as_str(),
                                "' for WebSocket mode. Only 'ws' and 'wss' are supported",
                            ),
                        )
                    }
                },
                ConnectionMode::Http => {
                    if same_text(&s, "http") || same_text(&s, "https") {
                        Ok(())
                    } else {
                        Err(
                            config_error3(
                                "Invalid URL scheme '",
                                scheme.as_str(),
                                "' for HTTP mode. Only 'http' and 'https' are supported",
                            ),
                        )
                    }
                },
            }
        },
    }
}

/// Validates the number of clients and the timeout.
pub fn validate_client_config(config: &Config) -> (r: Result<()>)
    ensures
        config_error_with(r, client_error(*config)),
{
    if config.client.count == 0 {
        return Err(config_error("Number of clients must be greater than 0"));
    }
    if config.client.count > MAX_CLIENTS_LIMIT {
        return Err(config_error("Number of clients cannot exceed 10000"));
    }
    if config.client.timeout.is_zero() {
        return Err(config_error("Timeout must be greater than 0"));
    }
    Ok(())
}

/// Validates that the test ends: by a duration or a message total, neither
/// of them zero.
pub fn validate_test_config(config: &Config) -> (r: Result<()>)
    ensures
        config_error_with(r, test_error(*config)),
{
    if config.test.duration.is_none() && config.test.total_messages.is_none() {
        return Err(
            config_error(
                "Must specify either --duration or --total-messages to define test termination",
            ),
        );
    }
    if let Some(duration) = &config.test.duration {
        if duration.is_zero() {
            return Err(config_error("Duration must be greater than 0"));
        }
    }
    if let Some(total_messages) = config.test.total_messages {
        if total_messages == 0 {
            return Err(config_error("Total messages must be greater than 0"));
        }
    }
    Ok(())
}

/// Validates that the payload is a JSON object and, in WebSocket mode, that
/// its `id` field is a string.
pub fn validate_payload(config: &Config) -> (r: Result<()>)
    ensures
        config_error_with(r, payload_error(*config)),
{
    check_payload(config.test.payload.as_str(), config.protocol, inspect_json(config.test.payload.as_str(), "id"))
}

/// Checks a payload under `protocol`, given what `serde_json` made of it
/// (with its field `id` looked up).
pub fn check_payload(payload: &str, protocol: ProtocolConfig, doc: JsonDocument) -> (r: Result<()>)
    ensures
        config_error_with(r, payload_error_of(payload@, protocol, doc@)),
{
    match doc {
        JsonDocument::Malformed(_) => Err(config_error3("Invalid JSON payload format: '", payload, "'")),
        JsonDocument::NotAnObject => Err(config_error("Payload must be a JSON object")),
        JsonDocument::Object(field) => match protocol {
            ProtocolConfig::WebSocket { .. } => match field {
                JsonField::Absent => Err(
                    config_error("Payload JSON must contain an 'id' field for WebSocket mode"),
                ),
                JsonField::NonText => Err(config_error("Payload 'id' field must be a string")),
                JsonField::Text(_) => Ok(()),
            },
            ProtocolConfig::Http { .. } => Ok(()),
        },
    }
}

/// Validates that every custom header has a `:`.
pub fn validate_headers(config: &Config) -> (r: Result<()>)
    ensures
        config_error_with(r, headers_error(*config)),
{
    let hs = &config.target.headers;
    let mut i: usize = 0;
    while i < hs.len()
        invariant
            i <= hs.len(),
            hs == &config.target.headers,
            forall|j: int| 0 <= j < i ==> (#[trigger] hs@[j]@).contains(':'),
        decreases hs.len() - i,
    {
        if !contains_char(hs[i].as_str(), ':') {
            proof {
                assert(!hs@[i as int]@.contains(':') && forall|j: int|
                    0 <= j < i ==> (#[trigger] hs@[j]@).contains(':'));
                let k = choose|k: int|
                    0 <= k < hs.len() && !(#[trigger] hs@[k]@).contains(':') && forall|j: int|
                        0 <= j < k ==> (#[trigger] hs@[j]@).contains(':');
                if k < i {
                    assert(hs@[k]@.contains(':'));
                }
                if k > i {
                    assert(hs@[i as int]@.contains(':'));
                }
            }
            return Err(bad_header_error(&hs[i]));
        }
        i += 1;
    }
    proof {
        if exists|k: int| 0 <= k < hs.len() && !(#[trigger] hs@[k]@).contains(':') {
            let k = choose|k: int| 0 <= k < hs.len() && !(#[trigger] hs@[k]@).contains(':');
            assert(hs@[k]@.contains(':'));
        }
    }
    Ok(())
}

} // verus!
