//! Command-line arguments, as read, and their conversion into a `Config`.

use vstd::prelude::*;
use vstd::string::StringExecFns;
use super::{
    ClientConfig, Config, HttpMethod, OutputConfig, ProtocolConfig, TargetConfig, TestConfig,
    WSMode,
};
use crate::errors::{BombError, Result};
use crate::text::{chars_of, parse_u64, parse_u64_spec, string_of_range, trim, trim_span};
use crate::time::{Duration, NANOS_PER_SEC};

verus! {

/// Connection protocol mode as given on the command line.
#[derive(Debug, Clone, Copy, PartialEq, Eq, Structural)]
pub enum ConnectionModeArg {
    /// HTTP protocol mode.
    Http,
    /// WebSocket protocol mode.
    Ws,
}

/// WebSocket server behavior mode as given on the command line.
#[derive(Debug, Clone, Copy, PartialEq, Eq, Structural)]
pub enum WSModeArg {
    /// The server echoes messages back to their sender (default).
    Echo,
    /// The server broadcasts messages to all connected clients.
    Broadcast,
}

/// HTTP method as given on the command line.
#[derive(Debug, Clone, Copy, PartialEq, Eq, Structural)]
pub enum HttpMethodArg {
    Get,
    Post,
    Put,
    Delete,
    Patch,
}

/// Command-line arguments, as read.
#[derive(Debug, Clone)]
pub struct RawConfig {
    /// Target URL (HTTP or WebSocket).
    pub target: String,
    /// Number of concurrent clients.
    pub clients: u32,
    /// Duration of the test, such as `30s`, `5m` or `2h`.
    pub duration: Option<String>,
    /// Total number of messages across all clients.
    pub total_messages: Option<u64>,
    /// Messages per second per client (0 = unlimited).
    pub message_rate: u32,
    /// Response timeout in seconds.
    pub timeout: u64,
    /// Maximum pending messages per client.
    pub max_pending: usize,
    /// Custom headers in `Key: Value` form.
    pub headers: Vec<String>,
    /// Allow insecure TLS connections.
    pub insecure: bool,
    /// Verbose logging.
    pub verbose: bool,
    /// JSON payload.
    pub payload: Option<String>,
    /// Connection protocol mode.
    pub mode: ConnectionModeArg,
    /// WebSocket mode.
    pub ws_mode: WSModeArg,
    /// HTTP method.
    pub http_method: HttpMethodArg,
}

/// The payload sent in HTTP mode when none is given.
pub const DEFAULT_HTTP_PAYLOAD: &'static str = "{\"message\": \"Hello from Bomb!\", \"timestamp\": \"<rnd:ts>\"}";

/// The payload sent in WebSocket mode when none is given.
pub const DEFAULT_WS_PAYLOAD: &'static str = "{\"id\": \"<rnd:uuid>\"}";

/// `2^64`: `u64` arithmetic wraps modulo this.
pub open spec fn u64_modulus() -> int {
    0x1_0000_0000_0000_0000
}

/// The message for a duration whose number does not parse.
pub open spec fn bad_duration_message(t: Seq<char>, expected: Seq<char>) -> Seq<char> {
    "Invalid duration format: '"@ + t + "' - expected "@ + expected
}

/// What `parse_duration` makes of `s`: whole seconds or an error message.
/// A number followed by `s`, `m` or `h` (either case) counts seconds,
/// minutes or hours; a bare number counts seconds. Minutes and hours are
/// multiplied into seconds with `u64` arithmetic, which wraps.
pub open spec fn duration_result(s: Seq<char>) -> std::result::Result<u64, Seq<char>> {
    let t = trim(s);
    if t.len() == 0 {
        Err("Duration cannot be empty"@)
    } else {
        let c = t.last();
        let number = t.drop_last();
        if c == 's' || c == 'S' {
            match parse_u64_spec(number) {
                Some(n) => Ok(n),
                None => Err(bad_duration_message(t, "number before 's'"@)),
            }
        } else if c == 'm' || c == 'M' {
            match parse_u64_spec(number) {
                Some(n) => Ok(((n * 60) % u64_modulus()) as u64),
                None => Err(bad_duration_message(t, "number before 'm'"@)),
            }
        } else if c == 'h' || c == 'H' {
            match parse_u64_spec(number) {
                Some(n) => Ok(((n * 3600) % u64_modulus()) as u64),
                None => Err(bad_duration_message(t, "number before 'h'"@)),
            }
        } else {
            match parse_u64_spec(t) {
                Some(n) => Ok(n),
                None => Err(bad_duration_message(t, "a number"@)),
            }
        }
    }
}

/// Where converting `raw` fails: the message of its bad duration.
pub open spec fn conversion_error(raw: RawConfig) -> Option<Seq<char>> {
    match raw.duration {
        Some(d) => match duration_result(d@) {
            Err(m) => Some(m),
            Ok(_) => None,
        },
        None => None,
    }
}

/// The protocol configuration that the mode arguments select.
pub open spec fn protocol_of(raw: RawConfig) -> ProtocolConfig {
    match raw.mode {
        ConnectionModeArg::Http => ProtocolConfig::Http {
            method: match raw.http_method {
                HttpMethodArg::Get => HttpMethod::Get,
                HttpMethodArg::Post => HttpMethod::Post,
                HttpMethodArg::Put => HttpMethod::Put,
                HttpMethodArg::Delete => HttpMethod::Delete,
                HttpMethodArg::Patch => HttpMethod::Patch,
            },
        },
        ConnectionModeArg::Ws => ProtocolConfig::WebSocket {
            mode: match raw.ws_mode {
                WSModeArg::Echo => WSMode::Echo,
                WSModeArg::Broadcast => WSMode::Broadcast,
            },
        },
    }
}

/// The payload: the one given, or the default of the protocol.
pub open spec fn payload_of(raw: RawConfig) -> Seq<char> {
    match raw.payload {
        Some(p) => p@,
        None => match raw.mode {
            ConnectionModeArg::Http => DEFAULT_HTTP_PAYLOAD@,
            ConnectionModeArg::Ws => DEFAULT_WS_PAYLOAD@,
        },
    }
}

/// `c` is the configuration that `raw` converts into.
pub open spec fn converted_from(c: Config, raw: RawConfig) -> bool {
    &&& c.target.url@ == raw.target@
    &&& c.target.insecure == raw.insecure
    &&& c.target.headers@ == raw.headers@
    &&& c.client.count == raw.clients
    &&& c.client.timeout@ == raw.timeout * NANOS_PER_SEC
    &&& c.client.max_pending_messages == raw.max_pending
    &&& match raw.duration {
        Some(d) => match duration_result(d@) {
            Ok(secs) => c.test.duration matches Some(t) && t@ == secs * NANOS_PER_SEC,
            Err(_) => false,
        },
        None => c.test.duration is None,
    }
    &&& c.test.total_messages == raw.total_messages
    &&& c.test.message_rate == raw.message_rate
    &&& c.test.payload@ == payload_of(raw)
    &&& c.output.verbose == raw.verbose
    &&& c.protocol == protocol_of(raw)
}

/// The error for a duration whose number does not parse.
fn bad_duration(t: &String, expected: &str) -> (e: BombError)
    ensures
        e matches BombError::Config(m) && m@ == bad_duration_message(t@, expected@),
{
    let mut m = String::new();
    m.append("Invalid duration format: '");
    m.append(t.as_str());
    m.append("' - expected ");
    m.append(expected);
    BombError::Config(m)
}

impl RawConfig {
    /// Parses a duration with an optional suffix: `s` seconds, `m` minutes,
    /// `h` hours (either case); a bare number counts seconds.
    pub fn parse_duration(duration_str: &str) -> (r: Result<Duration>)
        ensures
            match duration_result(duration_str@) {
                Ok(secs) => r matches Ok(d) && d@ == secs * NANOS_PER_SEC,
                Err(m) => r matches Err(BombError::Config(e)) && e@ == m,
            },
    {
        let chars = chars_of(duration_str);
        let (a, b) = trim_span(&chars, 0, chars.len());
        assert(chars@.subrange(0, chars@.len() as int) =~= chars@);
        let ghost t = chars@.subrange(a as int, b as int);
        if a == b {
            let mut m = String::new();
            m.append("Duration cannot be empty");
            return Err(BombError::Config(m));
        }
        let text = string_of_range(&chars, a, b);
        let last = chars[b - 1];
        assert(t.last() == last);
        assert(t.drop_last() =~= chars@.subrange(a as int, b - 1));
        if last == 's' || last == 'S' {
            match parse_u64(&chars, a, b - 1) {
                Some(n) => Ok(Duration::from_secs(n)),
                None => Err(bad_duration(&text, "number before 's'")),
            }
        } else if last == 'm' || last == 'M' {
            match parse_u64(&chars, a, b - 1) {
                Some(n) => Ok(Duration::from_secs(n.wrapping_mul(60))),
                None => Err(bad_duration(&text, "number before 'm'")),
            }
        } else if last == 'h' || last == 'H' {
            match parse_u64(&chars, a, b - 1) {
                Some(n) => Ok(Duration::from_secs(n.wrapping_mul(3600))),
                None => Err(bad_duration(&text, "number before 'h'")),
            }
        } else {
            match parse_u64(&chars, a, b) {
                Some(n) => Ok(Duration::from_secs(n)),
                None => Err(bad_duration(&text, "a number")),
            }
        }
    }
}

impl Config {
    /// Converts command-line arguments into a configuration: parses the
    /// duration, selects the protocol and fills in the default payload.
    pub fn try_from(raw: RawConfig) -> (r: Result<Config>)
        ensures
            match conversion_error(raw) {
                Some(m) => r matches Err(BombError::Config(e)) && e@ == m,
                None => r matches Ok(c) && converted_from(c, raw),
            },
    {
        let duration = match &raw.duration {
            Some(duration_str) => match RawConfig::parse_duration(duration_str.as_str()) {
                Ok(d) => Some(d),
                Err(e) => {
                    return Err(e);
                },
            },
            None => None,
        };
        let protocol = match raw.mode {
            ConnectionModeArg::Http => ProtocolConfig::Http {
                method: match raw.http_method {
                    HttpMethodArg::Get => HttpMethod::Get,
                    HttpMethodArg::Post => HttpMethod::Post,
                    HttpMethodArg::Put => HttpMethod::Put,
                    HttpMethodArg::Delete => HttpMethod::Delete,
                    HttpMethodArg::Patch => HttpMethod::Patch,
                },
            },
            ConnectionModeArg::Ws => ProtocolConfig::WebSocket {
                mode: match raw.ws_mode {
                    WSModeArg::Echo => WSMode::Echo,
                    WSModeArg::Broadcast => WSMode::Broadcast,
                },
            },
        };
        let payload = match raw.payload {
            Some(p) => p,
            None => {
                let mut p = String::new();
                match raw.mode {
                    ConnectionModeArg::Http => p.append(DEFAULT_HTTP_PAYLOAD),
                    ConnectionModeArg::Ws => p.append(DEFAULT_WS_PAYLOAD),
                }
                p
            },
        };
        Ok(
            Config {
                target: TargetConfig { url: raw.target, insecure: raw.insecure, headers: raw.headers },
                client: ClientConfig {
                    count: raw.clients,
                    timeout: Duration::from_secs(raw.timeout),
                    max_pending_messages: raw.max_pending,
                },
                test: TestConfig {
                    duration,
                    total_messages: raw.total_messages,
                    message_rate: raw.message_rate,
                    payload,
                },
                output: OutputConfig { verbose: raw.verbose },
                protocol,
            },
        )
    }
}

} // verus!
