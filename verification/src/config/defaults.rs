//! Default values and configuration presets.

use vstd::prelude::*;
use vstd::string::StringExecFns;
use super::{
    ClientConfig, Config, HttpMethod, OutputConfig, ProtocolConfig, TargetConfig, TestConfig,
    WSMode,
};
use super::parser::{DEFAULT_HTTP_PAYLOAD, DEFAULT_WS_PAYLOAD};
use crate::time::{Duration, NANOS_PER_SEC};

verus! {

/// Default configuration values.
pub struct Defaults;

impl Defaults {
    pub const CLIENT_COUNT: u32 = 10;

    pub const MESSAGE_RATE: u32 = 100;

    pub const TIMEOUT_SECONDS: u64 = 30;

    pub const MAX_PENDING_MESSAGES: usize = 6000;

    pub const DEFAULT_HTTP_PAYLOAD: &'static str = DEFAULT_HTTP_PAYLOAD;

    pub const DEFAULT_WS_PAYLOAD: &'static str = DEFAULT_WS_PAYLOAD;
}

/// `c` holds the default settings, with the target `url`, the payload
/// `payload` and the protocol `protocol`.
pub open spec fn default_config(c: Config, url: Seq<char>, payload: Seq<char>, protocol: ProtocolConfig) -> bool {
    &&& c.target.url@ == url
    &&& !c.target.insecure
    &&& c.target.headers@.len() == 0
    &&& c.client.count == 10
    &&& c.client.timeout@ == 30 * NANOS_PER_SEC
    &&& c.client.max_pending_messages == 6000
    &&& c.test.duration is None
    &&& c.test.total_messages is None
    &&& c.test.message_rate == 100
    &&& c.test.payload@ == payload
    &&& !c.output.verbose
    &&& c.protocol == protocol
}

/// `c` is the preset `base` changed to `count` clients, a duration of `secs`
/// seconds and a rate of `rate`.
pub open spec fn preset_of(c: Config, url: Seq<char>, is_websocket: bool, count: u32, secs: nat, rate: u32) -> bool {
    &&& c.target.url@ == url
    &&& !c.target.insecure
    &&& c.target.headers@.len() == 0
    &&& c.client.count == count
    &&& c.client.timeout@ == 30 * NANOS_PER_SEC
    &&& c.client.max_pending_messages == 6000
    &&& c.test.duration matches Some(d) && d@ == secs * NANOS_PER_SEC
    &&& c.test.total_messages is None
    &&& c.test.message_rate == rate
    &&& !c.output.verbose
    &&& if is_websocket {
        c.test.payload@ == DEFAULT_WS_PAYLOAD@ && c.protocol == (ProtocolConfig::WebSocket {
            mode: WSMode::Echo,
        })
    } else {
        c.test.payload@ == DEFAULT_HTTP_PAYLOAD@ && c.protocol == (ProtocolConfig::Http {
            method: HttpMethod::Get,
        })
    }
}

impl Config {
    /// The default WebSocket configuration: ten clients, 100 messages per
    /// second each, a 30 s timeout, echo mode, no termination set.
    pub fn default_websocket(target_url: String) -> (c: Config)
        ensures
            default_config(
                c,
                target_url@,
                DEFAULT_WS_PAYLOAD@,
                ProtocolConfig::WebSocket { mode: WSMode::Echo },
            ),
    {
        let mut payload = String::new();
        payload.append(Defaults::DEFAULT_WS_PAYLOAD);
        Config {
            target: TargetConfig { url: target_url, insecure: false, headers: Vec::new() },
            client: ClientConfig {
                count: Defaults::CLIENT_COUNT,
                timeout: Duration::from_secs(Defaults::TIMEOUT_SECONDS),
                max_pending_messages: Defaults::MAX_PENDING_MESSAGES,
            },
            test: TestConfig {
                duration: None,
                total_messages: None,
                message_rate: Defaults::MESSAGE_RATE,
                payload,
            },
            output: OutputConfig { verbose: false },
            protocol: ProtocolConfig::WebSocket { mode: WSMode::Echo },
        }
    }

    /// The default HTTP configuration: as the WebSocket one, with GET
    /// requests and the default HTTP payload.
    pub fn default_http(target_url: String) -> (c: Config)
        ensures
            default_config(
                c,
                target_url@,
                DEFAULT_HTTP_PAYLOAD@,
                ProtocolConfig::Http { method: HttpMethod::Get },
            ),
    {
        let mut payload = String::new();
        payload.append(Defaults::DEFAULT_HTTP_PAYLOAD);
        Config {
            target: TargetConfig { url: target_url, insecure: false, headers: Vec::new() },
            client: ClientConfig {
                count: Defaults::CLIENT_COUNT,
                timeout: Duration::from_secs(Defaults::TIMEOUT_SECONDS),
                max_pending_messages: Defaults::MAX_PENDING_MESSAGES,
            },
            test: TestConfig {
                duration: None,
                total_messages: None,
                message_rate: Defaults::MESSAGE_RATE,
                payload,
            },
            output: OutputConfig { verbose: false },
            protocol: ProtocolConfig::Http { method: HttpMethod::Get },
        }
    }

    /// A quick test: two clients, ten seconds, five messages per second.
    pub fn quick_test(target_url: String, is_websocket: bool) -> (c: Config)
        ensures
            preset_of(c, target_url@, is_websocket, 2, 10, 5),
    {
        let mut config = if is_websocket {
            Self::default_websocket(target_url)
        } else {
            Self::default_http(target_url)
        };
        config.client.count = 2;
        config.test.duration = Some(Duration::from_secs(10));
        config.test.message_rate = 5;
        config
    }

    /// A load test: a hundred clients, five minutes, fifty messages per
    /// second.
    pub fn load_test(target_url: String, is_websocket: bool) -> (c: Config)
        ensures
            preset_of(c, target_url@, is_websocket, 100, 300, 50),
    {
        let mut config = if is_websocket {
            Self::default_websocket(target_url)
        } else {
            Self::default_http(target_url)
        };
        config.client.count = 100;
        config.test.duration = Some(Duration::from_secs(300));
        config.test.message_rate = 50;
        config
    }
}

} // verus!
