use bomb::config::defaults::Defaults;
use bomb::config::parser::{ConnectionModeArg, HttpMethodArg, RawConfig, WSModeArg};
use bomb::config::validation::validate;
use bomb::config::{
    ClientConfig, Config, ConnectionMode, HttpMethod, OutputConfig, ProtocolConfig, TargetConfig,
    TestConfig, WSMode,
};
use bomb::errors::BombError;
use bomb::time::Duration;

fn create_test_config() -> Config {
    Config {
        target: TargetConfig {
            url: "ws://localhost:8080".to_string(),
            insecure: false,
            headers: vec![],
        },
        client: ClientConfig {
            count: 1,
            timeout: Duration::from_secs(30),
            max_pending_messages: 1000,
        },
        test: TestConfig {
            duration: Some(Duration::from_secs(10)),
            total_messages: None,
            message_rate: 10,
            payload: r#"{"id": "test"}"#.to_string(),
        },
        output: OutputConfig { verbose: false },
        protocol: ProtocolConfig::WebSocket {
            mode: WSMode::Echo,
        },
    }
}

fn config_message(e: BombError) -> String {
    match e {
        BombError::Config(m) => m,
        other => panic!("expected a configuration error, got {:?}", other),
    }
}

#[test]
fn test_default_websocket_config() {
    let config = Config::default_websocket("ws://localhost:8080".to_string());
    assert_eq!(config.client.count, Defaults::CLIENT_COUNT);
    assert_eq!(config.test.message_rate, Defaults::MESSAGE_RATE);
    assert_eq!(config.client.timeout.as_secs(), Defaults::TIMEOUT_SECONDS);
    assert!(matches!(config.protocol, ProtocolConfig::WebSocket { .. }));
}

#[test]
fn test_default_http_config() {
    let config = Config::default_http("http://localhost:8080".to_string());
    assert_eq!(config.client.count, Defaults::CLIENT_COUNT);
    assert_eq!(config.test.message_rate, Defaults::MESSAGE_RATE);
    assert!(matches!(config.protocol, ProtocolConfig::Http { .. }));
}

#[test]
fn test_quick_test_config() {
    let config = Config::quick_test("ws://localhost:8080".to_string(), true);
    assert_eq!(config.client.count, 2);
    assert_eq!(config.test.duration, Some(Duration::from_secs(10)));
    assert_eq!(config.test.message_rate, 5);
}

#[test]
fn test_load_test_config() {
    let config = Config::load_test("ws://localhost:8080".to_string(), true);
    assert_eq!(config.client.count, 100);
    assert_eq!(config.test.duration, Some(Duration::from_secs(300)));
    assert_eq!(config.test.message_rate, 50);
}

#[test]
fn test_validate_valid_config() {
    let config = create_test_config();
    assert!(validate(&config).is_ok());
}

#[test]
fn test_validate_invalid_url() {
    let mut config = create_test_config();
    config.target.url = "invalid-url".to_string();
    assert!(validate(&config).is_err());
}

#[test]
fn test_validate_zero_clients() {
    let mut config = create_test_config();
    config.client.count = 0;
    assert!(validate(&config).is_err());
}

#[test]
fn test_validate_no_termination_condition() {
    let mut config = create_test_config();
    config.test.duration = None;
    config.test.total_messages = None;
    assert!(validate(&config).is_err());
}

#[test]
fn test_validate_invalid_json_payload() {
    let mut config = create_test_config();
    config.test.payload = "invalid json".to_string();
    assert!(validate(&config).is_err());
}

#[test]
fn test_validate_websocket_missing_id() {
    let mut config = create_test_config();
    config.test.payload = r#"{"data": "test"}"#.to_string();
    assert!(validate(&config).is_err());
}

#[test]
fn test_validate_http_no_id_required() {
    let mut config = create_test_config();
    config.protocol = ProtocolConfig::Http {
        method: HttpMethod::Post,
    };
    config.target.url = "http://localhost:8080".to_string();
    config.test.payload = r#"{"data": "test"}"#.to_string();
    assert!(validate(&config).is_ok());
}

#[test]
fn test_validate_invalid_header_format() {
    let mut config = create_test_config();
    config.target.headers = vec!["InvalidHeader".to_string()];
    assert!(validate(&config).is_err());
}

#[test]
fn validation_messages_name_the_first_failing_check() {
    let mut config = create_test_config();
    config.client.count = 0;
    config.target.headers = vec!["NoColon".to_string()];
    assert_eq!(
        config_message(validate(&config).unwrap_err()),
        "Number of clients must be greater than 0"
    );

    let mut config = create_test_config();
    config.client.count = 10_001;
    assert_eq!(
        config_message(validate(&config).unwrap_err()),
        "Number of clients cannot exceed 10000"
    );

    let mut config = create_test_config();
    config.client.timeout = Duration::from_secs(0);
    assert_eq!(
        config_message(validate(&config).unwrap_err()),
        "Timeout must be greater than 0"
    );

    let mut config = create_test_config();
    config.test.duration = Some(Duration::from_secs(0));
    assert_eq!(
        config_message(validate(&config).unwrap_err()),
        "Duration must be greater than 0"
    );

    let mut config = create_test_config();
    config.test.duration = None;
    config.test.total_messages = Some(0);
    assert_eq!(
        config_message(validate(&config).unwrap_err()),
        "Total messages must be greater than 0"
    );

    let mut config = create_test_config();
    config.test.payload = "[1, 2]".to_string();
    assert_eq!(
        config_message(validate(&config).unwrap_err()),
        "Payload must be a JSON object"
    );

    let mut config = create_test_config();
    config.test.payload = r#"{"id": 7}"#.to_string();
    assert_eq!(
        config_message(validate(&config).unwrap_err()),
        "Payload 'id' field must be a string"
    );

    let mut config = create_test_config();
    config.test.payload = "invalid json".to_string();
    assert_eq!(
        config_message(validate(&config).unwrap_err()),
        "Invalid JSON payload format: 'invalid json'"
    );

    let mut config = create_test_config();
    config.target.headers = vec!["A: b".to_string(), "InvalidHeader".to_string()];
    assert_eq!(
        config_message(validate(&config).unwrap_err()),
        "Invalid header format 'InvalidHeader'. Use 'Key: Value' format"
    );
}

#[test]
fn validation_checks_the_scheme_of_the_mode() {
    let mut config = create_test_config();
    config.target.url = "http://localhost:8080".to_string();
    assert_eq!(
        config_message(validate(&config).unwrap_err()),
        "Invalid URL scheme 'http' for WebSocket mode. Only 'ws' and 'wss' are supported"
    );

    let mut config = create_test_config();
    config.protocol = ProtocolConfig::Http {
        method: HttpMethod::Get,
    };
    assert_eq!(
        config_message(validate(&config).unwrap_err()),
        "Invalid URL scheme 'ws' for HTTP mode. Only 'http' and 'https' are supported"
    );

    let mut config = create_test_config();
    config.target.url = "wss://example.com/socket".to_string();
    assert!(validate(&config).is_ok());

    let mut config = create_test_config();
    config.target.url = "invalid-url".to_string();
    let message = config_message(validate(&config).unwrap_err());
    assert!(message.starts_with("Invalid target URL 'invalid-url': "));
}

#[test]
fn parse_duration_reads_suffixes() {
    assert_eq!(
        RawConfig::parse_duration("30s").unwrap(),
        Duration::from_secs(30)
    );
    assert_eq!(
        RawConfig::parse_duration("5m").unwrap(),
        Duration::from_secs(300)
    );
    assert_eq!(
        RawConfig::parse_duration("2h").unwrap(),
        Duration::from_secs(7200)
    );
    assert_eq!(
        RawConfig::parse_duration("2H").unwrap(),
        Duration::from_secs(7200)
    );
    assert_eq!(
        RawConfig::parse_duration("  45  ").unwrap(),
        Duration::from_secs(45)
    );
    assert_eq!(
        RawConfig::parse_duration("+7S").unwrap(),
        Duration::from_secs(7)
    );
}

#[test]
fn parse_duration_rejects_bad_input() {
    assert_eq!(
        config_message(RawConfig::parse_duration("   ").unwrap_err()),
        "Duration cannot be empty"
    );
    assert_eq!(
        config_message(RawConfig::parse_duration("xs").unwrap_err()),
        "Invalid duration format: 'xs' - expected number before 's'"
    );
    assert_eq!(
        config_message(RawConfig::parse_duration(" -5m ").unwrap_err()),
        "Invalid duration format: '-5m' - expected number before 'm'"
    );
    assert_eq!(
        config_message(RawConfig::parse_duration("h").unwrap_err()),
        "Invalid duration format: 'h' - expected number before 'h'"
    );
    assert_eq!(
        config_message(RawConfig::parse_duration("10x").unwrap_err()),
        "Invalid duration format: '10x' - expected a number"
    );
    assert!(RawConfig::parse_duration("99999999999999999999s").is_err());
}

#[test]
fn parse_duration_wraps_large_minute_counts() {
    let minutes: u64 = u64::MAX / 60 + 1;
    let d = RawConfig::parse_duration(&format!("{}m", minutes)).unwrap();
    assert_eq!(d.as_secs(), minutes.wrapping_mul(60));
}

fn raw(duration: Option<&str>, payload: Option<&str>, mode: ConnectionModeArg) -> RawConfig {
    RawConfig {
        target: "ws://localhost:9000".to_string(),
        clients: 4,
        duration: duration.map(|d| d.to_string()),
        total_messages: None,
        message_rate: 20,
        timeout: 7,
        max_pending: 50,
        headers: vec!["X-A: 1".to_string()],
        insecure: true,
        verbose: true,
        payload: payload.map(|p| p.to_string()),
        mode,
        ws_mode: WSModeArg::Broadcast,
        http_method: HttpMethodArg::Patch,
    }
}

#[test]
fn try_from_converts_arguments() {
    let config = Config::try_from(raw(Some("1m"), None, ConnectionModeArg::Ws)).unwrap();
    assert_eq!(config.target.url, "ws://localhost:9000");
    assert!(config.target.insecure);
    assert_eq!(config.target.headers, vec!["X-A: 1".to_string()]);
    assert_eq!(config.client.count, 4);
    assert_eq!(config.client.timeout, Duration::from_secs(7));
    assert_eq!(config.client.max_pending_messages, 50);
    assert_eq!(config.test.duration, Some(Duration::from_secs(60)));
    assert_eq!(config.test.message_rate, 20);
    assert_eq!(config.test.payload, Defaults::DEFAULT_WS_PAYLOAD);
    assert!(config.output.verbose);
    assert_eq!(
        config.protocol,
        ProtocolConfig::WebSocket {
            mode: WSMode::Broadcast
        }
    );

    let config = Config::try_from(raw(None, None, ConnectionModeArg::Http)).unwrap();
    assert_eq!(config.test.duration, None);
    assert_eq!(config.test.payload, Defaults::DEFAULT_HTTP_PAYLOAD);
    assert_eq!(
        config.protocol,
        ProtocolConfig::Http {
            method: HttpMethod::Patch
        }
    );

    let config = Config::try_from(raw(None, Some("{}"), ConnectionModeArg::Http)).unwrap();
    assert_eq!(config.test.payload, "{}");

    assert!(Config::try_from(raw(Some("soon"), None, ConnectionModeArg::Ws)).is_err());
}

#[test]
fn from_args_converts_then_validates() {
    let config = Config::from_args(raw(Some("10s"), None, ConnectionModeArg::Ws)).unwrap();
    assert_eq!(config.test.duration, Some(Duration::from_secs(10)));

    let err = Config::from_args(raw(Some("0s"), None, ConnectionModeArg::Ws)).unwrap_err();
    assert_eq!(config_message(err), "Duration must be greater than 0");

    let err = Config::from_args(raw(Some("ten"), None, ConnectionModeArg::Ws)).unwrap_err();
    assert_eq!(
        config_message(err),
        "Invalid duration format: 'ten' - expected a number"
    );

    let err = Config::from_args(raw(Some("10s"), None, ConnectionModeArg::Http)).unwrap_err();
    assert_eq!(
        config_message(err),
        "Invalid URL scheme 'ws' for HTTP mode. Only 'http' and 'https' are supported"
    );
}

#[test]
fn custom_headers_split_and_trim() {
    let mut config = create_test_config();
    config.target.headers = vec![
        "Authorization:  Bearer token ".to_string(),
        "X-Url: http://a:b".to_string(),
    ];
    let headers = config.custom_headers().unwrap();
    assert_eq!(
        headers,
        vec![
            ("Authorization".to_string(), "Bearer token".to_string()),
            ("X-Url".to_string(), "http://a:b".to_string()),
        ]
    );

    config.target.headers.push("broken".to_string());
    assert_eq!(
        config_message(config.custom_headers().unwrap_err()),
        "Invalid header format 'broken'. Use 'Key: Value' format"
    );
}

#[test]
fn accessors_follow_the_configuration() {
    let mut config = create_test_config();
    assert_eq!(config.connection_mode(), ConnectionMode::Ws);
    assert_eq!(config.ws_mode(), Some(WSMode::Echo));
    assert_eq!(config.http_method(), None);
    assert_eq!(config.test_duration(), Some(Duration::from_secs(10)));
    assert_eq!(config.timeout_duration(), Duration::from_secs(30));
    assert_eq!(config.messages_per_client(), None);
    assert_eq!(config.message_interval(), Some(Duration::from_millis(100)));

    config.test.message_rate = 3;
    assert_eq!(config.message_interval(), Some(Duration::from_millis(333)));
    config.test.message_rate = 0;
    assert_eq!(config.message_interval(), None);

    config.client.count = 3;
    config.test.total_messages = Some(10);
    assert_eq!(config.messages_per_client(), Some(3));

    config.protocol = ProtocolConfig::Http {
        method: HttpMethod::Delete,
    };
    assert_eq!(config.connection_mode(), ConnectionMode::Http);
    assert_eq!(config.http_method(), Some(HttpMethod::Delete));
    assert_eq!(config.ws_mode(), None);
}

#[test]
fn extract_message_id_reads_the_id_field() {
    assert_eq!(
        Config::extract_message_id(r#"{"id": "abc", "x": 1}"#).unwrap(),
        "abc"
    );
    assert_eq!(
        Config::extract_message_id_typed(r#"{"id": "abc"}"#)
            .unwrap()
            .0,
        "abc"
    );
    match Config::extract_message_id(r#"{"id": 5}"#).unwrap_err() {
        BombError::Config(m) => assert_eq!(m, "Missing or invalid 'id' field in payload"),
        other => panic!("unexpected {:?}", other),
    }
    match Config::extract_message_id("[]").unwrap_err() {
        BombError::Config(m) => assert_eq!(m, "Missing or invalid 'id' field in payload"),
        other => panic!("unexpected {:?}", other),
    }
    assert!(matches!(
        Config::extract_message_id("not json").unwrap_err(),
        BombError::JsonSerialization(_)
    ));
}

#[test]
fn errors_describe_themselves() {
    assert_eq!(
        BombError::config("bad".to_string()).describe(),
        "Configuration error: bad"
    );
    assert_eq!(
        BombError::execution("stuck".to_string()).describe(),
        "Test execution error: stuck"
    );
    assert_eq!(
        BombError::Transport("down".to_string()).describe(),
        "Transport error: down"
    );
}
