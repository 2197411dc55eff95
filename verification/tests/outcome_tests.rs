use bomb::address::UrlParts;
use bomb::client::http::host_key_of;
use bomb::config::validation::{check_payload, check_target};
use bomb::config::{Config, ConnectionMode, HttpMethod, ProtocolConfig, WSMode};
use bomb::errors::BombError;
use bomb::json::{JsonDocument, JsonField};
use bomb::patterns::values::{datetime_bound_from, datetime_text_with};

fn parts(scheme: &str, host: Option<&str>, port: Option<u16>) -> UrlParts {
    UrlParts { scheme: scheme.to_string(), host: host.map(|h| h.to_string()), port }
}

fn config_message(r: Result<(), BombError>) -> String {
    match r {
        Err(BombError::Config(m)) => m,
        other => panic!("expected a configuration error, got {:?}", other),
    }
}

#[test]
fn message_ids_are_read_from_parsed_payloads() {
    assert_eq!(Config::message_id_of(JsonDocument::Object(JsonField::Text("m-1".to_string()))).unwrap(), "m-1");
    match Config::message_id_of(JsonDocument::Object(JsonField::NonText)) {
        Err(BombError::Config(m)) => assert_eq!(m, "Missing or invalid 'id' field in payload"),
        other => panic!("unexpected {:?}", other),
    }
    assert!(matches!(Config::message_id_of(JsonDocument::Object(JsonField::Absent)), Err(BombError::Config(_))));
    assert!(matches!(Config::message_id_of(JsonDocument::NotAnObject), Err(BombError::Config(_))));
    match Config::message_id_of(JsonDocument::Malformed("expected value at line 1 column 1".to_string())) {
        Err(BombError::JsonSerialization(m)) => assert_eq!(m, "expected value at line 1 column 1"),
        other => panic!("unexpected {:?}", other),
    }
}

#[test]
fn targets_are_checked_from_their_parsed_parts() {
    assert!(check_target("wss://h", ConnectionMode::Ws, Ok(parts("wss", Some("h"), Some(443)))).is_ok());
    assert!(check_target("https://h", ConnectionMode::Http, Ok(parts("https", Some("h"), Some(443)))).is_ok());
    assert_eq!(
        config_message(check_target("ftp://h", ConnectionMode::Ws, Ok(parts("ftp", Some("h"), Some(21))))),
        "Invalid URL scheme 'ftp' for WebSocket mode. Only 'ws' and 'wss' are supported"
    );
    assert_eq!(
        config_message(check_target("ws://h", ConnectionMode::Http, Ok(parts("ws", Some("h"), Some(80))))),
        "Invalid URL scheme 'ws' for HTTP mode. Only 'http' and 'https' are supported"
    );
    assert_eq!(
        config_message(check_target("x", ConnectionMode::Http, Err("relative URL without a base".to_string()))),
        "Invalid target URL 'x': relative URL without a base"
    );
}

#[test]
fn payloads_are_checked_from_their_parsed_form() {
    let ws = ProtocolConfig::WebSocket { mode: WSMode::Echo };
    let http = ProtocolConfig::Http { method: HttpMethod::Get };
    assert!(check_payload("{}", ws, JsonDocument::Object(JsonField::Text("a".to_string()))).is_ok());
    assert!(check_payload("{}", http, JsonDocument::Object(JsonField::Absent)).is_ok());
    assert_eq!(
        config_message(check_payload("{}", ws, JsonDocument::Object(JsonField::Absent))),
        "Payload JSON must contain an 'id' field for WebSocket mode"
    );
    assert_eq!(
        config_message(check_payload("{}", ws, JsonDocument::Object(JsonField::NonText))),
        "Payload 'id' field must be a string"
    );
    assert_eq!(config_message(check_payload("[1]", http, JsonDocument::NotAnObject)), "Payload must be a JSON object");
    assert_eq!(
        config_message(check_payload("nope", http, JsonDocument::Malformed("e".to_string()))),
        "Invalid JSON payload format: 'nope'"
    );
}

#[test]
fn connection_keys_come_from_host_and_port() {
    assert_eq!(host_key_of(&parts("http", Some("a.b"), Some(8080))), "a.b:8080");
    assert_eq!(host_key_of(&parts("http", None, Some(1))), "unknown:1");
    assert_eq!(host_key_of(&parts("foo", Some("h"), None)), "h:80");
}

#[test]
fn datetimes_fall_back_as_described() {
    assert_eq!(
        datetime_text_with(7, Some("1970-01-01T00:00:07+00:00".to_string())).iter().collect::<String>(),
        "1970-01-01T00:00:07+00:00"
    );
    assert_eq!(
        datetime_text_with(-42, None).iter().collect::<String>(),
        "{datetime_error: invalid_timestamp_-42}"
    );
    assert_eq!(datetime_bound_from(Some(5), "anything"), Some(5));
    assert_eq!(datetime_bound_from(None, "1700000000"), Some(1_700_000_000));
    assert_eq!(datetime_bound_from(None, "-3"), Some(-3));
    assert_eq!(datetime_bound_from(None, "soon"), None);
}
