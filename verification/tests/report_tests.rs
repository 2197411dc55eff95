use bomb::client::http::{host_key, request_message_id, status_is_success, ConnectedHosts};
use bomb::client::pending::PendingMessages;
use bomb::client::websocket::{read_arrival, Arrival};
use bomb::common::ClientId;
use bomb::config::{Config, HttpMethod, ProtocolConfig, WSMode};
use bomb::errors::BombError;
use bomb::message::{MessageId, PendingMessage};
use bomb::metrics::aggregate::AggregateMetrics;
use bomb::metrics::client::ClientMetrics;
use bomb::metrics::reporting::status_text;
use bomb::time::{Duration, Instant};

fn at_ms(ms: u64) -> Instant {
    Instant::after_origin(Duration::from_millis(ms))
}

#[test]
fn client_success_ratio_in_echo_and_broadcast() {
    let mut m = ClientMetrics::new(ClientId::new(1));
    let r = m.success_ratio();
    assert_eq!((r.num, r.den), (100, 1));
    for _ in 0..4 {
        m.record_sent();
    }
    m.record_success(Duration::from_millis(10));
    m.record_success(Duration::from_millis(30));
    m.record_success(Duration::from_millis(20));
    let r = m.success_ratio();
    assert_eq!((r.num, r.den), (300, 4));
    m.total_clients = 3;
    let r = m.success_ratio();
    assert_eq!((r.num, r.den), (300, 12));
    let a = m.avg_rtt_ratio();
    assert_eq!((a.num, a.den), (60, 3));
    let fresh = ClientMetrics::new(ClientId::new(2)).avg_rtt_ratio();
    assert_eq!((fresh.num, fresh.den), (0, 1));
}

#[test]
fn overall_ratios_cover_all_clients() {
    let mut agg = AggregateMetrics::new();
    let r = agg.overall_success_ratio();
    assert_eq!((r.num, r.den), (100, 1));
    let a = agg.overall_avg_rtt_ratio();
    assert_eq!((a.num, a.den), (0, 1));
    agg.init_client(ClientId::new(0));
    agg.init_client(ClientId::new(1));
    for c in 0..2 {
        agg.record_message_sent(ClientId::new(c));
        agg.record_message_sent(ClientId::new(c));
    }
    agg.record_message_success(ClientId::new(0), Duration::from_millis(10));
    agg.record_message_success(ClientId::new(1), Duration::from_millis(30));
    agg.record_message_success(ClientId::new(1), Duration::from_millis(50));
    let r = agg.overall_success_ratio();
    assert_eq!((r.num, r.den), (300, 4));
    let a = agg.overall_avg_rtt_ratio();
    assert_eq!((a.num, a.den), (90, 3));
}

#[test]
fn overall_success_ratio_normalizes_broadcasts() {
    let mut agg = AggregateMetrics::new();
    agg.init_client_with_count(ClientId::new(0), 2);
    agg.init_client_with_count(ClientId::new(1), 2);
    agg.record_message_sent(ClientId::new(0));
    agg.record_message_sent(ClientId::new(1));
    for c in 0..2 {
        agg.record_message_success(ClientId::new(c), Duration::from_millis(50));
        agg.record_message_success(ClientId::new(c), Duration::from_millis(50));
    }
    let r = agg.overall_success_ratio();
    assert_eq!((r.num, r.den), (400, 4));
}

#[test]
fn status_codes_are_named_and_sorted() {
    assert_eq!(status_text(200), "OK");
    assert_eq!(status_text(201), "Created");
    assert_eq!(status_text(404), "Not Found");
    assert_eq!(status_text(503), "Service Unavailable");
    assert_eq!(status_text(418), "Unknown");
    let mut agg = AggregateMetrics::new();
    agg.init_client(ClientId::new(0));
    for code in [503u16, 200, 404, 200, 201, 200] {
        agg.record_http_status_code(ClientId::new(0), code);
    }
    assert_eq!(agg.status_code_counts(), vec![(200, 3), (201, 1), (404, 1), (503, 1)]);
    assert!(AggregateMetrics::new().status_code_counts().is_empty());
}

#[test]
fn hosts_are_keyed_by_host_and_port() {
    assert_eq!(host_key("https://example.com/a?b=1").unwrap(), "example.com:443");
    assert_eq!(host_key("http://example.com:8080/x").unwrap(), "example.com:8080");
    assert_eq!(host_key("http://example.com/").unwrap(), "example.com:80");
    match host_key("not a url") {
        Err(BombError::UrlParse(m)) => assert_eq!(m, "relative URL without a base"),
        other => panic!("unexpected {:?}", other),
    }
    let mut hosts = ConnectedHosts::new();
    assert!(hosts.note("a:80".to_string()));
    assert!(hosts.note("b:80".to_string()));
    assert!(!hosts.note("a:80".to_string()));
    assert!(!hosts.note("b:80".to_string()));
}

#[test]
fn http_outcomes_and_request_ids() {
    assert!(status_is_success(200));
    assert!(status_is_success(299));
    assert!(!status_is_success(199));
    assert!(!status_is_success(300));
    assert!(!status_is_success(404));
    assert_eq!(request_message_id(r#"{"id": "req-1", "x": 2}"#).0, "req-1");
    let generated = request_message_id(r#"{"data": "test"}"#).0;
    assert_eq!(generated.len(), 36);
    assert_eq!(&generated[14..15], "4");
    assert_ne!(generated, request_message_id(r#"{"data": "test"}"#).0);
}

#[test]
fn arrivals_are_read_once_sending_started() {
    assert!(matches!(read_arrival(false, r#"{"id": "a"}"#), Arrival::BeforeSending));
    match read_arrival(true, r#"{"id": "a"}"#) {
        Arrival::Message(m) => assert_eq!(m.0, "a"),
        other => panic!("unexpected {:?}", other),
    }
    match read_arrival(true, r#"{"id": 5}"#) {
        Arrival::Unreadable(BombError::Config(m)) => assert_eq!(m, "Missing or invalid 'id' field in payload"),
        other => panic!("unexpected {:?}", other),
    }
    assert!(matches!(read_arrival(true, "not json"), Arrival::Unreadable(BombError::JsonSerialization(_))));
}

#[test]
fn a_response_is_credited_once() {
    let mut pending = PendingMessages::new();
    let id = MessageId("m1".to_string());
    pending.insert_with_limit(id.clone(), PendingMessage::new(at_ms(100), Duration::from_secs(5)), 10);
    let rtt = pending.answer(&id, at_ms(142)).unwrap();
    assert_eq!(rtt.as_millis(), 42);
    assert!(pending.answer(&id, at_ms(150)).is_none());
    assert_eq!(pending.len(), 0);
}

#[test]
fn report_summary_lists_the_settings() {
    let mut config = Config::default_websocket("ws://localhost:8080".to_string());
    config.test.duration = None;
    config.test.total_messages = Some(25);
    config.client.count = 4;
    config.test.message_rate = 10;
    config.client.timeout = Duration::from_secs(7);
    config.target.insecure = true;
    assert_eq!(
        config.report_summary(),
        "   Target:           ws://localhost:8080\n   Clients:          4\n   Total Messages:   25\n   Per Client:       6 messages\n   Message Rate:     10 msg/s per client\n   Timeout:          7s\n   Security:         ⚠️  Insecure mode enabled\n"
    );
    config.test.duration = Some(Duration::from_secs(90));
    config.test.total_messages = None;
    config.target.insecure = false;
    assert_eq!(
        config.report_summary(),
        "   Target:           ws://localhost:8080\n   Clients:          4\n   Duration:         90s\n   Message Rate:     10 msg/s per client\n   Timeout:          7s\n"
    );
}

#[test]
fn start_summary_shortens_long_payloads() {
    let mut config = Config::default_http("http://localhost:8080".to_string());
    config.protocol = ProtocolConfig::Http { method: HttpMethod::Post };
    config.test.duration = Some(Duration::from_secs(60));
    config.test.total_messages = None;
    config.test.message_rate = 0;
    config.client.count = 2;
    config.client.timeout = Duration::from_secs(30);
    config.test.payload = format!("{{\"data\": \"{}\"}}", "x".repeat(60));
    config.target.headers = vec!["A: 1".to_string(), "B: 2".to_string()];
    let expected = format!(
        "💣 Bomb Stress Test Configuration:\n   Target:           http://localhost:8080\n   Clients:          2\n   Duration:         60s\n   Message Rate:     0 msg/s per client\n   Timeout:          30s\n   HTTP Method:      Post\n   Connection Mode:  Http\n   Request Body:          {}... (72 chars)\n   Custom Headers:   2\n                     A: 1\n                     B: 2\n\n",
        &config.test.payload[..47]
    );
    assert_eq!(config.start_summary(), expected);
    config.protocol = ProtocolConfig::WebSocket { mode: WSMode::Broadcast };
    config.test.payload = r#"{"id": "x"}"#.to_string();
    config.target.headers.clear();
    let s = config.start_summary();
    assert!(s.contains("   Mode:             Broadcast\n   Connection Mode:  Ws\n"));
    assert!(s.contains("   Payload:          {\"id\": \"x\"}\n"));
    assert!(!s.contains("Custom Headers"));
}

#[test]
fn fully_answered_tests_succeed_completely() {
    let mut agg = AggregateMetrics::new();
    agg.init_client(ClientId::new(7));
    for _ in 0..5 {
        agg.record_message_sent(ClientId::new(7));
        agg.record_message_success(ClientId::new(7), Duration::from_millis(3));
    }
    let r = agg.overall_success_ratio();
    assert_eq!(r.num, 100 * r.den);
    let client = &agg.get_client_metrics()[0];
    let c = client.success_ratio();
    assert_eq!((c.num, c.den), (500, 5));
}
