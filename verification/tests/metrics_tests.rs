use bomb::common::ClientId;
use bomb::metrics::aggregate::AggregateMetrics;
use bomb::metrics::client::ClientMetrics;
use bomb::time::Duration;

#[test]
fn client_metrics_track_round_trips() {
    let mut m = ClientMetrics::new(ClientId::new(3));
    assert_eq!(m.total_clients, 1);
    assert!(!m.has_activity());
    m.record_sent();
    m.record_sent();
    m.record_success(Duration::from_millis(40));
    m.record_success(Duration::from_millis(10));
    m.record_success(Duration::new(0, 2_999_999));
    m.record_failure();
    assert_eq!(m.messages_sent, 2);
    assert_eq!(m.messages_received, 3);
    assert_eq!(m.total_rtt_ms, 52);
    assert_eq!(m.min_rtt_ms, Some(2));
    assert_eq!(m.max_rtt_ms, Some(40));
    assert_eq!(m.total_attempted(), 3);
    assert!(m.has_activity());
}

#[test]
fn client_metrics_count_status_codes_and_connections() {
    let mut m = ClientMetrics::new(ClientId::new(0));
    m.record_http_status_code(200);
    m.record_http_status_code(200);
    m.record_http_status_code(404);
    m.record_http_connection_created();
    m.record_http_connection_reused();
    m.record_http_connection_reused();
    m.record_connection_error();
    assert_eq!(m.http_status_codes.get(&200), Some(&2));
    assert_eq!(m.http_status_codes.get(&404), Some(&1));
    assert_eq!(m.http_connections_created, 1);
    assert_eq!(m.http_connections_reused, 2);
    assert!(m.has_activity());
    let copy = m.clone();
    assert_eq!(copy.http_status_codes, m.http_status_codes);
    assert_eq!(copy.connection_errors, 1);
}

#[test]
fn counters_wrap_like_release_arithmetic() {
    let mut m = ClientMetrics::new(ClientId::new(0));
    m.messages_sent = u64::MAX;
    m.record_sent();
    assert_eq!(m.messages_sent, 0);
    m.messages_failed = 1;
    m.messages_sent = u64::MAX;
    assert_eq!(m.total_attempted(), 0);
}

#[test]
fn aggregate_metrics_record_for_known_clients() {
    let mut a = AggregateMetrics::new();
    a.init_client(ClientId::new(1));
    a.init_client_with_count(ClientId::new(2), 5);
    a.record_message_sent(ClientId::new(1));
    a.record_message_sent(ClientId::new(9));
    a.record_message_success(ClientId::new(1), Duration::from_millis(30));
    a.record_message_success(ClientId::new(2), Duration::from_millis(70));
    a.record_message_failure(ClientId::new(2));
    a.record_connection_error(ClientId::new(2));
    a.record_http_connection_created(ClientId::new(1));
    a.record_http_connection_reused(ClientId::new(1));
    a.record_http_status_code(ClientId::new(1), 201);
    assert_eq!(a.total_messages_sent, 2);
    assert_eq!(a.total_messages_received, 2);
    assert_eq!(a.total_messages_failed, 1);
    assert_eq!(a.total_connection_errors, 1);
    assert_eq!(a.total_http_connections_created, 1);
    assert_eq!(a.total_http_connections_reused, 1);
    assert_eq!(a.http_status_codes.get(&201), Some(&1));
    assert_eq!(a.overall_min_rtt_ms(), Some(30));
    assert_eq!(a.overall_max_rtt_ms(), Some(70));

    let mut clients = a.get_client_metrics();
    clients.sort_by_key(|c| c.client_id);
    assert_eq!(clients.len(), 2);
    assert_eq!(clients[0].messages_sent, 1);
    assert_eq!(clients[0].http_status_codes.get(&201), Some(&1));
    assert_eq!(clients[1].total_clients, 5);
    assert_eq!(clients[1].messages_failed, 1);
    assert_eq!(clients[1].connection_errors, 1);
}

#[test]
fn aggregate_rtt_extremes_need_responses() {
    let mut a = AggregateMetrics::new();
    assert_eq!(a.overall_min_rtt_ms(), None);
    a.init_client(ClientId::new(0));
    assert_eq!(a.overall_max_rtt_ms(), None);
    a.init_client(ClientId::new(0));
    assert_eq!(a.get_client_metrics().len(), 1);
}
