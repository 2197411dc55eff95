use bomb::client::messaging::BroadcastTracker;
use bomb::common::ClientId;
use bomb::message::MessageId;
use bomb::metrics::aggregate::AggregateMetrics;
use bomb::time::Instant;
use bomb::config::validation::validate;
use bomb::config::Config;
use bomb::time::Duration;

#[test]
fn a_validated_config_can_run() {
    let mut config = Config::default_websocket("ws://localhost:9000".to_string());
    config.target.headers = vec!["X-Key: v".to_string(), "Y:w".to_string()];
    config.test.duration = None;
    config.test.total_messages = Some(101);
    config.client.count = 10;
    assert!(validate(&config).is_ok());
    assert_eq!(config.messages_per_client(), Some(10));
    assert_eq!(Config::extract_message_id(&config.test.payload).is_ok(), true);
    let headers = config.custom_headers().unwrap();
    assert_eq!(headers, vec![("X-Key".to_string(), "v".to_string()), ("Y".to_string(), "w".to_string())]);
}

#[test]
fn message_intervals_fit_the_rate() {
    let mut config = Config::default_http("http://localhost".to_string());
    for rate in [1u32, 3, 7, 10, 999, 1000, 1001] {
        config.test.message_rate = rate;
        let interval = config.message_interval().unwrap();
        assert!(interval.as_millis() * rate as u128 <= 1000);
    }
    config.test.message_rate = 0;
    assert!(config.message_interval().is_none());
}

#[test]
fn finalized_broadcasts_are_forgotten() {
    let at = |ms: u64| Instant::after_origin(Duration::from_millis(ms));
    let mut tracker = BroadcastTracker::new(1, Duration::from_secs(1));
    tracker.register_sent(MessageId("b1".to_string()), ClientId::new(0), at(0));
    assert_eq!(
        tracker.record_response(&MessageId("b1".to_string()), ClientId::new(0), at(5)),
        Some(ClientId::new(0))
    );
    assert_eq!(tracker.finalize_ready_messages(at(6)).len(), 1);
    assert_eq!(tracker.record_response(&MessageId("b1".to_string()), ClientId::new(0), at(7)), None);
}

#[test]
fn totals_are_the_sums_over_registered_clients() {
    let mut agg = AggregateMetrics::new();
    for c in 0..3 {
        agg.init_client(ClientId::new(c));
    }
    for c in 0..3 {
        for _ in 0..(c + 1) {
            agg.record_message_sent(ClientId::new(c));
        }
        agg.record_message_success(ClientId::new(c), Duration::from_millis(5));
        agg.record_connection_error(ClientId::new(c));
        agg.record_http_connection_created(ClientId::new(c));
        agg.record_http_connection_reused(ClientId::new(c));
        agg.record_http_connection_reused(ClientId::new(c));
    }
    agg.record_message_failure(ClientId::new(2));
    let clients = agg.get_client_metrics();
    assert_eq!(agg.total_messages_sent, clients.iter().map(|m| m.messages_sent).sum::<u64>());
    assert_eq!(agg.total_messages_received, clients.iter().map(|m| m.messages_received).sum::<u64>());
    assert_eq!(agg.total_messages_failed, clients.iter().map(|m| m.messages_failed).sum::<u64>());
    assert_eq!(agg.total_connection_errors, clients.iter().map(|m| m.connection_errors).sum::<u64>());
    assert_eq!(agg.total_http_connections_created, clients.iter().map(|m| m.http_connections_created).sum::<u64>());
    assert_eq!(agg.total_http_connections_reused, clients.iter().map(|m| m.http_connections_reused).sum::<u64>());
    assert_eq!(agg.total_messages_sent, 6);
}
