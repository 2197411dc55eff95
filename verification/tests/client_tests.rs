use bomb::client::http::{carries_body, cleanup_due};
use bomb::client::manager::{global_timeout, message_audience, tracks_broadcasts};
use bomb::client::messaging::{BroadcastTracker, LoopState};
use bomb::client::pending::PendingMessages;
use bomb::client::websocket::{after_failed_attempt, ReconnectAction};
use bomb::common::ClientId;
use bomb::config::{Config, HttpMethod, ProtocolConfig, WSMode};
use bomb::errors::{BombError, ErrorContext};
use bomb::message::{MessageId, PendingMessage};
use bomb::time::{Duration, Instant};

fn at_ms(ms: u64) -> Instant {
    Instant::after_origin(Duration::from_millis(ms))
}

fn id(s: &str) -> MessageId {
    MessageId(s.to_string())
}

#[test]
fn loop_state_ends_on_target_or_duration() {
    let mut config = Config::default_websocket("ws://x".to_string());
    config.test.total_messages = Some(25);
    config.test.duration = Some(Duration::from_secs(2));
    let mut state = LoopState::new(&config, at_ms(1_000));
    assert_eq!(state.target_messages, Some(2));
    assert!(!state.check_termination_conditions(ClientId::new(0), at_ms(2_999)));
    assert!(state.check_termination_conditions(ClientId::new(0), at_ms(3_000)));
    state.messages_sent = 2;
    assert!(state.check_termination_conditions(ClientId::new(0), at_ms(1_000)));
}

#[test]
fn pending_messages_measure_round_trips() {
    let p = PendingMessage::new(at_ms(100), Duration::from_secs(1));
    assert_eq!(p.timeout_at, at_ms(1_100));
    assert_eq!(p.calculate_rtt(at_ms(130)), Duration::from_millis(30));
    assert_eq!(p.calculate_rtt(at_ms(50)), Duration::from_millis(0));
}

#[test]
fn pending_store_drops_the_oldest_at_its_limit() {
    let mut store = PendingMessages::new();
    let t = Duration::from_secs(5);
    assert!(!store.insert_with_limit(id("b"), PendingMessage::new(at_ms(20), t), 2));
    assert!(!store.insert_with_limit(id("a"), PendingMessage::new(at_ms(10), t), 2));
    assert!(store.insert_with_limit(id("c"), PendingMessage::new(at_ms(30), t), 2));
    assert_eq!(store.len(), 2);
    assert!(store.take(&id("a")).is_none());
    assert_eq!(store.take(&id("b")).unwrap().sent_at, at_ms(20));
    assert_eq!(store.len(), 1);
    assert_eq!(store.latest_timeout(), Some(at_ms(5_030)));
    assert_eq!(store.clear(), 1);
    assert_eq!(store.latest_timeout(), None);
}

#[test]
fn pending_store_expires_by_timeout() {
    let mut store = PendingMessages::new();
    store.insert_with_limit(id("a"), PendingMessage::new(at_ms(0), Duration::from_millis(10)), 100);
    store.insert_with_limit(id("b"), PendingMessage::new(at_ms(0), Duration::from_millis(50)), 100);
    store.insert_with_limit(id("a"), PendingMessage::new(at_ms(5), Duration::from_millis(10)), 100);
    assert_eq!(store.len(), 2);
    assert_eq!(store.remove_expired(at_ms(15)), 1);
    assert_eq!(store.len(), 1);
    assert_eq!(store.latest_timeout(), Some(at_ms(50)));
    assert_eq!(store.remove_expired(at_ms(49)), 0);
    assert_eq!(store.remove_expired(at_ms(50)), 1);
}

#[test]
fn broadcast_tracker_collects_responses() {
    let mut tracker = BroadcastTracker::new(2, Duration::from_secs(1));
    tracker.register_sent(id("m1"), ClientId::new(0), at_ms(0));
    tracker.register_sent(id("m2"), ClientId::new(1), at_ms(0));
    assert_eq!(
        tracker.record_response(&id("m1"), ClientId::new(0), at_ms(20)),
        Some(ClientId::new(0))
    );
    assert_eq!(
        tracker.record_response(&id("m1"), ClientId::new(1), at_ms(40)),
        Some(ClientId::new(0))
    );
    assert_eq!(tracker.record_response(&id("zz"), ClientId::new(1), at_ms(40)), None);
    let shares = tracker.finalize_ready_messages(at_ms(50));
    assert_eq!(shares.len(), 2);
    assert_eq!(shares[0].client_id, ClientId::new(0));
    assert_eq!(shares[1].client_id, ClientId::new(1));
    assert_eq!(shares[0].response_count, 2);
    assert_eq!(shares[0].total_clients, 2);
    assert_eq!(shares[0].total_rtt_ms, 60);
    assert_eq!(tracker.record_response(&id("m1"), ClientId::new(1), at_ms(60)), None);
    assert!(tracker.finalize_ready_messages(at_ms(999)).is_empty());
    assert!(tracker.finalize_ready_messages(at_ms(1_000)).is_empty());
    assert_eq!(tracker.record_response(&id("m2"), ClientId::new(1), at_ms(1_001)), None);
}

#[test]
fn reconnection_backs_off_exponentially() {
    assert_eq!(after_failed_attempt(1), ReconnectAction::Retry(Duration::from_millis(1_000)));
    assert_eq!(after_failed_attempt(2), ReconnectAction::Retry(Duration::from_millis(2_000)));
    assert_eq!(after_failed_attempt(4), ReconnectAction::Retry(Duration::from_millis(8_000)));
    assert_eq!(after_failed_attempt(5), ReconnectAction::GiveUp);
}

#[test]
fn http_decisions() {
    assert!(carries_body(HttpMethod::Post));
    assert!(carries_body(HttpMethod::Put));
    assert!(carries_body(HttpMethod::Patch));
    assert!(!carries_body(HttpMethod::Get));
    assert!(!carries_body(HttpMethod::Delete));
    assert!(cleanup_due(0));
    assert!(cleanup_due(100));
    assert!(!cleanup_due(49));
}

#[test]
fn manager_decisions() {
    let mut config = Config::default_websocket("ws://x".to_string());
    assert!(!tracks_broadcasts(&config));
    assert_eq!(message_audience(&config), 1);
    assert_eq!(global_timeout(&config), Duration::from_secs(330));
    config.protocol = ProtocolConfig::WebSocket {
        mode: WSMode::Broadcast,
    };
    config.test.duration = Some(Duration::from_secs(12));
    assert!(tracks_broadcasts(&config));
    assert_eq!(message_audience(&config), 10);
    assert_eq!(global_timeout(&config), Duration::from_secs(42));
}

#[test]
fn missing_values_become_errors() {
    assert_eq!(Some(3).with_config_context("x").unwrap(), 3);
    assert!(matches!(
        None::<u8>.with_transport_context("gone"),
        Err(BombError::Transport(m)) if m == "gone"
    ));
    assert!(matches!(
        None::<u8>.with_message_context("no id"),
        Err(BombError::Message(m)) if m == "no id"
    ));
}
