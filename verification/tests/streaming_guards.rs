use swaptrade::aggregation::{AggregationRule, AggregationType, DataAggregator};
use swaptrade::ddos::DDoSProtection;
use swaptrade::validation::trade_ids_distinct;
use swaptrade::validation::{
    process_message, validate_timestamp, validate_websocket_message, MessageAction, MessageType, MAX_MESSAGE_SIZE,
    MAX_TIMESTAMP_DRIFT_MS,
};
use swaptrade::subscriptions::{
    handle_subscription, handle_unsubscription, validate_subscription, validate_symbol, MessageBroadcaster,
    SubscriptionError,
};

#[test]
fn test_ddos_protection() {
    let mut ddos_protection = DDoSProtection::new();
    let ip = b"192.168.1.1".to_vec();
    assert!(ddos_protection.check_ip(&ip, 1_000));
    for _ in 0..15 {
        ddos_protection.report_suspicious_activity(&ip, 1_000);
    }
    assert!(!ddos_protection.check_ip(&ip, 1_001));
}

#[test]
fn ddos_blocks_after_threshold_and_unblocks_later() {
    let mut d = DDoSProtection::new();
    d.detection_threshold = 3;
    let ip = b"10.0.0.1".to_vec();
    assert!(d.check_ip(&ip, 0));
    assert!(d.check_ip(&ip, 1));
    assert!(d.check_ip(&ip, 2));
    assert!(!d.check_ip(&ip, 3));
    let s = d.get_ip_stats(&ip).unwrap();
    assert!(s.is_blocked);
    assert_eq!(s.blocked_until, Some(3 + 3600));
    assert_eq!(s.request_count, 4);
    // still blocked: nothing changes
    assert!(!d.check_ip(&ip, 100));
    assert_eq!(d.get_ip_stats(&ip).unwrap().request_count, 4);
    // block lifted, but the count is still over the threshold
    assert!(!d.check_ip(&ip, 3 + 3600));
    assert_eq!(d.get_ip_stats(&ip).unwrap().request_count, 5);
    // other addresses are unaffected
    assert!(d.check_ip(&b"10.0.0.2".to_vec(), 5));
    assert_eq!(d.get_ip_stats(&b"10.0.0.3".to_vec()), None);
}

#[test]
fn ddos_suspicion_and_cleanup() {
    let mut d = DDoSProtection::new();
    let ip = b"1.1.1.1".to_vec();
    d.report_suspicious_activity(&ip, 0);
    assert_eq!(d.get_ip_stats(&ip), None);
    d.check_ip(&ip, 0);
    for _ in 0..10 {
        d.report_suspicious_activity(&ip, 50);
    }
    assert!(!d.get_ip_stats(&ip).unwrap().is_blocked);
    d.report_suspicious_activity(&ip, 50);
    let s = d.get_ip_stats(&ip).unwrap();
    assert!(s.is_blocked);
    assert_eq!(s.suspicious_activity_score, 11);
    assert_eq!(s.blocked_until, Some(50 + 3600));
    d.check_ip(&b"2.2.2.2".to_vec(), 90_000);
    d.cleanup_old_entries(90_000);
    assert_eq!(d.get_ip_stats(&ip), None);
    assert!(d.get_ip_stats(&b"2.2.2.2".to_vec()).is_some());
}

fn rule(symbol: u64, enabled: bool) -> AggregationRule {
    AggregationRule { rule_type: AggregationType::Tick, symbol, interval_ms: 1000, enabled }
}

#[test]
fn aggregation_routes_by_enabled_rules() {
    let mut a = DataAggregator::new(1);
    a.add_rule(rule(7, true));
    a.add_rule(rule(8, false));
    a.add_rule(AggregationRule { rule_type: AggregationType::VWAP(60_000), symbol: 9, interval_ms: 60_000, enabled: true });
    let out = a.process_data(&vec![7, 8, 9, 7]);
    assert_eq!(out.dropped, 0);
    assert_eq!(out.selected, vec![0, 3, 2]);
    let out = a.process_data(&vec![9]);
    assert_eq!(out.selected, vec![0, 3, 2, 4]);
}

#[test]
fn aggregation_trims_buffer() {
    let mut a = DataAggregator::new(1);
    a.add_rule(rule(1, true));
    let input: Vec<u64> = (0..10_001u64).map(|i| if i == 6000 { 1 } else { 0 }).collect();
    let out = a.process_data(&input);
    assert_eq!(out.dropped, 5000);
    assert_eq!(a.buffer.len(), 5001);
    assert_eq!(out.selected, vec![1000]);
}

#[test]
fn broadcaster_keeps_subscription_order_per_symbol() {
    let mut b = MessageBroadcaster::new();
    let btc = b"BTC-USD".to_vec();
    let eth = b"ETH-USD".to_vec();
    b.subscribe(&btc, 7);
    b.subscribe(&eth, 9);
    b.subscribe(&btc, 3);
    assert_eq!(b.get_subscribers(&btc), vec![7u128, 3]);
    assert_eq!(b.get_subscribers(&eth), vec![9u128]);
    assert!(b.get_subscribers(&b"SOL-USD".to_vec()).is_empty());
}

#[test]
fn broadcaster_unsubscribe_removes_every_entry_of_that_connection_only() {
    let mut b = MessageBroadcaster::new();
    let btc = b"BTC-USD".to_vec();
    let eth = b"ETH-USD".to_vec();
    b.subscribe(&btc, 1);
    b.subscribe(&btc, 2);
    b.subscribe(&btc, 1);
    b.subscribe(&eth, 1);
    b.unsubscribe(&btc, 1);
    assert_eq!(b.get_subscribers(&btc), vec![2u128]);
    assert_eq!(b.get_subscribers(&eth), vec![1u128]);
    b.unsubscribe(&b"SOL-USD".to_vec(), 2);
    assert_eq!(b.get_subscribers(&btc), vec![2u128]);
}

#[test]
fn symbol_checks_follow_the_allowed_list() {
    let none: Vec<Vec<u8>> = Vec::new();
    assert!(validate_symbol(&none, &b"ANY".to_vec()));
    let allowed = vec![b"BTC-USD".to_vec(), b"ETH-USD".to_vec()];
    assert!(validate_symbol(&allowed, &b"ETH-USD".to_vec()));
    assert!(!validate_symbol(&allowed, &b"SOL-USD".to_vec()));

    assert!(validate_subscription(&allowed, &vec![b"BTC-USD".to_vec()]));
    assert!(!validate_subscription(&allowed, &vec![b"BTC-USD".to_vec(), b"XRP".to_vec()]));
    assert!(!validate_subscription(&none, &vec![b"BTC-USD".to_vec()]));
    assert!(validate_subscription(&none, &Vec::new()));
    let many: Vec<Vec<u8>> = (0..101).map(|_| b"BTC-USD".to_vec()).collect();
    assert!(!validate_subscription(&allowed, &many));
    let hundred: Vec<Vec<u8>> = (0..100).map(|_| b"BTC-USD".to_vec()).collect();
    assert!(validate_subscription(&allowed, &hundred));
}

#[test]
fn broadcaster_unsubscribe_undoes_subscribe() {
    let mut b = MessageBroadcaster::new();
    let btc = b"BTC-USD".to_vec();
    b.subscribe(&btc, 4);
    b.subscribe(&btc, 5);
    b.unsubscribe(&btc, 5);
    assert_eq!(b.get_subscribers(&btc), vec![4u128]);
}

#[test]
fn subscription_requests_register_each_symbol_or_nothing() {
    let allowed = vec![b"BTC-USD".to_vec(), b"ETH-USD".to_vec()];
    let mut b = MessageBroadcaster::new();
    let req = vec![b"BTC-USD".to_vec(), b"ETH-USD".to_vec(), b"BTC-USD".to_vec()];
    assert_eq!(handle_subscription(&mut b, &allowed, 11, &req), Ok(()));
    assert_eq!(b.get_subscribers(&b"BTC-USD".to_vec()), vec![11u128, 11]);
    assert_eq!(b.get_subscribers(&b"ETH-USD".to_vec()), vec![11u128]);

    let bad = vec![b"ETH-USD".to_vec(), b"DOGE".to_vec()];
    assert_eq!(handle_subscription(&mut b, &allowed, 12, &bad), Err(SubscriptionError::InvalidSubscription));
    assert_eq!(b.get_subscribers(&b"ETH-USD".to_vec()), vec![11u128]);

    b.subscribe(&b"ETH-USD".to_vec(), 12);
    assert_eq!(handle_unsubscription(&mut b, 11, &vec![b"BTC-USD".to_vec(), b"BTC-USD".to_vec()]), Ok(()));
    assert!(b.get_subscribers(&b"BTC-USD".to_vec()).is_empty());
    assert_eq!(b.get_subscribers(&b"ETH-USD".to_vec()), vec![11u128, 12]);
}

#[test]
fn client_messages_are_checked_for_size_time_and_payload() {
    let now = 1_700_000_000_000i64;
    assert!(validate_timestamp(now - 60_000, now, MAX_TIMESTAMP_DRIFT_MS));
    assert!(validate_timestamp(now + 60_000, now, MAX_TIMESTAMP_DRIFT_MS));
    assert!(!validate_timestamp(now - 60_001, now, MAX_TIMESTAMP_DRIFT_MS));
    assert!(validate_websocket_message(MessageType::Heartbeat, 0, now, now, MAX_MESSAGE_SIZE, 60_000, false));
    assert!(!validate_websocket_message(MessageType::Subscribe, 10, now, now, MAX_MESSAGE_SIZE, 60_000, false));
    assert!(validate_websocket_message(MessageType::MarketData, 1_048_576, now, now, MAX_MESSAGE_SIZE, 60_000, true));
    assert!(!validate_websocket_message(MessageType::MarketData, 1_048_577, now, now, MAX_MESSAGE_SIZE, 60_000, true));
    assert!(!validate_websocket_message(MessageType::Error, 0, now - 120_000, now, MAX_MESSAGE_SIZE, 60_000, true));
}

#[test]
fn client_messages_are_dispatched_by_type() {
    assert_eq!(process_message(MessageType::Subscribe), MessageAction::HandleSubscription);
    assert_eq!(process_message(MessageType::Unsubscribe), MessageAction::HandleUnsubscription);
    assert_eq!(process_message(MessageType::Heartbeat), MessageAction::SendHeartbeat);
    assert_eq!(process_message(MessageType::MarketData), MessageAction::Ignore);
    assert_eq!(process_message(MessageType::Error), MessageAction::Ignore);
}

#[test]
fn trade_ids_must_be_distinct() {
    assert!(trade_ids_distinct(&vec![b"1".to_vec(), b"2".to_vec(), b"3".to_vec()]));
    assert!(!trade_ids_distinct(&vec![b"1".to_vec(), b"2".to_vec(), b"1".to_vec()]));
    assert!(trade_ids_distinct(&Vec::new()));
}
