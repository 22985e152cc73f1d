use swaptrade::rate_limiter::{decide_request, RateLimitConfig, RateLimitError, RateLimiter};

#[test]
fn test_rate_limiter_creation() {
    let rate_limiter = RateLimiter::new();
    assert_eq!(rate_limiter.get_global_stats().total_requests, 0);
}

#[test]
fn test_connection_addition() {
    let mut rate_limiter = RateLimiter::new();
    let connection_id: u128 = 0x1234_5678_9abc_def0;
    assert!(rate_limiter.add_connection(connection_id, 0).is_ok());
}

#[test]
fn requests_are_counted_as_allowed_or_blocked() {
    let mut config = RateLimitConfig::default();
    config.max_messages_per_connection_per_second = 1;
    config.burst_size_multiplier_percent = 100;
    let mut rl = RateLimiter::with_config(config);
    // an unknown connection is given buckets and its first request passes
    assert!(rl.check_limit(5, 0));
    assert!(rl.get_connection_stats(5).is_some());
    // its message bucket holds one cell: the next request passes, then it is empty
    assert!(rl.check_limit(5, 0));
    assert!(!rl.check_limit(5, 0));
    let stats = rl.get_global_stats();
    assert_eq!((stats.total_requests, stats.allowed_requests, stats.blocked_requests), (3, 2, 1));
}

#[test]
fn connection_bucket_refuses_when_empty() {
    let mut config = RateLimitConfig::default();
    config.max_connections_per_second = 1;
    let mut rl = RateLimiter::with_config(config);
    assert_eq!(rl.add_connection(1, 0), Ok(()));
    assert_eq!(rl.add_connection(2, 0), Err(RateLimitError::RateLimitExceeded));
    assert!(rl.get_connection_stats(2).is_none());
    assert!(!rl.check_limit(3, 0));
    assert_eq!(rl.get_global_stats().blocked_requests, 1);
    rl.remove_connection(1);
    assert!(rl.get_connection_stats(1).is_none());
}

#[test]
fn subscription_limit_penalties_and_whitelist() {
    let mut config = RateLimitConfig::default();
    config.whitelist_ips = vec![b"127.0.0.1".to_vec()];
    let mut rl = RateLimiter::with_config(config);
    assert!(!rl.check_subscription_limit(9, 0));
    rl.add_connection(9, 0).unwrap();
    assert!(rl.check_subscription_limit(9, 0));
    assert!(!rl.check_subscription_limit(9, 50));
    rl.penalize_connection(9, &b"spam".to_vec());
    rl.penalize_connection(10, &b"spam".to_vec());
    assert_eq!(rl.get_global_stats().penalized_connections, 1);
    assert_eq!(rl.cleanup_expired_penalties(0), 1);
    assert!(rl.is_whitelisted(&b"127.0.0.1".to_vec()));
    assert!(!rl.is_whitelisted(&b"10.0.0.1".to_vec()));
}

#[test]
fn a_request_passes_only_when_every_bucket_agrees() {
    assert!(decide_request(false, true, true, true, true));
    assert!(!decide_request(true, true, true, true, true));
    assert!(!decide_request(false, false, false, false, false));
    assert!(!decide_request(false, true, true, true, false));
    assert!(!decide_request(false, true, false, false, false));
}
