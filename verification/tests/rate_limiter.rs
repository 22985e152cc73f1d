use swaptrade::rate_limit::{OperationCounter, OperationKind, RateLimitStorage, RateLimiter, TimeWindow, UserTier};

const USER: u64 = 7;

#[test]
fn test_trader_swap_limit() {
    let mut s = RateLimitStorage::new();
    let trader = UserTier::Trader;
    for i in 0..20u64 {
        let now = 3600 + i;
        assert!(RateLimiter::check_swap_limit(&mut s, USER, &trader, now).is_ok(), "Swap {} should be allowed for Trader", i + 1);
        RateLimiter::record_swap(&mut s, USER, now);
    }
    assert!(RateLimiter::check_swap_limit(&mut s, USER, &trader, 3600 + 20).is_err(), "21st swap should be rate limited");
}

#[test]
fn test_expert_swap_limit() {
    let mut s = RateLimitStorage::new();
    let expert = UserTier::Expert;
    for i in 0..100u64 {
        let now = 3600 + i;
        assert!(RateLimiter::check_swap_limit(&mut s, USER, &expert, now).is_ok(), "Swap {} should be allowed for Expert", i + 1);
        RateLimiter::record_swap(&mut s, USER, now);
    }
    assert!(RateLimiter::check_swap_limit(&mut s, USER, &expert, 3600 + 100).is_err(), "101st swap should be rate limited");
}

#[test]
fn test_whale_unlimited_swaps() {
    let mut s = RateLimitStorage::new();
    let whale = UserTier::Whale;
    for i in 0..200u64 {
        assert!(RateLimiter::check_swap_limit(&mut s, USER, &whale, 3600 + i).is_ok(), "Whale should always be allowed, swap {}", i + 1);
    }
}

#[test]
fn test_hourly_window_boundary() {
    let mut s = RateLimitStorage::new();
    let novice = UserTier::Novice;
    for i in 0..5u64 {
        let now = 100 + i;
        assert!(RateLimiter::check_swap_limit(&mut s, USER, &novice, now).is_ok());
        RateLimiter::record_swap(&mut s, USER, now);
    }
    assert!(RateLimiter::check_swap_limit(&mut s, USER, &novice, 3500).is_err(), "Should be rate limited in same hour");
    assert!(RateLimiter::check_swap_limit(&mut s, USER, &novice, 3600).is_ok(), "Should allow swap in new hour");
}

#[test]
fn test_novice_lp_limit() {
    let mut s = RateLimitStorage::new();
    let novice = UserTier::Novice;
    for i in 0..10u64 {
        let now = 86400 + i;
        assert!(RateLimiter::check_lp_limit(&mut s, USER, &novice, now).is_ok(), "LP op {} should be allowed", i + 1);
        RateLimiter::record_lp_op(&mut s, USER, now);
    }
    assert!(RateLimiter::check_lp_limit(&mut s, USER, &novice, 86400 + 10).is_err(), "11th LP op should be rate limited");
}

#[test]
fn test_trader_lp_limit() {
    let mut s = RateLimitStorage::new();
    let trader = UserTier::Trader;
    for i in 0..30u64 {
        let now = 86400 + i;
        assert!(RateLimiter::check_lp_limit(&mut s, USER, &trader, now).is_ok(), "LP op {} should be allowed for Trader", i + 1);
        RateLimiter::record_lp_op(&mut s, USER, now);
    }
    assert!(RateLimiter::check_lp_limit(&mut s, USER, &trader, 86400 + 30).is_err(), "31st LP op should be rate limited");
}

#[test]
fn test_expert_unlimited_lp() {
    let mut s = RateLimitStorage::new();
    let expert = UserTier::Expert;
    for i in 0..100u64 {
        assert!(RateLimiter::check_lp_limit(&mut s, USER, &expert, 86400 + i).is_ok(), "Expert should always be allowed, LP op {}", i + 1);
    }
}

#[test]
fn rate_limit_tests_test_daily_window_boundary() {
    let mut s = RateLimitStorage::new();
    let novice = UserTier::Novice;
    for i in 0..10u64 {
        let now = 100 + i;
        assert!(RateLimiter::check_lp_limit(&mut s, USER, &novice, now).is_ok());
        RateLimiter::record_lp_op(&mut s, USER, now);
    }
    assert!(RateLimiter::check_lp_limit(&mut s, USER, &novice, 85000).is_err(), "Should be rate limited in same day");
    assert!(RateLimiter::check_lp_limit(&mut s, USER, &novice, 86400).is_ok(), "Should allow LP op in new day");
}

#[test]
fn rate_limit_tests_test_cooldown_calculation() {
    let mut s = RateLimitStorage::new();
    let novice = UserTier::Novice;
    for i in 0..5u64 {
        RateLimiter::record_swap(&mut s, USER, 100 + i);
    }
    let status = RateLimiter::check_swap_limit(&mut s, USER, &novice, 1000).unwrap_err();
    let cooldown_at_1000 = status.cooldown_ms;
    let status = RateLimiter::check_swap_limit(&mut s, USER, &novice, 2000).unwrap_err();
    let cooldown_at_2000 = status.cooldown_ms;
    assert!(cooldown_at_2000 < cooldown_at_1000, "Cooldown should decrease over time");
    assert_eq!(cooldown_at_1000, 2_600_000);
    assert_eq!(cooldown_at_2000, 1_600_000);
}

#[test]
fn test_rate_limit_status_queries() {
    let mut s = RateLimitStorage::new();
    let novice = UserTier::Novice;
    for i in 0..3u64 {
        RateLimiter::record_swap(&mut s, USER, 100 + i);
    }
    let status = RateLimiter::get_swap_status(&mut s, USER, &novice, 500);
    assert_eq!(status.used, 3);
    assert_eq!(status.limit, 5);
    assert!(status.cooldown_ms > 0);
}

#[test]
fn test_different_users_independent_limits() {
    let mut s = RateLimitStorage::new();
    let novice = UserTier::Novice;
    let user1 = 1u64;
    let user2 = 2u64;
    for i in 0..5u64 {
        RateLimiter::record_swap(&mut s, user1, 100 + i);
    }
    assert!(RateLimiter::check_swap_limit(&mut s, user1, &novice, 200).is_err());
    assert!(RateLimiter::check_swap_limit(&mut s, user2, &novice, 200).is_ok());
}

#[test]
fn test_swap_and_lp_ops_independent() {
    let mut s = RateLimitStorage::new();
    let novice = UserTier::Novice;
    for i in 0..5u64 {
        RateLimiter::record_swap(&mut s, USER, 3600 + i);
    }
    assert!(RateLimiter::check_lp_limit(&mut s, USER, &novice, 86400).is_ok(), "LP ops should be independent");
    for i in 0..10u64 {
        RateLimiter::record_lp_op(&mut s, USER, 86400 + i);
    }
    assert!(RateLimiter::check_swap_limit(&mut s, USER, &novice, 3600 + 100).is_err(), "Swap limit from hour 0 should still apply");
    assert!(RateLimiter::check_swap_limit(&mut s, USER, &novice, 7200).is_ok(), "Swaps in new hour should be allowed");
}

#[test]
fn test_status_at_limit_boundary() {
    let mut s = RateLimitStorage::new();
    let trader = UserTier::Trader;
    for i in 0..20u64 {
        RateLimiter::record_swap(&mut s, USER, 3600 + i);
    }
    let now = 3600 + 19;
    let status = RateLimiter::get_swap_status(&mut s, USER, &trader, now);
    assert_eq!(status.used, 20);
    assert_eq!(status.limit, 20);
    assert!(RateLimiter::check_swap_limit(&mut s, USER, &trader, now).is_err());
}

#[test]
fn test_cached_hourly_window_consistency() {
    let mut s = RateLimitStorage::new();
    let novice = UserTier::Novice;
    let status1 = RateLimiter::get_swap_status(&mut s, USER, &novice, 3600);
    let status2 = RateLimiter::get_swap_status(&mut s, USER, &novice, 3600);
    let status3 = RateLimiter::get_swap_status(&mut s, USER, &novice, 3600);
    assert_eq!(status1.cooldown_ms, status2.cooldown_ms);
    assert_eq!(status2.cooldown_ms, status3.cooldown_ms);
    assert!(status1.cooldown_ms > 0);
}

#[test]
fn test_cached_daily_window_consistency() {
    let mut s = RateLimitStorage::new();
    let novice = UserTier::Novice;
    let status1 = RateLimiter::get_lp_status(&mut s, USER, &novice, 86400);
    let status2 = RateLimiter::get_lp_status(&mut s, USER, &novice, 86400);
    let status3 = RateLimiter::get_lp_status(&mut s, USER, &novice, 86400);
    assert_eq!(status1.cooldown_ms, status2.cooldown_ms);
    assert_eq!(status2.cooldown_ms, status3.cooldown_ms);
    assert!(status1.cooldown_ms > 0);
}

#[test]
fn test_hourly_cache_invalidation_at_boundary() {
    let mut s = RateLimitStorage::new();
    let novice = UserTier::Novice;
    let status_before = RateLimiter::get_swap_status(&mut s, USER, &novice, 3500);
    let status_after = RateLimiter::get_swap_status(&mut s, USER, &novice, 3600);
    assert_eq!(status_after.cooldown_ms, 3600000u64);
    assert!(status_after.cooldown_ms > status_before.cooldown_ms);
}

#[test]
fn test_daily_cache_invalidation_at_boundary() {
    let mut s = RateLimitStorage::new();
    let novice = UserTier::Novice;
    let status_before = RateLimiter::get_lp_status(&mut s, USER, &novice, 86000);
    let status_after = RateLimiter::get_lp_status(&mut s, USER, &novice, 86400);
    assert_eq!(status_after.cooldown_ms, 86400000u64);
    assert!(status_after.cooldown_ms > status_before.cooldown_ms);
}

#[test]
fn test_high_frequency_operations_with_cache() {
    let mut s = RateLimitStorage::new();
    let trader = UserTier::Trader;
    for i in 0..15u64 {
        let now = 3600 + i;
        assert!(RateLimiter::check_swap_limit(&mut s, USER, &trader, now).is_ok(), "Swap {} should be allowed", i + 1);
        RateLimiter::record_swap(&mut s, USER, now);
    }
    let status = RateLimiter::get_swap_status(&mut s, USER, &trader, 3600 + 14);
    assert_eq!(status.used, 15);
    assert_eq!(status.limit, 20);
}

#[test]
fn test_backward_compatibility_with_existing_data() {
    let mut s = RateLimitStorage::new();
    let novice = UserTier::Novice;
    let old_window = TimeWindow::hourly(1000);
    s.counters.push(OperationCounter { user: USER, kind: OperationKind::Swap, window_start: old_window.window_start, count: 3 });
    let status = RateLimiter::get_swap_status(&mut s, USER, &novice, 1000);
    assert_eq!(status.used, 3);
    assert_eq!(status.limit, 5);
}

#[test]
fn hourly_window_start_is_floor_of_the_hour() {
    assert_eq!(TimeWindow::hourly(7200).window_start, 7200);
    assert_eq!(TimeWindow::hourly(7199).window_start, 3600);
    assert_eq!(TimeWindow::daily(172800).window_start, 172800);
    assert_eq!(TimeWindow::daily(172799).window_start, 86400);
}

#[test]
fn swap_checks_count_only_the_users_swaps_in_the_current_hour() {
    let mut s = RateLimitStorage::new();
    let novice = UserTier::Novice;
    // Swaps of the previous hour and of another user do not count.
    RateLimiter::record_swap(&mut s, USER, 3599);
    RateLimiter::record_swap(&mut s, USER + 1, 3700);
    for t in [3600u64, 4000, 5000, 6000] {
        RateLimiter::record_swap(&mut s, USER, t);
    }
    assert_eq!(RateLimiter::check_swap_limit(&mut s, USER, &novice, 7000), Ok(()));
    RateLimiter::record_swap(&mut s, USER, 7000);
    let refused = RateLimiter::check_swap_limit(&mut s, USER, &novice, 7199).unwrap_err();
    assert_eq!(refused.used, 5);
    assert_eq!(refused.limit, 5);
    assert_eq!(refused.cooldown_ms, 1000);
    // A new hour starts at 7200.
    assert_eq!(RateLimiter::check_swap_limit(&mut s, USER, &novice, 7200), Ok(()));
    assert_eq!(RateLimiter::get_swap_status(&mut s, USER + 1, &novice, 7200).used, 0);
}

#[test]
fn fast_window_matches_the_division_window() {
    assert_eq!(TimeWindow::fast_window(10_000, 4096).window_start, 8192);
    assert_eq!(TimeWindow::fast_window(8192, 4096).window_start, 8192);
    assert_eq!(TimeWindow::fast_window(10_000, 3600).window_start, 7200);
    assert_eq!(TimeWindow::fast_window(5, 1).window_start, 5);
}
