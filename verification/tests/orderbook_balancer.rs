use swaptrade::connection::{ConnectionState, LoadBalancer, LoadBalancingStrategy, ServerNode};
use swaptrade::orderbook::{
    OrderBook, OrderBookAggregator, OrderBookError, OrderBookUpdate, PriceLevel, PriceLevelUpdate, UpdateAction,
};

fn lvl(price: u64, quantity: u64, action: UpdateAction) -> PriceLevelUpdate {
    PriceLevelUpdate { price, quantity, action }
}

fn upd(id: u64, bids: Vec<PriceLevelUpdate>, asks: Vec<PriceLevelUpdate>) -> OrderBookUpdate {
    OrderBookUpdate { symbol: b"BTCUSDT".to_vec(), last_update_id: id, bids, asks, timestamp: 1_000 + id as i64 }
}

fn level(price: u64, quantity: u64) -> PriceLevel {
    PriceLevel { price, quantity, orders_count: 1 }
}

#[test]
fn update_builds_sorted_sides() {
    let agg = OrderBookAggregator::new(10, 2, 4);
    let mut ob = OrderBook::new(b"BTCUSDT".to_vec(), 0);
    let u = upd(
        1,
        vec![lvl(100, 5, UpdateAction::Add), lvl(99, 3, UpdateAction::Add), lvl(101, 7, UpdateAction::Add)],
        vec![lvl(105, 2, UpdateAction::Add), lvl(103, 1, UpdateAction::Add)],
    );
    assert_eq!(ob.update(&u, &agg), Ok(()));
    assert_eq!(ob.bids, vec![level(99, 3), level(100, 5), level(101, 7)]);
    assert_eq!(ob.asks, vec![level(103, 1), level(105, 2)]);
    assert_eq!(ob.sequence, 1);
    assert_eq!(ob.last_update_id, 1);
    assert_eq!(ob.last_updated, 1_001);
}

#[test]
fn stale_update_is_refused() {
    let agg = OrderBookAggregator::new(10, 2, 4);
    let mut ob = OrderBook::new(b"X".to_vec(), 0);
    ob.update(&upd(5, vec![lvl(10, 1, UpdateAction::Add)], vec![]), &agg).unwrap();
    assert_eq!(ob.update(&upd(5, vec![lvl(11, 1, UpdateAction::Add)], vec![]), &agg), Err(OrderBookError::StaleUpdate));
    assert_eq!(ob.update(&upd(4, vec![], vec![]), &agg), Err(OrderBookError::StaleUpdate));
    assert_eq!(ob.bids, vec![level(10, 1)]);
    assert_eq!(ob.sequence, 1);
}

#[test]
fn update_zero_quantity_and_remove_delete_levels() {
    let agg = OrderBookAggregator::new(10, 2, 4);
    let mut ob = OrderBook::new(b"X".to_vec(), 0);
    ob.update(&upd(1, vec![lvl(10, 1, UpdateAction::Add), lvl(11, 2, UpdateAction::Add), lvl(12, 3, UpdateAction::Add)], vec![]), &agg)
        .unwrap();
    ob.update(&upd(2, vec![lvl(11, 9, UpdateAction::Update), lvl(10, 0, UpdateAction::Update), lvl(12, 5, UpdateAction::Remove)], vec![]), &agg)
        .unwrap();
    assert_eq!(ob.bids, vec![level(11, 9)]);
    // removing a missing level changes nothing
    ob.update(&upd(3, vec![lvl(50, 1, UpdateAction::Remove)], vec![]), &agg).unwrap();
    assert_eq!(ob.bids, vec![level(11, 9)]);
}

#[test]
fn depth_keeps_best_levels() {
    let agg = OrderBookAggregator::new(2, 2, 4);
    let mut ob = OrderBook::new(b"X".to_vec(), 0);
    let bids = (1..=5).map(|p| lvl(p, p, UpdateAction::Add)).collect();
    let asks = (10..=14).map(|p| lvl(p, 1, UpdateAction::Add)).collect();
    ob.update(&upd(1, bids, asks), &agg).unwrap();
    assert_eq!(ob.bids, vec![level(4, 4), level(5, 5)]);
    assert_eq!(ob.asks, vec![level(10, 1), level(11, 1)]);
}

#[test]
fn snapshot_spread_and_best() {
    let agg = OrderBookAggregator::new(10, 2, 4);
    let mut ob = OrderBook::new(b"X".to_vec(), 0);
    assert_eq!(ob.get_spread(), Err(OrderBookError::NoBids));
    assert_eq!(ob.get_best_bid_ask(), Err(OrderBookError::NoBids));
    ob.update(&upd(1, vec![lvl(99, 3, UpdateAction::Add), lvl(100, 5, UpdateAction::Add)], vec![]), &agg).unwrap();
    assert_eq!(ob.get_spread(), Err(OrderBookError::NoAsks));
    ob.update(&upd(2, vec![], vec![lvl(103, 1, UpdateAction::Add), lvl(105, 2, UpdateAction::Add)]), &agg).unwrap();
    assert_eq!(ob.get_spread(), Ok(3));
    assert_eq!(ob.get_best_bid_ask(), Ok((100, 5, 103, 1)));
    let snap = ob.get_snapshot(1);
    assert_eq!(snap.bids, vec![level(100, 5)]);
    assert_eq!(snap.asks, vec![level(103, 1)]);
    assert_eq!(snap.last_update_id, 2);
    let snap = ob.get_snapshot(10);
    assert_eq!(snap.bids, vec![level(100, 5), level(99, 3)]);
    assert_eq!(snap.asks, vec![level(103, 1), level(105, 2)]);
}

#[test]
fn depth_volume_and_stats() {
    let agg = OrderBookAggregator::new(10, 2, 4);
    let mut ob = OrderBook::new(b"X".to_vec(), 0);
    ob.update(
        &upd(1, vec![lvl(98, 1, UpdateAction::Add), lvl(99, 3, UpdateAction::Add), lvl(100, 5, UpdateAction::Add)], vec![
            lvl(103, 1, UpdateAction::Add),
            lvl(105, 2, UpdateAction::Add),
        ]),
        &agg,
    )
    .unwrap();
    let d = ob.get_market_depth(2);
    assert_eq!(d.bids, vec![level(100, 5), level(99, 3)]);
    assert_eq!(d.bid_volume, 8);
    assert_eq!(d.ask_volume, 3);
    assert_eq!(ob.calculate_volume_at_price(99), 8);
    assert_eq!(ob.calculate_volume_at_price(104), 1);
    assert_eq!(ob.calculate_volume_at_price(200), 3);
    let s = ob.get_stats();
    assert_eq!(s.total_bid_volume, 9);
    assert_eq!(s.total_ask_volume, 3);
    assert_eq!(s.bid_levels, 3);
    assert_eq!(s.ask_levels, 2);
    assert_eq!(s.spread, 3);
    assert_eq!(s.best_bid, Some(100));
    assert_eq!(s.best_ask, Some(103));
    let empty = OrderBook::new(b"Y".to_vec(), 0).get_stats();
    assert_eq!(empty.spread, 0);
    assert_eq!(empty.best_bid, None);
}

fn node(id: u64, weight: u32, current: u32, max: u32, healthy: bool) -> ServerNode {
    ServerNode { id, weight, current_connections: current, max_connections: max, is_healthy: healthy, last_health_check: 0 }
}

#[test]
fn least_connections_picks_first_minimum() {
    let mut lb = LoadBalancer::new();
    assert_eq!(lb.get_next_node(0), None);
    lb.add_node(node(1, 1, 5, 10, true));
    lb.add_node(node(2, 1, 2, 10, true));
    lb.add_node(node(3, 1, 2, 10, true));
    lb.add_node(node(4, 1, 0, 10, false));
    lb.add_node(node(5, 1, 1, 1, true));
    assert_eq!(lb.get_next_node(0), Some(1));
    assert_eq!(lb.current_index, 0);
}

#[test]
fn round_robin_rotates_over_available_nodes() {
    let mut lb = LoadBalancer::new();
    lb.strategy = LoadBalancingStrategy::RoundRobin;
    lb.add_node(node(1, 1, 0, 10, true));
    lb.add_node(node(2, 1, 0, 10, false));
    lb.add_node(node(3, 1, 0, 10, true));
    let picks: Vec<Option<usize>> = (0..4).map(|_| lb.get_next_node(0)).collect();
    assert_eq!(picks, vec![Some(0), Some(2), Some(0), Some(2)]);
    assert_eq!(lb.current_index, 4);
}

#[test]
fn weighted_round_robin_repeats_by_weight() {
    let mut lb = LoadBalancer::new();
    lb.strategy = LoadBalancingStrategy::WeightedRoundRobin;
    lb.add_node(node(1, 2, 0, 10, true));
    lb.add_node(node(2, 1, 0, 10, true));
    let picks: Vec<Option<usize>> = (0..6).map(|_| lb.get_next_node(0)).collect();
    assert_eq!(picks, vec![Some(0), Some(0), Some(1), Some(0), Some(0), Some(1)]);
}

#[test]
fn ip_hash_uses_time() {
    let mut lb = LoadBalancer::new();
    lb.strategy = LoadBalancingStrategy::IPHash;
    lb.add_node(node(1, 1, 0, 10, true));
    lb.add_node(node(2, 1, 0, 10, true));
    assert_eq!(lb.get_next_node(7), Some(1));
    assert_eq!(lb.get_next_node(8), Some(0));
    assert_eq!(lb.current_index, 0);
}

#[test]
fn remove_and_health_check() {
    let mut lb = LoadBalancer::new();
    lb.add_node(node(1, 1, 0, 10, false));
    lb.add_node(node(2, 1, 0, 10, false));
    lb.add_node(node(1, 1, 0, 10, false));
    assert_eq!(lb.get_next_node(0), None);
    lb.health_check(99);
    assert!(lb.server_nodes.iter().all(|n| n.is_healthy && n.last_health_check == 99));
    lb.remove_node(1);
    assert_eq!(lb.server_nodes.len(), 1);
    assert_eq!(lb.server_nodes[0].id, 2);
    assert_eq!(lb.get_next_node(0), Some(0));
    assert_ne!(ConnectionState::Connected, ConnectionState::Disconnected);
}

use swaptrade::historical::{ReplayError, ReplayRegistry, ReplaySession};
use swaptrade::orderbook::{OrderBookData, OrderBookManager, OrderBookManagerError};
use swaptrade::validation::{validate_order_book_integrity, DataIntegrityChecker};

#[test]
fn test_order_book_integrity() {
    let valid_orderbook = OrderBookData {
        bids: vec![PriceLevel { price: 50000, quantity: 1, orders_count: 1 }, PriceLevel { price: 49999, quantity: 2, orders_count: 1 }],
        asks: vec![PriceLevel { price: 50001, quantity: 1, orders_count: 1 }, PriceLevel { price: 50002, quantity: 2, orders_count: 1 }],
        last_update_id: 1,
    };
    assert!(validate_order_book_integrity(&valid_orderbook));
}

#[test]
fn order_book_integrity_failures() {
    let l = |p: u64| PriceLevel { price: p, quantity: 1, orders_count: 1 };
    let bad_bids = OrderBookData { bids: vec![l(10), l(10)], asks: vec![], last_update_id: 0 };
    assert!(!validate_order_book_integrity(&bad_bids));
    let bad_asks = OrderBookData { bids: vec![], asks: vec![l(12), l(11)], last_update_id: 0 };
    assert!(!validate_order_book_integrity(&bad_asks));
    let crossed = OrderBookData { bids: vec![l(12)], asks: vec![l(12)], last_update_id: 0 };
    assert!(!validate_order_book_integrity(&crossed));
    let empty = OrderBookData { bids: vec![], asks: vec![], last_update_id: 0 };
    assert!(validate_order_book_integrity(&empty));
}

#[test]
fn integrity_checks_sequences_and_checksums() {
    let c = DataIntegrityChecker::new(100);
    assert!(c.verify_data_integrity(b"123456789", 0xCBF4_3926));
    assert!(!c.verify_data_integrity(b"123456789", 0));
    let payloads = vec![b"123456789".to_vec(), b"123456789".to_vec()];
    let sums = vec![0xCBF4_3926u32, 0xCBF4_3926];
    assert!(c.verify_sequence_integrity(&vec![7, 8], &payloads, &sums));
    assert!(!c.verify_sequence_integrity(&vec![7, 9], &payloads, &sums));
    assert!(!c.verify_sequence_integrity(&vec![7, 8], &payloads, &vec![0xCBF4_3926, 1]));
    assert!(c.verify_sequence_integrity(&vec![], &vec![], &vec![]));
}

#[test]
fn manager_routes_by_symbol() {
    let mut m = OrderBookManager::new(2, 2, 4);
    let btc = b"BTC".to_vec();
    let eth = b"ETH".to_vec();
    assert_eq!(m.get_spread(&btc), Err(OrderBookManagerError::NotFound));
    assert!(m.get_orderbook_snapshot(&btc, None).is_err());
    assert_eq!(m.update_orderbook(&btc, &upd(1, vec![lvl(10, 1, UpdateAction::Add)], vec![lvl(12, 1, UpdateAction::Add)]), 0), Ok(()));
    assert_eq!(m.update_orderbook(&btc, &upd(1, vec![], vec![]), 0), Err(OrderBookManagerError::Book(OrderBookError::StaleUpdate)));
    assert_eq!(m.update_orderbook(&eth, &upd(3, vec![lvl(1, 1, UpdateAction::Add)], vec![]), 0), Ok(()));
    assert_eq!(m.orderbooks.len(), 2);
    assert_eq!(m.get_spread(&btc), Ok(2));
    assert_eq!(m.get_spread(&eth), Err(OrderBookManagerError::Book(OrderBookError::NoAsks)));
    assert_eq!(m.get_best_bid_ask(&btc), Ok((10, 1, 12, 1)));
    assert_eq!(m.calculate_volume_at_price(&btc, 11), Ok(0));
    assert_eq!(m.get_orderbook_stats(&btc).unwrap().spread, 2);
    assert_eq!(m.get_market_depth(&btc, 5).unwrap().bid_volume, 1);
    let snap = m.get_orderbook_snapshot(&eth, Some(1)).unwrap();
    assert_eq!(snap.last_update_id, 3);
    assert_eq!(m.get_or_create_orderbook(&eth, 0), 1);
}

#[test]
fn replay_session_steps_and_seeks() {
    assert!(matches!(ReplaySession::new(1, vec![], 0), Err(ReplayError::NoData)));
    let mut s = ReplaySession::new(1, vec![10, 20, 20, 30], 5).ok().unwrap();
    assert_eq!((s.start_time, s.end_time), (10, 30));
    assert_eq!(s.next_point(6), None);
    s.start(6);
    assert_eq!(s.next_point(7), Some(0));
    s.seek(20, 8);
    assert_eq!(s.current_position, 1);
    s.seek(25, 8);
    assert_eq!(s.current_position, 3);
    assert_eq!(s.next_point(9), Some(3));
    assert!(!s.is_playing);
    assert_eq!(s.next_point(9), None);
    let p = s.progress();
    assert_eq!((p.total_points, p.current_point, p.current_timestamp), (4, 4, 10));
    s.seek(0, 10);
    assert_eq!(s.progress().current_timestamp, 10);
    s.seek(99, 10);
    assert_eq!(s.current_position, 4);
}

#[test]
fn replay_registry_limits_and_cleanup() {
    let mut r = ReplayRegistry::new(2);
    assert_eq!(r.create_replay_session(1, vec![1], 0), Ok(1));
    assert_eq!(r.create_replay_session(2, vec![], 0), Err(ReplayError::NoData));
    assert_eq!(r.create_replay_session(2, vec![1], 50_000), Ok(2));
    assert_eq!(r.create_replay_session(3, vec![1], 0), Err(ReplayError::TooManySessions));
    assert_eq!(r.find(2), Some(1));
    assert_eq!(r.cleanup_expired_sessions(90_000), 1);
    assert_eq!(r.sessions.len(), 1);
    assert_eq!(r.sessions[0].id, 2);
    assert_eq!(r.stop_replay(1), Err(ReplayError::SessionNotFound));
    assert_eq!(r.stop_replay(2), Ok(()));
    assert!(r.sessions.is_empty());
}
