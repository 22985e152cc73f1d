use swaptrade::historical::ReplayError;
use swaptrade::history_store::{
    HistoricalDataManager, HistoricalDataRequest, HistoryError, InMemoryHistoricalStorage, StoredPoint,
};

fn pt(timestamp: i64, sequence: u64) -> StoredPoint {
    StoredPoint { timestamp, sequence }
}

fn request(symbol: &[u8], start_time: i64, end_time: i64, limit: Option<u64>) -> HistoricalDataRequest {
    HistoricalDataRequest { symbol: symbol.to_vec(), start_time, end_time, limit }
}

#[test]
fn test_historical_data_storage() {
    let mut manager = HistoricalDataManager::new(100);
    assert!(manager.store_data(&b"BTCUSDT".to_vec(), pt(1_700_000_000, 1)).is_ok());
}

#[test]
fn test_replay_session() {
    let mut manager = HistoricalDataManager::new(100);
    let req = request(b"BTCUSDT", 1_700_000_000 - 3600, 1_700_000_000, Some(100));
    let result = manager.create_replay_session(&req, 1, 1_700_000_000);
    assert!(result.is_err());
    assert_eq!(result, Err(ReplayError::NoData));
}

#[test]
fn storage_range_queries_keep_arrival_order() {
    let mut st = InMemoryHistoricalStorage::new();
    let btc = b"BTC".to_vec();
    let eth = b"ETH".to_vec();
    st.store_market_data(&btc, pt(30, 1));
    st.store_market_data(&btc, pt(10, 2));
    st.store_market_data(&eth, pt(20, 3));
    st.store_market_data(&btc, pt(50, 4));
    assert_eq!(st.retrieve_market_data(&btc, 10, 30), vec![pt(30, 1), pt(10, 2)]);
    assert_eq!(st.retrieve_market_data(&btc, 31, 49), vec![]);
    assert_eq!(st.retrieve_market_data(&b"SOL".to_vec(), 0, 100), vec![]);
    assert_eq!(st.get_available_symbols(), vec![btc.clone(), eth.clone()]);
    // first and last in arrival order, not the smallest and largest times
    assert_eq!(st.get_data_range(&btc), Ok((30, 50)));
    assert_eq!(st.get_data_range(&b"SOL".to_vec()), Err(HistoryError::HistoricalDataUnavailable));
}

#[test]
fn storage_delete_old_data_counts_and_keeps_symbols() {
    let mut st = InMemoryHistoricalStorage::new();
    let btc = b"BTC".to_vec();
    let eth = b"ETH".to_vec();
    st.store_market_data(&btc, pt(5, 1));
    st.store_market_data(&btc, pt(15, 2));
    st.store_market_data(&eth, pt(7, 3));
    assert_eq!(st.delete_old_data(10), 2);
    assert_eq!(st.retrieve_market_data(&btc, 0, 100), vec![pt(15, 2)]);
    assert_eq!(st.get_available_symbols().len(), 2);
    assert_eq!(st.get_data_range(&eth), Err(HistoryError::HistoricalDataUnavailable));
    assert_eq!(st.delete_old_data(10), 0);
}

#[test]
fn stored_point_is_read_back_when_in_range() {
    let mut st = InMemoryHistoricalStorage::new();
    let btc = b"BTC".to_vec();
    st.store_market_data(&btc, pt(100, 1));
    let before = st.retrieve_market_data(&btc, 50, 150);
    st.store_market_data(&btc, pt(120, 2));
    let mut expected = before.clone();
    expected.push(pt(120, 2));
    assert_eq!(st.retrieve_market_data(&btc, 50, 150), expected);
    st.store_market_data(&btc, pt(200, 3));
    assert_eq!(st.retrieve_market_data(&btc, 50, 150), expected);
}

#[test]
fn manager_limits_requests_and_reports_statistics() {
    let mut m = HistoricalDataManager::new(1);
    let btc = b"BTC".to_vec();
    let eth = b"ETH".to_vec();
    for (i, t) in [10i64, 20, 30, 40].iter().enumerate() {
        m.store_data(&btc, pt(*t, i as u64)).unwrap();
    }
    m.store_data(&eth, pt(5, 9)).unwrap();
    m.store_data(&eth, pt(60, 10)).unwrap();
    assert_eq!(m.retrieve_data(&request(b"BTC", 0, 100, Some(2))), Ok(vec![pt(10, 0), pt(20, 1)]));
    assert_eq!(m.retrieve_data(&request(b"BTC", 15, 100, None)).unwrap().len(), 3);

    assert_eq!(m.create_replay_session(&request(b"BTC", 15, 35, None), 77, 1_000), Ok(77));
    assert_eq!(
        m.create_replay_session(&request(b"BTC", 0, 100, None), 78, 1_000),
        Err(ReplayError::TooManySessions)
    );
    let stats = m.get_statistics();
    assert_eq!(stats.oldest_data, Some(5));
    assert_eq!(stats.newest_data, Some(60));
    assert_eq!(stats.symbols_count, 2);
    assert_eq!(stats.active_replay_sessions, 1);
    assert_eq!(stats.total_data_points, 0);
    assert_eq!(m.get_active_sessions(), vec![77u128]);
}

#[test]
fn manager_replay_controls() {
    let mut m = HistoricalDataManager::new(10);
    let btc = b"BTC".to_vec();
    for (i, t) in [10i64, 20, 30].iter().enumerate() {
        m.store_data(&btc, pt(*t, i as u64)).unwrap();
    }
    m.create_replay_session(&request(b"BTC", 0, 100, None), 5, 1_000).unwrap();
    assert_eq!(m.get_next_replay_data(5, 1_001), Ok(None));
    assert_eq!(m.start_replay(5, 1_002), Ok(()));
    assert_eq!(m.get_next_replay_data(5, 1_003), Ok(Some(0)));
    assert_eq!(m.seek_replay(5, 25, 1_004), Ok(()));
    let p = m.get_replay_progress(5).unwrap();
    assert_eq!((p.total_points, p.current_point, p.current_timestamp), (3, 2, 30));
    assert_eq!(m.get_next_replay_data(5, 1_005), Ok(Some(2)));
    assert_eq!(m.get_next_replay_data(5, 1_006), Ok(None));
    assert_eq!(m.pause_replay(5, 1_007), Ok(()));
    assert_eq!(m.start_replay(6, 1_008), Err(ReplayError::SessionNotFound));
    assert_eq!(m.get_replay_progress(6), Err(ReplayError::SessionNotFound));
}
