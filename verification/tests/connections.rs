use swaptrade::connection::ConnectionState;
use swaptrade::connection_manager::{
    Connection, ConnectionError, ConnectionManager, ConnectionPool, POOL_IDLE_TIMEOUT_MS,
};

fn conn(id: u128, now: i64) -> Connection {
    Connection::new(id, b"10.0.0.1:9000".to_vec(), now)
}

#[test]
fn manager_counts_connections_and_peak() {
    let mut m = ConnectionManager::new(10_000);
    assert_eq!(m.add_connection(conn(1, 0)), Ok(()));
    assert_eq!(m.add_connection(conn(2, 0)), Ok(()));
    assert_eq!(m.get_connection_count(), 2);
    let metrics = m.get_metrics();
    assert_eq!((metrics.total_connections, metrics.active_connections, metrics.peak_connections), (2, 2, 2));
    assert_eq!(m.remove_connection(1), Ok(()));
    assert_eq!(m.add_connection(conn(3, 5)), Ok(()));
    let metrics = m.get_metrics();
    assert_eq!((metrics.total_connections, metrics.active_connections, metrics.peak_connections), (3, 2, 2));
    assert_eq!(m.get_active_connections(), vec![2u128, 3]);
    assert_eq!(m.get_connection(3).map(|c| c.state), Some(ConnectionState::Connected));
    assert!(m.get_connection(1).is_none());
}

#[test]
fn closing_a_connection_moves_its_traffic_into_the_totals() {
    let mut m = ConnectionManager::new(10);
    m.add_connection(conn(7, 0)).unwrap();
    assert_eq!(m.record_message_sent(7, 120, 10), Ok(()));
    assert_eq!(m.record_message_sent(7, 80, 20), Ok(()));
    assert_eq!(m.record_message_sent(8, 80, 20), Err(ConnectionError::ConnectionNotFound));
    let c = m.get_connection(7).unwrap();
    assert_eq!((c.stats.messages_sent, c.stats.bytes_sent, c.last_activity), (2, 200, 20));
    assert_eq!(m.get_metrics().total_bytes_sent, 0);
    m.remove_connection(7).unwrap();
    let metrics = m.get_metrics();
    assert_eq!((metrics.total_messages_sent, metrics.total_bytes_sent, metrics.active_connections), (2, 200, 0));
    // closing an unknown connection is not an error and changes nothing
    assert_eq!(m.remove_connection(7), Ok(()));
    assert_eq!(m.get_metrics(), metrics);
}

#[test]
fn idle_connections_are_closed_after_the_timeout() {
    let mut m = ConnectionManager::new(10);
    m.add_connection(conn(1, 0)).unwrap();
    m.add_connection(conn(2, 0)).unwrap();
    m.add_connection(conn(3, 0)).unwrap();
    m.update_connection_activity(2, 250_000).unwrap();
    m.update_connection_activity(3, 900_000).unwrap();
    m.record_message_sent(1, 10, 0).unwrap();
    assert_eq!(m.update_connection_activity(9, 1), Err(ConnectionError::ConnectionNotFound));
    // at 400 s: connection 1 idle for 400 s, 2 for 150 s, 3 active in the future
    assert_eq!(m.cleanup_idle_connections(400_000, 300_000), Ok(2));
    assert_eq!(m.get_active_connections(), vec![2u128]);
    let metrics = m.get_metrics();
    assert_eq!((metrics.active_connections, metrics.total_bytes_sent, metrics.total_messages_sent), (1, 10, 1));
    // exactly at the timeout a connection is kept
    assert_eq!(m.cleanup_idle_connections(550_000, 300_000), Ok(0));
    assert_eq!(m.cleanup_idle_connections(550_001, 300_000), Ok(1));
}

#[test]
fn pool_bounds_new_connections() {
    let mut m = ConnectionManager::new(1);
    m.connection_pool.add_idle_connection(42, 0);
    assert_eq!(m.add_connection(conn(1, 0)), Err(ConnectionError::ConnectionLimitReached));
    assert_eq!(m.get_connection_count(), 0);
    m.connection_pool.remove_idle_connection(42);
    assert_eq!(m.add_connection(conn(1, 0)), Ok(()));
}

#[test]
fn pool_prunes_stale_idle_entries() {
    let mut p = ConnectionPool::new(5);
    assert_eq!(p.idle_timeout_ms, POOL_IDLE_TIMEOUT_MS);
    p.add_idle_connection(1, 0);
    p.add_idle_connection(2, 100_000);
    p.add_idle_connection(1, 50_000);
    p.add_idle_connection(3, 500_000);
    assert_eq!(p.idle_connections, vec![(1u128, 50_000i64), (2, 100_000), (3, 500_000)]);
    assert!(p.can_add_connection());
    p.prune_idle(360_000);
    // 1 idle for 310 s is dropped, 2 for 260 s stays, 3 dated later is dropped
    assert_eq!(p.idle_connections, vec![(2u128, 100_000i64)]);
}
