//! Time-to-live eviction: the expired prefix of the queue, decided from the
//! age of each entry.

use std::time::Duration;

use aoxcore::mempool::pool::expired_prefix_len;
use aoxcore::mempool::pool::Mempool;
use aoxcore::mempool::pool::MempoolConfig;
use aoxcore::mempool::pool::TX_ID_LEN;

const HOUR_NANOS: u128 = 3_600_000_000_000;

fn config(ttl: Duration) -> MempoolConfig {
    MempoolConfig {
        max_txs: 4,
        max_tx_size: 16,
        max_total_bytes: 64,
        tx_ttl: ttl,
    }
}

#[test]
fn expired_prefix_of_empty_ages_is_zero() {
    assert_eq!(expired_prefix_len(&[], 10), 0);
}

#[test]
fn expired_prefix_stops_at_first_fresh_entry() {
    assert_eq!(expired_prefix_len(&[30, 10, 9, 50], 10), 2);
    assert_eq!(expired_prefix_len(&[9, 30, 40], 10), 0);
}

#[test]
fn expired_prefix_counts_every_entry_when_all_expired() {
    assert_eq!(expired_prefix_len(&[10, 11, 12], 10), 3);
    assert_eq!(expired_prefix_len(&[0, 0], 0), 2);
}

#[test]
fn purge_with_ages_evicts_exactly_the_expired_head() {
    let mut mempool = Mempool::new(config(Duration::from_secs(3600))).unwrap();
    for byte in 1..=3u8 {
        mempool.add_tx([byte; TX_ID_LEN], vec![byte; 4]).unwrap();
    }

    let removed = mempool.purge_expired_with(&[HOUR_NANOS + 50, HOUR_NANOS, HOUR_NANOS - 1]);

    assert_eq!(removed, 2);
    assert_eq!(mempool.len(), 1);
    assert_eq!(mempool.total_bytes(), 4);
    assert_eq!(mempool.ids_in_order(), vec![[3u8; TX_ID_LEN]]);
    assert_eq!(mempool.lifecycle_stats().expired_evictions, 2);
}

#[test]
fn purge_with_fresh_head_keeps_everything() {
    let mut mempool = Mempool::new(config(Duration::from_secs(3600))).unwrap();
    mempool.add_tx([1; TX_ID_LEN], vec![1]).unwrap();
    mempool.add_tx([2; TX_ID_LEN], vec![2]).unwrap();

    let removed = mempool.purge_expired_with(&[5, HOUR_NANOS * 2]);

    assert_eq!(removed, 0);
    assert_eq!(mempool.len(), 2);
    assert_eq!(mempool.lifecycle_stats().expired_evictions, 0);
}

#[test]
fn one_nanosecond_ttl_expires_earlier_entries_before_the_next_operation() {
    let mut mempool = Mempool::new(config(Duration::from_nanos(1))).unwrap();
    mempool.add_tx([1; TX_ID_LEN], vec![1, 2]).unwrap();
    mempool.add_tx([2; TX_ID_LEN], vec![3]).unwrap();

    assert_eq!(mempool.len(), 1);
    assert_eq!(mempool.purge_expired(), 1);
    assert!(mempool.is_empty());
    assert_eq!(mempool.total_bytes(), 0);
    assert_eq!(mempool.lifecycle_stats().expired_evictions, 2);
}

#[test]
fn long_ttl_keeps_fresh_entries() {
    let mut mempool = Mempool::new(config(Duration::from_secs(3600))).unwrap();
    mempool.add_tx([1; TX_ID_LEN], vec![1]).unwrap();
    mempool.add_tx([2; TX_ID_LEN], vec![2]).unwrap();

    assert_eq!(mempool.purge_expired(), 0);
    assert_eq!(mempool.len(), 2);
    assert!(mempool.remove_tx(&[1; TX_ID_LEN]));
    assert_eq!(mempool.collect(5).len(), 1);
}
