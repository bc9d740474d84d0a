use shard_gateway::history::{MessageHistoryCache, MessageSnapshot};
use shard_gateway::readiness::{ReadinessError, ShardReadinessAggregator};

fn snap(id: u64, content: &str) -> MessageSnapshot {
    MessageSnapshot {
        message_id: id,
        channel_id: 7,
        author_id: 9,
        content: content.to_string(),
        sent_at: 1_000,
    }
}

fn run_order(order: &[(u64, u64)]) -> (u64, Vec<bool>) {
    let mut agg = ShardReadinessAggregator::new(3);
    let mut fired = Vec::new();
    for &(idx, count) in order {
        let s = agg.report_shard_ready(idx, count).unwrap();
        fired.push(s.just_became_ready);
    }
    (agg.cumulative_groups(), fired)
}

#[test]
fn three_shards_any_order_sum_and_fire_once() {
    let reports = [(0, 10), (1, 5), (2, 7)];
    let orders = [
        [0, 1, 2],
        [0, 2, 1],
        [1, 0, 2],
        [1, 2, 0],
        [2, 0, 1],
        [2, 1, 0],
    ];
    for o in orders.iter() {
        let seq: Vec<(u64, u64)> = o.iter().map(|&i| reports[i]).collect();
        let (total, fired) = run_order(&seq);
        assert_eq!(total, 22);
        assert_eq!(fired, vec![false, false, true]);
    }
}

#[test]
fn duplicate_report_changes_nothing() {
    let mut agg = ShardReadinessAggregator::new(2);
    agg.report_shard_ready(0, 4).unwrap();
    assert_eq!(agg.report_shard_ready(0, 100), Err(ReadinessError::DuplicateReport));
    assert_eq!(agg.cumulative_groups(), 4);
    assert_eq!(agg.reports_received(), 1);
    let s = agg.report_shard_ready(1, 6).unwrap();
    assert!(s.just_became_ready);
    assert_eq!(s.cumulative_groups, 10);
    assert_eq!(s.reports_received, 2);
    assert_eq!(agg.report_shard_ready(1, 6), Err(ReadinessError::DuplicateReport));
    assert_eq!(agg.cumulative_groups(), 10);
    assert!(agg.all_ready());
}

#[test]
fn unknown_shard_is_refused() {
    let mut agg = ShardReadinessAggregator::new(2);
    assert_eq!(agg.report_shard_ready(2, 1), Err(ReadinessError::UnknownShard));
    assert_eq!(agg.reports_received(), 0);
    assert!(!agg.all_ready());
    let mut none = ShardReadinessAggregator::new(0);
    assert_eq!(none.report_shard_ready(0, 1), Err(ReadinessError::UnknownShard));
    assert!(!none.all_ready());
}

#[test]
fn single_shard_fires_on_first_report() {
    let mut agg = ShardReadinessAggregator::new(1);
    assert_eq!(agg.expected_shard_total(), 1);
    let s = agg.report_shard_ready(0, 0).unwrap();
    assert!(s.just_became_ready);
    assert_eq!(s.cumulative_groups, 0);
}

#[test]
fn cache_edit_then_lookup_shows_new_content() {
    let mut cache = MessageHistoryCache::new(4);
    cache.put(1, snap(100, "old"));
    assert!(cache.update_content(1, "new".to_string()));
    let got = cache.get(1).unwrap();
    assert_eq!(got.content, "new");
    assert_eq!(got.message_id, 100);
    assert!(!cache.update_content(2, "x".to_string()));
    assert!(cache.get(2).is_none());
}

#[test]
fn cache_delete_then_lookup_is_absent() {
    let mut cache = MessageHistoryCache::new(4);
    cache.put(1, snap(100, "a"));
    let removed = cache.remove(1).unwrap();
    assert_eq!(removed.message_id, 100);
    assert!(cache.get(1).is_none());
    assert!(cache.remove(1).is_none());
    assert_eq!(cache.len(), 0);
}

#[test]
fn cache_evicts_oldest_when_full() {
    let mut cache = MessageHistoryCache::new(2);
    cache.put(1, snap(10, "a"));
    cache.put(2, snap(20, "b"));
    cache.put(1, snap(11, "c"));
    assert_eq!(cache.len(), 2);
    assert_eq!(cache.get(1).unwrap().message_id, 11);
    cache.put(3, snap(30, "d"));
    assert_eq!(cache.len(), 2);
    assert_eq!(cache.capacity(), 2);
    assert!(!cache.contains(1));
    assert!(cache.contains(2));
    assert!(cache.contains(3));
}
