//! The fixed-counter metrics registry.

use embeddenator_obs::Metrics;

#[test]
fn metrics_snapshot_delta_behaves_under_feature_gate() {
    let mut metrics = Metrics::new();
    let before = metrics.snapshot();

    metrics.inc_poison_inodes();
    metrics.inc_sub_cache_hit();
    metrics.record_retrieval_query(2_000_000);

    let after = metrics.snapshot();

    assert!(after.poison_inodes >= before.poison_inodes + 1);
    assert!(after.poison_recoveries_total >= before.poison_recoveries_total + 1);
    assert!(after.sub_cache_hits >= before.sub_cache_hits + 1);
    assert!(after.retrieval_query_calls >= before.retrieval_query_calls + 1);
    assert!(after.retrieval_query_ns_total >= before.retrieval_query_ns_total);
    assert!(after.retrieval_query_ns_max >= before.retrieval_query_ns_max);
}

#[test]
fn test_metrics_tracking() {
    let mut metrics = Metrics::new();
    let before = metrics.snapshot();

    metrics.inc_sub_cache_hit();
    metrics.inc_sub_cache_hit();
    metrics.inc_sub_cache_miss();

    let after = metrics.snapshot();

    assert!(after.sub_cache_hits >= before.sub_cache_hits + 2);
    assert!(after.sub_cache_misses >= before.sub_cache_misses + 1);
}

#[test]
fn test_operation_timing() {
    let mut metrics = Metrics::new();
    let before = metrics.snapshot();

    metrics.record_retrieval_query(1_500_000);
    metrics.record_retrieval_query(2_000_000);

    let after = metrics.snapshot();

    assert!(after.retrieval_query_calls >= before.retrieval_query_calls + 2);
    assert!(after.retrieval_query_ns_total >= before.retrieval_query_ns_total);
    assert!(after.retrieval_query_ns_max >= 1500_000);
}

#[test]
fn test_fresh_registry_is_zero() {
    let snapshot = Metrics::new().snapshot();
    assert_eq!(snapshot.poison_recoveries_total, 0);
    assert_eq!(snapshot.rerank_calls, 0);
    assert_eq!(snapshot.hier_query_ns_max, 0);
}

#[test]
fn test_record_rerank_and_hier() {
    let mut metrics = Metrics::new();
    metrics.record_rerank(5_000);
    metrics.record_hier_query(7_000);
    metrics.record_hier_query(3_000);
    let snap = metrics.snapshot();
    assert_eq!(snap.rerank_calls, 1);
    assert_eq!(snap.rerank_ns_max, 5_000);
    assert_eq!(snap.hier_query_calls, 2);
    assert_eq!(snap.hier_query_ns_total, 10_000);
    assert_eq!(snap.hier_query_ns_max, 7_000);
}
