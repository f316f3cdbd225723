//! Counters and their snapshot.

use ursula_runtime::engine::errors::GroupEngineError;
use ursula_runtime::ids::{BucketStreamId, CoreId, RaftGroupId, ShardId, ShardPlacement};
use ursula_runtime::metrics::errors::{
    append_batch_payload_bytes, elapsed_ns, is_stale_cold_flush_candidate_error,
    record_cold_backpressure_error,
};
use ursula_runtime::metrics::RuntimeMetricsInner;
use ursula_runtime::request::AppendBatchRequest;
use ursula_runtime::stream::{StreamErrorCode, StreamErrorContext};
use ursula_runtime::{RuntimeError, RuntimeMetrics};

fn metrics_for_test() -> RuntimeMetrics {
    RuntimeMetrics {
        inner: RuntimeMetricsInner::new(2, 3),
    }
}

#[test]
fn snapshot_vector_lengths_follow_metric_scope() {
    let snapshot = metrics_for_test().snapshot();
    assert_eq!(snapshot.per_core_appends.len(), 2);
    assert_eq!(snapshot.per_group_appends.len(), 3);
    assert_eq!(snapshot.per_core_routed_requests.len(), 2);
    assert_eq!(snapshot.per_group_raft_snapshot_streams.len(), 3);
}

#[test]
fn snapshot_aggregates_sum_and_max_per_manifest() {
    let mut metrics = metrics_for_test();
    metrics.inner.per_core_appends.fetch_add_relaxed(0, 3);
    metrics.inner.per_core_appends.fetch_add_relaxed(1, 4);
    metrics.inner.per_group_group_mailbox_max_depth.fetch_max_relaxed(1, 9);
    metrics.inner.per_group_raft_snapshot_body_bytes.store_relaxed(0, 5);
    metrics.inner.per_group_raft_snapshot_body_bytes.store_relaxed(2, 11);
    let snapshot = metrics.snapshot();
    assert_eq!(snapshot.accepted_appends, 7);
    assert_eq!(snapshot.group_mailbox_max_depth, 9);
    assert_eq!(snapshot.raft_snapshot_body_bytes, 16);
    assert_eq!(snapshot.raft_snapshot_body_bytes_max, 11);
}

#[test]
fn an_append_shows_at_its_core_and_its_group() {
    let mut metrics = metrics_for_test();
    metrics.inner.record_append(CoreId(1), RaftGroupId(2));
    metrics.inner.record_append_batch(CoreId(0), RaftGroupId(2), 4);
    metrics.inner.record_applied_mutation(CoreId(1), RaftGroupId(0), 30);
    let snapshot = metrics.snapshot();
    assert_eq!(snapshot.per_core_appends, vec![4, 1]);
    assert_eq!(snapshot.per_group_appends, vec![0, 0, 5]);
    assert_eq!(snapshot.accepted_appends, 5);
    assert_eq!(snapshot.applied_mutations, 1);
    assert_eq!(snapshot.mutation_apply_ns, 30);
}

#[test]
fn a_mailbox_remembers_how_deep_it_was() {
    let mut metrics = metrics_for_test();
    metrics.inner.record_group_mailbox_enqueued(RaftGroupId(1));
    metrics.inner.record_group_mailbox_enqueued(RaftGroupId(1));
    metrics.inner.record_group_mailbox_dequeued(RaftGroupId(1));
    let snapshot = metrics.snapshot();
    assert_eq!(snapshot.per_group_group_mailbox_depth, vec![0, 1, 0]);
    assert_eq!(snapshot.group_mailbox_max_depth, 2);
    metrics.inner.record_group_mailbox_dequeued(RaftGroupId(1));
    assert_eq!(metrics.snapshot().group_mailbox_depth, 0);
}

#[test]
fn backpressure_is_counted_where_it_is_that() {
    let placement = ShardPlacement {
        core_id: CoreId(1),
        shard_id: ShardId(0),
        raft_group_id: RaftGroupId(2),
    };
    let mut metrics = metrics_for_test();
    record_cold_backpressure_error(
        &mut metrics.inner,
        placement,
        64,
        &GroupEngineError::new("broken"),
    );
    assert_eq!(metrics.snapshot().cold_backpressure_bytes, 0);
    let held_back = GroupEngineError::cold_backpressure(BucketStreamId::new("b", "s"), 1, 65, 10);
    record_cold_backpressure_error(&mut metrics.inner, placement, 64, &held_back);
    let snapshot = metrics.snapshot();
    assert_eq!(snapshot.cold_backpressure_bytes, 64);
    assert_eq!(snapshot.per_group_cold_backpressure_events, vec![0, 0, 1]);
}

#[test]
fn a_stale_flush_is_told_from_others() {
    let placement = ShardPlacement {
        core_id: CoreId(0),
        shard_id: ShardId(0),
        raft_group_id: RaftGroupId(0),
    };
    let stale = GroupEngineError::stream_with_context(
        StreamErrorCode::InvalidColdFlush,
        "stale",
        None,
        vec![StreamErrorContext::StaleColdFlushCandidate],
    );
    assert!(is_stale_cold_flush_candidate_error(&RuntimeError::group_engine(placement, stale)));
    let other = GroupEngineError::stream(StreamErrorCode::InvalidColdFlush, "bad");
    assert!(!is_stale_cold_flush_candidate_error(&RuntimeError::group_engine(placement, other)));
    assert!(!is_stale_cold_flush_candidate_error(&RuntimeError::EmptyAppend));
}

#[test]
fn times_and_sizes_are_numbers() {
    assert_eq!(elapsed_ns(17), 17);
    assert_eq!(elapsed_ns(u128::MAX), u64::MAX);
    let request = AppendBatchRequest::new(
        BucketStreamId::new("b", "s"),
        vec![vec![0; 3], Vec::new(), vec![0; 4]],
    );
    assert_eq!(append_batch_payload_bytes(&request), 7);
}
