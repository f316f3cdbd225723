//! What metrics make of errors, and measures that go with them.

use vstd::prelude::*;
use crate::admission;
use crate::engine::access;
use crate::engine::access::payload_bytes;
use crate::engine::errors::GroupEngineError;
use crate::error::RuntimeError;
use crate::ids::ShardPlacement;
use crate::metrics::RuntimeMetricsInner;
use crate::request::AppendBatchRequest;
use crate::stream::{StreamErrorCode, StreamErrorContext};

verus! {

/// A time in nanoseconds, as far as it can be counted.
pub fn elapsed_ns(nanos: u128) -> (r: u64)
    ensures
        r == if nanos > u64::MAX {
            u64::MAX as int
        } else {
            nanos as int
        },
{
    if nanos > u64::MAX as u128 {
        u64::MAX
    } else {
        nanos as u64
    }
}

/// The bytes that a batch brings.
pub fn append_batch_payload_bytes(request: &AppendBatchRequest) -> (r: u64)
    requires
        access::total_len(request.payloads@) <= u64::MAX,
    ensures
        r == access::total_len(request.payloads@),
{
    payload_bytes(&request.payloads)
}

/// Counts a write that was held back; other errors are not counted.
pub fn record_cold_backpressure_error(
    metrics: &mut RuntimeMetricsInner,
    placement: ShardPlacement,
    incoming_bytes: u64,
    err: &GroupEngineError,
)
    requires
        old(metrics).wf(),
        placement.core_id.0 < old(metrics).core_count(),
        placement.raft_group_id.0 < old(metrics).group_count(),
    ensures
        final(metrics).wf(),
        if *err is Infra && err->Infra_0 is ColdBackpressure {
            &&& final(metrics).per_core_cold_backpressure_events@ == old(
                metrics
            ).per_core_cold_backpressure_events@.update(
                placement.core_id.0 as int,
                admission::wrapping_sum(
                    old(metrics).per_core_cold_backpressure_events@[placement.core_id.0 as int],
                    1,
                ),
            )
            &&& final(metrics).per_group_cold_backpressure_events@ == old(
                metrics
            ).per_group_cold_backpressure_events@.update(
                placement.raft_group_id.0 as int,
                admission::wrapping_sum(
                    old(metrics).per_group_cold_backpressure_events@[placement.raft_group_id.0 as int],
                    1,
                ),
            )
            &&& final(metrics).cold_backpressure_bytes@ == admission::wrapping_sum(
                old(metrics).cold_backpressure_bytes@,
                incoming_bytes,
            )
            &&& *final(metrics) == (RuntimeMetricsInner {
                per_core_cold_backpressure_events: final(metrics).per_core_cold_backpressure_events,
                per_group_cold_backpressure_events: final(
                    metrics
                ).per_group_cold_backpressure_events,
                cold_backpressure_bytes: final(metrics).cold_backpressure_bytes,
                ..*old(metrics)
            })
        } else {
            *final(metrics) == *old(metrics)
        },
{
    if err.is_cold_backpressure() {
        metrics.record_cold_backpressure(
            placement.core_id,
            placement.raft_group_id,
            incoming_bytes,
        );
    }
}

/// Whether an error says that a chunk that was to be flushed is out of date.
pub open spec fn is_stale_candidate(err: RuntimeError) -> bool {
    err matches RuntimeError::GroupEngine { error: GroupEngineError::Stream(error), .. } && (
    error.code is StreamGone || error.code is StreamNotFound || (error.code is InvalidColdFlush
        && error.context@.contains(StreamErrorContext::StaleColdFlushCandidate)))
}

/// Whether an error says that a chunk that was to be flushed is out of date: the
/// stream is gone, or has moved on.
pub fn is_stale_cold_flush_candidate_error(err: &RuntimeError) -> (r: bool)
    ensures
        r == is_stale_candidate(*err),
        match *err {
            RuntimeError::GroupEngine { error: GroupEngineError::Stream(error), .. } => {
                &&& error.code is StreamGone || error.code is StreamNotFound ==> r
                &&& error.code is InvalidColdFlush ==> (r <==> exists|i: int|
                    0 <= i < error.context@.len() && #[trigger] error.context@[i]
                        == StreamErrorContext::StaleColdFlushCandidate)
                &&& !(error.code is StreamGone || error.code is StreamNotFound
                    || error.code is InvalidColdFlush) ==> !r
            },
            _ => !r,
        },
{
    match err.stream_error_code() {
        Some(StreamErrorCode::StreamGone) => true,
        Some(StreamErrorCode::StreamNotFound) => true,
        Some(StreamErrorCode::InvalidColdFlush) => {
            let context = err.stream_error_context();
            let mut i: usize = 0;
            while i < context.len()
                invariant
                    i <= context@.len(),
                    *err matches RuntimeError::GroupEngine {
                        error: GroupEngineError::Stream(error),
                        ..
                    } && error.code is InvalidColdFlush && error.context@ == context@,
                    forall|j: int|
                        0 <= j < i ==> #[trigger] context@[j]
                            != StreamErrorContext::StaleColdFlushCandidate,
                decreases context@.len() - i,
            {
                if context[i] == StreamErrorContext::StaleColdFlushCandidate {
                    assert(context@[i as int] == StreamErrorContext::StaleColdFlushCandidate);
                    return true;
                }
                i = i + 1;
            }
            false
        },
        _ => false,
    }
}

} // verus!
