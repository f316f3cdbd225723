//! Batches of appends that go to an engine together.

use vstd::prelude::*;
use crate::admission;
use crate::admission::{give_back, RaftUncommittedBytesTracker, UncommittedBytesGuard};
use crate::engine::access;
use crate::engine::errors;
use crate::engine::errors::GroupEngineError;
use crate::engine::responses;
use crate::engine::responses::{debug_write_response, GroupAppendBatchResponse, GroupWriteResponse};
use crate::error;
use crate::error::RuntimeError;
use crate::ids::{BucketStreamId, ShardPlacement};
use crate::metrics::errors::append_batch_payload_bytes;
use crate::metrics::RuntimeMetricsInner;
use crate::request::{
    AppendBatchRequest, AppendBatchResponse, AppendResponse, ColdWriteAdmission,
};
use crate::text;
use crate::text::decimal_text;
use crate::worker::effect_laws;

verus! {

/// A batch that was handed to an engine, and the way to answer for it.
#[derive(Debug)]
pub struct PendingAppendBatch<T> {
    pub stream_id: BucketStreamId,
    pub incoming_bytes: u64,
    pub response: T,
    /// Bytes to be given back once the batch is done with.
    pub raft_uncommitted: Option<UncommittedBytesGuard>,
}

/// A batch, the way to answer for it, and the bytes to be given back.
#[derive(Debug)]
pub struct AppendBatchEntry<T> {
    pub request: AppendBatchRequest,
    pub response: T,
    pub raft_uncommitted: Option<UncommittedBytesGuard>,
}

/// A batch that is done with.
#[derive(Debug)]
pub struct FinishedAppendBatch<T> {
    pub stream_id: BucketStreamId,
    pub response: T,
    pub raft_uncommitted: Option<UncommittedBytesGuard>,
    pub result: Result<AppendBatchResponse, RuntimeError>,
    /// Whether the stream has gone on, so that those who wait for it are to be
    /// woken.
    pub notify: bool,
}

impl<T> FinishedAppendBatch<T> {
    /// Gives back the bytes that were counted for the batch, whatever came of it, and
    /// only then hands out the answer, with the way to give it.
    pub fn settle(self, tracker: &mut RaftUncommittedBytesTracker) -> (r: (
        T,
        Result<AppendBatchResponse, RuntimeError>,
    ))
        requires
            admission::is_of_counted_group(old(tracker)@, self.raft_uncommitted),
        ensures
            r == (self.response, self.result),
            final(tracker)@ == admission::given_back(old(tracker)@, self.raft_uncommitted),
    {
        give_back(tracker, self.raft_uncommitted);
        (self.response, self.result)
    }
}

/// Parts batches into what the engine is handed and what is kept for the answers.
pub fn prepare_append_batch_requests<T>(batch: Vec<AppendBatchEntry<T>>) -> (r: (
    Vec<AppendBatchRequest>,
    Vec<PendingAppendBatch<T>>,
))
    requires
        forall|i: int|
            0 <= i < batch@.len() ==> access::total_len((#[trigger] batch@[i]).request.payloads@)
                <= u64::MAX,
    ensures
        r.0@.len() == batch@.len(),
        r.1@.len() == batch@.len(),
        forall|i: int| 0 <= i < batch@.len() ==> #[trigger] r.0@[i] == batch@[i].request,
        forall|i: int|
            0 <= i < batch@.len() ==> #[trigger] r.1@[i] == (PendingAppendBatch {
                stream_id: batch@[i].request.stream_id,
                incoming_bytes: access::total_len(batch@[i].request.payloads@) as u64,
                response: batch@[i].response,
                raft_uncommitted: batch@[i].raft_uncommitted,
            }),
{
    let ghost all = batch@;
    let mut rest = batch;
    let count: usize = rest.len();
    let mut requests: Vec<AppendBatchRequest> = Vec::new();
    let mut pending: Vec<PendingAppendBatch<T>> = Vec::new();
    let mut i: usize = 0;
    while i < count
        invariant
            i <= count,
            count == all.len(),
            rest@ == all.skip(i as int),
            requests@.len() == i,
            pending@.len() == i,
            forall|j: int|
                0 <= j < all.len() ==> access::total_len((#[trigger] all[j]).request.payloads@)
                    <= u64::MAX,
            forall|j: int| 0 <= j < i ==> #[trigger] requests@[j] == all[j].request,
            forall|j: int|
                0 <= j < i ==> #[trigger] pending@[j] == (PendingAppendBatch {
                    stream_id: all[j].request.stream_id,
                    incoming_bytes: access::total_len(all[j].request.payloads@) as u64,
                    response: all[j].response,
                    raft_uncommitted: all[j].raft_uncommitted,
                }),
        decreases count - i,
    {
        let entry = rest.remove(0);
        proof {
            assert(entry == all[i as int]);
            assert(rest@ =~= all.skip(i + 1));
        }
        let incoming_bytes: u64 = append_batch_payload_bytes(&entry.request);
        pending.push(
            PendingAppendBatch {
                stream_id: entry.request.stream_id.clone(),
                incoming_bytes,
                response: entry.response,
                raft_uncommitted: entry.raft_uncommitted,
            },
        );
        requests.push(entry.request);
        i = i + 1;
    }
    (requests, pending)
}

/// Whether an error is an engine's internal error at this place.
pub open spec fn is_internal_at(
    error: RuntimeError,
    placement: ShardPlacement,
    message: Seq<char>,
) -> bool {
    error matches RuntimeError::GroupEngine { core_id, raft_group_id, error } && core_id
        == placement.core_id && raft_group_id == placement.raft_group_id
        && errors::is_internal_error(error, message)
}

/// What an engine's answer to one of several batches amounts to.
pub open spec fn is_batch_result(
    result: Result<GroupAppendBatchResponse, RuntimeError>,
    answer: Result<GroupWriteResponse, GroupEngineError>,
    placement: ShardPlacement,
) -> bool {
    match answer {
        Ok(GroupWriteResponse::AppendBatch(response)) => result == Ok::<
            GroupAppendBatchResponse,
            RuntimeError,
        >(response),
        Ok(other) => result is Err && is_internal_at(
            result->Err_0,
            placement,
            "unexpected batched append response: "@ + responses::write_response_debug(other),
        ),
        Err(error) => result == Err::<GroupAppendBatchResponse, RuntimeError>(
            RuntimeError::GroupEngine {
                core_id: placement.core_id,
                raft_group_id: placement.raft_group_id,
                error,
            },
        ),
    }
}

/// The words for an engine that answered more or less often than it was asked.
pub open spec fn miscount_text(answers: nat, asked: nat) -> Seq<char> {
    "batched append response count "@ + text::decimal(answers) + " does not match request count "@
        + text::decimal(asked)
}

fn batch_result(answer: Result<GroupWriteResponse, GroupEngineError>, placement: ShardPlacement) -> (r:
    Result<GroupAppendBatchResponse, RuntimeError>)
    ensures
        is_batch_result(r, answer, placement),
{
    match answer {
        Ok(GroupWriteResponse::AppendBatch(response)) => Ok(response),
        Ok(other) => {
            let mut text = "unexpected batched append response: ".to_owned();
            text.append(debug_write_response(&other).as_str());
            Err(RuntimeError::group_engine(placement, GroupEngineError::new(text.as_str())))
        },
        Err(error) => Err(RuntimeError::group_engine(placement, error)),
    }
}

/// The same error for every batch.
fn to_all(error: &RuntimeError, count: usize) -> (r: Vec<
    Result<GroupAppendBatchResponse, RuntimeError>,
>)
    ensures
        r@.len() == count,
        forall|i: int|
            0 <= i < count ==> (#[trigger] r@[i]) is Err && error::alike(r@[i]->Err_0, *error),
{
    let mut results: Vec<Result<GroupAppendBatchResponse, RuntimeError>> = Vec::new();
    while results.len() < count
        invariant
            results@.len() <= count,
            forall|i: int|
                0 <= i < results@.len() ==> (#[trigger] results@[i]) is Err && error::alike(
                    results@[i]->Err_0,
                    *error,
                ),
        decreases count - results@.len(),
    {
        results.push(Err(error.clone()));
    }
    results
}

/// What an engine's answers amount to for each of the batches that it was handed:
/// its answer to the batch, or one error for all where it failed as a whole or did
/// not answer for each.
pub fn align_responses(
    count: usize,
    responses: Result<Vec<Result<GroupWriteResponse, GroupEngineError>>, RuntimeError>,
    placement: ShardPlacement,
) -> (r: Vec<Result<GroupAppendBatchResponse, RuntimeError>>)
    ensures
        r@.len() == count,
        match responses {
            Err(error) => forall|i: int|
                0 <= i < count ==> (#[trigger] r@[i]) is Err && error::alike(r@[i]->Err_0, error),
            Ok(answers) => if answers@.len() != count {
                forall|i: int|
                    0 <= i < count ==> (#[trigger] r@[i]) is Err && is_internal_at(
                        r@[i]->Err_0,
                        placement,
                        miscount_text(answers@.len(), count as nat),
                    )
            } else {
                forall|i: int|
                    0 <= i < count ==> is_batch_result(#[trigger] r@[i], answers@[i], placement)
            },
        },
{
    let mut answers = match responses {
        Ok(answers) => answers,
        Err(error) => {
            return to_all(&error, count);
        },
    };
    if answers.len() != count {
        let mut text = "batched append response count ".to_owned();
        text.append(decimal_text(answers.len() as u128).as_str());
        text.append(" does not match request count ");
        text.append(decimal_text(count as u128).as_str());
        let error = RuntimeError::group_engine(placement, GroupEngineError::new(text.as_str()));
        return to_all(&error, count);
    }
    let ghost all = answers@;
    let mut results: Vec<Result<GroupAppendBatchResponse, RuntimeError>> = Vec::new();
    while answers.len() > 0
        invariant
            results@.len() + answers@.len() == all.len(),
            answers@ == all.skip(results@.len() as int),
            forall|i: int|
                0 <= i < results@.len() ==> is_batch_result(
                    #[trigger] results@[i],
                    all[i],
                    placement,
                ),
        decreases answers@.len(),
    {
        let answer = answers.remove(0);
        assert(answer == all[results@.len() as int]);
        results.push(batch_result(answer, placement));
        assert(answers@ =~= all.skip(results@.len() as int));
    }
    results
}

/// How many items were appended that were not there before.
pub open spec fn success_count(items: Seq<Result<AppendResponse, GroupEngineError>>) -> nat
    decreases items.len(),
{
    if items.len() == 0 {
        0
    } else {
        success_count(items.drop_last()) + if items.last() is Ok
            && !items.last()->Ok_0.deduplicated {
            1nat
        } else {
            0nat
        }
    }
}

pub(crate) proof fn lemma_success_count(items: Seq<Result<AppendResponse, GroupEngineError>>)
    ensures
        success_count(items) <= items.len(),
    decreases items.len(),
{
    if items.len() > 0 {
        lemma_success_count(items.drop_last());
    }
}

/// How many items were appended that were not there before.
pub fn count_successes(items: &Vec<Result<AppendResponse, GroupEngineError>>) -> (r: u64)
    ensures
        r == success_count(items@),
        r == items@.filter(
            |item: Result<AppendResponse, GroupEngineError>|
                item matches Ok(response) && !response.deduplicated,
        ).len(),
        r > 0 <==> exists|i: int|
            0 <= i < items@.len() && (#[trigger] items@[i] matches Ok(response)
                && !response.deduplicated),
{
    proof {
        effect_laws::law_new_items_are_counted(items@);
    }
    let mut count: u64 = 0;
    let mut i: usize = 0;
    assert(items@.take(0) =~= Seq::empty());
    while i < items.len()
        invariant
            i <= items@.len(),
            count <= i,
            count == success_count(items@.take(i as int)),
        decreases items@.len() - i,
    {
        assert(items@.take(i + 1).drop_last() =~= items@.take(i as int));
        assert(items@.take(i + 1).last() == items@[i as int]);
        if let Ok(response) = &items[i] {
            if !response.deduplicated {
                count = count + 1;
            }
        }
        i = i + 1;
    }
    assert(items@.take(i as int) =~= items@);
    count
}

/// Whether the items are an engine's items, with the place added to each error.
pub open spec fn are_placed_items(
    items: Seq<Result<AppendResponse, RuntimeError>>,
    engine_items: Seq<Result<AppendResponse, GroupEngineError>>,
    placement: ShardPlacement,
) -> bool {
    &&& items.len() == engine_items.len()
    &&& forall|i: int|
        0 <= i < items.len() ==> #[trigger] items[i] == match engine_items[i] {
            Ok(response) => Ok::<AppendResponse, RuntimeError>(response),
            Err(error) => Err::<AppendResponse, RuntimeError>(
                RuntimeError::GroupEngine {
                    core_id: placement.core_id,
                    raft_group_id: placement.raft_group_id,
                    error,
                },
            ),
        }
}

fn place_items(items: Vec<Result<AppendResponse, GroupEngineError>>, placement: ShardPlacement) -> (r:
    Vec<Result<AppendResponse, RuntimeError>>)
    ensures
        are_placed_items(r@, items@, placement),
{
    let ghost all = items@;
    let mut rest = items;
    let mut placed: Vec<Result<AppendResponse, RuntimeError>> = Vec::new();
    while rest.len() > 0
        invariant
            placed@.len() + rest@.len() == all.len(),
            rest@ == all.skip(placed@.len() as int),
            are_placed_items(placed@, all.take(placed@.len() as int), placement),
        decreases rest@.len(),
    {
        let item = rest.remove(0);
        assert(item == all[placed@.len() as int]);
        placed.push(
            match item {
                Ok(response) => Ok(response),
                Err(error) => Err(RuntimeError::group_engine(placement, error)),
            },
        );
        assert(rest@ =~= all.skip(placed@.len() as int));
    }
    assert(all.take(placed@.len() as int) =~= all);
    placed
}

/// Whether an error says that a write was held back for its hot bytes.
pub open spec fn is_cold_backpressure(error: RuntimeError) -> bool {
    error matches RuntimeError::GroupEngine { error: GroupEngineError::Infra(error), .. }
        && error is ColdBackpressure
}

/// Finishes a batch: counts what it has appended, or that it was held back, and
/// says what to answer and whether to wake those who wait.
pub fn finish_append_batch<T>(
    metrics: &mut RuntimeMetricsInner,
    placement: ShardPlacement,
    admission: ColdWriteAdmission,
    pending: PendingAppendBatch<T>,
    result: Result<GroupAppendBatchResponse, RuntimeError>,
    elapsed_ns: u64,
) -> (r: FinishedAppendBatch<T>)
    requires
        old(metrics).wf(),
        placement.core_id.0 < old(metrics).core_count(),
        placement.raft_group_id.0 < old(metrics).group_count(),
    ensures
        final(metrics).wf(),
        r.stream_id == pending.stream_id,
        r.response == pending.response,
        r.raft_uncommitted == pending.raft_uncommitted,
        match result {
            Ok(response) => {
                let count = success_count(response.items@);
                &&& r.result is Ok
                &&& r.result->Ok_0.placement == placement
                &&& are_placed_items(r.result->Ok_0.items@, response.items@, placement)
                &&& r.notify == (count > 0)
                &&& count == 0 ==> *final(metrics) == *old(metrics)
                &&& count > 0 ==> {
                    &&& final(metrics).per_core_appends@ == old(metrics).per_core_appends@.update(
                        placement.core_id.0 as int,
                        admission::wrapping_sum(
                            old(metrics).per_core_appends@[placement.core_id.0 as int],
                            count as u64,
                        ),
                    )
                    &&& final(metrics).per_group_appends@ == old(metrics).per_group_appends@.update(
                        placement.raft_group_id.0 as int,
                        admission::wrapping_sum(
                            old(metrics).per_group_appends@[placement.raft_group_id.0 as int],
                            count as u64,
                        ),
                    )
                    &&& final(metrics).per_core_applied_mutations@ == old(
                        metrics
                    ).per_core_applied_mutations@.update(
                        placement.core_id.0 as int,
                        admission::wrapping_sum(
                            old(metrics).per_core_applied_mutations@[placement.core_id.0 as int],
                            count as u64,
                        ),
                    )
                    &&& final(metrics).per_group_applied_mutations@ == old(
                        metrics
                    ).per_group_applied_mutations@.update(
                        placement.raft_group_id.0 as int,
                        admission::wrapping_sum(
                            old(metrics).per_group_applied_mutations@[placement.raft_group_id.0 as int],
                            count as u64,
                        ),
                    )
                    &&& final(metrics).per_core_mutation_apply_ns@ == old(
                        metrics
                    ).per_core_mutation_apply_ns@.update(
                        placement.core_id.0 as int,
                        admission::wrapping_sum(
                            old(metrics).per_core_mutation_apply_ns@[placement.core_id.0 as int],
                            elapsed_ns,
                        ),
                    )
                    &&& final(metrics).per_group_mutation_apply_ns@ == old(
                        metrics
                    ).per_group_mutation_apply_ns@.update(
                        placement.raft_group_id.0 as int,
                        admission::wrapping_sum(
                            old(metrics).per_group_mutation_apply_ns@[placement.raft_group_id.0 as int],
                            elapsed_ns,
                        ),
                    )
                    &&& *final(metrics) == (RuntimeMetricsInner {
                        per_core_appends: final(metrics).per_core_appends,
                        per_group_appends: final(metrics).per_group_appends,
                        per_core_applied_mutations: final(metrics).per_core_applied_mutations,
                        per_group_applied_mutations: final(metrics).per_group_applied_mutations,
                        per_core_mutation_apply_ns: final(metrics).per_core_mutation_apply_ns,
                        per_group_mutation_apply_ns: final(metrics).per_group_mutation_apply_ns,
                        ..*old(metrics)
                    })
                }
            },
            Err(error) => {
                &&& r.result == Err::<AppendBatchResponse, RuntimeError>(error)
                &&& !r.notify
                &&& if admission.max_hot_bytes_per_group is Some && is_cold_backpressure(error) {
                    &&& final(metrics).per_core_cold_backpressure_events@ == old(
                        metrics
                    ).per_core_cold_backpressure_events@.update(
                        placement.core_id.0 as int,
                        admission::wrapping_sum(
                            old(metrics).per_core_cold_backpressure_events@[placement.core_id.0 as int],
                            1,
                        ),
                    )
                    &&& final(metrics).per_group_cold_backpressure_events@ == old(
                        metrics
                    ).per_group_cold_backpressure_events@.update(
                        placement.raft_group_id.0 as int,
                        admission::wrapping_sum(
                            old(metrics).per_group_cold_backpressure_events@[placement.raft_group_id.0 as int],
                            1,
                        ),
                    )
                    &&& final(metrics).cold_backpressure_bytes@ == admission::wrapping_sum(
                        old(metrics).cold_backpressure_bytes@,
                        pending.incoming_bytes,
                    )
                    &&& *final(metrics) == (RuntimeMetricsInner {
                        per_core_cold_backpressure_events: final(
                            metrics
                        ).per_core_cold_backpressure_events,
                        per_group_cold_backpressure_events: final(
                            metrics
                        ).per_group_cold_backpressure_events,
                        cold_backpressure_bytes: final(metrics).cold_backpressure_bytes,
                        ..*old(metrics)
                    })
                } else {
                    *final(metrics) == *old(metrics)
                }
            },
        },
        r.result is Ok <==> result is Ok,
        r.notify <==> (result matches Ok(response) && exists|i: int|
            0 <= i < response.items@.len() && (#[trigger] response.items@[i] matches Ok(item)
                && !item.deduplicated)),
        result matches Ok(response) ==> {
            let items = r.result->Ok_0.items@;
            &&& items.len() == response.items@.len()
            &&& forall|i: int|
                0 <= i < items.len() ==> match response.items@[i] {
                    Ok(item) => (#[trigger] items[i]) matches Ok(given) && given == item,
                    Err(error) => items[i] matches Err(
                        RuntimeError::GroupEngine { core_id, raft_group_id, error: given },
                    ) && core_id == placement.core_id && raft_group_id == placement.raft_group_id
                        && given == error,
                }
        },
{
    match result {
        Ok(response) => {
            let count: u64 = count_successes(&response.items);
            if count > 0 {
                metrics.record_append_batch(placement.core_id, placement.raft_group_id, count);
                metrics.record_applied_mutation_batch(
                    placement.core_id,
                    placement.raft_group_id,
                    count,
                    elapsed_ns,
                );
            }
            FinishedAppendBatch {
                stream_id: pending.stream_id,
                response: pending.response,
                raft_uncommitted: pending.raft_uncommitted,
                result: Ok(
                    AppendBatchResponse {
                        placement,
                        items: place_items(response.items, placement),
                    },
                ),
                notify: count > 0,
            }
        },
        Err(error) => {
            let held_back = match &error {
                RuntimeError::GroupEngine { error, .. } => error.is_cold_backpressure(),
                _ => false,
            };
            if admission.is_enabled() && held_back {
                metrics.record_cold_backpressure(
                    placement.core_id,
                    placement.raft_group_id,
                    pending.incoming_bytes,
                );
            }
            FinishedAppendBatch {
                stream_id: pending.stream_id,
                response: pending.response,
                raft_uncommitted: pending.raft_uncommitted,
                result: Err(error),
                notify: false,
            }
        },
    }
}

} // verus!
