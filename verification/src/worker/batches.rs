//! Finishing several batches of appends that went to an engine together.

use vstd::prelude::*;
use crate::admission;
use crate::engine::errors::GroupEngineError;
use crate::engine::responses;
use crate::engine::responses::GroupWriteResponse;
use crate::error;
use crate::error::RuntimeError;
use crate::ids::ShardPlacement;
use crate::metrics::RuntimeMetricsInner;
use crate::request::ColdWriteAdmission;
use crate::worker::appends;
use crate::worker::appends::{
    align_responses, finish_append_batch, FinishedAppendBatch, PendingAppendBatch,
};

verus! {

/// What an engine has answered to several batches: to each, or an error for all.
pub type BatchAnswers = Result<Vec<Result<GroupWriteResponse, GroupEngineError>>, RuntimeError>;

/// Whether a batch is finished as the engine's answers have it.
pub open spec fn is_finished<T>(
    finished: FinishedAppendBatch<T>,
    pending: PendingAppendBatch<T>,
    answers: BatchAnswers,
    count: int,
    i: int,
    placement: ShardPlacement,
) -> bool {
    &&& finished.stream_id == pending.stream_id
    &&& finished.response == pending.response
    &&& finished.raft_uncommitted == pending.raft_uncommitted
    &&& finished.notify == (appended_by(answers, count, i) > 0)
    &&& match answers {
        Err(error) => finished.result is Err && error::alike(finished.result->Err_0, error),
        Ok(answers) => if answers@.len() != count {
            finished.result is Err && appends::is_internal_at(
                finished.result->Err_0,
                placement,
                appends::miscount_text(answers@.len(), count as nat),
            )
        } else {
            match answers@[i] {
                Ok(GroupWriteResponse::AppendBatch(response)) => finished.result is Ok
                    && finished.result->Ok_0.placement == placement && appends::are_placed_items(
                    finished.result->Ok_0.items@,
                    response.items@,
                    placement,
                ),
                Ok(other) => finished.result is Err && appends::is_internal_at(
                    finished.result->Err_0,
                    placement,
                    "unexpected batched append response: "@ + responses::write_response_debug(other),
                ),
                Err(error) => finished.result is Err && finished.result->Err_0
                    == (RuntimeError::GroupEngine {
                    core_id: placement.core_id,
                    raft_group_id: placement.raft_group_id,
                    error,
                }),
            }
        },
    }
}

/// How many items a batch has appended.
pub open spec fn appended_by(answers: BatchAnswers, count: int, i: int) -> nat {
    match answers {
        Ok(answers) => if answers@.len() != count {
            0
        } else {
            match answers@[i] {
                Ok(GroupWriteResponse::AppendBatch(response)) => appends::success_count(
                    response.items@,
                ),
                _ => 0,
            }
        },
        Err(_) => 0,
    }
}

/// Whether a batch was held back for its hot bytes.
pub open spec fn is_held_back(
    admission: ColdWriteAdmission,
    answers: BatchAnswers,
    count: int,
    i: int,
) -> bool {
    admission.max_hot_bytes_per_group is Some && match answers {
        Ok(answers) => answers@.len() == count && answers@[i] is Err && answers@[i]->Err_0 is Infra
            && answers@[i]->Err_0->Infra_0 is ColdBackpressure,
        Err(error) => appends::is_cold_backpressure(error),
    }
}

/// What the first batches add to the counters.
pub struct BatchTotals {
    pub appends: nat,
    pub apply_ns: nat,
    pub events: nat,
    pub bytes: nat,
}

/// What the first `n` batches add to the counters.
pub open spec fn totals<T>(
    admission: ColdWriteAdmission,
    pending: Seq<PendingAppendBatch<T>>,
    answers: BatchAnswers,
    elapsed_ns: Seq<u64>,
    n: int,
) -> BatchTotals
    decreases n,
{
    if n <= 0 {
        BatchTotals { appends: 0, apply_ns: 0, events: 0, bytes: 0 }
    } else {
        let before = totals(admission, pending, answers, elapsed_ns, n - 1);
        let count = pending.len() as int;
        let appended = appended_by(answers, count, n - 1);
        let held_back = is_held_back(admission, answers, count, n - 1);
        BatchTotals {
            appends: before.appends + appended,
            apply_ns: before.apply_ns + if appended > 0 {
                elapsed_ns[n - 1] as nat
            } else {
                0nat
            },
            events: before.events + if held_back {
                1nat
            } else {
                0nat
            },
            bytes: before.bytes + if held_back {
                pending[n - 1].incoming_bytes as nat
            } else {
                0nat
            },
        }
    }
}

/// A counter after it was raised, as counters wrap.
pub open spec fn wrapped(count: u64, by: nat) -> u64 {
    ((count + by) % 0x1_0000_0000_0000_0000) as u64
}

/// A row of counters with one of them raised.
pub open spec fn raised(row: Seq<u64>, index: int, by: nat) -> Seq<u64> {
    row.update(index, wrapped(row[index], by))
}

/// Whether counters have been raised by these totals, and no others.
pub open spec fn is_totalled(
    before: RuntimeMetricsInner,
    after: RuntimeMetricsInner,
    placement: ShardPlacement,
    totals: BatchTotals,
) -> bool {
    let core = placement.core_id.0 as int;
    let group = placement.raft_group_id.0 as int;
    &&& after.per_core_appends@ == raised(before.per_core_appends@, core, totals.appends)
    &&& after.per_group_appends@ == raised(before.per_group_appends@, group, totals.appends)
    &&& after.per_core_applied_mutations@ == raised(
        before.per_core_applied_mutations@,
        core,
        totals.appends,
    )
    &&& after.per_group_applied_mutations@ == raised(
        before.per_group_applied_mutations@,
        group,
        totals.appends,
    )
    &&& after.per_core_mutation_apply_ns@ == raised(
        before.per_core_mutation_apply_ns@,
        core,
        totals.apply_ns,
    )
    &&& after.per_group_mutation_apply_ns@ == raised(
        before.per_group_mutation_apply_ns@,
        group,
        totals.apply_ns,
    )
    &&& after.per_core_cold_backpressure_events@ == raised(
        before.per_core_cold_backpressure_events@,
        core,
        totals.events,
    )
    &&& after.per_group_cold_backpressure_events@ == raised(
        before.per_group_cold_backpressure_events@,
        group,
        totals.events,
    )
    &&& after.cold_backpressure_bytes@ == wrapped(before.cold_backpressure_bytes@, totals.bytes)
    &&& after == (RuntimeMetricsInner {
        per_core_appends: after.per_core_appends,
        per_group_appends: after.per_group_appends,
        per_core_applied_mutations: after.per_core_applied_mutations,
        per_group_applied_mutations: after.per_group_applied_mutations,
        per_core_mutation_apply_ns: after.per_core_mutation_apply_ns,
        per_group_mutation_apply_ns: after.per_group_mutation_apply_ns,
        per_core_cold_backpressure_events: after.per_core_cold_backpressure_events,
        per_group_cold_backpressure_events: after.per_group_cold_backpressure_events,
        cold_backpressure_bytes: after.cold_backpressure_bytes,
        ..before
    })
}

proof fn lemma_wrapped(count: u64, first: nat, second: u64)
    ensures
        wrapped(count, 0) == count,
        admission::wrapping_sum(wrapped(count, first), second) == wrapped(count, first + second as nat),
{
}

proof fn lemma_raised(row: Seq<u64>, index: int, first: nat, second: u64)
    requires
        0 <= index < row.len(),
    ensures
        raised(row, index, 0) == row,
        raised(row, index, first).update(
            index,
            admission::wrapping_sum(raised(row, index, first)[index], second),
        ) == raised(row, index, first + second as nat),
{
    lemma_wrapped(row[index], first, second);
    assert(raised(row, index, 0) =~= row);
    assert(raised(row, index, first).update(
        index,
        admission::wrapping_sum(raised(row, index, first)[index], second),
    ) =~= raised(row, index, first + second as nat));
}

/// Finishes the batches that went to an engine together, one after the other:
/// counts what each has appended, or that it was held back, and says what to answer
/// for it and whether to wake those who wait.
pub fn finish_append_batch_commands<T>(
    metrics: &mut RuntimeMetricsInner,
    placement: ShardPlacement,
    admission: ColdWriteAdmission,
    pending: Vec<PendingAppendBatch<T>>,
    answers: BatchAnswers,
    elapsed_ns: &Vec<u64>,
) -> (r: Vec<FinishedAppendBatch<T>>)
    requires
        old(metrics).wf(),
        placement.core_id.0 < old(metrics).core_count(),
        placement.raft_group_id.0 < old(metrics).group_count(),
        elapsed_ns@.len() == pending@.len(),
    ensures
        final(metrics).wf(),
        r@.len() == pending@.len(),
        forall|i: int|
            0 <= i < r@.len() ==> is_finished(
                #[trigger] r@[i],
                pending@[i],
                answers,
                pending@.len() as int,
                i,
                placement,
            ),
        forall|i: int|
            0 <= i < r@.len() ==> {
                &&& (#[trigger] r@[i]).stream_id == pending@[i].stream_id
                &&& r@[i].response == pending@[i].response
                &&& r@[i].raft_uncommitted == pending@[i].raft_uncommitted
                &&& answers is Err || answers->Ok_0@.len() != pending@.len() ==> r@[i].result is Err
                    && !r@[i].notify
                &&& answers is Ok && answers->Ok_0@.len() == pending@.len()
                    && answers->Ok_0@[i] is Err ==> r@[i].result is Err && !r@[i].notify
                &&& answers is Ok && answers->Ok_0@.len() == pending@.len()
                    && (answers->Ok_0@[i] matches Ok(GroupWriteResponse::AppendBatch(_)))
                    ==> r@[i].result is Ok
            },
        is_totalled(
            *old(metrics),
            *final(metrics),
            placement,
            totals(admission, pending@, answers, elapsed_ns@, pending@.len() as int),
        ),
{
    let ghost all = pending@;
    let ghost count = pending@.len() as int;
    let ghost core = placement.core_id.0 as int;
    let ghost group = placement.raft_group_id.0 as int;
    let ghost before = *metrics;
    let mut pending = pending;
    let mut results = align_responses(pending.len(), answers, placement);
    let ghost aligned = results@;
    let mut finished: Vec<FinishedAppendBatch<T>> = Vec::new();
    proof {
        lemma_rows(before, core, group, totals(admission, all, answers, elapsed_ns@, 0), 0, 0, 0, 0);
    }
    while pending.len() > 0
        invariant
            finished@.len() + pending@.len() == count,
            count == all.len(),
            pending@ == all.skip(finished@.len() as int),
            results@ == aligned.skip(finished@.len() as int),
            aligned.len() == count,
            elapsed_ns@.len() == count,
            before.wf(),
            metrics.wf(),
            core == placement.core_id.0,
            group == placement.raft_group_id.0,
            core < before.core_count(),
            group < before.group_count(),
            metrics.core_count() == before.core_count(),
            metrics.group_count() == before.group_count(),
            match answers {
                Err(error) => forall|i: int|
                    0 <= i < count ==> (#[trigger] aligned[i]) is Err && error::alike(
                        aligned[i]->Err_0,
                        error,
                    ),
                Ok(answers) => if answers@.len() != count {
                    forall|i: int|
                        0 <= i < count ==> (#[trigger] aligned[i]) is Err
                            && appends::is_internal_at(
                            aligned[i]->Err_0,
                            placement,
                            appends::miscount_text(answers@.len(), count as nat),
                        )
                } else {
                    forall|i: int|
                        0 <= i < count ==> appends::is_batch_result(
                            #[trigger] aligned[i],
                            answers@[i],
                            placement,
                        )
                },
            },
            forall|i: int|
                0 <= i < finished@.len() ==> is_finished(
                    #[trigger] finished@[i],
                    all[i],
                    answers,
                    count,
                    i,
                    placement,
                ),
            is_totalled(
                before,
                *metrics,
                placement,
                totals(admission, all, answers, elapsed_ns@, finished@.len() as int),
            ),
        decreases pending@.len(),
    {
        let ghost n = finished@.len() as int;
        let ghost sums = totals(admission, all, answers, elapsed_ns@, n);
        let next = pending.remove(0);
        let result = results.remove(0);
        let elapsed: u64 = elapsed_ns[finished.len()];
        proof {
            assert(next == all[n]);
            assert(result == aligned[n]);
            assert(pending@ =~= all.skip(n + 1));
            assert(results@ =~= aligned.skip(n + 1));
            let appended = appended_by(answers, count, n);
            lemma_appended_fits(answers, count, n);
            lemma_rows(
                before,
                core,
                group,
                sums,
                appended as u64,
                if appended > 0 {
                    elapsed
                } else {
                    0
                },
                if is_held_back(admission, answers, count, n) {
                    1
                } else {
                    0
                },
                if is_held_back(admission, answers, count, n) {
                    next.incoming_bytes
                } else {
                    0
                },
            );
        }
        let done = finish_append_batch(metrics, placement, admission, next, result, elapsed);
        finished.push(done);
    }
    finished
}

proof fn lemma_appended_fits(answers: BatchAnswers, count: int, i: int)
    ensures
        appended_by(answers, count, i) <= u64::MAX,
{
    if answers is Ok && answers->Ok_0@.len() == count {
        if let Ok(GroupWriteResponse::AppendBatch(response)) = answers->Ok_0@[i] {
            appends::lemma_success_count(response.items@);
            assert(response.items@.len() == response.items.len());
        }
    }
}

proof fn lemma_rows(
    before: RuntimeMetricsInner,
    core: int,
    group: int,
    sums: BatchTotals,
    appends: u64,
    apply_ns: u64,
    events: u64,
    bytes: u64,
)
    requires
        before.wf(),
        0 <= core < before.core_count(),
        0 <= group < before.group_count(),
    ensures
        adds_up(before.per_core_appends@, core, sums.appends, appends),
        adds_up(before.per_group_appends@, group, sums.appends, appends),
        adds_up(before.per_core_applied_mutations@, core, sums.appends, appends),
        adds_up(before.per_group_applied_mutations@, group, sums.appends, appends),
        adds_up(before.per_core_mutation_apply_ns@, core, sums.apply_ns, apply_ns),
        adds_up(before.per_group_mutation_apply_ns@, group, sums.apply_ns, apply_ns),
        adds_up(before.per_core_cold_backpressure_events@, core, sums.events, events),
        adds_up(before.per_group_cold_backpressure_events@, group, sums.events, events),
        wrapped(before.cold_backpressure_bytes@, 0) == before.cold_backpressure_bytes@,
        admission::wrapping_sum(wrapped(before.cold_backpressure_bytes@, sums.bytes), bytes)
            == wrapped(before.cold_backpressure_bytes@, sums.bytes + bytes as nat),
{
    lemma_raised(before.per_core_appends@, core, sums.appends, appends);
    lemma_raised(before.per_group_appends@, group, sums.appends, appends);
    lemma_raised(before.per_core_applied_mutations@, core, sums.appends, appends);
    lemma_raised(before.per_group_applied_mutations@, group, sums.appends, appends);
    lemma_raised(before.per_core_mutation_apply_ns@, core, sums.apply_ns, apply_ns);
    lemma_raised(before.per_group_mutation_apply_ns@, group, sums.apply_ns, apply_ns);
    lemma_raised(before.per_core_cold_backpressure_events@, core, sums.events, events);
    lemma_raised(before.per_group_cold_backpressure_events@, group, sums.events, events);
    lemma_wrapped(before.cold_backpressure_bytes@, sums.bytes, bytes);
}

/// Whether raising a counter by one amount and by another is raising it by both.
spec fn adds_up(row: Seq<u64>, index: int, first: nat, second: u64) -> bool {
    &&& raised(row, index, 0) == row
    &&& raised(row, index, first).update(
        index,
        admission::wrapping_sum(raised(row, index, first)[index], second),
    ) == raised(row, index, first + second as nat)
}

} // verus!
