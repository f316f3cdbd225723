//! What a group does with a request, and what it makes of its engine's answer.

use std::collections::VecDeque;
use vstd::prelude::*;
use crate::admission;
use crate::admission::{give_back, RaftUncommittedBytesTracker, UncommittedBytesGuard};
use crate::engine::errors::GroupEngineError;
use crate::engine::responses::GroupWriteResponse;
use crate::error::RuntimeError;
use crate::ids::ShardPlacement;
use crate::metrics::counters;
use crate::metrics::RuntimeMetricsInner;
use crate::metrics::GROUP_ACTOR_MAX_WRITE_BATCH;
use crate::worker::effects;
use crate::worker::effects::{record_write_effects, write_effects, WriteEffects};
use crate::worker::requests;
use crate::worker::requests::{collect_append_batch_commands, Envelope, GroupRequest};
use crate::worker::watchers;
use crate::worker::watchers::{cancel_read_watcher, ReadWatcher, ReadWatchers};

verus! {

/// What a group does first with a request.
pub enum GroupStep<T> {
    /// Nothing more: the request is done with.
    Done,
    /// It answers with a plan in which there is nothing, without asking its engine.
    Nothing { plan: EmptyPlan, response: T },
    /// It asks its engine, and finishes the answer.
    Ask(Envelope<T>),
    /// It has its engine read for a reader, who may have to wait.
    Wait { watcher: ReadWatcher<T> },
    /// It has its engine append these batches together, with those that have come
    /// in the meantime.
    Collect { batch: Vec<Envelope<T>> },
    /// It shuts its engine down, answers, and ends.
    Shutdown { response: T },
}

/// A plan in which there is nothing.
#[derive(Debug, Clone, Copy, PartialEq, Eq, Structural)]
pub enum EmptyPlan {
    /// No garbage to take away.
    ColdGc,
    /// No candidates to flush.
    ColdFlush,
}

/// What a request asks, without its particulars.
#[derive(Debug, Clone, Copy, PartialEq, Eq, Structural)]
pub enum GroupOperation {
    /// Writes whose time is counted where they succeed, and which may be held back.
    HotWrite,
    /// Writes whose time is counted where they succeed.
    PlainWrite,
    /// Writes and reads whose time is counted in any case.
    Timed,
    /// What is not counted.
    Untimed,
}

/// What a request asks.
pub open spec fn operation(request: GroupRequest) -> GroupOperation {
    match request {
        GroupRequest::CreateStream { .. } => GroupOperation::HotWrite,
        GroupRequest::Append { .. } => GroupOperation::HotWrite,
        GroupRequest::CreateExternal { .. } => GroupOperation::PlainWrite,
        GroupRequest::AppendExternal { .. } => GroupOperation::PlainWrite,
        GroupRequest::UpdateStreamAttrs { .. } => GroupOperation::PlainWrite,
        GroupRequest::RequireLiveReadOwner => GroupOperation::Untimed,
        GroupRequest::PlanColdGc { .. } => GroupOperation::Untimed,
        GroupRequest::AckColdGc { .. } => GroupOperation::Untimed,
        GroupRequest::CancelWaitRead { .. } => GroupOperation::Untimed,
        GroupRequest::ShutdownEngine => GroupOperation::Untimed,
        _ => GroupOperation::Timed,
    }
}

impl GroupRequest {
    /// What the request asks.
    pub fn operation(&self) -> (r: GroupOperation)
        ensures
            r == operation(*self),
            r == GroupOperation::HotWrite <==> *self is CreateStream || *self is Append,
            r == GroupOperation::PlainWrite <==> *self is CreateExternal || *self is AppendExternal
                || *self is UpdateStreamAttrs,
            r == GroupOperation::Untimed <==> *self is RequireLiveReadOwner || *self is PlanColdGc
                || *self is AckColdGc || *self is CancelWaitRead || *self is ShutdownEngine,
    {
        match self {
            GroupRequest::CreateStream { .. } => GroupOperation::HotWrite,
            GroupRequest::Append { .. } => GroupOperation::HotWrite,
            GroupRequest::CreateExternal { .. } => GroupOperation::PlainWrite,
            GroupRequest::AppendExternal { .. } => GroupOperation::PlainWrite,
            GroupRequest::UpdateStreamAttrs { .. } => GroupOperation::PlainWrite,
            GroupRequest::RequireLiveReadOwner => GroupOperation::Untimed,
            GroupRequest::PlanColdGc { .. } => GroupOperation::Untimed,
            GroupRequest::AckColdGc { .. } => GroupOperation::Untimed,
            GroupRequest::CancelWaitRead { .. } => GroupOperation::Untimed,
            GroupRequest::ShutdownEngine => GroupOperation::Untimed,
            _ => GroupOperation::Timed,
        }
    }

    /// Whether only a group that takes writes has something to plan here.
    pub open spec fn plans_for_the_leader(self) -> bool {
        self is PlanColdGc || self is PlanNextColdFlushBatch
    }
}

/// Whether the time that an engine took is counted.
pub open spec fn is_timed(operation: GroupOperation, succeeded: bool) -> bool {
    match operation {
        GroupOperation::HotWrite => succeeded,
        GroupOperation::PlainWrite => succeeded,
        GroupOperation::Timed => true,
        GroupOperation::Untimed => false,
    }
}

/// Whether an error is counted as a write that was held back.
pub open spec fn is_held_back(operation: GroupOperation, error: GroupEngineError) -> bool {
    operation == GroupOperation::HotWrite && error is Infra && error->Infra_0 is ColdBackpressure
}

/// A row of counters with one of them raised.
pub open spec fn raised(row: Seq<u64>, index: int, by: u64) -> Seq<u64> {
    row.update(index, admission::wrapping_sum(row[index], by))
}

/// What a group does first with a request.
pub fn handle<T>(
    read_watchers: &mut ReadWatchers<T>,
    metrics: &mut RuntimeMetricsInner,
    placement: ShardPlacement,
    pending: &mut VecDeque<Envelope<T>>,
    envelope: Envelope<T>,
    accepts_local_writes: bool,
) -> (r: GroupStep<T>)
    requires
        old(read_watchers).wf(),
        old(metrics).wf(),
        placement.core_id.0 < old(metrics).core_count(),
    ensures
        final(read_watchers).wf(),
        final(metrics).wf(),
        match envelope.request {
            GroupRequest::CancelWaitRead { stream_id, waiter_id } => {
                &&& final(read_watchers)@ == watchers::cancelled(
                    old(read_watchers)@,
                    stream_id@,
                    waiter_id,
                )
                &&& final(metrics).per_core_live_read_waiters@ == old(
                    metrics
                ).per_core_live_read_waiters@.update(
                    placement.core_id.0 as int,
                    counters::wrapping_difference(
                        old(metrics).per_core_live_read_waiters@[placement.core_id.0 as int],
                        (old(read_watchers).total() - final(read_watchers).total()) as u64,
                    ),
                )
                &&& *final(metrics) == (RuntimeMetricsInner {
                    per_core_live_read_waiters: final(metrics).per_core_live_read_waiters,
                    ..*old(metrics)
                })
            },
            _ => *final(read_watchers) == *old(read_watchers) && *final(metrics) == *old(metrics),
        },
        match envelope.request {
            GroupRequest::CancelWaitRead { .. } => r is Done,
            GroupRequest::WaitRead { request, waiter_id } => r == GroupStep::Wait {
                watcher: ReadWatcher { waiter_id, request, response: envelope.response },
            },
            GroupRequest::AppendBatch { .. } => r is Collect && r->batch@ == seq![envelope] + old(
                pending
            )@.take(requests::leading_batches(old(pending)@, GROUP_ACTOR_MAX_WRITE_BATCH - 1)),
            GroupRequest::ShutdownEngine => r == GroupStep::Shutdown {
                response: envelope.response,
            },
            _ => if envelope.request.plans_for_the_leader() && !accepts_local_writes {
                r == GroupStep::Nothing {
                    plan: if envelope.request is PlanColdGc {
                        EmptyPlan::ColdGc
                    } else {
                        EmptyPlan::ColdFlush
                    },
                    response: envelope.response,
                }
            } else {
                r == GroupStep::Ask(envelope)
            },
        },
        final(pending)@ == if envelope.request is AppendBatch {
            old(pending)@.skip(
                requests::leading_batches(old(pending)@, GROUP_ACTOR_MAX_WRITE_BATCH - 1),
            )
        } else {
            old(pending)@
        },
{
    match envelope.request {
        GroupRequest::CancelWaitRead { stream_id, waiter_id } => {
            cancel_read_watcher(read_watchers, metrics, placement.core_id, &stream_id, waiter_id);
            GroupStep::Done
        },
        GroupRequest::WaitRead { request, waiter_id } => GroupStep::Wait {
            watcher: ReadWatcher { waiter_id, request, response: envelope.response },
        },
        GroupRequest::AppendBatch { request } => {
            let first = Envelope {
                request: GroupRequest::AppendBatch { request },
                response: envelope.response,
                raft_uncommitted: envelope.raft_uncommitted,
            };
            let mut batch: Vec<Envelope<T>> = Vec::new();
            batch.push(first);
            assert(batch@ =~= seq![envelope]);
            collect_append_batch_commands(pending, &mut batch);
            GroupStep::Collect { batch }
        },
        GroupRequest::ShutdownEngine => GroupStep::Shutdown { response: envelope.response },
        GroupRequest::PlanColdGc { max } => {
            if accepts_local_writes {
                GroupStep::Ask(
                    Envelope {
                        request: GroupRequest::PlanColdGc { max },
                        response: envelope.response,
                        raft_uncommitted: envelope.raft_uncommitted,
                    },
                )
            } else {
                GroupStep::Nothing { plan: EmptyPlan::ColdGc, response: envelope.response }
            }
        },
        GroupRequest::PlanNextColdFlushBatch { request, max_candidates } => {
            if accepts_local_writes {
                GroupStep::Ask(
                    Envelope {
                        request: GroupRequest::PlanNextColdFlushBatch { request, max_candidates },
                        response: envelope.response,
                        raft_uncommitted: envelope.raft_uncommitted,
                    },
                )
            } else {
                GroupStep::Nothing { plan: EmptyPlan::ColdFlush, response: envelope.response }
            }
        },
        request => GroupStep::Ask(
            Envelope {
                request,
                response: envelope.response,
                raft_uncommitted: envelope.raft_uncommitted,
            },
        ),
    }
}

/// An engine's answer, with its place added to an error.
pub open spec fn placed_answer<R>(
    answer: Result<R, GroupEngineError>,
    placement: ShardPlacement,
) -> Result<R, RuntimeError> {
    match answer {
        Ok(response) => Ok(response),
        Err(error) => Err(
            RuntimeError::GroupEngine {
                core_id: placement.core_id,
                raft_group_id: placement.raft_group_id,
                error,
            },
        ),
    }
}

/// Finishes an engine's answer: counts the time that it took, and a write that was
/// held back, and says whose error an error is.
pub fn finish<R>(
    metrics: &mut RuntimeMetricsInner,
    placement: ShardPlacement,
    operation: GroupOperation,
    incoming_bytes: u64,
    answer: Result<R, GroupEngineError>,
    exec_ns: u64,
) -> (r: Result<R, RuntimeError>)
    requires
        old(metrics).wf(),
        placement.core_id.0 < old(metrics).core_count(),
        placement.raft_group_id.0 < old(metrics).group_count(),
    ensures
        final(metrics).wf(),
        r == placed_answer(answer, placement),
        match answer {
            Ok(response) => r is Ok && r->Ok_0 == response,
            Err(error) => r matches Err(
                RuntimeError::GroupEngine { core_id, raft_group_id, error: given },
            ) && core_id == placement.core_id && raft_group_id == placement.raft_group_id && given
                == error,
        },
        is_counted(*old(metrics), *final(metrics), placement, operation, incoming_bytes, answer, exec_ns),
        *final(metrics) == (RuntimeMetricsInner {
            per_core_group_engine_exec_ns: final(metrics).per_core_group_engine_exec_ns,
            per_group_group_engine_exec_ns: final(metrics).per_group_group_engine_exec_ns,
            per_core_cold_backpressure_events: final(metrics).per_core_cold_backpressure_events,
            per_group_cold_backpressure_events: final(metrics).per_group_cold_backpressure_events,
            cold_backpressure_bytes: final(metrics).cold_backpressure_bytes,
            ..*old(metrics)
        }),
{
    let ghost core = placement.core_id.0 as int;
    let ghost group = placement.raft_group_id.0 as int;
    proof {
        lemma_raised_by_nothing(metrics.per_core_group_engine_exec_ns@, core);
        lemma_raised_by_nothing(metrics.per_group_group_engine_exec_ns@, group);
        lemma_raised_by_nothing(metrics.per_core_cold_backpressure_events@, core);
        lemma_raised_by_nothing(metrics.per_group_cold_backpressure_events@, group);
    }
    match answer {
        Ok(response) => {
            let timed = match operation {
                GroupOperation::Untimed => false,
                _ => true,
            };
            if timed {
                metrics.record_group_engine_exec(
                    placement.core_id,
                    placement.raft_group_id,
                    exec_ns,
                );
            }
            Ok(response)
        },
        Err(error) => {
            match operation {
                GroupOperation::Timed => {
                    metrics.record_group_engine_exec(
                        placement.core_id,
                        placement.raft_group_id,
                        exec_ns,
                    );
                },
                GroupOperation::HotWrite => {
                    if error.is_cold_backpressure() {
                        metrics.record_cold_backpressure(
                            placement.core_id,
                            placement.raft_group_id,
                            incoming_bytes,
                        );
                    }
                },
                _ => {},
            }
            Err(RuntimeError::group_engine(placement, error))
        },
    }
}

/// How an engine's answer is counted.
pub open spec fn is_counted<R>(
    before: RuntimeMetricsInner,
    after: RuntimeMetricsInner,
    placement: ShardPlacement,
    operation: GroupOperation,
    incoming_bytes: u64,
    answer: Result<R, GroupEngineError>,
    exec_ns: u64,
) -> bool {
    let core = placement.core_id.0 as int;
    let group = placement.raft_group_id.0 as int;
    let time = if is_timed(operation, answer is Ok) {
        exec_ns
    } else {
        0
    };
    let held_back = answer is Err && is_held_back(operation, answer->Err_0);
    let events: u64 = if held_back {
        1
    } else {
        0
    };
    let bytes = if held_back {
        incoming_bytes
    } else {
        0
    };
    &&& after.per_core_group_engine_exec_ns@ == raised(
        before.per_core_group_engine_exec_ns@,
        core,
        time,
    )
    &&& after.per_group_group_engine_exec_ns@ == raised(
        before.per_group_group_engine_exec_ns@,
        group,
        time,
    )
    &&& after.per_core_cold_backpressure_events@ == raised(
        before.per_core_cold_backpressure_events@,
        core,
        events,
    )
    &&& after.per_group_cold_backpressure_events@ == raised(
        before.per_group_cold_backpressure_events@,
        group,
        events,
    )
    &&& after.cold_backpressure_bytes@ == admission::wrapping_sum(
        before.cold_backpressure_bytes@,
        bytes,
    )
}

proof fn lemma_raised_by_nothing(row: Seq<u64>, index: int)
    requires
        0 <= index < row.len(),
    ensures
        raised(row, index, 0) == row,
{
    assert(raised(row, index, 0) =~= row);
}

/// What comes of a write: the answer, and what follows from it.
#[derive(Debug, PartialEq, Eq)]
pub struct FinishedWrite {
    pub result: Result<GroupWriteResponse, RuntimeError>,
    pub effects: WriteEffects,
}

/// What follows from a write that was answered.
pub open spec fn effects_of_answer(
    answer: Result<GroupWriteResponse, GroupEngineError>,
) -> WriteEffects {
    match answer {
        Ok(response) => effects::effects_of(response),
        Err(_) => effects::no_effects(),
    }
}

/// How what follows from a write is counted. No counters change but these and those
/// of its answer.
pub open spec fn is_write_counted(
    before: RuntimeMetricsInner,
    after: RuntimeMetricsInner,
    placement: ShardPlacement,
    effects: WriteEffects,
    elapsed_ns: u64,
) -> bool {
    let core = placement.core_id.0 as int;
    let group = placement.raft_group_id.0 as int;
    let time = if effects.mutations == 0 {
        0
    } else {
        elapsed_ns
    };
    &&& after.per_core_appends@ == raised(before.per_core_appends@, core, effects.appends)
    &&& after.per_group_appends@ == raised(before.per_group_appends@, group, effects.appends)
    &&& after.per_core_applied_mutations@ == raised(
        before.per_core_applied_mutations@,
        core,
        effects.mutations,
    )
    &&& after.per_group_applied_mutations@ == raised(
        before.per_group_applied_mutations@,
        group,
        effects.mutations,
    )
    &&& after.per_core_mutation_apply_ns@ == raised(
        before.per_core_mutation_apply_ns@,
        core,
        time,
    )
    &&& after.per_group_mutation_apply_ns@ == raised(
        before.per_group_mutation_apply_ns@,
        group,
        time,
    )
    &&& after == (RuntimeMetricsInner {
        per_core_group_engine_exec_ns: after.per_core_group_engine_exec_ns,
        per_group_group_engine_exec_ns: after.per_group_group_engine_exec_ns,
        per_core_cold_backpressure_events: after.per_core_cold_backpressure_events,
        per_group_cold_backpressure_events: after.per_group_cold_backpressure_events,
        cold_backpressure_bytes: after.cold_backpressure_bytes,
        per_core_appends: after.per_core_appends,
        per_group_appends: after.per_group_appends,
        per_core_applied_mutations: after.per_core_applied_mutations,
        per_group_applied_mutations: after.per_group_applied_mutations,
        per_core_mutation_apply_ns: after.per_core_mutation_apply_ns,
        per_group_mutation_apply_ns: after.per_group_mutation_apply_ns,
        ..before
    })
}

/// Finishes an engine's answer to a write: counts it, and says what follows from
/// it. From a write that was refused nothing follows.
pub fn finish_write(
    metrics: &mut RuntimeMetricsInner,
    placement: ShardPlacement,
    operation: GroupOperation,
    incoming_bytes: u64,
    answer: Result<GroupWriteResponse, GroupEngineError>,
    exec_ns: u64,
    elapsed_ns: u64,
) -> (r: FinishedWrite)
    requires
        old(metrics).wf(),
        placement.core_id.0 < old(metrics).core_count(),
        placement.raft_group_id.0 < old(metrics).group_count(),
    ensures
        final(metrics).wf(),
        r.effects == effects_of_answer(answer),
        r.result == placed_answer(answer, placement),
        is_counted(*old(metrics), *final(metrics), placement, operation, incoming_bytes, answer, exec_ns),
        is_write_counted(
            *old(metrics),
            *final(metrics),
            placement,
            effects_of_answer(answer),
            elapsed_ns,
        ),
{
    let effects = match &answer {
        Ok(response) => write_effects(response),
        Err(_) => WriteEffects { appends: 0, mutations: 0, notes_backlog: false, notifies: false },
    };
    let result = finish(metrics, placement, operation, incoming_bytes, answer, exec_ns);
    record_write_effects(metrics, placement, effects, elapsed_ns);
    FinishedWrite { result, effects }
}

/// Finishes an engine's answer to a request: what `finish` does, and gives back the
/// bytes that were counted for the request, whatever the answer is. Only then is the
/// answer handed out, with the way to give it.
pub fn finish_guarded<R, T>(
    metrics: &mut RuntimeMetricsInner,
    tracker: &mut RaftUncommittedBytesTracker,
    placement: ShardPlacement,
    operation: GroupOperation,
    incoming_bytes: u64,
    raft_uncommitted: Option<UncommittedBytesGuard>,
    response: T,
    answer: Result<R, GroupEngineError>,
    exec_ns: u64,
) -> (r: (T, Result<R, RuntimeError>))
    requires
        old(metrics).wf(),
        placement.core_id.0 < old(metrics).core_count(),
        placement.raft_group_id.0 < old(metrics).group_count(),
        admission::is_of_counted_group(old(tracker)@, raft_uncommitted),
    ensures
        final(metrics).wf(),
        r.0 == response,
        r.1 == placed_answer(answer, placement),
        final(tracker)@ == admission::given_back(old(tracker)@, raft_uncommitted),
        is_counted(*old(metrics), *final(metrics), placement, operation, incoming_bytes, answer, exec_ns),
        *final(metrics) == (RuntimeMetricsInner {
            per_core_group_engine_exec_ns: final(metrics).per_core_group_engine_exec_ns,
            per_group_group_engine_exec_ns: final(metrics).per_group_group_engine_exec_ns,
            per_core_cold_backpressure_events: final(metrics).per_core_cold_backpressure_events,
            per_group_cold_backpressure_events: final(metrics).per_group_cold_backpressure_events,
            cold_backpressure_bytes: final(metrics).cold_backpressure_bytes,
            ..*old(metrics)
        }),
{
    let result = finish(metrics, placement, operation, incoming_bytes, answer, exec_ns);
    give_back(tracker, raft_uncommitted);
    (response, result)
}

/// Finishes an engine's answer to a write: what `finish_write` does, and gives back
/// the bytes that were counted for the write, whatever the answer is. Only then is
/// the answer handed out, with the way to give it.
pub fn finish_write_guarded<T>(
    metrics: &mut RuntimeMetricsInner,
    tracker: &mut RaftUncommittedBytesTracker,
    placement: ShardPlacement,
    operation: GroupOperation,
    incoming_bytes: u64,
    raft_uncommitted: Option<UncommittedBytesGuard>,
    response: T,
    answer: Result<GroupWriteResponse, GroupEngineError>,
    exec_ns: u64,
    elapsed_ns: u64,
) -> (r: (T, FinishedWrite))
    requires
        old(metrics).wf(),
        placement.core_id.0 < old(metrics).core_count(),
        placement.raft_group_id.0 < old(metrics).group_count(),
        admission::is_of_counted_group(old(tracker)@, raft_uncommitted),
    ensures
        final(metrics).wf(),
        r.0 == response,
        r.1.effects == effects_of_answer(answer),
        r.1.result == placed_answer(answer, placement),
        final(tracker)@ == admission::given_back(old(tracker)@, raft_uncommitted),
        is_counted(*old(metrics), *final(metrics), placement, operation, incoming_bytes, answer, exec_ns),
        is_write_counted(
            *old(metrics),
            *final(metrics),
            placement,
            effects_of_answer(answer),
            elapsed_ns,
        ),
{
    let finished = finish_write(
        metrics,
        placement,
        operation,
        incoming_bytes,
        answer,
        exec_ns,
        elapsed_ns,
    );
    give_back(tracker, raft_uncommitted);
    (response, finished)
}

/// The time that an engine took is added to that of its core and of its group, but for
/// what is not timed, and for a plain or hot write that has failed. A hot write that was
/// held back is one event more, and its bytes are added to those held back; nothing else
/// is.
pub proof fn law_time_and_held_back_writes_are_counted<R>(
    before: RuntimeMetricsInner,
    after: RuntimeMetricsInner,
    placement: ShardPlacement,
    operation: GroupOperation,
    incoming_bytes: u64,
    answer: Result<R, GroupEngineError>,
    exec_ns: u64,
)
    requires
        before.wf(),
        placement.core_id.0 < before.core_count(),
        placement.raft_group_id.0 < before.group_count(),
        is_counted(before, after, placement, operation, incoming_bytes, answer, exec_ns),
    ensures
        ({
            let core = placement.core_id.0 as int;
            let group = placement.raft_group_id.0 as int;
            let end = 0x1_0000_0000_0000_0000int;
            let time: int = match operation {
                GroupOperation::Untimed => 0,
                GroupOperation::Timed => exec_ns as int,
                _ => if answer is Ok {
                    exec_ns as int
                } else {
                    0
                },
            };
            let is_held_back = operation == GroupOperation::HotWrite && (answer matches Err(
                GroupEngineError::Infra(
                    crate::engine::errors::GroupInfraError::ColdBackpressure { .. },
                ),
            ));
            let events: int = if is_held_back {
                1
            } else {
                0
            };
            let bytes: int = if is_held_back {
                incoming_bytes as int
            } else {
                0
            };
            &&& after.per_core_group_engine_exec_ns@[core] == (
            before.per_core_group_engine_exec_ns@[core] + time) % end
            &&& after.per_group_group_engine_exec_ns@[group] == (
            before.per_group_group_engine_exec_ns@[group] + time) % end
            &&& after.per_core_cold_backpressure_events@[core] == (
            before.per_core_cold_backpressure_events@[core] + events) % end
            &&& after.per_group_cold_backpressure_events@[group] == (
            before.per_group_cold_backpressure_events@[group] + events) % end
            &&& after.cold_backpressure_bytes@ == (before.cold_backpressure_bytes@ + bytes) % end
        }),
{
}

/// A write that has failed has no effects; one that was answered has those of its answer.
pub proof fn law_failed_write_has_no_effects(answer: Result<GroupWriteResponse, GroupEngineError>)
    ensures
        answer is Err ==> {
            let effects = effects_of_answer(answer);
            effects.appends == 0 && effects.mutations == 0 && !effects.notes_backlog
                && !effects.notifies
        },
        answer matches Ok(response) ==> effects_of_answer(answer) == effects::effects_of(response),
{
}

} // verus!
