//! What follows from a write: what is counted, and who is woken.

use vstd::prelude::*;
use crate::admission;
use crate::engine::responses::GroupWriteResponse;
use crate::ids::ShardPlacement;
use crate::metrics::RuntimeMetricsInner;
use crate::worker::appends;
use crate::worker::appends::count_successes;

verus! {

/// What follows from a write.
#[derive(Debug, Clone, Copy, PartialEq, Eq, Structural)]
pub struct WriteEffects {
    /// How many appends are counted.
    pub appends: u64,
    /// How many changes are counted.
    pub mutations: u64,
    /// Whether to note how many bytes are hot now.
    pub notes_backlog: bool,
    /// Whether to wake those who wait for the stream.
    pub notifies: bool,
}

/// Nothing follows.
pub open spec fn no_effects() -> WriteEffects {
    WriteEffects { appends: 0, mutations: 0, notes_backlog: false, notifies: false }
}

/// What follows from a write. What was there before has no effect; a new stream
/// has nobody who waits for it, and closing a stream leaves its bytes as they are.
pub open spec fn effects_of(response: GroupWriteResponse) -> WriteEffects {
    match response {
        GroupWriteResponse::CreateStream(response) => if response.already_exists {
            no_effects()
        } else {
            WriteEffects { mutations: 1, notes_backlog: true, ..no_effects() }
        },
        GroupWriteResponse::Append(response) => if response.deduplicated {
            no_effects()
        } else {
            WriteEffects { appends: 1, mutations: 1, notes_backlog: true, notifies: true }
        },
        GroupWriteResponse::AppendBatch(response) => {
            let count = appends::success_count(response.items@) as u64;
            if count == 0 {
                no_effects()
            } else {
                WriteEffects {
                    appends: count,
                    mutations: count,
                    notes_backlog: false,
                    notifies: true,
                }
            }
        },
        GroupWriteResponse::PublishSnapshot(_) => WriteEffects {
            mutations: 1,
            notes_backlog: true,
            notifies: true,
            ..no_effects()
        },
        GroupWriteResponse::FlushCold(_) => WriteEffects {
            mutations: 1,
            notes_backlog: true,
            notifies: true,
            ..no_effects()
        },
        GroupWriteResponse::DeleteStream(_) => WriteEffects {
            mutations: 1,
            notes_backlog: true,
            notifies: true,
            ..no_effects()
        },
        GroupWriteResponse::CloseStream(response) => if response.deduplicated {
            no_effects()
        } else {
            WriteEffects { mutations: 1, notifies: true, ..no_effects() }
        },
        GroupWriteResponse::UpdateStreamAttrs(response) => if response.changed {
            WriteEffects { mutations: 1, ..no_effects() }
        } else {
            no_effects()
        },
        _ => no_effects(),
    }
}

/// What follows from a write.
pub fn write_effects(response: &GroupWriteResponse) -> (r: WriteEffects)
    ensures
        r == effects_of(*response),
{
    let nothing = WriteEffects {
        appends: 0,
        mutations: 0,
        notes_backlog: false,
        notifies: false,
    };
    match response {
        GroupWriteResponse::CreateStream(response) => {
            if response.already_exists {
                nothing
            } else {
                WriteEffects { appends: 0, mutations: 1, notes_backlog: true, notifies: false }
            }
        },
        GroupWriteResponse::Append(response) => {
            if response.deduplicated {
                nothing
            } else {
                WriteEffects { appends: 1, mutations: 1, notes_backlog: true, notifies: true }
            }
        },
        GroupWriteResponse::AppendBatch(response) => {
            let count: u64 = count_successes(&response.items);
            if count == 0 {
                nothing
            } else {
                WriteEffects {
                    appends: count,
                    mutations: count,
                    notes_backlog: false,
                    notifies: true,
                }
            }
        },
        GroupWriteResponse::PublishSnapshot(_) => WriteEffects {
            appends: 0,
            mutations: 1,
            notes_backlog: true,
            notifies: true,
        },
        GroupWriteResponse::FlushCold(_) => WriteEffects {
            appends: 0,
            mutations: 1,
            notes_backlog: true,
            notifies: true,
        },
        GroupWriteResponse::DeleteStream(_) => WriteEffects {
            appends: 0,
            mutations: 1,
            notes_backlog: true,
            notifies: true,
        },
        GroupWriteResponse::CloseStream(response) => {
            if response.deduplicated {
                nothing
            } else {
                WriteEffects { appends: 0, mutations: 1, notes_backlog: false, notifies: true }
            }
        },
        GroupWriteResponse::UpdateStreamAttrs(response) => {
            if response.changed {
                WriteEffects { appends: 0, mutations: 1, notes_backlog: false, notifies: false }
            } else {
                nothing
            }
        },
        _ => nothing,
    }
}

/// Counts what follows from a write.
pub fn record_write_effects(
    metrics: &mut RuntimeMetricsInner,
    placement: ShardPlacement,
    effects: WriteEffects,
    elapsed_ns: u64,
)
    requires
        old(metrics).wf(),
        placement.core_id.0 < old(metrics).core_count(),
        placement.raft_group_id.0 < old(metrics).group_count(),
    ensures
        final(metrics).wf(),
        final(metrics).per_core_appends@ == old(metrics).per_core_appends@.update(
            placement.core_id.0 as int,
            admission::wrapping_sum(
                old(metrics).per_core_appends@[placement.core_id.0 as int],
                effects.appends,
            ),
        ),
        final(metrics).per_group_appends@ == old(metrics).per_group_appends@.update(
            placement.raft_group_id.0 as int,
            admission::wrapping_sum(
                old(metrics).per_group_appends@[placement.raft_group_id.0 as int],
                effects.appends,
            ),
        ),
        final(metrics).per_core_applied_mutations@ == old(
            metrics
        ).per_core_applied_mutations@.update(
            placement.core_id.0 as int,
            admission::wrapping_sum(
                old(metrics).per_core_applied_mutations@[placement.core_id.0 as int],
                effects.mutations,
            ),
        ),
        final(metrics).per_group_applied_mutations@ == old(
            metrics
        ).per_group_applied_mutations@.update(
            placement.raft_group_id.0 as int,
            admission::wrapping_sum(
                old(metrics).per_group_applied_mutations@[placement.raft_group_id.0 as int],
                effects.mutations,
            ),
        ),
        final(metrics).per_core_mutation_apply_ns@ == old(
            metrics
        ).per_core_mutation_apply_ns@.update(
            placement.core_id.0 as int,
            admission::wrapping_sum(
                old(metrics).per_core_mutation_apply_ns@[placement.core_id.0 as int],
                if effects.mutations == 0 {
                    0
                } else {
                    elapsed_ns
                },
            ),
        ),
        final(metrics).per_group_mutation_apply_ns@ == old(
            metrics
        ).per_group_mutation_apply_ns@.update(
            placement.raft_group_id.0 as int,
            admission::wrapping_sum(
                old(metrics).per_group_mutation_apply_ns@[placement.raft_group_id.0 as int],
                if effects.mutations == 0 {
                    0
                } else {
                    elapsed_ns
                },
            ),
        ),
        *final(metrics) == (RuntimeMetricsInner {
            per_core_appends: final(metrics).per_core_appends,
            per_group_appends: final(metrics).per_group_appends,
            per_core_applied_mutations: final(metrics).per_core_applied_mutations,
            per_group_applied_mutations: final(metrics).per_group_applied_mutations,
            per_core_mutation_apply_ns: final(metrics).per_core_mutation_apply_ns,
            per_group_mutation_apply_ns: final(metrics).per_group_mutation_apply_ns,
            ..*old(metrics)
        }),
{
    let ghost core = placement.core_id.0 as int;
    let ghost group = placement.raft_group_id.0 as int;
    proof {
        assert(metrics.per_core_appends@.update(core, metrics.per_core_appends@[core])
            =~= metrics.per_core_appends@);
        assert(metrics.per_group_appends@.update(group, metrics.per_group_appends@[group])
            =~= metrics.per_group_appends@);
        assert(metrics.per_core_applied_mutations@.update(
            core,
            metrics.per_core_applied_mutations@[core],
        ) =~= metrics.per_core_applied_mutations@);
        assert(metrics.per_group_applied_mutations@.update(
            group,
            metrics.per_group_applied_mutations@[group],
        ) =~= metrics.per_group_applied_mutations@);
        assert(metrics.per_core_mutation_apply_ns@.update(
            core,
            metrics.per_core_mutation_apply_ns@[core],
        ) =~= metrics.per_core_mutation_apply_ns@);
        assert(metrics.per_group_mutation_apply_ns@.update(
            group,
            metrics.per_group_mutation_apply_ns@[group],
        ) =~= metrics.per_group_mutation_apply_ns@);
    }
    if effects.appends > 0 {
        metrics.record_append_batch(placement.core_id, placement.raft_group_id, effects.appends);
    }
    if effects.mutations > 0 {
        metrics.record_applied_mutation_batch(
            placement.core_id,
            placement.raft_group_id,
            effects.mutations,
            elapsed_ns,
        );
    }
}

} // verus!
