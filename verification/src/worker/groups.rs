//! The groups of a core: which are there, and what they may take.

use vstd::prelude::*;
use crate::admission;
use crate::admission::{
    RaftUncommittedAdmission, RaftUncommittedBytesTracker, UncommittedBytesGuard,
};
use crate::engine::access;
use crate::engine::errors::{GroupEngineError, GroupInfraError};
use crate::error::RuntimeError;
use crate::ids::{RaftGroupId, ShardPlacement};
use crate::metrics::counters;
use crate::metrics::RuntimeMetricsInner;
use crate::worker::appends;
use crate::worker::requests::Envelope;

verus! {

/// How many groups of a core are made ready at once.
pub const WARM_GROUP_CONCURRENCY_PER_CORE: usize = 8;

/// Whether a group with so many unapplied bytes may take `incoming` more.
pub open spec fn takes(
    admission: RaftUncommittedAdmission,
    unapplied: u64,
    incoming: u64,
) -> bool {
    match admission.max_uncommitted_bytes_per_group {
        Some(limit) => access::bytes_after(unapplied, incoming as int) <= limit,
        None => true,
    }
}

/// The error that turns a write away.
pub open spec fn turned_away(
    placement: ShardPlacement,
    current: u64,
    incoming: u64,
    limit: u64,
) -> RuntimeError {
    RuntimeError::GroupEngine {
        core_id: placement.core_id,
        raft_group_id: placement.raft_group_id,
        error: GroupEngineError::Infra(
            GroupInfraError::RaftUncommittedBackpressure { current, incoming, limit },
        ),
    }
}

/// Turns a write away before it is queued, where its group has too many unapplied
/// bytes for it.
pub fn early_raft_uncommitted_backpressure(
    admission: RaftUncommittedAdmission,
    tracker: &RaftUncommittedBytesTracker,
    placement: ShardPlacement,
    incoming_bytes: u64,
) -> (r: Option<RuntimeError>)
    requires
        placement.raft_group_id.0 < tracker@.len(),
    ensures
        ({
            let current = tracker@[placement.raft_group_id.0 as int];
            if takes(admission, current, incoming_bytes) {
                r is None
            } else {
                r == Some(
                    turned_away(
                        placement,
                        current,
                        incoming_bytes,
                        admission.max_uncommitted_bytes_per_group->0,
                    ),
                )
            }
        }),
        r is None <==> match admission.max_uncommitted_bytes_per_group {
            Some(limit) => tracker@[placement.raft_group_id.0 as int] + incoming_bytes <= limit
                || limit == u64::MAX,
            None => true,
        },
        r matches Some(error) ==> (error matches RuntimeError::GroupEngine {
            core_id,
            raft_group_id,
            error: GroupEngineError::Infra(
                GroupInfraError::RaftUncommittedBackpressure { current, incoming, limit },
            ),
        } && {
            &&& core_id == placement.core_id
            &&& raft_group_id == placement.raft_group_id
            &&& current == tracker@[placement.raft_group_id.0 as int]
            &&& incoming == incoming_bytes
            &&& admission.max_uncommitted_bytes_per_group == Some(limit)
        }),
{
    let limit: u64 = match admission.max_uncommitted_bytes_per_group {
        Some(limit) => limit,
        None => {
            return None;
        },
    };
    let current: u64 = tracker.load(placement.raft_group_id);
    if current.saturating_add(incoming_bytes) <= limit {
        return None;
    }
    Some(
        RuntimeError::group_engine(
            placement,
            GroupEngineError::raft_uncommitted_backpressure(current, incoming_bytes, limit),
        ),
    )
}

/// Counts the bytes of a write as unapplied, where there is a limit to them.
pub fn acquire_raft_uncommitted_guard(
    admission: RaftUncommittedAdmission,
    tracker: &mut RaftUncommittedBytesTracker,
    placement: ShardPlacement,
    incoming_bytes: u64,
) -> (r: Option<UncommittedBytesGuard>)
    requires
        placement.raft_group_id.0 < old(tracker)@.len(),
    ensures
        if admission.max_uncommitted_bytes_per_group is Some {
            &&& final(tracker)@ == old(tracker)@.update(
                placement.raft_group_id.0 as int,
                admission::wrapping_sum(
                    old(tracker)@[placement.raft_group_id.0 as int],
                    incoming_bytes,
                ),
            )
            &&& r is Some
            &&& r->0.group() == placement.raft_group_id
            &&& r->0.bytes() == incoming_bytes
            &&& r->0.armed()
        } else {
            final(tracker)@ == old(tracker)@ && r is None
        },
{
    if !admission.is_enabled() {
        return None;
    }
    Some(UncommittedBytesGuard::new(tracker, placement.raft_group_id, incoming_bytes))
}

/// Lets a write to its group, and counts its bytes, or turns it away. A request
/// that brings no counted bytes is let through.
pub fn admit_command(
    admission: RaftUncommittedAdmission,
    tracker: &mut RaftUncommittedBytesTracker,
    placement: ShardPlacement,
    incoming: Option<u64>,
) -> (r: Result<Option<UncommittedBytesGuard>, RuntimeError>)
    requires
        placement.raft_group_id.0 < old(tracker)@.len(),
    ensures
        match incoming {
            None => final(tracker)@ == old(tracker)@ && r is Ok && r->Ok_0 is None,
            Some(incoming_bytes) => {
                let current = old(tracker)@[placement.raft_group_id.0 as int];
                if !takes(admission, current, incoming_bytes) {
                    final(tracker)@ == old(tracker)@ && r is Err && r->Err_0 == turned_away(
                        placement,
                        current,
                        incoming_bytes,
                        admission.max_uncommitted_bytes_per_group->0,
                    )
                } else if admission.max_uncommitted_bytes_per_group is Some {
                    &&& final(tracker)@ == old(tracker)@.update(
                        placement.raft_group_id.0 as int,
                        admission::wrapping_sum(current, incoming_bytes),
                    )
                    &&& r is Ok
                    &&& r->Ok_0 is Some
                    &&& r->Ok_0->0.group() == placement.raft_group_id
                    &&& r->Ok_0->0.bytes() == incoming_bytes
                    &&& r->Ok_0->0.armed()
                } else {
                    final(tracker)@ == old(tracker)@ && r is Ok && r->Ok_0 is None
                }
            },
        },
        r is Ok <==> match (incoming, admission.max_uncommitted_bytes_per_group) {
            (Some(bytes), Some(limit)) => old(tracker)@[placement.raft_group_id.0 as int] + bytes
                <= limit || limit == u64::MAX,
            _ => true,
        },
        r is Ok && incoming is Some && admission.max_uncommitted_bytes_per_group is Some && old(
            tracker,
        )@[placement.raft_group_id.0 as int] + incoming->0 <= u64::MAX ==> final(
            tracker
        )@[placement.raft_group_id.0 as int] == old(tracker)@[placement.raft_group_id.0 as int]
            + incoming->0,
        forall|group: int|
            0 <= group < old(tracker)@.len() && group != placement.raft_group_id.0
                ==> #[trigger] final(tracker)@[group] == old(tracker)@[group],
{
    match incoming {
        None => Ok(None),
        Some(incoming_bytes) => {
            match early_raft_uncommitted_backpressure(
                admission,
                tracker,
                placement,
                incoming_bytes,
            ) {
                Some(error) => Err(error),
                None => Ok(
                    acquire_raft_uncommitted_guard(admission, tracker, placement, incoming_bytes),
                ),
            }
        },
    }
}

/// A group whose writes are all let in this way never has more unapplied bytes
/// than its limit.
pub proof fn law_unapplied_bytes_stay_within_the_limit(
    admission: RaftUncommittedAdmission,
    unapplied: u64,
    incoming: u64,
)
    requires
        admission.max_uncommitted_bytes_per_group is Some,
        unapplied + incoming <= u64::MAX,
        takes(admission, unapplied, incoming),
    ensures
        admission::wrapping_sum(unapplied, incoming)
            <= admission.max_uncommitted_bytes_per_group->0,
{
}

/// What to do about a group that is needed: use it, or make it. One that the core
/// does not host is refused.
pub fn group_lookup(is_there: bool, is_hosted: bool, placement: ShardPlacement) -> (r: Result<
    bool,
    RuntimeError,
>)
    ensures
        r == if is_there {
            Ok::<bool, RuntimeError>(true)
        } else if is_hosted {
            Ok::<bool, RuntimeError>(false)
        } else {
            Err::<bool, RuntimeError>(
                RuntimeError::GroupNotHosted {
                    core_id: placement.core_id,
                    raft_group_id: placement.raft_group_id,
                },
            )
        },
{
    if is_there {
        return Ok(true);
    }
    if !is_hosted {
        return Err(
            RuntimeError::GroupNotHosted {
                core_id: placement.core_id,
                raft_group_id: placement.raft_group_id,
            },
        );
    }
    Ok(false)
}

/// Refuses an engine for a group that has one.
pub fn check_not_installed(is_there: bool, placement: ShardPlacement) -> (r: Result<
    (),
    RuntimeError,
>)
    ensures
        if is_there {
            r is Err && appends::is_internal_at(
                r->Err_0,
                placement,
                "group engine already installed"@,
            )
        } else {
            r is Ok
        },
{
    if is_there {
        Err(
            RuntimeError::group_engine(
                placement,
                GroupEngineError::new("group engine already installed"),
            ),
        )
    } else {
        Ok(())
    }
}

/// The places of groups that are not there yet.
pub open spec fn missing_groups(
    placements: Seq<ShardPlacement>,
    groups: Seq<RaftGroupId>,
) -> Seq<ShardPlacement>
    decreases placements.len(),
{
    if placements.len() == 0 {
        Seq::empty()
    } else {
        let before = missing_groups(placements.drop_last(), groups);
        if groups.contains(placements.last().raft_group_id) {
            before
        } else {
            before.push(placements.last())
        }
    }
}

/// The places of groups that are not there yet, in order.
pub fn groups_to_warm(placements: &Vec<ShardPlacement>, groups: &Vec<RaftGroupId>) -> (r: Vec<
    ShardPlacement,
>)
    ensures
        r@ == missing_groups(placements@, groups@),
        r@ == placements@.filter(
            |placement: ShardPlacement| !groups@.contains(placement.raft_group_id),
        ),
{
    proof {
        law_missing_groups_are_those_not_there(placements@, groups@);
    }
    let mut missing: Vec<ShardPlacement> = Vec::new();
    let mut i: usize = 0;
    assert(placements@.take(0) =~= Seq::empty());
    while i < placements.len()
        invariant
            i <= placements@.len(),
            missing@ == missing_groups(placements@.take(i as int), groups@),
        decreases placements@.len() - i,
    {
        let placement = placements[i];
        let mut there = false;
        let mut j: usize = 0;
        while j < groups.len()
            invariant
                j <= groups@.len(),
                there == (exists|k: int|
                    0 <= k < j && (#[trigger] groups@[k]) == placement.raft_group_id),
            decreases groups@.len() - j,
        {
            if groups[j] == placement.raft_group_id {
                assert(groups@[j as int] == placement.raft_group_id);
                there = true;
            }
            j = j + 1;
        }
        proof {
            assert(placements@.take(i + 1).drop_last() =~= placements@.take(i as int));
            assert(placements@.take(i + 1).last() == placement);
            if there {
                let k = choose|k: int|
                    0 <= k < j && (#[trigger] groups@[k]) == placement.raft_group_id;
                assert(groups@.contains(groups@[k]));
            } else if groups@.contains(placement.raft_group_id) {
                let k = choose|k: int|
                    0 <= k < groups@.len() && groups@[k] == placement.raft_group_id;
                assert(groups@[k] == placement.raft_group_id);
            }
        }
        if !there {
            missing.push(placement);
        }
        i = i + 1;
    }
    assert(placements@.take(i as int) =~= placements@);
    missing
}

/// How many requests wait in a mailbox of this size with this much room.
pub fn mailbox_depth(max_capacity: usize, capacity: usize) -> (r: usize)
    requires
        capacity <= max_capacity,
    ensures
        r == max_capacity - capacity,
{
    max_capacity - capacity
}

/// Counts a request that has to wait for room in its group's mailbox: it left the
/// mailbox that it did not come into, and comes again.
fn record_mailbox_retry(metrics: &mut RuntimeMetricsInner, group_id: RaftGroupId)
    requires
        old(metrics).wf(),
        group_id.0 < old(metrics).group_count(),
        0 < old(metrics).per_group_group_mailbox_depth@[group_id.0 as int] < u64::MAX,
    ensures
        final(metrics).wf(),
        final(metrics).per_group_group_mailbox_depth@ == old(
            metrics
        ).per_group_group_mailbox_depth@,
        final(metrics).per_group_group_mailbox_max_depth@ == old(
            metrics
        ).per_group_group_mailbox_max_depth@.update(
            group_id.0 as int,
            counters::larger(
                old(metrics).per_group_group_mailbox_max_depth@[group_id.0 as int],
                old(metrics).per_group_group_mailbox_depth@[group_id.0 as int],
            ),
        ),
        final(metrics).per_group_group_mailbox_full_events@ == old(
            metrics
        ).per_group_group_mailbox_full_events@.update(
            group_id.0 as int,
            admission::wrapping_sum(
                old(metrics).per_group_group_mailbox_full_events@[group_id.0 as int],
                1,
            ),
        ),
        *final(metrics) == (RuntimeMetricsInner {
            per_group_group_mailbox_depth: final(metrics).per_group_group_mailbox_depth,
            per_group_group_mailbox_max_depth: final(metrics).per_group_group_mailbox_max_depth,
            per_group_group_mailbox_full_events: final(metrics).per_group_group_mailbox_full_events,
            ..*old(metrics)
        }),
{
    metrics.record_group_mailbox_dequeued(group_id);
    metrics.record_group_mailbox_full(group_id);
    metrics.record_group_mailbox_enqueued(group_id);
    assert(metrics.per_group_group_mailbox_depth@ =~= old(
        metrics
    ).per_group_group_mailbox_depth@);
}

/// What becomes of a request that has come to the core of its group.
pub enum Dispatched<T> {
    /// It goes to its group.
    Forward(Envelope<T>),
    /// It is refused, with an answer for whoever waits for one.
    Refused(Option<(T, RuntimeError)>),
}

/// Lets a request to its group, with the bytes that are counted for it, or refuses
/// it where its group has too many unapplied bytes.
pub fn dispatch_group<T>(
    admission: RaftUncommittedAdmission,
    tracker: &mut RaftUncommittedBytesTracker,
    placement: ShardPlacement,
    incoming: Option<u64>,
    envelope: Envelope<T>,
) -> (r: Dispatched<T>)
    requires
        placement.raft_group_id.0 < old(tracker)@.len(),
        incoming is Some ==> envelope.request.is_guarded(),
        envelope.raft_uncommitted is None,
    ensures
        ({
            let group = placement.raft_group_id.0 as int;
            let current = old(tracker)@[group];
            if incoming is Some && !takes(admission, current, incoming->0) {
                &&& final(tracker)@ == old(tracker)@
                &&& r == Dispatched::Refused(
                    Some(
                        (
                            envelope.response,
                            turned_away(
                                placement,
                                current,
                                incoming->0,
                                admission.max_uncommitted_bytes_per_group->0,
                            ),
                        ),
                    ),
                )
            } else {
                &&& r is Forward
                &&& r->Forward_0.request == envelope.request
                &&& r->Forward_0.response == envelope.response
                &&& if incoming is Some && admission.max_uncommitted_bytes_per_group is Some {
                    &&& final(tracker)@ == old(tracker)@.update(
                        group,
                        admission::wrapping_sum(current, incoming->0),
                    )
                    &&& r->Forward_0.raft_uncommitted is Some
                    &&& r->Forward_0.raft_uncommitted->0.group() == placement.raft_group_id
                    &&& r->Forward_0.raft_uncommitted->0.bytes() == incoming->0
                    &&& r->Forward_0.raft_uncommitted->0.armed()
                } else {
                    final(tracker)@ == old(tracker)@ && r->Forward_0.raft_uncommitted is None
                }
            }
        }),
{
    match admit_command(admission, tracker, placement, incoming) {
        Ok(guard) => {
            let (envelope, _) = envelope.with_raft_uncommitted(guard);
            Dispatched::Forward(envelope)
        },
        Err(error) => {
            let (answer, _) = envelope.send_error(error);
            Dispatched::Refused(answer)
        },
    }
}

/// What came of putting a request into a mailbox without waiting.
#[derive(Debug, Clone, Copy, PartialEq, Eq, Structural)]
pub enum SendAttempt {
    Sent,
    Full,
    Closed,
}

/// Counts an attempt to put a request into its group's mailbox, and says whether to
/// wait for room.
pub fn record_send(
    metrics: &mut RuntimeMetricsInner,
    group_id: RaftGroupId,
    attempt: SendAttempt,
) -> (r: bool)
    requires
        old(metrics).wf(),
        group_id.0 < old(metrics).group_count(),
        old(metrics).per_group_group_mailbox_depth@[group_id.0 as int] < u64::MAX - 1,
    ensures
        final(metrics).wf(),
        r == (attempt == SendAttempt::Full),
        ({
            let group = group_id.0 as int;
            let depth = old(metrics).per_group_group_mailbox_depth@[group];
            &&& final(metrics).per_group_group_mailbox_depth@ == if attempt == SendAttempt::Closed {
                old(metrics).per_group_group_mailbox_depth@
            } else {
                old(metrics).per_group_group_mailbox_depth@.update(group, (depth + 1) as u64)
            }
            &&& final(metrics).per_group_group_mailbox_max_depth@ == old(
                metrics
            ).per_group_group_mailbox_max_depth@.update(
                group,
                counters::larger(
                    old(metrics).per_group_group_mailbox_max_depth@[group],
                    (depth + 1) as u64,
                ),
            )
            &&& final(metrics).per_group_group_mailbox_full_events@ == if attempt
                == SendAttempt::Full {
                old(metrics).per_group_group_mailbox_full_events@.update(
                    group,
                    admission::wrapping_sum(
                        old(metrics).per_group_group_mailbox_full_events@[group],
                        1,
                    ),
                )
            } else {
                old(metrics).per_group_group_mailbox_full_events@
            }
        }),
        *final(metrics) == (RuntimeMetricsInner {
            per_group_group_mailbox_depth: final(metrics).per_group_group_mailbox_depth,
            per_group_group_mailbox_max_depth: final(metrics).per_group_group_mailbox_max_depth,
            per_group_group_mailbox_full_events: final(metrics).per_group_group_mailbox_full_events,
            ..*old(metrics)
        }),
{
    metrics.record_group_mailbox_enqueued(group_id);
    match attempt {
        SendAttempt::Sent => false,
        SendAttempt::Full => {
            record_mailbox_retry(metrics, group_id);
            assert(metrics.per_group_group_mailbox_max_depth@ =~= old(
                metrics
            ).per_group_group_mailbox_max_depth@.update(
                group_id.0 as int,
                counters::larger(
                    old(metrics).per_group_group_mailbox_max_depth@[group_id.0 as int],
                    (old(metrics).per_group_group_mailbox_depth@[group_id.0 as int] + 1) as u64,
                ),
            ));
            true
        },
        SendAttempt::Closed => {
            metrics.record_group_mailbox_dequeued(group_id);
            assert(metrics.per_group_group_mailbox_depth@ =~= old(
                metrics
            ).per_group_group_mailbox_depth@);
            false
        },
    }
}

/// The groups that are to be made are those that are not there, in their order.
pub proof fn law_missing_groups_are_those_not_there(
    placements: Seq<ShardPlacement>,
    groups: Seq<RaftGroupId>,
)
    ensures
        missing_groups(placements, groups) == placements.filter(
            |placement: ShardPlacement| !groups.contains(placement.raft_group_id),
        ),
    decreases placements.len(),
{
    reveal(Seq::filter);
    if placements.len() > 0 {
        law_missing_groups_are_those_not_there(placements.drop_last(), groups);
    }
}

/// A write is let in exactly where the bytes that its group has not applied and its own
/// are no more than the limit; the largest number there is stands for no limit.
pub proof fn law_write_is_let_in_within_the_limit(
    admission: RaftUncommittedAdmission,
    unapplied: u64,
    incoming: u64,
)
    ensures
        takes(admission, unapplied, incoming) <==> match
            admission.max_uncommitted_bytes_per_group {
            Some(limit) => unapplied + incoming <= limit || limit == u64::MAX,
            None => true,
        },
{
}

} // verus!
