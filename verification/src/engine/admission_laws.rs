//! How many bytes a limited group takes, and which writes outlive the process.

use vstd::prelude::*;
use crate::engine::access;
use crate::engine::access::AdmittedOutcome;
use crate::engine::errors::{GroupEngineError, GroupInfraError};
use crate::engine::laws;
use crate::engine::state;
use crate::engine::state::{EngineState, MachineAnswer};
use crate::ids::{BucketStreamId, ShardPlacement};
use crate::request::ColdWriteAdmission;
use crate::stream::{StreamCommand, StreamResponse};

verus! {

/// The bytes of several payloads are as many as they have when they are put behind one
/// another.
pub proof fn law_payloads_count_every_byte(payloads: Seq<Vec<u8>>)
    ensures
        access::total_len(payloads) == payloads.map_values(
            |payload: Vec<u8>| payload@,
        ).flatten().len(),
    decreases payloads.len(),
{
    let views = payloads.map_values(|payload: Vec<u8>| payload@);
    if payloads.len() > 0 {
        let front = payloads.drop_last();
        law_payloads_count_every_byte(front);
        let front_views = front.map_values(|payload: Vec<u8>| payload@);
        assert(views =~= front_views.push(payloads.last()@));
        front_views.lemma_flatten_push(payloads.last()@);
    } else {
        assert(views =~= Seq::<Seq<u8>>::empty());
    }
}

/// The bytes that are in the payloads of a write.
pub open spec fn payload_len(command: StreamCommand) -> nat {
    match command {
        StreamCommand::CreateStream { initial_payload, .. } => initial_payload@.len(),
        StreamCommand::Append { payload, .. } => payload@.len(),
        StreamCommand::AppendBatch { payloads, .. } => payloads@.map_values(
            |payload: Vec<u8>| payload@,
        ).flatten().len(),
        _ => 0,
    }
}

/// Whether the stream layer says that a write has made a stream or added a payload that
/// was not there before.
pub open spec fn is_news(command: StreamCommand, answer: MachineAnswer) -> bool {
    match answer {
        MachineAnswer::One(StreamResponse::Created { .. }) => command is CreateStream,
        MachineAnswer::One(StreamResponse::Appended { deduplicated, .. }) => command is Append
            && !deduplicated,
        MachineAnswer::Whole(Ok(batch)) => exists|i: int|
            0 <= i < batch.items@.len() && !(#[trigger] batch.items@[i]).deduplicated,
        MachineAnswer::Each(answers) => exists|i: int|
            0 <= i < answers@.len() && (#[trigger] answers@[i] matches Some(
                StreamResponse::Appended { deduplicated, .. },
            ) && !deduplicated),
        _ => false,
    }
}

/// A write goes into the log where the stream layer says that it has changed something;
/// an append that was there before goes there only as long as hot bytes are unbounded.
pub proof fn law_every_change_is_logged(
    state: EngineState,
    command: StreamCommand,
    answer: MachineAnswer,
    placement: ShardPlacement,
    bounded: bool,
)
    requires
        state::answers(command, answer),
    ensures
        laws::is_logged(state::applied(state, command, answer, placement).1, bounded) <==> match (
            command,
            answer,
        ) {
            (StreamCommand::AppendBatch { .. }, _) => is_news(command, answer),
            (StreamCommand::CreateStream { .. }, _) => answer matches MachineAnswer::One(
                StreamResponse::Created { .. },
            ),
            (StreamCommand::CreateExternal { .. }, _) => answer matches MachineAnswer::One(
                StreamResponse::Created { .. },
            ),
            (
                StreamCommand::Append { .. },
                MachineAnswer::One(StreamResponse::Appended { deduplicated, .. }),
            ) => !bounded || !deduplicated,
            (
                StreamCommand::AppendExternal { .. },
                MachineAnswer::One(StreamResponse::Appended { deduplicated, .. }),
            ) => !bounded || !deduplicated,
            (
                StreamCommand::TouchStreamAccess { .. },
                MachineAnswer::One(StreamResponse::Accessed { changed, expired }),
            ) => changed || expired,
            (
                StreamCommand::UpdateStreamAttrs { .. },
                MachineAnswer::One(StreamResponse::AttrsUpdated { changed }),
            ) => changed,
            (
                StreamCommand::PublishSnapshot { .. },
                MachineAnswer::One(StreamResponse::SnapshotPublished { .. }),
            ) => true,
            (
                StreamCommand::AddForkRef { .. },
                MachineAnswer::One(StreamResponse::ForkRefAdded { .. }),
            ) => true,
            (
                StreamCommand::ReleaseForkRef { .. },
                MachineAnswer::One(StreamResponse::ForkRefReleased { .. }),
            ) => true,
            (
                StreamCommand::FlushCold { .. },
                MachineAnswer::One(StreamResponse::ColdFlushed { .. }),
            ) => true,
            (StreamCommand::Close { .. }, MachineAnswer::One(StreamResponse::Closed { .. })) =>
                true,
            (
                StreamCommand::DeleteStream { .. },
                MachineAnswer::One(StreamResponse::Deleted { .. }),
            ) => true,
            (
                StreamCommand::AckColdGc { .. },
                MachineAnswer::One(StreamResponse::ColdGcAcked { .. }),
            ) => true,
            _ => false,
        },
{
    let outcome = state::applied(state, command, answer, placement).1;
    if command is AppendBatch {
        lemma_batch_is_logged(state, command, answer, placement, bounded);
    }
}

proof fn lemma_batch_is_logged(
    state: EngineState,
    command: StreamCommand,
    answer: MachineAnswer,
    placement: ShardPlacement,
    bounded: bool,
)
    requires
        state::answers(command, answer),
        command is AppendBatch,
    ensures
        laws::is_logged(state::applied(state, command, answer, placement).1, bounded) <==> is_news(
            command,
            answer,
        ),
{
    let outcome = state::applied(state, command, answer, placement).1;
    match answer {
        MachineAnswer::Each(answers) => {
            laws::lemma_each(state, state::stream_of(command), answers@, placement);
            let items = outcome->items;
            if laws::is_logged(outcome, bounded) {
                let i = choose|i: int| 0 <= i < items.len() && laws::is_new_item(#[trigger] items[i]);
                assert(answers@[i] matches Some(StreamResponse::Appended { deduplicated, .. })
                    && !deduplicated);
            }
            if is_news(command, answer) {
                let i = choose|i: int|
                    0 <= i < answers@.len() && (#[trigger] answers@[i] matches Some(
                        StreamResponse::Appended { deduplicated, .. },
                    ) && !deduplicated);
                assert(laws::is_new_item(items[i]));
            }
        },
        MachineAnswer::Whole(Ok(batch)) => {
            let items = outcome->items;
            if laws::is_logged(outcome, bounded) {
                let i = choose|i: int| 0 <= i < items.len() && laws::is_new_item(#[trigger] items[i]);
                assert(!batch.items@[i].deduplicated);
            }
            if is_news(command, answer) {
                let i = choose|i: int|
                    0 <= i < batch.items@.len() && !(#[trigger] batch.items@[i]).deduplicated;
                assert(laws::is_new_item(items[i]));
            }
        },
        _ => {},
    }
}

/// A write that adds something is let in exactly where the group's hot bytes together
/// with all bytes of its payloads stay within the limit, or where it has no bytes. The
/// largest number there is stands for no limit. One that is held back changes nothing, and is told the hot bytes before it, those that
/// there would be, and the limit. What was there before is never held back.
pub proof fn law_admitted_bytes_stay_within_the_limit(
    state: EngineState,
    command: StreamCommand,
    answer: MachineAnswer,
    placement: ShardPlacement,
    limit: u64,
    hot_bytes: u64,
)
    requires
        state::answers(command, answer),
        command is CreateStream || command is Append || command is AppendBatch,
    ensures
        ({
            let (after, outcome) = access::applied_with_admission(
                state,
                command,
                answer,
                placement,
                ColdWriteAdmission { max_hot_bytes_per_group: Some(limit) },
                hot_bytes,
            );
            let (admitted, result) = state::applied(state, command, answer, placement);
            let bytes = payload_len(command);
            &&& is_news(command, answer) && bytes > 0 ==> (outcome is Applied <==> hot_bytes + bytes
                <= limit || limit == u64::MAX)
            &&& !is_news(command, answer) || bytes == 0 ==> outcome is Applied
            &&& match outcome {
                AdmittedOutcome::Applied(given) => after == admitted && given == result,
                AdmittedOutcome::HeldBack(error) => {
                    &&& after == state
                    &&& error matches GroupEngineError::Infra(
                        GroupInfraError::ColdBackpressure {
                            stream_id,
                            before_group_hot_bytes,
                            after_group_hot_bytes,
                            limit: bound,
                        },
                    ) && {
                        &&& before_group_hot_bytes == hot_bytes
                        &&& hot_bytes + bytes <= u64::MAX ==> after_group_hot_bytes == hot_bytes
                            + bytes
                        &&& hot_bytes + bytes > u64::MAX ==> after_group_hot_bytes == u64::MAX
                        &&& bound == limit
                        &&& match command {
                            StreamCommand::CreateStream { stream_id: id, .. } => stream_id == id,
                            StreamCommand::Append { stream_id: id, .. } => stream_id == id,
                            StreamCommand::AppendBatch { stream_id: id, .. } => stream_id == id,
                            _ => false,
                        }
                    }
                },
            }
        }),
{
    lemma_news(state, command, answer, placement);
    lemma_payload_len(command);
}

/// What a command brings is what its payloads hold.
pub proof fn lemma_payload_len(command: StreamCommand)
    ensures
        access::incoming_bytes(command) == payload_len(command),
{
    if let StreamCommand::AppendBatch { payloads, .. } = command {
        law_payloads_count_every_byte(payloads@);
    }
}

/// A write that brings bytes goes into the log, with bounded hot bytes, where it is new.
pub proof fn lemma_news(
    state: EngineState,
    command: StreamCommand,
    answer: MachineAnswer,
    placement: ShardPlacement,
)
    requires
        state::answers(command, answer),
        command is CreateStream || command is Append || command is AppendBatch,
    ensures
        laws::is_logged(state::applied(state, command, answer, placement).1, true) <==> is_news(
            command,
            answer,
        ),
{
    law_every_change_is_logged(state, command, answer, placement, true);
}

/// A check of a number of bytes fails exactly where there is a limit, there are bytes,
/// and they would raise the group's bytes above the limit.
pub proof fn law_check_fails_above_the_limit(
    admission: ColdWriteAdmission,
    hot_bytes: u64,
    incoming: u64,
)
    ensures
        access::admits(admission, hot_bytes, incoming as int) <==> match
            admission.max_hot_bytes_per_group {
            None => true,
            Some(limit) => incoming == 0 || hot_bytes + incoming <= limit || limit == u64::MAX,
        },
{
}

} // verus!
