//! What holds of every write.

use vstd::prelude::*;
use crate::engine::responses::GroupWriteResponse;
use crate::engine::state;
use crate::engine::state::{EngineState, MachineAnswer, WriteOutcome};
use crate::ids::{ShardPlacement, StreamName};
use crate::request::AppendResponse;
use crate::stream::{StreamCommand, StreamResponse};

verus! {

/// The commit index that a response reports.
pub open spec fn reported_commit_index(response: GroupWriteResponse) -> Option<u64> {
    match response {
        GroupWriteResponse::CreateStream(response) => Some(response.group_commit_index),
        GroupWriteResponse::Append(response) => Some(response.group_commit_index),
        GroupWriteResponse::AppendBatch(_) => None,
        GroupWriteResponse::PublishSnapshot(response) => Some(response.group_commit_index),
        GroupWriteResponse::TouchStreamAccess(response) => Some(response.group_commit_index),
        GroupWriteResponse::UpdateStreamAttrs(response) => Some(response.group_commit_index),
        GroupWriteResponse::AddForkRef(response) => Some(response.group_commit_index),
        GroupWriteResponse::ReleaseForkRef(response) => Some(response.group_commit_index),
        GroupWriteResponse::FlushCold(response) => Some(response.group_commit_index),
        GroupWriteResponse::CloseStream(response) => Some(response.group_commit_index),
        GroupWriteResponse::DeleteStream(response) => Some(response.group_commit_index),
        GroupWriteResponse::AckColdGc(response) => Some(response.group_commit_index),
        GroupWriteResponse::Batch(_) => None,
    }
}

/// Whether an answer says that something was appended that was not there before.
pub open spec fn is_new_append(response: StreamResponse) -> bool {
    response is Appended && !response->Appended_deduplicated
}

/// Whether an item says that something was appended that was not there before.
pub open spec fn is_new_item(item: Result<AppendResponse, state::Refusal>) -> bool {
    item matches Ok(response) && !response.deduplicated
}

/// Whether the flag of a batch agrees with those of its items.
pub open spec fn is_coherent(answer: MachineAnswer) -> bool {
    answer matches MachineAnswer::Whole(Ok(batch)) ==> (batch.deduplicated || batch.items@.len()
        == 0 || exists|i: int|
        0 <= i < batch.items@.len() && !(#[trigger] batch.items@[i]).deduplicated)
}

/// A write that is refused leaves the state as it was.
pub proof fn law_refused_write_changes_nothing(
    state: EngineState,
    command: StreamCommand,
    answer: MachineAnswer,
    placement: ShardPlacement,
)
    requires
        state::answers(command, answer),
        state::applied(state, command, answer, placement).1 is Refused,
    ensures
        state::applied(state, command, answer, placement).0 == state,
{
}

/// A response reports the commit index that the write has led to.
pub proof fn law_response_reports_the_commit_index(
    state: EngineState,
    command: StreamCommand,
    answer: MachineAnswer,
    placement: ShardPlacement,
)
    requires
        state::answers(command, answer),
        state::applied(state, command, answer, placement).1 is Done,
    ensures
        reported_commit_index(state::applied(state, command, answer, placement).1->Done_0) == Some(
            state::applied(state, command, answer, placement).0.commit_index,
        ),
{
}

/// What each item of a list of answers does, beside the state that it leaves.
pub(crate) proof fn lemma_each(
    state: EngineState,
    stream: StreamName,
    answers: Seq<Option<StreamResponse>>,
    placement: ShardPlacement,
)
    ensures
        ({
            let (after, items) = state::appended_each(state, stream, answers, placement);
            &&& items.len() == answers.len()
            &&& forall|i: int|
                #![trigger items[i]]
                #![trigger answers[i]]
                0 <= i < items.len() ==> is_new_item(items[i]) == (answers[i] matches Some(response)
                    && is_new_append(response))
            &&& forall|other: StreamName|
                other != stream ==> #[trigger] after.count_of(other) == state.count_of(other)
        }),
    decreases answers.len(),
{
    if answers.len() > 0 {
        lemma_each(state, stream, answers.drop_last(), placement);
        let items = state::appended_each(state, stream, answers, placement).1;
        let before = state::appended_each(state, stream, answers.drop_last(), placement).1;
        assert forall|i: int|
            #![trigger items[i]]
            #![trigger answers[i]]
            0 <= i < items.len() implies is_new_item(items[i]) == (answers[i] matches Some(response)
            && is_new_append(response)) by {
            if i < before.len() {
                assert(items[i] == before[i]);
                assert(answers.drop_last()[i] == answers[i]);
            }
        }
        let earlier = state::appended_each(state, stream, answers.drop_last(), placement).0;
        let after = state::appended_each(state, stream, answers, placement).0;
        assert forall|other: StreamName| other != stream implies #[trigger] after.count_of(other)
            == state.count_of(other) by {
            assert(earlier.count_of(other) == state.count_of(other));
        }
    }
}

proof fn lemma_each_counts(
    state: EngineState,
    stream: StreamName,
    answers: Seq<Option<StreamResponse>>,
    placement: ShardPlacement,
    more: int,
)
    requires
        more >= 0,
        state.has_room(answers.len() + more),
    ensures
        ({
            let after = state::appended_each(state, stream, answers, placement).0;
            &&& after.has_room(more)
            &&& state.commit_index <= after.commit_index <= state.commit_index + answers.len()
        }),
    decreases answers.len(),
{
    if answers.len() > 0 {
        lemma_each_counts(state, stream, answers.drop_last(), placement, more + 1);
    }
}

/// A write leaves room for as many more as there was, less its own weight.
pub proof fn lemma_room(
    state: EngineState,
    command: StreamCommand,
    answer: MachineAnswer,
    placement: ShardPlacement,
    more: int,
)
    requires
        more >= 0,
        state::answers(command, answer),
        state.has_room(state::weight(answer) + more),
    ensures
        state::applied(state, command, answer, placement).0.has_room(more),
{
    if answer is Each {
        lemma_each_counts(
            state,
            state::stream_of(command),
            answer->Each_0@,
            placement,
            more,
        );
    }
}

/// The commit index never falls, and grows by no more than the weight of the
/// write.
pub proof fn law_commit_index_grows(
    state: EngineState,
    command: StreamCommand,
    answer: MachineAnswer,
    placement: ShardPlacement,
)
    requires
        state::answers(command, answer),
        state.has_room(state::weight(answer)),
    ensures
        state.commit_index <= state::applied(state, command, answer, placement).0.commit_index
            <= state.commit_index + state::weight(answer),
{
    if answer is Each {
        lemma_each_counts(state, state::stream_of(command), answer->Each_0@, placement, 0);
    }
}

/// A write touches the count of its own stream only.
pub proof fn law_other_streams_keep_their_counts(
    state: EngineState,
    command: StreamCommand,
    answer: MachineAnswer,
    placement: ShardPlacement,
    other: StreamName,
)
    requires
        state::answers(command, answer),
        other != state::stream_of(command),
    ensures
        state::applied(state, command, answer, placement).0.count_of(other) == state.count_of(
            other,
        ),
{
    if answer is Each {
        lemma_each(state, state::stream_of(command), answer->Each_0@, placement);
    }
}

/// Replaying a command counts as applying it did, and fails exactly where applying
/// it failed. Left out is an append that only closed its stream, which is taken in a
/// replay only. A stream that was deleted for good keeps its count in a replay, and
/// loses it where it happens; all else is counted alike there too.
pub proof fn law_replay_counts_as_apply(
    state: EngineState,
    command: StreamCommand,
    answer: MachineAnswer,
    placement: ShardPlacement,
)
    requires
        state::answers(command, answer),
        state::answers_replay(command, answer),
        !(command is Append && answer matches MachineAnswer::One(StreamResponse::Closed { .. })),
    ensures
        ({
            let replayed = state::replayed(state, command, answer);
            let applied = state::applied(state, command, answer, placement);
            &&& replayed.1 is Ok <==> !(applied.1 is Refused)
            &&& replayed.0.commit_index == applied.0.commit_index
            &&& forall|stream: StreamName|
                !is_deleted_for_good(command, answer) || stream != state::stream_of(command)
                    ==> #[trigger] replayed.0.count_of(stream) == applied.0.count_of(stream)
        }),
{
}

/// Whether a stream is deleted for good.
pub open spec fn is_deleted_for_good(command: StreamCommand, answer: MachineAnswer) -> bool {
    command is DeleteStream && answer matches MachineAnswer::One(
        StreamResponse::Deleted { hard_deleted: true, .. },
    )
}

/// Replaying a command that appends nothing and deletes nothing leaves the very
/// state that applying it left.
pub proof fn law_replay_is_apply(
    state: EngineState,
    command: StreamCommand,
    answer: MachineAnswer,
    placement: ShardPlacement,
)
    requires
        state::answers(command, answer),
        state::answers_replay(command, answer),
        !(command is Append) && !(command is AppendExternal) && !(command is AppendBatch),
        !is_deleted_for_good(command, answer),
    ensures
        state::replayed(state, command, answer).0 == state::applied(
            state,
            command,
            answer,
            placement,
        ).0,
        state::replayed(state, command, answer).1 is Ok <==> !(state::applied(
            state,
            command,
            answer,
            placement,
        ).1 is Refused),
{
}

proof fn lemma_each_congruent(
    left: EngineState,
    right: EngineState,
    stream: StreamName,
    answers: Seq<Option<StreamResponse>>,
    placement: ShardPlacement,
)
    requires
        left.same_counts(right),
    ensures
        state::appended_each(left, stream, answers, placement).0.same_counts(
            state::appended_each(right, stream, answers, placement).0,
        ),
    decreases answers.len(),
{
    if answers.len() > 0 {
        lemma_each_congruent(left, right, stream, answers.drop_last(), placement);
        let a = state::appended_each(left, stream, answers.drop_last(), placement).0;
        let b = state::appended_each(right, stream, answers.drop_last(), placement).0;
        assert(a.count_of(stream) == b.count_of(stream));
        assert forall|other: StreamName| #[trigger]
            state::appended_each(left, stream, answers, placement).0.count_of(other)
                == state::appended_each(right, stream, answers, placement).0.count_of(other) by {
            assert(a.count_of(other) == b.count_of(other));
        }
    }
}

/// Whether a count of zero is kept or left out makes no difference to a write.
pub proof fn law_writes_do_not_tell_zero_counts_apart(
    left: EngineState,
    right: EngineState,
    command: StreamCommand,
    answer: MachineAnswer,
    placement: ShardPlacement,
)
    requires
        left.same_counts(right),
        state::answers(command, answer),
    ensures
        state::applied(left, command, answer, placement).0.same_counts(
            state::applied(right, command, answer, placement).0,
        ),
{
    let stream = state::stream_of(command);
    if answer is Each {
        lemma_each_congruent(left, right, stream, answer->Each_0@, placement);
    } else {
        let a = state::applied(left, command, answer, placement).0;
        let b = state::applied(right, command, answer, placement).0;
        assert(left.count_of(stream) == right.count_of(stream));
        assert forall|other: StreamName| #[trigger] a.count_of(other) == b.count_of(other) by {
            assert(left.count_of(other) == right.count_of(other));
        }
    }
}

proof fn lemma_each_without_news(
    state: EngineState,
    stream: StreamName,
    answers: Seq<Option<StreamResponse>>,
    placement: ShardPlacement,
)
    requires
        forall|i: int|
            0 <= i < answers.len() ==> !((#[trigger] answers[i]) matches Some(response)
                && is_new_append(response)),
    ensures
        state::appended_each(state, stream, answers, placement).0.same_counts(state),
    decreases answers.len(),
{
    if answers.len() > 0 {
        let prefix = answers.drop_last();
        assert forall|i: int| 0 <= i < prefix.len() implies !((#[trigger] prefix[i]) matches Some(
            response,
        ) && is_new_append(response)) by {
            assert(prefix[i] == answers[i]);
        }
        lemma_each_without_news(state, stream, prefix, placement);
        let before = state::appended_each(state, stream, prefix, placement).0;
        assert(answers.last() == answers[answers.len() - 1]);
        assert forall|other: StreamName| #[trigger]
            state::appended_each(state, stream, answers, placement).0.count_of(other)
                == state.count_of(other) by {
            assert(before.count_of(other) == state.count_of(other));
        }
    }
}

/// Whether a write's outcome goes into the log. With bounded hot bytes an append
/// that was there before does not.
pub open spec fn is_logged(outcome: WriteOutcome, bounded: bool) -> bool {
    match outcome {
        WriteOutcome::Refused(_) => false,
        WriteOutcome::Items { items, .. } => exists|i: int|
            0 <= i < items.len() && is_new_item(#[trigger] items[i]),
        WriteOutcome::Done(response) => match response {
            GroupWriteResponse::CreateStream(response) => !response.already_exists,
            GroupWriteResponse::Append(response) => !bounded || !response.deduplicated,
            GroupWriteResponse::TouchStreamAccess(response) => response.changed || response.expired,
            GroupWriteResponse::UpdateStreamAttrs(response) => response.changed,
            _ => true,
        },
    }
}

/// What does not go into the log has changed no count.
pub proof fn law_unlogged_write_changes_no_count(
    state: EngineState,
    command: StreamCommand,
    answer: MachineAnswer,
    placement: ShardPlacement,
    bounded: bool,
)
    requires
        state::answers(command, answer),
        is_coherent(answer),
        !is_logged(state::applied(state, command, answer, placement).1, bounded),
    ensures
        state::applied(state, command, answer, placement).0.same_counts(state),
{
    let stream = state::stream_of(command);
    match answer {
        MachineAnswer::Each(answers) => {
            lemma_each(state, stream, answers@, placement);
            let items = state::appended_each(state, stream, answers@, placement).1;
            assert forall|i: int| 0 <= i < answers@.len() implies !((
            #[trigger] answers@[i]) matches Some(response) && is_new_append(response)) by {
                assert(!is_new_item(items[i]));
            }
            lemma_each_without_news(state, stream, answers@, placement);
        },
        MachineAnswer::Whole(Ok(batch)) => {
            if !batch.deduplicated && batch.items@.len() > 0 {
                let i = choose|i: int|
                    0 <= i < batch.items@.len() && !(#[trigger] batch.items@[i]).deduplicated;
                let outcome = state::applied(state, command, answer, placement).1;
                assert(is_new_item(outcome->items[i]));
                assert(false);
            }
        },
        _ => {},
    }
}

} // verus!
