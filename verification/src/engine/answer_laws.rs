//! What a write tells its caller, against what the stream layer has answered.

use vstd::prelude::*;
use crate::engine::errors::{GroupEngineError, GroupInfraError};
use crate::engine::responses::GroupWriteResponse;
use crate::engine::state;
use crate::engine::state::{EngineState, MachineAnswer, Refusal, WriteOutcome};
use crate::ids::{ShardPlacement, StreamName};
use crate::request::AppendResponse;
use crate::stream;
use crate::stream::{BatchAppended, StreamCommand, StreamErrorCode, StreamResponse};

verus! {

/// Each item of a batch that was appended as a whole is told where the stream layer has
/// put it. A new item is told its own place among the group's writes and among the
/// appends to the stream; one that was there before, the place that both had before.
pub proof fn law_batch_item_is_where_the_layer_put_it(
    state: EngineState,
    command: StreamCommand,
    batch: BatchAppended,
    placement: ShardPlacement,
    i: int,
)
    requires
        command is AppendBatch,
        0 <= i < batch.items@.len(),
        state.has_room(batch.items@.len() as int),
    ensures
        ({
            let outcome = state::applied(
                state,
                command,
                MachineAnswer::Whole(Ok(batch)),
                placement,
            ).1;
            let stream = command->AppendBatch_stream_id@;
            let item = batch.items@[i];
            let count: int = if state.counts.contains_key(stream) {
                state.counts[stream] as int
            } else {
                0
            };
            &&& outcome is Items
            &&& outcome->placement == placement
            &&& outcome->items.len() == batch.items@.len()
            &&& outcome->items[i] matches Ok(response) && {
                &&& response.start_offset == item.offset
                &&& response.next_offset == item.next_offset
                &&& response.closed == item.closed
                &&& response.deduplicated == item.deduplicated
                &&& response.record_range == item.record_range
                &&& response.producer is None
                &&& response.placement == placement
                &&& item.deduplicated ==> response.group_commit_index == state.commit_index
                    && response.stream_append_count == count
                &&& !item.deduplicated ==> response.group_commit_index == state.commit_index + i + 1
                    && response.stream_append_count == count + i + 1
            }
        }),
{
}

/// Where the stream layer puts the payloads of a batch behind one another, the items of
/// the response have the lengths of the payloads and follow on one another.
pub proof fn law_batch_items_follow_on(
    state: EngineState,
    command: StreamCommand,
    batch: BatchAppended,
    placement: ShardPlacement,
    i: int,
)
    requires
        command is AppendBatch,
        batch.items@.len() == command->payloads@.len(),
        forall|j: int|
            0 <= j < batch.items@.len() ==> (#[trigger] batch.items@[j]).next_offset
                == batch.items@[j].offset + command->payloads@[j]@.len(),
        forall|j: int, k: int|
            0 <= j < batch.items@.len() && k == j + 1 && k < batch.items@.len()
                ==> (#[trigger] batch.items@[k]).offset == (
            #[trigger] batch.items@[j]).next_offset,
        0 <= i < batch.items@.len(),
        state.has_room(batch.items@.len() as int),
    ensures
        ({
            let items = state::applied(
                state,
                command,
                MachineAnswer::Whole(Ok(batch)),
                placement,
            ).1->items;
            &&& items[i] is Ok
            &&& items[i]->Ok_0.next_offset - items[i]->Ok_0.start_offset
                == command->payloads@[i]@.len()
            &&& i + 1 < items.len() ==> items[i + 1] is Ok && items[i + 1]->Ok_0.start_offset
                == items[i]->Ok_0.next_offset
        }),
{
    law_batch_item_is_where_the_layer_put_it(state, command, batch, placement, i);
    if i + 1 < batch.items@.len() {
        law_batch_item_is_where_the_layer_put_it(state, command, batch, placement, i + 1);
        assert(batch.items@[i + 1].offset == batch.items@[i].next_offset);
    }
}

/// A batch that was appended as a whole counts once for each of its items, and not at
/// all where it was there before.
pub proof fn law_batch_counts_its_items(
    state: EngineState,
    command: StreamCommand,
    batch: BatchAppended,
    placement: ShardPlacement,
)
    requires
        command is AppendBatch,
        state.has_room(batch.items@.len() as int),
    ensures
        ({
            let after = state::applied(
                state,
                command,
                MachineAnswer::Whole(Ok(batch)),
                placement,
            ).0;
            let stream = command->AppendBatch_stream_id@;
            let count: int = if state.counts.contains_key(stream) {
                state.counts[stream] as int
            } else {
                0
            };
            &&& batch.deduplicated ==> after == state
            &&& !batch.deduplicated ==> {
                &&& after.commit_index == state.commit_index + batch.items@.len()
                &&& after.counts.contains_key(stream)
                &&& after.counts[stream] == count + batch.items@.len()
            }
        }),
{
}

/// An append is told where the stream layer has put it, and the places that it has among
/// the group's writes and among the appends to the stream: one more than before, unless
/// it was there already.
pub proof fn law_append_is_where_the_layer_put_it(
    state: EngineState,
    command: StreamCommand,
    answer: StreamResponse,
    placement: ShardPlacement,
)
    requires
        command is Append || command is AppendExternal,
        answer is Appended,
        state.has_room(1),
    ensures
        ({
            let (after, outcome) = state::applied(
                state,
                command,
                MachineAnswer::One(answer),
                placement,
            );
            let stream = if command is Append {
                command->Append_stream_id@
            } else {
                command->AppendExternal_stream_id@
            };
            let count: int = if state.counts.contains_key(stream) {
                state.counts[stream] as int
            } else {
                0
            };
            let more: int = if answer->Appended_deduplicated {
                0
            } else {
                1
            };
            &&& after.commit_index == state.commit_index + more
            &&& after.counts.contains_key(stream)
            &&& after.counts[stream] == count + more
            &&& outcome matches WriteOutcome::Done(GroupWriteResponse::Append(response)) && {
                &&& response.placement == placement
                &&& response.start_offset == answer->offset
                &&& response.next_offset == answer->Appended_next_offset
                &&& response.closed == answer->Appended_closed
                &&& response.deduplicated == answer->Appended_deduplicated
                &&& response.producer == answer->producer
                &&& response.record_range == answer->Appended_record_range
                &&& response.group_commit_index == state.commit_index + more
                &&& response.stream_append_count == count + more
            }
        }),
{
}

/// Whether an answer to a payload says that it is new.
spec fn is_new(answer: Option<StreamResponse>) -> bool {
    answer matches Some(StreamResponse::Appended { deduplicated, .. }) && !deduplicated
}

/// How many of the answers say that their payload is new.
pub open spec fn new_payloads(answers: Seq<Option<StreamResponse>>) -> nat {
    answers.filter(
        |answer: Option<StreamResponse>|
            answer matches Some(StreamResponse::Appended { deduplicated, .. }) && !deduplicated,
    ).len()
}

proof fn lemma_new_payloads(answers: Seq<Option<StreamResponse>>)
    requires
        answers.len() > 0,
    ensures
        new_payloads(answers) == new_payloads(answers.drop_last()) + if is_new(answers.last()) {
            1int
        } else {
            0
        },
{
    reveal(Seq::filter);
}

/// What `appended_each` counts and says, item by item.
proof fn lemma_each_item(
    state: EngineState,
    stream: StreamName,
    answers: Seq<Option<StreamResponse>>,
    placement: ShardPlacement,
    more: int,
)
    requires
        more >= 0,
        state.has_room(answers.len() + more),
    ensures
        ({
            let (after, items) = state::appended_each(state, stream, answers, placement);
            &&& after.has_room(more)
            &&& after.commit_index == state.commit_index + new_payloads(answers)
            &&& after.count_of(stream) == state.count_of(stream) + new_payloads(answers)
            &&& items.len() == answers.len()
            &&& forall|i: int|
                0 <= i < items.len() ==> is_told(
                    state,
                    stream,
                    answers,
                    placement,
                    i,
                    #[trigger] items[i],
                )
        }),
    decreases answers.len(),
{
    if answers.len() == 0 {
        reveal(Seq::filter);
    } else {
        let front = answers.drop_last();
        lemma_each_item(state, stream, front, placement, more + 1);
        lemma_new_payloads(answers);
        let (after, items) = state::appended_each(state, stream, answers, placement);
        let earlier = state::appended_each(state, stream, front, placement).1;
        assert forall|i: int| 0 <= i < items.len() implies is_told(
            state,
            stream,
            answers,
            placement,
            i,
            #[trigger] items[i],
        ) by {
            if i < front.len() {
                assert(items[i] == earlier[i]);
                assert(front[i] == answers[i]);
                assert(front.take(i + 1) =~= answers.take(i + 1));
            } else {
                assert(answers.take(i + 1) =~= answers);
            }
        }
    }
}

/// What the item of one payload of a batch says: where the stream layer has put it and
/// how many new payloads there are up to it, that it is empty, or why it was refused.
pub open spec fn is_told(
    state: EngineState,
    stream: StreamName,
    answers: Seq<Option<StreamResponse>>,
    placement: ShardPlacement,
    i: int,
    item: Result<AppendResponse, Refusal>,
) -> bool {
    let count: int = if state.counts.contains_key(stream) {
        state.counts[stream] as int
    } else {
        0
    };
    match answers[i] {
        None => item matches Err(Refusal::Stream { code, message, next_offset }) && code
            == StreamErrorCode::EmptyAppend && message == "append payload must be non-empty"@
            && next_offset is None,
        Some(
            StreamResponse::Appended {
                offset,
                next_offset,
                closed,
                deduplicated,
                producer,
                record_range,
            },
        ) => item matches Ok(response) && {
            &&& response.placement == placement
            &&& response.start_offset == offset
            &&& response.next_offset == next_offset
            &&& response.closed == closed
            &&& response.deduplicated == deduplicated
            &&& response.producer == producer
            &&& response.record_range == record_range
            &&& response.group_commit_index == state.commit_index + new_payloads(
                answers.take(i + 1),
            )
            &&& response.stream_append_count == count + new_payloads(answers.take(i + 1))
        },
        Some(StreamResponse::Error { code, message, next_offset }) => item == Err::<
            AppendResponse,
            Refusal,
        >(Refusal::Stream { code, message: message@, next_offset }),
        Some(_) => item matches Err(Refusal::Internal { .. }),
    }
}

/// Each payload of a batch that is appended one by one is told where the stream layer has
/// put it, and the place that it has among the group's writes and the appends to the
/// stream: one more for every new payload up to it. An empty payload and a refused one
/// are told so, and count for nothing.
pub proof fn law_each_payload_is_told_its_answer(
    state: EngineState,
    command: StreamCommand,
    answers: Vec<Option<StreamResponse>>,
    placement: ShardPlacement,
)
    requires
        command is AppendBatch,
        state.has_room(answers@.len() as int),
    ensures
        ({
            let (after, outcome) = state::applied(
                state,
                command,
                MachineAnswer::Each(answers),
                placement,
            );
            let stream = command->AppendBatch_stream_id@;
            &&& outcome is Items
            &&& outcome->placement == placement
            &&& outcome->items.len() == answers@.len()
            &&& after.commit_index == state.commit_index + new_payloads(answers@)
            &&& forall|i: int|
                0 <= i < answers@.len() ==> is_told(
                    state,
                    stream,
                    answers@,
                    placement,
                    i,
                    #[trigger] outcome->items[i],
                )
        }),
{
    lemma_each_item(state, command->AppendBatch_stream_id@, answers@, placement, 0);
}

/// What the stream layer says of a new stream reaches the caller, who also learns
/// whether the stream was there before; only a stream that was not counts as a write.
pub proof fn law_creation_is_told_its_answer(
    state: EngineState,
    command: StreamCommand,
    answer: StreamResponse,
    placement: ShardPlacement,
)
    requires
        command is CreateStream || command is CreateExternal,
        answer is Created || answer is AlreadyExists,
        state.has_room(1),
    ensures
        ({
            let (after, outcome) = state::applied(
                state,
                command,
                MachineAnswer::One(answer),
                placement,
            );
            &&& after.counts == state.counts
            &&& after.commit_index == state.commit_index + if answer is Created {
                1int
            } else {
                0
            }
            &&& outcome matches WriteOutcome::Done(GroupWriteResponse::CreateStream(response)) && {
                &&& response.placement == placement
                &&& response.already_exists == (answer is AlreadyExists)
                &&& response.group_commit_index == after.commit_index
                &&& answer is Created ==> {
                    &&& response.next_offset == answer->Created_next_offset
                    &&& response.closed == answer->Created_closed
                    &&& response.record_range == answer->Created_record_range
                }
                &&& answer is AlreadyExists ==> {
                    &&& response.next_offset == answer->AlreadyExists_next_offset
                    &&& response.closed == answer->AlreadyExists_closed
                    &&& response.record_range == answer->AlreadyExists_record_range
                }
            }
        }),
{
}

/// What the stream layer says to any other command reaches the caller as it is, with the
/// commit index that the group then has.
pub proof fn law_command_is_told_its_answer(
    state: EngineState,
    command: StreamCommand,
    answer: StreamResponse,
    placement: ShardPlacement,
)
    requires
        state.has_room(1),
    ensures
        ({
            let (after, outcome) = state::applied(
                state,
                command,
                MachineAnswer::One(answer),
                placement,
            );
            match (command, answer) {
                (
                    StreamCommand::PublishSnapshot { .. },
                    StreamResponse::SnapshotPublished { snapshot_offset },
                ) => {
                    &&& after.commit_index == state.commit_index + 1
                    &&& outcome matches WriteOutcome::Done(
                        GroupWriteResponse::PublishSnapshot(response),
                    ) && response.placement == placement && response.snapshot_offset
                        == snapshot_offset && response.group_commit_index == after.commit_index
                },
                (
                    StreamCommand::TouchStreamAccess { .. },
                    StreamResponse::Accessed { changed, expired },
                ) => {
                    &&& after.commit_index == state.commit_index + if changed || expired {
                        1int
                    } else {
                        0
                    }
                    &&& outcome matches WriteOutcome::Done(
                        GroupWriteResponse::TouchStreamAccess(response),
                    ) && response.placement == placement && response.changed == changed
                        && response.expired == expired && response.group_commit_index
                        == after.commit_index
                },
                (
                    StreamCommand::UpdateStreamAttrs { .. },
                    StreamResponse::AttrsUpdated { changed },
                ) => {
                    &&& after.commit_index == state.commit_index + if changed {
                        1int
                    } else {
                        0
                    }
                    &&& outcome matches WriteOutcome::Done(
                        GroupWriteResponse::UpdateStreamAttrs(response),
                    ) && response.placement == placement && response.changed == changed
                        && response.group_commit_index == after.commit_index
                },
                (
                    StreamCommand::AddForkRef { .. },
                    StreamResponse::ForkRefAdded { fork_ref_count },
                ) => {
                    &&& after.commit_index == state.commit_index + 1
                    &&& outcome matches WriteOutcome::Done(
                        GroupWriteResponse::AddForkRef(response),
                    ) && response.placement == placement && response.fork_ref_count
                        == fork_ref_count && !response.hard_deleted
                        && response.parent_to_release is None && response.group_commit_index
                        == after.commit_index
                },
                (
                    StreamCommand::ReleaseForkRef { .. },
                    StreamResponse::ForkRefReleased {
                        hard_deleted,
                        fork_ref_count,
                        parent_to_release,
                    },
                ) => {
                    &&& after.commit_index == state.commit_index + 1
                    &&& outcome matches WriteOutcome::Done(
                        GroupWriteResponse::ReleaseForkRef(response),
                    ) && response.placement == placement && response.fork_ref_count
                        == fork_ref_count && response.hard_deleted == hard_deleted
                        && response.parent_to_release == parent_to_release
                        && response.group_commit_index == after.commit_index
                },
                (
                    StreamCommand::FlushCold { .. },
                    StreamResponse::ColdFlushed { hot_start_offset },
                ) => {
                    &&& after.commit_index == state.commit_index + 1
                    &&& outcome matches WriteOutcome::Done(
                        GroupWriteResponse::FlushCold(response),
                    ) && response.placement == placement && response.hot_start_offset
                        == hot_start_offset && response.group_commit_index == after.commit_index
                },
                (
                    StreamCommand::Close { .. },
                    StreamResponse::Closed { next_offset, deduplicated },
                ) => {
                    &&& after.commit_index == state.commit_index + if deduplicated {
                        0int
                    } else {
                        1
                    }
                    &&& outcome matches WriteOutcome::Done(
                        GroupWriteResponse::CloseStream(response),
                    ) && response.placement == placement && response.next_offset == next_offset
                        && response.deduplicated == deduplicated && response.group_commit_index
                        == after.commit_index
                },
                (
                    StreamCommand::DeleteStream { stream_id },
                    StreamResponse::Deleted { hard_deleted, parent_to_release },
                ) => {
                    &&& after.commit_index == state.commit_index + 1
                    &&& hard_deleted ==> !after.counts.contains_key(stream_id@)
                    &&& !hard_deleted ==> after.counts == state.counts
                    &&& outcome matches WriteOutcome::Done(
                        GroupWriteResponse::DeleteStream(response),
                    ) && response.placement == placement && response.hard_deleted == hard_deleted
                        && response.parent_to_release == parent_to_release
                        && response.group_commit_index == after.commit_index
                },
                (StreamCommand::AckColdGc { .. }, StreamResponse::ColdGcAcked { removed }) => {
                    &&& after.commit_index == state.commit_index + 1
                    &&& outcome matches WriteOutcome::Done(
                        GroupWriteResponse::AckColdGc(response),
                    ) && response.placement == placement && response.removed == removed
                        && response.group_commit_index == after.commit_index
                },
                _ => true,
            }
        }),
{
}

/// Only the end of a stream for good and an append to it change how often it was
/// appended to.
pub proof fn law_only_appends_and_deletions_change_counts(
    state: EngineState,
    command: StreamCommand,
    answer: StreamResponse,
    placement: ShardPlacement,
)
    requires
        state::answers(command, MachineAnswer::One(answer)),
        !(answer is Appended),
        !(answer is Deleted),
    ensures
        state::applied(state, command, MachineAnswer::One(answer), placement).0.counts
            == state.counts,
{
}

/// What the stream layer refuses is refused with its code, its words and the offset that
/// it names, and changes nothing. The one command that is not refused so is the removal
/// of garbage, for which no refusal is expected.
pub proof fn law_refusal_keeps_its_words(
    state: EngineState,
    command: StreamCommand,
    answer: MachineAnswer,
    placement: ShardPlacement,
)
    requires
        state::answers(command, answer),
        match answer {
            MachineAnswer::One(response) => response is Error,
            MachineAnswer::NoBucket(response) => response is Error,
            MachineAnswer::Whole(Err(response)) => response is Error,
            _ => false,
        },
    ensures
        ({
            let (after, outcome) = state::applied(state, command, answer, placement);
            let response = match answer {
                MachineAnswer::One(response) => response,
                MachineAnswer::NoBucket(response) => response,
                _ => answer->Whole_0->Err_0,
            };
            &&& after == state
            &&& command is AckColdGc ==> (outcome matches WriteOutcome::Refused(
                Refusal::Internal { .. },
            ))
            &&& !(command is AckColdGc) ==> outcome == WriteOutcome::Refused(
                Refusal::Stream {
                    code: response->code,
                    message: response->message@,
                    next_offset: response->Error_next_offset,
                },
            )
        }),
{
}

/// A bucket that is made when a log is replayed counts as a write; one that was there
/// before does not. Any other answer is refused.
pub proof fn law_replayed_bucket_counts_once(
    state: EngineState,
    command: StreamCommand,
    answer: StreamResponse,
)
    requires
        command is CreateBucket || command is DeleteBucket,
        state.has_room(1),
    ensures
        ({
            let (after, result) = state::replayed(state, command, MachineAnswer::One(answer));
            let is_done = if command is CreateBucket {
                answer is BucketCreated
            } else {
                answer is BucketDeleted
            };
            &&& after.counts == state.counts
            &&& is_done ==> result is Ok && after.commit_index == state.commit_index + 1
            &&& !is_done ==> after.commit_index == state.commit_index
            &&& !is_done ==> (result is Ok <==> command is CreateBucket
                && answer is BucketAlreadyExists)
        }),
{
}

/// What a caller gets is what came of the write: its response, the items in their order,
/// or the refusal with its code, its words and the offset that it names.
pub proof fn law_result_is_what_came_of_the_write(
    result: Result<GroupWriteResponse, GroupEngineError>,
    outcome: WriteOutcome,
)
    requires
        state::is_outcome(result, outcome),
    ensures
        match outcome {
            WriteOutcome::Done(response) => result is Ok && result->Ok_0 == response,
            WriteOutcome::Items { placement, items } => result matches Ok(
                GroupWriteResponse::AppendBatch(response),
            ) && {
                &&& response.placement == placement
                &&& response.items@.len() == items.len()
                &&& forall|i: int|
                    0 <= i < items.len() ==> match #[trigger] items[i] {
                        Ok(item) => response.items@[i] is Ok && response.items@[i]->Ok_0 == item,
                        Err(Refusal::Stream { code, message, next_offset }) =>
                            response.items@[i] matches Err(GroupEngineError::Stream(error))
                                && error.code == code && error.next_offset == next_offset
                                && error.message@.len() >= message.len()
                                && error.message@.subrange(
                                error.message@.len() - message.len(),
                                error.message@.len() as int,
                            ) == message,
                        Err(Refusal::Internal { message }) => response.items@[i] matches Err(
                            GroupEngineError::Infra(GroupInfraError::Internal { message: words }),
                        ) && words@ == message,
                    }
            },
            WriteOutcome::Refused(Refusal::Stream { code, message, next_offset }) =>
                result matches Err(GroupEngineError::Stream(error)) && error.code == code
                    && error.next_offset == next_offset && error.message@.len() >= message.len()
                    && error.message@.subrange(
                    error.message@.len() - message.len(),
                    error.message@.len() as int,
                ) == message,
            WriteOutcome::Refused(Refusal::Internal { message }) => result matches Err(
                GroupEngineError::Infra(GroupInfraError::Internal { message: words }),
            ) && words@ == message,
        },
{
    match outcome {
        WriteOutcome::Items { placement, items } => {
            let list = result->Ok_0->AppendBatch_0.items@;
            assert forall|i: int| 0 <= i < items.len() implies match #[trigger] items[i] {
                Ok(item) => list[i] is Ok && list[i]->Ok_0 == item,
                Err(Refusal::Stream { code, message, next_offset }) => list[i] matches Err(
                    GroupEngineError::Stream(error),
                ) && error.code == code && error.next_offset == next_offset
                    && error.message@.len() >= message.len() && error.message@.subrange(
                    error.message@.len() - message.len(),
                    error.message@.len() as int,
                ) == message,
                Err(Refusal::Internal { message }) => list[i] matches Err(
                    GroupEngineError::Infra(GroupInfraError::Internal { message: words }),
                ) && words@ == message,
            } by {
                assert(state::is_item(list[i], items[i]));
                if let Err(Refusal::Stream { code, message, next_offset }) = items[i] {
                    lemma_words_end(stream::code_name(code) + ": "@, message);
                }
            }
        },
        WriteOutcome::Refused(Refusal::Stream { code, message, next_offset }) => {
            lemma_words_end(stream::code_name(code) + ": "@, message);
        },
        _ => {},
    }
}

proof fn lemma_words_end(start: Seq<char>, words: Seq<char>)
    ensures
        (start + words).subrange(
            (start + words).len() - words.len(),
            (start + words).len() as int,
        ) == words,
{
    assert((start + words).subrange(
        (start + words).len() - words.len(),
        (start + words).len() as int,
    ) =~= words);
}

} // verus!
