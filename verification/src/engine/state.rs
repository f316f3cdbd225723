//! What an engine's state is, and what a write does to it.

use vstd::prelude::*;
use crate::engine::errors;
use crate::engine::errors::GroupEngineError;
use crate::engine::responses::GroupWriteResponse;
use crate::ids::{ShardPlacement, StreamName};
use crate::request::{
    AckColdGcResponse, AppendResponse, CloseStreamResponse, CreateStreamResponse,
    DeleteStreamResponse, FlushColdResponse, ForkRefResponse, PublishSnapshotResponse,
    TouchStreamAccessResponse, UpdateStreamAttrsResponse,
};
use crate::stream;
use crate::stream::{BatchAppended, BatchItem, StreamCommand, StreamErrorCode, StreamResponse};

verus! {

/// The state of an engine beside its streams: how many writes were applied, and
/// how often each stream was appended to.
#[verifier::ext_equal]
pub struct EngineState {
    pub commit_index: u64,
    pub counts: Map<StreamName, u64>,
}

/// Why a write is refused.
pub enum Refusal {
    Stream { code: StreamErrorCode, message: Seq<char>, next_offset: Option<u64> },
    Internal { message: Seq<char> },
}

/// What the stream layer had to say to a write.
pub enum MachineAnswer {
    /// The answer to a command.
    One(StreamResponse),
    /// The bucket of a new stream could not be made, with the answer that said so.
    NoBucket(StreamResponse),
    /// The answer to a batch that was appended as a whole.
    Whole(Result<BatchAppended, StreamResponse>),
    /// The answer to each payload of a batch, none for an empty one.
    Each(Vec<Option<StreamResponse>>),
}

/// What comes of a write.
pub enum WriteOutcome {
    Done(GroupWriteResponse),
    Items { placement: ShardPlacement, items: Seq<Result<AppendResponse, Refusal>> },
    Refused(Refusal),
}

/// Whether an error is this refusal.
pub open spec fn is_refusal(error: GroupEngineError, refusal: Refusal) -> bool {
    match refusal {
        Refusal::Stream { code, message, next_offset } => errors::is_stream_error(
            error,
            code,
            message,
            next_offset,
        ),
        Refusal::Internal { message } => errors::is_internal_error(error, message),
    }
}

/// Whether an item is the expected one.
pub open spec fn is_item(
    item: Result<AppendResponse, GroupEngineError>,
    expected: Result<AppendResponse, Refusal>,
) -> bool {
    match expected {
        Ok(response) => item == Ok::<AppendResponse, GroupEngineError>(response),
        Err(refusal) => item is Err && is_refusal(item->Err_0, refusal),
    }
}

/// Whether the items are the expected ones.
pub open spec fn are_items(
    items: Seq<Result<AppendResponse, GroupEngineError>>,
    expected: Seq<Result<AppendResponse, Refusal>>,
) -> bool {
    &&& items.len() == expected.len()
    &&& forall|i: int| 0 <= i < items.len() ==> is_item(#[trigger] items[i], expected[i])
}

/// Whether a result is the expected outcome.
pub open spec fn is_outcome(
    result: Result<GroupWriteResponse, GroupEngineError>,
    outcome: WriteOutcome,
) -> bool {
    match outcome {
        WriteOutcome::Done(response) => result == Ok::<GroupWriteResponse, GroupEngineError>(
            response,
        ),
        WriteOutcome::Items { placement, items } => result matches Ok(
            GroupWriteResponse::AppendBatch(response),
        ) && response.placement == placement && are_items(response.items@, items),
        WriteOutcome::Refused(refusal) => result is Err && is_refusal(result->Err_0, refusal),
    }
}

/// The refusal in an answer that is not the one hoped for: the stream layer's
/// own, or `surprise` and the answer itself.
pub open spec fn refusal_of(surprise: Seq<char>, response: StreamResponse) -> Refusal {
    match response {
        StreamResponse::Error { code, message, next_offset } => Refusal::Stream {
            code,
            message: message@,
            next_offset,
        },
        other => surprise_of(surprise, other),
    }
}

/// An answer that should not have come.
pub open spec fn surprise_of(surprise: Seq<char>, response: StreamResponse) -> Refusal {
    Refusal::Internal { message: surprise + stream::response_debug(response) }
}

/// The refusal of an empty payload.
pub open spec fn empty_append() -> Refusal {
    Refusal::Stream {
        code: StreamErrorCode::EmptyAppend,
        message: "append payload must be non-empty"@,
        next_offset: None,
    }
}

impl EngineState {
    /// How often a stream was appended to.
    pub open spec fn count_of(self, stream: StreamName) -> u64 {
        if self.counts.contains_key(stream) {
            self.counts[stream]
        } else {
            0
        }
    }

    /// The state after `by` more writes.
    pub open spec fn advanced(self, by: int) -> EngineState {
        EngineState { commit_index: (self.commit_index + by) as u64, counts: self.counts }
    }

    /// The state after `by` more appends to a stream.
    pub open spec fn counted(self, stream: StreamName, by: int) -> EngineState {
        EngineState {
            commit_index: self.commit_index,
            counts: self.counts.insert(stream, (self.count_of(stream) + by) as u64),
        }
    }

    /// The state without a stream's count.
    pub open spec fn forgotten(self, stream: StreamName) -> EngineState {
        EngineState { commit_index: self.commit_index, counts: self.counts.remove(stream) }
    }

    /// Whether `by` more writes can be counted.
    pub open spec fn has_room(self, by: int) -> bool {
        &&& self.commit_index + by <= u64::MAX
        &&& forall|stream: StreamName|
            self.counts.contains_key(stream) ==> #[trigger] self.counts[stream] + by <= u64::MAX
    }

    /// Whether two states count the same, where no count is a count of zero.
    pub open spec fn same_counts(self, other: EngineState) -> bool {
        &&& self.commit_index == other.commit_index
        &&& forall|stream: StreamName| #[trigger]
            self.count_of(stream) == other.count_of(stream)
    }
}

/// What an answer to an append does and gives.
pub open spec fn appended(
    state: EngineState,
    stream: StreamName,
    surprise: Seq<char>,
    response: StreamResponse,
    placement: ShardPlacement,
) -> (EngineState, Result<AppendResponse, Refusal>) {
    match response {
        StreamResponse::Appended {
            offset,
            next_offset,
            closed,
            deduplicated,
            producer,
            record_range,
        } => {
            let after = if deduplicated {
                state.counted(stream, 0)
            } else {
                state.advanced(1).counted(stream, 1)
            };
            (
                after,
                Ok(
                    AppendResponse {
                        placement,
                        start_offset: offset,
                        next_offset,
                        stream_append_count: after.count_of(stream),
                        group_commit_index: after.commit_index,
                        closed,
                        deduplicated,
                        producer,
                        record_range,
                    },
                ),
            )
        },
        other => (state, Err(refusal_of(surprise, other))),
    }
}

/// What one item of a batch that was appended as a whole gives; `state` is the
/// state before the batch.
pub open spec fn batch_item(
    state: EngineState,
    stream: StreamName,
    placement: ShardPlacement,
    item: BatchItem,
    index: int,
) -> AppendResponse {
    let behind: int = if item.deduplicated {
        0
    } else {
        index + 1
    };
    AppendResponse {
        placement,
        start_offset: item.offset,
        next_offset: item.next_offset,
        stream_append_count: (state.count_of(stream) + behind) as u64,
        group_commit_index: (state.commit_index + behind) as u64,
        closed: item.closed,
        deduplicated: item.deduplicated,
        producer: None,
        record_range: item.record_range,
    }
}

/// The state after a batch that was appended as a whole.
pub open spec fn batch_counted(
    state: EngineState,
    stream: StreamName,
    batch: BatchAppended,
) -> EngineState {
    if batch.deduplicated {
        state
    } else {
        state.advanced(batch.items@.len() as int).counted(stream, batch.items@.len() as int)
    }
}

/// What a batch that was appended as a whole does and gives.
pub open spec fn appended_whole(
    state: EngineState,
    stream: StreamName,
    answer: Result<BatchAppended, StreamResponse>,
    placement: ShardPlacement,
) -> (EngineState, WriteOutcome) {
    match answer {
        Ok(batch) => (
            batch_counted(state, stream, batch),
            WriteOutcome::Items {
                placement,
                items: Seq::new(
                    batch.items@.len(),
                    |i: int| Ok(batch_item(state, stream, placement, batch.items@[i], i)),
                ),
            },
        ),
        Err(response) => (
            state,
            WriteOutcome::Refused(refusal_of("unexpected stream response error: "@, response)),
        ),
    }
}

/// What the payloads of a batch do and give, one after the other.
pub open spec fn appended_each(
    state: EngineState,
    stream: StreamName,
    answers: Seq<Option<StreamResponse>>,
    placement: ShardPlacement,
) -> (EngineState, Seq<Result<AppendResponse, Refusal>>)
    decreases answers.len(),
{
    if answers.len() == 0 {
        (state, Seq::empty())
    } else {
        let (before, items) = appended_each(state, stream, answers.drop_last(), placement);
        match answers.last() {
            Some(response) => {
                let (after, item) = appended(
                    before,
                    stream,
                    "unexpected append response: "@,
                    response,
                    placement,
                );
                (after, items.push(item))
            },
            None => (before, items.push(Err(empty_append()))),
        }
    }
}

/// The stream that a command is about; buckets and garbage have none.
pub open spec fn stream_of(command: StreamCommand) -> StreamName {
    match command {
        StreamCommand::CreateBucket { .. } => arbitrary(),
        StreamCommand::DeleteBucket { .. } => arbitrary(),
        StreamCommand::CreateStream { stream_id, .. } => stream_id@,
        StreamCommand::CreateExternal { stream_id, .. } => stream_id@,
        StreamCommand::Append { stream_id, .. } => stream_id@,
        StreamCommand::AppendExternal { stream_id, .. } => stream_id@,
        StreamCommand::AppendBatch { stream_id, .. } => stream_id@,
        StreamCommand::PublishSnapshot { stream_id, .. } => stream_id@,
        StreamCommand::TouchStreamAccess { stream_id, .. } => stream_id@,
        StreamCommand::UpdateStreamAttrs { stream_id, .. } => stream_id@,
        StreamCommand::AddForkRef { stream_id, .. } => stream_id@,
        StreamCommand::ReleaseForkRef { stream_id } => stream_id@,
        StreamCommand::FlushCold { stream_id, .. } => stream_id@,
        StreamCommand::Close { stream_id, .. } => stream_id@,
        StreamCommand::DeleteStream { stream_id } => stream_id@,
        StreamCommand::AckColdGc { .. } => arbitrary(),
    }
}

/// What an answer to a creation does and gives.
pub open spec fn created(
    state: EngineState,
    surprise: Seq<char>,
    response: StreamResponse,
    placement: ShardPlacement,
) -> (EngineState, WriteOutcome) {
    match response {
        StreamResponse::Created { next_offset, closed, record_range } => (
            state.advanced(1),
            WriteOutcome::Done(
                GroupWriteResponse::CreateStream(
                    CreateStreamResponse {
                        placement,
                        next_offset,
                        closed,
                        already_exists: false,
                        group_commit_index: state.advanced(1).commit_index,
                        record_range,
                    },
                ),
            ),
        ),
        StreamResponse::AlreadyExists { next_offset, closed, record_range } => (
            state,
            WriteOutcome::Done(
                GroupWriteResponse::CreateStream(
                    CreateStreamResponse {
                        placement,
                        next_offset,
                        closed,
                        already_exists: true,
                        group_commit_index: state.commit_index,
                        record_range,
                    },
                ),
            ),
        ),
        other => (state, WriteOutcome::Refused(refusal_of(surprise, other))),
    }
}

/// What an append gives, as the outcome of a write.
pub open spec fn as_append(
    result: (EngineState, Result<AppendResponse, Refusal>),
) -> (EngineState, WriteOutcome) {
    (
        result.0,
        match result.1 {
            Ok(response) => WriteOutcome::Done(GroupWriteResponse::Append(response)),
            Err(refusal) => WriteOutcome::Refused(refusal),
        },
    )
}

/// What the answer to a single command does and gives.
pub open spec fn applied_one(
    state: EngineState,
    command: StreamCommand,
    response: StreamResponse,
    placement: ShardPlacement,
) -> (EngineState, WriteOutcome) {
    let next = state.advanced(1);
    match command {
        StreamCommand::CreateStream { .. } => created(
            state,
            "unexpected create stream response: "@,
            response,
            placement,
        ),
        StreamCommand::CreateExternal { .. } => created(
            state,
            "unexpected create external stream response: "@,
            response,
            placement,
        ),
        StreamCommand::Append { stream_id, .. } => as_append(
            appended(state, stream_id@, "unexpected append response: "@, response, placement),
        ),
        StreamCommand::AppendExternal { stream_id, .. } => as_append(
            appended(
                state,
                stream_id@,
                "unexpected append external response: "@,
                response,
                placement,
            ),
        ),
        StreamCommand::PublishSnapshot { .. } => match response {
            StreamResponse::SnapshotPublished { snapshot_offset } => (
                next,
                WriteOutcome::Done(
                    GroupWriteResponse::PublishSnapshot(
                        PublishSnapshotResponse {
                            placement,
                            snapshot_offset,
                            group_commit_index: next.commit_index,
                        },
                    ),
                ),
            ),
            other => (
                state,
                WriteOutcome::Refused(
                    refusal_of("unexpected publish snapshot response: "@, other),
                ),
            ),
        },
        StreamCommand::TouchStreamAccess { .. } => match response {
            StreamResponse::Accessed { changed, expired } => {
                let after = if changed || expired {
                    next
                } else {
                    state
                };
                (
                    after,
                    WriteOutcome::Done(
                        GroupWriteResponse::TouchStreamAccess(
                            TouchStreamAccessResponse {
                                placement,
                                changed,
                                expired,
                                group_commit_index: after.commit_index,
                            },
                        ),
                    ),
                )
            },
            other => (
                state,
                WriteOutcome::Refused(
                    refusal_of("unexpected touch stream access response: "@, other),
                ),
            ),
        },
        StreamCommand::UpdateStreamAttrs { .. } => match response {
            StreamResponse::AttrsUpdated { changed } => {
                let after = if changed {
                    next
                } else {
                    state
                };
                (
                    after,
                    WriteOutcome::Done(
                        GroupWriteResponse::UpdateStreamAttrs(
                            UpdateStreamAttrsResponse {
                                placement,
                                changed,
                                group_commit_index: after.commit_index,
                            },
                        ),
                    ),
                )
            },
            other => (
                state,
                WriteOutcome::Refused(
                    refusal_of("unexpected update stream attrs response: "@, other),
                ),
            ),
        },
        StreamCommand::AddForkRef { .. } => match response {
            StreamResponse::ForkRefAdded { fork_ref_count } => (
                next,
                WriteOutcome::Done(
                    GroupWriteResponse::AddForkRef(
                        ForkRefResponse {
                            placement,
                            fork_ref_count,
                            hard_deleted: false,
                            parent_to_release: None,
                            group_commit_index: next.commit_index,
                        },
                    ),
                ),
            ),
            other => (
                state,
                WriteOutcome::Refused(refusal_of("unexpected add fork ref response: "@, other)),
            ),
        },
        StreamCommand::ReleaseForkRef { .. } => match response {
            StreamResponse::ForkRefReleased { hard_deleted, fork_ref_count, parent_to_release } => (
                next,
                WriteOutcome::Done(
                    GroupWriteResponse::ReleaseForkRef(
                        ForkRefResponse {
                            placement,
                            fork_ref_count,
                            hard_deleted,
                            parent_to_release,
                            group_commit_index: next.commit_index,
                        },
                    ),
                ),
            ),
            other => (
                state,
                WriteOutcome::Refused(refusal_of("unexpected release fork ref response: "@, other)),
            ),
        },
        StreamCommand::FlushCold { .. } => match response {
            StreamResponse::ColdFlushed { hot_start_offset } => (
                next,
                WriteOutcome::Done(
                    GroupWriteResponse::FlushCold(
                        FlushColdResponse {
                            placement,
                            hot_start_offset,
                            group_commit_index: next.commit_index,
                        },
                    ),
                ),
            ),
            other => (
                state,
                WriteOutcome::Refused(refusal_of("unexpected flush cold response: "@, other)),
            ),
        },
        StreamCommand::Close { .. } => match response {
            StreamResponse::Closed { next_offset, deduplicated } => {
                let after = if deduplicated {
                    state
                } else {
                    next
                };
                (
                    after,
                    WriteOutcome::Done(
                        GroupWriteResponse::CloseStream(
                            CloseStreamResponse {
                                placement,
                                next_offset,
                                group_commit_index: after.commit_index,
                                deduplicated,
                            },
                        ),
                    ),
                )
            },
            other => (
                state,
                WriteOutcome::Refused(refusal_of("unexpected close stream response: "@, other)),
            ),
        },
        StreamCommand::DeleteStream { stream_id } => match response {
            StreamResponse::Deleted { hard_deleted, parent_to_release } => (
                if hard_deleted {
                    next.forgotten(stream_id@)
                } else {
                    next
                },
                WriteOutcome::Done(
                    GroupWriteResponse::DeleteStream(
                        DeleteStreamResponse {
                            placement,
                            group_commit_index: next.commit_index,
                            hard_deleted,
                            parent_to_release,
                        },
                    ),
                ),
            ),
            other => (
                state,
                WriteOutcome::Refused(refusal_of("unexpected delete stream response: "@, other)),
            ),
        },
        StreamCommand::AckColdGc { .. } => match response {
            StreamResponse::ColdGcAcked { removed } => (
                next,
                WriteOutcome::Done(
                    GroupWriteResponse::AckColdGc(
                        AckColdGcResponse {
                            placement,
                            removed,
                            group_commit_index: next.commit_index,
                        },
                    ),
                ),
            ),
            other => (
                state,
                WriteOutcome::Refused(surprise_of("unexpected ack cold gc response: "@, other)),
            ),
        },
        _ => arbitrary(),
    }
}

/// Whether an answer to the creation of a bucket says that the bucket is there.
pub open spec fn bucket_is_there(response: StreamResponse) -> bool {
    response is BucketCreated || response is BucketAlreadyExists
}

/// Whether a command is a write of a group. Buckets are made with their first
/// stream.
pub open spec fn is_group_write(command: StreamCommand) -> bool {
    !(command is CreateBucket) && !(command is DeleteBucket)
}

/// Whether an answer can be the answer to a command.
pub open spec fn answers(command: StreamCommand, answer: MachineAnswer) -> bool {
    match (command, answer) {
        (StreamCommand::AppendBatch { payloads, producer, .. }, MachineAnswer::Each(answers)) =>
            producer is None && answers@.len() == payloads@.len() && forall|i: int|
                0 <= i < answers@.len() ==> ((#[trigger] answers@[i]) is Some
                    <==> payloads@[i]@.len() > 0),
        (StreamCommand::AppendBatch { producer, .. }, MachineAnswer::Whole(_)) => producer is Some,
        (StreamCommand::AppendBatch { .. }, _) => false,
        (StreamCommand::CreateStream { .. }, MachineAnswer::NoBucket(response)) => !bucket_is_there(
            response,
        ),
        (StreamCommand::CreateExternal { .. }, MachineAnswer::NoBucket(response)) =>
            !bucket_is_there(response),
        (command, MachineAnswer::One(_)) => is_group_write(command),
        _ => false,
    }
}

/// How many writes an answer can stand for.
pub open spec fn weight(answer: MachineAnswer) -> int {
    match answer {
        MachineAnswer::One(_) => 1,
        MachineAnswer::NoBucket(_) => 0,
        MachineAnswer::Whole(Ok(batch)) => batch.items@.len() as int,
        MachineAnswer::Whole(Err(_)) => 0,
        MachineAnswer::Each(answers) => answers@.len() as int,
    }
}

/// What a write does and gives.
pub open spec fn applied(
    state: EngineState,
    command: StreamCommand,
    answer: MachineAnswer,
    placement: ShardPlacement,
) -> (EngineState, WriteOutcome) {
    match answer {
        MachineAnswer::One(response) => applied_one(state, command, response, placement),
        MachineAnswer::NoBucket(response) => (
            state,
            WriteOutcome::Refused(refusal_of("unexpected create bucket response: "@, response)),
        ),
        MachineAnswer::Whole(answer) => appended_whole(state, stream_of(command), answer, placement),
        MachineAnswer::Each(answers) => {
            let (after, items) = appended_each(state, stream_of(command), answers@, placement);
            (after, WriteOutcome::Items { placement, items })
        },
    }
}

/// The state after the answer to an append that is replayed.
pub open spec fn replayed_append(
    state: EngineState,
    stream: StreamName,
    deduplicated: bool,
) -> EngineState {
    if deduplicated {
        state
    } else {
        state.advanced(1).counted(stream, 1)
    }
}

/// The state after `response` where it is one of the two that are in order: one
/// that counts and one that does not.
pub open spec fn replayed_plain(
    state: EngineState,
    counts: bool,
    fits: bool,
    surprise: Seq<char>,
    response: StreamResponse,
) -> (EngineState, Result<(), Refusal>) {
    if counts {
        (state.advanced(1), Ok(()))
    } else if fits {
        (state, Ok(()))
    } else {
        (state, Err(refusal_of(surprise, response)))
    }
}

/// What a replayed command does, with the answer that it gets.
pub open spec fn replayed_one(
    state: EngineState,
    command: StreamCommand,
    response: StreamResponse,
) -> (EngineState, Result<(), Refusal>) {
    match command {
        StreamCommand::CreateBucket { .. } => replayed_plain(
            state,
            response is BucketCreated,
            response is BucketAlreadyExists,
            "unexpected replay create bucket response: "@,
            response,
        ),
        StreamCommand::DeleteBucket { .. } => replayed_plain(
            state,
            response is BucketDeleted,
            false,
            "unexpected replay delete bucket response: "@,
            response,
        ),
        StreamCommand::CreateStream { .. } => replayed_plain(
            state,
            response is Created,
            response is AlreadyExists,
            "unexpected replay create stream response: "@,
            response,
        ),
        StreamCommand::CreateExternal { .. } => replayed_plain(
            state,
            response is Created,
            response is AlreadyExists,
            "unexpected replay external create stream response: "@,
            response,
        ),
        StreamCommand::Append { stream_id, .. } => match response {
            StreamResponse::Appended { deduplicated, .. } => (
                replayed_append(state, stream_id@, deduplicated),
                Ok(()),
            ),
            other => replayed_plain(
                state,
                other is Closed && !other->Closed_deduplicated,
                other is Closed,
                "unexpected replay append response: "@,
                other,
            ),
        },
        StreamCommand::AppendExternal { stream_id, .. } => match response {
            StreamResponse::Appended { deduplicated, .. } => (
                replayed_append(state, stream_id@, deduplicated),
                Ok(()),
            ),
            other => (
                state,
                Err(refusal_of("unexpected replay external append response: "@, other)),
            ),
        },
        StreamCommand::PublishSnapshot { .. } => replayed_plain(
            state,
            response is SnapshotPublished,
            false,
            "unexpected replay publish snapshot response: "@,
            response,
        ),
        StreamCommand::TouchStreamAccess { .. } => replayed_plain(
            state,
            response is Accessed && (response->Accessed_changed || response->Accessed_expired),
            response is Accessed,
            "unexpected replay touch stream access response: "@,
            response,
        ),
        StreamCommand::UpdateStreamAttrs { .. } => replayed_plain(
            state,
            response is AttrsUpdated && response->AttrsUpdated_changed,
            response is AttrsUpdated,
            "unexpected replay update stream attrs response: "@,
            response,
        ),
        StreamCommand::AddForkRef { .. } => replayed_plain(
            state,
            response is ForkRefAdded,
            false,
            "unexpected replay add fork ref response: "@,
            response,
        ),
        StreamCommand::ReleaseForkRef { .. } => replayed_plain(
            state,
            response is ForkRefReleased,
            false,
            "unexpected replay release fork ref response: "@,
            response,
        ),
        StreamCommand::FlushCold { .. } => replayed_plain(
            state,
            response is ColdFlushed,
            false,
            "unexpected replay flush cold response: "@,
            response,
        ),
        StreamCommand::Close { .. } => replayed_plain(
            state,
            response is Closed && !response->Closed_deduplicated,
            response is Closed,
            "unexpected replay close stream response: "@,
            response,
        ),
        StreamCommand::DeleteStream { .. } => replayed_plain(
            state,
            response is Deleted,
            false,
            "unexpected replay delete stream response: "@,
            response,
        ),
        StreamCommand::AckColdGc { .. } => match response {
            StreamResponse::ColdGcAcked { .. } => (state.advanced(1), Ok(())),
            other => (state, Err(surprise_of("unexpected replay ack cold gc response: "@, other))),
        },
        _ => arbitrary(),
    }
}

/// Whether an answer can be the answer to a replayed command.
pub open spec fn answers_replay(command: StreamCommand, answer: MachineAnswer) -> bool {
    match (command, answer) {
        (StreamCommand::AppendBatch { .. }, MachineAnswer::Whole(_)) => true,
        (StreamCommand::AppendBatch { .. }, _) => false,
        (StreamCommand::CreateStream { .. }, MachineAnswer::NoBucket(response)) => !bucket_is_there(
            response,
        ),
        (StreamCommand::CreateExternal { .. }, MachineAnswer::NoBucket(response)) =>
            !bucket_is_there(response),
        (_, MachineAnswer::One(_)) => true,
        _ => false,
    }
}

/// What a replayed command does.
pub open spec fn replayed(
    state: EngineState,
    command: StreamCommand,
    answer: MachineAnswer,
) -> (EngineState, Result<(), Refusal>) {
    match answer {
        MachineAnswer::One(response) => replayed_one(state, command, response),
        MachineAnswer::NoBucket(response) => (
            state,
            Err(refusal_of("unexpected create bucket response: "@, response)),
        ),
        MachineAnswer::Whole(Ok(batch)) => (
            batch_counted(state, stream_of(command), batch),
            Ok(()),
        ),
        MachineAnswer::Whole(Err(response)) => (
            state,
            Err(refusal_of("unexpected stream response error: "@, response)),
        ),
        MachineAnswer::Each(_) => arbitrary(),
    }
}

} // verus!
