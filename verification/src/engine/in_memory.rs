//! An engine that keeps a group's state in memory.

use vstd::prelude::*;
use crate::engine::errors::GroupEngineError;
use crate::engine::responses::{GroupAppendBatchResponse, GroupWriteResponse};
use crate::engine::state;
use crate::engine::state::{EngineState, MachineAnswer};
use crate::ids::{BucketStreamId, CoreId, RaftGroupId, ShardId, ShardPlacement};
use crate::request::{
    AckColdGcResponse, AppendResponse, CloseStreamResponse, CreateStreamResponse,
    DeleteStreamResponse, FlushColdResponse, ForkRefResponse, PublishSnapshotResponse,
    TouchStreamAccessResponse, UpdateStreamAttrsResponse,
};
use crate::stream::{debug_response, BatchAppended, StreamCommand, StreamErrorCode, StreamResponse};
use crate::table::Table;

verus! {

/// The counters of a group.
#[derive(Debug)]
pub struct InMemoryGroupEngine {
    pub commit_index: u64,
    pub stream_append_counts: Table<BucketStreamId, u64>,
}

/// The error for an answer that is not the one hoped for.
fn refuse(surprise: &str, response: StreamResponse) -> (r: GroupEngineError)
    ensures
        state::is_refusal(r, state::refusal_of(surprise@, response)),
{
    match response {
        StreamResponse::Error { code, message, next_offset } =>
            GroupEngineError::stream_with_next_offset(code, message.as_str(), next_offset),
        other => unexpected(surprise, &other),
    }
}

/// The error for an answer that should not have come.
fn unexpected(surprise: &str, response: &StreamResponse) -> (r: GroupEngineError)
    ensures
        state::is_refusal(r, state::surprise_of(surprise@, *response)),
{
    let mut text = surprise.to_owned();
    text.append(debug_response(response).as_str());
    GroupEngineError::new(text.as_str())
}

/// The error in an answer that refuses a read or a batch.
pub fn stream_response_error(response: StreamResponse) -> (r: GroupEngineError)
    ensures
        state::is_refusal(
            r,
            state::refusal_of("unexpected stream response error: "@, response),
        ),
{
    refuse("unexpected stream response error: ", response)
}

/// Whether the bucket of a new stream is there, after the stream layer was asked
/// to make it.
pub fn ensure_bucket_exists(response: StreamResponse) -> (r: Result<(), GroupEngineError>)
    ensures
        if state::bucket_is_there(response) {
            r is Ok
        } else {
            r is Err && state::is_refusal(
                r->Err_0,
                state::refusal_of("unexpected create bucket response: "@, response),
            )
        },
{
    match response {
        StreamResponse::BucketCreated => Ok(()),
        StreamResponse::BucketAlreadyExists => Ok(()),
        other => Err(refuse("unexpected create bucket response: ", other)),
    }
}

impl InMemoryGroupEngine {
    pub open spec fn wf(&self) -> bool {
        self.stream_append_counts.wf()
    }

    pub open spec fn view(&self) -> EngineState {
        EngineState { commit_index: self.commit_index, counts: self.stream_append_counts@ }
    }

    pub fn new() -> (r: Self)
        ensures
            r.wf(),
            r@ == (EngineState { commit_index: 0, counts: Map::empty() }),
    {
        InMemoryGroupEngine { commit_index: 0, stream_append_counts: Table::new() }
    }

    /// How often a stream was appended to.
    pub fn append_count(&self, stream_id: &BucketStreamId) -> (r: u64)
        requires
            self.wf(),
        ensures
            r == self@.count_of(stream_id@),
    {
        match self.stream_append_counts.get(stream_id) {
            Some(count) => *count,
            None => 0,
        }
    }

    /// Counts `by` more appends to a stream.
    fn add_appends(&mut self, stream_id: &BucketStreamId, by: u64) -> (r: u64)
        requires
            old(self).wf(),
            old(self)@.count_of(stream_id@) + by <= u64::MAX,
        ensures
            final(self).wf(),
            final(self)@ == old(self)@.counted(stream_id@, by as int),
            r == final(self)@.count_of(stream_id@),
    {
        let count: u64 = self.append_count(stream_id) + by;
        self.stream_append_counts.insert(stream_id.clone(), count);
        assert(self@ =~= old(self)@.counted(stream_id@, by as int));
        count
    }

    fn apply_create(
        &mut self,
        surprise: &str,
        response: StreamResponse,
        placement: ShardPlacement,
    ) -> (r: Result<GroupWriteResponse, GroupEngineError>)
        requires
            old(self).wf(),
            old(self)@.has_room(1),
        ensures
            final(self).wf(),
            final(self)@ == state::created(old(self)@, surprise@, response, placement).0,
            state::is_outcome(
                r,
                state::created(old(self)@, surprise@, response, placement).1,
            ),
    {
        match response {
            StreamResponse::Created { next_offset, closed, record_range } => {
                self.commit_index = self.commit_index + 1;
                Ok(
                    GroupWriteResponse::CreateStream(
                        CreateStreamResponse {
                            placement,
                            next_offset,
                            closed,
                            already_exists: false,
                            group_commit_index: self.commit_index,
                            record_range,
                        },
                    ),
                )
            },
            StreamResponse::AlreadyExists { next_offset, closed, record_range } => Ok(
                GroupWriteResponse::CreateStream(
                    CreateStreamResponse {
                        placement,
                        next_offset,
                        closed,
                        already_exists: true,
                        group_commit_index: self.commit_index,
                        record_range,
                    },
                ),
            ),
            other => Err(refuse(surprise, other)),
        }
    }

    /// Counts an append and says where it went.
    pub fn append_payload(
        &mut self,
        stream_id: &BucketStreamId,
        surprise: &str,
        response: StreamResponse,
        placement: ShardPlacement,
    ) -> (r: Result<AppendResponse, GroupEngineError>)
        requires
            old(self).wf(),
            old(self)@.has_room(1),
        ensures
            final(self).wf(),
            final(self)@ == state::appended(
                old(self)@,
                stream_id@,
                surprise@,
                response,
                placement,
            ).0,
            state::is_item(
                r,
                state::appended(old(self)@, stream_id@, surprise@, response, placement).1,
            ),
            r is Ok <==> response is Appended,
            r matches Ok(appended) ==> {
                &&& appended.placement == placement
                &&& appended.start_offset == response->offset
                &&& appended.next_offset == response->Appended_next_offset
                &&& appended.closed == response->Appended_closed
                &&& appended.deduplicated == response->Appended_deduplicated
                &&& appended.producer == response->producer
                &&& appended.record_range == response->Appended_record_range
                &&& appended.group_commit_index == final(self)@.commit_index
                &&& final(self)@.counts.contains_key(stream_id@)
                &&& appended.stream_append_count == final(self)@.counts[stream_id@]
            },
    {
        match response {
            StreamResponse::Appended {
                offset,
                next_offset,
                closed,
                deduplicated,
                producer,
                record_range,
            } => {
                let stream_append_count: u64 = if deduplicated {
                    self.add_appends(stream_id, 0)
                } else {
                    self.commit_index = self.commit_index + 1;
                    self.add_appends(stream_id, 1)
                };
                Ok(
                    AppendResponse {
                        placement,
                        start_offset: offset,
                        next_offset,
                        stream_append_count,
                        group_commit_index: self.commit_index,
                        closed,
                        deduplicated,
                        producer,
                        record_range,
                    },
                )
            },
            other => Err(refuse(surprise, other)),
        }
    }

    /// Counts a batch that was appended as a whole, and says where its items
    /// went.
    pub fn apply_append_batch(
        &mut self,
        stream_id: &BucketStreamId,
        answer: Result<BatchAppended, StreamResponse>,
        placement: ShardPlacement,
    ) -> (r: Result<GroupWriteResponse, GroupEngineError>)
        requires
            old(self).wf(),
            old(self)@.has_room(state::weight(MachineAnswer::Whole(answer))),
        ensures
            final(self).wf(),
            final(self)@ == state::appended_whole(old(self)@, stream_id@, answer, placement).0,
            state::is_outcome(
                r,
                state::appended_whole(old(self)@, stream_id@, answer, placement).1,
            ),
            r is Ok <==> answer is Ok,
            answer matches Ok(batch) ==> (r matches Ok(GroupWriteResponse::AppendBatch(response))
                && {
                &&& response.placement == placement
                &&& response.items@.len() == batch.items@.len()
                &&& forall|i: int|
                    0 <= i < batch.items@.len() ==> (#[trigger] response.items@[i] matches Ok(item)
                        && {
                        &&& item.placement == placement
                        &&& item.start_offset == batch.items@[i].offset
                        &&& item.next_offset == batch.items@[i].next_offset
                        &&& item.closed == batch.items@[i].closed
                        &&& item.deduplicated == batch.items@[i].deduplicated
                        &&& item.record_range == batch.items@[i].record_range
                    })
            }),
    {
        let batch = match answer {
            Ok(batch) => batch,
            Err(response) => {
                return Err(stream_response_error(response));
            },
        };
        let ghost before = self@;
        let old_commit_index: u64 = self.commit_index;
        let old_append_count: u64 = self.append_count(stream_id);
        if !batch.deduplicated {
            let count: u64 = batch.items.len() as u64;
            self.commit_index = self.commit_index + count;
            self.add_appends(stream_id, count);
        }
        let ghost expected = state::appended_whole(before, stream_id@, answer, placement).1;
        let mut items: Vec<Result<AppendResponse, GroupEngineError>> = Vec::new();
        let mut index: usize = 0;
        while index < batch.items.len()
            invariant
                index <= batch.items@.len(),
                items@.len() == index,
                before.has_room(batch.items@.len() as int),
                old_commit_index == before.commit_index,
                old_append_count == before.count_of(stream_id@),
                forall|i: int|
                    0 <= i < index ==> #[trigger] items@[i] == Ok::<
                        AppendResponse,
                        GroupEngineError,
                    >(state::batch_item(before, stream_id@, placement, batch.items@[i], i)),
            decreases batch.items@.len() - index,
        {
            let item = batch.items[index];
            let behind: u64 = if item.deduplicated {
                0
            } else {
                index as u64 + 1
            };
            items.push(
                Ok(
                    AppendResponse {
                        placement,
                        start_offset: item.offset,
                        next_offset: item.next_offset,
                        stream_append_count: old_append_count + behind,
                        group_commit_index: old_commit_index + behind,
                        closed: item.closed,
                        deduplicated: item.deduplicated,
                        producer: None,
                        record_range: item.record_range,
                    },
                ),
            );
            index = index + 1;
        }
        Ok(GroupWriteResponse::AppendBatch(GroupAppendBatchResponse { placement, items }))
    }

    /// Counts the payloads of a batch one after the other, and says where each
    /// went.
    pub fn apply_appends(
        &mut self,
        stream_id: &BucketStreamId,
        answers: Vec<Option<StreamResponse>>,
        placement: ShardPlacement,
    ) -> (r: Vec<Result<AppendResponse, GroupEngineError>>)
        requires
            old(self).wf(),
            old(self)@.has_room(answers@.len() as int),
        ensures
            final(self).wf(),
            final(self)@ == state::appended_each(
                old(self)@,
                stream_id@,
                answers@,
                placement,
            ).0,
            state::are_items(
                r@,
                state::appended_each(old(self)@, stream_id@, answers@, placement).1,
            ),
            r@.len() == answers@.len(),
            forall|i: int|
                0 <= i < answers@.len() ==> match #[trigger] r@[i] {
                    Ok(item) => answers@[i] matches Some(
                        StreamResponse::Appended {
                            offset,
                            next_offset,
                            closed,
                            deduplicated,
                            producer,
                            record_range,
                        },
                    ) && {
                        &&& item.placement == placement
                        &&& item.start_offset == offset
                        &&& item.next_offset == next_offset
                        &&& item.closed == closed
                        &&& item.deduplicated == deduplicated
                        &&& item.producer == producer
                        &&& item.record_range == record_range
                    },
                    Err(_) => !(answers@[i] matches Some(StreamResponse::Appended { .. })),
                },
    {
        let ghost all = answers@;
        let ghost before = self@;
        let mut rest = answers;
        let mut items: Vec<Result<AppendResponse, GroupEngineError>> = Vec::new();
        assert(all.subrange(0, 0) =~= Seq::empty());
        while rest.len() > 0
            invariant
                self.wf(),
                before == old(self)@,
                items@.len() + rest@.len() == all.len(),
                rest@ == all.subrange(items@.len() as int, all.len() as int),
                self@.has_room(rest@.len() as int),
                self@ == state::appended_each(
                    before,
                    stream_id@,
                    all.subrange(0, items@.len() as int),
                    placement,
                ).0,
                state::are_items(
                    items@,
                    state::appended_each(
                        before,
                        stream_id@,
                        all.subrange(0, items@.len() as int),
                        placement,
                    ).1,
                ),
                forall|i: int|
                    0 <= i < items@.len() ==> match #[trigger] items@[i] {
                        Ok(item) => all[i] matches Some(
                            StreamResponse::Appended {
                                offset,
                                next_offset,
                                closed,
                                deduplicated,
                                producer,
                                record_range,
                            },
                        ) && {
                            &&& item.placement == placement
                            &&& item.start_offset == offset
                            &&& item.next_offset == next_offset
                            &&& item.closed == closed
                            &&& item.deduplicated == deduplicated
                            &&& item.producer == producer
                            &&& item.record_range == record_range
                        },
                        Err(_) => !(all[i] matches Some(StreamResponse::Appended { .. })),
                    },
            decreases rest@.len(),
        {
            let ghost done = items@.len() as int;
            proof {
                let now = all.subrange(0, done + 1);
                assert(now.drop_last() =~= all.subrange(0, done));
                assert(now.last() == all[done]);
                assert(rest@[0] == all[done]);
            }
            let answer = rest.remove(0);
            let item = match answer {
                Some(response) => self.append_payload(
                    stream_id,
                    "unexpected append response: ",
                    response,
                    placement,
                ),
                None => Err(
                    GroupEngineError::stream(
                        StreamErrorCode::EmptyAppend,
                        "append payload must be non-empty",
                    ),
                ),
            };
            items.push(item);
            assert(rest@ =~= all.subrange(items@.len() as int, all.len() as int));
        }
        assert(all.subrange(0, all.len() as int) =~= all);
        items
    }

    /// Applies the answer to a single command.
    fn apply_single(
        &mut self,
        command: &StreamCommand,
        response: StreamResponse,
        placement: ShardPlacement,
    ) -> (r: Result<GroupWriteResponse, GroupEngineError>)
        requires
            old(self).wf(),
            old(self)@.has_room(1),
            state::answers(*command, MachineAnswer::One(response)),
        ensures
            final(self).wf(),
            final(self)@ == state::applied_one(old(self)@, *command, response, placement).0,
            state::is_outcome(
                r,
                state::applied_one(old(self)@, *command, response, placement).1,
            ),
    {
        match command {
            StreamCommand::CreateStream { .. } => self.apply_create(
                "unexpected create stream response: ",
                response,
                placement,
            ),
            StreamCommand::CreateExternal { .. } => self.apply_create(
                "unexpected create external stream response: ",
                response,
                placement,
            ),
            StreamCommand::Append { stream_id, .. } => match self.append_payload(
                stream_id,
                "unexpected append response: ",
                response,
                placement,
            ) {
                Ok(response) => Ok(GroupWriteResponse::Append(response)),
                Err(error) => Err(error),
            },
            StreamCommand::AppendExternal { stream_id, .. } => match self.append_payload(
                stream_id,
                "unexpected append external response: ",
                response,
                placement,
            ) {
                Ok(response) => Ok(GroupWriteResponse::Append(response)),
                Err(error) => Err(error),
            },
            StreamCommand::PublishSnapshot { .. } => match response {
                StreamResponse::SnapshotPublished { snapshot_offset } => {
                    self.commit_index = self.commit_index + 1;
                    Ok(
                        GroupWriteResponse::PublishSnapshot(
                            PublishSnapshotResponse {
                                placement,
                                snapshot_offset,
                                group_commit_index: self.commit_index,
                            },
                        ),
                    )
                },
                other => Err(refuse("unexpected publish snapshot response: ", other)),
            },
            StreamCommand::TouchStreamAccess { .. } => match response {
                StreamResponse::Accessed { changed, expired } => {
                    if changed || expired {
                        self.commit_index = self.commit_index + 1;
                    }
                    Ok(
                        GroupWriteResponse::TouchStreamAccess(
                            TouchStreamAccessResponse {
                                placement,
                                changed,
                                expired,
                                group_commit_index: self.commit_index,
                            },
                        ),
                    )
                },
                other => Err(refuse("unexpected touch stream access response: ", other)),
            },
            StreamCommand::UpdateStreamAttrs { .. } => match response {
                StreamResponse::AttrsUpdated { changed } => {
                    if changed {
                        self.commit_index = self.commit_index + 1;
                    }
                    Ok(
                        GroupWriteResponse::UpdateStreamAttrs(
                            UpdateStreamAttrsResponse {
                                placement,
                                changed,
                                group_commit_index: self.commit_index,
                            },
                        ),
                    )
                },
                other => Err(refuse("unexpected update stream attrs response: ", other)),
            },
            StreamCommand::AddForkRef { .. } => match response {
                StreamResponse::ForkRefAdded { fork_ref_count } => {
                    self.commit_index = self.commit_index + 1;
                    Ok(
                        GroupWriteResponse::AddForkRef(
                            ForkRefResponse {
                                placement,
                                fork_ref_count,
                                hard_deleted: false,
                                parent_to_release: None,
                                group_commit_index: self.commit_index,
                            },
                        ),
                    )
                },
                other => Err(refuse("unexpected add fork ref response: ", other)),
            },
            StreamCommand::ReleaseForkRef { .. } => match response {
                StreamResponse::ForkRefReleased { hard_deleted, fork_ref_count, parent_to_release } => {
                    self.commit_index = self.commit_index + 1;
                    Ok(
                        GroupWriteResponse::ReleaseForkRef(
                            ForkRefResponse {
                                placement,
                                fork_ref_count,
                                hard_deleted,
                                parent_to_release,
                                group_commit_index: self.commit_index,
                            },
                        ),
                    )
                },
                other => Err(refuse("unexpected release fork ref response: ", other)),
            },
            StreamCommand::FlushCold { .. } => match response {
                StreamResponse::ColdFlushed { hot_start_offset } => {
                    self.commit_index = self.commit_index + 1;
                    Ok(
                        GroupWriteResponse::FlushCold(
                            FlushColdResponse {
                                placement,
                                hot_start_offset,
                                group_commit_index: self.commit_index,
                            },
                        ),
                    )
                },
                other => Err(refuse("unexpected flush cold response: ", other)),
            },
            StreamCommand::Close { .. } => match response {
                StreamResponse::Closed { next_offset, deduplicated } => {
                    if !deduplicated {
                        self.commit_index = self.commit_index + 1;
                    }
                    Ok(
                        GroupWriteResponse::CloseStream(
                            CloseStreamResponse {
                                placement,
                                next_offset,
                                group_commit_index: self.commit_index,
                                deduplicated,
                            },
                        ),
                    )
                },
                other => Err(refuse("unexpected close stream response: ", other)),
            },
            StreamCommand::DeleteStream { stream_id } => match response {
                StreamResponse::Deleted { hard_deleted, parent_to_release } => {
                    self.commit_index = self.commit_index + 1;
                    if hard_deleted {
                        self.stream_append_counts.remove(stream_id);
                    }
                    Ok(
                        GroupWriteResponse::DeleteStream(
                            DeleteStreamResponse {
                                placement,
                                group_commit_index: self.commit_index,
                                hard_deleted,
                                parent_to_release,
                            },
                        ),
                    )
                },
                other => Err(refuse("unexpected delete stream response: ", other)),
            },
            StreamCommand::AckColdGc { .. } => match response {
                StreamResponse::ColdGcAcked { removed } => {
                    self.commit_index = self.commit_index + 1;
                    Ok(
                        GroupWriteResponse::AckColdGc(
                            AckColdGcResponse {
                                placement,
                                removed,
                                group_commit_index: self.commit_index,
                            },
                        ),
                    )
                },
                other => Err(unexpected("unexpected ack cold gc response: ", &other)),
            },
            _ => {
                assert(false);
                Err(GroupEngineError::new(""))
            },
        }
    }

    /// Applies a write that the group has agreed on, with the stream layer's
    /// answer to it.
    pub fn apply_committed_write(
        &mut self,
        command: &StreamCommand,
        answer: MachineAnswer,
        placement: ShardPlacement,
    ) -> (r: Result<GroupWriteResponse, GroupEngineError>)
        requires
            old(self).wf(),
            state::answers(*command, answer),
            old(self)@.has_room(state::weight(answer)),
        ensures
            final(self).wf(),
            final(self)@ == state::applied(old(self)@, *command, answer, placement).0,
            state::is_outcome(r, state::applied(old(self)@, *command, answer, placement).1),
    {
        match answer {
            MachineAnswer::One(response) => self.apply_single(command, response, placement),
            MachineAnswer::NoBucket(response) => match ensure_bucket_exists(response) {
                Ok(()) => {
                    assert(false);
                    Err(GroupEngineError::new(""))
                },
                Err(error) => Err(error),
            },
            MachineAnswer::Whole(answer) => match command {
                StreamCommand::AppendBatch { stream_id, .. } => self.apply_append_batch(
                    stream_id,
                    answer,
                    placement,
                ),
                _ => {
                    assert(false);
                    Err(GroupEngineError::new(""))
                },
            },
            MachineAnswer::Each(answers) => match command {
                StreamCommand::AppendBatch { stream_id, .. } => {
                    let items = self.apply_appends(stream_id, answers, placement);
                    Ok(
                        GroupWriteResponse::AppendBatch(
                            GroupAppendBatchResponse { placement, items },
                        ),
                    )
                },
                _ => {
                    assert(false);
                    Err(GroupEngineError::new(""))
                },
            },
        }
    }

    /// Replays the answer to a single command.
    fn replay_single(&mut self, command: &StreamCommand, response: StreamResponse) -> (r: Result<
        (),
        GroupEngineError,
    >)
        requires
            old(self).wf(),
            old(self)@.has_room(1),
            state::answers_replay(*command, MachineAnswer::One(response)),
        ensures
            final(self).wf(),
            final(self)@ == state::replayed_one(old(self)@, *command, response).0,
            match state::replayed_one(old(self)@, *command, response).1 {
                Ok(()) => r is Ok,
                Err(refusal) => r is Err && state::is_refusal(r->Err_0, refusal),
            },
    {
        match command {
            StreamCommand::CreateBucket { .. } => match response {
                StreamResponse::BucketCreated => {
                    self.commit_index = self.commit_index + 1;
                    Ok(())
                },
                StreamResponse::BucketAlreadyExists => Ok(()),
                other => Err(refuse("unexpected replay create bucket response: ", other)),
            },
            StreamCommand::DeleteBucket { .. } => match response {
                StreamResponse::BucketDeleted => {
                    self.commit_index = self.commit_index + 1;
                    Ok(())
                },
                other => Err(refuse("unexpected replay delete bucket response: ", other)),
            },
            StreamCommand::CreateStream { .. } => match response {
                StreamResponse::Created { .. } => {
                    self.commit_index = self.commit_index + 1;
                    Ok(())
                },
                StreamResponse::AlreadyExists { .. } => Ok(()),
                other => Err(refuse("unexpected replay create stream response: ", other)),
            },
            StreamCommand::CreateExternal { .. } => match response {
                StreamResponse::Created { .. } => {
                    self.commit_index = self.commit_index + 1;
                    Ok(())
                },
                StreamResponse::AlreadyExists { .. } => Ok(()),
                other => Err(refuse("unexpected replay external create stream response: ", other)),
            },
            StreamCommand::Append { stream_id, .. } => match response {
                StreamResponse::Appended { deduplicated, .. } => {
                    if !deduplicated {
                        self.commit_index = self.commit_index + 1;
                        self.add_appends(stream_id, 1);
                    }
                    Ok(())
                },
                StreamResponse::Closed { deduplicated, .. } => {
                    if !deduplicated {
                        self.commit_index = self.commit_index + 1;
                    }
                    Ok(())
                },
                other => Err(refuse("unexpected replay append response: ", other)),
            },
            StreamCommand::AppendExternal { stream_id, .. } => match response {
                StreamResponse::Appended { deduplicated, .. } => {
                    if !deduplicated {
                        self.commit_index = self.commit_index + 1;
                        self.add_appends(stream_id, 1);
                    }
                    Ok(())
                },
                other => Err(refuse("unexpected replay external append response: ", other)),
            },
            StreamCommand::PublishSnapshot { .. } => match response {
                StreamResponse::SnapshotPublished { .. } => {
                    self.commit_index = self.commit_index + 1;
                    Ok(())
                },
                other => Err(refuse("unexpected replay publish snapshot response: ", other)),
            },
            StreamCommand::TouchStreamAccess { .. } => match response {
                StreamResponse::Accessed { changed, expired } => {
                    if changed || expired {
                        self.commit_index = self.commit_index + 1;
                    }
                    Ok(())
                },
                other => Err(refuse("unexpected replay touch stream access response: ", other)),
            },
            StreamCommand::UpdateStreamAttrs { .. } => match response {
                StreamResponse::AttrsUpdated { changed } => {
                    if changed {
                        self.commit_index = self.commit_index + 1;
                    }
                    Ok(())
                },
                other => Err(refuse("unexpected replay update stream attrs response: ", other)),
            },
            StreamCommand::AddForkRef { .. } => match response {
                StreamResponse::ForkRefAdded { .. } => {
                    self.commit_index = self.commit_index + 1;
                    Ok(())
                },
                other => Err(refuse("unexpected replay add fork ref response: ", other)),
            },
            StreamCommand::ReleaseForkRef { .. } => match response {
                StreamResponse::ForkRefReleased { .. } => {
                    self.commit_index = self.commit_index + 1;
                    Ok(())
                },
                other => Err(refuse("unexpected replay release fork ref response: ", other)),
            },
            StreamCommand::FlushCold { .. } => match response {
                StreamResponse::ColdFlushed { .. } => {
                    self.commit_index = self.commit_index + 1;
                    Ok(())
                },
                other => Err(refuse("unexpected replay flush cold response: ", other)),
            },
            StreamCommand::Close { .. } => match response {
                StreamResponse::Closed { deduplicated, .. } => {
                    if !deduplicated {
                        self.commit_index = self.commit_index + 1;
                    }
                    Ok(())
                },
                other => Err(refuse("unexpected replay close stream response: ", other)),
            },
            StreamCommand::DeleteStream { .. } => match response {
                StreamResponse::Deleted { .. } => {
                    self.commit_index = self.commit_index + 1;
                    Ok(())
                },
                other => Err(refuse("unexpected replay delete stream response: ", other)),
            },
            StreamCommand::AckColdGc { .. } => match response {
                StreamResponse::ColdGcAcked { .. } => {
                    self.commit_index = self.commit_index + 1;
                    Ok(())
                },
                other => Err(unexpected("unexpected replay ack cold gc response: ", &other)),
            },
            _ => {
                assert(false);
                Err(GroupEngineError::new(""))
            },
        }
    }

    /// Replays a command, with the stream layer's answer to it.
    pub fn apply_replayed_command(&mut self, command: &StreamCommand, answer: MachineAnswer) -> (r:
        Result<(), GroupEngineError>)
        requires
            old(self).wf(),
            state::answers_replay(*command, answer),
            old(self)@.has_room(state::weight(answer)),
        ensures
            final(self).wf(),
            final(self)@ == state::replayed(old(self)@, *command, answer).0,
            match state::replayed(old(self)@, *command, answer).1 {
                Ok(()) => r is Ok,
                Err(refusal) => r is Err && state::is_refusal(r->Err_0, refusal),
            },
    {
        match answer {
            MachineAnswer::One(response) => self.replay_single(command, response),
            MachineAnswer::NoBucket(response) => ensure_bucket_exists(response),
            MachineAnswer::Whole(Err(response)) => Err(stream_response_error(response)),
            MachineAnswer::Whole(Ok(batch)) => {
                if !batch.deduplicated {
                    let count: u64 = batch.items.len() as u64;
                    match command {
                        StreamCommand::AppendBatch { stream_id, .. } => {
                            self.commit_index = self.commit_index + count;
                            self.add_appends(stream_id, count);
                        },
                        _ => {
                            assert(false);
                        },
                    }
                }
                Ok(())
            },
            MachineAnswer::Each(_) => {
                assert(false);
                Ok(())
            },
        }
    }

    /// Applies a write again that was applied before; where the group lives makes
    /// no difference.
    pub fn apply_replayed_write_command(
        &mut self,
        command: &StreamCommand,
        answer: MachineAnswer,
    ) -> (r: Result<(), GroupEngineError>)
        requires
            old(self).wf(),
            state::answers(*command, answer),
            old(self)@.has_room(state::weight(answer)),
        ensures
            final(self).wf(),
            forall|placement: ShardPlacement|
                final(self)@ == (#[trigger] state::applied(
                    old(self)@,
                    *command,
                    answer,
                    placement,
                )).0,
            forall|placement: ShardPlacement|
                match (#[trigger] state::applied(old(self)@, *command, answer, placement)).1 {
                    state::WriteOutcome::Refused(refusal) => r is Err && state::is_refusal(
                        r->Err_0,
                        refusal,
                    ),
                    _ => r is Ok,
                },
    {
        let nowhere = ShardPlacement {
            core_id: CoreId(0),
            shard_id: ShardId(0),
            raft_group_id: RaftGroupId(0),
        };
        proof {
            assert forall|placement: ShardPlacement|
                (#[trigger] state::applied(old(self)@, *command, answer, placement)).0
                    == state::applied(old(self)@, *command, answer, nowhere).0 && match state::applied(
                    old(self)@,
                    *command,
                    answer,
                    placement,
                ).1 {
                    state::WriteOutcome::Refused(refusal) => state::applied(
                        old(self)@,
                        *command,
                        answer,
                        nowhere,
                    ).1 == state::WriteOutcome::Refused(refusal),
                    _ => !(state::applied(old(self)@, *command, answer, nowhere).1 is Refused),
                } by {
                lemma_placement_is_passive(old(self)@, *command, answer, placement, nowhere);
            }
        }
        match self.apply_committed_write(command, answer, nowhere) {
            Ok(_) => Ok(()),
            Err(error) => Err(error),
        }
    }
}

proof fn lemma_each_placement_is_passive(
    state: EngineState,
    stream: crate::ids::StreamName,
    answers: Seq<Option<StreamResponse>>,
    here: ShardPlacement,
    there: ShardPlacement,
)
    ensures
        state::appended_each(state, stream, answers, here).0 == state::appended_each(
            state,
            stream,
            answers,
            there,
        ).0,
    decreases answers.len(),
{
    if answers.len() > 0 {
        lemma_each_placement_is_passive(state, stream, answers.drop_last(), here, there);
    }
}

/// Where a group lives shows in the responses only.
pub(crate) proof fn lemma_placement_is_passive(
    state: EngineState,
    command: StreamCommand,
    answer: MachineAnswer,
    here: ShardPlacement,
    there: ShardPlacement,
)
    requires
        state::answers(command, answer),
    ensures
        state::applied(state, command, answer, here).0 == state::applied(
            state,
            command,
            answer,
            there,
        ).0,
        match state::applied(state, command, answer, here).1 {
            state::WriteOutcome::Refused(refusal) => state::applied(
                state,
                command,
                answer,
                there,
            ).1 == state::WriteOutcome::Refused(refusal),
            _ => !(state::applied(state, command, answer, there).1 is Refused),
        },
{
    if answer is Each {
        lemma_each_placement_is_passive(
            state,
            state::stream_of(command),
            answer->Each_0@,
            here,
            there,
        );
    }
}

} // verus!
