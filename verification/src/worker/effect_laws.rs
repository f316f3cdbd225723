//! What is counted and who is woken, against what was written.

use vstd::prelude::*;
use crate::command;
use crate::engine::answer_laws;
use crate::engine::errors::{GroupEngineError, GroupInfraError};
use crate::engine::laws;
use crate::engine::responses::GroupWriteResponse;
use crate::engine::state;
use crate::engine::state::{EngineState, MachineAnswer, WriteOutcome};
use crate::error::RuntimeError;
use crate::ids::ShardPlacement;
use crate::request::{AppendResponse, ColdWriteAdmission};
use crate::stream::{StreamCommand, StreamResponse};
use crate::worker::appends;
use crate::worker::appends::PendingAppendBatch;
use crate::worker::batches;
use crate::worker::batches::BatchAnswers;
use crate::worker::effects;
use crate::worker::requests::GroupRequest;

verus! {

/// The items that are counted are those that were appended and were not there before.
pub proof fn law_new_items_are_counted(items: Seq<Result<AppendResponse, GroupEngineError>>)
    ensures
        appends::success_count(items) == items.filter(
            |item: Result<AppendResponse, GroupEngineError>|
                item matches Ok(response) && !response.deduplicated,
        ).len(),
        appends::success_count(items) > 0 <==> exists|i: int|
            0 <= i < items.len() && (#[trigger] items[i] matches Ok(response)
                && !response.deduplicated),
    decreases items.len(),
{
    reveal(Seq::filter);
    if items.len() > 0 {
        let front = items.drop_last();
        law_new_items_are_counted(front);
        assert(items[items.len() - 1] == items.last());
        if appends::success_count(front) > 0 {
            let i = choose|i: int|
                0 <= i < front.len() && (#[trigger] front[i] matches Ok(response)
                    && !response.deduplicated);
            assert(items[i] == front[i]);
        }
        if exists|i: int|
            0 <= i < items.len() && (#[trigger] items[i] matches Ok(response)
                && !response.deduplicated) {
            let i = choose|i: int|
                0 <= i < items.len() && (#[trigger] items[i] matches Ok(response)
                    && !response.deduplicated);
            if i < front.len() {
                assert(front[i] == items[i]);
            }
        }
    }
}

/// A write is counted as many times as it has moved the commit index on. It counts as an
/// append, and wakes those who wait for the stream, where it is one; any other write that
/// changes what can be read of a stream that was there wakes them too. Accesses,
/// references and the removal of garbage are not counted.
pub proof fn law_writes_are_counted_as_they_are_committed(
    state: EngineState,
    command: StreamCommand,
    answer: MachineAnswer,
    placement: ShardPlacement,
)
    requires
        state::answers(command, answer),
        state.has_room(state::weight(answer)),
        state::applied(state, command, answer, placement).1 is Done,
    ensures
        ({
            let (after, outcome) = state::applied(state, command, answer, placement);
            let effects = effects::effects_of(outcome->Done_0);
            let moved = after.commit_index - state.commit_index;
            let is_silent = command is TouchStreamAccess || command is AddForkRef
                || command is ReleaseForkRef || command is AckColdGc;
            let is_append = command is Append || command is AppendExternal;
            &&& is_silent ==> effects.appends == 0 && effects.mutations == 0 && !effects.notifies
                && !effects.notes_backlog
            &&& !is_silent ==> effects.mutations == moved
            &&& is_append ==> effects.appends == moved
            &&& !is_append ==> effects.appends == 0
            &&& effects.notifies <==> moved > 0 && (is_append || command is Close
                || command is PublishSnapshot || command is FlushCold || command is DeleteStream)
            &&& effects.notes_backlog <==> moved > 0 && !is_silent && !(command is Close)
                && !(command is UpdateStreamAttrs)
        }),
{
}

proof fn lemma_new_items(
    items: Seq<Result<AppendResponse, GroupEngineError>>,
    answers: Seq<Option<StreamResponse>>,
)
    requires
        items.len() == answers.len(),
        forall|i: int|
            0 <= i < items.len() ==> ((#[trigger] items[i] matches Ok(response)
                && !response.deduplicated) <==> (answers[i] matches Some(
                StreamResponse::Appended { deduplicated, .. },
            ) && !deduplicated)),
    ensures
        appends::success_count(items) == answer_laws::new_payloads(answers),
    decreases items.len(),
{
    reveal(Seq::filter);
    if items.len() > 0 {
        assert(forall|i: int| 0 <= i < items.len() - 1 ==> #[trigger] items.drop_last()[i] == items[i]);
        assert(items[items.len() - 1] == items.last());
        lemma_new_items(items.drop_last(), answers.drop_last());
    }
}

/// A batch whose payloads are appended one by one is counted as often as it has moved the
/// commit index on, and wakes those who wait for the stream where that is at all.
pub proof fn law_batches_are_counted_as_they_are_committed(
    state: EngineState,
    command: StreamCommand,
    answers: Vec<Option<StreamResponse>>,
    placement: ShardPlacement,
    result: Result<GroupWriteResponse, GroupEngineError>,
)
    requires
        command is AppendBatch,
        state.has_room(answers@.len() as int),
        state::is_outcome(
            result,
            state::applied(state, command, MachineAnswer::Each(answers), placement).1,
        ),
    ensures
        result is Ok,
        result->Ok_0 is AppendBatch,
        ({
            let after = state::applied(state, command, MachineAnswer::Each(answers), placement).0;
            let effects = effects::effects_of(result->Ok_0);
            let moved = after.commit_index - state.commit_index;
            &&& effects.appends == moved
            &&& effects.mutations == moved
            &&& effects.notifies <==> moved > 0
        }),
{
    let outcome = state::applied(state, command, MachineAnswer::Each(answers), placement).1;
    answer_laws::law_each_payload_is_told_its_answer(state, command, answers, placement);
    let stream = command->AppendBatch_stream_id@;
    let items = result->Ok_0->AppendBatch_0.items@;
    assert forall|i: int| 0 <= i < items.len() implies ((#[trigger] items[i] matches Ok(response)
        && !response.deduplicated) <==> (answers@[i] matches Some(
        StreamResponse::Appended { deduplicated, .. },
    ) && !deduplicated)) by {
        assert(state::is_item(items[i], outcome->items[i]));
        assert(answer_laws::is_told(
            state,
            stream,
            answers@,
            placement,
            i,
            outcome->items[i],
        ));
    }
    lemma_new_items(items, answers@);
    appends::lemma_success_count(items);
    assert(result->Ok_0->AppendBatch_0.items.len() == items.len());
}

/// What one more batch adds to the counters: the items of it that are new; the time that it
/// took, where it has any; and where it was held back for its hot bytes, an event and its
/// bytes. A batch adds nothing else.
pub proof fn law_each_batch_adds_its_own<T>(
    admission: ColdWriteAdmission,
    pending: Seq<PendingAppendBatch<T>>,
    answers: BatchAnswers,
    elapsed_ns: Seq<u64>,
    n: int,
)
    requires
        0 <= n < pending.len(),
    ensures
        ({
            let before = batches::totals(admission, pending, answers, elapsed_ns, n);
            let after = batches::totals(admission, pending, answers, elapsed_ns, n + 1);
            let is_held_back = match answers {
                Ok(list) => list@.len() == pending.len() && (list@[n] matches Err(
                    GroupEngineError::Infra(GroupInfraError::ColdBackpressure { .. }),
                )),
                Err(error) => error matches RuntimeError::GroupEngine {
                    error: GroupEngineError::Infra(GroupInfraError::ColdBackpressure { .. }),
                    ..
                },
            };
            let added: nat = match answers {
                Ok(list) => if list@.len() == pending.len() {
                    match list@[n] {
                        Ok(GroupWriteResponse::AppendBatch(response)) => response.items@.filter(
                            |item: Result<AppendResponse, GroupEngineError>|
                                item matches Ok(response) && !response.deduplicated,
                        ).len(),
                        _ => 0,
                    }
                } else {
                    0
                },
                Err(_) => 0,
            };
            &&& after.appends == before.appends + added
            &&& after.apply_ns == before.apply_ns + if added > 0 {
                elapsed_ns[n] as int
            } else {
                0
            }
            &&& admission.max_hot_bytes_per_group is Some && is_held_back ==> after.events
                == before.events + 1 && after.bytes == before.bytes + pending[n].incoming_bytes
            &&& !(admission.max_hot_bytes_per_group is Some && is_held_back) ==> after.events
                == before.events && after.bytes == before.bytes
        }),
        batches::totals(admission, pending, answers, elapsed_ns, 0).appends == 0,
        batches::totals(admission, pending, answers, elapsed_ns, 0).apply_ns == 0,
        batches::totals(admission, pending, answers, elapsed_ns, 0).events == 0,
        batches::totals(admission, pending, answers, elapsed_ns, 0).bytes == 0,
{
    if let Ok(list) = answers {
        if list@.len() == pending.len() {
            if let Ok(GroupWriteResponse::AppendBatch(response)) = list@[n] {
                law_new_items_are_counted(response.items@);
            }
        }
    }
}

/// A request that becomes a write goes to the group of the stream that the write is about.
pub proof fn law_request_finds_the_stream_of_its_write(request: GroupRequest)
    ensures
        match request {
            GroupRequest::CreateStream { request: asked } => request.spec_stream() == Some(
                state::stream_of(command::create_stream_command(asked)),
            ),
            GroupRequest::CreateExternal { request: asked } => request.spec_stream() == Some(
                state::stream_of(command::create_stream_external_command(asked)),
            ),
            GroupRequest::Append { request: asked } => request.spec_stream() == Some(
                state::stream_of(command::append_command(asked)),
            ),
            GroupRequest::AppendExternal { request: asked } => request.spec_stream() == Some(
                state::stream_of(command::append_external_command(asked)),
            ),
            GroupRequest::AppendBatch { request: asked } => request.spec_stream() == Some(
                state::stream_of(command::append_batch_command(asked)),
            ),
            GroupRequest::PublishSnapshot { request: asked } => request.spec_stream() == Some(
                state::stream_of(command::publish_snapshot_command(asked)),
            ),
            GroupRequest::CloseStream { request: asked } => request.spec_stream() == Some(
                state::stream_of(command::close_stream_command(asked)),
            ),
            GroupRequest::UpdateStreamAttrs { request: asked } => request.spec_stream() == Some(
                state::stream_of(command::update_stream_attrs_command(asked)),
            ),
            GroupRequest::DeleteStream { request: asked } => request.spec_stream() == Some(
                state::stream_of(command::delete_stream_command(asked)),
            ),
            GroupRequest::FlushCold { request: asked } => request.spec_stream() == Some(
                state::stream_of(command::flush_cold_command(asked)),
            ),
            GroupRequest::HeadStream { request: asked } => request.spec_stream() == Some(
                asked.stream_id@,
            ),
            GroupRequest::GetStreamAttrs { request: asked } => request.spec_stream() == Some(
                asked.stream_id@,
            ),
            GroupRequest::ReadStream { request: asked } => request.spec_stream() == Some(
                asked.stream_id@,
            ),
            GroupRequest::ReadSnapshot { request: asked } => request.spec_stream() == Some(
                asked.stream_id@,
            ),
            GroupRequest::DeleteSnapshot { request: asked } => request.spec_stream() == Some(
                asked.stream_id@,
            ),
            GroupRequest::BootstrapStream { request: asked } => request.spec_stream() == Some(
                asked.stream_id@,
            ),
            GroupRequest::WaitRead { request: asked, .. } => request.spec_stream() == Some(
                asked.stream_id@,
            ),
            GroupRequest::CancelWaitRead { stream_id, .. } => request.spec_stream() == Some(
                stream_id@,
            ),
            GroupRequest::PlanColdFlush { request: asked } => request.spec_stream() == Some(
                asked.stream_id@,
            ),
            _ => request.spec_stream() is None,
        },
{
}

} // verus!
