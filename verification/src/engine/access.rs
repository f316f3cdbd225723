//! Access to a stream before it is used, and admission of new bytes.

use vstd::prelude::*;
use crate::engine::admission_laws;
use crate::engine::errors::{GroupEngineError, GroupInfraError};
use crate::engine::in_memory::{stream_response_error, InMemoryGroupEngine};
use crate::engine::laws;
use crate::engine::responses::GroupWriteResponse;
use crate::engine::state;
use crate::engine::state::{EngineState, MachineAnswer, Refusal, WriteOutcome};
use crate::ids::{BucketStreamId, ShardPlacement, StreamName};
use crate::request::{ColdWriteAdmission, TouchStreamAccessResponse};
use crate::stream::{StreamCommand, StreamErrorCode, StreamResponse};

verus! {

/// What the stream layer says when a stream is about to be used.
pub enum AccessAnswer {
    /// It cannot say whether the access has to be written down.
    Refused(StreamResponse),
    /// Nothing has to be written down.
    NotNeeded,
    /// The access was written down, with this answer.
    Touched(StreamResponse),
}

/// The refusal of a stream that is not there.
pub open spec fn missing_stream(stream: StreamName) -> Refusal {
    Refusal::Stream {
        code: StreamErrorCode::StreamNotFound,
        message: "stream '"@ + stream.text() + "' does not exist"@,
        next_offset: None,
    }
}

/// The error for a stream that is not there.
pub fn missing_stream_error(stream_id: &BucketStreamId) -> (r: GroupEngineError)
    ensures
        state::is_refusal(r, missing_stream(stream_id@)),
{
    let mut text = "stream '".to_owned();
    text.append(stream_id.text().as_str());
    text.append("' does not exist");
    GroupEngineError::stream(StreamErrorCode::StreamNotFound, text.as_str())
}

/// What writing an access down does and gives.
pub open spec fn touched(
    state: EngineState,
    response: StreamResponse,
    placement: ShardPlacement,
) -> (EngineState, Result<TouchStreamAccessResponse, Refusal>) {
    match response {
        StreamResponse::Accessed { changed, expired } => {
            let after = if changed || expired {
                state.advanced(1)
            } else {
                state
            };
            (
                after,
                Ok(
                    TouchStreamAccessResponse {
                        placement,
                        changed,
                        expired,
                        group_commit_index: after.commit_index,
                    },
                ),
            )
        },
        other => (
            state,
            Err(state::refusal_of("unexpected touch stream access response: "@, other)),
        ),
    }
}

/// What an access does and gives. A stream that turns out to have expired is
/// refused, though its expiry is counted.
pub open spec fn accessed(
    state: EngineState,
    stream: StreamName,
    answer: AccessAnswer,
    placement: ShardPlacement,
) -> (EngineState, Result<Option<TouchStreamAccessResponse>, Refusal>) {
    match answer {
        AccessAnswer::Refused(response) => (
            state,
            Err(state::refusal_of("unexpected stream response error: "@, response)),
        ),
        AccessAnswer::NotNeeded => (state, Ok(None)),
        AccessAnswer::Touched(response) => {
            let (after, result) = touched(state, response, placement);
            (
                after,
                match result {
                    Ok(response) => if response.expired {
                        Err(missing_stream(stream))
                    } else {
                        Ok(Some(response))
                    },
                    Err(refusal) => Err(refusal),
                },
            )
        },
    }
}

/// `before` and `incoming` bytes together, as far as they can be counted.
pub open spec fn bytes_after(before: u64, incoming: int) -> u64 {
    if before + incoming > u64::MAX {
        u64::MAX
    } else {
        (before + incoming) as u64
    }
}

/// Whether a group with `hot_bytes` may take `incoming` more.
pub open spec fn admits(admission: ColdWriteAdmission, hot_bytes: u64, incoming: int) -> bool {
    match admission.max_hot_bytes_per_group {
        Some(limit) => incoming == 0 || bytes_after(hot_bytes, incoming) <= limit,
        None => true,
    }
}

/// The bytes of several payloads.
pub open spec fn total_len(payloads: Seq<Vec<u8>>) -> int
    decreases payloads.len(),
{
    if payloads.len() == 0 {
        0
    } else {
        total_len(payloads.drop_last()) + payloads.last()@.len()
    }
}

/// The bytes that a command brings.
pub open spec fn incoming_bytes(command: StreamCommand) -> int {
    match command {
        StreamCommand::CreateStream { initial_payload, .. } => initial_payload@.len() as int,
        StreamCommand::Append { payload, .. } => payload@.len() as int,
        StreamCommand::AppendBatch { payloads, .. } => total_len(payloads@),
        _ => 0,
    }
}

/// Whether a command is one whose bytes stay hot at first.
pub open spec fn brings_hot_bytes(command: StreamCommand) -> bool {
    command is CreateStream || command is Append || command is AppendBatch
}

/// What comes of a write under admission.
pub enum AdmittedOutcome {
    Applied(WriteOutcome),
    /// The group has too many hot bytes already.
    HeldBack(GroupEngineError),
}

/// The error that holds a write back.
pub open spec fn held_back(
    stream_id: BucketStreamId,
    hot_bytes: u64,
    incoming: int,
    limit: u64,
) -> GroupEngineError {
    GroupEngineError::Infra(
        GroupInfraError::ColdBackpressure {
            stream_id,
            before_group_hot_bytes: hot_bytes,
            after_group_hot_bytes: bytes_after(hot_bytes, incoming),
            limit,
        },
    )
}

/// The stream of a command that brings hot bytes.
pub open spec fn hot_stream(command: StreamCommand) -> BucketStreamId {
    match command {
        StreamCommand::CreateStream { stream_id, .. } => stream_id,
        StreamCommand::Append { stream_id, .. } => stream_id,
        StreamCommand::AppendBatch { stream_id, .. } => stream_id,
        _ => arbitrary(),
    }
}

/// What a write under admission does and gives. Only a write that would add
/// something is held back.
pub open spec fn applied_with_admission(
    state: EngineState,
    command: StreamCommand,
    answer: MachineAnswer,
    placement: ShardPlacement,
    admission: ColdWriteAdmission,
    hot_bytes: u64,
) -> (EngineState, AdmittedOutcome) {
    let (after, outcome) = state::applied(state, command, answer, placement);
    if laws::is_logged(outcome, true) && !admits(admission, hot_bytes, incoming_bytes(command)) {
        (
            state,
            AdmittedOutcome::HeldBack(
                held_back(
                    hot_stream(command),
                    hot_bytes,
                    incoming_bytes(command),
                    admission.max_hot_bytes_per_group->0,
                ),
            ),
        )
    } else {
        (after, AdmittedOutcome::Applied(outcome))
    }
}

/// Holds a write back that would raise the hot bytes of its group above the
/// limit.
pub fn check_cold_write_admission_bytes(
    stream_id: &BucketStreamId,
    admission: ColdWriteAdmission,
    group_hot_bytes: u64,
    incoming_bytes: u64,
) -> (r: Result<(), GroupEngineError>)
    ensures
        if admits(admission, group_hot_bytes, incoming_bytes as int) {
            r is Ok
        } else {
            r is Err && r->Err_0 == held_back(
                *stream_id,
                group_hot_bytes,
                incoming_bytes as int,
                admission.max_hot_bytes_per_group->0,
            )
        },
        r is Ok <==> match admission.max_hot_bytes_per_group {
            Some(limit) => incoming_bytes == 0 || group_hot_bytes + incoming_bytes <= limit || limit
                == u64::MAX,
            None => true,
        },
{
    let limit: u64 = match admission.max_hot_bytes_per_group {
        Some(limit) => limit,
        None => {
            return Ok(());
        },
    };
    if incoming_bytes == 0 {
        return Ok(());
    }
    let after: u64 = group_hot_bytes.saturating_add(incoming_bytes);
    if after <= limit {
        return Ok(());
    }
    Err(GroupEngineError::cold_backpressure(stream_id.clone(), group_hot_bytes, after, limit))
}

/// The bytes of several payloads.
pub fn payload_bytes(payloads: &Vec<Vec<u8>>) -> (r: u64)
    requires
        total_len(payloads@) <= u64::MAX,
    ensures
        r == total_len(payloads@),
        r == payloads@.map_values(|payload: Vec<u8>| payload@).flatten().len(),
{
    proof {
        admission_laws::law_payloads_count_every_byte(payloads@);
    }
    let mut total: u64 = 0;
    let mut i: usize = 0;
    assert(payloads@.take(0) =~= Seq::empty());
    while i < payloads.len()
        invariant
            i <= payloads@.len(),
            total == total_len(payloads@.take(i as int)),
            total_len(payloads@) <= u64::MAX,
        decreases payloads@.len() - i,
    {
        proof {
            lemma_total_len(payloads@, i + 1);
            assert(payloads@.take(i + 1).drop_last() =~= payloads@.take(i as int));
        }
        total = total + payloads[i].len() as u64;
        i = i + 1;
    }
    assert(payloads@.take(i as int) =~= payloads@);
    total
}

proof fn lemma_total_len(payloads: Seq<Vec<u8>>, n: int)
    requires
        0 <= n <= payloads.len(),
    ensures
        0 <= total_len(payloads.take(n)) <= total_len(payloads),
    decreases payloads.len(),
{
    if n < payloads.len() {
        lemma_total_len(payloads.drop_last(), n);
        assert(payloads.drop_last().take(n) =~= payloads.take(n));
    } else {
        assert(payloads.take(n) =~= payloads);
        if n > 0 {
            lemma_total_len(payloads.drop_last(), n - 1);
            assert(payloads.drop_last().take(n - 1) =~= payloads.drop_last());
        }
    }
}

fn is_new_response(response: &StreamResponse) -> (r: bool)
    ensures
        r == laws::is_new_append(*response),
{
    match response {
        StreamResponse::Appended { deduplicated, .. } => !*deduplicated,
        _ => false,
    }
}

/// Whether a write goes into the log: whether it changed something that has to
/// outlive the process. It can be told from the stream layer's answer alone.
#[verifier::rlimit(30)]
pub fn must_log(command: &StreamCommand, answer: &MachineAnswer, bounded: bool) -> (r: bool)
    requires
        state::answers(*command, *answer),
    ensures
        forall|state: EngineState, placement: ShardPlacement|
            r == laws::is_logged(
                (#[trigger] state::applied(state, *command, *answer, placement)).1,
                bounded,
            ),
{
    match answer {
        MachineAnswer::NoBucket(_) => false,
        MachineAnswer::Whole(Err(_)) => false,
        MachineAnswer::Whole(Ok(batch)) => {
            let mut i: usize = 0;
            while i < batch.items.len()
                invariant
                    i <= batch.items@.len(),
                    *answer == MachineAnswer::Whole(Ok(*batch)),
                    forall|j: int| 0 <= j < i ==> (#[trigger] batch.items@[j]).deduplicated,
                decreases batch.items@.len() - i,
            {
                if !batch.items[i].deduplicated {
                    proof {
                        assert forall|state: EngineState, placement: ShardPlacement|
                            laws::is_logged(
                                (#[trigger] state::applied(state, *command, *answer, placement)).1,
                                bounded,
                            ) by {
                            let items = state::applied(
                                state,
                                *command,
                                *answer,
                                placement,
                            ).1->items;
                            assert(laws::is_new_item(items[i as int]));
                        }
                    }
                    return true;
                }
                i = i + 1;
            }
            false
        },
        MachineAnswer::Each(answers) => {
            let mut i: usize = 0;
            while i < answers.len()
                invariant
                    i <= answers@.len(),
                    *answer == MachineAnswer::Each(*answers),
                    forall|j: int|
                        0 <= j < i ==> !((#[trigger] answers@[j]) matches Some(response)
                            && laws::is_new_append(response)),
                decreases answers@.len() - i,
            {
                let news = match &answers[i] {
                    Some(response) => is_new_response(response),
                    None => false,
                };
                if news {
                    proof {
                        assert forall|state: EngineState, placement: ShardPlacement|
                            laws::is_logged(
                                (#[trigger] state::applied(state, *command, *answer, placement)).1,
                                bounded,
                            ) by {
                            laws::lemma_each(
                                state,
                                state::stream_of(*command),
                                answers@,
                                placement,
                            );
                            let items = state::applied(
                                state,
                                *command,
                                *answer,
                                placement,
                            ).1->items;
                            assert(laws::is_new_item(items[i as int]));
                        }
                    }
                    return true;
                }
                i = i + 1;
            }
            proof {
                assert forall|state: EngineState, placement: ShardPlacement|
                    !laws::is_logged(
                        (#[trigger] state::applied(state, *command, *answer, placement)).1,
                        bounded,
                    ) by {
                    laws::lemma_each(state, state::stream_of(*command), answers@, placement);
                    let items = state::applied(state, *command, *answer, placement).1->items;
                    assert forall|j: int| 0 <= j < items.len() implies !laws::is_new_item(
                        #[trigger] items[j],
                    ) by {
                        assert(!(answers@[j] matches Some(response) && laws::is_new_append(
                            response,
                        )));
                    }
                }
            }
            false
        },
        MachineAnswer::One(response) => match command {
            StreamCommand::CreateStream { .. } => matches!(response, StreamResponse::Created { .. }),
            StreamCommand::CreateExternal { .. } => matches!(
                response,
                StreamResponse::Created { .. }
            ),
            StreamCommand::Append { .. } => match response {
                StreamResponse::Appended { deduplicated, .. } => !bounded || !*deduplicated,
                _ => false,
            },
            StreamCommand::AppendExternal { .. } => match response {
                StreamResponse::Appended { deduplicated, .. } => !bounded || !*deduplicated,
                _ => false,
            },
            StreamCommand::PublishSnapshot { .. } => matches!(
                response,
                StreamResponse::SnapshotPublished { .. }
            ),
            StreamCommand::TouchStreamAccess { .. } => match response {
                StreamResponse::Accessed { changed, expired } => *changed || *expired,
                _ => false,
            },
            StreamCommand::UpdateStreamAttrs { .. } => match response {
                StreamResponse::AttrsUpdated { changed } => *changed,
                _ => false,
            },
            StreamCommand::AddForkRef { .. } => matches!(
                response,
                StreamResponse::ForkRefAdded { .. }
            ),
            StreamCommand::ReleaseForkRef { .. } => matches!(
                response,
                StreamResponse::ForkRefReleased { .. }
            ),
            StreamCommand::FlushCold { .. } => matches!(
                response,
                StreamResponse::ColdFlushed { .. }
            ),
            StreamCommand::Close { .. } => matches!(response, StreamResponse::Closed { .. }),
            StreamCommand::DeleteStream { .. } => matches!(response, StreamResponse::Deleted { .. }),
            StreamCommand::AckColdGc { .. } => matches!(
                response,
                StreamResponse::ColdGcAcked { .. }
            ),
            _ => {
                assert(false);
                false
            },
        },
    }
}

impl InMemoryGroupEngine {
    /// Writes an access down.
    pub fn apply_access_command(
        &mut self,
        stream_id: BucketStreamId,
        now_ms: u64,
        renew_ttl: bool,
        response: StreamResponse,
        placement: ShardPlacement,
    ) -> (r: Result<TouchStreamAccessResponse, GroupEngineError>)
        requires
            old(self).wf(),
            old(self)@.has_room(1),
        ensures
            final(self).wf(),
            final(self)@ == touched(old(self)@, response, placement).0,
            match touched(old(self)@, response, placement).1 {
                Ok(response) => r == Ok::<TouchStreamAccessResponse, GroupEngineError>(response),
                Err(refusal) => r is Err && state::is_refusal(r->Err_0, refusal),
            },
    {
        let command = StreamCommand::TouchStreamAccess { stream_id, now_ms, renew_ttl };
        match self.apply_committed_write(&command, MachineAnswer::One(response), placement) {
            Ok(GroupWriteResponse::TouchStreamAccess(response)) => Ok(response),
            Ok(_) => {
                assert(false);
                Err(GroupEngineError::new(""))
            },
            Err(error) => Err(error),
        }
    }

    /// Makes sure that a stream may be used: writes the access down where that is
    /// needed, and refuses a stream that has expired.
    pub fn ensure_stream_access(
        &mut self,
        stream_id: &BucketStreamId,
        now_ms: u64,
        renew_ttl: bool,
        answer: AccessAnswer,
        placement: ShardPlacement,
    ) -> (r: Result<Option<TouchStreamAccessResponse>, GroupEngineError>)
        requires
            old(self).wf(),
            old(self)@.has_room(1),
        ensures
            final(self).wf(),
            final(self)@ == accessed(old(self)@, stream_id@, answer, placement).0,
            match accessed(old(self)@, stream_id@, answer, placement).1 {
                Ok(response) => r == Ok::<
                    Option<TouchStreamAccessResponse>,
                    GroupEngineError,
                >(response),
                Err(refusal) => r is Err && state::is_refusal(r->Err_0, refusal),
            },
            final(self)@.counts == old(self)@.counts,
            match answer {
                AccessAnswer::Refused(_) => r is Err && final(self)@ == old(self)@,
                AccessAnswer::NotNeeded => r matches Ok(None) && final(self)@ == old(self)@,
                AccessAnswer::Touched(StreamResponse::Accessed { changed, expired }) => {
                    &&& final(self)@.commit_index == old(self)@.commit_index + if changed
                        || expired {
                        1int
                    } else {
                        0
                    }
                    &&& expired ==> (r matches Err(GroupEngineError::Stream(error)) && error.code
                        == StreamErrorCode::StreamNotFound)
                    &&& !expired ==> (r matches Ok(Some(response)) && response.placement
                        == placement && response.changed == changed && !response.expired
                        && response.group_commit_index == final(self)@.commit_index)
                },
                AccessAnswer::Touched(_) => r is Err && final(self)@ == old(self)@,
            },
    {
        match answer {
            AccessAnswer::Refused(response) => Err(stream_response_error(response)),
            AccessAnswer::NotNeeded => Ok(None),
            AccessAnswer::Touched(response) => {
                match self.apply_access_command(
                    stream_id.clone(),
                    now_ms,
                    renew_ttl,
                    response,
                    placement,
                ) {
                    Ok(response) => {
                        if response.expired {
                            Err(missing_stream_error(stream_id))
                        } else {
                            Ok(Some(response))
                        }
                    },
                    Err(error) => Err(error),
                }
            },
        }
    }

    /// Applies a write that brings bytes, unless the group has too many hot bytes
    /// for it; then nothing changes.
    pub fn apply_with_admission(
        &mut self,
        command: &StreamCommand,
        answer: MachineAnswer,
        placement: ShardPlacement,
        admission: ColdWriteAdmission,
        group_hot_bytes: u64,
    ) -> (r: Result<GroupWriteResponse, GroupEngineError>)
        requires
            old(self).wf(),
            state::answers(*command, answer),
            brings_hot_bytes(*command),
            incoming_bytes(*command) <= u64::MAX,
            old(self)@.has_room(state::weight(answer)),
        ensures
            final(self).wf(),
            ({
                let (after, outcome) = applied_with_admission(
                    old(self)@,
                    *command,
                    answer,
                    placement,
                    admission,
                    group_hot_bytes,
                );
                &&& final(self)@ == after
                &&& match outcome {
                    AdmittedOutcome::Applied(outcome) => state::is_outcome(r, outcome),
                    AdmittedOutcome::HeldBack(error) => r is Err && r->Err_0 == error,
                }
            }),
            admission.max_hot_bytes_per_group matches Some(limit) ==> {
                let bytes = admission_laws::payload_len(*command);
                &&& admission_laws::is_news(*command, answer) && r is Ok ==> bytes == 0
                    || group_hot_bytes + bytes <= limit || limit == u64::MAX
                &&& admission_laws::is_news(*command, answer) && bytes > 0 && group_hot_bytes + bytes
                    > limit && limit < u64::MAX ==> r is Err && final(self)@ == old(self)@
            },
    {
        proof {
            admission_laws::lemma_news(self@, *command, answer, placement);
            admission_laws::lemma_payload_len(*command);
        }
        if admission.is_enabled() && must_log(command, &answer, true) {
            let checked = match command {
                StreamCommand::CreateStream { stream_id, initial_payload, .. } =>
                    check_cold_write_admission_bytes(
                        stream_id,
                        admission,
                        group_hot_bytes,
                        initial_payload.len() as u64,
                    ),
                StreamCommand::Append { stream_id, payload, .. } =>
                    check_cold_write_admission_bytes(
                        stream_id,
                        admission,
                        group_hot_bytes,
                        payload.len() as u64,
                    ),
                StreamCommand::AppendBatch { stream_id, payloads, .. } =>
                    check_cold_write_admission_bytes(
                        stream_id,
                        admission,
                        group_hot_bytes,
                        payload_bytes(payloads),
                    ),
                _ => {
                    assert(false);
                    Ok(())
                },
            };
            if let Err(error) = checked {
                return Err(error);
            }
        }
        self.apply_committed_write(command, answer, placement)
    }
}

/// With no limit, admission changes nothing.
pub proof fn law_no_limit_holds_nothing_back(
    state: EngineState,
    command: StreamCommand,
    answer: MachineAnswer,
    placement: ShardPlacement,
    admission: ColdWriteAdmission,
    hot_bytes: u64,
)
    requires
        admission.max_hot_bytes_per_group is None,
    ensures
        applied_with_admission(state, command, answer, placement, admission, hot_bytes) == (
            state::applied(state, command, answer, placement).0,
            AdmittedOutcome::Applied(state::applied(state, command, answer, placement).1),
        ),
{
}

/// A write that adds nothing, a repeated one or one that is refused, is never
/// held back.
pub proof fn law_repeated_write_is_not_held_back(
    state: EngineState,
    command: StreamCommand,
    answer: MachineAnswer,
    placement: ShardPlacement,
    admission: ColdWriteAdmission,
    hot_bytes: u64,
)
    requires
        !laws::is_logged(state::applied(state, command, answer, placement).1, true),
    ensures
        applied_with_admission(
            state,
            command,
            answer,
            placement,
            admission,
            hot_bytes,
        ).1 is Applied,
{
}

} // verus!
