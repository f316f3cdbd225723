//! How a replicated command is handed to an engine: as the request that it
//! stands for.

use vstd::prelude::*;
use vstd::std_specs::convert::FromSpec;
use crate::command;
use crate::command::GroupWriteCommand;
use crate::ids::BucketStreamId;
use crate::request::{
    AppendBatchRequest, AppendExternalRequest, AppendRequest, CloseStreamRequest,
    CreateStreamExternalRequest, CreateStreamRequest, DeleteStreamRequest, FlushColdRequest,
    PublishSnapshotRequest, UpdateStreamAttrsRequest,
};
use crate::stream::StreamCommand;

verus! {

/// What an engine is asked.
#[derive(Debug, PartialEq, Eq)]
pub enum EngineRequest {
    CreateStream(CreateStreamRequest),
    CreateStreamExternal(CreateStreamExternalRequest),
    Append(AppendRequest),
    AppendExternal(AppendExternalRequest),
    AppendBatch(AppendBatchRequest),
    PublishSnapshot(PublishSnapshotRequest),
    TouchStreamAccess { stream_id: BucketStreamId, now_ms: u64, renew_ttl: bool },
    UpdateStreamAttrs(UpdateStreamAttrsRequest),
    AddForkRef { stream_id: BucketStreamId, now_ms: u64 },
    ReleaseForkRef { stream_id: BucketStreamId },
    FlushCold(FlushColdRequest),
    CloseStream(CloseStreamRequest),
    DeleteStream(DeleteStreamRequest),
    AckColdGc { up_to_seq: u64 },
}

/// The command that a request becomes.
pub open spec fn command_of(request: EngineRequest) -> StreamCommand {
    match request {
        EngineRequest::CreateStream(request) => command::create_stream_command(request),
        EngineRequest::CreateStreamExternal(request) => command::create_stream_external_command(
            request,
        ),
        EngineRequest::Append(request) => command::append_command(request),
        EngineRequest::AppendExternal(request) => command::append_external_command(request),
        EngineRequest::AppendBatch(request) => command::append_batch_command(request),
        EngineRequest::PublishSnapshot(request) => command::publish_snapshot_command(request),
        EngineRequest::TouchStreamAccess { stream_id, now_ms, renew_ttl } =>
            StreamCommand::TouchStreamAccess { stream_id, now_ms, renew_ttl },
        EngineRequest::UpdateStreamAttrs(request) => command::update_stream_attrs_command(request),
        EngineRequest::AddForkRef { stream_id, now_ms } => StreamCommand::AddForkRef {
            stream_id,
            now_ms,
        },
        EngineRequest::ReleaseForkRef { stream_id } => StreamCommand::ReleaseForkRef { stream_id },
        EngineRequest::FlushCold(request) => command::flush_cold_command(request),
        EngineRequest::CloseStream(request) => command::close_stream_command(request),
        EngineRequest::DeleteStream(request) => command::delete_stream_command(request),
        EngineRequest::AckColdGc { up_to_seq } => StreamCommand::AckColdGc { up_to_seq },
    }
}

/// The request that a command stands for. Bucket commands, and appends that name
/// no content type, stand for none.
pub open spec fn request_of(command: StreamCommand) -> Option<EngineRequest> {
    match command {
        StreamCommand::CreateStream {
            stream_id,
            content_type,
            initial_payload,
            close_after,
            stream_seq,
            producer,
            stream_ttl_seconds,
            stream_expires_at_ms,
            attrs,
            now_ms,
        } => Some(
            EngineRequest::CreateStream(
                CreateStreamRequest {
                    stream_id,
                    content_type,
                    content_type_explicit: true,
                    initial_payload,
                    close_after,
                    stream_seq,
                    producer,
                    stream_ttl_seconds,
                    stream_expires_at_ms,
                    attrs,
                    now_ms,
                },
            ),
        ),
        StreamCommand::CreateExternal {
            stream_id,
            content_type,
            initial_payload,
            record_ends,
            close_after,
            stream_seq,
            producer,
            stream_ttl_seconds,
            stream_expires_at_ms,
            attrs,
            now_ms,
        } => Some(
            EngineRequest::CreateStreamExternal(
                CreateStreamExternalRequest {
                    stream_id,
                    content_type,
                    initial_payload,
                    record_ends,
                    close_after,
                    stream_seq,
                    producer,
                    stream_ttl_seconds,
                    stream_expires_at_ms,
                    attrs,
                    now_ms,
                },
            ),
        ),
        StreamCommand::Append {
            stream_id,
            content_type: Some(content_type),
            payload,
            close_after,
            stream_seq,
            producer,
            now_ms,
            record_match,
        } => Some(
            EngineRequest::Append(
                AppendRequest {
                    stream_id,
                    content_type,
                    payload,
                    close_after,
                    stream_seq,
                    producer,
                    now_ms,
                    record_match,
                },
            ),
        ),
        StreamCommand::AppendExternal {
            stream_id,
            content_type: Some(content_type),
            payload,
            record_ends,
            close_after,
            stream_seq,
            producer,
            now_ms,
            record_match,
        } => Some(
            EngineRequest::AppendExternal(
                AppendExternalRequest {
                    stream_id,
                    content_type,
                    payload,
                    record_ends,
                    close_after,
                    stream_seq,
                    producer,
                    now_ms,
                    record_match,
                },
            ),
        ),
        StreamCommand::AppendBatch {
            stream_id,
            content_type: Some(content_type),
            payloads,
            producer,
            now_ms,
        } => Some(
            EngineRequest::AppendBatch(
                AppendBatchRequest {
                    stream_id,
                    content_type,
                    payloads,
                    producer,
                    now_ms,
                },
            ),
        ),
        StreamCommand::PublishSnapshot {
            stream_id,
            snapshot_offset,
            content_type,
            payload,
            now_ms,
        } => Some(
            EngineRequest::PublishSnapshot(
                PublishSnapshotRequest {
                    stream_id,
                    snapshot_offset,
                    content_type,
                    payload,
                    now_ms,
                },
            ),
        ),
        StreamCommand::TouchStreamAccess { stream_id, now_ms, renew_ttl } => Some(
            EngineRequest::TouchStreamAccess { stream_id, now_ms, renew_ttl },
        ),
        StreamCommand::UpdateStreamAttrs {
            stream_id,
            attrs,
            now_ms,
        } => Some(
            EngineRequest::UpdateStreamAttrs(
                UpdateStreamAttrsRequest {
                    stream_id,
                    attrs,
                    now_ms,
                },
            ),
        ),
        StreamCommand::AddForkRef { stream_id, now_ms } => Some(
            EngineRequest::AddForkRef { stream_id, now_ms },
        ),
        StreamCommand::ReleaseForkRef { stream_id } => Some(
            EngineRequest::ReleaseForkRef { stream_id },
        ),
        StreamCommand::FlushCold {
            stream_id,
            chunk,
        } => Some(
            EngineRequest::FlushCold(
                FlushColdRequest {
                    stream_id,
                    chunk,
                },
            ),
        ),
        StreamCommand::Close {
            stream_id,
            stream_seq,
            producer,
            now_ms,
        } => Some(
            EngineRequest::CloseStream(
                CloseStreamRequest {
                    stream_id,
                    stream_seq,
                    producer,
                    now_ms,
                },
            ),
        ),
        StreamCommand::DeleteStream {
            stream_id,
        } => Some(
            EngineRequest::DeleteStream(
                DeleteStreamRequest {
                    stream_id,
                },
            ),
        ),
        StreamCommand::AckColdGc { up_to_seq } => Some(
            EngineRequest::AckColdGc { up_to_seq },
        ),
        _ => None,
    }
}

/// The request that a command stands for; the command itself where there is
/// none.
pub fn engine_request(command: StreamCommand) -> (r: Result<EngineRequest, StreamCommand>)
    ensures
        match request_of(command) {
            Some(request) => r == Ok::<EngineRequest, StreamCommand>(request),
            None => r == Err::<EngineRequest, StreamCommand>(command),
        },
{
    match command {
        StreamCommand::CreateStream {
            stream_id,
            content_type,
            initial_payload,
            close_after,
            stream_seq,
            producer,
            stream_ttl_seconds,
            stream_expires_at_ms,
            attrs,
            now_ms,
        } => Ok(
            EngineRequest::CreateStream(
                CreateStreamRequest {
                    stream_id,
                    content_type,
                    content_type_explicit: true,
                    initial_payload,
                    close_after,
                    stream_seq,
                    producer,
                    stream_ttl_seconds,
                    stream_expires_at_ms,
                    attrs,
                    now_ms,
                },
            ),
        ),
        StreamCommand::CreateExternal {
            stream_id,
            content_type,
            initial_payload,
            record_ends,
            close_after,
            stream_seq,
            producer,
            stream_ttl_seconds,
            stream_expires_at_ms,
            attrs,
            now_ms,
        } => Ok(
            EngineRequest::CreateStreamExternal(
                CreateStreamExternalRequest {
                    stream_id,
                    content_type,
                    initial_payload,
                    record_ends,
                    close_after,
                    stream_seq,
                    producer,
                    stream_ttl_seconds,
                    stream_expires_at_ms,
                    attrs,
                    now_ms,
                },
            ),
        ),
        StreamCommand::Append {
            stream_id,
            content_type: Some(content_type),
            payload,
            close_after,
            stream_seq,
            producer,
            now_ms,
            record_match,
        } => Ok(
            EngineRequest::Append(
                AppendRequest {
                    stream_id,
                    content_type,
                    payload,
                    close_after,
                    stream_seq,
                    producer,
                    now_ms,
                    record_match,
                },
            ),
        ),
        StreamCommand::AppendExternal {
            stream_id,
            content_type: Some(content_type),
            payload,
            record_ends,
            close_after,
            stream_seq,
            producer,
            now_ms,
            record_match,
        } => Ok(
            EngineRequest::AppendExternal(
                AppendExternalRequest {
                    stream_id,
                    content_type,
                    payload,
                    record_ends,
                    close_after,
                    stream_seq,
                    producer,
                    now_ms,
                    record_match,
                },
            ),
        ),
        StreamCommand::AppendBatch {
            stream_id,
            content_type: Some(content_type),
            payloads,
            producer,
            now_ms,
        } => Ok(
            EngineRequest::AppendBatch(
                AppendBatchRequest {
                    stream_id,
                    content_type,
                    payloads,
                    producer,
                    now_ms,
                },
            ),
        ),
        StreamCommand::PublishSnapshot {
            stream_id,
            snapshot_offset,
            content_type,
            payload,
            now_ms,
        } => Ok(
            EngineRequest::PublishSnapshot(
                PublishSnapshotRequest {
                    stream_id,
                    snapshot_offset,
                    content_type,
                    payload,
                    now_ms,
                },
            ),
        ),
        StreamCommand::TouchStreamAccess { stream_id, now_ms, renew_ttl } => Ok(
            EngineRequest::TouchStreamAccess { stream_id, now_ms, renew_ttl },
        ),
        StreamCommand::UpdateStreamAttrs {
            stream_id,
            attrs,
            now_ms,
        } => Ok(
            EngineRequest::UpdateStreamAttrs(
                UpdateStreamAttrsRequest {
                    stream_id,
                    attrs,
                    now_ms,
                },
            ),
        ),
        StreamCommand::AddForkRef { stream_id, now_ms } => Ok(
            EngineRequest::AddForkRef { stream_id, now_ms },
        ),
        StreamCommand::ReleaseForkRef { stream_id } => Ok(
            EngineRequest::ReleaseForkRef { stream_id },
        ),
        StreamCommand::FlushCold {
            stream_id,
            chunk,
        } => Ok(
            EngineRequest::FlushCold(
                FlushColdRequest {
                    stream_id,
                    chunk,
                },
            ),
        ),
        StreamCommand::Close {
            stream_id,
            stream_seq,
            producer,
            now_ms,
        } => Ok(
            EngineRequest::CloseStream(
                CloseStreamRequest {
                    stream_id,
                    stream_seq,
                    producer,
                    now_ms,
                },
            ),
        ),
        StreamCommand::DeleteStream {
            stream_id,
        } => Ok(
            EngineRequest::DeleteStream(
                DeleteStreamRequest {
                    stream_id,
                },
            ),
        ),
        StreamCommand::AckColdGc { up_to_seq } => Ok(
            EngineRequest::AckColdGc { up_to_seq },
        ),
        other => Err(other),
    }
}

/// The requests of a batch of commands, in order.
pub fn engine_requests(commands: Vec<StreamCommand>) -> (r: Vec<
    Result<EngineRequest, StreamCommand>,
>)
    ensures
        r@.len() == commands@.len(),
        forall|i: int|
            0 <= i < commands@.len() ==> match request_of(commands@[i]) {
                Some(request) => #[trigger] r@[i] == Ok::<EngineRequest, StreamCommand>(request),
                None => r@[i] == Err::<EngineRequest, StreamCommand>(commands@[i]),
            },
{
    let ghost all = commands@;
    let mut rest = commands;
    let mut requests: Vec<Result<EngineRequest, StreamCommand>> = Vec::new();
    while rest.len() > 0
        invariant
            requests@.len() + rest@.len() == all.len(),
            rest@ == all.subrange(requests@.len() as int, all.len() as int),
            forall|i: int|
                0 <= i < requests@.len() ==> match request_of(all[i]) {
                    Some(request) => #[trigger] requests@[i] == Ok::<EngineRequest, StreamCommand>(
                        request,
                    ),
                    None => requests@[i] == Err::<EngineRequest, StreamCommand>(all[i]),
                },
        decreases rest@.len(),
    {
        let command = rest.remove(0);
        assert(command == all[requests@.len() as int]);
        requests.push(engine_request(command));
        assert(rest@ =~= all.subrange(requests@.len() as int, all.len() as int));
    }
    requests
}

/// A command that is handed to an engine as a request comes back as the same
/// command.
pub proof fn law_request_keeps_the_command(command: StreamCommand)
    requires
        request_of(command) is Some,
    ensures
        command_of(request_of(command)->0) == command,
{
}

/// Every request stands behind its command, but that a replicated creation names
/// its content type always.
pub proof fn law_command_keeps_the_request(request: EngineRequest)
    requires
        request matches EngineRequest::CreateStream(create) ==> create.content_type_explicit,
    ensures
        request_of(command_of(request)) == Some(request),
{
}

/// A command carries what was asked, each part in its own place: the stream, the bytes,
/// the producer, the times and the rest are those of the request.
pub proof fn law_command_carries_what_was_asked(request: EngineRequest)
    ensures
        match request {
            EngineRequest::CreateStream(asked) => command_of(request) matches StreamCommand::CreateStream {
                stream_id,
                content_type,
                initial_payload,
                close_after,
                stream_seq,
                producer,
                stream_ttl_seconds,
                stream_expires_at_ms,
                attrs,
                now_ms,
            } && {
                &&& stream_id == asked.stream_id
                &&& content_type == asked.content_type
                &&& initial_payload == asked.initial_payload
                &&& close_after == asked.close_after
                &&& stream_seq == asked.stream_seq
                &&& producer == asked.producer
                &&& stream_ttl_seconds == asked.stream_ttl_seconds
                &&& stream_expires_at_ms == asked.stream_expires_at_ms
                &&& attrs == asked.attrs
                &&& now_ms == asked.now_ms
            },
            EngineRequest::CreateStreamExternal(asked) => command_of(request) matches StreamCommand::CreateExternal {
                stream_id,
                content_type,
                initial_payload,
                record_ends,
                close_after,
                stream_seq,
                producer,
                stream_ttl_seconds,
                stream_expires_at_ms,
                attrs,
                now_ms,
            } && {
                &&& stream_id == asked.stream_id
                &&& content_type == asked.content_type
                &&& initial_payload == asked.initial_payload
                &&& record_ends == asked.record_ends
                &&& close_after == asked.close_after
                &&& stream_seq == asked.stream_seq
                &&& producer == asked.producer
                &&& stream_ttl_seconds == asked.stream_ttl_seconds
                &&& stream_expires_at_ms == asked.stream_expires_at_ms
                &&& attrs == asked.attrs
                &&& now_ms == asked.now_ms
            },
            EngineRequest::Append(asked) => command_of(request) matches StreamCommand::Append {
                stream_id,
                content_type,
                payload,
                close_after,
                stream_seq,
                producer,
                now_ms,
                record_match,
            } && {
                &&& stream_id == asked.stream_id
                &&& content_type == Some(asked.content_type)
                &&& payload == asked.payload
                &&& close_after == asked.close_after
                &&& stream_seq == asked.stream_seq
                &&& producer == asked.producer
                &&& now_ms == asked.now_ms
                &&& record_match == asked.record_match
            },
            EngineRequest::AppendExternal(asked) => command_of(request) matches StreamCommand::AppendExternal {
                stream_id,
                content_type,
                payload,
                record_ends,
                close_after,
                stream_seq,
                producer,
                now_ms,
                record_match,
            } && {
                &&& stream_id == asked.stream_id
                &&& content_type == Some(asked.content_type)
                &&& payload == asked.payload
                &&& record_ends == asked.record_ends
                &&& close_after == asked.close_after
                &&& stream_seq == asked.stream_seq
                &&& producer == asked.producer
                &&& now_ms == asked.now_ms
                &&& record_match == asked.record_match
            },
            EngineRequest::AppendBatch(asked) => command_of(request) matches StreamCommand::AppendBatch {
                stream_id,
                content_type,
                payloads,
                producer,
                now_ms,
            } && {
                &&& stream_id == asked.stream_id
                &&& content_type == Some(asked.content_type)
                &&& payloads == asked.payloads
                &&& producer == asked.producer
                &&& now_ms == asked.now_ms
            },
            EngineRequest::PublishSnapshot(asked) => command_of(request) matches StreamCommand::PublishSnapshot {
                stream_id,
                snapshot_offset,
                content_type,
                payload,
                now_ms,
            } && {
                &&& stream_id == asked.stream_id
                &&& snapshot_offset == asked.snapshot_offset
                &&& content_type == asked.content_type
                &&& payload == asked.payload
                &&& now_ms == asked.now_ms
            },
            EngineRequest::UpdateStreamAttrs(asked) => command_of(request) matches StreamCommand::UpdateStreamAttrs {
                stream_id,
                attrs,
                now_ms,
            } && {
                &&& stream_id == asked.stream_id
                &&& attrs == asked.attrs
                &&& now_ms == asked.now_ms
            },
            EngineRequest::FlushCold(asked) => command_of(request) matches StreamCommand::FlushCold {
                stream_id,
                chunk,
            } && {
                &&& stream_id == asked.stream_id
                &&& chunk == asked.chunk
            },
            EngineRequest::CloseStream(asked) => command_of(request) matches StreamCommand::Close {
                stream_id,
                stream_seq,
                producer,
                now_ms,
            } && {
                &&& stream_id == asked.stream_id
                &&& stream_seq == asked.stream_seq
                &&& producer == asked.producer
                &&& now_ms == asked.now_ms
            },
            EngineRequest::DeleteStream(asked) => command_of(request) matches StreamCommand::DeleteStream {
                stream_id,
            } && {
                &&& stream_id == asked.stream_id
            },
            EngineRequest::TouchStreamAccess { stream_id, now_ms, renew_ttl } => command_of(request) matches StreamCommand::TouchStreamAccess {
                stream_id: given_stream_id,
                now_ms: given_now_ms,
                renew_ttl: given_renew_ttl,
            } && {
                &&& given_stream_id == stream_id
                &&& given_now_ms == now_ms
                &&& given_renew_ttl == renew_ttl
            },
            EngineRequest::AddForkRef { stream_id, now_ms } => command_of(request) matches StreamCommand::AddForkRef {
                stream_id: given_stream_id,
                now_ms: given_now_ms,
            } && {
                &&& given_stream_id == stream_id
                &&& given_now_ms == now_ms
            },
            EngineRequest::ReleaseForkRef { stream_id } => command_of(request) matches StreamCommand::ReleaseForkRef {
                stream_id: given_stream_id,
            } && {
                &&& given_stream_id == stream_id
            },
            EngineRequest::AckColdGc { up_to_seq } => command_of(request) matches StreamCommand::AckColdGc {
                up_to_seq: given_up_to_seq,
            } && {
                &&& given_up_to_seq == up_to_seq
            },
        },
{
}

/// A request that is made a command, or a write, becomes the command that the request stands
/// for, and the write of that command alone.
pub proof fn law_request_becomes_its_command(request: EngineRequest)
    ensures
        match request {
            EngineRequest::CreateStream(asked) => {
                &&& <StreamCommand as FromSpec<CreateStreamRequest>>::from_spec(asked) == command_of(request)
                &&& <GroupWriteCommand as FromSpec<CreateStreamRequest>>::from_spec(asked)
                    == GroupWriteCommand::Stream(command_of(request))
            },
            EngineRequest::CreateStreamExternal(asked) => {
                &&& <StreamCommand as FromSpec<CreateStreamExternalRequest>>::from_spec(asked) == command_of(request)
                &&& <GroupWriteCommand as FromSpec<CreateStreamExternalRequest>>::from_spec(asked)
                    == GroupWriteCommand::Stream(command_of(request))
            },
            EngineRequest::Append(asked) => {
                &&& <StreamCommand as FromSpec<AppendRequest>>::from_spec(asked) == command_of(request)
                &&& <GroupWriteCommand as FromSpec<AppendRequest>>::from_spec(asked)
                    == GroupWriteCommand::Stream(command_of(request))
            },
            EngineRequest::AppendExternal(asked) => {
                &&& <StreamCommand as FromSpec<AppendExternalRequest>>::from_spec(asked) == command_of(request)
                &&& <GroupWriteCommand as FromSpec<AppendExternalRequest>>::from_spec(asked)
                    == GroupWriteCommand::Stream(command_of(request))
            },
            EngineRequest::AppendBatch(asked) => {
                &&& <StreamCommand as FromSpec<AppendBatchRequest>>::from_spec(asked) == command_of(request)
                &&& <GroupWriteCommand as FromSpec<AppendBatchRequest>>::from_spec(asked)
                    == GroupWriteCommand::Stream(command_of(request))
            },
            EngineRequest::PublishSnapshot(asked) => {
                &&& <StreamCommand as FromSpec<PublishSnapshotRequest>>::from_spec(asked) == command_of(request)
                &&& <GroupWriteCommand as FromSpec<PublishSnapshotRequest>>::from_spec(asked)
                    == GroupWriteCommand::Stream(command_of(request))
            },
            EngineRequest::UpdateStreamAttrs(asked) => {
                &&& <StreamCommand as FromSpec<UpdateStreamAttrsRequest>>::from_spec(asked) == command_of(request)
                &&& <GroupWriteCommand as FromSpec<UpdateStreamAttrsRequest>>::from_spec(asked)
                    == GroupWriteCommand::Stream(command_of(request))
            },
            EngineRequest::FlushCold(asked) => {
                &&& <StreamCommand as FromSpec<FlushColdRequest>>::from_spec(asked) == command_of(request)
                &&& <GroupWriteCommand as FromSpec<FlushColdRequest>>::from_spec(asked)
                    == GroupWriteCommand::Stream(command_of(request))
            },
            EngineRequest::CloseStream(asked) => {
                &&& <StreamCommand as FromSpec<CloseStreamRequest>>::from_spec(asked) == command_of(request)
                &&& <GroupWriteCommand as FromSpec<CloseStreamRequest>>::from_spec(asked)
                    == GroupWriteCommand::Stream(command_of(request))
            },
            EngineRequest::DeleteStream(asked) => {
                &&& <StreamCommand as FromSpec<DeleteStreamRequest>>::from_spec(asked) == command_of(request)
                &&& <GroupWriteCommand as FromSpec<DeleteStreamRequest>>::from_spec(asked)
                    == GroupWriteCommand::Stream(command_of(request))
            },
            _ => true,
        },
        <GroupWriteCommand as FromSpec<StreamCommand>>::from_spec(command_of(request))
            == GroupWriteCommand::Stream(command_of(request)),
{
}

} // verus!
