//! The replicated write command, and the way from requests to commands.

use vstd::prelude::*;
use vstd::std_specs::convert::FromSpecImpl;
use crate::ids::ShardPlacement;
use crate::request::{
    AppendBatchRequest, AppendExternalRequest, AppendRequest, CloseStreamRequest,
    CreateStreamExternalRequest, CreateStreamRequest, DeleteStreamRequest, FlushColdRequest,
    PublishSnapshotRequest, StreamAppendCount, UpdateStreamAttrsRequest,
};
use crate::stream::StreamCommand;
use crate::text;
use crate::text::decimal_text;

verus! {

/// One write of a group: a command to the stream layer, or several that are
/// applied as a single entry.
#[derive(Debug, Clone, PartialEq, Eq)]
pub enum GroupWriteCommand {
    Stream(StreamCommand),
    Batch { commands: Vec<StreamCommand> },
}

/// The state of a group; the streams are in the form in which the stream layer
/// writes them.
#[derive(Debug, Clone, PartialEq, Eq)]
pub struct GroupSnapshot {
    pub placement: ShardPlacement,
    pub group_commit_index: u64,
    pub stream_snapshot: Vec<u8>,
    pub stream_append_counts: Vec<StreamAppendCount>,
}

impl GroupWriteCommand {
    /// How a batch is named in logs.
    pub fn batch_text(commands: &Vec<StreamCommand>) -> (r: String)
        ensures
            r@ == "batch:"@ + text::decimal(commands@.len()) + " commands"@,
    {
        let mut text = "batch:".to_owned();
        text.append(decimal_text(commands.len() as u128).as_str());
        text.append(" commands");
        text
    }
}

impl From<StreamCommand> for GroupWriteCommand {
    fn from(command: StreamCommand) -> (r: Self) {
        GroupWriteCommand::Stream(command)
    }
}

impl FromSpecImpl<StreamCommand> for GroupWriteCommand {
    open spec fn obeys_from_spec() -> bool {
        true
    }

    open spec fn from_spec(command: StreamCommand) -> Self {
        GroupWriteCommand::Stream(command)
    }
}

/// The command of the request.
pub open spec fn create_stream_command(request: CreateStreamRequest) -> StreamCommand {
    StreamCommand::CreateStream {
        stream_id: request.stream_id,
        content_type: request.content_type,
        initial_payload: request.initial_payload,
        close_after: request.close_after,
        stream_seq: request.stream_seq,
        producer: request.producer,
        stream_ttl_seconds: request.stream_ttl_seconds,
        stream_expires_at_ms: request.stream_expires_at_ms,
        attrs: request.attrs,
        now_ms: request.now_ms,
    }
}

impl From<CreateStreamRequest> for StreamCommand {
    fn from(request: CreateStreamRequest) -> (r: Self) {
        StreamCommand::CreateStream {
            stream_id: request.stream_id,
            content_type: request.content_type,
            initial_payload: request.initial_payload,
            close_after: request.close_after,
            stream_seq: request.stream_seq,
            producer: request.producer,
            stream_ttl_seconds: request.stream_ttl_seconds,
            stream_expires_at_ms: request.stream_expires_at_ms,
            attrs: request.attrs,
            now_ms: request.now_ms,
        }
    }
}

impl FromSpecImpl<CreateStreamRequest> for StreamCommand {
    open spec fn obeys_from_spec() -> bool {
        true
    }

    open spec fn from_spec(request: CreateStreamRequest) -> Self {
        create_stream_command(request)
    }
}

impl From<CreateStreamRequest> for GroupWriteCommand {
    fn from(request: CreateStreamRequest) -> (r: Self) {
        GroupWriteCommand::Stream(StreamCommand::from(request))
    }
}

impl FromSpecImpl<CreateStreamRequest> for GroupWriteCommand {
    open spec fn obeys_from_spec() -> bool {
        true
    }

    open spec fn from_spec(request: CreateStreamRequest) -> Self {
        GroupWriteCommand::Stream(create_stream_command(request))
    }
}

/// The command of the request.
pub open spec fn create_stream_external_command(request: CreateStreamExternalRequest) -> StreamCommand {
    StreamCommand::CreateExternal {
        stream_id: request.stream_id,
        content_type: request.content_type,
        initial_payload: request.initial_payload,
        record_ends: request.record_ends,
        close_after: request.close_after,
        stream_seq: request.stream_seq,
        producer: request.producer,
        stream_ttl_seconds: request.stream_ttl_seconds,
        stream_expires_at_ms: request.stream_expires_at_ms,
        attrs: request.attrs,
        now_ms: request.now_ms,
    }
}

impl From<CreateStreamExternalRequest> for StreamCommand {
    fn from(request: CreateStreamExternalRequest) -> (r: Self) {
        StreamCommand::CreateExternal {
            stream_id: request.stream_id,
            content_type: request.content_type,
            initial_payload: request.initial_payload,
            record_ends: request.record_ends,
            close_after: request.close_after,
            stream_seq: request.stream_seq,
            producer: request.producer,
            stream_ttl_seconds: request.stream_ttl_seconds,
            stream_expires_at_ms: request.stream_expires_at_ms,
            attrs: request.attrs,
            now_ms: request.now_ms,
        }
    }
}

impl FromSpecImpl<CreateStreamExternalRequest> for StreamCommand {
    open spec fn obeys_from_spec() -> bool {
        true
    }

    open spec fn from_spec(request: CreateStreamExternalRequest) -> Self {
        create_stream_external_command(request)
    }
}

impl From<CreateStreamExternalRequest> for GroupWriteCommand {
    fn from(request: CreateStreamExternalRequest) -> (r: Self) {
        GroupWriteCommand::Stream(StreamCommand::from(request))
    }
}

impl FromSpecImpl<CreateStreamExternalRequest> for GroupWriteCommand {
    open spec fn obeys_from_spec() -> bool {
        true
    }

    open spec fn from_spec(request: CreateStreamExternalRequest) -> Self {
        GroupWriteCommand::Stream(create_stream_external_command(request))
    }
}

/// The command of the request.
pub open spec fn update_stream_attrs_command(request: UpdateStreamAttrsRequest) -> StreamCommand {
    StreamCommand::UpdateStreamAttrs {
        stream_id: request.stream_id,
        attrs: request.attrs,
        now_ms: request.now_ms,
    }
}

impl From<UpdateStreamAttrsRequest> for StreamCommand {
    fn from(request: UpdateStreamAttrsRequest) -> (r: Self) {
        StreamCommand::UpdateStreamAttrs {
            stream_id: request.stream_id,
            attrs: request.attrs,
            now_ms: request.now_ms,
        }
    }
}

impl FromSpecImpl<UpdateStreamAttrsRequest> for StreamCommand {
    open spec fn obeys_from_spec() -> bool {
        true
    }

    open spec fn from_spec(request: UpdateStreamAttrsRequest) -> Self {
        update_stream_attrs_command(request)
    }
}

impl From<UpdateStreamAttrsRequest> for GroupWriteCommand {
    fn from(request: UpdateStreamAttrsRequest) -> (r: Self) {
        GroupWriteCommand::Stream(StreamCommand::from(request))
    }
}

impl FromSpecImpl<UpdateStreamAttrsRequest> for GroupWriteCommand {
    open spec fn obeys_from_spec() -> bool {
        true
    }

    open spec fn from_spec(request: UpdateStreamAttrsRequest) -> Self {
        GroupWriteCommand::Stream(update_stream_attrs_command(request))
    }
}

/// The command of the request.
pub open spec fn append_command(request: AppendRequest) -> StreamCommand {
    StreamCommand::Append {
        stream_id: request.stream_id,
        content_type: Some(request.content_type),
        payload: request.payload,
        close_after: request.close_after,
        stream_seq: request.stream_seq,
        producer: request.producer,
        now_ms: request.now_ms,
        record_match: request.record_match,
    }
}

impl From<AppendRequest> for StreamCommand {
    fn from(request: AppendRequest) -> (r: Self) {
        StreamCommand::Append {
            stream_id: request.stream_id,
            content_type: Some(request.content_type),
            payload: request.payload,
            close_after: request.close_after,
            stream_seq: request.stream_seq,
            producer: request.producer,
            now_ms: request.now_ms,
            record_match: request.record_match,
        }
    }
}

impl FromSpecImpl<AppendRequest> for StreamCommand {
    open spec fn obeys_from_spec() -> bool {
        true
    }

    open spec fn from_spec(request: AppendRequest) -> Self {
        append_command(request)
    }
}

impl From<AppendRequest> for GroupWriteCommand {
    fn from(request: AppendRequest) -> (r: Self) {
        GroupWriteCommand::Stream(StreamCommand::from(request))
    }
}

impl FromSpecImpl<AppendRequest> for GroupWriteCommand {
    open spec fn obeys_from_spec() -> bool {
        true
    }

    open spec fn from_spec(request: AppendRequest) -> Self {
        GroupWriteCommand::Stream(append_command(request))
    }
}

/// The command of the request.
pub open spec fn append_external_command(request: AppendExternalRequest) -> StreamCommand {
    StreamCommand::AppendExternal {
        stream_id: request.stream_id,
        content_type: Some(request.content_type),
        payload: request.payload,
        record_ends: request.record_ends,
        close_after: request.close_after,
        stream_seq: request.stream_seq,
        producer: request.producer,
        now_ms: request.now_ms,
        record_match: request.record_match,
    }
}

impl From<AppendExternalRequest> for StreamCommand {
    fn from(request: AppendExternalRequest) -> (r: Self) {
        StreamCommand::AppendExternal {
            stream_id: request.stream_id,
            content_type: Some(request.content_type),
            payload: request.payload,
            record_ends: request.record_ends,
            close_after: request.close_after,
            stream_seq: request.stream_seq,
            producer: request.producer,
            now_ms: request.now_ms,
            record_match: request.record_match,
        }
    }
}

impl FromSpecImpl<AppendExternalRequest> for StreamCommand {
    open spec fn obeys_from_spec() -> bool {
        true
    }

    open spec fn from_spec(request: AppendExternalRequest) -> Self {
        append_external_command(request)
    }
}

impl From<AppendExternalRequest> for GroupWriteCommand {
    fn from(request: AppendExternalRequest) -> (r: Self) {
        GroupWriteCommand::Stream(StreamCommand::from(request))
    }
}

impl FromSpecImpl<AppendExternalRequest> for GroupWriteCommand {
    open spec fn obeys_from_spec() -> bool {
        true
    }

    open spec fn from_spec(request: AppendExternalRequest) -> Self {
        GroupWriteCommand::Stream(append_external_command(request))
    }
}

/// The command of the request.
pub open spec fn append_batch_command(request: AppendBatchRequest) -> StreamCommand {
    StreamCommand::AppendBatch {
        stream_id: request.stream_id,
        content_type: Some(request.content_type),
        payloads: request.payloads,
        producer: request.producer,
        now_ms: request.now_ms,
    }
}

impl From<AppendBatchRequest> for StreamCommand {
    fn from(request: AppendBatchRequest) -> (r: Self) {
        StreamCommand::AppendBatch {
            stream_id: request.stream_id,
            content_type: Some(request.content_type),
            payloads: request.payloads,
            producer: request.producer,
            now_ms: request.now_ms,
        }
    }
}

impl FromSpecImpl<AppendBatchRequest> for StreamCommand {
    open spec fn obeys_from_spec() -> bool {
        true
    }

    open spec fn from_spec(request: AppendBatchRequest) -> Self {
        append_batch_command(request)
    }
}

impl From<AppendBatchRequest> for GroupWriteCommand {
    fn from(request: AppendBatchRequest) -> (r: Self) {
        GroupWriteCommand::Stream(StreamCommand::from(request))
    }
}

impl FromSpecImpl<AppendBatchRequest> for GroupWriteCommand {
    open spec fn obeys_from_spec() -> bool {
        true
    }

    open spec fn from_spec(request: AppendBatchRequest) -> Self {
        GroupWriteCommand::Stream(append_batch_command(request))
    }
}

/// The command of the request.
pub open spec fn publish_snapshot_command(request: PublishSnapshotRequest) -> StreamCommand {
    StreamCommand::PublishSnapshot {
        stream_id: request.stream_id,
        snapshot_offset: request.snapshot_offset,
        content_type: request.content_type,
        payload: request.payload,
        now_ms: request.now_ms,
    }
}

impl From<PublishSnapshotRequest> for StreamCommand {
    fn from(request: PublishSnapshotRequest) -> (r: Self) {
        StreamCommand::PublishSnapshot {
            stream_id: request.stream_id,
            snapshot_offset: request.snapshot_offset,
            content_type: request.content_type,
            payload: request.payload,
            now_ms: request.now_ms,
        }
    }
}

impl FromSpecImpl<PublishSnapshotRequest> for StreamCommand {
    open spec fn obeys_from_spec() -> bool {
        true
    }

    open spec fn from_spec(request: PublishSnapshotRequest) -> Self {
        publish_snapshot_command(request)
    }
}

impl From<PublishSnapshotRequest> for GroupWriteCommand {
    fn from(request: PublishSnapshotRequest) -> (r: Self) {
        GroupWriteCommand::Stream(StreamCommand::from(request))
    }
}

impl FromSpecImpl<PublishSnapshotRequest> for GroupWriteCommand {
    open spec fn obeys_from_spec() -> bool {
        true
    }

    open spec fn from_spec(request: PublishSnapshotRequest) -> Self {
        GroupWriteCommand::Stream(publish_snapshot_command(request))
    }
}

/// The command of the request.
pub open spec fn close_stream_command(request: CloseStreamRequest) -> StreamCommand {
    StreamCommand::Close {
        stream_id: request.stream_id,
        stream_seq: request.stream_seq,
        producer: request.producer,
        now_ms: request.now_ms,
    }
}

impl From<CloseStreamRequest> for StreamCommand {
    fn from(request: CloseStreamRequest) -> (r: Self) {
        StreamCommand::Close {
            stream_id: request.stream_id,
            stream_seq: request.stream_seq,
            producer: request.producer,
            now_ms: request.now_ms,
        }
    }
}

impl FromSpecImpl<CloseStreamRequest> for StreamCommand {
    open spec fn obeys_from_spec() -> bool {
        true
    }

    open spec fn from_spec(request: CloseStreamRequest) -> Self {
        close_stream_command(request)
    }
}

impl From<CloseStreamRequest> for GroupWriteCommand {
    fn from(request: CloseStreamRequest) -> (r: Self) {
        GroupWriteCommand::Stream(StreamCommand::from(request))
    }
}

impl FromSpecImpl<CloseStreamRequest> for GroupWriteCommand {
    open spec fn obeys_from_spec() -> bool {
        true
    }

    open spec fn from_spec(request: CloseStreamRequest) -> Self {
        GroupWriteCommand::Stream(close_stream_command(request))
    }
}

/// The command of the request.
pub open spec fn delete_stream_command(request: DeleteStreamRequest) -> StreamCommand {
    StreamCommand::DeleteStream {
        stream_id: request.stream_id,
    }
}

impl From<DeleteStreamRequest> for StreamCommand {
    fn from(request: DeleteStreamRequest) -> (r: Self) {
        StreamCommand::DeleteStream {
            stream_id: request.stream_id,
        }
    }
}

impl FromSpecImpl<DeleteStreamRequest> for StreamCommand {
    open spec fn obeys_from_spec() -> bool {
        true
    }

    open spec fn from_spec(request: DeleteStreamRequest) -> Self {
        delete_stream_command(request)
    }
}

impl From<DeleteStreamRequest> for GroupWriteCommand {
    fn from(request: DeleteStreamRequest) -> (r: Self) {
        GroupWriteCommand::Stream(StreamCommand::from(request))
    }
}

impl FromSpecImpl<DeleteStreamRequest> for GroupWriteCommand {
    open spec fn obeys_from_spec() -> bool {
        true
    }

    open spec fn from_spec(request: DeleteStreamRequest) -> Self {
        GroupWriteCommand::Stream(delete_stream_command(request))
    }
}

/// The command of the request.
pub open spec fn flush_cold_command(request: FlushColdRequest) -> StreamCommand {
    StreamCommand::FlushCold {
        stream_id: request.stream_id,
        chunk: request.chunk,
    }
}

impl From<FlushColdRequest> for StreamCommand {
    fn from(request: FlushColdRequest) -> (r: Self) {
        StreamCommand::FlushCold {
            stream_id: request.stream_id,
            chunk: request.chunk,
        }
    }
}

impl FromSpecImpl<FlushColdRequest> for StreamCommand {
    open spec fn obeys_from_spec() -> bool {
        true
    }

    open spec fn from_spec(request: FlushColdRequest) -> Self {
        flush_cold_command(request)
    }
}

impl From<FlushColdRequest> for GroupWriteCommand {
    fn from(request: FlushColdRequest) -> (r: Self) {
        GroupWriteCommand::Stream(StreamCommand::from(request))
    }
}

impl FromSpecImpl<FlushColdRequest> for GroupWriteCommand {
    open spec fn obeys_from_spec() -> bool {
        true
    }

    open spec fn from_spec(request: FlushColdRequest) -> Self {
        GroupWriteCommand::Stream(flush_cold_command(request))
    }
}

} // verus!
