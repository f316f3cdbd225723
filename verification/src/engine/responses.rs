//! What an engine gives back for a write.

use vstd::prelude::*;
use crate::engine::errors::GroupEngineError;
use crate::ids::ShardPlacement;
use crate::request::{
    AckColdGcResponse, AppendResponse, CloseStreamResponse, CreateStreamResponse,
    DeleteStreamResponse, FlushColdResponse, ForkRefResponse, PublishSnapshotResponse,
    TouchStreamAccessResponse, UpdateStreamAttrsResponse,
};

verus! {

/// What became of each payload of a batch.
#[derive(Debug, PartialEq, Eq)]
pub struct GroupAppendBatchResponse {
    pub placement: ShardPlacement,
    pub items: Vec<Result<AppendResponse, GroupEngineError>>,
}

/// What became of a write.
#[derive(Debug, PartialEq, Eq)]
pub enum GroupWriteResponse {
    CreateStream(CreateStreamResponse),
    Append(AppendResponse),
    AppendBatch(GroupAppendBatchResponse),
    PublishSnapshot(PublishSnapshotResponse),
    TouchStreamAccess(TouchStreamAccessResponse),
    UpdateStreamAttrs(UpdateStreamAttrsResponse),
    AddForkRef(ForkRefResponse),
    ReleaseForkRef(ForkRefResponse),
    FlushCold(FlushColdResponse),
    CloseStream(CloseStreamResponse),
    DeleteStream(DeleteStreamResponse),
    AckColdGc(AckColdGcResponse),
    Batch(Vec<Result<GroupWriteResponse, GroupEngineError>>),
}

/// What `{:?}` makes of a response.
pub uninterp spec fn write_response_debug(response: GroupWriteResponse) -> Seq<char>;

/// `format!` with `{:?}`, on a response. The words depend on the response alone.
#[verifier::external_body]
pub(crate) fn debug_write_response(response: &GroupWriteResponse) -> (r: String)
    ensures
        r@ == write_response_debug(*response),
{
    format!("{response:?}")
}


} // verus!
