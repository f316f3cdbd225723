//! Requests to a group engine and its responses.

use vstd::prelude::*;
use crate::cold_store::DEFAULT_CONTENT_TYPE;
use crate::error::RuntimeError;
use crate::ids::{BucketStreamId, ShardPlacement};
use crate::refs::{ColdChunkRef, ExternalPayloadRef};
use crate::stream::{
    ProducerRequest, StreamAttrs, StreamReadPlan, StreamReadSegment, StreamRecordRange,
};

verus! {

/// Creates a stream.
#[derive(Debug, Clone, PartialEq, Eq)]
pub struct CreateStreamRequest {
    pub stream_id: BucketStreamId,
    pub content_type: String,
    pub content_type_explicit: bool,
    pub initial_payload: Vec<u8>,
    pub close_after: bool,
    pub stream_seq: Option<String>,
    pub producer: Option<ProducerRequest>,
    pub stream_ttl_seconds: Option<u64>,
    pub stream_expires_at_ms: Option<u64>,
    pub attrs: Option<StreamAttrs>,
    pub now_ms: u64,
}

/// Creates a stream whose first bytes are kept as an object.
#[derive(Debug, Clone, PartialEq, Eq)]
pub struct CreateStreamExternalRequest {
    pub stream_id: BucketStreamId,
    pub content_type: String,
    pub initial_payload: ExternalPayloadRef,
    pub record_ends: Vec<u64>,
    pub close_after: bool,
    pub stream_seq: Option<String>,
    pub producer: Option<ProducerRequest>,
    pub stream_ttl_seconds: Option<u64>,
    pub stream_expires_at_ms: Option<u64>,
    pub attrs: Option<StreamAttrs>,
    pub now_ms: u64,
}

/// What became of a creation.
#[derive(Debug, Clone, PartialEq, Eq)]
pub struct CreateStreamResponse {
    pub placement: ShardPlacement,
    pub next_offset: u64,
    pub closed: bool,
    pub already_exists: bool,
    pub group_commit_index: u64,
    pub record_range: Option<StreamRecordRange>,
}

/// Asks about a stream.
#[derive(Debug, Clone, PartialEq, Eq)]
pub struct HeadStreamRequest {
    pub stream_id: BucketStreamId,
    pub now_ms: u64,
}

/// What the stream layer knows of a stream.
#[derive(Debug, Clone, PartialEq, Eq)]
pub struct StreamHead {
    pub content_type: String,
    pub tail_offset: u64,
    pub hot_start_offset: u64,
    pub closed: bool,
    pub stream_ttl_seconds: Option<u64>,
    pub stream_expires_at_ms: Option<u64>,
    pub record_range: Option<StreamRecordRange>,
}

/// What there is to know of a stream; `integrity` is the form in which the stream
/// layer writes its own digest.
#[derive(Debug, Clone, PartialEq, Eq)]
pub struct HeadStreamResponse {
    pub placement: ShardPlacement,
    pub content_type: String,
    pub tail_offset: u64,
    pub cold_hot_start_offset: u64,
    pub closed: bool,
    pub stream_ttl_seconds: Option<u64>,
    pub stream_expires_at_ms: Option<u64>,
    pub snapshot_offset: Option<u64>,
    pub integrity: String,
    pub record_range: Option<StreamRecordRange>,
}

/// Asks for the attributes of a stream.
#[derive(Debug, Clone, PartialEq, Eq)]
pub struct GetStreamAttrsRequest {
    pub stream_id: BucketStreamId,
    pub now_ms: u64,
}

/// The attributes of a stream.
#[derive(Debug, Clone, PartialEq, Eq)]
pub struct GetStreamAttrsResponse {
    pub placement: ShardPlacement,
    pub attrs: Option<StreamAttrs>,
}

/// Changes the attributes of a stream.
#[derive(Debug, Clone, PartialEq, Eq)]
pub struct UpdateStreamAttrsRequest {
    pub stream_id: BucketStreamId,
    pub attrs: Option<StreamAttrs>,
    pub now_ms: u64,
}

/// Whether the attributes are others than before.
#[derive(Debug, Clone, PartialEq, Eq)]
pub struct UpdateStreamAttrsResponse {
    pub placement: ShardPlacement,
    pub changed: bool,
    pub group_commit_index: u64,
}

/// Reads a stream from an offset on.
#[derive(Debug, Clone, PartialEq, Eq)]
pub struct ReadStreamRequest {
    pub stream_id: BucketStreamId,
    pub offset: u64,
    pub max_len: usize,
    pub now_ms: u64,
    pub record: Option<u64>,
    pub max_records: Option<u64>,
}

/// What was read.
#[derive(Debug, Clone, PartialEq, Eq)]
pub struct ReadStreamResponse {
    pub placement: ShardPlacement,
    pub offset: u64,
    pub next_offset: u64,
    pub content_type: String,
    pub payload: Vec<u8>,
    pub up_to_date: bool,
    pub closed: bool,
    pub retained_record_range: Option<StreamRecordRange>,
    pub record_range: Option<StreamRecordRange>,
}

/// Where the bytes of a read are: at hand, or still to be put together from a
/// plan. The two flags say whether a payload store and a page cache are there.
#[derive(Debug, PartialEq, Eq)]
pub enum GroupReadStreamBody {
    Materialized(Vec<u8>),
    Planned {
        stream_id: BucketStreamId,
        plan: StreamReadPlan,
        has_cold_store: bool,
        has_cold_index_cache: bool,
    },
}

/// A read whose bytes may be still to come.
#[derive(Debug, PartialEq, Eq)]
pub struct GroupReadStreamParts {
    pub placement: ShardPlacement,
    pub offset: u64,
    pub next_offset: u64,
    pub content_type: String,
    pub up_to_date: bool,
    pub closed: bool,
    pub retained_record_range: Option<StreamRecordRange>,
    pub record_range: Option<StreamRecordRange>,
    pub body: GroupReadStreamBody,
}

/// Publishes a snapshot of a stream.
#[derive(Debug, Clone, PartialEq, Eq)]
pub struct PublishSnapshotRequest {
    pub stream_id: BucketStreamId,
    pub snapshot_offset: u64,
    pub content_type: String,
    pub payload: Vec<u8>,
    pub now_ms: u64,
}

/// Where the snapshot stands.
#[derive(Debug, Clone, PartialEq, Eq)]
pub struct PublishSnapshotResponse {
    pub placement: ShardPlacement,
    pub snapshot_offset: u64,
    pub group_commit_index: u64,
}

/// Reads a snapshot, the latest where no offset is given.
#[derive(Debug, Clone, PartialEq, Eq)]
pub struct ReadSnapshotRequest {
    pub stream_id: BucketStreamId,
    pub snapshot_offset: Option<u64>,
    pub now_ms: u64,
}

/// A snapshot of a stream.
#[derive(Debug, Clone, PartialEq, Eq)]
pub struct StreamVisibleSnapshot {
    pub offset: u64,
    pub content_type: String,
    pub payload: Vec<u8>,
}

/// A snapshot.
#[derive(Debug, Clone, PartialEq, Eq)]
pub struct ReadSnapshotResponse {
    pub placement: ShardPlacement,
    pub snapshot_offset: u64,
    pub next_offset: u64,
    pub content_type: String,
    pub payload: Vec<u8>,
    pub up_to_date: bool,
}

/// Deletes a snapshot.
#[derive(Debug, Clone, PartialEq, Eq)]
pub struct DeleteSnapshotRequest {
    pub stream_id: BucketStreamId,
    pub snapshot_offset: u64,
    pub now_ms: u64,
}

/// Asks for all that a new reader needs.
#[derive(Debug, Clone, PartialEq, Eq)]
pub struct BootstrapStreamRequest {
    pub stream_id: BucketStreamId,
    pub now_ms: u64,
}

/// One message after the snapshot.
#[derive(Debug, Clone, PartialEq, Eq)]
pub struct BootstrapUpdate {
    pub start_offset: u64,
    pub next_offset: u64,
    pub content_type: String,
    pub payload: Vec<u8>,
}

/// All that a new reader needs.
#[derive(Debug, Clone, PartialEq, Eq)]
pub struct BootstrapStreamResponse {
    pub placement: ShardPlacement,
    pub snapshot_offset: Option<u64>,
    pub snapshot_content_type: String,
    pub snapshot_payload: Vec<u8>,
    pub updates: Vec<BootstrapUpdate>,
    pub next_offset: u64,
    pub up_to_date: bool,
    pub closed: bool,
}

/// Closes a stream.
#[derive(Debug, Clone, PartialEq, Eq)]
pub struct CloseStreamRequest {
    pub stream_id: BucketStreamId,
    pub stream_seq: Option<String>,
    pub producer: Option<ProducerRequest>,
    pub now_ms: u64,
}

/// Where the stream ends.
#[derive(Debug, Clone, PartialEq, Eq)]
pub struct CloseStreamResponse {
    pub placement: ShardPlacement,
    pub next_offset: u64,
    pub group_commit_index: u64,
    pub deduplicated: bool,
}

/// Deletes a stream.
#[derive(Debug, Clone, PartialEq, Eq)]
pub struct DeleteStreamRequest {
    pub stream_id: BucketStreamId,
}

/// Whether the stream is gone altogether, and which parent is no longer held.
#[derive(Debug, Clone, PartialEq, Eq)]
pub struct DeleteStreamResponse {
    pub placement: ShardPlacement,
    pub group_commit_index: u64,
    pub hard_deleted: bool,
    pub parent_to_release: Option<BucketStreamId>,
}

/// How many forks hold a stream.
#[derive(Debug, Clone, PartialEq, Eq)]
pub struct ForkRefResponse {
    pub placement: ShardPlacement,
    pub fork_ref_count: u64,
    pub hard_deleted: bool,
    pub parent_to_release: Option<BucketStreamId>,
    pub group_commit_index: u64,
}

/// How many collected objects were struck off.
#[derive(Debug, Clone, PartialEq, Eq)]
pub struct AckColdGcResponse {
    pub placement: ShardPlacement,
    pub removed: u64,
    pub group_commit_index: u64,
}

/// Moves a chunk of a stream to the cold store.
#[derive(Debug, Clone, PartialEq, Eq)]
pub struct FlushColdRequest {
    pub stream_id: BucketStreamId,
    pub chunk: ColdChunkRef,
}

/// Where the hot part of the stream begins now.
#[derive(Debug, Clone, PartialEq, Eq)]
pub struct FlushColdResponse {
    pub placement: ShardPlacement,
    pub hot_start_offset: u64,
    pub group_commit_index: u64,
}

/// What an access changed.
#[derive(Debug, Clone, PartialEq, Eq)]
pub struct TouchStreamAccessResponse {
    pub placement: ShardPlacement,
    pub changed: bool,
    pub expired: bool,
    pub group_commit_index: u64,
}

/// Looks for a chunk of a stream to move.
#[derive(Debug, Clone, PartialEq, Eq)]
pub struct PlanColdFlushRequest {
    pub stream_id: BucketStreamId,
    pub min_hot_bytes: usize,
    pub max_flush_bytes: usize,
}

/// Looks for a chunk of any stream of a group to move.
#[derive(Debug, Clone, PartialEq, Eq)]
pub struct PlanGroupColdFlushRequest {
    pub min_hot_bytes: usize,
    pub max_flush_bytes: usize,
}

/// How many bytes are not in the cold store yet.
#[derive(Debug, Clone, PartialEq, Eq)]
pub struct ColdHotBacklog {
    pub stream_id: BucketStreamId,
    pub stream_hot_bytes: u64,
    pub group_hot_bytes: u64,
}

/// How many hot bytes a group may have; no bound where the limit is absent.
#[derive(Debug, Clone, Copy, PartialEq, Eq, Structural)]
pub struct ColdWriteAdmission {
    pub max_hot_bytes_per_group: Option<u64>,
}

/// Appends to a stream.
#[derive(Debug, Clone, PartialEq, Eq)]
pub struct AppendRequest {
    pub stream_id: BucketStreamId,
    pub content_type: String,
    pub payload: Vec<u8>,
    pub close_after: bool,
    pub stream_seq: Option<String>,
    pub producer: Option<ProducerRequest>,
    pub now_ms: u64,
    pub record_match: Option<u64>,
}

/// Appends bytes that are kept as an object.
#[derive(Debug, Clone, PartialEq, Eq)]
pub struct AppendExternalRequest {
    pub stream_id: BucketStreamId,
    pub content_type: String,
    pub payload: ExternalPayloadRef,
    pub record_ends: Vec<u64>,
    pub close_after: bool,
    pub stream_seq: Option<String>,
    pub producer: Option<ProducerRequest>,
    pub now_ms: u64,
    pub record_match: Option<u64>,
}

/// Appends several payloads.
#[derive(Debug, Clone, PartialEq, Eq)]
pub struct AppendBatchRequest {
    pub stream_id: BucketStreamId,
    pub content_type: String,
    pub payloads: Vec<Vec<u8>>,
    pub producer: Option<ProducerRequest>,
    pub now_ms: u64,
}

/// Where an append went.
#[derive(Debug, Clone, PartialEq, Eq)]
pub struct AppendResponse {
    pub placement: ShardPlacement,
    pub start_offset: u64,
    pub next_offset: u64,
    pub stream_append_count: u64,
    pub group_commit_index: u64,
    pub closed: bool,
    pub deduplicated: bool,
    pub producer: Option<ProducerRequest>,
    pub record_range: Option<StreamRecordRange>,
}

/// What became of each payload of a batch.
#[derive(Debug, PartialEq, Eq)]
pub struct AppendBatchResponse {
    pub placement: ShardPlacement,
    pub items: Vec<Result<AppendResponse, RuntimeError>>,
}

/// How often a stream was appended to.
#[derive(Debug, Clone, PartialEq, Eq)]
pub struct StreamAppendCount {
    pub stream_id: BucketStreamId,
    pub append_count: u64,
}

impl CreateStreamRequest {
    /// A plain creation of an empty stream.
    pub fn new(stream_id: BucketStreamId, content_type: &str) -> (r: Self)
        ensures
            r.stream_id == stream_id,
            r.content_type@ == content_type@,
            r.content_type_explicit,
            r.initial_payload@ == Seq::<u8>::empty(),
            !r.close_after,
            r.stream_seq is None,
            r.producer is None,
            r.stream_ttl_seconds is None,
            r.stream_expires_at_ms is None,
            r.attrs is None,
            r.now_ms == 0,
    {
        CreateStreamRequest {
            stream_id,
            content_type: content_type.to_owned(),
            content_type_explicit: true,
            initial_payload: Vec::new(),
            close_after: false,
            stream_seq: None,
            producer: None,
            stream_ttl_seconds: None,
            stream_expires_at_ms: None,
            attrs: None,
            now_ms: 0,
        }
    }
}

impl CreateStreamExternalRequest {
    /// The same creation, with its first bytes kept as an object.
    pub fn from_create_request(
        request: CreateStreamRequest,
        initial_payload: ExternalPayloadRef,
        record_ends: Vec<u64>,
    ) -> (r: Self)
        ensures
            r == (CreateStreamExternalRequest {
                stream_id: request.stream_id,
                content_type: request.content_type,
                initial_payload,
                record_ends,
                close_after: request.close_after,
                stream_seq: request.stream_seq,
                producer: request.producer,
                stream_ttl_seconds: request.stream_ttl_seconds,
                stream_expires_at_ms: request.stream_expires_at_ms,
                attrs: request.attrs,
                now_ms: request.now_ms,
            }),
    {
        CreateStreamExternalRequest {
            stream_id: request.stream_id,
            content_type: request.content_type,
            initial_payload,
            record_ends,
            close_after: request.close_after,
            stream_seq: request.stream_seq,
            producer: request.producer,
            stream_ttl_seconds: request.stream_ttl_seconds,
            stream_expires_at_ms: request.stream_expires_at_ms,
            attrs: request.attrs,
            now_ms: request.now_ms,
        }
    }
}

impl AppendExternalRequest {
    /// The same append, with its bytes kept as an object.
    pub fn from_append_request(
        request: AppendRequest,
        payload: ExternalPayloadRef,
        record_ends: Vec<u64>,
    ) -> (r: Self)
        ensures
            r == (AppendExternalRequest {
                stream_id: request.stream_id,
                content_type: request.content_type,
                payload,
                record_ends,
                close_after: request.close_after,
                stream_seq: request.stream_seq,
                producer: request.producer,
                now_ms: request.now_ms,
                record_match: request.record_match,
            }),
    {
        AppendExternalRequest {
            stream_id: request.stream_id,
            content_type: request.content_type,
            payload,
            record_ends,
            close_after: request.close_after,
            stream_seq: request.stream_seq,
            producer: request.producer,
            now_ms: request.now_ms,
            record_match: request.record_match,
        }
    }
}

impl AppendRequest {
    /// Whether the request is a plain append of these bytes.
    pub open spec fn is_plain(self, stream_id: BucketStreamId, payload: Seq<u8>) -> bool {
        &&& self.stream_id == stream_id
        &&& self.content_type@ == DEFAULT_CONTENT_TYPE@
        &&& self.payload@ == payload
        &&& !self.close_after
        &&& self.stream_seq is None
        &&& self.producer is None
        &&& self.now_ms == 0
        &&& self.record_match is None
    }

    /// A plain append of `payload_len` zero bytes.
    pub fn new(stream_id: BucketStreamId, payload_len: u64) -> (r: Self)
        requires
            payload_len <= usize::MAX,
        ensures
            r.is_plain(stream_id, Seq::new(payload_len as nat, |i: int| 0u8)),
    {
        let mut payload: Vec<u8> = Vec::new();
        let mut i: u64 = 0;
        while i < payload_len
            invariant
                i <= payload_len,
                payload@ == Seq::new(i as nat, |j: int| 0u8),
            decreases payload_len - i,
        {
            payload.push(0);
            i = i + 1;
            assert(payload@ =~= Seq::new(i as nat, |j: int| 0u8));
        }
        AppendRequest::from_bytes(stream_id, payload)
    }

    /// A plain append.
    pub fn from_bytes(stream_id: BucketStreamId, payload: Vec<u8>) -> (r: Self)
        ensures
            r.is_plain(stream_id, payload@),
    {
        AppendRequest {
            stream_id,
            content_type: DEFAULT_CONTENT_TYPE.to_owned(),
            payload,
            close_after: false,
            stream_seq: None,
            producer: None,
            now_ms: 0,
            record_match: None,
        }
    }

    pub fn payload_len(&self) -> (r: u64)
        ensures
            r == self.payload@.len(),
    {
        self.payload.len() as u64
    }
}

impl AppendBatchRequest {
    /// A plain append of several payloads.
    pub fn new(stream_id: BucketStreamId, payloads: Vec<Vec<u8>>) -> (r: Self)
        ensures
            r.stream_id == stream_id,
            r.content_type@ == DEFAULT_CONTENT_TYPE@,
            r.payloads == payloads,
            r.producer is None,
            r.now_ms == 0,
    {
        AppendBatchRequest {
            stream_id,
            content_type: DEFAULT_CONTENT_TYPE.to_owned(),
            payloads,
            producer: None,
            now_ms: 0,
        }
    }
}

impl Default for ColdWriteAdmission {
    fn default() -> (r: Self)
        ensures
            r.max_hot_bytes_per_group is None,
    {
        ColdWriteAdmission { max_hot_bytes_per_group: None }
    }
}

impl ColdWriteAdmission {
    pub fn is_enabled(self) -> (r: bool)
        ensures
            r == (self.max_hot_bytes_per_group is Some),
    {
        self.max_hot_bytes_per_group.is_some()
    }
}

/// Whether a segment stands for no bytes.
pub open spec fn is_empty_segment(segment: StreamReadSegment) -> bool {
    match segment {
        StreamReadSegment::Hot(payload) => payload@.len() == 0,
        StreamReadSegment::ColdIndex(segment) => segment.len == 0,
        StreamReadSegment::Object(segment) => segment.len == 0,
    }
}

/// Whether a read stands for no bytes.
pub open spec fn is_empty_body(body: GroupReadStreamBody) -> bool {
    match body {
        GroupReadStreamBody::Materialized(payload) => payload@.len() == 0,
        GroupReadStreamBody::Planned { plan, .. } => forall|i: int|
            0 <= i < plan.segments@.len() ==> is_empty_segment(#[trigger] plan.segments@[i]),
    }
}

/// A read whose bytes are at hand, as parts.
pub open spec fn parts_of(response: ReadStreamResponse) -> GroupReadStreamParts {
    GroupReadStreamParts {
        placement: response.placement,
        offset: response.offset,
        next_offset: response.next_offset,
        content_type: response.content_type,
        up_to_date: response.up_to_date,
        closed: response.closed,
        retained_record_range: response.retained_record_range,
        record_range: response.record_range,
        body: GroupReadStreamBody::Materialized(response.payload),
    }
}

/// The response that parts become with these bytes.
pub open spec fn response_of(parts: GroupReadStreamParts, payload: Vec<u8>) -> ReadStreamResponse {
    ReadStreamResponse {
        placement: parts.placement,
        offset: parts.offset,
        next_offset: parts.next_offset,
        content_type: parts.content_type,
        payload,
        up_to_date: parts.up_to_date,
        closed: parts.closed,
        retained_record_range: parts.retained_record_range,
        record_range: parts.record_range,
    }
}

/// A read whose bytes are at hand becomes the response that it came from.
pub proof fn law_materialized_read_round_trip(response: ReadStreamResponse)
    ensures
        response_of(parts_of(response), parts_of(response).body->Materialized_0) == response,
{
}

impl GroupReadStreamParts {
    /// A read whose bytes are at hand.
    pub fn from_response(response: ReadStreamResponse) -> (r: Self)
        ensures
            r == parts_of(response),
    {
        GroupReadStreamParts {
            placement: response.placement,
            offset: response.offset,
            next_offset: response.next_offset,
            content_type: response.content_type,
            up_to_date: response.up_to_date,
            closed: response.closed,
            retained_record_range: response.retained_record_range,
            record_range: response.record_range,
            body: GroupReadStreamBody::Materialized(response.payload),
        }
    }

    /// A read whose bytes are still to be put together.
    pub fn from_plan(
        placement: ShardPlacement,
        stream_id: BucketStreamId,
        plan: StreamReadPlan,
        has_cold_store: bool,
        has_cold_index_cache: bool,
    ) -> (r: Self)
        ensures
            r == (GroupReadStreamParts {
                placement,
                offset: plan.offset,
                next_offset: plan.next_offset,
                content_type: plan.content_type,
                up_to_date: plan.up_to_date,
                closed: plan.closed,
                retained_record_range: plan.retained_record_range,
                record_range: plan.record_range,
                body: GroupReadStreamBody::Planned {
                    stream_id,
                    plan,
                    has_cold_store,
                    has_cold_index_cache,
                },
            }),
    {
        GroupReadStreamParts {
            placement,
            offset: plan.offset,
            next_offset: plan.next_offset,
            content_type: plan.content_type.clone(),
            up_to_date: plan.up_to_date,
            closed: plan.closed,
            retained_record_range: plan.retained_record_range,
            record_range: plan.record_range,
            body: GroupReadStreamBody::Planned {
                stream_id,
                plan,
                has_cold_store,
                has_cold_index_cache,
            },
        }
    }

    /// The response, once the bytes are there.
    pub fn into_response(self, payload: Vec<u8>) -> (r: ReadStreamResponse)
        ensures
            r == response_of(self, payload),
    {
        ReadStreamResponse {
            placement: self.placement,
            offset: self.offset,
            next_offset: self.next_offset,
            content_type: self.content_type,
            payload,
            up_to_date: self.up_to_date,
            closed: self.closed,
            retained_record_range: self.retained_record_range,
            record_range: self.record_range,
        }
    }

    pub fn payload_is_empty(&self) -> (r: bool)
        ensures
            r == is_empty_body(self.body),
            r <==> match self.body {
                GroupReadStreamBody::Materialized(payload) => payload@.len() == 0,
                GroupReadStreamBody::Planned { plan, .. } => forall|i: int|
                    0 <= i < plan.segments@.len() ==> match #[trigger] plan.segments@[i] {
                        StreamReadSegment::Hot(payload) => payload@.len() == 0,
                        StreamReadSegment::ColdIndex(segment) => segment.len == 0,
                        StreamReadSegment::Object(segment) => segment.len == 0,
                    },
            },
    {
        match &self.body {
            GroupReadStreamBody::Materialized(payload) => payload.len() == 0,
            GroupReadStreamBody::Planned { plan, .. } => {
                let mut i: usize = 0;
                while i < plan.segments.len()
                    invariant
                        self.body matches GroupReadStreamBody::Planned { plan: whole, .. } && whole
                            == *plan,
                        i <= plan.segments@.len(),
                        forall|j: int|
                            0 <= j < i ==> is_empty_segment(#[trigger] plan.segments@[j]),
                    decreases plan.segments@.len() - i,
                {
                    let empty = match &plan.segments[i] {
                        StreamReadSegment::Hot(payload) => payload.len() == 0,
                        StreamReadSegment::ColdIndex(segment) => segment.len == 0,
                        StreamReadSegment::Object(segment) => segment.len == 0,
                    };
                    if !empty {
                        assert(!is_empty_segment(plan.segments@[i as int]));
                        return false;
                    }
                    i = i + 1;
                }
                true
            },
        }
    }
}

} // verus!
