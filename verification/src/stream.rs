//! What the stream layer is asked and what it answers.
//!
//! The stream layer itself lives elsewhere. Here are its commands and its
//! answers as plain values, so that the engine's decisions can be stated over
//! them.

use vstd::prelude::*;
use crate::ids::BucketStreamId;
use crate::refs::{
    ColdChunkRef, ExternalPayloadRef, ObjectPayloadRef, StreamReadColdIndexSegment,
};

verus! {

/// Who appends, and where in the sequence of the appender an append stands.
#[derive(Debug, Clone, PartialEq, Eq)]
pub struct ProducerRequest {
    pub producer_id: String,
    pub producer_epoch: u64,
    pub producer_seq: u64,
}

/// The records `start..end` of a stream.
#[derive(Debug, Clone, Copy, PartialEq, Eq, Structural)]
pub struct StreamRecordRange {
    pub start: u64,
    pub end: u64,
}

/// What a stream says about itself; the metadata is JSON text.
#[derive(Debug, Clone, PartialEq, Eq)]
pub struct StreamAttrs {
    pub title: Option<String>,
    pub metadata: String,
}

/// Why the stream layer refused.
#[derive(Debug, PartialEq, Eq)]
pub enum StreamErrorCode {
    EmptyAppend,
    InvalidColdFlush,
    InvalidSnapshot,
    ProducerSeqConflict,
    SnapshotNotFound,
    StreamGone,
    StreamNotFound,
    /// A refusal that is only passed on, by its name.
    Other { name: String },
}

impl Clone for StreamErrorCode {
    fn clone(&self) -> (r: Self)
        ensures
            r == *self,
    {
        match self {
            StreamErrorCode::EmptyAppend => StreamErrorCode::EmptyAppend,
            StreamErrorCode::InvalidColdFlush => StreamErrorCode::InvalidColdFlush,
            StreamErrorCode::InvalidSnapshot => StreamErrorCode::InvalidSnapshot,
            StreamErrorCode::ProducerSeqConflict => StreamErrorCode::ProducerSeqConflict,
            StreamErrorCode::SnapshotNotFound => StreamErrorCode::SnapshotNotFound,
            StreamErrorCode::StreamGone => StreamErrorCode::StreamGone,
            StreamErrorCode::StreamNotFound => StreamErrorCode::StreamNotFound,
            StreamErrorCode::Other { name } => StreamErrorCode::Other { name: name.clone() },
        }
    }
}

/// The name of a refusal.
pub open spec fn code_name(code: StreamErrorCode) -> Seq<char> {
    match code {
        StreamErrorCode::EmptyAppend => "EmptyAppend"@,
        StreamErrorCode::InvalidColdFlush => "InvalidColdFlush"@,
        StreamErrorCode::InvalidSnapshot => "InvalidSnapshot"@,
        StreamErrorCode::ProducerSeqConflict => "ProducerSeqConflict"@,
        StreamErrorCode::SnapshotNotFound => "SnapshotNotFound"@,
        StreamErrorCode::StreamGone => "StreamGone"@,
        StreamErrorCode::StreamNotFound => "StreamNotFound"@,
        StreamErrorCode::Other { name } => name@,
    }
}

impl StreamErrorCode {
    /// The name of the refusal.
    pub fn name(&self) -> (r: String)
        ensures
            r@ == code_name(*self),
    {
        match self {
            StreamErrorCode::EmptyAppend => "EmptyAppend".to_owned(),
            StreamErrorCode::InvalidColdFlush => "InvalidColdFlush".to_owned(),
            StreamErrorCode::InvalidSnapshot => "InvalidSnapshot".to_owned(),
            StreamErrorCode::ProducerSeqConflict => "ProducerSeqConflict".to_owned(),
            StreamErrorCode::SnapshotNotFound => "SnapshotNotFound".to_owned(),
            StreamErrorCode::StreamGone => "StreamGone".to_owned(),
            StreamErrorCode::StreamNotFound => "StreamNotFound".to_owned(),
            StreamErrorCode::Other { name } => name.clone(),
        }
    }
}

/// More about a refusal.
#[derive(Debug, Clone, Copy, PartialEq, Eq, Structural)]
pub enum StreamErrorContext {
    ProducerSeqConflict { expected_seq: u64, received_seq: u64 },
    StaleColdFlushCandidate,
}

/// A command to the stream layer.
#[derive(Debug, Clone, PartialEq, Eq)]
#[allow(inconsistent_fields)]
pub enum StreamCommand {
    CreateBucket { bucket_id: String },
    DeleteBucket { bucket_id: String },
    CreateStream {
        stream_id: BucketStreamId,
        content_type: String,
        initial_payload: Vec<u8>,
        close_after: bool,
        stream_seq: Option<String>,
        producer: Option<ProducerRequest>,
        stream_ttl_seconds: Option<u64>,
        stream_expires_at_ms: Option<u64>,
        attrs: Option<StreamAttrs>,
        now_ms: u64,
    },
    CreateExternal {
        stream_id: BucketStreamId,
        content_type: String,
        initial_payload: ExternalPayloadRef,
        record_ends: Vec<u64>,
        close_after: bool,
        stream_seq: Option<String>,
        producer: Option<ProducerRequest>,
        stream_ttl_seconds: Option<u64>,
        stream_expires_at_ms: Option<u64>,
        attrs: Option<StreamAttrs>,
        now_ms: u64,
    },
    Append {
        stream_id: BucketStreamId,
        content_type: Option<String>,
        payload: Vec<u8>,
        close_after: bool,
        stream_seq: Option<String>,
        producer: Option<ProducerRequest>,
        now_ms: u64,
        record_match: Option<u64>,
    },
    AppendExternal {
        stream_id: BucketStreamId,
        content_type: Option<String>,
        payload: ExternalPayloadRef,
        record_ends: Vec<u64>,
        close_after: bool,
        stream_seq: Option<String>,
        producer: Option<ProducerRequest>,
        now_ms: u64,
        record_match: Option<u64>,
    },
    AppendBatch {
        stream_id: BucketStreamId,
        content_type: Option<String>,
        payloads: Vec<Vec<u8>>,
        producer: Option<ProducerRequest>,
        now_ms: u64,
    },
    PublishSnapshot {
        stream_id: BucketStreamId,
        snapshot_offset: u64,
        content_type: String,
        payload: Vec<u8>,
        now_ms: u64,
    },
    TouchStreamAccess { stream_id: BucketStreamId, now_ms: u64, renew_ttl: bool },
    UpdateStreamAttrs { stream_id: BucketStreamId, attrs: Option<StreamAttrs>, now_ms: u64 },
    AddForkRef { stream_id: BucketStreamId, now_ms: u64 },
    ReleaseForkRef { stream_id: BucketStreamId },
    FlushCold { stream_id: BucketStreamId, chunk: ColdChunkRef },
    Close {
        stream_id: BucketStreamId,
        stream_seq: Option<String>,
        producer: Option<ProducerRequest>,
        now_ms: u64,
    },
    DeleteStream { stream_id: BucketStreamId },
    AckColdGc { up_to_seq: u64 },
}

/// What the stream layer answers to a command.
#[derive(Debug, Clone, PartialEq, Eq)]
#[allow(inconsistent_fields)]
pub enum StreamResponse {
    BucketCreated,
    BucketAlreadyExists,
    BucketDeleted,
    Created { next_offset: u64, closed: bool, record_range: Option<StreamRecordRange> },
    AlreadyExists { next_offset: u64, closed: bool, record_range: Option<StreamRecordRange> },
    Appended {
        offset: u64,
        next_offset: u64,
        closed: bool,
        deduplicated: bool,
        producer: Option<ProducerRequest>,
        record_range: Option<StreamRecordRange>,
    },
    SnapshotPublished { snapshot_offset: u64 },
    Accessed { changed: bool, expired: bool },
    AttrsUpdated { changed: bool },
    ForkRefAdded { fork_ref_count: u64 },
    ForkRefReleased {
        hard_deleted: bool,
        fork_ref_count: u64,
        parent_to_release: Option<BucketStreamId>,
    },
    ColdFlushed { hot_start_offset: u64 },
    Closed { next_offset: u64, deduplicated: bool },
    Deleted { hard_deleted: bool, parent_to_release: Option<BucketStreamId> },
    ColdGcAcked { removed: u64 },
    Error { code: StreamErrorCode, message: String, next_offset: Option<u64> },
}

/// What `{:?}` makes of an answer.
pub uninterp spec fn response_debug(response: StreamResponse) -> Seq<char>;

/// `format!` with `{:?}`, on an answer. The words depend on the answer alone.
#[verifier::external_body]
pub(crate) fn debug_response(response: &StreamResponse) -> (r: String)
    ensures
        r@ == response_debug(*response),
{
    format!("{response:?}")
}

/// One item of a batch that was appended as a whole.
#[derive(Debug, Clone, Copy, PartialEq, Eq, Structural)]
pub struct BatchItem {
    pub offset: u64,
    pub next_offset: u64,
    pub closed: bool,
    pub deduplicated: bool,
    pub record_range: Option<StreamRecordRange>,
}

/// What the stream layer says of a batch that was appended as a whole.
#[derive(Debug, Clone, PartialEq, Eq)]
pub struct BatchAppended {
    pub deduplicated: bool,
    pub items: Vec<BatchItem>,
}

/// A part of a read that one object answers.
#[derive(Debug, PartialEq, Eq)]
pub struct StreamReadObjectSegment {
    pub object: ObjectPayloadRef,
    pub read_start_offset: u64,
    pub len: usize,
}

/// A part of a read: bytes at hand, a page to look the objects up in, or an
/// object.
#[derive(Debug, PartialEq, Eq)]
pub enum StreamReadSegment {
    Hot(Vec<u8>),
    ColdIndex(StreamReadColdIndexSegment),
    Object(StreamReadObjectSegment),
}

/// How a read is to be put together.
#[derive(Debug, PartialEq, Eq)]
pub struct StreamReadPlan {
    pub offset: u64,
    pub next_offset: u64,
    pub content_type: String,
    pub segments: Vec<StreamReadSegment>,
    pub up_to_date: bool,
    pub closed: bool,
    pub retained_record_range: Option<StreamRecordRange>,
    pub record_range: Option<StreamRecordRange>,
}

} // verus!
