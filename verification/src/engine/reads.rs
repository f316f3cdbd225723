//! How reads are put together.

use vstd::prelude::*;
use crate::cold_store::DEFAULT_CONTENT_TYPE;
use crate::engine::access;
use crate::engine::access::missing_stream_error;
use crate::engine::errors::GroupEngineError;
use crate::engine::in_memory::stream_response_error;
use crate::engine::state;
use crate::engine::state::Refusal;
use crate::ids::{BucketStreamId, ShardPlacement, StreamName};
use crate::refs;
use crate::refs::{ObjectPayloadRef, ObjectSpan, StreamReadColdIndexSegment};
use crate::request::{
    BootstrapStreamResponse, BootstrapUpdate, ColdHotBacklog, HeadStreamResponse,
    ReadSnapshotResponse, StreamHead, StreamVisibleSnapshot,
};
use crate::stream::{debug_response, StreamErrorCode, StreamReadPlan, StreamReadSegment, StreamResponse};
use crate::text;
use crate::text::decimal_text;

verus! {

/// A range of an object that is to be read.
#[derive(Debug, PartialEq, Eq)]
pub struct ObjectRead {
    pub object: ObjectPayloadRef,
    pub start: u64,
    pub len: usize,
}

/// What a range read is.
pub struct SpanRead {
    pub object: ObjectSpan,
    pub start: u64,
    pub len: usize,
}

impl View for ObjectRead {
    type V = SpanRead;

    open spec fn view(&self) -> SpanRead {
        SpanRead { object: self.object@, start: self.start, len: self.len }
    }
}

/// What the next segment of a read asks for.
#[derive(Debug, PartialEq, Eq)]
pub enum SegmentWork {
    /// Nothing: its bytes are at hand.
    Bytes(Vec<u8>),
    /// The objects of a page of the cold index.
    LookUp(StreamReadColdIndexSegment),
    /// A range of an object.
    Read(ObjectRead),
}

/// Where the bytes of a segment end.
pub open spec fn segment_end(segment: StreamReadColdIndexSegment) -> u64 {
    if segment.read_start_offset + segment.len > u64::MAX {
        u64::MAX
    } else {
        (segment.read_start_offset + segment.len) as u64
    }
}

/// The part of an object that a segment asks for: from here to there.
pub open spec fn clip(segment: StreamReadColdIndexSegment, object: ObjectSpan) -> (u64, u64) {
    (
        if object.start_offset > segment.read_start_offset {
            object.start_offset
        } else {
            segment.read_start_offset
        },
        if object.end_offset < segment_end(segment) {
            object.end_offset
        } else {
            segment_end(segment)
        },
    )
}

/// The range reads that answer a segment: the part of each object that it asks
/// for, but for objects that have no such part.
pub open spec fn clipped_spans(
    segment: StreamReadColdIndexSegment,
    objects: Seq<ObjectSpan>,
) -> Seq<SpanRead>
    decreases objects.len(),
{
    if objects.len() == 0 {
        Seq::empty()
    } else {
        let before = clipped_spans(segment, objects.drop_last());
        let (start, end) = clip(segment, objects.last());
        if start >= end {
            before
        } else {
            before.push(
                SpanRead { object: objects.last(), start, len: (end - start) as usize },
            )
        }
    }
}

/// What a list of range reads is.
pub open spec fn read_spans(reads: Seq<ObjectRead>) -> Seq<SpanRead> {
    reads.map_values(|read: ObjectRead| read@)
}

/// The range reads that answer a segment of the cold index, given the objects
/// that its page names.
pub fn clipped_reads(segment: &StreamReadColdIndexSegment, objects: &Vec<ObjectPayloadRef>) -> (r:
    Vec<ObjectRead>)
    ensures
        read_spans(r@) == clipped_spans(*segment, refs::object_spans(objects@)),
{
    let end_of_segment: u64 = segment.read_start_offset.saturating_add(segment.len as u64);
    let mut reads: Vec<ObjectRead> = Vec::new();
    let mut i: usize = 0;
    let ghost spans = refs::object_spans(objects@);
    assert(spans.take(0) =~= Seq::empty());
    assert(read_spans(reads@) =~= Seq::empty());
    while i < objects.len()
        invariant
            i <= objects@.len(),
            spans == refs::object_spans(objects@),
            end_of_segment == segment_end(*segment),
            read_spans(reads@) == clipped_spans(*segment, spans.take(i as int)),
        decreases objects@.len() - i,
    {
        let object = &objects[i];
        let start: u64 = if object.start_offset > segment.read_start_offset {
            object.start_offset
        } else {
            segment.read_start_offset
        };
        let end: u64 = if object.end_offset < end_of_segment {
            object.end_offset
        } else {
            end_of_segment
        };
        proof {
            assert(spans.take(i + 1).drop_last() =~= spans.take(i as int));
            assert(spans.take(i + 1).last() == object@);
        }
        if start < end {
            let ghost before = reads@;
            let read = ObjectRead { object: object.clone(), start, len: (end - start) as usize };
            reads.push(read);
            proof {
                assert(read_spans(reads@) =~= read_spans(before).push(read@));
            }
        }
        i = i + 1;
    }
    assert(spans.take(i as int) =~= spans);
    reads
}

/// Whether range reads follow on one another from `from` to `to`.
pub open spec fn tiles(reads: Seq<SpanRead>, from: int, to: int) -> bool
    decreases reads.len(),
{
    if reads.len() == 0 {
        from == to
    } else {
        reads.last().start + reads.last().len == to && tiles(
            reads.drop_last(),
            from,
            reads.last().start as int,
        )
    }
}

/// Whether each object begins where the one before it ends.
pub open spec fn is_chain(objects: Seq<ObjectSpan>) -> bool {
    &&& forall|i: int|
        0 <= i < objects.len() ==> (#[trigger] objects[i]).start_offset < objects[i].end_offset
    &&& forall|i: int|
        0 < i < objects.len() ==> (#[trigger] objects[i]).start_offset == objects[i - 1].end_offset
}

/// As far into a segment as the objects up to `end` reach.
spec fn reach(segment: StreamReadColdIndexSegment, end: int) -> int {
    if end < segment.read_start_offset {
        segment.read_start_offset as int
    } else if end > segment_end(segment) {
        segment_end(segment) as int
    } else {
        end
    }
}

proof fn lemma_tiles(segment: StreamReadColdIndexSegment, objects: Seq<ObjectSpan>)
    requires
        objects.len() > 0,
        is_chain(objects),
        objects[0].start_offset <= segment.read_start_offset,
    ensures
        tiles(
            clipped_spans(segment, objects),
            segment.read_start_offset as int,
            reach(segment, objects.last().end_offset as int),
        ),
    decreases objects.len(),
{
    let prefix = objects.drop_last();
    let last = objects.last();
    let (start, end) = clip(segment, last);
    let before = clipped_spans(segment, prefix);
    if prefix.len() > 0 {
        assert forall|i: int| 0 <= i < prefix.len() implies (
        #[trigger] prefix[i]).start_offset < prefix[i].end_offset by {
            assert(prefix[i] == objects[i]);
        }
        assert forall|i: int| 0 < i < prefix.len() implies (#[trigger] prefix[i]).start_offset
            == prefix[i - 1].end_offset by {
            assert(prefix[i] == objects[i]);
            assert(prefix[i - 1] == objects[i - 1]);
        }
        lemma_tiles(segment, prefix);
        assert(prefix.last() == objects[objects.len() - 2]);
        assert(objects[objects.len() - 1].start_offset == objects[objects.len() - 2].end_offset);
    } else {
        assert(objects[0] == last);
        assert(tiles(
            before,
            segment.read_start_offset as int,
            segment.read_start_offset as int,
        ));
    }
    assert(objects[objects.len() - 1] == last);
    let so_far = if prefix.len() > 0 {
        reach(segment, prefix.last().end_offset as int)
    } else {
        segment.read_start_offset as int
    };
    assert(tiles(before, segment.read_start_offset as int, so_far));
    if start < end {
        let read = SpanRead { object: last, start, len: (end - start) as usize };
        assert(clipped_spans(segment, objects) == before.push(read));
        assert(before.push(read).drop_last() =~= before);
        assert(before.push(read).last() == read);
        assert(end - start <= segment.len);
        assert(so_far == start);
        assert(reach(segment, last.end_offset as int) == end);
    } else {
        assert(so_far == reach(segment, last.end_offset as int));
    }
}

/// Where the objects of a page follow on one another and hold all that a segment
/// asks for, the range reads give each of its bytes once and in order.
pub proof fn law_clipped_reads_tile_the_segment(
    segment: StreamReadColdIndexSegment,
    objects: Seq<ObjectSpan>,
)
    requires
        objects.len() > 0,
        is_chain(objects),
        objects[0].start_offset <= segment.read_start_offset,
        segment_end(segment) <= objects.last().end_offset,
    ensures
        tiles(
            clipped_spans(segment, objects),
            segment.read_start_offset as int,
            segment_end(segment) as int,
        ),
{
    lemma_tiles(segment, objects);
}

/// Pieces put together.
pub open spec fn joined(pieces: Seq<Seq<u8>>) -> Seq<u8>
    decreases pieces.len(),
{
    if pieces.len() == 0 {
        Seq::empty()
    } else {
        joined(pieces.drop_last()) + pieces.last()
    }
}

/// Range reads that follow on one another, each of which gives the bytes of the
/// stream at its place, give the bytes of the stream from end to end.
pub proof fn law_tiled_reads_give_the_stream(
    stream: Seq<u8>,
    reads: Seq<SpanRead>,
    pieces: Seq<Seq<u8>>,
    from: int,
    to: int,
)
    requires
        0 <= from,
        to <= stream.len(),
        tiles(reads, from, to),
        pieces.len() == reads.len(),
        forall|i: int|
            0 <= i < reads.len() ==> #[trigger] pieces[i] == stream.subrange(
                reads[i].start as int,
                reads[i].start + reads[i].len,
            ),
    ensures
        from <= to,
        joined(pieces) == stream.subrange(from, to),
    decreases reads.len(),
{
    if reads.len() == 0 {
        assert(joined(pieces) =~= stream.subrange(from, to));
    } else {
        let fewer = reads.drop_last();
        let shorter = pieces.drop_last();
        assert forall|i: int| 0 <= i < fewer.len() implies #[trigger] shorter[i]
            == stream.subrange(fewer[i].start as int, fewer[i].start + fewer[i].len) by {
            assert(shorter[i] == pieces[i]);
            assert(fewer[i] == reads[i]);
        }
        let middle = reads.last().start as int;
        law_tiled_reads_give_the_stream(stream, fewer, shorter, from, middle);
        assert(pieces.last() == pieces[pieces.len() - 1]);
        assert(reads.last() == reads[reads.len() - 1]);
        assert(joined(pieces) =~= stream.subrange(from, to));
    }
}

/// The refusal of a read that lacks what it needs.
pub open spec fn read_needs(stream: StreamName, need: Seq<char>, next_offset: u64) -> Refusal {
    Refusal::Stream {
        code: StreamErrorCode::InvalidColdFlush,
        message: "stream '"@ + stream.text() + "' read requires "@ + need,
        next_offset: Some(next_offset),
    }
}

fn read_needs_error(stream_id: &BucketStreamId, need: &str, next_offset: u64) -> (r:
    GroupEngineError)
    ensures
        state::is_refusal(r, read_needs(stream_id@, need@, next_offset)),
{
    let mut text = "stream '".to_owned();
    text.append(stream_id.text().as_str());
    text.append("' read requires ");
    text.append(need);
    GroupEngineError::stream_with_next_offset(
        StreamErrorCode::InvalidColdFlush,
        text.as_str(),
        Some(next_offset),
    )
}

/// What a segment of a read asks for; what is not at hand needs a payload store,
/// and a page of the cold index a page cache too.
pub fn segment_work(
    stream_id: &BucketStreamId,
    plan: &StreamReadPlan,
    index: usize,
    has_cold_store: bool,
    has_cold_index_cache: bool,
) -> (r: Result<SegmentWork, GroupEngineError>)
    requires
        index < plan.segments@.len(),
    ensures
        match plan.segments@[index as int] {
            StreamReadSegment::Hot(bytes) => r is Ok && r->Ok_0 is Bytes && r->Ok_0->Bytes_0@
                == bytes@,
            StreamReadSegment::ColdIndex(segment) => if !has_cold_store {
                r is Err && state::is_refusal(
                    r->Err_0,
                    read_needs(stream_id@, "object payload store"@, plan.next_offset),
                )
            } else if !has_cold_index_cache {
                r is Err && state::is_refusal(
                    r->Err_0,
                    read_needs(stream_id@, "cold index page cache"@, plan.next_offset),
                )
            } else {
                r == Ok::<SegmentWork, GroupEngineError>(SegmentWork::LookUp(segment))
            },
            StreamReadSegment::Object(segment) => if !has_cold_store {
                r is Err && state::is_refusal(
                    r->Err_0,
                    read_needs(stream_id@, "object payload store"@, plan.next_offset),
                )
            } else {
                r == Ok::<SegmentWork, GroupEngineError>(
                    SegmentWork::Read(
                        ObjectRead {
                            object: segment.object,
                            start: segment.read_start_offset,
                            len: segment.len,
                        },
                    ),
                )
            },
        },
{
    match &plan.segments[index] {
        StreamReadSegment::Hot(bytes) => Ok(SegmentWork::Bytes(bytes.clone())),
        StreamReadSegment::ColdIndex(segment) => {
            if !has_cold_store {
                return Err(read_needs_error(stream_id, "object payload store", plan.next_offset));
            }
            if !has_cold_index_cache {
                return Err(read_needs_error(stream_id, "cold index page cache", plan.next_offset));
            }
            Ok(SegmentWork::LookUp(*segment))
        },
        StreamReadSegment::Object(segment) => {
            if !has_cold_store {
                return Err(read_needs_error(stream_id, "object payload store", plan.next_offset));
            }
            Ok(
                SegmentWork::Read(
                    ObjectRead {
                        object: segment.object.clone(),
                        start: segment.read_start_offset,
                        len: segment.len,
                    },
                ),
            )
        },
    }
}

/// What there is to know of a stream, from what the stream layer knows of it,
/// where its latest snapshot is and what its digest is.
pub fn head_stream_after_access(
    stream_id: &BucketStreamId,
    head: Option<StreamHead>,
    snapshot_offset: Result<Option<u64>, StreamResponse>,
    integrity: Result<String, StreamResponse>,
    placement: ShardPlacement,
) -> (r: Result<HeadStreamResponse, GroupEngineError>)
    ensures
        match (head, snapshot_offset, integrity) {
            (None, _, _) => r is Err && state::is_refusal(
                r->Err_0,
                access::missing_stream(stream_id@),
            ),
            (Some(_), Err(response), _) => r is Err && state::is_refusal(
                r->Err_0,
                state::refusal_of("unexpected stream response error: "@, response),
            ),
            (Some(_), Ok(_), Err(response)) => r is Err && state::is_refusal(
                r->Err_0,
                state::refusal_of("unexpected stream response error: "@, response),
            ),
            (Some(head), Ok(snapshot_offset), Ok(integrity)) => r == Ok::<
                HeadStreamResponse,
                GroupEngineError,
            >(
                HeadStreamResponse {
                    placement,
                    content_type: head.content_type,
                    tail_offset: head.tail_offset,
                    cold_hot_start_offset: head.hot_start_offset,
                    closed: head.closed,
                    stream_ttl_seconds: head.stream_ttl_seconds,
                    stream_expires_at_ms: head.stream_expires_at_ms,
                    snapshot_offset,
                    integrity,
                    record_range: head.record_range,
                },
            ),
        },
{
    let head = match head {
        Some(head) => head,
        None => {
            return Err(missing_stream_error(stream_id));
        },
    };
    let snapshot_offset = match snapshot_offset {
        Ok(snapshot_offset) => snapshot_offset,
        Err(response) => {
            return Err(stream_response_error(response));
        },
    };
    let integrity = match integrity {
        Ok(integrity) => integrity,
        Err(response) => {
            return Err(stream_response_error(response));
        },
    };
    Ok(
        HeadStreamResponse {
            placement,
            content_type: head.content_type,
            tail_offset: head.tail_offset,
            cold_hot_start_offset: head.hot_start_offset,
            closed: head.closed,
            stream_ttl_seconds: head.stream_ttl_seconds,
            stream_expires_at_ms: head.stream_expires_at_ms,
            snapshot_offset,
            integrity,
            record_range: head.record_range,
        },
    )
}

/// The refusal of a stream without a snapshot.
pub open spec fn no_snapshot(stream: StreamName) -> Refusal {
    Refusal::Stream {
        code: StreamErrorCode::SnapshotNotFound,
        message: "stream '"@ + stream.text() + "' has no visible snapshot"@,
        next_offset: None,
    }
}

/// A snapshot that was found; it is up to date where the stream ends with it, or
/// is no longer there to go on.
pub fn read_snapshot_response(
    stream_id: &BucketStreamId,
    found: Result<Option<StreamVisibleSnapshot>, StreamResponse>,
    tail_offset: Option<u64>,
    placement: ShardPlacement,
) -> (r: Result<ReadSnapshotResponse, GroupEngineError>)
    ensures
        match found {
            Err(response) => r is Err && state::is_refusal(
                r->Err_0,
                state::refusal_of("unexpected stream response error: "@, response),
            ),
            Ok(None) => r is Err && state::is_refusal(r->Err_0, no_snapshot(stream_id@)),
            Ok(Some(snapshot)) => r == Ok::<ReadSnapshotResponse, GroupEngineError>(
                ReadSnapshotResponse {
                    placement,
                    snapshot_offset: snapshot.offset,
                    next_offset: snapshot.offset,
                    content_type: snapshot.content_type,
                    payload: snapshot.payload,
                    up_to_date: tail_offset is None || tail_offset->0 == snapshot.offset,
                },
            ),
        },
{
    match found {
        Err(response) => Err(stream_response_error(response)),
        Ok(None) => {
            let mut text = "stream '".to_owned();
            text.append(stream_id.text().as_str());
            text.append("' has no visible snapshot");
            Err(GroupEngineError::stream(StreamErrorCode::SnapshotNotFound, text.as_str()))
        },
        Ok(Some(snapshot)) => {
            let tail_offset: u64 = match tail_offset {
                Some(tail_offset) => tail_offset,
                None => snapshot.offset,
            };
            Ok(
                ReadSnapshotResponse {
                    placement,
                    snapshot_offset: snapshot.offset,
                    next_offset: snapshot.offset,
                    content_type: snapshot.content_type,
                    payload: snapshot.payload,
                    up_to_date: snapshot.offset == tail_offset,
                },
            )
        },
    }
}

/// Why a snapshot is not deleted; the stream layer never agrees to it.
pub fn delete_snapshot_error(response: StreamResponse) -> (r: GroupEngineError)
    ensures
        state::is_refusal(
            r,
            state::refusal_of("unexpected delete snapshot response: "@, response),
        ),
{
    match response {
        StreamResponse::Error { code, message, next_offset } =>
            GroupEngineError::stream_with_next_offset(code, message.as_str(), next_offset),
        other => {
            let mut text = "unexpected delete snapshot response: ".to_owned();
            text.append(debug_response(&other).as_str());
            GroupEngineError::new(text.as_str())
        },
    }
}

/// A message of a stream.
#[derive(Debug, Clone, Copy, PartialEq, Eq, Structural)]
pub struct StreamMessageRecord {
    pub start_offset: u64,
    pub end_offset: u64,
}

/// How a new reader begins: a snapshot and the messages after it.
#[derive(Debug, PartialEq, Eq)]
pub struct StreamBootstrapPlan {
    pub snapshot: Option<StreamVisibleSnapshot>,
    pub updates: Vec<StreamMessageRecord>,
    pub content_type: String,
    pub next_offset: u64,
    pub up_to_date: bool,
    pub closed: bool,
}

/// The refusal of a message that no read can hold.
pub open spec fn message_too_large(stream: StreamName, record: StreamMessageRecord) -> Refusal {
    Refusal::Stream {
        code: StreamErrorCode::InvalidSnapshot,
        message: "bootstrap message ["@ + text::decimal(record.start_offset as nat) + ".."@
            + text::decimal(record.end_offset as nat) + ") for stream '"@ + stream.text()
            + "' is too large"@,
        next_offset: None,
    }
}

/// How many bytes a message has.
pub fn bootstrap_record_len(stream_id: &BucketStreamId, record: StreamMessageRecord) -> (r: Result<
    usize,
    GroupEngineError,
>)
    requires
        record.start_offset <= record.end_offset,
    ensures
        if record.end_offset - record.start_offset <= usize::MAX {
            r is Ok && r->Ok_0 == record.end_offset - record.start_offset
        } else {
            r is Err && state::is_refusal(r->Err_0, message_too_large(stream_id@, record))
        },
{
    let len: u64 = record.end_offset - record.start_offset;
    if len <= usize::MAX as u64 {
        Ok(len as usize)
    } else {
        let mut text = "bootstrap message [".to_owned();
        text.append(decimal_text(record.start_offset as u128).as_str());
        text.append("..");
        text.append(decimal_text(record.end_offset as u128).as_str());
        text.append(") for stream '");
        text.append(stream_id.text().as_str());
        text.append("' is too large");
        Err(GroupEngineError::stream(StreamErrorCode::InvalidSnapshot, text.as_str()))
    }
}

/// Whether the updates are the messages with these payloads.
pub open spec fn are_updates(
    updates: Seq<BootstrapUpdate>,
    records: Seq<StreamMessageRecord>,
    content_type: Seq<char>,
    payloads: Seq<Vec<u8>>,
) -> bool {
    &&& updates.len() == records.len()
    &&& forall|i: int|
        0 <= i < updates.len() ==> (#[trigger] updates[i]).start_offset == records[i].start_offset
            && updates[i].next_offset == records[i].end_offset && updates[i].content_type@
            == content_type && updates[i].payload@ == payloads[i]@
}

/// The messages of a plan, once their payloads were read.
pub fn bootstrap_updates(
    records: &Vec<StreamMessageRecord>,
    content_type: &str,
    payloads: &Vec<Vec<u8>>,
) -> (r: Vec<BootstrapUpdate>)
    requires
        payloads@.len() == records@.len(),
    ensures
        are_updates(r@, records@, content_type@, payloads@),
        r@.len() == records@.len(),
        forall|i: int|
            0 <= i < r@.len() ==> {
                &&& (#[trigger] r@[i]).start_offset == records@[i].start_offset
                &&& r@[i].next_offset == records@[i].end_offset
                &&& r@[i].content_type@ == content_type@
                &&& r@[i].payload@ == payloads@[i]@
            },
{
    let mut updates: Vec<BootstrapUpdate> = Vec::new();
    let mut i: usize = 0;
    while i < records.len()
        invariant
            i <= records@.len(),
            payloads@.len() == records@.len(),
            are_updates(updates@, records@.take(i as int), content_type@, payloads@),
        decreases records@.len() - i,
    {
        updates.push(
            BootstrapUpdate {
                start_offset: records[i].start_offset,
                next_offset: records[i].end_offset,
                content_type: content_type.to_owned(),
                payload: payloads[i].clone(),
            },
        );
        i = i + 1;
    }
    assert(records@.take(i as int) =~= records@);
    updates
}

/// All that a new reader needs, once the messages after the snapshot were read.
pub fn bootstrap_response(
    plan: StreamBootstrapPlan,
    payloads: &Vec<Vec<u8>>,
    placement: ShardPlacement,
) -> (r: BootstrapStreamResponse)
    requires
        payloads@.len() == plan.updates@.len(),
    ensures
        r.placement == placement,
        are_updates(r.updates@, plan.updates@, plan.content_type@, payloads@),
        r.updates@.len() == plan.updates@.len(),
        forall|i: int|
            0 <= i < r.updates@.len() ==> {
                &&& (#[trigger] r.updates@[i]).start_offset == plan.updates@[i].start_offset
                &&& r.updates@[i].next_offset == plan.updates@[i].end_offset
                &&& r.updates@[i].content_type@ == plan.content_type@
                &&& r.updates@[i].payload@ == payloads@[i]@
            },
        r.next_offset == plan.next_offset,
        r.up_to_date == plan.up_to_date,
        r.closed == plan.closed,
        match plan.snapshot {
            Some(snapshot) => r.snapshot_offset == Some(snapshot.offset) && r.snapshot_content_type
                == snapshot.content_type && r.snapshot_payload == snapshot.payload,
            None => r.snapshot_offset is None && r.snapshot_content_type@ == DEFAULT_CONTENT_TYPE@
                && r.snapshot_payload@ == Seq::<u8>::empty(),
        },
{
    let updates = bootstrap_updates(&plan.updates, plan.content_type.as_str(), payloads);
    match plan.snapshot {
        Some(snapshot) => BootstrapStreamResponse {
            placement,
            snapshot_offset: Some(snapshot.offset),
            snapshot_content_type: snapshot.content_type,
            snapshot_payload: snapshot.payload,
            updates,
            next_offset: plan.next_offset,
            up_to_date: plan.up_to_date,
            closed: plan.closed,
        },
        None => BootstrapStreamResponse {
            placement,
            snapshot_offset: None,
            snapshot_content_type: DEFAULT_CONTENT_TYPE.to_owned(),
            snapshot_payload: Vec::new(),
            updates,
            next_offset: plan.next_offset,
            up_to_date: plan.up_to_date,
            closed: plan.closed,
        },
    }
}

/// How many bytes of a stream and of its group are hot; a stream that is not
/// there has none.
pub fn cold_hot_backlog_for(
    stream_id: BucketStreamId,
    stream_hot_bytes: Option<u64>,
    group_hot_bytes: u64,
) -> (r: ColdHotBacklog)
    ensures
        r == (ColdHotBacklog {
            stream_id,
            stream_hot_bytes: match stream_hot_bytes {
                Some(bytes) => bytes,
                None => 0,
            },
            group_hot_bytes,
        }),
{
    let stream_hot_bytes: u64 = match stream_hot_bytes {
        Some(bytes) => bytes,
        None => 0,
    };
    ColdHotBacklog { stream_id, stream_hot_bytes, group_hot_bytes }
}

/// Where an append whose bytes are kept as an object will stand.
pub fn external_append_offset(stream_id: &BucketStreamId, tail_offset: Option<u64>) -> (r: Result<
    u64,
    GroupEngineError,
>)
    ensures
        match tail_offset {
            Some(offset) => r == Ok::<u64, GroupEngineError>(offset),
            None => r is Err && state::is_refusal(r->Err_0, access::missing_stream(stream_id@)),
        },
{
    match tail_offset {
        Some(offset) => Ok(offset),
        None => Err(missing_stream_error(stream_id)),
    }
}

} // verus!
