//! When a reader waits, and when not.

use vstd::prelude::*;
use crate::engine::errors::GroupEngineError;
use crate::engine::plan_read;
use crate::engine::plan_read::{Pages, Ranges};
use crate::engine::reads;
use crate::engine::reads::SpanRead;
use crate::error::RuntimeError;
use crate::ids::{ShardPlacement, StreamName};
use crate::refs::{ObjectSpan, StreamReadColdIndexSegment};
use crate::request;
use crate::request::{GroupReadStreamBody, GroupReadStreamParts};
use crate::stream::StreamReadSegment;
use crate::worker::watchers;
use crate::worker::watchers::{ReadWatcher, WaitOutcome};

verus! {

proof fn lemma_nothing_clipped(segment: StreamReadColdIndexSegment, objects: Seq<ObjectSpan>)
    requires
        segment.len == 0,
    ensures
        reads::clipped_spans(segment, objects).len() == 0,
    decreases objects.len(),
{
    if objects.len() > 0 {
        lemma_nothing_clipped(segment, objects.drop_last());
    }
}

proof fn lemma_empty_segment(segment: StreamReadSegment, pages: Pages, ranges: Ranges)
    requires
        request::is_empty_segment(segment),
        forall|span: SpanRead| (#[trigger] ranges(span)).len() == span.len,
    ensures
        plan_read::segment_bytes(segment, pages, ranges).len() == 0,
{
    let spans = plan_read::segment_reads(segment, pages);
    let pieces = plan_read::range_pieces(spans, ranges);
    match segment {
        StreamReadSegment::Hot(_) => {},
        StreamReadSegment::ColdIndex(inner) => {
            lemma_nothing_clipped(inner, pages(inner));
        },
        StreamReadSegment::Object(inner) => {
            assert(spans.len() == 1);
            assert(pieces.last() == ranges(spans[0]));
            assert(reads::joined(pieces.drop_last()).len() == 0);
        },
    }
}

proof fn lemma_empty_plan(segments: Seq<StreamReadSegment>, pages: Pages, ranges: Ranges)
    requires
        forall|i: int|
            0 <= i < segments.len() ==> request::is_empty_segment(#[trigger] segments[i]),
        forall|span: SpanRead| (#[trigger] ranges(span)).len() == span.len,
    ensures
        plan_read::plan_bytes(segments, pages, ranges).len() == 0,
    decreases segments.len(),
{
    if segments.len() > 0 {
        let front = segments.drop_last();
        assert forall|i: int| 0 <= i < front.len() implies request::is_empty_segment(
            #[trigger] front[i],
        ) by {
            assert(front[i] == segments[i]);
        }
        lemma_empty_plan(front, pages, ranges);
        assert(segments.last() == segments[segments.len() - 1]);
        lemma_empty_segment(segments.last(), pages, ranges);
    }
}

/// A read for which a reader waits stands for no bytes, whatever the pages name and as
/// long as each range gives as many bytes as it is asked for; it has reached the end of
/// the stream, and the stream is open.
pub proof fn law_awaited_read_has_no_bytes(
    parts: GroupReadStreamParts,
    pages: Pages,
    ranges: Ranges,
)
    requires
        watchers::is_idle(parts),
        forall|span: SpanRead| (#[trigger] ranges(span)).len() == span.len,
    ensures
        parts.up_to_date,
        !parts.closed,
        match parts.body {
            GroupReadStreamBody::Materialized(payload) => payload@.len() == 0,
            GroupReadStreamBody::Planned { plan, .. } => plan_read::plan_bytes(
                plan.segments@,
                pages,
                ranges,
            ).len() == 0,
        },
{
    if let GroupReadStreamBody::Planned { plan, .. } = parts.body {
        lemma_empty_plan(plan.segments@, pages, ranges);
    }
}

/// Nobody waits for a read that has a byte: one at hand, one of an object, or one that the
/// index has to be asked for. Nobody waits where the read has not come to the end of the
/// stream, or where the stream is closed.
pub proof fn law_nobody_waits_for_bytes_that_are_there(parts: GroupReadStreamParts, i: int)
    requires
        !parts.up_to_date || parts.closed || match parts.body {
            GroupReadStreamBody::Materialized(payload) => payload@.len() > 0,
            GroupReadStreamBody::Planned { plan, .. } => 0 <= i < plan.segments@.len() && match
                plan.segments@[i] {
                StreamReadSegment::Hot(payload) => payload@.len() > 0,
                StreamReadSegment::ColdIndex(segment) => segment.len > 0,
                StreamReadSegment::Object(segment) => segment.len > 0,
            },
        },
    ensures
        !watchers::is_idle(parts),
{
    if let GroupReadStreamBody::Planned { plan, .. } = parts.body {
        if parts.up_to_date && !parts.closed {
            assert(!request::is_empty_segment(plan.segments@[i]));
        }
    }
}

/// A plan whose bytes are there is answered at once: whenever the ranges give what they
/// are asked for and the plan gives a byte of the stream, the reader gets the plan.
pub proof fn law_bytes_are_answered_at_once<T>(
    total: int,
    placement: ShardPlacement,
    watcher: ReadWatcher<T>,
    parts: GroupReadStreamParts,
    is_gone: bool,
    limit: Option<u64>,
    pages: Pages,
    ranges: Ranges,
)
    requires
        parts.body is Planned,
        forall|span: SpanRead| (#[trigger] ranges(span)).len() == span.len,
        plan_read::plan_bytes(parts.body->plan.segments@, pages, ranges).len() > 0,
    ensures
        watchers::wait_outcome(total, placement, watcher, Ok(parts), is_gone, limit)
            == (WaitOutcome::Respond { parts, response: watcher.response }),
{
    if watchers::is_idle(parts) {
        law_awaited_read_has_no_bytes(parts, pages, ranges);
    }
}

/// A reader who waits has nothing to read at the end of an open stream, has not gone, and
/// is one of no more than the limit. A reader who is turned away would have been one more,
/// and is told how many wait and how many may.
pub proof fn law_no_more_wait_than_may<T>(
    total: u64,
    placement: ShardPlacement,
    watcher: ReadWatcher<T>,
    parts: Result<GroupReadStreamParts, GroupEngineError>,
    is_gone: bool,
    limit: Option<u64>,
)
    ensures
        match watchers::wait_outcome(total as int, placement, watcher, parts, is_gone, limit) {
            WaitOutcome::Waiting => {
                &&& parts is Ok
                &&& parts->Ok_0.up_to_date
                &&& !parts->Ok_0.closed
                &&& !is_gone
                &&& limit matches Some(limit) ==> total + 1 <= limit
            },
            WaitOutcome::Gone => is_gone && parts is Ok,
            WaitOutcome::Respond { parts: given, response } => parts is Ok && given
                == parts->Ok_0 && response == watcher.response,
            WaitOutcome::Refused { response, error } => {
                &&& response == watcher.response
                &&& match parts {
                    Err(cause) => error matches RuntimeError::GroupEngine {
                        core_id,
                        raft_group_id,
                        error: inner,
                    } && core_id == placement.core_id && raft_group_id == placement.raft_group_id
                        && inner == cause,
                    Ok(_) => error matches RuntimeError::LiveReadBackpressure {
                        core_id,
                        current_waiters,
                        limit: bound,
                    } && core_id == placement.core_id && current_waiters == total && limit
                        == Some(bound) && bound <= total && !is_gone,
                }
            },
        },
{
}

/// Taking a reader out leaves exactly the others, in their order.
pub proof fn law_only_the_one_reader_leaves<T>(waiting: Seq<ReadWatcher<T>>, waiter_id: u64)
    ensures
        watchers::without(waiting, waiter_id) == waiting.filter(
            |watcher: ReadWatcher<T>| watcher.waiter_id != waiter_id,
        ),
    decreases waiting.len(),
{
    reveal(Seq::filter);
    if waiting.len() > 0 {
        law_only_the_one_reader_leaves(waiting.drop_last(), waiter_id);
    }
}

/// Taking a reader of a stream out changes nothing for the readers of other streams. The
/// stream is no longer listed where nobody is left.
pub proof fn law_readers_of_other_streams_stay<T>(
    waiting: Map<StreamName, Seq<ReadWatcher<T>>>,
    stream: StreamName,
    waiter_id: u64,
    other: StreamName,
)
    ensures
        ({
            let after = watchers::cancelled(waiting, stream, waiter_id);
            let left = waiting[stream].filter(
                |watcher: ReadWatcher<T>| watcher.waiter_id != waiter_id,
            );
            &&& other != stream ==> after.contains_key(other) == waiting.contains_key(other)
            &&& other != stream && waiting.contains_key(other) ==> after[other] == waiting[other]
            &&& after.contains_key(stream) <==> waiting.contains_key(stream) && left.len() > 0
            &&& after.contains_key(stream) ==> after[stream] == left
        }),
{
    law_only_the_one_reader_leaves(waiting[stream], waiter_id);
}

/// Readers are woken together only where they ask for the same of the same stream, to the
/// last number; readers who ask for the same are never woken apart.
pub proof fn law_readers_woken_together_ask_for_the_same<T>(
    waiting: Seq<ReadWatcher<T>>,
    i: int,
    j: int,
    k: int,
)
    requires
        0 <= i < watchers::grouped(waiting).len(),
        0 <= j < watchers::grouped(waiting).len(),
        0 <= k < watchers::grouped(waiting)[j].len(),
    ensures
        ({
            let a = watchers::grouped(waiting)[i][0].request;
            let b = watchers::grouped(waiting)[j][k].request;
            i == j <==> {
                &&& a.stream_id@ == b.stream_id@
                &&& a.offset == b.offset
                &&& a.max_len == b.max_len
                &&& a.now_ms == b.now_ms
                &&& a.record == b.record
                &&& a.max_records == b.max_records
            }
        }),
{
    watchers::law_groups_divide_the_watchers(waiting);
    let groups = watchers::grouped(waiting);
    assert(watchers::same_request(groups[j][0].request, groups[j][k].request));
    if i < j {
        assert(!watchers::same_request(groups[i][0].request, groups[j][0].request));
    } else if j < i {
        assert(!watchers::same_request(groups[j][0].request, groups[i][0].request));
    }
}

} // verus!
