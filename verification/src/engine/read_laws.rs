//! Which bytes the reads of a plan give.

use vstd::prelude::*;
use crate::engine::plan_read;
use crate::engine::plan_read::{Pages, Ranges};
use crate::engine::reads;
use crate::engine::reads::SpanRead;
use crate::refs::{ObjectSpan, StreamReadColdIndexSegment};
use crate::stream::StreamReadSegment;

verus! {

/// Pieces that are put together are put behind one another, in their order.
pub proof fn law_pieces_follow_one_another(pieces: Seq<Seq<u8>>)
    ensures
        reads::joined(pieces) == pieces.flatten(),
    decreases pieces.len(),
{
    if pieces.len() > 0 {
        let front = pieces.drop_last();
        law_pieces_follow_one_another(front);
        front.lemma_flatten_push(pieces.last());
        assert(front.push(pieces.last()) =~= pieces);
    }
}

/// A plan gives what its segments give, one behind the other, and a segment whose bytes
/// are at hand gives these.
pub proof fn law_plan_gives_its_segments(
    segments: Seq<StreamReadSegment>,
    pages: Pages,
    ranges: Ranges,
)
    ensures
        plan_read::plan_bytes(segments, pages, ranges) == Seq::new(
            segments.len(),
            |i: int| plan_read::segment_bytes(segments[i], pages, ranges),
        ).flatten(),
        forall|i: int|
            0 <= i < segments.len() ==> (#[trigger] segments[i] matches StreamReadSegment::Hot(
                bytes,
            ) ==> plan_read::segment_bytes(segments[i], pages, ranges) == bytes@),
    decreases segments.len(),
{
    let pieces = Seq::new(
        segments.len(),
        |i: int| plan_read::segment_bytes(segments[i], pages, ranges),
    );
    if segments.len() > 0 {
        let front = segments.drop_last();
        law_plan_gives_its_segments(front, pages, ranges);
        let fewer = Seq::new(
            front.len(),
            |i: int| plan_read::segment_bytes(front[i], pages, ranges),
        );
        let last = plan_read::segment_bytes(segments.last(), pages, ranges);
        fewer.lemma_flatten_push(last);
        assert(fewer.push(last) =~= pieces);
    } else {
        assert(pieces =~= Seq::<Seq<u8>>::empty());
    }
}

/// Every range read of a segment is not empty, asks for nothing but bytes of the segment
/// and of the object that it is of.
pub proof fn law_reads_stay_within_object_and_segment(
    segment: StreamReadColdIndexSegment,
    objects: Seq<ObjectSpan>,
    i: int,
)
    requires
        0 <= i < reads::clipped_spans(segment, objects).len(),
    ensures
        ({
            let read = reads::clipped_spans(segment, objects)[i];
            &&& objects.contains(read.object)
            &&& read.len > 0
            &&& segment.read_start_offset <= read.start
            &&& read.start + read.len <= segment.read_start_offset + segment.len
            &&& read.object.start_offset <= read.start
            &&& read.start + read.len <= read.object.end_offset
        }),
    decreases objects.len(),
{
    let front = objects.drop_last();
    let list = reads::clipped_spans(segment, objects);
    let before = reads::clipped_spans(segment, front);
    if i < before.len() {
        assert(list[i] == before[i]);
        law_reads_stay_within_object_and_segment(segment, front, i);
        let at = choose|j: int| 0 <= j < front.len() && front[j] == before[i].object;
        assert(objects[at] == front[at]);
    } else {
        assert(objects[objects.len() - 1] == objects.last());
        let (start, end) = reads::clip(segment, objects.last());
        assert(end - start <= segment.len);
    }
}

/// Every byte that a segment asks for and that one of the objects holds is in a range read
/// of that object.
pub proof fn law_every_held_byte_is_read(
    segment: StreamReadColdIndexSegment,
    objects: Seq<ObjectSpan>,
    offset: int,
    i: int,
)
    requires
        segment.read_start_offset + segment.len <= u64::MAX,
        segment.read_start_offset <= offset < segment.read_start_offset + segment.len,
        0 <= i < objects.len(),
        objects[i].start_offset <= offset < objects[i].end_offset,
    ensures
        exists|j: int|
            0 <= j < reads::clipped_spans(segment, objects).len() && (
            #[trigger] reads::clipped_spans(segment, objects)[j]).object == objects[i]
                && reads::clipped_spans(segment, objects)[j].start <= offset
                && offset < reads::clipped_spans(segment, objects)[j].start
                + reads::clipped_spans(segment, objects)[j].len,
    decreases objects.len(),
{
    let front = objects.drop_last();
    let list = reads::clipped_spans(segment, objects);
    let before = reads::clipped_spans(segment, front);
    if i < front.len() {
        law_every_held_byte_is_read(segment, front, offset, i);
        let j = choose|j: int|
            0 <= j < before.len() && (#[trigger] before[j]).object == front[i] && before[j].start
                <= offset && offset < before[j].start + before[j].len;
        assert(list[j] == before[j]);
        assert(list[j].object == objects[i]);
    } else {
        let (start, end) = reads::clip(segment, objects.last());
        assert(end - start <= segment.len);
        assert(list.last() == (SpanRead {
            object: objects.last(),
            start,
            len: (end - start) as usize,
        }));
        assert(list[list.len() - 1].object == objects[i]);
    }
}

/// Where the objects of a page follow on one another and hold all that a segment asks for,
/// and each range gives the bytes of the stream at its place, a segment gives the bytes of
/// the stream that it asks for.
pub proof fn law_segment_gives_what_it_asks_for(
    segment: StreamReadColdIndexSegment,
    pages: Pages,
    ranges: Ranges,
    stream: Seq<u8>,
)
    requires
        segment.read_start_offset + segment.len <= stream.len(),
        segment.read_start_offset + segment.len <= u64::MAX,
        pages(segment).len() > 0,
        forall|i: int|
            0 <= i < pages(segment).len() ==> (#[trigger] pages(segment)[i]).start_offset
                < pages(segment)[i].end_offset,
        forall|i: int|
            0 < i < pages(segment).len() ==> (#[trigger] pages(segment)[i]).start_offset
                == pages(segment)[i - 1].end_offset,
        pages(segment)[0].start_offset <= segment.read_start_offset,
        segment.read_start_offset + segment.len <= pages(segment).last().end_offset,
        forall|read: SpanRead|
            read.start + read.len <= stream.len() ==> #[trigger] ranges(read) == stream.subrange(
                read.start as int,
                read.start + read.len,
            ),
    ensures
        plan_read::segment_bytes(StreamReadSegment::ColdIndex(segment), pages, ranges)
            == stream.subrange(
            segment.read_start_offset as int,
            segment.read_start_offset + segment.len,
        ),
{
    let segments = seq![StreamReadSegment::ColdIndex(segment)];
    let from = segment.read_start_offset as int;
    let to = segment.read_start_offset + segment.len;
    assert(reads::is_chain(pages(segment)));
    assert(plan_read::plan_covers(segments.drop_last(), pages, stream, from, from));
    assert(plan_read::segment_covers(segments.last(), pages, stream, to));
    assert(plan_read::plan_covers(segments, pages, stream, from, to));
    plan_read::law_plan_gives_the_stream(stream, segments, pages, ranges, from, to);
    assert(plan_read::plan_bytes(segments.drop_last(), pages, ranges) =~= Seq::<u8>::empty());
    assert(plan_read::plan_bytes(segments, pages, ranges) =~= plan_read::segment_bytes(
        StreamReadSegment::ColdIndex(segment),
        pages,
        ranges,
    ));
}

/// A segment of one object gives the bytes of the range that it asks for.
pub proof fn law_object_segment_gives_its_range(
    segment: crate::stream::StreamReadObjectSegment,
    pages: Pages,
    ranges: Ranges,
)
    ensures
        plan_read::segment_bytes(StreamReadSegment::Object(segment), pages, ranges) == ranges(
            SpanRead {
                object: segment.object@,
                start: segment.read_start_offset,
                len: segment.len,
            },
        ),
{
    let read = SpanRead {
        object: segment.object@,
        start: segment.read_start_offset,
        len: segment.len,
    };
    let pieces = plan_read::range_pieces(seq![read], ranges);
    assert(pieces =~= seq![ranges(read)]);
    assert(reads::joined(pieces.drop_last()) =~= Seq::<u8>::empty());
    assert(reads::joined(pieces) =~= ranges(read));
}

} // verus!
