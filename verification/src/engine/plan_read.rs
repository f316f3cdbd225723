//! Reading what a plan says, piece by piece.

use vstd::prelude::*;
use crate::engine::errors::GroupEngineError;
use crate::engine::reads;
use crate::engine::reads::{clipped_reads, segment_work, ObjectRead, SegmentWork, SpanRead};
use crate::engine::state;
use crate::ids::{BucketStreamId, StreamName};
use crate::refs;
use crate::refs::{ObjectPayloadRef, ObjectSpan, StreamReadColdIndexSegment};
use crate::stream::{StreamReadPlan, StreamReadSegment};

verus! {

/// What a read has to be handed next.
#[derive(Debug, PartialEq, Eq)]
pub enum PlanStep {
    /// The objects that the page of this segment names.
    LookUp(StreamReadColdIndexSegment),
    /// The bytes of this range.
    Read(ObjectRead),
    /// Nothing more.
    Done,
}

/// A read of what a plan says, as far as it has come.
#[derive(Debug)]
pub struct PlanRead {
    plan: StreamReadPlan,
    done: usize,
    reads: Option<Vec<ObjectRead>>,
    at: usize,
    payload: Vec<u8>,
}

/// The objects that the page of a segment names.
pub type Pages = spec_fn(StreamReadColdIndexSegment) -> Seq<ObjectSpan>;

/// The bytes of a range.
pub type Ranges = spec_fn(SpanRead) -> Seq<u8>;

/// The ranges that a segment is read from, where its bytes are not at hand.
pub open spec fn segment_reads(segment: StreamReadSegment, pages: Pages) -> Seq<SpanRead> {
    match segment {
        StreamReadSegment::Hot(_) => Seq::empty(),
        StreamReadSegment::ColdIndex(segment) => reads::clipped_spans(segment, pages(segment)),
        StreamReadSegment::Object(segment) => seq![
            SpanRead {
                object: segment.object@,
                start: segment.read_start_offset,
                len: segment.len,
            },
        ],
    }
}

/// The bytes of several ranges, each its own piece.
pub open spec fn range_pieces(spans: Seq<SpanRead>, ranges: Ranges) -> Seq<Seq<u8>> {
    spans.map_values(|span: SpanRead| ranges(span))
}

/// The bytes of a segment.
pub open spec fn segment_bytes(
    segment: StreamReadSegment,
    pages: Pages,
    ranges: Ranges,
) -> Seq<u8> {
    match segment {
        StreamReadSegment::Hot(bytes) => bytes@,
        _ => reads::joined(range_pieces(segment_reads(segment, pages), ranges)),
    }
}

/// The bytes of the segments, one after the other.
pub open spec fn plan_bytes(
    segments: Seq<StreamReadSegment>,
    pages: Pages,
    ranges: Ranges,
) -> Seq<u8>
    decreases segments.len(),
{
    if segments.len() == 0 {
        Seq::empty()
    } else {
        plan_bytes(segments.drop_last(), pages, ranges) + segment_bytes(
            segments.last(),
            pages,
            ranges,
        )
    }
}

/// What is missing for a segment to be read.
pub open spec fn lacks(
    segment: StreamReadSegment,
    has_cold_store: bool,
    has_cold_index_cache: bool,
) -> Option<Seq<char>> {
    if !(segment is Hot) && !has_cold_store {
        Some("object payload store"@)
    } else if segment is ColdIndex && !has_cold_index_cache {
        Some("cold index page cache"@)
    } else {
        None
    }
}

impl PlanRead {
    /// The segments that are read.
    pub closed spec fn segments(&self) -> Seq<StreamReadSegment> {
        self.plan.segments@
    }

    /// Where the stream goes on after the read.
    pub closed spec fn next_offset(&self) -> u64 {
        self.plan.next_offset
    }

    /// How many segments are read.
    pub closed spec fn done(&self) -> int {
        self.done as int
    }

    /// The ranges of the segment that is being read.
    pub closed spec fn reads(&self) -> Option<Seq<SpanRead>> {
        match self.reads {
            Some(list) => Some(reads::read_spans(list@)),
            None => None,
        }
    }

    /// How many of these ranges are read.
    pub closed spec fn at(&self) -> int {
        self.at as int
    }

    /// What is read.
    pub closed spec fn payload(&self) -> Seq<u8> {
        self.payload@
    }

    pub open spec fn wf(&self) -> bool {
        &&& 0 <= self.done() <= self.segments().len()
        &&& match self.reads() {
            Some(spans) => self.done() < self.segments().len() && !(
            self.segments()[self.done()] is Hot) && 0 <= self.at() <= spans.len(),
            None => self.at() == 0,
        }
    }

    /// Whether everything is read.
    pub open spec fn is_done(&self) -> bool {
        self.reads() is None && self.done() == self.segments().len()
    }

    /// The range whose bytes are waited for.
    pub open spec fn waits_for(&self) -> Option<SpanRead> {
        match self.reads() {
            Some(spans) => if self.at() < spans.len() {
                Some(spans[self.at()])
            } else {
                None
            },
            None => None,
        }
    }

    /// Whether what is read is what these pages and ranges hold.
    pub open spec fn agrees_with(&self, pages: Pages, ranges: Ranges) -> bool {
        let before = plan_bytes(self.segments().take(self.done()), pages, ranges);
        match self.reads() {
            Some(spans) => {
                &&& spans == segment_reads(self.segments()[self.done()], pages)
                &&& self.payload() == before + reads::joined(
                    range_pieces(spans.take(self.at()), ranges),
                )
            },
            None => self.payload() == before,
        }
    }

    pub fn new(plan: StreamReadPlan) -> (r: Self)
        ensures
            r.wf(),
            r.segments() == plan.segments@,
            r.next_offset() == plan.next_offset,
            r.done() == 0,
            r.reads() is None,
            forall|pages: Pages, ranges: Ranges| #[trigger] r.agrees_with(pages, ranges),
    {
        let r = PlanRead { plan, done: 0, reads: None, at: 0, payload: Vec::new() };
        assert forall|pages: Pages, ranges: Ranges| #[trigger] r.agrees_with(pages, ranges) by {
            assert(r.segments().take(0) =~= Seq::empty());
            assert(r.payload() =~= Seq::empty());
        }
        r
    }

    /// Goes on as far as the bytes at hand reach, and says what to hand in next.
    pub fn next_step(
        &mut self,
        stream_id: &BucketStreamId,
        has_cold_store: bool,
        has_cold_index_cache: bool,
    ) -> (r: Result<PlanStep, GroupEngineError>)
        requires
            old(self).wf(),
        ensures
            final(self).wf(),
            final(self).segments() == old(self).segments(),
            final(self).next_offset() == old(self).next_offset(),
            final(self).done() >= old(self).done(),
            forall|i: int|
                old(self).done() + (if old(self).reads() is Some {
                    1int
                } else {
                    0
                }) <= i < final(self).done() ==> (#[trigger] old(self).segments()[i]) is Hot,
            old(self).waits_for() is Some ==> r is Ok && *final(self) == *old(self),
            forall|pages: Pages, ranges: Ranges|
                old(self).agrees_with(pages, ranges) ==> #[trigger] final(self).agrees_with(
                    pages,
                    ranges,
                ),
            match r {
                Ok(PlanStep::Done) => final(self).is_done(),
                Ok(PlanStep::LookUp(segment)) => {
                    &&& final(self).done() < final(self).segments().len()
                    &&& final(self).reads() is None
                    &&& final(self).segments()[final(self).done()] == StreamReadSegment::ColdIndex(
                        segment,
                    )
                    &&& has_cold_store && has_cold_index_cache
                },
                Ok(PlanStep::Read(read)) => final(self).waits_for() == Some(read@) && (old(
                    self,
                ).waits_for() is None ==> has_cold_store),
                Err(error) => {
                    &&& final(self).done() < final(self).segments().len()
                    &&& lacks(
                        final(self).segments()[final(self).done()],
                        has_cold_store,
                        has_cold_index_cache,
                    ) is Some
                    &&& state::is_refusal(
                        error,
                        reads::read_needs(
                            stream_id@,
                            lacks(
                                final(self).segments()[final(self).done()],
                                has_cold_store,
                                has_cold_index_cache,
                            )->0,
                            final(self).next_offset(),
                        ),
                    )
                },
            },
    {
        let ghost start = *self;
        if let Some(list) = &self.reads {
            if self.at < list.len() {
                let next = &list[self.at];
                let read = ObjectRead { object: next.object.clone(), start: next.start, len: next.len };
                assert(read@ == self.reads()->0[self.at()]);
                return Ok(PlanStep::Read(read));
            }
            assert(self.plan.segments.len() == self.segments().len());
            proof {
                assert(self.reads()->0.take(self.at()) =~= self.reads()->0);
                assert(self.segments().take(self.done() + 1).drop_last() =~= self.segments().take(
                    self.done(),
                ));
            }
            self.reads = None;
            self.at = 0;
            self.done = self.done + 1;
        }
        let ghost first = self.done();
        assert(forall|pages: Pages, ranges: Ranges|
            start.agrees_with(pages, ranges) ==> #[trigger] self.agrees_with(pages, ranges));
        while self.done < self.plan.segments.len()
            invariant
                self.wf(),
                self.reads() is None,
                self.segments() == start.segments(),
                self.next_offset() == start.next_offset(),
                start == *old(self),
                start.wf(),
                start.waits_for() is None,
                first == start.done() + (if start.reads() is Some {
                    1int
                } else {
                    0
                }),
                first <= self.done(),
                forall|i: int| first <= i < self.done() ==> (#[trigger] start.segments()[i]) is Hot,
                forall|pages: Pages, ranges: Ranges|
                    start.agrees_with(pages, ranges) ==> #[trigger] self.agrees_with(pages, ranges),
            decreases self.plan.segments@.len() - self.done,
        {
            let ghost before = *self;
            let work = match segment_work(
                stream_id,
                &self.plan,
                self.done,
                has_cold_store,
                has_cold_index_cache,
            ) {
                Ok(work) => work,
                Err(error) => {
                    return Err(error);
                },
            };
            match work {
                SegmentWork::Bytes(bytes) => {
                    self.payload.extend_from_slice(bytes.as_slice());
                    self.done = self.done + 1;
                    proof {
                        assert(self.segments().take(self.done()).drop_last()
                            =~= before.segments().take(before.done()));
                        assert(self.payload() =~= before.payload() + bytes@);
                        assert forall|pages: Pages, ranges: Ranges|
                            start.agrees_with(pages, ranges) implies #[trigger] self.agrees_with(
                            pages,
                            ranges,
                        ) by {
                            assert(before.agrees_with(pages, ranges));
                        }
                    }
                },
                SegmentWork::LookUp(segment) => {
                    return Ok(PlanStep::LookUp(segment));
                },
                SegmentWork::Read(read) => {
                    let again = ObjectRead {
                        object: read.object.clone(),
                        start: read.start,
                        len: read.len,
                    };
                    let mut list: Vec<ObjectRead> = Vec::new();
                    list.push(read);
                    self.reads = Some(list);
                    proof {
                        assert(self.reads()->0 =~= seq![read@]);
                        assert forall|pages: Pages, ranges: Ranges|
                            start.agrees_with(pages, ranges) implies #[trigger] self.agrees_with(
                            pages,
                            ranges,
                        ) by {
                            assert(before.agrees_with(pages, ranges));
                            assert(range_pieces(self.reads()->0.take(0), ranges) =~= Seq::empty());
                            assert(self.payload() =~= before.payload() + Seq::empty());
                        }
                    }
                    return Ok(PlanStep::Read(again));
                },
            }
        }
        Ok(PlanStep::Done)
    }

    /// Takes the objects that the page of the segment in hand names.
    pub fn accept_objects(&mut self, objects: &Vec<ObjectPayloadRef>)
        requires
            old(self).wf(),
            old(self).reads() is None,
            old(self).done() < old(self).segments().len(),
            old(self).segments()[old(self).done()] is ColdIndex,
        ensures
            final(self).wf(),
            final(self).segments() == old(self).segments(),
            final(self).next_offset() == old(self).next_offset(),
            final(self).done() == old(self).done(),
            final(self).at() == 0,
            final(self).payload() == old(self).payload(),
            final(self).reads() == Some(
                reads::clipped_spans(
                    old(self).segments()[old(self).done()]->ColdIndex_0,
                    refs::object_spans(objects@),
                ),
            ),
            forall|pages: Pages, ranges: Ranges|
                old(self).agrees_with(pages, ranges) && pages(
                    old(self).segments()[old(self).done()]->ColdIndex_0,
                ) == refs::object_spans(objects@) ==> #[trigger] final(self).agrees_with(
                    pages,
                    ranges,
                ),
    {
        let ghost before = *self;
        let list = match &self.plan.segments[self.done] {
            StreamReadSegment::ColdIndex(segment) => clipped_reads(segment, objects),
            _ => {
                assert(false);
                Vec::new()
            },
        };
        self.reads = Some(list);
        self.at = 0;
        proof {
            assert forall|pages: Pages, ranges: Ranges|
                before.agrees_with(pages, ranges) && pages(
                    before.segments()[before.done()]->ColdIndex_0,
                ) == refs::object_spans(objects@) implies #[trigger] self.agrees_with(
                pages,
                ranges,
            ) by {
                assert(range_pieces(self.reads()->0.take(0), ranges) =~= Seq::empty());
                assert(self.payload() =~= before.payload() + Seq::empty());
            }
        }
    }

    /// Takes the bytes of the range that is waited for.
    pub fn accept_bytes(&mut self, bytes: &[u8])
        requires
            old(self).wf(),
            old(self).waits_for() is Some,
        ensures
            final(self).wf(),
            final(self).segments() == old(self).segments(),
            final(self).next_offset() == old(self).next_offset(),
            final(self).done() == old(self).done(),
            final(self).reads() == old(self).reads(),
            final(self).at() == old(self).at() + 1,
            final(self).payload() == old(self).payload() + bytes@,
            forall|pages: Pages, ranges: Ranges|
                old(self).agrees_with(pages, ranges) && ranges(old(self).waits_for()->0) == bytes@
                    ==> #[trigger] final(self).agrees_with(pages, ranges),
    {
        let ghost before = *self;
        self.payload.extend_from_slice(bytes);
        if let Some(list) = &self.reads {
            assert(self.at < list.len());
        }
        self.at = self.at + 1;
        proof {
            assert(self.payload() =~= before.payload() + bytes@);
            let spans = before.reads()->0;
            assert forall|pages: Pages, ranges: Ranges|
                before.agrees_with(pages, ranges) && ranges(before.waits_for()->0)
                    == bytes@ implies #[trigger] self.agrees_with(pages, ranges) by {
                let pieces = range_pieces(spans.take(self.at()), ranges);
                assert(pieces.drop_last() =~= range_pieces(spans.take(before.at()), ranges));
                assert(pieces.last() == bytes@);
                let front = plan_bytes(before.segments().take(before.done()), pages, ranges);
                assert(self.payload() =~= front + reads::joined(pieces));
            }
        }
    }

    /// What was read.
    pub fn finish(self) -> (r: Vec<u8>)
        requires
            self.wf(),
            self.is_done(),
        ensures
            r@ == self.payload(),
            forall|pages: Pages, ranges: Ranges| #[trigger]
                self.agrees_with(pages, ranges) ==> r@ == plan_bytes(
                    self.segments(),
                    pages,
                    ranges,
                ),
    {
        assert(self.segments().take(self.done()) =~= self.segments());
        self.payload
    }
}

/// Whether each range holds the bytes of the stream at its place.
pub open spec fn ranges_hold(ranges: Ranges, stream: Seq<u8>) -> bool {
    forall|span: SpanRead|
        span.start + span.len <= stream.len() ==> #[trigger] ranges(span) == stream.subrange(
            span.start as int,
            span.start + span.len,
        )
}

/// Where a segment that ends at `to` begins.
pub open spec fn segment_start(segment: StreamReadSegment, to: int) -> int {
    match segment {
        StreamReadSegment::Hot(bytes) => to - bytes@.len(),
        StreamReadSegment::ColdIndex(segment) => segment.read_start_offset as int,
        StreamReadSegment::Object(segment) => segment.read_start_offset as int,
    }
}

/// Whether a segment stands for the bytes of the stream up to `to`: it holds them,
/// or its page names objects that follow on one another over all of it, or it is a
/// part of one object.
pub open spec fn segment_covers(
    segment: StreamReadSegment,
    pages: Pages,
    stream: Seq<u8>,
    to: int,
) -> bool {
    match segment {
        StreamReadSegment::Hot(bytes) => bytes@.len() <= to && bytes@ == stream.subrange(
            to - bytes@.len(),
            to,
        ),
        StreamReadSegment::ColdIndex(segment) => {
            let objects = pages(segment);
            &&& reads::segment_end(segment) == to
            &&& objects.len() > 0
            &&& reads::is_chain(objects)
            &&& objects[0].start_offset <= segment.read_start_offset
            &&& to <= objects.last().end_offset
        },
        StreamReadSegment::Object(segment) => segment.read_start_offset + segment.len == to,
    }
}

/// Whether the segments follow on one another from `from` to `to`.
pub open spec fn plan_covers(
    segments: Seq<StreamReadSegment>,
    pages: Pages,
    stream: Seq<u8>,
    from: int,
    to: int,
) -> bool
    decreases segments.len(),
{
    if segments.len() == 0 {
        from == to
    } else {
        segment_covers(segments.last(), pages, stream, to) && plan_covers(
            segments.drop_last(),
            pages,
            stream,
            from,
            segment_start(segments.last(), to),
        )
    }
}

/// A plan whose segments follow on one another gives the bytes of the stream from
/// where the first begins to where the last ends.
pub proof fn law_plan_gives_the_stream(
    stream: Seq<u8>,
    segments: Seq<StreamReadSegment>,
    pages: Pages,
    ranges: Ranges,
    from: int,
    to: int,
)
    requires
        0 <= from,
        to <= stream.len(),
        ranges_hold(ranges, stream),
        plan_covers(segments, pages, stream, from, to),
    ensures
        from <= to,
        plan_bytes(segments, pages, ranges) == stream.subrange(from, to),
    decreases segments.len(),
{
    if segments.len() > 0 {
        let segment = segments.last();
        let middle = segment_start(segment, to);
        let spans = segment_reads(segment, pages);
        match segment {
            StreamReadSegment::Hot(_) => {},
            StreamReadSegment::ColdIndex(inner) => {
                reads::law_clipped_reads_tile_the_segment(inner, pages(inner));
                lemma_spans_give_the_stream(stream, spans, ranges, middle, to);
            },
            StreamReadSegment::Object(_) => {
                assert(spans.drop_last() =~= Seq::empty());
                assert(reads::tiles(spans.drop_last(), middle, middle));
                assert(reads::tiles(spans, middle, to));
                lemma_spans_give_the_stream(stream, spans, ranges, middle, to);
            },
        }
        law_plan_gives_the_stream(stream, segments.drop_last(), pages, ranges, from, middle);
        assert(segment_bytes(segment, pages, ranges) =~= stream.subrange(middle, to));
    }
    assert(plan_bytes(segments, pages, ranges) =~= stream.subrange(from, to));
}

proof fn lemma_spans_end(spans: Seq<SpanRead>, from: int, to: int)
    requires
        reads::tiles(spans, from, to),
    ensures
        forall|i: int|
            0 <= i < spans.len() ==> (#[trigger] spans[i]).start + spans[i].len <= to,
    decreases spans.len(),
{
    if spans.len() > 0 {
        let fewer = spans.drop_last();
        lemma_spans_end(fewer, from, spans.last().start as int);
        assert forall|i: int| 0 <= i < spans.len() implies (#[trigger] spans[i]).start
            + spans[i].len <= to by {
            if i < fewer.len() {
                assert(fewer[i] == spans[i]);
            }
        }
    }
}

proof fn lemma_spans_give_the_stream(
    stream: Seq<u8>,
    spans: Seq<SpanRead>,
    ranges: Ranges,
    from: int,
    to: int,
)
    requires
        0 <= from,
        to <= stream.len(),
        ranges_hold(ranges, stream),
        reads::tiles(spans, from, to),
    ensures
        from <= to,
        reads::joined(range_pieces(spans, ranges)) == stream.subrange(from, to),
{
    let pieces = range_pieces(spans, ranges);
    lemma_spans_end(spans, from, to);
    assert forall|i: int| 0 <= i < spans.len() implies #[trigger] pieces[i] == stream.subrange(
        spans[i].start as int,
        spans[i].start + spans[i].len,
    ) by {
        assert(pieces[i] == ranges(spans[i]));
    }
    reads::law_tiled_reads_give_the_stream(stream, spans, pieces, from, to);
}

} // verus!
