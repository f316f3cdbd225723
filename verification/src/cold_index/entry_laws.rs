//! Laws of what the pages of the index list after a write, and of what a read
//! finds on them.

use vstd::prelude::*;
use crate::cold_index::cache;
use crate::cold_index::pages;
use crate::cold_index::pages::PageUndo;
use crate::cold_index::store;
use crate::cold_index::store_laws;
use crate::cold_index::{Page, PageKey};
use crate::ids::StreamName;
use crate::refs::{ExternalPayloadRef, ObjectSpan};

verus! {

/// A page number lies between those of the first and the last byte of a range
/// exactly where a byte of the range is on the page.
proof fn lemma_page_of_a_byte(start: u64, end: u64, page_id: u64, page_span: u64) -> (offset: u64)
    requires
        page_span > 0,
        start < end,
        start / page_span <= page_id <= ((end - 1) as u64) / page_span,
    ensures
        start <= offset < end,
        offset / page_span == page_id,
{
    let span = page_span as int;
    let id = page_id as int;
    let last = end - 1;
    vstd::arithmetic::div_mod::lemma_fundamental_div_mod(start as int, span);
    vstd::arithmetic::div_mod::lemma_fundamental_div_mod(last, span);
    vstd::arithmetic::div_mod::lemma_mod_bound(start as int, span);
    vstd::arithmetic::div_mod::lemma_mod_bound(last, span);
    if start as int / span == id {
        start
    } else {
        let first = span * id;
        assert(start < first) by (nonlinear_arith)
            requires
                start == span * (start as int / span) + start as int % span,
                start as int % span < span,
                start as int / span + 1 <= id,
                first == span * id,
                span > 0,
        ;
        assert(first <= last) by (nonlinear_arith)
            requires
                last == span * (last / span) + last % span,
                0 <= last % span,
                id <= last / span,
                first == span * id,
                span > 0,
        ;
        vstd::arithmetic::div_mod::lemma_div_multiples_vanish(id, span);
        first as u64
    }
}

proof fn lemma_byte_is_on_a_page(start: u64, end: u64, offset: u64, page_span: u64)
    requires
        page_span > 0,
        start <= offset < end,
    ensures
        start / page_span <= offset / page_span <= ((end - 1) as u64) / page_span,
{
    let span = page_span as int;
    vstd::arithmetic::div_mod::lemma_div_is_ordered(start as int, offset as int, span);
    vstd::arithmetic::div_mod::lemma_div_is_ordered(offset as int, end - 1, span);
}

proof fn lemma_blank_page_has(offset: u64, page_span: u64)
    requires
        page_span > 0,
        offset < u64::MAX,
    ensures
        ({
            let page = pages::blank_page(offset / page_span, page_span);
            &&& page.start_offset == (offset / page_span) * page_span
            &&& page.start_offset <= offset < page.end_offset
            &&& page.end_offset - page.start_offset <= page_span
            &&& page.end_offset == page.start_offset + page_span || page.end_offset == u64::MAX
            &&& page.cold_chunks.len() == 0
            &&& page.external_segments.len() == 0
        }),
{
    let span = page_span as int;
    let id = offset as int / span;
    vstd::arithmetic::div_mod::lemma_fundamental_div_mod(offset as int, span);
    vstd::arithmetic::div_mod::lemma_mod_bound(offset as int, span);
    assert(span * id == id * span) by (nonlinear_arith);
    assert(0 <= id) by {
        vstd::arithmetic::div_mod::lemma_div_pos_is_pos(offset as int, span);
    }
    assert(0 <= id * span) by (nonlinear_arith)
        requires
            0 <= id,
            0 < span,
    ;
}

/// Entering an entry leaves in the list exactly the new entry and the old ones that
/// differ from it in their first or last byte, by ascending start.
pub proof fn law_entered_object_replaces_its_range(entries: Seq<ObjectSpan>, span: ObjectSpan)
    ensures
        forall|entry: ObjectSpan|
            #![trigger pages::with_entry(entries, span).contains(entry)]
            pages::with_entry(entries, span).contains(entry) <==> entry == span || {
                &&& entries.contains(entry)
                &&& entry.start_offset != span.start_offset || entry.end_offset
                    != span.end_offset
            },
        forall|i: int, j: int|
            #![trigger pages::with_entry(entries, span)[i], pages::with_entry(entries, span)[j]]
            0 <= i <= j < pages::with_entry(entries, span).len() ==> pages::with_entry(
                entries,
                span,
            )[i].start_offset <= pages::with_entry(entries, span)[j].start_offset,
{
    pages::law_with_entry(entries, span);
}

proof fn lemma_insert_keeps_places(entries: Seq<ObjectSpan>, span: ObjectSpan, start: u64)
    requires
        pages::sorted_by_start(entries),
    ensures
        ({
            let at = |entry: ObjectSpan| entry.start_offset == start;
            pages::insert_by_start(entries, span).filter(at) == if span.start_offset == start {
                entries.filter(at).push(span)
            } else {
                entries.filter(at)
            }
        }),
    decreases entries.len(),
{
    reveal(Seq::filter);
    let at = |entry: ObjectSpan| entry.start_offset == start;
    let list = pages::insert_by_start(entries, span);
    if entries.len() == 0 || entries.last().start_offset <= span.start_offset {
        assert(list.drop_last() =~= entries);
    } else {
        let front = entries.drop_last();
        lemma_insert_keeps_places(front, span, start);
        assert(list.drop_last() =~= pages::insert_by_start(front, span));
        if span.start_offset == start {
            assert(entries.filter(at) == front.filter(at));
        }
    }
}

/// Sorting keeps the order of the entries that start at one offset.
pub proof fn law_sorting_keeps_the_order_of_equals(entries: Seq<ObjectSpan>, start: u64)
    ensures
        pages::stable_by_start(entries).filter(
            |entry: ObjectSpan| entry.start_offset == start,
        ) == entries.filter(|entry: ObjectSpan| entry.start_offset == start),
    decreases entries.len(),
{
    reveal(Seq::filter);
    let at = |entry: ObjectSpan| entry.start_offset == start;
    if entries.len() > 0 {
        let front = entries.drop_last();
        law_sorting_keeps_the_order_of_equals(front, start);
        pages::law_stable_sort(front);
        lemma_insert_keeps_places(pages::stable_by_start(front), entries.last(), start);
    }
}

/// After an object was entered, every byte that it holds has its page in the index,
/// and that page lists the object. The page keeps its chunks and every segment of
/// another range; a page that is new begins and ends where its number says.
pub proof fn law_segment_is_on_the_page_of_each_byte(
    before: Map<PageKey, Page>,
    stream: StreamName,
    span: ObjectSpan,
    page_span: u64,
    offset: u64,
)
    requires
        page_span > 0,
        span.start_offset <= offset < span.end_offset,
    ensures
        ({
            let after = store::pages_with_segment(before, stream, span, page_span);
            let key = PageKey { stream, generation: 0, page_id: offset / page_span };
            &&& after.contains_key(key)
            &&& after[key].external_segments.contains(span)
            &&& before.contains_key(key) ==> {
                &&& after[key].start_offset == before[key].start_offset
                &&& after[key].end_offset == before[key].end_offset
                &&& after[key].cold_chunks == before[key].cold_chunks
                &&& forall|entry: ObjectSpan|
                    #![trigger after[key].external_segments.contains(entry)]
                    after[key].external_segments.contains(entry) <==> entry == span || {
                        &&& before[key].external_segments.contains(entry)
                        &&& entry.start_offset != span.start_offset || entry.end_offset
                            != span.end_offset
                    }
            }
            &&& !before.contains_key(key) ==> {
                &&& after[key].start_offset == (offset / page_span) * page_span
                &&& after[key].start_offset <= offset < after[key].end_offset
                &&& after[key].end_offset == after[key].start_offset + page_span
                    || after[key].end_offset == u64::MAX
                &&& after[key].cold_chunks == Seq::<ObjectSpan>::empty()
                &&& after[key].external_segments == seq![span]
            }
        }),
{
    lemma_byte_is_on_a_page(span.start_offset, span.end_offset, offset, page_span);
    lemma_blank_page_has(offset, page_span);
    let key = PageKey { stream, generation: 0, page_id: offset / page_span };
    assert(store::touches(key, stream, span, page_span));
    if before.contains_key(key) {
        law_entered_object_replaces_its_range(before[key].external_segments, span);
    } else {
        lemma_alone(span);
    }
}

/// An entry that enters an empty list is alone in it.
proof fn lemma_alone(span: ObjectSpan)
    ensures
        pages::with_entry(Seq::empty(), span) == seq![span],
        pages::with_entry(Seq::empty(), span).contains(span),
{
    law_entered_object_replaces_its_range(Seq::empty(), span);
    reveal(Seq::filter);
    let all = Seq::<ObjectSpan>::empty().filter(
        |entry: ObjectSpan| pages::other_range(entry, span),
    ).push(span);
    pages::law_stable_sort(all);
    assert(pages::with_entry(Seq::empty(), span).len() == 1);
    let list = pages::with_entry(Seq::empty(), span);
    assert(list.contains(list[0]));
    assert(list =~= seq![span]);
}

/// After a chunk was entered, every byte that it holds has its page in the index,
/// and that page lists the chunk. The page keeps its segments and every chunk of
/// another range; a page that is new begins and ends where its number says.
pub proof fn law_chunk_is_on_the_page_of_each_byte(
    before: Map<PageKey, Page>,
    stream: StreamName,
    span: ObjectSpan,
    page_span: u64,
    offset: u64,
)
    requires
        page_span > 0,
        span.start_offset <= offset < span.end_offset,
    ensures
        ({
            let after = store::pages_with_chunk(before, stream, span, page_span);
            let key = PageKey { stream, generation: 0, page_id: offset / page_span };
            &&& after.contains_key(key)
            &&& after[key].cold_chunks.contains(span)
            &&& before.contains_key(key) ==> {
                &&& after[key].start_offset == before[key].start_offset
                &&& after[key].end_offset == before[key].end_offset
                &&& after[key].external_segments == before[key].external_segments
                &&& forall|entry: ObjectSpan|
                    #![trigger after[key].cold_chunks.contains(entry)]
                    after[key].cold_chunks.contains(entry) <==> entry == span || {
                        &&& before[key].cold_chunks.contains(entry)
                        &&& entry.start_offset != span.start_offset || entry.end_offset
                            != span.end_offset
                    }
            }
            &&& !before.contains_key(key) ==> {
                &&& after[key].start_offset == (offset / page_span) * page_span
                &&& after[key].start_offset <= offset < after[key].end_offset
                &&& after[key].end_offset == after[key].start_offset + page_span
                    || after[key].end_offset == u64::MAX
                &&& after[key].external_segments == Seq::<ObjectSpan>::empty()
                &&& after[key].cold_chunks == seq![span]
            }
        }),
{
    lemma_byte_is_on_a_page(span.start_offset, span.end_offset, offset, page_span);
    lemma_blank_page_has(offset, page_span);
    let key = PageKey { stream, generation: 0, page_id: offset / page_span };
    assert(store::touches(key, stream, span, page_span));
    if before.contains_key(key) {
        law_entered_object_replaces_its_range(before[key].cold_chunks, span);
    } else {
        lemma_alone(span);
    }
}

/// Entering an object or a chunk changes no page of another stream or generation, and
/// none that has no byte of it.
pub proof fn law_write_leaves_other_pages_alone(
    before: Map<PageKey, Page>,
    stream: StreamName,
    span: ObjectSpan,
    page_span: u64,
    key: PageKey,
)
    requires
        page_span > 0,
        key.stream != stream || key.generation != 0 || forall|offset: u64|
            #![trigger span_byte(span, offset)]
            span_byte(span, offset) ==> offset / page_span != key.page_id,
    ensures
        ({
            let segments = store::pages_with_segment(before, stream, span, page_span);
            let chunks = store::pages_with_chunk(before, stream, span, page_span);
            &&& segments.contains_key(key) == before.contains_key(key)
            &&& before.contains_key(key) ==> segments[key] == before[key]
            &&& chunks.contains_key(key) == before.contains_key(key)
            &&& before.contains_key(key) ==> chunks[key] == before[key]
        }),
{
    if key.stream == stream && key.generation == 0 && span.start_offset < span.end_offset
        && span.start_offset / page_span <= key.page_id <= ((span.end_offset - 1) as u64)
        / page_span {
        let offset = lemma_page_of_a_byte(
            span.start_offset,
            span.end_offset,
            key.page_id,
            page_span,
        );
        assert(span_byte(span, offset));
    }
}

/// Whether a span holds a byte.
pub open spec fn span_byte(span: ObjectSpan, offset: u64) -> bool {
    span.start_offset <= offset < span.end_offset
}

/// After an external payload was entered at an offset of the stream, the page of each
/// byte of it lists an external segment with the payload's first and last byte, its
/// size and its path.
pub proof fn law_external_payload_is_on_the_page_of_each_byte(
    before: Map<PageKey, Page>,
    stream: StreamName,
    start_offset: u64,
    payload: ExternalPayloadRef,
    page_span: u64,
    offset: u64,
)
    requires
        page_span > 0,
        start_offset + payload.payload_len <= u64::MAX,
        start_offset <= offset < start_offset + payload.payload_len,
    ensures
        ({
            let after = store::pages_with_segment(
                before,
                stream,
                pages::external_span(start_offset, payload),
                page_span,
            );
            let key = PageKey { stream, generation: 0, page_id: offset / page_span };
            &&& after.contains_key(key)
            &&& after[key].external_segments.contains(
                ObjectSpan {
                    start_offset,
                    end_offset: (start_offset + payload.payload_len) as u64,
                    object_size: payload.object_size,
                    s3_path: payload.s3_path@,
                },
            )
        }),
{
    law_segment_is_on_the_page_of_each_byte(
        before,
        stream,
        pages::external_span(start_offset, payload),
        page_span,
        offset,
    );
}

/// The objects that a read is answered from are all those on the page that hold a byte
/// of it, by ascending start; the page covers the read exactly where each byte of it is
/// held by one of them.
pub proof fn law_found_objects_hold_the_read(page: Page, start: int, end: int)
    ensures
        forall|object: ObjectSpan|
            #![trigger cache::overlapping_objects(page, start, end).contains(object)]
            cache::overlapping_objects(page, start, end).contains(object) <==> {
                &&& page.cold_chunks.contains(object) || page.external_segments.contains(object)
                &&& object.start_offset < end
                &&& start < object.end_offset
                &&& start < end
                &&& object.start_offset < object.end_offset
            },
        forall|i: int, j: int|
            #![trigger
                cache::overlapping_objects(page, start, end)[i],
                cache::overlapping_objects(page, start, end)[j]
            ]
            0 <= i <= j < cache::overlapping_objects(page, start, end).len()
                ==> cache::overlapping_objects(page, start, end)[i].start_offset
                <= cache::overlapping_objects(page, start, end)[j].start_offset,
{
    let all = page.cold_chunks + page.external_segments;
    let keep = |object: ObjectSpan| cache::overlaps(object, start, end);
    let kept = all.filter(keep);
    let list = cache::overlapping_objects(page, start, end);
    pages::law_stable_sort(kept);
    kept.to_multiset_ensures();
    list.to_multiset_ensures();
    assert forall|object: ObjectSpan| #![trigger list.contains(object)]
        list.contains(object) <==> {
        &&& page.cold_chunks.contains(object) || page.external_segments.contains(object)
        &&& object.start_offset < end
        &&& start < object.end_offset
        &&& start < end
        &&& object.start_offset < object.end_offset
    } by {
        pages::lemma_filter_contains(all, keep, object);
        assert(list.contains(object) <==> list.to_multiset().count(object) > 0);
        assert(kept.contains(object) <==> kept.to_multiset().count(object) > 0);
        lemma_joined_contains(page.cold_chunks, page.external_segments, object);
    }
}

proof fn lemma_joined_contains(a: Seq<ObjectSpan>, b: Seq<ObjectSpan>, object: ObjectSpan)
    ensures
        (a + b).contains(object) <==> a.contains(object) || b.contains(object),
{
    let all = a + b;
    if a.contains(object) {
        let i = choose|i: int| 0 <= i < a.len() && a[i] == object;
        assert(all[i] == object);
    }
    if b.contains(object) {
        let i = choose|i: int| 0 <= i < b.len() && b[i] == object;
        assert(all[a.len() + i] == object);
    }
    if all.contains(object) {
        let i = choose|i: int| 0 <= i < all.len() && all[i] == object;
        if i < a.len() {
            assert(a[i] == object);
        } else {
            assert(b[i - a.len()] == object);
        }
    }
}

/// Where a read is covered, each byte of it is within one of the listed ranges.
pub proof fn law_covered_read_has_every_byte(
    list: Seq<ObjectSpan>,
    start: int,
    end: int,
    offset: int,
)
    requires
        cache::covered(list, start, end),
        start <= offset < end,
    ensures
        exists|i: int|
            0 <= i < list.len() && (#[trigger] list[i]).start_offset <= offset
                < list[i].end_offset,
{
    assert(cache::held(list, offset));
    let i = choose|i: int| 0 <= i < list.len() && (#[trigger] list[i]).holds(offset);
    assert(list[i].start_offset <= offset < list[i].end_offset);
}

/// Where each byte of a read is within the range that `holder` names, the read is
/// covered.
pub proof fn law_read_of_held_bytes_is_covered(
    list: Seq<ObjectSpan>,
    start: int,
    end: int,
    holder: spec_fn(int) -> int,
)
    requires
        forall|offset: int|
            start <= offset < end ==> {
                &&& 0 <= #[trigger] holder(offset) < list.len()
                &&& list[holder(offset)].start_offset <= offset < list[holder(
                    offset,
                )].end_offset
            },
    ensures
        cache::covered(list, start, end),
{
    assert forall|offset: int| start <= offset < end implies #[trigger] cache::held(
        list,
        offset,
    ) by {
        assert(list[holder(offset)].holds(offset));
    }
}

proof fn lemma_one_holds_all(page: Page, span: ObjectSpan, start: u64, end: u64)
    requires
        page.cold_chunks.contains(span) || page.external_segments.contains(span),
        span.start_offset <= start < end <= span.end_offset,
    ensures
        cache::covered(page.cold_chunks + page.external_segments, start as int, end as int),
        cache::overlapping_objects(page, start as int, end as int).contains(span),
{
    let all = page.cold_chunks + page.external_segments;
    lemma_joined_contains(page.cold_chunks, page.external_segments, span);
    let at = choose|i: int| 0 <= i < all.len() && all[i] == span;
    law_read_of_held_bytes_is_covered(all, start as int, end as int, |offset: int| at);
    law_found_objects_hold_the_read(page, start as int, end as int);
}

/// What was entered into the index can be read: any part of the object that lies on one
/// page is covered by what that page lists, and the object is among those that answer.
pub proof fn law_entered_bytes_can_be_read(
    before: Map<PageKey, Page>,
    stream: StreamName,
    span: ObjectSpan,
    page_span: u64,
    start: u64,
    end: u64,
)
    requires
        page_span > 0,
        span.start_offset <= start < end <= span.end_offset,
        ((end - 1) as u64) / page_span == start / page_span,
    ensures
        ({
            let key = PageKey { stream, generation: 0, page_id: start / page_span };
            let segments = store::pages_with_segment(before, stream, span, page_span);
            let chunks = store::pages_with_chunk(before, stream, span, page_span);
            &&& segments.contains_key(key)
            &&& cache::covered(
                segments[key].cold_chunks + segments[key].external_segments,
                start as int,
                end as int,
            )
            &&& cache::overlapping_objects(segments[key], start as int, end as int).contains(span)
            &&& chunks.contains_key(key)
            &&& cache::covered(
                chunks[key].cold_chunks + chunks[key].external_segments,
                start as int,
                end as int,
            )
            &&& cache::overlapping_objects(chunks[key], start as int, end as int).contains(span)
        }),
{
    let key = PageKey { stream, generation: 0, page_id: start / page_span };
    law_segment_is_on_the_page_of_each_byte(before, stream, span, page_span, start);
    law_chunk_is_on_the_page_of_each_byte(before, stream, span, page_span, start);
    let segments = store::pages_with_segment(before, stream, span, page_span);
    let chunks = store::pages_with_chunk(before, stream, span, page_span);
    lemma_one_holds_all(segments[key], span, start, end);
    lemma_one_holds_all(chunks[key], span, start, end);
}

/// Taking a chunk back right after it was entered gives every page back that was there
/// before, and leaves nothing listed on a page that was not.
pub proof fn law_rollback_gives_the_pages_back(
    before: Map<PageKey, Page>,
    stream: StreamName,
    chunk: ObjectSpan,
    page_span: u64,
    key: PageKey,
)
    requires
        page_span > 0,
    ensures
        ({
            let after = store::undo_all(
                store::pages_with_chunk(before, stream, chunk, page_span),
                store::chunk_undo(before, stream, chunk, page_span),
                page_span,
            );
            &&& before.contains_key(key) ==> after.contains_key(key) && after[key] == before[key]
            &&& !before.contains_key(key) && after.contains_key(key) ==> {
                &&& after[key].cold_chunks.len() == 0
                &&& after[key].external_segments.len() == 0
            }
        }),
{
    store_laws::law_rollback_restores_pages(before, stream, chunk, page_span);
}

/// One step of a rollback puts the earlier page back where the page still lists the
/// chunk, with its first and last byte and its path, and changes nothing otherwise.
pub proof fn law_rollback_takes_only_its_own_chunk_back(
    current: Map<PageKey, Page>,
    undo: PageUndo,
    page_span: u64,
)
    ensures
        ({
            let after = store::undo_step(current, undo, page_span);
            let chunk = undo.written_chunk;
            let is_listed = current.contains_key(undo.key) && exists|i: int|
                0 <= i < current[undo.key].cold_chunks.len() && (
                #[trigger] current[undo.key].cold_chunks[i]).start_offset == chunk.start_offset
                    && current[undo.key].cold_chunks[i].end_offset == chunk.end_offset
                    && current[undo.key].cold_chunks[i].s3_path == chunk.s3_path;
            &&& !is_listed ==> after == current
            &&& is_listed && undo.previous is Some ==> after == current.insert(
                undo.key,
                undo.previous->0,
            )
            &&& is_listed && undo.previous is None ==> {
                &&& after.dom() == current.dom()
                &&& after[undo.key].cold_chunks.len() == 0
                &&& after[undo.key].external_segments.len() == 0
                &&& forall|other: PageKey|
                    other != undo.key && current.contains_key(other) ==> #[trigger] after[other]
                        == current[other]
            }
        }),
{
    let after = store::undo_step(current, undo, page_span);
    if current.contains_key(undo.key) {
        let page = current[undo.key];
        let chunk = undo.written_chunk;
        if exists|i: int|
            0 <= i < page.cold_chunks.len() && (#[trigger] page.cold_chunks[i]).start_offset
                == chunk.start_offset && page.cold_chunks[i].end_offset == chunk.end_offset
                && page.cold_chunks[i].s3_path == chunk.s3_path {
            let at = choose|i: int|
                0 <= i < page.cold_chunks.len() && (#[trigger] page.cold_chunks[i]).start_offset
                    == chunk.start_offset && page.cold_chunks[i].end_offset == chunk.end_offset
                    && page.cold_chunks[i].s3_path == chunk.s3_path;
            assert(!pages::other_range(page.cold_chunks[at], chunk));
            assert(pages::still_lists(page, chunk));
            assert(after.dom() =~= current.dom());
        }
    }
}

/// An entered segment is on the page of each byte.
pub proof fn lemma_segment_on_its_pages(
    before: Map<PageKey, Page>,
    stream: StreamName,
    span: ObjectSpan,
    page_span: u64,
)
    requires
        page_span > 0,
    ensures
        forall|offset: u64|
            #[trigger] span.holds(offset as int) ==> {
                let after = store::pages_with_segment(before, stream, span, page_span);
                let key = PageKey { stream, generation: 0, page_id: offset / page_span };
                after.contains_key(key) && after[key].external_segments.contains(span)
            },
{
    assert forall|offset: u64| #[trigger] span.holds(offset as int) implies ({
        let after = store::pages_with_segment(before, stream, span, page_span);
        let key = PageKey { stream, generation: 0, page_id: offset / page_span };
        after.contains_key(key) && after[key].external_segments.contains(span)
    }) by {
        law_segment_is_on_the_page_of_each_byte(before, stream, span, page_span, offset);
    }
}

/// An entered chunk is on the page of each byte.
pub proof fn lemma_chunk_on_its_pages(
    before: Map<PageKey, Page>,
    stream: StreamName,
    span: ObjectSpan,
    page_span: u64,
)
    requires
        page_span > 0,
    ensures
        forall|offset: u64|
            #[trigger] span.holds(offset as int) ==> {
                let after = store::pages_with_chunk(before, stream, span, page_span);
                let key = PageKey { stream, generation: 0, page_id: offset / page_span };
                after.contains_key(key) && after[key].cold_chunks.contains(span)
            },
{
    assert forall|offset: u64| #[trigger] span.holds(offset as int) implies ({
        let after = store::pages_with_chunk(before, stream, span, page_span);
        let key = PageKey { stream, generation: 0, page_id: offset / page_span };
        after.contains_key(key) && after[key].cold_chunks.contains(span)
    }) by {
        law_chunk_is_on_the_page_of_each_byte(before, stream, span, page_span, offset);
    }
}

} // verus!
