//! An in-memory store of cold index pages and the writes that go through it.

use vstd::prelude::*;
use crate::cold_index::codec;
use crate::cold_index::codec::{decode_page, encode_page, ColdIndexError};
use crate::cold_index::codec_laws;
use crate::cold_index::entry_laws;
use crate::cold_index::pages;
use crate::cold_index::pages::{
    add_chunk_to_page, add_segment_to_page, external_object, page_range, rollback_page,
    ColdIndexPageRollback, PageUndo,
};
use crate::cold_index::{ColdIndexPage, ColdIndexPageKey, Page, PageKey};
use crate::ids::{BucketStreamId, StreamName};
use crate::refs::{ColdChunkRef, ExternalPayloadRef, ObjectPayloadRef, ObjectSpan};
use crate::table::{Key, Table};

verus! {

impl Key for ColdIndexPageKey {
    fn same_key(&self, other: &Self) -> bool {
        self.same(other)
    }

    fn copy_key(&self) -> Self {
        self.clone()
    }
}

/// Keeps the stored form of pages in memory.
#[derive(Debug)]
pub struct InMemoryColdIndexPageStore {
    pages: Table<ColdIndexPageKey, Vec<u8>>,
}

impl View for InMemoryColdIndexPageStore {
    type V = Map<PageKey, Page>;

    closed spec fn view(&self) -> Map<PageKey, Page> {
        Map::new(
            |key: PageKey| self.pages@.contains_key(key),
            |key: PageKey| codec::stored_page(key, self.pages@[key]@)->Ok_0,
        )
    }
}

impl InMemoryColdIndexPageStore {
    /// Every key is stored once, and every stored form reads as a page.
    pub closed spec fn wf(&self) -> bool {
        &&& self.pages.wf()
        &&& forall|key: PageKey| #[trigger]
            self.pages@.contains_key(key) ==> {
                &&& codec::stored_page(key, self.pages@[key]@) is Ok
                &&& codec::page_fits(key, codec::stored_page(key, self.pages@[key]@)->Ok_0)
            }
    }

    pub fn new() -> (r: Self)
        ensures
            r.wf(),
            r@ == Map::<PageKey, Page>::empty(),
    {
        let r = InMemoryColdIndexPageStore { pages: Table::new() };
        assert(r@ =~= Map::<PageKey, Page>::empty());
        r
    }

    /// Stores `page` under `key`.
    pub fn put_page(&mut self, key: &ColdIndexPageKey, page: &ColdIndexPage) -> (r: Result<
        (),
        ColdIndexError,
    >)
        requires
            old(self).wf(),
            codec::page_fits(key@, page@),
        ensures
            final(self).wf(),
            r is Ok,
            final(self)@ == old(self)@.insert(key@, page@),
    {
        let bytes = encode_page(key, page);
        proof {
            codec_laws::law_page_round_trip(key@, page@);
        }
        let ghost before = self@;
        self.pages.insert(key.clone(), bytes);
        assert(self@ =~= before.insert(key@, page@));
        Ok(())
    }

    /// The page stored under `key`.
    pub fn get_page(&self, key: &ColdIndexPageKey) -> (r: Result<
        Option<ColdIndexPage>,
        ColdIndexError,
    >)
        requires
            self.wf(),
        ensures
            r is Ok,
            pages::optional_page(r->Ok_0) == stored(self@, key@),
            r->Ok_0 matches Some(page) ==> codec::page_fits(key@, page@),
    {
        match self.pages.get(key) {
            Some(bytes) => match decode_page(key, bytes.as_slice()) {
                Ok(page) => Ok(Some(page)),
                Err(error) => Err(error),
            },
            None => Ok(None),
        }
    }
}

/// The page under `key`, if there is one.
pub open spec fn stored(pages: Map<PageKey, Page>, key: PageKey) -> Option<Page> {
    if pages.contains_key(key) {
        Some(pages[key])
    } else {
        None
    }
}

/// Whether `key` names a page that has bytes of `span`.
pub open spec fn touches(
    key: PageKey,
    stream: StreamName,
    span: ObjectSpan,
    page_span: u64,
) -> bool {
    &&& key.stream == stream
    &&& key.generation == 0
    &&& pages::page_has_bytes_of(key.page_id, span, page_span)
}

/// The page under `key` after `chunk` entered it.
pub open spec fn chunk_page(
    stored_pages: Map<PageKey, Page>,
    key: PageKey,
    chunk: ObjectSpan,
    page_span: u64,
) -> Page {
    pages::page_with_chunk(
        pages::page_or_blank(stored(stored_pages, key), key.page_id, page_span),
        chunk,
    )
}

/// The page under `key` after `segment` entered it.
pub open spec fn segment_page(
    stored_pages: Map<PageKey, Page>,
    key: PageKey,
    segment: ObjectSpan,
    page_span: u64,
) -> Page {
    pages::page_with_segment(
        pages::page_or_blank(stored(stored_pages, key), key.page_id, page_span),
        segment,
    )
}

/// The pages after `chunk` entered every page that has bytes of it.
pub open spec fn pages_with_chunk(
    stored_pages: Map<PageKey, Page>,
    stream: StreamName,
    chunk: ObjectSpan,
    page_span: u64,
) -> Map<PageKey, Page> {
    Map::new(
        |key: PageKey| stored_pages.contains_key(key) || touches(key, stream, chunk, page_span),
        |key: PageKey|
            if touches(key, stream, chunk, page_span) {
                chunk_page(stored_pages, key, chunk, page_span)
            } else {
                stored_pages[key]
            },
    )
}

/// The pages after `segment` entered every page that has bytes of it.
pub open spec fn pages_with_segment(
    stored_pages: Map<PageKey, Page>,
    stream: StreamName,
    segment: ObjectSpan,
    page_span: u64,
) -> Map<PageKey, Page> {
    Map::new(
        |key: PageKey| stored_pages.contains_key(key) || touches(key, stream, segment, page_span),
        |key: PageKey|
            if touches(key, stream, segment, page_span) {
                segment_page(stored_pages, key, segment, page_span)
            } else {
                stored_pages[key]
            },
    )
}

/// The page `page_id` of a stream.
pub open spec fn nth_key(stream: StreamName, page_id: u64) -> PageKey {
    PageKey { stream, generation: 0, page_id }
}

/// How many pages have bytes of `span`.
pub open spec fn touched_count(span: ObjectSpan, page_span: u64) -> nat {
    if span.end_offset <= span.start_offset {
        0
    } else {
        (((span.end_offset - 1) as u64) / page_span - span.start_offset / page_span + 1) as nat
    }
}

/// What takes the write of `chunk` back, page by page in ascending order.
pub open spec fn chunk_undo(
    stored_pages: Map<PageKey, Page>,
    stream: StreamName,
    chunk: ObjectSpan,
    page_span: u64,
) -> Seq<PageUndo> {
    Seq::new(
        touched_count(chunk, page_span),
        |i: int|
            {
                let key = nth_key(stream, (chunk.start_offset / page_span + i) as u64);
                PageUndo { key, previous: stored(stored_pages, key), written_chunk: chunk }
            },
    )
}

/// What a list of rollback entries says.
pub open spec fn undo_list(rollback: Seq<ColdIndexPageRollback>) -> Seq<PageUndo> {
    rollback.map_values(|entry: ColdIndexPageRollback| entry@)
}

/// Whether every page that a rollback may store fits its stored form.
pub open spec fn undo_fits(undo: Seq<PageUndo>, page_span: u64) -> bool {
    forall|i: int|
        0 <= i < undo.len() ==> codec::page_fits(
            (#[trigger] undo[i]).key,
            pages::page_or_blank(undo[i].previous, undo[i].key.page_id, page_span),
        )
}

/// The pages after one page write was taken back.
pub open spec fn undo_step(stored_pages: Map<PageKey, Page>, undo: PageUndo, page_span: u64) -> Map<
    PageKey,
    Page,
> {
    match pages::undo_page(undo, stored(stored_pages, undo.key), page_span) {
        Some(page) => stored_pages.insert(undo.key, page),
        None => stored_pages,
    }
}

/// The pages after the writes were taken back, the last one first.
pub open spec fn undo_all(
    stored_pages: Map<PageKey, Page>,
    undo: Seq<PageUndo>,
    page_span: u64,
) -> Map<PageKey, Page>
    decreases undo.len(),
{
    if undo.len() == 0 {
        stored_pages
    } else {
        undo_all(undo_step(stored_pages, undo.last(), page_span), undo.drop_last(), page_span)
    }
}

proof fn lemma_blank_fits(key: PageKey, page: Page, blank: Page)
    requires
        codec::page_fits(key, page),
        blank.cold_chunks.len() == 0,
        blank.external_segments.len() == 0,
    ensures
        codec::page_fits(key, blank),
{
    codec::lemma_body_len(key, page);
    codec::lemma_body_len(key, blank);
}

/// Enters `chunk` into every page that has bytes of it, and returns what takes
/// the writes back.
pub fn write_cold_chunk_index_pages_with_rollback(
    store: &mut InMemoryColdIndexPageStore,
    stream_id: &BucketStreamId,
    chunk: &ColdChunkRef,
    page_span: u64,
) -> (r: Result<Vec<ColdIndexPageRollback>, ColdIndexError>)
    requires
        page_span > 0,
        old(store).wf(),
        forall|key: PageKey| #[trigger]
            touches(key, stream_id@, chunk@, page_span) ==> codec::page_fits(
                key,
                chunk_page(old(store)@, key, chunk@, page_span),
            ),
    ensures
        final(store).wf(),
        r is Ok,
        final(store)@ == pages_with_chunk(old(store)@, stream_id@, chunk@, page_span),
        forall|offset: u64|
            #[trigger] chunk@.holds(offset as int) ==> {
                let key = PageKey {
                    stream: stream_id@,
                    generation: 0,
                    page_id: offset / page_span,
                };
                final(store)@.contains_key(key) && final(store)@[key].cold_chunks.contains(chunk@)
            },
        undo_list(r->Ok_0@) == chunk_undo(old(store)@, stream_id@, chunk@, page_span),
        undo_fits(undo_list(r->Ok_0@), page_span),
{
    let ghost before = store@;
    let ghost stream = stream_id@;
    let ghost span = chunk@;
    proof {
        entry_laws::lemma_chunk_on_its_pages(before, stream, span, page_span);
    }
    let mut rollback: Vec<ColdIndexPageRollback> = Vec::new();
    let (first, last): (u64, u64) = match page_range(
        chunk.start_offset,
        chunk.end_offset,
        page_span,
    ) {
        Some(range) => range,
        None => {
            assert(pages_with_chunk(before, stream, span, page_span) =~= before);
            assert(undo_list(rollback@) =~= chunk_undo(before, stream, span, page_span));
            return Ok(rollback);
        },
    };
    let mut page_id: u64 = first;
    let mut done = false;
    assert(undo_list(rollback@) =~= chunk_undo(before, stream, span, page_span).take(0));
    while !done
        invariant
            page_span > 0,
            store.wf(),
            stream == stream_id@,
            span == chunk@,
            span.start_offset < span.end_offset,
            first == span.start_offset / page_span,
            last == ((span.end_offset - 1) as u64) / page_span,
            first <= page_id <= last,
            forall|key: PageKey| #[trigger]
                touches(key, stream, span, page_span) ==> codec::page_fits(
                    key,
                    chunk_page(before, key, span, page_span),
                ),
            forall|key: PageKey| #[trigger]
                store@.contains_key(key) <==> before.contains_key(key) || (touches(
                    key,
                    stream,
                    span,
                    page_span,
                ) && (key.page_id < page_id || done)),
            forall|key: PageKey| #[trigger]
                store@.contains_key(key) ==> store@[key] == if touches(
                    key,
                    stream,
                    span,
                    page_span,
                ) && (key.page_id < page_id || done) {
                    chunk_page(before, key, span, page_span)
                } else {
                    before[key]
                },
            done ==> page_id == last,
            undo_list(rollback@) == chunk_undo(before, stream, span, page_span).take(
                page_id - first + if done {
                    1int
                } else {
                    0int
                },
            ),
            undo_fits(undo_list(rollback@), page_span),
        decreases last - page_id + if done {
                0int
            } else {
                1int
            },
    {
        let key = ColdIndexPageKey { stream_id: stream_id.clone(), generation: 0, page_id };
        assert(key@ == nth_key(stream, page_id));
        assert(touches(key@, stream, span, page_span));
        let previous = match store.get_page(&key) {
            Ok(page) => page,
            Err(error) => {
                return Err(error);
            },
        };
        assert(pages::optional_page(previous) == stored(before, key@)) by {
            assert(store@.contains_key(key@) <==> before.contains_key(key@));
        }
        let page = add_chunk_to_page(&previous, page_id, page_span, chunk);
        assert(page@ == chunk_page(before, key@, span, page_span));
        let ghost prior = store@;
        match store.put_page(&key, &page) {
            Ok(_) => {},
            Err(error) => {
                return Err(error);
            },
        }
        let entry = ColdIndexPageRollback { key, previous, written_chunk: chunk.clone() };
        let ghost undone = undo_list(rollback@);
        proof {
            match entry@.previous {
                Some(page) => {},
                None => {
                    lemma_blank_fits(entry@.key, page@, pages::blank_page(page_id, page_span));
                },
            }
        }
        rollback.push(entry);
        proof {
            let all = chunk_undo(before, stream, span, page_span);
            assert(undo_list(rollback@) =~= undone.push(entry@));
            assert(all[page_id - first] == entry@);
            assert(all.take(page_id - first + 1) =~= all.take(page_id - first).push(entry@));
            assert(store@ == prior.insert(entry@.key, page@));
        }
        if page_id == last {
            done = true;
        } else {
            page_id = page_id + 1;
        }
    }
    proof {
        let all = chunk_undo(before, stream, span, page_span);
        assert(all.take(last - first + 1) =~= all);
        let after = pages_with_chunk(before, stream, span, page_span);
        assert forall|key: PageKey| #[trigger] store@.contains_key(key) <==> after.contains_key(
            key,
        ) by {}
        assert(store@ =~= after);
    }
    Ok(rollback)
}

/// Enters `chunk` into every page that has bytes of it.
pub fn write_cold_chunk_index_pages(
    store: &mut InMemoryColdIndexPageStore,
    stream_id: &BucketStreamId,
    chunk: &ColdChunkRef,
    page_span: u64,
) -> (r: Result<(), ColdIndexError>)
    requires
        page_span > 0,
        old(store).wf(),
        forall|key: PageKey| #[trigger]
            touches(key, stream_id@, chunk@, page_span) ==> codec::page_fits(
                key,
                chunk_page(old(store)@, key, chunk@, page_span),
            ),
    ensures
        final(store).wf(),
        r is Ok,
        final(store)@ == pages_with_chunk(old(store)@, stream_id@, chunk@, page_span),
        forall|offset: u64|
            #[trigger] chunk@.holds(offset as int) ==> {
                let key = PageKey {
                    stream: stream_id@,
                    generation: 0,
                    page_id: offset / page_span,
                };
                final(store)@.contains_key(key) && final(store)@[key].cold_chunks.contains(chunk@)
            },
{
    match write_cold_chunk_index_pages_with_rollback(store, stream_id, chunk, page_span) {
        Ok(_) => Ok(()),
        Err(error) => Err(error),
    }
}

/// Takes page writes back, the last one first. A page that a newer writer has
/// changed stays as it is.
pub fn rollback_cold_index_pages(
    store: &mut InMemoryColdIndexPageStore,
    rollback: &Vec<ColdIndexPageRollback>,
    page_span: u64,
) -> (r: Result<(), ColdIndexError>)
    requires
        old(store).wf(),
        undo_fits(undo_list(rollback@), page_span),
    ensures
        final(store).wf(),
        r is Ok,
        final(store)@ == undo_all(old(store)@, undo_list(rollback@), page_span),
{
    let ghost before = store@;
    let ghost undo = undo_list(rollback@);
    let mut i: usize = rollback.len();
    assert(undo.take(i as int) =~= undo);
    while i > 0
        invariant
            i <= rollback@.len(),
            store.wf(),
            undo == undo_list(rollback@),
            undo_fits(undo, page_span),
            undo_all(store@, undo.take(i as int), page_span) == undo_all(before, undo, page_span),
        decreases i,
    {
        let entry = &rollback[i - 1];
        assert(undo.take(i as int).last() == undo[i - 1]);
        assert(undo[i - 1] == entry@);
        assert(undo.take(i as int).drop_last() =~= undo.take(i - 1));
        let current = match store.get_page(&entry.key) {
            Ok(page) => page,
            Err(error) => {
                return Err(error);
            },
        };
        match rollback_page(entry, &current, page_span) {
            Some(page) => {
                match store.put_page(&entry.key, &page) {
                    Ok(_) => {},
                    Err(error) => {
                        return Err(error);
                    },
                }
            },
            None => {},
        }
        i = i - 1;
    }
    Ok(())
}

/// Enters an object into every page that has bytes of it.
pub fn write_object_index_pages(
    store: &mut InMemoryColdIndexPageStore,
    stream_id: &BucketStreamId,
    object: &ObjectPayloadRef,
    page_span: u64,
) -> (r: Result<(), ColdIndexError>)
    requires
        page_span > 0,
        old(store).wf(),
        forall|key: PageKey| #[trigger]
            touches(key, stream_id@, object@, page_span) ==> codec::page_fits(
                key,
                segment_page(old(store)@, key, object@, page_span),
            ),
    ensures
        final(store).wf(),
        r is Ok,
        final(store)@ == pages_with_segment(old(store)@, stream_id@, object@, page_span),
        forall|offset: u64|
            #[trigger] object@.holds(offset as int) ==> {
                let key = PageKey {
                    stream: stream_id@,
                    generation: 0,
                    page_id: offset / page_span,
                };
                final(store)@.contains_key(key) && final(store)@[key].external_segments.contains(object@)
            },
{
    let ghost before = store@;
    let ghost stream = stream_id@;
    let ghost span = object@;
    proof {
        entry_laws::lemma_segment_on_its_pages(before, stream, span, page_span);
    }
    let (first, last): (u64, u64) = match page_range(
        object.start_offset,
        object.end_offset,
        page_span,
    ) {
        Some(range) => range,
        None => {
            assert(pages_with_segment(before, stream, span, page_span) =~= before);
            return Ok(());
        },
    };
    let mut page_id: u64 = first;
    let mut done = false;
    while !done
        invariant
            page_span > 0,
            store.wf(),
            stream == stream_id@,
            span == object@,
            span.start_offset < span.end_offset,
            first == span.start_offset / page_span,
            last == ((span.end_offset - 1) as u64) / page_span,
            first <= page_id <= last,
            forall|key: PageKey| #[trigger]
                touches(key, stream, span, page_span) ==> codec::page_fits(
                    key,
                    segment_page(before, key, span, page_span),
                ),
            forall|key: PageKey| #[trigger]
                store@.contains_key(key) <==> before.contains_key(key) || (touches(
                    key,
                    stream,
                    span,
                    page_span,
                ) && (key.page_id < page_id || done)),
            forall|key: PageKey| #[trigger]
                store@.contains_key(key) ==> store@[key] == if touches(
                    key,
                    stream,
                    span,
                    page_span,
                ) && (key.page_id < page_id || done) {
                    segment_page(before, key, span, page_span)
                } else {
                    before[key]
                },
            done ==> page_id == last,
        decreases last - page_id + if done {
                0int
            } else {
                1int
            },
    {
        let key = ColdIndexPageKey { stream_id: stream_id.clone(), generation: 0, page_id };
        assert(key@ == nth_key(stream, page_id));
        assert(touches(key@, stream, span, page_span));
        let previous = match store.get_page(&key) {
            Ok(page) => page,
            Err(error) => {
                return Err(error);
            },
        };
        assert(pages::optional_page(previous) == stored(before, key@)) by {
            assert(store@.contains_key(key@) <==> before.contains_key(key@));
        }
        let page = add_segment_to_page(&previous, page_id, page_span, object);
        assert(page@ == segment_page(before, key@, span, page_span));
        match store.put_page(&key, &page) {
            Ok(_) => {},
            Err(error) => {
                return Err(error);
            },
        }
        if page_id == last {
            done = true;
        } else {
            page_id = page_id + 1;
        }
    }
    proof {
        let after = pages_with_segment(before, stream, span, page_span);
        assert forall|key: PageKey| #[trigger] store@.contains_key(key) <==> after.contains_key(
            key,
        ) by {}
        assert(store@ =~= after);
    }
    Ok(())
}

/// Enters an external payload into every page that has bytes of it.
pub fn write_external_segment_index_pages(
    store: &mut InMemoryColdIndexPageStore,
    stream_id: &BucketStreamId,
    start_offset: u64,
    payload: &ExternalPayloadRef,
    page_span: u64,
) -> (r: Result<(), ColdIndexError>)
    requires
        page_span > 0,
        old(store).wf(),
        forall|key: PageKey| #[trigger]
            touches(key, stream_id@, pages::external_span(start_offset, *payload), page_span)
                ==> codec::page_fits(
                key,
                segment_page(old(store)@, key, pages::external_span(start_offset, *payload), page_span),
            ),
    ensures
        final(store).wf(),
        r is Ok,
        final(store)@ == pages_with_segment(
            old(store)@,
            stream_id@,
            pages::external_span(start_offset, *payload),
            page_span,
        ),
        forall|offset: u64|
            start_offset + payload.payload_len <= u64::MAX && #[trigger] pages::external_span(
                start_offset,
                *payload,
            ).holds(offset as int) ==> {
                let key = PageKey {
                    stream: stream_id@,
                    generation: 0,
                    page_id: offset / page_span,
                };
                let segment = ObjectSpan {
                    start_offset,
                    end_offset: (start_offset + payload.payload_len) as u64,
                    object_size: payload.object_size,
                    s3_path: payload.s3_path@,
                };
                final(store)@.contains_key(key)
                    && final(store)@[key].external_segments.contains(segment)
            },
{
    let object = external_object(start_offset, payload);
    let ghost span = pages::external_span(start_offset, *payload);
    assert(object@ == span);
    proof {
        entry_laws::lemma_segment_on_its_pages(store@, stream_id@, span, page_span);
    }
    assert forall|key: PageKey| #[trigger]
        touches(key, stream_id@, object@, page_span) implies codec::page_fits(
        key,
        segment_page(store@, key, object@, page_span),
    ) by {
        assert(touches(key, stream_id@, span, page_span));
    }
    write_object_index_pages(store, stream_id, &object, page_span)
}

} // verus!
