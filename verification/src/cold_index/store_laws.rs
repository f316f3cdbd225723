//! Laws of index writes and of taking them back.

use vstd::prelude::*;
use crate::cold_index::pages;
use crate::cold_index::pages::PageUndo;
use crate::cold_index::store;
use crate::cold_index::{Page, PageKey};
use crate::ids::StreamName;
use crate::refs::ObjectSpan;

verus! {

/// The pages as they were, with a blank page where a touched page was missing.
pub open spec fn pages_or_blanks(
    stored_pages: Map<PageKey, Page>,
    stream: StreamName,
    chunk: ObjectSpan,
    page_span: u64,
) -> Map<PageKey, Page> {
    Map::new(
        |key: PageKey|
            stored_pages.contains_key(key) || store::touches(key, stream, chunk, page_span),
        |key: PageKey|
            if store::touches(key, stream, chunk, page_span) {
                pages::page_or_blank(store::stored(stored_pages, key), key.page_id, page_span)
            } else {
                stored_pages[key]
            },
    )
}

/// A page into which a chunk was entered lists the chunk.
proof fn lemma_entered_chunk_is_listed(page: Page, chunk: ObjectSpan)
    ensures
        pages::still_lists(pages::page_with_chunk(page, chunk), chunk),
{
    pages::law_with_entry(page.cold_chunks, chunk);
    let list = pages::with_entry(page.cold_chunks, chunk);
    assert(list.contains(chunk));
    let at = choose|i: int| 0 <= i < list.len() && list[i] == chunk;
    assert(pages::page_with_chunk(page, chunk).cold_chunks[at] == chunk);
}

/// Once another chunk took over the range under another path, a page no longer
/// lists the first chunk.
proof fn lemma_replaced_chunk_is_not_listed(page: Page, chunk: ObjectSpan, newer: ObjectSpan)
    requires
        !pages::other_range(newer, chunk),
        newer.s3_path != chunk.s3_path,
    ensures
        !pages::still_lists(pages::page_with_chunk(page, newer), chunk),
{
    pages::law_with_entry(page.cold_chunks, newer);
    let list = pages::with_entry(page.cold_chunks, newer);
    let after = pages::page_with_chunk(page, newer);
    if pages::still_lists(after, chunk) {
        let at = choose|i: int|
            0 <= i < after.cold_chunks.len() && !pages::other_range(
                #[trigger] after.cold_chunks[i],
                chunk,
            ) && after.cold_chunks[i].s3_path == chunk.s3_path;
        assert(list.contains(list[at]));
        assert(list[at] == newer || pages::other_range(list[at], newer));
    }
}

proof fn lemma_undo_keys(
    stored_pages: Map<PageKey, Page>,
    stream: StreamName,
    chunk: ObjectSpan,
    page_span: u64,
    i: int,
)
    requires
        page_span > 0,
        0 <= i < store::touched_count(chunk, page_span),
    ensures
        ({
            let undo = store::chunk_undo(stored_pages, stream, chunk, page_span)[i];
            &&& store::touches(undo.key, stream, chunk, page_span)
            &&& undo.key.page_id == chunk.start_offset / page_span + i
            &&& undo.previous == store::stored(stored_pages, undo.key)
            &&& undo.written_chunk == chunk
        }),
{
    let first = chunk.start_offset / page_span;
    let last = ((chunk.end_offset - 1) as u64) / page_span;
    vstd::arithmetic::div_mod::lemma_div_is_ordered(
        chunk.start_offset as int,
        chunk.end_offset - 1,
        page_span as int,
    );
    assert(first + i <= last);
}

proof fn lemma_undo_prefix(
    stored_pages: Map<PageKey, Page>,
    current: Map<PageKey, Page>,
    stream: StreamName,
    chunk: ObjectSpan,
    page_span: u64,
    count: int,
)
    requires
        page_span > 0,
        0 <= count <= store::touched_count(chunk, page_span),
        forall|key: PageKey| #[trigger]
            current.contains_key(key) <==> stored_pages.contains_key(key) || store::touches(
                key,
                stream,
                chunk,
                page_span,
            ),
        forall|key: PageKey| #[trigger]
            current.contains_key(key) ==> current[key] == if !store::touches(
                key,
                stream,
                chunk,
                page_span,
            ) {
                stored_pages[key]
            } else if key.page_id < chunk.start_offset / page_span + count {
                store::chunk_page(stored_pages, key, chunk, page_span)
            } else {
                pages::page_or_blank(store::stored(stored_pages, key), key.page_id, page_span)
            },
    ensures
        store::undo_all(
            current,
            store::chunk_undo(stored_pages, stream, chunk, page_span).take(count),
            page_span,
        ) == pages_or_blanks(stored_pages, stream, chunk, page_span),
    decreases count,
{
    let all = store::chunk_undo(stored_pages, stream, chunk, page_span);
    let first = chunk.start_offset / page_span;
    if count == 0 {
        assert forall|key: PageKey| #[trigger] current.contains_key(key) implies current[key]
            == pages_or_blanks(stored_pages, stream, chunk, page_span)[key] by {}
        assert(current =~= pages_or_blanks(stored_pages, stream, chunk, page_span));
    } else {
        let part = all.take(count);
        let undo = all[count - 1];
        lemma_undo_keys(stored_pages, stream, chunk, page_span, count - 1);
        assert(part.last() == undo);
        assert(part.drop_last() =~= all.take(count - 1));
        let key = undo.key;
        assert(current.contains_key(key));
        let before = pages::page_or_blank(
            store::stored(stored_pages, key),
            key.page_id,
            page_span,
        );
        lemma_entered_chunk_is_listed(before, chunk);
        let next = store::undo_step(current, undo, page_span);
        assert(next == current.insert(key, before));
        assert forall|other: PageKey| #[trigger] next.contains_key(other) implies next[other]
            == if !store::touches(other, stream, chunk, page_span) {
            stored_pages[other]
        } else if other.page_id < first + (count - 1) {
            store::chunk_page(stored_pages, other, chunk, page_span)
        } else {
            pages::page_or_blank(store::stored(stored_pages, other), other.page_id, page_span)
        } by {
            if other != key {
                assert(current.contains_key(other));
                if store::touches(other, stream, chunk, page_span) {
                    assert(other.page_id != key.page_id);
                }
            }
        }
        lemma_undo_prefix(stored_pages, next, stream, chunk, page_span, count - 1);
    }
}

/// Taking a write back right after it leaves every page as it was before; a
/// page that the write created stays as a blank page.
pub proof fn law_rollback_restores_pages(
    stored_pages: Map<PageKey, Page>,
    stream: StreamName,
    chunk: ObjectSpan,
    page_span: u64,
)
    requires
        page_span > 0,
    ensures
        store::undo_all(
            store::pages_with_chunk(stored_pages, stream, chunk, page_span),
            store::chunk_undo(stored_pages, stream, chunk, page_span),
            page_span,
        ) == pages_or_blanks(stored_pages, stream, chunk, page_span),
{
    let count = store::touched_count(chunk, page_span) as int;
    let all = store::chunk_undo(stored_pages, stream, chunk, page_span);
    assert(all.take(count) =~= all);
    let current = store::pages_with_chunk(stored_pages, stream, chunk, page_span);
    assert forall|key: PageKey| #[trigger] current.contains_key(key) implies current[key]
        == if !store::touches(key, stream, chunk, page_span) {
        stored_pages[key]
    } else if key.page_id < chunk.start_offset / page_span + count {
        store::chunk_page(stored_pages, key, chunk, page_span)
    } else {
        pages::page_or_blank(store::stored(stored_pages, key), key.page_id, page_span)
    } by {}
    lemma_undo_prefix(stored_pages, current, stream, chunk, page_span, count);
}

proof fn lemma_nothing_undone(
    current: Map<PageKey, Page>,
    undo: Seq<PageUndo>,
    page_span: u64,
)
    requires
        forall|i: int|
            0 <= i < undo.len() ==> !(current.contains_key((#[trigger] undo[i]).key)
                && pages::still_lists(current[undo[i].key], undo[i].written_chunk)),
    ensures
        store::undo_all(current, undo, page_span) == current,
    decreases undo.len(),
{
    if undo.len() > 0 {
        assert(undo.last() == undo[undo.len() - 1]);
        assert forall|i: int| 0 <= i < undo.drop_last().len() implies !(current.contains_key(
            (#[trigger] undo.drop_last()[i]).key,
        ) && pages::still_lists(
            current[undo.drop_last()[i].key],
            undo.drop_last()[i].written_chunk,
        )) by {
            assert(undo.drop_last()[i] == undo[i]);
        }
        lemma_nothing_undone(current, undo.drop_last(), page_span);
    }
}

/// Taking a write back leaves alone every page that a newer writer of the same
/// range has updated in between.
pub proof fn law_rollback_keeps_newer_writes(
    stored_pages: Map<PageKey, Page>,
    stream: StreamName,
    stale: ObjectSpan,
    newer: ObjectSpan,
    page_span: u64,
)
    requires
        page_span > 0,
        !pages::other_range(newer, stale),
        newer.s3_path != stale.s3_path,
    ensures
        ({
            let written = store::pages_with_chunk(stored_pages, stream, stale, page_span);
            let updated = store::pages_with_chunk(written, stream, newer, page_span);
            store::undo_all(
                updated,
                store::chunk_undo(stored_pages, stream, stale, page_span),
                page_span,
            ) == updated
        }),
{
    let written = store::pages_with_chunk(stored_pages, stream, stale, page_span);
    let updated = store::pages_with_chunk(written, stream, newer, page_span);
    let undo = store::chunk_undo(stored_pages, stream, stale, page_span);
    assert forall|i: int| 0 <= i < undo.len() implies !(updated.contains_key(
        (#[trigger] undo[i]).key,
    ) && pages::still_lists(updated[undo[i].key], undo[i].written_chunk)) by {
        lemma_undo_keys(stored_pages, stream, stale, page_span, i);
        let key = undo[i].key;
        assert(store::touches(key, stream, newer, page_span));
        lemma_replaced_chunk_is_not_listed(
            pages::page_or_blank(store::stored(written, key), key.page_id, page_span),
            stale,
            newer,
        );
    }
    lemma_nothing_undone(updated, undo, page_span);
}

} // verus!
