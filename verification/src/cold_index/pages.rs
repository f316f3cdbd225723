//! How chunks and external segments enter the pages of the cold index, and how
//! a write is taken back.

use vstd::prelude::*;
use crate::cold_index::{ColdIndexPage, ColdIndexPageKey, Page, PageKey};
use crate::refs;
use crate::refs::{ColdChunkRef, ExternalPayloadRef, ObjectPayloadRef, ObjectSpan};

verus! {

// ---------------------------------------------------------------------------
// Entry lists
// ---------------------------------------------------------------------------

/// `span` put behind the last entry that does not start after it.
pub open spec fn insert_by_start(entries: Seq<ObjectSpan>, span: ObjectSpan) -> Seq<ObjectSpan>
    decreases entries.len(),
{
    if entries.len() == 0 || entries.last().start_offset <= span.start_offset {
        entries.push(span)
    } else {
        insert_by_start(entries.drop_last(), span).push(entries.last())
    }
}

/// `entries` by ascending start; entries with one start keep their order.
pub open spec fn stable_by_start(entries: Seq<ObjectSpan>) -> Seq<ObjectSpan>
    decreases entries.len(),
{
    if entries.len() == 0 {
        Seq::empty()
    } else {
        insert_by_start(stable_by_start(entries.drop_last()), entries.last())
    }
}

/// Whether two entries claim different byte ranges.
pub open spec fn other_range(entry: ObjectSpan, span: ObjectSpan) -> bool {
    entry.start_offset != span.start_offset || entry.end_offset != span.end_offset
}

/// `entries` with `span` in place of whatever claimed its byte range.
pub open spec fn with_entry(entries: Seq<ObjectSpan>, span: ObjectSpan) -> Seq<ObjectSpan> {
    stable_by_start(entries.filter(|entry: ObjectSpan| other_range(entry, span)).push(span))
}

/// Whether starts never fall.
pub open spec fn sorted_by_start(entries: Seq<ObjectSpan>) -> bool {
    forall|i: int, j: int|
        0 <= i <= j < entries.len() ==> entries[i].start_offset <= entries[j].start_offset
}

proof fn lemma_insert_sorted(entries: Seq<ObjectSpan>, span: ObjectSpan)
    requires
        sorted_by_start(entries),
    ensures
        sorted_by_start(insert_by_start(entries, span)),
        insert_by_start(entries, span).len() == entries.len() + 1,
        insert_by_start(entries, span).to_multiset() == entries.to_multiset().insert(span),
        forall|i: int|
            0 <= i < entries.len() + 1 ==> (#[trigger] insert_by_start(entries, span)[i])
                .start_offset <= if entries.len() > 0 && entries.last().start_offset
                > span.start_offset {
                entries.last().start_offset
            } else {
                span.start_offset
            },
    decreases entries.len(),
{
    broadcast use vstd::seq_lib::group_to_multiset_ensures;

    if entries.len() == 0 || entries.last().start_offset <= span.start_offset {
    } else {
        let front = entries.drop_last();
        lemma_insert_sorted(front, span);
        assert(front.push(entries.last()) =~= entries);
        assert(entries.to_multiset().insert(span) =~= front.to_multiset().insert(span).insert(
            entries.last(),
        ));
        if front.len() > 0 {
            assert(front.last() == entries[entries.len() - 2]);
        }
    }
}

/// Sorting by start gives ascending starts and the same entries.
pub proof fn law_stable_sort(entries: Seq<ObjectSpan>)
    ensures
        sorted_by_start(stable_by_start(entries)),
        stable_by_start(entries).len() == entries.len(),
        stable_by_start(entries).to_multiset() == entries.to_multiset(),
    decreases entries.len(),
{
    broadcast use vstd::seq_lib::group_to_multiset_ensures;

    if entries.len() > 0 {
        law_stable_sort(entries.drop_last());
        lemma_insert_sorted(stable_by_start(entries.drop_last()), entries.last());
        assert(entries.drop_last().push(entries.last()) =~= entries);
    } else {
        assert(entries =~= Seq::empty());
    }
}

/// The place that `insert_by_start` finds.
proof fn lemma_insert_place(entries: Seq<ObjectSpan>, span: ObjectSpan, place: int)
    requires
        0 <= place <= entries.len(),
        forall|i: int|
            place <= i < entries.len() ==> (#[trigger] entries[i]).start_offset
                > span.start_offset,
        place > 0 ==> entries[place - 1].start_offset <= span.start_offset,
    ensures
        insert_by_start(entries, span) == entries.insert(place, span),
    decreases entries.len(),
{
    if place == entries.len() {
        assert(entries.insert(place, span) =~= entries.push(span));
    } else {
        let front = entries.drop_last();
        assert(entries.last() == entries[entries.len() - 1]);
        assert forall|i: int| place <= i < front.len() implies (#[trigger] front[i]).start_offset
            > span.start_offset by {
            assert(front[i] == entries[i]);
        }
        lemma_insert_place(front, span, place);
        assert(entries.insert(place, span) =~= front.insert(place, span).push(entries.last()));
    }
}

/// An entry of a page.
pub trait PageEntry: Sized {
    spec fn span(&self) -> ObjectSpan;

    fn start(&self) -> (r: u64)
        ensures
            r == self.span().start_offset,
    ;

    fn end(&self) -> (r: u64)
        ensures
            r == self.span().end_offset,
    ;

    fn copy(&self) -> (r: Self)
        ensures
            r.span() == self.span(),
    ;
}

impl PageEntry for ColdChunkRef {
    open spec fn span(&self) -> ObjectSpan {
        self@
    }

    fn start(&self) -> u64 {
        self.start_offset
    }

    fn end(&self) -> u64 {
        self.end_offset
    }

    fn copy(&self) -> Self {
        self.clone()
    }
}

impl PageEntry for ObjectPayloadRef {
    open spec fn span(&self) -> ObjectSpan {
        self@
    }

    fn start(&self) -> u64 {
        self.start_offset
    }

    fn end(&self) -> u64 {
        self.end_offset
    }

    fn copy(&self) -> Self {
        self.clone()
    }
}

/// The spans of a list of entries.
pub open spec fn spans<T: PageEntry>(entries: Seq<T>) -> Seq<ObjectSpan> {
    entries.map_values(|entry: T| entry.span())
}

fn insert_entry<T: PageEntry>(entries: &mut Vec<T>, entry: T)
    ensures
        spans(final(entries)@) == insert_by_start(spans(old(entries)@), entry.span()),
{
    let mut place: usize = entries.len();
    let start: u64 = entry.start();
    let ghost before = entries@;
    let ghost list = spans(entries@);
    let ghost span = entry.span();
    while place > 0 && entries[place - 1].start() > start
        invariant
            place <= entries@.len(),
            entries@ == before,
            list == spans(before),
            start == span.start_offset,
            forall|i: int|
                place <= i < list.len() ==> (#[trigger] list[i]).start_offset > span.start_offset,
        decreases place,
    {
        place = place - 1;
    }
    proof {
        if place > 0 {
            assert(list[place - 1] == before[place - 1].span());
        }
        lemma_insert_place(list, span, place as int);
    }
    entries.insert(place, entry);
    assert(spans(entries@) =~= list.insert(place as int, span));
}

/// `entries` by ascending start, keeping the order of equal starts.
pub fn sort_entries<T: PageEntry>(entries: &Vec<T>) -> (r: Vec<T>)
    ensures
        spans(r@) == stable_by_start(spans(entries@)),
{
    let mut sorted: Vec<T> = Vec::new();
    let mut i: usize = 0;
    let ghost list = spans(entries@);
    assert(list.take(0) =~= Seq::empty());
    assert(spans(sorted@) =~= Seq::empty());
    while i < entries.len()
        invariant
            i <= entries@.len(),
            list == spans(entries@),
            spans(sorted@) == stable_by_start(list.take(i as int)),
        decreases entries@.len() - i,
    {
        insert_entry(&mut sorted, entries[i].copy());
        i = i + 1;
        assert(list.take(i as int).drop_last() =~= list.take(i - 1));
        assert(list.take(i as int).last() == list[i - 1]);
    }
    assert(list.take(i as int) =~= list);
    sorted
}

fn replace_entry<T: PageEntry>(entries: &Vec<T>, entry: &T) -> (r: Vec<T>)
    ensures
        spans(r@) == with_entry(spans(entries@), entry.span()),
{
    let mut kept: Vec<T> = Vec::new();
    let mut i: usize = 0;
    let ghost list = spans(entries@);
    let ghost span = entry.span();
    let ghost keep = |other: ObjectSpan| other_range(other, span);
    proof {
        reveal(Seq::filter);
        assert(list.take(0) =~= Seq::empty());
        assert(spans(kept@) =~= Seq::<ObjectSpan>::empty().filter(keep));
    }
    while i < entries.len()
        invariant
            i <= entries@.len(),
            list == spans(entries@),
            span == entry.span(),
            keep == (|other: ObjectSpan| other_range(other, span)),
            spans(kept@) == list.take(i as int).filter(keep),
        decreases entries@.len() - i,
    {
        let ghost before = kept@;
        let existing = &entries[i];
        if existing.start() != entry.start() || existing.end() != entry.end() {
            kept.push(existing.copy());
            assert(spans(kept@) =~= spans(before).push(existing.span()));
        }
        i = i + 1;
        proof {
            reveal(Seq::filter);
            assert(list.take(i as int).drop_last() =~= list.take(i - 1));
            assert(list.take(i as int).last() == list[i - 1]);
            assert(list[i - 1] == existing.span());
        }
    }
    let ghost before = kept@;
    kept.push(entry.copy());
    proof {
        assert(list.take(i as int) =~= list);
        assert(spans(kept@) =~= spans(before).push(span));
    }
    sort_entries(&kept)
}

/// Filtering keeps exactly the entries that pass.
pub proof fn lemma_filter_contains(
    entries: Seq<ObjectSpan>,
    keep: spec_fn(ObjectSpan) -> bool,
    entry: ObjectSpan,
)
    ensures
        entries.filter(keep).contains(entry) <==> entries.contains(entry) && keep(entry),
    decreases entries.len(),
{
    reveal(Seq::filter);
    if entries.len() > 0 {
        let front = entries.drop_last();
        lemma_filter_contains(front, keep, entry);
        lemma_push_contains(front, entries.last(), entry);
        assert(front.push(entries.last()) =~= entries);
        lemma_push_contains(front.filter(keep), entries.last(), entry);
    }
}

pub proof fn lemma_push_contains(entries: Seq<ObjectSpan>, last: ObjectSpan, entry: ObjectSpan)
    ensures
        entries.push(last).contains(entry) <==> entries.contains(entry) || entry == last,
{
    let all = entries.push(last);
    assert(all[entries.len() as int] == last);
    if entries.contains(entry) {
        let at = choose|i: int| 0 <= i < entries.len() && entries[i] == entry;
        assert(all[at] == entry);
    }
    if all.contains(entry) && entry != last {
        let at = choose|i: int| 0 <= i < all.len() && all[i] == entry;
        assert(entries[at] == entry);
    }
}

/// The new entry is listed, nothing else claims its range, every other entry
/// stays, and the list is sorted.
pub proof fn law_with_entry(entries: Seq<ObjectSpan>, span: ObjectSpan)
    ensures
        sorted_by_start(with_entry(entries, span)),
        forall|entry: ObjectSpan|
            #![trigger with_entry(entries, span).contains(entry)]
            with_entry(entries, span).contains(entry) <==> entry == span || (entries.contains(entry)
                && other_range(entry, span)),
{
    let keep = |entry: ObjectSpan| other_range(entry, span);
    let kept = entries.filter(keep);
    let all = kept.push(span);
    let list = with_entry(entries, span);
    law_stable_sort(all);
    all.to_multiset_ensures();
    list.to_multiset_ensures();
    assert forall|entry: ObjectSpan| #![trigger list.contains(entry)] list.contains(entry) <==> (
    entry == span || (entries.contains(entry) && other_range(entry, span))) by {
        lemma_filter_contains(entries, keep, entry);
        lemma_push_contains(kept, span, entry);
        assert(list.contains(entry) <==> list.to_multiset().count(entry) > 0);
        assert(all.contains(entry) <==> all.to_multiset().count(entry) > 0);
    }
}


// ---------------------------------------------------------------------------
// Pages
// ---------------------------------------------------------------------------

pub open spec fn clamp_u64(value: int) -> u64 {
    if value > u64::MAX {
        u64::MAX
    } else {
        value as u64
    }
}

/// An index page without entries.
pub open spec fn blank_page(page_id: u64, page_span: u64) -> Page {
    let start = clamp_u64(page_id * page_span);
    Page {
        start_offset: start,
        end_offset: clamp_u64(start + page_span),
        cold_chunks: Seq::empty(),
        external_segments: Seq::empty(),
    }
}

/// The page that is there, or a blank one.
pub open spec fn page_or_blank(page: Option<Page>, page_id: u64, page_span: u64) -> Page {
    match page {
        Some(page) => page,
        None => blank_page(page_id, page_span),
    }
}

/// `page` with a cold chunk.
pub open spec fn page_with_chunk(page: Page, chunk: ObjectSpan) -> Page {
    Page { cold_chunks: with_entry(page.cold_chunks, chunk), ..page }
}

/// `page` with an external segment.
pub open spec fn page_with_segment(page: Page, segment: ObjectSpan) -> Page {
    Page { external_segments: with_entry(page.external_segments, segment), ..page }
}

/// Whether the page `page_id` has bytes of `span`.
pub open spec fn page_has_bytes_of(page_id: u64, span: ObjectSpan, page_span: u64) -> bool {
    &&& span.start_offset < span.end_offset
    &&& span.start_offset / page_span <= page_id
    &&& page_id <= ((span.end_offset - 1) as u64) / page_span
}

/// A page without entries.
pub fn new_page(page_id: u64, page_span: u64) -> (r: ColdIndexPage)
    ensures
        r@ == blank_page(page_id, page_span),
{
    let start_offset: u64 = match page_id.checked_mul(page_span) {
        Some(start) => start,
        None => u64::MAX,
    };
    let end_offset: u64 = start_offset.saturating_add(page_span);
    let r = ColdIndexPage {
        start_offset,
        end_offset,
        cold_chunks: Vec::new(),
        external_segments: Vec::new(),
    };
    assert(r@ =~= blank_page(page_id, page_span));
    r
}

/// What `page` says.
pub open spec fn optional_page(page: Option<ColdIndexPage>) -> Option<Page> {
    match page {
        Some(page) => Some(page@),
        None => None,
    }
}

/// The page to store when `chunk` enters the page `page_id`.
pub fn add_chunk_to_page(
    previous: &Option<ColdIndexPage>,
    page_id: u64,
    page_span: u64,
    chunk: &ColdChunkRef,
) -> (r: ColdIndexPage)
    ensures
        r@ == page_with_chunk(
            page_or_blank(optional_page(*previous), page_id, page_span),
            chunk@,
        ),
{
    let mut page = match previous {
        Some(page) => page.clone(),
        None => new_page(page_id, page_span),
    };
    let ghost before = page@;
    assert(spans(page.cold_chunks@) =~= before.cold_chunks);
    page.cold_chunks = replace_entry(&page.cold_chunks, chunk);
    assert(spans(page.cold_chunks@) =~= refs::chunk_spans(page.cold_chunks@));
    assert(page@ =~= page_with_chunk(before, chunk@));
    page
}

/// The page to store when `object` enters the page `page_id`.
pub fn add_segment_to_page(
    previous: &Option<ColdIndexPage>,
    page_id: u64,
    page_span: u64,
    object: &ObjectPayloadRef,
) -> (r: ColdIndexPage)
    ensures
        r@ == page_with_segment(
            page_or_blank(optional_page(*previous), page_id, page_span),
            object@,
        ),
{
    let mut page = match previous {
        Some(page) => page.clone(),
        None => new_page(page_id, page_span),
    };
    let ghost before = page@;
    assert(spans(page.external_segments@) =~= before.external_segments);
    page.external_segments = replace_entry(&page.external_segments, object);
    assert(spans(page.external_segments@) =~= refs::object_spans(page.external_segments@));
    assert(page@ =~= page_with_segment(before, object@));
    page
}

/// The pages from first to last that have bytes of a non-empty range.
pub fn page_range(start_offset: u64, end_offset: u64, page_span: u64) -> (r: Option<(u64, u64)>)
    requires
        page_span > 0,
    ensures
        r == if end_offset <= start_offset {
            None::<(u64, u64)>
        } else {
            Some((start_offset / page_span, ((end_offset - 1) as u64) / page_span))
        },
        r matches Some((first, last)) ==> first <= last,
{
    if end_offset <= start_offset {
        return None;
    }
    proof {
        vstd::arithmetic::div_mod::lemma_div_is_ordered(
            start_offset as int,
            end_offset - 1,
            page_span as int,
        );
    }
    Some((start_offset / page_span, (end_offset - 1) / page_span))
}

/// The span of an external payload that is appended at `start_offset`.
pub open spec fn external_span(start_offset: u64, payload: ExternalPayloadRef) -> ObjectSpan {
    ObjectSpan {
        start_offset,
        end_offset: clamp_u64(start_offset + payload.payload_len),
        object_size: payload.object_size,
        s3_path: payload.s3_path@,
    }
}

/// The object that an external payload becomes when it is appended at
/// `start_offset`.
pub fn external_object(start_offset: u64, payload: &ExternalPayloadRef) -> (r: ObjectPayloadRef)
    ensures
        r@ == external_span(start_offset, *payload),
{
    ObjectPayloadRef {
        start_offset,
        end_offset: start_offset.saturating_add(payload.payload_len),
        s3_path: payload.s3_path.clone(),
        object_size: payload.object_size,
    }
}

/// What is needed to take one page write back.
#[derive(Debug)]
pub struct ColdIndexPageRollback {
    pub key: ColdIndexPageKey,
    pub previous: Option<ColdIndexPage>,
    pub written_chunk: ColdChunkRef,
}

/// What a rollback entry says.
pub struct PageUndo {
    pub key: PageKey,
    pub previous: Option<Page>,
    pub written_chunk: ObjectSpan,
}

impl View for ColdIndexPageRollback {
    type V = PageUndo;

    open spec fn view(&self) -> PageUndo {
        PageUndo {
            key: self.key@,
            previous: optional_page(self.previous),
            written_chunk: self.written_chunk@,
        }
    }
}

/// Whether a page still lists the chunk, at its range and under its path.
pub open spec fn still_lists(page: Page, chunk: ObjectSpan) -> bool {
    exists|i: int|
        0 <= i < page.cold_chunks.len() && !other_range(#[trigger] page.cold_chunks[i], chunk)
            && page.cold_chunks[i].s3_path == chunk.s3_path
}

/// The page to store so that the write is taken back: none where the page is
/// gone or a newer writer has replaced the chunk.
pub open spec fn undo_page(undo: PageUndo, current: Option<Page>, page_span: u64) -> Option<
    Page,
> {
    match current {
        None => None,
        Some(page) => if still_lists(page, undo.written_chunk) {
            Some(page_or_blank(undo.previous, undo.key.page_id, page_span))
        } else {
            None
        },
    }
}

/// The page to store so that one page write is taken back, if any.
pub fn rollback_page(
    entry: &ColdIndexPageRollback,
    current: &Option<ColdIndexPage>,
    page_span: u64,
) -> (r: Option<ColdIndexPage>)
    ensures
        optional_page(r) == undo_page(entry@, optional_page(*current), page_span),
{
    let current = match current {
        Some(page) => page,
        None => {
            return None;
        },
    };
    let written = &entry.written_chunk;
    let mut found = false;
    let mut i: usize = 0;
    while i < current.cold_chunks.len()
        invariant
            i <= current.cold_chunks@.len(),
            written@ == entry@.written_chunk,
            found ==> still_lists(current@, written@),
            !found ==> forall|j: int|
                0 <= j < i ==> other_range(#[trigger] current@.cold_chunks[j], written@)
                    || current@.cold_chunks[j].s3_path != written@.s3_path,
        decreases current.cold_chunks@.len() - i,
    {
        let chunk = &current.cold_chunks[i];
        assert(current@.cold_chunks[i as int] == chunk@);
        if chunk.start_offset == written.start_offset && chunk.end_offset == written.end_offset
            && chunk.s3_path == written.s3_path {
            found = true;
        }
        i = i + 1;
    }
    if !found {
        return None;
    }
    match &entry.previous {
        Some(page) => Some(page.clone()),
        None => Some(new_page(entry.key.page_id, page_span)),
    }
}

} // verus!
