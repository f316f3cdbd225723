//! A cache of index pages that forgets the least recently used page first, and
//! the reads that go through it.

use std::collections::VecDeque;
use vstd::prelude::*;
use crate::cold_index::codec;
use crate::cold_index::codec::ColdIndexError;
use crate::cold_index::pages;
use crate::cold_index::pages::sort_entries;
use crate::cold_index::store;
use crate::cold_index::store::InMemoryColdIndexPageStore;
use crate::cold_index::{ColdIndexPage, ColdIndexPageKey, Page, PageKey};
use crate::ids::BucketStreamId;
use crate::recency;
use crate::recency::{take_oldest, Stamped};
use crate::refs;
use crate::refs::{ObjectPayloadRef, ObjectSpan, StreamReadColdIndexSegment};
use crate::table::Table;

verus! {

/// A cached page and when it was last used.
#[derive(Debug)]
pub struct CachedPage {
    page: ColdIndexPage,
    last_use: u64,
}

impl Stamped for CachedPage {
    closed spec fn stamp(&self) -> u64 {
        self.last_use
    }

    fn last_use(&self) -> u64 {
        self.last_use
    }
}

/// A bounded set of index pages.
#[derive(Debug)]
pub struct PageCache {
    capacity_pages: usize,
    next_use: u64,
    pages: Table<ColdIndexPageKey, CachedPage>,
    uses: VecDeque<(ColdIndexPageKey, u64)>,
}

/// The stamp after `stamp`; the last stamp is its own successor.
pub open spec fn next_stamp(stamp: u64) -> u64 {
    if stamp == u64::MAX {
        u64::MAX
    } else {
        (stamp + 1) as u64
    }
}

/// What one use of a cached page does to a cache.
pub open spec fn used(before: &PageCache, key: PageKey, after: &PageCache) -> bool {
    &&& after.capacity() == before.capacity()
    &&& after@ == before@
    &&& after.next_use() == next_stamp(before.next_use())
    &&& after.last_uses() == before.last_uses().insert(key, before.next_use())
    &&& after.records() == before.records().push((key, before.next_use()))
}

/// What caching a page does to a cache: the page is there, and where that is
/// one page too many, the page with the oldest last use is not. A cache without
/// room keeps nothing.
pub open spec fn inserted(
    before: &PageCache,
    key: PageKey,
    page: Page,
    after: &PageCache,
) -> bool {
    let all = before@.insert(key, page);
    let uses = before.last_uses().insert(key, before.next_use());
    let records = before.records().push((key, before.next_use()));
    let first = recency::oldest(records, uses);
    &&& after.capacity() == before.capacity()
    &&& after.next_use() == next_stamp(before.next_use())
    &&& if before.capacity() == 0 {
        &&& after@ == Map::<PageKey, Page>::empty()
        &&& after.last_uses() == Map::<PageKey, u64>::empty()
        &&& after.records() == Seq::<(PageKey, u64)>::empty()
    } else if all.dom().len() <= before.capacity() {
        &&& after@ == all
        &&& after.last_uses() == uses
        &&& after.records() == records
    } else {
        &&& after@ == all.remove(records[first].0)
        &&& after.last_uses() == uses.remove(records[first].0)
        &&& after.records() == records.skip(first + 1)
    }
}

impl PageCache {
    /// How many pages the cache may keep.
    pub closed spec fn capacity(&self) -> nat {
        self.capacity_pages as nat
    }

    /// The stamp of the next use.
    pub closed spec fn next_use(&self) -> u64 {
        self.next_use
    }

    /// The cached pages.
    pub closed spec fn view(&self) -> Map<PageKey, Page> {
        self.pages@.map_values(|cached: CachedPage| cached.page@)
    }

    /// When each cached page was last used.
    pub closed spec fn last_uses(&self) -> Map<PageKey, u64> {
        recency::stamps_of::<ColdIndexPageKey, CachedPage>(self.pages@)
    }

    /// The recorded uses, the earliest first.
    pub closed spec fn records(&self) -> Seq<(PageKey, u64)> {
        recency::record_names(self.uses@)
    }

    /// No more pages than the capacity, and every last use is recorded.
    pub closed spec fn wf(&self) -> bool {
        &&& self.pages.wf()
        &&& self.pages.entries().len() <= self.capacity_pages
        &&& recency::all_recorded(self.records(), self.last_uses())
    }

    /// Whether uses still carry ascending stamps.
    pub open spec fn in_order(&self) -> bool {
        recency::in_order(self.records(), self.next_use() - 1)
    }

    pub fn new(capacity_pages: usize) -> (r: Self)
        ensures
            r.wf(),
            r.in_order(),
            r.capacity() == capacity_pages,
            r.next_use() == 0,
            r@ == Map::<PageKey, Page>::empty(),
            r.last_uses() == Map::<PageKey, u64>::empty(),
            r.records() == Seq::<(PageKey, u64)>::empty(),
    {
        let r = PageCache {
            capacity_pages,
            next_use: 0,
            pages: Table::new(),
            uses: VecDeque::new(),
        };
        assert(r@ =~= Map::<PageKey, Page>::empty());
        assert(r.last_uses() =~= Map::<PageKey, u64>::empty());
        assert(r.records() =~= Seq::<(PageKey, u64)>::empty());
        r
    }

    /// How many pages are cached.
    pub fn cached_page_count(&self) -> (r: usize)
        requires
            self.wf(),
        ensures
            self@.dom().finite(),
            r == self@.dom().len(),
            r <= self.capacity(),
    {
        let r = self.pages.len();
        assert(self@.dom() =~= self.pages@.dom());
        r
    }

    /// The page under `key` if it is cached; finding it is a use.
    pub fn get_cached(&mut self, key: &ColdIndexPageKey) -> (r: Option<ColdIndexPage>)
        requires
            old(self).wf(),
        ensures
            final(self).wf(),
            pages::optional_page(r) == store::stored(old(self)@, key@),
            if old(self)@.contains_key(key@) {
                used(old(self), key@, final(self))
            } else {
                *final(self) == *old(self)
            },
            old(self).in_order() && old(self).next_use() < u64::MAX ==> final(self).in_order(),
    {
        let page = match self.pages.get(key) {
            Some(cached) => cached.page.clone(),
            None => {
                return None;
            },
        };
        let ghost before = *self;
        let stamp: u64 = self.next_use;
        self.next_use = self.next_use.saturating_add(1);
        self.pages.insert(key.clone(), CachedPage { page: page.clone(), last_use: stamp });
        self.uses.push_back((key.clone(), stamp));
        proof {
            assert(self@ =~= before@);
            assert(self.last_uses() =~= before.last_uses().insert(key@, stamp));
            assert(self.records() =~= before.records().push((key@, stamp)));
            recency::lemma_recorded_push(before.records(), before.last_uses(), key@, stamp);
        }
        Some(page)
    }

    /// Caches `page` under `key`, which is a use. Where that is one page too
    /// many, the page with the oldest last use leaves; a cache without room
    /// keeps nothing.
    pub fn insert(&mut self, key: &ColdIndexPageKey, page: ColdIndexPage)
        requires
            old(self).wf(),
        ensures
            final(self).wf(),
            inserted(old(self), key@, page@, final(self)),
            old(self).in_order() && old(self).next_use() < u64::MAX ==> final(self).in_order(),
            forall|other: PageKey| #[trigger]
                final(self)@.contains_key(other) ==> if other == key@ {
                    final(self)@[other] == page@
                } else {
                    old(self)@.contains_key(other) && final(self)@[other] == old(self)@[other]
                },
            0 < old(self).capacity() && old(self)@.insert(key@, page@).dom().len() <= old(
                self
            ).capacity() ==> final(self)@ == old(self)@.insert(key@, page@),
            final(self)@.dom().len() <= old(self).capacity(),
            old(self).capacity() > 0 ==> final(self)@.dom().len() + 1 >= old(self)@.insert(
                key@,
                page@,
            ).dom().len(),
            old(self).in_order() && old(self).next_use() < u64::MAX && old(self).capacity() > 0
                ==> final(self)@.contains_key(key@),
    {
        let ghost before = *self;
        let ghost all = before@.insert(key@, page@);
        let stamp: u64 = self.next_use;
        let ghost uses = before.last_uses().insert(key@, stamp);
        let ghost records = before.records().push((key@, stamp));
        self.next_use = self.next_use.saturating_add(1);
        self.uses.push_back((key.clone(), stamp));
        self.pages.insert(key.clone(), CachedPage { page, last_use: stamp });
        proof {
            assert(self@ =~= all);
            assert(self.last_uses() =~= uses);
            assert(self.records() =~= records);
            recency::lemma_recorded_push(before.records(), before.last_uses(), key@, stamp);
        }
        if self.capacity_pages == 0 {
            self.pages.clear();
            self.uses = VecDeque::new();
            proof {
                assert(self@ =~= Map::<PageKey, Page>::empty());
                assert(self.last_uses() =~= Map::<PageKey, u64>::empty());
                assert(self.records() =~= Seq::<(PageKey, u64)>::empty());
            }
            return;
        }
        let count = self.pages.len();
        assert(self@.dom() =~= self.pages@.dom());
        if count > self.capacity_pages {
            proof {
                recency::lemma_oldest(records, uses);
                recency::lemma_oldest_exists(records, uses, key@);
                recency::lemma_oldest_dropped(records, uses);
                if before.in_order() && stamp < u64::MAX {
                    assert(before@.dom() =~= before.pages@.dom());
                    if before@.contains_key(key@) {
                        assert(all.dom() =~= before@.dom());
                    } else {
                        assert(before@.dom() =~= all.dom().remove(key@));
                        assert(before@.dom().len() > 0);
                        law_evicted_page_is_least_recently_used(
                            &before,
                            key@,
                            before@.dom().choose(),
                        );
                    }
                    recency::lemma_in_order_push(before.records(), stamp - 1, key@, stamp);
                    recency::lemma_in_order_skip(
                        records,
                        stamp as int,
                        recency::oldest(records, uses) + 1,
                    );
                }
            }
            match take_oldest(&mut self.uses, &self.pages) {
                Some(victim) => {
                    self.pages.remove(&victim);
                    proof {
                        assert(self@ =~= all.remove(victim@));
                        assert(self.last_uses() =~= uses.remove(victim@));
                    }
                },
                None => {},
            }
        }
    }
}


/// The page that leaves a full cache was used before every other cached page.
pub proof fn law_evicted_page_is_least_recently_used(
    cache: &PageCache,
    key: PageKey,
    other: PageKey,
)
    requires
        cache.wf(),
        cache.in_order(),
        !cache@.contains_key(key),
        cache@.contains_key(other),
    ensures
        ({
            let uses = cache.last_uses().insert(key, cache.next_use());
            let records = cache.records().push((key, cache.next_use()));
            let victim = records[recency::oldest(records, uses)].0;
            &&& cache@.contains_key(victim)
            &&& victim != other ==> cache.last_uses()[victim] < cache.last_uses()[other]
        }),
{
    let stamp = cache.next_use();
    let uses = cache.last_uses().insert(key, stamp);
    let records = cache.records().push((key, stamp));
    recency::lemma_recorded_push(cache.records(), cache.last_uses(), key, stamp);
    recency::lemma_in_order_push(cache.records(), stamp - 1, key, stamp);
    assert(cache.last_uses().contains_key(other));
    recency::lemma_oldest_is_least_recent(records, uses, stamp as int, other);
    assert(cache.records().contains((other, cache.last_uses()[other])));
    let victim = records[recency::oldest(records, uses)].0;
    assert(victim != key);
    assert(cache.last_uses().contains_key(victim));
}

// ---------------------------------------------------------------------------
// Reads
// ---------------------------------------------------------------------------

/// Whether an object holds a byte of `start..end`.
pub open spec fn overlaps(object: ObjectSpan, start: int, end: int) -> bool {
    &&& object.start_offset < end
    &&& start < object.end_offset
    &&& object.start_offset < object.end_offset
    &&& start < end
}

/// Whether one of the objects holds the byte at `offset`.
pub open spec fn held(objects: Seq<ObjectSpan>, offset: int) -> bool {
    exists|i: int| 0 <= i < objects.len() && (#[trigger] objects[i]).holds(offset)
}

/// Whether the objects together hold every byte of `start..end`.
pub open spec fn covered(objects: Seq<ObjectSpan>, start: int, end: int) -> bool {
    forall|offset: int| start <= offset < end ==> #[trigger] held(objects, offset)
}

/// The objects of a page that hold a byte of `start..end`, by ascending start.
pub open spec fn overlapping_objects(page: Page, start: int, end: int) -> Seq<ObjectSpan> {
    pages::stable_by_start(
        (page.cold_chunks + page.external_segments).filter(
            |object: ObjectSpan| overlaps(object, start, end),
        ),
    )
}

/// `object`, if it holds a byte of the range.
pub fn intersect_object(object: &ObjectPayloadRef, read_start: u64, read_end: u64) -> (r: Option<
    ObjectPayloadRef,
>)
    ensures
        match r {
            Some(found) => found@ == object@ && overlaps(
                object@,
                read_start as int,
                read_end as int,
            ),
            None => !overlaps(object@, read_start as int, read_end as int),
        },
{
    let start: u64 = if object.start_offset > read_start {
        object.start_offset
    } else {
        read_start
    };
    let end: u64 = if object.end_offset < read_end {
        object.end_offset
    } else {
        read_end
    };
    if start < end {
        Some(object.clone())
    } else {
        None
    }
}

/// Whether objects in ascending order hold every byte of the range.
fn objects_cover_range(objects: &Vec<ObjectPayloadRef>, start: u64, end: u64) -> (r: bool)
    requires
        pages::sorted_by_start(refs::object_spans(objects@)),
        start < end || objects@.len() == 0,
        start <= end,
    ensures
        r == covered(refs::object_spans(objects@), start as int, end as int),
{
    let ghost list = refs::object_spans(objects@);
    let mut expected: u64 = start;
    let mut i: usize = 0;
    while i < objects.len()
        invariant
            i <= objects@.len(),
            list == refs::object_spans(objects@),
            pages::sorted_by_start(list),
            start <= expected <= end,
            expected < end || objects@.len() == 0,
            covered(list, start as int, expected as int),
            forall|j: int| 0 <= j < i ==> (#[trigger] list[j]).end_offset <= expected,
        decreases objects@.len() - i,
    {
        let object = &objects[i];
        assert(list[i as int] == object@);
        if object.end_offset <= expected {
            i = i + 1;
            continue;
        }
        if object.start_offset > expected {
            proof {
                if covered(list, start as int, end as int) {
                    assert(held(list, expected as int));
                    let j = choose|j: int|
                        0 <= j < list.len() && (#[trigger] list[j]).holds(expected as int);
                    assert(j >= i);
                    assert(list[i as int].start_offset <= list[j].start_offset);
                }
            }
            return false;
        }
        let ghost before = expected;
        expected = object.end_offset;
        proof {
            assert forall|offset: int| start <= offset < expected implies #[trigger] held(
                list,
                offset,
            ) by {
                if offset >= before {
                    assert(list[i as int].holds(offset));
                }
            }
        }
        if expected >= end {
            return true;
        }
        i = i + 1;
    }
    proof {
        if expected < end && covered(list, start as int, end as int) {
            assert(held(list, expected as int));
        }
    }
    expected == end
}


/// What the overlapping objects hold of a range is what all objects hold of it.
proof fn lemma_overlapping_cover(page: Page, start: int, end: int)
    ensures
        covered(overlapping_objects(page, start, end), start, end) <==> covered(
            page.cold_chunks + page.external_segments,
            start,
            end,
        ),
{
    let all = page.cold_chunks + page.external_segments;
    let keep = |object: ObjectSpan| overlaps(object, start, end);
    let kept = all.filter(keep);
    let list = overlapping_objects(page, start, end);
    pages::law_stable_sort(kept);
    kept.to_multiset_ensures();
    list.to_multiset_ensures();
    assert forall|object: ObjectSpan| #[trigger] list.contains(object) <==> all.contains(object)
        && keep(object) by {
        pages::lemma_filter_contains(all, keep, object);
        assert(list.contains(object) <==> list.to_multiset().count(object) > 0);
        assert(kept.contains(object) <==> kept.to_multiset().count(object) > 0);
    }
    assert forall|offset: int| start <= offset < end implies (#[trigger] held(list, offset)
        <==> held(all, offset)) by {
        if held(list, offset) {
            let i = choose|i: int| 0 <= i < list.len() && (#[trigger] list[i]).holds(offset);
            assert(list.contains(list[i]));
            let j = choose|j: int| 0 <= j < all.len() && all[j] == list[i];
            assert(all[j].holds(offset));
        }
        if held(all, offset) {
            let i = choose|i: int| 0 <= i < all.len() && (#[trigger] all[i]).holds(offset);
            assert(all.contains(all[i]));
            assert(keep(all[i]));
            assert(list.contains(all[i]));
            let j = choose|j: int| 0 <= j < list.len() && list[j] == all[i];
            assert(list[j].holds(offset));
        }
    }
    if covered(list, start, end) {
        assert forall|offset: int| start <= offset < end implies #[trigger] held(all, offset) by {
            assert(held(list, offset));
        }
    }
    if covered(all, start, end) {
        assert forall|offset: int| start <= offset < end implies #[trigger] held(list, offset) by {
            assert(held(all, offset));
        }
    }
}

/// The objects of a page that answer a read: all that hold a byte of it, in
/// ascending order, provided that together they hold every byte of it.
pub fn object_segments(page: &ColdIndexPage, segment: &StreamReadColdIndexSegment) -> (r: Result<
    Vec<ObjectPayloadRef>,
    ColdIndexError,
>)
    ensures
        ({
            let start = segment.read_start_offset as int;
            let end = start + segment.len;
            if end > u64::MAX {
                r == Err::<Vec<ObjectPayloadRef>, ColdIndexError>(
                    ColdIndexError::ReadRangeOverflow,
                )
            } else if covered(page@.cold_chunks + page@.external_segments, start, end) {
                r is Ok && refs::object_spans(r->Ok_0@) == overlapping_objects(page@, start, end)
            } else {
                r == Err::<Vec<ObjectPayloadRef>, ColdIndexError>(ColdIndexError::RangeNotCovered)
            }
        }),
{
    let read_start: u64 = segment.read_start_offset;
    let read_end: u64 = match read_start.checked_add(segment.len as u64) {
        Some(end) => end,
        None => {
            return Err(ColdIndexError::ReadRangeOverflow);
        },
    };
    let ghost all = page@.cold_chunks + page@.external_segments;
    let ghost keep = |object: ObjectSpan| overlaps(object, read_start as int, read_end as int);
    let mut objects: Vec<ObjectPayloadRef> = Vec::new();
    let mut i: usize = 0;
    proof {
        reveal(Seq::filter);
        assert(all.take(0) =~= Seq::empty());
        assert(refs::object_spans(objects@) =~= all.take(0).filter(keep));
    }
    while i < page.cold_chunks.len()
        invariant
            i <= page.cold_chunks@.len(),
            all == page@.cold_chunks + page@.external_segments,
            keep == (|object: ObjectSpan| overlaps(object, read_start as int, read_end as int)),
            refs::object_spans(objects@) == all.take(i as int).filter(keep),
        decreases page.cold_chunks@.len() - i,
    {
        let object = ObjectPayloadRef::of_chunk(&page.cold_chunks[i]);
        let ghost before = objects@;
        assert(all[i as int] == object@);
        match intersect_object(&object, read_start, read_end) {
            Some(found) => {
                objects.push(found);
                assert(refs::object_spans(objects@) =~= refs::object_spans(before).push(object@));
            },
            None => {},
        }
        i = i + 1;
        proof {
            reveal(Seq::filter);
            assert(all.take(i as int).drop_last() =~= all.take(i - 1));
            assert(all.take(i as int).last() == all[i - 1]);
        }
    }
    let mut j: usize = 0;
    while j < page.external_segments.len()
        invariant
            j <= page.external_segments@.len(),
            i == page.cold_chunks@.len(),
            all == page@.cold_chunks + page@.external_segments,
            keep == (|object: ObjectSpan| overlaps(object, read_start as int, read_end as int)),
            refs::object_spans(objects@) == all.take(i + j).filter(keep),
        decreases page.external_segments@.len() - j,
    {
        let object = &page.external_segments[j];
        let ghost before = objects@;
        assert(all[i + j] == object@);
        match intersect_object(object, read_start, read_end) {
            Some(found) => {
                objects.push(found);
                assert(refs::object_spans(objects@) =~= refs::object_spans(before).push(object@));
            },
            None => {},
        }
        j = j + 1;
        proof {
            reveal(Seq::filter);
            assert(all.take(i + j).drop_last() =~= all.take(i + j - 1));
            assert(all.take(i + j).last() == all[i + j - 1]);
        }
    }
    proof {
        assert(all.take(i + j) =~= all);
        assert(pages::spans(objects@) =~= refs::object_spans(objects@));
    }
    let ghost kept = refs::object_spans(objects@);
    let objects = sort_entries(&objects);
    proof {
        assert(pages::spans(objects@) =~= refs::object_spans(objects@));
        pages::law_stable_sort(kept);
        lemma_overlapping_cover(page@, read_start as int, read_end as int);
        if read_start == read_end && objects@.len() > 0 {
            kept.to_multiset_ensures();
            assert(kept.contains(kept[0]));
            pages::lemma_filter_contains(all, keep, kept[0]);
        }
    }
    if !objects_cover_range(&objects, read_start, read_end) {
        return Err(ColdIndexError::RangeNotCovered);
    }
    Ok(objects)
}

/// What looking a page up does to the cache: a cached page is used, one that has to
/// be loaded is cached, and one that is not there leaves the cache as it is.
pub open spec fn fetched(
    before: &ColdIndexPageCache,
    key: PageKey,
    after: &ColdIndexPageCache,
) -> bool {
    if before.cache@.contains_key(key) {
        used(&before.cache, key, &after.cache)
    } else if before.store@.contains_key(key) {
        inserted(&before.cache, key, before.store@[key], &after.cache)
    } else {
        after.cache == before.cache
    }
}

/// An in-memory page store behind a page cache.
#[derive(Debug)]
pub struct ColdIndexPageCache {
    pub store: InMemoryColdIndexPageStore,
    pub cache: PageCache,
}

impl ColdIndexPageCache {
    pub open spec fn wf(&self) -> bool {
        self.store.wf() && self.cache.wf()
    }

    /// Whether the cache only holds pages as they are stored: whether nobody has changed
    /// the store behind it.
    pub open spec fn agrees(&self) -> bool {
        forall|key: PageKey| #[trigger]
            self.cache@.contains_key(key) ==> self.store@.contains_key(key) && self.store@[key]
                == self.cache@[key]
    }

    /// The page that a reader finds under a key: the cached one, else the stored one.
    pub open spec fn found(&self, key: PageKey) -> Option<Page> {
        if self.cache@.contains_key(key) {
            Some(self.cache@[key])
        } else {
            store::stored(self.store@, key)
        }
    }

    pub fn new(store: InMemoryColdIndexPageStore, capacity_pages: usize) -> (r: Self)
        requires
            store.wf(),
        ensures
            r.wf(),
            r.agrees(),
            r.store == store,
            r.cache@ == Map::<PageKey, Page>::empty(),
            r.cache.capacity() == capacity_pages,
            r.cache.records() == Seq::<(PageKey, u64)>::empty(),
            r.cache.last_uses() == Map::<PageKey, u64>::empty(),
            r.cache.next_use() == 0,
            r.cache.in_order(),
    {
        ColdIndexPageCache { store, cache: PageCache::new(capacity_pages) }
    }

    /// How many pages are cached.
    pub fn cached_page_count(&self) -> (r: usize)
        requires
            self.wf(),
        ensures
            r == self.cache@.dom().len(),
            r <= self.cache.capacity(),
    {
        self.cache.cached_page_count()
    }

    /// Stores `page` under `key` and caches it.
    pub fn put_page(&mut self, key: &ColdIndexPageKey, page: &ColdIndexPage) -> (r: Result<
        (),
        ColdIndexError,
    >)
        requires
            old(self).wf(),
            codec::page_fits(key@, page@),
        ensures
            final(self).wf(),
            old(self).agrees() ==> final(self).agrees(),
            r is Ok,
            final(self).store@ == old(self).store@.insert(key@, page@),
            inserted(&old(self).cache, key@, page@, &final(self).cache),
            old(self).cache.in_order() && old(self).cache.next_use() < u64::MAX ==> final(
                self
            ).cache.in_order(),
    {
        match self.store.put_page(key, page) {
            Ok(_) => {},
            Err(error) => {
                return Err(error);
            },
        }
        self.cache.insert(key, page.clone());
        Ok(())
    }

    /// The page under `key`: the cached one where it is there, else the stored one.
    pub fn get_page(&mut self, key: &ColdIndexPageKey) -> (r: Result<
        Option<ColdIndexPage>,
        ColdIndexError,
    >)
        requires
            old(self).wf(),
        ensures
            final(self).wf(),
            old(self).agrees() ==> final(self).agrees(),
            r is Ok,
            final(self).store == old(self).store,
            pages::optional_page(r->Ok_0) == old(self).found(key@),
            fetched(old(self), key@, final(self)),
            old(self).cache.in_order() && old(self).cache.next_use() < u64::MAX ==> final(
                self
            ).cache.in_order(),
    {
        match self.cache.get_cached(key) {
            Some(page) => {
                return Ok(Some(page));
            },
            None => {},
        }
        let page = match self.store.get_page(key) {
            Ok(Some(page)) => page,
            Ok(None) => {
                return Ok(None);
            },
            Err(error) => {
                return Err(error);
            },
        };
        self.cache.insert(key, page.clone());
        Ok(Some(page))
    }

    /// The objects that answer one index segment of a read.
    pub fn object_segments_for_read(
        &mut self,
        stream_id: &BucketStreamId,
        segment: &StreamReadColdIndexSegment,
    ) -> (r: Result<Vec<ObjectPayloadRef>, ColdIndexError>)
        requires
            old(self).wf(),
        ensures
            final(self).wf(),
            old(self).agrees() ==> final(self).agrees(),
            final(self).store == old(self).store,
            fetched(
                old(self),
                PageKey {
                    stream: stream_id@,
                    generation: segment.generation,
                    page_id: segment.page_id,
                },
                final(self),
            ),
            old(self).cache.in_order() && old(self).cache.next_use() < u64::MAX ==> final(
                self
            ).cache.in_order(),
            ({
                let key = PageKey {
                    stream: stream_id@,
                    generation: segment.generation,
                    page_id: segment.page_id,
                };
                let start = segment.read_start_offset as int;
                let end = start + segment.len;
                if old(self).found(key) is None {
                    r is Err && (r->Err_0 matches ColdIndexError::MissingPage { path } && path@
                        == crate::cold_index::page_path(key))
                } else if end > u64::MAX {
                    r == Err::<Vec<ObjectPayloadRef>, ColdIndexError>(
                        ColdIndexError::ReadRangeOverflow,
                    )
                } else if covered(
                    old(self).found(key)->0.cold_chunks + old(self).found(key)->0.external_segments,
                    start,
                    end,
                ) {
                    r is Ok && refs::object_spans(r->Ok_0@) == overlapping_objects(
                        old(self).found(key)->0,
                        start,
                        end,
                    )
                } else {
                    r == Err::<Vec<ObjectPayloadRef>, ColdIndexError>(
                        ColdIndexError::RangeNotCovered,
                    )
                }
            }),
    {
        let key = ColdIndexPageKey {
            stream_id: stream_id.clone(),
            generation: segment.generation,
            page_id: segment.page_id,
        };
        match self.get_page(&key) {
            Ok(Some(page)) => object_segments(&page, segment),
            Ok(None) => Err(ColdIndexError::MissingPage { path: key.path() }),
            Err(error) => Err(error),
        }
    }
}

/// As long as nobody changes the store behind the cache, a reader finds what is stored.
pub proof fn law_agreeing_cache_shows_the_store(cache: &ColdIndexPageCache, key: PageKey)
    requires
        cache.agrees(),
    ensures
        cache.found(key) == store::stored(cache.store@, key),
{
}

} // verus!
