//! Readers that wait for a stream to go on.

use vstd::multiset::Multiset;
use vstd::prelude::*;
use crate::admission;
use crate::engine::errors::GroupEngineError;
use crate::error::RuntimeError;
use crate::ids::{BucketStreamId, CoreId, ShardPlacement, StreamName};
use crate::metrics::counters;
use crate::metrics::RuntimeMetricsInner;
use crate::request;
use crate::request::{GroupReadStreamParts, ReadStreamRequest};
use crate::table;
use crate::table::Table;

verus! {

/// A reader that waits, and the way to answer it.
#[derive(Debug)]
pub struct ReadWatcher<T> {
    pub waiter_id: u64,
    pub request: ReadStreamRequest,
    pub response: T,
}

/// The readers that wait, by stream; a stream without readers is not listed.
#[derive(Debug)]
pub struct ReadWatchers<T> {
    table: Table<BucketStreamId, Vec<ReadWatcher<T>>>,
}

/// How many readers a list of streams has.
pub open spec fn watcher_total<T>(entries: Seq<(BucketStreamId, Vec<ReadWatcher<T>>)>) -> int
    decreases entries.len(),
{
    if entries.len() == 0 {
        0
    } else {
        watcher_total(entries.drop_last()) + entries.last().1@.len()
    }
}

/// The readers of a list but for one.
pub open spec fn without<T>(watchers: Seq<ReadWatcher<T>>, waiter_id: u64) -> Seq<ReadWatcher<T>>
    decreases watchers.len(),
{
    if watchers.len() == 0 {
        Seq::empty()
    } else {
        let before = without(watchers.drop_last(), waiter_id);
        if watchers.last().waiter_id == waiter_id {
            before
        } else {
            before.push(watchers.last())
        }
    }
}

/// Whether a read has nothing to give yet, but may have later.
pub open spec fn is_idle(parts: GroupReadStreamParts) -> bool {
    request::is_empty_body(parts.body) && parts.up_to_date && !parts.closed
}

/// Whether a read has nothing to give yet, but may have later.
pub fn has_to_wait(parts: &GroupReadStreamParts) -> (r: bool)
    ensures
        r == is_idle(*parts),
{
    parts.payload_is_empty() && parts.up_to_date && !parts.closed
}

proof fn lemma_total_remove<T>(entries: Seq<(BucketStreamId, Vec<ReadWatcher<T>>)>, i: int)
    requires
        0 <= i < entries.len(),
    ensures
        watcher_total(entries.remove(i)) == watcher_total(entries) - entries[i].1@.len(),
    decreases entries.len(),
{
    if i == entries.len() - 1 {
        assert(entries.remove(i) =~= entries.drop_last());
    } else {
        lemma_total_remove(entries.drop_last(), i);
        assert(entries.remove(i).drop_last() =~= entries.drop_last().remove(i));
        assert(entries.remove(i).last() == entries.last());
    }
}

proof fn lemma_total_take<T>(entries: Seq<(BucketStreamId, Vec<ReadWatcher<T>>)>, n: int)
    requires
        0 <= n <= entries.len(),
    ensures
        0 <= watcher_total(entries.take(n)) <= watcher_total(entries),
    decreases entries.len(),
{
    if n < entries.len() {
        lemma_total_take(entries.drop_last(), n);
        assert(entries.drop_last().take(n) =~= entries.take(n));
    } else {
        assert(entries.take(n) =~= entries);
        if n > 0 {
            lemma_total_take(entries.drop_last(), n - 1);
            assert(entries.drop_last().take(n - 1) =~= entries.drop_last());
        }
    }
}

proof fn lemma_without_len<T>(watchers: Seq<ReadWatcher<T>>, waiter_id: u64)
    ensures
        without(watchers, waiter_id).len() <= watchers.len(),
    decreases watchers.len(),
{
    if watchers.len() > 0 {
        lemma_without_len(watchers.drop_last(), waiter_id);
    }
}

impl<T> ReadWatchers<T> {
    /// Every stream that is listed has a reader.
    pub closed spec fn wf(&self) -> bool {
        &&& self.table.wf()
        &&& forall|stream: StreamName| #[trigger]
            self.table@.contains_key(stream) ==> self.table@[stream]@.len() > 0
    }

    pub closed spec fn view(&self) -> Map<StreamName, Seq<ReadWatcher<T>>> {
        Map::new(
            |stream: StreamName| self.table@.contains_key(stream),
            |stream: StreamName| self.table@[stream]@,
        )
    }

    /// How many readers wait.
    pub closed spec fn total(&self) -> int {
        watcher_total(self.table.entries())
    }

    /// The readers of a stream.
    pub open spec fn of(&self, stream: StreamName) -> Seq<ReadWatcher<T>> {
        if self@.contains_key(stream) {
            self@[stream]
        } else {
            Seq::empty()
        }
    }

    pub fn new() -> (r: Self)
        ensures
            r.wf(),
            r@ == Map::<StreamName, Seq<ReadWatcher<T>>>::empty(),
            r.total() == 0,
    {
        let r = ReadWatchers { table: Table::new() };
        assert(r@ =~= Map::<StreamName, Seq<ReadWatcher<T>>>::empty());
        r
    }

    /// How many readers wait.
    pub fn live_read_watcher_count(&self) -> (r: u64)
        requires
            self.wf(),
            self.total() <= u64::MAX,
        ensures
            r == self.total(),
    {
        let mut count: u64 = 0;
        let mut i: usize = 0;
        let ghost entries = self.table.entries();
        assert(entries.take(0) =~= Seq::empty());
        while i < self.table.len()
            invariant
                self.wf(),
                entries == self.table.entries(),
                i <= entries.len(),
                count == watcher_total(entries.take(i as int)),
                watcher_total(entries) <= u64::MAX,
            decreases entries.len() - i,
        {
            let (_, watchers) = self.table.entry(i);
            proof {
                lemma_total_take(entries, i + 1);
                assert(entries.take(i + 1).drop_last() =~= entries.take(i as int));
                assert(entries.take(i + 1).last() == entries[i as int]);
            }
            count = count + watchers.len() as u64;
            i = i + 1;
        }
        assert(entries.take(i as int) =~= entries);
        count
    }

    /// Takes the readers of a stream out.
    pub fn take(&mut self, stream_id: &BucketStreamId) -> (r: Vec<ReadWatcher<T>>)
        requires
            old(self).wf(),
        ensures
            final(self).wf(),
            r@ == old(self).of(stream_id@),
            final(self)@ == old(self)@.remove(stream_id@),
            final(self).total() == old(self).total() - r@.len(),
            r@.len() == 0 ==> !old(self)@.contains_key(stream_id@),
    {
        let ghost before = self.table.entries();
        let r = match self.table.remove(stream_id) {
            Some(watchers) => {
                proof {
                    let i = choose|i: int|
                        table::has_key_at(before, stream_id@, i) && self.table.entries()
                            == before.remove(i) && before[i].1 == watchers;
                    lemma_total_remove(before, i);
                }
                watchers
            },
            None => Vec::new(),
        };
        assert(self@ =~= old(self)@.remove(stream_id@));
        r
    }

    /// Adds readers of a stream behind those that are there.
    pub fn extend(&mut self, stream_id: &BucketStreamId, watchers: Vec<ReadWatcher<T>>)
        requires
            old(self).wf(),
        ensures
            final(self).wf(),
            final(self)@ == if watchers@.len() == 0 {
                old(self)@
            } else {
                old(self)@.insert(stream_id@, old(self).of(stream_id@) + watchers@)
            },
            final(self).total() == old(self).total() + watchers@.len(),
    {
        if watchers.len() == 0 {
            return;
        }
        let ghost added = watchers@;
        let mut list = self.take(stream_id);
        let ghost earlier = self@;
        let mut watchers = watchers;
        list.append(&mut watchers);
        assert(list@ =~= old(self).of(stream_id@) + added);
        let ghost before = self.table.entries();
        let key = stream_id.clone();
        assert(!self.table@.contains_key(key@)) by {
            assert(!self@.contains_key(key@));
        }
        self.table.insert(key, list);
        proof {
            assert(self.table.entries() == before.push((key, list)));
            assert(before.push((key, list)).drop_last() =~= before);
            let expected = old(self)@.insert(stream_id@, old(self).of(stream_id@) + added);
            assert forall|stream: StreamName| #[trigger]
                self@.contains_key(stream) == expected.contains_key(stream) by {
                assert(earlier.contains_key(stream) == old(self)@.remove(
                    stream_id@,
                ).contains_key(stream));
            }
            assert forall|stream: StreamName| #[trigger] self@.contains_key(stream) implies self@[stream]
                == expected[stream] by {
                if stream != stream_id@ {
                    assert(earlier.contains_key(stream));
                    assert(earlier[stream] == old(self)@.remove(stream_id@)[stream]);
                }
            }
            assert(self@ =~= expected);
        }
    }

    /// Takes a reader out who no longer waits, and says how many that were.
    pub fn cancel(&mut self, stream_id: &BucketStreamId, waiter_id: u64) -> (r: usize)
        requires
            old(self).wf(),
        ensures
            final(self).wf(),
            final(self)@ == cancelled(old(self)@, stream_id@, waiter_id),
            r == old(self).of(stream_id@).len() - without(
                old(self).of(stream_id@),
                waiter_id,
            ).len(),
            final(self).total() == old(self).total() - r,
    {
        let mut rest = self.take(stream_id);
        let ghost all = rest@;
        let before: usize = rest.len();
        let mut kept: Vec<ReadWatcher<T>> = Vec::new();
        let mut i: usize = 0;
        assert(all.take(0) =~= Seq::empty());
        while i < before
            invariant
                i <= before,
                before == all.len(),
                rest@ == all.skip(i as int),
                kept@ == without(all.take(i as int), waiter_id),
            decreases before - i,
        {
            let watcher = rest.remove(0);
            proof {
                assert(watcher == all[i as int]);
                assert(all.take(i + 1).drop_last() =~= all.take(i as int));
                assert(all.take(i + 1).last() == all[i as int]);
                assert(rest@ =~= all.skip(i + 1));
            }
            if watcher.waiter_id != waiter_id {
                kept.push(watcher);
            }
            i = i + 1;
        }
        assert(all.take(i as int) =~= all);
        proof {
            lemma_without_len(all, waiter_id);
        }
        let removed: usize = before - kept.len();
        let ghost left = kept@;
        let ghost middle = self@;
        self.extend(stream_id, kept);
        proof {
            assert(Seq::<ReadWatcher<T>>::empty() + left =~= left);
            assert(middle == old(self)@.remove(stream_id@));
            if all.len() == 0 {
                assert(old(self)@.remove(stream_id@) =~= old(self)@);
            }
            assert(self@ =~= cancelled(old(self)@, stream_id@, waiter_id));
        }
        removed
    }
}

/// Who waits after a reader no longer does.
pub open spec fn cancelled<T>(
    watchers: Map<StreamName, Seq<ReadWatcher<T>>>,
    stream: StreamName,
    waiter_id: u64,
) -> Map<StreamName, Seq<ReadWatcher<T>>> {
    if !watchers.contains_key(stream) {
        watchers
    } else if without(watchers[stream], waiter_id).len() == 0 {
        watchers.remove(stream)
    } else {
        watchers.insert(stream, without(watchers[stream], waiter_id))
    }
}

/// A reader who begins to wait and gives up leaves the others waiting as they
/// were.
pub proof fn law_cancel_undoes_wait<T>(waiting: Seq<ReadWatcher<T>>, watcher: ReadWatcher<T>)
    requires
        forall|i: int|
            0 <= i < waiting.len() ==> (#[trigger] waiting[i]).waiter_id != watcher.waiter_id,
    ensures
        without(waiting.push(watcher), watcher.waiter_id) == waiting,
    decreases waiting.len(),
{
    assert(waiting.push(watcher).drop_last() =~= waiting);
    lemma_without_stranger(waiting, watcher.waiter_id);
}

proof fn lemma_without_stranger<T>(waiting: Seq<ReadWatcher<T>>, waiter_id: u64)
    requires
        forall|i: int| 0 <= i < waiting.len() ==> (#[trigger] waiting[i]).waiter_id != waiter_id,
    ensures
        without(waiting, waiter_id) == waiting,
    decreases waiting.len(),
{
    if waiting.len() > 0 {
        let prefix = waiting.drop_last();
        assert forall|i: int| 0 <= i < prefix.len() implies (#[trigger] prefix[i]).waiter_id
            != waiter_id by {
            assert(prefix[i] == waiting[i]);
        }
        lemma_without_stranger(prefix, waiter_id);
        assert(waiting.last() == waiting[waiting.len() - 1]);
        assert(prefix.push(waiting.last()) =~= waiting);
    } else {
        assert(without(waiting, waiter_id) =~= waiting);
    }
}

/// What becomes of a reader who would wait.
pub enum WaitOutcome<T> {
    /// The reader has gone already.
    Gone,
    /// The reader waits.
    Waiting,
    /// There is something to read.
    Respond { parts: GroupReadStreamParts, response: T },
    /// The reader may not wait, or the read has failed.
    Refused { response: T, error: RuntimeError },
}

/// What becomes of a reader who would wait, given what the read has to give, who
/// waits already and how many may.
pub open spec fn wait_outcome<T>(
    total: int,
    placement: ShardPlacement,
    watcher: ReadWatcher<T>,
    parts: Result<GroupReadStreamParts, GroupEngineError>,
    is_gone: bool,
    limit: Option<u64>,
) -> WaitOutcome<T> {
    match parts {
        Err(error) => WaitOutcome::Refused {
            response: watcher.response,
            error: RuntimeError::GroupEngine {
                core_id: placement.core_id,
                raft_group_id: placement.raft_group_id,
                error,
            },
        },
        Ok(parts) => if !is_idle(parts) {
            WaitOutcome::Respond { parts, response: watcher.response }
        } else if is_gone {
            WaitOutcome::Gone
        } else if limit is Some && total >= limit->0 {
            WaitOutcome::Refused {
                response: watcher.response,
                error: RuntimeError::LiveReadBackpressure {
                    core_id: placement.core_id,
                    current_waiters: total as u64,
                    limit: limit->0,
                },
            }
        } else {
            WaitOutcome::Waiting
        },
    }
}

/// Lets a reader wait where there is nothing to read yet, as long as not too many
/// wait already.
pub fn wait_read_stream<T>(
    watchers: &mut ReadWatchers<T>,
    metrics: &mut RuntimeMetricsInner,
    placement: ShardPlacement,
    watcher: ReadWatcher<T>,
    parts: Result<GroupReadStreamParts, GroupEngineError>,
    is_gone: bool,
    live_read_max_waiters_per_core: Option<u64>,
) -> (r: WaitOutcome<T>)
    requires
        old(watchers).wf(),
        old(watchers).total() <= u64::MAX,
        old(metrics).wf(),
        placement.core_id.0 < old(metrics).core_count(),
    ensures
        final(watchers).wf(),
        final(metrics).wf(),
        r == wait_outcome(
            old(watchers).total(),
            placement,
            watcher,
            parts,
            is_gone,
            live_read_max_waiters_per_core,
        ),
        if r is Waiting {
            &&& final(watchers)@ == old(watchers)@.insert(
                watcher.request.stream_id@,
                old(watchers).of(watcher.request.stream_id@).push(watcher),
            )
            &&& final(watchers).total() == old(watchers).total() + 1
            &&& final(metrics).per_core_live_read_waiters@ == old(
                metrics
            ).per_core_live_read_waiters@.update(
                placement.core_id.0 as int,
                admission::wrapping_sum(
                    old(metrics).per_core_live_read_waiters@[placement.core_id.0 as int],
                    1,
                ),
            )
            &&& *final(metrics) == (RuntimeMetricsInner {
                per_core_live_read_waiters: final(metrics).per_core_live_read_waiters,
                ..*old(metrics)
            })
        } else {
            *final(watchers) == *old(watchers)
        },
        r is Refused && parts is Ok ==> {
            &&& final(metrics).per_core_live_read_backpressure_events@ == old(
                metrics
            ).per_core_live_read_backpressure_events@.update(
                placement.core_id.0 as int,
                admission::wrapping_sum(
                    old(metrics).per_core_live_read_backpressure_events@[placement.core_id.0 as int],
                    1,
                ),
            )
            &&& *final(metrics) == (RuntimeMetricsInner {
                per_core_live_read_backpressure_events: final(
                    metrics
                ).per_core_live_read_backpressure_events,
                ..*old(metrics)
            })
        },
        r is Gone || r is Respond || parts is Err ==> *final(metrics) == *old(metrics),
{
    let parts = match parts {
        Ok(parts) => parts,
        Err(error) => {
            return WaitOutcome::Refused {
                response: watcher.response,
                error: RuntimeError::group_engine(placement, error),
            };
        },
    };
    if !has_to_wait(&parts) {
        return WaitOutcome::Respond { parts, response: watcher.response };
    }
    if is_gone {
        return WaitOutcome::Gone;
    }
    let current_waiters: u64 = watchers.live_read_watcher_count();
    if let Some(limit) = live_read_max_waiters_per_core {
        if current_waiters >= limit {
            metrics.record_live_read_backpressure(placement.core_id);
            return WaitOutcome::Refused {
                response: watcher.response,
                error: RuntimeError::LiveReadBackpressure {
                    core_id: placement.core_id,
                    current_waiters,
                    limit,
                },
            };
        }
    }
    metrics.record_read_watcher_added(placement.core_id);
    let stream_id = watcher.request.stream_id.clone();
    let mut added: Vec<ReadWatcher<T>> = Vec::new();
    added.push(watcher);
    assert(added@ =~= seq![watcher]);
    watchers.extend(&stream_id, added);
    assert(old(watchers).of(stream_id@) + seq![watcher] =~= old(watchers).of(stream_id@).push(
        watcher,
    ));
    WaitOutcome::Waiting
}

/// Takes a reader out who no longer waits.
pub fn cancel_read_watcher<T>(
    watchers: &mut ReadWatchers<T>,
    metrics: &mut RuntimeMetricsInner,
    core_id: CoreId,
    stream_id: &BucketStreamId,
    waiter_id: u64,
)
    requires
        old(watchers).wf(),
        old(metrics).wf(),
        core_id.0 < old(metrics).core_count(),
    ensures
        final(watchers).wf(),
        final(metrics).wf(),
        final(watchers)@ == cancelled(old(watchers)@, stream_id@, waiter_id),
        final(metrics).per_core_live_read_waiters@ == old(
            metrics
        ).per_core_live_read_waiters@.update(
            core_id.0 as int,
            counters::wrapping_difference(
                old(metrics).per_core_live_read_waiters@[core_id.0 as int],
                (old(watchers).total() - final(watchers).total()) as u64,
            ),
        ),
        *final(metrics) == (RuntimeMetricsInner {
            per_core_live_read_waiters: final(metrics).per_core_live_read_waiters,
            ..*old(metrics)
        }),
{
    let removed: usize = watchers.cancel(stream_id, waiter_id);
    if removed > 0 {
        metrics.record_read_watchers_removed(core_id, removed);
    } else {
        assert(metrics.per_core_live_read_waiters@.update(
            core_id.0 as int,
            metrics.per_core_live_read_waiters@[core_id.0 as int],
        ) =~= metrics.per_core_live_read_waiters@);
    }
}

/// Whether two requests ask for the same.
pub open spec fn same_request(a: ReadStreamRequest, b: ReadStreamRequest) -> bool {
    &&& a.stream_id@ == b.stream_id@
    &&& a.offset == b.offset
    &&& a.max_len == b.max_len
    &&& a.now_ms == b.now_ms
    &&& a.record == b.record
    &&& a.max_records == b.max_records
}

fn same_number(a: Option<u64>, b: Option<u64>) -> (r: bool)
    ensures
        r == (a == b),
{
    match (a, b) {
        (Some(a), Some(b)) => a == b,
        (None, None) => true,
        _ => false,
    }
}

/// Whether two requests ask for the same.
pub fn is_same_request(a: &ReadStreamRequest, b: &ReadStreamRequest) -> (r: bool)
    ensures
        r == same_request(*a, *b),
{
    a.stream_id.same(&b.stream_id) && a.offset == b.offset && a.max_len == b.max_len && a.now_ms
        == b.now_ms && same_number(a.record, b.record) && same_number(a.max_records, b.max_records)
}

/// The first of the lists whose readers ask for the same, or as many as there are
/// lists.
pub open spec fn first_match<T>(
    groups: Seq<Seq<ReadWatcher<T>>>,
    request: ReadStreamRequest,
    from: int,
) -> int
    decreases groups.len() - from,
{
    if from < 0 || from >= groups.len() {
        groups.len() as int
    } else if same_request(groups[from][0].request, request) {
        from
    } else {
        first_match(groups, request, from + 1)
    }
}

/// The lists after one more reader: with those who ask for the same, or alone.
pub open spec fn placed<T>(
    groups: Seq<Seq<ReadWatcher<T>>>,
    watcher: ReadWatcher<T>,
) -> Seq<Seq<ReadWatcher<T>>> {
    let i = first_match(groups, watcher.request, 0);
    if i < groups.len() {
        groups.update(i, groups[i].push(watcher))
    } else {
        groups.push(seq![watcher])
    }
}

/// Readers together with those who ask for the same.
pub open spec fn grouped<T>(watchers: Seq<ReadWatcher<T>>) -> Seq<Seq<ReadWatcher<T>>>
    decreases watchers.len(),
{
    if watchers.len() == 0 {
        Seq::empty()
    } else {
        placed(grouped(watchers.drop_last()), watchers.last())
    }
}

/// Lists of readers.
pub open spec fn group_views<T>(groups: Seq<Vec<ReadWatcher<T>>>) -> Seq<Seq<ReadWatcher<T>>> {
    groups.map_values(|group: Vec<ReadWatcher<T>>| group@)
}

/// Whether no list is empty.
pub open spec fn none_empty<T>(groups: Seq<Seq<ReadWatcher<T>>>) -> bool {
    forall|i: int| 0 <= i < groups.len() ==> (#[trigger] groups[i]).len() > 0
}

proof fn lemma_first_match<T>(
    groups: Seq<Seq<ReadWatcher<T>>>,
    request: ReadStreamRequest,
    from: int,
)
    requires
        0 <= from <= groups.len(),
    ensures
        from <= first_match(groups, request, from) <= groups.len(),
        first_match(groups, request, from) < groups.len() ==> same_request(
            groups[first_match(groups, request, from)][0].request,
            request,
        ),
        forall|i: int|
            from <= i < first_match(groups, request, from) ==> !same_request(
                (#[trigger] groups[i])[0].request,
                request,
            ),
    decreases groups.len() - from,
{
    if from < groups.len() && !same_request(groups[from][0].request, request) {
        lemma_first_match(groups, request, from + 1);
    }
}

/// Puts readers together with those who ask for the same.
pub fn group_by_request<T>(watchers: Vec<ReadWatcher<T>>) -> (r: Vec<Vec<ReadWatcher<T>>>)
    ensures
        group_views(r@) == grouped(watchers@),
        none_empty(group_views(r@)),
{
    let ghost all = watchers@;
    let mut rest = watchers;
    let count: usize = rest.len();
    let mut groups: Vec<Vec<ReadWatcher<T>>> = Vec::new();
    let mut done: usize = 0;
    assert(all.take(0) =~= Seq::empty());
    assert(group_views(groups@) =~= Seq::empty());
    while done < count
        invariant
            done <= count,
            count == all.len(),
            rest@ == all.skip(done as int),
            group_views(groups@) == grouped(all.take(done as int)),
            none_empty(group_views(groups@)),
        decreases count - done,
    {
        let watcher = rest.remove(0);
        let ghost views = group_views(groups@);
        proof {
            assert(watcher == all[done as int]);
            assert(all.take(done + 1).drop_last() =~= all.take(done as int));
            assert(all.take(done + 1).last() == all[done as int]);
            assert(rest@ =~= all.skip(done + 1));
        }
        assert forall|j: int| 0 <= j < groups@.len() implies (#[trigger] groups@[j])@.len() > 0 by {
            assert(views[j] == groups@[j]@);
        }
        let mut i: usize = 0;
        while i < groups.len() && !is_same_request(&groups[i][0].request, &watcher.request)
            invariant
                i <= groups@.len(),
                views == group_views(groups@),
                none_empty(views),
                first_match(views, watcher.request, 0) == first_match(
                    views,
                    watcher.request,
                    i as int,
                ),
                forall|j: int|
                    0 <= j < groups@.len() ==> (#[trigger] groups@[j])@.len() > 0,
            decreases groups@.len() - i,
        {
            assert(views[i as int] == groups@[i as int]@);
            i = i + 1;
        }
        assert(first_match(views, watcher.request, 0) == i) by {
            if i < groups@.len() {
                assert(views[i as int] == groups@[i as int]@);
            }
        }
        if i < groups.len() {
            let mut group = groups.remove(i);
            group.push(watcher);
            groups.insert(i, group);
            assert(group_views(groups@) =~= views.update(i as int, views[i as int].push(watcher)));
        } else {
            let mut group: Vec<ReadWatcher<T>> = Vec::new();
            group.push(watcher);
            groups.push(group);
            assert(group@ =~= seq![watcher]);
            assert(group_views(groups@) =~= views.push(seq![watcher]));
        }
        proof {
            assert(group_views(groups@) == placed(views, watcher));
            assert(none_empty(group_views(groups@)));
        }
        done = done + 1;
    }
    assert(all.take(done as int) =~= all);
    groups
}

/// All readers of several lists.
pub open spec fn all_of<T>(groups: Seq<Seq<ReadWatcher<T>>>) -> Multiset<ReadWatcher<T>>
    decreases groups.len(),
{
    if groups.len() == 0 {
        Multiset::empty()
    } else {
        all_of(groups.drop_last()).add(groups.last().to_multiset())
    }
}

proof fn lemma_all_of_update<T>(groups: Seq<Seq<ReadWatcher<T>>>, i: int, watcher: ReadWatcher<T>)
    requires
        0 <= i < groups.len(),
    ensures
        all_of(groups.update(i, groups[i].push(watcher))) == all_of(groups).insert(watcher),
    decreases groups.len(),
{
    broadcast use vstd::seq_lib::group_to_multiset_ensures;

    let after = groups.update(i, groups[i].push(watcher));
    if i == groups.len() - 1 {
        assert(after.drop_last() =~= groups.drop_last());
    } else {
        lemma_all_of_update(groups.drop_last(), i, watcher);
        assert(after.drop_last() =~= groups.drop_last().update(i, groups[i].push(watcher)));
    }
    assert(all_of(after) =~= all_of(groups).insert(watcher));
}

/// No reader is lost or doubled when readers are put together; those of one list
/// ask for the same, those of two lists do not.
pub proof fn law_groups_divide_the_watchers<T>(watchers: Seq<ReadWatcher<T>>)
    ensures
        all_of(grouped(watchers)) == watchers.to_multiset(),
        none_empty(grouped(watchers)),
        forall|i: int, k: int|
            0 <= i < grouped(watchers).len() && 0 <= k < grouped(watchers)[i].len()
                ==> same_request(
                grouped(watchers)[i][0].request,
                (#[trigger] grouped(watchers)[i][k]).request,
            ),
        forall|i: int, j: int|
            0 <= i < j < grouped(watchers).len() ==> !same_request(
                (#[trigger] grouped(watchers)[i])[0].request,
                (#[trigger] grouped(watchers)[j])[0].request,
            ),
    decreases watchers.len(),
{
    broadcast use vstd::seq_lib::group_to_multiset_ensures;

    if watchers.len() > 0 {
        let prefix = watchers.drop_last();
        let watcher = watchers.last();
        law_groups_divide_the_watchers(prefix);
        let before = grouped(prefix);
        let after = grouped(watchers);
        lemma_first_match(before, watcher.request, 0);
        let at = first_match(before, watcher.request, 0);
        assert(watchers =~= prefix.push(watcher));
        if at < before.len() {
            lemma_all_of_update(before, at, watcher);
            assert forall|i: int, k: int|
                0 <= i < after.len() && 0 <= k < after[i].len() implies same_request(
                after[i][0].request,
                (#[trigger] after[i][k]).request,
            ) by {
                assert(before[i].len() > 0);
                if k < before[i].len() {
                    assert(after[i][k] == before[i][k]);
                    assert(same_request(before[i][0].request, before[i][k].request));
                }
            }
            assert forall|i: int, j: int| 0 <= i < j < after.len() implies !same_request(
                (#[trigger] after[i])[0].request,
                (#[trigger] after[j])[0].request,
            ) by {
                assert(after[i][0] == before[i][0]);
                assert(after[j][0] == before[j][0]);
                assert(!same_request(before[i][0].request, before[j][0].request));
            }
        } else {
            assert(after.drop_last() =~= before);
            assert(seq![watcher].to_multiset() =~= Multiset::empty().insert(watcher)) by {
                assert(seq![watcher] =~= Seq::empty().push(watcher));
            }
            assert(all_of(after) =~= all_of(before).insert(watcher));
            assert forall|i: int, k: int|
                0 <= i < after.len() && 0 <= k < after[i].len() implies same_request(
                after[i][0].request,
                (#[trigger] after[i][k]).request,
            ) by {
                if i < before.len() {
                    assert(after[i] == before[i]);
                    assert(same_request(before[i][0].request, before[i][k].request));
                }
            }
            assert forall|i: int, j: int| 0 <= i < j < after.len() implies !same_request(
                (#[trigger] after[i])[0].request,
                (#[trigger] after[j])[0].request,
            ) by {
                assert(after[i] == before[i]);
                if j < before.len() {
                    assert(after[j] == before[j]);
                    assert(!same_request(before[i][0].request, before[j][0].request));
                } else {
                    assert(after[j][0] == watcher);
                    assert(!same_request(before[i][0].request, watcher.request));
                }
            }
        }
    } else {
        assert(watchers =~= Seq::empty());
    }
}

/// Takes out the readers of a stream that has changed, together with those who ask
/// for the same.
pub fn take_read_watchers<T>(
    watchers: &mut ReadWatchers<T>,
    metrics: &mut RuntimeMetricsInner,
    core_id: CoreId,
    stream_id: &BucketStreamId,
) -> (r: Vec<Vec<ReadWatcher<T>>>)
    requires
        old(watchers).wf(),
        old(metrics).wf(),
        core_id.0 < old(metrics).core_count(),
    ensures
        final(watchers).wf(),
        final(metrics).wf(),
        group_views(r@) == grouped(old(watchers).of(stream_id@)),
        final(watchers)@ == old(watchers)@.remove(stream_id@),
        final(metrics).per_core_live_read_waiters@ == old(
            metrics
        ).per_core_live_read_waiters@.update(
            core_id.0 as int,
            counters::wrapping_difference(
                old(metrics).per_core_live_read_waiters@[core_id.0 as int],
                (old(watchers).total() - final(watchers).total()) as u64,
            ),
        ),
        *final(metrics) == (RuntimeMetricsInner {
            per_core_live_read_waiters: final(metrics).per_core_live_read_waiters,
            ..*old(metrics)
        }),
{
    let taken = watchers.take(stream_id);
    if taken.len() > 0 {
        metrics.record_read_watchers_removed(core_id, taken.len());
    } else {
        assert(metrics.per_core_live_read_waiters@.update(
            core_id.0 as int,
            metrics.per_core_live_read_waiters@[core_id.0 as int],
        ) =~= metrics.per_core_live_read_waiters@);
    }
    group_by_request(taken)
}

/// What becomes of readers who were woken.
pub enum NotifyOutcome<T> {
    /// They go on waiting.
    Wait(Vec<ReadWatcher<T>>),
    /// There is something to read.
    Respond { parts: GroupReadStreamParts, watchers: Vec<ReadWatcher<T>> },
    /// The read has failed.
    Fail { error: RuntimeError, watchers: Vec<ReadWatcher<T>> },
}

/// Decides what becomes of readers who were woken and ask for the same.
pub fn notify_outcome<T>(
    watchers: Vec<ReadWatcher<T>>,
    parts: Result<GroupReadStreamParts, GroupEngineError>,
    placement: ShardPlacement,
) -> (r: NotifyOutcome<T>)
    ensures
        r == match parts {
            Err(error) => NotifyOutcome::Fail {
                error: RuntimeError::GroupEngine {
                    core_id: placement.core_id,
                    raft_group_id: placement.raft_group_id,
                    error,
                },
                watchers,
            },
            Ok(parts) => if is_idle(parts) {
                NotifyOutcome::Wait(watchers)
            } else {
                NotifyOutcome::Respond { parts, watchers }
            },
        },
        parts matches Ok(parts) && (!parts.up_to_date || parts.closed) ==> r is Respond,
        forall|i: int|
            #![trigger parts->Ok_0.body->plan.segments@[i]]
            parts is Ok && parts->Ok_0.body is Planned && 0 <= i
                < parts->Ok_0.body->plan.segments@.len() && (
            parts->Ok_0.body->plan.segments@[i] matches crate::stream::StreamReadSegment::Hot(bytes)
                && bytes@.len() > 0) ==> r is Respond,
{
    match parts {
        Err(error) => NotifyOutcome::Fail {
            error: RuntimeError::group_engine(placement, error),
            watchers,
        },
        Ok(parts) => {
            if has_to_wait(&parts) {
                NotifyOutcome::Wait(watchers)
            } else {
                NotifyOutcome::Respond { parts, watchers }
            }
        },
    }
}

/// Lets readers go on waiting who were woken for nothing.
pub fn keep_waiting<T>(
    watchers: &mut ReadWatchers<T>,
    metrics: &mut RuntimeMetricsInner,
    core_id: CoreId,
    stream_id: &BucketStreamId,
    pending: Vec<ReadWatcher<T>>,
)
    requires
        old(watchers).wf(),
        old(metrics).wf(),
        core_id.0 < old(metrics).core_count(),
    ensures
        final(watchers).wf(),
        final(metrics).wf(),
        final(watchers)@ == if pending@.len() == 0 {
            old(watchers)@
        } else {
            old(watchers)@.insert(stream_id@, old(watchers).of(stream_id@) + pending@)
        },
        final(watchers).total() == old(watchers).total() + pending@.len(),
        final(metrics).per_core_live_read_waiters@ == old(
            metrics
        ).per_core_live_read_waiters@.update(
            core_id.0 as int,
            admission::wrapping_sum(
                old(metrics).per_core_live_read_waiters@[core_id.0 as int],
                pending@.len() as u64,
            ),
        ),
        *final(metrics) == (RuntimeMetricsInner {
            per_core_live_read_waiters: final(metrics).per_core_live_read_waiters,
            ..*old(metrics)
        }),
{
    if pending.len() > 0 {
        metrics.record_read_watchers_added(core_id, pending.len());
    } else {
        assert(metrics.per_core_live_read_waiters@.update(
            core_id.0 as int,
            metrics.per_core_live_read_waiters@[core_id.0 as int],
        ) =~= metrics.per_core_live_read_waiters@);
    }
    watchers.extend(stream_id, pending);
}

/// Waking readers for nothing leaves the count of those who wait as it was.
pub proof fn law_waking_for_nothing_changes_no_count(waiting: u64, woken: u64)
    requires
        woken <= waiting,
    ensures
        admission::wrapping_sum(counters::wrapping_difference(waiting, woken), woken) == waiting,
{
}

} // verus!
