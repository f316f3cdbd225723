//! Snapshots of an engine's counters.

use vstd::prelude::*;
use crate::engine::errors::GroupEngineError;
use crate::engine::in_memory::InMemoryGroupEngine;
use crate::engine::state;
use crate::engine::state::{EngineState, Refusal};
use crate::ids::{BucketStreamId, StreamName};
use crate::order;
use crate::order::stream_before;
use crate::request::StreamAppendCount;
use crate::table;
use crate::table::Table;

verus! {

/// Whether one of the streams is this one.
pub open spec fn names(streams: Seq<BucketStreamId>, stream: StreamName) -> bool {
    exists|i: int| 0 <= i < streams.len() && (#[trigger] streams[i])@ == stream
}

/// Whether one of the counts is of this stream.
pub open spec fn lists(counts: Seq<StreamAppendCount>, stream: StreamName) -> bool {
    exists|i: int| 0 <= i < counts.len() && (#[trigger] counts[i]).stream_id@ == stream
}

/// Whether the counts stand in the order of their streams, each stream once.
pub open spec fn in_stream_order(counts: Seq<StreamAppendCount>) -> bool {
    forall|i: int, j: int|
        0 <= i < j < counts.len() ==> order::stream_precedes(
            (#[trigger] counts[i]).stream_id@,
            (#[trigger] counts[j]).stream_id@,
        )
}

/// Whether a list says of the streams what the counters say of them, in order.
pub open spec fn is_counts_snapshot(
    list: Seq<StreamAppendCount>,
    counters: Map<StreamName, u64>,
    streams: Seq<BucketStreamId>,
) -> bool {
    &&& in_stream_order(list)
    &&& forall|i: int|
        0 <= i < list.len() ==> {
            let stream = (#[trigger] list[i]).stream_id@;
            names(streams, stream) && counters.contains_key(stream) && counters[stream]
                == list[i].append_count
        }
    &&& forall|stream: StreamName|
        counters.contains_key(stream) && #[trigger] names(streams, stream) ==> lists(list, stream)
}

/// The refusal of a count whose stream is not in the snapshot.
pub open spec fn stray_count(stream: StreamName) -> Refusal {
    Refusal::Internal {
        message: "append count references missing snapshot stream '"@ + stream.text() + "'"@,
    }
}

/// The refusal of a second count of a stream.
pub open spec fn second_count(stream: StreamName) -> Refusal {
    Refusal::Internal {
        message: "snapshot contains duplicate append count for stream '"@ + stream.text() + "'"@,
    }
}

/// The counters that a list stands for, or why it stands for none: the first of
/// its counts that is stray or a second one.
pub open spec fn restored_counts(
    list: Seq<StreamAppendCount>,
    streams: Seq<BucketStreamId>,
) -> Result<Map<StreamName, u64>, Refusal>
    decreases list.len(),
{
    if list.len() == 0 {
        Ok(Map::empty())
    } else {
        let stream = list.last().stream_id@;
        match restored_counts(list.drop_last(), streams) {
            Err(refusal) => Err(refusal),
            Ok(counters) => if !names(streams, stream) {
                Err(stray_count(stream))
            } else if counters.contains_key(stream) {
                Err(second_count(stream))
            } else {
                Ok(counters.insert(stream, list.last().append_count))
            },
        }
    }
}

fn is_named(streams: &Vec<BucketStreamId>, stream: &BucketStreamId) -> (r: bool)
    ensures
        r == names(streams@, stream@),
{
    let mut i: usize = 0;
    while i < streams.len()
        invariant
            i <= streams@.len(),
            forall|j: int| 0 <= j < i ==> (#[trigger] streams@[j])@ != stream@,
        decreases streams@.len() - i,
    {
        if streams[i].same(stream) {
            return true;
        }
        i = i + 1;
    }
    false
}

/// Puts a count where it belongs.
fn insert_in_order(counts: &mut Vec<StreamAppendCount>, count: StreamAppendCount)
    requires
        in_stream_order(old(counts)@),
        !lists(old(counts)@, count.stream_id@),
    ensures
        in_stream_order(final(counts)@),
        exists|i: int|
            0 <= i <= old(counts)@.len() && final(counts)@ == #[trigger] old(counts)@.insert(
                i,
                count,
            ),
{
    let mut i: usize = 0;
    while i < counts.len() && !stream_before(&count.stream_id, &counts[i].stream_id)
        invariant
            i <= counts@.len(),
            counts@ == old(counts)@,
            forall|j: int|
                0 <= j < i ==> !order::stream_precedes(
                    count.stream_id@,
                    (#[trigger] counts@[j]).stream_id@,
                ),
        decreases counts@.len() - i,
    {
        i = i + 1;
    }
    let ghost before = counts@;
    counts.insert(i, count);
    proof {
        let after = counts@;
        assert(after =~= before.insert(i as int, count));
        assert forall|a: int, b: int| 0 <= a < b < after.len() implies order::stream_precedes(
            (#[trigger] after[a]).stream_id@,
            (#[trigger] after[b]).stream_id@,
        ) by {
            if a == i {
                assert(after[b] == before[b - 1]);
                if b - 1 > i {
                    order::law_streams_are_ordered(
                        count.stream_id@,
                        before[i as int].stream_id@,
                        before[b - 1].stream_id@,
                    );
                }
            } else if b == i {
                assert(after[a] == before[a]);
                order::law_streams_are_ordered(
                    before[a].stream_id@,
                    count.stream_id@,
                    count.stream_id@,
                );
            }
        }
    }
}

impl InMemoryGroupEngine {
    /// The counts of the streams that a snapshot holds, in order. A stream that is
    /// gone may have left a count behind; it is passed over, since a snapshot with
    /// it could not be installed.
    pub fn stream_append_counts_snapshot(&self, streams: &Vec<BucketStreamId>) -> (r: Vec<
        StreamAppendCount,
    >)
        requires
            self.wf(),
        ensures
            is_counts_snapshot(r@, self@.counts, streams@),
    {
        let counters = &self.stream_append_counts;
        let mut counts: Vec<StreamAppendCount> = Vec::new();
        let mut i: usize = 0;
        while i < counters.len()
            invariant
                counters.wf(),
                counters@ == self@.counts,
                i <= counters.entries().len(),
                in_stream_order(counts@),
                forall|k: int|
                    0 <= k < counts@.len() ==> {
                        let stream = (#[trigger] counts@[k]).stream_id@;
                        names(streams@, stream) && counters@.contains_key(stream)
                            && counters@[stream] == counts@[k].append_count
                    },
                forall|k: int|
                    0 <= k < counts@.len() ==> exists|j: int|
                        0 <= j < i && (#[trigger] counters.entries()[j]).0@ == (
                        #[trigger] counts@[k]).stream_id@,
                forall|j: int|
                    0 <= j < i && names(streams@, (#[trigger] counters.entries()[j]).0@) ==> lists(
                        counts@,
                        counters.entries()[j].0@,
                    ),
            decreases counters.entries().len() - i,
        {
            let (stream_id, append_count) = counters.entry(i);
            if is_named(streams, stream_id) {
                let ghost before = counts@;
                let count = StreamAppendCount {
                    stream_id: stream_id.clone(),
                    append_count: *append_count,
                };
                proof {
                    if lists(before, count.stream_id@) {
                        let k = choose|k: int|
                            0 <= k < before.len() && (#[trigger] before[k]).stream_id@
                                == count.stream_id@;
                        let j = choose|j: int|
                            0 <= j < i && (#[trigger] counters.entries()[j]).0@
                                == before[k].stream_id@;
                        assert(counters.entries()[j].0@ != counters.entries()[i as int].0@);
                    }
                }
                insert_in_order(&mut counts, count);
                proof {
                    let at = choose|at: int|
                        0 <= at <= before.len() && counts@ == #[trigger] before.insert(at, count);
                    assert forall|k: int| 0 <= k < counts@.len() implies ({
                        let stream = (#[trigger] counts@[k]).stream_id@;
                        names(streams@, stream) && counters@.contains_key(stream)
                            && counters@[stream] == counts@[k].append_count
                    }) by {
                        if k < at {
                            assert(counts@[k] == before[k]);
                        } else if k > at {
                            assert(counts@[k] == before[k - 1]);
                        }
                    }
                    assert forall|k: int| 0 <= k < counts@.len() implies exists|j: int|
                        0 <= j < i + 1 && (#[trigger] counters.entries()[j]).0@ == (
                        #[trigger] counts@[k]).stream_id@ by {
                        if k == at {
                            assert(counters.entries()[i as int].0@ == counts@[k].stream_id@);
                        } else {
                            let k2 = if k < at {
                                k
                            } else {
                                k - 1
                            };
                            assert(counts@[k] == before[k2]);
                            let j = choose|j: int|
                                0 <= j < i && (#[trigger] counters.entries()[j]).0@
                                    == before[k2].stream_id@;
                            assert(counters.entries()[j].0@ == counts@[k].stream_id@);
                        }
                    }
                    assert forall|j: int|
                        0 <= j < i + 1 && names(
                            streams@,
                            (#[trigger] counters.entries()[j]).0@,
                        ) implies lists(counts@, counters.entries()[j].0@) by {
                        let stream = counters.entries()[j].0@;
                        if j == i {
                            assert(counts@[at].stream_id@ == stream);
                        } else {
                            let k = choose|k: int|
                                0 <= k < before.len() && (#[trigger] before[k]).stream_id@ == stream;
                            let k2 = if k < at {
                                k
                            } else {
                                k + 1
                            };
                            assert(counts@[k2] == before[k]);
                        }
                    }
                }
            } else {
                proof {
                    assert forall|k: int| 0 <= k < counts@.len() implies exists|j: int|
                        0 <= j < i + 1 && (#[trigger] counters.entries()[j]).0@ == (
                        #[trigger] counts@[k]).stream_id@ by {
                        let j = choose|j: int|
                            0 <= j < i && (#[trigger] counters.entries()[j]).0@
                                == counts@[k].stream_id@;
                        assert(counters.entries()[j].0@ == counts@[k].stream_id@);
                    }
                }
            }
            i = i + 1;
        }
        proof {
            assert forall|stream: StreamName|
                self@.counts.contains_key(stream) && #[trigger] names(
                    streams@,
                    stream,
                ) implies lists(counts@, stream) by {
                let j = table::lemma_table_index(counters, stream);
                assert(counters.entries()[j].0@ == stream);
            }
        }
        counts
    }

    /// Takes the counters of a snapshot over, where they are in order; `restored`
    /// is what the stream layer made of its own part: the streams that it holds
    /// now, or why it could not be read.
    pub fn install_snapshot_parts(
        &mut self,
        group_commit_index: u64,
        restored: &Result<Vec<BucketStreamId>, String>,
        stream_append_counts: &Vec<StreamAppendCount>,
    ) -> (r: Result<(), GroupEngineError>)
        requires
            old(self).wf(),
        ensures
            final(self).wf(),
            match installed(group_commit_index, *restored, stream_append_counts@) {
                Ok(after) => r is Ok && final(self)@ == after,
                Err(refusal) => r is Err && state::is_refusal(r->Err_0, refusal)
                    && *final(self) == *old(self),
            },
    {
        match snapshot_counters(restored, stream_append_counts) {
            Ok(counters) => {
                self.commit_index = group_commit_index;
                self.stream_append_counts = counters;
                Ok(())
            },
            Err(error) => Err(error),
        }
    }
}

/// The counters of a snapshot, where they are in order.
pub fn snapshot_counters(
    restored: &Result<Vec<BucketStreamId>, String>,
    stream_append_counts: &Vec<StreamAppendCount>,
) -> (r: Result<Table<BucketStreamId, u64>, GroupEngineError>)
    ensures
        forall|index: u64|
            match #[trigger] installed(index, *restored, stream_append_counts@) {
                Ok(after) => r is Ok && r->Ok_0.wf() && r->Ok_0@ == after.counts,
                Err(refusal) => r is Err && state::is_refusal(r->Err_0, refusal),
            },
{
    match restored {
        Err(words) => {
            let mut text = "restore stream snapshot: ".to_owned();
            text.append(words.as_str());
            Err(GroupEngineError::new(text.as_str()))
        },
        Ok(streams) => restore_stream_append_counts(stream_append_counts, streams),
    }
}

/// The counters that a snapshot leads to.
pub open spec fn installed(
    group_commit_index: u64,
    restored: Result<Vec<BucketStreamId>, String>,
    counts: Seq<StreamAppendCount>,
) -> Result<EngineState, Refusal> {
    match restored {
        Err(words) => Err(Refusal::Internal { message: "restore stream snapshot: "@ + words@ }),
        Ok(streams) => match restored_counts(counts, streams@) {
            Ok(counters) => Ok(EngineState { commit_index: group_commit_index, counts: counters }),
            Err(refusal) => Err(refusal),
        },
    }
}

proof fn lemma_restored_prefix(
    list: Seq<StreamAppendCount>,
    streams: Seq<BucketStreamId>,
    n: int,
)
    requires
        0 <= n <= list.len(),
        restored_counts(list.take(n), streams) is Err,
    ensures
        restored_counts(list, streams) == restored_counts(list.take(n), streams),
    decreases list.len() - n,
{
    if n < list.len() {
        assert(list.take(n + 1).drop_last() =~= list.take(n));
        lemma_restored_prefix(list, streams, n + 1);
    } else {
        assert(list.take(n) =~= list);
    }
}

/// The counters that a list stands for.
pub fn restore_stream_append_counts(
    counts: &Vec<StreamAppendCount>,
    snapshot_stream_ids: &Vec<BucketStreamId>,
) -> (r: Result<Table<BucketStreamId, u64>, GroupEngineError>)
    ensures
        match restored_counts(counts@, snapshot_stream_ids@) {
            Ok(counters) => r is Ok && r->Ok_0.wf() && r->Ok_0@ == counters,
            Err(refusal) => r is Err && state::is_refusal(r->Err_0, refusal),
        },
{
    let mut restored: Table<BucketStreamId, u64> = Table::new();
    let mut i: usize = 0;
    assert(counts@.take(0) =~= Seq::empty());
    while i < counts.len()
        invariant
            i <= counts@.len(),
            restored.wf(),
            restored_counts(counts@.take(i as int), snapshot_stream_ids@) == Ok::<
                Map<StreamName, u64>,
                Refusal,
            >(restored@),
        decreases counts@.len() - i,
    {
        let count = &counts[i];
        proof {
            assert(counts@.take(i + 1).drop_last() =~= counts@.take(i as int));
            assert(counts@.take(i + 1).last() == *count);
        }
        if !is_named(snapshot_stream_ids, &count.stream_id) {
            proof {
                lemma_restored_prefix(counts@, snapshot_stream_ids@, i + 1);
            }
            let mut text = "append count references missing snapshot stream '".to_owned();
            text.append(count.stream_id.text().as_str());
            text.append("'");
            return Err(GroupEngineError::new(text.as_str()));
        }
        if restored.contains_key(&count.stream_id) {
            proof {
                lemma_restored_prefix(counts@, snapshot_stream_ids@, i + 1);
            }
            let mut text = "snapshot contains duplicate append count for stream '".to_owned();
            text.append(count.stream_id.text().as_str());
            text.append("'");
            return Err(GroupEngineError::new(text.as_str()));
        }
        restored.insert(count.stream_id.clone(), count.append_count);
        i = i + 1;
    }
    assert(counts@.take(i as int) =~= counts@);
    Ok(restored)
}

proof fn lemma_restored_of_ordered(
    list: Seq<StreamAppendCount>,
    streams: Seq<BucketStreamId>,
)
    requires
        in_stream_order(list),
        forall|i: int|
            0 <= i < list.len() ==> names(streams, (#[trigger] list[i]).stream_id@),
    ensures
        restored_counts(list, streams) is Ok,
        forall|stream: StreamName| #[trigger]
            restored_counts(list, streams)->Ok_0.contains_key(stream) == lists(list, stream),
        forall|i: int|
            0 <= i < list.len() ==> restored_counts(list, streams)->Ok_0[(
            #[trigger] list[i]).stream_id@] == list[i].append_count,
    decreases list.len(),
{
    if list.len() > 0 {
        let prefix = list.drop_last();
        assert forall|i: int| 0 <= i < prefix.len() implies names(
            streams,
            (#[trigger] prefix[i]).stream_id@,
        ) by {
            assert(prefix[i] == list[i]);
        }
        lemma_restored_of_ordered(prefix, streams);
        let last = list.last().stream_id@;
        assert(list.last() == list[list.len() - 1]);
        if lists(prefix, last) {
            let i = choose|i: int|
                0 <= i < prefix.len() && (#[trigger] prefix[i]).stream_id@ == last;
            assert(list[i] == prefix[i]);
            order::law_streams_are_ordered(last, last, last);
            assert(order::stream_precedes(
                list[i].stream_id@,
                list[list.len() - 1].stream_id@,
            ));
        }
        let counters = restored_counts(list, streams)->Ok_0;
        let earlier = restored_counts(prefix, streams)->Ok_0;
        assert forall|stream: StreamName| #[trigger]
            counters.contains_key(stream) == lists(list, stream) by {
            if lists(prefix, stream) {
                let i = choose|i: int|
                    0 <= i < prefix.len() && (#[trigger] prefix[i]).stream_id@ == stream;
                assert(list[i] == prefix[i]);
            }
            if lists(list, stream) && stream != last {
                let i = choose|i: int|
                    0 <= i < list.len() && (#[trigger] list[i]).stream_id@ == stream;
                assert(prefix[i] == list[i]);
            }
            assert(earlier.contains_key(stream) == lists(prefix, stream));
        }
        assert forall|i: int| 0 <= i < list.len() implies counters[(
        #[trigger] list[i]).stream_id@] == list[i].append_count by {
            if i < prefix.len() {
                assert(prefix[i] == list[i]);
                assert(lists(prefix, prefix[i].stream_id@));
            }
        }
    }
}

/// A snapshot of the counters can be installed where the same streams are
/// restored, and brings back the counters of those streams.
pub proof fn law_snapshot_can_be_installed(
    list: Seq<StreamAppendCount>,
    counters: Map<StreamName, u64>,
    streams: Seq<BucketStreamId>,
)
    requires
        is_counts_snapshot(list, counters, streams),
    ensures
        restored_counts(list, streams) == Ok::<Map<StreamName, u64>, Refusal>(
            counters.restrict(Set::new(|stream: StreamName| names(streams, stream))),
        ),
{
    lemma_restored_of_ordered(list, streams);
    let restored = restored_counts(list, streams)->Ok_0;
    let expected = counters.restrict(Set::new(|stream: StreamName| names(streams, stream)));
    assert forall|stream: StreamName| #[trigger]
        restored.contains_key(stream) == expected.contains_key(stream) by {
        assert(restored.contains_key(stream) == lists(list, stream));
        if lists(list, stream) {
            let i = choose|i: int| 0 <= i < list.len() && (#[trigger] list[i]).stream_id@ == stream;
            assert(names(streams, list[i].stream_id@));
        }
    }
    assert forall|stream: StreamName| #[trigger] restored.contains_key(stream) implies restored[stream]
        == expected[stream] by {
        let i = choose|i: int| 0 <= i < list.len() && (#[trigger] list[i]).stream_id@ == stream;
        assert(restored[list[i].stream_id@] == list[i].append_count);
    }
    assert(restored =~= expected);
}

/// A list of counts is taken over exactly where each count is of a stream that was
/// restored and no stream is counted twice. Then every stream that is listed has its
/// count, and no other stream has one.
pub proof fn law_counts_are_taken_over_exactly(
    list: Seq<StreamAppendCount>,
    streams: Seq<BucketStreamId>,
)
    ensures
        restored_counts(list, streams) is Ok <==> {
            &&& forall|i: int|
                0 <= i < list.len() ==> exists|k: int|
                    0 <= k < streams.len() && (#[trigger] streams[k])@ == (
                    #[trigger] list[i]).stream_id@
            &&& forall|i: int, j: int|
                0 <= i < j < list.len() ==> (#[trigger] list[i]).stream_id@ != (
                #[trigger] list[j]).stream_id@
        },
        restored_counts(list, streams) matches Ok(counters) ==> {
            &&& forall|i: int|
                0 <= i < list.len() ==> counters.contains_key((#[trigger] list[i]).stream_id@)
                    && counters[list[i].stream_id@] == list[i].append_count
            &&& forall|stream: StreamName| #[trigger]
                counters.contains_key(stream) ==> exists|i: int|
                    0 <= i < list.len() && (#[trigger] list[i]).stream_id@ == stream
        },
    decreases list.len(),
{
    if list.len() > 0 {
        let front = list.drop_last();
        law_counts_are_taken_over_exactly(front, streams);
        let last = list.last().stream_id@;
        let n = front.len() as int;
        assert(list[n] == list.last());
        assert(forall|i: int| 0 <= i < n ==> front[i] == #[trigger] list[i]);
        match restored_counts(front, streams) {
            Err(_) => {
                if forall|i: int|
                    0 <= i < n ==> exists|k: int|
                        0 <= k < streams.len() && (#[trigger] streams[k])@ == (
                        #[trigger] front[i]).stream_id@ {
                    let (i, j): (int, int) = choose|i: int, j: int|
                        0 <= i < j < n && (#[trigger] front[i]).stream_id@ == (
                        #[trigger] front[j]).stream_id@;
                    assert(list[i].stream_id@ == list[j].stream_id@);
                } else {
                    let i = choose|i: int|
                        0 <= i < n && !exists|k: int|
                            0 <= k < streams.len() && (#[trigger] streams[k])@ == (
                            #[trigger] front[i]).stream_id@;
                    assert(list[i] == front[i]);
                }
            },
            Ok(earlier) => {
                assert(names(streams, last) <==> exists|k: int|
                    0 <= k < streams.len() && (#[trigger] streams[k])@ == list[n].stream_id@);
                if earlier.contains_key(last) {
                    let i = choose|i: int|
                        0 <= i < n && (#[trigger] front[i]).stream_id@ == last;
                    assert(list[i].stream_id@ == list[n].stream_id@);
                } else {
                    assert forall|i: int, j: int| 0 <= i < j < list.len() implies (
                    #[trigger] list[i]).stream_id@ != (#[trigger] list[j]).stream_id@ by {
                        assert(list[i] == front[i]);
                        if j < n {
                            assert(list[j] == front[j]);
                        } else {
                            assert(earlier.contains_key(front[i].stream_id@));
                        }
                    }
                    if names(streams, last) {
                        assert forall|i: int| 0 <= i < list.len() implies exists|k: int|
                            0 <= k < streams.len() && (#[trigger] streams[k])@ == (
                            #[trigger] list[i]).stream_id@ by {
                            if i < n {
                                assert(list[i] == front[i]);
                            }
                        }
                        let counters = restored_counts(list, streams)->Ok_0;
                        assert forall|i: int| 0 <= i < list.len() implies counters.contains_key(
                            (#[trigger] list[i]).stream_id@,
                        ) && counters[list[i].stream_id@] == list[i].append_count by {
                            if i < n {
                                assert(list[i] == front[i]);
                                assert(earlier.contains_key(front[i].stream_id@));
                            }
                        }
                        assert forall|stream: StreamName| #[trigger]
                            counters.contains_key(stream) implies exists|i: int|
                            0 <= i < list.len() && (#[trigger] list[i]).stream_id@ == stream by {
                            if stream == last {
                                assert(list[n].stream_id@ == stream);
                            } else {
                                assert(earlier.contains_key(stream));
                                let i = choose|i: int|
                                    0 <= i < n && (#[trigger] front[i]).stream_id@ == stream;
                                assert(list[i].stream_id@ == stream);
                            }
                        }
                    }
                }
            },
        }
    }
}

/// A snapshot that is installed leaves the commit index and the counts that it names; one
/// whose streams could not be read is refused.
pub proof fn law_installed_snapshot_is_the_state(
    group_commit_index: u64,
    restored: Result<Vec<BucketStreamId>, String>,
    counts: Seq<StreamAppendCount>,
)
    ensures
        restored is Err ==> installed(group_commit_index, restored, counts) is Err,
        restored is Ok ==> (installed(group_commit_index, restored, counts) is Ok
            <==> restored_counts(counts, restored->Ok_0@) is Ok),
        installed(group_commit_index, restored, counts) matches Ok(after) ==> {
            &&& after.commit_index == group_commit_index
            &&& forall|i: int|
                0 <= i < counts.len() ==> after.counts.contains_key(
                    (#[trigger] counts[i]).stream_id@,
                ) && after.counts[counts[i].stream_id@] == counts[i].append_count
            &&& forall|stream: StreamName| #[trigger]
                after.counts.contains_key(stream) ==> exists|i: int|
                    0 <= i < counts.len() && (#[trigger] counts[i]).stream_id@ == stream
        },
{
    if let Ok(streams) = restored {
        law_counts_are_taken_over_exactly(counts, streams@);
    }
}

} // verus!
