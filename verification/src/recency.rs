//! Which entry of a table was used least recently.
//!
//! Every use of an entry is recorded at the back of a queue together with a
//! stamp, and the entry keeps the stamp of its last use. A record is current
//! while its stamp is the one that the entry keeps.

use std::collections::VecDeque;
use vstd::prelude::*;
use crate::table::{Key, Table};

verus! {

/// A table value that keeps the stamp of its last use.
pub trait Stamped: Sized {
    spec fn stamp(&self) -> u64;

    fn last_use(&self) -> (r: u64)
        ensures
            r == self.stamp(),
    ;
}

/// Whether a record is the last use of an entry.
pub open spec fn is_current<N>(record: (N, u64), stamps: Map<N, u64>) -> bool {
    stamps.contains_key(record.0) && stamps[record.0] == record.1
}

/// Where the first current record stands.
pub open spec fn oldest<N>(records: Seq<(N, u64)>, stamps: Map<N, u64>) -> int
    decreases records.len(),
{
    if records.len() == 0 || is_current(records[0], stamps) {
        0
    } else {
        1 + oldest(records.drop_first(), stamps)
    }
}

/// Whether the last use of every entry is recorded.
pub open spec fn all_recorded<N>(records: Seq<(N, u64)>, stamps: Map<N, u64>) -> bool {
    forall|key: N| #[trigger] stamps.contains_key(key) ==> records.contains((key, stamps[key]))
}

/// Whether later records have greater stamps, none above `latest`.
pub open spec fn in_order<N>(records: Seq<(N, u64)>, latest: int) -> bool {
    &&& forall|i: int| 0 <= i < records.len() ==> (#[trigger] records[i]).1 <= latest
    &&& forall|i: int, j: int|
        0 <= i < j < records.len() ==> (#[trigger] records[i]).1 < (#[trigger] records[j]).1
}

/// The records by key name.
pub open spec fn record_names<K: Key>(records: Seq<(K, u64)>) -> Seq<(K::V, u64)> {
    records.map_values(|record: (K, u64)| (record.0@, record.1))
}

/// The stamps that a table keeps.
pub open spec fn stamps_of<K: Key, V: Stamped>(entries: Map<K::V, V>) -> Map<K::V, u64> {
    entries.map_values(|value: V| value.stamp())
}

pub proof fn lemma_oldest<N>(records: Seq<(N, u64)>, stamps: Map<N, u64>)
    ensures
        0 <= oldest(records, stamps) <= records.len(),
        oldest(records, stamps) < records.len() ==> is_current(
            records[oldest(records, stamps)],
            stamps,
        ),
        forall|i: int| 0 <= i < oldest(records, stamps) ==> !is_current(#[trigger] records[i], stamps),
    decreases records.len(),
{
    if records.len() == 0 || is_current(records[0], stamps) {
    } else {
        let rest = records.drop_first();
        lemma_oldest(rest, stamps);
        assert forall|i: int| 0 <= i < oldest(records, stamps) implies !is_current(
            #[trigger] records[i],
            stamps,
        ) by {
            if i > 0 {
                assert(rest[i - 1] == records[i]);
            }
        }
    }
}

/// While there is an entry, some record is current.
pub proof fn lemma_oldest_exists<N>(records: Seq<(N, u64)>, stamps: Map<N, u64>, key: N)
    requires
        all_recorded(records, stamps),
        stamps.contains_key(key),
    ensures
        oldest(records, stamps) < records.len(),
{
    lemma_oldest(records, stamps);
    let at = choose|i: int| 0 <= i < records.len() && records[i] == (key, stamps[key]);
    assert(records.contains((key, stamps[key])));
    assert(is_current(records[at], stamps));
}

/// The first current record is the least recent last use.
pub proof fn lemma_oldest_is_least_recent<N>(
    records: Seq<(N, u64)>,
    stamps: Map<N, u64>,
    latest: int,
    key: N,
)
    requires
        all_recorded(records, stamps),
        in_order(records, latest),
        stamps.contains_key(key),
    ensures
        ({
            let victim = records[oldest(records, stamps)].0;
            &&& oldest(records, stamps) < records.len()
            &&& stamps.contains_key(victim)
            &&& victim != key ==> stamps[victim] < stamps[key]
        }),
{
    lemma_oldest(records, stamps);
    lemma_oldest_exists(records, stamps, key);
    assert(records.contains((key, stamps[key])));
    let at = choose|i: int| 0 <= i < records.len() && records[i] == (key, stamps[key]);
    assert(is_current(records[at], stamps));
    let first = oldest(records, stamps);
    assert(first <= at);
    if first < at {
        assert(records[first].1 < records[at].1);
    }
}

/// Dropping the records up to the oldest, and its entry, keeps the last uses of
/// the others recorded.
pub proof fn lemma_oldest_dropped<N>(records: Seq<(N, u64)>, stamps: Map<N, u64>)
    requires
        all_recorded(records, stamps),
        oldest(records, stamps) < records.len(),
    ensures
        ({
            let first = oldest(records, stamps);
            all_recorded(records.skip(first + 1), stamps.remove(records[first].0))
        }),
{
    lemma_oldest(records, stamps);
    let first = oldest(records, stamps);
    let rest = records.skip(first + 1);
    let left = stamps.remove(records[first].0);
    assert forall|key: N| #[trigger] left.contains_key(key) implies rest.contains(
        (key, left[key]),
    ) by {
        assert(stamps.contains_key(key));
        assert(records.contains((key, stamps[key])));
        let at = choose|i: int| 0 <= i < records.len() && records[i] == (key, stamps[key]);
        assert(is_current(records[at], stamps));
        assert(at > first);
        assert(rest[at - first - 1] == records[at]);
    }
}

pub proof fn lemma_in_order_skip<N>(records: Seq<(N, u64)>, latest: int, count: int)
    requires
        in_order(records, latest),
        0 <= count <= records.len(),
    ensures
        in_order(records.skip(count), latest),
{
    let rest = records.skip(count);
    assert forall|i: int| 0 <= i < rest.len() implies (#[trigger] rest[i]).1 <= latest by {
        assert(rest[i] == records[i + count]);
    }
    assert forall|i: int, j: int| 0 <= i < j < rest.len() implies (#[trigger] rest[i]).1 < (
    #[trigger] rest[j]).1 by {
        assert(rest[i] == records[i + count]);
        assert(rest[j] == records[j + count]);
    }
}

/// Using an entry once more keeps all last uses recorded.
pub proof fn lemma_recorded_push<N>(
    records: Seq<(N, u64)>,
    stamps: Map<N, u64>,
    key: N,
    stamp: u64,
)
    requires
        all_recorded(records, stamps),
    ensures
        all_recorded(records.push((key, stamp)), stamps.insert(key, stamp)),
        all_recorded(records.push((key, stamp)), stamps),
{
    let longer = records.push((key, stamp));
    let more = stamps.insert(key, stamp);
    assert(longer[records.len() as int] == (key, stamp));
    assert forall|other: N| #[trigger] stamps.contains_key(other) implies longer.contains(
        (other, stamps[other]),
    ) by {
        assert(records.contains((other, stamps[other])));
        let at = choose|i: int| 0 <= i < records.len() && records[i] == (other, stamps[other]);
        assert(longer[at] == records[at]);
    }
    assert forall|other: N| #[trigger] more.contains_key(other) implies longer.contains(
        (other, more[other]),
    ) by {
        if other != key {
            assert(stamps.contains_key(other));
        }
    }
}

/// A new stamp above all others keeps the records in order.
pub proof fn lemma_in_order_push<N>(records: Seq<(N, u64)>, latest: int, key: N, stamp: u64)
    requires
        in_order(records, latest),
        latest < stamp,
    ensures
        in_order(records.push((key, stamp)), stamp as int),
{
}

/// Drops records up to the oldest current one and gives the key that it names.
pub fn take_oldest<K: Key, V: Stamped>(
    records: &mut VecDeque<(K, u64)>,
    entries: &Table<K, V>,
) -> (r: Option<K>)
    requires
        entries.wf(),
    ensures
        ({
            let before = record_names(old(records)@);
            let after = record_names(final(records)@);
            let first = oldest(before, stamps_of::<K, V>(entries@));
            match r {
                Some(key) => {
                    &&& first < before.len()
                    &&& key@ == before[first].0
                    &&& after == before.skip(first + 1)
                },
                None => first == before.len() && after.len() == 0,
            }
        }),
{
    let ghost before = record_names(records@);
    let ghost stamps = stamps_of::<K, V>(entries@);
    let ghost mut dropped: int = 0;
    assert(before.skip(0) =~= before);
    loop
        invariant
            entries.wf(),
            before == record_names(old(records)@),
            stamps == stamps_of::<K, V>(entries@),
            0 <= dropped <= before.len(),
            record_names(records@) == before.skip(dropped),
            oldest(before, stamps) == dropped + oldest(before.skip(dropped), stamps),
        decreases before.len() - dropped,
    {
        let ghost names = record_names(records@);
        match records.pop_front() {
            Some((key, stamp)) => {
                proof {
                    assert(names[0] == (key@, stamp));
                    assert(record_names(records@) =~= names.drop_first());
                    assert(names.drop_first() =~= before.skip(dropped + 1));
                }
                match entries.get(&key) {
                    Some(value) => {
                        if value.last_use() == stamp {
                            assert(is_current(names[0], stamps));
                            return Some(key);
                        }
                    },
                    None => {},
                }
                proof {
                    assert(!is_current(names[0], stamps));
                    dropped = dropped + 1;
                }
            },
            None => {
                assert(names.len() == 0);
                return None;
            },
        }
    }
}

} // verus!
