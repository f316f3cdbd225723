//! The log of a replicated group, kept in memory.

use vstd::prelude::*;
use crate::io_error::IoErrorKind;
use crate::raft::{MetaRaftTypeConfig, RaftTypeConfig, UrsulaRaftTypeConfig};

verus! {

/// An entry's place in a log, and who led the group when it was written.
#[derive(Debug, Clone, Copy, PartialEq, Eq, Structural)]
pub struct RaftLogId {
    pub term: u64,
    pub leader_id: u64,
    pub index: u64,
}

/// A vote for a leader.
#[derive(Debug, Clone, Copy, PartialEq, Eq, Structural)]
pub struct RaftVote {
    pub term: u64,
    pub node_id: u64,
    pub committed: bool,
}

impl RaftVote {
    /// A vote that a majority has given.
    pub fn new_committed(term: u64, node_id: u64) -> (r: Self)
        ensures
            r == (RaftVote { term, node_id, committed: true }),
    {
        RaftVote { term, node_id, committed: true }
    }
}

/// What an entry carries.
#[derive(Debug, PartialEq, Eq)]
pub enum RaftEntryPayload<D> {
    Blank,
    Normal(D),
    Membership { voter_ids: Vec<u64>, learner_ids: Vec<u64> },
}

/// An entry of a log.
#[derive(Debug, PartialEq, Eq)]
pub struct RaftEntry<D> {
    pub log_id: RaftLogId,
    pub payload: RaftEntryPayload<D>,
}

impl<D> RaftEntry<D> {
    pub fn new(log_id: RaftLogId, payload: RaftEntryPayload<D>) -> (r: Self)
        ensures
            r == (RaftEntry { log_id, payload }),
    {
        RaftEntry { log_id, payload }
    }
}

/// How far a log reaches.
#[derive(Debug, Clone, Copy, PartialEq, Eq, Structural)]
pub struct RaftLogState {
    pub last_purged_log_id: Option<RaftLogId>,
    pub last_log_id: Option<RaftLogId>,
}

/// An append that would leave a hole in the log.
#[derive(Debug, Clone, Copy, PartialEq, Eq, Structural)]
pub struct LogHole {
    pub expected: Option<u64>,
    pub found: u64,
}

impl LogHole {
    /// The kind of I/O error that a hole is.
    pub fn kind(&self) -> (r: IoErrorKind)
        ensures
            r == IoErrorKind::InvalidData,
    {
        IoErrorKind::InvalidData
    }
}

/// A log in memory.
#[derive(Debug)]
pub struct MemoryRaftLogStore<C: RaftTypeConfig> {
    entries: Vec<RaftEntry<C::Data>>,
    purged: Option<RaftLogId>,
    vote: Option<RaftVote>,
    committed: Option<RaftLogId>,
}

/// The log of a group that keeps streams.
pub type RaftGroupLogStore = MemoryRaftLogStore<UrsulaRaftTypeConfig>;

/// The log of the group that knows the nodes.
pub type MetaRaftLogStore = MemoryRaftLogStore<MetaRaftTypeConfig>;

/// What a log is.
#[verifier::ext_equal]
pub struct LogView<D> {
    pub entries: Seq<RaftEntry<D>>,
    pub purged: Option<RaftLogId>,
    pub vote: Option<RaftVote>,
    pub committed: Option<RaftLogId>,
}

/// Whether entries follow on one another.
pub open spec fn follow_on<D>(entries: Seq<RaftEntry<D>>) -> bool {
    forall|i: int, j: int|
        0 <= i <= j < entries.len() ==> (#[trigger] entries[j]).log_id.index == (
        #[trigger] entries[i]).log_id.index + (j - i)
}

/// The entries up to an index.
pub open spec fn up_to<D>(entries: Seq<RaftEntry<D>>, index: int) -> Seq<RaftEntry<D>>
    decreases entries.len(),
{
    if entries.len() == 0 || entries.last().log_id.index <= index {
        entries
    } else {
        up_to(entries.drop_last(), index)
    }
}

/// The entries after an index.
pub open spec fn after<D>(entries: Seq<RaftEntry<D>>, index: int) -> Seq<RaftEntry<D>>
    decreases entries.len(),
{
    if entries.len() == 0 || entries.first().log_id.index > index {
        entries
    } else {
        after(entries.drop_first(), index)
    }
}

impl<D> LogView<D> {
    /// The last entry's place: of those that are there, or of those that were
    /// purged.
    pub open spec fn last(self) -> Option<RaftLogId> {
        if self.entries.len() > 0 {
            Some(self.entries.last().log_id)
        } else {
            self.purged
        }
    }

    /// The entries follow on one another, after those that were purged.
    pub open spec fn wf(self) -> bool {
        &&& follow_on(self.entries)
        &&& self.purged is Some && self.entries.len() > 0 ==> self.entries[0].log_id.index
            > self.purged->0.index
    }

    /// Whether entries follow on one another and on the log. A log that never had
    /// an entry may begin anywhere.
    pub open spec fn continued_by(self, entries: Seq<RaftEntry<D>>) -> bool {
        &&& follow_on(entries)
        &&& self.last() is Some && entries.len() > 0 ==> entries[0].log_id.index
            == self.last()->0.index + 1
    }

    /// The place before the `i`-th of the entries that are to follow on the log.
    pub open spec fn before(self, entries: Seq<RaftEntry<D>>, i: int) -> Option<RaftLogId> {
        if i > 0 {
            Some(entries[i - 1].log_id)
        } else {
            self.last()
        }
    }

    /// Whether the `i`-th of the entries is the first that does not follow: the hole
    /// says which index was due, if any could be, and which was found.
    pub open spec fn is_hole(self, entries: Seq<RaftEntry<D>>, i: int, hole: LogHole) -> bool {
        &&& 0 <= i < entries.len()
        &&& self.continued_by(entries.take(i))
        &&& !self.continued_by(entries.take(i + 1))
        &&& hole.found == entries[i].log_id.index
        &&& hole.expected == match self.before(entries, i) {
            Some(last) => if last.index < u64::MAX {
                Some((last.index + 1) as u64)
            } else {
                None
            },
            None => None,
        }
    }

    /// Whether a hole is the first among the entries.
    pub open spec fn has_hole(self, entries: Seq<RaftEntry<D>>, hole: LogHole) -> bool {
        exists|i: int| #[trigger] self.is_hole(entries, i, hole)
    }
}

proof fn lemma_up_to<D>(entries: Seq<RaftEntry<D>>, index: int)
    requires
        follow_on(entries),
    ensures
        up_to(entries, index).len() <= entries.len(),
        up_to(entries, index) == entries.take(up_to(entries, index).len() as int),
        follow_on(up_to(entries, index)),
        forall|i: int|
            0 <= i < up_to(entries, index).len() ==> (#[trigger] entries[i]).log_id.index <= index,
        forall|i: int|
            up_to(entries, index).len() <= i < entries.len() ==> (
            #[trigger] entries[i]).log_id.index > index,
    decreases entries.len(),
{
    if entries.len() == 0 {
        assert(entries =~= entries.take(0));
    } else if entries.last().log_id.index <= index {
        assert(entries =~= entries.take(entries.len() as int));
        assert forall|i: int| 0 <= i < entries.len() implies (#[trigger] entries[i]).log_id.index
            <= index by {
            assert(entries[entries.len() - 1].log_id.index == entries[i].log_id.index + (
            entries.len() - 1 - i));
        }
    } else {
        let prefix = entries.drop_last();
        assert forall|i: int, j: int| 0 <= i <= j < prefix.len() implies (
        #[trigger] prefix[j]).log_id.index == (#[trigger] prefix[i]).log_id.index + (j - i) by {
            assert(prefix[i] == entries[i]);
            assert(prefix[j] == entries[j]);
        }
        lemma_up_to(prefix, index);
        let n = up_to(entries, index).len() as int;
        assert(entries.take(n) =~= prefix.take(n));
        assert forall|i: int| 0 <= i < n implies (#[trigger] entries[i]).log_id.index <= index by {
            assert(prefix[i] == entries[i]);
        }
        assert forall|i: int| n <= i < entries.len() implies (#[trigger] entries[i]).log_id.index
            > index by {
            if i < prefix.len() {
                assert(prefix[i] == entries[i]);
            }
        }
    }
}

proof fn lemma_after<D>(entries: Seq<RaftEntry<D>>, index: int)
    requires
        follow_on(entries),
    ensures
        after(entries, index).len() <= entries.len(),
        after(entries, index) == entries.skip(entries.len() - after(entries, index).len()),
        follow_on(after(entries, index)),
        forall|i: int|
            0 <= i < entries.len() - after(entries, index).len() ==> (
            #[trigger] entries[i]).log_id.index <= index,
        forall|i: int|
            entries.len() - after(entries, index).len() <= i < entries.len() ==> (
            #[trigger] entries[i]).log_id.index > index,
    decreases entries.len(),
{
    if entries.len() == 0 {
        assert(entries =~= entries.skip(0));
    } else if entries.first().log_id.index > index {
        assert(entries =~= entries.skip(0));
        assert forall|i: int| 0 <= i < entries.len() implies (#[trigger] entries[i]).log_id.index
            > index by {
            assert(entries[i].log_id.index == entries[0].log_id.index + i);
        }
    } else {
        let rest = entries.drop_first();
        assert forall|i: int, j: int| 0 <= i <= j < rest.len() implies (
        #[trigger] rest[j]).log_id.index == (#[trigger] rest[i]).log_id.index + (j - i) by {
            assert(rest[i] == entries[i + 1]);
            assert(rest[j] == entries[j + 1]);
        }
        lemma_after(rest, index);
        let kept = after(entries, index);
        let gone = entries.len() - kept.len();
        assert(entries.skip(gone as int) =~= rest.skip(gone - 1));
        assert forall|i: int| 0 <= i < gone implies (#[trigger] entries[i]).log_id.index
            <= index by {
            if i > 0 {
                assert(rest[i - 1] == entries[i]);
            }
        }
        assert forall|i: int| gone <= i < entries.len() implies (#[trigger] entries[i]).log_id.index
            > index by {
            assert(rest[i - 1] == entries[i]);
        }
    }
}

impl<C: RaftTypeConfig> MemoryRaftLogStore<C> {
    pub closed spec fn view(&self) -> LogView<C::Data> {
        LogView {
            entries: self.entries@,
            purged: self.purged,
            vote: self.vote,
            committed: self.committed,
        }
    }

    pub open spec fn wf(&self) -> bool {
        self@.wf()
    }

    /// An empty log.
    pub fn shared() -> (r: Self)
        ensures
            r.wf(),
            r@ == (LogView::<C::Data> {
                entries: Seq::empty(),
                purged: None,
                vote: None,
                committed: None,
            }),
    {
        MemoryRaftLogStore { entries: Vec::new(), purged: None, vote: None, committed: None }
    }

    fn last_log_id(&self) -> (r: Option<RaftLogId>)
        ensures
            r == self@.last(),
    {
        if self.entries.len() > 0 {
            Some(self.entries[self.entries.len() - 1].log_id)
        } else {
            self.purged
        }
    }

    pub fn get_log_state(&self) -> (r: RaftLogState)
        ensures
            r == (RaftLogState { last_purged_log_id: self@.purged, last_log_id: self@.last() }),
    {
        RaftLogState { last_purged_log_id: self.purged, last_log_id: self.last_log_id() }
    }

    /// Adds entries behind those that are there. Entries that would leave a hole
    /// are refused, all of them, and the log stays as it was.
    pub fn append(&mut self, entries: Vec<RaftEntry<C::Data>>) -> (r: Result<(), LogHole>)
        requires
            old(self).wf(),
        ensures
            final(self).wf(),
            if old(self)@.continued_by(entries@) {
                r is Ok && final(self)@ == (LogView {
                    entries: old(self)@.entries + entries@,
                    ..old(self)@
                })
            } else {
                r is Err && final(self)@ == old(self)@
            },
            r is Err ==> old(self)@.has_hole(entries@, r->Err_0),
    {
        let mut expected: Option<u64> = match self.last_log_id() {
            Some(last) => match last.index.checked_add(1) {
                Some(next) => Some(next),
                None => {
                    if entries.len() == 0 {
                        let mut none = entries;
                        self.entries.append(&mut none);
                        assert(self@ =~= (LogView {
                            entries: old(self)@.entries + entries@,
                            ..old(self)@
                        }));
                        return Ok(());
                    }
                    let hole = LogHole { expected: None, found: entries[0].log_id.index };
                    proof {
                        assert(entries@.take(1)[0] == entries@[0]);
                        assert(self@.is_hole(entries@, 0, hole));
                    }
                    return Err(hole);
                },
            },
            None => None,
        };
        let mut i: usize = 0;
        while i < entries.len()
            invariant
                i <= entries@.len(),
                *self == *old(self),
                old(self).wf(),
                old(self)@.last() is Some ==> old(self)@.last()->0.index < u64::MAX,
                i == 0 ==> expected == match old(self)@.last() {
                    Some(last) => Some((last.index + 1) as u64),
                    None => None,
                },
                i > 0 ==> entries@[i - 1].log_id.index < u64::MAX && expected == Some(
                    (entries@[i - 1].log_id.index + 1) as u64,
                ) || i == entries@.len(),
                i > 0 ==> old(self)@.continued_by(entries@.take(i as int)),
            decreases entries@.len() - i,
        {
            let found: u64 = entries[i].log_id.index;
            if let Some(index) = expected {
                if found != index {
                    proof {
                        if old(self)@.continued_by(entries@) {
                            if i > 0 {
                                assert(entries@[i as int].log_id.index == entries@[i - 1].log_id.index
                                    + 1);
                            }
                        }
                    }
                    let hole = LogHole { expected, found };
                    proof {
                        let now = entries@.take(i + 1);
                        assert(now[i as int] == entries@[i as int]);
                        if i > 0 {
                            assert(now[i - 1] == entries@[i - 1]);
                            if old(self)@.continued_by(now) {
                                assert(now[i as int].log_id.index == now[i - 1].log_id.index + 1);
                            }
                        }
                        assert(old(self)@.is_hole(entries@, i as int, hole));
                    }
                    return Err(hole);
                }
            }
            proof {
                let now = entries@.take(i + 1);
                assert forall|a: int, b: int| 0 <= a <= b < now.len() implies (
                #[trigger] now[b]).log_id.index == (#[trigger] now[a]).log_id.index + (b - a) by {
                    if b == i && a < b {
                        let before = entries@.take(i as int);
                        assert(before[i - 1].log_id.index == before[a].log_id.index + (i - 1 - a));
                    } else if b < i {
                        let before = entries@.take(i as int);
                        assert(before[b].log_id.index == before[a].log_id.index + (b - a));
                    }
                }
                assert(now[0] == entries@[0]);
                if i > 0 {
                    assert(entries@.take(i as int)[0] == entries@[0]);
                }
                assert(old(self)@.continued_by(now));
            }
            match found.checked_add(1) {
                Some(next) => {
                    expected = Some(next);
                },
                None => {
                    if i + 1 < entries.len() {
                        proof {
                            if old(self)@.continued_by(entries@) {
                                assert(entries@[i + 1].log_id.index == entries@[i as int].log_id.index
                                    + 1);
                            }
                        }
                        let hole = LogHole { expected: None, found: entries[i + 1].log_id.index };
                        proof {
                            let now = entries@.take(i + 2);
                            assert(now[i + 1] == entries@[i + 1]);
                            assert(now[i as int] == entries@[i as int]);
                            if old(self)@.continued_by(now) {
                                assert(now[i + 1].log_id.index == now[i as int].log_id.index + 1);
                            }
                            assert(old(self)@.is_hole(entries@, i + 1, hole));
                        }
                        return Err(hole);
                    }
                },
            }
            i = i + 1;
        }
        assert(entries@.take(i as int) =~= entries@);
        let ghost before = self@.entries;
        let ghost added = entries@;
        let mut entries = entries;
        self.entries.append(&mut entries);
        proof {
            let all = self.entries@;
            assert(all =~= before + added);
            assert forall|a: int, b: int| 0 <= a <= b < all.len() implies (
            #[trigger] all[b]).log_id.index == (#[trigger] all[a]).log_id.index + (b - a) by {
                if b < before.len() {
                    assert(all[a] == before[a] && all[b] == before[b]);
                } else if a >= before.len() {
                    assert(all[a] == added[a - before.len()] && all[b] == added[b - before.len()]);
                } else {
                    assert(all[a] == before[a] && all[b] == added[b - before.len()]);
                    assert(before[before.len() - 1].log_id.index == before[a].log_id.index + (
                    before.len() - 1 - a));
                    assert(added[b - before.len()].log_id.index == added[0].log_id.index + (b
                        - before.len()));
                }
            }
            if added.len() > 0 && before.len() == 0 {
                assert(all[0] == added[0]);
            }
            assert(self@ =~= (LogView { entries: before + added, ..old(self)@ }));
        }
        Ok(())
    }

    /// The entries from `from` up to but not with `to`.
    pub fn try_get_log_entries(&self, from: u64, to: u64) -> (r: Vec<&RaftEntry<C::Data>>)
        requires
            self.wf(),
        ensures
            ({
                let found = after(up_to(self@.entries, to - 1), from - 1);
                &&& r@.len() == found.len()
                &&& forall|i: int| 0 <= i < r@.len() ==> *(#[trigger] r@[i]) == found[i]
            }),
    {
        proof {
            lemma_up_to(self@.entries, to - 1);
            lemma_after(up_to(self@.entries, to - 1), from - 1);
        }
        let ghost below = up_to(self@.entries, to - 1);
        let ghost found = after(below, from - 1);
        let ghost skipped = below.len() - found.len();
        let mut r: Vec<&RaftEntry<C::Data>> = Vec::new();
        let mut i: usize = 0;
        while i < self.entries.len()
            invariant
                i <= self.entries@.len(),
                self@.entries == self.entries@,
                below == up_to(self@.entries, to - 1),
                found == after(below, from - 1),
                skipped == below.len() - found.len(),
                below.len() <= self.entries@.len(),
                below == self.entries@.take(below.len() as int),
                found == below.skip(skipped as int),
                0 <= skipped <= below.len(),
                forall|j: int|
                    0 <= j < below.len() ==> (#[trigger] self.entries@[j]).log_id.index <= to - 1,
                forall|j: int|
                    below.len() <= j < self.entries@.len() ==> (
                    #[trigger] self.entries@[j]).log_id.index > to - 1,
                forall|j: int|
                    0 <= j < skipped ==> (#[trigger] below[j]).log_id.index <= from - 1,
                forall|j: int|
                    skipped <= j < below.len() ==> (#[trigger] below[j]).log_id.index > from - 1,
                r@.len() == if i <= skipped {
                    0
                } else if i <= below.len() {
                    i - skipped
                } else {
                    found.len() as int
                },
                forall|j: int| 0 <= j < r@.len() ==> *(#[trigger] r@[j]) == found[j],
            decreases self.entries@.len() - i,
        {
            let entry = &self.entries[i];
            proof {
                if i < below.len() {
                    assert(below[i as int] == self.entries@[i as int]);
                    if i >= skipped {
                        assert(found[i - skipped] == below[i as int]);
                    }
                }
            }
            if entry.log_id.index >= from && entry.log_id.index < to {
                r.push(entry);
            }
            i = i + 1;
        }
        r
    }

    /// Drops the entries after a place, or all of them.
    pub fn truncate_after(&mut self, last: Option<RaftLogId>)
        requires
            old(self).wf(),
        ensures
            final(self).wf(),
            final(self)@ == (LogView {
                entries: match last {
                    Some(last) => up_to(old(self)@.entries, last.index as int),
                    None => Seq::empty(),
                },
                ..old(self)@
            }),
    {
        match last {
            None => {
                self.entries = Vec::new();
            },
            Some(last) => {
                let mut len: usize = self.entries.len();
                let ghost all = self.entries@;
                assert(all.take(len as int) =~= all);
                while len > 0 && self.entries[len - 1].log_id.index > last.index
                    invariant
                        len <= all.len(),
                        self.entries@ == all,
                        *self == *old(self),
                        up_to(all, last.index as int) == up_to(
                            all.take(len as int),
                            last.index as int,
                        ),
                    decreases len,
                {
                    assert(all.take(len as int).last() == all[len - 1]);
                    assert(all.take(len as int).drop_last() =~= all.take(len - 1));
                    len = len - 1;
                }
                proof {
                    lemma_up_to(all, last.index as int);
                    if len > 0 {
                        assert(all.take(len as int).last() == all[len - 1]);
                    }
                }
                self.entries.truncate(len);
                proof {
                    assert(self.entries@ =~= all.take(len as int));
                    if len > 0 {
                        assert(self.entries@[0] == all[0]);
                    }
                }
            },
        }
        assert(self@ =~= (LogView {
            entries: match last {
                Some(last) => up_to(old(self)@.entries, last.index as int),
                None => Seq::empty(),
            },
            ..old(self)@
        }));
    }

    /// Drops the entries up to a place, and remembers the place.
    pub fn purge(&mut self, last: RaftLogId)
        requires
            old(self).wf(),
        ensures
            final(self).wf(),
            final(self)@ == (LogView {
                entries: after(old(self)@.entries, last.index as int),
                purged: if old(self)@.purged is Some && old(self)@.purged->0.index > last.index {
                    old(self)@.purged
                } else {
                    Some(last)
                },
                ..old(self)@
            }),
    {
        let ghost all = self.entries@;
        proof {
            lemma_after(all, last.index as int);
        }
        let ghost mut gone: int = 0;
        assert(all.skip(0) =~= all);
        while self.entries.len() > 0 && self.entries[0].log_id.index <= last.index
            invariant
                0 <= gone <= all.len(),
                self.entries@ == all.skip(gone),
                self.purged == old(self).purged,
                self.vote == old(self).vote,
                self.committed == old(self).committed,
                after(all, last.index as int) == after(all.skip(gone), last.index as int),
            decreases self.entries@.len(),
        {
            assert(self.entries@.first() == self.entries@[0]);
            let _ = self.entries.remove(0);
            proof {
                assert(all.skip(gone).drop_first() =~= all.skip(gone + 1));
                assert(self.entries@ =~= all.skip(gone + 1));
                gone = gone + 1;
            }
        }
        proof {
            if self.entries@.len() > 0 {
                assert(self.entries@.first() == self.entries@[0]);
                assert(self.entries@[0] == all[gone]);
                if gone > 0 {
                    assert(all[gone].log_id.index == all[0].log_id.index + gone);
                }
            }
        }
        let keeps = match self.purged {
            Some(purged) => purged.index > last.index,
            None => false,
        };
        if !keeps {
            self.purged = Some(last);
        }
        assert(self@ =~= (LogView {
            entries: after(old(self)@.entries, last.index as int),
            purged: if old(self)@.purged is Some && old(self)@.purged->0.index > last.index {
                old(self)@.purged
            } else {
                Some(last)
            },
            ..old(self)@
        }));
    }

    pub fn save_vote(&mut self, vote: &RaftVote)
        requires
            old(self).wf(),
        ensures
            final(self).wf(),
            final(self)@ == (LogView { vote: Some(*vote), ..old(self)@ }),
    {
        self.vote = Some(*vote);
    }

    pub fn read_vote(&self) -> (r: Option<RaftVote>)
        ensures
            r == self@.vote,
    {
        self.vote
    }

    pub fn save_committed(&mut self, committed: Option<RaftLogId>)
        requires
            old(self).wf(),
        ensures
            final(self).wf(),
            final(self)@ == (LogView { committed, ..old(self)@ }),
    {
        self.committed = committed;
    }

    pub fn read_committed(&self) -> (r: Option<RaftLogId>)
        ensures
            r == self@.committed,
    {
        self.committed
    }
}

/// What was appended is dropped again, and nothing else, by truncating to where the
/// log ended before.
pub proof fn law_truncate_undoes_append<D>(log: LogView<D>, entries: Seq<RaftEntry<D>>)
    requires
        log.wf(),
        log.entries.len() > 0,
        log.continued_by(entries),
    ensures
        up_to(log.entries + entries, log.last()->0.index as int) == log.entries,
    decreases entries.len(),
{
    if entries.len() == 0 {
        assert(log.entries + entries =~= log.entries);
    } else {
        let prefix = entries.drop_last();
        assert forall|i: int, j: int| 0 <= i <= j < prefix.len() implies (
        #[trigger] prefix[j]).log_id.index == (#[trigger] prefix[i]).log_id.index + (j - i) by {
            assert(prefix[i] == entries[i]);
            assert(prefix[j] == entries[j]);
        }
        if prefix.len() > 0 {
            assert(prefix[0] == entries[0]);
        }
        law_truncate_undoes_append(log, prefix);
        assert((log.entries + entries).drop_last() =~= log.entries + prefix);
        assert((log.entries + entries).last() == entries.last());
        assert(entries[entries.len() - 1].log_id.index == entries[0].log_id.index + (entries.len()
            - 1));
    }
}

/// Every entry of a log is either dropped by a purge or still there after it.
pub proof fn law_purge_divides_the_log<D>(log: LogView<D>, index: int)
    requires
        log.wf(),
    ensures
        up_to(log.entries, index) + after(log.entries, index) == log.entries,
{
    lemma_up_to(log.entries, index);
    lemma_after(log.entries, index);
    let kept = up_to(log.entries, index).len() as int;
    let gone = log.entries.len() - after(log.entries, index).len();
    if kept < gone {
        assert(log.entries[kept].log_id.index > index);
    } else if gone < kept {
        assert(log.entries[gone as int].log_id.index <= index);
    }
    assert(log.entries.take(kept) + log.entries.skip(kept) =~= log.entries);
}

/// Truncating keeps the entries whose index is no larger, a purge those whose index is
/// larger, and a range read gives those whose index is in the range, all in their order.
pub proof fn law_entries_are_found_by_their_index<D>(log: LogView<D>, from: u64, to: u64)
    requires
        log.wf(),
    ensures
        up_to(log.entries, to as int) == log.entries.filter(
            |entry: RaftEntry<D>| entry.log_id.index <= to,
        ),
        after(log.entries, from as int) == log.entries.filter(
            |entry: RaftEntry<D>| entry.log_id.index > from,
        ),
        after(up_to(log.entries, to - 1), from - 1) == log.entries.filter(
            |entry: RaftEntry<D>| from <= entry.log_id.index < to,
        ),
{
    lemma_up_to(log.entries, to as int);
    lemma_filter_prefix(
        log.entries,
        |entry: RaftEntry<D>| entry.log_id.index <= to,
        0,
        up_to(log.entries, to as int).len() as int,
    );
    assert(log.entries.take(up_to(log.entries, to as int).len() as int) =~= log.entries.subrange(
        0,
        up_to(log.entries, to as int).len() as int,
    ));
    lemma_after(log.entries, from as int);
    let kept = after(log.entries, from as int);
    lemma_filter_prefix(
        log.entries,
        |entry: RaftEntry<D>| entry.log_id.index > from,
        log.entries.len() - kept.len(),
        log.entries.len() as int,
    );
    assert(log.entries.skip(log.entries.len() - kept.len()) =~= log.entries.subrange(
        log.entries.len() - kept.len(),
        log.entries.len() as int,
    ));
    let below = up_to(log.entries, to - 1);
    lemma_up_to(log.entries, to - 1);
    lemma_after(below, from - 1);
    let found = after(below, from - 1);
    let first = below.len() - found.len();
    assert(forall|i: int| 0 <= i < below.len() ==> #[trigger] log.entries[i] == below[i]);
    lemma_filter_prefix(
        log.entries,
        |entry: RaftEntry<D>| from <= entry.log_id.index < to,
        first,
        below.len() as int,
    );
    assert(found =~= log.entries.subrange(first, below.len() as int));
}

/// A filter that passes just the entries from `first` to `end` gives these.
proof fn lemma_filter_prefix<D>(
    entries: Seq<RaftEntry<D>>,
    keep: spec_fn(RaftEntry<D>) -> bool,
    first: int,
    end: int,
)
    requires
        0 <= first <= end <= entries.len(),
        forall|i: int|
            0 <= i < entries.len() ==> (keep(#[trigger] entries[i]) <==> first <= i < end),
    ensures
        entries.filter(keep) == entries.subrange(first, end),
    decreases entries.len(),
{
    reveal(Seq::filter);
    if entries.len() > 0 {
        let front = entries.drop_last();
        assert(forall|i: int| 0 <= i < front.len() ==> front[i] == #[trigger] entries[i]);
        assert(entries.last() == entries[entries.len() - 1]);
        if end == entries.len() && first < end {
            lemma_filter_prefix(front, keep, first, end - 1);
            assert(front.subrange(first, end - 1).push(entries.last()) =~= entries.subrange(
                first,
                end,
            ));
        } else if end < entries.len() {
            lemma_filter_prefix(front, keep, first, end);
            assert(front.subrange(first, end) =~= entries.subrange(first, end));
        } else {
            lemma_filter_prefix(front, keep, first - 1, end - 1);
            assert(front.subrange(first - 1, end - 1) =~= entries.subrange(first, end));
        }
    } else {
        assert(entries.subrange(first, end) =~= Seq::empty());
    }
}

/// The last place of a log is that of its last entry, and only a log without entries ends
/// where it was purged.
pub proof fn law_log_ends_with_its_last_entry<D>(log: LogView<D>)
    ensures
        log.entries.len() > 0 ==> log.last() == Some(
            log.entries[log.entries.len() - 1].log_id,
        ),
        log.entries.len() == 0 ==> log.last() == log.purged,
{
}

/// Entries are taken exactly where the first has the index behind the last of the log, if
/// it has one, and each other the index behind that of the one before it. A log that has
/// taken them is without a hole and ends with the last of them.
pub proof fn law_taken_entries_leave_no_hole<D>(log: LogView<D>, entries: Seq<RaftEntry<D>>)
    requires
        log.wf(),
    ensures
        log.continued_by(entries) <==> {
            &&& forall|i: int|
                0 < i < entries.len() ==> (#[trigger] entries[i]).log_id.index
                    == entries[i - 1].log_id.index + 1
            &&& entries.len() > 0 && log.entries.len() > 0 ==> entries[0].log_id.index
                == log.entries[log.entries.len() - 1].log_id.index + 1
            &&& entries.len() > 0 && log.entries.len() == 0 && log.purged is Some
                ==> entries[0].log_id.index == log.purged->0.index + 1
        },
        log.continued_by(entries) ==> {
            let all = log.entries + entries;
            forall|i: int|
                0 < i < all.len() ==> (#[trigger] all[i]).log_id.index == all[i - 1].log_id.index
                    + 1
        },
{
    if forall|i: int|
        0 < i < entries.len() ==> (#[trigger] entries[i]).log_id.index == entries[i
            - 1].log_id.index + 1 {
        assert forall|i: int, j: int| 0 <= i <= j < entries.len() implies (
        #[trigger] entries[j]).log_id.index == (#[trigger] entries[i]).log_id.index + (j - i) by {
            lemma_steps(entries, i, j);
        }
    }
    if log.continued_by(entries) {
        assert forall|i: int| 0 < i < entries.len() implies (#[trigger] entries[i]).log_id.index
            == entries[i - 1].log_id.index + 1 by {
            assert(entries[i].log_id.index == entries[i - 1].log_id.index + (i - (i - 1)));
        }
        let all = log.entries + entries;
        let n = log.entries.len() as int;
        assert forall|i: int| 0 < i < all.len() implies (#[trigger] all[i]).log_id.index == all[i
            - 1].log_id.index + 1 by {
            if i < n {
                assert(all[i] == log.entries[i]);
                assert(all[i - 1] == log.entries[i - 1]);
                assert(log.entries[i].log_id.index == log.entries[i - 1].log_id.index + (i - (i
                    - 1)));
            } else if i > n {
                assert(all[i] == entries[i - n]);
                assert(all[i - 1] == entries[i - n - 1]);
            }
        }
    }
}

proof fn lemma_steps<D>(entries: Seq<RaftEntry<D>>, i: int, j: int)
    requires
        0 <= i <= j < entries.len(),
        forall|k: int|
            0 < k < entries.len() ==> (#[trigger] entries[k]).log_id.index == entries[k
                - 1].log_id.index + 1,
    ensures
        entries[j].log_id.index == entries[i].log_id.index + (j - i),
    decreases j - i,
{
    if i < j {
        lemma_steps(entries, i, j - 1);
        assert(entries[j].log_id.index == entries[j - 1].log_id.index + 1);
    }
}

} // verus!
