//! Write-path admission by uncommitted bytes.
//!
//! A group takes no more writes while too many bytes that were submitted to
//! replication are not applied yet.

use vstd::prelude::*;
use crate::ids::RaftGroupId;

verus! {

/// How many submitted but unapplied bytes a group may have; no bound where the
/// limit is absent.
#[derive(Debug, Clone, Copy, PartialEq, Eq, Structural)]
pub struct RaftUncommittedAdmission {
    pub max_uncommitted_bytes_per_group: Option<u64>,
}

impl Default for RaftUncommittedAdmission {
    fn default() -> (r: Self)
        ensures
            r.max_uncommitted_bytes_per_group is None,
    {
        RaftUncommittedAdmission { max_uncommitted_bytes_per_group: None }
    }
}

impl RaftUncommittedAdmission {
    pub fn is_enabled(self) -> (r: bool)
        ensures
            r == (self.max_uncommitted_bytes_per_group is Some),
    {
        self.max_uncommitted_bytes_per_group.is_some()
    }
}

/// Per-group counts of submitted but unapplied bytes.
#[derive(Debug)]
pub struct RaftUncommittedBytesTracker {
    per_group: Vec<u64>,
}

/// A counter after `bytes` more, wrapping at its end.
pub open spec fn wrapping_sum(count: u64, bytes: u64) -> u64 {
    if count + bytes > u64::MAX {
        (count + bytes - 0x1_0000_0000_0000_0000) as u64
    } else {
        (count + bytes) as u64
    }
}

/// A counter after `bytes` less, stopping at zero.
pub open spec fn saturating_difference(count: u64, bytes: u64) -> u64 {
    if bytes > count {
        0
    } else {
        (count - bytes) as u64
    }
}

impl View for RaftUncommittedBytesTracker {
    type V = Seq<u64>;

    closed spec fn view(&self) -> Seq<u64> {
        self.per_group@
    }
}

impl RaftUncommittedBytesTracker {
    pub fn new(group_count: usize) -> (r: Self)
        ensures
            r@ == Seq::new(group_count as nat, |i: int| 0u64),
    {
        let mut per_group: Vec<u64> = Vec::new();
        let mut i: usize = 0;
        while i < group_count
            invariant
                i <= group_count,
                per_group@ == Seq::new(i as nat, |j: int| 0u64),
            decreases group_count - i,
        {
            per_group.push(0);
            i = i + 1;
            assert(per_group@ =~= Seq::new(i as nat, |j: int| 0u64));
        }
        RaftUncommittedBytesTracker { per_group }
    }

    /// How many groups are counted.
    pub fn group_count(&self) -> (r: usize)
        ensures
            r == self@.len(),
    {
        self.per_group.len()
    }

    pub fn load(&self, group_id: RaftGroupId) -> (r: u64)
        requires
            group_id.0 < self@.len(),
        ensures
            r == self@[group_id.0 as int],
    {
        self.per_group[group_id.0 as usize]
    }

    pub fn add(&mut self, group_id: RaftGroupId, bytes: u64)
        requires
            group_id.0 < old(self)@.len(),
        ensures
            final(self)@ == old(self)@.update(
                group_id.0 as int,
                wrapping_sum(old(self)@[group_id.0 as int], bytes),
            ),
            final(self)@[group_id.0 as int] == (old(self)@[group_id.0 as int] + bytes)
                % 0x1_0000_0000_0000_0000,
    {
        let slot: usize = group_id.0 as usize;
        let count: u64 = self.per_group[slot];
        self.per_group.set(slot, count.wrapping_add(bytes));
    }

    /// Takes bytes off again. More than were counted leave zero.
    pub fn sub(&mut self, group_id: RaftGroupId, bytes: u64)
        requires
            group_id.0 < old(self)@.len(),
        ensures
            final(self)@ == old(self)@.update(
                group_id.0 as int,
                saturating_difference(old(self)@[group_id.0 as int], bytes),
            ),
            bytes <= old(self)@[group_id.0 as int] ==> final(self)@[group_id.0 as int] == old(
                self
            )@[group_id.0 as int] - bytes,
            bytes > old(self)@[group_id.0 as int] ==> final(self)@[group_id.0 as int] == 0,
    {
        let slot: usize = group_id.0 as usize;
        let count: u64 = self.per_group[slot];
        self.per_group.set(slot, count.saturating_sub(bytes));
    }
}

/// Bytes that were counted for a group and are owed back.
#[derive(Debug)]
pub struct UncommittedBytesGuard {
    group_id: RaftGroupId,
    bytes: u64,
    armed: bool,
}

impl UncommittedBytesGuard {
    pub closed spec fn group(&self) -> RaftGroupId {
        self.group_id
    }

    pub closed spec fn bytes(&self) -> u64 {
        self.bytes
    }

    /// Whether the guard gives its bytes back when it is released.
    pub closed spec fn armed(&self) -> bool {
        self.armed
    }

    /// Counts `bytes` for the group.
    pub fn new(
        tracker: &mut RaftUncommittedBytesTracker,
        group_id: RaftGroupId,
        bytes: u64,
    ) -> (r: Self)
        requires
            group_id.0 < old(tracker)@.len(),
        ensures
            final(tracker)@ == old(tracker)@.update(
                group_id.0 as int,
                wrapping_sum(old(tracker)@[group_id.0 as int], bytes),
            ),
            r.group() == group_id,
            r.bytes() == bytes,
            r.armed(),
    {
        tracker.add(group_id, bytes);
        UncommittedBytesGuard { group_id, bytes, armed: true }
    }

    /// Leaves the bytes counted, for whoever has taken them over.
    pub fn disarm(self) -> (r: Self)
        ensures
            r.group() == self.group(),
            r.bytes() == self.bytes(),
            !r.armed(),
    {
        UncommittedBytesGuard { group_id: self.group_id, bytes: self.bytes, armed: false }
    }

    /// Gives the bytes back.
    pub fn release(self, tracker: &mut RaftUncommittedBytesTracker)
        requires
            self.group().0 < old(tracker)@.len(),
        ensures
            final(tracker)@ == if self.armed() {
                old(tracker)@.update(
                    self.group().0 as int,
                    saturating_difference(old(tracker)@[self.group().0 as int], self.bytes()),
                )
            } else {
                old(tracker)@
            },
    {
        if self.armed {
            tracker.sub(self.group_id, self.bytes);
        }
    }
}

/// Counting bytes and giving them back leaves the count as it was, unless the
/// count ran over its end.
pub proof fn law_guard_round_trip(count: u64, bytes: u64)
    requires
        count + bytes <= u64::MAX,
    ensures
        saturating_difference(wrapping_sum(count, bytes), bytes) == count,
{
}

/// The counts of all groups once a guard, if there is one, has given its bytes back.
pub open spec fn given_back(counts: Seq<u64>, guard: Option<UncommittedBytesGuard>) -> Seq<u64> {
    match guard {
        Some(guard) => if guard.armed() {
            counts.update(
                guard.group().0 as int,
                saturating_difference(counts[guard.group().0 as int], guard.bytes()),
            )
        } else {
            counts
        },
        None => counts,
    }
}

/// Whether a guard, if there is one, is of a group that is counted.
pub open spec fn is_of_counted_group(counts: Seq<u64>, guard: Option<UncommittedBytesGuard>) -> bool {
    guard matches Some(guard) ==> guard.group().0 < counts.len()
}

/// Gives the bytes of a guard back, if there is one.
pub fn give_back(tracker: &mut RaftUncommittedBytesTracker, guard: Option<UncommittedBytesGuard>)
    requires
        is_of_counted_group(old(tracker)@, guard),
    ensures
        final(tracker)@ == given_back(old(tracker)@, guard),
{
    if let Some(guard) = guard {
        guard.release(tracker);
    }
}

/// How many bytes of a group the guards owe.
pub open spec fn owed(guards: Seq<UncommittedBytesGuard>, group: int) -> nat
    decreases guards.len(),
{
    if guards.len() == 0 {
        0
    } else {
        owed(guards.drop_last(), group) + owed_by(guards.last(), group)
    }
}

/// How many bytes of a group a guard owes.
pub open spec fn owed_by(guard: UncommittedBytesGuard, group: int) -> nat {
    if guard.armed() && guard.group().0 == group {
        guard.bytes() as nat
    } else {
        0
    }
}

/// Whether each group counts what the guards owe it, and no more.
pub open spec fn is_balanced(counts: Seq<u64>, guards: Seq<UncommittedBytesGuard>) -> bool {
    &&& forall|i: int|
        0 <= i < guards.len() ==> (#[trigger] guards[i]).group().0 < counts.len()
    &&& forall|group: int|
        0 <= group < counts.len() ==> #[trigger] counts[group] == owed(guards, group)
}

/// The counts once all the guards have given their bytes back, the last one first.
pub open spec fn all_given_back(
    counts: Seq<u64>,
    guards: Seq<UncommittedBytesGuard>,
) -> Seq<u64>
    decreases guards.len(),
{
    if guards.len() == 0 {
        counts
    } else {
        all_given_back(given_back(counts, Some(guards.last())), guards.drop_last())
    }
}

proof fn lemma_owed_without(guards: Seq<UncommittedBytesGuard>, i: int, group: int)
    requires
        0 <= i < guards.len(),
    ensures
        owed(guards, group) == owed(guards.remove(i), group) + owed_by(guards[i], group),
    decreases guards.len(),
{
    if i == guards.len() - 1 {
        assert(guards.remove(i) =~= guards.drop_last());
    } else {
        lemma_owed_without(guards.drop_last(), i, group);
        assert(guards.remove(i).drop_last() =~= guards.drop_last().remove(i));
        assert(guards.remove(i).last() == guards.last());
    }
}

/// Counting the bytes of a new guard keeps the balance, unless the count runs over
/// its end.
pub proof fn law_new_guard_keeps_the_balance(
    counts: Seq<u64>,
    guards: Seq<UncommittedBytesGuard>,
    guard: UncommittedBytesGuard,
)
    requires
        is_balanced(counts, guards),
        guard.armed(),
        guard.group().0 < counts.len(),
        counts[guard.group().0 as int] + guard.bytes() <= u64::MAX,
    ensures
        is_balanced(
            counts.update(
                guard.group().0 as int,
                wrapping_sum(counts[guard.group().0 as int], guard.bytes()),
            ),
            guards.push(guard),
        ),
{
    let after = counts.update(
        guard.group().0 as int,
        wrapping_sum(counts[guard.group().0 as int], guard.bytes()),
    );
    assert forall|group: int| 0 <= group < after.len() implies #[trigger] after[group] == owed(
        guards.push(guard),
        group,
    ) by {
        assert(guards.push(guard).drop_last() =~= guards);
        assert(counts[group] == owed(guards, group));
    }
}

/// Whichever guard gives its bytes back, the others stay balanced.
pub proof fn law_release_keeps_the_balance(
    counts: Seq<u64>,
    guards: Seq<UncommittedBytesGuard>,
    i: int,
)
    requires
        is_balanced(counts, guards),
        0 <= i < guards.len(),
    ensures
        is_balanced(given_back(counts, Some(guards[i])), guards.remove(i)),
{
    let after = given_back(counts, Some(guards[i]));
    assert forall|group: int| 0 <= group < after.len() implies #[trigger] after[group] == owed(
        guards.remove(i),
        group,
    ) by {
        lemma_owed_without(guards, i, group);
        assert(counts[group] == owed(guards, group));
    }
}

/// No bytes stay counted once every guard has given its own back.
pub proof fn law_no_credit_is_lost(counts: Seq<u64>, guards: Seq<UncommittedBytesGuard>)
    requires
        is_balanced(counts, guards),
    ensures
        all_given_back(counts, guards) == Seq::new(counts.len(), |group: int| 0u64),
    decreases guards.len(),
{
    if guards.len() == 0 {
        assert(counts =~= Seq::new(counts.len(), |group: int| 0u64));
    } else {
        law_release_keeps_the_balance(counts, guards, guards.len() - 1);
        assert(guards.remove(guards.len() - 1) =~= guards.drop_last());
        law_no_credit_is_lost(given_back(counts, Some(guards.last())), guards.drop_last());
    }
}

/// A counter that takes more counts on from zero behind its end, and a counter that gives
/// some back stops at zero.
pub proof fn law_counters_wrap_and_stop(count: u64, bytes: u64)
    ensures
        wrapping_sum(count, bytes) == (count + bytes) % 0x1_0000_0000_0000_0000,
        bytes <= count ==> saturating_difference(count, bytes) + bytes == count,
        bytes > count ==> saturating_difference(count, bytes) == 0,
{
}

} // verus!
