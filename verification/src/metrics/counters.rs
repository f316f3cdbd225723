//! Counters and rows of counters.

use vstd::prelude::*;
use crate::admission;

verus! {

/// A counter.
#[derive(Debug)]
pub struct PaddedAtomicU64 {
    value: u64,
}

/// A counter after `by` less, wrapping at zero.
pub open spec fn wrapping_difference(count: u64, by: u64) -> u64 {
    if by > count {
        (count - by + 0x1_0000_0000_0000_0000) as u64
    } else {
        (count - by) as u64
    }
}

/// The larger of two.
pub open spec fn larger(a: u64, b: u64) -> u64 {
    if a < b {
        b
    } else {
        a
    }
}

/// The depth of a mailbox after one more, as far as it can be counted.
pub open spec fn next_depth(depth: u64) -> u64 {
    if depth == u64::MAX {
        u64::MAX
    } else {
        (depth + 1) as u64
    }
}

/// The sum of a row.
pub open spec fn total(row: Seq<u64>) -> int
    decreases row.len(),
{
    if row.len() == 0 {
        0
    } else {
        total(row.drop_last()) + row.last()
    }
}

/// The largest of a row, zero where it is empty.
pub open spec fn largest(row: Seq<u64>) -> u64
    decreases row.len(),
{
    if row.len() == 0 {
        0
    } else {
        larger(largest(row.drop_last()), row.last())
    }
}

/// A row of zeros.
pub open spec fn zeros(len: nat) -> Seq<u64> {
    Seq::new(len, |i: int| 0u64)
}

impl View for PaddedAtomicU64 {
    type V = u64;

    closed spec fn view(&self) -> u64 {
        self.value
    }
}

impl PaddedAtomicU64 {
    pub fn new(value: u64) -> (r: Self)
        ensures
            r@ == value,
    {
        PaddedAtomicU64 { value }
    }

    pub fn load_relaxed(&self) -> (r: u64)
        ensures
            r == self@,
    {
        self.value
    }

    /// Adds, wrapping at the end, and gives what was there before.
    pub fn fetch_add_relaxed(&mut self, value: u64) -> (r: u64)
        ensures
            r == old(self)@,
            final(self)@ == admission::wrapping_sum(old(self)@, value),
    {
        let before: u64 = self.value;
        self.value = before.wrapping_add(value);
        before
    }

    /// Takes off, wrapping at zero.
    pub fn fetch_sub_relaxed(&mut self, value: u64)
        ensures
            final(self)@ == wrapping_difference(old(self)@, value),
    {
        self.value = self.value.wrapping_sub(value);
    }

    /// Takes off, stopping at zero.
    pub fn fetch_sub_saturating_relaxed(&mut self, value: u64)
        ensures
            final(self)@ == admission::saturating_difference(old(self)@, value),
    {
        self.value = self.value.saturating_sub(value);
    }

    pub fn fetch_max_relaxed(&mut self, value: u64)
        ensures
            final(self)@ == larger(old(self)@, value),
    {
        if self.value < value {
            self.value = value;
        }
    }

    pub fn store_relaxed(&mut self, value: u64)
        ensures
            final(self)@ == value,
    {
        self.value = value;
    }
}

/// A counter for each core or each group.
#[derive(Debug)]
pub struct CounterRow {
    counters: Vec<u64>,
}

impl View for CounterRow {
    type V = Seq<u64>;

    closed spec fn view(&self) -> Seq<u64> {
        self.counters@
    }
}

impl CounterRow {
    pub fn zeroed(len: usize) -> (r: Self)
        ensures
            r@ == zeros(len as nat),
    {
        let mut counters: Vec<u64> = Vec::new();
        let mut i: usize = 0;
        while i < len
            invariant
                i <= len,
                counters@ == zeros(i as nat),
            decreases len - i,
        {
            counters.push(0);
            i = i + 1;
            assert(counters@ =~= zeros(i as nat));
        }
        CounterRow { counters }
    }

    pub fn load(&self) -> (r: Vec<u64>)
        ensures
            r@ == self@,
    {
        self.counters.clone()
    }

    /// Adds to a counter, wrapping at the end, and gives what was there before.
    pub fn fetch_add_relaxed(&mut self, index: usize, value: u64) -> (r: u64)
        requires
            index < old(self)@.len(),
        ensures
            r == old(self)@[index as int],
            final(self)@ == old(self)@.update(
                index as int,
                admission::wrapping_sum(old(self)@[index as int], value),
            ),
    {
        let before: u64 = self.counters[index];
        self.counters.set(index, before.wrapping_add(value));
        before
    }

    /// Takes off a counter, wrapping at zero.
    pub fn fetch_sub_relaxed(&mut self, index: usize, value: u64)
        requires
            index < old(self)@.len(),
        ensures
            final(self)@ == old(self)@.update(
                index as int,
                wrapping_difference(old(self)@[index as int], value),
            ),
    {
        let before: u64 = self.counters[index];
        self.counters.set(index, before.wrapping_sub(value));
    }

    /// Takes off a counter, stopping at zero.
    pub fn fetch_sub_saturating_relaxed(&mut self, index: usize, value: u64)
        requires
            index < old(self)@.len(),
        ensures
            final(self)@ == old(self)@.update(
                index as int,
                admission::saturating_difference(old(self)@[index as int], value),
            ),
    {
        let before: u64 = self.counters[index];
        self.counters.set(index, before.saturating_sub(value));
    }

    pub fn fetch_max_relaxed(&mut self, index: usize, value: u64)
        requires
            index < old(self)@.len(),
        ensures
            final(self)@ == old(self)@.update(
                index as int,
                larger(old(self)@[index as int], value),
            ),
    {
        let before: u64 = self.counters[index];
        self.counters.set(index, if before < value {
            value
        } else {
            before
        });
    }

    pub fn store_relaxed(&mut self, index: usize, value: u64)
        requires
            index < old(self)@.len(),
        ensures
            final(self)@ == old(self)@.update(index as int, value),
    {
        self.counters.set(index, value);
    }
}

proof fn lemma_total_prefix(row: Seq<u64>, n: int)
    requires
        0 <= n <= row.len(),
    ensures
        0 <= total(row.take(n)) <= total(row),
    decreases row.len(),
{
    if n < row.len() {
        lemma_total_prefix(row.drop_last(), n);
        assert(row.drop_last().take(n) =~= row.take(n));
    } else {
        assert(row.take(n) =~= row);
        if n > 0 {
            lemma_total_prefix(row.drop_last(), n - 1);
            assert(row.drop_last().take(n - 1) =~= row.drop_last());
        }
    }
}

/// The sum of a row.
pub fn sum_of(row: &CounterRow) -> (r: u64)
    requires
        total(row@) <= u64::MAX,
    ensures
        r == total(row@),
{
    let mut sum: u64 = 0;
    let mut i: usize = 0;
    assert(row@.take(0) =~= Seq::empty());
    while i < row.counters.len()
        invariant
            i <= row@.len(),
            row@ == row.counters@,
            sum == total(row@.take(i as int)),
            total(row@) <= u64::MAX,
        decreases row@.len() - i,
    {
        proof {
            lemma_total_prefix(row@, i + 1);
            assert(row@.take(i + 1).drop_last() =~= row@.take(i as int));
        }
        sum = sum + row.counters[i];
        i = i + 1;
    }
    assert(row@.take(i as int) =~= row@);
    sum
}

/// The largest of a row, zero where it is empty.
pub fn max_or_zero(row: &CounterRow) -> (r: u64)
    ensures
        r == largest(row@),
{
    let mut max: u64 = 0;
    let mut i: usize = 0;
    assert(row@.take(0) =~= Seq::empty());
    while i < row.counters.len()
        invariant
            i <= row@.len(),
            row@ == row.counters@,
            max == largest(row@.take(i as int)),
        decreases row@.len() - i,
    {
        assert(row@.take(i + 1).drop_last() =~= row@.take(i as int));
        if max < row.counters[i] {
            max = row.counters[i];
        }
        i = i + 1;
    }
    assert(row@.take(i as int) =~= row@);
    max
}

/// Adding to one counter of a row adds as much to its sum, unless the counter
/// runs over its end.
pub proof fn law_addition_shows_in_the_sum(row: Seq<u64>, index: int, by: u64)
    requires
        0 <= index < row.len(),
        row[index] + by <= u64::MAX,
    ensures
        total(row.update(index, admission::wrapping_sum(row[index], by))) == total(row) + by,
    decreases row.len(),
{
    let after = row.update(index, admission::wrapping_sum(row[index], by));
    if index == row.len() - 1 {
        assert(after.drop_last() =~= row.drop_last());
    } else {
        law_addition_shows_in_the_sum(row.drop_last(), index, by);
        assert(after.drop_last() =~= row.drop_last().update(
            index,
            admission::wrapping_sum(row[index], by),
        ));
    }
}

/// What is counted once per core and once per group has the same sum over the
/// cores and over the groups, and keeps it.
pub proof fn law_core_and_group_sums_agree(
    cores: Seq<u64>,
    groups: Seq<u64>,
    core: int,
    group: int,
    by: u64,
)
    requires
        total(cores) == total(groups),
        0 <= core < cores.len(),
        0 <= group < groups.len(),
        cores[core] + by <= u64::MAX,
        groups[group] + by <= u64::MAX,
    ensures
        total(cores.update(core, admission::wrapping_sum(cores[core], by))) == total(
            groups.update(group, admission::wrapping_sum(groups[group], by)),
        ),
{
    law_addition_shows_in_the_sum(cores, core, by);
    law_addition_shows_in_the_sum(groups, group, by);
}

/// No counter of a row is above the largest, and one is the largest unless the row
/// is empty.
pub proof fn law_largest_is_largest(row: Seq<u64>)
    ensures
        forall|i: int| 0 <= i < row.len() ==> #[trigger] row[i] <= largest(row),
        row.len() > 0 ==> row.contains(largest(row)),
    decreases row.len(),
{
    if row.len() > 0 {
        let prefix = row.drop_last();
        law_largest_is_largest(prefix);
        assert forall|i: int| 0 <= i < row.len() implies #[trigger] row[i] <= largest(row) by {
            if i < prefix.len() {
                assert(prefix[i] == row[i]);
            }
        }
        if prefix.len() > 0 && !(largest(prefix) < row.last()) {
            let i = choose|i: int| 0 <= i < prefix.len() && prefix[i] == largest(prefix);
            assert(row[i] == largest(row));
        } else {
            assert(row[row.len() - 1] == row.last());
            if prefix.len() == 0 {
                assert(largest(prefix) == 0);
            }
        }
    }
}

/// A command that comes to a mailbox and leaves it again leaves the depth as it
/// was.
pub proof fn law_mailbox_depth_round_trip(depth: u64)
    requires
        depth < u64::MAX,
    ensures
        admission::saturating_difference(admission::wrapping_sum(depth, 1), 1) == depth,
{
}

/// The sum of a row is what its counters come to one after the other, and a row of zeros
/// has none.
pub proof fn law_sum_takes_every_counter(row: Seq<u64>, len: nat)
    ensures
        total(row) == row.fold_left(0int, |sum: int, count: u64| sum + count),
        total(zeros(len)) == 0,
    decreases row.len(),
{
    if row.len() > 0 {
        law_sum_takes_every_counter(row.drop_last(), 0);
    }
    lemma_zeros(len);
}

proof fn lemma_zeros(len: nat)
    ensures
        total(zeros(len)) == 0,
    decreases len,
{
    if len > 0 {
        lemma_zeros((len - 1) as nat);
        assert(zeros(len).drop_last() =~= zeros((len - 1) as nat));
    }
}

/// A counter that wraps at zero counts on from its end, so that adding as much again gives
/// what was there; the larger of two is one of them and no smaller than the other; a depth
/// grows by one as long as it can.
pub proof fn law_counters_go_on(count: u64, by: u64)
    ensures
        wrapping_difference(count, by) == (count - by) % 0x1_0000_0000_0000_0000,
        admission::wrapping_sum(wrapping_difference(count, by), by) == count,
        larger(count, by) == count || larger(count, by) == by,
        larger(count, by) >= count,
        larger(count, by) >= by,
        count < u64::MAX ==> next_depth(count) == count + 1,
        next_depth(u64::MAX) == u64::MAX,
{
}

} // verus!
