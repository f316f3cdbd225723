//! A table: values kept under distinct keys, in the order in which the keys
//! came.

use vstd::prelude::*;

verus! {

/// A type whose values can serve as keys.
pub trait Key: View + Sized {
    /// Whether two keys are the same key.
    fn same_key(&self, other: &Self) -> (r: bool)
        ensures
            r == (self@ == other@),
    ;

    /// Another value of the same key.
    fn copy_key(&self) -> (r: Self)
        ensures
            r@ == self@,
    ;
}

/// Values under distinct keys.
#[derive(Debug)]
pub struct Table<K, V> {
    entries: Vec<(K, V)>,
}

/// The keys of a list of entries.
pub open spec fn entry_keys<K: Key, V>(entries: Seq<(K, V)>) -> Seq<K::V> {
    entries.map_values(|entry: (K, V)| entry.0@)
}

/// Whether no key occurs twice.
pub open spec fn distinct_keys<K: Key, V>(entries: Seq<(K, V)>) -> bool {
    forall|i: int, j: int|
        0 <= i < j < entries.len() ==> (#[trigger] entries[i]).0@ != (#[trigger] entries[j]).0@
}

/// Where `key` stands.
pub open spec fn has_key_at<K: Key, V>(entries: Seq<(K, V)>, key: K::V, i: int) -> bool {
    0 <= i < entries.len() && entries[i].0@ == key
}

/// What the entries say as a whole.
pub open spec fn entry_map<K: Key, V>(entries: Seq<(K, V)>) -> Map<K::V, V> {
    Map::new(
        |key: K::V| exists|i: int| has_key_at(entries, key, i),
        |key: K::V| entries[choose|i: int| has_key_at(entries, key, i)].1,
    )
}

pub(crate) proof fn lemma_entry_map<K: Key, V>(entries: Seq<(K, V)>)
    requires
        distinct_keys(entries),
    ensures
        forall|i: int|
            0 <= i < entries.len() ==> entry_map(entries).contains_key(
                (#[trigger] entries[i]).0@,
            ) && entry_map(entries)[entries[i].0@] == entries[i].1,
{
    assert forall|i: int| 0 <= i < entries.len() implies entry_map(entries).contains_key(
        (#[trigger] entries[i]).0@,
    ) && entry_map(entries)[entries[i].0@] == entries[i].1 by {
        let key = entries[i].0@;
        assert(has_key_at(entries, key, i));
        let chosen = choose|j: int| has_key_at(entries, key, j);
        assert(has_key_at(entries, key, chosen));
        assert(chosen == i);
    }
}

proof fn lemma_entry_map_len<K: Key, V>(entries: Seq<(K, V)>)
    requires
        distinct_keys(entries),
    ensures
        entry_map(entries).dom().finite(),
        entry_map(entries).dom().len() == entries.len(),
{
    let keys = entry_keys(entries);
    assert(keys.no_duplicates()) by {
        assert forall|i: int, j: int| 0 <= i < keys.len() && 0 <= j < keys.len() && i
            != j implies keys[i] != keys[j] by {
            assert(keys[i] == entries[i].0@);
            assert(keys[j] == entries[j].0@);
            if i < j {
                assert(entries[i].0@ != entries[j].0@);
            } else {
                assert(entries[j].0@ != entries[i].0@);
            }
        }
    }
    keys.unique_seq_to_set();
    assert(entry_map(entries).dom() =~= keys.to_set()) by {
        assert forall|key: K::V| entry_map(entries).dom().contains(key)
            <==> keys.to_set().contains(key) by {
            if entry_map(entries).dom().contains(key) {
                let i = choose|i: int| has_key_at(entries, key, i);
                assert(keys[i] == key);
            }
            if keys.contains(key) {
                let i = choose|i: int| 0 <= i < keys.len() && keys[i] == key;
                assert(has_key_at(entries, key, i));
            }
        }
    }
}

impl<K: Key, V> Table<K, V> {
    /// The entries in order.
    pub closed spec fn entries(&self) -> Seq<(K, V)> {
        self.entries@
    }

    /// No key occurs twice.
    pub open spec fn wf(&self) -> bool {
        distinct_keys(self.entries())
    }

    pub open spec fn view(&self) -> Map<K::V, V> {
        entry_map(self.entries())
    }

    pub fn new() -> (r: Self)
        ensures
            r.wf(),
            r.entries() == Seq::<(K, V)>::empty(),
            r@ == Map::<K::V, V>::empty(),
    {
        let r = Table { entries: Vec::new() };
        assert(r@ =~= Map::<K::V, V>::empty()) by {
            assert forall|key: K::V| !r@.contains_key(key) by {
                if r@.contains_key(key) {
                    let i = choose|i: int| has_key_at(r.entries(), key, i);
                }
            }
        }
        r
    }

    pub fn len(&self) -> (r: usize)
        requires
            self.wf(),
        ensures
            r == self.entries().len(),
            self@.dom().finite(),
            r == self@.dom().len(),
    {
        proof {
            lemma_entry_map_len(self.entries());
        }
        self.entries.len()
    }

    fn find(&self, key: &K) -> (r: Option<usize>)
        requires
            self.wf(),
        ensures
            match r {
                Some(i) => has_key_at(self.entries(), key@, i as int) && self@.contains_key(key@)
                    && self@[key@] == self.entries()[i as int].1,
                None => !self@.contains_key(key@),
            },
    {
        let mut i: usize = 0;
        while i < self.entries.len()
            invariant
                i <= self.entries@.len(),
                self.wf(),
                forall|j: int| 0 <= j < i ==> (#[trigger] self.entries()[j]).0@ != key@,
            decreases self.entries@.len() - i,
        {
            if self.entries[i].0.same_key(key) {
                proof {
                    lemma_entry_map(self.entries());
                }
                return Some(i);
            }
            i = i + 1;
        }
        proof {
            if self@.contains_key(key@) {
                let j = choose|j: int| has_key_at(self.entries(), key@, j);
                assert(self.entries()[j].0@ == key@);
            }
        }
        None
    }

    pub fn get(&self, key: &K) -> (r: Option<&V>)
        requires
            self.wf(),
        ensures
            match r {
                Some(value) => self@.contains_key(key@) && *value == self@[key@],
                None => !self@.contains_key(key@),
            },
    {
        match self.find(key) {
            Some(i) => Some(&self.entries[i].1),
            None => None,
        }
    }

    pub fn contains_key(&self, key: &K) -> (r: bool)
        requires
            self.wf(),
        ensures
            r == self@.contains_key(key@),
    {
        self.find(key).is_some()
    }

    /// The `i`-th entry.
    pub fn entry(&self, i: usize) -> (r: (&K, &V))
        requires
            self.wf(),
            i < self.entries().len(),
        ensures
            *r.0 == self.entries()[i as int].0,
            *r.1 == self.entries()[i as int].1,
            self@.contains_key(r.0@),
            self@[r.0@] == *r.1,
    {
        proof {
            lemma_entry_map(self.entries());
        }
        (&self.entries[i].0, &self.entries[i].1)
    }

    /// Puts `value` under `key`, in place of what was there.
    pub fn insert(&mut self, key: K, value: V)
        requires
            old(self).wf(),
        ensures
            final(self).wf(),
            final(self)@ == old(self)@.insert(key@, value),
            old(self)@.contains_key(key@) ==> final(self).entries().len() == old(self).entries().len(),
            !old(self)@.contains_key(key@) ==> final(self).entries() == old(self).entries().push(
                (key, value),
            ),
    {
        let ghost before = self.entries();
        let ghost name = key@;
        match self.find(&key) {
            Some(i) => {
                self.entries[i] = (key, value);
                proof {
                    let after = self.entries();
                    assert(after =~= before.update(i as int, (key, value)));
                    assert(distinct_keys(after));
                    lemma_entry_map(before);
                    lemma_entry_map(after);
                    assert(entry_map(after) =~= entry_map(before).insert(name, value)) by {
                        assert forall|other: K::V|
                            #![trigger entry_map(after).contains_key(other)]
                            entry_map(after).contains_key(other) <==> entry_map(
                            before,
                        ).contains_key(other) || other == name by {
                            if entry_map(after).contains_key(other) {
                                let j = choose|j: int| has_key_at(after, other, j);
                                assert(has_key_at(before, other, j));
                            }
                            if entry_map(before).contains_key(other) {
                                let j = choose|j: int| has_key_at(before, other, j);
                                assert(has_key_at(after, other, j));
                            }
                            assert(has_key_at(after, name, i as int));
                        }
                        assert forall|other: K::V|
                            #![trigger entry_map(after)[other]]
                            entry_map(after).contains_key(other) implies entry_map(after)[other]
                            == entry_map(before).insert(name, value)[other] by {
                            let j = choose|j: int| has_key_at(after, other, j);
                            assert(after[j].0@ == other);
                            if j != i {
                                assert(before[j] == after[j]);
                            }
                        }
                    }
                }
            },
            None => {
                self.entries.push((key, value));
                proof {
                    let after = self.entries();
                    assert(after =~= before.push((key, value)));
                    assert(distinct_keys(after)) by {
                        assert forall|i: int, j: int| 0 <= i < j < after.len() implies (
                        #[trigger] after[i]).0@ != (#[trigger] after[j]).0@ by {
                            if j == before.len() {
                                if after[i].0@ == name {
                                    assert(has_key_at(before, name, i));
                                }
                            } else {
                                assert(before[i].0@ != before[j].0@);
                            }
                        }
                    }
                    lemma_entry_map(before);
                    lemma_entry_map(after);
                    assert(entry_map(after) =~= entry_map(before).insert(name, value)) by {
                        assert forall|other: K::V|
                            #![trigger entry_map(after).contains_key(other)]
                            entry_map(after).contains_key(other) <==> entry_map(
                            before,
                        ).contains_key(other) || other == name by {
                            if entry_map(after).contains_key(other) {
                                let j = choose|j: int| has_key_at(after, other, j);
                                if j < before.len() {
                                    assert(has_key_at(before, other, j));
                                }
                            }
                            if entry_map(before).contains_key(other) {
                                let j = choose|j: int| has_key_at(before, other, j);
                                assert(has_key_at(after, other, j));
                            }
                            assert(has_key_at(after, name, before.len() as int));
                        }
                        assert forall|other: K::V|
                            #![trigger entry_map(after)[other]]
                            entry_map(after).contains_key(other) implies entry_map(after)[other]
                            == entry_map(before).insert(name, value)[other] by {
                            let j = choose|j: int| has_key_at(after, other, j);
                            assert(after[j].0@ == other);
                            if j < before.len() {
                                assert(before[j] == after[j]);
                            }
                        }
                    }
                }
            },
        }
    }

    /// Takes out the `i`-th entry; the others keep their order.
    pub fn remove_at(&mut self, i: usize) -> (r: (K, V))
        requires
            old(self).wf(),
            i < old(self).entries().len(),
        ensures
            final(self).wf(),
            r == old(self).entries()[i as int],
            final(self).entries() == old(self).entries().remove(i as int),
            old(self)@.contains_key(r.0@),
            old(self)@[r.0@] == r.1,
            final(self)@ == old(self)@.remove(r.0@),
    {
        let ghost before = self.entries();
        let ghost name = before[i as int].0@;
        let entry = self.entries.remove(i);
        proof {
            let after = self.entries();
            assert(after =~= before.remove(i as int));
            assert(distinct_keys(after)) by {
                assert forall|a: int, b: int| 0 <= a < b < after.len() implies (
                #[trigger] after[a]).0@ != (#[trigger] after[b]).0@ by {
                    let a2 = if a < i {
                        a
                    } else {
                        a + 1
                    };
                    let b2 = if b < i {
                        b
                    } else {
                        b + 1
                    };
                    assert(before[a2].0@ != before[b2].0@);
                }
            }
            lemma_entry_map(before);
            lemma_entry_map(after);
            assert(entry_map(after) =~= entry_map(before).remove(name)) by {
                assert forall|other: K::V|
                    #![trigger entry_map(after).contains_key(other)]
                    entry_map(after).contains_key(other) <==> entry_map(
                    before,
                ).contains_key(other) && other != name by {
                    if entry_map(after).contains_key(other) {
                        let j = choose|j: int| has_key_at(after, other, j);
                        let j2 = if j < i {
                            j
                        } else {
                            j + 1
                        };
                        assert(has_key_at(before, other, j2));
                        if other == name {
                            assert(before[j2].0@ == before[i as int].0@);
                        }
                    }
                    if entry_map(before).contains_key(other) && other != name {
                        let j = choose|j: int| has_key_at(before, other, j);
                        let j2 = if j < i {
                            j
                        } else {
                            j - 1
                        };
                        assert(has_key_at(after, other, j2));
                    }
                }
                assert forall|other: K::V|
                    #![trigger entry_map(after)[other]]
                    entry_map(after).contains_key(other) implies entry_map(after)[other]
                    == entry_map(before)[other] by {
                    let j = choose|j: int| has_key_at(after, other, j);
                    let j2 = if j < i {
                        j
                    } else {
                        j + 1
                    };
                    assert(after[j].0@ == other);
                    assert(before[j2] == after[j]);
                    assert(before[j2].0@ == other);
                }
            }
        }
        entry
    }

    /// Takes out what is under `key`.
    pub fn remove(&mut self, key: &K) -> (r: Option<V>)
        requires
            old(self).wf(),
        ensures
            final(self).wf(),
            final(self)@ == old(self)@.remove(key@),
            match r {
                Some(value) => old(self)@.contains_key(key@) && value == old(self)@[key@],
                None => !old(self)@.contains_key(key@),
            },
            final(self).entries().len() == old(self).entries().len() - if r is Some {
                1int
            } else {
                0int
            },
            match r {
                Some(value) => exists|i: int|
                    has_key_at(old(self).entries(), key@, i) && final(self).entries()
                        == old(self).entries().remove(i) && old(self).entries()[i].1 == value,
                None => final(self).entries() == old(self).entries(),
            },
    {
        let ghost name = key@;
        match self.find(key) {
            Some(i) => {
                assert(has_key_at(old(self).entries(), key@, i as int));
                let (_, value) = self.remove_at(i);
                Some(value)
            },
            None => {
                assert(self@.remove(name) =~= self@);
                None
            },
        }
    }

    pub fn clear(&mut self)
        ensures
            final(self).wf(),
            final(self).entries() == Seq::<(K, V)>::empty(),
            final(self)@ == Map::<K::V, V>::empty(),
    {
        *self = Table::new();
    }
}

/// What an entry of a table says is what the table says.
pub proof fn lemma_table_entry<K: Key, V>(table: &Table<K, V>, i: int)
    requires
        table.wf(),
        0 <= i < table.entries().len(),
    ensures
        table@.contains_key(table.entries()[i].0@),
        table@[table.entries()[i].0@] == table.entries()[i].1,
{
    lemma_entry_map(table.entries());
}

/// A key of a table has an entry.
pub proof fn lemma_table_index<K: Key, V>(table: &Table<K, V>, key: K::V) -> (i: int)
    requires
        table.wf(),
        table@.contains_key(key),
    ensures
        0 <= i < table.entries().len(),
        table.entries()[i].0@ == key,
        table.entries()[i].1 == table@[key],
{
    let i = choose|i: int| has_key_at(table.entries(), key, i);
    lemma_entry_map(table.entries());
    assert(table.entries()[i].0@ == key);
    i
}

} // verus!
