//! A finite map kept in a vector: one slot per key, looked up by comparing keys.

use vstd::prelude::*;

verus! {

/// Keys that can be compared in executable code, by what they stand for.
pub trait TableKey: View + Sized {
    fn same_key(&self, other: &Self) -> (same: bool)
        ensures
            same == (self@ == other@),
    ;
}

impl TableKey for String {
    fn same_key(&self, other: &Self) -> (same: bool) {
        *self == *other
    }
}

impl TableKey for Vec<u8> {
    fn same_key(&self, other: &Self) -> (same: bool) {
        bytes_equal(self.as_slice(), other.as_slice())
    }
}

/// Whether two byte strings are equal.
pub fn bytes_equal(left: &[u8], right: &[u8]) -> (equal: bool)
    ensures
        equal == (left@ == right@),
{
    if left.len() != right.len() {
        return false;
    }
    let mut i: usize = 0;
    while i < left.len()
        invariant
            i <= left.len(),
            left@.len() == right@.len(),
            forall|j: int| 0 <= j < i ==> left@[j] == right@[j],
        decreases left.len() - i,
    {
        if left[i] != right[i] {
            return false;
        }
        i = i + 1;
    }
    assert(left@ =~= right@);
    true
}

/// A map from keys to values with at most one value for a key.
pub struct Table<K: TableKey, T> {
    entries: Vec<(K, T)>,
}

/// Slot `i` of `entries` is one for key `k`.
spec fn slot_holds<K: TableKey, T>(entries: Seq<(K, T)>, i: int, k: K::V) -> bool {
    0 <= i < entries.len() && entries[i].0@ == k
}

/// No key has two slots.
spec fn distinct_keys<K: TableKey, T>(entries: Seq<(K, T)>) -> bool {
    forall|i: int, j: int|
        0 <= i < entries.len() && 0 <= j < entries.len() && i != j ==> #[trigger] entries[i].0@
            != #[trigger] entries[j].0@
}

spec fn as_map<K: TableKey, T>(entries: Seq<(K, T)>) -> Map<K::V, T> {
    Map::new(
        |k: K::V| exists|i: int| slot_holds(entries, i, k),
        |k: K::V| entries[choose|i: int| slot_holds(entries, i, k)].1,
    )
}

proof fn lemma_slot<K: TableKey, T>(entries: Seq<(K, T)>, i: int)
    requires
        distinct_keys(entries),
        0 <= i < entries.len(),
    ensures
        as_map(entries).contains_key(entries[i].0@),
        as_map(entries)[entries[i].0@] == entries[i].1,
{
    assert(slot_holds(entries, i, entries[i].0@));
}

proof fn lemma_has_slot<K: TableKey, T>(entries: Seq<(K, T)>, k: K::V) -> (i: int)
    requires
        distinct_keys(entries),
        as_map(entries).contains_key(k),
    ensures
        0 <= i < entries.len(),
        entries[i].0@ == k,
        as_map(entries)[k] == entries[i].1,
{
    choose|i: int| slot_holds(entries, i, k)
}

proof fn lemma_swap_remove<K: TableKey, T>(before: Seq<(K, T)>, i: int)
    requires
        distinct_keys(before),
        0 <= i < before.len(),
    ensures
        ({
            let after = before.update(i, before.last()).drop_last();
            distinct_keys(after) && as_map(after) == as_map(before).remove(before[i].0@)
        }),
{
    let after = before.update(i, before.last()).drop_last();
    let last = before.len() - 1;
    assert(forall|j: int| 0 <= j < after.len() ==> after[j] == before[if j == i { last } else { j }]);
    assert(distinct_keys(after));
    assert forall|k: K::V| #[trigger] as_map(after).dom().contains(k) implies as_map(before).remove(
        before[i].0@,
    ).dom().contains(k) && as_map(after)[k] == as_map(before)[k] by {
        let j = lemma_has_slot(after, k);
        lemma_slot(before, if j == i { last } else { j });
    }
    assert forall|k: K::V| #[trigger] as_map(before).dom().contains(k) && k != before[i].0@ implies as_map(
        after,
    ).dom().contains(k) by {
        let o = lemma_has_slot(before, k);
        let j = if o == last { i } else { o };
        assert(after[j] == before[o]);
        lemma_slot(after, j);
    }
    assert(as_map(after) =~= as_map(before).remove(before[i].0@));
}

proof fn lemma_push<K: TableKey, T>(before: Seq<(K, T)>, entry: (K, T))
    requires
        distinct_keys(before),
        !as_map(before).contains_key(entry.0@),
    ensures
        distinct_keys(before.push(entry)),
        as_map(before.push(entry)) == as_map(before).insert(entry.0@, entry.1),
{
    let after = before.push(entry);
    let last = before.len() as int;
    assert forall|j: int| 0 <= j < last implies before[j].0@ != entry.0@ by {
        lemma_slot(before, j);
    }
    assert(distinct_keys(after));
    lemma_slot(after, last);
    assert forall|k: K::V| #[trigger] as_map(after).dom().contains(k) implies as_map(before).insert(
        entry.0@,
        entry.1,
    ).dom().contains(k) && as_map(after)[k] == as_map(before).insert(entry.0@, entry.1)[k] by {
        let j = lemma_has_slot(after, k);
        if j < last {
            lemma_slot(before, j);
        }
    }
    assert forall|k: K::V| #[trigger] as_map(before).dom().contains(k) implies as_map(after).dom().contains(k) by {
        let o = lemma_has_slot(before, k);
        assert(after[o] == before[o]);
        lemma_slot(after, o);
    }
    assert(as_map(after) =~= as_map(before).insert(entry.0@, entry.1));
}

proof fn lemma_update<K: TableKey, T>(before: Seq<(K, T)>, i: int, entry: (K, T))
    requires
        distinct_keys(before),
        0 <= i < before.len(),
        entry.0@ == before[i].0@,
    ensures
        distinct_keys(before.update(i, entry)),
        as_map(before.update(i, entry)) == as_map(before).insert(entry.0@, entry.1),
{
    let after = before.update(i, entry);
    assert(forall|j: int| 0 <= j < after.len() ==> #[trigger] after[j].0@ == before[j].0@);
    assert(distinct_keys(after));
    lemma_slot(after, i);
    assert forall|k: K::V| #[trigger] as_map(after).dom().contains(k) implies as_map(before).dom().contains(k)
        && as_map(after)[k] == as_map(before).insert(entry.0@, entry.1)[k] by {
        let j = lemma_has_slot(after, k);
        lemma_slot(before, j);
    }
    assert forall|k: K::V| #[trigger] as_map(before).dom().contains(k) implies as_map(after).dom().contains(k) by {
        let o = lemma_has_slot(before, k);
        lemma_slot(after, o);
    }
    assert(as_map(after) =~= as_map(before).insert(entry.0@, entry.1));
}

impl<K: TableKey, T> View for Table<K, T> {
    type V = Map<K::V, T>;

    closed spec fn view(&self) -> Map<K::V, T> {
        as_map(self.entries@)
    }
}

impl<K: TableKey, T> Table<K, T> {
    /// No key has two values.
    pub closed spec fn wf(&self) -> bool {
        distinct_keys(self.entries@)
    }

    pub fn new() -> (table: Self)
        ensures
            table.wf(),
            table@ == Map::<K::V, T>::empty(),
    {
        let table = Table { entries: Vec::new() };
        assert(table@ =~= Map::<K::V, T>::empty());
        table
    }

    /// The slot of `key`, if it has one.
    fn find(&self, key: &K) -> (slot: Option<usize>)
        requires
            self.wf(),
        ensures
            match slot {
                Some(i) => i < self.entries@.len() && self.entries@[i as int].0@ == key@
                    && self@.contains_key(key@) && self@[key@] == self.entries@[i as int].1,
                None => !self@.contains_key(key@),
            },
    {
        let mut i: usize = 0;
        while i < self.entries.len()
            invariant
                self.wf(),
                i <= self.entries@.len(),
                forall|j: int| 0 <= j < i ==> #[trigger] self.entries@[j].0@ != key@,
            decreases self.entries.len() - i,
        {
            if self.entries[i].0.same_key(key) {
                proof {
                    lemma_slot(self.entries@, i as int);
                }
                return Some(i);
            }
            i = i + 1;
        }
        None
    }

    /// The value of `key`.
    pub fn get(&self, key: &K) -> (value: Option<&T>)
        requires
            self.wf(),
        ensures
            match value {
                Some(v) => self@.contains_key(key@) && *v == self@[key@],
                None => !self@.contains_key(key@),
            },
    {
        match self.find(key) {
            Some(i) => Some(&self.entries[i].1),
            None => None,
        }
    }

    /// The value of `key`, for changing it in place.
    pub fn get_mut(&mut self, key: &K) -> (value: Option<&mut T>)
        requires
            old(self).wf(),
        ensures
            final(self).wf(),
            match value {
                Some(v) => old(self)@.contains_key(key@) && *v == old(self)@[key@] && final(self)@
                    == old(self)@.insert(key@, *final(v)),
                None => !old(self)@.contains_key(key@) && final(self)@ == old(self)@,
            },
    {
        match self.find(key) {
            Some(i) => {
                let ghost before = self.entries@;
                let entry = &mut self.entries[i];
                let value = &mut entry.1;
                proof {
                    lemma_update(before, i as int, (before[i as int].0, *final(value)));
                }
                Some(value)
            },
            None => None,
        }
    }

    pub fn contains_key(&self, key: &K) -> (found: bool)
        requires
            self.wf(),
        ensures
            found == self@.contains_key(key@),
    {
        match self.find(key) {
            Some(_) => true,
            None => false,
        }
    }

    /// Takes `key` out of the table.
    pub fn remove(&mut self, key: &K) -> (value: Option<T>)
        requires
            old(self).wf(),
        ensures
            final(self).wf(),
            final(self)@ == old(self)@.remove(key@),
            match value {
                Some(v) => old(self)@.contains_key(key@) && v == old(self)@[key@],
                None => !old(self)@.contains_key(key@),
            },
    {
        match self.find(key) {
            Some(i) => {
                proof {
                    lemma_swap_remove(self.entries@, i as int);
                }
                let entry = self.entries.swap_remove(i);
                Some(entry.1)
            },
            None => {
                assert(self@ =~= old(self)@.remove(key@));
                None
            },
        }
    }

    /// Gives `key` the value `value`, in place of the one it had.
    pub fn insert(&mut self, key: K, value: T) -> (previous: Option<T>)
        requires
            old(self).wf(),
        ensures
            final(self).wf(),
            final(self)@ == old(self)@.insert(key@, value),
            match previous {
                Some(v) => old(self)@.contains_key(key@) && v == old(self)@[key@],
                None => !old(self)@.contains_key(key@),
            },
    {
        let previous = self.remove(&key);
        proof {
            lemma_push(self.entries@, (key, value));
            assert(self@.insert(key@, value) =~= old(self)@.insert(key@, value));
        }
        self.entries.push((key, value));
        previous
    }

    /// `entries` are the keys with their values, each key once.
    pub open spec fn lists(&self, entries: Seq<(K, T)>) -> bool {
        &&& forall|i: int|
            0 <= i < entries.len() ==> self@.dom().contains(#[trigger] entries[i].0@)
                && self@[entries[i].0@] == entries[i].1
        &&& forall|k: K::V| #[trigger]
            self@.dom().contains(k) ==> exists|i: int|
                0 <= i < entries.len() && #[trigger] entries[i].0@ == k
        &&& forall|i: int, j: int|
            0 <= i < entries.len() && 0 <= j < entries.len() && i != j ==> #[trigger] entries[i].0@
                != #[trigger] entries[j].0@
    }

    proof fn lemma_lists(&self)
        requires
            self.wf(),
        ensures
            self.lists(self.entries@),
    {
        assert forall|i: int| 0 <= i < self.entries@.len() implies self@.dom().contains(
            #[trigger] self.entries@[i].0@,
        ) && self@[self.entries@[i].0@] == self.entries@[i].1 by {
            lemma_slot(self.entries@, i);
        }
        assert forall|k: K::V| #[trigger] self@.dom().contains(k) implies exists|i: int|
            0 <= i < self.entries@.len() && #[trigger] self.entries@[i].0@ == k by {
            let i = lemma_has_slot(self.entries@, k);
            assert(self.entries@[i].0@ == k);
        }
    }

    /// The keys with their values, in no particular order.
    pub fn entries(&self) -> (entries: &Vec<(K, T)>)
        requires
            self.wf(),
        ensures
            self.lists(entries@),
    {
        proof {
            self.lemma_lists();
        }
        &self.entries
    }

    /// The keys with their values, in no particular order.
    pub fn into_entries(self) -> (entries: Vec<(K, T)>)
        requires
            self.wf(),
        ensures
            self.lists(entries@),
    {
        proof {
            self.lemma_lists();
        }
        self.entries
    }
}

} // verus!
