//! A small map from text keys to values.

use crate::text;
use vstd::prelude::*;

verus! {

/// A map keyed by text. Entries keep the place of their first insertion, and no
/// key occurs twice. It can be walked and its values changed in place, which
/// `vstd`'s maps keyed by text do not offer.
#[derive(Debug)]
pub struct Table<V> {
    entries: Vec<(String, V)>,
}

/// Whether no two entries share a key.
pub open spec fn distinct_keys<V>(entries: Seq<(String, V)>) -> bool {
    forall|i: int, j: int|
        0 <= i < j < entries.len() ==> (#[trigger] entries[i]).0@ != (#[trigger] entries[j]).0@
}

/// Whether some entry has `key`.
pub open spec fn has_key<V>(entries: Seq<(String, V)>, key: Seq<char>) -> bool {
    exists|i: int| 0 <= i < entries.len() && (#[trigger] entries[i]).0@ == key
}

/// The place of the entry that has `key`.
pub open spec fn place_of<V>(entries: Seq<(String, V)>, key: Seq<char>) -> int {
    choose|i: int| 0 <= i < entries.len() && (#[trigger] entries[i]).0@ == key
}

/// The entries as a map.
pub open spec fn map_of<V>(entries: Seq<(String, V)>) -> Map<Seq<char>, V> {
    Map::new(
        |key: Seq<char>| has_key(entries, key),
        |key: Seq<char>| entries[place_of(entries, key)].1,
    )
}

proof fn lemma_entry<V>(entries: Seq<(String, V)>, i: int)
    requires
        distinct_keys(entries),
        0 <= i < entries.len(),
    ensures
        map_of(entries).contains_key(entries[i].0@),
        map_of(entries)[entries[i].0@] == entries[i].1,
{
    let key = entries[i].0@;
    assert(has_key(entries, key));
    let j = place_of(entries, key);
    assert(i == j);
}

proof fn lemma_size<V>(entries: Seq<(String, V)>)
    requires
        distinct_keys(entries),
    ensures
        map_of(entries).dom().finite(),
        map_of(entries).dom().len() == entries.len(),
    decreases entries.len(),
{
    if entries.len() == 0 {
        assert(map_of(entries).dom() =~= Set::empty());
    } else {
        let rest = entries.drop_last();
        let key = entries.last().0@;
        lemma_size(rest);
        assert(!has_key(rest, key));
        assert(map_of(entries).dom() =~= map_of(rest).dom().insert(key)) by {
            assert forall|k: Seq<char>| has_key(entries, k) <==> has_key(rest, k) || k == key by {
                if has_key(entries, k) {
                    let i = place_of(entries, k);
                    if i < rest.len() {
                        assert(rest[i].0@ == k);
                    }
                }
                if has_key(rest, k) {
                    let i = place_of(rest, k);
                    assert(entries[i].0@ == k);
                }
                assert(entries[entries.len() - 1].0@ == key);
            }
        }
    }
}

impl<V> View for Table<V> {
    type V = Map<Seq<char>, V>;

    closed spec fn view(&self) -> Map<Seq<char>, V> {
        map_of(self.entries@)
    }
}

impl<V> Table<V> {
    /// No key occurs twice.
    pub closed spec fn wf(&self) -> bool {
        distinct_keys(self.entries@)
    }

    /// The keys in the order of their first insertion.
    pub closed spec fn keys(&self) -> Seq<Seq<char>> {
        self.entries@.map_values(|entry: (String, V)| entry.0@)
    }

    /// An empty table.
    pub fn new() -> (table: Table<V>)
        ensures
            table.wf(),
            table@ == Map::<Seq<char>, V>::empty(),
    {
        let table = Table { entries: Vec::new() };
        assert(table@ =~= Map::<Seq<char>, V>::empty());
        table
    }

    /// Number of entries.
    pub fn len(&self) -> (count: usize)
        requires
            self.wf(),
        ensures
            count == self@.dom().len(),
            self@.dom().finite(),
            count == self.keys().len(),
    {
        proof {
            lemma_size(self.entries@);
        }
        self.entries.len()
    }

    /// Whether there is no entry.
    pub fn is_empty(&self) -> (empty: bool)
        requires
            self.wf(),
        ensures
            empty == (self@ == Map::<Seq<char>, V>::empty()),
    {
        proof {
            if self.entries@.len() == 0 {
                assert(self@ =~= Map::<Seq<char>, V>::empty());
            } else {
                lemma_entry(self.entries@, 0);
            }
        }
        self.entries.len() == 0
    }

    fn find(&self, key: &str) -> (place: Option<usize>)
        ensures
            match place {
                Some(i) => i < self.entries@.len() && self.entries@[i as int].0@ == key@,
                None => !has_key(self.entries@, key@),
            },
    {
        let mut i: usize = 0;
        while i < self.entries.len()
            invariant
                i <= self.entries@.len(),
                forall|j: int| 0 <= j < i ==> (#[trigger] self.entries@[j]).0@ != key@,
            decreases self.entries@.len() - i,
        {
            if text::same(self.entries[i].0.as_str(), key) {
                return Some(i);
            }
            i += 1;
        }
        None
    }

    /// Whether there is an entry for `key`.
    pub fn contains_key(&self, key: &str) -> (yes: bool)
        ensures
            yes == self@.contains_key(key@),
    {
        let place = self.find(key);
        if let Some(i) = place {
            assert(self.entries@[i as int].0@ == key@);
            true
        } else {
            false
        }
    }

    /// The value stored for `key`.
    pub fn get(&self, key: &str) -> (value: Option<&V>)
        requires
            self.wf(),
        ensures
            match value {
                Some(v) => self@.contains_key(key@) && *v == self@[key@],
                None => !self@.contains_key(key@),
            },
    {
        let place = self.find(key);
        match place {
            Some(i) => {
                proof {
                    lemma_entry(self.entries@, i as int);
                }
                Some(&self.entries[i].1)
            },
            None => None,
        }
    }

    /// The key and the value at `place`, in order of first insertion.
    pub fn entry_at(&self, place: usize) -> (entry: (&String, &V))
        requires
            self.wf(),
            place < self.keys().len(),
        ensures
            entry.0@ == self.keys()[place as int],
            self@.contains_key(entry.0@),
            *entry.1 == self@[entry.0@],
    {
        proof {
            lemma_entry(self.entries@, place as int);
        }
        let entry = &self.entries[place];
        (&entry.0, &entry.1)
    }

    /// Stores `value` for `key`, replacing what was there.
    pub fn insert(&mut self, key: String, value: V)
        requires
            old(self).wf(),
        ensures
            final(self).wf(),
            final(self)@ == old(self)@.insert(key@, value),
            old(self)@.contains_key(key@) ==> final(self).keys() == old(self).keys(),
            !old(self)@.contains_key(key@) ==> final(self).keys() == old(self).keys().push(key@),
    {
        let ghost before = self.entries@;
        let ghost name = key@;
        let place = self.find(key.as_str());
        match place {
            Some(i) => {
                assert(has_key(before, name));
                self.entries.set(i, (key, value));
                proof {
                    let after = self.entries@;
                    assert(after == before.update(i as int, after[i as int]));
                    assert(distinct_keys(after)) by {
                        assert forall|a: int, b: int| 0 <= a < b < after.len() implies (
                        #[trigger] after[a]).0@ != (#[trigger] after[b]).0@ by {
                            assert(before[a].0@ != before[b].0@);
                        }
                    }
                    lemma_update(before, after, i as int);
                    assert(self.keys() =~= old(self).keys());
                }
            },
            None => {
                self.entries.push((key, value));
                proof {
                    let after = self.entries@;
                    assert(distinct_keys(after)) by {
                        assert forall|a: int, b: int| 0 <= a < b < after.len() implies (
                        #[trigger] after[a]).0@ != (#[trigger] after[b]).0@ by {
                            if b < before.len() {
                                assert(before[a].0@ != before[b].0@);
                            } else {
                                assert(before[a].0@ != name);
                            }
                        }
                    }
                    assert(after.drop_last() =~= before);
                    lemma_append(before, after);
                    assert(self.keys() =~= old(self).keys().push(name));
                }
            },
        }
    }

    /// The value stored for `key`, for changing in place.
    pub fn get_mut(&mut self, key: &str) -> (value: Option<&mut V>)
        requires
            old(self).wf(),
        ensures
            match value {
                Some(v) => {
                    &&& old(self)@.contains_key(key@)
                    &&& *v == old(self)@[key@]
                    &&& final(self)@ == old(self)@.insert(key@, *final(v))
                    &&& final(self).wf()
                    &&& final(self).keys() == old(self).keys()
                },
                None => !old(self)@.contains_key(key@) && *final(self) == *old(self),
            },
    {
        let ghost before = self.entries@;
        let place = self.find(key);
        match place {
            Some(i) => {
                proof {
                    lemma_entry(before, i as int);
                }
                let entry = &mut self.entries[i];
                let value = &mut entry.1;
                proof {
                    let after = before.update(i as int, (before[i as int].0, *final(value)));
                    assert(after.map_values(|entry: (String, V)| entry.0@) =~= before.map_values(
                        |entry: (String, V)| entry.0@,
                    ));
                    assert(distinct_keys(after)) by {
                        assert forall|a: int, b: int| 0 <= a < b < after.len() implies (
                        #[trigger] after[a]).0@ != (#[trigger] after[b]).0@ by {
                            assert(before[a].0@ != before[b].0@);
                        }
                    }
                    lemma_update(before, after, i as int);
                }
                Some(value)
            },
            None => None,
        }
    }

    /// Takes the value stored for `key` out of the table.
    pub fn remove(&mut self, key: &str) -> (value: Option<V>)
        requires
            old(self).wf(),
        ensures
            final(self).wf(),
            final(self)@ == old(self)@.remove(key@),
            match value {
                Some(v) => old(self)@.contains_key(key@) && v == old(self)@[key@],
                None => !old(self)@.contains_key(key@) && *final(self) == *old(self),
            },
    {
        let ghost before = self.entries@;
        let place = self.find(key);
        match place {
            Some(i) => {
                proof {
                    lemma_entry(before, i as int);
                }
                let entry = self.entries.remove(i);
                proof {
                    let after = self.entries@;
                    assert(distinct_keys(after)) by {
                        assert forall|a: int, b: int| 0 <= a < b < after.len() implies (
                        #[trigger] after[a]).0@ != (#[trigger] after[b]).0@ by {
                            let x = if a < i {
                                a
                            } else {
                                a + 1
                            };
                            let y = if b < i {
                                b
                            } else {
                                b + 1
                            };
                            assert(before[x].0@ != before[y].0@);
                        }
                    }
                    lemma_remove(before, after, i as int);
                }
                Some(entry.1)
            },
            None => {
                assert(self@ =~= old(self)@.remove(key@));
                None
            },
        }
    }
}

/// The keys are listed once each, and they are those of the map.
pub proof fn keys_are_the_domain<V>(table: Table<V>)
    requires
        table.wf(),
    ensures
        table.keys().no_duplicates(),
        table.keys().to_set() == table@.dom(),
{
    let entries = table.entries@;
    let keys = table.keys();
    assert forall|i: int, j: int| 0 <= i < keys.len() && 0 <= j < keys.len() && i != j implies keys[i]
        != keys[j] by {
        if i < j {
            assert(entries[i].0@ != entries[j].0@);
        } else {
            assert(entries[j].0@ != entries[i].0@);
        }
    }
    assert forall|k: Seq<char>| keys.contains(k) <==> has_key(entries, k) by {
        if keys.contains(k) {
            let i = choose|i: int| 0 <= i < keys.len() && keys[i] == k;
            assert(entries[i].0@ == k);
        }
        if has_key(entries, k) {
            let i = place_of(entries, k);
            assert(keys[i] == k);
        }
    }
    assert(keys.to_set() =~= table@.dom());
}

impl<V: Clone> Clone for Table<V> {
    fn clone(&self) -> (copy: Self)
        ensures
            self.wf() ==> copy.wf(),
            copy.keys() == self.keys(),
            self.wf() ==> copy@.dom() == self@.dom(),
            self.wf() ==> forall|key: Seq<char>| #[trigger]
                self@.contains_key(key) ==> cloned::<V>(self@[key], copy@[key]),
    {
        let mut entries: Vec<(String, V)> = Vec::new();
        let mut i: usize = 0;
        while i < self.entries.len()
            invariant
                i <= self.entries@.len(),
                entries@.len() == i,
                forall|j: int|
                    0 <= j < i ==> (#[trigger] entries@[j]).0@ == self.entries@[j].0@ && cloned::<
                        V,
                    >(self.entries@[j].1, entries@[j].1),
            decreases self.entries@.len() - i,
        {
            let key = self.entries[i].0.clone();
            let value = self.entries[i].1.clone();
            entries.push((key, value));
            i += 1;
        }
        let copy = Table { entries };
        assert(copy.keys() =~= self.keys());
        proof {
            if self.wf() {
                lemma_clone(self.entries@, copy.entries@);
            }
        }
        copy
    }
}

proof fn lemma_clone<V: Clone>(before: Seq<(String, V)>, after: Seq<(String, V)>)
    requires
        distinct_keys(before),
        after.len() == before.len(),
        forall|j: int|
            0 <= j < before.len() ==> (#[trigger] after[j]).0@ == before[j].0@ && cloned::<V>(
                before[j].1,
                after[j].1,
            ),
    ensures
        distinct_keys(after),
        map_of(after).dom() == map_of(before).dom(),
        forall|key: Seq<char>| #[trigger]
            map_of(before).contains_key(key) ==> cloned::<V>(
                map_of(before)[key],
                map_of(after)[key],
            ),
{
    assert(distinct_keys(after)) by {
        assert forall|a: int, b: int| 0 <= a < b < after.len() implies (#[trigger] after[a]).0@ != (
        #[trigger] after[b]).0@ by {
            assert(before[a].0@ != before[b].0@);
        }
    }
    assert forall|k: Seq<char>| has_key(after, k) <==> has_key(before, k) by {
        if has_key(after, k) {
            let j = place_of(after, k);
            assert(before[j].0@ == k);
        }
        if has_key(before, k) {
            let j = place_of(before, k);
            assert(after[j].0@ == k);
        }
    }
    assert(map_of(after).dom() =~= map_of(before).dom());
    assert forall|key: Seq<char>| #[trigger] map_of(before).contains_key(key) implies cloned::<V>(
        map_of(before)[key],
        map_of(after)[key],
    ) by {
        let j = place_of(before, key);
        lemma_entry(before, j);
        lemma_entry(after, j);
        assert(after[j].0@ == key);
    }
}

proof fn lemma_update<V>(before: Seq<(String, V)>, after: Seq<(String, V)>, i: int)
    requires
        distinct_keys(before),
        distinct_keys(after),
        0 <= i < before.len(),
        after == before.update(i, after[i]),
        after[i].0@ == before[i].0@,
    ensures
        map_of(after) == map_of(before).insert(after[i].0@, after[i].1),
{
    let key = after[i].0@;
    let expected = map_of(before).insert(key, after[i].1);
    assert forall|k: Seq<char>| map_of(after).contains_key(k) <==> expected.contains_key(k) by {
        if has_key(after, k) {
            let j = place_of(after, k);
            assert(before[j].0@ == k);
        }
        if has_key(before, k) {
            let j = place_of(before, k);
            assert(after[j].0@ == k);
        }
        assert(after[i].0@ == key);
    }
    assert forall|k: Seq<char>| map_of(after).contains_key(k) implies map_of(after)[k]
        == expected[k] by {
        let j = place_of(after, k);
        lemma_entry(after, j);
        lemma_entry(before, j);
        assert(before[j].0@ == k);
    }
    assert(map_of(after) =~= expected);
}

proof fn lemma_append<V>(before: Seq<(String, V)>, after: Seq<(String, V)>)
    requires
        distinct_keys(before),
        distinct_keys(after),
        after.len() == before.len() + 1,
        after.drop_last() == before,
    ensures
        map_of(after) == map_of(before).insert(after.last().0@, after.last().1),
{
    let last = after.len() - 1;
    let key = after[last].0@;
    let expected = map_of(before).insert(key, after[last].1);
    assert(forall|j: int| 0 <= j < before.len() ==> before[j] == after.drop_last()[j]);
    assert forall|k: Seq<char>| map_of(after).contains_key(k) <==> expected.contains_key(k) by {
        if has_key(after, k) {
            let j = place_of(after, k);
            if j < last {
                assert(before[j].0@ == k);
            }
        }
        if has_key(before, k) {
            let j = place_of(before, k);
            assert(after[j].0@ == k);
        }
        assert(after[last].0@ == key);
    }
    assert forall|k: Seq<char>| map_of(after).contains_key(k) implies map_of(after)[k]
        == expected[k] by {
        let j = place_of(after, k);
        lemma_entry(after, j);
        if j < last {
            lemma_entry(before, j);
            assert(before[j].0@ == k);
        }
    }
    assert(map_of(after) =~= expected);
}

proof fn lemma_remove<V>(before: Seq<(String, V)>, after: Seq<(String, V)>, i: int)
    requires
        distinct_keys(before),
        distinct_keys(after),
        0 <= i < before.len(),
        after == before.remove(i),
    ensures
        map_of(after) == map_of(before).remove(before[i].0@),
{
    let expected = map_of(before).remove(before[i].0@);
    assert forall|k: Seq<char>| map_of(after).contains_key(k) <==> expected.contains_key(k) by {
        if has_key(after, k) {
            let j = place_of(after, k);
            let x = if j < i {
                j
            } else {
                j + 1
            };
            assert(before[x].0@ == k);
            assert(before[i].0@ != before[x].0@);
        }
        if has_key(before, k) && k != before[i].0@ {
            let j = place_of(before, k);
            let x = if j < i {
                j
            } else {
                j - 1
            };
            assert(after[x].0@ == k);
        }
    }
    assert forall|k: Seq<char>| map_of(after).contains_key(k) implies map_of(after)[k]
        == expected[k] by {
        let j = place_of(after, k);
        let x = if j < i {
            j
        } else {
            j + 1
        };
        lemma_entry(after, j);
        lemma_entry(before, x);
        assert(before[x] == after[j]);
    }
    assert(map_of(after) =~= expected);
}

} // verus!
