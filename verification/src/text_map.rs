//! A map from texts to values that remembers the order in which its keys came in.

use vstd::prelude::*;

verus! {

/// A key with its value.
#[derive(Debug)]
pub struct Entry<V> {
    pub key: String,
    pub value: V,
}

/// A map from texts to values.
#[derive(Debug)]
pub struct TextMap<V> {
    pub entries: Vec<Entry<V>>,
}

/// The keys of the entries, in their order.
pub open spec fn keys_of<V>(entries: Seq<Entry<V>>) -> Seq<Seq<char>> {
    entries.map_values(|entry: Entry<V>| entry.key@)
}

/// Where an entry with the key stands.
pub open spec fn position<V>(entries: Seq<Entry<V>>, key: Seq<char>) -> int {
    choose|i: int| 0 <= i < entries.len() && (#[trigger] entries[i]).key@ == key
}

/// An entry has the key.
pub open spec fn has_key<V>(entries: Seq<Entry<V>>, key: Seq<char>) -> bool {
    exists|i: int| 0 <= i < entries.len() && (#[trigger] entries[i]).key@ == key
}

/// No key occurs twice.
pub open spec fn keys_differ<V>(entries: Seq<Entry<V>>) -> bool {
    forall|i: int, j: int|
        0 <= i < j < entries.len() ==> (#[trigger] entries[i]).key@ != (#[trigger] entries[j]).key@
}

/// The values by their keys.
pub open spec fn map_of<V>(entries: Seq<Entry<V>>) -> Map<Seq<char>, V> {
    Map::new(
        |key: Seq<char>| has_key(entries, key),
        |key: Seq<char>| entries[position(entries, key)].value,
    )
}

impl<V> View for TextMap<V> {
    type V = Map<Seq<char>, V>;

    open spec fn view(&self) -> Map<Seq<char>, V> {
        map_of(self.entries@)
    }
}

/// The map holds the entries' keys and values, and as many of them.
pub proof fn lemma_map_of<V>(entries: Seq<Entry<V>>)
    requires
        keys_differ(entries),
    ensures
        forall|i: int|
            0 <= i < entries.len() ==> map_of(entries).dom().contains(
                (#[trigger] entries[i]).key@,
            ) && map_of(entries)[entries[i].key@] == entries[i].value,
        map_of(entries).dom().finite(),
        map_of(entries).dom().len() == entries.len(),
        map_of(entries).dom() == keys_of(entries).to_set(),
{
    assert forall|i: int| 0 <= i < entries.len() implies map_of(entries).dom().contains(
        (#[trigger] entries[i]).key@,
    ) && map_of(entries)[entries[i].key@] == entries[i].value by {
        let at = position(entries, entries[i].key@);
        assert(has_key(entries, entries[i].key@));
        if at < i {
            assert(entries[at].key@ != entries[i].key@);
        }
        if i < at {
            assert(entries[i].key@ != entries[at].key@);
        }
    }
    let keys = keys_of(entries);
    assert forall|i: int, j: int| 0 <= i < keys.len() && 0 <= j < keys.len() && i
        != j implies keys[i] != keys[j] by {
        if i < j {
            assert(entries[i].key@ != entries[j].key@);
        } else {
            assert(entries[j].key@ != entries[i].key@);
        }
    }
    keys.unique_seq_to_set();
    vstd::seq_lib::seq_to_set_is_finite(keys);
    let map = map_of(entries);
    assert forall|key: Seq<char>| map.dom().contains(key) implies keys.to_set().contains(key) by {
        assert(keys[position(entries, key)] == key);
    }
    assert forall|key: Seq<char>| keys.to_set().contains(key) implies map.dom().contains(key) by {
        let i = choose|i: int| 0 <= i < keys.len() && keys[i] == key;
        assert(entries[i].key@ == key);
    }
    assert(map_of(entries).dom() =~= keys.to_set());
}

impl<V> TextMap<V> {
    /// No key occurs twice.
    pub open spec fn well_formed(self) -> bool {
        keys_differ(self.entries@)
    }

    /// The keys, in the order in which they came in.
    pub open spec fn keys(self) -> Seq<Seq<char>> {
        keys_of(self.entries@)
    }

    /// A map without entries.
    pub fn new() -> (map: Self)
        ensures
            map.well_formed(),
            map@ == Map::<Seq<char>, V>::empty(),
            map.keys() == Seq::<Seq<char>>::empty(),
    {
        let map = TextMap { entries: Vec::new() };
        assert(map@ =~= Map::<Seq<char>, V>::empty());
        assert(map.keys() =~= Seq::<Seq<char>>::empty());
        map
    }

    /// The number of keys.
    pub fn len(&self) -> (length: usize)
        requires
            self.well_formed(),
        ensures
            length == self@.dom().len(),
            self@.dom().finite(),
            length == self.entries@.len(),
    {
        proof {
            lemma_map_of(self.entries@);
        }
        self.entries.len()
    }

    /// Where the key stands among the entries.
    pub fn find(&self, key: &str) -> (index: Option<usize>)
        requires
            self.well_formed(),
        ensures
            index is Some == self@.dom().contains(key@),
            index is Some ==> {
                &&& index->0 < self.entries@.len()
                &&& self.entries@[index->0 as int].key@ == key@
                &&& self.entries@[index->0 as int].value == self@[key@]
            },
    {
        proof {
            lemma_map_of(self.entries@);
        }
        for index in 0..self.entries.len()
            invariant
                forall|i: int| 0 <= i < index ==> (#[trigger] self.entries@[i]).key@ != key@,
                forall|i: int|
                    0 <= i < self.entries@.len() ==> self@.dom().contains(
                        (#[trigger] self.entries@[i]).key@,
                    ) && self@[self.entries@[i].key@] == self.entries@[i].value,
        {
            if *self.entries[index].key.as_str() == *key {
                return Some(index);
            }
        }
        assert(!has_key(self.entries@, key@));
        None
    }

    /// Whether the key is there.
    pub fn contains(&self, key: &str) -> (result: bool)
        requires
            self.well_formed(),
        ensures
            result == self@.dom().contains(key@),
    {
        self.find(key).is_some()
    }

    /// The value of the key.
    pub fn get(&self, key: &str) -> (value: Option<&V>)
        requires
            self.well_formed(),
        ensures
            value is Some == self@.dom().contains(key@),
            value is Some ==> *value->0 == self@[key@],
    {
        match self.find(key) {
            Some(index) => Some(&self.entries[index].value),
            None => None,
        }
    }

    /// Gives the key a value; one that it had is replaced.
    pub fn set(&mut self, key: &str, value: V)
        requires
            old(self).well_formed(),
        ensures
            final(self).well_formed(),
            final(self)@ == old(self)@.insert(key@, value),
            final(self).keys() == if old(self)@.dom().contains(key@) {
                old(self).keys()
            } else {
                old(self).keys().push(key@)
            },
    {
        let ghost before = self.entries@;
        let entry = Entry { key: key.to_owned(), value };
        match self.find(key) {
            Some(index) => {
                self.entries.set(index, entry);
                assert(self.entries@ == before.update(index as int, entry));
                proof {
                    lemma_replaced(before, index as int, entry);
                }
            },
            None => {
                self.entries.push(entry);
                assert(self.entries@ == before.push(entry));
                proof {
                    lemma_pushed(before, entry);
                }
            },
        }
    }

    /// Takes the key and its value out.
    pub fn take(&mut self, key: &str) -> (value: Option<V>)
        requires
            old(self).well_formed(),
        ensures
            final(self).well_formed(),
            final(self)@ == old(self)@.remove(key@),
            value is Some == old(self)@.dom().contains(key@),
            value is Some ==> value->0 == old(self)@[key@],
    {
        let ghost before = self.entries@;
        match self.find(key) {
            Some(index) => {
                let entry = self.entries.remove(index);
                assert(self.entries@ == before.remove(index as int));
                proof {
                    lemma_removed(before, index as int);
                }
                Some(entry.value)
            },
            None => {
                assert(self@ =~= old(self)@.remove(key@));
                None
            },
        }
    }
}

proof fn lemma_replaced<V>(before: Seq<Entry<V>>, index: int, entry: Entry<V>)
    requires
        keys_differ(before),
        0 <= index < before.len(),
        before[index].key@ == entry.key@,
    ensures
        keys_differ(before.update(index, entry)),
        map_of(before.update(index, entry)) == map_of(before).insert(entry.key@, entry.value),
        keys_of(before.update(index, entry)) == keys_of(before),
{
    let after = before.update(index, entry);
    assert(keys_of(after) =~= keys_of(before));
    assert forall|i: int, j: int| 0 <= i < j < after.len() implies (#[trigger] after[i]).key@ != (
    #[trigger] after[j]).key@ by {
        assert(before[i].key@ != before[j].key@);
    }
    lemma_map_of(before);
    lemma_map_of(after);
    lemma_same_map(after, map_of(before).insert(entry.key@, entry.value));
}

/// A map whose keys are those of the entries and which gives each its value is the entries' map.
proof fn lemma_same_map<V>(entries: Seq<Entry<V>>, map: Map<Seq<char>, V>)
    requires
        keys_differ(entries),
        forall|i: int|
            0 <= i < entries.len() ==> map.dom().contains((#[trigger] entries[i]).key@)
                && map[entries[i].key@] == entries[i].value,
        forall|key: Seq<char>| #[trigger] map.dom().contains(key) ==> has_key(entries, key),
    ensures
        map_of(entries) == map,
{
    lemma_map_of(entries);
    assert(map_of(entries) =~= map);
}

pub(crate) proof fn lemma_pushed<V>(before: Seq<Entry<V>>, entry: Entry<V>)
    requires
        keys_differ(before),
        !has_key(before, entry.key@),
    ensures
        keys_differ(before.push(entry)),
        map_of(before.push(entry)) == map_of(before).insert(entry.key@, entry.value),
        keys_of(before.push(entry)) == keys_of(before).push(entry.key@),
{
    let after = before.push(entry);
    let map = map_of(before).insert(entry.key@, entry.value);
    assert(keys_of(after) =~= keys_of(before).push(entry.key@));
    assert forall|i: int, j: int| 0 <= i < j < after.len() implies (#[trigger] after[i]).key@ != (
    #[trigger] after[j]).key@ by {
        assert(before[i].key@ != entry.key@);
        if j < before.len() {
            assert(before[i].key@ != before[j].key@);
        }
    }
    lemma_map_of(before);
    assert forall|i: int| 0 <= i < after.len() implies map.dom().contains(
        (#[trigger] after[i]).key@,
    ) && map[after[i].key@] == after[i].value by {
        if i < before.len() {
            assert(before[i].key@ != entry.key@);
        }
    }
    assert forall|key: Seq<char>| #[trigger] map.dom().contains(key) implies has_key(
        after,
        key,
    ) by {
        if key == entry.key@ {
            assert(after[before.len() as int].key@ == key);
        } else {
            assert(after[position(before, key)].key@ == key);
        }
    }
    lemma_same_map(after, map);
}

proof fn lemma_removed<V>(before: Seq<Entry<V>>, index: int)
    requires
        keys_differ(before),
        0 <= index < before.len(),
    ensures
        keys_differ(before.remove(index)),
        map_of(before.remove(index)) == map_of(before).remove(before[index].key@),
{
    let after = before.remove(index);
    let map = map_of(before).remove(before[index].key@);
    lemma_map_of(before);
    assert forall|i: int, j: int| 0 <= i < j < after.len() implies (#[trigger] after[i]).key@ != (
    #[trigger] after[j]).key@ by {
        let a = if i < index { i } else { i + 1 };
        let b = if j < index { j } else { j + 1 };
        assert(before[a].key@ != before[b].key@);
    }
    assert forall|i: int| 0 <= i < after.len() implies map.dom().contains(
        (#[trigger] after[i]).key@,
    ) && map[after[i].key@] == after[i].value by {
        let a = if i < index { i } else { i + 1 };
        assert(before[a] == after[i]);
        if a < index {
            assert(before[a].key@ != before[index].key@);
        } else {
            assert(before[index].key@ != before[a].key@);
        }
    }
    assert forall|key: Seq<char>| #[trigger] map.dom().contains(key) implies has_key(
        after,
        key,
    ) by {
        let at = position(before, key);
        assert(before[at].key@ == key);
        assert(after[if at < index { at } else { at - 1 }] == before[at]);
    }
    lemma_same_map(after, map);
}

} // verus!
