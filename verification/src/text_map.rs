//! A map from texts to values, kept in the order of its keys.

use vstd::prelude::*;

use crate::lists;
use crate::text;

verus! {

/// One key with its value.
#[derive(Debug)]
pub struct Entry<V> {
    pub key: String,
    pub value: V,
}

/// A map from texts to values. Its keys stand in ascending order, so none occurs twice.
#[derive(Debug)]
pub struct TextMap<V> {
    pub entries: Vec<Entry<V>>,
}

/// The keys of a list of entries.
pub open spec fn keys_of<V>(entries: Seq<Entry<V>>) -> Seq<Seq<char>> {
    Seq::new(entries.len(), |i: int| entries[i].key@)
}

impl<V> View for TextMap<V> {
    type V = Map<Seq<char>, V>;

    open spec fn view(&self) -> Map<Seq<char>, V> {
        Map::new(
            |key: Seq<char>| keys_of(self.entries@).contains(key),
            |key: Seq<char>| self.entries@[keys_of(self.entries@).index_of(key)].value,
        )
    }
}

impl<V> TextMap<V> {
    /// Whether the keys stand in ascending order.
    pub open spec fn wf(&self) -> bool {
        lists::ascending(keys_of(self.entries@))
    }

    proof fn entry_at(&self, i: int)
        requires
            self.wf(),
            0 <= i < self.entries@.len(),
        ensures
            self@.contains_key(self.entries@[i].key@),
            self@[self.entries@[i].key@] == self.entries@[i].value,
    {
        let keys = keys_of(self.entries@);
        let key = self.entries@[i].key@;
        assert(keys[i] == key);
        let j = keys.index_of(key);
        lists::precedes_irreflexive(key);
        if i < j {
            assert(lists::precedes(keys[i], keys[j]));
        }
        if j < i {
            assert(lists::precedes(keys[j], keys[i]));
        }
    }

    /// The map without entries.
    pub fn new() -> (map: Self)
        ensures
            map.wf(),
            map@ == Map::<Seq<char>, V>::empty(),
            map.entries@.len() == 0,
    {
        let map = TextMap { entries: Vec::new() };
        assert(map@ =~= Map::<Seq<char>, V>::empty());
        map
    }

    /// The position of `key`, or of the first greater key where it does not occur.
    fn place(&self, key: &str) -> (at: usize)
        requires
            self.wf(),
        ensures
            at <= self.entries@.len(),
            forall|i: int| 0 <= i < at ==> lists::precedes(#[trigger] self.entries@[i].key@, key@),
            forall|i: int| at <= i < self.entries@.len() ==> !lists::precedes(#[trigger] self.entries@[i].key@, key@),
            self@.contains_key(key@) <==> at < self.entries@.len() && self.entries@[at as int].key@ == key@,
    {
        let mut at: usize = 0;
        while at < self.entries.len() && lists::text_precedes(self.entries[at].key.as_str(), key)
            invariant
                at <= self.entries@.len(),
                forall|i: int| 0 <= i < at ==> lists::precedes(#[trigger] self.entries@[i].key@, key@),
            decreases self.entries@.len() - at,
        {
            at = at + 1;
        }
        proof {
            let keys = keys_of(self.entries@);
            assert forall|i: int| at <= i < self.entries@.len() implies !lists::precedes(#[trigger] self.entries@[i].key@, key@) by {
                if i > at && lists::precedes(self.entries@[i].key@, key@) {
                    assert(lists::precedes(keys[at as int], keys[i]));
                    lists::precedes_transitive(keys[at as int], keys[i], key@);
                }
            }
            if self@.contains_key(key@) {
                let j = keys.index_of(key@);
                assert(self.entries@[j].key@ == key@);
                lists::precedes_irreflexive(key@);
                if j > at {
                    assert(lists::precedes(keys[at as int], keys[j]));
                }
            }
            if at < self.entries@.len() {
                self.entry_at(at as int);
            }
        }
        at
    }

    /// Whether the key occurs.
    pub fn contains_key(&self, key: &str) -> (answer: bool)
        requires
            self.wf(),
        ensures
            answer == self@.contains_key(key@),
    {
        let at = self.place(key);
        at < self.entries.len() && text::same(self.entries[at].key.as_str(), key)
    }

    /// The value of the key, where it occurs.
    pub fn get(&self, key: &str) -> (value: Option<&V>)
        requires
            self.wf(),
        ensures
            value is Some <==> self@.contains_key(key@),
            value matches Some(found) ==> *found == self@[key@],
    {
        let at = self.place(key);
        if at < self.entries.len() && text::same(self.entries[at].key.as_str(), key) {
            proof {
                self.entry_at(at as int);
            }
            Some(&self.entries[at].value)
        } else {
            None
        }
    }

    /// Gives the key a value, in place of the one that it had.
    pub fn insert(&mut self, key: String, value: V)
        requires
            old(self).wf(),
        ensures
            final(self).wf(),
            final(self)@ == old(self)@.insert(key@, value),
    {
        let at = self.place(key.as_str());
        let ghost before = *self;
        let ghost keys = keys_of(self.entries@);
        if at < self.entries.len() && self.entries[at].key == key {
            self.entries[at].value = value;
            proof {
                assert(keys_of(self.entries@) =~= keys);
                before.entry_at(at as int);
                assert forall|k: Seq<char>| #[trigger] self@.contains_key(k) implies self@[k] == before@.insert(key@, value)[k] by {
                    let j = keys.index_of(k);
                    if j != at {
                        assert(self.entries@[j] == before.entries@[j]);
                        if k == key@ {
                            self.entry_at(at as int);
                        }
                    }
                }
                assert(self@ =~= before@.insert(key@, value));
            }
        } else {
            let ghost name = key@;
            self.entries.insert(at, Entry { key, value });
            proof {
                let after = keys_of(self.entries@);
                assert(after =~= keys.insert(at as int, name));
                assert(!keys.contains(name));
                assert forall|i: int, j: int| 0 <= i < j < after.len() implies lists::precedes(#[trigger] after[i], #[trigger] after[j]) by {
                    if i == at {
                        assert(before.entries@[j - 1].key@ == after[j]);
                        assert(keys[j - 1] == after[j]);
                        lists::precedes_total(after[j], name);
                    } else if j == at {
                        assert(before.entries@[i].key@ == after[i]);
                    } else {
                        let bi = if i < at { i } else { i - 1 };
                        let bj = if j < at { j } else { j - 1 };
                        assert(lists::precedes(keys[bi], keys[bj]));
                    }
                }
                self.entry_at(at as int);
                assert forall|k: Seq<char>| before@.insert(name, value).contains_key(k) <==> #[trigger] self@.contains_key(k) by {
                    if keys.contains(k) {
                        let j = keys.index_of(k);
                        assert(after[if j < at { j } else { j + 1 }] == k);
                    }
                    if after.contains(k) && k != name {
                        let j = after.index_of(k);
                        assert(keys[if j < at { j } else { j - 1 }] == k);
                    }
                }
                assert forall|k: Seq<char>| #[trigger] self@.contains_key(k) implies self@[k] == before@.insert(name, value)[k] by {
                    if k != name {
                        let j = keys.index_of(k);
                        assert(keys.contains(k));
                        let moved = if j < at { j } else { j + 1 };
                        assert(self.entries@[moved] == before.entries@[j]);
                        self.entry_at(moved);
                    }
                }
                assert(self@ =~= before@.insert(name, value));
            }
        }
    }

    /// Takes the key out, with its value.
    pub fn remove(&mut self, key: &str) -> (value: Option<V>)
        requires
            old(self).wf(),
        ensures
            final(self).wf(),
            final(self)@ == old(self)@.remove(key@),
            value is Some <==> old(self)@.contains_key(key@),
            value matches Some(found) ==> found == old(self)@[key@],
    {
        let at = self.place(key);
        let ghost before = *self;
        let ghost keys = keys_of(self.entries@);
        if at < self.entries.len() && text::same(self.entries[at].key.as_str(), key) {
            let entry = self.entries.remove(at);
            proof {
                before.entry_at(at as int);
                let after = keys_of(self.entries@);
                assert(after =~= keys.remove(at as int));
                assert forall|i: int, j: int| 0 <= i < j < after.len() implies lists::precedes(#[trigger] after[i], #[trigger] after[j]) by {
                    let bi = if i < at { i } else { i + 1 };
                    let bj = if j < at { j } else { j + 1 };
                    assert(lists::precedes(keys[bi], keys[bj]));
                }
                assert forall|k: Seq<char>| before@.remove(key@).contains_key(k) <==> #[trigger] self@.contains_key(k) by {
                    if keys.contains(k) && k != key@ {
                        let j = keys.index_of(k);
                        assert(after[if j < at { j } else { j - 1 }] == k);
                    }
                    if after.contains(k) {
                        let j = after.index_of(k);
                        let moved = if j < at { j } else { j + 1 };
                        assert(keys[moved] == k);
                        lists::precedes_irreflexive(k);
                        if moved < at {
                            assert(lists::precedes(keys[moved], keys[at as int]));
                        } else {
                            assert(lists::precedes(keys[at as int], keys[moved]));
                        }
                    }
                }
                assert forall|k: Seq<char>| #[trigger] self@.contains_key(k) implies self@[k] == before@.remove(key@)[k] by {
                    let j = after.index_of(k);
                    let moved = if j < at { j } else { j + 1 };
                    assert(self.entries@[j] == before.entries@[moved]);
                    before.entry_at(moved);
                }
                assert(self@ =~= before@.remove(key@));
            }
            Some(entry.value)
        } else {
            assert(self@ =~= before@.remove(key@));
            None
        }
    }

    /// The keys, in ascending order.
    pub fn keys(&self) -> (keys: Vec<String>)
        requires
            self.wf(),
        ensures
            lists::ascending(text::texts(keys@)),
            forall|key: Seq<char>| #[trigger] text::texts(keys@).contains(key) <==> self@.contains_key(key),
            text::texts(keys@) == keys_of(self.entries@),
    {
        let mut keys: Vec<String> = Vec::new();
        let mut at: usize = 0;
        while at < self.entries.len()
            invariant
                at <= self.entries@.len(),
                keys@.len() == at,
                forall|i: int| 0 <= i < at ==> (#[trigger] keys@[i])@ == self.entries@[i].key@,
            decreases self.entries@.len() - at,
        {
            keys.push(self.entries[at].key.clone());
            at = at + 1;
        }
        assert(text::texts(keys@) =~= keys_of(self.entries@));
        keys
    }

    /// Whether the map has no entries.
    pub fn is_empty(&self) -> (answer: bool)
        ensures
            answer == (self.entries@.len() == 0),
            answer ==> self@ == Map::<Seq<char>, V>::empty(),
            !answer ==> self@.contains_key(self.entries@[0].key@),
    {
        let answer = self.entries.len() == 0;
        proof {
            if answer {
                assert(self@ =~= Map::<Seq<char>, V>::empty());
            } else {
                assert(keys_of(self.entries@)[0] == self.entries@[0].key@);
            }
        }
        answer
    }
}

} // verus!
