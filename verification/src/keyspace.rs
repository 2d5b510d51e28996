//! An in-memory keyspace of text values under text keys, with the
//! commands that the menu cache sends: get, set, delete and a scan by prefix.

use crate::lookup::{
    as_place, first_index, first_row, is_first, lemma_filter_drops, lemma_first_index_is,
    lemma_first_index_none, lemma_first_index_push, lemma_first_index_same,
    lemma_first_index_sound, lemma_first_row_filter,
};
use crate::text::{starts_with, text_starts_with};
use crate::types::same_text;
use vstd::prelude::*;
use vstd::string::*;

verus! {

/// A value under its key.
#[derive(Debug, Clone, PartialEq, Eq)]
pub struct Entry {
    pub key: String,
    pub value: String,
}

/// The keyspace. Of two entries under one key the first one counts.
#[derive(Debug, Clone, PartialEq, Eq)]
pub struct Keyspace {
    pub entries: Vec<Entry>,
}

/// The entries under the key.
pub open spec fn key_is(key: Seq<char>) -> spec_fn(Entry) -> bool {
    |entry: Entry| entry.key@ == key
}

/// The entries under another key.
pub open spec fn key_is_not(key: Seq<char>) -> spec_fn(Entry) -> bool {
    |entry: Entry| entry.key@ != key
}

/// What the entries hold: the value under each key.
pub open spec fn contents(entries: Seq<Entry>) -> Map<Seq<char>, Seq<char>> {
    Map::new(
        |key: Seq<char>| first_index(entries, key_is(key)) is Some,
        |key: Seq<char>| entries[first_index(entries, key_is(key))->0].value@,
    )
}

/// Whether the list names the key.
pub open spec fn lists(keys: Seq<String>, key: Seq<char>) -> bool {
    exists|i: int| 0 <= i < keys.len() && (#[trigger] keys[i])@ == key
}

/// The keys that the list names.
pub open spec fn listed(keys: Seq<String>) -> Set<Seq<char>> {
    Set::new(|key: Seq<char>| lists(keys, key))
}

impl View for Keyspace {
    type V = Map<Seq<char>, Seq<char>>;

    open spec fn view(&self) -> Map<Seq<char>, Seq<char>> {
        contents(self.entries@)
    }
}

impl Keyspace {
    /// A keyspace that holds nothing.
    pub fn new() -> (db: Keyspace)
        ensures
            db@ == Map::<Seq<char>, Seq<char>>::empty(),
    {
        let db = Keyspace { entries: Vec::new() };
        proof {
            assert forall|key: Seq<char>| !(#[trigger] db@.contains_key(key)) by {
                lemma_first_index_none(db.entries@, key_is(key));
            }
            assert(db@ =~= Map::<Seq<char>, Seq<char>>::empty());
        }
        db
    }

    /// The place of the first entry under the key.
    fn find(&self, key: &str) -> (found: Option<usize>)
        ensures
            as_place(found) == first_index(self.entries@, key_is(key@)),
            found matches Some(i) ==> i < self.entries.len(),
    {
        let mut i: usize = 0;
        while i < self.entries.len()
            invariant
                i <= self.entries.len(),
                forall|k: int| 0 <= k < i ==> !key_is(key@)(#[trigger] self.entries@[k]),
            decreases self.entries.len() - i,
        {
            if same_text(self.entries[i].key.as_str(), key) {
                proof {
                    assert(is_first(self.entries@, key_is(key@), i as int));
                    lemma_first_index_is(self.entries@, key_is(key@), i as int);
                }
                return Some(i);
            }
            i = i + 1;
        }
        proof {
            lemma_first_index_none(self.entries@, key_is(key@));
        }
        None
    }

    /// The value under the key.
    pub fn get(&self, key: &str) -> (value: Option<String>)
        ensures
            value is Some <==> self@.contains_key(key@),
            value matches Some(text) ==> text@ == self@[key@],
    {
        match self.find(key) {
            Some(i) => Some(self.entries[i].value.clone()),
            None => None,
        }
    }

    /// Puts the value under the key, in place of what was there.
    pub fn set(&mut self, key: String, value: String)
        ensures
            final(self)@ == old(self)@.insert(key@, value@),
    {
        let ghost before = self.entries@;
        let ghost key_text = key@;
        let ghost value_text = value@;
        match self.find(key.as_str()) {
            Some(i) => {
                self.entries.set(i, Entry { key, value });
                proof {
                    let after = self.entries@;
                    assert forall|other: Seq<char>|
                        first_index(after, key_is(other)) == first_index(
                            before,
                            key_is(other),
                        ) by {
                        assert forall|j: int| 0 <= j < after.len() implies key_is(other)(
                            #[trigger] after[j],
                        ) == key_is(other)(before[j]) by {}
                        lemma_first_index_same(after, before, key_is(other));
                    }
                    assert(self@ =~= old(self)@.insert(key_text, value_text));
                }
            },
            None => {
                self.entries.push(Entry { key, value });
                proof {
                    let after = self.entries@;
                    assert forall|other: Seq<char>|
                        first_index(after, key_is(other)) == (match first_index(
                            before,
                            key_is(other),
                        ) {
                            Some(i) => Some(i),
                            None => if other == key_text {
                                Some(before.len() as int)
                            } else {
                                None
                            },
                        }) by {
                        lemma_first_index_push(before, after[before.len() as int], key_is(other));
                        assert(after =~= before.push(after[before.len() as int]));
                    }
                    assert(self@ =~= old(self)@.insert(key_text, value_text));
                }
            },
        }
    }

    /// Takes the key and its value out.
    pub fn delete(&mut self, key: &str)
        ensures
            final(self)@ == old(self)@.remove(key@),
    {
        let mut kept: Vec<Entry> = Vec::new();
        let mut i: usize = 0;
        while i < self.entries.len()
            invariant
                i <= self.entries.len(),
                self.entries@ == old(self).entries@,
                kept@ == self.entries@.take(i as int).filter(key_is_not(key@)),
            decreases self.entries.len() - i,
        {
            let entry = &self.entries[i];
            proof {
                reveal(Seq::filter);
                let next = self.entries@.take(i + 1);
                assert(next.drop_last() =~= self.entries@.take(i as int));
                assert(next.last() == *entry);
            }
            if !same_text(entry.key.as_str(), key) {
                kept.push(Entry { key: entry.key.clone(), value: entry.value.clone() });
            }
            i = i + 1;
        }
        proof {
            let before = self.entries@;
            assert(before.take(i as int) =~= before);
            assert forall|other: Seq<char>| other != key@ implies first_row(
                kept@,
                key_is(other),
            ) == first_row(before, key_is(other)) by {
                lemma_first_row_filter(before, key_is_not(key@), key_is(other));
            }
            lemma_filter_drops(before, key_is_not(key@), key_is(key@));
            assert(contents(kept@) =~= contents(before).remove(key@));
        }
        self.entries = kept;
    }

    /// Takes each of the keys out.
    pub fn delete_many(&mut self, keys: &Vec<String>)
        ensures
            final(self)@ == old(self)@.remove_keys(listed(keys@)),
    {
        let mut i: usize = 0;
        assert(self@ =~= old(self)@.remove_keys(listed(keys@.take(0))));
        while i < keys.len()
            invariant
                i <= keys.len(),
                self@ == old(self)@.remove_keys(listed(keys@.take(i as int))),
            decreases keys.len() - i,
        {
            let ghost before = self@;
            self.delete(keys[i].as_str());
            proof {
                let done = keys@.take(i as int);
                let next = keys@.take(i + 1);
                assert forall|key: Seq<char>| lists(next, key) <==> (lists(done, key) || key
                    == keys@[i as int]@) by {
                    if lists(next, key) {
                        let j = choose|j: int| 0 <= j < next.len() && (#[trigger] next[j])@ == key;
                        if j < i {
                            assert(done[j]@ == key);
                        }
                    }
                    if lists(done, key) {
                        let j = choose|j: int| 0 <= j < done.len() && (#[trigger] done[j])@ == key;
                        assert(next[j]@ == key);
                    }
                    if key == keys@[i as int]@ {
                        assert(next[i as int]@ == key);
                    }
                }
                assert(self@ =~= old(self)@.remove_keys(listed(next)));
            }
            i = i + 1;
        }
        assert(keys@.take(i as int) =~= keys@);
    }

    /// The keys that begin with `prefix`.
    pub fn keys_with_prefix(&self, prefix: &str) -> (keys: Vec<String>)
        ensures
            forall|key: Seq<char>|
                lists(keys@, key) <==> (self@.contains_key(key) && starts_with(key, prefix@)),
    {
        let mut keys: Vec<String> = Vec::new();
        let mut i: usize = 0;
        while i < self.entries.len()
            invariant
                i <= self.entries.len(),
                forall|key: Seq<char>|
                    lists(keys@, key) <==> (starts_with(key, prefix@) && exists|k: int|
                        0 <= k < i && (#[trigger] self.entries@[k]).key@ == key),
            decreases self.entries.len() - i,
        {
            let entry = &self.entries[i];
            let ghost before = keys@;
            if text_starts_with(entry.key.as_str(), prefix) {
                keys.push(entry.key.clone());
                proof {
                    let after = keys@;
                    assert forall|key: Seq<char>| lists(after, key) <==> (starts_with(
                        key,
                        prefix@,
                    ) && exists|k: int|
                        0 <= k < i + 1 && (#[trigger] self.entries@[k]).key@ == key) by {
                        if lists(after, key) {
                            let j = choose|j: int|
                                0 <= j < after.len() && (#[trigger] after[j])@ == key;
                            if j < before.len() {
                                assert(before[j]@ == key);
                                assert(lists(before, key));
                            } else {
                                assert(self.entries@[i as int].key@ == key);
                            }
                        }
                        if starts_with(key, prefix@) && exists|k: int|
                            0 <= k < i + 1 && (#[trigger] self.entries@[k]).key@ == key {
                            let k = choose|k: int|
                                0 <= k < i + 1 && (#[trigger] self.entries@[k]).key@ == key;
                            if k < i {
                                assert(lists(before, key));
                                let j = choose|j: int|
                                    0 <= j < before.len() && (#[trigger] before[j])@ == key;
                                assert(after[j]@ == key);
                            } else {
                                assert(after[before.len() as int]@ == key);
                            }
                        }
                    }
                }
            } else {
                proof {
                    assert forall|key: Seq<char>| lists(keys@, key) <==> (starts_with(
                        key,
                        prefix@,
                    ) && exists|k: int|
                        0 <= k < i + 1 && (#[trigger] self.entries@[k]).key@ == key) by {
                        if starts_with(key, prefix@) && exists|k: int|
                            0 <= k < i + 1 && (#[trigger] self.entries@[k]).key@ == key {
                            let k = choose|k: int|
                                0 <= k < i + 1 && (#[trigger] self.entries@[k]).key@ == key;
                            assert(k < i);
                        }
                    }
                }
            }
            i = i + 1;
        }
        proof {
            assert forall|key: Seq<char>| lists(keys@, key) <==> (self@.contains_key(key)
                && starts_with(key, prefix@)) by {
                lemma_first_index_sound(self.entries@, key_is(key));
                if self@.contains_key(key) {
                    let at = first_index(self.entries@, key_is(key))->0;
                    assert(self.entries@[at].key@ == key);
                }
                if exists|k: int|
                    0 <= k < self.entries@.len() && (#[trigger] self.entries@[k]).key@ == key {
                    let k = choose|k: int|
                        0 <= k < self.entries@.len() && (#[trigger] self.entries@[k]).key@ == key;
                    assert(key_is(key)(self.entries@[k]));
                }
            }
        }
        keys
    }
}

} // verus!
