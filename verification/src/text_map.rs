//! A map from text to text with case-sensitive keys, where a later write to a
//! key replaces the earlier one. It holds request headers and cookies.

use crate::text::str_eq;
use vstd::prelude::*;
use vstd::string::*;

verus! {

/// Whether some entry has the key `key`.
pub open spec fn has_key(entries: Seq<(String, String)>, key: Seq<char>) -> bool {
    exists|i: int| 0 <= i < entries.len() && (#[trigger] entries[i]).0@ == key
}

/// An index at which `key` stands, if it stands anywhere.
pub open spec fn key_index(entries: Seq<(String, String)>, key: Seq<char>) -> int {
    choose|i: int| 0 <= i < entries.len() && (#[trigger] entries[i]).0@ == key
}

/// Whether no key stands at two indices.
pub open spec fn distinct_keys(entries: Seq<(String, String)>) -> bool {
    forall|i: int, j: int|
        0 <= i < j < entries.len() ==> (#[trigger] entries[i]).0@ != (#[trigger] entries[j]).0@
}

/// The map that a list of entries with distinct keys stands for.
pub open spec fn table(entries: Seq<(String, String)>) -> Map<Seq<char>, Seq<char>> {
    Map::new(|key: Seq<char>| has_key(entries, key), |key: Seq<char>| entries[key_index(entries, key)].1@)
}

/// With distinct keys, the index of a key is the one place where it stands.
pub proof fn lemma_key_index(entries: Seq<(String, String)>, at: int)
    requires
        distinct_keys(entries),
        0 <= at < entries.len(),
    ensures
        has_key(entries, entries[at].0@),
        key_index(entries, entries[at].0@) == at,
        table(entries).contains_key(entries[at].0@),
        table(entries)[entries[at].0@] == entries[at].1@,
{
    let key = entries[at].0@;
    let found = key_index(entries, key);
    assert(0 <= found < entries.len() && entries[found].0@ == key);
    if found < at {
        assert(entries[found].0@ != entries[at].0@);
    } else if at < found {
        assert(entries[at].0@ != entries[found].0@);
    }
}

/// Writing a value at the place of its key is an insertion into the map.
pub proof fn lemma_table_update(
    entries: Seq<(String, String)>,
    at: int,
    entry: (String, String),
)
    requires
        distinct_keys(entries),
        0 <= at < entries.len(),
        entries[at].0@ == entry.0@,
    ensures
        distinct_keys(entries.update(at, entry)),
        table(entries.update(at, entry)) == table(entries).insert(entry.0@, entry.1@),
{
    let after = entries.update(at, entry);
    assert forall|i: int, j: int| 0 <= i < j < after.len() implies (#[trigger] after[i]).0@ != (
    #[trigger] after[j]).0@ by {
        assert(entries[i].0@ != entries[j].0@);
    }
    assert forall|key: Seq<char>| has_key(after, key) == has_key(entries, key) by {
        if has_key(entries, key) {
            let i = key_index(entries, key);
            assert(after[i].0@ == key);
        }
        if has_key(after, key) {
            let i = key_index(after, key);
            assert(entries[i].0@ == key);
        }
    }
    assert forall|key: Seq<char>| has_key(after, key) implies #[trigger] table(after)[key]
        == table(entries).insert(entry.0@, entry.1@)[key] by {
        let i = key_index(after, key);
        lemma_key_index(after, i);
        lemma_key_index(entries, i);
    }
    assert(table(after) =~= table(entries).insert(entry.0@, entry.1@));
}

/// Appending an entry under a new key is an insertion into the map.
pub proof fn lemma_table_push(entries: Seq<(String, String)>, entry: (String, String))
    requires
        distinct_keys(entries),
        !has_key(entries, entry.0@),
    ensures
        distinct_keys(entries.push(entry)),
        table(entries.push(entry)) == table(entries).insert(entry.0@, entry.1@),
{
    let after = entries.push(entry);
    assert forall|i: int, j: int| 0 <= i < j < after.len() implies (#[trigger] after[i]).0@ != (
    #[trigger] after[j]).0@ by {
        if j < entries.len() {
            assert(entries[i].0@ != entries[j].0@);
        } else {
            assert(entries[i].0@ != entry.0@);
        }
    }
    assert(after[entries.len() as int].0@ == entry.0@);
    assert forall|key: Seq<char>| has_key(after, key) == (has_key(entries, key) || key
        == entry.0@) by {
        if has_key(entries, key) {
            let i = key_index(entries, key);
            assert(after[i].0@ == key);
        }
        if has_key(after, key) {
            let i = key_index(after, key);
            if i < entries.len() {
                assert(entries[i].0@ == key);
            }
        }
    }
    assert forall|key: Seq<char>| has_key(after, key) implies #[trigger] table(after)[key]
        == table(entries).insert(entry.0@, entry.1@)[key] by {
        let i = key_index(after, key);
        lemma_key_index(after, i);
        if i < entries.len() {
            lemma_key_index(entries, i);
        }
    }
    assert(table(after) =~= table(entries).insert(entry.0@, entry.1@));
}

/// A list of entries with distinct keys stands for a map with as many keys
/// as the list has entries.
pub proof fn lemma_table_size(entries: Seq<(String, String)>)
    requires
        distinct_keys(entries),
    ensures
        table(entries).dom().finite(),
        table(entries).dom().len() == entries.len(),
    decreases entries.len(),
{
    if entries.len() == 0 {
        assert(table(entries).dom() =~= Set::<Seq<char>>::empty());
    } else {
        let before = entries.drop_last();
        let last = entries.last();
        assert forall|i: int, j: int| 0 <= i < j < before.len() implies (#[trigger] before[i]).0@
            != (#[trigger] before[j]).0@ by {
            assert(entries[i].0@ != entries[j].0@);
        }
        assert(!has_key(before, last.0@)) by {
            if has_key(before, last.0@) {
                let i = key_index(before, last.0@);
                assert(entries[i].0@ != entries[entries.len() - 1].0@);
            }
        }
        lemma_table_size(before);
        lemma_table_push(before, last);
        assert(before.push(last) =~= entries);
        assert(table(entries).dom() =~= table(before).dom().insert(last.0@));
    }
}

/// A map from text to text. Keys are compared character by character, so
/// two keys that differ only in case are two keys.
#[derive(Debug)]
pub struct TextMap {
    entries: Vec<(String, String)>,
}

impl View for TextMap {
    type V = Map<Seq<char>, Seq<char>>;

    closed spec fn view(&self) -> Map<Seq<char>, Seq<char>> {
        table(self.entries@)
    }
}

impl TextMap {
    /// Whether the map is well formed: no key is held twice.
    pub closed spec fn wf(&self) -> bool {
        distinct_keys(self.entries@)
    }

    /// The keys and values in the order in which the keys first came.
    pub closed spec fn pairs(&self) -> Seq<(Seq<char>, Seq<char>)> {
        self.entries@.map_values(|entry: (String, String)| (entry.0@, entry.1@))
    }

    /// The pairs are the map: each pair is a key with its value, each key
    /// of the map stands in one pair, and no key stands in two.
    pub proof fn lemma_pairs(&self)
        requires
            self.wf(),
        ensures
            forall|i: int|
                0 <= i < self.pairs().len() ==> self@.contains_key((#[trigger] self.pairs()[i]).0)
                    && self@[self.pairs()[i].0] == self.pairs()[i].1,
            forall|key: Seq<char>| #[trigger]
                self@.contains_key(key) ==> exists|i: int|
                    0 <= i < self.pairs().len() && (#[trigger] self.pairs()[i]).0 == key,
            forall|i: int, j: int|
                0 <= i < j < self.pairs().len() ==> (#[trigger] self.pairs()[i]).0 != (
                #[trigger] self.pairs()[j]).0,
    {
        assert forall|i: int| 0 <= i < self.pairs().len() implies self@.contains_key(
            (#[trigger] self.pairs()[i]).0,
        ) && self@[self.pairs()[i].0] == self.pairs()[i].1 by {
            lemma_key_index(self.entries@, i);
        }
        assert forall|key: Seq<char>| #[trigger] self@.contains_key(key) implies exists|i: int|
            0 <= i < self.pairs().len() && (#[trigger] self.pairs()[i]).0 == key by {
            let i = key_index(self.entries@, key);
            assert(self.pairs()[i].0 == key);
        }
        assert forall|i: int, j: int| 0 <= i < j < self.pairs().len() implies (
        #[trigger] self.pairs()[i]).0 != (#[trigger] self.pairs()[j]).0 by {
            assert(self.entries@[i].0@ != self.entries@[j].0@);
        }
    }

    /// The map without any key.
    pub fn new() -> (map: TextMap)
        ensures
            map.wf(),
            map@ == Map::<Seq<char>, Seq<char>>::empty(),
            map.pairs().len() == 0,
    {
        let map = TextMap { entries: Vec::new() };
        assert(map@ =~= Map::<Seq<char>, Seq<char>>::empty());
        map
    }

    /// Where `key` stands among the entries, or their number.
    fn position(&self, key: &str) -> (at: usize)
        ensures
            at <= self.entries.len(),
            at < self.entries.len() ==> self.entries[at as int].0@ == key@,
            at == self.entries.len() ==> !has_key(self.entries@, key@),
    {
        let mut at: usize = 0;
        while at < self.entries.len()
            invariant
                at <= self.entries.len(),
                forall|i: int| 0 <= i < at ==> (#[trigger] self.entries[i]).0@ != key@,
            decreases self.entries.len() - at,
        {
            if str_eq(self.entries[at].0.as_str(), key) {
                return at;
            }
            at += 1;
        }
        at
    }

    /// The value under `key`, if the map holds the key.
    pub fn get(&self, key: &str) -> (value: Option<&String>)
        requires
            self.wf(),
        ensures
            match value {
                Some(text) => self@.contains_key(key@) && text@ == self@[key@],
                None => !self@.contains_key(key@),
            },
    {
        let at = self.position(key);
        if at < self.entries.len() {
            proof {
                lemma_key_index(self.entries@, at as int);
            }
            Some(&self.entries[at].1)
        } else {
            None
        }
    }

    /// Whether the map holds `key`.
    pub fn contains_key(&self, key: &str) -> (held: bool)
        requires
            self.wf(),
        ensures
            held == self@.contains_key(key@),
    {
        self.get(key).is_some()
    }

    /// Puts `value` under `key`; a value that stood there before is
    /// replaced.
    pub fn insert(&mut self, key: String, value: String)
        requires
            old(self).wf(),
        ensures
            final(self).wf(),
            final(self)@ == old(self)@.insert(key@, value@),
    {
        let at = self.position(key.as_str());
        if at < self.entries.len() {
            proof {
                lemma_table_update(self.entries@, at as int, (key, value));
            }
            self.entries.set(at, (key, value));
        } else {
            proof {
                lemma_table_push(self.entries@, (key, value));
            }
            self.entries.push((key, value));
        }
    }

    /// Whether the map holds no key.
    pub fn is_empty(&self) -> (empty: bool)
        requires
            self.wf(),
        ensures
            empty == (self@ == Map::<Seq<char>, Seq<char>>::empty()),
    {
        if self.entries.len() == 0 {
            assert(self@ =~= Map::<Seq<char>, Seq<char>>::empty());
            true
        } else {
            proof {
                lemma_key_index(self.entries@, 0);
            }
            false
        }
    }

    /// The number of keys.
    pub fn len(&self) -> (count: usize)
        requires
            self.wf(),
        ensures
            count == self.pairs().len(),
            self@.dom().finite(),
            count == self@.dom().len(),
    {
        proof {
            lemma_table_size(self.entries@);
        }
        self.entries.len()
    }

    /// The key and the value at place `at`, counting keys in the order in
    /// which they first came.
    pub fn entry(&self, at: usize) -> (pair: (&String, &String))
        requires
            self.wf(),
            at < self.pairs().len(),
        ensures
            (pair.0@, pair.1@) == self.pairs()[at as int],
            self@.contains_key(pair.0@),
            self@[pair.0@] == pair.1@,
    {
        proof {
            lemma_key_index(self.entries@, at as int);
        }
        (&self.entries[at].0, &self.entries[at].1)
    }
}

} // verus!
