//! The store: the in-memory index of `name -> description` entries, the
//! operations that change it, and the text that persists it.

use crate::error::{StoreError, StoreErrorKind};
use crate::json::{decode_object, encode_object, json_object};
use crate::matcher::{is_match, occurs_in_order};
use crate::model::{
    has_name, lemma_distinct_push, lemma_mapping_dom, lemma_mapping_len, lemma_mapping_lookup,
    lemma_mapping_push, lemma_mapping_remove, lemma_mapping_update, mapping_of, names_distinct,
    Mapping, Pair,
};
use vstd::prelude::*;
use vstd::string::*;

verus! {

/// The mapping that persisted `content` stands for: nothing for an empty
/// file, else the decoded JSON object; `None` where the content does not
/// decode.
pub open spec fn stored_mapping(content: Seq<char>) -> Option<Mapping> {
    if content.len() == 0 {
        Some(Map::empty())
    } else {
        json_object(content)
    }
}

/// The entries of `entries` whose description `query` fuzzily matches.
pub open spec fn matching(entries: Mapping, query: Seq<char>) -> Mapping {
    Map::new(
        |name: Seq<char>| entries.dom().contains(name) && occurs_in_order(query, entries[name]),
        |name: Seq<char>| entries[name],
    )
}

/// The `(name, description)` pairs that a search result lists.
pub open spec fn listed(found: Seq<[String; 2]>) -> Seq<Pair> {
    Seq::new(found.len(), |i: int| (found[i][0]@, found[i][1]@))
}

/// Where the entry named `name` is kept among `entries`, if there is one.
fn position(entries: &Vec<(String, String)>, name: &String) -> (found: Option<usize>)
    ensures
        match found {
            Some(i) => i < entries.len() && entries.deep_view()[i as int].0 == name@,
            None => !has_name(entries.deep_view(), name@),
        },
{
    let mut i: usize = 0;
    while i < entries.len()
        invariant
            i <= entries.len(),
            forall|j: int| 0 <= j < i ==> entries.deep_view()[j].0 != name@,
        decreases entries.len() - i,
    {
        if entries[i].0 == *name {
            return Some(i);
        }
        i += 1;
    }
    None
}

/// A selection of `pairs` that keeps, in their order, exactly the pairs whose
/// description `query` matches stands for the matching part of the mapping.
proof fn lemma_selection_is_matching(
    pairs: Seq<Pair>,
    found: Seq<Pair>,
    origin: Seq<int>,
    query: Seq<char>,
)
    requires
        names_distinct(pairs),
        origin.len() == found.len(),
        forall|k: int|
            0 <= k < found.len() ==> 0 <= #[trigger] origin[k] < pairs.len() && found[k]
                == pairs[origin[k]] && occurs_in_order(query, found[k].1),
        forall|k: int, l: int|
            0 <= k < l < found.len() ==> #[trigger] origin[k] < #[trigger] origin[l],
        forall|j: int|
            0 <= j < pairs.len() && occurs_in_order(query, (#[trigger] pairs[j]).1) ==> has_name(
                found,
                pairs[j].0,
            ),
    ensures
        names_distinct(found),
        mapping_of(found) == matching(mapping_of(pairs), query),
{
    assert(names_distinct(found)) by {
        assert forall|a: int, b: int| 0 <= a < b < found.len() implies found[a].0
            != found[b].0 by {
            assert(origin[a] < origin[b]);
            assert(pairs[origin[a]].0 != pairs[origin[b]].0);
        }
    }
    let left = mapping_of(found);
    let right = matching(mapping_of(pairs), query);
    assert forall|name: Seq<char>| left.dom().contains(name) <==> right.dom().contains(name) by {
        lemma_mapping_dom(found, name);
        lemma_mapping_dom(pairs, name);
        if has_name(found, name) {
            let k = choose|k: int| 0 <= k < found.len() && found[k].0 == name;
            lemma_mapping_lookup(pairs, origin[k]);
        }
        if right.dom().contains(name) {
            let j = choose|j: int| 0 <= j < pairs.len() && pairs[j].0 == name;
            lemma_mapping_lookup(pairs, j);
        }
    }
    assert forall|name: Seq<char>| left.dom().contains(name) implies left[name]
        == right[name] by {
        lemma_mapping_dom(found, name);
        let k = choose|k: int| 0 <= k < found.len() && found[k].0 == name;
        lemma_mapping_lookup(found, k);
        lemma_mapping_lookup(pairs, origin[k]);
    }
    assert(left =~= right);
}

/// The index of remembered things. Each name has at most one description.
#[derive(Debug)]
pub struct Store {
    entries: Vec<(String, String)>,
}

impl View for Store {
    type V = Mapping;

    closed spec fn view(&self) -> Mapping {
        mapping_of(self.entries.deep_view())
    }
}

impl Store {
    #[verifier::type_invariant]
    spec fn names_are_distinct(self) -> bool {
        names_distinct(self.entries.deep_view())
    }

    /// Moves the entries out, leaving the store empty until they are put back.
    fn take_entries(&mut self) -> (entries: Vec<(String, String)>)
        ensures
            entries == old(self).entries,
            final(self).entries@.len() == 0,
    {
        let mut entries: Vec<(String, String)> = Vec::new();
        core::mem::swap(&mut self.entries, &mut entries);
        entries
    }

    /// Inserts or overwrites the entry for `name` in memory.
    fn assign(&mut self, name: String, description: String)
        ensures
            final(self)@ == old(self)@.insert(name@, description@),
    {
        proof {
            use_type_invariant(&*self);
        }
        let ghost before = self.entries.deep_view();
        let mut entries = self.take_entries();
        match position(&entries, &name) {
            Some(i) => {
                entries.set(i, (name, description));
                proof {
                    lemma_mapping_update(before, i as int, description@);
                    assert(entries.deep_view() =~= before.update(
                        i as int,
                        (before[i as int].0, description@),
                    ));
                }
            },
            None => {
                entries.push((name, description));
                proof {
                    lemma_mapping_push(before, (name@, description@));
                    lemma_distinct_push(before, (name@, description@));
                    assert(entries.deep_view() =~= before.push((name@, description@)));
                }
            },
        }
        self.entries = entries;
    }

    /// A store holding `pairs`, assigned in order: where a name occurs more
    /// than once, its last description wins.
    pub fn with_entries(pairs: Vec<(String, String)>) -> (store: Store)
        ensures
            store@ == mapping_of(pairs.deep_view()),
    {
        let mut store = Store { entries: Vec::new() };
        let mut i: usize = 0;
        while i < pairs.len()
            invariant
                i <= pairs.len(),
                store@ == mapping_of(pairs.deep_view().take(i as int)),
            decreases pairs.len() - i,
        {
            let name = pairs[i].0.clone();
            let description = pairs[i].1.clone();
            proof {
                let done = pairs.deep_view().take(i as int);
                lemma_mapping_push(done, (name@, description@));
                assert(done.push((name@, description@)) =~= pairs.deep_view().take(i + 1));
            }
            store.assign(name, description);
            i += 1;
        }
        proof {
            assert(pairs.deep_view().take(i as int) =~= pairs.deep_view());
        }
        store
    }

    /// Builds the store from the content of its file.
    ///
    /// An empty file stands for an empty store. Any other content has to
    /// decode as a JSON object of strings; where it does not, the decoder's
    /// error is returned.
    pub fn new(content: &str) -> (loaded: Result<Store, StoreError>)
        ensures
            match loaded {
                Ok(store) => stored_mapping(content@) == Some(store@),
                Err(error) => stored_mapping(content@) is None && error is Json,
            },
    {
        let mut store = Store { entries: Vec::new() };
        match store.load(content) {
            Ok(()) => Ok(store),
            Err(error) => Err(error),
        }
    }

    /// Replaces the in-memory mapping by the one that `content` stands for.
    /// Content that does not decode leaves the mapping as it was.
    fn load(&mut self, content: &str) -> (done: Result<(), StoreError>)
        ensures
            match done {
                Ok(()) => stored_mapping(content@) == Some(final(self)@),
                Err(error) => stored_mapping(content@) is None && error is Json && final(self)@
                    == old(self)@,
            },
    {
        if content.is_empty() {
            self.entries = Vec::new();
            return Ok(());
        }
        match decode_object(content) {
            Ok(pairs) => {
                *self = Store::with_entries(pairs);
                Ok(())
            },
            Err(error) => Err(StoreError::from(error)),
        }
    }

    /// The text that persists the current mapping.
    fn save(&self) -> (saved: Result<String, StoreError>)
        ensures
            saved is Ok,
            saved matches Ok(text) ==> stored_mapping(text@) == Some(self@),
    {
        match encode_object(&self.entries) {
            Ok(text) => Ok(text),
            Err(error) => Err(StoreError::from(error)),
        }
    }

    /// Adds or overwrites the entry for `key` and returns the text to
    /// persist: the whole mapping after the change.
    pub fn set(&mut self, key: &str, value: &str) -> (saved: Result<String, StoreError>)
        ensures
            final(self)@ == old(self)@.insert(key@, value@),
            saved is Ok,
            saved matches Ok(text) ==> stored_mapping(text@) == Some(final(self)@),
    {
        self.assign(String::from_str(key), String::from_str(value));
        self.save()
    }

    /// Finds the entries whose description `description` fuzzily matches.
    /// Each such entry is listed once, as `[name, description]`; the order
    /// of the list is not part of the contract.
    pub fn find(&self, description: &str) -> (matches: Vec<[String; 2]>)
        ensures
            names_distinct(listed(matches@)),
            mapping_of(listed(matches@)) == matching(self@, description@),
    {
        proof {
            use_type_invariant(self);
        }
        let ghost pairs = self.entries.deep_view();
        let ghost mut origin: Seq<int> = Seq::empty();
        let mut matches: Vec<[String; 2]> = Vec::new();
        let mut i: usize = 0;
        while i < self.entries.len()
            invariant
                i <= self.entries.len(),
                pairs == self.entries.deep_view(),
                origin.len() == matches.len(),
                forall|k: int|
                    0 <= k < matches.len() ==> 0 <= #[trigger] origin[k] < i && listed(matches@)[k]
                        == pairs[origin[k]] && occurs_in_order(
                        description@,
                        listed(matches@)[k].1,
                    ),
                forall|k: int, l: int|
                    0 <= k < l < matches.len() ==> #[trigger] origin[k] < #[trigger] origin[l],
                forall|j: int|
                    0 <= j < i && occurs_in_order(description@, (#[trigger] pairs[j]).1)
                        ==> has_name(listed(matches@), pairs[j].0),
            decreases self.entries.len() - i,
        {
            let entry = &self.entries[i];
            if is_match(entry.1.as_str(), description) {
                let ghost earlier = listed(matches@);
                matches.push([entry.0.clone(), entry.1.clone()]);
                proof {
                    origin = origin.push(i as int);
                    let now = listed(matches@);
                    assert(now[earlier.len() as int] == pairs[i as int]);
                    assert forall|k: int| 0 <= k < earlier.len() implies now[k] == earlier[k] by {}
                    assert forall|j: int|
                        0 <= j < i + 1 && occurs_in_order(
                            description@,
                            (#[trigger] pairs[j]).1,
                        ) implies has_name(now, pairs[j].0) by {
                        if j < i {
                            let k = choose|k: int|
                                0 <= k < earlier.len() && earlier[k].0 == pairs[j].0;
                            assert(now[k].0 == pairs[j].0);
                        } else {
                            assert(now[earlier.len() as int].0 == pairs[j].0);
                        }
                    }
                }
            }
            i += 1;
        }
        proof {
            lemma_selection_is_matching(pairs, listed(matches@), origin, description@);
        }
        matches
    }

    /// Removes the entry for `key` and returns the text to persist. Where
    /// there is no such entry nothing changes, nothing is to be persisted,
    /// and the failure names the key.
    pub fn delete(&mut self, key: &str) -> (saved: Result<String, StoreError>)
        ensures
            match saved {
                Ok(text) => {
                    &&& old(self)@.dom().contains(key@)
                    &&& final(self)@ == old(self)@.remove(key@)
                    &&& stored_mapping(text@) == Some(final(self)@)
                },
                Err(error) => {
                    &&& !old(self)@.dom().contains(key@)
                    &&& final(self)@ == old(self)@
                    &&& error matches StoreError::App(StoreErrorKind::KeyNotFound(name))
                    &&& name@ == key@
                },
            },
    {
        proof {
            use_type_invariant(&*self);
        }
        let name = String::from_str(key);
        let ghost before = self.entries.deep_view();
        proof {
            lemma_mapping_dom(before, key@);
        }
        match position(&self.entries, &name) {
            Some(i) => {
                let mut entries = self.take_entries();
                entries.remove(i);
                proof {
                    lemma_mapping_remove(before, i as int);
                    assert(entries.deep_view() =~= before.remove(i as int));
                }
                self.entries = entries;
                self.save()
            },
            None => Err(StoreError::App(StoreErrorKind::KeyNotFound(name))),
        }
    }

    /// How many entries the store holds.
    pub fn len(&self) -> (count: usize)
        ensures
            self@.dom().finite(),
            count == self@.dom().len(),
    {
        proof {
            use_type_invariant(self);
            lemma_mapping_len(self.entries.deep_view());
        }
        self.entries.len()
    }

    /// The description remembered for `key`, if there is one.
    pub fn get(&self, key: &str) -> (description: Option<&String>)
        ensures
            match description {
                Some(text) => self@.contains_pair(key@, text@),
                None => !self@.dom().contains(key@),
            },
    {
        proof {
            use_type_invariant(self);
            lemma_mapping_dom(self.entries.deep_view(), key@);
        }
        let name = String::from_str(key);
        match position(&self.entries, &name) {
            Some(i) => {
                proof {
                    lemma_mapping_lookup(self.entries.deep_view(), i as int);
                }
                Some(&self.entries[i].1)
            },
            None => None,
        }
    }
}

} // verus!
