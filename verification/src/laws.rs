//! Laws of the store: what holds of every mapping, every query and every
//! sequence of operations. Each is stated over the models that the contracts
//! of the operations speak of.

use crate::matcher::{is_embedding, occurs_in_order};
use crate::model::{
    assign_all, lemma_mapping_dom, lemma_mapping_len, lemma_mapping_lookup, mapping_of,
    names_distinct, Mapping, Pair,
};
use crate::store::{matching, stored_mapping};
use vstd::prelude::*;

verus! {

/// One `set`, as its contract describes it: the mapping gains `pair`, and
/// `text` persists the mapping after the change.
pub open spec fn is_set(before: Mapping, pair: Pair, after: Mapping, text: Seq<char>) -> bool {
    &&& after == before.insert(pair.0, pair.1)
    &&& stored_mapping(text) == Some(after)
}

/// After the first `done` sets of a run the mapping is the first one with
/// those pairs assigned in order.
proof fn lemma_sets_assign(states: Seq<Mapping>, pairs: Seq<Pair>, texts: Seq<Seq<char>>, done: int)
    requires
        states.len() == pairs.len() + 1,
        texts.len() == pairs.len(),
        forall|i: int|
            0 <= i < pairs.len() ==> is_set(states[i], #[trigger] pairs[i], states[i + 1], texts[i]),
        0 <= done <= pairs.len(),
    ensures
        states[done] == assign_all(states[0], pairs.take(done)),
    decreases done,
{
    if done > 0 {
        lemma_sets_assign(states, pairs, texts, done - 1);
        assert(is_set(states[done - 1], pairs[done - 1], states[done], texts[done - 1]));
        assert(pairs.take(done).drop_last() =~= pairs.take(done - 1));
    }
}

/// Round trip: after any run of sets, the text that the last set returned
/// stands for the first mapping with all pairs assigned in order, the last
/// description given to a name winning. Building a store from that text
/// therefore succeeds and gives exactly that mapping.
pub proof fn law_round_trip(states: Seq<Mapping>, pairs: Seq<Pair>, texts: Seq<Seq<char>>)
    requires
        pairs.len() > 0,
        states.len() == pairs.len() + 1,
        texts.len() == pairs.len(),
        forall|i: int|
            0 <= i < pairs.len() ==> is_set(states[i], #[trigger] pairs[i], states[i + 1], texts[i]),
    ensures
        stored_mapping(texts.last()) == Some(assign_all(states[0], pairs)),
{
    let n = pairs.len() as int;
    lemma_sets_assign(states, pairs, texts, n);
    assert(pairs.take(n) =~= pairs);
    assert(is_set(states[n - 1], pairs[n - 1], states[n], texts[n - 1]));
}

/// Setting the same name and description twice gives the same mapping as
/// setting it once.
pub proof fn law_set_idempotent(before: Mapping, name: Seq<char>, description: Seq<char>)
    ensures
        before.insert(name, description).insert(name, description) == before.insert(
            name,
            description,
        ),
{
    assert(before.insert(name, description).insert(name, description) =~= before.insert(
        name,
        description,
    ));
}

/// The empty query occurs in every description.
pub proof fn law_empty_query_matches(description: Seq<char>)
    ensures
        occurs_in_order(Seq::<char>::empty(), description),
{
    assert(is_embedding(Seq::<int>::empty(), Seq::<char>::empty(), description));
}

/// A search for the empty query lists every entry exactly once: the list
/// stands for the whole mapping, holds no name twice, and is as long as the
/// mapping has entries.
pub proof fn law_empty_query_lists_everything(entries: Mapping, found: Seq<Pair>)
    requires
        names_distinct(found),
        mapping_of(found) == matching(entries, Seq::<char>::empty()),
    ensures
        mapping_of(found) == entries,
        entries.dom().finite(),
        found.len() == entries.dom().len(),
        forall|name: Seq<char>| #[trigger]
            entries.dom().contains(name) ==> found.contains((name, entries[name])),
{
    assert forall|name: Seq<char>| #[trigger] entries.dom().contains(name) implies matching(
        entries,
        Seq::<char>::empty(),
    ).dom().contains(name) by {
        law_empty_query_matches(entries[name]);
    }
    assert(matching(entries, Seq::<char>::empty()) =~= entries);
    lemma_mapping_len(found);
    assert forall|name: Seq<char>| #[trigger] entries.dom().contains(name) implies found.contains(
        (name, entries[name]),
    ) by {
        law_find_lists_exactly_matches(entries, Seq::<char>::empty(), found, name, entries[name]);
        law_empty_query_matches(entries[name]);
    }
}

/// A search lists an entry exactly when the characters of the query occur in
/// its description in order; nothing else is listed.
pub proof fn law_find_lists_exactly_matches(
    entries: Mapping,
    query: Seq<char>,
    found: Seq<Pair>,
    name: Seq<char>,
    description: Seq<char>,
)
    requires
        names_distinct(found),
        mapping_of(found) == matching(entries, query),
    ensures
        found.contains((name, description)) <==> entries.contains_pair(name, description)
            && occurs_in_order(query, description),
{
    if found.contains((name, description)) {
        let i = choose|i: int| 0 <= i < found.len() && found[i] == (name, description);
        lemma_mapping_lookup(found, i);
    }
    if entries.contains_pair(name, description) && occurs_in_order(query, description) {
        assert(matching(entries, query).contains_pair(name, description));
        lemma_mapping_dom(found, name);
        let i = choose|i: int| 0 <= i < found.len() && found[i].0 == name;
        lemma_mapping_lookup(found, i);
        assert(found[i] == (name, description));
    }
}

/// Deleting a name removes exactly that entry: the name is gone, and every
/// other name keeps its description.
pub proof fn law_delete_removes_exactly(before: Mapping, name: Seq<char>, other: Seq<char>)
    requires
        other != name,
    ensures
        !before.remove(name).dom().contains(name),
        before.remove(name).dom().contains(other) == before.dom().contains(other),
        before.dom().contains(other) ==> before.remove(name)[other] == before[other],
{
}

} // verus!
