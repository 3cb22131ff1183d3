//! The mathematical model of the index: a mapping from names to descriptions,
//! and the sequences of `(name, description)` pairs that stand for it.

use vstd::prelude::*;

verus! {

/// The mapping from names to descriptions that the store stands for.
pub type Mapping = Map<Seq<char>, Seq<char>>;

/// A `(name, description)` pair as plain text.
pub type Pair = (Seq<char>, Seq<char>);

/// The mapping obtained from `base` by assigning each pair of `pairs` in
/// order: the last description given to a name wins.
pub open spec fn assign_all(base: Mapping, pairs: Seq<Pair>) -> Mapping
    decreases pairs.len(),
{
    if pairs.len() == 0 {
        base
    } else {
        assign_all(base, pairs.drop_last()).insert(pairs.last().0, pairs.last().1)
    }
}

/// The mapping that a sequence of pairs stands for, starting from nothing.
pub open spec fn mapping_of(pairs: Seq<Pair>) -> Mapping {
    assign_all(Map::empty(), pairs)
}

/// No name occurs twice among `pairs`.
pub open spec fn names_distinct(pairs: Seq<Pair>) -> bool {
    forall|i: int, j: int| 0 <= i < j < pairs.len() ==> pairs[i].0 != pairs[j].0
}

/// Some pair of `pairs` carries `name`.
pub open spec fn has_name(pairs: Seq<Pair>, name: Seq<char>) -> bool {
    exists|i: int| 0 <= i < pairs.len() && pairs[i].0 == name
}

/// The names that `assign_all` defines are those of `base` and of `pairs`.
pub proof fn lemma_assign_all_dom(base: Mapping, pairs: Seq<Pair>, name: Seq<char>)
    ensures
        assign_all(base, pairs).dom().contains(name) <==> base.dom().contains(name) || has_name(
            pairs,
            name,
        ),
    decreases pairs.len(),
{
    if pairs.len() > 0 {
        let front = pairs.drop_last();
        lemma_assign_all_dom(base, front, name);
        if has_name(front, name) {
            let i = choose|i: int| 0 <= i < front.len() && front[i].0 == name;
            assert(pairs[i].0 == name);
        }
        if has_name(pairs, name) && pairs.last().0 != name {
            let i = choose|i: int| 0 <= i < pairs.len() && pairs[i].0 == name;
            assert(front[i].0 == name);
        }
    }
}

/// Among pairs with distinct names, each pair is an entry of the mapping.
pub proof fn lemma_mapping_lookup(pairs: Seq<Pair>, i: int)
    requires
        names_distinct(pairs),
        0 <= i < pairs.len(),
    ensures
        mapping_of(pairs).contains_pair(pairs[i].0, pairs[i].1),
    decreases pairs.len(),
{
    if i < pairs.len() - 1 {
        let front = pairs.drop_last();
        assert(names_distinct(front)) by {
            assert forall|a: int, b: int| 0 <= a < b < front.len() implies front[a].0
                != front[b].0 by {
                assert(pairs[a].0 != pairs[b].0);
            }
        }
        lemma_mapping_lookup(front, i);
        assert(front[i] == pairs[i]);
    }
}

/// A name is defined by the mapping exactly when some pair carries it.
pub proof fn lemma_mapping_dom(pairs: Seq<Pair>, name: Seq<char>)
    ensures
        mapping_of(pairs).dom().contains(name) <==> has_name(pairs, name),
{
    lemma_assign_all_dom(Map::empty(), pairs, name);
}

/// Appending a pair assigns it.
pub proof fn lemma_mapping_push(pairs: Seq<Pair>, pair: Pair)
    ensures
        mapping_of(pairs.push(pair)) == mapping_of(pairs).insert(pair.0, pair.1),
{
    assert(pairs.push(pair).drop_last() =~= pairs);
}

/// Appending a pair under a name that does not occur keeps the names distinct.
pub proof fn lemma_distinct_push(pairs: Seq<Pair>, pair: Pair)
    requires
        names_distinct(pairs),
        !has_name(pairs, pair.0),
    ensures
        names_distinct(pairs.push(pair)),
{
    let longer = pairs.push(pair);
    assert forall|a: int, b: int| 0 <= a < b < longer.len() implies longer[a].0
        != longer[b].0 by {
        if b == pairs.len() {
            assert(pairs[a].0 != pair.0);
        } else {
            assert(pairs[a].0 != pairs[b].0);
        }
    }
}

/// Replacing the description of the pair at `i` assigns its name anew.
pub proof fn lemma_mapping_update(pairs: Seq<Pair>, i: int, description: Seq<char>)
    requires
        names_distinct(pairs),
        0 <= i < pairs.len(),
    ensures
        names_distinct(pairs.update(i, (pairs[i].0, description))),
        mapping_of(pairs.update(i, (pairs[i].0, description))) == mapping_of(pairs).insert(
            pairs[i].0,
            description,
        ),
{
    let name = pairs[i].0;
    let changed = pairs.update(i, (name, description));
    assert(names_distinct(changed)) by {
        assert forall|a: int, b: int| 0 <= a < b < changed.len() implies changed[a].0
            != changed[b].0 by {
            assert(pairs[a].0 != pairs[b].0);
        }
    }
    let left = mapping_of(changed);
    let right = mapping_of(pairs).insert(name, description);
    assert forall|k: Seq<char>| left.dom().contains(k) <==> right.dom().contains(k) by {
        lemma_mapping_dom(changed, k);
        lemma_mapping_dom(pairs, k);
        if has_name(changed, k) {
            let j = choose|j: int| 0 <= j < changed.len() && changed[j].0 == k;
            assert(pairs[j].0 == k);
        }
        if has_name(pairs, k) {
            let j = choose|j: int| 0 <= j < pairs.len() && pairs[j].0 == k;
            assert(changed[j].0 == k);
        }
    }
    assert forall|k: Seq<char>| left.dom().contains(k) implies left[k] == right[k] by {
        lemma_mapping_dom(changed, k);
        let j = choose|j: int| 0 <= j < changed.len() && changed[j].0 == k;
        lemma_mapping_lookup(changed, j);
        if j != i {
            lemma_mapping_lookup(pairs, j);
        }
    }
    assert(left =~= right);
}

/// Taking the pair at `i` out removes its name and nothing else.
pub proof fn lemma_mapping_remove(pairs: Seq<Pair>, i: int)
    requires
        names_distinct(pairs),
        0 <= i < pairs.len(),
    ensures
        names_distinct(pairs.remove(i)),
        mapping_of(pairs.remove(i)) == mapping_of(pairs).remove(pairs[i].0),
{
    let name = pairs[i].0;
    let rest = pairs.remove(i);
    assert(names_distinct(rest)) by {
        assert forall|a: int, b: int| 0 <= a < b < rest.len() implies rest[a].0 != rest[b].0 by {
            let a0 = if a < i { a } else { a + 1 };
            let b0 = if b < i { b } else { b + 1 };
            assert(pairs[a0].0 != pairs[b0].0);
        }
    }
    let left = mapping_of(rest);
    let right = mapping_of(pairs).remove(name);
    assert forall|k: Seq<char>| left.dom().contains(k) <==> right.dom().contains(k) by {
        lemma_mapping_dom(rest, k);
        lemma_mapping_dom(pairs, k);
        if has_name(rest, k) {
            let j = choose|j: int| 0 <= j < rest.len() && rest[j].0 == k;
            let j0 = if j < i { j } else { j + 1 };
            assert(pairs[j0].0 == k);
            assert(k != name) by {
                if j0 < i {
                    assert(pairs[j0].0 != pairs[i].0);
                } else {
                    assert(pairs[i].0 != pairs[j0].0);
                }
            }
        }
        if has_name(pairs, k) && k != name {
            let j = choose|j: int| 0 <= j < pairs.len() && pairs[j].0 == k;
            let j1 = if j < i { j } else { j - 1 };
            assert(rest[j1].0 == k);
        }
    }
    assert forall|k: Seq<char>| left.dom().contains(k) implies left[k] == right[k] by {
        lemma_mapping_dom(rest, k);
        let j = choose|j: int| 0 <= j < rest.len() && rest[j].0 == k;
        let j0 = if j < i { j } else { j + 1 };
        lemma_mapping_lookup(rest, j);
        lemma_mapping_lookup(pairs, j0);
    }
    assert(left =~= right);
}

/// Pairs with distinct names stand for a finite mapping with one entry each.
pub proof fn lemma_mapping_len(pairs: Seq<Pair>)
    requires
        names_distinct(pairs),
    ensures
        mapping_of(pairs).dom().finite(),
        mapping_of(pairs).dom().len() == pairs.len(),
    decreases pairs.len(),
{
    if pairs.len() > 0 {
        let front = pairs.drop_last();
        assert(names_distinct(front)) by {
            assert forall|a: int, b: int| 0 <= a < b < front.len() implies front[a].0
                != front[b].0 by {
                assert(pairs[a].0 != pairs[b].0);
            }
        }
        lemma_mapping_len(front);
        lemma_mapping_dom(front, pairs.last().0);
        if has_name(front, pairs.last().0) {
            let j = choose|j: int| 0 <= j < front.len() && front[j].0 == pairs.last().0;
            assert(pairs[j].0 != pairs[pairs.len() - 1].0);
        }
    }
}

} // verus!
