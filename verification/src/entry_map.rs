//! Insertion-ordered maps from operation ids to registered operations.

use crate::registration::{OperationEntry, OperationEntryView};
use indexmap::IndexMap;
use vstd::prelude::*;

verus! {

/// A map that keeps its pairs in the order in which their keys were first inserted.
#[verifier::external_type_specification]
#[verifier::external_body]
#[verifier::reject_recursive_types(K)]
#[verifier::reject_recursive_types(V)]
#[verifier::reject_recursive_types(S)]
pub struct ExIndexMap<K, V, S>(indexmap::IndexMap<K, V, S>);

/// The pairs of a map, in the map's order.
pub uninterp spec fn map_pairs(map: IndexMap<String, OperationEntry>) -> Seq<
    (Seq<char>, OperationEntryView),
>;

/// Whether some pair has the given key.
pub open spec fn has_key<V>(pairs: Seq<(Seq<char>, V)>, key: Seq<char>) -> bool {
    exists|i: int| 0 <= i < pairs.len() && (#[trigger] pairs[i]).0 == key
}

/// Where the pair with the given key stands.
pub open spec fn key_position<V>(pairs: Seq<(Seq<char>, V)>, key: Seq<char>) -> int {
    choose|i: int| 0 <= i < pairs.len() && (#[trigger] pairs[i]).0 == key
}

/// Whether no key stands in two pairs.
pub open spec fn keys_distinct<V>(pairs: Seq<(Seq<char>, V)>) -> bool {
    forall|i: int, j: int|
        0 <= i < j < pairs.len() ==> (#[trigger] pairs[i]).0 != (#[trigger] pairs[j]).0
}

/// The pairs after an insertion: a known key keeps its place, a new one comes last.
pub open spec fn pair_inserted<V>(
    pairs: Seq<(Seq<char>, V)>,
    key: Seq<char>,
    value: V,
) -> Seq<(Seq<char>, V)> {
    if has_key(pairs, key) {
        pairs.update(key_position(pairs, key), (key, value))
    } else {
        pairs.push((key, value))
    }
}

/// The pairs after a removal: the last pair takes the place of the removed one.
pub open spec fn pair_swap_removed<V>(pairs: Seq<(Seq<char>, V)>, key: Seq<char>) -> Seq<
    (Seq<char>, V),
> {
    if has_key(pairs, key) {
        pairs.update(key_position(pairs, key), pairs.last()).drop_last()
    } else {
        pairs
    }
}

/// `IndexMap::default` makes an empty map.
#[verifier::external_body]
pub(crate) fn map_default() -> (map: IndexMap<String, OperationEntry>)
    ensures
        map_pairs(map) == Seq::<(Seq<char>, OperationEntryView)>::empty(),
{
    IndexMap::default()
}

/// `IndexMap::contains_key` tells whether the map holds a key.
#[verifier::external_body]
pub(crate) fn map_contains_key(map: &IndexMap<String, OperationEntry>, key: &str) -> (found: bool)
    ensures
        found == has_key(map_pairs(*map), key@),
{
    map.contains_key(key)
}

/// `IndexMap::insert` gives a known key its new value in place and returns the value that it
/// had; a new key is appended with its value, and `None` is returned.
#[verifier::external_body]
pub(crate) fn map_insert(
    map: &mut IndexMap<String, OperationEntry>,
    key: String,
    value: OperationEntry,
) -> (previous: Option<OperationEntry>)
    ensures
        map_pairs(*final(map)) == pair_inserted(map_pairs(*old(map)), key@, value@),
        previous is Some <==> has_key(map_pairs(*old(map)), key@),
        previous matches Some(entry) ==> entry@ == map_pairs(*old(map))[key_position(
            map_pairs(*old(map)),
            key@,
        )].1,
{
    map.insert(key, value)
}

/// `IndexMap::keys` walks the keys in the map's order.
#[verifier::external_body]
pub(crate) fn map_keys(map: &IndexMap<String, OperationEntry>) -> (keys: Vec<String>)
    ensures
        keys@.map_values(|key: String| key@) == map_pairs(*map).map_values(
            |pair: (Seq<char>, OperationEntryView)| pair.0,
        ),
{
    map.keys().cloned().collect()
}

/// `IndexMap::swap_remove` takes the pair with the given key out, returns its value, and puts
/// the last pair in its place; without such a pair it returns `None` and changes nothing.
#[verifier::external_body]
pub(crate) fn map_swap_remove(
    map: &mut IndexMap<String, OperationEntry>,
    key: &str,
) -> (removed: Option<OperationEntry>)
    ensures
        map_pairs(*final(map)) == pair_swap_removed(map_pairs(*old(map)), key@),
        removed is Some <==> has_key(map_pairs(*old(map)), key@),
        removed matches Some(entry) ==> entry@ == map_pairs(*old(map))[key_position(
            map_pairs(*old(map)),
            key@,
        )].1,
{
    map.swap_remove(key)
}

/// `IndexMap::into_values` hands the values out in the map's order.
#[verifier::external_body]
pub(crate) fn map_into_values(map: IndexMap<String, OperationEntry>) -> (values: Vec<
    OperationEntry,
>)
    ensures
        values@.map_values(|entry: OperationEntry| entry@) == map_pairs(map).map_values(
            |pair: (Seq<char>, OperationEntryView)| pair.1,
        ),
{
    map.into_values().collect()
}

/// In pairs with distinct keys, a key stands where one of its pairs stands.
pub proof fn lemma_key_position<V>(pairs: Seq<(Seq<char>, V)>, at: int)
    requires
        keys_distinct(pairs),
        0 <= at < pairs.len(),
    ensures
        has_key(pairs, pairs[at].0),
        key_position(pairs, pairs[at].0) == at,
{
    let found = key_position(pairs, pairs[at].0);
    assert(0 <= found < pairs.len() && pairs[found].0 == pairs[at].0);
}

/// An insertion keeps the keys distinct and leaves every other pair where it stands.
pub proof fn lemma_pair_inserted<V>(pairs: Seq<(Seq<char>, V)>, key: Seq<char>, value: V)
    requires
        keys_distinct(pairs),
    ensures
        keys_distinct(pair_inserted(pairs, key, value)),
        pair_inserted(pairs, key, value).contains((key, value)),
        forall|i: int|
            0 <= i < pairs.len() && (#[trigger] pairs[i]).0 != key ==> pair_inserted(
                pairs,
                key,
                value,
            )[i] == pairs[i],
{
    let after = pair_inserted(pairs, key, value);
    if has_key(pairs, key) {
        let at = key_position(pairs, key);
        assert(after[at] == (key, value));
    } else {
        assert(after[pairs.len() as int] == (key, value));
    }
}

/// A removal keeps the keys distinct and keeps every pair with another key.
pub proof fn lemma_pair_swap_removed<V>(pairs: Seq<(Seq<char>, V)>, key: Seq<char>)
    requires
        keys_distinct(pairs),
    ensures
        keys_distinct(pair_swap_removed(pairs, key)),
        forall|pair: (Seq<char>, V)| #[trigger]
            pairs.contains(pair) && pair.0 != key ==> pair_swap_removed(pairs, key).contains(pair),
{
    let after = pair_swap_removed(pairs, key);
    assert forall|pair: (Seq<char>, V)| #[trigger] pairs.contains(pair) && pair.0 != key implies
        after.contains(pair) by {
        let i = choose|i: int| 0 <= i < pairs.len() && pairs[i] == pair;
        if has_key(pairs, key) {
            let at = key_position(pairs, key);
            if i == pairs.len() - 1 {
                assert(after[at] == pair);
            } else {
                assert(after[i] == pair);
            }
        }
    }
}

} // verus!
