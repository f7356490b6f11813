//! The key index of the accumulator: a concurrent hash map from partition
//! keys to the slots that hold their rows.
//!
//! Nothing in this file is proved. It declares the map type and states, for
//! each call that the accumulator makes into it, what the call does.

use dashmap::DashMap;
use std::hash::RandomState;
use vstd::prelude::*;

verus! {

/// A partition key: the category, the tag, the country code and the spatial
/// cell of a row, each replaced by a sentinel where the row has none.
pub type PartitionKey = (String, String, String, String);

/// What a partition key is compared by: the texts of its four components.
pub type KeyView = (Seq<char>, Seq<char>, Seq<char>, Seq<char>);

/// The map from partition keys to slots.
pub type KeyIndex = DashMap<PartitionKey, usize, RandomState>;

#[verifier::external_type_specification]
#[verifier::external_body]
#[verifier::reject_recursive_types(K)]
#[verifier::reject_recursive_types(V)]
#[verifier::reject_recursive_types(S)]
pub struct ExDashMap<K, V, S>(DashMap<K, V, S>);

/// What a key index holds: the slot of each key that was entered, by the
/// key's text.
pub uninterp spec fn slot_map(index: KeyIndex) -> Map<KeyView, usize>;

/// The contents of an index that holds nothing.
pub open spec fn no_slots() -> Map<KeyView, usize> {
    Map::empty()
}

/// Calls `DashMap::new`.
///
/// Taken on trust: the new map holds no entry.
#[verifier::external_body]
pub(crate) fn index_new() -> (index: KeyIndex)
    ensures
        slot_map(index) == no_slots(),
{
    DashMap::new()
}

/// Calls `DashMap::get` and copies the slot out of the guard that it returns.
///
/// Taken on trust: the map finds the entry whose key has the same text, as
/// the standard library's equality and hash of strings and tuples go by the
/// text, and returns nothing where there is no such entry. The map is left
/// as it was.
#[verifier::external_body]
pub(crate) fn index_get(index: &KeyIndex, key: &PartitionKey) -> (slot: Option<usize>)
    ensures
        slot is Some <==> slot_map(*index).contains_key(key@),
        slot matches Some(s) ==> s == slot_map(*index)[key@],
{
    index.get(key).map(|entry| *entry)
}

/// Calls `DashMap::insert`.
///
/// Taken on trust: afterwards the map holds the given slot under the key's
/// text, in place of what it may have held there, and every other entry as
/// before. The caller holds the map exclusively, so no guard into it is
/// alive and the call cannot block.
#[verifier::external_body]
pub(crate) fn index_insert(index: &mut KeyIndex, key: PartitionKey, slot: usize)
    ensures
        slot_map(*final(index)) == slot_map(*old(index)).insert(key@, slot),
{
    index.insert(key, slot);
}

} // verus!
