//! Trusted view of `linked_hash_map::LinkedHashMap`, the insertion-ordered
//! map that holds the code table while it is being built.
//!
//! The contracts below state, over `map_entries`, what the crate's source
//! shows of the methods the parser calls: `iter` visits entries in
//! insertion order, and `entry(k).or_insert_with(Vec::new)` leaves every
//! other entry and the order unchanged.

use vstd::prelude::*;
use crate::table::{TableView, table_insert};

verus! {

#[verifier::external_type_specification]
#[verifier::external_body]
#[verifier::reject_recursive_types(K)]
#[verifier::reject_recursive_types(V)]
#[verifier::reject_recursive_types(S)]
pub struct ExLinkedHashMap<K, V, S>(linked_hash_map::LinkedHashMap<K, V, S>);

/// What the map holds: its code/name-list pairs in insertion order of
/// the codes.
pub uninterp spec fn map_entries(m: linked_hash_map::LinkedHashMap<String, Vec<String>>) -> TableView;

/// Relies on `LinkedHashMap::new`: the new map is empty.
#[verifier::external_body]
pub(crate) fn table_new() -> (m: linked_hash_map::LinkedHashMap<String, Vec<String>>)
    ensures
        map_entries(m) == Seq::<(Seq<char>, Seq<Seq<char>>)>::empty(),
{
    linked_hash_map::LinkedHashMap::new()
}

/// Relies on `LinkedHashMap::entry` and `Entry::or_insert_with`: a known
/// key's list is found in place, an unknown key is inserted at the back
/// with an empty list, and no entry changes its position; the pushed name
/// then lands on that key's list.
#[verifier::external_body]
pub(crate) fn table_append(
    m: &mut linked_hash_map::LinkedHashMap<String, Vec<String>>,
    code: &String,
    name: String,
)
    ensures
        map_entries(*final(m)) == table_insert(map_entries(*old(m)), code@, name@),
{
    m.entry(code.clone()).or_insert_with(Vec::new).push(name);
}

/// Relies on `LinkedHashMap::iter`: it visits all entries in insertion
/// order. The closure only clones what the iterator hands out.
#[verifier::external_body]
pub(crate) fn table_entries_vec(
    m: &linked_hash_map::LinkedHashMap<String, Vec<String>>,
) -> (r: Vec<(String, Vec<String>)>)
    ensures
        r.deep_view() == map_entries(*m),
{
    m.iter().map(|(k, v)| (k.clone(), v.clone())).collect()
}

} // verus!
