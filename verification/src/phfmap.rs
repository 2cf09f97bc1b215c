//! Trusted view of `phf_codegen::Map`, the builder that prints the static
//! perfect-hash lookup table.

use vstd::prelude::*;

verus! {

#[verifier::external_type_specification]
#[verifier::external_body]
#[verifier::reject_recursive_types(K)]
pub struct ExPhfCodegenMap<'a, K>(phf_codegen::Map<'a, K>);

/// What the builder holds: its key/value-text pairs in the order they
/// were added.
pub uninterp spec fn builder_entries(m: phf_codegen::Map<'static, String>) -> Seq<
    (Seq<char>, Seq<char>),
>;

/// The source text that `phf_codegen` prints for a map with the given
/// key/value-text pairs. `phf_generator` seeds its search for the hash
/// state with a fixed constant, so the text is a function of the entries
/// alone.
pub uninterp spec fn phf_map_source(entries: Seq<(Seq<char>, Seq<char>)>) -> Seq<char>;

/// Relies on `phf_codegen::Map::new`: the new builder holds no entries.
#[verifier::external_body]
pub(crate) fn builder_new() -> (m: phf_codegen::Map<'static, String>)
    ensures
        builder_entries(m) == Seq::<(Seq<char>, Seq<char>)>::empty(),
{
    phf_codegen::Map::new()
}

/// Relies on `phf_codegen::Map::entry`: it pushes the key and the value
/// text onto the builder's two lists.
#[verifier::external_body]
pub(crate) fn builder_entry(
    m: &mut phf_codegen::Map<'static, String>,
    key: &String,
    value: &String,
)
    ensures
        builder_entries(*final(m)) == builder_entries(*old(m)).push((key@, value@)),
{
    m.entry(key.clone(), value.clone());
}

/// Relies on `phf_codegen::Map::build` and on the `Display` of the map it
/// returns: together they print the table for exactly the entries added.
/// `build` panics on a duplicate key, so the keys must be distinct.
#[verifier::external_body]
pub(crate) fn builder_build(m: &phf_codegen::Map<'static, String>) -> (r: String)
    requires
        forall|i: int, j: int|
            0 <= i < j < builder_entries(*m).len() ==> builder_entries(*m)[i].0
                != builder_entries(*m)[j].0,
    ensures
        r@ == phf_map_source(builder_entries(*m)),
{
    m.build().to_string()
}

} // verus!
