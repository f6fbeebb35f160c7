use vstd::prelude::*;
use std::collections::hash_map::RandomState;

verus! {

// The per-function interaction lines are grouped in an insertion-ordered map,
// so the render order follows the extraction order.  The map type comes from
// the indexmap crate and is taken on trust: its contents are named by
// `interaction_entries`, and each method the extractor or renderer calls has a
// wrapper whose contract states what the crate documents.
#[verifier::external_type_specification]
#[verifier::external_body]
#[verifier::reject_recursive_types(K)]
#[verifier::reject_recursive_types(V)]
#[verifier::reject_recursive_types(S)]
pub struct ExIndexMap<K, V, S>(indexmap::IndexMap<K, V, S>);

/// An insertion-ordered map from `"<contract>.<function>"` keys to the
/// rendered interaction lines of that function's body.
pub type InteractionMap = indexmap::IndexMap<String, Vec<String>, RandomState>;

/// The entries of an `InteractionMap`, key/value pairs in iteration order.
pub uninterp spec fn interaction_entries(m: InteractionMap) -> Seq<(Seq<char>, Seq<Seq<char>>)>;

/// Relies on IndexMap's Clone; nothing is assumed of the copy's contents.
pub assume_specification<K: Clone, V: Clone, S: Clone>[
    <indexmap::IndexMap<K, V, S> as Clone>::clone
](m: &indexmap::IndexMap<K, V, S>) -> indexmap::IndexMap<K, V, S>
;

/// Relies on IndexMap::default: creates an empty map.
#[verifier::external_body]
pub(crate) fn im_new() -> (r: InteractionMap)
    ensures
        interaction_entries(r) == Seq::<(Seq<char>, Seq<Seq<char>>)>::empty(),
{
    indexmap::IndexMap::default()
}

/// Relies on IndexMap::insert: a new key is appended at the end; an existing
/// key keeps its position and gets the new value.
#[verifier::external_body]
pub(crate) fn im_insert(m: &mut InteractionMap, k: String, v: Vec<String>)
    ensures
        (forall|j: int|
            0 <= j < interaction_entries(*old(m)).len() ==> interaction_entries(*old(m))[j].0
                != k@) ==> interaction_entries(*final(m)) == interaction_entries(*old(m)).push(
            (k@, v.deep_view()),
        ),
        (exists|j: int|
            0 <= j < interaction_entries(*old(m)).len() && interaction_entries(*old(m))[j].0
                == k@) ==> (exists|j: int|
            0 <= j < interaction_entries(*old(m)).len() && interaction_entries(*old(m))[j].0 == k@
                && interaction_entries(*final(m)) == interaction_entries(*old(m)).update(
                j,
                (k@, v.deep_view()),
            )),
{
    m.insert(k, v);
}

/// Relies on IndexMap::iter: yields the entries in insertion order.
#[verifier::external_body]
pub(crate) fn im_entries(m: &InteractionMap) -> (r: Vec<(String, Vec<String>)>)
    ensures
        r.deep_view() == interaction_entries(*m),
{
    m.iter().map(|(k, v)| (k.clone(), v.clone())).collect()
}

} // verus!
