//! The registry's two collections: the names that already have a full C
//! definition, in an `FxHashSet`, and the aggregates waiting for a
//! dependency, in an `FxHashMap` keyed by name.
use vstd::prelude::*;
use fxhash::{FxHashMap, FxHashSet};
use crate::layout::{RenderedType, TypeText};

verus! {

/// The Fx hasher, carried as the set's hasher type only.
#[verifier::external_type_specification]
#[verifier::external_body]
pub struct ExFxHasher(fxhash::FxHasher);

/// std's default-constructing hasher builder, carried as a type only.
#[verifier::external_type_specification]
#[verifier::external_body]
#[verifier::reject_recursive_types(H)]
pub struct ExBuildHasherDefault<H>(core::hash::BuildHasherDefault<H>);

/// The names that an `FxHashSet<String>` holds.
pub uninterp spec fn fx_names(s: FxHashSet<String>) -> Set<Seq<char>>;

/// Relies on `FxHashSet::default`: a new set holds no name.
#[verifier::external_body]
pub(crate) fn names_new() -> (r: FxHashSet<String>)
    ensures
        fx_names(r) == Set::<Seq<char>>::empty(),
{
    FxHashSet::default()
}

/// Relies on `HashSet::contains` under the Fx hasher: whether the name is held.
#[verifier::external_body]
pub(crate) fn names_contains(s: &FxHashSet<String>, k: &String) -> (r: bool)
    ensures
        r == fx_names(*s).contains(k@),
{
    s.contains(k)
}

/// Relies on `HashSet::insert` under the Fx hasher: the name is added.
#[verifier::external_body]
pub(crate) fn names_insert(s: &mut FxHashSet<String>, k: String)
    ensures
        fx_names(*final(s)) == fx_names(*old(s)).insert(k@),
{
    s.insert(k);
}

/// Aggregates waiting for a dependency, keyed by name.
pub type Waiting = FxHashMap<String, RenderedType>;

/// What an `FxHashMap` of waiting aggregates holds: each key's value as text.
pub uninterp spec fn fx_waiting(m: Waiting) -> Map<Seq<char>, TypeText>;

/// Relies on `FxHashMap::default`: a new map holds no entry.
#[verifier::external_body]
pub(crate) fn waiting_new() -> (r: Waiting)
    ensures
        fx_waiting(r).dom().is_empty(),
{
    FxHashMap::default()
}

/// Relies on `HashMap::insert` under the Fx hasher: the key now maps to the
/// value, replacing any earlier one.
#[verifier::external_body]
pub(crate) fn waiting_insert(m: &mut Waiting, k: String, v: RenderedType)
    ensures
        fx_waiting(*final(m)) == fx_waiting(*old(m)).insert(k@, v@),
{
    m.insert(k, v);
}

/// Relies on `HashMap::remove` under the Fx hasher: the key's value is taken
/// out, if there is one.
#[verifier::external_body]
pub(crate) fn waiting_remove(m: &mut Waiting, k: &String) -> (r: Option<RenderedType>)
    ensures
        fx_waiting(*final(m)) == fx_waiting(*old(m)).remove(k@),
        r is Some <==> fx_waiting(*old(m)).contains_key(k@),
        r matches Some(v) ==> v@ == fx_waiting(*old(m))[k@],
{
    m.remove(k)
}

/// Relies on `HashMap::get` under the Fx hasher: the key's value, if any.
#[verifier::external_body]
pub(crate) fn waiting_get<'a>(m: &'a Waiting, k: &String) -> (r: Option<&'a RenderedType>)
    ensures
        r is Some <==> fx_waiting(*m).contains_key(k@),
        r matches Some(v) ==> v@ == fx_waiting(*m)[k@],
{
    m.get(k)
}

/// Relies on `HashMap::keys`: every key once, in the map's own order.
#[verifier::external_body]
pub(crate) fn waiting_keys(m: &Waiting) -> (r: Vec<String>)
    ensures
        r@.map_values(|s: String| s@).to_set() == fx_waiting(*m).dom(),
        r@.len() == fx_waiting(*m).dom().len(),
{
    m.keys().cloned().collect()
}

} // verus!
