//! The boundary to `indexmap`: the insertion-ordered maps that hold a
//! manifest's string-to-string fields and its classified dependency entries.
//! Each map is described by the ordered sequence of its entries; `indexmap`
//! keeps keys unique and preserves first-insertion order.

use vstd::prelude::*;
use indexmap::IndexMap;
use crate::deps::PackageJsonDepValue;
use crate::deps::PackageJsonDepValueParseError;

verus! {

#[verifier::external_type_specification]
#[verifier::external_body]
#[verifier::reject_recursive_types(K)]
#[verifier::reject_recursive_types(V)]
#[verifier::reject_recursive_types(S)]
pub struct ExIndexMap<K, V, S>(IndexMap<K, V, S>);

/// A raw string-map manifest field: alias or name to raw text.
pub type StringMap = IndexMap<String, String>;

/// The outcome recorded for one dependency alias.
pub type DepResult = Result<PackageJsonDepValue, PackageJsonDepValueParseError>;

/// A resolved dependency map: alias to its per-entry classification outcome.
pub type PackageJsonDepsMap = IndexMap<String, DepResult>;

/// The entries of a string map, in insertion order.
pub uninterp spec fn smap_entries(m: StringMap) -> Seq<(String, String)>;

/// The entries of a resolved dependency map, in insertion order.
pub uninterp spec fn dmap_entries(m: PackageJsonDepsMap) -> Seq<(String, DepResult)>;

/// The key occurs among the entries (string keys compare by their characters).
pub open spec fn entries_has_key<V>(es: Seq<(String, V)>, k: Seq<char>) -> bool {
    exists|i: int| 0 <= i < es.len() && es[i].0@ == k
}

/// No two entries share a key.
pub open spec fn entries_keys_distinct<V>(es: Seq<(String, V)>) -> bool {
    forall|i: int, j: int| 0 <= i < j < es.len() ==> es[i].0@ != es[j].0@
}

/// Relies on indexmap's `IndexMap::new`: an empty map.
#[verifier::external_body]
pub(crate) fn smap_new() -> (m: StringMap)
    ensures
        smap_entries(m) == Seq::<(String, String)>::empty(),
{
    IndexMap::new()
}

/// Relies on indexmap's `Entry::or_insert` reached through `IndexMap::entry`:
/// a present key keeps its value and position; an absent key is appended.
#[verifier::external_body]
pub(crate) fn smap_insert_first_wins(m: &mut StringMap, k: String, v: String)
    ensures
        smap_entries(*final(m)) == if entries_has_key(smap_entries(*old(m)), k@) {
            smap_entries(*old(m))
        } else {
            smap_entries(*old(m)).push((k, v))
        },
{
    m.entry(k).or_insert(v);
}

/// Relies on indexmap's iteration order: entries come out in insertion order,
/// keys unique; each pair is cloned.
#[verifier::external_body]
pub(crate) fn smap_entries_vec(m: &StringMap) -> (r: Vec<(String, String)>)
    ensures
        r@ == smap_entries(*m) && entries_keys_distinct(r@),
{
    m.iter().map(|(k, v)| (k.clone(), v.clone())).collect()
}

/// Relies on indexmap's `IndexMap::new`: an empty map.
#[verifier::external_body]
pub(crate) fn dmap_new() -> (m: PackageJsonDepsMap)
    ensures
        dmap_entries(m) == Seq::<(String, DepResult)>::empty(),
{
    IndexMap::new()
}

/// Relies on indexmap's `Entry::or_insert` reached through `IndexMap::entry`:
/// a present key keeps its value and position; an absent key is appended.
#[verifier::external_body]
pub(crate) fn dmap_insert_first_wins(m: &mut PackageJsonDepsMap, k: String, v: DepResult)
    ensures
        dmap_entries(*final(m)) == if entries_has_key(dmap_entries(*old(m)), k@) {
            dmap_entries(*old(m))
        } else {
            dmap_entries(*old(m)).push((k, v))
        },
{
    m.entry(k).or_insert(v);
}

/// Relies on indexmap's `IndexMap::get`: the value bound to an equal key, if
/// one is present. Keys in an `IndexMap` are unique.
#[verifier::external_body]
pub(crate) fn dmap_get<'a>(m: &'a PackageJsonDepsMap, k: &str) -> (r: Option<&'a DepResult>)
    ensures
        match r {
            Some(v) => entries_keys_distinct(dmap_entries(*m)) && exists|i: int|
                0 <= i < dmap_entries(*m).len() && dmap_entries(*m)[i].0@ == k@ && dmap_entries(
                    *m,
                )[i].1 == *v,
            None => entries_keys_distinct(dmap_entries(*m)) && !entries_has_key(
                dmap_entries(*m),
                k@,
            ),
        },
{
    m.get(k)
}

} // verus!
