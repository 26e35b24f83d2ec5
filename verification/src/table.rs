//! The trusted boundary around the hash tables of the `rustc_hash` crate.
//!
//! The raw catalogue and the working identifier tables are `FxHashMap`s, as
//! std hash maps with the crate's `FxBuildHasher`.  Verus sees them only
//! through the contents functions and the wrappers below; everything else
//! about them is proved from these contracts.

use vstd::prelude::*;
use rustc_hash::FxHashMap;
use crate::env::distinct_names;

verus! {

#[verifier::external_type_specification]
#[verifier::external_body]
pub struct ExFxBuildHasher(rustc_hash::FxBuildHasher);

/// What an identifier table holds: identifier name -> writeable flag.
pub uninterp spec fn table_contents(m: FxHashMap<String, bool>) -> Map<Seq<char>, bool>;

/// What a raw catalogue holds: environment name -> identifier table.
pub uninterp spec fn catalogue_contents(m: FxHashMap<String, FxHashMap<String, bool>>) -> Map<
    Seq<char>,
    Map<Seq<char>, bool>,
>;

/// The record sequence a vector of entries denotes, by characters and flag.
pub open spec fn entry_pairs(s: Seq<(String, bool)>) -> Seq<(Seq<char>, bool)> {
    s.map_values(|p: (String, bool)| (p.0@, p.1))
}

/// The empty identifier table.
pub open spec fn empty_table() -> Map<Seq<char>, bool> {
    Map::empty()
}

/// Relies on `HashMap::default` (with `rustc_hash::FxBuildHasher`): a fresh
/// table is empty.
#[verifier::external_body]
pub fn table_new() -> (r: FxHashMap<String, bool>)
    ensures
        table_contents(r) == empty_table(),
{
    FxHashMap::default()
}

/// Relies on `HashMap::insert`, with `String` keys hashed and compared by
/// their characters: the key's entry is set to the value, no other entry
/// changes.
#[verifier::external_body]
pub fn table_insert(m: &mut FxHashMap<String, bool>, k: String, v: bool)
    ensures
        table_contents(*final(m)) == table_contents(*old(m)).insert(k@, v),
{
    m.insert(k, v);
}

/// Relies on `HashMap::contains_key`: whether the key's characters are
/// mapped.
#[verifier::external_body]
pub fn table_contains_key(m: &FxHashMap<String, bool>, k: &str) -> (r: bool)
    ensures
        r == table_contents(*m).dom().contains(k@),
{
    m.contains_key(k)
}

/// Relies on `HashMap::iter`: every entry of the table is yielded exactly
/// once.  Nothing is promised of the order the entries come in.
#[verifier::external_body]
pub fn table_entries(m: &FxHashMap<String, bool>) -> (r: Vec<(String, bool)>)
    ensures
        distinct_names(entry_pairs(r@)),
        forall|i: int|
            0 <= i < r@.len() ==> table_contents(*m).contains_pair((#[trigger] r@[i]).0@, r@[i].1),
        forall|k: Seq<char>|
            #[trigger] table_contents(*m).dom().contains(k) ==> exists|i: int|
                0 <= i < r@.len() && (#[trigger] r@[i]).0@ == k,
{
    m.iter().map(|(k, v)| (k.clone(), *v)).collect()
}

/// Relies on `HashMap::get`: the entry whose key holds the name's
/// characters, or absent when there is none.
#[verifier::external_body]
pub fn catalogue_get<'a>(
    m: &'a FxHashMap<String, FxHashMap<String, bool>>,
    k: &str,
) -> (r: Option<&'a FxHashMap<String, bool>>)
    ensures
        match r {
            Some(t) => catalogue_contents(*m).dom().contains(k@) && table_contents(*t)
                == catalogue_contents(*m)[k@],
            None => !catalogue_contents(*m).dom().contains(k@),
        },
{
    m.get(k)
}

} // verus!
