//! The two insertion-ordered hash collections the registry is built on.
//!
//! Both come from the `indexmap` crate and are hashed with `ahash`.  Verus
//! cannot look inside them, so this module gives their contents a name and
//! states, for each method the registry calls, what the `indexmap`
//! documentation promises of it.  Nothing in this module is proved: every
//! item here is taken on trust.

use vstd::prelude::*;
use ahash::RandomState;
use indexmap::IndexMap;
use indexmap::IndexSet;
use crate::handles::CfgParam;
use crate::handles::FirstOrderUnkownInfo;

verus! {

/// `ahash::RandomState`, the hasher factory of both collections.  Opaque.
#[verifier::external_type_specification]
#[verifier::external_body]
pub struct ExRandomState(RandomState);

/// `indexmap::IndexMap`.  Opaque; see [`map_entries`].
#[verifier::external_type_specification]
#[verifier::external_body]
#[verifier::reject_recursive_types(K)]
#[verifier::reject_recursive_types(V)]
#[verifier::reject_recursive_types(S)]
pub struct ExIndexMap<K, V, S>(IndexMap<K, V, S>);

/// `indexmap::IndexSet`.  Opaque; see [`set_items`].
#[verifier::external_type_specification]
#[verifier::external_body]
#[verifier::reject_recursive_types(T)]
#[verifier::reject_recursive_types(S)]
pub struct ExIndexSet<T, S>(IndexSet<T, S>);

/// The key-value pairs of a map, in the order of its indices `0..len`.
pub uninterp spec fn map_entries(map: IndexMap<u32, FirstOrderUnkownInfo, RandomState>) -> Seq<
    (u32, Seq<(CfgParam, u64)>),
>;

/// The items of a set, in the order of its indices `0..len`.
pub uninterp spec fn set_items(set: IndexSet<(u32, u32), RandomState>) -> Seq<(u32, u32)>;

/// Whether some entry of `entries` has the key `key`.
pub open spec fn has_key(entries: Seq<(u32, Seq<(CfgParam, u64)>)>, key: u32) -> bool {
    exists|i: int| 0 <= i < entries.len() && (#[trigger] entries[i]).0 == key
}

/// `IndexMap::default`: a map without entries.
#[verifier::external_body]
pub(crate) fn map_empty() -> (map: IndexMap<u32, FirstOrderUnkownInfo, RandomState>)
    ensures
        map_entries(map).len() == 0,
{
    IndexMap::default()
}

/// `IndexMap::insert`, its result dropped: a key that the map already holds
/// keeps its place and gets the new value; a key that it does not hold is
/// appended with the value as the last entry.
#[verifier::external_body]
pub(crate) fn map_insert(
    map: &mut IndexMap<u32, FirstOrderUnkownInfo, RandomState>,
    key: u32,
    value: FirstOrderUnkownInfo,
)
    ensures
        !has_key(map_entries(*old(map)), key) ==> map_entries(*final(map)) == map_entries(
            *old(map),
        ).push((key, value@)),
        has_key(map_entries(*old(map)), key) ==> exists|i: int|
            0 <= i < map_entries(*old(map)).len() && (#[trigger] map_entries(*old(map))[i]).0
                == key && map_entries(*final(map)) == map_entries(*old(map)).update(
                i,
                (key, value@),
            ),
{
    map.insert(key, value);
}

/// `IndexMap::len`: the number of entries.
#[verifier::external_body]
pub(crate) fn map_len(map: &IndexMap<u32, FirstOrderUnkownInfo, RandomState>) -> (len: usize)
    ensures
        len == map_entries(*map).len(),
{
    map.len()
}

/// Indexing an `IndexMap` by position: the value of the entry at `index`.
/// The call panics on an index that is out of bounds, so those are left out.
#[verifier::external_body]
pub(crate) fn map_value_at(
    map: &IndexMap<u32, FirstOrderUnkownInfo, RandomState>,
    index: usize,
) -> (value: &FirstOrderUnkownInfo)
    requires
        index < map_entries(*map).len(),
    ensures
        value@ == map_entries(*map)[index as int].1,
{
    &map[index]
}

/// `IndexMap::get_index_of`: the position of an entry with the key `key`, if
/// the map holds one.
#[verifier::external_body]
pub(crate) fn map_index_of(
    map: &IndexMap<u32, FirstOrderUnkownInfo, RandomState>,
    key: u32,
) -> (index: Option<usize>)
    ensures
        match index {
            Some(i) => i < map_entries(*map).len() && map_entries(*map)[i as int].0 == key,
            None => !has_key(map_entries(*map), key),
        },
{
    map.get_index_of(&key)
}

/// `IndexSet::default`: a set without items.
#[verifier::external_body]
pub(crate) fn set_empty() -> (set: IndexSet<(u32, u32), RandomState>)
    ensures
        set_items(set).len() == 0,
{
    IndexSet::default()
}

/// `IndexSet::len`: the number of items.
#[verifier::external_body]
pub(crate) fn set_len(set: &IndexSet<(u32, u32), RandomState>) -> (len: usize)
    ensures
        len == set_items(*set).len(),
{
    set.len()
}

/// Indexing an `IndexSet` by position: the item at `index`.  The call panics
/// on an index that is out of bounds, so those are left out.
#[verifier::external_body]
pub(crate) fn set_item_at(set: &IndexSet<(u32, u32), RandomState>, index: usize) -> (item: (
    u32,
    u32,
))
    requires
        index < set_items(*set).len(),
    ensures
        item == set_items(*set)[index as int],
{
    set[index]
}

/// `IndexSet::insert_full`: an item that the set already holds is left where
/// it is, and its index comes back with `false`; an item that it does not hold
/// is appended as the last one, and its index comes back with `true`.
#[verifier::external_body]
pub(crate) fn set_insert_full(
    set: &mut IndexSet<(u32, u32), RandomState>,
    item: (u32, u32),
) -> (res: (usize, bool))
    ensures
        set_items(*old(set)).contains(item) ==> {
            &&& set_items(*final(set)) == set_items(*old(set))
            &&& res.0 < set_items(*old(set)).len()
            &&& set_items(*old(set))[res.0 as int] == item
            &&& !res.1
        },
        !set_items(*old(set)).contains(item) ==> {
            &&& set_items(*final(set)) == set_items(*old(set)).push(item)
            &&& res.0 == set_items(*old(set)).len()
            &&& res.1
        },
{
    set.insert_full(item)
}


} // verus!
