//! The hash maps that hold lint overwrites.
//!
//! They are `AHashMap`s of the `ahash` crate, which wrap the hash map of the
//! standard library.  Verus cannot look inside them, so this module gives
//! their contents a name and states of each method that is called what the
//! documentation of the standard hash map promises of it.  Nothing in this
//! module is proved: every item here is taken on trust.

use vstd::prelude::*;
use ahash::AHashMap;
use ahash::RandomState;
use crate::lints::LintLevel;
use crate::span::TextRange;

verus! {

/// `ahash::AHashMap`.  Opaque; see [`ranged_levels`] and [`plain_levels`].
#[verifier::external_type_specification]
#[verifier::external_body]
#[verifier::reject_recursive_types(K)]
#[verifier::reject_recursive_types(V)]
#[verifier::reject_recursive_types(S)]
pub struct ExAHashMap<K, V, S>(AHashMap<K, V, S>);

/// `Clone` for `AHashMap`, which the derived `Clone` of the overwrites of an
/// item calls.  Nothing is claimed of its result.
pub assume_specification<K: Clone, V: Clone, S: Clone>[ <ahash::AHashMap<
    K,
    V,
    S,
> as Clone>::clone ](
    source: &ahash::AHashMap<K, V, S>,
) -> (res: ahash::AHashMap<K, V, S>)
;

/// What a map from lints to levels and places holds.
pub uninterp spec fn ranged_levels(map: AHashMap<u32, (LintLevel, TextRange), RandomState>) -> Map<
    u32,
    (LintLevel, TextRange),
>;

/// What a map from lints to levels holds.
pub uninterp spec fn plain_levels(map: AHashMap<u32, LintLevel, RandomState>) -> Map<
    u32,
    LintLevel,
>;

/// `AHashMap::new`: a map that holds nothing.
#[verifier::external_body]
pub(crate) fn ranged_levels_new() -> (res: AHashMap<u32, (LintLevel, TextRange), RandomState>)
    ensures
        ranged_levels(res).dom() == Set::<u32>::empty(),
{
    AHashMap::new()
}

/// `AHashMap::insert`: the map holds `value` under `key` afterwards and is
/// otherwise unchanged; what it held under `key` before comes back.
#[verifier::external_body]
pub(crate) fn ranged_levels_insert(
    map: &mut AHashMap<u32, (LintLevel, TextRange), RandomState>,
    key: u32,
    value: (LintLevel, TextRange),
) -> (old_value: Option<(LintLevel, TextRange)>)
    ensures
        ranged_levels(*final(map)) == ranged_levels(*old(map)).insert(key, value),
        old_value == if ranged_levels(*old(map)).contains_key(key) {
            Some(ranged_levels(*old(map))[key])
        } else {
            None
        },
{
    map.insert(key, value)
}

/// Collecting the pairs of one `AHashMap` into another, each value without
/// its place: the new map holds a level under the keys of the old one, the
/// level that the old one held there.
#[verifier::external_body]
pub(crate) fn ranged_levels_into_levels(
    map: AHashMap<u32, (LintLevel, TextRange), RandomState>,
) -> (res: AHashMap<u32, LintLevel, RandomState>)
    ensures
        plain_levels(res) == ranged_levels(map).map_values(
            |value: (LintLevel, TextRange)| value.0,
        ),
{
    map.into_iter().map(|(lint, (lvl, _))| (lint, lvl)).collect()
}

/// `AHashMap::get`, the result copied: what the map holds under `key`.
#[verifier::external_body]
pub(crate) fn plain_levels_get(
    map: &AHashMap<u32, LintLevel, RandomState>,
    key: u32,
) -> (level: Option<LintLevel>)
    ensures
        level == if plain_levels(*map).contains_key(key) {
            Some(plain_levels(*map)[key])
        } else {
            None
        },
{
    map.get(&key).copied()
}

} // verus!
