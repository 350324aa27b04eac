//! The items of the standard library that this crate relies on without proof.

use crate::order::Price;
use std::collections::BTreeMap;
use std::time::SystemTime;
use vstd::prelude::*;

verus! {

/// `std::time::SystemTime`, carried through as an opaque value.
#[verifier::external_type_specification]
#[verifier::external_body]
pub struct ExSystemTime(SystemTime);

/// Calls `SystemTime::now`. Nothing is claimed of the instant that comes back.
#[verifier::external_body]
pub(crate) fn now() -> SystemTime {
    SystemTime::now()
}

/// Calls `BTreeMap::first_key_value` and hands out the key. The standard
/// library documents that key as the minimum key of the map, and the call
/// returns nothing exactly when the map is empty.
#[verifier::external_body]
pub(crate) fn first_key(tree: &BTreeMap<Price, usize>) -> (r: Option<Price>)
    ensures
        match r {
            Some(k) => tree@.contains_key(k) && forall|j: Price|
                tree@.contains_key(j) ==> k <= j,
            None => forall|j: Price| !tree@.contains_key(j),
        },
{
    match tree.first_key_value() {
        Some((k, _)) => Some(*k),
        None => None,
    }
}

/// Calls `BTreeMap::last_key_value` and hands out the key. The standard
/// library documents that key as the maximum key of the map, and the call
/// returns nothing exactly when the map is empty.
#[verifier::external_body]
pub(crate) fn last_key(tree: &BTreeMap<Price, usize>) -> (r: Option<Price>)
    ensures
        match r {
            Some(k) => tree@.contains_key(k) && forall|j: Price|
                tree@.contains_key(j) ==> j <= k,
            None => forall|j: Price| !tree@.contains_key(j),
        },
{
    match tree.last_key_value() {
        Some((k, _)) => Some(*k),
        None => None,
    }
}

} // verus!
