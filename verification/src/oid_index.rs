//! Positions under object identifiers.
use vstd::prelude::*;
use rustc_hash::{FxBuildHasher, FxHashMap};

verus! {

/// The hasher of `rustc_hash`.
#[verifier::external_type_specification]
#[verifier::external_body]
pub struct ExFxBuildHasher(FxBuildHasher);

pub open spec fn no_positions() -> Map<i64, usize> {
    Map::empty()
}

/// Calls `FxHashMap::default` of `rustc_hash`, which makes a map that holds
/// nothing.
#[verifier::external_body]
fn new_map() -> (m: FxHashMap<i64, usize>)
    ensures
        m@ == no_positions(),
{
    FxHashMap::default()
}

/// Calls `insert` on an `FxHashMap` of `rustc_hash`: the value is put under the
/// key, in the place of one that was there, and nothing else changes.
#[verifier::external_body]
fn put_in_map(m: &mut FxHashMap<i64, usize>, key: i64, value: usize)
    ensures
        final(m)@ == old(m)@.insert(key, value),
{
    m.insert(key, value);
}

/// Calls `get` on an `FxHashMap` of `rustc_hash`: the value under the key, if
/// there is one.
#[verifier::external_body]
fn get_from_map(m: &FxHashMap<i64, usize>, key: i64) -> (r: Option<usize>)
    ensures
        r == (if m@.dom().contains(key) {
            Some(m@[key])
        } else {
            None
        }),
{
    m.get(&key).copied()
}

/// Positions under object identifiers.
#[derive(Debug)]
pub struct OidIndex {
    map: FxHashMap<i64, usize>,
}

impl View for OidIndex {
    type V = Map<i64, usize>;

    closed spec fn view(&self) -> Map<i64, usize> {
        self.map@
    }
}

/// The position under an identifier.
pub open spec fn position(m: Map<i64, usize>, oid: i64) -> Option<usize> {
    if m.dom().contains(oid) {
        Some(m[oid])
    } else {
        None
    }
}

impl OidIndex {
    pub fn new() -> (i: OidIndex)
        ensures
            i@ == no_positions(),
    {
        OidIndex { map: new_map() }
    }

    pub fn insert(&mut self, oid: i64, position: usize)
        ensures
            final(self)@ == old(self)@.insert(oid, position),
    {
        put_in_map(&mut self.map, oid, position);
    }

    pub fn get(&self, oid: i64) -> (r: Option<usize>)
        ensures
            r == position(self@, oid),
    {
        get_from_map(&self.map, oid)
    }
}

} // verus!
