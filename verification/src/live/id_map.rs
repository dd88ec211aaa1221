//! A map from ids to ids or counts, held in a hashbrown `HashMap`.
//!
//! The map sits in a private field of a struct whose body Verus does not
//! see; a name gives its contents, and each method makes one hashbrown call
//! under a contract over that name.
use crate::live::effect_maps::lists_entries;
use vstd::prelude::*;

verus! {

/// A map from `u32` ids to `u32` values.
#[verifier::external_body]
pub struct IdMap {
    map: hashbrown::HashMap<u32, u32>,
}

/// What an `IdMap` holds.
pub uninterp spec fn id_map_contents(m: IdMap) -> Map<u32, u32>;

impl IdMap {
    pub open spec fn contents(&self) -> Map<u32, u32> {
        id_map_contents(*self)
    }

    /// An empty map (`hashbrown::HashMap::new`).
    #[verifier::external_body]
    pub fn new() -> (r: Self)
        ensures
            id_map_contents(r).dom().is_empty(),
    {
        IdMap { map: hashbrown::HashMap::new() }
    }

    /// The value for `key` (`HashMap::get`).
    #[verifier::external_body]
    pub fn get(&self, key: &u32) -> (r: Option<u32>)
        ensures
            r == (if id_map_contents(*self).contains_key(*key) {
                Some(id_map_contents(*self)[*key])
            } else {
                None
            }),
    {
        self.map.get(key).copied()
    }

    /// Sets the value for `key` (`HashMap::insert`).
    #[verifier::external_body]
    pub fn insert(&mut self, key: u32, value: u32)
        ensures
            id_map_contents(*final(self)) == id_map_contents(*old(self)).insert(key, value),
    {
        self.map.insert(key, value);
    }

    /// The number of keys (`HashMap::len`).
    #[verifier::external_body]
    pub fn len(&self) -> (r: usize)
        ensures
            r == id_map_contents(*self).dom().len(),
    {
        self.map.len()
    }

    /// All entries, in the map's order (`HashMap::iter`).
    #[verifier::external_body]
    pub fn entries(&self) -> (r: Vec<(u32, u32)>)
        ensures
            lists_entries(r@, id_map_contents(*self)),
    {
        self.map.iter().map(|(k, v)| (*k, *v)).collect()
    }
}

} // verus!
