//! A map from UUIDs (as 128-bit integers) to values, whose keys the
//! storage chooses itself.

use std::collections::hash_map::Entry;
use std::collections::HashMap;
use vstd::prelude::*;

use crate::ids::{fresh_key, is_v4};

verus! {

broadcast use vstd::std_specs::hash::group_hash_axioms;

/// Values stored under keys that the storage generates on insertion.
pub struct ObjectStorage<T> {
    storage: HashMap<u128, T>,
}

impl<T> View for ObjectStorage<T> {
    type V = Map<u128, T>;

    closed spec fn view(&self) -> Map<u128, T> {
        self.storage@
    }
}

impl<T> ObjectStorage<T> {
    /// An empty storage.
    pub fn new() -> (s: Self)
        ensures
            s@ == Map::<u128, T>::empty(),
    {
        ObjectStorage { storage: HashMap::new() }
    }

    /// Stores `value` under a key that was free, and returns that key.
    pub fn insert(&mut self, value: T) -> (uuid: u128)
        ensures
            !old(self)@.contains_key(uuid),
            is_v4(uuid),
            final(self)@ == old(self)@.insert(uuid, value),
    {
        let uuid = self.gen_uuid();
        self.storage.insert(uuid, value);
        uuid
    }

    /// A key under which nothing is stored.
    fn gen_uuid(&self) -> (uuid: u128)
        ensures
            !self@.contains_key(uuid),
            is_v4(uuid),
    {
        fresh_key(&self.storage)
    }

    /// The value stored under `uuid`, if any.
    pub fn get(&self, uuid: u128) -> (r: Option<&T>)
        ensures
            r is Some <==> self@.contains_key(uuid),
            r matches Some(v) ==> *v == self@[uuid],
    {
        self.storage.get(&uuid)
    }

    /// Mutable access to the value stored under `uuid`, if any; what is
    /// written through it is what the storage holds afterwards.
    pub fn get_mut(&mut self, uuid: &u128) -> (r: Option<&mut T>)
        ensures
            r is Some <==> old(self)@.contains_key(*uuid),
            r matches Some(v) ==> *v == old(self)@[*uuid] && final(self)@ == old(self)@.insert(
                *uuid,
                *final(v),
            ),
            r is None ==> final(self)@ == old(self)@,
    {
        match self.storage.entry(*uuid) {
            Entry::Occupied(e) => Some(e.into_mut()),
            Entry::Vacant(_) => None,
        }
    }

    /// Takes out the value stored under `uuid`, if any.
    pub fn remove(&mut self, uuid: &u128) -> (r: Option<T>)
        ensures
            r == old(self)@.get(*uuid),
            final(self)@ == old(self)@.remove(*uuid),
    {
        self.storage.remove(uuid)
    }
}

/// What is inserted under a fresh key is found there, and removing it gives
/// the storage back as it was before the insertion.
pub proof fn lemma_insert_then_remove<T>(before: Map<u128, T>, uuid: u128, value: T)
    requires
        !before.contains_key(uuid),
    ensures
        before.insert(uuid, value).get(uuid) == Some(value),
        before.insert(uuid, value).remove(uuid) == before,
{
    assert(before.insert(uuid, value).remove(uuid) =~= before);
}

} // verus!
