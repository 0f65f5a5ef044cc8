//! The shared store: a concurrent mapping from key strings to the raw
//! encoded value bytes stored under them.
//!
//! The map itself comes from the `dashmap` crate, which shards its keys
//! across independently locked buckets: operations on one key never block
//! operations on another, and the entry interface makes a read-modify-write
//! of one key atomic. Every handle [`share`](Store::share) hands out reaches
//! the same map, and other connections mutate it between any two calls, so
//! the trusted interface below promises only what holds of a single call
//! whatever the rest of the map does meanwhile. The sequential key-value
//! semantics — what a read, write, increment or delete means on given
//! contents — lives in the pure map model of [`crate::dispatch`] and is
//! proved there.

use vstd::prelude::*;

use crate::value::{incr_step, incr_step_result, initial_counter};

verus! {

/// A handle to the shared key-value map.
#[verifier::external_body]
pub struct Store {
    inner: std::sync::Arc<dashmap::DashMap<String, Vec<u8>>>,
}

impl Store {
    /// A fresh map, holding nothing and shared with nobody yet. Relies on
    /// `dashmap::DashMap::new`.
    #[verifier::external_body]
    pub fn new() -> Store {
        Store { inner: std::sync::Arc::new(dashmap::DashMap::new()) }
    }

    /// Another handle to the same underlying map, for handing to a
    /// concurrently running connection. Relies on `Arc::clone`.
    #[verifier::external_body]
    pub fn share(&self) -> Store {
        Store { inner: std::sync::Arc::clone(&self.inner) }
    }

    /// The value stored under the key at some instant during the call, or
    /// none if the key was then absent. Relies on `dashmap::DashMap::get`;
    /// with other handles writing concurrently, no more can be promised of
    /// the outcome, so nothing is.
    #[verifier::external_body]
    pub fn get(&self, key: &String) -> Option<Vec<u8>> {
        match self.inner.get(key) {
            Some(entry) => Some(entry.value().clone()),
            None => None,
        }
    }

    /// Stores the value under the key, replacing whatever an instant
    /// earlier was there. Relies on `dashmap::DashMap::insert`.
    #[verifier::external_body]
    pub fn set(&mut self, key: String, value: Vec<u8>) {
        self.inner.insert(key, value);
    }

    /// Removes the key's entry, reporting whether one was present at that
    /// instant. Relies on `dashmap::DashMap::remove`.
    #[verifier::external_body]
    pub fn remove(&mut self, key: &String) -> bool {
        self.inner.remove(key).is_some()
    }

    /// The increment's atomic read-modify-write: returns the bytes now
    /// stored, which are the increment step applied to whatever the key
    /// held at the step's instant. Relies on `dashmap::DashMap::entry` with
    /// `Entry::and_modify` and `Entry::or_insert_with`: the key's shard
    /// stays write-locked across the whole step, so no concurrent operation
    /// on the key interleaves; a present value is replaced by the closure's
    /// result, an absent key gets the initial counter, and the value then
    /// stored is returned. The closures only call this library's
    /// `incr_step` and `initial_counter`, whose contracts give the ensures.
    #[verifier::external_body]
    pub fn update_or_insert(&mut self, key: String) -> (r: Vec<u8>)
        ensures
            exists|prior: Option<Seq<u8>>| r@ == incr_step_result(prior),
    {
        let entry = self.inner.entry(key).and_modify(|v| *v = incr_step(v)).or_insert_with(
            || initial_counter(),
        );
        entry.value().clone()
    }
}

} // verus!
