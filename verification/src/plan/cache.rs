//! The cache of compiled queries.

use std::collections::HashMap;
use std::hash::{Hash, Hasher};
use vstd::prelude::*;

verus! {

broadcast use vstd::std_specs::hash::group_hash_axioms;

/// `ahash::AHasher`, fed with a text: its hash. The hash differs from machine to machine,
/// so nothing is claimed of it.
#[verifier::external_body]
fn ahash_of(text: &str) -> (r: u64) {
    let mut hasher = ahash::AHasher::default();
    text.hash(&mut hasher);
    hasher.finish()
}

/// Compiled queries by the fingerprint of their text.
#[derive(Debug)]
pub struct CompiledQueryCache<V> {
    entries: HashMap<u64, V>,
}

impl<V> View for CompiledQueryCache<V> {
    type V = Map<u64, V>;

    closed spec fn view(&self) -> Map<u64, V> {
        self.entries@
    }
}

impl<V> CompiledQueryCache<V> {
    pub fn new() -> (r: CompiledQueryCache<V>)
        ensures
            r@ == Map::<u64, V>::empty(),
    {
        CompiledQueryCache { entries: HashMap::new() }
    }

    /// The fingerprint of a query, from its printed form: a hash, of which only the machine
    /// knows more.
    pub fn fingerprint(query: &str) -> u64 {
        ahash_of(query)
    }

    /// What was compiled under a fingerprint.
    pub fn get(&self, key: u64) -> (r: Option<&V>)
        ensures
            match r {
                Some(v) => self@.contains_key(key) && self@[key] == *v,
                None => !self@.contains_key(key),
            },
    {
        self.entries.get(&key)
    }

    /// Keeps what was compiled under a fingerprint, in place of what was there.
    pub fn insert(&mut self, key: u64, value: V)
        ensures
            final(self)@ == old(self)@.insert(key, value),
    {
        self.entries.insert(key, value);
    }

    /// The number of fingerprints that are kept.
    pub fn len(&self) -> (r: usize)
        ensures
            r == self@.len(),
    {
        self.entries.len()
    }

    /// Forgets everything.
    pub fn clear(&mut self)
        ensures
            final(self)@ == Map::<u64, V>::empty(),
    {
        self.entries.clear();
    }
}

/// What was kept under a fingerprint is found under it, and under every other what was
/// found there before.
pub proof fn law_kept_is_found<V>(m: Map<u64, V>, key: u64, value: V, other: u64)
    ensures
        m.insert(key, value).contains_key(key),
        m.insert(key, value)[key] == value,
        other != key ==> m.insert(key, value).contains_key(other) == m.contains_key(other),
        other != key && m.contains_key(other) ==> m.insert(key, value)[other] == m[other],
{
}

} // verus!
