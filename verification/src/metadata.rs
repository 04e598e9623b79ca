//! The metadata of each runtime version that the indexer has fetched, so
//! that each version's metadata is downloaded once.
use std::collections::HashMap;
use vstd::prelude::*;

verus! {

broadcast use vstd::std_specs::hash::group_hash_axioms;

/// Metadata by runtime spec version.
pub struct MetadataCache<M> {
    versions: HashMap<u32, M>,
}

impl<M> View for MetadataCache<M> {
    type V = Map<u32, M>;

    closed spec fn view(&self) -> Map<u32, M> {
        self.versions@
    }
}

impl<M> MetadataCache<M> {
    /// A cache that holds nothing.
    pub fn new() -> (r: Self)
        ensures
            r@ == Map::<u32, M>::empty(),
    {
        MetadataCache { versions: HashMap::new() }
    }

    /// The metadata of `spec_version`, if it has been stored.
    pub fn get(&self, spec_version: u32) -> (r: Option<&M>)
        ensures
            match r {
                Some(m) => self@.contains_key(spec_version) && *m == self@[spec_version],
                None => !self@.contains_key(spec_version),
            },
    {
        self.versions.get(&spec_version)
    }

    /// Stores `metadata` as the metadata of `spec_version` unless some is
    /// stored for it already, which is kept; says whether it stored it.
    pub fn insert_if_absent(&mut self, spec_version: u32, metadata: M) -> (stored: bool)
        ensures
            stored == !old(self)@.contains_key(spec_version),
            final(self)@ == if stored {
                old(self)@.insert(spec_version, metadata)
            } else {
                old(self)@
            },
    {
        if self.versions.contains_key(&spec_version) {
            false
        } else {
            self.versions.insert(spec_version, metadata);
            true
        }
    }
}

} // verus!
