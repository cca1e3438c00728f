//! A per-session memo of fetched blocks, keyed by block number.
//!
//! The cache belongs to exactly one resolver; it only ever grows during a
//! resolution and is emptied only by an explicit clear. A record, once
//! stored, is never replaced by a different one for the same number as long
//! as callers keep the key equal to the record's own number.

use vstd::prelude::*;
use crate::block::BlockRecord;
use std::collections::HashMap;

verus! {

broadcast use vstd::std_specs::hash::group_hash_axioms;

/// Memoizes fetched blocks by number within a session.
pub struct BlockCache {
    map: HashMap<u64, BlockRecord>,
}

impl View for BlockCache {
    type V = Map<u64, BlockRecord>;

    closed spec fn view(&self) -> Map<u64, BlockRecord> {
        self.map@
    }
}

impl BlockCache {
    /// Every stored record sits under its own block number.
    pub open spec fn wf(&self) -> bool {
        forall|k: u64| self@.contains_key(k) ==> (#[trigger] self@[k]).number == k
    }

    /// An empty cache.
    pub fn new() -> (c: BlockCache)
        ensures
            c@ == Map::<u64, BlockRecord>::empty(),
            c.wf(),
    {
        BlockCache { map: HashMap::new() }
    }

    /// The record stored under `number`, if one is present; the collaborator
    /// must be asked only when this returns nothing.
    pub fn get(&self, number: u64) -> (r: Option<BlockRecord>)
        ensures
            match r {
                Some(b) => self@.contains_key(number) && b == self@[number],
                None => !self@.contains_key(number),
            },
    {
        match self.map.get(&number) {
            Some(b) => Some(*b),
            None => None,
        }
    }

    /// Stores a fetched record under its own number.
    pub fn insert(&mut self, rec: BlockRecord)
        requires
            old(self).wf(),
        ensures
            final(self)@ == old(self)@.insert(rec.number, rec),
            final(self).wf(),
    {
        self.map.insert(rec.number, rec);
        proof {
            assert forall|k: u64| self@.contains_key(k) implies (#[trigger] self@[k]).number
                == k by {
                if k != rec.number {
                    assert(old(self)@.contains_key(k));
                    assert(old(self)@[k].number == k);
                }
            }
        }
    }

    /// Empties the cache; the next lookup of any number misses.
    pub fn clear(&mut self)
        ensures
            final(self)@ == Map::<u64, BlockRecord>::empty(),
            final(self).wf(),
    {
        self.map.clear();
    }

    /// How many records are memoized.
    pub fn len(&self) -> (n: usize)
        ensures
            n == self@.len(),
    {
        self.map.len()
    }
}

} // verus!
