//! Sequential identifier allocation.
//!
//! An `IDManager` is an explicit allocator object owned by the application
//! root and passed by reference to whatever needs fresh identifiers; it hands
//! out strictly increasing ids starting from the seed it was built with.

use vstd::prelude::*;

verus! {

/// An opaque identifier; 0 is reserved as the null id.
#[derive(Debug, Clone, Copy, PartialEq, Eq, Structural, Hash)]
pub struct Id(pub u64);

impl Id {
    /// The reserved null id.
    pub fn null() -> (r: Id)
        ensures
            r.0 == 0,
    {
        Id(0)
    }

    /// True exactly when this is the null id.
    pub fn is_null(&self) -> (r: bool)
        ensures
            r == (self.0 == 0),
    {
        self.0 == 0
    }
}

/// Allocates identifiers sequentially and can remember those that were
/// handed out for structural bookkeeping.
#[derive(Debug)]
pub struct IDManager {
    /// Ids recorded by `gen_insert_zero`, in allocation order.
    pub id_mappings: Vec<Id>,
    /// The id the next allocation returns.
    pub next_id: Id,
}

impl IDManager {
    /// A fresh manager whose first allocated id is `seed`.
    pub fn new(seed: u64) -> (r: IDManager)
        ensures
            r.next_id.0 == seed,
            r.id_mappings@.len() == 0,
    {
        IDManager { id_mappings: Vec::new(), next_id: Id(seed) }
    }

    /// Hand out the next id and advance the counter.
    pub fn gen_id(&mut self) -> (r: Id)
        requires
            old(self).next_id.0 < u64::MAX,
        ensures
            r == old(self).next_id,
            final(self).next_id.0 == old(self).next_id.0 + 1,
            final(self).id_mappings == old(self).id_mappings,
    {
        let id = self.next_id;
        self.next_id = Id(id.0 + 1);
        id
    }

    /// Hand out the next id and record it.
    pub fn gen_insert_zero(&mut self) -> (r: Id)
        requires
            old(self).next_id.0 < u64::MAX,
        ensures
            r == old(self).next_id,
            final(self).next_id.0 == old(self).next_id.0 + 1,
            final(self).id_mappings@ == old(self).id_mappings@.push(r),
    {
        let id = self.gen_id();
        self.id_mappings.push(id);
        id
    }
}

} // verus!
