use std::collections::HashSet;
use vstd::prelude::*;

verus! {

broadcast use vstd::std_specs::hash::group_hash_axioms;

/// The mark store: the set of identity tags that carry the retention mark.
/// It only ever grows.
pub struct MarkStore {
    marks: HashSet<u64>,
}

impl View for MarkStore {
    type V = Set<u64>;

    closed spec fn view(&self) -> Set<u64> {
        self.marks@
    }
}

impl MarkStore {
    /// An empty store.
    pub fn new() -> (r: MarkStore)
        ensures
            r@ == Set::<u64>::empty(),
    {
        MarkStore { marks: HashSet::new() }
    }

    /// Adds the retention mark to `id`.
    pub fn mark(&mut self, id: u64)
        ensures
            final(self)@ == old(self)@.insert(id),
    {
        self.marks.insert(id);
    }

    /// Whether `id` carries the retention mark.
    pub fn is_marked(&self, id: u64) -> (r: bool)
        ensures
            r == self@.contains(id),
    {
        self.marks.contains(&id)
    }
}

} // verus!
