//! Entity handles and the allocator that hands them out.

use vstd::prelude::*;

verus! {

/// An opaque handle to one entity of the world.
#[derive(Clone, Copy, Debug, PartialEq, Eq, Structural, Hash)]
pub struct Entity {
    pub id: u64,
}

/// Hands out entity handles in increasing order, each one once.
#[derive(Clone, Copy, Debug)]
pub struct EntityAllocator {
    pub next: u64,
}

impl EntityAllocator {
    /// An allocator that has handed out nothing yet.
    pub fn new() -> (r: Self)
        ensures
            r.next == 0,
    {
        EntityAllocator { next: 0 }
    }

    /// Whether `e` was handed out by this allocator.
    pub open spec fn issued(&self, e: Entity) -> bool {
        e.id < self.next
    }

    /// Whether another handle can still be handed out.
    pub open spec fn has_room(&self) -> bool {
        self.next < u64::MAX
    }

    /// Executable form of [`Self::has_room`].
    pub fn can_allocate(&self) -> (r: bool)
        ensures
            r == self.has_room(),
    {
        self.next < u64::MAX
    }

    /// Hands out a handle that was never handed out before.
    pub fn allocate(&mut self) -> (e: Entity)
        requires
            old(self).has_room(),
        ensures
            e.id == old(self).next,
            final(self).next == old(self).next + 1,
    {
        let e = Entity { id: self.next };
        self.next = self.next + 1;
        e
    }
}

} // verus!
