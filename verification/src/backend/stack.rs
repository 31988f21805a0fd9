//! Stack slots and the per-function stack allocator.
//!
//! A slot is a handle carrying its byte offset and size; the allocator mints
//! handles sequentially. True frame offsets are only meaningful after the
//! finalization pass has rebuilt the allocator.

use vstd::prelude::*;

verus! {

/// A logical region of the current frame: `start` byte offset and byte size.
#[derive(Debug, Clone, Copy, PartialEq, Eq, Structural, Hash)]
pub struct StackSlot {
    pub start: u64,
    pub size: u64,
}

impl StackSlot {
    pub fn start(&self) -> (r: u64)
        ensures
            r == self.start,
    {
        self.start
    }

    pub fn size(&self) -> (r: u64)
        ensures
            r == self.size,
    {
        self.size
    }
}

/// Mints stack slots at increasing offsets.
#[derive(Debug, Clone, PartialEq, Eq, Structural)]
pub struct StackAllocator {
    pub used: u64,
}

impl StackAllocator {
    /// Holds of every slot this allocator has handed out.
    pub open spec fn owns(self, s: StackSlot) -> bool {
        s.start + s.size <= self.used
    }

    pub fn new() -> (r: StackAllocator)
        ensures
            r == (StackAllocator { used: 0 }),
    {
        StackAllocator { used: 0 }
    }

    pub fn used(&self) -> (r: u64)
        ensures
            r == self.used,
    {
        self.used
    }

    /// Whether a further `size`-byte slot would pass the address space.
    pub fn can_allocate(&self, size: u64) -> (r: bool)
        ensures
            r == (self.used + size <= u64::MAX),
    {
        size <= u64::MAX - self.used
    }

    pub fn allocate(&mut self, size: u64) -> (r: StackSlot)
        requires
            old(self).used + size <= u64::MAX,
        ensures
            r == (StackSlot { start: old(self).used, size }),
            final(self).used == old(self).used + size,
            final(self).owns(r),
    {
        let start: u64 = self.used;
        self.used = self.used + size;
        StackSlot { start, size }
    }
}

} // verus!
