//! Registers and the per-function virtual-register generator.
//!
//! The integer and float register files are disjoint: a register is the pair
//! of its id and its file. Physical registers have ids below
//! `PHYS_REG_COUNT`; virtual registers are minted from that bound upward.

use vstd::prelude::*;

verus! {

/// Number of physical registers in each file.
pub const PHYS_REG_COUNT: u64 = 32;

/// A register: integer file when `usual` holds, float file otherwise.
#[derive(Debug, Clone, Copy, PartialEq, Eq, Structural, Hash)]
pub struct Reg {
    pub id: u64,
    pub usual: bool,
}

impl Reg {
    pub fn new(id: u64, usual: bool) -> (r: Reg)
        ensures
            r == (Reg { id, usual }),
    {
        Reg { id, usual }
    }

    pub fn id(&self) -> (r: u64)
        ensures
            r == self.id,
    {
        self.id
    }

    pub open spec fn spec_is_usual(&self) -> bool {
        self.usual
    }

    #[verifier::when_used_as_spec(spec_is_usual)]
    pub fn is_usual(&self) -> (r: bool)
        ensures
            r == self.usual,
    {
        self.usual
    }

    pub open spec fn spec_is_float(&self) -> bool {
        !self.usual
    }

    #[verifier::when_used_as_spec(spec_is_float)]
    pub fn is_float(&self) -> (r: bool)
        ensures
            r == !self.usual,
    {
        !self.usual
    }

    pub open spec fn spec_is_physical(&self) -> bool {
        self.id < PHYS_REG_COUNT
    }

    #[verifier::when_used_as_spec(spec_is_physical)]
    pub fn is_physical(&self) -> (r: bool)
        ensures
            r == self.spec_is_physical(),
    {
        self.id < PHYS_REG_COUNT
    }

    pub open spec fn spec_is_virtual(&self) -> bool {
        self.id >= PHYS_REG_COUNT
    }

    #[verifier::when_used_as_spec(spec_is_virtual)]
    pub fn is_virtual(&self) -> (r: bool)
        ensures
            r == self.spec_is_virtual(),
    {
        self.id >= PHYS_REG_COUNT
    }

    /// Stack pointer.
    pub fn sp() -> (r: Reg)
        ensures
            r == (Reg { id: 2, usual: true }),
    {
        Reg { id: 2, usual: true }
    }

    /// Frame pointer.
    pub fn s0() -> (r: Reg)
        ensures
            r == (Reg { id: 8, usual: true }),
    {
        Reg { id: 8, usual: true }
    }

    /// First integer argument / integer return register; A0..A7 are ids 10..17.
    pub fn a0() -> (r: Reg)
        ensures
            r == (Reg { id: 10, usual: true }),
    {
        Reg { id: 10, usual: true }
    }

    pub fn a1() -> (r: Reg)
        ensures
            r == (Reg { id: 11, usual: true }),
    {
        Reg { id: 11, usual: true }
    }

    pub fn a2() -> (r: Reg)
        ensures
            r == (Reg { id: 12, usual: true }),
    {
        Reg { id: 12, usual: true }
    }

    /// The `i`th integer argument register.
    pub open spec fn spec_a(i: nat) -> Reg {
        Reg { id: (10 + i) as u64, usual: true }
    }

    pub fn a(i: u64) -> (r: Reg)
        requires
            i < 8,
        ensures
            r == Reg::spec_a(i as nat),
    {
        Reg { id: 10 + i, usual: true }
    }

    /// First float argument / float return register; FA0..FA7 are ids 10..17
    /// of the float file.
    pub fn fa0() -> (r: Reg)
        ensures
            r == (Reg { id: 10, usual: false }),
    {
        Reg { id: 10, usual: false }
    }

    /// The `i`th float argument register.
    pub open spec fn spec_fa(i: nat) -> Reg {
        Reg { id: (10 + i) as u64, usual: false }
    }

    pub fn fa(i: u64) -> (r: Reg)
        requires
            i < 8,
        ensures
            r == Reg::spec_fa(i as nat),
    {
        Reg { id: 10 + i, usual: false }
    }
}

/// Mints fresh virtual registers. Each file has its own counter, starting at
/// `PHYS_REG_COUNT`; a counter that would pass `u64::MAX` stays put, so the
/// generator never panics (in any realistic run the counters stay far below).
#[derive(Debug, Clone, PartialEq, Eq, Structural)]
pub struct RegGenerator {
    pub usual_next: u64,
    pub float_next: u64,
}

impl RegGenerator {
    /// Both counters start right above the physical ids.
    pub open spec fn wf(self) -> bool {
        self.usual_next >= PHYS_REG_COUNT && self.float_next >= PHYS_REG_COUNT
    }

    pub fn new() -> (r: RegGenerator)
        ensures
            r == (RegGenerator { usual_next: PHYS_REG_COUNT, float_next: PHYS_REG_COUNT }),
            r.wf(),
    {
        RegGenerator { usual_next: PHYS_REG_COUNT, float_next: PHYS_REG_COUNT }
    }

    pub fn gen_virtual_usual_reg(&mut self) -> (r: Reg)
        ensures
            r == (Reg { id: old(self).usual_next, usual: true }),
            final(self).float_next == old(self).float_next,
            final(self).usual_next == if old(self).usual_next < u64::MAX {
                (old(self).usual_next + 1) as u64
            } else {
                old(self).usual_next
            },
            old(self).wf() ==> final(self).wf() && r.is_virtual(),
    {
        let id: u64 = self.usual_next;
        if self.usual_next < u64::MAX {
            self.usual_next = self.usual_next + 1;
        }
        Reg { id, usual: true }
    }

    pub fn gen_virtual_float_reg(&mut self) -> (r: Reg)
        ensures
            r == (Reg { id: old(self).float_next, usual: false }),
            final(self).usual_next == old(self).usual_next,
            final(self).float_next == if old(self).float_next < u64::MAX {
                (old(self).float_next + 1) as u64
            } else {
                old(self).float_next
            },
            old(self).wf() ==> final(self).wf() && r.is_virtual(),
    {
        let id: u64 = self.float_next;
        if self.float_next < u64::MAX {
            self.float_next = self.float_next + 1;
        }
        Reg { id, usual: false }
    }

    /// Mints in the integer file when `usual` holds, in the float file otherwise.
    pub fn gen_virtual_reg(&mut self, usual: bool) -> (r: Reg)
        ensures
            usual ==> r == (Reg { id: old(self).usual_next, usual: true })
                && final(self).float_next == old(self).float_next
                && final(self).usual_next == if old(self).usual_next < u64::MAX {
                    (old(self).usual_next + 1) as u64
                } else {
                    old(self).usual_next
                },
            !usual ==> r == (Reg { id: old(self).float_next, usual: false })
                && final(self).usual_next == old(self).usual_next
                && final(self).float_next == if old(self).float_next < u64::MAX {
                    (old(self).float_next + 1) as u64
                } else {
                    old(self).float_next
                },
            old(self).wf() ==> final(self).wf() && r.is_virtual(),
    {
        if usual {
            self.gen_virtual_usual_reg()
        } else {
            self.gen_virtual_float_reg()
        }
    }
}

} // verus!
