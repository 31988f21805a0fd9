//! Target operands: immediates, float immediates (carried as IEEE-754 bit
//! patterns), registers, stack slots and labels.

use vstd::prelude::*;
use vstd::arithmetic::power2::{pow2, lemma_pow2_strictly_increases, lemma2_to64, lemma2_to64_rest};

use crate::backend::reg::Reg;
use crate::backend::stack::StackSlot;

verus! {

/// Whether `v` fits a signed `n`-bit immediate field.
pub open spec fn imm_fits(v: int, n: nat) -> bool {
    &&& n >= 1
    &&& -(pow2((n - 1) as nat) as int) <= v
    &&& v < pow2((n - 1) as nat) as int
}

/// Checks whether `v` fits a signed `n`-bit immediate field; branch
/// immediates use `n == 12`.
pub fn imm_in_limit(v: i64, n: u32) -> (r: bool)
    requires
        1 <= n <= 63,
    ensures
        r == imm_fits(v as int, n as nat),
{
    let mut b: i64 = 1;
    let mut i: u32 = 0;
    proof {
        lemma2_to64();
        lemma2_to64_rest();
        assert(pow2(0) == 1);
    }
    while i < n - 1
        invariant
            1 <= n <= 63,
            i <= n - 1,
            b == pow2(i as nat),
        decreases n - 1 - i,
    {
        proof {
            if (i as nat) < 62 {
                lemma_pow2_strictly_increases(i as nat, 62);
            }
            lemma2_to64_rest();
            assert(pow2(62) == 0x4000000000000000);
            assert(pow2((i + 1) as nat) == pow2(i as nat) * 2) by {
                vstd::arithmetic::power2::lemma_pow2_unfold((i + 1) as nat);
            }
        }
        b = b * 2;
        i = i + 1;
    }
    -b <= v && v < b
}

/// A target operand.
#[derive(Debug, Clone, PartialEq)]
pub enum Operand {
    /// Integer immediate.
    Imm(i64),
    /// Float immediate, as the bit pattern of an IEEE-754 double.
    Fmm(u64),
    /// Register.
    Reg(Reg),
    /// Stack slot handle.
    StackSlot(StackSlot),
    /// Symbol or block label.
    Label(String),
}

impl Operand {
    pub fn is_reg(&self) -> (r: bool)
        ensures
            r == (self is Reg),
    {
        match self {
            Operand::Reg(_) => true,
            _ => false,
        }
    }

    pub fn is_imm(&self) -> (r: bool)
        ensures
            r == (self is Imm),
    {
        match self {
            Operand::Imm(_) => true,
            _ => false,
        }
    }
}

/// An exact clone of an operand, stated as equality (a derived clone would be
/// opaque to the verifier because of the label's `String`).
pub fn clone_operand(o: &Operand) -> (r: Operand)
    ensures
        r == *o,
{
    match o {
        Operand::Imm(v) => Operand::Imm(*v),
        Operand::Fmm(b) => Operand::Fmm(*b),
        Operand::Reg(rg) => Operand::Reg(*rg),
        Operand::StackSlot(s) => Operand::StackSlot(*s),
        Operand::Label(l) => Operand::Label(l.clone()),
    }
}

} // verus!
