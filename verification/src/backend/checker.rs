//! Per-instruction structural validity, checked after lowering.

use vstd::prelude::*;

use crate::backend::inst::{BinOp, Inst, UnOp};
use crate::backend::operand::Operand;

verus! {

/// What a well-formed post-lowering instruction looks like: three-address
/// multiplies, divides, remainders and subtractions only work on registers;
/// loads of immediates pair a register with an immediate; conversions move
/// between the two register files; and no pre-lowered stack access survives.
pub open spec fn inst_is_valid(i: Inst) -> bool {
    match i {
        Inst::Bin { op, dst, lhs, rhs } => match op {
            BinOp::Sub | BinOp::Mul | BinOp::Div | BinOp::Rem => (dst is Reg) && (lhs is Reg) && (
            rhs is Reg),
            _ => true,
        },
        Inst::Un { op, dst, src } => match op {
            UnOp::Seqz | UnOp::Snez | UnOp::Not => (dst is Reg) && (src is Reg),
            UnOp::F2i => (dst matches Operand::Reg(d) && d.spec_is_usual()) && (src matches
                Operand::Reg(s)
                && s.spec_is_float()),
            UnOp::I2f => (dst matches Operand::Reg(d) && d.spec_is_float()) && (src matches
                Operand::Reg(s)
                && s.spec_is_usual()),
            _ => true,
        },
        Inst::Li { dst, src } => (dst is Reg) && (src is Imm),
        Inst::Load { .. } => false,
        Inst::Store { .. } => false,
        _ => true,
    }
}

/// Structural validity of one instruction.
pub trait CheckValidInst {
    fn check_valid(&self) -> bool;
}

impl CheckValidInst for Inst {
    fn check_valid(&self) -> (r: bool)
        ensures
            r == inst_is_valid(*self),
    {
        match self {
            Inst::Bin { op, dst, lhs, rhs } => match op {
                BinOp::Sub | BinOp::Mul | BinOp::Div | BinOp::Rem => dst.is_reg() && lhs.is_reg()
                    && rhs.is_reg(),
                _ => true,
            },
            Inst::Un { op, dst, src } => match op {
                UnOp::Seqz | UnOp::Snez | UnOp::Not => dst.is_reg() && src.is_reg(),
                UnOp::F2i => {
                    let d_ok: bool = match dst {
                        Operand::Reg(d) => d.is_usual(),
                        _ => false,
                    };
                    let s_ok: bool = match src {
                        Operand::Reg(s) => s.is_float(),
                        _ => false,
                    };
                    d_ok && s_ok
                },
                UnOp::I2f => {
                    let d_ok: bool = match dst {
                        Operand::Reg(d) => d.is_float(),
                        _ => false,
                    };
                    let s_ok: bool = match src {
                        Operand::Reg(s) => s.is_usual(),
                        _ => false,
                    };
                    d_ok && s_ok
                },
                _ => true,
            },
            Inst::Li { dst, src } => dst.is_reg() && src.is_imm(),
            Inst::Load { .. } => false,
            Inst::Store { .. } => false,
            _ => true,
        }
    }
}

/// No valid instruction is a pre-lowered generic stack `Load` or `Store`:
/// a program whose instructions all pass `check_valid` holds none.
pub proof fn lemma_valid_has_no_pre_lowered(i: Inst)
    ensures
        inst_is_valid(i) ==> !(i is Load) && !(i is Store),
{
}

} // verus!
