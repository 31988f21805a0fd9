//! Target instructions with defs/uses metadata, terminator queries, and the
//! label-rewrite step used by the renaming passes.

use vstd::prelude::*;

use crate::backend::operand::{clone_operand, Operand};
use crate::backend::reg::Reg;
use crate::backend::stack::StackSlot;

verus! {

/// Three-address integer/float operations.
#[derive(Debug, Clone, Copy, PartialEq, Eq, Structural)]
pub enum BinOp {
    Add,
    Sub,
    Mul,
    Div,
    Rem,
    Sll,
    Srl,
    Sra,
    Slt,
    And,
    Or,
    Xor,
}

/// Two-operand operations.
#[derive(Debug, Clone, Copy, PartialEq, Eq, Structural)]
pub enum UnOp {
    Mv,
    Neg,
    Seqz,
    Snez,
    Not,
    F2i,
    I2f,
}

/// Conditional-branch conditions.
#[derive(Debug, Clone, Copy, PartialEq, Eq, Structural)]
pub enum BrOp {
    Beq,
    Bne,
    Blt,
    Ble,
    Bgt,
    Bge,
}

/// Concrete memory accesses: a base register plus an immediate offset.
#[derive(Debug, Clone, Copy, PartialEq, Eq, Structural)]
pub enum MemOp {
    /// 64-bit load.
    Ld,
    /// 64-bit store.
    Sd,
    /// 32-bit load.
    Lw,
    /// 32-bit store.
    Sw,
}

/// A target instruction.
#[derive(Debug, Clone, PartialEq)]
pub enum Inst {
    Bin { op: BinOp, dst: Operand, lhs: Operand, rhs: Operand },
    Un { op: UnOp, dst: Operand, src: Operand },
    /// Load immediate.
    Li { dst: Operand, src: Operand },
    /// Lowered memory access at `offset(base)`; `reg` is the value register.
    Mem { op: MemOp, reg: Reg, offset: i64, base: Reg },
    /// Load the address of a symbol.
    Lla { dst: Reg, label: String },
    /// Load the address of a stack slot.
    LocalAddr { dst: Reg, slot: StackSlot },
    /// Pre-lowered load from a stack slot; must not survive lowering.
    Load { dst: Reg, slot: StackSlot },
    /// Pre-lowered store to a stack slot; must not survive lowering.
    Store { src: Reg, slot: StackSlot },
    Jmp { label: String },
    Br { op: BrOp, lhs: Reg, rhs: Reg, label: String },
    Call { name: String, arg_regs: Vec<Reg>, def: Option<Reg> },
    Tail { name: String },
    Ret,
}

/// The registers an operand mentions.
pub open spec fn op_regs(o: Operand) -> Seq<Reg> {
    match o {
        Operand::Reg(r) => seq![r],
        _ => seq![],
    }
}

impl Inst {
    /// Whether the instruction changes control flow.
    pub open spec fn spec_is_term(&self) -> bool {
        match self {
            Inst::Jmp { .. } => true,
            Inst::Br { .. } => true,
            Inst::Ret => true,
            Inst::Tail { .. } => true,
            _ => false,
        }
    }

    #[verifier::when_used_as_spec(spec_is_term)]
    pub fn is_term(&self) -> (r: bool)
        ensures
            r == self.spec_is_term(),
    {
        match self {
            Inst::Jmp { .. } => true,
            Inst::Br { .. } => true,
            Inst::Ret => true,
            Inst::Tail { .. } => true,
            _ => false,
        }
    }

    /// Whether the instruction is a conditional branch.
    pub open spec fn spec_is_branch(&self) -> bool {
        self matches Inst::Br { .. }
    }

    #[verifier::when_used_as_spec(spec_is_branch)]
    pub fn is_branch(&self) -> (r: bool)
        ensures
            r == self.spec_is_branch(),
    {
        match self {
            Inst::Br { .. } => true,
            _ => false,
        }
    }

    /// The registers the instruction writes.
    pub open spec fn spec_defs(&self) -> Seq<Reg> {
        match self {
            Inst::Bin { dst, .. } => op_regs(*dst),
            Inst::Un { dst, .. } => op_regs(*dst),
            Inst::Li { dst, .. } => op_regs(*dst),
            Inst::Mem { op, reg, .. } => match op {
                MemOp::Ld | MemOp::Lw => seq![*reg],
                MemOp::Sd | MemOp::Sw => seq![],
            },
            Inst::Lla { dst, .. } => seq![*dst],
            Inst::LocalAddr { dst, .. } => seq![*dst],
            Inst::Load { dst, .. } => seq![*dst],
            Inst::Store { .. } => seq![],
            Inst::Jmp { .. } => seq![],
            Inst::Br { .. } => seq![],
            Inst::Call { def, .. } => match def {
                Some(r) => seq![*r],
                None => seq![],
            },
            Inst::Tail { .. } => seq![],
            Inst::Ret => seq![],
        }
    }

    /// The registers the instruction reads.
    pub open spec fn spec_uses(&self) -> Seq<Reg> {
        match self {
            Inst::Bin { lhs, rhs, .. } => op_regs(*lhs) + op_regs(*rhs),
            Inst::Un { src, .. } => op_regs(*src),
            Inst::Li { src, .. } => op_regs(*src),
            Inst::Mem { op, reg, base, .. } => match op {
                MemOp::Ld | MemOp::Lw => seq![*base],
                MemOp::Sd | MemOp::Sw => seq![*reg, *base],
            },
            Inst::Lla { .. } => seq![],
            Inst::LocalAddr { .. } => seq![],
            Inst::Load { .. } => seq![],
            Inst::Store { src, .. } => seq![*src],
            Inst::Jmp { .. } => seq![],
            Inst::Br { lhs, rhs, .. } => seq![*lhs, *rhs],
            Inst::Call { arg_regs, .. } => arg_regs@,
            Inst::Tail { .. } => seq![],
            Inst::Ret => seq![],
        }
    }

    pub fn defs(&self) -> (r: Vec<Reg>)
        ensures
            r@ == self.spec_defs(),
    {
        let mut v: Vec<Reg> = Vec::new();
        match self {
            Inst::Bin { dst, .. } | Inst::Un { dst, .. } | Inst::Li { dst, .. } => {
                if let Operand::Reg(rg) = dst {
                    v.push(*rg);
                }
            },
            Inst::Mem { op, reg, .. } => {
                match op {
                    MemOp::Ld | MemOp::Lw => v.push(*reg),
                    MemOp::Sd | MemOp::Sw => (),
                }
            },
            Inst::Lla { dst, .. } => v.push(*dst),
            Inst::LocalAddr { dst, .. } => v.push(*dst),
            Inst::Load { dst, .. } => v.push(*dst),
            Inst::Call { def, .. } => {
                if let Some(rg) = def {
                    v.push(*rg);
                }
            },
            _ => (),
        }
        assert(v@ =~= self.spec_defs());
        v
    }

    pub fn uses(&self) -> (r: Vec<Reg>)
        ensures
            r@ == self.spec_uses(),
    {
        let mut v: Vec<Reg> = Vec::new();
        match self {
            Inst::Bin { lhs, rhs, .. } => {
                if let Operand::Reg(rg) = lhs {
                    v.push(*rg);
                }
                if let Operand::Reg(rg) = rhs {
                    v.push(*rg);
                }
            },
            Inst::Un { src, .. } | Inst::Li { src, .. } => {
                if let Operand::Reg(rg) = src {
                    v.push(*rg);
                }
            },
            Inst::Mem { op, reg, base, .. } => {
                match op {
                    MemOp::Ld | MemOp::Lw => v.push(*base),
                    MemOp::Sd | MemOp::Sw => {
                        v.push(*reg);
                        v.push(*base);
                    },
                }
            },
            Inst::Store { src, .. } => v.push(*src),
            Inst::Br { lhs, rhs, .. } => {
                v.push(*lhs);
                v.push(*rhs);
            },
            Inst::Call { arg_regs, .. } => {
                let mut i: usize = 0;
                while i < arg_regs.len()
                    invariant
                        i <= arg_regs.len(),
                        v@ == arg_regs@.subrange(0, i as int),
                    decreases arg_regs.len() - i,
                {
                    v.push(arg_regs[i]);
                    i = i + 1;
                }
                assert(v@ =~= arg_regs@);
            },
            _ => (),
        }
        assert(v@ =~= self.spec_uses());
        v
    }

    /// The stack slot the instruction touches, if any.
    pub open spec fn spec_stack_slot(&self) -> Option<StackSlot> {
        match self {
            Inst::LocalAddr { slot, .. } => Some(*slot),
            Inst::Load { slot, .. } => Some(*slot),
            Inst::Store { slot, .. } => Some(*slot),
            _ => None,
        }
    }

    #[verifier::when_used_as_spec(spec_stack_slot)]
    pub fn stack_slot(&self) -> (r: Option<StackSlot>)
        ensures
            r == self.spec_stack_slot(),
    {
        match self {
            Inst::LocalAddr { slot, .. } => Some(*slot),
            Inst::Load { slot, .. } => Some(*slot),
            Inst::Store { slot, .. } => Some(*slot),
            _ => None,
        }
    }

    /// This instruction with its stack slot replaced; only meaningful for
    /// the three stack-touching variants.
    pub fn with_slot(&self, new_slot: StackSlot) -> (r: Inst)
        requires
            self.spec_stack_slot() is Some,
        ensures
            r.spec_stack_slot() == Some(new_slot),
            match *self {
                Inst::LocalAddr { dst, .. } => r == (Inst::LocalAddr { dst, slot: new_slot }),
                Inst::Load { dst, .. } => r == (Inst::Load { dst, slot: new_slot }),
                Inst::Store { src, .. } => r == (Inst::Store { src, slot: new_slot }),
                _ => false,
            },
    {
        match self {
            Inst::LocalAddr { dst, .. } => Inst::LocalAddr { dst: *dst, slot: new_slot },
            Inst::Load { dst, .. } => Inst::Load { dst: *dst, slot: new_slot },
            Inst::Store { src, .. } => Inst::Store { src: *src, slot: new_slot },
            _ => Inst::Ret,
        }
    }

    /// The label this instruction jumps or branches to, if any.
    pub open spec fn spec_target(&self) -> Option<Seq<char>> {
        match self {
            Inst::Jmp { label } => Some(label@),
            Inst::Br { label, .. } => Some(label@),
            _ => None,
        }
    }

    /// Rewrites this instruction's jump or branch target from `from` to `to`;
    /// any other instruction, and any other target, is returned unchanged.
    pub fn with_replaced_label(&self, from: &String, to: &String) -> (r: Inst)
        ensures
            replaced_label(*self, r, from@, to@),
    {
        match self {
            Inst::Jmp { label } => {
                if *label == *from {
                    Inst::Jmp { label: to.clone() }
                } else {
                    Inst::Jmp { label: label.clone() }
                }
            },
            Inst::Br { op, lhs, rhs, label } => {
                if *label == *from {
                    Inst::Br { op: *op, lhs: *lhs, rhs: *rhs, label: to.clone() }
                } else {
                    Inst::Br { op: *op, lhs: *lhs, rhs: *rhs, label: label.clone() }
                }
            },
            other => other.clone_same(),
        }
    }

    /// An exact clone, stated field by field (a derived clone would be opaque
    /// to the verifier). A cloned call compares equal up to the view of its
    /// argument-register list.
    pub fn clone_same(&self) -> (r: Inst)
        ensures
            inst_same(r, *self),
    {
        match self {
            Inst::Bin { op, dst, lhs, rhs } => Inst::Bin {
                op: *op,
                dst: clone_operand(dst),
                lhs: clone_operand(lhs),
                rhs: clone_operand(rhs),
            },
            Inst::Un { op, dst, src } => Inst::Un {
                op: *op,
                dst: clone_operand(dst),
                src: clone_operand(src),
            },
            Inst::Li { dst, src } => Inst::Li { dst: clone_operand(dst), src: clone_operand(src) },
            Inst::Mem { op, reg, offset, base } => Inst::Mem {
                op: *op,
                reg: *reg,
                offset: *offset,
                base: *base,
            },
            Inst::Lla { dst, label } => Inst::Lla { dst: *dst, label: label.clone() },
            Inst::LocalAddr { dst, slot } => Inst::LocalAddr { dst: *dst, slot: *slot },
            Inst::Load { dst, slot } => Inst::Load { dst: *dst, slot: *slot },
            Inst::Store { src, slot } => Inst::Store { src: *src, slot: *slot },
            Inst::Jmp { label } => Inst::Jmp { label: label.clone() },
            Inst::Br { op, lhs, rhs, label } => Inst::Br {
                op: *op,
                lhs: *lhs,
                rhs: *rhs,
                label: label.clone(),
            },
            Inst::Call { name, arg_regs, def } => {
                let mut regs: Vec<Reg> = Vec::new();
                let mut i: usize = 0;
                while i < arg_regs.len()
                    invariant
                        i <= arg_regs.len(),
                        regs@ == arg_regs@.subrange(0, i as int),
                    decreases arg_regs.len() - i,
                {
                    regs.push(arg_regs[i]);
                    i = i + 1;
                }
                assert(regs@ =~= arg_regs@);
                Inst::Call { name: name.clone(), arg_regs: regs, def: *def }
            },
            Inst::Tail { name } => Inst::Tail { name: name.clone() },
            Inst::Ret => Inst::Ret,
        }
    }
}

/// Equality of instructions, with a call's argument-register list compared
/// by its view (two vectors with the same contents count as the same list).
pub open spec fn inst_same(a: Inst, b: Inst) -> bool {
    match (a, b) {
        (
            Inst::Call { name: n1, arg_regs: r1, def: d1 },
            Inst::Call { name: n2, arg_regs: r2, def: d2 },
        ) => n1 == n2 && r1@ == r2@ && d1 == d2,
        _ => a == b,
    }
}

/// Holds when `b` is `a` with its jump or branch target rewritten from
/// `from` to `to` (and `a` otherwise unchanged).
pub open spec fn replaced_label(a: Inst, b: Inst, from: Seq<char>, to: Seq<char>) -> bool {
    match a {
        Inst::Jmp { label } => {
            &&& b matches Inst::Jmp { label: l2 }
            &&& l2@ == if label@ == from {
                to
            } else {
                label@
            }
        },
        Inst::Br { op, lhs, rhs, label } => {
            &&& b matches Inst::Br { op: o2, lhs: x2, rhs: y2, label: l2 }
            &&& o2 == op
            &&& x2 == lhs
            &&& y2 == rhs
            &&& l2@ == if label@ == from {
                to
            } else {
                label@
            }
        },
        _ => inst_same(b, a),
    }
}

} // verus!
