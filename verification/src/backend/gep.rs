//! Address-computation lowering for array and pointer indexing: the first
//! index scales by the whole element shape, later constant indices add
//! compile-time offsets, later register indices scale by the sub-shape, and
//! the accumulated element offset is shifted left by two to reach bytes.

use vstd::prelude::*;

use crate::backend::builder::{no_load_spec, IRBuilder};
use crate::backend::inst::{BinOp, Inst};
use crate::backend::maps::RegMap;
use crate::backend::operand::{imm_fits, imm_in_limit, Operand};
use crate::backend::reg::{Reg, RegGenerator};
use crate::error::CompileError;
use crate::middle::mir::{Dims, MirOperand};

verus! {

/// Whether a register can index into the shape: it must be array-like, with
/// the step size representable as an immediate.
pub open spec fn dims_sub_ok(d: Dims) -> bool {
    match d {
        Dims::Array(inner, n) => !(n > 0 && inner.spec_size() > i64::MAX),
        Dims::Scalar => false,
    }
}

/// The element step a register index into the shape is scaled by: the
/// common sub-shape's size, or one for an empty array.
pub open spec fn dims_sub_size(d: Dims) -> int {
    match d {
        Dims::Array(inner, n) => if n > 0 {
            inner.spec_size() as int
        } else {
            1
        },
        Dims::Scalar => 1,
    }
}

/// Sum of the sizes of the first `k` sub-shapes: `k` copies of the common
/// sub-shape.
pub open spec fn sub_prefix_size(d: Dims, k: nat) -> nat {
    match d {
        Dims::Scalar => 0,
        Dims::Array(inner, n) => if k <= n {
            inner.spec_size() * k
        } else {
            inner.spec_size() * (n as nat)
        },
    }
}

impl IRBuilder {
    /// Materializes an immediate into a fresh integer register, for operand
    /// positions that only take registers.
    pub fn prepare_imm_lhs(imm: i64, reg_gener: &mut RegGenerator) -> (r: (Operand, Vec<Inst>))
        ensures
            r.0 == Operand::Reg(Reg { id: old(reg_gener).usual_next, usual: true }),
            r.1@ == seq![
                Inst::Li {
                    dst: Operand::Reg(Reg { id: old(reg_gener).usual_next, usual: true }),
                    src: Operand::Imm(imm),
                },
            ],
            final(reg_gener).float_next == old(reg_gener).float_next,
            final(reg_gener).usual_next == if old(reg_gener).usual_next < u64::MAX {
                (old(reg_gener).usual_next + 1) as u64
            } else {
                old(reg_gener).usual_next
            },
    {
        let dst: Reg = reg_gener.gen_virtual_usual_reg();
        let li: Inst = Inst::Li { dst: Operand::Reg(dst), src: Operand::Imm(imm) };
        let mut insts: Vec<Inst> = Vec::new();
        insts.push(li);
        (Operand::Reg(dst), insts)
    }

    /// A right-hand operand: an in-range immediate stays, a wide one is
    /// materialized, a register passes through.
    pub fn prepare_rhs_op(op: &Operand, reg_gener: &mut RegGenerator) -> (r: Result<
        (Operand, Vec<Inst>),
        CompileError,
    >)
        ensures
            match *op {
                Operand::Imm(v) => if imm_fits(v as int, 12) {
                    (r matches Ok((o, insts)) && o == Operand::Imm(v) && insts@ == Seq::<
                        Inst,
                    >::empty()) && *final(reg_gener) == *old(reg_gener)
                } else {
                    r matches Ok((o, insts)) && o == Operand::Reg(
                        Reg { id: old(reg_gener).usual_next, usual: true },
                    ) && insts@ == seq![
                        Inst::Li {
                            dst: Operand::Reg(Reg { id: old(reg_gener).usual_next, usual: true }),
                            src: Operand::Imm(v),
                        },
                    ]
                },
                Operand::Reg(rg) => (r matches Ok((o, insts)) && o == Operand::Reg(rg) && insts@
                    == Seq::<Inst>::empty()) && *final(reg_gener) == *old(reg_gener),
                _ => r == Err::<(Operand, Vec<Inst>), CompileError>(CompileError::UnsupportedIR)
                    && *final(reg_gener) == *old(reg_gener),
            },
    {
        match op {
            Operand::Imm(v) => {
                if imm_in_limit(*v, 12) {
                    Ok((Operand::Imm(*v), Vec::new()))
                } else {
                    Ok(Self::prepare_imm_lhs(*v, reg_gener))
                }
            },
            Operand::Reg(rg) => Ok((Operand::Reg(*rg), Vec::new())),
            _ => Err(CompileError::UnsupportedIR),
        }
    }

    /// A left-hand operand: always a register; immediates are materialized.
    pub fn prepare_lhs_reg(op: &Operand, reg_gener: &mut RegGenerator) -> (r: Result<
        (Operand, Vec<Inst>),
        CompileError,
    >)
        ensures
            match *op {
                Operand::Imm(v) => r matches Ok((o, insts)) && o == Operand::Reg(
                    Reg { id: old(reg_gener).usual_next, usual: true },
                ) && insts@ == seq![
                    Inst::Li {
                        dst: Operand::Reg(Reg { id: old(reg_gener).usual_next, usual: true }),
                        src: Operand::Imm(v),
                    },
                ],
                Operand::Reg(rg) => (r matches Ok((o, insts)) && o == Operand::Reg(rg) && insts@
                    == Seq::<Inst>::empty()) && *final(reg_gener) == *old(reg_gener),
                _ => r == Err::<(Operand, Vec<Inst>), CompileError>(CompileError::UnsupportedIR)
                    && *final(reg_gener) == *old(reg_gener),
            },
    {
        match op {
            Operand::Imm(v) => Ok(Self::prepare_imm_lhs(*v, reg_gener)),
            Operand::Reg(rg) => Ok((Operand::Reg(*rg), Vec::new())),
            _ => Err(CompileError::UnsupportedIR),
        }
    }

    /// The first index steps through a whole element shape: a zero constant
    /// contributes nothing; otherwise the index is multiplied by the shape's
    /// total leaf count.
    pub fn process_first_idx(
        idx: &MirOperand,
        dims: &Dims,
        reg_gener: &mut RegGenerator,
        regs: &RegMap,
    ) -> (r: Result<(Option<Reg>, Vec<Inst>), CompileError>)
        ensures
            r matches Ok((o, insts)) ==> forall|k: int|
                0 <= k < insts@.len() ==> !(#[trigger] insts@[k]).spec_is_term(),
            ({
                let pre = no_load_spec(*idx, regs.view_map());
                let c0 = old(reg_gener).usual_next;
                match pre {
                    Err(e) => r == Err::<(Option<Reg>, Vec<Inst>), CompileError>(e) && *final(reg_gener) == *old(reg_gener),
                    Ok(Operand::Imm(v)) => if v == 0 {
                        (r matches Ok((o, insts)) && o is None && insts@ == Seq::<Inst>::empty())
                            && *final(reg_gener) == *old(reg_gener)
                    } else if dims.spec_size() > i64::MAX {
                        r == Err::<(Option<Reg>, Vec<Inst>), CompileError>(CompileError::Range)
                    } else {
                        r is Ok && (c0 + 2 <= u64::MAX ==> (r matches Ok((o, insts)) && o == Some(
                            Reg { id: (c0 + 2) as u64, usual: true },
                        ) && insts@ == seq![
                            Inst::Li {
                                dst: Operand::Reg(Reg { id: c0, usual: true }),
                                src: Operand::Imm(dims.spec_size() as i64),
                            },
                            Inst::Li {
                                dst: Operand::Reg(Reg { id: (c0 + 1) as u64, usual: true }),
                                src: Operand::Imm(v),
                            },
                            Inst::Bin {
                                op: BinOp::Mul,
                                dst: Operand::Reg(Reg { id: (c0 + 2) as u64, usual: true }),
                                lhs: Operand::Reg(Reg { id: (c0 + 1) as u64, usual: true }),
                                rhs: Operand::Reg(Reg { id: c0, usual: true }),
                            },
                        ])) && (c0 + 3 <= u64::MAX ==> final(reg_gener).usual_next as int == c0
                            + 3 && final(reg_gener).float_next == old(reg_gener).float_next)
                    },
                    Ok(Operand::Reg(ix)) => if dims.spec_size() > i64::MAX {
                        r == Err::<(Option<Reg>, Vec<Inst>), CompileError>(CompileError::Range)
                    } else {
                        r is Ok && (c0 + 1 <= u64::MAX ==> (r matches Ok((o, insts)) && o == Some(
                            Reg { id: (c0 + 1) as u64, usual: true },
                        ) && insts@ == seq![
                            Inst::Li {
                                dst: Operand::Reg(Reg { id: c0, usual: true }),
                                src: Operand::Imm(dims.spec_size() as i64),
                            },
                            Inst::Bin {
                                op: BinOp::Mul,
                                dst: Operand::Reg(Reg { id: (c0 + 1) as u64, usual: true }),
                                lhs: Operand::Reg(ix),
                                rhs: Operand::Reg(Reg { id: c0, usual: true }),
                            },
                        ])) && (c0 + 2 <= u64::MAX ==> final(reg_gener).usual_next as int == c0
                            + 2 && final(reg_gener).float_next == old(reg_gener).float_next)
                    },
                    Ok(_) => r == Err::<(Option<Reg>, Vec<Inst>), CompileError>(
                        CompileError::UnsupportedIR,
                    ),
                }
            }),
    {
        let idx: Operand = match Self::no_load_from(idx, regs) {
            Ok(v) => v,
            Err(e) => {
                return Err(e);
            },
        };
        match idx {
            Operand::Imm(v) => {
                if v == 0 {
                    return Ok((None, Vec::new()));
                }
                let factor: i64 = match dims.size_checked() {
                    Some(f) => f,
                    None => {
                        return Err(CompileError::Range);
                    },
                };
                let (factor_op, mut insts): (Operand, Vec<Inst>) = Self::prepare_imm_lhs(
                    factor,
                    reg_gener,
                );
                let idx_reg: Reg = reg_gener.gen_virtual_usual_reg();
                insts.push(Inst::Li { dst: Operand::Reg(idx_reg), src: Operand::Imm(v) });
                let to_add: Reg = reg_gener.gen_virtual_usual_reg();
                insts.push(
                    Inst::Bin {
                        op: BinOp::Mul,
                        dst: Operand::Reg(to_add),
                        lhs: Operand::Reg(idx_reg),
                        rhs: factor_op,
                    },
                );
                Ok((Some(to_add), insts))
            },
            Operand::Reg(ix) => {
                let factor: i64 = match dims.size_checked() {
                    Some(f) => f,
                    None => {
                        return Err(CompileError::Range);
                    },
                };
                let (factor_op, mut insts): (Operand, Vec<Inst>) = Self::prepare_imm_lhs(
                    factor,
                    reg_gener,
                );
                let to_add: Reg = reg_gener.gen_virtual_usual_reg();
                insts.push(
                    Inst::Bin {
                        op: BinOp::Mul,
                        dst: Operand::Reg(to_add),
                        lhs: Operand::Reg(ix),
                        rhs: factor_op,
                    },
                );
                Ok((Some(to_add), insts))
            },
            _ => Err(CompileError::UnsupportedIR),
        }
    }

    /// A later index: a constant `k` adds the sizes of the first `k`
    /// sub-shapes at compile time and descends into sub-shape `k`; a
    /// register index is scaled by the common sub-shape's size and descends
    /// into the first sub-shape. A register index into a non-array shape is
    /// refused.
    pub fn process_sub_idx(
        idx: &MirOperand,
        dims: &Dims,
        reg_gener: &mut RegGenerator,
        regs: &RegMap,
    ) -> (r: Result<(Operand, Option<Dims>, Vec<Inst>), CompileError>)
        ensures
            r matches Ok((o, nd, insts)) ==> (o is Imm || o is Reg) && forall|k: int|
                0 <= k < insts@.len() ==> !(#[trigger] insts@[k]).spec_is_term(),
            ({
                let pre = no_load_spec(*idx, regs.view_map());
                let c0 = old(reg_gener).usual_next;
                match pre {
                    Err(e) => r == Err::<(Operand, Option<Dims>, Vec<Inst>), CompileError>(e)
                        && *final(reg_gener) == *old(reg_gener),
                    Ok(Operand::Imm(v)) => if v < 0 || sub_prefix_size(*dims, v as nat)
                        > i64::MAX {
                        r is Err
                    } else {
                        r matches Ok((o, nd, insts)) && o == Operand::Imm(
                            sub_prefix_size(*dims, v as nat) as i64,
                        ) && insts@ == Seq::<Inst>::empty() && nd == (match *dims {
                            Dims::Array(inner, n) => if v < n {
                                Some(*inner)
                            } else {
                                None::<Dims>
                            },
                            Dims::Scalar => None::<Dims>,
                        }) && *final(reg_gener) == *old(reg_gener)
                    },
                    Ok(Operand::Reg(ix)) => match *dims {
                        Dims::Array(inner, n) => if (n > 0 && inner.spec_size() > i64::MAX) {
                            r is Err
                        } else {
                            r is Ok && (c0 + 1 <= u64::MAX ==> (r matches Ok((o, nd, insts)) && o
                                == Operand::Reg(
                                Reg { id: (c0 + 1) as u64, usual: true },
                            ) && insts@ == seq![
                                Inst::Li {
                                    dst: Operand::Reg(Reg { id: c0, usual: true }),
                                    src: Operand::Imm(
                                        if n > 0 {
                                            inner.spec_size() as i64
                                        } else {
                                            1
                                        },
                                    ),
                                },
                                Inst::Bin {
                                    op: BinOp::Mul,
                                    dst: Operand::Reg(Reg { id: (c0 + 1) as u64, usual: true }),
                                    lhs: Operand::Reg(ix),
                                    rhs: Operand::Reg(Reg { id: c0, usual: true }),
                                },
                            ] && nd == (if n > 0 {
                                Some(*inner)
                            } else {
                                None::<Dims>
                            }))) && (c0 + 2 <= u64::MAX ==> final(reg_gener).usual_next as int
                                == c0 + 2 && final(reg_gener).float_next == old(
                                reg_gener,
                            ).float_next)
                        },
                        Dims::Scalar => r == Err::<
                            (Operand, Option<Dims>, Vec<Inst>),
                            CompileError,
                        >(CompileError::UnsupportedIR),
                    },
                    Ok(_) => r is Err,
                }
            }),
    {
        let idx: Operand = match Self::no_load_from(idx, regs) {
            Ok(v) => v,
            Err(e) => {
                return Err(e);
            },
        };
        match idx {
            Operand::Imm(v) => {
                if v < 0 {
                    return Err(CompileError::Range);
                }
                match dims {
                    Dims::Scalar => Ok((Operand::Imm(0), None, Vec::new())),
                    Dims::Array(inner, n) => {
                        let steps: u64 = if (v as u64) <= (*n as u64) {
                            v as u64
                        } else {
                            *n as u64
                        };
                        let inner_size: i64 = match inner.size_checked() {
                            Some(f) => f,
                            None => {
                                if steps == 0 {
                                    proof {
                                        vstd::arithmetic::mul::lemma_mul_basics(
                                            inner.spec_size() as int,
                                        );
                                    }
                                    let nd: Option<Dims> = if (v as u64) < (*n as u64) {
                                        Some(crate::middle::mir::clone_dims(inner))
                                    } else {
                                        None
                                    };
                                    return Ok((Operand::Imm(0), nd, Vec::new()));
                                }
                                proof {
                                    lemma_mul_ge_left(inner.spec_size() as int, steps as int);
                                }
                                return Err(CompileError::Range);
                            },
                        };
                        if inner_size != 0 && steps > (i64::MAX / inner_size) as u64 {
                            proof {
                                lemma_mul_div_bound(
                                    inner.spec_size() as int,
                                    steps as int,
                                    i64::MAX as int,
                                );
                            }
                            return Err(CompileError::Range);
                        }
                        let factor: i64 = if inner_size == 0 {
                            0
                        } else {
                            proof {
                                lemma_mul_le_max(
                                    inner.spec_size() as int,
                                    steps as int,
                                    i64::MAX as int,
                                );
                            }
                            inner_size * (steps as i64)
                        };
                        proof {
                            if inner_size == 0 {
                                vstd::arithmetic::mul::lemma_mul_basics(steps as int);
                            }
                        }
                        let nd: Option<Dims> = if (v as u64) < (*n as u64) {
                            Some(crate::middle::mir::clone_dims(inner))
                        } else {
                            None
                        };
                        Ok((Operand::Imm(factor), nd, Vec::new()))
                    },
                }
            },
            Operand::Reg(ix) => {
                match dims {
                    Dims::Scalar => Err(CompileError::UnsupportedIR),
                    Dims::Array(inner, n) => {
                        let factor: i64 = if *n == 0 {
                            1
                        } else {
                            match inner.size_checked() {
                                Some(f) => f,
                                None => {
                                    return Err(CompileError::Range);
                                },
                            }
                        };
                        let (factor_op, mut insts): (Operand, Vec<Inst>) = Self::prepare_imm_lhs(
                            factor,
                            reg_gener,
                        );
                        let to_add: Reg = reg_gener.gen_virtual_usual_reg();
                        insts.push(
                            Inst::Bin {
                                op: BinOp::Mul,
                                dst: Operand::Reg(to_add),
                                lhs: Operand::Reg(ix),
                                rhs: factor_op,
                            },
                        );
                        let nd: Option<Dims> = if *n > 0 {
                            Some(crate::middle::mir::clone_dims(inner))
                        } else {
                            None
                        };
                        Ok((Operand::Reg(to_add), nd, insts))
                    },
                }
            },
            _ => Err(CompileError::UnsupportedIR),
        }
    }
}

proof fn lemma_mul_ge_left(a: int, k: int)
    requires
        a >= 0,
        k >= 1,
    ensures
        a * k >= a,
{
    vstd::arithmetic::mul::lemma_mul_inequality(1, k, a);
    vstd::arithmetic::mul::lemma_mul_is_commutative(a, k);
}

proof fn lemma_mul_div_bound(a: int, k: int, m: int)
    requires
        a >= 1,
        m >= 1,
        k > m / a,
    ensures
        a * k > m,
{
    vstd::arithmetic::div_mod::lemma_fundamental_div_mod(m, a);
    vstd::arithmetic::div_mod::lemma_mod_bound(m, a);
    vstd::arithmetic::mul::lemma_mul_inequality(m / a + 1, k, a);
    assert((m / a + 1) * a == (m / a) * a + a) by (nonlinear_arith);
    vstd::arithmetic::mul::lemma_mul_is_commutative(a, m / a);
    vstd::arithmetic::mul::lemma_mul_is_commutative(a, k);
}

proof fn lemma_mul_le_max(a: int, k: int, m: int)
    requires
        a >= 1,
        m >= 1,
        k >= 0,
        k <= m / a,
    ensures
        a * k <= m,
{
    vstd::arithmetic::div_mod::lemma_fundamental_div_mod(m, a);
    vstd::arithmetic::div_mod::lemma_mod_bound(m, a);
    vstd::arithmetic::mul::lemma_mul_inequality(k, m / a, a);
    vstd::arithmetic::mul::lemma_mul_is_commutative(a, m / a);
    vstd::arithmetic::mul::lemma_mul_is_commutative(a, k);
}

} // verus!
