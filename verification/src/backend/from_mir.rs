//! The per-function build: parameter materialization per the ABI, the
//! instruction dispatch that walks a mid-level block, terminator lowering,
//! and PHI elimination via predecessor copies.

use vstd::prelude::*;

use crate::backend::block::Block;
use crate::backend::builder::IRBuilder;
use crate::backend::func::{jmp_to, Func};
use crate::backend::inst::{BinOp, BrOp, Inst, MemOp, UnOp};
use crate::backend::maps::{FmmMap, RegMap, SlotMap, ValueKey};
use crate::backend::operand::Operand;
use crate::backend::reg::{Reg, RegGenerator};
use crate::backend::stack::StackAllocator;
use crate::backend::tight_term::tight;
use crate::error::CompileError;
use crate::middle::mir::{
    clone_dims, CmpPred, Constant, Dims, MirBinOp, MirBlock, MirFunc, MirInst, MirInstKind,
    MirOperand, MirProgram, ValueType,
};

verus! {

/// A recorded PHI incoming, resolved after every block is built: in the
/// named predecessor, move this source into the PHI's fresh register.
pub enum PhiSrc {
    Imm(i64),
    Fmm(u64),
    Value(ValueKey),
}

/// A pending predecessor copy for PHI elimination.
pub struct PhiBack {
    pub pred_label: String,
    pub src: PhiSrc,
    pub dst: Reg,
}

/// The recorded source for a PHI incoming operand, where one can be
/// recorded: constants by value, bound values by key; globals and array
/// constants are refused.
pub open spec fn phi_src_for(op: MirOperand) -> Option<PhiSrc> {
    match op {
        MirOperand::Constant(c) => match crate::backend::builder::const_op(c) {
            Some(Operand::Imm(v)) => Some(PhiSrc::Imm(v)),
            Some(Operand::Fmm(b)) => Some(PhiSrc::Fmm(b)),
            _ => None,
        },
        MirOperand::Parameter(p) => Some(PhiSrc::Value(ValueKey::Param(p))),
        MirOperand::Instruction(i) => Some(PhiSrc::Value(ValueKey::Inst(i))),
        MirOperand::Global(_) => None,
    }
}

/// A recorded PHI incoming carries the incoming's predecessor label and its
/// source.
pub open spec fn pb_matches(pb: PhiBack, incoming: (MirOperand, String)) -> bool {
    pb.pred_label@ == incoming.1@ && Some(pb.src) == phi_src_for(incoming.0)
}

/// The copy that resolves a recorded incoming: a load-immediate of the
/// constant, a move out of the float register holding the pooled literal,
/// or a move out of the bound register.
pub open spec fn pb_copy_like(inst: Inst, src: PhiSrc) -> bool {
    match src {
        PhiSrc::Imm(v) => inst matches Inst::Li { dst, src: s } && dst is Reg && s == Operand::Imm(
            v,
        ),
        PhiSrc::Fmm(_) => inst matches Inst::Un { op, dst, src: s } && op == UnOp::Mv && dst is Reg
            && (s matches Operand::Reg(rg) && !rg.usual),
        PhiSrc::Value(_) => inst matches Inst::Un { op, dst, src: s } && op == UnOp::Mv
            && dst is Reg && s is Reg,
    }
}

/// The copy that resolves a PHI incoming, phrased on the mid-level operand.
pub open spec fn phi_copy_like(inst: Inst, op: MirOperand) -> bool {
    match phi_src_for(op) {
        Some(s) => pb_copy_like(inst, s),
        None => false,
    }
}

/// Some block of the list carries the predecessor's label and holds the
/// copy. As every block stays tight, the copy stands before the block's
/// trailing terminators.
pub open spec fn blocks_contain_copy(bbs: Seq<Block>, pb: PhiBack) -> bool {
    exists|p: int, q: int|
        #![trigger bbs[p].insts@[q]]
        0 <= p < bbs.len() && bbs[p].label@ == pb.pred_label@ && 0 <= q < bbs[p].insts@.len()
            && pb_copy_like(bbs[p].insts@[q], pb.src)
}

/// Whether `(j, k)` names the `k`th incoming of a PHI at position `j` of
/// the block.
pub open spec fn blk_phi_incoming_at(b: MirBlock, arena: Seq<MirInst>, j: int, k: int) -> bool {
    &&& 0 <= j < b.insts@.len()
    &&& b.insts@[j] < arena.len()
    &&& (arena[b.insts@[j] as int].kind matches MirInstKind::Phi { incomings, .. } && 0 <= k
        < incomings@.len())
}

/// That incoming: the source operand and the predecessor label.
pub open spec fn blk_phi_incoming(b: MirBlock, arena: Seq<MirInst>, j: int, k: int) -> (
    MirOperand,
    String,
) {
    arena[b.insts@[j] as int].kind->Phi_incomings@[k]
}

/// Whether `(b, j, k)` names the `k`th incoming of a PHI at position `j` of
/// block `b` of the function.
pub open spec fn phi_incoming_at(f: MirFunc, arena: Seq<MirInst>, b: int, j: int, k: int) -> bool {
    &&& 0 <= b < f.blocks@.len()
    &&& blk_phi_incoming_at(f.blocks@[b], arena, j, k)
}

/// That incoming of the function.
pub open spec fn phi_incoming(f: MirFunc, arena: Seq<MirInst>, b: int, j: int, k: int) -> (
    MirOperand,
    String,
) {
    blk_phi_incoming(f.blocks@[b], arena, j, k)
}

/// Every incoming of every PHI of `f` has its resolving copy standing in a
/// block of `built` that carries the predecessor's label, before that
/// block's terminators.
pub open spec fn phis_resolved(f: MirFunc, arena: Seq<MirInst>, built: Func) -> bool {
    forall|b: int, j: int, k: int|
        #[trigger] phi_incoming_at(f, arena, b, j, k) ==> exists|p: int, q: int|
            #![trigger built.bbs()[p].insts@[q]]
            0 <= p < built.bbs().len() && built.bbs()[p].label@ == phi_incoming(
                f,
                arena,
                b,
                j,
                k,
            ).1@ && 0 <= q < built.bbs()[p].insts@.len() && phi_copy_like(
                built.bbs()[p].insts@[q],
                phi_incoming(f, arena, b, j, k).0,
            )
}

/// Inserting one instruction into one block of the list keeps every placed
/// copy placed.
proof fn lemma_contain_copy_one_insert(
    bbs0: Seq<Block>,
    bbs1: Seq<Block>,
    t: int,
    pos: int,
    c: Inst,
    pb: PhiBack,
)
    requires
        blocks_contain_copy(bbs0, pb),
        bbs0.len() == bbs1.len(),
        0 <= t < bbs0.len(),
        forall|p: int| 0 <= p < bbs0.len() && p != t ==> #[trigger] bbs1[p] == bbs0[p],
        bbs1[t].label@ == bbs0[t].label@,
        0 <= pos <= bbs0[t].insts@.len(),
        bbs1[t].insts@ == bbs0[t].insts@.insert(pos, c),
    ensures
        blocks_contain_copy(bbs1, pb),
{
    let (p, q): (int, int) = choose|p: int, q: int|
        #![trigger bbs0[p].insts@[q]]
        0 <= p < bbs0.len() && bbs0[p].label@ == pb.pred_label@ && 0 <= q < bbs0[p].insts@.len()
            && pb_copy_like(bbs0[p].insts@[q], pb.src);
    if p != t {
        assert(bbs1[p].insts@[q] == bbs0[p].insts@[q]);
    } else if q < pos {
        assert(bbs1[t].insts@[q] == bbs0[t].insts@[q]);
    } else {
        assert(bbs1[t].insts@[q + 1] == bbs0[t].insts@[q]);
    }
}

/// How many of the first `i` parameters are integer-class.
pub open spec fn int_cnt(ps: Seq<crate::middle::mir::MirParam>, i: int) -> nat
    decreases i,
{
    if i <= 0 {
        0
    } else {
        int_cnt(ps, i - 1) + if ps[i - 1].ty is Int || ps[i - 1].ty is Bool || ps[i
            - 1].ty is Pointer {
            1nat
        } else {
            0nat
        }
    }
}

/// How many of the first `i` parameters are float-class.
pub open spec fn float_cnt(ps: Seq<crate::middle::mir::MirParam>, i: int) -> nat
    decreases i,
{
    if i <= 0 {
        0
    } else {
        float_cnt(ps, i - 1) + if ps[i - 1].ty is Float {
            1nat
        } else {
            0nat
        }
    }
}

/// How many of the first `i` parameters overflow their register class (are
/// the ninth or later of it) and live in the caller's frame instead.
pub open spec fn ovf_cnt(ps: Seq<crate::middle::mir::MirParam>, i: int) -> nat
    decreases i,
{
    if i <= 0 {
        0
    } else {
        ovf_cnt(ps, i - 1) + if ((ps[i - 1].ty is Int || ps[i - 1].ty is Bool || ps[i
            - 1].ty is Pointer) && int_cnt(ps, i - 1) >= 8) || (ps[i - 1].ty is Float && float_cnt(
            ps,
            i - 1,
        ) >= 8) {
            1nat
        } else {
            0nat
        }
    }
}

/// The fresh virtual register parameter `i` is bound to, with counters
/// starting at `u0` / `f0`.
pub open spec fn param_vreg(ps: Seq<crate::middle::mir::MirParam>, u0: int, f0: int, i: int) -> Reg {
    if ps[i].ty is Float {
        Reg { id: (f0 + float_cnt(ps, i)) as u64, usual: false }
    } else {
        Reg { id: (u0 + int_cnt(ps, i)) as u64, usual: true }
    }
}

/// The instruction that materializes parameter `i`: a move from its argument
/// register, or a load from the caller's frame for an overflow parameter.
pub open spec fn param_inst_ok(
    ps: Seq<crate::middle::mir::MirParam>,
    u0: int,
    f0: int,
    i: int,
    inst: Inst,
) -> bool {
    let v = param_vreg(ps, u0, f0, i);
    if ps[i].ty is Int || ps[i].ty is Bool || ps[i].ty is Pointer {
        if int_cnt(ps, i) < 8 {
            inst == (Inst::Un {
                op: UnOp::Mv,
                dst: Operand::Reg(v),
                src: Operand::Reg(Reg::spec_a(int_cnt(ps, i))),
            })
        } else {
            inst == (Inst::Mem {
                op: MemOp::Ld,
                reg: v,
                offset: (8 * ovf_cnt(ps, i)) as i64,
                base: Reg { id: 8, usual: true },
            })
        }
    } else if ps[i].ty is Float {
        if float_cnt(ps, i) < 8 {
            inst == (Inst::Un {
                op: UnOp::Mv,
                dst: Operand::Reg(v),
                src: Operand::Reg(Reg::spec_fa(float_cnt(ps, i))),
            })
        } else {
            inst == (Inst::Mem {
                op: MemOp::Ld,
                reg: v,
                offset: (8 * ovf_cnt(ps, i)) as i64,
                base: Reg { id: 8, usual: true },
            })
        }
    } else {
        false
    }
}

/// The register map after binding the first `i` parameters.
pub open spec fn params_map(
    m0: Map<ValueKey, Reg>,
    ps: Seq<crate::middle::mir::MirParam>,
    u0: int,
    f0: int,
    i: int,
) -> Map<ValueKey, Reg>
    decreases i,
{
    if i <= 0 {
        m0
    } else {
        params_map(m0, ps, u0, f0, i - 1).insert(
            ValueKey::Param((i - 1) as usize),
            param_vreg(ps, u0, f0, i - 1),
        )
    }
}

/// What `params_map` holds: the first `i` parameters bound to their fresh
/// registers, everything else as before.
pub proof fn lemma_params_map_get(
    m0: Map<ValueKey, Reg>,
    ps: Seq<crate::middle::mir::MirParam>,
    u0: int,
    f0: int,
    i: int,
    k: ValueKey,
)
    requires
        0 <= i <= usize::MAX,
    ensures
        (k matches ValueKey::Param(p) && p < i) ==> params_map(m0, ps, u0, f0, i).contains_key(k)
            && params_map(m0, ps, u0, f0, i)[k] == param_vreg(ps, u0, f0, k->Param_0 as int),
        !(k matches ValueKey::Param(p) && p < i) ==> (params_map(m0, ps, u0, f0, i).contains_key(k)
            == m0.contains_key(k)) && (m0.contains_key(k) ==> params_map(m0, ps, u0, f0, i)[k]
            == m0[k]),
    decreases i,
{
    if i > 0 {
        lemma_params_map_get(m0, ps, u0, f0, i - 1, k);
        let prev = params_map(m0, ps, u0, f0, i - 1);
        let cur = params_map(m0, ps, u0, f0, i);
        assert(cur == prev.insert(
            ValueKey::Param((i - 1) as usize),
            param_vreg(ps, u0, f0, i - 1),
        ));
        match k {
            ValueKey::Param(p) => {
                if p == i - 1 {
                    assert(cur.contains_key(k));
                    assert(cur[k] == param_vreg(ps, u0, f0, i - 1));
                } else {
                    assert(k != ValueKey::Param((i - 1) as usize));
                    assert(cur.contains_key(k) == prev.contains_key(k));
                }
            },
            ValueKey::Inst(_) => {
                assert(k != ValueKey::Param((i - 1) as usize));
            },
        }
    }
}

proof fn lemma_cnts_le(ps: Seq<crate::middle::mir::MirParam>, i: int)
    requires
        0 <= i <= ps.len(),
    ensures
        int_cnt(ps, i) <= i,
        float_cnt(ps, i) <= i,
        ovf_cnt(ps, i) <= i,
    decreases i,
{
    if i > 0 {
        lemma_cnts_le(ps, i - 1);
    }
}

impl IRBuilder {
    /// Materializes the formal parameters: one instruction per parameter.
    /// The first eight of each class move out of A0..A7 / FA0..FA7 into
    /// fresh virtual registers; overflow parameters load from the caller's
    /// frame at S0+0 upward, eight bytes per parameter. The returned byte
    /// count is the function's `caller_regs_stack`: eight bytes per overflow
    /// parameter.
    #[verifier::rlimit(100)]
    pub fn build_params(
        params: &Vec<crate::middle::mir::MirParam>,
        reg_gener: &mut RegGenerator,
        regs: &mut RegMap,
    ) -> (r: Result<(Vec<Inst>, u64), CompileError>)
        requires
            old(reg_gener).usual_next + params@.len() <= u64::MAX,
            old(reg_gener).float_next + params@.len() <= u64::MAX,
            8 * params@.len() <= i64::MAX,
        ensures
            r is Err ==> r == Err::<(Vec<Inst>, u64), CompileError>(CompileError::UnsupportedIR)
                && (exists|i: int|
                0 <= i < params@.len() && !((#[trigger] params@[i]).ty is Int || params@[
                    i
                ].ty is Bool || params@[i].ty is Pointer || params@[i].ty is Float)),
            r matches Ok((insts, crs)) ==> ({
                let ps = params@;
                let u0 = old(reg_gener).usual_next as int;
                let f0 = old(reg_gener).float_next as int;
                &&& insts@.len() == ps.len()
                &&& forall|i: int| 0 <= i < ps.len() ==> param_inst_ok(ps, u0, f0, i, #[trigger] insts@[i])
                &&& crs == 8 * ovf_cnt(ps, ps.len() as int)
                &&& final(reg_gener).usual_next == u0 + int_cnt(ps, ps.len() as int)
                &&& final(reg_gener).float_next == f0 + float_cnt(ps, ps.len() as int)
                &&& final(regs).view_map() == params_map(
                    old(regs).view_map(),
                    ps,
                    u0,
                    f0,
                    ps.len() as int,
                )
                &&& forall|k: int| 0 <= k < insts@.len() ==> !(#[trigger] insts@[k]).spec_is_term()
            }),
    {
        let ghost ps = params@;
        let ghost u0 = old(reg_gener).usual_next as int;
        let ghost f0 = old(reg_gener).float_next as int;
        let mut insts: Vec<Inst> = Vec::new();
        let mut usual_idx: u64 = 0;
        let mut float_idx: u64 = 0;
        let mut caller_regs_stack: u64 = 0;
        let mut i: usize = 0;
        while i < params.len()
            invariant
                ps == params@,
                u0 == old(reg_gener).usual_next as int,
                f0 == old(reg_gener).float_next as int,
                u0 + ps.len() <= u64::MAX,
                f0 + ps.len() <= u64::MAX,
                8 * ps.len() <= i64::MAX,
                i <= ps.len(),
                usual_idx == int_cnt(ps, i as int),
                float_idx == float_cnt(ps, i as int),
                caller_regs_stack == 8 * ovf_cnt(ps, i as int),
                reg_gener.usual_next == u0 + int_cnt(ps, i as int),
                reg_gener.float_next == f0 + float_cnt(ps, i as int),
                insts@.len() == i,
                forall|k: int| 0 <= k < i ==> param_inst_ok(ps, u0, f0, k, #[trigger] insts@[k]),
                forall|k: int| 0 <= k < insts@.len() ==> !(#[trigger] insts@[k]).spec_is_term(),
                regs.view_map() == params_map(old(regs).view_map(), ps, u0, f0, i as int),
            decreases ps.len() - i,
        {
            proof {
                lemma_cnts_le(ps, i as int);
                lemma_cnts_le(ps, i as int + 1);
            }
            let is_usual: bool = params[i].ty.is_int_class();
            let is_float: bool = params[i].ty.is_float();
            if !is_usual && !is_float {
                return Err(CompileError::UnsupportedIR);
            }
            let v_reg: Reg = reg_gener.gen_virtual_reg(is_usual);
            regs.insert(ValueKey::Param(i), v_reg);
            if is_usual && usual_idx < 8 {
                let a_reg: Reg = Reg::a(usual_idx);
                insts.push(
                    Inst::Un { op: UnOp::Mv, dst: Operand::Reg(v_reg), src: Operand::Reg(a_reg) },
                );
                proof {
                    assert(int_cnt(ps, i as int + 1) == int_cnt(ps, i as int) + 1);
                    assert(float_cnt(ps, i as int + 1) == float_cnt(ps, i as int));
                    assert(ovf_cnt(ps, i as int + 1) == ovf_cnt(ps, i as int));
                    assert(param_vreg(ps, u0, f0, i as int) == v_reg);
                    assert(param_inst_ok(ps, u0, f0, i as int, insts@.last()));
                }
                usual_idx = usual_idx + 1;
            } else if is_float && float_idx < 8 {
                let a_reg: Reg = Reg::fa(float_idx);
                insts.push(
                    Inst::Un { op: UnOp::Mv, dst: Operand::Reg(v_reg), src: Operand::Reg(a_reg) },
                );
                proof {
                    assert(float_cnt(ps, i as int + 1) == float_cnt(ps, i as int) + 1);
                    assert(int_cnt(ps, i as int + 1) == int_cnt(ps, i as int));
                    assert(ovf_cnt(ps, i as int + 1) == ovf_cnt(ps, i as int));
                    assert(param_vreg(ps, u0, f0, i as int) == v_reg);
                    assert(param_inst_ok(ps, u0, f0, i as int, insts@.last()));
                }
                float_idx = float_idx + 1;
            } else {
                proof {
                    assert(ovf_cnt(ps, i as int) < ps.len());
                    assert(8 * ovf_cnt(ps, i as int + 1) <= 8 * ps.len()) by (nonlinear_arith)
                        requires
                            ovf_cnt(ps, i as int + 1) <= ps.len(),
                    ;
                }
                insts.push(
                    Inst::Mem {
                        op: MemOp::Ld,
                        reg: v_reg,
                        offset: caller_regs_stack as i64,
                        base: Reg::s0(),
                    },
                );
                proof {
                    assert(ovf_cnt(ps, i as int + 1) == ovf_cnt(ps, i as int) + 1);
                    if is_usual {
                        assert(int_cnt(ps, i as int + 1) == int_cnt(ps, i as int) + 1);
                        assert(float_cnt(ps, i as int + 1) == float_cnt(ps, i as int));
                    } else {
                        assert(float_cnt(ps, i as int + 1) == float_cnt(ps, i as int) + 1);
                        assert(int_cnt(ps, i as int + 1) == int_cnt(ps, i as int));
                    }
                    assert(param_vreg(ps, u0, f0, i as int) == v_reg);
                    assert(param_inst_ok(ps, u0, f0, i as int, insts@.last()));
                }
                if is_usual {
                    usual_idx = usual_idx + 1;
                } else {
                    float_idx = float_idx + 1;
                }
                caller_regs_stack = caller_regs_stack + 8;
            }
            proof {
                assert(regs.view_map() == params_map(
                    old(regs).view_map(),
                    ps,
                    u0,
                    f0,
                    i as int + 1,
                ));
            }
            i = i + 1;
        }
        Ok((insts, caller_regs_stack))
    }
}

} // verus!

verus! {

/// Parameter bindings of `m2` agree with `m1`: instruction lowering only
/// ever adds instruction-result bindings.
pub open spec fn params_preserved(
    m1: Map<crate::backend::maps::ValueKey, Reg>,
    m2: Map<crate::backend::maps::ValueKey, Reg>,
) -> bool {
    forall|p: usize|
        #![trigger m2.contains_key(ValueKey::Param(p))]
        (m2.contains_key(ValueKey::Param(p)) == m1.contains_key(ValueKey::Param(p))) && (
        m1.contains_key(ValueKey::Param(p)) ==> m2[ValueKey::Param(p)] == m1[ValueKey::Param(p)])
}

/// Every formal parameter is bound to its fresh register in `m`.
pub open spec fn params_bound(
    m: Map<crate::backend::maps::ValueKey, Reg>,
    ps: Seq<crate::middle::mir::MirParam>,
    u0: int,
    f0: int,
) -> bool {
    forall|p: usize|
        #![trigger m.contains_key(ValueKey::Param(p))]
        0 <= p < ps.len() ==> m.contains_key(ValueKey::Param(p)) && m[ValueKey::Param(p)]
            == param_vreg(ps, u0, f0, p as int)
}

/// Whether a mid-level instruction kind ends a block.
pub open spec fn is_term_kind(k: MirInstKind) -> bool {
    k is Br || k is CondBr || k is Ret
}

/// A well-formed mid-level block over the given arena: non-empty, indices in
/// range, exactly one terminator and it stands last.
pub open spec fn mir_block_wf(b: MirBlock, arena: Seq<MirInst>) -> bool {
    &&& b.insts@.len() >= 1
    &&& forall|k: int| 0 <= k < b.insts@.len() ==> #[trigger] b.insts@[k] < arena.len()
    &&& is_term_kind(arena[b.insts@.last() as int].kind)
    &&& forall|k: int|
        0 <= k < b.insts@.len() - 1 ==> !is_term_kind(arena[#[trigger] b.insts@[k] as int].kind)
}

/// The three instructions one register index lowers to, counters starting
/// at `c0`: load the whole shape's size, scale the index by it, and shift
/// the product to bytes.
pub open spec fn gep_off_insts_one(c0: int, i0: Reg, size: int) -> Seq<Inst> {
    seq![
        Inst::Li {
            dst: Operand::Reg(Reg { id: c0 as u64, usual: true }),
            src: Operand::Imm(size as i64),
        },
        Inst::Bin {
            op: BinOp::Mul,
            dst: Operand::Reg(Reg { id: (c0 + 1) as u64, usual: true }),
            lhs: Operand::Reg(i0),
            rhs: Operand::Reg(Reg { id: c0 as u64, usual: true }),
        },
        Inst::Bin {
            op: BinOp::Sll,
            dst: Operand::Reg(Reg { id: (c0 + 2) as u64, usual: true }),
            lhs: Operand::Reg(Reg { id: (c0 + 1) as u64, usual: true }),
            rhs: Operand::Imm(2),
        },
    ]
}

/// The six instructions two register indices lower to, counters starting at
/// `c0`: the first-index product (factor `size`, the whole shape), the
/// sub-index product (factor `sub`, the common sub-shape), their sum, and
/// the shift to bytes.
pub open spec fn gep_off_insts_two(c0: int, i0: Reg, i1: Reg, size: int, sub: int) -> Seq<Inst> {
    seq![
        Inst::Li {
            dst: Operand::Reg(Reg { id: c0 as u64, usual: true }),
            src: Operand::Imm(size as i64),
        },
        Inst::Bin {
            op: BinOp::Mul,
            dst: Operand::Reg(Reg { id: (c0 + 1) as u64, usual: true }),
            lhs: Operand::Reg(i0),
            rhs: Operand::Reg(Reg { id: c0 as u64, usual: true }),
        },
        Inst::Li {
            dst: Operand::Reg(Reg { id: (c0 + 2) as u64, usual: true }),
            src: Operand::Imm(sub as i64),
        },
        Inst::Bin {
            op: BinOp::Mul,
            dst: Operand::Reg(Reg { id: (c0 + 3) as u64, usual: true }),
            lhs: Operand::Reg(i1),
            rhs: Operand::Reg(Reg { id: (c0 + 2) as u64, usual: true }),
        },
        Inst::Bin {
            op: BinOp::Add,
            dst: Operand::Reg(Reg { id: (c0 + 4) as u64, usual: true }),
            lhs: Operand::Reg(Reg { id: (c0 + 1) as u64, usual: true }),
            rhs: Operand::Reg(Reg { id: (c0 + 3) as u64, usual: true }),
        },
        Inst::Bin {
            op: BinOp::Sll,
            dst: Operand::Reg(Reg { id: (c0 + 5) as u64, usual: true }),
            lhs: Operand::Reg(Reg { id: (c0 + 4) as u64, usual: true }),
            rhs: Operand::Imm(2),
        },
    ]
}

/// The precondition of the exact two-register-index clause: both indices
/// resolve to registers, the shape is array-like, and its sizes fit.
pub open spec fn gep_two_reg_case(
    indices: Seq<MirOperand>,
    dims: Dims,
    m: Map<ValueKey, Reg>,
) -> bool {
    &&& indices.len() == 2
    &&& crate::backend::builder::resolves_to_reg(indices[0], m)
    &&& crate::backend::builder::resolves_to_reg(indices[1], m)
    &&& dims.spec_size() <= i64::MAX
    &&& crate::backend::gep::dims_sub_ok(dims)
}

/// The exact lowering of an address computation whose base is a bound
/// register and whose two indices are registers: the six offset
/// instructions, then the final add of base and byte offset into the fresh
/// register the result is bound to.
pub open spec fn gep_two_reg_result(
    inst_id: usize,
    base_ty: ValueType,
    ptr: MirOperand,
    indices: Seq<MirOperand>,
    slots: Map<usize, crate::backend::stack::StackSlot>,
    m: Map<ValueKey, Reg>,
    c0: int,
    r: Result<Vec<Inst>, CompileError>,
    m2: Map<ValueKey, Reg>,
) -> bool {
    (dims_ok(base_ty) && gep_two_reg_case(indices, spec_dims_of(base_ty), m) && c0 + 6
        <= u64::MAX) ==> (ptr matches MirOperand::Instruction(pid) ==> ((!slots.contains_key(pid)
        && m.contains_key(ValueKey::Inst(pid)) && m[ValueKey::Inst(pid)].usual) ==> (r matches Ok(
        insts,
    ) && insts@ == gep_off_insts_two(
        c0,
        crate::backend::builder::resolved_reg(indices[0], m),
        crate::backend::builder::resolved_reg(indices[1], m),
        spec_dims_of(base_ty).spec_size() as int,
        crate::backend::gep::dims_sub_size(spec_dims_of(base_ty)),
    ).push(
        Inst::Bin {
            op: BinOp::Add,
            dst: Operand::Reg(Reg { id: (c0 + 6) as u64, usual: true }),
            lhs: Operand::Reg(m[ValueKey::Inst(pid)]),
            rhs: Operand::Reg(Reg { id: (c0 + 5) as u64, usual: true }),
        },
    ) && m2 == m.insert(ValueKey::Inst(inst_id), Reg { id: (c0 + 6) as u64, usual: true }))))
}

impl IRBuilder {
    /// Resolves a pointer operand to an addressable thing: an alloca's stack
    /// slot, a global's label, or a bound register.
    pub fn prepare_address(
        operand: &MirOperand,
        stack_slots: &SlotMap,
        regs: &RegMap,
    ) -> (r: Result<Operand, CompileError>)
        ensures
            r matches Ok(o) ==> (o is StackSlot || o is Label || o is Reg),
            match *operand {
                MirOperand::Instruction(id) => if stack_slots.view_map().contains_key(id) {
                    r == Ok::<Operand, CompileError>(
                        Operand::StackSlot(stack_slots.view_map()[id]),
                    )
                } else if regs.view_map().contains_key(ValueKey::Inst(id)) {
                    r == Ok::<Operand, CompileError>(
                        Operand::Reg(regs.view_map()[ValueKey::Inst(id)]),
                    )
                } else {
                    r == Err::<Operand, CompileError>(CompileError::LookupMiss)
                },
                MirOperand::Global(name) => r matches Ok(o) && (o matches Operand::Label(l) && l
                    == name),
                MirOperand::Parameter(p) => r == if regs.view_map().contains_key(
                    ValueKey::Param(p),
                ) {
                    Ok::<Operand, CompileError>(
                        Operand::Reg(regs.view_map()[ValueKey::Param(p)]),
                    )
                } else {
                    Err::<Operand, CompileError>(CompileError::LookupMiss)
                },
                MirOperand::Constant(_) => r == Err::<Operand, CompileError>(
                    CompileError::UnsupportedIR,
                ),
            },
    {
        match operand {
            MirOperand::Instruction(id) => {
                match stack_slots.get(*id) {
                    Some(slot) => Ok(Operand::StackSlot(slot)),
                    None => {
                        match Self::local_var_except_param_from(*id, regs) {
                            Ok(rg) => Ok(Operand::Reg(rg)),
                            Err(e) => Err(e),
                        }
                    },
                }
            },
            MirOperand::Global(name) => Ok(Operand::Label(name.clone())),
            MirOperand::Parameter(p) => {
                match Self::param_from(*p, regs) {
                    Ok(rg) => Ok(Operand::Reg(rg)),
                    Err(e) => Err(e),
                }
            },
            MirOperand::Constant(_) => Err(CompileError::UnsupportedIR),
        }
    }

    /// The base register of an address computation: a stack slot becomes a
    /// local-address load, a label an address load, a register passes
    /// through.
    pub fn prepare_base(
        ptr: &MirOperand,
        stack_slots: &SlotMap,
        reg_gener: &mut RegGenerator,
        regs: &RegMap,
    ) -> (r: Result<(Reg, Vec<Inst>), CompileError>)
        ensures
            r matches Ok((base, insts)) ==> base.usual && forall|k: int|
                0 <= k < insts@.len() ==> !(#[trigger] insts@[k]).spec_is_term(),
            ({
                let c0 = old(reg_gener).usual_next;
                &&& *ptr matches MirOperand::Instruction(id) ==> (
                stack_slots.view_map().contains_key(id) ==> (r matches Ok((base, insts)) && base
                    == (Reg { id: c0, usual: true }) && insts@ == seq![
                    Inst::LocalAddr {
                        dst: Reg { id: c0, usual: true },
                        slot: stack_slots.view_map()[id],
                    },
                ]))
                &&& *ptr matches MirOperand::Global(name) ==> (r matches Ok((base, insts)) && base
                    == (Reg { id: c0, usual: true }) && insts@.len() == 1 && (insts@[0] matches
                    Inst::Lla { dst, label } && dst == (Reg { id: c0, usual: true }) && label@
                    == name@))
                &&& *ptr matches MirOperand::Instruction(id) ==> ((
                !stack_slots.view_map().contains_key(id) && regs.view_map().contains_key(
                    ValueKey::Inst(id),
                ) && regs.view_map()[ValueKey::Inst(id)].usual) ==> (r matches Ok((base, insts))
                    && base == regs.view_map()[ValueKey::Inst(id)] && insts@ == Seq::<
                    Inst,
                >::empty()) && *final(reg_gener) == *old(reg_gener))
            }),
    {
        let addr: Operand = match Self::prepare_address(ptr, stack_slots, regs) {
            Ok(a) => a,
            Err(e) => {
                return Err(e);
            },
        };
        match addr {
            Operand::StackSlot(slot) => {
                let base: Reg = reg_gener.gen_virtual_usual_reg();
                let mut insts: Vec<Inst> = Vec::new();
                insts.push(Inst::LocalAddr { dst: base, slot });
                Ok((base, insts))
            },
            Operand::Label(name) => {
                let base: Reg = reg_gener.gen_virtual_usual_reg();
                let mut insts: Vec<Inst> = Vec::new();
                insts.push(Inst::Lla { dst: base, label: name });
                Ok((base, insts))
            },
            Operand::Reg(rg) => {
                if rg.is_usual() {
                    Ok((rg, Vec::new()))
                } else {
                    Err(CompileError::UnsupportedIR)
                }
            },
            _ => Err(CompileError::UnsupportedIR),
        }
    }

    /// The accumulated element offset of an address computation, in a fresh
    /// register, already scaled to bytes by a left shift of two. For a
    /// single register index the emitted code is exactly the first-index
    /// product then the shift; for two register indices it is the
    /// first-index product, the sub-index product, their sum, then the
    /// shift.
    pub fn prepare_offset(
        dims: &Dims,
        indices: &Vec<MirOperand>,
        reg_gener: &mut RegGenerator,
        regs: &RegMap,
    ) -> (r: Result<(Reg, Vec<Inst>), CompileError>)
        ensures
            r matches Ok((off, insts)) ==> off.usual && insts@.len() >= 1 && (insts@.last()
                matches Inst::Bin { op, dst, rhs, .. } && op == BinOp::Sll && dst == Operand::Reg(
                off,
            ) && rhs == Operand::Imm(2)) && (forall|k: int|
                0 <= k < insts@.len() ==> !(#[trigger] insts@[k]).spec_is_term()),
            ({
                let c0 = old(reg_gener).usual_next as int;
                let m = regs.view_map();
                (indices@.len() == 1 && crate::backend::builder::resolves_to_reg(indices@[0], m)
                    && dims.spec_size() <= i64::MAX && c0 + 3 <= u64::MAX) ==> (r matches Ok(
                    (off, insts),
                ) && off == (Reg { id: (c0 + 2) as u64, usual: true }) && insts@
                    == gep_off_insts_one(
                    c0,
                    crate::backend::builder::resolved_reg(indices@[0], m),
                    dims.spec_size() as int,
                ) && final(reg_gener).usual_next as int == c0 + 3)
            }),
            ({
                let c0 = old(reg_gener).usual_next as int;
                let m = regs.view_map();
                (gep_two_reg_case(indices@, *dims, m) && c0 + 6 <= u64::MAX) ==> (r matches Ok(
                    (off, insts),
                ) && off == (Reg { id: (c0 + 5) as u64, usual: true }) && insts@
                    == gep_off_insts_two(
                    c0,
                    crate::backend::builder::resolved_reg(indices@[0], m),
                    crate::backend::builder::resolved_reg(indices@[1], m),
                    dims.spec_size() as int,
                    crate::backend::gep::dims_sub_size(*dims),
                ) && final(reg_gener).usual_next as int == c0 + 6)
            }),
    {
        if indices.len() == 0 {
            return Err(CompileError::UnsupportedIR);
        }
        let mut ret: Vec<Inst> = Vec::new();
        let (first, mut insts0): (Option<Reg>, Vec<Inst>) = match Self::process_first_idx(
            &indices[0],
            dims,
            reg_gener,
            regs,
        ) {
            Ok(p) => p,
            Err(e) => {
                return Err(e);
            },
        };
        ret.append(&mut insts0);
        proof {
            assert(forall|k: int| 0 <= k < ret@.len() ==> !(#[trigger] ret@[k]).spec_is_term());
        }
        let mut offset: Option<Operand> = match first {
            Some(rg) => Some(Operand::Reg(rg)),
            None => None,
        };
        let mut cur_dims: Option<Dims> = Some(clone_dims(dims));
        proof {
            let c0 = old(reg_gener).usual_next as int;
            let m = regs.view_map();
            if crate::backend::builder::resolves_to_reg(indices@[0], m) && dims.spec_size()
                <= i64::MAX && c0 + 2 <= u64::MAX {
                let i0 = crate::backend::builder::resolved_reg(indices@[0], m);
                assert(ret@ =~= gep_off_insts_one(c0, i0, dims.spec_size() as int).take(2));
            }
            if gep_two_reg_case(indices@, *dims, m) && c0 + 6 <= u64::MAX {
                let i0 = crate::backend::builder::resolved_reg(indices@[0], m);
                let i1 = crate::backend::builder::resolved_reg(indices@[1], m);
                assert(ret@ =~= gep_off_insts_two(
                    c0,
                    i0,
                    i1,
                    dims.spec_size() as int,
                    crate::backend::gep::dims_sub_size(*dims),
                ).take(2));
            }
        }
        let mut i: usize = 1;
        let mut exhausted: bool = false;
        while i < indices.len() && !exhausted
            invariant
                1 <= i <= indices@.len(),
                forall|k: int| 0 <= k < ret@.len() ==> !(#[trigger] ret@[k]).spec_is_term(),
                offset matches Some(o) ==> (o is Reg || o is Imm),
                ({
                    let c0 = old(reg_gener).usual_next as int;
                    let m = regs.view_map();
                    (indices@.len() == 1 && crate::backend::builder::resolves_to_reg(
                        indices@[0],
                        m,
                    ) && dims.spec_size() <= i64::MAX && c0 + 3 <= u64::MAX) ==> (ret@
                        == gep_off_insts_one(
                        c0,
                        crate::backend::builder::resolved_reg(indices@[0], m),
                        dims.spec_size() as int,
                    ).take(2) && offset == Some(
                        Operand::Reg(Reg { id: (c0 + 1) as u64, usual: true }),
                    ) && reg_gener.usual_next as int == c0 + 2)
                }),
                ({
                    let c0 = old(reg_gener).usual_next as int;
                    let m = regs.view_map();
                    (gep_two_reg_case(indices@, *dims, m) && c0 + 6 <= u64::MAX) ==> ({
                        let i0 = crate::backend::builder::resolved_reg(indices@[0], m);
                        let i1 = crate::backend::builder::resolved_reg(indices@[1], m);
                        let full = gep_off_insts_two(
                            c0,
                            i0,
                            i1,
                            dims.spec_size() as int,
                            crate::backend::gep::dims_sub_size(*dims),
                        );
                        !exhausted && ((i == 1 && ret@ == full.take(2) && offset == Some(
                            Operand::Reg(Reg { id: (c0 + 1) as u64, usual: true }),
                        ) && (cur_dims matches Some(d) && d == *dims)
                            && reg_gener.usual_next as int == c0 + 2) || (i == 2 && ret@
                            == full.take(5) && offset == Some(
                            Operand::Reg(Reg { id: (c0 + 4) as u64, usual: true }),
                        ) && reg_gener.usual_next as int == c0 + 5))
                    })
                }),
            decreases indices@.len() - i, (if exhausted { 0int } else { 1int }),
        {
            let d_opt: Option<Dims> = cur_dims;
            let d: Dims = match d_opt {
                Some(d) => d,
                None => {
                    exhausted = true;
                    cur_dims = None;
                    continue ;
                },
            };
            let (to_add, new_dims, mut insts1): (Operand, Option<Dims>, Vec<Inst>) =
                match Self::process_sub_idx(&indices[i], &d, reg_gener, regs) {
                Ok(p) => p,
                Err(e) => {
                    return Err(e);
                },
            };
            ret.append(&mut insts1);
            match offset {
                Some(off) => {
                    let new_offset: Reg = reg_gener.gen_virtual_usual_reg();
                    let (to_add2, mut insts2): (Operand, Vec<Inst>) = match Self::prepare_rhs_op(
                        &to_add,
                        reg_gener,
                    ) {
                        Ok(p) => p,
                        Err(e) => {
                            return Err(e);
                        },
                    };
                    ret.append(&mut insts2);
                    let (off2, mut insts3): (Operand, Vec<Inst>) = match Self::prepare_lhs_reg(
                        &off,
                        reg_gener,
                    ) {
                        Ok(p) => p,
                        Err(e) => {
                            return Err(e);
                        },
                    };
                    ret.append(&mut insts3);
                    ret.push(
                        Inst::Bin {
                            op: BinOp::Add,
                            dst: Operand::Reg(new_offset),
                            lhs: off2,
                            rhs: to_add2,
                        },
                    );
                    offset = Some(Operand::Reg(new_offset));
                },
                None => {
                    offset = Some(to_add);
                },
            }
            cur_dims = new_dims;
            proof {
                let c0 = old(reg_gener).usual_next as int;
                let m = regs.view_map();
                if gep_two_reg_case(indices@, *dims, m) && c0 + 6 <= u64::MAX {
                    let i0 = crate::backend::builder::resolved_reg(indices@[0], m);
                    let i1 = crate::backend::builder::resolved_reg(indices@[1], m);
                    let full = gep_off_insts_two(
                        c0,
                        i0,
                        i1,
                        dims.spec_size() as int,
                        crate::backend::gep::dims_sub_size(*dims),
                    );
                    assert(ret@ =~= full.take(5));
                }
            }
            i = i + 1;
        }
        let off_op: Operand = match offset {
            Some(o) => o,
            None => Operand::Imm(0),
        };
        let (off_reg, mut insts4): (Operand, Vec<Inst>) = match Self::prepare_lhs_reg(
            &off_op,
            reg_gener,
        ) {
            Ok(p) => p,
            Err(e) => {
                return Err(e);
            },
        };
        ret.append(&mut insts4);
        let final_offset: Reg = reg_gener.gen_virtual_usual_reg();
        ret.push(
            Inst::Bin {
                op: BinOp::Sll,
                dst: Operand::Reg(final_offset),
                lhs: off_reg,
                rhs: Operand::Imm(2),
            },
        );
        proof {
            let c0 = old(reg_gener).usual_next as int;
            let m = regs.view_map();
            if indices@.len() == 1 && crate::backend::builder::resolves_to_reg(indices@[0], m)
                && dims.spec_size() <= i64::MAX && c0 + 3 <= u64::MAX {
                assert(ret@ =~= gep_off_insts_one(
                    c0,
                    crate::backend::builder::resolved_reg(indices@[0], m),
                    dims.spec_size() as int,
                ));
            }
            if gep_two_reg_case(indices@, *dims, m) && c0 + 6 <= u64::MAX {
                assert(ret@ =~= gep_off_insts_two(
                    c0,
                    crate::backend::builder::resolved_reg(indices@[0], m),
                    crate::backend::builder::resolved_reg(indices@[1], m),
                    dims.spec_size() as int,
                    crate::backend::gep::dims_sub_size(*dims),
                ));
            }
        }
        Ok((final_offset, ret))
    }

    /// Lowers one address computation: resolve the base, accumulate the
    /// byte offset, add the two into a fresh register bound to the result.
    pub fn build_gep_inst(
        inst_id: usize,
        base_ty: &ValueType,
        ptr: &MirOperand,
        indices: &Vec<MirOperand>,
        stack_slots: &SlotMap,
        reg_gener: &mut RegGenerator,
        regs: &mut RegMap,
    ) -> (r: Result<Vec<Inst>, CompileError>)
        ensures
            params_preserved(old(regs).view_map(), final(regs).view_map()),
            r matches Ok(insts) ==> (forall|k: int|
                0 <= k < insts@.len() ==> !(#[trigger] insts@[k]).spec_is_term()) && insts@.len()
                >= 1 && (insts@.last() matches Inst::Bin { op, dst, .. } && op == BinOp::Add && (
            dst matches Operand::Reg(d) && d.usual && final(regs).view_map() == old(
                regs,
            ).view_map().insert(ValueKey::Inst(inst_id), d))),
            gep_two_reg_result(
                inst_id,
                *base_ty,
                *ptr,
                indices@,
                stack_slots.view_map(),
                old(regs).view_map(),
                old(reg_gener).usual_next as int,
                r,
                final(regs).view_map(),
            ),
    {
        let dims: Dims = match Self::dims_from_ty(base_ty) {
            Ok(d) => d,
            Err(e) => {
                return Err(e);
            },
        };
        let mut ret: Vec<Inst> = Vec::new();
        let (base, mut insts0): (Reg, Vec<Inst>) = match Self::prepare_base(
            ptr,
            stack_slots,
            reg_gener,
            regs,
        ) {
            Ok(p) => p,
            Err(e) => {
                return Err(e);
            },
        };
        ret.append(&mut insts0);
        let (off, mut insts1): (Reg, Vec<Inst>) = match Self::prepare_offset(
            &dims,
            indices,
            reg_gener,
            regs,
        ) {
            Ok(p) => p,
            Err(e) => {
                return Err(e);
            },
        };
        ret.append(&mut insts1);
        let final_addr: Reg = reg_gener.gen_virtual_usual_reg();
        ret.push(
            Inst::Bin {
                op: BinOp::Add,
                dst: Operand::Reg(final_addr),
                lhs: Operand::Reg(base),
                rhs: Operand::Reg(off),
            },
        );
        proof {
            assert forall|p: usize|
                #![trigger regs.view_map().contains_key(ValueKey::Param(p))]
                true implies ValueKey::Param(p) != ValueKey::Inst(inst_id) by {}
        }
        regs.insert(ValueKey::Inst(inst_id), final_addr);
        proof {
            let c0 = old(reg_gener).usual_next as int;
            let m = old(regs).view_map();
            if dims_ok(*base_ty) && gep_two_reg_case(indices@, spec_dims_of(*base_ty), m) && c0
                + 6 <= u64::MAX {
                match ptr {
                    MirOperand::Instruction(pid) => {
                        if !stack_slots.view_map().contains_key(*pid) && m.contains_key(
                            ValueKey::Inst(*pid),
                        ) && m[ValueKey::Inst(*pid)].usual {
                            assert(ret@ =~= gep_off_insts_two(
                                c0,
                                crate::backend::builder::resolved_reg(indices@[0], m),
                                crate::backend::builder::resolved_reg(indices@[1], m),
                                spec_dims_of(*base_ty).spec_size() as int,
                                crate::backend::gep::dims_sub_size(spec_dims_of(*base_ty)),
                            ).push(
                                Inst::Bin {
                                    op: BinOp::Add,
                                    dst: Operand::Reg(Reg { id: (c0 + 6) as u64, usual: true }),
                                    lhs: Operand::Reg(m[ValueKey::Inst(*pid)]),
                                    rhs: Operand::Reg(Reg { id: (c0 + 5) as u64, usual: true }),
                                },
                            ));
                        }
                    },
                    _ => {},
                }
            }
        }
        Ok(ret)
    }

    /// The nested shape of a value type: scalars are leaves; arrays nest.
    /// Void and pointer element types are refused here.
    pub fn dims_from_ty(ty: &ValueType) -> (r: Result<Dims, CompileError>)
        ensures
            r matches Ok(d) ==> d == spec_dims_of(*ty),
            r is Ok <==> dims_ok(*ty),
        decreases ty,
    {
        match ty {
            ValueType::Int | ValueType::Bool | ValueType::Float | ValueType::SignedChar => Ok(
                Dims::Scalar,
            ),
            ValueType::Array(inner, n) => {
                match Self::dims_from_ty(inner) {
                    Ok(d) => Ok(Dims::Array(Box::new(d), *n)),
                    Err(e) => Err(e),
                }
            },
            _ => Err(CompileError::UnsupportedIR),
        }
    }

    /// The reversed per-dimension sizes of a nested array type: a scalar is
    /// `[1]`; an array appends its own count after its element's list.
    pub fn _cal_dims_rev(ty: &ValueType) -> (r: Result<Vec<usize>, CompileError>)
        ensures
            r matches Ok(v) ==> v@ == spec_dims_rev(*ty),
            r is Ok <==> dims_ok(*ty),
        decreases ty,
    {
        match ty {
            ValueType::Int | ValueType::Bool | ValueType::Float | ValueType::SignedChar => {
                let mut v: Vec<usize> = Vec::new();
                v.push(1);
                proof {
                    assert(v@ =~= spec_dims_rev(*ty));
                }
                Ok(v)
            },
            ValueType::Array(inner, n) => {
                match Self::_cal_dims_rev(inner) {
                    Ok(mut v) => {
                        v.push(*n);
                        Ok(v)
                    },
                    Err(e) => Err(e),
                }
            },
            _ => Err(CompileError::UnsupportedIR),
        }
    }
}

/// Which value types have a shape.
pub open spec fn dims_ok(ty: ValueType) -> bool
    decreases ty,
{
    match ty {
        ValueType::Int | ValueType::Bool | ValueType::Float | ValueType::SignedChar => true,
        ValueType::Array(inner, _) => dims_ok(*inner),
        _ => false,
    }
}

/// The shape of a value type.
pub open spec fn spec_dims_of(ty: ValueType) -> Dims
    decreases ty,
{
    match ty {
        ValueType::Array(inner, n) => Dims::Array(Box::new(spec_dims_of(*inner)), n),
        _ => Dims::Scalar,
    }
}

/// The reversed per-dimension sizes of a nested array type.
pub open spec fn spec_dims_rev(ty: ValueType) -> Seq<usize>
    decreases ty,
{
    match ty {
        ValueType::Array(inner, n) => spec_dims_rev(*inner).push(n),
        _ => seq![1usize],
    }
}

} // verus!

verus! {

impl IRBuilder {
    /// Lowers one mid-level instruction. A non-terminator yields only
    /// non-terminator target instructions; a jump, branch or return yields
    /// the block-ending shape (a jump; a conditional branch then a jump; or
    /// copies followed by a return).
    #[verifier::rlimit(100)]
    #[verifier::spinoff_prover]
    pub fn build_instruction(
        inst_id: usize,
        inst: &MirInst,
        func: &MirFunc,
        stack_allocator: &mut StackAllocator,
        stack_slots: &mut SlotMap,
        reg_gener: &mut RegGenerator,
        regs: &mut RegMap,
        fmms: &mut FmmMap,
        phi_backs: &mut Vec<PhiBack>,
    ) -> (r: Result<Vec<Inst>, CompileError>)
        ensures
            params_preserved(old(regs).view_map(), final(regs).view_map()),
            crate::backend::maps::fmm_pool_wf(old(fmms).entries@)
                ==> crate::backend::maps::fmm_pool_wf(final(fmms).entries@),
            !(inst.kind is Phi) ==> final(phi_backs)@ == old(phi_backs)@,
            r is Ok ==> (inst.kind matches MirInstKind::Phi { incomings, .. }
                ==> final(phi_backs)@.len() == old(phi_backs)@.len() + incomings@.len() && (forall|x: int|
                0 <= x < old(phi_backs)@.len() ==> #[trigger] final(phi_backs)@[x] == old(
                    phi_backs,
                )@[x]) && (forall|k: int|
                0 <= k < incomings@.len() ==> pb_matches(
                    #[trigger] final(phi_backs)@[old(phi_backs)@.len() + k],
                    incomings@[k],
                ))),
            (r is Ok && inst.kind is Alloca) ==> final(stack_slots).view_map().contains_key(
                inst_id,
            ) && final(stack_allocator).owns(final(stack_slots).view_map()[inst_id]),
            !(inst.kind is Alloca) ==> final(stack_slots).view_map() == old(
                stack_slots,
            ).view_map() && final(stack_allocator).used == old(stack_allocator).used,
            r matches Ok(insts) ==> match inst.kind {
                MirInstKind::Br { target } => insts@.len() == 1 && jmp_to(insts@[0], target@),
                MirInstKind::CondBr { then_label, else_label, .. } => insts@.len() == 2 && (
                insts@[0] matches Inst::Br { op, rhs, label, .. } && op == BrOp::Bne && rhs == (Reg {
                    id: 0,
                    usual: true,
                }) && label@ == then_label@) && jmp_to(insts@[1], else_label@),
                MirInstKind::Ret { .. } => insts@.len() >= 1 && insts@.last() == Inst::Ret && (
                forall|k: int| 0 <= k < insts@.len() - 1 ==> !(#[trigger] insts@[k]).spec_is_term()),
                MirInstKind::Alloca { .. } => insts@.len() == 0,
                _ => forall|k: int| 0 <= k < insts@.len() ==> !(#[trigger] insts@[k]).spec_is_term(),
            },
    {
        match &inst.kind {
            MirInstKind::Alloca { ty } => {
                let dims: Dims = match Self::dims_from_ty(ty) {
                    Ok(d) => d,
                    Err(e) => {
                        return Err(e);
                    },
                };
                let leaves: i64 = match dims.size_checked() {
                    Some(v) => v,
                    None => {
                        return Err(CompileError::Range);
                    },
                };
                if leaves > i64::MAX / 4 {
                    return Err(CompileError::Range);
                }
                let bytes: u64 = (leaves * 4) as u64;
                if !stack_allocator.can_allocate(bytes) {
                    return Err(CompileError::Range);
                }
                let slot = stack_allocator.allocate(bytes);
                stack_slots.insert(inst_id, slot);
                Ok(Vec::new())
            },
            MirInstKind::Load { ty, ptr } => {
                let dst: Reg = match Self::new_var(ty, reg_gener) {
                    Ok(d) => d,
                    Err(e) => {
                        return Err(e);
                    },
                };
                let mut insts: Vec<Inst> = Vec::new();
                match ptr {
                    MirOperand::Global(name) => {
                        let addr: Reg = reg_gener.gen_virtual_usual_reg();
                        insts.push(Inst::Lla { dst: addr, label: name.clone() });
                        insts.push(Inst::Mem { op: MemOp::Lw, reg: dst, offset: 0, base: addr });
                    },
                    MirOperand::Instruction(pid) => {
                        match stack_slots.get(*pid) {
                            Some(slot) => {
                                insts.push(Inst::Load { dst, slot });
                            },
                            None => {
                                let preg: Reg = match Self::pointer_from(func, ptr, regs) {
                                    Ok(p) => p,
                                    Err(e) => {
                                        return Err(e);
                                    },
                                };
                                insts.push(
                                    Inst::Mem { op: MemOp::Lw, reg: dst, offset: 0, base: preg },
                                );
                            },
                        }
                    },
                    _ => {
                        let preg: Reg = match Self::pointer_from(func, ptr, regs) {
                            Ok(p) => p,
                            Err(e) => {
                                return Err(e);
                            },
                        };
                        insts.push(Inst::Mem { op: MemOp::Lw, reg: dst, offset: 0, base: preg });
                    },
                }
                proof {
                    assert forall|p: usize|
                        #![trigger regs.view_map().contains_key(ValueKey::Param(p))]
                        true implies ValueKey::Param(p) != ValueKey::Inst(inst_id) by {}
                }
                regs.insert(ValueKey::Inst(inst_id), dst);
                proof {
                    assert(params_preserved(old(regs).view_map(), regs.view_map()));
                }
                Ok(insts)
            },
            MirInstKind::Store { val, ptr } => {
                let mut insts: Vec<Inst> = Vec::new();
                let vreg: Reg = match Self::no_load_from(val, regs) {
                    Ok(Operand::Reg(rg)) => rg,
                    Ok(Operand::Imm(v)) => {
                        let t: Reg = reg_gener.gen_virtual_usual_reg();
                        insts.push(Inst::Li { dst: Operand::Reg(t), src: Operand::Imm(v) });
                        t
                    },
                    Ok(Operand::Fmm(bits)) => {
                        let (t, mut pre): (Reg, Vec<Inst>) = Self::prepare_fmm(
                            bits,
                            reg_gener,
                            fmms,
                        );
                        insts.append(&mut pre);
                        t
                    },
                    Ok(_) => {
                        return Err(CompileError::UnsupportedIR);
                    },
                    Err(e) => {
                        return Err(e);
                    },
                };
                match ptr {
                    MirOperand::Global(name) => {
                        let addr: Reg = reg_gener.gen_virtual_usual_reg();
                        insts.push(Inst::Lla { dst: addr, label: name.clone() });
                        insts.push(Inst::Mem { op: MemOp::Sw, reg: vreg, offset: 0, base: addr });
                    },
                    MirOperand::Instruction(pid) => {
                        match stack_slots.get(*pid) {
                            Some(slot) => {
                                insts.push(Inst::Store { src: vreg, slot });
                            },
                            None => {
                                let preg: Reg = match Self::pointer_from(func, ptr, regs) {
                                    Ok(p) => p,
                                    Err(e) => {
                                        return Err(e);
                                    },
                                };
                                insts.push(
                                    Inst::Mem { op: MemOp::Sw, reg: vreg, offset: 0, base: preg },
                                );
                            },
                        }
                    },
                    _ => {
                        let preg: Reg = match Self::pointer_from(func, ptr, regs) {
                            Ok(p) => p,
                            Err(e) => {
                                return Err(e);
                            },
                        };
                        insts.push(Inst::Mem { op: MemOp::Sw, reg: vreg, offset: 0, base: preg });
                    },
                }
                Ok(insts)
            },
            MirInstKind::Gep { base_ty, ptr, indices } => {
                let r: Result<Vec<Inst>, CompileError> = Self::build_gep_inst(
                    inst_id,
                    base_ty,
                    ptr,
                    indices,
                    stack_slots,
                    reg_gener,
                    regs,
                );
                proof {
                    assert(params_preserved(old(regs).view_map(), regs.view_map()));
                }
                r
            },
            MirInstKind::ICmp { pred, lhs, rhs } => {
                let mut insts: Vec<Inst> = Vec::new();
                let (a, b): (&MirOperand, &MirOperand) = match pred {
                    CmpPred::Sgt | CmpPred::Sle => (rhs, lhs),
                    _ => (lhs, rhs),
                };
                let (x, mut pre1): (Operand, Vec<Inst>) = match Self::prepare_rs1_i(
                    a,
                    reg_gener,
                    regs,
                ) {
                    Ok(p) => p,
                    Err(e) => {
                        return Err(e);
                    },
                };
                insts.append(&mut pre1);
                let (y, mut pre2): (Operand, Vec<Inst>) = match Self::prepare_rs2_i(
                    b,
                    reg_gener,
                    regs,
                ) {
                    Ok(p) => p,
                    Err(e) => {
                        return Err(e);
                    },
                };
                insts.append(&mut pre2);
                let dst: Reg = reg_gener.gen_virtual_usual_reg();
                match pred {
                    CmpPred::Slt | CmpPred::Sgt => {
                        insts.push(
                            Inst::Bin { op: BinOp::Slt, dst: Operand::Reg(dst), lhs: x, rhs: y },
                        );
                    },
                    CmpPred::Sle | CmpPred::Sge => {
                        let t: Reg = reg_gener.gen_virtual_usual_reg();
                        insts.push(
                            Inst::Bin { op: BinOp::Slt, dst: Operand::Reg(t), lhs: x, rhs: y },
                        );
                        insts.push(
                            Inst::Un {
                                op: UnOp::Seqz,
                                dst: Operand::Reg(dst),
                                src: Operand::Reg(t),
                            },
                        );
                    },
                    CmpPred::Eq => {
                        let t: Reg = reg_gener.gen_virtual_usual_reg();
                        insts.push(
                            Inst::Bin { op: BinOp::Xor, dst: Operand::Reg(t), lhs: x, rhs: y },
                        );
                        insts.push(
                            Inst::Un {
                                op: UnOp::Seqz,
                                dst: Operand::Reg(dst),
                                src: Operand::Reg(t),
                            },
                        );
                    },
                    CmpPred::Ne => {
                        let t: Reg = reg_gener.gen_virtual_usual_reg();
                        insts.push(
                            Inst::Bin { op: BinOp::Xor, dst: Operand::Reg(t), lhs: x, rhs: y },
                        );
                        insts.push(
                            Inst::Un {
                                op: UnOp::Snez,
                                dst: Operand::Reg(dst),
                                src: Operand::Reg(t),
                            },
                        );
                    },
                }
                proof {
                    assert forall|p: usize|
                        #![trigger regs.view_map().contains_key(ValueKey::Param(p))]
                        true implies ValueKey::Param(p) != ValueKey::Inst(inst_id) by {}
                }
                regs.insert(ValueKey::Inst(inst_id), dst);
                proof {
                    assert(params_preserved(old(regs).view_map(), regs.view_map()));
                }
                Ok(insts)
            },
            MirInstKind::Bin { op, lhs, rhs } => {
                let mut insts: Vec<Inst> = Vec::new();
                let (x, mut pre1): (Operand, Vec<Inst>) = match Self::prepare_rs1_i(
                    lhs,
                    reg_gener,
                    regs,
                ) {
                    Ok(p) => p,
                    Err(e) => {
                        return Err(e);
                    },
                };
                insts.append(&mut pre1);
                let needs_reg_rhs: bool = match op {
                    MirBinOp::Sub | MirBinOp::Mul | MirBinOp::SDiv | MirBinOp::SRem => true,
                    _ => false,
                };
                let (y, mut pre2): (Operand, Vec<Inst>) = if needs_reg_rhs {
                    match Self::prepare_rs1_i(rhs, reg_gener, regs) {
                        Ok(p) => p,
                        Err(e) => {
                            return Err(e);
                        },
                    }
                } else {
                    match Self::prepare_rs2_i(rhs, reg_gener, regs) {
                        Ok(p) => p,
                        Err(e) => {
                            return Err(e);
                        },
                    }
                };
                insts.append(&mut pre2);
                let dst: Reg = reg_gener.gen_virtual_usual_reg();
                let bop: BinOp = match op {
                    MirBinOp::Add => BinOp::Add,
                    MirBinOp::Sub => BinOp::Sub,
                    MirBinOp::Mul => BinOp::Mul,
                    MirBinOp::SDiv => BinOp::Div,
                    MirBinOp::SRem => BinOp::Rem,
                };
                insts.push(Inst::Bin { op: bop, dst: Operand::Reg(dst), lhs: x, rhs: y });
                proof {
                    assert forall|p: usize|
                        #![trigger regs.view_map().contains_key(ValueKey::Param(p))]
                        true implies ValueKey::Param(p) != ValueKey::Inst(inst_id) by {}
                }
                regs.insert(ValueKey::Inst(inst_id), dst);
                proof {
                    assert(params_preserved(old(regs).view_map(), regs.view_map()));
                }
                Ok(insts)
            },
            MirInstKind::Call { callee, ret_ty, args } => {
                let r: Result<Vec<Inst>, CompileError> = Self::build_call_inst(
                    callee,
                    ret_ty,
                    args,
                    inst_id,
                    stack_slots,
                    reg_gener,
                    regs,
                    fmms,
                );
                proof {
                    assert(params_preserved(old(regs).view_map(), regs.view_map()));
                }
                r
            },
            MirInstKind::Phi { ty, incomings } => {
                let dst: Reg = match Self::new_var(ty, reg_gener) {
                    Ok(d) => d,
                    Err(e) => {
                        return Err(e);
                    },
                };
                proof {
                    assert forall|p: usize|
                        #![trigger regs.view_map().contains_key(ValueKey::Param(p))]
                        true implies ValueKey::Param(p) != ValueKey::Inst(inst_id) by {}
                }
                regs.insert(ValueKey::Inst(inst_id), dst);
                proof {
                    assert(params_preserved(old(regs).view_map(), regs.view_map()));
                }
                let mut k: usize = 0;
                while k < incomings.len()
                    invariant
                        params_preserved(old(regs).view_map(), regs.view_map()),
                        inst.kind is Phi,
                        k <= incomings@.len(),
                        phi_backs@.len() == old(phi_backs)@.len() + k,
                        forall|x: int|
                            0 <= x < old(phi_backs)@.len() ==> #[trigger] phi_backs@[x] == old(
                                phi_backs,
                            )@[x],
                        forall|x: int|
                            0 <= x < k ==> pb_matches(
                                #[trigger] phi_backs@[old(phi_backs)@.len() + x],
                                incomings@[x],
                            ),
                    decreases incomings@.len() - k,
                {
                    let src: PhiSrc = match &incomings[k].0 {
                        MirOperand::Constant(c) => {
                            match Self::const_except_arr_from(c) {
                                Ok(Operand::Imm(v)) => PhiSrc::Imm(v),
                                Ok(Operand::Fmm(bits)) => PhiSrc::Fmm(bits),
                                Ok(_) => {
                                    return Err(CompileError::UnsupportedIR);
                                },
                                Err(e) => {
                                    return Err(e);
                                },
                            }
                        },
                        MirOperand::Parameter(pi) => PhiSrc::Value(ValueKey::Param(*pi)),
                        MirOperand::Instruction(ii) => PhiSrc::Value(ValueKey::Inst(*ii)),
                        MirOperand::Global(_) => {
                            return Err(CompileError::UnsupportedIR);
                        },
                    };
                    phi_backs.push(
                        PhiBack { pred_label: incomings[k].1.clone(), src, dst },
                    );
                    k = k + 1;
                }
                Ok(Vec::new())
            },
            MirInstKind::Br { target } => {
                let mut insts: Vec<Inst> = Vec::new();
                insts.push(Inst::Jmp { label: target.clone() });
                Ok(insts)
            },
            MirInstKind::CondBr { cond, then_label, else_label } => {
                let (crg, _pre): (Reg, Vec<Inst>) = match Self::prepare_cond(cond, regs) {
                    Ok(p) => p,
                    Err(e) => {
                        return Err(e);
                    },
                };
                let mut insts: Vec<Inst> = Vec::new();
                insts.push(
                    Inst::Br {
                        op: BrOp::Bne,
                        lhs: crg,
                        rhs: Reg::new(0, true),
                        label: then_label.clone(),
                    },
                );
                insts.push(Inst::Jmp { label: else_label.clone() });
                Ok(insts)
            },
            MirInstKind::Ret { val } => {
                let mut insts: Vec<Inst> = Vec::new();
                match val {
                    None => {},
                    Some(v) => {
                        if func.return_type.is_float() {
                            let (o, mut pre): (Operand, Vec<Inst>) = match Self::prepare_f(
                                v,
                                reg_gener,
                                regs,
                                fmms,
                            ) {
                                Ok(p) => p,
                                Err(e) => {
                                    return Err(e);
                                },
                            };
                            insts.append(&mut pre);
                            insts.push(
                                Inst::Un { op: UnOp::Mv, dst: Operand::Reg(Reg::fa(0)), src: o },
                            );
                        } else {
                            match Self::no_load_from(v, regs) {
                                Ok(Operand::Reg(rg)) => {
                                    insts.push(
                                        Inst::Un {
                                            op: UnOp::Mv,
                                            dst: Operand::Reg(Reg::a(0)),
                                            src: Operand::Reg(rg),
                                        },
                                    );
                                },
                                Ok(Operand::Imm(imm)) => {
                                    insts.push(
                                        Inst::Li {
                                            dst: Operand::Reg(Reg::a(0)),
                                            src: Operand::Imm(imm),
                                        },
                                    );
                                },
                                Ok(_) => {
                                    return Err(CompileError::UnsupportedIR);
                                },
                                Err(e) => {
                                    return Err(e);
                                },
                            }
                        }
                    },
                }
                insts.push(Inst::Ret);
                Ok(insts)
            },
        }
    }
}

} // verus!

verus! {

impl IRBuilder {
    /// Lowers one mid-level block into a target block with the same label;
    /// the result is tight: its terminators are exactly the trailing shape
    /// its mid-level terminator lowers to.
    pub fn build_bb(
        arena: &Vec<MirInst>,
        mir_b: &MirBlock,
        func: &MirFunc,
        stack_allocator: &mut StackAllocator,
        stack_slots: &mut SlotMap,
        reg_gener: &mut RegGenerator,
        regs: &mut RegMap,
        fmms: &mut FmmMap,
        phi_backs: &mut Vec<PhiBack>,
    ) -> (r: Result<Block, CompileError>)
        requires
            mir_block_wf(*mir_b, arena@),
        ensures
            params_preserved(old(regs).view_map(), final(regs).view_map()),
            crate::backend::maps::fmm_pool_wf(old(fmms).entries@)
                ==> crate::backend::maps::fmm_pool_wf(final(fmms).entries@),
            r matches Ok(bb) ==> bb.label == mir_b.label && tight(bb.insts@),
            r is Ok ==> final(phi_backs)@.len() >= old(phi_backs)@.len() && (forall|x: int|
                0 <= x < old(phi_backs)@.len() ==> #[trigger] final(phi_backs)@[x] == old(
                    phi_backs,
                )@[x]),
            r is Ok ==> forall|j: int, k: int|
                #[trigger] blk_phi_incoming_at(*mir_b, arena@, j, k) ==> exists|idx: int|
                    0 <= idx < final(phi_backs)@.len() && pb_matches(
                        #[trigger] final(phi_backs)@[idx],
                        blk_phi_incoming(*mir_b, arena@, j, k),
                    ),
    {
        let mut bb: Block = Block::new(mir_b.label.clone());
        let n: usize = mir_b.insts.len();
        let mut k: usize = 0;
        while k < n - 1
            invariant
                mir_block_wf(*mir_b, arena@),
                n == mir_b.insts@.len(),
                n >= 1,
                k <= n - 1,
                bb.label == mir_b.label,
                params_preserved(old(regs).view_map(), regs.view_map()),
                crate::backend::maps::fmm_pool_wf(old(fmms).entries@)
                    ==> crate::backend::maps::fmm_pool_wf(fmms.entries@),
                forall|j: int| 0 <= j < bb.insts@.len() ==> !(#[trigger] bb.insts@[j]).spec_is_term(),
                phi_backs@.len() >= old(phi_backs)@.len(),
                forall|x: int|
                    0 <= x < old(phi_backs)@.len() ==> #[trigger] phi_backs@[x] == old(
                        phi_backs,
                    )@[x],
                forall|j: int, kk: int|
                    (#[trigger] blk_phi_incoming_at(*mir_b, arena@, j, kk) && j < k) ==> exists|
                        idx: int,
                    |
                        0 <= idx < phi_backs@.len() && pb_matches(
                            #[trigger] phi_backs@[idx],
                            blk_phi_incoming(*mir_b, arena@, j, kk),
                        ),
            decreases n - 1 - k,
        {
            let iid: usize = mir_b.insts[k];
            let ghost pre_backs = phi_backs@;
            let insts: Vec<Inst> = match Self::build_instruction(
                iid,
                &arena[iid],
                func,
                stack_allocator,
                stack_slots,
                reg_gener,
                regs,
                fmms,
                phi_backs,
            ) {
                Ok(v) => v,
                Err(e) => {
                    return Err(e);
                },
            };
            proof {
                assert(!is_term_kind(arena@[iid as int].kind));
                assert forall|j: int, kk: int|
                    #[trigger] blk_phi_incoming_at(*mir_b, arena@, j, kk) && j < k + 1 implies exists|
                    idx: int,
                |
                    0 <= idx < phi_backs@.len() && pb_matches(
                        #[trigger] phi_backs@[idx],
                        blk_phi_incoming(*mir_b, arena@, j, kk),
                    ) by {
                    if j < k {
                        let idx0: int = choose|idx: int|
                            0 <= idx < pre_backs.len() && pb_matches(
                                #[trigger] pre_backs[idx],
                                blk_phi_incoming(*mir_b, arena@, j, kk),
                            );
                        assert(phi_backs@[idx0] == pre_backs[idx0]);
                    } else {
                        assert(j == k);
                        assert(pb_matches(
                            phi_backs@[pre_backs.len() + kk],
                            blk_phi_incoming(*mir_b, arena@, j, kk),
                        ));
                    }
                }
            }
            bb.extend_insts(insts);
            k = k + 1;
        }
        let ghost pre = bb.insts@;
        let tid: usize = mir_b.insts[n - 1];
        let tinsts: Vec<Inst> = match Self::build_instruction(
            tid,
            &arena[tid],
            func,
            stack_allocator,
            stack_slots,
            reg_gener,
            regs,
            fmms,
            phi_backs,
        ) {
            Ok(v) => v,
            Err(e) => {
                return Err(e);
            },
        };
        let ghost ts = tinsts@;
        bb.extend_insts(tinsts);
        proof {
            let sfull = bb.insts@;
            assert(sfull == pre + ts);
            assert(is_term_kind(arena@[tid as int].kind));
            match arena@[tid as int].kind {
                MirInstKind::Br { target } => {
                    assert(ts.len() == 1);
                    assert(sfull.last() == ts[0]);
                    assert(sfull.last() is Jmp);
                    assert(forall|j: int|
                        0 <= j < sfull.len() - 1 ==> !(#[trigger] sfull[j]).spec_is_term());
                    assert(tight(sfull));
                },
                MirInstKind::CondBr { .. } => {
                    assert(ts.len() == 2);
                    assert(sfull.last() == ts[1]);
                    assert(sfull[sfull.len() - 2] == ts[0]);
                    assert(sfull[sfull.len() - 2].spec_is_branch());
                    assert(forall|j: int|
                        0 <= j < sfull.len() - 2 ==> !(#[trigger] sfull[j]).spec_is_term());
                    assert(tight(sfull));
                },
                MirInstKind::Ret { .. } => {
                    assert(sfull.last() == ts.last());
                    assert(sfull.last() is Ret);
                    assert(forall|j: int|
                        0 <= j < sfull.len() - 1 ==> !(#[trigger] sfull[j]).spec_is_term());
                    assert(tight(sfull));
                },
                _ => {
                    assert(false);
                },
            }
        }
        Ok(bb)
    }

    /// Builds the entry block: parameter materialization first, then the
    /// entry's own instructions. The second result is the function's
    /// `caller_regs_stack`: eight bytes per overflow parameter.
    pub fn build_entry(
        f: &MirFunc,
        arena: &Vec<MirInst>,
        stack_allocator: &mut StackAllocator,
        stack_slots: &mut SlotMap,
        reg_gener: &mut RegGenerator,
        regs: &mut RegMap,
        fmms: &mut FmmMap,
        phi_backs: &mut Vec<PhiBack>,
    ) -> (r: Result<(Block, u64), CompileError>)
        requires
            f.blocks@.len() >= 1,
            mir_block_wf(f.blocks@[0], arena@),
            old(reg_gener).usual_next + f.params@.len() <= u64::MAX,
            old(reg_gener).float_next + f.params@.len() <= u64::MAX,
            8 * f.params@.len() <= i64::MAX,
        ensures
            crate::backend::maps::fmm_pool_wf(old(fmms).entries@)
                ==> crate::backend::maps::fmm_pool_wf(final(fmms).entries@),
            r is Ok ==> final(phi_backs)@.len() >= old(phi_backs)@.len() && (forall|x: int|
                0 <= x < old(phi_backs)@.len() ==> #[trigger] final(phi_backs)@[x] == old(
                    phi_backs,
                )@[x]),
            r is Ok ==> forall|j: int, k: int|
                #[trigger] blk_phi_incoming_at(f.blocks@[0], arena@, j, k) ==> exists|idx: int|
                    0 <= idx < final(phi_backs)@.len() && pb_matches(
                        #[trigger] final(phi_backs)@[idx],
                        blk_phi_incoming(f.blocks@[0], arena@, j, k),
                    ),
            r matches Ok((bb, crs)) ==> crs == 8 * ovf_cnt(f.params@, f.params@.len() as int)
                && bb.label == f.blocks@[0].label && tight(bb.insts@) && bb.insts@.len()
                >= f.params@.len() && (forall|i: int|
                0 <= i < f.params@.len() ==> param_inst_ok(
                    f.params@,
                    old(reg_gener).usual_next as int,
                    old(reg_gener).float_next as int,
                    i,
                    #[trigger] bb.insts@[i],
                )) && params_bound(
                final(regs).view_map(),
                f.params@,
                old(reg_gener).usual_next as int,
                old(reg_gener).float_next as int,
            ),
    {
        let (pinsts, crs): (Vec<Inst>, u64) = match Self::build_params(
            &f.params,
            reg_gener,
            regs,
        ) {
            Ok(p) => p,
            Err(e) => {
                return Err(e);
            },
        };
        let ghost mid_regs = regs.view_map();
        let body: Block = match Self::build_bb(
            arena,
            &f.blocks[0],
            f,
            stack_allocator,
            stack_slots,
            reg_gener,
            regs,
            fmms,
            phi_backs,
        ) {
            Ok(b) => b,
            Err(e) => {
                return Err(e);
            },
        };
        let np_bound: usize = f.params.len();
        proof {
            assert(f.params@.len() == np_bound);
            assert forall|p: usize|
                #![trigger regs.view_map().contains_key(ValueKey::Param(p))]
                0 <= p < f.params@.len() implies regs.view_map().contains_key(ValueKey::Param(p))
                && regs.view_map()[ValueKey::Param(p)] == param_vreg(
                f.params@,
                old(reg_gener).usual_next as int,
                old(reg_gener).float_next as int,
                p as int,
            ) by {
                lemma_params_map_get(
                    old(regs).view_map(),
                    f.params@,
                    old(reg_gener).usual_next as int,
                    old(reg_gener).float_next as int,
                    f.params@.len() as int,
                    ValueKey::Param(p),
                );
                assert(mid_regs.contains_key(ValueKey::Param(p)));
                assert(mid_regs[ValueKey::Param(p)] == param_vreg(
                    f.params@,
                    old(reg_gener).usual_next as int,
                    old(reg_gener).float_next as int,
                    p as int,
                ));
                assert(regs.view_map().contains_key(ValueKey::Param(p)) == mid_regs.contains_key(
                    ValueKey::Param(p),
                ));
            }
            assert(params_bound(
                regs.view_map(),
                f.params@,
                old(reg_gener).usual_next as int,
                old(reg_gener).float_next as int,
            ));
        }
        let ghost pv = pinsts@;
        let ghost bodyv = body.insts@;
        let mut entry: Block = Block::new(body.label.clone());
        entry.extend_insts(pinsts);
        entry.extend_insts(body.insts);
        proof {
            assert(entry.insts@ == pv + bodyv);
            assert forall|i: int| 0 <= i < f.params@.len() implies param_inst_ok(
                f.params@,
                old(reg_gener).usual_next as int,
                old(reg_gener).float_next as int,
                i,
                #[trigger] entry.insts@[i],
            ) by {
                assert(entry.insts@[i] == pv[i]);
            }
            assert(tight(pv + bodyv)) by {
                if bodyv.len() >= 1 && (bodyv.last() is Jmp || bodyv.last() is Ret) && (forall|
                    j: int,
                |
                    0 <= j < bodyv.len() - 1 ==> !bodyv[j].spec_is_term()) {
                    assert((pv + bodyv).last() == bodyv.last());
                    assert(forall|j: int|
                        0 <= j < (pv + bodyv).len() - 1 ==> !(#[trigger] (pv + bodyv)[
                            j
                        ]).spec_is_term());
                } else {
                    assert((pv + bodyv).last() == bodyv.last());
                    assert((pv + bodyv)[(pv + bodyv).len() - 2] == bodyv[bodyv.len() - 2]);
                    assert(forall|j: int|
                        0 <= j < (pv + bodyv).len() - 2 ==> !(#[trigger] (pv + bodyv)[
                            j
                        ]).spec_is_term());
                }
            }
        }
        Ok((entry, crs))
    }

    /// Builds one function: the entry first, the other blocks in order, the
    /// return register from the return type, and PHI elimination last (one
    /// copy before the terminator of each incoming predecessor). Float
    /// literals are interned into the module-wide pool `fmms`.
    pub fn build_func(f: &MirFunc, arena: &Vec<MirInst>, fmms: &mut FmmMap) -> (r: Result<
        (Func, u64),
        CompileError,
    >)
        requires
            f.params@.len() <= u64::MAX - 32,
            8 * f.params@.len() <= i64::MAX,
        ensures
            crate::backend::maps::fmm_pool_wf(old(fmms).entries@)
                ==> crate::backend::maps::fmm_pool_wf(final(fmms).entries@),
            r matches Ok((built, crs)) ==> phis_resolved(*f, arena@, built),
            r matches Ok((built, crs)) ==> built.name == f.name && built.args@.len()
                == f.params@.len() && crs == 8 * ovf_cnt(f.params@, f.params@.len() as int) && (
            match f.return_type {
                ValueType::Void => built.ret is None,
                ValueType::Int | ValueType::Bool => built.ret == Some(Reg::spec_a(0)),
                ValueType::Float => built.ret == Some(Reg::spec_fa(0)),
                _ => false,
            }) && built.stack_allocator is Some && built.reg_gener is Some && built.bbs().len()
                == f.blocks@.len() && (forall|b: int|
                0 <= b < f.blocks@.len() ==> (#[trigger] built.bbs()[b]).label@ == f.blocks@[
                    b
                ].label@) && (forall|b: int|
                0 <= b < built.bbs().len() ==> tight((#[trigger] built.bbs()[b]).insts@)),
    {
        if f.blocks.len() == 0 {
            return Err(CompileError::UnsupportedIR);
        }
        let ret_reg: Option<Reg> = match &f.return_type {
            ValueType::Void => None,
            ValueType::Int | ValueType::Bool => Some(Reg::a(0)),
            ValueType::Float => Some(Reg::fa(0)),
            _ => {
                return Err(CompileError::UnsupportedIR);
            },
        };
        let mut wf_ok: bool = true;
        let mut bi: usize = 0;
        while bi < f.blocks.len() && wf_ok
            invariant
                bi <= f.blocks@.len(),
                wf_ok ==> forall|b: int|
                    0 <= b < bi ==> mir_block_wf(#[trigger] f.blocks@[b], arena@),
            decreases f.blocks@.len() - bi,
        {
            if !Self::check_mir_block(&f.blocks[bi], arena) {
                wf_ok = false;
            }
            bi = bi + 1;
        }
        if !wf_ok {
            return Err(CompileError::StructuralViolation);
        }
        let mut args: Vec<String> = Vec::new();
        let mut ai: usize = 0;
        while ai < f.params.len()
            invariant
                ai <= f.params@.len(),
                args@.len() == ai,
            decreases f.params@.len() - ai,
        {
            args.push(f.params[ai].name.clone());
            ai = ai + 1;
        }
        let mut reg_gener: RegGenerator = RegGenerator::new();
        let mut regs: RegMap = RegMap::new();
        let mut stack_allocator: StackAllocator = StackAllocator::new();
        let mut stack_slots: SlotMap = SlotMap::new();
        let mut phi_backs: Vec<PhiBack> = Vec::new();
        let (mut entry, crs): (Block, u64) = match Self::build_entry(
            f,
            arena,
            &mut stack_allocator,
            &mut stack_slots,
            &mut reg_gener,
            &mut regs,
            fmms,
            &mut phi_backs,
        ) {
            Ok(p) => p,
            Err(e) => {
                return Err(e);
            },
        };
        let mut others: Vec<Block> = Vec::new();
        let mut b: usize = 1;
        while b < f.blocks.len()
            invariant
                1 <= b <= f.blocks@.len(),
                forall|x: int| 0 <= x < f.blocks@.len() ==> mir_block_wf(#[trigger] f.blocks@[x], arena@),
                others@.len() == b - 1,
                forall|x: int|
                    0 <= x < b - 1 ==> (#[trigger] others@[x]).label@ == f.blocks@[x + 1].label@,
                tight(entry.insts@),
                crate::backend::maps::fmm_pool_wf(old(fmms).entries@)
                    ==> crate::backend::maps::fmm_pool_wf(fmms.entries@),
                forall|x: int| 0 <= x < b - 1 ==> tight((#[trigger] others@[x]).insts@),
                forall|b2: int, j: int, kk: int|
                    #[trigger] phi_incoming_at(*f, arena@, b2, j, kk) && b2 < b ==> exists|
                        idx: int,
                    |
                        0 <= idx < phi_backs@.len() && pb_matches(
                            #[trigger] phi_backs@[idx],
                            phi_incoming(*f, arena@, b2, j, kk),
                        ),
            decreases f.blocks@.len() - b,
        {
            let ghost pre_backs = phi_backs@;
            let blk: Block = match Self::build_bb(
                arena,
                &f.blocks[b],
                f,
                &mut stack_allocator,
                &mut stack_slots,
                &mut reg_gener,
                &mut regs,
                fmms,
                &mut phi_backs,
            ) {
                Ok(p) => p,
                Err(e) => {
                    return Err(e);
                },
            };
            proof {
                assert forall|b2: int, j: int, kk: int|
                    #[trigger] phi_incoming_at(*f, arena@, b2, j, kk) && b2 < b + 1 implies exists|
                    idx: int,
                |
                    0 <= idx < phi_backs@.len() && pb_matches(
                        #[trigger] phi_backs@[idx],
                        phi_incoming(*f, arena@, b2, j, kk),
                    ) by {
                    if b2 < b {
                        let idx0: int = choose|idx: int|
                            0 <= idx < pre_backs.len() && pb_matches(
                                #[trigger] pre_backs[idx],
                                phi_incoming(*f, arena@, b2, j, kk),
                            );
                        assert(phi_backs@[idx0] == pre_backs[idx0]);
                    } else {
                        assert(blk_phi_incoming_at(f.blocks@[b as int], arena@, j, kk));
                        let idx0: int = choose|idx: int|
                            0 <= idx < phi_backs@.len() && pb_matches(
                                #[trigger] phi_backs@[idx],
                                blk_phi_incoming(f.blocks@[b as int], arena@, j, kk),
                            );
                        assert(pb_matches(
                            phi_backs@[idx0],
                            phi_incoming(*f, arena@, b2, j, kk),
                        ));
                    }
                }
            }
            others.push(blk);
            b = b + 1;
        }
        // PHI elimination: insert each pending copy before its predecessor's
        // terminator. A float-constant incoming goes through the
        // float-literal pool, like any other float constant.
        let mut pi: usize = 0;
        while pi < phi_backs.len()
            invariant
                pi <= phi_backs@.len(),
                entry.label@ == f.blocks@[0].label@,
                others@.len() == f.blocks@.len() - 1,
                forall|x: int|
                    0 <= x < others@.len() ==> (#[trigger] others@[x]).label@ == f.blocks@[
                        x + 1
                    ].label@,
                tight(entry.insts@),
                crate::backend::maps::fmm_pool_wf(old(fmms).entries@)
                    ==> crate::backend::maps::fmm_pool_wf(fmms.entries@),
                forall|x: int| 0 <= x < others@.len() ==> tight((#[trigger] others@[x]).insts@),
                forall|b2: int, j: int, kk: int|
                    #[trigger] phi_incoming_at(*f, arena@, b2, j, kk) ==> exists|idx: int|
                        0 <= idx < phi_backs@.len() && pb_matches(
                            #[trigger] phi_backs@[idx],
                            phi_incoming(*f, arena@, b2, j, kk),
                        ),
                forall|q2: int|
                    0 <= q2 < pi ==> blocks_contain_copy(
                        seq![entry] + others@,
                        #[trigger] phi_backs@[q2],
                    ),
            decreases phi_backs@.len() - pi,
        {
            let mut copies: Vec<Inst> = Vec::new();
            proof {
                assert(forall|x: int|
                    0 <= x < copies@.len() ==> !(#[trigger] copies@[x]).spec_is_term());
            }
            match &phi_backs[pi].src {
                PhiSrc::Imm(v) => {
                    copies.push(
                        Inst::Li {
                            dst: Operand::Reg(phi_backs[pi].dst),
                            src: Operand::Imm(*v),
                        },
                    );
                },
                PhiSrc::Fmm(bits) => {
                    let (vreg, mut pre): (Reg, Vec<Inst>) = Self::prepare_fmm(
                        *bits,
                        &mut reg_gener,
                        fmms,
                    );
                    copies.append(&mut pre);
                    copies.push(
                        Inst::Un {
                            op: UnOp::Mv,
                            dst: Operand::Reg(phi_backs[pi].dst),
                            src: Operand::Reg(vreg),
                        },
                    );
                },
                PhiSrc::Value(k) => {
                    match regs.get(*k) {
                        Some(rg) => {
                            copies.push(
                                Inst::Un {
                                    op: UnOp::Mv,
                                    dst: Operand::Reg(phi_backs[pi].dst),
                                    src: Operand::Reg(rg),
                                },
                            );
                        },
                        None => {
                            return Err(CompileError::LookupMiss);
                        },
                    }
                },
            };
            proof {
                assert(pb_copy_like(copies@.last(), phi_backs@[pi as int].src));
            }
            let into_entry: bool = entry.label == phi_backs[pi].pred_label;
            let mut oi: usize = 0;
            if !into_entry {
                let mut found: bool = false;
                let m: usize = others.len();
                let mut scan: usize = 0;
                while scan < m && !found
                    invariant
                        m == others@.len(),
                        scan <= m,
                        pi < phi_backs@.len(),
                        found ==> oi < m && others@[oi as int].label@ == phi_backs@[
                            pi as int
                        ].pred_label@,
                    decreases m - scan,
                {
                    if others[scan].label == phi_backs[pi].pred_label {
                        found = true;
                        oi = scan;
                    }
                    scan = scan + 1;
                }
                if !found {
                    return Err(CompileError::LookupMiss);
                }
            }
            let ghost oi0 = oi as int;
            while copies.len() > 0
                invariant
                    entry.label@ == f.blocks@[0].label@,
                    others@.len() == f.blocks@.len() - 1,
                    forall|x: int|
                        0 <= x < others@.len() ==> (#[trigger] others@[x]).label@ == f.blocks@[
                            x + 1
                        ].label@,
                    tight(entry.insts@),
                    forall|x: int|
                        0 <= x < others@.len() ==> tight((#[trigger] others@[x]).insts@),
                    forall|x: int| 0 <= x < copies@.len() ==> !(#[trigger] copies@[x]).spec_is_term(),
                    into_entry || oi0 < others@.len(),
                    oi == oi0,
                    pi < phi_backs@.len(),
                    into_entry ==> entry.label@ == phi_backs@[pi as int].pred_label@,
                    !into_entry ==> others@[oi0].label@ == phi_backs@[pi as int].pred_label@,
                    copies@.len() > 0 ==> pb_copy_like(copies@.last(), phi_backs@[pi as int].src),
                    copies@.len() == 0 ==> blocks_contain_copy(
                        seq![entry] + others@,
                        phi_backs@[pi as int],
                    ),
                    forall|q2: int|
                        0 <= q2 < pi ==> blocks_contain_copy(
                            seq![entry] + others@,
                            #[trigger] phi_backs@[q2],
                        ),
                decreases copies@.len(),
            {
                let ghost pre_entry = entry;
                let ghost pre_others_all = others@;
                let ghost pre_copies = copies@;
                let c: Inst = copies.remove(0);
                if into_entry {
                    let ghost pre_insts = entry.insts@;
                    entry.insert_before_term(c);
                    proof {
                        crate::backend::tight_term::lemma_insert_before_term_keeps_tight(
                            pre_insts,
                            c,
                        );
                        crate::backend::block::lemma_trailing_terms_le(pre_insts);
                        let bbs0 = seq![pre_entry] + pre_others_all;
                        let bbs1 = seq![entry] + others@;
                        let pos = pre_insts.len() - crate::backend::block::trailing_terms(
                            pre_insts,
                        );
                        assert forall|p: int|
                            0 <= p < bbs0.len() && p != 0 implies #[trigger] bbs1[p] == bbs0[
                            p
                        ] by {
                            assert(bbs1[p] == others@[p - 1]);
                            assert(bbs0[p] == pre_others_all[p - 1]);
                        }
                        assert(bbs1[0].insts@ == bbs0[0].insts@.insert(pos as int, c));
                        assert forall|q2: int|
                            0 <= q2 < pi implies blocks_contain_copy(
                            bbs1,
                            #[trigger] phi_backs@[q2],
                        ) by {
                            lemma_contain_copy_one_insert(
                                bbs0,
                                bbs1,
                                0,
                                pos as int,
                                c,
                                phi_backs@[q2],
                            );
                        }
                        if pre_copies.len() == 1 {
                            assert(c == pre_copies.last());
                            assert(bbs1[0].insts@[pos as int] == c);
                            assert(blocks_contain_copy(bbs1, phi_backs@[pi as int]));
                        }
                    }
                } else {
                    let ghost pre_insts = others@[oi as int].insts@;
                    let ghost pre_others = others@;
                    others[oi].insert_before_term(c);
                    proof {
                        crate::backend::tight_term::lemma_insert_before_term_keeps_tight(
                            pre_insts,
                            c,
                        );
                        assert forall|x: int|
                            0 <= x < others@.len() && x != oi0 implies #[trigger] others@[x]
                            == pre_others[x] by {}
                        crate::backend::block::lemma_trailing_terms_le(pre_insts);
                        let bbs0 = seq![pre_entry] + pre_others;
                        let bbs1 = seq![entry] + others@;
                        let t = 1 + oi0;
                        let pos = pre_insts.len() - crate::backend::block::trailing_terms(
                            pre_insts,
                        );
                        assert forall|p: int|
                            0 <= p < bbs0.len() && p != t implies #[trigger] bbs1[p] == bbs0[
                            p
                        ] by {
                            if p != 0 {
                                assert(bbs1[p] == others@[p - 1]);
                                assert(bbs0[p] == pre_others[p - 1]);
                            }
                        }
                        assert(bbs1[t].insts@ == bbs0[t].insts@.insert(pos as int, c));
                        assert(bbs1[t].label@ == bbs0[t].label@);
                        assert forall|q2: int|
                            0 <= q2 < pi implies blocks_contain_copy(
                            bbs1,
                            #[trigger] phi_backs@[q2],
                        ) by {
                            lemma_contain_copy_one_insert(
                                bbs0,
                                bbs1,
                                t,
                                pos as int,
                                c,
                                phi_backs@[q2],
                            );
                        }
                        if pre_copies.len() == 1 {
                            assert(c == pre_copies.last());
                            assert(bbs1[t].insts@[pos as int] == c);
                            assert(bbs1[t].label@ == phi_backs@[pi as int].pred_label@);
                            assert(blocks_contain_copy(bbs1, phi_backs@[pi as int]));
                        }
                    }
                }
            }
            pi = pi + 1;
        }
        let ghost fin_entry = entry;
        let ghost fin_others = others@;
        let ghost fin_backs = phi_backs@;
        let mut built: Func = Func::new(f.name.clone(), args, entry);
        built.extend_bbs(others);
        built.set_ret(ret_reg);
        built.set_stack_allocator(Some(stack_allocator));
        built.set_reg_gener(Some(reg_gener));
        proof {
            assert(built.bbs() =~= seq![fin_entry] + fin_others);
            assert forall|b2: int, j: int, kk: int|
                #[trigger] phi_incoming_at(*f, arena@, b2, j, kk) implies exists|p: int, q: int|
                #![trigger built.bbs()[p].insts@[q]]
                0 <= p < built.bbs().len() && built.bbs()[p].label@ == phi_incoming(
                    *f,
                    arena@,
                    b2,
                    j,
                    kk,
                ).1@ && 0 <= q < built.bbs()[p].insts@.len() && phi_copy_like(
                built.bbs()[p].insts@[q],
                phi_incoming(*f, arena@, b2, j, kk).0,
            ) by {
                let inc = phi_incoming(*f, arena@, b2, j, kk);
                let idx: int = choose|idx: int|
                    0 <= idx < fin_backs.len() && pb_matches(#[trigger] fin_backs[idx], inc);
                let pb = fin_backs[idx];
                assert(blocks_contain_copy(seq![fin_entry] + fin_others, pb));
                let (p, q): (int, int) = choose|p: int, q: int|
                    #![trigger (seq![fin_entry] + fin_others)[p].insts@[q]]
                    0 <= p < (seq![fin_entry] + fin_others).len() && (seq![fin_entry]
                        + fin_others)[p].label@ == pb.pred_label@ && 0 <= q < (seq![fin_entry]
                        + fin_others)[p].insts@.len() && pb_copy_like(
                        (seq![fin_entry] + fin_others)[p].insts@[q],
                        pb.src,
                    );
                assert(built.bbs()[p] == (seq![fin_entry] + fin_others)[p]);
                assert(phi_copy_like(built.bbs()[p].insts@[q], inc.0));
            }
            assert(phis_resolved(*f, arena@, built));
        }
        Ok((built, crs))
    }

    /// Whether a mid-level block is well formed over the arena.
    pub fn check_mir_block(b: &MirBlock, arena: &Vec<MirInst>) -> (r: bool)
        ensures
            r == mir_block_wf(*b, arena@),
    {
        let n: usize = b.insts.len();
        if n == 0 {
            return false;
        }
        let mut k: usize = 0;
        let mut ok: bool = true;
        while k < n
            invariant
                n == b.insts@.len(),
                k <= n,
                ok ==> forall|j: int| 0 <= j < k ==> #[trigger] b.insts@[j] < arena@.len(),
                ok ==> forall|j: int|
                    0 <= j < k && j < n - 1 ==> !is_term_kind(
                        arena@[#[trigger] b.insts@[j] as int].kind,
                    ),
                ok ==> (k == n ==> is_term_kind(arena@[b.insts@[n - 1] as int].kind)),
                !ok ==> !mir_block_wf(*b, arena@),
            decreases n - k,
        {
            let iid: usize = b.insts[k];
            if iid >= arena.len() {
                ok = false;
                k = n;
            } else {
                let term: bool = match &arena[iid].kind {
                    MirInstKind::Br { .. } => true,
                    MirInstKind::CondBr { .. } => true,
                    MirInstKind::Ret { .. } => true,
                    _ => false,
                };
                if k < n - 1 && term {
                    ok = false;
                    k = n;
                } else if k == n - 1 && !term {
                    ok = false;
                    k = n;
                } else {
                    k = k + 1;
                }
            }
        }
        ok
    }
}

} // verus!

verus! {

impl IRBuilder {
    /// Builds every non-library function of the program, propagates each
    /// call site's callee need into `max_callee_regs_stack`, rebuilds the
    /// frames, and uniquifies the block labels. All functions share one
    /// module-wide float-literal pool, which comes back beside them with
    /// exactly one entry per distinct bit pattern.
    pub fn build_funcs(program: &MirProgram) -> (r: Result<
        (Vec<Func>, Vec<(u64, crate::backend::maps::FloatVar)>),
        CompileError,
    >)
        ensures
            r matches Ok((funcs, pool)) ==> crate::backend::maps::fmm_pool_wf(pool@),
            r matches Ok((funcs, fmms)) ==> forall|i: int|
                0 <= i < funcs@.len() ==> (#[trigger] funcs@[i]).stack_allocator is Some && funcs@[
                    i
                ].reg_gener is Some,
            r matches Ok((funcs, fmms)) ==> funcs@.map_values(|g: Func| g.name@)
                == program.module.functions@.filter(|mf: MirFunc| !mf.is_lib).map_values(
                |mf: MirFunc| mf.name@,
            ),
    {
        let n_funcs: usize = program.module.functions.len();
        let mut funcs: Vec<Func> = Vec::new();
        let mut fmms: FmmMap = FmmMap::new();
        let mut caller_regs_stacks: crate::backend::maps::NameU32Map =
            crate::backend::maps::NameU32Map::new();
        let mut fi: usize = 0;
        proof {
            reveal(Seq::filter);
            assert(program.module.functions@.take(0).filter(|mf: MirFunc| !mf.is_lib)
                =~= Seq::<MirFunc>::empty());
            assert(funcs@.map_values(|g: Func| g.name@) =~= Seq::<Seq<char>>::empty());
        }
        while fi < n_funcs
            invariant
                n_funcs == program.module.functions@.len(),
                fi <= n_funcs,
                forall|k: int|
                    0 <= k < funcs@.len() ==> (#[trigger] funcs@[k]).reg_gener is Some && funcs@[
                        k
                    ].stack_allocator is Some,
                crate::backend::maps::fmm_pool_wf(fmms.entries@),
                funcs@.map_values(|g: Func| g.name@) == program.module.functions@.take(
                    fi as int,
                ).filter(|mf: MirFunc| !mf.is_lib).map_values(|mf: MirFunc| mf.name@),
            decreases n_funcs - fi,
        {
            let ghost fnames0 = funcs@.map_values(|g: Func| g.name@);
            proof {
                reveal(Seq::filter);
                assert(program.module.functions@.take(fi as int + 1).drop_last()
                    =~= program.module.functions@.take(fi as int));
                assert(program.module.functions@.take(fi as int + 1).last()
                    == program.module.functions@[fi as int]);
            }
            let f: &MirFunc = &program.module.functions[fi];
            if f.is_lib {
                fi = fi + 1;
                continue ;
            }
            if f.blocks.len() == 0 {
                return Err(CompileError::UnsupportedIR);
            }
            if (f.params.len() as u64) > ((i64::MAX / 8) as u64) {
                return Err(CompileError::Range);
            }
            let built: (Func, u64) = match Self::build_func(f, &program.insts, &mut fmms) {
                Ok(t) => t,
                Err(e) => {
                    return Err(e);
                },
            };
            let (bf, crs) = built;
            if crs > u32::MAX as u64 {
                return Err(CompileError::Range);
            }
            caller_regs_stacks.insert(bf.name.clone(), crs as u32);
            funcs.push(bf);
            proof {
                assert(funcs@.map_values(|g: Func| g.name@) =~= fnames0.push(
                    funcs@.last().name@,
                ));
                assert(funcs@.last().name@ == program.module.functions@[fi as int].name@);
            }
            fi = fi + 1;
        }
        proof {
            assert(program.module.functions@.take(n_funcs as int) =~= program.module.functions@);
        }
        let ghost built_names = funcs@.map_values(|g: Func| g.name@);
        let nf: usize = funcs.len();
        let mut ok_len: bool = true;
        let mut ci: usize = 0;
        while ci < nf
            invariant
                nf == funcs@.len(),
                ci <= nf,
                ok_len ==> forall|i: int|
                    0 <= i < ci ==> (#[trigger] funcs@[i]).other_bbs@.len() < usize::MAX,
            decreases nf - ci,
        {
            if funcs[ci].other_bbs.len() >= usize::MAX {
                ok_len = false;
            }
            ci = ci + 1;
        }
        if !ok_len {
            return Err(CompileError::Range);
        }
        proof {
            assert forall|i: int| 0 <= i < funcs@.len() implies (#[trigger] funcs@[
                i
            ]).other_bbs@.len() < usize::MAX by {}
        }
        let max_map: crate::backend::maps::NameU32Map = Self::prepare_max_callee_regs_stack(
            &funcs,
            &caller_regs_stacks,
        );
        let mut mi: usize = 0;
        while mi < funcs.len()
            invariant
                mi <= funcs@.len(),
                forall|i: int|
                    0 <= i < funcs@.len() ==> (#[trigger] funcs@[i]).other_bbs@.len() < usize::MAX,
                forall|k: int|
                    0 <= k < funcs@.len() ==> (#[trigger] funcs@[k]).reg_gener is Some && funcs@[
                        k
                    ].stack_allocator is Some,
                funcs@.map_values(|g: Func| g.name@) == built_names,
            decreases funcs@.len() - mi,
        {
            let need: u32 = match max_map.get(&funcs[mi].name) {
                Some(v) => v,
                None => 0,
            };
            funcs[mi].max_callee_regs_stack = need;
            mi = mi + 1;
        }
        if let Err(e) = Self::realloc_stack_slots(&mut funcs, &max_map) {
            return Err(e);
        }
        let mut li: usize = 0;
        let nf2: usize = funcs.len();
        let mut ok2: bool = true;
        while li < nf2
            invariant
                nf2 == funcs@.len(),
                li <= nf2,
                ok2 ==> forall|i: int|
                    0 <= i < li ==> (#[trigger] funcs@[i]).other_bbs@.len() < usize::MAX,
            decreases nf2 - li,
        {
            if funcs[li].other_bbs.len() >= usize::MAX {
                ok2 = false;
            }
            li = li + 1;
        }
        if !ok2 {
            return Err(CompileError::Range);
        }
        Self::rename_bb_label(&mut funcs);
        proof {
            assert forall|i: int| 0 <= i < funcs@.len() implies (#[trigger] funcs@[
                i
            ]).stack_allocator is Some && funcs@[i].reg_gener is Some by {}
            assert(funcs@.map_values(|g: Func| g.name@) =~= built_names);
        }
        Ok((funcs, fmms.entries))
    }

    /// Lowers a whole mid-level module: globals pass through, functions are
    /// built and finalized, and the synthesized float-literal pool joins
    /// the global data, one float global per distinct bit pattern.
    pub fn gen_from_mir_module(program: &MirProgram) -> (r: Result<
        crate::backend::module::Module,
        CompileError,
    >)
        ensures
            r matches Ok(m) ==> m.name@ == "main"@ && (m.entry matches Some(e) && e@ == "main"@)
                && m.global@.len() >= program.module.global_vars@.len() && (forall|gi: int|
                0 <= gi < program.module.global_vars@.len() ==> ((#[trigger] m.global@[gi])
                    matches crate::backend::module::Var::Prim(g) && g.name
                    == program.module.global_vars@[gi].name && g.init@
                    == program.module.global_vars@[gi].init@)) && (forall|i: int|
                0 <= i < m.funcs@.len() ==> (#[trigger] m.funcs@[i]).stack_allocator is Some
                    && m.funcs@[i].reg_gener is Some),
            r matches Ok(m) ==> (forall|gi: int|
                program.module.global_vars@.len() <= gi < m.global@.len() ==> ((
                #[trigger] m.global@[gi]) matches crate::backend::module::Var::Float(fv)
                    && (fv.init matches Some(bits) && fv.is_const && fv.name@ == "_fc_"@
                    + crate::textfmt::hex_chars(bits as nat)))),
            r matches Ok(m) ==> (forall|gi: int, gj: int|
                program.module.global_vars@.len() <= gi < gj < m.global@.len() ==> (
                #[trigger] m.global@[gi])->Float_0.init != (#[trigger] m.global@[
                    gj
                ])->Float_0.init),
    {
        let built: (Vec<Func>, Vec<(u64, crate::backend::maps::FloatVar)>) =
            match Self::build_funcs(program) {
            Ok(t) => t,
            Err(e) => {
                return Err(e);
            },
        };
        let (funcs, mut pool) = built;
        let mut global: Vec<crate::backend::module::Var> = Vec::new();
        let ng: usize = program.module.global_vars.len();
        let mut gi: usize = 0;
        while gi < ng
            invariant
                ng == program.module.global_vars@.len(),
                gi <= ng,
                global@.len() == gi,
                forall|x: int|
                    0 <= x < gi ==> ((#[trigger] global@[x]) matches
                        crate::backend::module::Var::Prim(g) && g.name
                        == program.module.global_vars@[x].name && g.init@
                        == program.module.global_vars@[x].init@),
            decreases ng - gi,
        {
            let gv = &program.module.global_vars[gi];
            let mut init: Vec<i32> = Vec::new();
            let mut vi: usize = 0;
            while vi < gv.init.len()
                invariant
                    gi < program.module.global_vars@.len(),
                    gv == &program.module.global_vars@[gi as int],
                    vi <= gv.init@.len(),
                    init@ == gv.init@.subrange(0, vi as int),
                decreases gv.init@.len() - vi,
            {
                init.push(gv.init[vi]);
                vi = vi + 1;
            }
            proof {
                assert(init@ =~= gv.init@);
            }
            global.push(
                crate::backend::module::Var::Prim(
                    crate::backend::module::GlobalVar { name: gv.name.clone(), init },
                ),
            );
            gi = gi + 1;
        }
        let ghost pool0 = pool@;
        let ghost npool0 = pool@.len() as int;
        proof {
            assert(pool@ =~= pool0.take(pool@.len() as int));
        }
        while pool.len() > 0
            invariant
                ng == program.module.global_vars@.len(),
                crate::backend::maps::fmm_pool_wf(pool0),
                npool0 == pool0.len(),
                global@.len() == ng + (npool0 - pool@.len()),
                pool@.len() <= npool0,
                pool@ == pool0.take(pool@.len() as int),
                forall|x: int|
                    0 <= x < ng ==> ((#[trigger] global@[x]) matches
                        crate::backend::module::Var::Prim(g) && g.name
                        == program.module.global_vars@[x].name && g.init@
                        == program.module.global_vars@[x].init@),
                forall|x: int|
                    ng <= x < global@.len() ==> ((#[trigger] global@[x]) matches
                        crate::backend::module::Var::Float(fv) && fv == pool0[npool0 - 1 - (x
                        - ng)].1),
            decreases pool@.len(),
        {
            let ghost plen = pool@.len() as int;
            let ghost prepool = pool@;
            match pool.pop() {
                Some((_, fv)) => {
                    proof {
                        assert(npool0 == pool0.len());
                        assert(1 <= plen <= npool0);
                        assert(prepool == pool0.take(plen));
                        assert(prepool.len() == plen);
                        assert(pool0.take(plen)[plen - 1] == pool0[plen - 1]);
                        assert(fv == prepool[plen - 1].1);
                        assert(pool@ =~= pool0.take(plen - 1));
                    }
                    global.push(crate::backend::module::Var::Float(fv));
                },
                None => {},
            }
        }
        proof {
            assert forall|gi: int|
                ng <= gi < global@.len() implies ((#[trigger] global@[gi]) matches
                crate::backend::module::Var::Float(fv) && (fv.init matches Some(bits)
                    && fv.is_const && fv.name@ == "_fc_"@ + crate::textfmt::hex_chars(
                    bits as nat,
                ))) by {
                let i1 = npool0 - 1 - (gi - ng);
                assert(pool0[i1].1.init == Some(pool0[i1].0));
            }
            assert forall|gi: int, gj: int|
                ng <= gi < gj < global@.len() implies (#[trigger] global@[gi])->Float_0.init != (
            #[trigger] global@[gj])->Float_0.init by {
                let i1 = npool0 - 1 - (gi - ng);
                let j1 = npool0 - 1 - (gj - ng);
                assert(pool0[i1].1.init == Some(pool0[i1].0));
                assert(pool0[j1].1.init == Some(pool0[j1].0));
                assert(pool0[j1].0 != pool0[i1].0);
            }
        }
        Ok(
            crate::backend::module::Module {
                name: "main".to_owned(),
                entry: Some("main".to_owned()),
                global,
                funcs,
            },
        )
    }
}

} // verus!
