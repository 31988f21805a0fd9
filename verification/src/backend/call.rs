//! Call lowering per the ABI: the first eight integer-class and first eight
//! float-class arguments ride in A0..A7 / FA0..FA7; the rest are stored to
//! the outgoing-argument area at SP+0 upward, eight bytes apiece. A call to
//! an `llvm.memset` intrinsic is rewritten to a plain `memset` call.

use vstd::prelude::*;
use vstd::string::StrSliceExecFns;

use crate::backend::builder::IRBuilder;
use crate::backend::inst::{Inst, MemOp, UnOp};
use crate::backend::maps::{FmmMap, RegMap, SlotMap, ValueKey};
use crate::backend::operand::Operand;
use crate::backend::reg::{Reg, RegGenerator};
use crate::error::CompileError;
use crate::middle::mir::{Constant, MirOperand, ValueType};

verus! {

/// Whether `p` occurs in `s` as a contiguous run.
pub open spec fn has_substr(s: Seq<char>, p: Seq<char>) -> bool {
    exists|i: int| 0 <= i && i + p.len() <= s.len() && #[trigger] s.subrange(i, i + p.len()) == p
}

/// Substring search, for spotting intrinsic names.
pub fn contains_substr(s: &String, p: &str) -> (r: bool)
    ensures
        r == has_substr(s@, p@),
{
    let s_str: &str = s.as_str();
    let n: usize = s_str.unicode_len();
    let m: usize = p.unicode_len();
    if m == 0 {
        proof {
            assert(s@.subrange(0int, 0int + p@.len() as int) =~= p@);
        }
        return true;
    }
    if m > n {
        proof {
            if has_substr(s@, p@) {
                let i: int = choose|i: int|
                    0 <= i && i + p@.len() <= s@.len() && #[trigger] s@.subrange(i, i + p@.len())
                        == p@;
                assert(false);
            }
        }
        return false;
    }
    let mut i: usize = 0;
    while i <= n - m
        invariant
            s_str@ == s@,
            n == s@.len(),
            m == p@.len(),
            1 <= m <= n,
            i <= n - m + 1,
            forall|k: int| 0 <= k < i ==> #[trigger] s@.subrange(k, k + p@.len()) != p@,
        decreases n - m - i + 1,
    {
        let mut j: usize = 0;
        let mut ok: bool = true;
        while j < m && ok
            invariant
                s_str@ == s@,
                n == s@.len(),
                m == p@.len(),
                i + m <= n,
                j <= m,
                ok ==> forall|k: int| 0 <= k < j ==> s@[i + k] == p@[k],
                !ok ==> s@.subrange(i as int, i + p@.len()) != p@,
            decreases m - j,
        {
            let sc: char = s_str.get_char(i + j);
            let pc: char = p.get_char(j);
            if sc != pc {
                proof {
                    assert(s@.subrange(i as int, i + p@.len()).len() == p@.len());
                    assert(s@.subrange(i as int, i + p@.len())[j as int] == s@[i + j]);
                }
                ok = false;
            }
            j = j + 1;
        }
        if ok {
            proof {
                assert forall|k: int| 0 <= k < p@.len() implies s@.subrange(
                    i as int,
                    i + p@.len(),
                )[k] == p@[k] by {
                    assert(s@[i + k] == p@[k]);
                }
                assert(s@.subrange(i as int, i + p@.len()) =~= p@);
            }
            return true;
        }
        i = i + 1;
    }
    proof {
        if has_substr(s@, p@) {
            let k: int = choose|k: int|
                0 <= k && k + p@.len() <= s@.len() && #[trigger] s@.subrange(k, k + p@.len())
                    == p@;
            assert(k < i);
            assert(false);
        }
    }
    false
}


/// Whether an argument operand resolves to something placeable (anything
/// `no_load_spec` yields except a label).
pub open spec fn arg_ok(op: MirOperand, m: Map<ValueKey, Reg>) -> bool {
    match crate::backend::builder::no_load_spec(op, m) {
        Ok(o) => !(o is Label),
        Err(_) => false,
    }
}

/// Whether every argument resolves.
pub open spec fn args_ok(args: Seq<MirOperand>, m: Map<ValueKey, Reg>) -> bool {
    forall|k: int| 0 <= k < args.len() ==> arg_ok(#[trigger] args[k], m)
}

/// How many of the first `i` arguments are integer-class (registers of the
/// integer file, immediates, stack slots).
pub open spec fn int_args(args: Seq<MirOperand>, m: Map<ValueKey, Reg>, i: int) -> nat
    decreases i,
{
    if i <= 0 {
        0
    } else {
        int_args(args, m, i - 1) + (match crate::backend::builder::no_load_spec(args[i - 1], m) {
            Ok(o) => match o {
                Operand::Reg(rg) => if rg.usual {
                    1nat
                } else {
                    0nat
                },
                Operand::Imm(_) => 1nat,
                Operand::StackSlot(_) => 1nat,
                _ => 0nat,
            },
            Err(_) => 0nat,
        })
    }
}

/// How many of the first `i` arguments are float-class.
pub open spec fn float_args(args: Seq<MirOperand>, m: Map<ValueKey, Reg>, i: int) -> nat
    decreases i,
{
    if i <= 0 {
        0
    } else {
        float_args(args, m, i - 1) + (match crate::backend::builder::no_load_spec(
            args[i - 1],
            m,
        ) {
            Ok(o) => match o {
                Operand::Reg(rg) => if rg.usual {
                    0nat
                } else {
                    1nat
                },
                Operand::Fmm(_) => 1nat,
                _ => 0nat,
            },
            Err(_) => 0nat,
        })
    }
}

/// The physical argument registers the first `i` arguments fill, in order:
/// the first eight of each class take A0..A7 / FA0..FA7; overflow arguments
/// fill none.
pub open spec fn filled_regs(args: Seq<MirOperand>, m: Map<ValueKey, Reg>, i: int) -> Seq<Reg>
    decreases i,
{
    if i <= 0 {
        Seq::empty()
    } else {
        let prev = filled_regs(args, m, i - 1);
        let ic = int_args(args, m, i - 1);
        let fc = float_args(args, m, i - 1);
        match crate::backend::builder::no_load_spec(args[i - 1], m) {
            Ok(o) => match o {
                Operand::Reg(rg) => if rg.usual && ic < 8 {
                    prev.push(Reg::spec_a(ic))
                } else if !rg.usual && fc < 8 {
                    prev.push(Reg::spec_fa(fc))
                } else {
                    prev
                },
                Operand::Imm(_) => if ic < 8 {
                    prev.push(Reg::spec_a(ic))
                } else {
                    prev
                },
                Operand::Fmm(_) => if fc < 8 {
                    prev.push(Reg::spec_fa(fc))
                } else {
                    prev
                },
                Operand::StackSlot(_) => if ic < 8 {
                    prev.push(Reg::spec_a(ic))
                } else {
                    prev
                },
                _ => prev,
            },
            Err(_) => prev,
        }
    }
}

proof fn lemma_arg_counts_le(args: Seq<MirOperand>, m: Map<ValueKey, Reg>, i: int)
    requires
        0 <= i <= args.len(),
    ensures
        int_args(args, m, i) <= i,
        float_args(args, m, i) <= i,
    decreases i,
{
    if i > 0 {
        lemma_arg_counts_le(args, m, i - 1);
    }
}


/// Whether a memset operand can be moved into its argument register: a
/// small integer constant, a bound parameter, or an instruction result
/// (bound, or an alloca with a slot).
pub open spec fn memset_arg_ok(
    op: MirOperand,
    slots: Map<usize, crate::backend::stack::StackSlot>,
    m: Map<ValueKey, Reg>,
) -> bool {
    match op {
        MirOperand::Constant(c) => c is Int || c is Bool || c is SignedChar,
        MirOperand::Parameter(p) => m.contains_key(ValueKey::Param(p)),
        MirOperand::Instruction(id) => slots.contains_key(id) || m.contains_key(
            ValueKey::Inst(id),
        ),
        MirOperand::Global(_) => false,
    }
}

/// The move that places memset operand `k` into `A_k`.
pub open spec fn memset_move_ok(
    op: MirOperand,
    slots: Map<usize, crate::backend::stack::StackSlot>,
    m: Map<ValueKey, Reg>,
    k: int,
    inst: Inst,
) -> bool {
    match op {
        MirOperand::Constant(c) => match c {
            crate::middle::mir::Constant::Int(v) => inst == (Inst::Li {
                dst: Operand::Reg(Reg::spec_a(k as nat)),
                src: Operand::Imm(v as i64),
            }),
            crate::middle::mir::Constant::SignedChar(v) => inst == (Inst::Li {
                dst: Operand::Reg(Reg::spec_a(k as nat)),
                src: Operand::Imm(v as i64),
            }),
            crate::middle::mir::Constant::Bool(b) => inst == (Inst::Li {
                dst: Operand::Reg(Reg::spec_a(k as nat)),
                src: Operand::Imm(
                    if b {
                        1
                    } else {
                        0
                    },
                ),
            }),
            _ => false,
        },
        MirOperand::Parameter(p) => m.contains_key(ValueKey::Param(p)) && inst == (Inst::Un {
            op: UnOp::Mv,
            dst: Operand::Reg(Reg::spec_a(k as nat)),
            src: Operand::Reg(m[ValueKey::Param(p)]),
        }),
        MirOperand::Instruction(id) => if slots.contains_key(id) {
            inst == (Inst::LocalAddr { dst: Reg::spec_a(k as nat), slot: slots[id] })
        } else {
            m.contains_key(ValueKey::Inst(id)) && inst == (Inst::Un {
                op: UnOp::Mv,
                dst: Operand::Reg(Reg::spec_a(k as nat)),
                src: Operand::Reg(m[ValueKey::Inst(id)]),
            })
        },
        MirOperand::Global(_) => false,
    }
}

impl IRBuilder {
    /// Interns a float constant in the literal pool and loads it through its
    /// address: the register handed back is a fresh float register holding
    /// the value.
    pub fn prepare_fmm(bits: u64, reg_gener: &mut RegGenerator, fmms: &mut FmmMap) -> (r: (
        Reg,
        Vec<Inst>,
    ))
        ensures
            r.0 == (Reg { id: old(reg_gener).float_next, usual: false }),
            r.1@.len() == 2,
            r.1@[0] matches Inst::Lla { dst, label } && dst == (Reg {
                id: old(reg_gener).usual_next,
                usual: true,
            }) && label@ == (if old(fmms).view_map().contains_key(bits) {
                old(fmms).view_map()[bits].name@
            } else {
                "_fc_"@ + crate::textfmt::hex_chars(bits as nat)
            }),
            r.1@[1] == (Inst::Mem {
                op: MemOp::Lw,
                reg: Reg { id: old(reg_gener).float_next, usual: false },
                offset: 0,
                base: Reg { id: old(reg_gener).usual_next, usual: true },
            }),
            old(fmms).view_map().contains_key(bits) ==> *final(fmms) == *old(fmms),
            !old(fmms).view_map().contains_key(bits) ==> final(fmms).view_map().dom() =~= old(
                fmms,
            ).view_map().dom().insert(bits) && final(fmms).view_map()[bits].init == Some(bits)
                && final(fmms).view_map()[bits].is_const && final(fmms).view_map()[bits].name@
                == "_fc_"@ + crate::textfmt::hex_chars(bits as nat),
            !old(fmms).view_map().contains_key(bits) ==> final(fmms).entries@ == old(
                fmms,
            ).entries@.push((bits, final(fmms).view_map()[bits])),
            crate::backend::maps::fmm_pool_wf(old(fmms).entries@) ==> crate::backend::maps::fmm_pool_wf(final(fmms).entries@),
    {
        let lit: String = match fmms.get_name(bits) {
            Some(name) => name.clone(),
            None => {
                let name: String = Self::fmm_lit_label_from(bits);
                fmms.insert(
                    bits,
                    crate::backend::maps::FloatVar {
                        name: name.clone(),
                        init: Some(bits),
                        is_const: true,
                    },
                );
                proof {
                    if crate::backend::maps::fmm_pool_wf(old(fmms).entries@) {
                        crate::backend::maps::lemma_fmm_pool_wf_push(
                            old(fmms).entries@,
                            bits,
                            fmms.entries@.last().1,
                        );
                    }
                }
                name
            },
        };
        let addr: Reg = reg_gener.gen_virtual_usual_reg();
        let dst: Reg = reg_gener.gen_virtual_float_reg();
        let mut insts: Vec<Inst> = Vec::new();
        insts.push(Inst::Lla { dst: addr, label: lit });
        insts.push(Inst::Mem { op: MemOp::Lw, reg: dst, offset: 0, base: addr });
        (dst, insts)
    }

    /// Rewrites an `llvm.memset` intrinsic call: its first three operands
    /// move into A0..A2 (constants by load-immediate, bound values by move,
    /// locals by their address), then `memset` is called.
    pub fn build_memset_inst(
        args: &Vec<MirOperand>,
        stack_slots: &SlotMap,
        regs: &RegMap,
    ) -> (r: Result<Vec<Inst>, CompileError>)
        ensures
            (args@.len() == 4 && forall|k: int|
                0 <= k < 3 ==> memset_arg_ok(
                    #[trigger] args@[k],
                    stack_slots.view_map(),
                    regs.view_map(),
                )) ==> r is Ok,
            r matches Ok(insts) ==> forall|k: int|
                0 <= k < 3 ==> memset_move_ok(
                    args@[k],
                    stack_slots.view_map(),
                    regs.view_map(),
                    k,
                    #[trigger] insts@[k],
                ),
            r matches Ok(insts) ==> forall|k: int|
                0 <= k < insts@.len() ==> !(#[trigger] insts@[k]).spec_is_term(),
            r matches Ok(insts) ==> args@.len() == 4 && insts@.len() == 4 && (insts@.last()
                matches Inst::Call { name, arg_regs, def } && name@ == "memset"@ && arg_regs@
                == seq![Reg::spec_a(0), Reg::spec_a(1), Reg::spec_a(2)] && def == Some(
                Reg::spec_a(0),
            )),
    {
        if args.len() != 4 {
            return Err(CompileError::StructuralViolation);
        }
        let mut ret: Vec<Inst> = Vec::new();
        let mut arg_regs: Vec<Reg> = Vec::new();
        let mut i: usize = 0;
        while i < 3
            invariant
                args@.len() == 4,
                i <= 3,
                ret@.len() == i,
                forall|k: int| 0 <= k < ret@.len() ==> !(#[trigger] ret@[k]).spec_is_term(),
                forall|k: int|
                    0 <= k < i ==> memset_move_ok(
                        args@[k],
                        stack_slots.view_map(),
                        regs.view_map(),
                        k,
                        #[trigger] ret@[k],
                    ),
                arg_regs@.len() == i,
                forall|k: int| 0 <= k < i ==> arg_regs@[k] == Reg::spec_a(k as nat),
            decreases 3 - i,
        {
            let a_n: Reg = Reg::a(i as u64);
            match &args[i] {
                MirOperand::Constant(con) => {
                    let imm: i64 = match con {
                        Constant::SignedChar(c) => *c as i64,
                        Constant::Int(v) => *v as i64,
                        Constant::Bool(b) => if *b {
                            1
                        } else {
                            0
                        },
                        _ => {
                            return Err(CompileError::UnsupportedIR);
                        },
                    };
                    ret.push(Inst::Li { dst: Operand::Reg(a_n), src: Operand::Imm(imm) });
                },
                MirOperand::Parameter(p) => {
                    let rg: Reg = match Self::param_from(*p, regs) {
                        Ok(rg) => rg,
                        Err(e) => {
                            return Err(e);
                        },
                    };
                    ret.push(Inst::Un { op: UnOp::Mv, dst: Operand::Reg(a_n), src: Operand::Reg(rg) });
                },
                MirOperand::Instruction(id) => {
                    match stack_slots.get(*id) {
                        Some(slot) => {
                            ret.push(Inst::LocalAddr { dst: a_n, slot });
                        },
                        None => {
                            let rg: Reg = match Self::local_var_except_param_from(*id, regs) {
                                Ok(rg) => rg,
                                Err(e) => {
                                    return Err(e);
                                },
                            };
                            ret.push(
                                Inst::Un {
                                    op: UnOp::Mv,
                                    dst: Operand::Reg(a_n),
                                    src: Operand::Reg(rg),
                                },
                            );
                        },
                    }
                },
                MirOperand::Global(_) => {
                    return Err(CompileError::UnsupportedIR);
                },
            }
            arg_regs.push(a_n);
            i = i + 1;
        }
        let call: Inst = Inst::Call {
            name: "memset".to_owned(),
            arg_regs,
            def: Some(Reg::a(0)),
        };
        ret.push(call);
        proof {
            assert(arg_regs@ =~= seq![Reg::spec_a(0), Reg::spec_a(1), Reg::spec_a(2)]);
        }
        Ok(ret)
    }

    /// Lowers one call: arguments are placed per the ABI, the call carries
    /// its used argument registers, and a non-void result is moved from the
    /// return register into a fresh virtual register bound to the call.
    pub fn build_call_inst(
        callee: &String,
        ret_ty: &ValueType,
        args: &Vec<MirOperand>,
        call_id: usize,
        stack_slots: &SlotMap,
        reg_gener: &mut RegGenerator,
        regs: &mut RegMap,
        fmms: &mut FmmMap,
    ) -> (r: Result<Vec<Inst>, CompileError>)
        ensures
            crate::backend::maps::fmm_pool_wf(old(fmms).entries@)
                ==> crate::backend::maps::fmm_pool_wf(final(fmms).entries@),
            r matches Ok(insts) ==> forall|k: int|
                0 <= k < insts@.len() ==> !(#[trigger] insts@[k]).spec_is_term(),
            r matches Ok(insts) ==> (has_substr(callee@, "llvm.memset"@) || (ret_ty is Void
                || ret_ty is Int || ret_ty is Bool || ret_ty is Float)),
            (!has_substr(callee@, "llvm.memset"@) && args_ok(args@, old(regs).view_map()) && (
            ret_ty is Void || ret_ty is Int || ret_ty is Bool || ret_ty is Float) && 8
                * args@.len() <= i64::MAX) ==> r is Ok,
            forall|p: usize|
                #![trigger final(regs).view_map().contains_key(ValueKey::Param(p))]
                (final(regs).view_map().contains_key(ValueKey::Param(p)) == old(
                    regs,
                ).view_map().contains_key(ValueKey::Param(p))) && (old(
                    regs,
                ).view_map().contains_key(ValueKey::Param(p)) ==> final(regs).view_map()[
                    ValueKey::Param(p)
                ] == old(regs).view_map()[ValueKey::Param(p)]),

            r matches Ok(insts) ==> (!has_substr(callee@, "llvm.memset"@) ==> insts@.len() >= 1 && (
            match *ret_ty {
                ValueType::Void => (insts@.last() matches Inst::Call { name, def, .. } && name@
                    == callee@ && def is None) && final(regs).view_map() == old(
                    regs,
                ).view_map(),
                ValueType::Int | ValueType::Bool => insts@.len() >= 2 && (insts@[insts@.len()
                    - 2] matches Inst::Call { name, arg_regs, def } && name@ == callee@ && def
                    == Some(Reg::spec_a(0)) && arg_regs@ == filled_regs(
                    args@,
                    old(regs).view_map(),
                    args@.len() as int,
                )) && (insts@.last() matches Inst::Un { op, dst, src } && op == UnOp::Mv && src
                    == Operand::Reg(Reg::spec_a(0)) && (dst matches Operand::Reg(d) && d.usual
                    && final(regs).view_map() == old(regs).view_map().insert(
                    ValueKey::Inst(call_id),
                    d,
                ))),
                ValueType::Float => insts@.len() >= 2 && (insts@[insts@.len() - 2] matches
                    Inst::Call { name, arg_regs, def } && name@ == callee@ && def == Some(
                    Reg { id: 10, usual: false },
                ) && arg_regs@ == filled_regs(args@, old(regs).view_map(), args@.len() as int)) && (insts@.last() matches Inst::Un { op, dst, src } && op == UnOp::Mv && src
                    == Operand::Reg(Reg { id: 10, usual: false }) && (dst matches Operand::Reg(d)
                    && !d.usual && final(regs).view_map() == old(regs).view_map().insert(
                    ValueKey::Inst(call_id),
                    d,
                ))),
                _ => false,
            })),
    {
        if contains_substr(callee, "llvm.memset") {
            return Self::build_memset_inst(args, stack_slots, regs);
        }
        let mut ret_insts: Vec<Inst> = Vec::new();
        let mut i_arg_num: u64 = 0;
        let mut f_arg_num: u64 = 0;
        let mut extra_arg_stack: i64 = 0;
        let mut phisic_arg_regs: Vec<Reg> = Vec::new();
        let ghost regs0 = regs.view_map();
        let mut a: usize = 0;
        while a < args.len()
            invariant
                a <= args@.len(),
                i_arg_num <= 8,
                f_arg_num <= 8,
                i_arg_num as nat == if int_args(args@, regs0, a as int) >= 8 {
                    8nat
                } else {
                    int_args(args@, regs0, a as int)
                },
                f_arg_num as nat == if float_args(args@, regs0, a as int) >= 8 {
                    8nat
                } else {
                    float_args(args@, regs0, a as int)
                },
                phisic_arg_regs@ == filled_regs(args@, regs0, a as int),
                extra_arg_stack >= 0,
                extra_arg_stack <= 8 * a,
                regs.view_map() == regs0,
                crate::backend::maps::fmm_pool_wf(old(fmms).entries@)
                    ==> crate::backend::maps::fmm_pool_wf(fmms.entries@),
                forall|k: int|
                    0 <= k < ret_insts@.len() ==> !(#[trigger] ret_insts@[k]).spec_is_term(),
            decreases args@.len() - a,
        {
            let ope: Operand = match Self::no_load_from(&args[a], regs) {
                Ok(o) => o,
                Err(e) => {
                    return Err(e);
                },
            };
            if extra_arg_stack > i64::MAX - 8 {
                proof {
                    lemma_arg_counts_le(args@, regs0, a as int);
                    assert(8 * args@.len() > i64::MAX) by (nonlinear_arith)
                        requires
                            extra_arg_stack > i64::MAX - 8,
                            extra_arg_stack <= 8 * a,
                            a < args@.len(),
                    ;
                }
                return Err(CompileError::Range);
            }
            match ope {
                Operand::Reg(rg) => {
                    if rg.is_usual() && i_arg_num < 8 {
                        let p_reg: Reg = Reg::a(i_arg_num);
                        phisic_arg_regs.push(p_reg);
                        ret_insts.push(
                            Inst::Un {
                                op: UnOp::Mv,
                                dst: Operand::Reg(p_reg),
                                src: Operand::Reg(rg),
                            },
                        );
                        i_arg_num = i_arg_num + 1;
                    } else if !rg.is_usual() && f_arg_num < 8 {
                        let p_reg: Reg = Reg::fa(f_arg_num);
                        phisic_arg_regs.push(p_reg);
                        ret_insts.push(
                            Inst::Un {
                                op: UnOp::Mv,
                                dst: Operand::Reg(p_reg),
                                src: Operand::Reg(rg),
                            },
                        );
                        f_arg_num = f_arg_num + 1;
                    } else {
                        ret_insts.push(
                            Inst::Mem {
                                op: MemOp::Sd,
                                reg: rg,
                                offset: extra_arg_stack,
                                base: Reg::sp(),
                            },
                        );
                        extra_arg_stack = extra_arg_stack + 8;
                    }
                },
                Operand::Imm(v) => {
                    if i_arg_num < 8 {
                        let p_reg: Reg = Reg::a(i_arg_num);
                        phisic_arg_regs.push(p_reg);
                        ret_insts.push(
                            Inst::Li { dst: Operand::Reg(p_reg), src: Operand::Imm(v) },
                        );
                        i_arg_num = i_arg_num + 1;
                    } else {
                        let v_reg: Reg = reg_gener.gen_virtual_usual_reg();
                        ret_insts.push(
                            Inst::Li { dst: Operand::Reg(v_reg), src: Operand::Imm(v) },
                        );
                        ret_insts.push(
                            Inst::Mem {
                                op: MemOp::Sd,
                                reg: v_reg,
                                offset: extra_arg_stack,
                                base: Reg::sp(),
                            },
                        );
                        extra_arg_stack = extra_arg_stack + 8;
                    }
                },
                Operand::Fmm(bits) => {
                    let (v_reg, mut prepare): (Reg, Vec<Inst>) = Self::prepare_fmm(
                        bits,
                        reg_gener,
                        fmms,
                    );
                    ret_insts.append(&mut prepare);
                    if f_arg_num < 8 {
                        let p_reg: Reg = Reg::fa(f_arg_num);
                        phisic_arg_regs.push(p_reg);
                        ret_insts.push(
                            Inst::Un {
                                op: UnOp::Mv,
                                dst: Operand::Reg(p_reg),
                                src: Operand::Reg(v_reg),
                            },
                        );
                        f_arg_num = f_arg_num + 1;
                    } else {
                        ret_insts.push(
                            Inst::Mem {
                                op: MemOp::Sd,
                                reg: v_reg,
                                offset: extra_arg_stack,
                                base: Reg::sp(),
                            },
                        );
                        extra_arg_stack = extra_arg_stack + 8;
                    }
                },
                Operand::StackSlot(ss) => {
                    if i_arg_num < 8 {
                        let p_reg: Reg = Reg::a(i_arg_num);
                        phisic_arg_regs.push(p_reg);
                        ret_insts.push(Inst::LocalAddr { dst: p_reg, slot: ss });
                        i_arg_num = i_arg_num + 1;
                    } else {
                        let v_reg: Reg = reg_gener.gen_virtual_usual_reg();
                        ret_insts.push(Inst::LocalAddr { dst: v_reg, slot: ss });
                        ret_insts.push(
                            Inst::Mem {
                                op: MemOp::Sd,
                                reg: v_reg,
                                offset: extra_arg_stack,
                                base: Reg::sp(),
                            },
                        );
                        extra_arg_stack = extra_arg_stack + 8;
                    }
                },
                Operand::Label(_) => {
                    return Err(CompileError::UnsupportedIR);
                },
            }
            a = a + 1;
        }
        match ret_ty {
            ValueType::Void => {
                ret_insts.push(
                    Inst::Call { name: callee.clone(), arg_regs: phisic_arg_regs, def: None },
                );
                Ok(ret_insts)
            },
            ValueType::Int | ValueType::Bool => {
                let dst: Reg = reg_gener.gen_virtual_usual_reg();
                ret_insts.push(
                    Inst::Call {
                        name: callee.clone(),
                        arg_regs: phisic_arg_regs,
                        def: Some(Reg::a(0)),
                    },
                );
                ret_insts.push(
                    Inst::Un {
                        op: UnOp::Mv,
                        dst: Operand::Reg(dst),
                        src: Operand::Reg(Reg::a(0)),
                    },
                );
                proof {
                    assert forall|p: usize|
                        #![trigger regs.view_map().contains_key(ValueKey::Param(p))]
                        true implies ValueKey::Param(p) != ValueKey::Inst(call_id) by {}
                }
                regs.insert(ValueKey::Inst(call_id), dst);
                Ok(ret_insts)
            },
            ValueType::Float => {
                let dst: Reg = reg_gener.gen_virtual_float_reg();
                ret_insts.push(
                    Inst::Call {
                        name: callee.clone(),
                        arg_regs: phisic_arg_regs,
                        def: Some(Reg::fa(0)),
                    },
                );
                ret_insts.push(
                    Inst::Un {
                        op: UnOp::Mv,
                        dst: Operand::Reg(dst),
                        src: Operand::Reg(Reg::fa(0)),
                    },
                );
                proof {
                    assert forall|p: usize|
                        #![trigger regs.view_map().contains_key(ValueKey::Param(p))]
                        true implies ValueKey::Param(p) != ValueKey::Inst(call_id) by {}
                }
                regs.insert(ValueKey::Inst(call_id), dst);
                Ok(ret_insts)
            },
            _ => Err(CompileError::UnsupportedIR),
        }
    }
}

} // verus!
