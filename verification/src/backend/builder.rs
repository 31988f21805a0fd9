//! Instruction selection: operand preparation. Mid-level operands become
//! target operands; immediates are materialized where an instruction needs a
//! register, and float constants go through the literal pool.

use vstd::prelude::*;
use vstd::string::StringExecFns;

use crate::backend::inst::Inst;
use crate::backend::maps::{FloatVar, FmmMap, RegMap, SlotMap, ValueKey};
use crate::backend::operand::{imm_fits, imm_in_limit, Operand};
use crate::backend::reg::{Reg, RegGenerator};
use crate::error::CompileError;
use crate::middle::mir::{Constant, MirFunc, MirOperand, ValueType};
use crate::textfmt::{dec_chars, dec_string, hex_chars, hex_string};

verus! {

/// The target operand of a constant; arrays have none.
pub open spec fn const_op(c: Constant) -> Option<Operand> {
    match c {
        Constant::Int(v) => Some(Operand::Imm(v as i64)),
        Constant::Float(b) => Some(Operand::Fmm(b)),
        Constant::Bool(b) => Some(
            Operand::Imm(
                if b {
                    1
                } else {
                    0
                },
            ),
        ),
        Constant::SignedChar(v) => Some(Operand::Imm(v as i64)),
        Constant::Array(_) => None,
    }
}

/// What `no_load_from` yields: constants become immediates, parameters and
/// instruction results their bound registers; globals are refused here.
pub open spec fn no_load_spec(op: MirOperand, m: Map<ValueKey, Reg>) -> Result<
    Operand,
    CompileError,
> {
    match op {
        MirOperand::Constant(c) => match const_op(c) {
            Some(o) => Ok(o),
            None => Err(CompileError::UnsupportedIR),
        },
        MirOperand::Parameter(p) => if m.contains_key(ValueKey::Param(p)) {
            Ok(Operand::Reg(m[ValueKey::Param(p)]))
        } else {
            Err(CompileError::LookupMiss)
        },
        MirOperand::Instruction(i) => if m.contains_key(ValueKey::Inst(i)) {
            Ok(Operand::Reg(m[ValueKey::Inst(i)]))
        } else {
            Err(CompileError::LookupMiss)
        },
        MirOperand::Global(_) => Err(CompileError::UnsupportedIR),
    }
}

/// Whether the operand resolves to a bound register.
pub open spec fn resolves_to_reg(op: MirOperand, m: Map<ValueKey, Reg>) -> bool {
    no_load_spec(op, m) matches Ok(Operand::Reg(_))
}

/// The register the operand resolves to, where it resolves to one.
pub open spec fn resolved_reg(op: MirOperand, m: Map<ValueKey, Reg>) -> Reg {
    match no_load_spec(op, m) {
        Ok(Operand::Reg(rg)) => rg,
        _ => Reg { id: 0, usual: true },
    }
}

/// The instruction-selection engine.
pub struct IRBuilder;

impl IRBuilder {
    /// A fresh virtual register typed after a mid-level value type: the
    /// integer file for int, bool and pointer, the float file for float;
    /// any other type is refused.
    pub fn new_var(ty: &ValueType, reg_gener: &mut RegGenerator) -> (r: Result<Reg, CompileError>)
        ensures
            r is Ok <==> (ty is Int || ty is Bool || ty is Pointer || ty is Float),
            (ty is Int || ty is Bool || ty is Pointer) ==> r == Ok::<Reg, CompileError>(
                Reg { id: old(reg_gener).usual_next, usual: true },
            ) && final(reg_gener).float_next == old(reg_gener).float_next && final(reg_gener).usual_next == if old(reg_gener).usual_next < u64::MAX {
                (old(reg_gener).usual_next + 1) as u64
            } else {
                old(reg_gener).usual_next
            },
            (ty is Float) ==> r == Ok::<Reg, CompileError>(
                Reg { id: old(reg_gener).float_next, usual: false },
            ) && final(reg_gener).usual_next == old(reg_gener).usual_next && final(reg_gener).float_next == if old(reg_gener).float_next < u64::MAX {
                (old(reg_gener).float_next + 1) as u64
            } else {
                old(reg_gener).float_next
            },
            r is Err ==> *final(reg_gener) == *old(reg_gener) && r == Err::<Reg, CompileError>(
                CompileError::UnsupportedIR,
            ),
    {
        match ty {
            ValueType::Int | ValueType::Bool | ValueType::Pointer(_) => Ok(
                reg_gener.gen_virtual_usual_reg(),
            ),
            ValueType::Float => Ok(reg_gener.gen_virtual_float_reg()),
            _ => Err(CompileError::UnsupportedIR),
        }
    }

    /// The stack slot bound to an alloca result. Only an instruction
    /// operand can name a slot; an unbound one is a lookup miss.
    pub fn stack_slot_from(operand: &MirOperand, stack_slots: &SlotMap) -> (r: Result<
        Operand,
        CompileError,
    >)
        ensures
            r == match *operand {
                MirOperand::Instruction(id) => if stack_slots.view_map().contains_key(id) {
                    Ok::<Operand, CompileError>(
                        Operand::StackSlot(stack_slots.view_map()[id]),
                    )
                } else {
                    Err(CompileError::LookupMiss)
                },
                _ => Err(CompileError::UnsupportedIR),
            },
    {
        match operand {
            MirOperand::Instruction(id) => match stack_slots.get(*id) {
                Some(slot) => Ok(Operand::StackSlot(slot)),
                None => Err(CompileError::LookupMiss),
            },
            _ => Err(CompileError::UnsupportedIR),
        }
    }

    /// A non-array constant as a target operand: ints, bools and chars as
    /// immediates, floats as float immediates.
    pub fn const_except_arr_from(con: &Constant) -> (r: Result<Operand, CompileError>)
        ensures
            r == match const_op(*con) {
                Some(o) => Ok::<Operand, CompileError>(o),
                None => Err(CompileError::UnsupportedIR),
            },
    {
        match con {
            Constant::Int(v) => Ok(Operand::Imm(*v as i64)),
            Constant::Float(b) => Ok(Operand::Fmm(*b)),
            Constant::Bool(b) => Ok(
                Operand::Imm(
                    if *b {
                        1
                    } else {
                        0
                    },
                ),
            ),
            Constant::SignedChar(v) => Ok(Operand::Imm(*v as i64)),
            Constant::Array(_) => Err(CompileError::UnsupportedIR),
        }
    }

    /// The register bound to an instruction result.
    pub fn local_var_except_param_from(inst_id: usize, regs: &RegMap) -> (r: Result<
        Reg,
        CompileError,
    >)
        ensures
            r == if regs.view_map().contains_key(ValueKey::Inst(inst_id)) {
                Ok::<Reg, CompileError>(regs.view_map()[ValueKey::Inst(inst_id)])
            } else {
                Err(CompileError::LookupMiss)
            },
    {
        match regs.get(ValueKey::Inst(inst_id)) {
            Some(rg) => Ok(rg),
            None => Err(CompileError::LookupMiss),
        }
    }

    /// The register bound to a formal parameter; the entry build binds every
    /// parameter before any body instruction is lowered.
    pub fn param_from(param_idx: usize, regs: &RegMap) -> (r: Result<Reg, CompileError>)
        ensures
            r == if regs.view_map().contains_key(ValueKey::Param(param_idx)) {
                Ok::<Reg, CompileError>(regs.view_map()[ValueKey::Param(param_idx)])
            } else {
                Err(CompileError::LookupMiss)
            },
    {
        match regs.get(ValueKey::Param(param_idx)) {
            Some(rg) => Ok(rg),
            None => Err(CompileError::LookupMiss),
        }
    }

    /// The label of a mid-level block, from its numeric identity.
    pub fn label_name_from(id: u64) -> (s: String)
        ensures
            s@ == ".LBB"@ + dec_chars(id as nat),
    {
        let mut s: String = ".LBB".to_owned();
        let digits: String = dec_string(id);
        s.append(digits.as_str());
        s
    }

    /// The pool label of a float literal: `_fc_` then the lowercase hex of
    /// the double's bit pattern.
    pub fn fmm_lit_label_from(bits: u64) -> (s: String)
        ensures
            s@ == "_fc_"@ + hex_chars(bits as nat),
    {
        let mut s: String = "_fc_".to_owned();
        let digits: String = hex_string(bits);
        s.append(digits.as_str());
        s
    }

    /// An operand usable without a load.
    pub fn no_load_from(operand: &MirOperand, regs: &RegMap) -> (r: Result<Operand, CompileError>)
        ensures
            r == no_load_spec(*operand, regs.view_map()),
    {
        match operand {
            MirOperand::Constant(c) => Self::const_except_arr_from(c),
            MirOperand::Parameter(p) => match Self::param_from(*p, regs) {
                Ok(rg) => Ok(Operand::Reg(rg)),
                Err(e) => Err(e),
            },
            MirOperand::Instruction(i) => match Self::local_var_except_param_from(*i, regs) {
                Ok(rg) => Ok(Operand::Reg(rg)),
                Err(e) => Err(e),
            },
            MirOperand::Global(_) => Err(CompileError::UnsupportedIR),
        }
    }

    /// The first source of an integer instruction: always a register, so an
    /// immediate is materialized with a load-immediate into a fresh virtual
    /// register.
    pub fn prepare_rs1_i(value: &MirOperand, reg_gener: &mut RegGenerator, regs: &RegMap) -> (r:
        Result<(Operand, Vec<Inst>), CompileError>)
        ensures
            ({
                let pre = no_load_spec(*value, regs.view_map());
                match pre {
                    Err(e) => r == Err::<(Operand, Vec<Inst>), CompileError>(e) && *final(reg_gener) == *old(reg_gener),
                    Ok(Operand::Reg(rg)) => (r matches Ok((o, insts)) && o == Operand::Reg(rg)
                        && insts@ == Seq::<Inst>::empty()) && *final(reg_gener) == *old(reg_gener),
                    Ok(Operand::Imm(v)) => (r matches Ok((o, insts)) && o == Operand::Reg(
                        Reg { id: old(reg_gener).usual_next, usual: true },
                    ) && insts@ == seq![
                        Inst::Li {
                            dst: Operand::Reg(Reg { id: old(reg_gener).usual_next, usual: true }),
                            src: Operand::Imm(v),
                        },
                    ]) && final(reg_gener).float_next == old(reg_gener).float_next,
                    Ok(_) => r == Err::<(Operand, Vec<Inst>), CompileError>(
                        CompileError::UnsupportedIR,
                    ) && *final(reg_gener) == *old(reg_gener),
                }
            }),
    {
        let value: Operand = match Self::no_load_from(value, regs) {
            Ok(v) => v,
            Err(e) => {
                return Err(e);
            },
        };
        match value {
            Operand::Imm(v) => {
                let dst: Reg = reg_gener.gen_virtual_usual_reg();
                let li: Inst = Inst::Li { dst: Operand::Reg(dst), src: Operand::Imm(v) };
                let mut insts: Vec<Inst> = Vec::new();
                insts.push(li);
                Ok((Operand::Reg(dst), insts))
            },
            Operand::Reg(rg) => Ok((Operand::Reg(rg), Vec::new())),
            _ => Err(CompileError::UnsupportedIR),
        }
    }

    /// The second source of an integer instruction: an immediate may stay an
    /// immediate when it fits the 12-bit field, otherwise it is materialized
    /// like the first source.
    pub fn prepare_rs2_i(value: &MirOperand, reg_gener: &mut RegGenerator, regs: &RegMap) -> (r:
        Result<(Operand, Vec<Inst>), CompileError>)
        ensures
            ({
                let pre = no_load_spec(*value, regs.view_map());
                match pre {
                    Err(e) => r == Err::<(Operand, Vec<Inst>), CompileError>(e) && *final(reg_gener) == *old(reg_gener),
                    Ok(Operand::Reg(rg)) => (r matches Ok((o, insts)) && o == Operand::Reg(rg)
                        && insts@ == Seq::<Inst>::empty()) && *final(reg_gener) == *old(reg_gener),
                    Ok(Operand::Imm(v)) => if imm_fits(v as int, 12) {
                        (r matches Ok((o, insts)) && o == Operand::Imm(v) && insts@ == Seq::<
                            Inst,
                        >::empty()) && *final(reg_gener) == *old(reg_gener)
                    } else {
                        (r matches Ok((o, insts)) && o == Operand::Reg(
                            Reg { id: old(reg_gener).usual_next, usual: true },
                        ) && insts@ == seq![
                            Inst::Li {
                                dst: Operand::Reg(
                                    Reg { id: old(reg_gener).usual_next, usual: true },
                                ),
                                src: Operand::Imm(v),
                            },
                        ]) && final(reg_gener).float_next == old(reg_gener).float_next
                    },
                    Ok(_) => r == Err::<(Operand, Vec<Inst>), CompileError>(
                        CompileError::UnsupportedIR,
                    ) && *final(reg_gener) == *old(reg_gener),
                }
            }),
    {
        let value: Operand = match Self::no_load_from(value, regs) {
            Ok(v) => v,
            Err(e) => {
                return Err(e);
            },
        };
        match value {
            Operand::Imm(v) => {
                if imm_in_limit(v, 12) {
                    Ok((Operand::Imm(v), Vec::new()))
                } else {
                    let dst: Reg = reg_gener.gen_virtual_usual_reg();
                    let li: Inst = Inst::Li { dst: Operand::Reg(dst), src: Operand::Imm(v) };
                    let mut insts: Vec<Inst> = Vec::new();
                    insts.push(li);
                    Ok((Operand::Reg(dst), insts))
                }
            },
            Operand::Reg(rg) => Ok((Operand::Reg(rg), Vec::new())),
            _ => Err(CompileError::UnsupportedIR),
        }
    }

    /// A float source: registers pass through; a float constant is interned
    /// in the literal pool under `_fc_<hex-bits>` and loaded via its
    /// address.
    pub fn prepare_f(
        value: &MirOperand,
        reg_gener: &mut RegGenerator,
        regs: &RegMap,
        fmms: &mut FmmMap,
    ) -> (r: Result<(Operand, Vec<Inst>), CompileError>)
        ensures
            ({
                let pre = no_load_spec(*value, regs.view_map());
                match pre {
                    Err(e) => r == Err::<(Operand, Vec<Inst>), CompileError>(e) && *final(reg_gener) == *old(reg_gener) && *final(fmms) == *old(fmms),
                    Ok(Operand::Reg(rg)) => (r matches Ok((o, insts)) && o == Operand::Reg(rg)
                        && insts@ == Seq::<Inst>::empty()) && *final(reg_gener) == *old(reg_gener)
                        && *final(fmms) == *old(fmms),
                    Ok(Operand::Fmm(bits)) => {
                        let addr = Reg { id: old(reg_gener).usual_next, usual: true };
                        let dst = Reg { id: old(reg_gener).float_next, usual: false };
                        let lit_view = if old(fmms).view_map().contains_key(bits) {
                            old(fmms).view_map()[bits].name@
                        } else {
                            "_fc_"@ + hex_chars(bits as nat)
                        };
                        &&& r matches Ok((o, insts)) && o == Operand::Reg(dst) && insts@.len() == 2
                            && (insts@[0] matches Inst::Lla { dst: d0, label } && d0 == addr
                            && label@ == lit_view) && insts@[1] == (Inst::Mem {
                            op: crate::backend::inst::MemOp::Lw,
                            reg: dst,
                            offset: 0,
                            base: addr,
                        })
                        &&& old(fmms).view_map().contains_key(bits) ==> *final(fmms) == *old(fmms)
                        &&& !old(fmms).view_map().contains_key(bits) ==> final(fmms).view_map().dom() =~= old(fmms).view_map().dom().insert(bits) && final(fmms).view_map()[bits].name@ == lit_view && final(fmms).view_map()[bits].init
                            == Some(bits) && final(fmms).view_map()[bits].is_const && forall|
                            k: u64,
                        |
                            k != bits && old(fmms).view_map().contains_key(k) ==> final(fmms).view_map()[k] == old(fmms).view_map()[k]
                    },
                    Ok(_) => r == Err::<(Operand, Vec<Inst>), CompileError>(
                        CompileError::UnsupportedIR,
                    ) && *final(reg_gener) == *old(reg_gener) && *final(fmms) == *old(fmms),
                }
            }),
            crate::backend::maps::fmm_pool_wf(old(fmms).entries@)
                ==> crate::backend::maps::fmm_pool_wf(final(fmms).entries@),
    {
        let value: Operand = match Self::no_load_from(value, regs) {
            Ok(v) => v,
            Err(e) => {
                return Err(e);
            },
        };
        match value {
            Operand::Reg(rg) => Ok((Operand::Reg(rg), Vec::new())),
            Operand::Fmm(bits) => {
                let lit: String = match fmms.get_name(bits) {
                    Some(name) => name.clone(),
                    None => {
                        let name: String = Self::fmm_lit_label_from(bits);
                        fmms.insert(
                            bits,
                            FloatVar { name: name.clone(), init: Some(bits), is_const: true },
                        );
                        proof {
                            if crate::backend::maps::fmm_pool_wf(old(fmms).entries@) {
                                crate::backend::maps::lemma_fmm_pool_wf_push(
                                    old(fmms).entries@,
                                    bits,
                                    fmms.entries@.last().1,
                                );
                            }
                        }
                        name
                    },
                };
                let addr: Reg = reg_gener.gen_virtual_usual_reg();
                let lla: Inst = Inst::Lla { dst: addr, label: lit };
                let dst: Reg = reg_gener.gen_virtual_float_reg();
                let loadf: Inst = Inst::Mem {
                    op: crate::backend::inst::MemOp::Lw,
                    reg: dst,
                    offset: 0,
                    base: addr,
                };
                let mut insts: Vec<Inst> = Vec::new();
                insts.push(lla);
                insts.push(loadf);
                Ok((Operand::Reg(dst), insts))
            },
            _ => Err(CompileError::UnsupportedIR),
        }
    }

    /// A branch condition: only an instruction result can be one.
    pub fn prepare_cond(cond: &MirOperand, regs: &RegMap) -> (r: Result<
        (Reg, Vec<Inst>),
        CompileError,
    >)
        ensures
            match *cond {
                MirOperand::Instruction(i) => if regs.view_map().contains_key(ValueKey::Inst(i)) {
                    r matches Ok((rg, insts)) && rg == regs.view_map()[ValueKey::Inst(i)]
                        && insts@ == Seq::<Inst>::empty()
                } else {
                    r == Err::<(Reg, Vec<Inst>), CompileError>(CompileError::LookupMiss)
                },
                _ => r == Err::<(Reg, Vec<Inst>), CompileError>(CompileError::UnsupportedIR),
            },
    {
        match cond {
            MirOperand::Instruction(i) => match Self::local_var_except_param_from(*i, regs) {
                Ok(rg) => Ok((rg, Vec::new())),
                Err(e) => Err(e),
            },
            _ => Err(CompileError::UnsupportedIR),
        }
    }

    /// A pointer to load from or store to: an array or pointer parameter, or
    /// an instruction result; constants and globals are refused (globals go
    /// through their own address materialization).
    pub fn pointer_from(func: &MirFunc, operand: &MirOperand, regs: &RegMap) -> (r: Result<
        Reg,
        CompileError,
    >)
        ensures
            match *operand {
                MirOperand::Parameter(p) => if p < func.params@.len() && (func.params@[
                    p as int
                ].ty is Array || func.params@[p as int].ty is Pointer) {
                    r == if regs.view_map().contains_key(ValueKey::Param(p)) {
                        Ok::<Reg, CompileError>(regs.view_map()[ValueKey::Param(p)])
                    } else {
                        Err(CompileError::LookupMiss)
                    }
                } else {
                    r == Err::<Reg, CompileError>(CompileError::UnsupportedIR)
                },
                MirOperand::Instruction(i) => r == if regs.view_map().contains_key(
                    ValueKey::Inst(i),
                ) {
                    Ok::<Reg, CompileError>(regs.view_map()[ValueKey::Inst(i)])
                } else {
                    Err(CompileError::LookupMiss)
                },
                _ => r == Err::<Reg, CompileError>(CompileError::UnsupportedIR),
            },
    {
        match operand {
            MirOperand::Parameter(p) => {
                if *p < func.params.len() {
                    let ok: bool = match &func.params[*p].ty {
                        ValueType::Array(..) => true,
                        ValueType::Pointer(_) => true,
                        _ => false,
                    };
                    if ok {
                        Self::param_from(*p, regs)
                    } else {
                        Err(CompileError::UnsupportedIR)
                    }
                } else {
                    Err(CompileError::UnsupportedIR)
                }
            },
            MirOperand::Instruction(i) => Self::local_var_except_param_from(*i, regs),
            _ => Err(CompileError::UnsupportedIR),
        }
    }

    /// The symbol name of a global operand.
    pub fn global_from(operand: &MirOperand) -> (r: Result<String, CompileError>)
        ensures
            match *operand {
                MirOperand::Global(name) => r matches Ok(s) && s == name,
                _ => r == Err::<String, CompileError>(CompileError::UnsupportedIR),
            },
    {
        match operand {
            MirOperand::Global(name) => Ok(name.clone()),
            _ => Err(CompileError::UnsupportedIR),
        }
    }
}

} // verus!
