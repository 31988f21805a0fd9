//! Textual rendering of mid-level instructions, LLVM-style, used by the
//! memory-analysis dump.

use vstd::prelude::*;
use vstd::string::StringExecFns;

use crate::middle::mir::{
    CmpPred, Constant, MirBinOp, MirInstKind, MirOperand, MirProgram, ValueType,
};
use crate::textfmt::dec_string;

verus! {

/// Decimal text of a signed value.
pub fn int_text(v: i64) -> (r: String)
    ensures
        v >= 0 ==> r@ == crate::textfmt::dec_chars(v as nat),
{
    if v >= 0 {
        dec_string(v as u64)
    } else {
        let mut s: String = "-".to_owned();
        let mag: u64 = if v == i64::MIN {
            9223372036854775808u64
        } else {
            (-v) as u64
        };
        s.append(dec_string(mag).as_str());
        s
    }
}

/// The printed form of a value type.
pub fn ty_text(ty: &ValueType) -> (r: String)
    decreases ty,
{
    match ty {
        ValueType::Void => "void".to_owned(),
        ValueType::Int => "i32".to_owned(),
        ValueType::Float => "float".to_owned(),
        ValueType::Bool => "i1".to_owned(),
        ValueType::SignedChar => "i8".to_owned(),
        ValueType::Pointer(_) => "ptr".to_owned(),
        ValueType::Array(inner, n) => {
            let mut s: String = "[".to_owned();
            s.append(dec_string(*n as u64).as_str());
            s.append(" x ");
            s.append(ty_text(inner).as_str());
            s.append("]");
            s
        },
    }
}

/// The tag a result name carries, after its instruction kind.
pub fn kind_tag(k: &MirInstKind) -> (r: &'static str) {
    match k {
        MirInstKind::Alloca { .. } => "alloca",
        MirInstKind::Load { .. } => "load",
        MirInstKind::Store { .. } => "store",
        MirInstKind::Gep { .. } => "getelementptr",
        MirInstKind::ICmp { .. } => "icmp",
        MirInstKind::Bin { op, .. } => match op {
            MirBinOp::Add => "add",
            MirBinOp::Sub => "sub",
            MirBinOp::Mul => "mul",
            MirBinOp::SDiv => "sdiv",
            MirBinOp::SRem => "srem",
        },
        MirInstKind::Call { .. } => "call",
        MirInstKind::Phi { .. } => "phi",
        MirInstKind::Br { .. } => "br",
        MirInstKind::CondBr { .. } => "br",
        MirInstKind::Ret { .. } => "ret",
    }
}

/// The `%kind_N` name of an instruction result.
pub fn val_name(program: &MirProgram, iid: usize) -> (r: String) {
    if iid >= program.insts.len() {
        return "%?".to_owned();
    }
    let mut s: String = "%".to_owned();
    s.append(kind_tag(&program.insts[iid].kind));
    s.append("_");
    s.append(dec_string(program.insts[iid].name_id).as_str());
    s
}

/// The printed form of an operand.
pub fn operand_text(program: &MirProgram, op: &MirOperand) -> (r: String) {
    match op {
        MirOperand::Constant(c) => match c {
            Constant::Int(v) => int_text(*v as i64),
            Constant::Bool(bv) => if *bv {
                "true".to_owned()
            } else {
                "false".to_owned()
            },
            Constant::SignedChar(v) => int_text(*v as i64),
            Constant::Float(_) => "<float>".to_owned(),
            Constant::Array(_) => "<array>".to_owned(),
        },
        MirOperand::Global(name) => {
            let mut s: String = "@".to_owned();
            s.append(name.as_str());
            s
        },
        MirOperand::Parameter(_) => "%arg".to_owned(),
        MirOperand::Instruction(iid) => val_name(program, *iid),
    }
}

/// The printed form of a compare condition.
pub fn pred_text(p: &CmpPred) -> (r: &'static str) {
    match p {
        CmpPred::Slt => "slt",
        CmpPred::Sle => "sle",
        CmpPred::Sgt => "sgt",
        CmpPred::Sge => "sge",
        CmpPred::Eq => "eq",
        CmpPred::Ne => "ne",
    }
}

/// One instruction as a line of LLVM-style text, without the newline.
pub fn inst_text(program: &MirProgram, iid: usize) -> (r: String) {
    if iid >= program.insts.len() {
        return "<?>".to_owned();
    }
    let name: String = val_name(program, iid);
    match &program.insts[iid].kind {
        MirInstKind::Alloca { ty } => {
            let mut s: String = name;
            s.append(" = alloca ");
            s.append(ty_text(ty).as_str());
            s
        },
        MirInstKind::Load { ty, ptr } => {
            let mut s: String = name;
            s.append(" = load ");
            s.append(ty_text(ty).as_str());
            s.append(", ptr ");
            s.append(operand_text(program, ptr).as_str());
            s
        },
        MirInstKind::Store { val, ptr } => {
            let mut s: String = "store i32 ".to_owned();
            s.append(operand_text(program, val).as_str());
            s.append(", ptr ");
            s.append(operand_text(program, ptr).as_str());
            s
        },
        MirInstKind::Gep { base_ty, ptr, indices } => {
            let mut s: String = name;
            s.append(" = getelementptr ");
            s.append(ty_text(base_ty).as_str());
            s.append(", ptr ");
            s.append(operand_text(program, ptr).as_str());
            let mut k: usize = 0;
            while k < indices.len()
                decreases indices@.len() - k,
            {
                s.append(", i32 ");
                s.append(operand_text(program, &indices[k]).as_str());
                k = k + 1;
            }
            s
        },
        MirInstKind::ICmp { pred, lhs, rhs } => {
            let mut s: String = name;
            s.append(" = icmp ");
            s.append(pred_text(pred));
            s.append(" i32 ");
            s.append(operand_text(program, lhs).as_str());
            s.append(", ");
            s.append(operand_text(program, rhs).as_str());
            s
        },
        MirInstKind::Bin { op, lhs, rhs } => {
            let mut s: String = name;
            s.append(" = ");
            s.append(kind_tag(&program.insts[iid].kind));
            s.append(" i32 ");
            s.append(operand_text(program, lhs).as_str());
            s.append(", ");
            s.append(operand_text(program, rhs).as_str());
            s
        },
        MirInstKind::Call { callee, ret_ty, args } => {
            let mut s: String;
            if ret_ty.is_void() {
                s = "call void @".to_owned();
            } else {
                s = name;
                s.append(" = call ");
                s.append(ty_text(ret_ty).as_str());
                s.append(" @");
            }
            s.append(callee.as_str());
            s.append("(");
            let mut k: usize = 0;
            while k < args.len()
                decreases args@.len() - k,
            {
                if k > 0 {
                    s.append(", ");
                }
                s.append("i32 ");
                s.append(operand_text(program, &args[k]).as_str());
                k = k + 1;
            }
            s.append(")");
            s
        },
        MirInstKind::Phi { ty, incomings } => {
            let mut s: String = name;
            s.append(" = phi ");
            s.append(ty_text(ty).as_str());
            let mut k: usize = 0;
            while k < incomings.len()
                decreases incomings@.len() - k,
            {
                if k > 0 {
                    s.append(",");
                }
                s.append(" [");
                s.append(operand_text(program, &incomings[k].0).as_str());
                s.append(", %");
                s.append(incomings[k].1.as_str());
                s.append("]");
                k = k + 1;
            }
            s
        },
        MirInstKind::Br { target } => {
            let mut s: String = "br label %".to_owned();
            s.append(target.as_str());
            s
        },
        MirInstKind::CondBr { cond, then_label, else_label } => {
            let mut s: String = "br i1 ".to_owned();
            s.append(operand_text(program, cond).as_str());
            s.append(", label %");
            s.append(then_label.as_str());
            s.append(", label %");
            s.append(else_label.as_str());
            s
        },
        MirInstKind::Ret { val } => {
            match val {
                None => "ret void".to_owned(),
                Some(v) => {
                    let mut s: String = "ret i32 ".to_owned();
                    s.append(operand_text(program, v).as_str());
                    s
                },
            }
        },
    }
}

} // verus!
