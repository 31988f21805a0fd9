//! The mid-level IR: typed instructions held in one arena per program and
//! referenced by index, functions of labelled blocks, and value operands.

use vstd::prelude::*;

verus! {

/// Source-level value types.
#[derive(Debug, PartialEq)]
pub enum ValueType {
    Void,
    Int,
    Float,
    Bool,
    SignedChar,
    Pointer(Box<ValueType>),
    Array(Box<ValueType>, usize),
}

impl ValueType {
    pub fn is_int_class(&self) -> (r: bool)
        ensures
            r == (self is Int || self is Bool || self is Pointer),
    {
        match self {
            ValueType::Int | ValueType::Bool | ValueType::Pointer(_) => true,
            _ => false,
        }
    }

    pub fn is_float(&self) -> (r: bool)
        ensures
            r == (self is Float),
    {
        match self {
            ValueType::Float => true,
            _ => false,
        }
    }

    pub fn is_void(&self) -> (r: bool)
        ensures
            r == (self is Void),
    {
        match self {
            ValueType::Void => true,
            _ => false,
        }
    }
}

/// An exact copy of a value type, stated as equality.
pub fn clone_value_type(t: &ValueType) -> (r: ValueType)
    ensures
        r == *t,
    decreases t,
{
    match t {
        ValueType::Void => ValueType::Void,
        ValueType::Int => ValueType::Int,
        ValueType::Float => ValueType::Float,
        ValueType::Bool => ValueType::Bool,
        ValueType::SignedChar => ValueType::SignedChar,
        ValueType::Pointer(inner) => ValueType::Pointer(Box::new(clone_value_type(inner))),
        ValueType::Array(inner, n) => ValueType::Array(Box::new(clone_value_type(inner)), *n),
    }
}

/// Compile-time constants.
#[derive(Debug, PartialEq)]
pub enum Constant {
    Int(i32),
    /// Bit pattern of an IEEE-754 double.
    Float(u64),
    Bool(bool),
    SignedChar(i8),
    Array(Vec<Constant>),
}

/// A value operand: a constant, a global by name, a formal parameter by its
/// index in the owning function, or an instruction result by its arena index.
#[derive(Debug, PartialEq)]
pub enum MirOperand {
    Constant(Constant),
    Global(String),
    Parameter(usize),
    Instruction(usize),
}

/// Integer-compare conditions.
#[derive(Debug, Clone, Copy, PartialEq, Eq, Structural)]
pub enum CmpPred {
    Slt,
    Sle,
    Sgt,
    Sge,
    Eq,
    Ne,
}

/// Integer arithmetic operators of the mid-level IR.
#[derive(Debug, Clone, Copy, PartialEq, Eq, Structural)]
pub enum MirBinOp {
    Add,
    Sub,
    Mul,
    SDiv,
    SRem,
}

/// One mid-level instruction. Loads, stores and calls touch memory; branch,
/// jump and return end a block.
#[derive(Debug, PartialEq)]
pub enum MirInstKind {
    Alloca { ty: ValueType },
    Load { ty: ValueType, ptr: MirOperand },
    Store { val: MirOperand, ptr: MirOperand },
    Gep { base_ty: ValueType, ptr: MirOperand, indices: Vec<MirOperand> },
    ICmp { pred: CmpPred, lhs: MirOperand, rhs: MirOperand },
    Bin { op: MirBinOp, lhs: MirOperand, rhs: MirOperand },
    Call { callee: String, ret_ty: ValueType, args: Vec<MirOperand> },
    Phi { ty: ValueType, incomings: Vec<(MirOperand, String)> },
    Br { target: String },
    CondBr { cond: MirOperand, then_label: String, else_label: String },
    Ret { val: Option<MirOperand> },
}

/// An instruction with its printed value number (the `6` of `%load_6`).
#[derive(Debug, PartialEq)]
pub struct MirInst {
    pub name_id: u64,
    pub kind: MirInstKind,
}

impl MirInst {
    /// Whether the instruction may read or write memory.
    pub open spec fn spec_touches_memory(&self) -> bool {
        self.kind is Load || self.kind is Store || self.kind is Call
    }

    #[verifier::when_used_as_spec(spec_touches_memory)]
    pub fn touches_memory(&self) -> (r: bool)
        ensures
            r == self.spec_touches_memory(),
    {
        match self.kind {
            MirInstKind::Load { .. } => true,
            MirInstKind::Store { .. } => true,
            MirInstKind::Call { .. } => true,
            _ => false,
        }
    }
}

/// A labelled block: instruction arena indices in order (the terminator is
/// the last one) and the labels of the CFG predecessors, in the order phi
/// incomings are listed.
#[derive(Debug, PartialEq)]
pub struct MirBlock {
    pub label: String,
    pub insts: Vec<usize>,
    pub preds: Vec<String>,
}

/// A formal parameter.
#[derive(Debug, PartialEq)]
pub struct MirParam {
    pub name: String,
    pub ty: ValueType,
}

/// A function: the first block is the entry.
#[derive(Debug, PartialEq)]
pub struct MirFunc {
    pub name: String,
    pub params: Vec<MirParam>,
    pub return_type: ValueType,
    pub blocks: Vec<MirBlock>,
    /// Library declarations have no body worth analyzing.
    pub is_lib: bool,
}

/// A global variable.
#[derive(Debug, PartialEq)]
pub struct MirGlobal {
    pub name: String,
    pub ty: ValueType,
    /// Flattened integer initializer words.
    pub init: Vec<i32>,
}

/// A module: functions and globals.
#[derive(Debug, PartialEq)]
pub struct MirModule {
    pub functions: Vec<MirFunc>,
    pub global_vars: Vec<MirGlobal>,
}

/// A whole program: the module plus the instruction arena that blocks index
/// into. An instruction's identity is its arena index.
#[derive(Debug, PartialEq)]
pub struct MirProgram {
    pub module: MirModule,
    pub insts: Vec<MirInst>,
}

impl MirProgram {
    /// Every block instruction index points into the arena.
    pub open spec fn wf(&self) -> bool {
        forall|f: int, b: int, k: int|
            0 <= f < self.module.functions@.len() && 0 <= b
                < self.module.functions@[f].blocks@.len() && 0 <= k
                < self.module.functions@[f].blocks@[b].insts@.len()
                ==> self.module.functions@[f].blocks@[b].insts@[k] < self.insts@.len()
}

    pub fn new() -> (r: MirProgram)
        ensures
            r.module.functions@ == Seq::<MirFunc>::empty(),
            r.module.global_vars@ == Seq::<MirGlobal>::empty(),
            r.insts@ == Seq::<MirInst>::empty(),
            r.wf(),
    {
        MirProgram {
            module: MirModule { functions: Vec::new(), global_vars: Vec::new() },
            insts: Vec::new(),
        }
    }

    /// Puts an instruction into the arena and hands back its identity.
    pub fn alloc_inst(&mut self, inst: MirInst) -> (id: usize)
        ensures
            final(self).insts@ == old(self).insts@.push(inst),
            id == old(self).insts@.len(),
            final(self).module == old(self).module,
    {
        let id: usize = self.insts.len();
        self.insts.push(inst);
        id
    }
}

/// Nested array shape of an element type, used by address lowering: a
/// scalar, or `n` copies of an inner shape.
#[derive(Debug, PartialEq)]
pub enum Dims {
    Scalar,
    Array(Box<Dims>, usize),
}

/// An exact copy of a shape, stated as equality.
pub fn clone_dims(d: &Dims) -> (r: Dims)
    ensures
        r == *d,
    decreases d,
{
    match d {
        Dims::Scalar => Dims::Scalar,
        Dims::Array(inner, n) => Dims::Array(Box::new(clone_dims(inner)), *n),
    }
}

impl Dims {
    /// Total number of scalar leaves.
    pub open spec fn spec_size(&self) -> nat
        decreases self,
    {
        match self {
            Dims::Scalar => 1,
            Dims::Array(inner, n) => inner.spec_size() * (*n as nat),
        }
    }

    /// Whether the shape is array-like.
    pub open spec fn spec_is_array_like(&self) -> bool {
        self is Array
    }

    #[verifier::when_used_as_spec(spec_is_array_like)]
    pub fn is_array_like(&self) -> (r: bool)
        ensures
            r == self.spec_is_array_like(),
    {
        match self {
            Dims::Array(..) => true,
            _ => false,
        }
    }

    /// The common sub-shape, for an array.
    pub open spec fn spec_sub(&self) -> Option<Dims> {
        match self {
            Dims::Scalar => None,
            Dims::Array(inner, _) => Some(**inner),
        }
    }

    /// Total leaf count, or `None` when it passes `i64::MAX`.
    pub fn size_checked(&self) -> (r: Option<i64>)
        ensures
            r matches Some(v) ==> v == self.spec_size() && v >= 0,
            r is None ==> self.spec_size() > i64::MAX,
        decreases self,
    {
        match self {
            Dims::Scalar => Some(1),
            Dims::Array(inner, n) => {
                let inner_size: Option<i64> = inner.size_checked();
                if *n == 0 {
                    proof {
                        vstd::arithmetic::mul::lemma_mul_basics(inner.spec_size() as int);
                    }
                    return Some(0);
                }
                match inner_size {
                    None => {
                        proof {
                            lemma_mul_ge_one_factor(inner.spec_size() as int, *n as int);
                        }
                        None
                    },
                    Some(v) => {
                        if v == 0 {
                            proof {
                                vstd::arithmetic::mul::lemma_mul_basics(*n as int);
                            }
                            Some(0)
                        } else if (*n as u64) > (i64::MAX as u64) {
                            proof {
                                lemma_mul_ge_one_factor(v as int, *n as int);
                            }
                            None
                        } else {
                            let n64: i64 = *n as i64;
                            if v <= i64::MAX / n64 {
                                proof {
                                    vstd::arithmetic::div_mod::lemma_fundamental_div_mod(
                                        i64::MAX as int,
                                        n64 as int,
                                    );
                                    vstd::arithmetic::mul::lemma_mul_inequality(
                                        v as int,
                                        i64::MAX as int / (n64 as int),
                                        n64 as int,
                                    );
                                    vstd::arithmetic::div_mod::lemma_mod_bound(
                                        i64::MAX as int,
                                        n64 as int,
                                    );
                                }
                                Some(v * n64)
                            } else {
                                proof {
                                    vstd::arithmetic::div_mod::lemma_fundamental_div_mod(
                                        i64::MAX as int,
                                        n64 as int,
                                    );
                                    vstd::arithmetic::mul::lemma_mul_inequality(
                                        i64::MAX as int / (n64 as int) + 1,
                                        v as int,
                                        n64 as int,
                                    );
                                    assert((i64::MAX as int / (n64 as int) + 1) * (n64 as int)
                                        == (i64::MAX as int / (n64 as int)) * (n64 as int) + (
                                    n64 as int)) by (nonlinear_arith);
                                    vstd::arithmetic::mul::lemma_mul_is_commutative(
                                        n64 as int,
                                        i64::MAX as int / (n64 as int),
                                    );
                                    assert((v as int) * (n64 as int) > i64::MAX as int);
                                    assert(inner.spec_size() * (*n as nat) == (v as int) * (
                                    n64 as int)) by (nonlinear_arith)
                                        requires
                                            inner.spec_size() == v as int,
                                            n64 as int == *n as int,
                                    ;
                                    vstd::arithmetic::div_mod::lemma_mod_bound(
                                        i64::MAX as int,
                                        n64 as int,
                                    );
                                }
                                None
                            }
                        }
                    },
                }
            },
        }
    }

    /// The common sub-shape, for an array; `None` for a scalar.
    pub fn sub(&self) -> (r: Option<&Dims>)
        ensures
            match r {
                Some(d) => self matches Dims::Array(inner, _) && *d == *inner,
                None => self is Scalar,
            },
    {
        match self {
            Dims::Scalar => None,
            Dims::Array(inner, _) => Some(inner),
        }
    }

    /// The element count of an array shape; `None` for a scalar.
    pub fn count(&self) -> (r: Option<usize>)
        ensures
            match r {
                Some(n) => self matches Dims::Array(_, m) && n == m,
                None => self is Scalar,
            },
    {
        match self {
            Dims::Scalar => None,
            Dims::Array(_, n) => Some(*n),
        }
    }
}

proof fn lemma_mul_ge_one_factor(a: int, n: int)
    requires
        a >= 1,
        n >= 1,
    ensures
        a * n >= a,
        a * n >= n,
{
    vstd::arithmetic::mul::lemma_mul_inequality(1, a, n);
    vstd::arithmetic::mul::lemma_mul_inequality(1, n, a);
    vstd::arithmetic::mul::lemma_mul_is_commutative(a, n);
}

} // verus!
