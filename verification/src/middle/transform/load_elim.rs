//! Load elimination over MemorySSA: a load whose reaching definition is a
//! store to the very same location is replaced by the stored value, through
//! `MemorySSA::replace_node`; everything else is left exactly as it was.

use vstd::prelude::*;

use crate::error::CompileError;
use crate::middle::effect::EffectAnalysis;
use crate::middle::memory_ssa::{MemorySSA, Node};
use crate::middle::mir::{Constant, MirInstKind, MirOperand, MirProgram};

verus! {

/// Equality of operands up to views: constants, globals by name, parameter
/// and instruction references; array constants never count as alike (they
/// are never copied).
pub open spec fn operand_like(a: MirOperand, b: MirOperand) -> bool {
    match a {
        MirOperand::Constant(ca) => match b {
            MirOperand::Constant(cb) => match ca {
                Constant::Int(x) => cb matches Constant::Int(y) && x == y,
                Constant::Float(x) => cb matches Constant::Float(y) && x == y,
                Constant::Bool(x) => cb matches Constant::Bool(y) && x == y,
                Constant::SignedChar(x) => cb matches Constant::SignedChar(y) && x == y,
                Constant::Array(_) => false,
            },
            _ => false,
        },
        MirOperand::Global(x) => b matches MirOperand::Global(y) && x@ == y@,
        MirOperand::Parameter(x) => b matches MirOperand::Parameter(y) && x == y,
        MirOperand::Instruction(x) => b matches MirOperand::Instruction(y) && x == y,
    }
}

/// Whether the operand can be copied for substitution (everything but an
/// array constant).
pub open spec fn operand_copyable(op: MirOperand) -> bool {
    match op {
        MirOperand::Constant(c) => !(c is Array),
        _ => true,
    }
}

/// Whether the operand is a use of instruction `t`.
pub open spec fn op_uses(op: MirOperand, t: usize) -> bool {
    op matches MirOperand::Instruction(i) && i == t
}

/// Whether any operand of the instruction kind uses instruction `t`.
pub open spec fn kind_uses(k: MirInstKind, t: usize) -> bool {
    match k {
        MirInstKind::Alloca { .. } => false,
        MirInstKind::Load { ptr, .. } => op_uses(ptr, t),
        MirInstKind::Store { val, ptr } => op_uses(val, t) || op_uses(ptr, t),
        MirInstKind::Gep { ptr, indices, .. } => op_uses(ptr, t) || (exists|i: int|
            0 <= i < indices@.len() && op_uses(#[trigger] indices@[i], t)),
        MirInstKind::ICmp { lhs, rhs, .. } => op_uses(lhs, t) || op_uses(rhs, t),
        MirInstKind::Bin { lhs, rhs, .. } => op_uses(lhs, t) || op_uses(rhs, t),
        MirInstKind::Call { args, .. } => exists|i: int|
            0 <= i < args@.len() && op_uses(#[trigger] args@[i], t),
        MirInstKind::Phi { incomings, .. } => exists|i: int|
            0 <= i < incomings@.len() && op_uses((#[trigger] incomings@[i]).0, t),
        MirInstKind::Br { .. } => false,
        MirInstKind::CondBr { cond, .. } => op_uses(cond, t),
        MirInstKind::Ret { val } => val matches Some(v) && op_uses(v, t),
    }
}

/// Whether the kind is a return of instruction `t`'s value.
pub open spec fn ret_uses(k: MirInstKind, t: usize) -> bool {
    k matches MirInstKind::Ret { val: Some(v) } && op_uses(v, t)
}

/// Whether the kind is a return carrying a value like `by`.
pub open spec fn ret_carries(k: MirInstKind, by: MirOperand) -> bool {
    k matches MirInstKind::Ret { val: Some(v) } && operand_like(v, by)
}

/// Whether instruction `t` stands in some block's instruction list.
pub open spec fn appears_somewhere(program: MirProgram, t: usize) -> bool {
    exists|f: int, b: int, k: int|
        0 <= f < program.module.functions@.len() && 0 <= b < program.module.functions@[
            f
        ].blocks@.len() && 0 <= k < program.module.functions@[f].blocks@[b].insts@.len()
            && program.module.functions@[f].blocks@[b].insts@[k] == t
}

/// Whether instruction `t` stands in at most one block position.
pub open spec fn appears_at_most_once(program: MirProgram, t: usize) -> bool {
    forall|f1: int, b1: int, k1: int, f2: int, b2: int, k2: int|
        0 <= f1 < program.module.functions@.len() && 0 <= b1 < program.module.functions@[
            f1
        ].blocks@.len() && 0 <= k1 < program.module.functions@[f1].blocks@[b1].insts@.len() && 0
            <= f2 < program.module.functions@.len() && 0 <= b2 < program.module.functions@[
            f2
        ].blocks@.len() && 0 <= k2 < program.module.functions@[f2].blocks@[b2].insts@.len() && (
        #[trigger] program.module.functions@[f1].blocks@[b1].insts@[k1]) == t && (
        #[trigger] program.module.functions@[f2].blocks@[b2].insts@[k2]) == t ==> f1 == f2 && b1
            == b2 && k1 == k2
}

/// The MemorySSA chain behind a replaceable load: its node is a use whose
/// reaching definition is the def node of instruction `sid`.
pub open spec fn store_reaches(m: MemorySSA, load_id: usize, sid: usize) -> bool {
    &&& m.inst_node.view_map().contains_key(load_id)
    &&& m.inst_node.view_map()[load_id] < m.nodes@.len()
    &&& (m.nodes@[m.inst_node.view_map()[load_id] as int] matches Node::Normal {
        inst: li,
        use_of: Some(u),
        is_def: false,
        ..
    } && li == load_id && u < m.nodes@.len() && (m.nodes@[u as int] matches Node::Normal {
        inst,
        is_def: true,
        ..
    } && inst == sid))
}

/// A load is a replacement candidate when its reaching definition is a
/// store's def node. (Whether the store covers the same location is an
/// alias-analysis question checked separately.)
pub open spec fn elim_candidate(program: MirProgram, m: MemorySSA, load_id: usize) -> bool {
    &&& load_id < program.insts@.len()
    &&& program.insts@[load_id as int].kind is Load
    &&& exists|sid: usize|
        #![trigger store_reaches(m, load_id, sid)]
        store_reaches(m, load_id, sid) && sid < program.insts@.len() && program.insts@[
            sid as int
        ].kind is Store
}

/// The fully pinned trivial case: the load and its reaching store address
/// the same global by name, and the stored value is copyable.
pub open spec fn trivial_global_case(
    program: MirProgram,
    m: MemorySSA,
    load_id: usize,
    sid: usize,
) -> bool {
    &&& load_id < program.insts@.len()
    &&& sid < program.insts@.len()
    &&& store_reaches(m, load_id, sid)
    &&& (program.insts@[load_id as int].kind matches MirInstKind::Load {
        ptr: MirOperand::Global(lp),
        ..
    } && (program.insts@[sid as int].kind matches MirInstKind::Store {
        val,
        ptr: MirOperand::Global(sp),
    } && lp@ == sp@ && operand_copyable(val)))
}

/// A copy of a replacement source; array constants are not copied (no load
/// a store of one covers is replaced).
pub fn clone_simple_operand(op: &MirOperand) -> (r: Option<MirOperand>)
    ensures
        r is Some <==> operand_copyable(*op),
        r matches Some(o) ==> operand_like(o, *op) && operand_like(*op, o),
{
    match op {
        MirOperand::Constant(c) => match c {
            Constant::Int(v) => Some(MirOperand::Constant(Constant::Int(*v))),
            Constant::Float(b) => Some(MirOperand::Constant(Constant::Float(*b))),
            Constant::Bool(b) => Some(MirOperand::Constant(Constant::Bool(*b))),
            Constant::SignedChar(v) => Some(MirOperand::Constant(Constant::SignedChar(*v))),
            Constant::Array(_) => None,
        },
        MirOperand::Global(n) => Some(MirOperand::Global(n.clone())),
        MirOperand::Parameter(p) => Some(MirOperand::Parameter(*p)),
        MirOperand::Instruction(i) => Some(MirOperand::Instruction(*i)),
    }
}

/// Whether two resolved locations are the same exact region, so that a
/// store there fully covers a load from there.
fn same_loc(program: &MirProgram, a: &MirOperand, b: &MirOperand) -> (r: bool)
    ensures
        (*a matches MirOperand::Global(x) && (*b matches MirOperand::Global(y) && x@ == y@)) ==> r,
        (*a matches MirOperand::Global(x) && (*b matches MirOperand::Global(y) && x@ != y@))
            ==> !r,
{
    let la = EffectAnalysis::resolve_loc(program, a, 16);
    let lb = EffectAnalysis::resolve_loc(program, b, 16);
    match la {
        crate::middle::effect::Loc::Global(x) => {
            match lb {
                crate::middle::effect::Loc::Global(y) => x == y,
                _ => false,
            }
        },
        crate::middle::effect::Loc::Stack(x) => {
            match lb {
                crate::middle::effect::Loc::Stack(y) => x == y,
                _ => false,
            }
        },
        crate::middle::effect::Loc::Region { base: b1, path: p1 } => {
            match lb {
                crate::middle::effect::Loc::Region { base: b2, path: p2 } => {
                    if !(b1 == b2) {
                        return false;
                    }
                    if p1.len() != p2.len() {
                        return false;
                    }
                    let n: usize = p1.len();
                    let mut i: usize = 0;
                    while i < n
                        invariant
                            n == p1@.len(),
                            n == p2@.len(),
                            i <= n,
                            !(*a is Global),
                        decreases n - i,
                    {
                        let xa: Option<i64> = p1[i];
                        let xb: Option<i64> = p2[i];
                        let same: bool = match (xa, xb) {
                            (Some(x), Some(y)) => x == y,
                            _ => false,
                        };
                        if !same {
                            return false;
                        }
                        i = i + 1;
                    }
                    true
                },
                _ => false,
            }
        },
        crate::middle::effect::Loc::Unknown => false,
    }
}

/// Whether the operand is a use of instruction `target`.
fn is_use_of(op: &MirOperand, target: usize) -> (r: bool)
    ensures
        r == op_uses(*op, target),
{
    match op {
        MirOperand::Instruction(i) => *i == target,
        _ => false,
    }
}

/// The operand with a use of `target` swapped for a copy of `by`; `None`
/// when unchanged or not copyable.
fn swap_op(op: &MirOperand, target: usize, by: &MirOperand) -> (r: Option<MirOperand>)
    ensures
        r is Some <==> op_uses(*op, target) && operand_copyable(*by),
        r matches Some(o) ==> operand_like(o, *by),
{
    if is_use_of(op, target) {
        clone_simple_operand(by)
    } else {
        None
    }
}

/// The instruction kind with uses of `target` replaced; `None` when nothing
/// changes.
fn replace_in_kind(k: &MirInstKind, target: usize, by: &MirOperand) -> (r: Option<MirInstKind>)
    ensures
        !kind_uses(*k, target) ==> r is None,
        ret_uses(*k, target) && operand_copyable(*by) ==> (r matches Some(k2) && ret_carries(
            k2,
            *by,
        )),
{
    match k {
        MirInstKind::Store { val, ptr } => {
            match swap_op(val, target, by) {
                Some(nv) => {
                    match clone_simple_operand(ptr) {
                        Some(np) => Some(MirInstKind::Store { val: nv, ptr: np }),
                        None => None,
                    }
                },
                None => None,
            }
        },
        MirInstKind::Ret { val } => {
            match val {
                Some(v) => {
                    match swap_op(v, target, by) {
                        Some(nv) => Some(MirInstKind::Ret { val: Some(nv) }),
                        None => None,
                    }
                },
                None => None,
            }
        },
        MirInstKind::ICmp { pred, lhs, rhs } => {
            let nl: Option<MirOperand> = swap_op(lhs, target, by);
            let nr: Option<MirOperand> = swap_op(rhs, target, by);
            if nl.is_none() && nr.is_none() {
                return None;
            }
            let l2: MirOperand = match nl {
                Some(v) => v,
                None => {
                    match clone_simple_operand(lhs) {
                        Some(v) => v,
                        None => {
                            return None;
                        },
                    }
                },
            };
            let r2: MirOperand = match nr {
                Some(v) => v,
                None => {
                    match clone_simple_operand(rhs) {
                        Some(v) => v,
                        None => {
                            return None;
                        },
                    }
                },
            };
            Some(MirInstKind::ICmp { pred: *pred, lhs: l2, rhs: r2 })
        },
        MirInstKind::Bin { op, lhs, rhs } => {
            let nl: Option<MirOperand> = swap_op(lhs, target, by);
            let nr: Option<MirOperand> = swap_op(rhs, target, by);
            if nl.is_none() && nr.is_none() {
                return None;
            }
            let l2: MirOperand = match nl {
                Some(v) => v,
                None => {
                    match clone_simple_operand(lhs) {
                        Some(v) => v,
                        None => {
                            return None;
                        },
                    }
                },
            };
            let r2: MirOperand = match nr {
                Some(v) => v,
                None => {
                    match clone_simple_operand(rhs) {
                        Some(v) => v,
                        None => {
                            return None;
                        },
                    }
                },
            };
            Some(MirInstKind::Bin { op: *op, lhs: l2, rhs: r2 })
        },
        _ => None,
    }
}

/// Replaces every use of instruction `target` with a copy of `by`, across
/// the whole arena. Identities stay put; instructions that do not use
/// `target` are untouched, and a return of `target`'s value now carries a
/// copy of `by`.
pub fn replace_uses(program: &mut MirProgram, target: usize, by: &MirOperand)
    ensures
        final(program).insts@.len() == old(program).insts@.len(),
        final(program).module.functions@.len() == old(program).module.functions@.len(),
        final(program).module == old(program).module,
        forall|i: int|
            #![trigger final(program).insts@[i]]
            0 <= i < old(program).insts@.len() && !kind_uses(old(program).insts@[i].kind, target)
                ==> final(program).insts@[i] == old(program).insts@[i],
        forall|i: int|
            #![trigger final(program).insts@[i]]
            0 <= i < old(program).insts@.len() && ret_uses(old(program).insts@[i].kind, target)
                && operand_copyable(*by) ==> ret_carries(final(program).insts@[i].kind, *by),
{
    let n: usize = program.insts.len();
    let mut i: usize = 0;
    while i < n
        invariant
            n == program.insts@.len(),
            program.module == old(program).module,
            i <= n,
            forall|x: int|
                #![trigger program.insts@[x]]
                0 <= x < i && !kind_uses(old(program).insts@[x].kind, target) ==> program.insts@[x]
                    == old(program).insts@[x],
            forall|x: int|
                #![trigger program.insts@[x]]
                0 <= x < i && ret_uses(old(program).insts@[x].kind, target) && operand_copyable(
                    *by,
                ) ==> ret_carries(program.insts@[x].kind, *by),
            forall|x: int|
                #![trigger program.insts@[x]]
                i <= x < n ==> program.insts@[x] == old(program).insts@[x],
        decreases n - i,
    {
        let kind_new: Option<MirInstKind> = replace_in_kind(&program.insts[i].kind, target, by);
        if let Some(k) = kind_new {
            let name_id: u64 = program.insts[i].name_id;
            program.insts[i] = crate::middle::mir::MirInst { name_id, kind: k };
        }
        i = i + 1;
    }
}

/// Drops instruction `target` from whichever block holds it. With `target`
/// standing at most once, it stands nowhere afterwards.
pub fn remove_target_from_blocks(program: &mut MirProgram, target: usize)
    ensures
        final(program).insts@ == old(program).insts@,
        final(program).module.functions@.len() == old(program).module.functions@.len(),
        appears_at_most_once(*old(program), target) ==> !appears_somewhere(
            *final(program),
            target,
        ),
{
    let nf: usize = program.module.functions.len();
    let mut f: usize = 0;
    while f < nf
        invariant
            nf == program.module.functions@.len(),
            program.module.functions@.len() == old(program).module.functions@.len(),
            program.insts@ == old(program).insts@,
            f <= nf,
            *program == *old(program),
            forall|f2: int, b2: int, k2: int|
                0 <= f2 < f && 0 <= b2 < program.module.functions@[f2].blocks@.len() && 0 <= k2
                    < program.module.functions@[f2].blocks@[b2].insts@.len() ==> (
                #[trigger] program.module.functions@[f2].blocks@[b2].insts@[k2]) != target,
        decreases nf - f,
    {
        let nb: usize = program.module.functions[f].blocks.len();
        let mut b: usize = 0;
        while b < nb
            invariant
                nf == program.module.functions@.len(),
                program.module.functions@.len() == old(program).module.functions@.len(),
                program.insts@ == old(program).insts@,
                f < program.module.functions@.len(),
                nb == program.module.functions@[f as int].blocks@.len(),
                b <= nb,
                *program == *old(program),
                forall|f2: int, b2: int, k2: int|
                    0 <= f2 < f && 0 <= b2 < program.module.functions@[f2].blocks@.len() && 0 <= k2
                        < program.module.functions@[f2].blocks@[b2].insts@.len() ==> (
                    #[trigger] program.module.functions@[f2].blocks@[b2].insts@[k2]) != target,
                forall|b2: int, k2: int|
                    0 <= b2 < b && 0 <= k2 < program.module.functions@[f as int].blocks@[
                        b2
                    ].insts@.len() ==> (#[trigger] program.module.functions@[f as int].blocks@[
                        b2
                    ].insts@[k2]) != target,
            decreases nb - b,
        {
            let m: usize = program.module.functions[f].blocks[b].insts.len();
            let mut k: usize = 0;
            let mut found: bool = false;
            let mut pos: usize = 0;
            while k < m && !found
                invariant
                    f < program.module.functions@.len(),
                    b < program.module.functions@[f as int].blocks@.len(),
                    m == program.module.functions@[f as int].blocks@[b as int].insts@.len(),
                    k <= m,
                    found ==> pos < m && program.module.functions@[f as int].blocks@[
                        b as int
                    ].insts@[pos as int] == target,
                    !found ==> forall|k2: int|
                        0 <= k2 < k ==> (#[trigger] program.module.functions@[f as int].blocks@[
                            b as int
                        ].insts@[k2]) != target,
                decreases m - k,
            {
                if program.module.functions[f].blocks[b].insts[k] == target {
                    found = true;
                    pos = k;
                }
                k = k + 1;
            }
            if found {
                let ghost pre = *program;
                let _ = program.module.functions[f].blocks[b].insts.remove(pos);
                proof {
                    assert(program.insts@ == old(program).insts@);
                    assert(program.module.functions@.len() == nf);
                    if appears_at_most_once(*old(program), target) {
                        assert forall|f2: int, b2: int, k2: int|
                            0 <= f2 < program.module.functions@.len() && 0 <= b2
                                < program.module.functions@[f2].blocks@.len() && 0 <= k2
                                < program.module.functions@[f2].blocks@[b2].insts@.len() implies (
                        #[trigger] program.module.functions@[f2].blocks@[b2].insts@[k2]) != target
                            by {
                            if f2 == f && b2 == b {
                                let olds = pre.module.functions@[f2].blocks@[b2].insts@;
                                if k2 < pos {
                                    assert(program.module.functions@[f2].blocks@[b2].insts@[k2]
                                        == olds[k2]);
                                    if olds[k2] == target {
                                        assert(olds[pos as int] == target);
                                        assert(false);
                                    }
                                } else {
                                    assert(program.module.functions@[f2].blocks@[b2].insts@[k2]
                                        == olds[k2 + 1]);
                                    if olds[k2 + 1] == target {
                                        assert(olds[pos as int] == target);
                                        assert(false);
                                    }
                                }
                            } else {
                                assert(program.module.functions@[f2].blocks@[b2].insts@[k2]
                                    == pre.module.functions@[f2].blocks@[b2].insts@[k2]);
                                if pre.module.functions@[f2].blocks@[b2].insts@[k2] == target {
                                    assert(pre.module.functions@[f as int].blocks@[b as int].insts@[
                                        pos as int
                                    ] == target);
                                    assert(false);
                                }
                            }
                        }
                    }
                }
                return ;
            }
            b = b + 1;
        }
        f = f + 1;
    }
    proof {
        if appears_somewhere(*program, target) {
            let (f2, b2, k2): (int, int, int) = choose|f2: int, b2: int, k2: int|
                0 <= f2 < program.module.functions@.len() && 0 <= b2 < program.module.functions@[
                    f2
                ].blocks@.len() && 0 <= k2 < program.module.functions@[f2].blocks@[
                    b2
                ].insts@.len() && program.module.functions@[f2].blocks@[b2].insts@[k2] == target;
        }
    }
}

/// The load-elimination pass.
pub struct LoadElim {
}

impl LoadElim {
    pub fn new() -> (r: LoadElim) {
        LoadElim {  }
    }

    /// Walks every instruction of the program. With no load anywhere whose
    /// reaching definition is a store's def node, nothing changes at all.
    pub fn run(&self, program: &mut MirProgram, memory_ssa: &mut MemorySSA)
        ensures
            final(program).insts@.len() == old(program).insts@.len(),
            final(program).module.functions@.len() == old(program).module.functions@.len(),
            (forall|t: usize| !elim_candidate(*old(program), *old(memory_ssa), t)) ==> *final(program) == *old(program) && *final(memory_ssa) == *old(memory_ssa),
    {
        let n: usize = program.insts.len();
        let mut i: usize = 0;
        while i < n
            invariant
                n == program.insts@.len(),
                program.module.functions@.len() == old(program).module.functions@.len(),
                i <= n,
                (forall|t: usize| !elim_candidate(*old(program), *old(memory_ssa), t))
                    ==> *program == *old(program) && *memory_ssa == *old(memory_ssa),
            decreases n - i,
        {
            self.process_inst(program, memory_ssa, i);
            i = i + 1;
        }
    }

    /// Replaces one load whose reaching definition is a store to the same
    /// location with the stored value (through `MemorySSA::replace_node`),
    /// and drops the load from its block. A load whose reaching definition
    /// is a phi, an entry, or a call's def — or no load at all — changes
    /// nothing; so does one whose reaching store addresses a different
    /// global, or stores a value that cannot be copied. In the trivial
    /// global case (load and reaching store name the same global), the
    /// replacement is owed: afterwards the load stands in no block and
    /// every return of its value carries the stored value.
    pub fn process_inst(
        &self,
        program: &mut MirProgram,
        memory_ssa: &mut MemorySSA,
        load_id: usize,
    )
        ensures
            final(program).insts@.len() == old(program).insts@.len(),
            final(program).module.functions@.len() == old(program).module.functions@.len(),
            !elim_candidate(*old(program), *old(memory_ssa), load_id) ==> *final(program) == *old(program) && *final(memory_ssa) == *old(memory_ssa),
            forall|sid: usize|
                #![trigger store_reaches(*old(memory_ssa), load_id, sid)]
                (store_reaches(*old(memory_ssa), load_id, sid) && sid < old(program).insts@.len()
                    && (old(program).insts@[load_id as int].kind matches MirInstKind::Load {
                    ptr: MirOperand::Global(lp),
                    ..
                } && (old(program).insts@[sid as int].kind matches MirInstKind::Store {
                    ptr: MirOperand::Global(sp),
                    ..
                } && lp@ != sp@))) ==> *final(program) == *old(program) && *final(memory_ssa)
                    == *old(memory_ssa),
            forall|sid: usize|
                #![trigger store_reaches(*old(memory_ssa), load_id, sid)]
                (store_reaches(*old(memory_ssa), load_id, sid) && sid < old(program).insts@.len()
                    && (old(program).insts@[sid as int].kind matches MirInstKind::Store {
                    val,
                    ..
                } && !operand_copyable(val))) ==> *final(program) == *old(program)
                    && *final(memory_ssa) == *old(memory_ssa),
            forall|sid: usize|
                #![trigger trivial_global_case(*old(program), *old(memory_ssa), load_id, sid)]
                trivial_global_case(*old(program), *old(memory_ssa), load_id, sid) ==> {
                    &&& !final(memory_ssa).inst_node.view_map().contains_key(load_id)
                    &&& (appears_at_most_once(*old(program), load_id) ==> !appears_somewhere(
                        *final(program),
                        load_id,
                    ))
                    &&& (old(program).insts@[sid as int].kind matches MirInstKind::Store {
                        val,
                        ..
                    } ==> forall|i: int|
                        #![trigger final(program).insts@[i]]
                        0 <= i < old(program).insts@.len() && ret_uses(
                            old(program).insts@[i].kind,
                            load_id,
                        ) ==> ret_carries(final(program).insts@[i].kind, val))
                },
    {
        let ghost m0 = *memory_ssa;
        let ghost p0 = *program;
        if load_id >= program.insts.len() {
            return ;
        }
        let load_is_global: bool = match &program.insts[load_id].kind {
            MirInstKind::Load { ptr: MirOperand::Global(_), .. } => true,
            _ => false,
        };
        let load_ptr: MirOperand = match &program.insts[load_id].kind {
            MirInstKind::Load { ptr, .. } => {
                match clone_simple_operand(ptr) {
                    Some(p) => p,
                    None => {
                        return ;
                    },
                }
            },
            _ => {
                return ;
            },
        };
        let node_id: usize = match memory_ssa.get_inst_node(load_id) {
            Some(nid) => nid,
            None => {
                return ;
            },
        };
        if node_id >= memory_ssa.nodes.len() {
            return ;
        }
        let (use_node, owner_ok): (usize, bool) = match &memory_ssa.nodes[node_id] {
            Node::Normal { inst, use_of: Some(u), is_def: false, .. } => (*u, *inst == load_id),
            _ => {
                return ;
            },
        };
        if !owner_ok {
            return ;
        }
        if use_node >= memory_ssa.nodes.len() {
            return ;
        }
        let store_id: usize = match &memory_ssa.nodes[use_node] {
            Node::Normal { inst, is_def: true, .. } => *inst,
            _ => {
                return ;
            },
        };
        proof {
            assert forall|sid: usize| #[trigger] store_reaches(m0, load_id, sid) implies sid
                == store_id by {}
        }
        if store_id >= program.insts.len() {
            return ;
        }
        let store_val: MirOperand = match &program.insts[store_id].kind {
            MirInstKind::Store { val, ptr } => {
                if !same_loc(program, ptr, &load_ptr) {
                    proof {
                        // In the trivial global case the pointers name the
                        // same global, so the location check cannot fail.
                        assert(!load_is_global || !trivial_global_case(
                            p0,
                            m0,
                            load_id,
                            store_id,
                        ));
                    }
                    return ;
                }
                match clone_simple_operand(val) {
                    Some(v) => v,
                    None => {
                        return ;
                    },
                }
            },
            _ => {
                return ;
            },
        };
        proof {
            assert(store_reaches(m0, load_id, store_id));
            assert(elim_candidate(p0, m0, load_id));
            // On this path the location check passed and the value was
            // copied, so neither unchanged-case antecedent can hold.
            assert forall|sid: usize|
                #[trigger] store_reaches(m0, load_id, sid) && sid < p0.insts@.len() && (
                p0.insts@[load_id as int].kind matches MirInstKind::Load {
                    ptr: MirOperand::Global(lp),
                    ..
                } && (p0.insts@[sid as int].kind matches MirInstKind::Store {
                    ptr: MirOperand::Global(sp),
                    ..
                } && lp@ != sp@)) implies false by {
                assert(sid == store_id);
            }
            assert forall|sid: usize|
                #[trigger] store_reaches(m0, load_id, sid) && sid < p0.insts@.len() && (
                p0.insts@[sid as int].kind matches MirInstKind::Store { val, .. }
                    && !operand_copyable(val)) implies false by {
                assert(sid == store_id);
            }
        }
        memory_ssa.replace_node(program, node_id, &store_val);
        proof {
            assert forall|sid: usize|
                #[trigger] trivial_global_case(p0, m0, load_id, sid) implies {
                &&& !memory_ssa.inst_node.view_map().contains_key(load_id)
                &&& (appears_at_most_once(p0, load_id) ==> !appears_somewhere(
                    *program,
                    load_id,
                ))
                &&& (p0.insts@[sid as int].kind matches MirInstKind::Store { val, .. }
                    ==> forall|i: int|
                    #![trigger program.insts@[i]]
                    0 <= i < p0.insts@.len() && ret_uses(p0.insts@[i].kind, load_id)
                        ==> ret_carries(program.insts@[i].kind, val))
            } by {
                assert(sid == store_id);
                assert(operand_like(store_val, p0.insts@[sid as int].kind->Store_val));
                assert forall|i: int|
                    0 <= i < p0.insts@.len() && ret_uses(p0.insts@[i].kind, load_id) implies
                    ret_carries(#[trigger] program.insts@[i].kind, p0.insts@[
                    sid as int
                ].kind->Store_val) by {
                    assert(ret_carries(program.insts@[i].kind, store_val));
                    lemma_operand_like_trans_ret(
                        program.insts@[i].kind,
                        store_val,
                        p0.insts@[sid as int].kind->Store_val,
                    );
                }
            }
        }
    }
}

/// Likeness chains: a return carrying a value like `b` also carries any
/// value `c` that `b` is like.
proof fn lemma_operand_like_trans_ret(k: MirInstKind, b: MirOperand, c: MirOperand)
    requires
        ret_carries(k, b),
        operand_like(b, c),
    ensures
        ret_carries(k, c),
{
}


/// Runs load elimination over the program under the given MemorySSA; the
/// instruction arena and function count are untouched (identities stay
/// stable).
pub fn optimize_program(program: &mut MirProgram, memory_ssa: &mut MemorySSA) -> (r: Result<
    (),
    CompileError,
>)
    ensures
        r is Ok,
        final(program).insts@.len() == old(program).insts@.len(),
        final(program).module.functions@.len() == old(program).module.functions@.len(),
        (forall|t: usize| !elim_candidate(*old(program), *old(memory_ssa), t)) ==> *final(program) == *old(program) && *final(memory_ssa) == *old(memory_ssa),
{
    let pass: LoadElim = LoadElim::new();
    pass.run(program, memory_ssa);
    Ok(())
}

} // verus!
