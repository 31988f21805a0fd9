//! Target functions: an entry block plus further blocks, the owning register
//! generator and stack allocator, and the per-function finalization passes
//! (terminator simplification, label renaming, block surgery).

use vstd::prelude::*;

use crate::backend::block::Block;
use crate::backend::tight_term::tight;
use crate::backend::inst::{replaced_label, Inst};
use crate::backend::reg::{Reg, RegGenerator};
use crate::backend::stack::StackAllocator;
use crate::error::CompileError;

verus! {

broadcast use vstd::seq_lib::group_seq_properties;

/// A target function.
#[derive(Debug, Clone)]
pub struct Func {
    pub name: String,
    pub args: Vec<String>,
    /// Return register: `A0` for int/bool, `FA0` for float, `None` for void.
    pub ret: Option<Reg>,
    pub reg_gener: Option<RegGenerator>,
    pub stack_allocator: Option<StackAllocator>,
    pub entry: Block,
    pub other_bbs: Vec<Block>,
    /// Bytes needed for the largest outgoing extra-argument area of any call
    /// this function makes.
    pub max_callee_regs_stack: u32,
}

/// The label-and-instructions view of one block.
pub open spec fn bb_view(b: Block) -> (Seq<char>, Seq<Inst>) {
    (b.label@, b.insts@)
}

/// Whether `s` ends with an unconditional jump to label `l`.
pub open spec fn ends_with_jmp_to(s: Seq<Inst>, l: Seq<char>) -> bool {
    s.len() > 0 && (s.last() matches Inst::Jmp { label } && label@ == l)
}

/// Whether block `i` of view `v` ends with a jump to the immediately
/// following block, which terminator simplification removes.
pub open spec fn simp_at(v: Seq<(Seq<char>, Seq<Inst>)>, i: int) -> bool {
    0 <= i && i + 1 < v.len() && ends_with_jmp_to(v[i].1, v[i + 1].0)
}

/// One round of terminator simplification over the block views: each block
/// that ends with a jump to the next block loses that jump.
pub open spec fn simplify_view(v: Seq<(Seq<char>, Seq<Inst>)>) -> Seq<(Seq<char>, Seq<Inst>)> {
    Seq::new(
        v.len(),
        |i: int|
            (
                v[i].0,
                if simp_at(v, i) {
                    v[i].1.drop_last()
                } else {
                    v[i].1
                },
            ),
    )
}

/// Number of terminator instructions in `s`.
pub open spec fn num_terms(s: Seq<Inst>) -> nat
    decreases s.len(),
{
    if s.len() == 0 {
        0
    } else {
        num_terms(s.drop_last()) + if s.last().spec_is_term() {
            1nat
        } else {
            0nat
        }
    }
}

/// Number of conditional branches in `s`.
pub open spec fn num_branches(s: Seq<Inst>) -> nat
    decreases s.len(),
{
    if s.len() == 0 {
        0
    } else {
        num_branches(s.drop_last()) + if s.last().spec_is_branch() {
            1nat
        } else {
            0nat
        }
    }
}

/// Whether desimplification appends a jump to this block: it has no
/// terminator at all, or exactly one and that one is a conditional branch.
pub open spec fn needs_jmp(s: Seq<Inst>) -> bool {
    num_terms(s) == 0 || (num_terms(s) == 1 && num_branches(s) == 1)
}

impl Func {
    /// All blocks in iteration order: the entry first.
    pub open spec fn bbs(&self) -> Seq<Block> {
        seq![self.entry] + self.other_bbs@
    }

    /// The label-and-instructions views of all blocks, in iteration order.
    pub open spec fn view_of_bbs(&self) -> Seq<(Seq<char>, Seq<Inst>)> {
        Seq::new(self.bbs().len(), |i: int| bb_view(self.bbs()[i]))
    }

    /// Everything except the blocks and the allocator.
    pub open spec fn same_frame_but_allocator(&self, other: &Func) -> bool {
        &&& self.name == other.name
        &&& self.args == other.args
        &&& self.ret == other.ret
        &&& self.reg_gener == other.reg_gener
        &&& self.max_callee_regs_stack == other.max_callee_regs_stack
    }

    /// Everything except the blocks.
    pub open spec fn same_frame(&self, other: &Func) -> bool {
        &&& self.name == other.name
        &&& self.args == other.args
        &&& self.ret == other.ret
        &&& self.reg_gener == other.reg_gener
        &&& self.stack_allocator == other.stack_allocator
        &&& self.max_callee_regs_stack == other.max_callee_regs_stack
    }

    /// A new function: void return, no allocator or generator yet.
    pub fn new(name: String, args: Vec<String>, entry: Block) -> (r: Func)
        ensures
            r.name == name,
            r.args == args,
            r.ret is None,
            r.reg_gener is None,
            r.stack_allocator is None,
            r.entry == entry,
            r.other_bbs@ == Seq::<Block>::empty(),
            r.max_callee_regs_stack == 0,
    {
        Func {
            name,
            args,
            ret: None,
            reg_gener: None,
            stack_allocator: None,
            entry,
            other_bbs: Vec::new(),
            max_callee_regs_stack: 0,
        }
    }

    pub fn name(&self) -> (r: &String)
        ensures
            r == &self.name,
    {
        &self.name
    }

    pub fn entry(&self) -> (r: &Block)
        ensures
            r == &self.entry,
    {
        &self.entry
    }

    pub fn ret(&self) -> (r: Option<Reg>)
        ensures
            r == self.ret,
    {
        self.ret
    }

    pub fn set_ret(&mut self, ret: Option<Reg>)
        ensures
            *final(self) == (Func { ret, ..*old(self) }),
    {
        self.ret = ret;
    }

    pub fn stack_allocator(&self) -> (r: &Option<StackAllocator>)
        ensures
            r == &self.stack_allocator,
    {
        &self.stack_allocator
    }

    pub fn set_stack_allocator(&mut self, a: Option<StackAllocator>)
        ensures
            *final(self) == (Func { stack_allocator: a, ..*old(self) }),
    {
        self.stack_allocator = a;
    }

    pub fn reg_gener(&self) -> (r: &Option<RegGenerator>)
        ensures
            r == &self.reg_gener,
    {
        &self.reg_gener
    }

    pub fn set_reg_gener(&mut self, g: Option<RegGenerator>)
        ensures
            *final(self) == (Func { reg_gener: g, ..*old(self) }),
    {
        self.reg_gener = g;
    }

    pub fn push_bb(&mut self, bb: Block)
        ensures
            final(self).other_bbs@ == old(self).other_bbs@.push(bb),
            final(self).entry == old(self).entry,
            final(self).same_frame(old(self)),
    {
        self.other_bbs.push(bb);
    }

    pub fn extend_bbs(&mut self, mut bbs: Vec<Block>)
        ensures
            final(self).other_bbs@ == old(self).other_bbs@ + bbs@,
            final(self).entry == old(self).entry,
            final(self).same_frame(old(self)),
    {
        self.other_bbs.append(&mut bbs);
    }

    pub fn other_bbs(&self) -> (r: &Vec<Block>)
        ensures
            r == &self.other_bbs,
    {
        &self.other_bbs
    }

    /// Number of blocks, entry first.
    pub fn n_bbs(&self) -> (r: usize)
        requires
            self.other_bbs@.len() < usize::MAX,
        ensures
            r == self.bbs().len(),
    {
        1 + self.other_bbs.len()
    }

    /// The `i`th block in iteration order (the entry is block 0).
    pub fn bb_at(&self, i: usize) -> (r: &Block)
        requires
            i < self.bbs().len(),
        ensures
            *r == self.bbs()[i as int],
    {
        if i == 0 {
            &self.entry
        } else {
            &self.other_bbs[i - 1]
        }
    }

    /// All blocks in iteration order, the entry first.
    pub fn iter_bbs(&self) -> (r: Vec<&Block>)
        ensures
            r@.len() == self.bbs().len(),
            forall|i: int| 0 <= i < r@.len() ==> *r@[i] == self.bbs()[i],
    {
        let mut v: Vec<&Block> = Vec::new();
        v.push(&self.entry);
        let mut i: usize = 0;
        while i < self.other_bbs.len()
            invariant
                i <= self.other_bbs@.len(),
                v@.len() == 1 + i,
                forall|j: int| 0 <= j < v@.len() ==> *v@[j] == self.bbs()[j],
            decreases self.other_bbs@.len() - i,
        {
            v.push(&self.other_bbs[i]);
            i = i + 1;
        }
        v
    }

    /// Whether the function makes any call.
    pub fn is_caller(&self) -> (r: bool)
        requires
            self.other_bbs@.len() < usize::MAX,
        ensures
            r == exists|i: int, j: int|
                0 <= i < self.bbs().len() && 0 <= j < self.bbs()[i].insts@.len()
                    && self.bbs()[i].insts@[j] is Call,
    {
        let n_other: usize = self.other_bbs.len();
        let mut i: usize = 0;
        let mut found: bool = false;
        while i < 1 + n_other && !found
            invariant
                n_other == self.other_bbs@.len(),
                n_other < usize::MAX,
                i <= 1 + n_other,
                found ==> exists|a: int, b: int|
                    0 <= a < self.bbs().len() && 0 <= b < self.bbs()[a].insts@.len()
                        && self.bbs()[a].insts@[b] is Call,
                !found ==> forall|a: int, b: int|
                    0 <= a < i && 0 <= b < self.bbs()[a].insts@.len() ==> !(
                    self.bbs()[a].insts@[b] is Call),
            decreases 1 + n_other - i,
        {
            let bb: &Block = self.bb_at(i);
            let mut j: usize = 0;
            while j < bb.insts.len() && !found
                invariant
                    j <= bb.insts@.len(),
                    bb == &self.bbs()[i as int],
                    i < self.bbs().len(),
                    found ==> exists|a: int, b: int|
                        0 <= a < self.bbs().len() && 0 <= b < self.bbs()[a].insts@.len()
                            && self.bbs()[a].insts@[b] is Call,
                    !found ==> forall|b: int|
                        0 <= b < j ==> !(self.bbs()[i as int].insts@[b] is Call),
                decreases bb.insts@.len() - j,
            {
                if let Inst::Call { .. } = &bb.insts[j] {
                    found = true;
                }
                j = j + 1;
            }
            i = i + 1;
        }
        found
    }

    /// Whether register `r` occurs in some instruction's defs or uses.
    pub open spec fn mentions_reg(&self, r: Reg) -> bool {
        exists|i: int, j: int|
            0 <= i < self.bbs().len() && 0 <= j < self.bbs()[i].insts@.len() && (self.bbs()[
                i
            ].insts@[j].spec_defs().contains(r) || self.bbs()[i].insts@[j].spec_uses().contains(r))
    }

    /// Every register that some instruction defines or uses, without
    /// duplicates.
    pub fn regs(&self) -> (res: Vec<Reg>)
        requires
            self.other_bbs@.len() < usize::MAX,
        ensures
            res@.no_duplicates(),
            forall|r: Reg| res@.contains(r) <==> self.mentions_reg(r),
    {
        let mut acc: Vec<Reg> = Vec::new();
        let n_other: usize = self.other_bbs.len();
        let mut i: usize = 0;
        while i < 1 + n_other
            invariant
                n_other == self.other_bbs@.len(),
                n_other < usize::MAX,
                i <= 1 + n_other,
                acc@.no_duplicates(),
                forall|r: Reg| #[trigger]
                    acc@.contains(r) ==> self.mentions_reg(r),
                forall|a: int, b: int, r: Reg|
                    0 <= a < i && 0 <= b < self.bbs()[a].insts@.len() && (self.bbs()[
                        a
                    ].insts@[b].spec_defs().contains(r) || self.bbs()[
                        a
                    ].insts@[b].spec_uses().contains(r)) ==> acc@.contains(r),
            decreases 1 + n_other - i,
        {
            let bb: &Block = self.bb_at(i);
            let mut j: usize = 0;
            while j < bb.insts.len()
                invariant
                    j <= bb.insts@.len(),
                    bb == &self.bbs()[i as int],
                    i < self.bbs().len(),
                    acc@.no_duplicates(),
                    forall|r: Reg| #[trigger]
                        acc@.contains(r) ==> self.mentions_reg(r),
                    forall|a: int, b: int, r: Reg|
                        0 <= a < i && 0 <= b < self.bbs()[a].insts@.len() && (self.bbs()[
                            a
                        ].insts@[b].spec_defs().contains(r) || self.bbs()[
                            a
                        ].insts@[b].spec_uses().contains(r)) ==> acc@.contains(r),
                    forall|b: int, r: Reg|
                        0 <= b < j && (self.bbs()[i as int].insts@[b].spec_defs().contains(r)
                            || self.bbs()[i as int].insts@[b].spec_uses().contains(r))
                            ==> acc@.contains(r),
                decreases bb.insts@.len() - j,
            {
                let inst: &Inst = &bb.insts[j];
                let ds: Vec<Reg> = inst.defs();
                let us: Vec<Reg> = inst.uses();
                push_all_new(&mut acc, &ds);
                let ghost acc_mid: Seq<Reg> = acc@;
                push_all_new(&mut acc, &us);
                proof {
                    assert forall|r: Reg|
                        inst.spec_defs().contains(r) || inst.spec_uses().contains(r)
                            implies acc@.contains(r) by {
                        if inst.spec_defs().contains(r) {
                            assert(ds@.contains(r));
                            assert(acc_mid.contains(r));
                        } else {
                            assert(us@.contains(r));
                        }
                    }
                    assert(*inst == self.bbs()[i as int].insts@[j as int]);
                }
                j = j + 1;
            }
            i = i + 1;
        }
        proof {
            assert forall|r: Reg| self.mentions_reg(r) implies acc@.contains(r) by {
                let (a, b): (int, int) = choose|a: int, b: int|
                    0 <= a < self.bbs().len() && 0 <= b < self.bbs()[a].insts@.len() && (self.bbs()[
                        a
                    ].insts@[b].spec_defs().contains(r) || self.bbs()[
                        a
                    ].insts@[b].spec_uses().contains(r));
                assert(0 <= a < i);
            }
        }
        acc
    }

    /// Every virtual register the function mentions, without duplicates.
    pub fn v_regs(&self) -> (res: Vec<Reg>)
        requires
            self.other_bbs@.len() < usize::MAX,
        ensures
            res@.no_duplicates(),
            forall|r: Reg| res@.contains(r) <==> self.mentions_reg(r) && r.spec_is_virtual(),
    {
        let all: Vec<Reg> = self.regs();
        let mut out: Vec<Reg> = Vec::new();
        let mut i: usize = 0;
        while i < all.len()
            invariant
                i <= all@.len(),
                out@.no_duplicates(),
                forall|r2: Reg|
                    #![trigger out@.contains(r2)]
                    out@.contains(r2) <==> ((exists|k: int| 0 <= k < i && all@[k] == r2)
                        && r2.spec_is_virtual()),
                forall|r2: Reg| all@.contains(r2) <==> self.mentions_reg(r2),
            decreases all@.len() - i,
        {
            let r: Reg = all[i];
            let ghost prev: Seq<Reg> = out@;
            if r.is_virtual() {
                let mut seen: bool = false;
                let mut j: usize = 0;
                while j < out.len() && !seen
                    invariant
                        j <= out@.len(),
                        seen ==> out@.contains(r),
                        !seen ==> forall|k: int| 0 <= k < j ==> out@[k] != r,
                    decreases out@.len() - j,
                {
                    if out[j] == r {
                        seen = true;
                    }
                    j = j + 1;
                }
                if !seen {
                    proof {
                        if out@.contains(r) {
                            let k: int = choose|k: int| 0 <= k < out@.len() && out@[k] == r;
                            assert(false);
                        }
                    }
                    out.push(r);
                }
            }
            proof {
                assert forall|r2: Reg|
                    out@.contains(r2) <==> ((exists|k: int| 0 <= k < i + 1 && all@[k] == r2)
                        && r2.spec_is_virtual()) by {
                    if out@.contains(r2) {
                        if prev.contains(r2) {
                            let k: int = choose|k: int| 0 <= k < i && all@[k] == r2;
                            assert(0 <= k < i + 1 && all@[k] == r2);
                        } else {
                            assert(r2 == r);
                            assert(0 <= i < i + 1 && all@[i as int] == r2);
                        }
                    }
                    if (exists|k: int| 0 <= k < i + 1 && all@[k] == r2) && r2.spec_is_virtual() {
                        let k: int = choose|k: int| 0 <= k < i + 1 && all@[k] == r2;
                        if k < i {
                            assert(prev.contains(r2));
                            assert(out@.contains(r2));
                        } else {
                            assert(r2 == all@[i as int]);
                            assert(out@.contains(r2));
                        }
                    }
                }
            }
            i = i + 1;
        }
        proof {
            assert forall|r2: Reg| out@.contains(r2) implies self.mentions_reg(r2)
                && r2.spec_is_virtual() by {
                let k: int = choose|k: int| 0 <= k < all@.len() && all@[k] == r2;
                assert(all@.contains(r2));
            }
            assert forall|r2: Reg| self.mentions_reg(r2) && r2.spec_is_virtual() implies
                out@.contains(r2) by {
                assert(all@.contains(r2));
                let k: int = choose|k: int| 0 <= k < all@.len() && all@[k] == r2;
            }
        }
        out
    }

    /// The first block carrying the given label, if any.
    pub fn find_bb(&self, label: &String) -> (r: Option<&Block>)
        ensures
            match r {
                Some(b) => exists|i: int|
                    0 <= i < self.bbs().len() && *b == self.bbs()[i] && b.label@ == label@,
                None => forall|i: int|
                    0 <= i < self.bbs().len() ==> self.bbs()[i].label@ != label@,
            },
    {
        if self.entry.label == *label {
            proof {
                assert(self.bbs()[0] == self.entry);
            }
            return Some(&self.entry);
        }
        let mut i: usize = 0;
        while i < self.other_bbs.len()
            invariant
                i <= self.other_bbs@.len(),
                self.entry.label@ != label@,
                forall|j: int| 0 <= j < i ==> self.other_bbs@[j].label@ != label@,
            decreases self.other_bbs@.len() - i,
        {
            if self.other_bbs[i].label == *label {
                let b: &Block = &self.other_bbs[i];
                proof {
                    assert(self.bbs()[i + 1] == self.other_bbs@[i as int]);
                }
                return Some(b);
            }
            i = i + 1;
        }
        None
    }

    /// The blocks that end the function: their last instruction is a return
    /// or a tail call. Exactly those blocks come back, in iteration order.
    pub fn exit_bbs(&self) -> (r: Vec<&Block>)
        requires
            self.other_bbs@.len() < usize::MAX,
        ensures
            r@.map_values(|b: &Block| *b) == self.bbs().filter(|b: Block| is_exit_block(b)),
            forall|k: int| 0 <= k < r@.len() ==> self.bbs().contains(*#[trigger] r@[k]),
            forall|k: int|
                0 <= k < r@.len() ==> r@[k].insts@.len() > 0 && (r@[k].insts@.last() is Ret
                    || r@[k].insts@.last() is Tail),
    {
        let mut v: Vec<&Block> = Vec::new();
        let n_other: usize = self.other_bbs.len();
        let mut i: usize = 0;
        proof {
            reveal(Seq::filter);
            assert(self.bbs().take(0).filter(|b: Block| is_exit_block(b)) =~= Seq::<
                Block,
            >::empty());
            assert(v@.map_values(|b: &Block| *b) =~= Seq::<Block>::empty());
        }
        while i < 1 + n_other
            invariant
                n_other == self.other_bbs@.len(),
                n_other < usize::MAX,
                i <= 1 + n_other,
                v@.map_values(|b: &Block| *b) == self.bbs().take(i as int).filter(
                    |b: Block| is_exit_block(b),
                ),
                forall|k: int| 0 <= k < v@.len() ==> self.bbs().contains(*#[trigger] v@[k]),
                forall|k: int|
                    0 <= k < v@.len() ==> v@[k].insts@.len() > 0 && (v@[k].insts@.last() is Ret
                        || v@[k].insts@.last() is Tail),
            decreases 1 + n_other - i,
        {
            let bb: &Block = self.bb_at(i);
            let ghost pre = v@;
            let m: usize = bb.insts.len();
            let mut keep: bool = false;
            if m > 0 {
                keep = match &bb.insts[m - 1] {
                    Inst::Ret => true,
                    Inst::Tail { .. } => true,
                    _ => false,
                };
            }
            if keep {
                v.push(bb);
            }
            proof {
                reveal(Seq::filter);
                let pred = |b: Block| is_exit_block(b);
                assert(self.bbs().take(i as int + 1).drop_last() =~= self.bbs().take(i as int));
                assert(self.bbs().take(i as int + 1).last() == self.bbs()[i as int]);
                assert(keep == is_exit_block(self.bbs()[i as int]));
                if keep {
                    assert(v@.map_values(|b: &Block| *b) =~= pre.map_values(
                        |b: &Block| *b,
                    ).push(self.bbs()[i as int]));
                } else {
                    assert(v@.map_values(|b: &Block| *b) =~= pre.map_values(|b: &Block| *b));
                }
            }
            i = i + 1;
        }
        proof {
            assert(self.bbs().take((1 + n_other) as int) =~= self.bbs());
        }
        v
    }
}

/// Whether a block ends the function: its last instruction is a return or
/// a tail call.
pub open spec fn is_exit_block(b: Block) -> bool {
    b.insts@.len() > 0 && (b.insts@.last() is Ret || b.insts@.last() is Tail)
}

/// Appends to `acc` each register of `more` that `acc` does not hold yet.
fn push_all_new(acc: &mut Vec<Reg>, more: &Vec<Reg>)
    requires
        old(acc)@.no_duplicates(),
    ensures
        final(acc)@.no_duplicates(),
        forall|r: Reg|
            #![trigger final(acc)@.contains(r)]
            final(acc)@.contains(r) <==> old(acc)@.contains(r) || more@.contains(r),
{
    let mut i: usize = 0;
    while i < more.len()
        invariant
            i <= more@.len(),
            acc@.no_duplicates(),
            forall|r: Reg|
                acc@.contains(r) <==> old(acc)@.contains(r) || more@.subrange(
                    0,
                    i as int,
                ).contains(r),
        decreases more@.len() - i,
    {
        let r: Reg = more[i];
        let mut seen: bool = false;
        let mut j: usize = 0;
        while j < acc.len() && !seen
            invariant
                j <= acc@.len(),
                seen ==> acc@.contains(r),
                !seen ==> forall|k: int| 0 <= k < j ==> acc@[k] != r,
                acc@.no_duplicates(),
                forall|r2: Reg|
                    acc@.contains(r2) <==> old(acc)@.contains(r2) || more@.subrange(
                        0,
                        i as int,
                    ).contains(r2),
            decreases acc@.len() - j,
        {
            if acc[j] == r {
                seen = true;
            }
            j = j + 1;
        }
        if !seen {
            acc.push(r);
        }
        proof {
            assert(more@.subrange(0, (i + 1) as int) =~= more@.subrange(0, i as int).push(
                more@[i as int],
            ));
        }
        i = i + 1;
    }
    proof {
        assert(more@.subrange(0, more@.len() as int) =~= more@);
    }
}

} // verus!

verus! {

/// Whether `i` is an unconditional jump to label `l`.
pub open spec fn jmp_to(i: Inst, l: Seq<char>) -> bool {
    i matches Inst::Jmp { label } && label@ == l
}

/// No instruction of `s` is a terminator.
pub open spec fn no_terms(s: Seq<Inst>) -> bool {
    forall|i: int| 0 <= i < s.len() ==> !s[i].spec_is_term()
}

/// `s` ends in a conditional branch and holds no other terminator.
pub open spec fn branch_only(s: Seq<Inst>) -> bool {
    s.len() >= 1 && s.last().spec_is_branch() && no_terms(s.drop_last())
}

/// How one instruction changes under a label rename from `from` to `to`.
pub open spec fn rename_step(a: Inst, b: Inst, from: Seq<char>, to: Seq<char>) -> bool {
    if a.spec_target() == Some(from) {
        replaced_label(a, b, from, to)
    } else {
        b == a
    }
}

/// What desimplification does, over block views: a block that needs a jump
/// gets one appended, to the following block's label; every other block is
/// untouched.
pub open spec fn desimp_rel(
    pre: Seq<(Seq<char>, Seq<Inst>)>,
    post: Seq<(Seq<char>, Seq<Inst>)>,
) -> bool {
    &&& post.len() == pre.len()
    &&& forall|i: int| 0 <= i < pre.len() ==> (#[trigger] post[i]).0 == pre[i].0
    &&& forall|i: int|
        0 <= i < pre.len() ==> if needs_jmp(pre[i].1) {
            &&& i + 1 < pre.len()
            &&& (#[trigger] post[i]).1.len() == pre[i].1.len() + 1
            &&& post[i].1.drop_last() == pre[i].1
            &&& jmp_to(post[i].1.last(), pre[i + 1].0)
        } else {
            (#[trigger] post[i]).1 == pre[i].1
        }
}

/// Whether desimplification appends a jump to a block with these
/// instructions; computes `needs_jmp`.
fn count_needs_jmp(insts: &Vec<Inst>) -> (r: bool)
    ensures
        r == needs_jmp(insts@),
{
    let n: usize = insts.len();
    let mut t: usize = 0;
    let mut b: usize = 0;
    let mut j: usize = 0;
    proof {
        assert(insts@.take(0) =~= Seq::<Inst>::empty());
    }
    while j < n
        invariant
            n == insts@.len(),
            j <= n,
            t == num_terms(insts@.take(j as int)),
            b == num_branches(insts@.take(j as int)),
            t <= j,
            b <= j,
        decreases n - j,
    {
        proof {
            assert(insts@.take((j + 1) as int).drop_last() =~= insts@.take(j as int));
            assert(insts@.take((j + 1) as int).last() == insts@[j as int]);
        }
        if insts[j].is_term() {
            t = t + 1;
        }
        if insts[j].is_branch() {
            b = b + 1;
        }
        j = j + 1;
    }
    proof {
        assert(insts@.take(n as int) =~= insts@);
    }
    t == 0 || (t == 1 && b == 1)
}

/// Whether some instruction of the block jumps or branches to `from`.
fn block_mentions_target(b: &Block, from: &String) -> (r: bool)
    ensures
        r == exists|j: int| 0 <= j < b.insts@.len() && b.insts@[j].spec_target() == Some(from@),
{
    let m: usize = b.insts.len();
    let mut j: usize = 0;
    let mut any: bool = false;
    while j < m
        invariant
            m == b.insts@.len(),
            j <= m,
            any == exists|k: int| 0 <= k < j && b.insts@[k].spec_target() == Some(from@),
        decreases m - j,
    {
        let hit: bool = match &b.insts[j] {
            Inst::Jmp { label } => *label == *from,
            Inst::Br { label, .. } => *label == *from,
            _ => false,
        };
        proof {
            if hit {
                assert(b.insts@[j as int].spec_target() == Some(from@));
            }
        }
        any = any || hit;
        j = j + 1;
    }
    any
}

/// Rewrites every jump or branch target `from` to `to` in one block.
fn rename_in_block(b: &mut Block, from: &String, to: &String)
    ensures
        final(b).label == old(b).label,
        final(b).insts@.len() == old(b).insts@.len(),
        forall|j: int|
            0 <= j < old(b).insts@.len() ==> rename_step(
                old(b).insts@[j],
                final(b).insts@[j],
                from@,
                to@,
            ),
{
    let m: usize = b.insts.len();
    let mut j: usize = 0;
    while j < m
        invariant
            m == b.insts@.len(),
            b.label == old(b).label,
            j <= m,
            forall|k: int|
                0 <= k < j ==> rename_step(old(b).insts@[k], b.insts@[k], from@, to@),
            forall|k: int| j <= k < m ==> b.insts@[k] == old(b).insts@[k],
        decreases m - j,
    {
        let needs: bool = match &b.insts[j] {
            Inst::Jmp { label } => *label == *from,
            Inst::Br { label, .. } => *label == *from,
            _ => false,
        };
        if needs {
            let ni: Inst = b.insts[j].with_replaced_label(from, to);
            b.insts[j] = ni;
        }
        j = j + 1;
    }
}

impl Func {
    /// Drops each block-ending jump whose target is the immediately
    /// following block. Returns whether anything was dropped.
    pub fn simplify_term(&mut self) -> (changed: bool)
        requires
            old(self).other_bbs@.len() < usize::MAX,
        ensures
            final(self).same_frame(old(self)),
            final(self).view_of_bbs() == simplify_view(old(self).view_of_bbs()),
            changed == exists|i: int| simp_at(old(self).view_of_bbs(), i),
    {
        let ghost v0 = self.view_of_bbs();
        let ghost b0 = self.bbs();
        let n: usize = 1 + self.other_bbs.len();
        let mut flags: Vec<bool> = Vec::new();
        let mut i: usize = 0;
        while i < n
            invariant
                *self == *old(self),
                n == 1 + self.other_bbs@.len(),
                v0 == self.view_of_bbs(),
                b0 == self.bbs(),
                v0.len() == n,
                forall|k: int| 0 <= k < n ==> #[trigger] v0[k] == bb_view(b0[k]),
                i <= n,
                flags@.len() == i,
                forall|k: int| 0 <= k < i ==> flags@[k] == simp_at(v0, k),
            decreases n - i,
        {
            let mut f: bool = false;
            if i + 1 < n {
                let cur: &Block = self.bb_at(i);
                let m: usize = cur.insts.len();
                if m > 0 {
                    let nxt: &Block = self.bb_at(i + 1);
                    f = match &cur.insts[m - 1] {
                        Inst::Jmp { label } => *label == nxt.label,
                        _ => false,
                    };
                }
            }
            proof {
                assert(v0[i as int] == bb_view(self.bbs()[i as int]));
                if i + 1 < n {
                    assert(v0[i as int + 1] == bb_view(self.bbs()[i as int + 1]));
                }
                assert(f == simp_at(v0, i as int));
            }
            flags.push(f);
            i = i + 1;
        }
        let mut changed: bool = false;
        let mut j: usize = 0;
        while j < n
            invariant
                n == 1 + self.other_bbs@.len(),
                j <= n,
                flags@.len() == n,
                v0.len() == n,
                b0.len() == n,
                b0 == old(self).bbs(),
                forall|k: int| 0 <= k < n ==> #[trigger] v0[k] == bb_view(b0[k]),
                forall|k: int| 0 <= k < n ==> flags@[k] == simp_at(v0, k),
                self.bbs().len() == n,
                self.same_frame(old(self)),
                forall|k: int| 0 <= k < n ==> (#[trigger] self.bbs()[k]).label == b0[k].label,
                forall|k: int|
                    0 <= k < j ==> (#[trigger] self.bbs()[k]).insts@ == if simp_at(v0, k) {
                        b0[k].insts@.drop_last()
                    } else {
                        b0[k].insts@
                    },
                forall|k: int| j <= k < n ==> #[trigger] self.bbs()[k] == b0[k],
                changed == exists|k: int| 0 <= k < j && simp_at(v0, k),
            decreases n - j,
        {
            let ghost pre = *self;
            proof {
                assert(flags@[j as int] == simp_at(v0, j as int));
            }
            if flags[j] {
                proof {
                    assert(v0[j as int].1 == b0[j as int].insts@);
                    assert(self.bbs()[j as int] == b0[j as int]);
                    assert(b0[j as int].insts@.len() > 0);
                }
                if j == 0 {
                    let _ = self.entry.insts.pop();
                    proof {
                        assert(self.bbs()[0] == self.entry);
                        assert(self.entry.insts@ == b0[0].insts@.drop_last());
                    }
                } else {
                    let _ = self.other_bbs[j - 1].insts.pop();
                    proof {
                        assert(self.bbs()[j as int].insts@ == b0[j as int].insts@.drop_last());
                        assert(self.bbs()[j as int].label == b0[j as int].label);
                    }
                }
                changed = true;
            }
            proof {
                assert forall|k: int| 0 <= k < n && k != j implies #[trigger] self.bbs()[k]
                    == pre.bbs()[k] by {
                    if k == 0 {
                        assert(self.bbs()[0] == self.entry);
                        assert(pre.bbs()[0] == pre.entry);
                    } else {
                        assert(self.bbs()[k] == self.other_bbs@[k - 1]);
                        assert(pre.bbs()[k] == pre.other_bbs@[k - 1]);
                    }
                }
                assert forall|k: int| 0 <= k < n implies (#[trigger] self.bbs()[k]).label
                    == b0[k].label by {
                    if k != j {
                        assert(pre.bbs()[k].label == b0[k].label);
                    }
                }
            }
            j = j + 1;
        }
        proof {
            assert forall|k: int| 0 <= k < n implies self.view_of_bbs()[k] == simplify_view(v0)[k]
                by {
                assert(self.view_of_bbs()[k] == bb_view(self.bbs()[k]));
                assert(v0[k] == bb_view(b0[k]));
            }
            assert(self.view_of_bbs() =~= simplify_view(v0));
        }
        changed
    }

    /// Appends an explicit jump to the next block wherever a block has no
    /// terminator, or only a conditional branch. Fails, changing nothing,
    /// when the last block would need one (it has no next block).
    pub fn desimplify_term(&mut self) -> (r: Result<(), CompileError>)
        requires
            old(self).other_bbs@.len() < usize::MAX,
        ensures
            r is Err <==> needs_jmp(old(self).view_of_bbs().last().1),
            r is Err ==> *final(self) == *old(self) && r == Err::<(), CompileError>(
                CompileError::StructuralViolation,
            ),
            r is Ok ==> final(self).same_frame(old(self)) && desimp_rel(
                old(self).view_of_bbs(),
                final(self).view_of_bbs(),
            ),
    {
        let ghost v0 = self.view_of_bbs();
        let ghost b0 = self.bbs();
        let n: usize = 1 + self.other_bbs.len();
        let mut flags: Vec<bool> = Vec::new();
        let mut i: usize = 0;
        while i < n
            invariant
                *self == *old(self),
                n == 1 + self.other_bbs@.len(),
                v0 == self.view_of_bbs(),
                b0 == self.bbs(),
                v0.len() == n,
                forall|k: int| 0 <= k < n ==> #[trigger] v0[k] == bb_view(b0[k]),
                i <= n,
                flags@.len() == i,
                forall|k: int| 0 <= k < i ==> flags@[k] == needs_jmp(v0[k].1),
            decreases n - i,
        {
            let f: bool = count_needs_jmp(&self.bb_at(i).insts);
            proof {
                assert(v0[i as int] == bb_view(self.bbs()[i as int]));
            }
            flags.push(f);
            i = i + 1;
        }
        if flags[n - 1] {
            proof {
                assert(v0.last() == v0[n - 1]);
            }
            return Err(CompileError::StructuralViolation);
        }
        let mut j: usize = 0;
        while j < n
            invariant
                n == 1 + self.other_bbs@.len(),
                j <= n,
                flags@.len() == n,
                v0.len() == n,
                b0.len() == n,
                b0 == old(self).bbs(),
                forall|k: int| 0 <= k < n ==> #[trigger] v0[k] == bb_view(b0[k]),
                forall|k: int| 0 <= k < n ==> flags@[k] == needs_jmp(v0[k].1),
                !flags@[n - 1],
                self.bbs().len() == n,
                self.same_frame(old(self)),
                forall|k: int| 0 <= k < n ==> (#[trigger] self.bbs()[k]).label == b0[k].label,
                forall|k: int|
                    0 <= k < j && needs_jmp(v0[k].1) ==> (#[trigger] self.bbs()[k]).insts@.len()
                        == b0[k].insts@.len() + 1 && self.bbs()[k].insts@.drop_last()
                        == b0[k].insts@ && jmp_to(self.bbs()[k].insts@.last(), b0[k + 1].label@),
                forall|k: int|
                    0 <= k < j && !needs_jmp(v0[k].1) ==> #[trigger] self.bbs()[k] == b0[k],
                forall|k: int| j <= k < n ==> #[trigger] self.bbs()[k] == b0[k],
            decreases n - j,
        {
            proof {
                assert(flags@[j as int] == needs_jmp(v0[j as int].1));
                assert(flags@[(n - 1) as int] == needs_jmp(v0[n - 1].1));
            }
            let ghost pre = *self;
            if flags[j] {
                proof {
                    assert(j < n - 1);
                    assert(self.bbs()[j as int] == b0[j as int]);
                }
                let lbl: String = self.bb_at(j + 1).label.clone();
                let jmp: Inst = Inst::Jmp { label: lbl };
                if j == 0 {
                    self.entry.insts.push(jmp);
                    proof {
                        assert(self.bbs()[0] == self.entry);
                    }
                } else {
                    self.other_bbs[j - 1].insts.push(jmp);
                }
                proof {
                    assert(self.bbs()[j as int].insts@.drop_last() =~= b0[j as int].insts@);
                    assert(jmp_to(self.bbs()[j as int].insts@.last(), b0[j as int + 1].label@));
                }
            }
            proof {
                assert forall|k: int| 0 <= k < n && k != j implies #[trigger] self.bbs()[k]
                    == pre.bbs()[k] by {
                    if k == 0 {
                        assert(self.bbs()[0] == self.entry);
                        assert(pre.bbs()[0] == pre.entry);
                    } else {
                        assert(self.bbs()[k] == self.other_bbs@[k - 1]);
                        assert(pre.bbs()[k] == pre.other_bbs@[k - 1]);
                    }
                }
                assert forall|k: int| 0 <= k < n implies (#[trigger] self.bbs()[k]).label
                    == b0[k].label by {
                    if k != j {
                        assert(pre.bbs()[k].label == b0[k].label);
                    }
                }
            }
            j = j + 1;
        }
        proof {
            let w = self.view_of_bbs();
            assert forall|k: int| 0 <= k < n implies #[trigger] w[k] == bb_view(self.bbs()[k])
                by {}
            assert(desimp_rel(v0, w));
        }
        Ok(())
    }

    /// Rewrites every jump or branch whose target is `from` to target `to`
    /// instead. Block labels themselves are not touched. With `from` absent
    /// from every jump and branch, the function is left exactly as it was.
    pub fn rename_bb_label(&mut self, from: &String, to: &String)
        requires
            old(self).other_bbs@.len() < usize::MAX,
        ensures
            final(self).same_frame(old(self)),
            final(self).bbs().len() == old(self).bbs().len(),
            forall|i: int|
                0 <= i < old(self).bbs().len() ==> (#[trigger] final(self).bbs()[i]).label == old(self).bbs()[i].label,
            forall|i: int|
                0 <= i < old(self).bbs().len() ==> (#[trigger] final(self).bbs()[i]).insts@.len()
                    == old(self).bbs()[i].insts@.len(),
            forall|i: int, j: int|
                0 <= i < old(self).bbs().len() && 0 <= j < old(self).bbs()[i].insts@.len()
                    ==> rename_step(
                    old(self).bbs()[i].insts@[j],
                    #[trigger] final(self).bbs()[i].insts@[j],
                    from@,
                    to@,
                ),
            (forall|i: int, j: int|
                0 <= i < old(self).bbs().len() && 0 <= j < old(self).bbs()[i].insts@.len()
                    ==> (#[trigger] old(self).bbs()[i].insts@[j]).spec_target() != Some(from@))
                ==> *final(self) == *old(self),
    {
        let ghost b0 = self.bbs();
        let n_other: usize = self.other_bbs.len();
        let mut any: bool = false;
        let mut i: usize = 0;
        while i < 1 + n_other
            invariant
                *self == *old(self),
                n_other == self.other_bbs@.len(),
                n_other < usize::MAX,
                i <= 1 + n_other,
                any == exists|a: int, b: int|
                    0 <= a < i && 0 <= b < self.bbs()[a].insts@.len() && (#[trigger] self.bbs()[a].insts@[b]).spec_target() == Some(from@),
            decreases 1 + n_other - i,
        {
            let hit: bool = block_mentions_target(self.bb_at(i), from);
            any = any || hit;
            i = i + 1;
        }
        if !any {
            return ;
        }
        rename_in_block(&mut self.entry, from, to);
        let mut k: usize = 0;
        while k < n_other
            invariant
                n_other == self.other_bbs@.len(),
                k <= n_other,
                b0.len() == 1 + n_other,
                self.bbs().len() == b0.len(),
                self.same_frame(old(self)),
                b0 == old(self).bbs(),
                forall|a: int| 0 <= a < b0.len() ==> (#[trigger] self.bbs()[a]).label == b0[a].label,
                forall|a: int|
                    0 <= a < b0.len() ==> (#[trigger] self.bbs()[a]).insts@.len()
                        == b0[a].insts@.len(),
                forall|a: int, b: int|
                    0 <= a < 1 + k && 0 <= b < b0[a].insts@.len() ==> rename_step(
                        b0[a].insts@[b],
                        #[trigger] self.bbs()[a].insts@[b],
                        from@,
                        to@,
                    ),
                forall|a: int| 1 + k <= a < b0.len() ==> #[trigger] self.bbs()[a] == b0[a],
            decreases n_other - k,
        {
            let ghost pre = *self;
            rename_in_block(&mut self.other_bbs[k], from, to);
            proof {
                assert(self.bbs()[k + 1] == self.other_bbs@[k as int]);
                assert(pre.bbs()[k + 1] == pre.other_bbs@[k as int]);
                assert forall|a: int| 0 <= a < b0.len() && a != k + 1 implies #[trigger] self.bbs()[
                    a
                ] == pre.bbs()[a] by {
                    if a == 0 {
                        assert(self.bbs()[0] == self.entry);
                        assert(pre.bbs()[0] == pre.entry);
                    } else {
                        assert(self.bbs()[a] == self.other_bbs@[a - 1]);
                        assert(pre.bbs()[a] == pre.other_bbs@[a - 1]);
                    }
                }
            }
            k = k + 1;
        }
    }
}

} // verus!


verus! {

/// Instructions `a` and `b` read the same: equal, or both unconditional
/// jumps to the same label.
pub open spec fn inst_like(a: Inst, b: Inst) -> bool {
    a == b || (a matches Inst::Jmp { label: la } && (b matches Inst::Jmp { label: lb }
        && la@ == lb@))
}

proof fn lemma_counts_zero(s: Seq<Inst>)
    requires
        no_terms(s),
    ensures
        num_terms(s) == 0,
        num_branches(s) == 0,
    decreases s.len(),
{
    if s.len() > 0 {
        assert(!s.last().spec_is_term());
        assert(!s.last().spec_is_branch());
        assert(no_terms(s.drop_last()));
        lemma_counts_zero(s.drop_last());
    }
}

proof fn lemma_counts_branch_only(s: Seq<Inst>)
    requires
        branch_only(s),
    ensures
        num_terms(s) == 1,
        num_branches(s) == 1,
        needs_jmp(s),
{
    lemma_counts_zero(s.drop_last());
    assert(s.last().spec_is_term());
}

proof fn lemma_counts_tight(s: Seq<Inst>)
    requires
        tight(s),
    ensures
        !needs_jmp(s),
{
    if s.len() >= 1 && (s.last() is Jmp || s.last() is Ret) && (forall|i: int|
        0 <= i < s.len() - 1 ==> !s[i].spec_is_term()) {
        assert(no_terms(s.drop_last()));
        lemma_counts_zero(s.drop_last());
        assert(num_terms(s) == 1);
        assert(num_branches(s) == num_branches(s.drop_last()));
        assert(num_branches(s) == 0);
    } else {
        let d = s.drop_last();
        assert(s.len() >= 2);
        assert(d.last() == s[s.len() - 2]);
        assert(no_terms(d.drop_last()));
        lemma_counts_zero(d.drop_last());
        assert(num_terms(d) == 1);
        assert(num_terms(s) == 2);
    }
}

/// Terminator simplification is idempotent: a second round changes nothing.
/// The one shape this cannot hold of is a block that ends in two identical
/// jumps to the next block, where each round removes one; such a block is
/// ruled out by the premise.
pub proof fn lemma_simplify_idempotent(v: Seq<(Seq<char>, Seq<Inst>)>)
    requires
        forall|i: int|
            simp_at(v, i) ==> !ends_with_jmp_to((#[trigger] v[i]).1.drop_last(), v[i + 1].0),
    ensures
        simplify_view(simplify_view(v)) == simplify_view(v),
{
    let w = simplify_view(v);
    assert forall|i: int| !simp_at(w, i) by {
        if 0 <= i && i + 1 < w.len() {
            assert(w[i].1 == if simp_at(v, i) {
                v[i].1.drop_last()
            } else {
                v[i].1
            });
            assert(w[i + 1].0 == v[i + 1].0);
        }
    }
    assert forall|i: int| 0 <= i < w.len() implies simplify_view(w)[i] == w[i] by {
        assert(!simp_at(w, i));
    }
    assert(simplify_view(w) =~= w);
}

/// Round trip: desimplification restores exactly what simplification
/// removed. For a function whose blocks are all tight, running
/// `simplify_term` and then `desimplify_term` gives the blocks back,
/// with every dropped fall-through re-emerging as an explicit jump to the
/// same label.
pub proof fn lemma_simplify_desimplify_round_trip(
    v1: Seq<(Seq<char>, Seq<Inst>)>,
    v3: Seq<(Seq<char>, Seq<Inst>)>,
)
    requires
        forall|i: int| 0 <= i < v1.len() ==> tight((#[trigger] v1[i]).1),
        desimp_rel(simplify_view(v1), v3),
    ensures
        v3.len() == v1.len(),
        forall|i: int| 0 <= i < v1.len() ==> (#[trigger] v3[i]).0 == v1[i].0,
        forall|i: int|
            0 <= i < v1.len() ==> (#[trigger] v3[i]).1.len() == v1[i].1.len(),
        forall|i: int, j: int|
            0 <= i < v1.len() && 0 <= j < v1[i].1.len() ==> inst_like(
                #[trigger] v3[i].1[j],
                v1[i].1[j],
            ),
{
    let v2 = simplify_view(v1);
    assert forall|i: int| 0 <= i < v1.len() implies (#[trigger] v3[i]).0 == v1[i].0 && v3[i].1.len()
        == v1[i].1.len() && (forall|j: int| 0 <= j < v1[i].1.len() ==> inst_like(
        #[trigger] v3[i].1[j],
        v1[i].1[j],
    )) by {
        assert(v2[i].0 == v1[i].0);
        assert(v3[i].0 == v2[i].0);
        if simp_at(v1, i) {
            let d = v1[i].1.drop_last();
            assert(v2[i].1 == d);
            assert(v1[i].1.last() is Jmp);
            // The dropped instruction was the block's only trailing jump, so
            // what remains either has no terminator or ends in its branch.
            if v1[i].1.len() >= 2 && v1[i].1[v1[i].1.len() - 2].spec_is_branch() && (
            v1[i].1.last() is Jmp) && (forall|k: int|
                0 <= k < v1[i].1.len() - 2 ==> !v1[i].1[k].spec_is_term()) {
                assert(d.last() == v1[i].1[v1[i].1.len() - 2]);
                assert(no_terms(d.drop_last()));
                lemma_counts_branch_only(d);
            } else {
                assert(v1[i].1.last() is Jmp || v1[i].1.last() is Ret);
                assert(forall|k: int| 0 <= k < v1[i].1.len() - 1 ==> !v1[i].1[k].spec_is_term());
                assert(no_terms(d));
                lemma_counts_zero(d);
            }
            assert(needs_jmp(v2[i].1));
            assert(v3[i].1.len() == d.len() + 1);
            assert(v3[i].1.drop_last() == d);
            assert(jmp_to(v3[i].1.last(), v2[i + 1].0));
            assert(v2[i + 1].0 == v1[i + 1].0);
            assert forall|j: int| 0 <= j < v1[i].1.len() implies inst_like(
                #[trigger] v3[i].1[j],
                v1[i].1[j],
            ) by {
                if j < v1[i].1.len() - 1 {
                    assert(v3[i].1[j] == v3[i].1.drop_last()[j]);
                    assert(d[j] == v1[i].1[j]);
                } else {
                    assert(v3[i].1[j] == v3[i].1.last());
                    assert(v1[i].1[j] == v1[i].1.last());
                    assert(ends_with_jmp_to(v1[i].1, v1[i + 1].0));
                }
            }
        } else {
            assert(v2[i].1 == v1[i].1);
            lemma_counts_tight(v1[i].1);
            assert(!needs_jmp(v2[i].1));
            assert(v3[i].1 == v1[i].1);
        }
    }
}

/// After desimplification every block is tight, provided each block came in
/// with its terminators only at the end: no terminator at all, a trailing
/// conditional branch only, or already tight.
pub proof fn lemma_desimplify_tight(
    pre: Seq<(Seq<char>, Seq<Inst>)>,
    post: Seq<(Seq<char>, Seq<Inst>)>,
)
    requires
        desimp_rel(pre, post),
        forall|i: int|
            0 <= i < pre.len() ==> no_terms((#[trigger] pre[i]).1) || branch_only(pre[i].1)
                || tight(pre[i].1),
    ensures
        forall|i: int| 0 <= i < post.len() ==> tight((#[trigger] post[i]).1),
{
    assert forall|i: int| 0 <= i < post.len() implies tight((#[trigger] post[i]).1) by {
        if no_terms(pre[i].1) {
            lemma_counts_zero(pre[i].1);
            assert(needs_jmp(pre[i].1));
            assert(post[i].1.drop_last() == pre[i].1);
            assert(post[i].1.last() is Jmp);
            assert(forall|k: int|
                0 <= k < post[i].1.len() - 1 ==> post[i].1[k] == pre[i].1[k]
                    && !pre[i].1[k].spec_is_term());
            assert(tight(post[i].1));
        } else if branch_only(pre[i].1) && !tight(pre[i].1) {
            lemma_counts_branch_only(pre[i].1);
            assert(post[i].1.drop_last() == pre[i].1);
            assert(post[i].1.last() is Jmp);
            let m = post[i].1.len();
            assert(post[i].1[m - 2] == pre[i].1[pre[i].1.len() - 1]);
            assert(post[i].1[m - 2].spec_is_branch());
            assert(forall|k: int|
                0 <= k < m - 2 ==> post[i].1[k] == pre[i].1.drop_last()[k]);
            assert(forall|k: int| 0 <= k < m - 2 ==> !post[i].1[k].spec_is_term());
            assert(tight(post[i].1));
        } else {
            assert(tight(pre[i].1));
            lemma_counts_tight(pre[i].1);
            assert(post[i].1 == pre[i].1);
        }
    }
}

} // verus!

verus! {

/// Whether `l` is the label of some block of `s`.
pub open spec fn has_label(s: Seq<Block>, l: Seq<char>) -> bool {
    exists|i: int| 0 <= i < s.len() && s[i].label@ == l
}

/// Holds when `i` is the first index of `s` whose block is labelled `l`.
pub open spec fn is_first_label(s: Seq<Block>, l: Seq<char>, i: int) -> bool {
    0 <= i < s.len() && s[i].label@ == l && forall|k: int| 0 <= k < i ==> s[k].label@ != l
}

/// Total instruction count of a distance table.
pub open spec fn sum_counts(s: Seq<(String, usize)>) -> nat
    decreases s.len(),
{
    if s.len() == 0 {
        0
    } else {
        (sum_counts(s.drop_last()) + s.last().1) as nat
    }
}

/// Holds when `i` is the first index of the table carrying label `l`.
pub open spec fn is_first_entry(s: Seq<(String, usize)>, l: Seq<char>, i: int) -> bool {
    0 <= i < s.len() && s[i].0@ == l && forall|k: int| 0 <= k < i ==> s[k].0@ != l
}

proof fn lemma_sum_counts_concat(a: Seq<(String, usize)>, b: Seq<(String, usize)>)
    ensures
        sum_counts(a + b) == sum_counts(a) + sum_counts(b),
    decreases b.len(),
{
    if b.len() == 0 {
        assert(a + b =~= a);
    } else {
        assert((a + b).drop_last() =~= a + b.drop_last());
        assert((a + b).last() == b.last());
        lemma_sum_counts_concat(a, b.drop_last());
    }
}

proof fn lemma_sum_counts_subrange(s: Seq<(String, usize)>, a: int, b: int)
    requires
        0 <= a <= b <= s.len(),
    ensures
        sum_counts(s.subrange(a, b)) <= sum_counts(s),
{
    assert(s =~= s.subrange(0, a) + s.subrange(a, b) + s.subrange(b, s.len() as int));
    lemma_sum_counts_concat(s.subrange(0, a) + s.subrange(a, b), s.subrange(b, s.len() as int));
    lemma_sum_counts_concat(s.subrange(0, a), s.subrange(a, b));
}

/// A per-block instruction-count table, used for estimating branch spans.
pub struct BBDistanceCounter {
    pub num_insts: Vec<(String, usize)>,
}

impl BBDistanceCounter {
    /// Number of instructions strictly between two labelled blocks: for
    /// `from` before `to`, the instructions of the blocks after `from` and
    /// before `to`; otherwise the instructions of the blocks from `to`
    /// through `from`. `None` when either label is missing.
    pub fn distance_between(&self, from: &String, to: &String) -> (r: Option<usize>)
        requires
            sum_counts(self.num_insts@) <= usize::MAX,
        ensures
            r is None <==> !(exists|i: int|
                0 <= i < self.num_insts@.len() && (#[trigger] self.num_insts@[i]).0@ == from@)
                || !(exists|i: int|
                0 <= i < self.num_insts@.len() && (#[trigger] self.num_insts@[i]).0@ == to@),
            forall|fi: int, ti: int|
                is_first_entry(self.num_insts@, from@, fi) && is_first_entry(
                    self.num_insts@,
                    to@,
                    ti,
                ) ==> r == Some(
                    (if fi < ti {
                        sum_counts(self.num_insts@.subrange(fi + 1, ti))
                    } else {
                        sum_counts(self.num_insts@.subrange(ti, fi + 1))
                    }) as usize,
                ),
    {
        let s: &Vec<(String, usize)> = &self.num_insts;
        let n: usize = s.len();
        let mut fi: usize = 0;
        let mut f_found: bool = false;
        let mut scan: usize = 0;
        while scan < n && !f_found
            invariant
                n == s@.len(),
                scan <= n,
                f_found ==> is_first_entry(s@, from@, fi as int) && fi < n,
                !f_found ==> forall|k: int| 0 <= k < scan ==> s@[k].0@ != from@,
            decreases n - scan,
        {
            if s[scan].0 == *from {
                f_found = true;
                fi = scan;
            }
            scan = scan + 1;
        }
        let mut ti: usize = 0;
        let mut t_found: bool = false;
        scan = 0;
        while scan < n && !t_found
            invariant
                n == s@.len(),
                scan <= n,
                t_found ==> is_first_entry(s@, to@, ti as int) && ti < n,
                !t_found ==> forall|k: int| 0 <= k < scan ==> s@[k].0@ != to@,
            decreases n - scan,
        {
            if s[scan].0 == *to {
                t_found = true;
                ti = scan;
            }
            scan = scan + 1;
        }
        if !f_found || !t_found {
            return None;
        }
        let (a, b): (usize, usize) = if fi < ti {
            (fi + 1, ti)
        } else {
            (ti, fi + 1)
        };
        let mut acc: usize = 0;
        let mut k: usize = a;
        proof {
            assert(s@.subrange(a as int, a as int) =~= Seq::<(String, usize)>::empty());
        }
        while k < b
            invariant
                n == s@.len(),
                a <= k <= b <= n,
                sum_counts(s@) <= usize::MAX,
                acc == sum_counts(s@.subrange(a as int, k as int)),
            decreases b - k,
        {
            proof {
                assert(s@.subrange(a as int, (k + 1) as int).drop_last() =~= s@.subrange(
                    a as int,
                    k as int,
                ));
                assert(s@.subrange(a as int, (k + 1) as int).last() == s@[k as int]);
                lemma_sum_counts_subrange(s@, a as int, (k + 1) as int);
            }
            acc = acc + s[k].1;
            k = k + 1;
        }
        Some(acc)
    }
}

impl Func {
    /// The per-block instruction counts, in block iteration order.
    pub fn bb_distances(&self) -> (r: BBDistanceCounter)
        requires
            self.other_bbs@.len() < usize::MAX,
        ensures
            r.num_insts@.len() == self.bbs().len(),
            forall|i: int|
                0 <= i < self.bbs().len() ==> (#[trigger] r.num_insts@[i]).0 == self.bbs()[i].label
                    && r.num_insts@[i].1 == self.bbs()[i].insts@.len(),
    {
        let mut v: Vec<(String, usize)> = Vec::new();
        let n: usize = 1 + self.other_bbs.len();
        let mut i: usize = 0;
        while i < n
            invariant
                n == 1 + self.other_bbs@.len(),
                i <= n,
                v@.len() == i,
                forall|k: int|
                    0 <= k < i ==> (#[trigger] v@[k]).0 == self.bbs()[k].label && v@[k].1
                        == self.bbs()[k].insts@.len(),
            decreases n - i,
        {
            let bb: &Block = self.bb_at(i);
            v.push((bb.label.clone(), bb.insts.len()));
            i = i + 1;
        }
        BBDistanceCounter { num_insts: v }
    }

    /// Inserts the given blocks right after the block labelled `bb` (after
    /// the entry they stand first among the other blocks). Fails, changing
    /// nothing, when no block carries that label.
    pub fn add_after(&mut self, bb: &String, add: Vec<Block>) -> (r: Result<(), CompileError>)
        requires
            old(self).other_bbs@.len() + add@.len() <= usize::MAX,
        ensures
            final(self).same_frame(old(self)),
            final(self).entry == old(self).entry,
            r is Err <==> !has_label(old(self).bbs(), bb@),
            r is Err ==> *final(self) == *old(self) && r == Err::<(), CompileError>(
                CompileError::LookupMiss,
            ),
            old(self).entry.label@ == bb@ ==> final(self).other_bbs@ == add@ + old(self).other_bbs@,
            forall|i: int|
                old(self).entry.label@ != bb@ && is_first_label(old(self).other_bbs@, bb@, i)
                    ==> final(self).other_bbs@ == old(self).other_bbs@.subrange(0, i + 1) + add@
                    + old(self).other_bbs@.subrange(i + 1, old(self).other_bbs@.len() as int),
    {
        let pos: usize;
        if self.entry.label == *bb {
            pos = 0;
            proof {
                assert(self.bbs()[0].label@ == bb@);
            }
        } else {
            let n: usize = self.other_bbs.len();
            let mut i: usize = 0;
            let mut found: bool = false;
            let mut scan: usize = 0;
            while scan < n && !found
                invariant
                    n == self.other_bbs@.len(),
                    scan <= n,
                    found ==> is_first_label(self.other_bbs@, bb@, i as int) && i < n,
                    !found ==> forall|k: int| 0 <= k < scan ==> self.other_bbs@[k].label@ != bb@,
                decreases n - scan,
            {
                if self.other_bbs[scan].label == *bb {
                    found = true;
                    i = scan;
                }
                scan = scan + 1;
            }
            if !found {
                proof {
                    assert forall|k: int| 0 <= k < self.bbs().len() implies self.bbs()[k].label@
                        != bb@ by {
                        if k > 0 {
                            assert(self.bbs()[k] == self.other_bbs@[k - 1]);
                        }
                    }
                }
                return Err(CompileError::LookupMiss);
            }
            pos = i + 1;
            proof {
                assert(self.bbs()[pos as int].label@ == bb@);
            }
        }
        let ghost o0 = self.other_bbs@;
        let ghost a0 = add@;
        let mut add: Vec<Block> = add;
        let m: usize = add.len();
        let mut k: usize = 0;
        while k < m
            invariant
                m == a0.len(),
                k <= m,
                add@ == a0.subrange(k as int, m as int),
                o0.len() + m <= usize::MAX,
                self.other_bbs@.len() == o0.len() + k,
                pos <= o0.len(),
                self.same_frame(old(self)),
                self.entry == old(self).entry,
                self.other_bbs@ == o0.subrange(0, pos as int) + a0.subrange(0, k as int)
                    + o0.subrange(pos as int, o0.len() as int),
            decreases m - k,
        {
            let b: Block = add.remove(0);
            proof {
                assert(b == a0[k as int]);
                assert(add@ =~= a0.subrange((k + 1) as int, m as int));
            }
            self.other_bbs.insert(pos + k, b);
            proof {
                assert(self.other_bbs@ =~= o0.subrange(0, pos as int) + a0.subrange(
                    0,
                    (k + 1) as int,
                ) + o0.subrange(pos as int, o0.len() as int));
            }
            k = k + 1;
        }
        proof {
            assert(a0.subrange(0, m as int) =~= a0);
            if pos == 0 {
                assert(o0.subrange(0, 0) =~= Seq::<Block>::empty());
                assert(o0.subrange(0, o0.len() as int) =~= o0);
                assert(self.other_bbs@ =~= a0 + o0);
            }
        }
        Ok(())
    }
}

} // verus!

verus! {

/// Holds when `i` is the first index of `s`, skipping index `skip`, whose
/// block is labelled `l`.
pub open spec fn is_first_label_skip(s: Seq<Block>, l: Seq<char>, i: int, skip: int) -> bool {
    0 <= i < s.len() && i != skip && s[i].label@ == l && forall|k: int|
        0 <= k < i && k != skip ==> s[k].label@ != l
}

/// The instructions of a block after another block is merged into it: its
/// own, with a trailing jump dropped, then the other's.
pub open spec fn merged_insts(a: Seq<Inst>, b: Seq<Inst>) -> Seq<Inst> {
    if a.len() > 0 && a.last() is Jmp {
        a.drop_last() + b
    } else {
        a + b
    }
}

impl Func {
    /// Merges the block labelled `to` into the block labelled `from`: the
    /// `to` block is removed from the other blocks and its instructions are
    /// appended to the `from` block (whose trailing jump, if any, is
    /// dropped). The `from` block is searched entry first, skipping the
    /// removed block. Fails, changing nothing, when either label is missing.
    pub fn merge_bb(&mut self, from: &String, to: &String) -> (r: Result<(), CompileError>)
        requires
            old(self).other_bbs@.len() < usize::MAX,
        ensures
            final(self).same_frame(old(self)),
            r is Err ==> *final(self) == *old(self) && r == Err::<(), CompileError>(
                CompileError::LookupMiss,
            ),
            r is Err <==> !has_label(old(self).other_bbs@, to@) || !(old(self).entry.label@
                == from@ || exists|fk: int, ti: int|
                is_first_label(old(self).other_bbs@, to@, ti) && is_first_label_skip(
                    old(self).other_bbs@,
                    from@,
                    fk,
                    ti,
                )),
            forall|ti: int|
                r is Ok && is_first_label(old(self).other_bbs@, to@, ti) && old(self).entry.label@ == from@ ==> final(self).other_bbs@ == old(self).other_bbs@.remove(
                    ti,
                ) && final(self).entry.label == old(self).entry.label && final(self).entry.insts@ == merged_insts(
                    old(self).entry.insts@,
                    old(self).other_bbs@[ti].insts@,
                ),
            forall|ti: int, fk: int|
                r is Ok && is_first_label(old(self).other_bbs@, to@, ti) && old(self).entry.label@ != from@ && is_first_label_skip(old(self).other_bbs@, from@, fk, ti)
                    ==> final(self).entry == old(self).entry && final(self).other_bbs@.len() == old(self).other_bbs@.len() - 1 && {
                    let rem = old(self).other_bbs@.remove(ti);
                    let fk2 = if fk < ti {
                        fk
                    } else {
                        fk - 1
                    };
                    &&& forall|k: int|
                        0 <= k < rem.len() && k != fk2 ==> final(self).other_bbs@[k] == rem[k]
                    &&& final(self).other_bbs@[fk2].label == rem[fk2].label
                    &&& final(self).other_bbs@[fk2].insts@ == merged_insts(
                        rem[fk2].insts@,
                        old(self).other_bbs@[ti].insts@,
                    )
                },
    {
        let n: usize = self.other_bbs.len();
        let mut ti: usize = 0;
        let mut t_found: bool = false;
        let mut scan: usize = 0;
        while scan < n && !t_found
            invariant
                n == self.other_bbs@.len(),
                scan <= n,
                t_found ==> is_first_label(self.other_bbs@, to@, ti as int) && ti < n,
                !t_found ==> forall|k: int| 0 <= k < scan ==> self.other_bbs@[k].label@ != to@,
            decreases n - scan,
        {
            if self.other_bbs[scan].label == *to {
                t_found = true;
                ti = scan;
            }
            scan = scan + 1;
        }
        if !t_found {
            return Err(CompileError::LookupMiss);
        }
        let from_entry: bool = self.entry.label == *from;
        let mut fk: usize = 0;
        let mut f_found: bool = false;
        if !from_entry {
            scan = 0;
            while scan < n && !f_found
                invariant
                    n == self.other_bbs@.len(),
                    scan <= n,
                    ti < n,
                    f_found ==> is_first_label_skip(
                        self.other_bbs@,
                        from@,
                        fk as int,
                        ti as int,
                    ) && fk < n,
                    !f_found ==> forall|k: int|
                        0 <= k < scan && k != ti ==> self.other_bbs@[k].label@ != from@,
                decreases n - scan,
            {
                if scan != ti && self.other_bbs[scan].label == *from {
                    f_found = true;
                    fk = scan;
                }
                scan = scan + 1;
            }
            if !f_found {
                return Err(CompileError::LookupMiss);
            }
        }
        let removed: Block = self.other_bbs.remove(ti);
        if from_entry {
            self.entry.merge(removed);
        } else {
            let fk2: usize = if fk < ti {
                fk
            } else {
                fk - 1
            };
            proof {
                let rem = old(self).other_bbs@.remove(ti as int);
                assert(self.other_bbs@[fk2 as int] == rem[fk2 as int]);
            }
            self.other_bbs[fk2].merge(removed);
        }
        Ok(())
    }

    /// Repeatedly removes an empty non-entry block by renaming every
    /// reference to it to its successor's label, until no empty block with a
    /// successor is left. Returns whether any block was removed.
    pub fn elim_empty_bb(&mut self) -> (changed: bool)
        requires
            old(self).other_bbs@.len() < usize::MAX,
        ensures
            final(self).same_frame(old(self)),
            final(self).entry.label == old(self).entry.label,
            final(self).other_bbs@.len() <= old(self).other_bbs@.len(),
            changed == (final(self).other_bbs@.len() < old(self).other_bbs@.len()),
            forall|i: int|
                0 <= i < final(self).other_bbs@.len() - 1 ==> (#[trigger] final(self).other_bbs@[i]).insts@.len() > 0,
    {
        let ghost n0 = self.other_bbs@.len();
        let mut changed: bool = false;
        loop
            invariant
                self.same_frame(old(self)),
                self.entry.label == old(self).entry.label,
                self.other_bbs@.len() <= n0,
                n0 == old(self).other_bbs@.len(),
                n0 < usize::MAX,
                changed == (self.other_bbs@.len() < n0),
            ensures
                self.same_frame(old(self)),
                self.entry.label == old(self).entry.label,
                self.other_bbs@.len() <= n0,
                changed == (self.other_bbs@.len() < n0),
                forall|i: int|
                    0 <= i < self.other_bbs@.len() - 1 ==> (#[trigger] self.other_bbs@[
                        i
                    ]).insts@.len() > 0,
            decreases self.other_bbs@.len(),
        {
            let n: usize = self.other_bbs.len();
            let mut idx: usize = 0;
            let mut found: bool = false;
            let mut scan: usize = 0;
            while scan < n && !found
                invariant
                    n == self.other_bbs@.len(),
                    scan <= n,
                    found ==> idx < n && self.other_bbs@[idx as int].insts@.len() == 0 && forall|
                        k: int,
                    |
                        0 <= k < idx ==> (#[trigger] self.other_bbs@[k]).insts@.len() > 0,
                    !found ==> forall|k: int|
                        0 <= k < scan ==> (#[trigger] self.other_bbs@[k]).insts@.len() > 0,
                decreases n - scan,
            {
                if self.other_bbs[scan].insts.len() == 0 {
                    found = true;
                    idx = scan;
                }
                scan = scan + 1;
            }
            if !found {
                break ;
            }
            if idx + 1 >= n {
                proof {
                    assert(forall|k: int|
                        0 <= k < n - 1 ==> (#[trigger] self.other_bbs@[k]).insts@.len() > 0);
                }
                break ;
            }
            let from: String = self.other_bbs[idx].label.clone();
            let to: String = self.other_bbs[idx + 1].label.clone();
            let _ = self.other_bbs.remove(idx);
            let ghost pre = *self;
            self.rename_bb_label(&from, &to);
            proof {
                assert(pre.bbs()[0] == pre.entry);
                assert(self.bbs()[0] == self.entry);
                assert(self.bbs()[0].label == pre.bbs()[0].label);
            }
            changed = true;
        }
        changed
    }
}

} // verus!
