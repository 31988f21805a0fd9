//! Whole-program finalization over the built functions: caller-save
//! propagation, stack-slot reallocation, and basic-block label
//! uniquification.

use vstd::prelude::*;
use vstd::string::StringExecFns;

use crate::backend::block::Block;
use crate::backend::builder::IRBuilder;
use crate::backend::func::Func;
use crate::backend::inst::Inst;
use crate::backend::maps::{NameU32Map, SlotCountMap, SlotSlotMap};
use crate::backend::stack::{StackAllocator, StackSlot};
use crate::error::CompileError;

verus! {

/// Whether some call in `f` names callee `m`.
pub open spec fn has_call_to(f: Func, m: Seq<char>) -> bool {
    exists|b: int, j: int|
        0 <= b < f.bbs().len() && 0 <= j < f.bbs()[b].insts@.len() && (#[trigger] f.bbs()[
            b
        ].insts@[j] matches Inst::Call { name, .. } && name@ == m)
}

impl IRBuilder {
    /// For each function, the largest `caller_regs_stack` over all callees
    /// it calls (unknown callees contribute nothing): every call's callee
    /// need is bounded by the calling function's entry in the result.
    pub fn prepare_max_callee_regs_stack(
        funcs: &Vec<Func>,
        caller_regs_stacks: &NameU32Map,
    ) -> (r: NameU32Map)
        requires
            forall|i: int| 0 <= i < funcs@.len() ==> (#[trigger] funcs@[i]).other_bbs@.len() < usize::MAX,
        ensures
            forall|i: int|
                0 <= i < funcs@.len() ==> r.view_map().contains_key(
                    (#[trigger] funcs@[i]).name@,
                ),
            (forall|i1: int, i2: int|
                0 <= i1 < i2 < funcs@.len() ==> (#[trigger] funcs@[i1].name@) != #[trigger] funcs@[i2].name@) ==> ((forall|i: int, m: Seq<char>|
                0 <= i < funcs@.len() && #[trigger] has_call_to(funcs@[i], m)
                    && caller_regs_stacks.view_map().contains_key(m)
                    ==> caller_regs_stacks.view_map()[m] <= r.view_map()[funcs@[i].name@]) && (
            forall|i: int|
                0 <= i < funcs@.len() ==> r.view_map()[(#[trigger] funcs@[i]).name@] == 0 || (
                exists|m: Seq<char>|
                    #[trigger] has_call_to(funcs@[i], m)
                        && caller_regs_stacks.view_map().contains_key(m)
                        && caller_regs_stacks.view_map()[m] == r.view_map()[funcs@[i].name@]))),
    {
        let mut result: NameU32Map = NameU32Map::new();
        let mut i: usize = 0;
        while i < funcs.len()
            invariant
                i <= funcs@.len(),
                forall|k: int| 0 <= k < funcs@.len() ==> (#[trigger] funcs@[k]).other_bbs@.len() < usize::MAX,
                forall|k: int|
                    0 <= k < i ==> result.view_map().contains_key((#[trigger] funcs@[k]).name@),
                forall|k: int, m: Seq<char>|
                    0 <= k < i && #[trigger] has_call_to(funcs@[k], m)
                        && caller_regs_stacks.view_map().contains_key(m) && (forall|k2: int|
                        k < k2 < i ==> (#[trigger] funcs@[k2]).name@ != funcs@[k].name@)
                        ==> caller_regs_stacks.view_map()[m] <= result.view_map()[funcs@[k].name@],
                forall|k: int|
                    0 <= k < i && (forall|k2: int|
                        k < k2 < i ==> (#[trigger] funcs@[k2]).name@ != funcs@[k].name@)
                        ==> result.view_map()[(#[trigger] funcs@[k]).name@] == 0 || (exists|
                        m: Seq<char>,
                    |
                        #[trigger] has_call_to(funcs@[k], m)
                            && caller_regs_stacks.view_map().contains_key(m)
                            && caller_regs_stacks.view_map()[m] == result.view_map()[funcs@[
                            k
                        ].name@]),
            decreases funcs@.len() - i,
        {
            let f: &Func = &funcs[i];
            let mut max_need: u32 = 0;
            let n_bbs: usize = f.n_bbs();
            let mut b: usize = 0;
            while b < n_bbs
                invariant
                    n_bbs == f.bbs().len(),
                    f == &funcs@[i as int],
                    i < funcs@.len(),
                    f.other_bbs@.len() < usize::MAX,
                    b <= n_bbs,
                    forall|b2: int, j: int, m: Seq<char>|
                        0 <= b2 < b && 0 <= j < f.bbs()[b2].insts@.len() && (#[trigger] f.bbs()[
                            b2
                        ].insts@[j] matches Inst::Call { name, .. } && name@ == m) && #[trigger] caller_regs_stacks.view_map().contains_key(m)
                            ==> caller_regs_stacks.view_map()[m] <= max_need,
                    max_need == 0 || (exists|m: Seq<char>|
                        #[trigger] has_call_to(funcs@[i as int], m)
                            && caller_regs_stacks.view_map().contains_key(m)
                            && caller_regs_stacks.view_map()[m] == max_need),
                decreases n_bbs - b,
            {
                let bb: &Block = f.bb_at(b);
                let mut j: usize = 0;
                while j < bb.insts.len()
                    invariant
                        bb == &f.bbs()[b as int],
                        b < f.bbs().len(),
                        f == &funcs@[i as int],
                        i < funcs@.len(),
                        j <= bb.insts@.len(),
                        forall|b2: int, j2: int, m: Seq<char>|
                            0 <= b2 < b && 0 <= j2 < f.bbs()[b2].insts@.len() && (#[trigger] f.bbs()[
                                b2
                            ].insts@[j2] matches Inst::Call { name, .. } && name@ == m)
                                && #[trigger] caller_regs_stacks.view_map().contains_key(m)
                                ==> caller_regs_stacks.view_map()[m] <= max_need,
                        forall|j2: int, m: Seq<char>|
                            0 <= j2 < j && (#[trigger] f.bbs()[b as int].insts@[j2] matches
                                Inst::Call { name, .. } && name@ == m)
                                && #[trigger] caller_regs_stacks.view_map().contains_key(m)
                                ==> caller_regs_stacks.view_map()[m] <= max_need,
                        max_need == 0 || (exists|m: Seq<char>|
                            #[trigger] has_call_to(funcs@[i as int], m)
                                && caller_regs_stacks.view_map().contains_key(m)
                                && caller_regs_stacks.view_map()[m] == max_need),
                    decreases bb.insts@.len() - j,
                {
                    if let Inst::Call { name, .. } = &bb.insts[j] {
                        match caller_regs_stacks.get(name) {
                            Some(need) => {
                                if need > max_need {
                                    max_need = need;
                                    proof {
                                        assert(f.bbs()[b as int].insts@[j as int] matches
                                            Inst::Call { name: n2, .. } && n2@ == name@);
                                        assert(has_call_to(funcs@[i as int], name@));
                                    }
                                }
                            },
                            None => {},
                        }
                    }
                    j = j + 1;
                }
                b = b + 1;
            }
            proof {
                assert forall|m: Seq<char>|
                    has_call_to(funcs@[i as int], m) && caller_regs_stacks.view_map().contains_key(
                        m,
                    ) implies caller_regs_stacks.view_map()[m] <= max_need by {
                    let (b2, j2): (int, int) = choose|b2: int, j2: int|
                        0 <= b2 < f.bbs().len() && 0 <= j2 < f.bbs()[b2].insts@.len() && (
                        #[trigger] f.bbs()[b2].insts@[j2] matches Inst::Call { name, .. } && name@
                            == m);
                }
            }
            result.insert(f.name.clone(), max_need);
            i = i + 1;
        }
        result
    }
}

} // verus!

verus! {

/// How one instruction changes under slot reallocation: a stack-touching
/// instruction keeps its variant, register and slot size and gets a new
/// slot offset; everything else is untouched.
pub open spec fn slot_swapped(a: Inst, b: Inst) -> bool {
    match a {
        Inst::LocalAddr { dst, slot } => b matches Inst::LocalAddr { dst: d2, slot: s2 } && d2
            == dst && s2.size == slot.size,
        Inst::Load { dst, slot } => b matches Inst::Load { dst: d2, slot: s2 } && d2 == dst
            && s2.size == slot.size,
        Inst::Store { src, slot } => b matches Inst::Store { src: s0, slot: s2 } && s0 == src
            && s2.size == slot.size,
        _ => b == a,
    }
}

/// The bytes reserved at the bottom of a function's rebuilt frame for its
/// outgoing-argument area: its entry in the per-name map, or none.
pub open spec fn reserved_bytes(m: Map<Seq<char>, u32>, name: Seq<char>) -> u64 {
    if m.contains_key(name) {
        m[name] as u64
    } else {
        0u64
    }
}

/// Every stack-touching instruction of `f` references a slot its allocator
/// has handed out.
pub open spec fn slots_owned(f: Func) -> bool {
    f.stack_allocator matches Some(a) && forall|b: int, j: int|
        0 <= b < f.bbs().len() && 0 <= j < f.bbs()[b].insts@.len() ==> ((#[trigger] f.bbs()[
            b
        ].insts@[j]).spec_stack_slot() matches Some(ss) ==> a.owns(ss))
}

impl IRBuilder {
    /// Rebuilds each function's frame: the outgoing-argument area is
    /// reserved at offset zero first, then each live slot is reassigned, the
    /// most-touched slots placed first among the survivors, and every
    /// stack-touching instruction is rewritten to its new slot. After a
    /// successful pass every referenced slot exists in the new allocator.
    pub fn realloc_stack_slots(
        funcs: &mut Vec<Func>,
        max_callee_regs_stacks: &NameU32Map,
    ) -> (r: Result<(), CompileError>)
        requires
            forall|i: int|
                0 <= i < old(funcs)@.len() ==> (#[trigger] old(funcs)@[i]).other_bbs@.len()
                    < usize::MAX,
        ensures
            final(funcs)@.len() == old(funcs)@.len(),
            forall|i: int|
                0 <= i < old(funcs)@.len() ==> (#[trigger] final(funcs)@[
                    i
                ]).same_frame_but_allocator(&old(funcs)@[i]) && final(funcs)@[i].bbs().len()
                    == old(funcs)@[i].bbs().len(),
            forall|i: int, b: int|
                0 <= i < old(funcs)@.len() && 0 <= b < old(funcs)@[i].bbs().len() ==> (
                #[trigger] final(funcs)@[i].bbs()[b]).label == old(funcs)@[i].bbs()[b].label
                    && final(funcs)@[i].bbs()[b].insts@.len() == old(funcs)@[i].bbs()[
                    b
                ].insts@.len(),
            r is Ok ==> forall|i: int|
                0 <= i < final(funcs)@.len() ==> slots_owned(#[trigger] final(funcs)@[i]),
            r is Ok ==> forall|i: int, b: int, j: int|
                0 <= i < old(funcs)@.len() && 0 <= b < old(funcs)@[i].bbs().len() && 0 <= j < old(
                    funcs,
                )@[i].bbs()[b].insts@.len() ==> slot_swapped(
                    old(funcs)@[i].bbs()[b].insts@[j],
                    #[trigger] final(funcs)@[i].bbs()[b].insts@[j],
                ),
            r is Ok ==> forall|i: int, b: int, j: int|
                0 <= i < final(funcs)@.len() && 0 <= b < final(funcs)@[i].bbs().len() && 0 <= j
                    < final(funcs)@[i].bbs()[b].insts@.len() ==> ((#[trigger] final(funcs)@[
                    i
                ].bbs()[b].insts@[j]).spec_stack_slot() matches Some(ss) ==> ss.start
                    >= reserved_bytes(
                    max_callee_regs_stacks.view_map(),
                    old(funcs)@[i].name@,
                )),
    {
        let n: usize = funcs.len();
        let mut i: usize = 0;
        while i < n
            invariant
                n == funcs@.len(),
                funcs@.len() == old(funcs)@.len(),
                i <= n,
                forall|k: int|
                    0 <= k < funcs@.len() ==> (#[trigger] funcs@[k]).other_bbs@.len() < usize::MAX,
                forall|k: int| 0 <= k < i ==> slots_owned(#[trigger] funcs@[k]),
                forall|k: int|
                    0 <= k < old(funcs)@.len() ==> (#[trigger] funcs@[k]).same_frame_but_allocator(
                        &old(funcs)@[k],
                    ) && funcs@[k].bbs().len() == old(funcs)@[k].bbs().len(),
                forall|k: int, b: int|
                    0 <= k < old(funcs)@.len() && 0 <= b < old(funcs)@[k].bbs().len() ==> (
                    #[trigger] funcs@[k].bbs()[b]).label == old(funcs)@[k].bbs()[b].label
                        && funcs@[k].bbs()[b].insts@.len() == old(funcs)@[k].bbs()[
                        b
                    ].insts@.len(),
                forall|k: int, b: int, j: int|
                    0 <= k < i && 0 <= b < old(funcs)@[k].bbs().len() && 0 <= j < old(funcs)@[
                        k
                    ].bbs()[b].insts@.len() ==> slot_swapped(
                        old(funcs)@[k].bbs()[b].insts@[j],
                        #[trigger] funcs@[k].bbs()[b].insts@[j],
                    ),
                forall|k: int, b: int, j: int|
                    0 <= k < i && 0 <= b < funcs@[k].bbs().len() && 0 <= j < funcs@[k].bbs()[
                        b
                    ].insts@.len() ==> ((#[trigger] funcs@[k].bbs()[b].insts@[
                        j
                    ]).spec_stack_slot() matches Some(ss) ==> ss.start >= reserved_bytes(
                        max_callee_regs_stacks.view_map(),
                        old(funcs)@[k].name@,
                    )),
                forall|k: int| i <= k < n ==> #[trigger] funcs@[k] == old(funcs)@[k],
            decreases n - i,
        {
            let r: Result<(), CompileError> = Self::realloc_one(
                &mut funcs[i],
                max_callee_regs_stacks,
            );
            if let Err(e) = r {
                return Err(e);
            }
            i = i + 1;
        }
        Ok(())
    }

    /// Rebuilds one function's frame; see `realloc_stack_slots`.
    pub fn realloc_one(f: &mut Func, max_callee_regs_stacks: &NameU32Map) -> (r: Result<
        (),
        CompileError,
    >)
        requires
            old(f).other_bbs@.len() < usize::MAX,
        ensures
            final(f).other_bbs@.len() == old(f).other_bbs@.len(),
            final(f).same_frame_but_allocator(old(f)),
            final(f).bbs().len() == old(f).bbs().len(),
            forall|b: int|
                0 <= b < old(f).bbs().len() ==> (#[trigger] final(f).bbs()[b]).label == old(
                    f,
                ).bbs()[b].label && final(f).bbs()[b].insts@.len() == old(f).bbs()[
                    b
                ].insts@.len(),
            r is Ok ==> forall|b: int, j: int|
                0 <= b < old(f).bbs().len() && 0 <= j < old(f).bbs()[b].insts@.len()
                    ==> slot_swapped(
                    old(f).bbs()[b].insts@[j],
                    #[trigger] final(f).bbs()[b].insts@[j],
                ),
            r is Ok ==> slots_owned(*final(f)),
            r is Ok ==> forall|b: int, j: int|
                0 <= b < final(f).bbs().len() && 0 <= j < final(f).bbs()[b].insts@.len() ==> ((
                #[trigger] final(f).bbs()[b].insts@[j]).spec_stack_slot() matches Some(ss)
                    ==> ss.start >= reserved_bytes(
                    max_callee_regs_stacks.view_map(),
                    old(f).name@,
                )),
    {
        // Pass one: count how many instructions touch each slot.
        let mut counts: SlotCountMap = SlotCountMap::new();
        let n_bbs: usize = f.n_bbs();
        let mut b: usize = 0;
        while b < n_bbs
            invariant
                n_bbs == f.bbs().len(),
                f.other_bbs@.len() < usize::MAX,
                b <= n_bbs,
            decreases n_bbs - b,
        {
            let m: usize = f.bb_at(b).insts.len();
            let mut j: usize = 0;
            while j < m
                invariant
                    b < f.bbs().len(),
                    m == f.bbs()[b as int].insts@.len(),
                    j <= m,
                decreases m - j,
            {
                match f.bb_at(b).insts[j].stack_slot() {
                    Some(ss) => {
                        let c: u64 = match counts.get(ss) {
                            Some(c) => c,
                            None => 0,
                        };
                        let c2: u64 = if c < u64::MAX {
                            c + 1
                        } else {
                            c
                        };
                        counts.insert(ss, c2);
                    },
                    None => {},
                }
                j = j + 1;
            }
            b = b + 1;
        }
        // Pass two: rebuild the allocator, the outgoing-argument area first.
        let mut new_allocator: StackAllocator = StackAllocator::new();
        let max_need: u32 = match max_callee_regs_stacks.get(&f.name) {
            Some(v) => v,
            None => 0,
        };
        if !new_allocator.can_allocate(max_need as u64) {
            return Err(CompileError::Range);
        }
        let _ = new_allocator.allocate(max_need as u64);
        // Order the slots: ascending touch count, then reversed, then
        // interleaved so the most-touched land nearest the frame pointer.
        let mut sorted: Vec<(StackSlot, u64)> = Vec::new();
        let mut seen: Vec<StackSlot> = Vec::new();
        let n_entries: usize = counts.entries.len();
        let mut ci: usize = n_entries;
        while ci > 0
            invariant
                n_entries == counts.entries@.len(),
                ci <= n_entries,
            decreases ci,
        {
            let entry: (StackSlot, u64) = counts.entries[ci - 1];
            let mut dup: bool = false;
            let mut si: usize = 0;
            while si < seen.len()
                invariant
                    si <= seen@.len(),
                decreases seen@.len() - si,
            {
                if seen[si] == entry.0 {
                    dup = true;
                }
                si = si + 1;
            }
            if !dup {
                seen.push(entry.0);
                // Insertion keeping ascending count order.
                let mut pos: usize = 0;
                while pos < sorted.len() && sorted[pos].1 <= entry.1
                    invariant
                        pos <= sorted@.len(),
                    decreases sorted@.len() - pos,
                {
                    pos = pos + 1;
                }
                sorted.insert(pos, entry);
            }
            ci = ci - 1;
        }
        let mut left: Vec<StackSlot> = Vec::new();
        let mut right: Vec<StackSlot> = Vec::new();
        let mut ri: usize = sorted.len();
        let mut parity: bool = true;
        while ri > 0
            invariant
                ri <= sorted@.len(),
            decreases ri,
        {
            if parity {
                left.push(sorted[ri - 1].0);
            } else {
                right.push(sorted[ri - 1].0);
            }
            parity = !parity;
            ri = ri - 1;
        }
        let mut ordered: Vec<StackSlot> = left;
        let mut qi: usize = right.len();
        while qi > 0
            invariant
                qi <= right@.len(),
            decreases qi,
        {
            ordered.push(right[qi - 1]);
            qi = qi - 1;
        }
        // Assign each ordered slot its new place.
        let mut mapping: SlotSlotMap = SlotSlotMap::new();
        let mut oi: usize = 0;
        while oi < ordered.len()
            invariant
                oi <= ordered@.len(),
                new_allocator.used >= max_need as u64,
                forall|k: StackSlot|
                    #![trigger mapping.view_map().contains_key(k)]
                    mapping.view_map().contains_key(k) ==> new_allocator.owns(
                        mapping.view_map()[k],
                    ) && mapping.view_map()[k].size == k.size && mapping.view_map()[k].start
                        >= max_need as u64,
            decreases ordered@.len() - oi,
        {
            let old_slot: StackSlot = ordered[oi];
            if !new_allocator.can_allocate(old_slot.size()) {
                return Err(CompileError::Range);
            }
            let ghost before = new_allocator;
            let new_slot: StackSlot = new_allocator.allocate(old_slot.size());
            proof {
                assert forall|k: StackSlot|
                    #![trigger mapping.view_map().contains_key(k)]
                    mapping.view_map().contains_key(k) implies new_allocator.owns(
                    mapping.view_map()[k],
                ) && mapping.view_map()[k].size == k.size && mapping.view_map()[k].start
                    >= max_need as u64 by {
                    assert(before.owns(mapping.view_map()[k]));
                }
            }
            mapping.insert(old_slot, new_slot);
            oi = oi + 1;
        }
        // Pass three: rewrite every stack-touching instruction.
        let ghost alloc_snapshot = new_allocator;
        let mut b2: usize = 0;
        let n_bbs2: usize = f.n_bbs();
        while b2 < n_bbs2
            invariant
                n_bbs2 == f.bbs().len(),
                f.other_bbs@.len() == old(f).other_bbs@.len(),
                f.other_bbs@.len() < usize::MAX,
                b2 <= n_bbs2,
                forall|k: StackSlot|
                    #![trigger mapping.view_map().contains_key(k)]
                    mapping.view_map().contains_key(k) ==> alloc_snapshot.owns(
                        mapping.view_map()[k],
                    ) && mapping.view_map()[k].size == k.size && mapping.view_map()[k].start
                        >= max_need as u64,
                forall|x: int, j: int|
                    0 <= x < b2 && 0 <= j < f.bbs()[x].insts@.len() ==> ((#[trigger] f.bbs()[
                        x
                    ].insts@[j]).spec_stack_slot() matches Some(ss) ==> alloc_snapshot.owns(ss)
                        && ss.start >= max_need as u64),
                f.same_frame_but_allocator(old(f)),
                f.bbs().len() == old(f).bbs().len(),
                forall|x: int|
                    0 <= x < old(f).bbs().len() ==> (#[trigger] f.bbs()[x]).label == old(f).bbs()[
                        x
                    ].label && f.bbs()[x].insts@.len() == old(f).bbs()[x].insts@.len(),
                forall|x: int, j2: int|
                    0 <= x < b2 && 0 <= j2 < old(f).bbs()[x].insts@.len() ==> slot_swapped(
                        old(f).bbs()[x].insts@[j2],
                        #[trigger] f.bbs()[x].insts@[j2],
                    ),
                forall|x: int| b2 <= x < old(f).bbs().len() ==> #[trigger] f.bbs()[x] == old(f).bbs()[x],
            decreases n_bbs2 - b2,
        {
            let m: usize = f.bb_at(b2).insts.len();
            let mut j: usize = 0;
            while j < m
                invariant
                    b2 < f.bbs().len(),
                    m == f.bbs()[b2 as int].insts@.len(),
                    f.other_bbs@.len() == old(f).other_bbs@.len(),
                    f.other_bbs@.len() < usize::MAX,
                    j <= m,
                    n_bbs2 == f.bbs().len(),
                    forall|k: StackSlot|
                        #![trigger mapping.view_map().contains_key(k)]
                        mapping.view_map().contains_key(k) ==> alloc_snapshot.owns(
                            mapping.view_map()[k],
                        ) && mapping.view_map()[k].size == k.size && mapping.view_map()[k].start
                            >= max_need as u64,
                    forall|x: int, j2: int|
                        0 <= x < b2 && 0 <= j2 < f.bbs()[x].insts@.len() ==> ((#[trigger] f.bbs()[
                            x
                        ].insts@[j2]).spec_stack_slot() matches Some(ss) ==> alloc_snapshot.owns(
                            ss,
                        ) && ss.start >= max_need as u64),
                    forall|j2: int|
                        0 <= j2 < j ==> ((#[trigger] f.bbs()[b2 as int].insts@[
                            j2
                        ]).spec_stack_slot() matches Some(ss) ==> alloc_snapshot.owns(ss)
                            && ss.start >= max_need as u64),
                    f.same_frame_but_allocator(old(f)),
                    f.bbs().len() == old(f).bbs().len(),
                    forall|x: int|
                        0 <= x < old(f).bbs().len() ==> (#[trigger] f.bbs()[x]).label == old(
                            f,
                        ).bbs()[x].label && f.bbs()[x].insts@.len() == old(f).bbs()[
                            x
                        ].insts@.len(),
                    forall|x: int, j2: int|
                        0 <= x < b2 && 0 <= j2 < old(f).bbs()[x].insts@.len() ==> slot_swapped(
                            old(f).bbs()[x].insts@[j2],
                            #[trigger] f.bbs()[x].insts@[j2],
                        ),
                    forall|j2: int|
                        0 <= j2 < j ==> slot_swapped(
                            old(f).bbs()[b2 as int].insts@[j2],
                            #[trigger] f.bbs()[b2 as int].insts@[j2],
                        ),
                    forall|j2: int|
                        j <= j2 < m ==> #[trigger] f.bbs()[b2 as int].insts@[j2] == old(f).bbs()[
                            b2 as int
                        ].insts@[j2],
                    forall|x: int|
                        b2 < x < old(f).bbs().len() ==> #[trigger] f.bbs()[x] == old(f).bbs()[x],
                decreases m - j,
            {
                let ghost pre = *f;
                let slot_here: Option<StackSlot> = f.bb_at(b2).insts[j].stack_slot();
                match slot_here {
                    Some(ss) => {
                        let new_ss: StackSlot = match mapping.get(ss) {
                            Some(ns) => ns,
                            None => {
                                return Err(CompileError::LookupMiss);
                            },
                        };
                        let ni: Inst;
                        if b2 == 0 {
                            ni = f.entry.insts[j].with_slot(new_ss);
                            f.entry.insts[j] = ni;
                            proof {
                                assert(f.bbs()[0] == f.entry);
                            }
                        } else {
                            ni = f.other_bbs[b2 - 1].insts[j].with_slot(new_ss);
                            f.other_bbs[b2 - 1].insts[j] = ni;
                        }
                        proof {
                            assert(f.bbs()[b2 as int].insts@[j as int].spec_stack_slot() == Some(
                                new_ss,
                            ));
                            assert forall|x: int| 0 <= x < n_bbs2 && x != b2 implies #[trigger] f.bbs()[
                                x
                            ] == pre.bbs()[x] by {
                                if x == 0 {
                                    assert(f.bbs()[0] == f.entry);
                                    assert(pre.bbs()[0] == pre.entry);
                                } else {
                                    assert(f.bbs()[x] == f.other_bbs@[x - 1]);
                                    assert(pre.bbs()[x] == pre.other_bbs@[x - 1]);
                                }
                            }
                            assert forall|j2: int|
                                0 <= j2 < j implies ((#[trigger] f.bbs()[b2 as int].insts@[
                                j2
                            ]).spec_stack_slot() matches Some(ss2) ==> alloc_snapshot.owns(
                                ss2,
                            )) by {
                                assert(f.bbs()[b2 as int].insts@[j2] == pre.bbs()[b2 as int].insts@[
                                    j2
                                ]);
                            }
                        }
                    },
                    None => {},
                }
                proof {
                    assert forall|x: int, j2: int|
                        0 <= x < b2 && 0 <= j2 < f.bbs()[x].insts@.len() implies ((
                    #[trigger] f.bbs()[x].insts@[j2]).spec_stack_slot() matches Some(ss2)
                        ==> alloc_snapshot.owns(ss2)) by {
                        if x == 0 {
                            assert(f.bbs()[0] == f.entry);
                            assert(pre.bbs()[0] == pre.entry);
                        } else {
                            assert(f.bbs()[x] == f.other_bbs@[x - 1]);
                            assert(pre.bbs()[x] == pre.other_bbs@[x - 1]);
                        }
                        assert(f.bbs()[x] == pre.bbs()[x]);
                    }
                }
                j = j + 1;
            }
            b2 = b2 + 1;
        }
        let ghost before_set = *f;
        f.set_stack_allocator(Some(new_allocator));
        proof {
            assert(f.stack_allocator == Some(alloc_snapshot));
            assert(f.bbs() =~= before_set.bbs());
            assert(slots_owned(*f));
        }
        Ok(())
    }
}

} // verus!

verus! {

/// How an instruction changes under label uniquification in function
/// `fname`: jump and branch targets get the `fname_` prefix; everything
/// else is untouched.
pub open spec fn tagged_inst(a: Inst, b: Inst, fname: Seq<char>) -> bool {
    match a {
        Inst::Jmp { label } => b matches Inst::Jmp { label: l2 } && l2@ == fname + "_"@ + label@,
        Inst::Br { op, lhs, rhs, label } => b matches Inst::Br {
            op: o2,
            lhs: x2,
            rhs: y2,
            label: l2,
        } && o2 == op && x2 == lhs && y2 == rhs && l2@ == fname + "_"@ + label@,
        _ => crate::backend::inst::inst_same(b, a),
    }
}

/// `fname_label`: the globally unique form of a block label.
pub fn make_tagged(fname: &String, label: &String) -> (r: String)
    ensures
        r@ == fname@ + "_"@ + label@,
{
    let mut s: String = fname.clone();
    s.append("_");
    s.append(label.as_str());
    s
}

/// Concatenation with a one-character separator absent from either prefix
/// is injective: equal tagged labels force equal parts.
pub proof fn lemma_tag_injective(f1: Seq<char>, l1: Seq<char>, f2: Seq<char>, l2: Seq<char>, sep: Seq<char>)
    requires
        sep.len() == 1,
        !f1.contains(sep[0]),
        !f2.contains(sep[0]),
        f1 + sep + l1 == f2 + sep + l2,
    ensures
        f1 == f2,
        l1 == l2,
{
    let s = f1 + sep + l1;
    assert(s.len() == f1.len() + 1 + l1.len());
    assert(s.len() == f2.len() + 1 + l2.len());
    if f1.len() < f2.len() {
        assert(s[f1.len() as int] == sep[0]);
        assert(s[f1.len() as int] == f2[f1.len() as int]);
        assert(f2.contains(sep[0]));
        assert(false);
    }
    if f2.len() < f1.len() {
        assert((f2 + sep + l2)[f2.len() as int] == sep[0]);
        assert((f2 + sep + l2)[f2.len() as int] == f1[f2.len() as int]);
        assert(f1.contains(sep[0]));
        assert(false);
    }
    assert(f1.len() == f2.len());
    assert forall|k: int| 0 <= k < f1.len() implies f1[k] == f2[k] by {
        assert(s[k] == f1[k]);
        assert((f2 + sep + l2)[k] == f2[k]);
    }
    assert(f1 =~= f2);
    assert forall|k: int| 0 <= k < l1.len() implies l1[k] == l2[k] by {
        assert(s[f1.len() + 1 + k] == l1[k]);
        assert((f2 + sep + l2)[f2.len() + 1 + k] == l2[k]);
    }
    assert(l1 =~= l2);
}

/// Rewrites one block for uniquification: its own label and every jump or
/// branch target get the function-name prefix.
fn uniquify_block(b: &mut Block, fname: &String)
    ensures
        final(b).label@ == fname@ + "_"@ + old(b).label@,
        final(b).insts@.len() == old(b).insts@.len(),
        forall|j: int|
            0 <= j < old(b).insts@.len() ==> tagged_inst(
                old(b).insts@[j],
                #[trigger] final(b).insts@[j],
                fname@,
            ),
{
    let new_label: String = make_tagged(fname, &b.label);
    b.set_label(new_label);
    let m: usize = b.insts.len();
    let mut j: usize = 0;
    while j < m
        invariant
            m == b.insts@.len(),
            b.label@ == fname@ + "_"@ + old(b).label@,
            j <= m,
            forall|k: int|
                0 <= k < j ==> tagged_inst(old(b).insts@[k], #[trigger] b.insts@[k], fname@),
            forall|k: int| j <= k < m ==> b.insts@[k] == old(b).insts@[k],
        decreases m - j,
    {
        let ni: Option<Inst> = match &b.insts[j] {
            Inst::Jmp { label } => Some(Inst::Jmp { label: make_tagged(fname, label) }),
            Inst::Br { op, lhs, rhs, label } => Some(
                Inst::Br { op: *op, lhs: *lhs, rhs: *rhs, label: make_tagged(fname, label) },
            ),
            _ => None,
        };
        if let Some(ni) = ni {
            b.insts[j] = ni;
        }
        j = j + 1;
    }
}

impl IRBuilder {
    /// Makes block labels globally unique: every label `L` of function `F`
    /// becomes `F_L`, and every jump or branch target is rewritten the same
    /// way. With distinct, underscore-free function names and per-function
    /// distinct labels coming in, all labels are distinct program-wide
    /// afterwards.
    pub fn rename_bb_label(funcs: &mut Vec<Func>)
        requires
            forall|i: int|
                0 <= i < old(funcs)@.len() ==> (#[trigger] old(funcs)@[i]).other_bbs@.len()
                    < usize::MAX,
        ensures
            final(funcs)@.len() == old(funcs)@.len(),
            forall|i: int|
                0 <= i < old(funcs)@.len() ==> (#[trigger] final(funcs)@[i]).name == old(funcs)@[i].name && final(funcs)@[i].bbs().len() == old(funcs)@[i].bbs().len()
                    && final(funcs)@[i].same_frame(&old(funcs)@[i]),
            forall|i: int, b: int|
                0 <= i < old(funcs)@.len() && 0 <= b < old(funcs)@[i].bbs().len() ==> (
                #[trigger] final(funcs)@[i].bbs()[b]).label@ == old(funcs)@[i].name@ + "_"@ + old(funcs)@[i].bbs()[b].label@,
            forall|i: int, b: int|
                0 <= i < old(funcs)@.len() && 0 <= b < old(funcs)@[i].bbs().len() ==> (
                #[trigger] final(funcs)@[i].bbs()[b]).insts@.len() == old(funcs)@[i].bbs()[
                    b
                ].insts@.len(),
            forall|i: int, b: int, j: int|
                0 <= i < old(funcs)@.len() && 0 <= b < old(funcs)@[i].bbs().len() && 0 <= j < old(
                    funcs,
                )@[i].bbs()[b].insts@.len() ==> tagged_inst(
                    old(funcs)@[i].bbs()[b].insts@[j],
                    #[trigger] final(funcs)@[i].bbs()[b].insts@[j],
                    old(funcs)@[i].name@,
                ),
            ((forall|i1: int, i2: int|
                0 <= i1 < i2 < old(funcs)@.len() ==> (#[trigger] old(funcs)@[i1].name@)
                    != #[trigger] old(funcs)@[i2].name@) && (forall|i: int|
                0 <= i < old(funcs)@.len() ==> !(#[trigger] old(funcs)@[i].name@).contains('_'))
                && (forall|i: int, b1: int, b2: int|
                0 <= i < old(funcs)@.len() && 0 <= b1 < b2 < old(funcs)@[i].bbs().len() ==> (
                #[trigger] old(funcs)@[i].bbs()[b1].label@) != #[trigger] old(funcs)@[i].bbs()[b2].label@)) ==> (forall|i1: int, b1: int, i2: int, b2: int|
                0 <= i1 < old(funcs)@.len() && 0 <= b1 < old(funcs)@[i1].bbs().len() && 0 <= i2
                    < old(funcs)@.len() && 0 <= b2 < old(funcs)@[i2].bbs().len() && (i1 != i2 || b1
                    != b2) ==> (#[trigger] final(funcs)@[i1].bbs()[b1].label@) != #[trigger] final(funcs)@[i2].bbs()[b2].label@),
    {
        let n: usize = funcs.len();
        let mut i: usize = 0;
        while i < n
            invariant
                n == funcs@.len(),
                funcs@.len() == old(funcs)@.len(),
                i <= n,
                forall|k: int|
                    0 <= k < old(funcs)@.len() ==> (#[trigger] old(funcs)@[k]).other_bbs@.len()
                        < usize::MAX,
                forall|k: int| i <= k < n ==> #[trigger] funcs@[k] == old(funcs)@[k],
                forall|k: int|
                    0 <= k < i ==> (#[trigger] funcs@[k]).name == old(funcs)@[k].name && funcs@[
                        k
                    ].bbs().len() == old(funcs)@[k].bbs().len() && funcs@[k].same_frame(
                        &old(funcs)@[k],
                    ),
                forall|k: int, b: int|
                    0 <= k < i && 0 <= b < old(funcs)@[k].bbs().len() ==> (#[trigger] funcs@[
                        k
                    ].bbs()[b]).label@ == old(funcs)@[k].name@ + "_"@ + old(funcs)@[k].bbs()[b].label@,
                forall|k: int, b: int|
                    0 <= k < i && 0 <= b < old(funcs)@[k].bbs().len() ==> (#[trigger] funcs@[
                        k
                    ].bbs()[b]).insts@.len() == old(funcs)@[k].bbs()[b].insts@.len(),
                forall|k: int, b: int, j: int|
                    0 <= k < i && 0 <= b < old(funcs)@[k].bbs().len() && 0 <= j < old(funcs)@[
                        k
                    ].bbs()[b].insts@.len() ==> tagged_inst(
                        old(funcs)@[k].bbs()[b].insts@[j],
                        #[trigger] funcs@[k].bbs()[b].insts@[j],
                        old(funcs)@[k].name@,
                    ),
            decreases n - i,
        {
            Self::uniquify_one(&mut funcs[i]);
            i = i + 1;
        }
        proof {
            reveal_strlit("_");
            if (forall|i1: int, i2: int|
                0 <= i1 < i2 < old(funcs)@.len() ==> (#[trigger] old(funcs)@[i1].name@)
                    != #[trigger] old(funcs)@[i2].name@) && (forall|i2: int|
                0 <= i2 < old(funcs)@.len() ==> !(#[trigger] old(funcs)@[i2].name@).contains('_'))
                && (forall|i2: int, b1: int, b2: int|
                0 <= i2 < old(funcs)@.len() && 0 <= b1 < b2 < old(funcs)@[i2].bbs().len() ==> (
                #[trigger] old(funcs)@[i2].bbs()[b1].label@) != #[trigger] old(funcs)@[i2].bbs()[b2].label@) {
                assert forall|i1: int, b1: int, i2: int, b2: int|
                    0 <= i1 < old(funcs)@.len() && 0 <= b1 < old(funcs)@[i1].bbs().len() && 0 <= i2
                        < old(funcs)@.len() && 0 <= b2 < old(funcs)@[i2].bbs().len() && (i1 != i2
                        || b1 != b2) implies (#[trigger] funcs@[i1].bbs()[b1].label@)
                    != #[trigger] funcs@[i2].bbs()[b2].label@ by {
                    let f1 = old(funcs)@[i1].name@;
                    let l1 = old(funcs)@[i1].bbs()[b1].label@;
                    let f2 = old(funcs)@[i2].name@;
                    let l2 = old(funcs)@[i2].bbs()[b2].label@;
                    assert("_"@ =~= seq!['_']);
                    if funcs@[i1].bbs()[b1].label@ == funcs@[i2].bbs()[b2].label@ {
                        lemma_tag_injective(f1, l1, f2, l2, "_"@);
                        if i1 != i2 {
                            if i1 < i2 {
                                assert(f1 != f2);
                            } else {
                                assert(f2 != f1);
                            }
                        } else {
                            if b1 < b2 {
                                assert(l1 != l2);
                            } else {
                                assert(l2 != l1);
                            }
                        }
                        assert(false);
                    }
                }
            }
        }
    }

    /// Uniquifies one function's labels and targets; see `rename_bb_label`.
    pub fn uniquify_one(f: &mut Func)
        requires
            old(f).other_bbs@.len() < usize::MAX,
        ensures
            final(f).name == old(f).name,
            final(f).same_frame(old(f)),
            final(f).bbs().len() == old(f).bbs().len(),
            forall|b: int|
                0 <= b < old(f).bbs().len() ==> (#[trigger] final(f).bbs()[b]).label@ == old(f).name@ + "_"@ + old(f).bbs()[b].label@,
            forall|b: int|
                0 <= b < old(f).bbs().len() ==> (#[trigger] final(f).bbs()[b]).insts@.len()
                    == old(f).bbs()[b].insts@.len(),
            forall|b: int, j: int|
                0 <= b < old(f).bbs().len() && 0 <= j < old(f).bbs()[b].insts@.len()
                    ==> tagged_inst(
                    old(f).bbs()[b].insts@[j],
                    #[trigger] final(f).bbs()[b].insts@[j],
                    old(f).name@,
                ),
    {
        let fname: String = f.name.clone();
        let ghost b0 = f.bbs();
        uniquify_block(&mut f.entry, &fname);
        proof {
            assert(f.bbs()[0] == f.entry);
            assert(b0[0] == old(f).entry);
        }
        let n_other: usize = f.other_bbs.len();
        let mut k: usize = 0;
        while k < n_other
            invariant
                n_other == f.other_bbs@.len(),
                k <= n_other,
                f.name == old(f).name,
                f.same_frame(old(f)),
                fname@ == old(f).name@,
                b0 == old(f).bbs(),
                f.bbs().len() == b0.len(),
                forall|b: int|
                    0 <= b < 1 + k ==> (#[trigger] f.bbs()[b]).label@ == old(f).name@ + "_"@
                        + b0[b].label@ && f.bbs()[b].insts@.len() == b0[b].insts@.len() && (forall|
                        j: int,
                    |
                        0 <= j < b0[b].insts@.len() ==> tagged_inst(
                            b0[b].insts@[j],
                            #[trigger] f.bbs()[b].insts@[j],
                            old(f).name@,
                        )),
                forall|b: int| 1 + k <= b < b0.len() ==> #[trigger] f.bbs()[b] == b0[b],
            decreases n_other - k,
        {
            let ghost pre = *f;
            uniquify_block(&mut f.other_bbs[k], &fname);
            proof {
                assert(f.bbs()[k + 1] == f.other_bbs@[k as int]);
                assert(pre.bbs()[k + 1] == pre.other_bbs@[k as int]);
                assert forall|b: int| 0 <= b < b0.len() && b != k + 1 implies #[trigger] f.bbs()[b]
                    == pre.bbs()[b] by {
                    if b == 0 {
                        assert(f.bbs()[0] == f.entry);
                        assert(pre.bbs()[0] == pre.entry);
                    } else {
                        assert(f.bbs()[b] == f.other_bbs@[b - 1]);
                        assert(pre.bbs()[b] == pre.other_bbs@[b - 1]);
                    }
                }
            }
            k = k + 1;
        }
    }
}

} // verus!
