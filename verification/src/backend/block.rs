//! Basic blocks: a label and an ordered instruction sequence.

use vstd::prelude::*;

use crate::backend::inst::Inst;

verus! {

/// Number of trailing terminator instructions of an instruction sequence.
pub open spec fn trailing_terms(s: Seq<Inst>) -> nat
    decreases s.len(),
{
    if s.len() == 0 {
        0
    } else if !s.last().spec_is_term() {
        0
    } else {
        1 + trailing_terms(s.drop_last())
    }
}

/// The trailing terminator run never exceeds the sequence.
pub proof fn lemma_trailing_terms_le(s: Seq<Inst>)
    ensures
        trailing_terms(s) <= s.len(),
    decreases s.len(),
{
    if s.len() > 0 && s.last().spec_is_term() {
        lemma_trailing_terms_le(s.drop_last());
    }
}

/// A basic block.
#[derive(Debug, Clone, PartialEq)]
pub struct Block {
    pub label: String,
    pub insts: Vec<Inst>,
}

impl Block {
    pub fn new(label: String) -> (r: Block)
        ensures
            r.label == label,
            r.insts@ == Seq::<Inst>::empty(),
    {
        Block { label, insts: Vec::new() }
    }

    pub fn label(&self) -> (r: &String)
        ensures
            r == &self.label,
    {
        &self.label
    }

    pub fn set_label(&mut self, label: String)
        ensures
            final(self).label == label,
            final(self).insts == old(self).insts,
    {
        self.label = label;
    }

    pub fn insts(&self) -> (r: &Vec<Inst>)
        ensures
            r == &self.insts,
    {
        &self.insts
    }

    pub fn push_inst(&mut self, inst: Inst)
        ensures
            final(self).label == old(self).label,
            final(self).insts@ == old(self).insts@.push(inst),
    {
        self.insts.push(inst);
    }

    pub fn extend_insts(&mut self, mut insts: Vec<Inst>)
        ensures
            final(self).label == old(self).label,
            final(self).insts@ == old(self).insts@ + insts@,
    {
        self.insts.append(&mut insts);
    }

    /// Index right before the block's trailing run of terminators; copies
    /// that resolve PHI nodes go there.
    pub fn insert_point(&self) -> (r: usize)
        ensures
            r == self.insts@.len() - trailing_terms(self.insts@),
    {
        let mut k: usize = self.insts.len();
        proof {
            assert(self.insts@.take(k as int) =~= self.insts@);
        }
        while k > 0 && self.insts[k - 1].is_term()
            invariant
                k <= self.insts.len(),
                trailing_terms(self.insts@) == trailing_terms(self.insts@.take(k as int)) + (
                self.insts@.len() - k),
                forall|j: int| k <= j < self.insts@.len() ==> self.insts@[j].spec_is_term(),
            decreases k,
    {
            proof {
                assert(self.insts@.take(k as int).last() == self.insts@[k - 1]);
                assert(self.insts@.take(k as int).drop_last() =~= self.insts@.take(k - 1));
            }
            k = k - 1;
        }
        proof {
            if k > 0 {
                assert(self.insts@.take(k as int).last() == self.insts@[k - 1]);
                assert(trailing_terms(self.insts@.take(k as int)) == 0);
            } else {
                assert(self.insts@.take(0).len() == 0);
            }
        }
        k
    }

    /// Inserts `inst` before the block's trailing terminators.
    pub fn insert_before_term(&mut self, inst: Inst)
        ensures
            final(self).label == old(self).label,
            final(self).insts@ == old(self).insts@.insert(
                old(self).insts@.len() - trailing_terms(old(self).insts@),
                inst,
            ),
    {
        let k: usize = self.insert_point();
        self.insts.insert(k, inst);
    }

    /// Appends `other`'s instructions; a trailing jump of this block is
    /// dropped first, so a merged-in successor continues the fall-through.
    pub fn merge(&mut self, other: Block)
        ensures
            final(self).label == old(self).label,
            final(self).insts@ == if old(self).insts@.len() > 0 && old(self).insts@.last() matches
                Inst::Jmp { .. } {
                old(self).insts@.drop_last() + other.insts@
            } else {
                old(self).insts@ + other.insts@
            },
    {
        let n: usize = self.insts.len();
        if n > 0 {
            let pop: bool = match &self.insts[n - 1] {
                Inst::Jmp { .. } => true,
                _ => false,
            };
            if pop {
                self.insts.pop();
            }
        }
        self.extend_insts(other.insts);
    }
}

} // verus!
