//! The tight-terminator checker: terminators may only stand at the very end
//! of a block, as a single jump or return, or as a conditional branch
//! followed by an unconditional jump.

use vstd::prelude::*;

use crate::backend::block::Block;
use crate::backend::inst::Inst;

verus! {

/// A block is tight when its instruction sequence ends in exactly one
/// terminator that is a jump or a return, or in exactly two of which the
/// first is a conditional branch and the second a jump; no terminator may
/// stand earlier.
pub open spec fn tight(s: Seq<Inst>) -> bool {
    ||| (s.len() >= 1 && (s.last() is Jmp || s.last() is Ret) && (forall|i: int|
        0 <= i < s.len() - 1 ==> !s[i].spec_is_term()))
    ||| (s.len() >= 2 && s[s.len() - 2].spec_is_branch() && (s.last() is Jmp) && (forall|i: int|
        0 <= i < s.len() - 2 ==> !s[i].spec_is_term()))
}

/// Checks the tight-terminator shape of blocks.
pub struct TightTerm;

impl TightTerm {
    /// Variables always pass this checker.
    pub fn check_var(&self) -> (r: bool)
        ensures
            r,
    {
        true
    }

    /// Individual instructions always pass this checker.
    pub fn check_inst(&self, inst: &Inst) -> (r: bool)
        ensures
            r,
    {
        true
    }

    /// Whether the block has the tight-terminator shape.
    pub fn check_bb(&self, bb: &Block) -> (r: bool)
        ensures
            r == tight(bb.insts@),
    {
        let n: usize = bb.insts.len();
        // Index of the first terminator, or `n` if there is none.
        let mut first: usize = 0;
        while first < n && !bb.insts[first].is_term()
            invariant
                first <= n,
                n == bb.insts@.len(),
                forall|i: int| 0 <= i < first ==> !bb.insts@[i].spec_is_term(),
            decreases n - first,
        {
            first = first + 1;
        }
        if n >= 1 && first == n - 1 {
            let last_ok: bool = match &bb.insts[n - 1] {
                Inst::Jmp { .. } => true,
                Inst::Ret => true,
                _ => false,
            };
            last_ok
        } else if n >= 2 && first == n - 2 {
            let last_is_jmp: bool = match &bb.insts[n - 1] {
                Inst::Jmp { .. } => true,
                _ => false,
            };
            last_is_jmp && bb.insts[n - 2].is_branch()
        } else {
            proof {
                if tight(bb.insts@) {
                    // In either tight shape the first terminator stands at
                    // `n - 1` or `n - 2`.
                    assert(bb.insts@.last().spec_is_term());
                }
            }
            false
        }
    }
}

} // verus!

verus! {

use crate::backend::block::trailing_terms;

/// A tight block's trailing terminator run is its one or two last
/// instructions.
pub proof fn lemma_tight_trailing(s: Seq<Inst>)
    requires
        tight(s),
    ensures
        trailing_terms(s) == 1 || trailing_terms(s) == 2,
        trailing_terms(s) <= s.len(),
        trailing_terms(s) == 1 ==> (s.last() is Jmp || s.last() is Ret) && (forall|i: int|
            0 <= i < s.len() - 1 ==> !s[i].spec_is_term()),
        trailing_terms(s) == 2 ==> s.len() >= 2 && s[s.len() - 2].spec_is_branch() && (
        s.last() is Jmp) && (forall|i: int| 0 <= i < s.len() - 2 ==> !s[i].spec_is_term()),
{
    if s.len() >= 1 && (s.last() is Jmp || s.last() is Ret) && (forall|i: int|
        0 <= i < s.len() - 1 ==> !s[i].spec_is_term()) {
        assert(s.last().spec_is_term());
        let d = s.drop_last();
        if d.len() > 0 {
            assert(d.last() == s[s.len() - 2]);
            assert(!d.last().spec_is_term());
            assert(trailing_terms(d) == 0);
        } else {
            assert(trailing_terms(d) == 0);
        }
        assert(trailing_terms(s) == 1 + trailing_terms(d));
    } else {
        let d = s.drop_last();
        assert(s.last() is Jmp);
        assert(s.last().spec_is_term());
        assert(d.last() == s[s.len() - 2]);
        assert(d.last().spec_is_branch());
        assert(d.last().spec_is_term());
        let d2 = d.drop_last();
        if d2.len() > 0 {
            assert(d2.last() == s[s.len() - 3]);
            assert(!d2.last().spec_is_term());
            assert(trailing_terms(d2) == 0);
        } else {
            assert(trailing_terms(d2) == 0);
        }
        assert(trailing_terms(d) == 1 + trailing_terms(d2));
        assert(trailing_terms(s) == 1 + trailing_terms(d));
    }
}

/// Inserting a non-terminator right before a tight block's terminators
/// keeps the block tight: the copies that resolve PHI nodes cannot break
/// the shape.
pub proof fn lemma_insert_before_term_keeps_tight(s: Seq<Inst>, x: Inst)
    requires
        tight(s),
        !x.spec_is_term(),
    ensures
        tight(s.insert(s.len() - trailing_terms(s), x)),
{
    lemma_tight_trailing(s);
    let tt = trailing_terms(s) as int;
    let i = s.len() - tt;
    let t = s.insert(i, x);
    assert(t.len() == s.len() + 1);
    assert forall|k: int| 0 <= k < i implies t[k] == s[k] by {}
    assert(t[i] == x);
    assert forall|k: int| i < k < t.len() implies t[k] == s[k - 1] by {}
    if tt == 1 {
        assert(t.last() == s[s.len() - 1]);
        assert forall|k: int| 0 <= k < t.len() - 1 implies !t[k].spec_is_term() by {
            if k < i {
                assert(t[k] == s[k]);
            } else if k > i {
                assert(t[k] == s[k - 1]);
                assert(k - 1 < s.len() - 1);
            }
        }
        assert(tight(t));
    } else {
        assert(t.last() == s[s.len() - 1]);
        assert(t[t.len() - 2] == s[s.len() - 2]);
        assert(t[t.len() - 2].spec_is_branch());
        assert forall|k: int| 0 <= k < t.len() - 2 implies !t[k].spec_is_term() by {
            if k < i {
                assert(t[k] == s[k]);
            } else if k > i {
                assert(t[k] == s[k - 1]);
                assert(k - 1 < s.len() - 2);
            }
        }
        assert(tight(t));
    }
}

} // verus!
