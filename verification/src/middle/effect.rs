//! The alias-aware effect analysis: which abstract memory locations an
//! instruction may read or write. Locations are globals, elements of globals
//! reached through address computations with their (possibly unknown) index
//! paths, stack slots of allocas, and an unknown catch-all.

use vstd::prelude::*;

use crate::middle::mir::{Constant, MirInstKind, MirOperand, MirProgram};

verus! {

/// An abstract memory location.
#[derive(Debug, PartialEq)]
pub enum Loc {
    /// A global variable as a whole.
    Global(String),
    /// An element region of a global: the base name plus one entry per
    /// address-computation index, `None` where the index is not a constant.
    Region { base: String, path: Vec<Option<i64>> },
    /// An alloca'd stack object, by its instruction identity.
    Stack(usize),
    /// Anything at all.
    Unknown,
}

/// Whether two index paths can address overlapping elements: they agree on
/// every position both know, judged over the shorter of the two.
pub open spec fn paths_compatible(a: Seq<Option<i64>>, b: Seq<Option<i64>>) -> bool {
    forall|i: int|
        0 <= i < a.len() && i < b.len() ==> (((#[trigger] a[i]) is Some && (#[trigger] b[i]) is Some)
            ==> a[i].unwrap() == b[i].unwrap())
}

/// Whether two locations may address overlapping memory.
pub open spec fn spec_may_alias(a: Loc, b: Loc) -> bool {
    match a {
        Loc::Unknown => true,
        Loc::Global(x) => match b {
            Loc::Unknown => true,
            Loc::Global(y) => x@ == y@,
            Loc::Region { base, .. } => x@ == base@,
            Loc::Stack(_) => false,
        },
        Loc::Stack(sx) => match b {
            Loc::Unknown => true,
            Loc::Stack(sy) => sx == sy,
            _ => false,
        },
        Loc::Region { base: b1, path: p1 } => match b {
            Loc::Unknown => true,
            Loc::Global(y) => b1@ == y@,
            Loc::Stack(_) => false,
            Loc::Region { base: b2, path: p2 } => b1@ == b2@ && paths_compatible(p1@, p2@),
        },
    }
}

/// An exact copy of a location.
pub fn clone_loc(l: &Loc) -> (r: Loc)
    ensures
        match *l {
            Loc::Global(n) => r matches Loc::Global(n2) && n2 == n,
            Loc::Region { base, path } => r matches Loc::Region { base: b2, path: p2 } && b2
                == base && p2@ == path@,
            Loc::Stack(i) => r == Loc::Stack(i),
            Loc::Unknown => r == Loc::Unknown,
        },
{
    match l {
        Loc::Global(n) => Loc::Global(n.clone()),
        Loc::Region { base, path } => {
            let mut p: Vec<Option<i64>> = Vec::new();
            let mut i: usize = 0;
            while i < path.len()
                invariant
                    i <= path@.len(),
                    p@ == path@.subrange(0, i as int),
                decreases path@.len() - i,
            {
                p.push(path[i]);
                i = i + 1;
            }
            proof {
                assert(p@ =~= path@);
            }
            Loc::Region { base: base.clone(), path: p }
        },
        Loc::Stack(i) => Loc::Stack(*i),
        Loc::Unknown => Loc::Unknown,
    }
}

/// Checks whether two locations may overlap; the alias oracle of the
/// memory analysis.
pub fn may_alias(a: &Loc, b: &Loc) -> (r: bool)
    ensures
        r == spec_may_alias(*a, *b),
{
    match a {
        Loc::Unknown => true,
        Loc::Global(x) => {
            match b {
                Loc::Unknown => true,
                Loc::Global(y) => *x == *y,
                Loc::Region { base, .. } => *x == *base,
                Loc::Stack(_) => false,
            }
        },
        Loc::Stack(sx) => {
            match b {
                Loc::Unknown => true,
                Loc::Stack(sy) => *sx == *sy,
                _ => false,
            }
        },
        Loc::Region { base: b1, path: p1 } => {
            match b {
                Loc::Unknown => true,
                Loc::Global(y) => *b1 == *y,
                Loc::Stack(_) => false,
                Loc::Region { base: b2, path: p2 } => {
                    proof {
                        assert(spec_may_alias(*a, *b) == (b1@ == b2@ && paths_compatible(
                            p1@,
                            p2@,
                        )));
                    }
                    if !(*b1 == *b2) {
                        return false;
                    }
                    let n: usize = if p1.len() < p2.len() {
                        p1.len()
                    } else {
                        p2.len()
                    };
                    let mut i: usize = 0;
                    while i < n
                        invariant
                            spec_may_alias(*a, *b) == paths_compatible(p1@, p2@),
                            n <= p1@.len(),
                            n <= p2@.len(),
                            i <= n,
                            forall|k: int|
                                0 <= k < i ==> (((#[trigger] p1@[k]) is Some && (#[trigger] p2@[k]) is Some)
                                    ==> p1@[k].unwrap() == p2@[k].unwrap()),
                            n == if p1@.len() < p2@.len() {
                                p1@.len()
                            } else {
                                p2@.len()
                            },
                        decreases n - i,
                    {
                        let a_i: Option<i64> = p1[i];
                        let b_i: Option<i64> = p2[i];
                        let stop: bool = match (a_i, b_i) {
                            (Some(x), Some(y)) => x != y,
                            _ => false,
                        };
                        if stop {
                            proof {
                                assert((p1@[i as int]) is Some && (p2@[i as int]) is Some);
                                assert(p1@[i as int].unwrap() != p2@[i as int].unwrap());
                                assert(!paths_compatible(p1@, p2@));
                            }
                            return false;
                        }
                        i = i + 1;
                    }
                    proof {
                        assert forall|k: int|
                            0 <= k < p1@.len() && k < p2@.len() implies (((#[trigger] p1@[k]) is Some
                            && (#[trigger] p2@[k]) is Some) ==> p1@[k].unwrap()
                            == p2@[k].unwrap()) by {
                            assert(k < n);
                        }
                    }
                    true
                },
            }
        },
    }
}

/// Whether any location of `xs` may alias any of `ys`.
pub fn sets_may_alias(xs: &Vec<Loc>, ys: &Vec<Loc>) -> (r: bool)
    ensures
        r == exists|i: int, j: int|
            0 <= i < xs@.len() && 0 <= j < ys@.len() && spec_may_alias(
                #[trigger] xs@[i],
                #[trigger] ys@[j],
            ),
{
    let mut i: usize = 0;
    while i < xs.len()
        invariant
            i <= xs@.len(),
            forall|a: int, b: int|
                0 <= a < i && 0 <= b < ys@.len() ==> !spec_may_alias(
                    #[trigger] xs@[a],
                    #[trigger] ys@[b],
                ),
        decreases xs@.len() - i,
    {
        let mut j: usize = 0;
        while j < ys.len()
            invariant
                i < xs@.len(),
                j <= ys@.len(),
                forall|b: int| 0 <= b < j ==> !spec_may_alias(xs@[i as int], #[trigger] ys@[b]),
            decreases ys@.len() - j,
        {
            if may_alias(&xs[i], &ys[j]) {
                return true;
            }
            j = j + 1;
        }
        i = i + 1;
    }
    false
}

/// May-read and may-write location sets per instruction, with call effects
/// resolved through the callee's own sets.
pub struct EffectAnalysis {
    /// Indexed by arena identity: what each instruction may read / write.
    pub reads: Vec<Vec<Loc>>,
    pub writes: Vec<Vec<Loc>>,
}

impl EffectAnalysis {
    /// Resolves a pointer operand to a location; anything the analysis
    /// cannot see through is `Unknown`.
    pub fn resolve_loc(program: &MirProgram, ptr: &MirOperand, fuel: usize) -> (r: Loc)
        ensures
            *ptr matches MirOperand::Global(name) ==> (r matches Loc::Global(n2) && n2@ == name@),
            *ptr is Constant ==> r == Loc::Unknown,
            *ptr is Parameter ==> r == Loc::Unknown,
        decreases fuel,
    {
        match ptr {
            MirOperand::Global(name) => Loc::Global(name.clone()),
            MirOperand::Instruction(id) => {
                if fuel == 0 || *id >= program.insts.len() {
                    return Loc::Unknown;
                }
                match &program.insts[*id].kind {
                    MirInstKind::Alloca { .. } => Loc::Stack(*id),
                    MirInstKind::Gep { ptr: base, indices, .. } => {
                        let base_loc: Loc = Self::resolve_loc(program, base, fuel - 1);
                        let (bname, mut path): (String, Vec<Option<i64>>) = match base_loc {
                            Loc::Global(n) => (n, Vec::new()),
                            Loc::Region { base, path } => (base, path),
                            _ => {
                                return Loc::Unknown;
                            },
                        };
                        // The first index steps through the pointer; later
                        // indices select elements.
                        let mut k: usize = 1;
                        while k < indices.len()
                            decreases indices@.len() - k,
                        {
                            match &indices[k] {
                                MirOperand::Constant(Constant::Int(v)) => {
                                    path.push(Some(*v as i64));
                                },
                                _ => {
                                    path.push(None);
                                },
                            }
                            k = k + 1;
                        }
                        Loc::Region { base: bname, path }
                    },
                    _ => Loc::Unknown,
                }
            },
            _ => Loc::Unknown,
        }
    }

    /// Computes the per-instruction effect sets of a program: loads read
    /// their location, stores write theirs, and a call reads and writes
    /// whatever its callee does, resolved over a few rounds so that call
    /// chains settle.
    pub fn new(program: &MirProgram) -> (r: EffectAnalysis)
        ensures
            r.reads@.len() == program.insts@.len(),
            r.writes@.len() == program.insts@.len(),
            forall|i: int|
                0 <= i < program.insts@.len() && (#[trigger] program.insts@[i]).kind is Load
                    ==> r.reads@[i]@.len() == 1 && r.writes@[i]@.len() == 0,
            forall|i: int|
                0 <= i < program.insts@.len() && (#[trigger] program.insts@[i]).kind is Store
                    ==> r.writes@[i]@.len() == 1 && r.reads@[i]@.len() == 0,
            forall|i: int|
                0 <= i < program.insts@.len() && !((#[trigger] program.insts@[i]).kind is Load || (
                program.insts@[i]).kind is Store || (program.insts@[i]).kind is Call)
                    ==> r.reads@[i]@.len() == 0 && r.writes@[i]@.len() == 0,
    {
        let n: usize = program.insts.len();
        // Per-function direct read/write sets, then a few propagation
        // rounds for calls.
        let n_funcs: usize = program.module.functions.len();
        let mut fn_reads: Vec<Vec<Loc>> = Vec::new();
        let mut fn_writes: Vec<Vec<Loc>> = Vec::new();
        let mut fi: usize = 0;
        while fi < n_funcs
            invariant
                fn_reads@.len() == fi,
                fn_writes@.len() == fi,
                fi <= n_funcs,
            decreases n_funcs - fi,
        {
            fn_reads.push(Vec::new());
            fn_writes.push(Vec::new());
            fi = fi + 1;
        }
        let mut round: usize = 0;
        while round < n_funcs
            invariant
                fn_reads@.len() == n_funcs,
                fn_writes@.len() == n_funcs,
                n_funcs == program.module.functions@.len(),
                round <= n_funcs,
            decreases n_funcs - round,
        {
            let mut f: usize = 0;
            while f < n_funcs
                invariant
                    fn_reads@.len() == n_funcs,
                    fn_writes@.len() == n_funcs,
                    n_funcs == program.module.functions@.len(),
                    f <= n_funcs,
                decreases n_funcs - f,
            {
                let mut new_reads: Vec<Loc> = Vec::new();
                let mut new_writes: Vec<Loc> = Vec::new();
                let n_blocks: usize = program.module.functions[f].blocks.len();
                let mut b: usize = 0;
                while b < n_blocks
                    invariant
                        fn_reads@.len() == n_funcs,
                        fn_writes@.len() == n_funcs,
                        n_funcs == program.module.functions@.len(),
                        f < n_funcs,
                        n_blocks == program.module.functions@[f as int].blocks@.len(),
                        b <= n_blocks,
                    decreases n_blocks - b,
                {
                    let n_insts: usize = program.module.functions[f].blocks[b].insts.len();
                    let mut k: usize = 0;
                    while k < n_insts
                        invariant
                            fn_reads@.len() == n_funcs,
                            fn_writes@.len() == n_funcs,
                            n_funcs == program.module.functions@.len(),
                            f < n_funcs,
                            b < program.module.functions@[f as int].blocks@.len(),
                            n_insts == program.module.functions@[f as int].blocks@[
                                b as int
                            ].insts@.len(),
                            k <= n_insts,
                        decreases n_insts - k,
                    {
                        let iid: usize = program.module.functions[f].blocks[b].insts[k];
                        if iid < program.insts.len() {
                            match &program.insts[iid].kind {
                                MirInstKind::Load { ptr, .. } => {
                                    new_reads.push(Self::resolve_loc(program, ptr, 16));
                                },
                                MirInstKind::Store { ptr, .. } => {
                                    new_writes.push(Self::resolve_loc(program, ptr, 16));
                                },
                                MirInstKind::Call { callee, .. } => {
                                    let ci: Option<usize> = Self::find_func(program, callee);
                                    if let Some(ci) = ci {
                                        Self::extend_locs(&mut new_reads, &fn_reads[ci]);
                                        Self::extend_locs(&mut new_writes, &fn_writes[ci]);
                                    }
                                },
                                _ => {},
                            }
                        }
                        k = k + 1;
                    }
                    b = b + 1;
                }
                fn_reads[f] = new_reads;
                fn_writes[f] = new_writes;
                f = f + 1;
            }
            round = round + 1;
        }
        // Per-instruction sets.
        let mut reads: Vec<Vec<Loc>> = Vec::new();
        let mut writes: Vec<Vec<Loc>> = Vec::new();
        let mut i: usize = 0;
        while i < n
            invariant
                n == program.insts@.len(),
                fn_reads@.len() == n_funcs,
                fn_writes@.len() == n_funcs,
                n_funcs == program.module.functions@.len(),
                reads@.len() == i,
                writes@.len() == i,
                i <= n,
                forall|x: int|
                    0 <= x < i && (#[trigger] program.insts@[x]).kind is Load ==> reads@[x]@.len()
                        == 1 && writes@[x]@.len() == 0,
                forall|x: int|
                    0 <= x < i && (#[trigger] program.insts@[x]).kind is Store ==> writes@[
                        x
                    ]@.len() == 1 && reads@[x]@.len() == 0,
                forall|x: int|
                    0 <= x < i && !((#[trigger] program.insts@[x]).kind is Load || (
                    program.insts@[x]).kind is Store || (program.insts@[x]).kind is Call)
                        ==> reads@[x]@.len() == 0 && writes@[x]@.len() == 0,
            decreases n - i,
        {
            let mut rd: Vec<Loc> = Vec::new();
            let mut wr: Vec<Loc> = Vec::new();
            match &program.insts[i].kind {
                MirInstKind::Load { ptr, .. } => {
                    rd.push(Self::resolve_loc(program, ptr, 16));
                },
                MirInstKind::Store { ptr, .. } => {
                    wr.push(Self::resolve_loc(program, ptr, 16));
                },
                MirInstKind::Call { callee, .. } => {
                    let ci: Option<usize> = Self::find_func(program, callee);
                    if let Some(ci) = ci {
                        Self::extend_locs(&mut rd, &fn_reads[ci]);
                        Self::extend_locs(&mut wr, &fn_writes[ci]);
                    }
                },
                _ => {},
            }
            reads.push(rd);
            writes.push(wr);
            i = i + 1;
        }
        EffectAnalysis { reads, writes }
    }

    /// The index of the function with the given name, if any.
    pub fn find_func(program: &MirProgram, name: &String) -> (r: Option<usize>)
        ensures
            r matches Some(i) ==> i < program.module.functions@.len()
                && program.module.functions@[i as int].name@ == name@,
    {
        let n: usize = program.module.functions.len();
        let mut i: usize = 0;
        while i < n
            invariant
                n == program.module.functions@.len(),
                i <= n,
            decreases n - i,
        {
            if program.module.functions[i].name == *name {
                return Some(i);
            }
            i = i + 1;
        }
        None
    }

    /// Appends copies of all of `src` to `dst`.
    pub fn extend_locs(dst: &mut Vec<Loc>, src: &Vec<Loc>) {
        let mut i: usize = 0;
        while i < src.len()
            decreases src@.len() - i,
        {
            dst.push(clone_loc(&src[i]));
            i = i + 1;
        }
    }
}

} // verus!
