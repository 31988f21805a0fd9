//! MemorySSA: an SSA overlay whose versions are abstract memory states.
//! Writes become defs, reads become uses, and joins where the reaching
//! memory state diverges get phis. Nodes are numbered densely in creation
//! order across the program; the entry sentinel of the first function is 0.

use vstd::prelude::*;
use vstd::string::StringExecFns;

use crate::backend::maps::UsizeMap;
use crate::middle::effect::{sets_may_alias, EffectAnalysis, Loc};
use crate::middle::mir::{MirBlock, MirFunc, MirInstKind, MirProgram};
use crate::middle::printer::inst_text;
use crate::textfmt::dec_string;

verus! {

/// A memory-state node.
pub enum Node {
    /// The live-on-entry sentinel of one function.
    Entry { num: usize },
    /// A memory-affecting instruction: its reaching definition, its owner,
    /// and whether it defines a new state.
    Normal { num: usize, use_of: Option<usize>, inst: usize, is_def: bool },
    /// A join of diverging states at a block entry, one incoming per
    /// predecessor.
    Phi { num: usize, func: usize, block: usize, incomings: Vec<(usize, String)> },
}

pub open spec fn node_num(n: Node) -> usize {
    match n {
        Node::Entry { num } => num,
        Node::Normal { num, .. } => num,
        Node::Phi { num, .. } => num,
    }
}

/// The memory-def/use/phi graph of a program.
pub struct MemorySSA {
    pub nodes: Vec<Node>,
    /// Instruction identity to its one node.
    pub inst_node: UsizeMap,
    /// Per function index: its entry node, for functions that were built.
    pub entries: Vec<Option<usize>>,
    /// Per function and block index: the block's phi node, if one was
    /// placed.
    pub block_phis: Vec<Vec<Option<usize>>>,
}

/// Numbering is dense: each node carries its own index. The arena numbers
/// nodes in creation order across the whole program, so uniqueness and
/// density hold program-wide; a function's entry sentinel is therefore its
/// first node, not necessarily node zero.
pub open spec fn nodes_dense(nodes: Seq<Node>) -> bool {
    forall|k: int| 0 <= k < nodes.len() ==> node_num(#[trigger] nodes[k]) == k
}

/// Every phi has exactly one incoming per predecessor of its block.
pub open spec fn phis_match_preds(nodes: Seq<Node>, program: MirProgram) -> bool {
    forall|k: int|
        0 <= k < nodes.len() ==> ((#[trigger] nodes[k]) matches Node::Phi {
            func,
            block,
            incomings,
            ..
        } ==> func < program.module.functions@.len() && block
            < program.module.functions@[func as int].blocks@.len() && incomings@.len()
            == program.module.functions@[func as int].blocks@[block as int].preds@.len())
}

impl MemorySSA {
    /// The node of a memory-affecting instruction, if it has one; an
    /// instruction has at most one node because this lookup is a function
    /// of the instruction's identity.
    pub fn get_inst_node(&self, inst: usize) -> (r: Option<usize>)
        ensures
            r == if self.inst_node.view_map().contains_key(inst) {
                Some(self.inst_node.view_map()[inst])
            } else {
                None::<usize>
            },
    {
        self.inst_node.get(inst)
    }

    /// Builds the MemorySSA of a program under the given effect analysis.
    /// Node numbers are dense and each phi carries one incoming per
    /// predecessor of its block.
    pub fn new(program: &MirProgram, effects: &EffectAnalysis) -> (r: MemorySSA)
        requires
            effects.reads@.len() == program.insts@.len(),
            effects.writes@.len() == program.insts@.len(),
        ensures
            nodes_dense(r.nodes@),
            phis_match_preds(r.nodes@, *program),
            r.entries@.len() == program.module.functions@.len(),
            forall|fi: int|
                0 <= fi < program.module.functions@.len() && !(#[trigger] program.module.functions@[fi]).is_lib
                    && program.module.functions@[fi].blocks@.len() >= 1 ==> (r.entries@[fi]
                    matches Some(e) && e < r.nodes@.len() && r.nodes@[e as int] is Entry),
            forall|iid: usize|
                #![trigger r.inst_node.view_map().contains_key(iid)]
                r.inst_node.view_map().contains_key(iid) ==> r.inst_node.view_map()[iid]
                    < r.nodes@.len() && (r.nodes@[r.inst_node.view_map()[iid] as int] matches
                    Node::Normal { inst, .. } && inst == iid),
    {
        let mut nodes: Vec<Node> = Vec::new();
        let mut inst_node: UsizeMap = UsizeMap::new();
        let mut entries: Vec<Option<usize>> = Vec::new();
        let mut block_phis: Vec<Vec<Option<usize>>> = Vec::new();
        let n_funcs: usize = program.module.functions.len();
        let mut fi: usize = 0;
        while fi < n_funcs
            invariant
                n_funcs == program.module.functions@.len(),
                effects.reads@.len() == program.insts@.len(),
                effects.writes@.len() == program.insts@.len(),
                fi <= n_funcs,
                entries@.len() == fi,
                block_phis@.len() == fi,
                forall|x: int|
                    0 <= x < fi && !(#[trigger] program.module.functions@[x]).is_lib
                        && program.module.functions@[x].blocks@.len() >= 1 ==> (entries@[x]
                        matches Some(e) && e < nodes@.len() && nodes@[e as int] is Entry),
                forall|iid: usize|
                    #![trigger inst_node.view_map().contains_key(iid)]
                    inst_node.view_map().contains_key(iid) ==> inst_node.view_map()[iid]
                        < nodes@.len() && (nodes@[inst_node.view_map()[iid] as int] matches
                        Node::Normal { inst, .. } && inst == iid),
                nodes_dense(nodes@),
                phis_match_preds(nodes@, *program),
            decreases n_funcs - fi,
        {
            let f: &MirFunc = &program.module.functions[fi];
            let nb: usize = f.blocks.len();
            if f.is_lib || nb == 0 {
                entries.push(None);
                let empty_phis: Vec<Option<usize>> = Vec::new();
                block_phis.push(empty_phis);
                fi = fi + 1;
                continue ;
            }
            // CFG: predecessor and successor indices by label.
            let preds: Vec<Vec<usize>> = Self::pred_indices(f);
            let succs: Vec<Vec<usize>> = Self::succ_indices(program, f);
            // Dominators, immediate dominators, dominance frontiers.
            let dom: Vec<Vec<bool>> = Self::dominators(&preds, nb);
            let idom: Vec<usize> = Self::idoms(&dom, nb);
            let df: Vec<Vec<usize>> = Self::frontiers(&preds, &idom, nb);
            // Blocks that define memory.
            let mut has_def: Vec<bool> = Vec::new();
            let mut b: usize = 0;
            while b < nb
                invariant
                    nb == f.blocks@.len(),
                    effects.writes@.len() == program.insts@.len(),
                    b <= nb,
                    has_def@.len() == b,
                decreases nb - b,
            {
                let mut any: bool = false;
                let m: usize = f.blocks[b].insts.len();
                let mut k: usize = 0;
                while k < m
                    invariant
                        b < f.blocks@.len(),
                        m == f.blocks@[b as int].insts@.len(),
                        effects.writes@.len() == program.insts@.len(),
                        k <= m,
                    decreases m - k,
                {
                    let iid: usize = f.blocks[b].insts[k];
                    if iid < effects.writes.len() && effects.writes[iid].len() > 0 {
                        any = true;
                    }
                    k = k + 1;
                }
                has_def.push(any);
                b = b + 1;
            }
            // Iterated dominance frontier of the defining blocks.
            let mut needs_phi: Vec<bool> = Self::iterated_frontier(&df, &has_def, nb);
            // Entry sentinel.
            let entry_id: usize = nodes.len();
            nodes.push(Node::Entry { num: entry_id });
            entries.push(Some(entry_id));
            // Phi nodes, one per needing block, in block order.
            let mut phis: Vec<Option<usize>> = Vec::new();
            b = 0;
            while b < nb
                invariant
                    nb == f.blocks@.len(),
                    fi < program.module.functions@.len(),
                    f == &program.module.functions@[fi as int],
                    needs_phi@.len() == nb,
                    preds@.len() == nb,
                    forall|x: int|
                        0 <= x < nb ==> (#[trigger] preds@[x])@.len() == f.blocks@[
                            x
                        ].preds@.len(),
                    b <= nb,
                    phis@.len() == b,
                    entry_id < nodes@.len(),
                    nodes@[entry_id as int] is Entry,
                    entries@.len() == fi + 1,
                    entries@[fi as int] == Some(entry_id),
                forall|x: int|
                    0 <= x < fi && !(#[trigger] program.module.functions@[x]).is_lib
                        && program.module.functions@[x].blocks@.len() >= 1 ==> (entries@[x]
                        matches Some(e) && e < nodes@.len() && nodes@[e as int] is Entry),
                forall|iid: usize|
                    #![trigger inst_node.view_map().contains_key(iid)]
                    inst_node.view_map().contains_key(iid) ==> inst_node.view_map()[iid]
                        < nodes@.len() && (nodes@[inst_node.view_map()[iid] as int] matches
                        Node::Normal { inst, .. } && inst == iid),
                    forall|x: int| 0 <= x < b ==> ((#[trigger] phis@[x]) matches Some(p) ==> p < nodes@.len()),
                    nodes_dense(nodes@),
                    phis_match_preds(nodes@, *program),
                decreases nb - b,
            {
                if needs_phi[b] && preds[b].len() >= 2 {
                    let num: usize = nodes.len();
                    let mut incomings: Vec<(usize, String)> = Vec::new();
                    let np: usize = f.blocks[b].preds.len();
                    let mut q: usize = 0;
                    while q < np
                        invariant
                            b < f.blocks@.len(),
                            np == f.blocks@[b as int].preds@.len(),
                            q <= np,
                            incomings@.len() == q,
                        decreases np - q,
                    {
                        incomings.push((entry_id, f.blocks[b].preds[q].clone()));
                        q = q + 1;
                    }
                    nodes.push(Node::Phi { num, func: fi, block: b, incomings });
                    phis.push(Some(num));
                } else {
                    phis.push(None);
                }
                b = b + 1;
            }
            // Dominator-tree children, ordered by depth-first discovery over
            // the CFG so that renaming follows the branch order.
            let order: Vec<usize> = Self::dfs_order(&succs, nb);
            let mut children: Vec<Vec<usize>> = Vec::new();
            b = 0;
            while b < nb
                invariant
                    b <= nb,
                    children@.len() == b,
                decreases nb - b,
            {
                children.push(Vec::new());
                b = b + 1;
            }
            let n_ord: usize = order.len();
            let mut oi: usize = 0;
            while oi < n_ord
                invariant
                    oi <= n_ord,
                    n_ord == order@.len(),
                    children@.len() == nb,
                    idom@.len() == nb,
                decreases n_ord - oi,
            {
                let b3: usize = order[oi];
                if b3 < nb && b3 != 0 {
                    let d: usize = idom[b3];
                    if d < nb && d != b3 {
                        children[d].push(b3);
                    }
                }
                oi = oi + 1;
            }
            // Rename along the dominator tree, entry first.
            let mut vstack: Vec<usize> = Vec::new();
            vstack.push(entry_id);
            // Each event is a block plus the version-stack height to restore
            // on the way out; `None` height marks an enter event.
            let mut events: Vec<(usize, Option<usize>)> = Vec::new();
            events.push((0, None));
            let mut fuel: usize = usize::MAX;
            while events.len() > 0 && fuel > 0
                invariant
                    nb >= 1,
                    nb == f.blocks@.len(),
                    fi < program.module.functions@.len(),
                    f == &program.module.functions@[fi as int],
                    effects.reads@.len() == program.insts@.len(),
                    effects.writes@.len() == program.insts@.len(),
                    phis@.len() == nb,
                    succs@.len() == nb,
                    preds@.len() == nb,
                    children@.len() == nb,
                    forall|x: int|
                        0 <= x < events@.len() ==> (#[trigger] events@[x]).0 < nb,
                    vstack@.len() >= 1,
                    entry_id < nodes@.len(),
                    nodes@[entry_id as int] is Entry,
                    entries@.len() == fi + 1,
                    entries@[fi as int] == Some(entry_id),
                forall|x: int|
                    0 <= x < fi && !(#[trigger] program.module.functions@[x]).is_lib
                        && program.module.functions@[x].blocks@.len() >= 1 ==> (entries@[x]
                        matches Some(e) && e < nodes@.len() && nodes@[e as int] is Entry),
                forall|iid: usize|
                    #![trigger inst_node.view_map().contains_key(iid)]
                    inst_node.view_map().contains_key(iid) ==> inst_node.view_map()[iid]
                        < nodes@.len() && (nodes@[inst_node.view_map()[iid] as int] matches
                        Node::Normal { inst, .. } && inst == iid),
                    forall|x: int| 0 <= x < vstack@.len() ==> #[trigger] vstack@[x] < nodes@.len(),
                    nodes_dense(nodes@),
                    phis_match_preds(nodes@, *program),
                decreases fuel,
            {
                fuel = fuel - 1;
                let (blk, height): (usize, Option<usize>) = Self::pop_event(&mut events);
                match height {
                    Some(h) => {
                        // Leaving `blk`: restore the version stack.
                        while vstack.len() > h && vstack.len() > 1
                            invariant
                                vstack@.len() >= 1,
                                forall|x: int|
                                    0 <= x < vstack@.len() ==> #[trigger] vstack@[x]
                                        < nodes@.len(),
                            decreases vstack@.len(),
                        {
                            let _ = vstack.pop();
                        }
                    },
                    None => {
                        let h: usize = vstack.len();
                        events.push((blk, Some(h)));
                        // Enter `blk`: its phi is the state on entry.
                        if let Some(phi_id) = phis[blk] {
                            if phi_id < nodes.len() {
                                vstack.push(phi_id);
                            }
                        }
                        // Walk the block's instructions.
                        let m: usize = f.blocks[blk].insts.len();
                        let mut k: usize = 0;
                        while k < m
                            invariant
                                blk < f.blocks@.len(),
                                m == f.blocks@[blk as int].insts@.len(),
                                effects.reads@.len() == program.insts@.len(),
                                effects.writes@.len() == program.insts@.len(),
                                k <= m,
                                vstack@.len() >= 1,
                                entry_id < nodes@.len(),
                                nodes@[entry_id as int] is Entry,
                                entries@.len() == fi + 1,
                                entries@[fi as int] == Some(entry_id),
                forall|x: int|
                    0 <= x < fi && !(#[trigger] program.module.functions@[x]).is_lib
                        && program.module.functions@[x].blocks@.len() >= 1 ==> (entries@[x]
                        matches Some(e) && e < nodes@.len() && nodes@[e as int] is Entry),
                forall|iid: usize|
                    #![trigger inst_node.view_map().contains_key(iid)]
                    inst_node.view_map().contains_key(iid) ==> inst_node.view_map()[iid]
                        < nodes@.len() && (nodes@[inst_node.view_map()[iid] as int] matches
                        Node::Normal { inst, .. } && inst == iid),
                                forall|x: int|
                                    0 <= x < vstack@.len() ==> #[trigger] vstack@[x]
                                        < nodes@.len(),
                                nodes_dense(nodes@),
                                phis_match_preds(nodes@, *program),
                            decreases m - k,
                        {
                            let iid: usize = f.blocks[blk].insts[k];
                            if iid < effects.reads.len() {
                                let n_reads: usize = effects.reads[iid].len();
                                let n_writes: usize = effects.writes[iid].len();
                                if n_reads > 0 || n_writes > 0 {
                                    let use_of: usize = if n_writes > 0 {
                                        vstack[vstack.len() - 1]
                                    } else {
                                        Self::reaching(
                                            &vstack,
                                            &nodes,
                                            effects,
                                            &effects.reads[iid],
                                        )
                                    };
                                    let num: usize = nodes.len();
                                    nodes.push(
                                        Node::Normal {
                                            num,
                                            use_of: Some(use_of),
                                            inst: iid,
                                            is_def: n_writes > 0,
                                        },
                                    );
                                    inst_node.insert(iid, num);
                                    if n_writes > 0 {
                                        vstack.push(num);
                                    }
                                }
                            }
                            k = k + 1;
                        }
                        // Fill successors' phi incomings with the current
                        // state.
                        let top: usize = vstack[vstack.len() - 1];
                        let ns: usize = succs[blk].len();
                        let mut si: usize = 0;
                        while si < ns
                            invariant
                                blk < nb,
                                nb == f.blocks@.len(),
                                fi < program.module.functions@.len(),
                                f == &program.module.functions@[fi as int],
                                ns == succs@[blk as int]@.len(),
                                succs@.len() == nb,
                                phis@.len() == nb,
                                si <= ns,
                                vstack@.len() >= 1,
                                entry_id < nodes@.len(),
                                nodes@[entry_id as int] is Entry,
                                entries@.len() == fi + 1,
                                entries@[fi as int] == Some(entry_id),
                forall|x: int|
                    0 <= x < fi && !(#[trigger] program.module.functions@[x]).is_lib
                        && program.module.functions@[x].blocks@.len() >= 1 ==> (entries@[x]
                        matches Some(e) && e < nodes@.len() && nodes@[e as int] is Entry),
                forall|iid: usize|
                    #![trigger inst_node.view_map().contains_key(iid)]
                    inst_node.view_map().contains_key(iid) ==> inst_node.view_map()[iid]
                        < nodes@.len() && (nodes@[inst_node.view_map()[iid] as int] matches
                        Node::Normal { inst, .. } && inst == iid),
                                forall|x: int|
                                    0 <= x < vstack@.len() ==> #[trigger] vstack@[x]
                                        < nodes@.len(),
                                nodes_dense(nodes@),
                                phis_match_preds(nodes@, *program),
                            decreases ns - si,
                        {
                            let sb: usize = succs[blk][si];
                            if sb < nb {
                                if let Some(phi_id) = phis[sb] {
                                    if phi_id < nodes.len() {
                                        Self::set_phi_incoming(
                                            &mut nodes,
                                            program,
                                            phi_id,
                                            &f.blocks[blk].label,
                                            top,
                                        );
                                    }
                                }
                            }
                            si = si + 1;
                        }
                        // Children in block order.
                        let nc: usize = children[blk].len();
                        let mut ci: usize = nc;
                        while ci > 0
                            invariant
                                blk < nb,
                                nc == children@[blk as int]@.len(),
                                children@.len() == nb,
                                ci <= nc,
                                forall|x: int|
                                    0 <= x < events@.len() ==> (#[trigger] events@[x]).0 < nb,
                            decreases ci,
                        {
                            let c: usize = children[blk][ci - 1];
                            if c < nb {
                                events.push((c, None));
                            }
                            ci = ci - 1;
                        }
                    },
                }
            }
            block_phis.push(phis);
            fi = fi + 1;
        }
        MemorySSA { nodes, inst_node, entries, block_phis }
    }

    /// Pops the last event; the caller ensures the list is non-empty.
    fn pop_event(events: &mut Vec<(usize, Option<usize>)>) -> (r: (usize, Option<usize>))
        requires
            old(events)@.len() > 0,
        ensures
            final(events)@ == old(events)@.drop_last(),
            r == old(events)@.last(),
    {
        let r: Option<(usize, Option<usize>)> = events.pop();
        match r {
            Some(ev) => ev,
            None => (0, None),
        }
    }

    /// The reaching definition for a read: the youngest version whose
    /// writes may alias the read set; the entry sentinel at the bottom
    /// reaches everything.
    fn reaching(
        vstack: &Vec<usize>,
        nodes: &Vec<Node>,
        effects: &EffectAnalysis,
        reads: &Vec<Loc>,
    ) -> (r: usize)
        requires
            vstack@.len() >= 1,
            forall|x: int| 0 <= x < vstack@.len() ==> #[trigger] vstack@[x] < nodes@.len(),
        ensures
            r < nodes@.len(),
    {
        let mut idx: usize = vstack.len();
        while idx > 1
            invariant
                1 <= idx <= vstack@.len(),
                forall|x: int| 0 <= x < vstack@.len() ==> #[trigger] vstack@[x] < nodes@.len(),
            decreases idx,
        {
            let nid: usize = vstack[idx - 1];
            match &nodes[nid] {
                Node::Normal { inst, .. } => {
                    if *inst < effects.writes.len() {
                        if sets_may_alias(&effects.writes[*inst], reads) {
                            return nid;
                        }
                    } else {
                        return nid;
                    }
                },
                _ => {
                    // A phi or an entry blocks the walk.
                    return nid;
                },
            }
            idx = idx - 1;
        }
        vstack[0]
    }

    /// Sets the phi incoming for one predecessor label.
    fn set_phi_incoming(
        nodes: &mut Vec<Node>,
        program: &MirProgram,
        phi_id: usize,
        pred_label: &String,
        top: usize,
    )
        requires
            phi_id < old(nodes)@.len(),
            nodes_dense(old(nodes)@),
            phis_match_preds(old(nodes)@, *program),
        ensures
            nodes_dense(final(nodes)@),
            phis_match_preds(final(nodes)@, *program),
            final(nodes)@.len() == old(nodes)@.len(),
            forall|x: int|
                0 <= x < old(nodes)@.len() && !((#[trigger] old(nodes)@[x]) is Phi)
                    ==> final(nodes)@[x] == old(nodes)@[x],
    {
        let ghost pre = nodes@;
        match &mut nodes[phi_id] {
            Node::Phi { incomings, .. } => {
                let np: usize = incomings.len();
                let mut q: usize = 0;
                let mut hit: bool = false;
                while q < np && !hit
                    invariant
                        np == incomings@.len(),
                        q <= np,
                    decreases np - q,
                {
                    if incomings[q].1 == *pred_label {
                        incomings[q] = (top, pred_label.clone());
                        hit = true;
                    }
                    q = q + 1;
                }
            },
            _ => {},
        }
    }

    /// The deterministic textual dump: per function, blocks in order with
    /// per-instruction memory annotations.
    pub fn dump(&self, program: &MirProgram) -> (r: String) {
        let mut out: String = String::new();
        let n_funcs: usize = program.module.functions.len();
        let mut fi: usize = 0;
        while fi < n_funcs
            invariant
                n_funcs == program.module.functions@.len(),
                fi <= n_funcs,
            decreases n_funcs - fi,
        {
            let f: &MirFunc = &program.module.functions[fi];
            if f.is_lib || f.blocks.len() == 0 || fi >= self.entries.len() {
                fi = fi + 1;
                continue ;
            }
            let entry_opt: Option<usize> = self.entries[fi];
            let entry_id: usize = match entry_opt {
                Some(e) => e,
                None => {
                    fi = fi + 1;
                    continue ;
                },
            };
            out.append("MemorySSA for function: ");
            out.append(f.name.as_str());
            out.append("\n");
            let nb: usize = f.blocks.len();
            let mut b: usize = 0;
            while b < nb
                invariant
                    nb == f.blocks@.len(),
                    fi < program.module.functions@.len(),
                    f == &program.module.functions@[fi as int],
                    b <= nb,
                decreases nb - b,
            {
                let blk: &MirBlock = &f.blocks[b];
                out.append(blk.label.as_str());
                out.append(":    ; preds = ");
                let np: usize = blk.preds.len();
                let mut q: usize = 0;
                while q < np
                    invariant
                        np == blk.preds@.len(),
                        q <= np,
                    decreases np - q,
                {
                    if q > 0 {
                        out.append(", ");
                    }
                    out.append(blk.preds[q].as_str());
                    q = q + 1;
                }
                out.append("\n");
                if b == 0 {
                    out.append("; ");
                    out.append(dec_string(entry_id as u64).as_str());
                    out.append(" (liveOnEntry)\n");
                }
                if fi < self.block_phis.len() {
                    if b < self.block_phis[fi].len() {
                        if let Some(phi_id) = self.block_phis[fi][b] {
                            if phi_id < self.nodes.len() {
                                if let Node::Phi { num, incomings, .. } = &self.nodes[phi_id] {
                                    out.append("; ");
                                    out.append(dec_string(*num as u64).as_str());
                                    out.append(" = MemoryPhi(");
                                    let ni: usize = incomings.len();
                                    let mut w: usize = 0;
                                    while w < ni
                                        invariant
                                            ni == incomings@.len(),
                                            w <= ni,
                                        decreases ni - w,
                                    {
                                        if w > 0 {
                                            out.append(", ");
                                        }
                                        out.append("[");
                                        out.append(
                                            dec_string(incomings[w].0 as u64).as_str(),
                                        );
                                        out.append(", ");
                                        out.append(incomings[w].1.as_str());
                                        out.append("]");
                                        w = w + 1;
                                    }
                                    out.append(")\n");
                                }
                            }
                        }
                    }
                }
                let m: usize = blk.insts.len();
                let mut k: usize = 0;
                while k < m
                    invariant
                        b < f.blocks@.len(),
                        blk == &f.blocks@[b as int],
                        m == blk.insts@.len(),
                        k <= m,
                    decreases m - k,
                {
                    let iid: usize = blk.insts[k];
                    match self.get_inst_node(iid) {
                        Some(nid) => {
                            if nid < self.nodes.len() {
                                if let Node::Normal { num, use_of, is_def, .. } =
                                    &self.nodes[nid] {
                                    let reach: usize = match use_of {
                                        Some(u) => *u,
                                        None => 0,
                                    };
                                    if *is_def {
                                        out.append("; ");
                                        out.append(dec_string(*num as u64).as_str());
                                        out.append(" = MemoryDef(");
                                        out.append(dec_string(reach as u64).as_str());
                                        out.append(")\n");
                                    } else {
                                        out.append("; MemoryUse(");
                                        out.append(dec_string(reach as u64).as_str());
                                        out.append(")\n");
                                    }
                                }
                            }
                        },
                        None => {},
                    }
                    out.append(inst_text(program, iid).as_str());
                    out.append("\n");
                    k = k + 1;
                }
                out.append("\n");
                b = b + 1;
            }
            fi = fi + 1;
        }
        out
    }

    /// Predecessor block indices, resolved from the predecessor labels;
    /// a label that names no block is dropped.
    fn pred_indices(f: &MirFunc) -> (r: Vec<Vec<usize>>)
        ensures
            r@.len() == f.blocks@.len(),
            forall|x: int|
                0 <= x < r@.len() ==> (#[trigger] r@[x])@.len() == f.blocks@[x].preds@.len(),
    {
        let nb: usize = f.blocks.len();
        let mut r: Vec<Vec<usize>> = Vec::new();
        let mut b: usize = 0;
        while b < nb
            invariant
                nb == f.blocks@.len(),
                b <= nb,
                r@.len() == b,
                forall|x: int|
                    0 <= x < b ==> (#[trigger] r@[x])@.len() == f.blocks@[x].preds@.len(),
            decreases nb - b,
        {
            let np: usize = f.blocks[b].preds.len();
            let mut ps: Vec<usize> = Vec::new();
            let mut q: usize = 0;
            while q < np
                invariant
                    b < f.blocks@.len(),
                    np == f.blocks@[b as int].preds@.len(),
                    q <= np,
                    ps@.len() == q,
                decreases np - q,
            {
                let idx: usize = match Self::find_block(f, &f.blocks[b].preds[q]) {
                    Some(i) => i,
                    None => nb,
                };
                ps.push(idx);
                q = q + 1;
            }
            r.push(ps);
            b = b + 1;
        }
        r
    }

    /// Successor block indices, read off each block's terminator.
    fn succ_indices(program: &MirProgram, f: &MirFunc) -> (r: Vec<Vec<usize>>)
        ensures
            r@.len() == f.blocks@.len(),
    {
        let nb: usize = f.blocks.len();
        let mut r: Vec<Vec<usize>> = Vec::new();
        let mut b: usize = 0;
        while b < nb
            invariant
                nb == f.blocks@.len(),
                b <= nb,
                r@.len() == b,
            decreases nb - b,
        {
            let mut ss: Vec<usize> = Vec::new();
            let m: usize = f.blocks[b].insts.len();
            if m > 0 {
                let tid: usize = f.blocks[b].insts[m - 1];
                if tid < program.insts.len() {
                    match &program.insts[tid].kind {
                        MirInstKind::Br { target } => {
                            if let Some(i) = Self::find_block(f, target) {
                                ss.push(i);
                            }
                        },
                        MirInstKind::CondBr { then_label, else_label, .. } => {
                            if let Some(i) = Self::find_block(f, then_label) {
                                ss.push(i);
                            }
                            if let Some(i) = Self::find_block(f, else_label) {
                                ss.push(i);
                            }
                        },
                        _ => {},
                    }
                }
            }
            r.push(ss);
            b = b + 1;
        }
        r
    }

    /// Depth-first preorder of the blocks over the successor lists,
    /// starting at the entry; unreached blocks follow in index order.
    fn dfs_order(succs: &Vec<Vec<usize>>, nb: usize) -> (r: Vec<usize>)
        requires
            succs@.len() == nb,
            nb >= 1,
        ensures
            forall|x: int| 0 <= x < r@.len() ==> #[trigger] r@[x] < nb,
    {
        let mut visited: Vec<bool> = Vec::new();
        let mut b: usize = 0;
        while b < nb
            invariant
                b <= nb,
                visited@.len() == b,
            decreases nb - b,
        {
            visited.push(false);
            b = b + 1;
        }
        let mut order: Vec<usize> = Vec::new();
        let mut stack: Vec<usize> = Vec::new();
        stack.push(0);
        let mut fuel: usize = usize::MAX;
        while stack.len() > 0 && fuel > 0
            invariant
                visited@.len() == nb,
                succs@.len() == nb,
                forall|x: int| 0 <= x < stack@.len() ==> #[trigger] stack@[x] < nb,
                forall|x: int| 0 <= x < order@.len() ==> #[trigger] order@[x] < nb,
            decreases fuel,
        {
            fuel = fuel - 1;
            let cur: usize = match stack.pop() {
                Some(c) => c,
                None => 0,
            };
            if cur < nb && !visited[cur] {
                visited[cur] = true;
                order.push(cur);
                let ns: usize = succs[cur].len();
                let mut si: usize = ns;
                while si > 0
                    invariant
                        cur < nb,
                        ns == succs@[cur as int]@.len(),
                        succs@.len() == nb,
                        si <= ns,
                        forall|x: int| 0 <= x < stack@.len() ==> #[trigger] stack@[x] < nb,
                    decreases si,
                {
                    let sb: usize = succs[cur][si - 1];
                    if sb < nb {
                        stack.push(sb);
                    }
                    si = si - 1;
                }
            }
        }
        b = 0;
        while b < nb
            invariant
                b <= nb,
                visited@.len() == nb,
                forall|x: int| 0 <= x < order@.len() ==> #[trigger] order@[x] < nb,
            decreases nb - b,
        {
            if !visited[b] {
                order.push(b);
            }
            b = b + 1;
        }
        order
    }

    /// The index of the block with the given label.
    fn find_block(f: &MirFunc, label: &String) -> (r: Option<usize>)
        ensures
            r matches Some(i) ==> i < f.blocks@.len(),
    {
        let nb: usize = f.blocks.len();
        let mut b: usize = 0;
        while b < nb
            invariant
                nb == f.blocks@.len(),
                b <= nb,
            decreases nb - b,
        {
            if f.blocks[b].label == *label {
                return Some(b);
            }
            b = b + 1;
        }
        None
    }

    /// Dominator sets by iteration: the entry dominates itself; every other
    /// block is dominated by itself plus the intersection over its
    /// predecessors.
    fn dominators(preds: &Vec<Vec<usize>>, nb: usize) -> (r: Vec<Vec<bool>>)
        requires
            preds@.len() == nb,
            nb >= 1,
        ensures
            r@.len() == nb,
            forall|x: int| 0 <= x < nb ==> (#[trigger] r@[x])@.len() == nb,
    {
        let mut dom: Vec<Vec<bool>> = Vec::new();
        let mut b: usize = 0;
        while b < nb
            invariant
                b <= nb,
                dom@.len() == b,
                forall|x: int| 0 <= x < b ==> (#[trigger] dom@[x])@.len() == nb,
            decreases nb - b,
        {
            let mut row: Vec<bool> = Vec::new();
            let mut j: usize = 0;
            while j < nb
                invariant
                    j <= nb,
                    row@.len() == j,
                decreases nb - j,
            {
                row.push(b != 0 || j == 0);
                j = j + 1;
            }
            // Entry: only itself. Others: start from everything.
            if b == 0 {
                let mut row0: Vec<bool> = Vec::new();
                let mut j0: usize = 0;
                while j0 < nb
                    invariant
                        j0 <= nb,
                        row0@.len() == j0,
                    decreases nb - j0,
                {
                    row0.push(j0 == 0);
                    j0 = j0 + 1;
                }
                dom.push(row0);
            } else {
                dom.push(row);
            }
            b = b + 1;
        }
        let mut round: usize = 0;
        while round < nb
            invariant
                round <= nb,
                preds@.len() == nb,
                dom@.len() == nb,
                forall|x: int| 0 <= x < nb ==> (#[trigger] dom@[x])@.len() == nb,
            decreases nb - round,
        {
            let mut b2: usize = 1;
            while b2 < nb
                invariant
                    1 <= b2,
                    b2 <= nb,
                    preds@.len() == nb,
                    dom@.len() == nb,
                    forall|x: int| 0 <= x < nb ==> (#[trigger] dom@[x])@.len() == nb,
                decreases nb - b2,
            {
                let mut newrow: Vec<bool> = Vec::new();
                let np: usize = preds[b2].len();
                let mut j2: usize = 0;
                while j2 < nb
                    invariant
                        b2 < nb,
                        j2 <= nb,
                        newrow@.len() == j2,
                        np == preds@[b2 as int]@.len(),
                        preds@.len() == nb,
                        dom@.len() == nb,
                        forall|x: int| 0 <= x < nb ==> (#[trigger] dom@[x])@.len() == nb,
                    decreases nb - j2,
                {
                    let mut v: bool;
                    if j2 == b2 {
                        v = true;
                    } else if np == 0 {
                        v = false;
                    } else {
                        v = true;
                        let mut q: usize = 0;
                        while q < np
                            invariant
                                b2 < nb,
                                j2 < nb,
                                q <= np,
                                np == preds@[b2 as int]@.len(),
                                preds@.len() == nb,
                                dom@.len() == nb,
                                forall|x: int| 0 <= x < nb ==> (#[trigger] dom@[x])@.len() == nb,
                            decreases np - q,
                        {
                            let p: usize = preds[b2][q];
                            if p < nb {
                                if !dom[p][j2] {
                                    v = false;
                                }
                            }
                            q = q + 1;
                        }
                    }
                    newrow.push(v);
                    j2 = j2 + 1;
                }
                dom[b2] = newrow;
                b2 = b2 + 1;
            }
            round = round + 1;
        }
        dom
    }

    /// Immediate dominators from the dominator sets: the strict dominator
    /// that every other strict dominator dominates.
    fn idoms(dom: &Vec<Vec<bool>>, nb: usize) -> (r: Vec<usize>)
        requires
            dom@.len() == nb,
            forall|x: int| 0 <= x < nb ==> (#[trigger] dom@[x])@.len() == nb,
            nb >= 1,
        ensures
            r@.len() == nb,
    {
        let mut idom: Vec<usize> = Vec::new();
        idom.push(0);
        let mut b: usize = 1;
        while b < nb
            invariant
                1 <= b,
                b <= nb,
                idom@.len() == b,
                dom@.len() == nb,
                forall|x: int| 0 <= x < nb ==> (#[trigger] dom@[x])@.len() == nb,
            decreases nb - b,
        {
            let mut found: usize = 0;
            let mut d: usize = 0;
            while d < nb
                invariant
                    b < nb,
                    d <= nb,
                    found < nb,
                    dom@.len() == nb,
                    forall|x: int| 0 <= x < nb ==> (#[trigger] dom@[x])@.len() == nb,
                decreases nb - d,
            {
                if d != b && dom[b][d] {
                    // Is every other strict dominator of b a dominator of d?
                    let mut all: bool = true;
                    let mut e: usize = 0;
                    while e < nb
                        invariant
                            b < nb,
                            d < nb,
                            e <= nb,
                            dom@.len() == nb,
                            forall|x: int| 0 <= x < nb ==> (#[trigger] dom@[x])@.len() == nb,
                        decreases nb - e,
                    {
                        if e != b && e != d && dom[b][e] && !dom[d][e] {
                            all = false;
                        }
                        e = e + 1;
                    }
                    if all {
                        found = d;
                    }
                }
                d = d + 1;
            }
            idom.push(found);
            b = b + 1;
        }
        idom
    }

    /// Dominance frontiers via the runner walk from each join's
    /// predecessors up to the join's immediate dominator.
    fn frontiers(preds: &Vec<Vec<usize>>, idom: &Vec<usize>, nb: usize) -> (r: Vec<Vec<usize>>)
        requires
            preds@.len() == nb,
            idom@.len() == nb,
        ensures
            r@.len() == nb,
            forall|x: int, y: int|
                0 <= x < nb && 0 <= y < r@[x]@.len() ==> #[trigger] r@[x]@[y] < nb,
    {
        let mut df: Vec<Vec<usize>> = Vec::new();
        let mut b: usize = 0;
        while b < nb
            invariant
                b <= nb,
                df@.len() == b,
                forall|x: int, y: int|
                    0 <= x < b && 0 <= y < df@[x]@.len() ==> #[trigger] df@[x]@[y] < nb,
            decreases nb - b,
        {
            df.push(Vec::new());
            b = b + 1;
        }
        b = 0;
        while b < nb
            invariant
                b <= nb,
                preds@.len() == nb,
                idom@.len() == nb,
                df@.len() == nb,
                forall|x: int, y: int|
                    0 <= x < nb && 0 <= y < df@[x]@.len() ==> #[trigger] df@[x]@[y] < nb,
            decreases nb - b,
        {
            let np: usize = preds[b].len();
            if np >= 2 {
                let mut q: usize = 0;
                while q < np
                    invariant
                        b < nb,
                        q <= np,
                        np == preds@[b as int]@.len(),
                        preds@.len() == nb,
                        idom@.len() == nb,
                        df@.len() == nb,
                        forall|x: int, y: int|
                            0 <= x < nb && 0 <= y < df@[x]@.len() ==> #[trigger] df@[x]@[y] < nb,
                    decreases np - q,
                {
                    let mut runner: usize = preds[b][q];
                    let mut steps: usize = nb;
                    while steps > 0
                        invariant
                            b < nb,
                            steps <= nb,
                            idom@.len() == nb,
                            df@.len() == nb,
                            forall|x: int, y: int|
                                0 <= x < nb && 0 <= y < df@[x]@.len() ==> #[trigger] df@[x]@[y]
                                    < nb,
                        decreases steps,
                    {
                        if runner >= nb || runner == idom[b] {
                            steps = 0;
                        } else {
                            df[runner].push(b);
                            runner = idom[runner];
                            if steps > 0 {
                                steps = steps - 1;
                            }
                        }
                    }
                    q = q + 1;
                }
            }
            b = b + 1;
        }
        df
    }

    /// The iterated dominance frontier of the defining blocks.
    fn iterated_frontier(df: &Vec<Vec<usize>>, has_def: &Vec<bool>, nb: usize) -> (r: Vec<bool>)
        requires
            df@.len() == nb,
            has_def@.len() == nb,
            forall|x: int, y: int|
                0 <= x < nb && 0 <= y < df@[x]@.len() ==> #[trigger] df@[x]@[y] < nb,
        ensures
            r@.len() == nb,
    {
        let mut needs: Vec<bool> = Vec::new();
        let mut work: Vec<usize> = Vec::new();
        let mut b: usize = 0;
        while b < nb
            invariant
                b <= nb,
                needs@.len() == b,
                has_def@.len() == nb,
                forall|x: int| 0 <= x < work@.len() ==> #[trigger] work@[x] < nb,
            decreases nb - b,
        {
            needs.push(false);
            if has_def[b] {
                work.push(b);
            }
            b = b + 1;
        }
        let mut fuel: usize = usize::MAX;
        while work.len() > 0 && fuel > 0
            invariant
                needs@.len() == nb,
                df@.len() == nb,
                forall|x: int, y: int|
                    0 <= x < nb && 0 <= y < df@[x]@.len() ==> #[trigger] df@[x]@[y] < nb,
                forall|x: int| 0 <= x < work@.len() ==> #[trigger] work@[x] < nb,
            decreases fuel,
        {
            fuel = fuel - 1;
            let x: usize = match work.pop() {
                Some(x) => x,
                None => 0,
            };
            if x < nb {
                let nf: usize = df[x].len();
                let mut y: usize = 0;
                while y < nf
                    invariant
                        x < nb,
                        y <= nf,
                        nf == df@[x as int]@.len(),
                        needs@.len() == nb,
                        df@.len() == nb,
                        forall|a: int, c: int|
                            0 <= a < nb && 0 <= c < df@[a]@.len() ==> #[trigger] df@[a]@[c] < nb,
                        forall|a: int| 0 <= a < work@.len() ==> #[trigger] work@[a] < nb,
                    decreases nf - y,
                {
                    let t: usize = df[x][y];
                    if t < nb && !needs[t] {
                        needs[t] = true;
                        work.push(t);
                    }
                    y = y + 1;
                }
            }
        }
        needs
    }
}

} // verus!

verus! {

use crate::middle::mir::MirOperand;

impl MemorySSA {
    /// Redirects every dependent node of `old_node` to `old_node`'s own
    /// reaching definition, substitutes `new_operand` for the owner
    /// instruction's value across the program, drops the owner from its
    /// block, and removes the node association. The owner instruction's
    /// arena slot stays (identities are stable); only its block entry goes.
    pub fn replace_node(
        &mut self,
        program: &mut MirProgram,
        old_node: usize,
        new_operand: &MirOperand,
    )
        requires
            old_node < old(self).nodes@.len(),
            old(self).nodes@[old_node as int] is Normal,
        ensures
            final(self).nodes@.len() == old(self).nodes@.len(),
            nodes_dense(old(self).nodes@) ==> nodes_dense(final(self).nodes@),
            final(program).insts@.len() == old(program).insts@.len(),
            final(program).module.functions@.len() == old(program).module.functions@.len(),
            old(self).nodes@[old_node as int] matches Node::Normal { inst: owner, use_of: prev, .. }
                ==> {
                &&& !final(self).inst_node.view_map().contains_key(owner)
                &&& forall|j: int|
                    #![trigger final(self).nodes@[j]]
                    0 <= j < old(self).nodes@.len() ==> (old(self).nodes@[j] matches Node::Normal {
                        num,
                        use_of: Some(u),
                        inst,
                        is_def,
                    } ==> (u == old_node ==> final(self).nodes@[j] == (Node::Normal {
                        num,
                        use_of: prev,
                        inst,
                        is_def,
                    })))
                &&& forall|j: int|
                    #![trigger final(self).nodes@[j]]
                    0 <= j < old(self).nodes@.len() && (old(self).nodes@[j] matches Node::Normal {
                        use_of: Some(u),
                        ..
                    } ==> u != old_node) ==> final(self).nodes@[j] == old(self).nodes@[j]
                &&& forall|i: int|
                    #![trigger final(program).insts@[i]]
                    0 <= i < old(program).insts@.len() && !crate::middle::transform::load_elim::kind_uses(
                        old(program).insts@[i].kind,
                        owner,
                    ) ==> final(program).insts@[i] == old(program).insts@[i]
                &&& forall|i: int|
                    #![trigger final(program).insts@[i]]
                    0 <= i < old(program).insts@.len()
                        && crate::middle::transform::load_elim::ret_uses(
                        old(program).insts@[i].kind,
                        owner,
                    ) && crate::middle::transform::load_elim::operand_copyable(*new_operand)
                        ==> crate::middle::transform::load_elim::ret_carries(
                        final(program).insts@[i].kind,
                        *new_operand,
                    )
                &&& crate::middle::transform::load_elim::appears_at_most_once(
                    *old(program),
                    owner,
                ) ==> !crate::middle::transform::load_elim::appears_somewhere(
                    *final(program),
                    owner,
                )
            },
    {
        let owner: usize;
        let prev: Option<usize>;
        match &self.nodes[old_node] {
            Node::Normal { inst, use_of, .. } => {
                owner = *inst;
                prev = *use_of;
            },
            _ => {
                return ;
            },
        }
        // Re-link every dependent node to the replaced node's own reaching
        // definition.
        let n_nodes: usize = self.nodes.len();
        let mut j: usize = 0;
        while j < n_nodes
            invariant
                n_nodes == self.nodes@.len(),
                self.nodes@.len() == old(self).nodes@.len(),
                j <= n_nodes,
                old_node < old(self).nodes@.len(),
                old(self).nodes@[old_node as int] matches Node::Normal { inst: ow, use_of: pv, .. }
                    && ow == owner && pv == prev,
                self.inst_node == old(self).inst_node,
                forall|x: int|
                    #![trigger self.nodes@[x]]
                    0 <= x < j ==> (old(self).nodes@[x] matches Node::Normal {
                        num,
                        use_of: Some(u),
                        inst,
                        is_def,
                    } ==> (u == old_node ==> self.nodes@[x] == (Node::Normal {
                        num,
                        use_of: prev,
                        inst,
                        is_def,
                    }))),
                forall|x: int|
                    #![trigger self.nodes@[x]]
                    0 <= x < j && (old(self).nodes@[x] matches Node::Normal {
                        use_of: Some(u),
                        ..
                    } ==> u != old_node) ==> self.nodes@[x] == old(self).nodes@[x],
                forall|x: int|
                    #![trigger self.nodes@[x]]
                    j <= x < n_nodes ==> self.nodes@[x] == old(self).nodes@[x],
            decreases n_nodes - j,
        {
            let needs: bool = match &self.nodes[j] {
                Node::Normal { use_of: Some(u), .. } => *u == old_node,
                _ => false,
            };
            if needs {
                let replacement: Node = match &self.nodes[j] {
                    Node::Normal { num, inst, is_def, .. } => Node::Normal {
                        num: *num,
                        use_of: prev,
                        inst: *inst,
                        is_def: *is_def,
                    },
                    _ => Node::Entry { num: 0 },
                };
                self.nodes[j] = replacement;
            }
            j = j + 1;
        }
        proof {
            if nodes_dense(old(self).nodes@) {
                assert forall|k: int| 0 <= k < self.nodes@.len() implies node_num(
                    #[trigger] self.nodes@[k],
                ) == k by {
                    assert(node_num(old(self).nodes@[k]) == k);
                }
            }
        }
        crate::middle::transform::load_elim::replace_uses(program, owner, new_operand);
        crate::middle::transform::load_elim::remove_target_from_blocks(program, owner);
        self.inst_node.remove(owner);
    }
}

} // verus!
