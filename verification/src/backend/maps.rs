//! Small association maps used by the lowering: bindings from mid-level
//! values to registers and stack slots, per-name byte counts, and the
//! float-literal pool. Lookups are last-insert-wins, so the view is a plain
//! `Map` built by successive inserts.

use vstd::prelude::*;

use crate::backend::reg::Reg;
use crate::backend::stack::StackSlot;

verus! {

/// Identity of a mid-level value that can be bound to a register: a formal
/// parameter or an instruction, by index.
#[derive(Debug, Clone, Copy, PartialEq, Eq, Structural)]
pub enum ValueKey {
    Param(usize),
    Inst(usize),
}

/// A float-literal pool entry.
#[derive(Debug, PartialEq)]
pub struct FloatVar {
    pub name: String,
    /// Bit pattern of the IEEE-754 double initializer, if any.
    pub init: Option<u64>,
    pub is_const: bool,
}

/// Bindings from mid-level values to registers.
pub struct RegMap {
    pub entries: Vec<(ValueKey, Reg)>,
}

impl RegMap {
    pub open spec fn view_map(&self) -> Map<ValueKey, Reg>
        decreases self.entries@.len(),
    {
        map_of_reg_entries(self.entries@)
    }

    pub fn new() -> (r: RegMap)
        ensures
            r.view_map() == Map::<ValueKey, Reg>::empty(),
    {
        RegMap { entries: Vec::new() }
    }

    pub fn insert(&mut self, k: ValueKey, v: Reg)
        ensures
            final(self).view_map() == old(self).view_map().insert(k, v),
    {
        self.entries.push((k, v));
        proof {
            assert(self.entries@.drop_last() =~= old(self).entries@);
        }
    }

    pub fn get(&self, k: ValueKey) -> (r: Option<Reg>)
        ensures
            r == if self.view_map().contains_key(k) {
                Some(self.view_map()[k])
            } else {
                None::<Reg>
            },
    {
        let mut j: usize = self.entries.len();
        proof {
            assert(self.entries@.take(j as int) =~= self.entries@);
        }
        while j > 0
            invariant
                j <= self.entries@.len(),
                map_of_reg_entries(self.entries@).contains_key(k) == map_of_reg_entries(
                    self.entries@.take(j as int),
                ).contains_key(k),
                map_of_reg_entries(self.entries@.take(j as int)).contains_key(k)
                    ==> map_of_reg_entries(self.entries@)[k] == map_of_reg_entries(
                    self.entries@.take(j as int),
                )[k],
            decreases j,
        {
            proof {
                assert(self.entries@.take(j as int).drop_last() =~= self.entries@.take(j - 1));
                assert(self.entries@.take(j as int).last() == self.entries@[j - 1]);
            }
            if self.entries[j - 1].0 == k {
                return Some(self.entries[j - 1].1);
            }
            j = j - 1;
        }
        proof {
            assert(self.entries@.take(0) =~= Seq::<(ValueKey, Reg)>::empty());
        }
        None
    }
}

/// The map described by a run of inserts, first entry first.
pub open spec fn map_of_reg_entries(s: Seq<(ValueKey, Reg)>) -> Map<ValueKey, Reg>
    decreases s.len(),
{
    if s.len() == 0 {
        Map::empty()
    } else {
        map_of_reg_entries(s.drop_last()).insert(s.last().0, s.last().1)
    }
}

/// Bindings from alloca instructions to stack slots.
pub struct SlotMap {
    pub entries: Vec<(usize, StackSlot)>,
}

pub open spec fn map_of_slot_entries(s: Seq<(usize, StackSlot)>) -> Map<usize, StackSlot>
    decreases s.len(),
{
    if s.len() == 0 {
        Map::empty()
    } else {
        map_of_slot_entries(s.drop_last()).insert(s.last().0, s.last().1)
    }
}

impl SlotMap {
    pub open spec fn view_map(&self) -> Map<usize, StackSlot> {
        map_of_slot_entries(self.entries@)
    }

    pub fn new() -> (r: SlotMap)
        ensures
            r.view_map() == Map::<usize, StackSlot>::empty(),
    {
        SlotMap { entries: Vec::new() }
    }

    pub fn insert(&mut self, k: usize, v: StackSlot)
        ensures
            final(self).view_map() == old(self).view_map().insert(k, v),
    {
        self.entries.push((k, v));
        proof {
            assert(self.entries@.drop_last() =~= old(self).entries@);
        }
    }

    pub fn get(&self, k: usize) -> (r: Option<StackSlot>)
        ensures
            r == if self.view_map().contains_key(k) {
                Some(self.view_map()[k])
            } else {
                None::<StackSlot>
            },
    {
        let mut j: usize = self.entries.len();
        proof {
            assert(self.entries@.take(j as int) =~= self.entries@);
        }
        while j > 0
            invariant
                j <= self.entries@.len(),
                map_of_slot_entries(self.entries@).contains_key(k) == map_of_slot_entries(
                    self.entries@.take(j as int),
                ).contains_key(k),
                map_of_slot_entries(self.entries@.take(j as int)).contains_key(k)
                    ==> map_of_slot_entries(self.entries@)[k] == map_of_slot_entries(
                    self.entries@.take(j as int),
                )[k],
            decreases j,
        {
            proof {
                assert(self.entries@.take(j as int).drop_last() =~= self.entries@.take(j - 1));
                assert(self.entries@.take(j as int).last() == self.entries@[j - 1]);
            }
            if self.entries[j - 1].0 == k {
                return Some(self.entries[j - 1].1);
            }
            j = j - 1;
        }
        proof {
            assert(self.entries@.take(0) =~= Seq::<(usize, StackSlot)>::empty());
        }
        None
    }
}

/// Per-function byte counts, keyed by function name.
pub struct NameU32Map {
    pub entries: Vec<(String, u32)>,
}

pub open spec fn map_of_name_entries(s: Seq<(String, u32)>) -> Map<Seq<char>, u32>
    decreases s.len(),
{
    if s.len() == 0 {
        Map::empty()
    } else {
        map_of_name_entries(s.drop_last()).insert(s.last().0@, s.last().1)
    }
}

impl NameU32Map {
    pub open spec fn view_map(&self) -> Map<Seq<char>, u32> {
        map_of_name_entries(self.entries@)
    }

    pub fn new() -> (r: NameU32Map)
        ensures
            r.view_map() == Map::<Seq<char>, u32>::empty(),
    {
        NameU32Map { entries: Vec::new() }
    }

    pub fn insert(&mut self, k: String, v: u32)
        ensures
            final(self).view_map() == old(self).view_map().insert(k@, v),
    {
        self.entries.push((k, v));
        proof {
            assert(self.entries@.drop_last() =~= old(self).entries@);
        }
    }

    pub fn get(&self, k: &String) -> (r: Option<u32>)
        ensures
            r == if self.view_map().contains_key(k@) {
                Some(self.view_map()[k@])
            } else {
                None::<u32>
            },
    {
        let mut j: usize = self.entries.len();
        proof {
            assert(self.entries@.take(j as int) =~= self.entries@);
        }
        while j > 0
            invariant
                j <= self.entries@.len(),
                map_of_name_entries(self.entries@).contains_key(k@) == map_of_name_entries(
                    self.entries@.take(j as int),
                ).contains_key(k@),
                map_of_name_entries(self.entries@.take(j as int)).contains_key(k@)
                    ==> map_of_name_entries(self.entries@)[k@] == map_of_name_entries(
                    self.entries@.take(j as int),
                )[k@],
            decreases j,
        {
            proof {
                assert(self.entries@.take(j as int).drop_last() =~= self.entries@.take(j - 1));
                assert(self.entries@.take(j as int).last() == self.entries@[j - 1]);
            }
            if self.entries[j - 1].0 == *k {
                return Some(self.entries[j - 1].1);
            }
            j = j - 1;
        }
        proof {
            assert(self.entries@.take(0) =~= Seq::<(String, u32)>::empty());
        }
        None
    }
}

/// Slot-to-slot rewriting used by stack reallocation.
pub struct SlotSlotMap {
    pub entries: Vec<(StackSlot, StackSlot)>,
}

pub open spec fn map_of_ss_entries(s: Seq<(StackSlot, StackSlot)>) -> Map<StackSlot, StackSlot>
    decreases s.len(),
{
    if s.len() == 0 {
        Map::empty()
    } else {
        map_of_ss_entries(s.drop_last()).insert(s.last().0, s.last().1)
    }
}

impl SlotSlotMap {
    pub open spec fn view_map(&self) -> Map<StackSlot, StackSlot> {
        map_of_ss_entries(self.entries@)
    }

    pub fn new() -> (r: SlotSlotMap)
        ensures
            r.view_map() == Map::<StackSlot, StackSlot>::empty(),
    {
        SlotSlotMap { entries: Vec::new() }
    }

    pub fn insert(&mut self, k: StackSlot, v: StackSlot)
        ensures
            final(self).view_map() == old(self).view_map().insert(k, v),
    {
        self.entries.push((k, v));
        proof {
            assert(self.entries@.drop_last() =~= old(self).entries@);
        }
    }

    pub fn get(&self, k: StackSlot) -> (r: Option<StackSlot>)
        ensures
            r == if self.view_map().contains_key(k) {
                Some(self.view_map()[k])
            } else {
                None::<StackSlot>
            },
    {
        let mut j: usize = self.entries.len();
        proof {
            assert(self.entries@.take(j as int) =~= self.entries@);
        }
        while j > 0
            invariant
                j <= self.entries@.len(),
                map_of_ss_entries(self.entries@).contains_key(k) == map_of_ss_entries(
                    self.entries@.take(j as int),
                ).contains_key(k),
                map_of_ss_entries(self.entries@.take(j as int)).contains_key(k)
                    ==> map_of_ss_entries(self.entries@)[k] == map_of_ss_entries(
                    self.entries@.take(j as int),
                )[k],
            decreases j,
        {
            proof {
                assert(self.entries@.take(j as int).drop_last() =~= self.entries@.take(j - 1));
                assert(self.entries@.take(j as int).last() == self.entries@[j - 1]);
            }
            if self.entries[j - 1].0 == k {
                return Some(self.entries[j - 1].1);
            }
            j = j - 1;
        }
        proof {
            assert(self.entries@.take(0) =~= Seq::<(StackSlot, StackSlot)>::empty());
        }
        None
    }
}

/// Per-slot touch counts used by stack reallocation.
pub struct SlotCountMap {
    pub entries: Vec<(StackSlot, u64)>,
}

pub open spec fn map_of_count_entries(s: Seq<(StackSlot, u64)>) -> Map<StackSlot, u64>
    decreases s.len(),
{
    if s.len() == 0 {
        Map::empty()
    } else {
        map_of_count_entries(s.drop_last()).insert(s.last().0, s.last().1)
    }
}

impl SlotCountMap {
    pub open spec fn view_map(&self) -> Map<StackSlot, u64> {
        map_of_count_entries(self.entries@)
    }

    pub fn new() -> (r: SlotCountMap)
        ensures
            r.view_map() == Map::<StackSlot, u64>::empty(),
    {
        SlotCountMap { entries: Vec::new() }
    }

    pub fn insert(&mut self, k: StackSlot, v: u64)
        ensures
            final(self).view_map() == old(self).view_map().insert(k, v),
    {
        self.entries.push((k, v));
        proof {
            assert(self.entries@.drop_last() =~= old(self).entries@);
        }
    }

    pub fn get(&self, k: StackSlot) -> (r: Option<u64>)
        ensures
            r == if self.view_map().contains_key(k) {
                Some(self.view_map()[k])
            } else {
                None::<u64>
            },
    {
        let mut j: usize = self.entries.len();
        proof {
            assert(self.entries@.take(j as int) =~= self.entries@);
        }
        while j > 0
            invariant
                j <= self.entries@.len(),
                map_of_count_entries(self.entries@).contains_key(k) == map_of_count_entries(
                    self.entries@.take(j as int),
                ).contains_key(k),
                map_of_count_entries(self.entries@.take(j as int)).contains_key(k)
                    ==> map_of_count_entries(self.entries@)[k] == map_of_count_entries(
                    self.entries@.take(j as int),
                )[k],
            decreases j,
        {
            proof {
                assert(self.entries@.take(j as int).drop_last() =~= self.entries@.take(j - 1));
                assert(self.entries@.take(j as int).last() == self.entries@[j - 1]);
            }
            if self.entries[j - 1].0 == k {
                return Some(self.entries[j - 1].1);
            }
            j = j - 1;
        }
        proof {
            assert(self.entries@.take(0) =~= Seq::<(StackSlot, u64)>::empty());
        }
        None
    }
}

/// The float-literal pool: double bit patterns to their pool entries.
pub struct FmmMap {
    pub entries: Vec<(u64, FloatVar)>,
}

pub open spec fn map_of_fmm_entries(s: Seq<(u64, FloatVar)>) -> Map<u64, FloatVar>
    decreases s.len(),
{
    if s.len() == 0 {
        Map::empty()
    } else {
        map_of_fmm_entries(s.drop_last()).insert(s.last().0, s.last().1)
    }
}

/// A well-formed float-literal pool: one entry per bit pattern, each named
/// `_fc_<lowercase-hex-bits>` and initialized to its own pattern.
pub open spec fn fmm_pool_wf(s: Seq<(u64, FloatVar)>) -> bool {
    &&& forall|i: int, j: int| 0 <= i < j < s.len() ==> (#[trigger] s[i]).0 != (#[trigger] s[j]).0
    &&& forall|i: int|
        0 <= i < s.len() ==> (#[trigger] s[i]).1.init == Some(s[i].0) && s[i].1.is_const && s[
            i
        ].1.name@ == "_fc_"@ + crate::textfmt::hex_chars(s[i].0 as nat)
}

/// A bit pattern is in the pool's map exactly when some entry carries it.
pub proof fn lemma_fmm_dom(s: Seq<(u64, FloatVar)>, k: u64)
    ensures
        map_of_fmm_entries(s).contains_key(k) <==> exists|i: int|
            0 <= i < s.len() && (#[trigger] s[i]).0 == k,
    decreases s.len(),
{
    if s.len() > 0 {
        lemma_fmm_dom(s.drop_last(), k);
        if s.last().0 == k {
            assert(s[s.len() - 1].0 == k);
        } else if map_of_fmm_entries(s).contains_key(k) {
            let i: int = choose|i: int| 0 <= i < s.drop_last().len() && (#[trigger] s.drop_last()[i]).0 == k;
            assert(s[i].0 == k);
        } else if exists|i: int| 0 <= i < s.len() && (#[trigger] s[i]).0 == k {
            let i: int = choose|i: int| 0 <= i < s.len() && (#[trigger] s[i]).0 == k;
            assert(s.drop_last()[i].0 == k);
        }
    }
}

/// Interning a pattern the pool does not hold yet keeps it well formed.
pub proof fn lemma_fmm_pool_wf_push(s: Seq<(u64, FloatVar)>, k: u64, v: FloatVar)
    requires
        fmm_pool_wf(s),
        !map_of_fmm_entries(s).contains_key(k),
        v.init == Some(k),
        v.is_const,
        v.name@ == "_fc_"@ + crate::textfmt::hex_chars(k as nat),
    ensures
        fmm_pool_wf(s.push((k, v))),
{
    lemma_fmm_dom(s, k);
    let t = s.push((k, v));
    assert forall|i: int, j: int| 0 <= i < j < t.len() implies (#[trigger] t[i]).0 != (
    #[trigger] t[j]).0 by {
        if j == t.len() - 1 {
            assert(t[i] == s[i]);
            if s[i].0 == k {
                assert(0 <= i < s.len() && s[i].0 == k);
                assert(false);
            }
        } else {
            assert(t[i] == s[i]);
            assert(t[j] == s[j]);
        }
    }
    assert forall|i: int| 0 <= i < t.len() implies (#[trigger] t[i]).1.init == Some(t[i].0) && t[
        i
    ].1.is_const && t[i].1.name@ == "_fc_"@ + crate::textfmt::hex_chars(t[i].0 as nat) by {
        if i < t.len() - 1 {
            assert(t[i] == s[i]);
        }
    }
}

impl FmmMap {
    pub open spec fn view_map(&self) -> Map<u64, FloatVar> {
        map_of_fmm_entries(self.entries@)
    }

    pub fn new() -> (r: FmmMap)
        ensures
            r.view_map() == Map::<u64, FloatVar>::empty(),
            r.entries@ == Seq::<(u64, FloatVar)>::empty(),
    {
        FmmMap { entries: Vec::new() }
    }

    pub fn insert(&mut self, k: u64, v: FloatVar)
        ensures
            final(self).view_map() == old(self).view_map().insert(k, v),
            final(self).entries@ == old(self).entries@.push((k, v)),
    {
        self.entries.push((k, v));
        proof {
            assert(self.entries@.drop_last() =~= old(self).entries@);
        }
    }

    /// The pool name bound to this bit pattern, if present.
    pub fn get_name(&self, k: u64) -> (r: Option<&String>)
        ensures
            match r {
                Some(name) => self.view_map().contains_key(k) && *name == self.view_map()[k].name,
                None => !self.view_map().contains_key(k),
            },
    {
        let mut j: usize = self.entries.len();
        proof {
            assert(self.entries@.take(j as int) =~= self.entries@);
        }
        while j > 0
            invariant
                j <= self.entries@.len(),
                map_of_fmm_entries(self.entries@).contains_key(k) == map_of_fmm_entries(
                    self.entries@.take(j as int),
                ).contains_key(k),
                map_of_fmm_entries(self.entries@.take(j as int)).contains_key(k)
                    ==> map_of_fmm_entries(self.entries@)[k] == map_of_fmm_entries(
                    self.entries@.take(j as int),
                )[k],
            decreases j,
        {
            proof {
                assert(self.entries@.take(j as int).drop_last() =~= self.entries@.take(j - 1));
                assert(self.entries@.take(j as int).last() == self.entries@[j - 1]);
            }
            if self.entries[j - 1].0 == k {
                return Some(&self.entries[j - 1].1.name);
            }
            j = j - 1;
        }
        proof {
            assert(self.entries@.take(0) =~= Seq::<(u64, FloatVar)>::empty());
        }
        None
    }

    pub fn entries(&self) -> (r: &Vec<(u64, FloatVar)>)
        ensures
            r == &self.entries,
    {
        &self.entries
    }
}

} // verus!

verus! {

/// Bindings from instruction identities to node identities.
pub struct UsizeMap {
    pub entries: Vec<(usize, usize)>,
}

pub open spec fn map_of_usize_entries(s: Seq<(usize, usize)>) -> Map<usize, usize>
    decreases s.len(),
{
    if s.len() == 0 {
        Map::empty()
    } else {
        map_of_usize_entries(s.drop_last()).insert(s.last().0, s.last().1)
    }
}

impl UsizeMap {
    pub open spec fn view_map(&self) -> Map<usize, usize> {
        map_of_usize_entries(self.entries@)
    }

    pub fn new() -> (r: UsizeMap)
        ensures
            r.view_map() == Map::<usize, usize>::empty(),
    {
        UsizeMap { entries: Vec::new() }
    }

    pub fn insert(&mut self, k: usize, v: usize)
        ensures
            final(self).view_map() == old(self).view_map().insert(k, v),
    {
        self.entries.push((k, v));
        proof {
            assert(self.entries@.drop_last() =~= old(self).entries@);
        }
    }

    pub fn get(&self, k: usize) -> (r: Option<usize>)
        ensures
            r == if self.view_map().contains_key(k) {
                Some(self.view_map()[k])
            } else {
                None::<usize>
            },
    {
        let mut j: usize = self.entries.len();
        proof {
            assert(self.entries@.take(j as int) =~= self.entries@);
        }
        while j > 0
            invariant
                j <= self.entries@.len(),
                map_of_usize_entries(self.entries@).contains_key(k) == map_of_usize_entries(
                    self.entries@.take(j as int),
                ).contains_key(k),
                map_of_usize_entries(self.entries@.take(j as int)).contains_key(k)
                    ==> map_of_usize_entries(self.entries@)[k] == map_of_usize_entries(
                    self.entries@.take(j as int),
                )[k],
            decreases j,
        {
            proof {
                assert(self.entries@.take(j as int).drop_last() =~= self.entries@.take(j - 1));
                assert(self.entries@.take(j as int).last() == self.entries@[j - 1]);
            }
            if self.entries[j - 1].0 == k {
                return Some(self.entries[j - 1].1);
            }
            j = j - 1;
        }
        proof {
            assert(self.entries@.take(0) =~= Seq::<(usize, usize)>::empty());
        }
        None
    }

    /// Drops every binding of `k`; everything else keeps its value.
    pub fn remove(&mut self, k: usize)
        ensures
            !final(self).view_map().contains_key(k),
            forall|k2: usize|
                #![trigger final(self).view_map().contains_key(k2)]
                #![trigger old(self).view_map().contains_key(k2)]
                k2 != k ==> (final(self).view_map().contains_key(k2) == old(self).view_map().contains_key(k2)) && (old(self).view_map().contains_key(k2) ==> final(self).view_map()[k2] == old(self).view_map()[k2]),
    {
        let n: usize = self.entries.len();
        let mut kept: Vec<(usize, usize)> = Vec::new();
        let mut i: usize = 0;
        while i < n
            invariant
                n == self.entries@.len(),
                i <= n,
                !map_of_usize_entries(kept@).contains_key(k),
                forall|k2: usize|
                    #![trigger map_of_usize_entries(kept@).contains_key(k2)]
                    #![trigger map_of_usize_entries(self.entries@.take(i as int)).contains_key(k2)]
                    k2 != k ==> (map_of_usize_entries(kept@).contains_key(k2)
                        == map_of_usize_entries(self.entries@.take(i as int)).contains_key(k2)) && (
                    map_of_usize_entries(self.entries@.take(i as int)).contains_key(k2)
                        ==> map_of_usize_entries(kept@)[k2] == map_of_usize_entries(
                        self.entries@.take(i as int),
                    )[k2]),
            decreases n - i,
        {
            let ghost kept0 = kept@;
            proof {
                assert(self.entries@.take(i as int + 1).drop_last() =~= self.entries@.take(
                    i as int,
                ));
                assert(self.entries@.take(i as int + 1).last() == self.entries@[i as int]);
            }
            let pair: (usize, usize) = self.entries[i];
            if pair.0 != k {
                kept.push(pair);
                proof {
                    assert(kept@.drop_last() =~= kept0);
                }
            }
            i = i + 1;
        }
        proof {
            assert(self.entries@.take(n as int) =~= self.entries@);
        }
        self.entries = kept;
    }
}

} // verus!
