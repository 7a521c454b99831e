//! The skill effects that are active for the time of a skill.

use crate::effect::slot::SkillEffect;
use std::collections::HashMap;
use vstd::prelude::*;

verus! {

broadcast use vstd::std_specs::hash::group_hash_axioms;

/// Active effects, each group under an index of its own.
#[derive(Debug)]
pub struct ActiveEffectMgr {
    /// The index that the next group gets.
    pub next_idx: usize,
    pub map: HashMap<usize, Vec<SkillEffect>>,
    /// The one group that takes part in the current round of hooks.
    pub active_idx: Option<usize>,
}

impl ActiveEffectMgr {
    /// No group has an index that is still to be given out.
    pub open spec fn wf(self) -> bool {
        forall|i: usize| #[trigger] self.map@.contains_key(i) ==> i < self.next_idx
    }

    /// Adds a group and returns its index.
    pub fn push(&mut self, effects: Vec<SkillEffect>) -> (r: usize)
        requires
            old(self).next_idx < usize::MAX,
        ensures
            r == old(self).next_idx,
            final(self).next_idx == old(self).next_idx + 1,
            final(self).map@ == old(self).map@.insert(r, effects),
            final(self).active_idx == old(self).active_idx,
            old(self).wf() ==> final(self).wf() && !old(self).map@.contains_key(r),
    {
        let idx = self.next_idx;
        self.next_idx = self.next_idx + 1;
        self.map.insert(idx, effects);
        idx
    }

    /// Removes a group; nothing happens where there is none.
    pub fn void(&mut self, idx: usize)
        ensures
            final(self).next_idx == old(self).next_idx,
            final(self).map@ == old(self).map@.remove(idx),
            final(self).active_idx == old(self).active_idx,
            old(self).wf() ==> final(self).wf(),
    {
        self.map.remove(&idx);
    }
}

impl Default for ActiveEffectMgr {
    fn default() -> (r: ActiveEffectMgr)
        ensures
            r.next_idx == 0,
            r.map@ == Map::<usize, Vec<SkillEffect>>::empty(),
            r.active_idx is None,
            r.wf(),
    {
        ActiveEffectMgr { next_idx: 0, map: HashMap::new(), active_idx: None }
    }
}

/// A group that is added and removed again leaves the groups as they were.
pub proof fn push_then_void(before: ActiveEffectMgr, effects: Vec<SkillEffect>)
    requires
        before.wf(),
    ensures
        before.map@.insert(before.next_idx, effects).remove(before.next_idx) == before.map@,
{
    assert(!before.map@.contains_key(before.next_idx));
    assert(before.map@.insert(before.next_idx, effects).remove(before.next_idx) =~= before.map@);
}

} // verus!
