//! The buffs that are active, as the rules read them.

use std::collections::HashMap;
use vstd::prelude::*;

verus! {

broadcast use vstd::std_specs::hash::group_hash_axioms;

/// One buff on one fighter.
#[derive(Clone, Copy, PartialEq, Eq, Structural, Debug)]
pub struct BuffInstance {
    pub uid: i64,
    pub buff_id: i32,
    pub type_id: i32,
    pub from_uid: i64,
    pub from_skill_id: i32,
    pub stacks: i32,
    pub layer: i32,
    pub duration: i32,
}

/// The buffs of every fighter, in the order in which they came.
#[derive(Debug)]
pub struct BuffMgr {
    pub active_buff: HashMap<i64, Vec<BuffInstance>>,
}

impl BuffMgr {
    /// The buffs of one fighter; none if the fighter is unknown.
    pub open spec fn of(self, uid: i64) -> Seq<BuffInstance> {
        if self.active_buff@.contains_key(uid) {
            self.active_buff@[uid]@
        } else {
            Seq::empty()
        }
    }

    /// No buffs at all.
    pub fn new() -> (r: BuffMgr)
        ensures
            forall|uid: i64| #[trigger] r.of(uid).len() == 0,
    {
        BuffMgr { active_buff: HashMap::new() }
    }

    /// Sets the buffs of one fighter.
    pub fn set(&mut self, uid: i64, buffs: Vec<BuffInstance>)
        ensures
            final(self).of(uid) == buffs@,
            forall|other: i64| other != uid ==> #[trigger] final(self).of(other) == old(self).of(other),
    {
        self.active_buff.insert(uid, buffs);
    }

    /// The buffs of one fighter.
    pub fn get(&self, uid: i64) -> (r: Vec<BuffInstance>)
        ensures
            r@ == self.of(uid),
    {
        match self.active_buff.get(&uid) {
            Some(v) => copy_buffs(v),
            None => Vec::new(),
        }
    }
}

/// A copy of a list of buffs.
pub fn copy_buffs(v: &Vec<BuffInstance>) -> (r: Vec<BuffInstance>)
    ensures
        r@ == v@,
{
    let mut r: Vec<BuffInstance> = Vec::new();
    for i in 0..v.len()
        invariant
            r@ == v@.take(i as int),
    {
        r.push(v[i]);
        assert(v@.take(i + 1) =~= v@.take(i as int).push(v@[i as int]));
    }
    assert(v@.take(v@.len() as int) =~= v@);
    r
}

/// Whether a list holds a buff of an id.
pub open spec fn holds(s: Seq<BuffInstance>, buff_id: i32) -> bool {
    exists|i: int| 0 <= i < s.len() && (#[trigger] s[i]).buff_id == buff_id
}

/// Looks for a buff of an id.
pub fn has_buff(v: &Vec<BuffInstance>, buff_id: i32) -> (r: bool)
    ensures
        r == holds(v@, buff_id),
{
    for i in 0..v.len()
        invariant
            forall|k: int| 0 <= k < i ==> (#[trigger] v@[k]).buff_id != buff_id,
    {
        if v[i].buff_id == buff_id {
            return true;
        }
    }
    false
}

/// The first buff of an id.
pub open spec fn first_buff(s: Seq<BuffInstance>, buff_id: i32) -> Option<BuffInstance>
    decreases s.len(),
{
    if s.len() == 0 {
        None
    } else if s[0].buff_id == buff_id {
        Some(s[0])
    } else {
        first_buff(s.skip(1), buff_id)
    }
}

/// Finds the first buff of an id.
pub fn find_buff(v: &Vec<BuffInstance>, buff_id: i32) -> (r: Option<BuffInstance>)
    ensures
        r == first_buff(v@, buff_id),
{
    let mut i: usize = 0;
    assert(v@.skip(0) =~= v@);
    while i < v.len()
        invariant
            i <= v.len(),
            first_buff(v@.skip(i as int), buff_id) == first_buff(v@, buff_id),
        decreases v.len() - i,
    {
        if v[i].buff_id == buff_id {
            return Some(v[i]);
        }
        assert(v@.skip(i as int).skip(1) =~= v@.skip(i + 1));
        i += 1;
    }
    None
}

} // verus!
