//! The passive skills of fighters, as skill effects.

use crate::config::{row_at, SkillEffectRow};
use crate::effect::condition::OtherHooks;
use crate::effect::parser::{first_twenty, parse, slots_in};
use crate::effect::slot::{SkillEffect, SkillEffectView};
use crate::manager::entity_mgr::on_field;
use crate::model::{entities_view, EntityView, Fight, FightEntityInfo};
use std::collections::hash_map::Entry;
use std::collections::HashMap;
use vstd::prelude::*;

verus! {

broadcast use vstd::std_specs::hash::group_hash_axioms;

/// What skill effects are read from: the skill table, the conditions that exist,
/// and the moments that are decided elsewhere.
#[derive(Debug)]
pub struct EffectTables {
    pub rows: Vec<SkillEffectRow>,
    pub known: Vec<i32>,
    pub elsewhere: OtherHooks,
}

/// The effect of a skill for its owner.
pub open spec fn effect_in(t: EffectTables, effect_id: i32, owner_uid: i64) -> Option<
    SkillEffectView,
> {
    match row_at(t.rows@, effect_id) {
        Some(row) => Some(
            SkillEffectView {
                owner_uid,
                slots: slots_in(first_twenty(row.slots@), t.known@, t.elsewhere),
            },
        ),
        None => None,
    }
}

/// The effects of a list, each by its view.
pub open spec fn skill_effects_view(v: Seq<SkillEffect>) -> Seq<SkillEffectView> {
    Seq::new(v.len(), |i: int| v[i]@)
}

/// The effects of some skills; skills without a row have none.
pub open spec fn effects_of(t: EffectTables, skills: Seq<i32>, owner_uid: i64) -> Seq<
    SkillEffectView,
>
    decreases skills.len(),
{
    if skills.len() == 0 {
        Seq::empty()
    } else {
        let before = effects_of(t, skills.drop_last(), owner_uid);
        match effect_in(t, skills.last(), owner_uid) {
            Some(e) => before.push(e),
            None => before,
        }
    }
}

fn read_effects(t: &EffectTables, skills: &Vec<i32>, owner_uid: i64) -> (r: Vec<SkillEffect>)
    ensures
        skill_effects_view(r@) == effects_of(*t, skills@, owner_uid),
{
    let mut out: Vec<SkillEffect> = Vec::new();
    assert(skill_effects_view(out@) =~= effects_of(*t, skills@.take(0), owner_uid));
    for i in 0..skills.len()
        invariant
            skill_effects_view(out@) == effects_of(*t, skills@.take(i as int), owner_uid),
    {
        assert(skills@.take(i + 1).drop_last() =~= skills@.take(i as int));
        let ghost before = skill_effects_view(out@);
        if let Some(e) = parse(&t.rows, skills[i], owner_uid, &t.known, t.elsewhere) {
            out.push(e);
            assert(skill_effects_view(out@) =~= before.push(e@));
        }
    }
    assert(skills@.take(skills@.len() as int) =~= skills@);
    out
}

/// The passive skills of each fighter.
#[derive(Debug)]
pub struct PassiveMgr {
    pub map: HashMap<i64, Vec<SkillEffect>>,
}

impl View for PassiveMgr {
    type V = Map<i64, Seq<SkillEffectView>>;

    open spec fn view(&self) -> Map<i64, Seq<SkillEffectView>> {
        Map::new(
            |uid: i64| self.map@.contains_key(uid),
            |uid: i64| skill_effects_view(self.map@[uid]@),
        )
    }
}

/// The passives after those of a fighter are loaded. A fighter without an id or
/// without effects changes nothing.
pub open spec fn loaded(
    m: Map<i64, Seq<SkillEffectView>>,
    e: EntityView,
    t: EffectTables,
) -> Map<i64, Seq<SkillEffectView>> {
    match e.uid {
        Some(uid) => {
            let effects = effects_of(t, e.passive_skill, uid);
            if effects.len() > 0 {
                m.insert(uid, effects)
            } else {
                m
            }
        },
        None => m,
    }
}

/// The passives after those of some fighters are loaded.
pub open spec fn all_loaded(
    m: Map<i64, Seq<SkillEffectView>>,
    s: Seq<EntityView>,
    t: EffectTables,
) -> Map<i64, Seq<SkillEffectView>>
    decreases s.len(),
{
    if s.len() == 0 {
        m
    } else {
        loaded(all_loaded(m, s.drop_last(), t), s.last(), t)
    }
}

impl PassiveMgr {
    /// No passives.
    pub fn empty() -> (r: PassiveMgr)
        ensures
            r@ == Map::<i64, Seq<SkillEffectView>>::empty(),
    {
        let r = PassiveMgr { map: HashMap::new() };
        assert(r@ =~= Map::<i64, Seq<SkillEffectView>>::empty());
        r
    }

    /// The passives of everyone on the field.
    pub fn new(fight: &Fight, tables: &EffectTables) -> (r: PassiveMgr)
        ensures
            r@ == all_loaded(
                all_loaded(Map::empty(), on_field(fight@.attacker), *tables),
                on_field(fight@.defender),
                *tables,
            ),
    {
        let mut mgr = PassiveMgr::empty();
        if let Some(t) = &fight.attacker {
            mgr.seed_entities(&t.entitys, tables);
        }
        if let Some(t) = &fight.defender {
            mgr.seed_entities(&t.entitys, tables);
        }
        mgr
    }

    /// Loads the passives of some fighters.
    pub fn seed_entities(&mut self, team: &Vec<FightEntityInfo>, tables: &EffectTables)
        ensures
            final(self)@ == all_loaded(old(self)@, entities_view(team@), *tables),
    {
        let ghost start = self@;
        let ghost s = entities_view(team@);
        assert(s.take(0).len() == 0);
        for i in 0..team.len()
            invariant
                s == entities_view(team@),
                self@ == all_loaded(start, s.take(i as int), *tables),
        {
            assert(s.take(i + 1).drop_last() =~= s.take(i as int));
            assert(s.take(i + 1).last() == team@[i as int]@);
            self.seed_entity(&team[i], tables);
        }
        assert(s.take(s.len() as int) =~= s);
    }

    /// Loads the passives of a fighter.
    pub fn seed_entity(&mut self, entity: &FightEntityInfo, tables: &EffectTables)
        ensures
            final(self)@ == loaded(old(self)@, entity@, *tables),
    {
        if let Some(uid) = entity.uid {
            let effects = read_effects(tables, &entity.passive_skill, uid);
            assert(skill_effects_view(effects@).len() == effects@.len());
            if effects.len() > 0 {
                self.map.insert(uid, effects);
                assert(self@ =~= old(self)@.insert(uid, skill_effects_view(effects@)));
            }
        }
    }

    /// The passives of a fighter; nothing where none are loaded.
    pub fn get(&self, uid: i64) -> (r: Option<&Vec<SkillEffect>>)
        ensures
            match r {
                Some(v) => self@.contains_key(uid) && skill_effects_view(v@) == self@[uid],
                None => !self@.contains_key(uid),
            },
    {
        self.map.get(&uid)
    }

    /// The passives of a fighter, to be changed.
    pub fn get_mut(&mut self, uid: i64) -> (r: Option<&mut Vec<SkillEffect>>)
        ensures
            match r {
                Some(v) => old(self)@.contains_key(uid) && skill_effects_view(v@) == old(self)@[uid]
                    && final(self).map@ == old(self).map@.insert(uid, *final(v)),
                None => !old(self)@.contains_key(uid) && final(self).map@ == old(self).map@,
            },
    {
        if !self.map.contains_key(&uid) {
            return None;
        }
        match self.map.entry(uid) {
            Entry::Occupied(o) => Some(o.into_mut()),
            Entry::Vacant(_) => None,
        }
    }
}

} // verus!
