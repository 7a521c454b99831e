//! The rules of a battle, as skill effects of each fighter.

use crate::effect::parser::parse;
use crate::effect::slot::{SkillEffect, SkillEffectView};
use crate::manager::entity_mgr::on_field;
use crate::manager::passive_mgr::{effect_in, skill_effects_view, EffectTables};
use crate::manager::traits::Manager;
use crate::model::{entities_view, EntityView, Fight, FightEntityInfo};
use vstd::prelude::*;

verus! {

/// Whether a rule applies to a fighter: one for attackers, two for defenders, any
/// other for everyone.
pub open spec fn rule_applies(prefix: i32, uid: i64) -> bool {
    if prefix == 1 {
        uid >= 0
    } else if prefix == 2 {
        uid < 0
    } else {
        true
    }
}

/// The effects of the rules that apply to a fighter.
pub open spec fn rule_effects(t: EffectTables, rules: Seq<(i32, i32)>, uid: i64) -> Seq<
    SkillEffectView,
>
    decreases rules.len(),
{
    if rules.len() == 0 {
        Seq::empty()
    } else {
        let before = rule_effects(t, rules.drop_last(), uid);
        if rule_applies(rules.last().0, uid) && effect_in(t, rules.last().1, uid) is Some {
            before.push(effect_in(t, rules.last().1, uid)->0)
        } else {
            before
        }
    }
}

/// The rules of a battle, as effects on behalf of each fighter.
#[derive(Debug)]
pub struct RuleMgr {
    pub effects: Vec<SkillEffect>,
}

/// The effects of the rules for everyone of a row that has an id.
pub open spec fn team_rule_effects(
    t: EffectTables,
    rules: Seq<(i32, i32)>,
    team: Seq<EntityView>,
) -> Seq<SkillEffectView>
    decreases team.len(),
{
    if team.len() == 0 {
        Seq::empty()
    } else {
        team_rule_effects(t, rules, team.drop_last()) + match team.last().uid {
            Some(uid) => rule_effects(t, rules, uid),
            None => Seq::empty(),
        }
    }
}

impl RuleMgr {
    /// The rules of a battle for everyone on the field, attackers first.
    pub fn new(fight: &Fight, rules: &Vec<(i32, i32)>, tables: &EffectTables) -> (r: RuleMgr)
        ensures
            skill_effects_view(r.effects@) == team_rule_effects(
                *tables,
                rules@,
                on_field(fight@.attacker),
            ) + team_rule_effects(*tables, rules@, on_field(fight@.defender)),
    {
        let mut mgr = RuleMgr { effects: Vec::new() };
        assert(skill_effects_view(mgr.effects@) =~= Seq::empty());
        if let Some(t) = &fight.attacker {
            mgr.seed_team(&t.entitys, rules, tables);
        }
        assert(skill_effects_view(mgr.effects@) =~= team_rule_effects(
            *tables,
            rules@,
            on_field(fight@.attacker),
        ));
        if let Some(t) = &fight.defender {
            mgr.seed_team(&t.entitys, rules, tables);
        }
        assert(skill_effects_view(mgr.effects@) =~= team_rule_effects(
            *tables,
            rules@,
            on_field(fight@.attacker),
        ) + team_rule_effects(*tables, rules@, on_field(fight@.defender)));
        mgr
    }

    /// Adds the rules that apply to each of some fighters.
    pub fn seed_team(
        &mut self,
        team: &Vec<FightEntityInfo>,
        rules: &Vec<(i32, i32)>,
        tables: &EffectTables,
    )
        ensures
            skill_effects_view(final(self).effects@) == skill_effects_view(old(self).effects@)
                + team_rule_effects(*tables, rules@, entities_view(team@)),
    {
        let ghost start = skill_effects_view(self.effects@);
        let ghost s = entities_view(team@);
        assert(start + team_rule_effects(*tables, rules@, s.take(0)) =~= start);
        for i in 0..team.len()
            invariant
                s == entities_view(team@),
                skill_effects_view(self.effects@) == start + team_rule_effects(
                    *tables,
                    rules@,
                    s.take(i as int),
                ),
        {
            assert(s.take(i + 1).drop_last() =~= s.take(i as int));
            assert(s.take(i + 1).last() == team@[i as int]@);
            if let Some(uid) = team[i].uid {
                self.seed_entity_uid(uid, rules, tables);
            }
            assert(skill_effects_view(self.effects@) =~= start + team_rule_effects(
                *tables,
                rules@,
                s.take(i + 1),
            ));
        }
        assert(s.take(s.len() as int) =~= s);
    }

    /// Adds the rules that apply to a fighter.
    pub fn seed_entity_uid(
        &mut self,
        uid: i64,
        rules: &Vec<(i32, i32)>,
        tables: &EffectTables,
    )
        ensures
            skill_effects_view(final(self).effects@) == skill_effects_view(old(self).effects@)
                + rule_effects(*tables, rules@, uid),
    {
        let ghost start = skill_effects_view(self.effects@);
        assert(start + rule_effects(*tables, rules@.take(0), uid) =~= start);
        for i in 0..rules.len()
            invariant
                skill_effects_view(self.effects@) == start + rule_effects(
                    *tables,
                    rules@.take(i as int),
                    uid,
                ),
        {
            assert(rules@.take(i + 1).drop_last() =~= rules@.take(i as int));
            assert(rules@.take(i + 1).last() == rules@[i as int]);
            let ghost before = skill_effects_view(self.effects@);
            let (prefix, effect_id) = rules[i];
            let applies: bool = match prefix {
                1 => uid >= 0,
                2 => uid < 0,
                _ => true,
            };
            if applies {
                if let Some(e) = parse(
                    &tables.rows,
                    effect_id,
                    uid,
                    &tables.known,
                    tables.elsewhere,
                ) {
                    self.effects.push(e);
                    assert(skill_effects_view(self.effects@) =~= before.push(e@));
                }
            }
            assert(skill_effects_view(self.effects@) =~= start + rule_effects(
                *tables,
                rules@.take(i + 1),
                uid,
            ));
        }
        assert(rules@.take(rules@.len() as int) =~= rules@);
    }
}

impl Manager for RuleMgr {

}

} // verus!
