//! Copies of the battle data, proved to show the same value.

use super::{
    effect_view, effects_view, entities_view, step_view, text_view, ActEffect, BuffActInfo,
    BuffInfo, CardInfo, Fight, FightEntityInfo, FightStep, FightTaskBox, FightTeam, PowerInfo,
};
use vstd::prelude::*;

verus! {

/// A copy of a list of numbers.
pub fn copy_numbers(v: &Vec<i32>) -> (r: Vec<i32>)
    ensures
        r@ == v@,
{
    let mut r: Vec<i32> = Vec::new();
    for i in 0..v.len()
        invariant
            r@ == v@.take(i as int),
    {
        r.push(v[i]);
        assert(v@.take(i + 1) =~= v@.take(i as int).push(v@[i as int]));
    }
    assert(v@.take(v@.len() as int) =~= v@);
    r
}

/// A copy of a list of cards.
pub fn copy_cards(v: &Vec<CardInfo>) -> (r: Vec<CardInfo>)
    ensures
        r@ == v@,
{
    let mut r: Vec<CardInfo> = Vec::new();
    for i in 0..v.len()
        invariant
            r@ == v@.take(i as int),
    {
        r.push(v[i]);
        assert(v@.take(i + 1) =~= v@.take(i as int).push(v@[i as int]));
    }
    assert(v@.take(v@.len() as int) =~= v@);
    r
}

/// A copy of a list of power gauges.
pub fn copy_powers(v: &Vec<PowerInfo>) -> (r: Vec<PowerInfo>)
    ensures
        r@ == v@,
{
    let mut r: Vec<PowerInfo> = Vec::new();
    for i in 0..v.len()
        invariant
            r@ == v@.take(i as int),
    {
        r.push(v[i]);
        assert(v@.take(i + 1) =~= v@.take(i as int).push(v@[i as int]));
    }
    assert(v@.take(v@.len() as int) =~= v@);
    r
}

/// A copy of an optional string.
pub fn copy_text(s: &Option<String>) -> (r: Option<String>)
    ensures
        text_view(r) == text_view(*s),
{
    match s {
        Some(t) => Some(t.clone()),
        None => None,
    }
}

impl Clone for BuffActInfo {
    fn clone(&self) -> (r: Self)
        ensures
            r@ == self@,
    {
        BuffActInfo { act_id: self.act_id, param: copy_numbers(&self.param) }
    }
}

impl Clone for BuffInfo {
    fn clone(&self) -> (r: Self)
        ensures
            r@ == self@,
    {
        let mut acts: Vec<BuffActInfo> = Vec::new();
        for i in 0..self.act_info.len()
            invariant
                acts@.len() == i,
                forall|k: int| 0 <= k < i ==> (#[trigger] acts@[k])@ == self.act_info@[k]@,
        {
            acts.push(self.act_info[i].clone());
        }
        let r = BuffInfo {
            buff_id: self.buff_id,
            duration: self.duration,
            uid: self.uid,
            ex_info: self.ex_info,
            from_uid: self.from_uid,
            count: self.count,
            act_common_params: copy_text(&self.act_common_params),
            layer: self.layer,
            layer_type: self.layer_type,
            act_info: acts,
        };
        assert(r@.act_info =~= self@.act_info);
        r
    }
}

impl Clone for FightEntityInfo {
    fn clone(&self) -> (r: Self)
        ensures
            r@ == self@,
    {
        let mut buffs: Vec<BuffInfo> = Vec::new();
        for i in 0..self.buffs.len()
            invariant
                buffs@.len() == i,
                forall|k: int| 0 <= k < i ==> (#[trigger] buffs@[k])@ == self.buffs@[k]@,
        {
            buffs.push(self.buffs[i].clone());
        }
        let r = FightEntityInfo {
            uid: self.uid,
            model_id: self.model_id,
            position: self.position,
            current_hp: self.current_hp,
            shield_value: self.shield_value,
            team_type: self.team_type,
            ex_point: self.ex_point,
            ex_point_type: self.ex_point_type,
            ex_skill: self.ex_skill,
            attr: self.attr,
            base_attr: self.base_attr,
            passive_skill: copy_numbers(&self.passive_skill),
            skill_group1: copy_numbers(&self.skill_group1),
            skill_group2: copy_numbers(&self.skill_group2),
            buffs,
            power_infos: copy_powers(&self.power_infos),
        };
        assert(r@.buffs =~= self@.buffs);
        r
    }
}

/// A copy of a list of fighters.
pub fn copy_entities(v: &Vec<FightEntityInfo>) -> (r: Vec<FightEntityInfo>)
    ensures
        entities_view(r@) == entities_view(v@),
{
    let mut r: Vec<FightEntityInfo> = Vec::new();
    for i in 0..v.len()
        invariant
            r@.len() == i,
            forall|k: int| 0 <= k < i ==> (#[trigger] r@[k])@ == v@[k]@,
    {
        r.push(v[i].clone());
    }
    assert(entities_view(r@) =~= entities_view(v@));
    r
}

impl Clone for FightTeam {
    fn clone(&self) -> (r: Self)
        ensures
            r@ == self@,
    {
        FightTeam {
            entitys: copy_entities(&self.entitys),
            sub_entitys: copy_entities(&self.sub_entitys),
            power: self.power,
        }
    }
}

impl Clone for Fight {
    fn clone(&self) -> (r: Self)
        ensures
            r@ == self@,
    {
        Fight {
            attacker: match &self.attacker {
                Some(t) => Some(t.clone()),
                None => None,
            },
            defender: match &self.defender {
                Some(t) => Some(t.clone()),
                None => None,
            },
            cur_round: self.cur_round,
            max_round: self.max_round,
            is_finish: self.is_finish,
            cur_wave: self.cur_wave,
            battle_id: self.battle_id,
            magic_circle: self.magic_circle,
            version: self.version,
            is_record: self.is_record,
            episode_id: self.episode_id,
            fight_act_type: self.fight_act_type,
            last_change_hero_uid: self.last_change_hero_uid,
            progress: self.progress,
            progress_max: self.progress_max,
            fight_task_box: match &self.fight_task_box {
                Some(b) => Some(FightTaskBox { tasks: copy_numbers(&b.tasks) }),
                None => None,
            },
        }
    }
}

/// A copy of an effect with all that is nested in it.
pub fn copy_effect(e: &ActEffect) -> (r: ActEffect)
    ensures
        effect_view(r) == effect_view(*e),
    decreases e,
{
    ActEffect {
        effect_type: e.effect_type,
        target_id: e.target_id,
        effect_num: e.effect_num,
        effect_num1: e.effect_num1,
        buff: match &e.buff {
            Some(b) => Some(b.clone()),
            None => None,
        },
        card_info_list: copy_cards(&e.card_info_list),
        config_effect: e.config_effect,
        buff_act_id: e.buff_act_id,
        reserve_id: e.reserve_id,
        reserve_str: copy_text(&e.reserve_str),
        team_type: e.team_type,
        hurt_info: e.hurt_info,
        buff_act_info: match &e.buff_act_info {
            Some(b) => Some(b.clone()),
            None => None,
        },
        magic_circle: e.magic_circle,
        fight: match &e.fight {
            Some(f) => Some(f.clone()),
            None => None,
        },
        entity: match &e.entity {
            Some(x) => Some(x.clone()),
            None => None,
        },
        fight_step: match &e.fight_step {
            Some(s) => Some(copy_step(s)),
            None => None,
        },
    }
}

/// A copy of a step with all that is nested in it.
pub fn copy_step(s: &FightStep) -> (r: FightStep)
    ensures
        step_view(r) == step_view(*s),
    decreases s,
{
    FightStep {
        act_type: s.act_type,
        from_id: s.from_id,
        to_id: s.to_id,
        act_id: s.act_id,
        act_effect: copy_effects(&s.act_effect),
        card_index: s.card_index,
        support_hero_id: s.support_hero_id,
        fake_timeline: s.fake_timeline,
        real_skill_type: s.real_skill_type,
        real_skin_id: s.real_skin_id,
    }
}

/// A copy of a list of effects with all that is nested in them.
pub fn copy_effects(v: &Vec<ActEffect>) -> (r: Vec<ActEffect>)
    ensures
        effects_view(r@) == effects_view(v@),
    decreases v,
{
    let mut r: Vec<ActEffect> = Vec::new();
    for i in 0..v.len()
        invariant
            r@.len() == i,
            forall|k: int|
                0 <= k < i ==> effect_view(#[trigger] r@[k]) == effect_view(v@[k]),
    {
        assert(decreases_to!(v => v@[i as int]));
        r.push(copy_effect(&v[i]));
    }
    assert(effects_view(r@) =~= effects_view(v@));
    r
}

impl Clone for ActEffect {
    fn clone(&self) -> (r: Self)
        ensures
            r@ == self@,
    {
        copy_effect(self)
    }
}

impl Clone for FightStep {
    fn clone(&self) -> (r: Self)
        ensures
            r@ == self@,
    {
        copy_step(self)
    }
}

} // verus!
