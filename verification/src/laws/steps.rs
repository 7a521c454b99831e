//! What effects, steps and battles show.

use crate::config::{row_at, SkillBuffRow};
use crate::fight_step::builder::{
    blank_hurt, bloodtithe_sync_effects, detail_hurt, fresh_buff_add, numeric_effect,
    row_delete_layer, row_duration, row_effect_count, skill_hurt,
};
use crate::fight_step::select::wrappers;
use crate::fight_step::steps::{chunked, skill_step, steps_view, STEP_EFFECT_COUNT_LIMIT};
use crate::laws::events::{carries, nothing_set, says, step_of};
use crate::model::{
    effect_view, effects_view, entities_view, step_view, ActEffect, ActType, BuffActInfo, BuffInfo,
    BuffInfoView, BuffLayerType, DamageFromType, EffectType, EffectView, Fight, FightEntityInfo,
    FightHurtInfo, FightStep, FightTeam, StepView,
};
use vstd::prelude::*;

verus! {

/// The plain effects: with nothing set, with a type, with a target, with an amount, and
/// with a step inside.
pub proof fn plain_effects(kind: EffectType, target: i64, num: i32, step: StepView)
    ensures
        EffectView::blank() == nothing_set(),
        EffectView::kind_only(kind) == (EffectView { effect_type: Some(kind), ..nothing_set() }),
        EffectView::on(kind, target) == (EffectView {
            effect_type: Some(kind),
            target_id: Some(target),
            ..nothing_set()
        }),
        says(EffectView::amount(kind, target, num), kind, target, num),
        carries(EffectView::wrapper(step), step),
{
}

/// A plain step says who does what to whom. A container is a step of its own kind. A
/// skill's step counts its card from one.
pub proof fn plain_steps(
    act_type: ActType,
    from: i64,
    to: i64,
    act_id: i32,
    card_index: i32,
    effects: Seq<EffectView>,
    more: Seq<EffectView>,
)
    ensures
        StepView::plain(act_type, from, to, act_id, effects) == step_of(
            act_type,
            from,
            to,
            act_id,
            0,
            effects,
        ),
        StepView::container(from, to, act_id, effects) == step_of(
            ActType::Effect,
            from,
            to,
            act_id,
            0,
            effects,
        ),
        card_index < i32::MAX ==> skill_step(from, to, act_id, card_index, effects) == step_of(
            ActType::Skill,
            from,
            to,
            act_id,
            (card_index + 1) as i32,
            effects,
        ),
        StepView::plain(act_type, from, to, act_id, effects).extended(more) == step_of(
            act_type,
            from,
            to,
            act_id,
            0,
            effects + more,
        ),
{
}

/// What a hurt by a skill and the detail of a hurt say.
pub proof fn what_hurts_say(
    target: i64,
    damage: i32,
    skill_id: i32,
    damage_type: DamageFromType,
    hurt_effect: EffectType,
    config_effect: i32,
    buff_act_id: Option<i32>,
)
    ensures
        blank_hurt() == (FightHurtInfo {
            damage: None,
            reduce_hp: None,
            reduce_shield: None,
            career_restraint: None,
            critical: None,
            assassinate: None,
            hurt_effect: None,
            damage_from_type: None,
            config_effect: None,
            buff_act_id: None,
            effect_id: None,
            skill_id: None,
            from_uid: None,
            buff_uid: None,
        }),
        skill_hurt(damage, config_effect, skill_id, target) == (FightHurtInfo {
            damage: Some(damage),
            reduce_hp: Some(0),
            reduce_shield: None,
            career_restraint: None,
            critical: None,
            assassinate: None,
            hurt_effect: Some(EffectType::Damage),
            damage_from_type: Some(DamageFromType::SkillEffect),
            config_effect: Some(config_effect),
            buff_act_id: None,
            effect_id: Some(skill_id),
            skill_id: Some(skill_id),
            from_uid: Some(target),
            buff_uid: None,
        }),
        detail_hurt(
            target,
            damage,
            skill_id,
            damage_type,
            hurt_effect,
            config_effect,
            buff_act_id,
        ) == (FightHurtInfo {
            damage: Some(damage),
            reduce_hp: Some(damage),
            reduce_shield: Some(0),
            career_restraint: Some(false),
            critical: Some(false),
            assassinate: Some(false),
            hurt_effect: Some(hurt_effect),
            damage_from_type: Some(damage_type),
            config_effect: Some(config_effect),
            buff_act_id,
            effect_id: Some(skill_id),
            skill_id: Some(skill_id),
            from_uid: Some(target),
            buff_uid: None,
        }),
{
}

/// A numeric effect says its type, target and amount and the three things it is given.
pub proof fn numeric_effects(
    kind: EffectType,
    target: i64,
    amount: i32,
    config_effect: Option<i32>,
    buff_act_id: Option<i32>,
    hurt_info: Option<FightHurtInfo>,
)
    ensures
        numeric_effect(kind, target, amount, config_effect, buff_act_id, hurt_info) == (EffectView {
            effect_type: Some(kind),
            target_id: Some(target),
            effect_num: Some(amount),
            config_effect,
            buff_act_id,
            hurt_info,
            ..nothing_set()
        }),
{
}

/// What the row of a buff says: its duration and count, and one layer to delete if it has
/// features. A buff without a row has none of these.
pub proof fn what_buff_rows_say(rows: Seq<SkillBuffRow>, buff_id: i32)
    ensures
        row_at(rows, buff_id) is None ==> row_duration(rows, buff_id) == 0 && row_effect_count(
            rows,
            buff_id,
        ) == 0 && row_delete_layer(rows, buff_id) == 0,
        row_at(rows, buff_id) matches Some(row) ==> row_duration(rows, buff_id) == row.during_time
            && row_effect_count(rows, buff_id) == row.effect_count && (row.features@.len() == 0
            ==> row_delete_layer(rows, buff_id) == 0) && (row.features@.len() > 0
            ==> row_delete_layer(rows, buff_id) == 1),
{
}

/// A new buff is told with the duration of its row and with all that it is given.
pub proof fn how_new_buffs_are_told(
    rows: Seq<SkillBuffRow>,
    uid: i64,
    params: Seq<char>,
    target: i64,
    from: i64,
    buff_id: i32,
    layer: i32,
    count: i32,
)
    ensures
        fresh_buff_add(rows, uid, params, target, from, buff_id, layer, count) == (EffectView {
            effect_type: Some(EffectType::BuffAdd),
            target_id: Some(target),
            effect_num: Some(buff_id),
            buff: Some(
                BuffInfoView {
                    buff_id: Some(buff_id),
                    duration: Some(
                        match row_at(rows, buff_id) {
                            Some(row) => row.during_time,
                            None => 0,
                        },
                    ),
                    uid: Some(uid),
                    ex_info: Some(0),
                    from_uid: Some(from),
                    count: Some(count),
                    act_common_params: Some(params),
                    layer: Some(layer),
                    layer_type: Some(BuffLayerType::Normal),
                    act_info: Seq::empty(),
                },
            ),
            ..nothing_set()
        }),
{
}

/// A blood pool is shown by three effects: that there is one, its limit and its content.
pub proof fn how_a_blood_pool_is_shown(team: i32, uid: i64, cur: i32, max: i32)
    ensures
        ({
            let s = bloodtithe_sync_effects(team, uid, cur, max);
            &&& s.len() == 3
            &&& s[0] == (EffectView {
                effect_type: Some(EffectType::BloodPoolMaxCreate),
                target_id: Some(0),
                effect_num: Some(1),
                team_type: Some(team),
                ..nothing_set()
            })
            &&& s[1] == (EffectView {
                effect_type: Some(EffectType::BloodPoolMaxChange),
                target_id: Some(0),
                effect_num: Some(1),
                effect_num1: Some(max),
                team_type: Some(team),
                ..nothing_set()
            })
            &&& s[2] == (EffectView {
                effect_type: Some(EffectType::BloodPoolValueChange),
                target_id: Some(uid),
                effect_num: Some(cur),
                effect_num1: Some(1),
                team_type: Some(team),
                ..nothing_set()
            })
        }),
{
}

/// A long step is cut into steps of fifty effects and a last one with the rest, which
/// agree with it in everything else.
pub proof fn steps_are_cut_at_fifty(s: StepView, i: int)
    requires
        0 <= i < chunked(s).len(),
    ensures
        s.act_effect.len() <= 50 ==> chunked(s) == seq![s],
        50 * (chunked(s).len() - 1) <= s.act_effect.len(),
        s.act_effect.len() > 0 ==> 50 * (chunked(s).len() - 1) < s.act_effect.len(),
        s.act_effect.len() <= 50 * chunked(s).len(),
        chunked(s)[i] == (StepView {
            act_effect: s.act_effect.subrange(
                50 * i,
                if i == chunked(s).len() - 1 {
                    s.act_effect.len() as int
                } else {
                    50 * i + 50
                },
            ),
            ..s
        }),
    decreases s.act_effect.len(),
{
    let n = s.act_effect.len() as int;
    assert(STEP_EFFECT_COUNT_LIMIT == 50);
    if n <= 50 {
        assert(s.act_effect.subrange(0, n) =~= s.act_effect);
    } else {
        let rest = StepView { act_effect: s.act_effect.skip(50), ..s };
        let head = StepView { act_effect: s.act_effect.take(50), ..s };
        assert(chunked(s) =~= seq![head] + chunked(rest));
        cut_in_pieces(rest);
        if i == 0 {
            steps_are_cut_at_fifty(rest, 0);
            assert(s.act_effect.subrange(0, 50) =~= s.act_effect.take(50));
        } else {
            steps_are_cut_at_fifty(rest, i - 1);
            assert(chunked(s)[i] == chunked(rest)[i - 1]);
            let end = if i == chunked(s).len() - 1 {
                n
            } else {
                50 * i + 50
            };
            cut_within(rest, i - 1);
            assert(s.act_effect.skip(50).subrange(50 * i - 50, end - 50)
                =~= s.act_effect.subrange(50 * i, end));
        }
    }
}

proof fn cut_in_pieces(s: StepView)
    ensures
        chunked(s).len() > 0,
{
}

proof fn cut_within(s: StepView, i: int)
    requires
        0 <= i < chunked(s).len(),
    ensures
        50 * i <= s.act_effect.len(),
        i < chunked(s).len() - 1 ==> 50 * i + 50 <= s.act_effect.len(),
    decreases s.act_effect.len(),
{
    if s.act_effect.len() > 50 {
        let rest = StepView { act_effect: s.act_effect.skip(50), ..s };
        cut_in_pieces(rest);
        if i > 0 {
            cut_within(rest, i - 1);
        }
    }
}

proof fn effects_that_carry_steps_join(
    a: Seq<EffectView>,
    b: Seq<EffectView>,
)
    ensures
        wrappers(a + b) == wrappers(a) + wrappers(b),
    decreases b.len(),
{
    if b.len() == 0 {
        assert(a + b =~= a);
        assert(wrappers(a) + wrappers(b) =~= wrappers(a));
    } else {
        effects_that_carry_steps_join(a, b.drop_last());
        assert((a + b).drop_last() =~= a + b.drop_last());
        assert((a + b).last() == b.last());
        assert(wrappers(a + b) =~= wrappers(a) + wrappers(b));
    }
}

/// The effects that carry steps are those of that type, in their order.
pub proof fn effects_that_carry_steps(
    a: Seq<EffectView>,
    b: Seq<EffectView>,
    x: EffectView,
)
    ensures
        wrappers(a + b) == wrappers(a) + wrappers(b),
        wrappers(Seq::<EffectView>::empty()).len() == 0,
        wrappers(seq![x]) == (if x.effect_type == Some(EffectType::FightStep) {
            seq![x]
        } else {
            Seq::empty()
        }),
{
    effects_that_carry_steps_join(a, b);
    let one = seq![x];
    assert(one.drop_last() =~= Seq::<EffectView>::empty());
    assert(one.last() == x);
    assert(wrappers(one.drop_last()).len() == 0);
    assert(wrappers(seq![x]) =~= (if x.effect_type == Some(EffectType::FightStep) {
            seq![x]
        } else {
            Seq::empty()
        }));
}

/// An effect is seen by all that it says.
pub proof fn how_effects_are_seen(e: ActEffect)
    ensures
        effect_view(e) == e@,
        e@.effect_type == e.effect_type,
        e@.target_id == e.target_id,
        e@.effect_num == e.effect_num,
        e@.effect_num1 == e.effect_num1,
        e@.config_effect == e.config_effect,
        e@.buff_act_id == e.buff_act_id,
        e@.reserve_id == e.reserve_id,
        e@.team_type == e.team_type,
        e@.hurt_info == e.hurt_info,
        e@.magic_circle == e.magic_circle,
        e@.card_info_list == e.card_info_list@,
        e@.reserve_str is Some <==> e.reserve_str is Some,
        e.reserve_str is Some ==> e@.reserve_str == Some(e.reserve_str->0@),
        e@.buff is Some <==> e.buff is Some,
        e.buff is Some ==> e@.buff == Some(e.buff->0@),
        e@.buff_act_info is Some <==> e.buff_act_info is Some,
        e.buff_act_info is Some ==> e@.buff_act_info == Some(e.buff_act_info->0@),
        e@.fight is Some <==> e.fight is Some,
        e.fight is Some ==> e@.fight == Some(e.fight->0@),
        e@.entity is Some <==> e.entity is Some,
        e.entity is Some ==> e@.entity == Some(e.entity->0@),
        e@.fight_step is Some <==> e.fight_step is Some,
        e.fight_step is Some ==> e@.fight_step == Some(e.fight_step->0@),
{
}

/// A step is seen by all that it says, and a list by each of its items.
pub proof fn how_steps_are_seen(s: FightStep, v: Seq<ActEffect>, steps: Seq<FightStep>)
    ensures
        step_view(s) == s@,
        s@.act_type == s.act_type,
        s@.from_id == s.from_id,
        s@.to_id == s.to_id,
        s@.act_id == s.act_id,
        s@.card_index == s.card_index,
        s@.support_hero_id == s.support_hero_id,
        s@.fake_timeline == s.fake_timeline,
        s@.real_skill_type == s.real_skill_type,
        s@.real_skin_id == s.real_skin_id,
        s@.act_effect == effects_view(s.act_effect@),
        effects_view(v).len() == v.len(),
        forall|i: int| 0 <= i < v.len() ==> #[trigger] effects_view(v)[i] == v[i]@,
        steps_view(steps).len() == steps.len(),
        forall|i: int| 0 <= i < steps.len() ==> #[trigger] steps_view(steps)[i] == steps[i]@,
{
}

/// A buff is seen by all that it says.
pub proof fn how_buffs_are_seen(b: BuffInfo, a: BuffActInfo)
    ensures
        b@.buff_id == b.buff_id,
        b@.duration == b.duration,
        b@.uid == b.uid,
        b@.ex_info == b.ex_info,
        b@.from_uid == b.from_uid,
        b@.count == b.count,
        b@.layer == b.layer,
        b@.layer_type == b.layer_type,
        b@.act_common_params is Some <==> b.act_common_params is Some,
        b.act_common_params is Some ==> b@.act_common_params == Some(b.act_common_params->0@),
        b@.act_info.len() == b.act_info@.len(),
        forall|i: int|
            0 <= i < b.act_info@.len() ==> #[trigger] b@.act_info[i] == b.act_info@[i]@,
        a@.act_id == a.act_id,
        a@.param == a.param@,
{
}

/// A fighter is seen by all that is known of it.
pub proof fn how_fighters_are_seen(e: FightEntityInfo)
    ensures
        e@.uid == e.uid,
        e@.model_id == e.model_id,
        e@.position == e.position,
        e@.current_hp == e.current_hp,
        e@.shield_value == e.shield_value,
        e@.team_type == e.team_type,
        e@.ex_point == e.ex_point,
        e@.ex_point_type == e.ex_point_type,
        e@.ex_skill == e.ex_skill,
        e@.attr == e.attr,
        e@.base_attr == e.base_attr,
        e@.passive_skill == e.passive_skill@,
        e@.skill_group1 == e.skill_group1@,
        e@.skill_group2 == e.skill_group2@,
        e@.power_infos == e.power_infos@,
        e@.buffs.len() == e.buffs@.len(),
        forall|i: int| 0 <= i < e.buffs@.len() ==> #[trigger] e@.buffs[i] == e.buffs@[i]@,
{
}

/// A battle is seen by its teams and by all that it says.
pub proof fn how_battles_are_seen(f: Fight, t: FightTeam, s: Seq<FightEntityInfo>)
    ensures
        f@.cur_round == f.cur_round,
        f@.max_round == f.max_round,
        f@.is_finish == f.is_finish,
        f@.cur_wave == f.cur_wave,
        f@.battle_id == f.battle_id,
        f@.magic_circle == f.magic_circle,
        f@.version == f.version,
        f@.is_record == f.is_record,
        f@.episode_id == f.episode_id,
        f@.fight_act_type == f.fight_act_type,
        f@.last_change_hero_uid == f.last_change_hero_uid,
        f@.progress == f.progress,
        f@.progress_max == f.progress_max,
        f@.attacker is Some <==> f.attacker is Some,
        f.attacker is Some ==> f@.attacker == Some(f.attacker->0@),
        f@.defender is Some <==> f.defender is Some,
        f.defender is Some ==> f@.defender == Some(f.defender->0@),
        f@.fight_task_box is Some <==> f.fight_task_box is Some,
        f.fight_task_box is Some ==> f@.fight_task_box == Some(f.fight_task_box->0.tasks@),
        t@.entitys == entities_view(t.entitys@),
        t@.sub_entitys == entities_view(t.sub_entitys@),
        t@.power == t.power,
        entities_view(s).len() == s.len(),
        forall|i: int| 0 <= i < s.len() ==> #[trigger] entities_view(s)[i] == s[i]@,
{
}

} // verus!
