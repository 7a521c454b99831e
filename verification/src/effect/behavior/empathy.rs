//! Behaviours that store injuries as empathy and turn them into damage.

use crate::arith::{div_toward_zero, divide, sat_i32, saturating_product};
use crate::buffs::{BuffInstance, BuffMgr};
use crate::fight_step::builder::{numeric_effect, ActEffectBuilder};
use crate::mechanics::shadowcloak::{attr_hp, find_attr_hp};
use crate::model::lists::group_effects_view;
use crate::model::{
    effects_view, ActEffect, BuffInfoView, BuffLayerType, EffectType, EffectView, Fight, FightView,
};
use crate::text::{decimal, param, param_at, spell_number};
use vstd::prelude::*;

verus! {

broadcast use group_effects_view;

/// What a behaviour of this family does.
#[derive(Clone, Copy, PartialEq, Eq, Structural, Debug)]
pub enum EmpathyPlan {
    /// Damage out of the empathy that the caster holds; `clears` if it is spent.
    Release { amount: i32, clears: bool },
    /// The caster hurts itself, stores the injury and gives a buff to the target.
    Solace { self_damage: i32, max_hp: i32, buff_id: i32 },
    Nothing,
}

/// Whether a skill is the one that gives solace.
pub open spec fn is_solace(skill_id: i32) -> bool {
    30800121 <= skill_id <= 30800123
}

/// What a behaviour of this family does, given the empathy that the caster holds.
pub open spec fn empathy_plan(
    f: FightView,
    id: i32,
    raw: Seq<char>,
    skill_id: i32,
    caster: i64,
    target: i64,
    current: i32,
) -> EmpathyPlan {
    let rate = param(raw, 1);
    let bonus = div_toward_zero(sat_i32(current * rate), 1000) as i32;
    if id == 60038 || id == 60052 {
        if current <= 0 || rate <= 0 || target == 0 || bonus <= 0 {
            EmpathyPlan::Nothing
        } else {
            EmpathyPlan::Release { amount: bonus, clears: false }
        }
    } else if id == 60040 {
        if current <= 0 || rate <= 0 || target == 0 {
            EmpathyPlan::Nothing
        } else {
            EmpathyPlan::Release { amount: bonus, clears: true }
        }
    } else if id == 60039 {
        let max_hp = attr_hp(f, caster);
        if !is_solace(skill_id) || target == caster || max_hp <= 0 {
            EmpathyPlan::Nothing
        } else {
            EmpathyPlan::Solace {
                self_damage: div_toward_zero(sat_i32(max_hp * rate), 1000) as i32,
                max_hp,
                buff_id: param(raw, 2),
            }
        }
    } else {
        EmpathyPlan::Nothing
    }
}

/// Decides what a behaviour of this family does. `current` is the empathy that the
/// caster holds.
pub fn plan_empathy(
    fight: &Fight,
    behaviour_id: i32,
    raw: &str,
    skill_id: i32,
    caster: i64,
    target: i64,
    current: i32,
) -> (r: EmpathyPlan)
    ensures
        r == empathy_plan(fight@, behaviour_id, raw@, skill_id, caster, target, current),
{
    let rate = param_at(raw, 1);
    match behaviour_id {
        60038 | 60052 => {
            if current <= 0 || rate <= 0 || target == 0 {
                return EmpathyPlan::Nothing;
            }
            let amount = divide(saturating_product(current, rate), 1000);
            if amount <= 0 {
                return EmpathyPlan::Nothing;
            }
            EmpathyPlan::Release { amount, clears: false }
        },
        60040 => {
            if current <= 0 || rate <= 0 || target == 0 {
                return EmpathyPlan::Nothing;
            }
            EmpathyPlan::Release {
                amount: divide(saturating_product(current, rate), 1000),
                clears: true,
            }
        },
        60039 => {
            if !(30800121 <= skill_id && skill_id <= 30800123) || target == caster {
                return EmpathyPlan::Nothing;
            }
            let max_hp = find_attr_hp(fight, caster);
            if max_hp <= 0 {
                return EmpathyPlan::Nothing;
            }
            EmpathyPlan::Solace {
                self_damage: divide(saturating_product(max_hp, rate), 1000),
                max_hp,
                buff_id: param_at(raw, 2),
            }
        },
        _ => EmpathyPlan::Nothing,
    }
}

/// The buff that holds the empathy of a fighter: the first of its type, or a
/// nameless one of the default id.
pub open spec fn empathy_buff(s: Seq<BuffInstance>, type_id: i32, default_id: i32) -> (i32, i64)
    decreases s.len(),
{
    if s.len() == 0 {
        (default_id, 0)
    } else if s[0].type_id == type_id {
        (s[0].buff_id, s[0].uid)
    } else {
        empathy_buff(s.skip(1), type_id, default_id)
    }
}

/// Finds the buff that holds the empathy of a fighter.
pub fn find_empathy_buff(buffs: &BuffMgr, uid: i64, type_id: i32, default_id: i32) -> (r: (
    i32,
    i64,
))
    ensures
        r == empathy_buff(buffs.of(uid), type_id, default_id),
{
    let held = buffs.get(uid);
    let mut i: usize = 0;
    assert(held@.skip(0) =~= held@);
    while i < held.len()
        invariant
            i <= held@.len(),
            held@ == buffs.of(uid),
            empathy_buff(held@.skip(i as int), type_id, default_id) == empathy_buff(
                held@,
                type_id,
                default_id,
            ),
        decreases held@.len() - i,
    {
        assert(held@.skip(i as int)[0] == held@[i as int]);
        assert(held@.skip(i as int).skip(1) =~= held@.skip(i + 1));
        if held[i].type_id == type_id {
            return (held[i].buff_id, held[i].uid);
        }
        i += 1;
    }
    (default_id, 0)
}

/// The parameters of an empty store with a capacity.
pub open spec fn empty_store(cap: i32) -> Seq<char> {
    "770#0#"@ + decimal(
        if cap > 0 {
            cap as nat
        } else {
            0
        },
    )
}

/// The damage that a release shows.
pub open spec fn release_hit(target: i64, damage: i32, clears: bool) -> EffectView {
    numeric_effect(
        EffectType::OriginDamage,
        target,
        damage,
        Some(
            if clears {
                60040i32
            } else {
                60038i32
            },
        ),
        None,
        None,
    )
}

/// Shows the release of empathy. `damage` is its amount after the target's fixes.
pub fn release(target: i64, damage: i32) -> (r: Vec<ActEffect>)
    ensures
        effects_view(r@) == seq![release_hit(target, damage, false)],
{
    let mut out: Vec<ActEffect> = Vec::new();
    out.push(ActEffectBuilder::origin_damage(target, damage, Some(60038)));
    assert(effects_view(out@) =~= seq![release_hit(target, damage, false)]);
    out
}

/// Shows the release of all empathy: the store is emptied, then the damage is dealt.
/// `cap` is the capacity of the store, `buff` the buff that holds it.
pub fn release_all(caster: i64, target: i64, damage: i32, cap: i32, buff: (i32, i64)) -> (r: Vec<
    ActEffect,
>)
    ensures
        effects_view(r@) == seq![
            EffectView {
                buff: Some(
                    BuffInfoView::full(
                        buff.0,
                        0,
                        buff.1,
                        caster,
                        0,
                        empty_store(cap),
                        0,
                        BuffLayerType::Normal,
                    ),
                ),
                config_effect: Some(60040),
                ..EffectView::amount(EffectType::StorageInjury, caster, 0)
            },
            release_hit(target, damage, true),
        ],
{
    let mut params = "770#0#".to_owned();
    let capacity = spell_number(
        if cap > 0 {
            cap
        } else {
            0
        },
    );
    params.append(capacity.as_str());
    let mut out: Vec<ActEffect> = Vec::new();
    out.push(
        ActEffectBuilder::storage_injury(
            caster,
            0,
            buff.0,
            buff.1,
            caster,
            params,
            Some(60040),
        ),
    );
    out.push(ActEffectBuilder::origin_damage(target, damage, Some(60040)));
    assert(effects_view(out@).len() == 2);
    assert(effects_view(out@) =~= seq![out@[0]@, out@[1]@]);
    out
}

/// Shows solace: the injury that is stored, the heals that this sets off, the
/// caster's own wound after its fixes, and the target's new buff.
pub fn solace(
    caster: i64,
    target: i64,
    damage: i32,
    stored: ActEffect,
    heals: Vec<ActEffect>,
    buff_effects: Vec<ActEffect>,
) -> (r: Vec<ActEffect>)
    ensures
        effects_view(r@) == (seq![stored@] + effects_view(heals@)).push(
            numeric_effect(EffectType::OriginDamage, caster, damage, Some(60039), None, None),
        ) + effects_view(buff_effects@).push(EffectView::on(EffectType::NoEffect, target)),
{
    let mut out: Vec<ActEffect> = Vec::new();
    let ghost heals_shown = effects_view(heals@);
    let ghost buff_shown = effects_view(buff_effects@);
    out.push(stored);
    assert(effects_view(out@) =~= seq![stored@]);
    let mut heals = heals;
    out.append(&mut heals);
    out.push(ActEffectBuilder::origin_damage(caster, damage, Some(60039)));
    let mut buff_effects = buff_effects;
    out.append(&mut buff_effects);
    out.push(ActEffectBuilder::effect_none(target));
    assert(effects_view(out@) =~= (seq![stored@] + heals_shown).push(
        numeric_effect(EffectType::OriginDamage, caster, damage, Some(60039), None, None),
    ) + buff_shown.push(EffectView::on(EffectType::NoEffect, target)));
    out
}

} // verus!
