//! Behaviours that cost life directly.

use crate::arith::{fits, or_zero, value};
use crate::effect::behavior::bloodtithe::{
    find_first_hit_amount, first_hit_amount, LossRequest,
};
use crate::event::Event;
use crate::fight_step::select::has_kind;
use crate::manager::entity_mgr::{at_least_zero, entry, EntityMgr, EntityMgrView};
use crate::model::lists::group_effects_view;
use crate::model::{effects_view, ActEffect, EffectType, EffectView, FightHurtInfo};
use crate::text::{param, param_at};
use vstd::prelude::*;

verus! {

broadcast use group_effects_view;

/// What a behaviour of this family comes down to, for each of its targets.
#[derive(Clone, Copy, PartialEq, Eq, Structural, Debug)]
pub enum LostLifePlan {
    /// A loss of life; see [`LossRequest`].
    Loss { mode: i32, attr_id: i32, permille: i32, behavior_id: i32 },
    /// A loss that grows with a buff.
    RealLoss { buff_id: i32, rate: i32 },
    Nothing,
}

/// The behaviours that cost a share of life.
pub open spec fn costs_life(id: i32) -> bool {
    id == 30005 || id == 30006 || id == 30010 || id == 30018 || id == 60226
}

/// What a behaviour of this family comes down to.
pub open spec fn lost_life_plan(id: i32, raw: Seq<char>) -> LostLifePlan {
    if costs_life(id) {
        LostLifePlan::Loss {
            mode: param(raw, 1),
            attr_id: param(raw, 2),
            permille: param(raw, 3),
            behavior_id: param(raw, 4),
        }
    } else if id == 60216 {
        LostLifePlan::RealLoss { buff_id: param(raw, 1), rate: param(raw, 3) }
    } else {
        LostLifePlan::Nothing
    }
}

/// Decides what a behaviour of this family comes down to.
pub fn plan_lost_life_behaviour(behaviour_id: i32, raw: &str) -> (r: LostLifePlan)
    ensures
        r == lost_life_plan(behaviour_id, raw@),
{
    match behaviour_id {
        30005 | 30006 | 30010 | 30018 | 60226 => LostLifePlan::Loss {
            mode: param_at(raw, 1),
            attr_id: param_at(raw, 2),
            permille: param_at(raw, 3),
            behavior_id: param_at(raw, 4),
        },
        60216 => LostLifePlan::RealLoss { buff_id: param_at(raw, 1), rate: param_at(raw, 3) },
        _ => LostLifePlan::Nothing,
    }
}

/// A hit that goes through the event queue once more.
#[derive(Clone, Copy, PartialEq, Eq, Structural, Debug)]
pub struct RoutedHit {
    pub index: usize,
    pub amount: i32,
    pub target_id: i64,
    pub hurt_info: FightHurtInfo,
}

/// Whether an effect is a recorded hit with an amount and a target.
pub open spec fn is_recorded_hit(e: EffectView) -> bool {
    &&& e.effect_type == Some(EffectType::Damage)
    &&& or_zero(e.effect_num) > 0
    &&& e.target_id is Some
    &&& e.hurt_info is Some
}

/// The position of the first recorded hit.
pub open spec fn first_recorded(s: Seq<EffectView>) -> Option<nat>
    decreases s.len(),
{
    if s.len() == 0 {
        None
    } else if is_recorded_hit(s[0]) {
        Some(0)
    } else {
        match first_recorded(s.skip(1)) {
            Some(i) => Some(i + 1),
            None => None,
        }
    }
}

/// Finds the first recorded hit.
pub fn find_routed_hit(v: &Vec<ActEffect>) -> (r: Option<RoutedHit>)
    ensures
        match r {
            Some(h) => first_recorded(effects_view(v@)) == Some(h.index as nat) && h.index
                < v@.len() && h.amount == or_zero(v@[h.index as int]@.effect_num)
                && v@[h.index as int]@.target_id == Some(h.target_id)
                && v@[h.index as int]@.hurt_info == Some(h.hurt_info) && h.amount > 0,
            None => first_recorded(effects_view(v@)) is None,
        },
{
    let ghost s = effects_view(v@);
    assert(s.skip(0) =~= s);
    let mut i: usize = 0;
    while i < v.len()
        invariant
            i <= v.len(),
            s == effects_view(v@),
            first_recorded(s) == match first_recorded(s.skip(i as int)) {
                Some(k) => Some((k + i) as nat),
                None => None,
            },
        decreases v.len() - i,
    {
        assert(s.skip(i as int)[0] == v@[i as int]@);
        assert(s.skip(i as int).skip(1) =~= s.skip(i + 1));
        let amount = value(v[i].effect_num);
        if has_kind(&v[i], EffectType::Damage) && amount > 0 {
            if let Some(target_id) = v[i].target_id {
                if let Some(hurt_info) = v[i].hurt_info {
                    return Some(RoutedHit { index: i, amount, target_id, hurt_info });
                }
            }
        }
        i += 1;
    }
    None
}

/// The event of a hit that goes through the queue once more.
pub fn routed_event(hit: RoutedHit, request: LossRequest) -> (r: Event)
    ensures
        r == (Event::Damage {
            target: hit.target_id,
            amount: hit.amount,
            is_crit: false,
            hurt_info: hit.hurt_info,
            from: request.caster_uid,
            skill_id: Some(request.skill_id),
        }),
{
    Event::Damage {
        target: hit.target_id,
        amount: hit.amount,
        is_crit: false,
        hurt_info: hit.hurt_info,
        from: request.caster_uid,
        skill_id: Some(request.skill_id),
    }
}

/// Whether an effect gives ex points outside a combat: one of the given kind, to a
/// target.
pub open spec fn gives_ex(e: EffectView, ex_kind: EffectType) -> bool {
    e.effect_type == Some(ex_kind) && e.target_id is Some
}

/// The ex points after some effects.
pub open spec fn ex_after(m: Map<i64, i32>, s: Seq<EffectView>, ex_kind: EffectType) -> Map<
    i64,
    i32,
>
    decreases s.len(),
{
    if s.len() == 0 {
        m
    } else {
        let before = ex_after(m, s.drop_last(), ex_kind);
        let e = s.last();
        if gives_ex(e, ex_kind) {
            before.insert(
                e.target_id->0,
                at_least_zero(entry(before, e.target_id->0) + or_zero(e.effect_num)) as i32,
            )
        } else {
            before
        }
    }
}

/// No gain of ex points leaves the range.
pub open spec fn ex_gains_fit(
    m: Map<i64, i32>,
    s: Seq<EffectView>,
    ex_kind: EffectType,
) -> bool {
    forall|i: int|
        0 <= i < s.len() && gives_ex(#[trigger] s[i], ex_kind) ==> fits(
            entry(ex_after(m, s.take(i), ex_kind), s[i].target_id->0) + or_zero(s[i].effect_num),
        )
}

/// The effects of a loss with what the queue made of its recorded hit in the place of
/// that hit.
pub open spec fn with_routed(s: Seq<EffectView>, routed: Option<EffectView>) -> Seq<EffectView> {
    match (first_recorded(s), routed) {
        (Some(i), Some(e)) => s.update(i as int, e),
        _ => s,
    }
}

/// Whether the queue took the recorded hit of some effects over.
pub open spec fn taken_over(s: Seq<EffectView>, routed: Option<EffectView>) -> bool {
    first_recorded(s) is Some && routed is Some
}

/// The life that a loss cost in the end: of the hit that the queue took over, else of
/// the first plain hit, and never less than nothing.
pub open spec fn settled_loss(s: Seq<EffectView>, routed: Option<EffectView>) -> i32 {
    if taken_over(s, routed) {
        or_zero(s[first_recorded(s)->0 as int].effect_num)
    } else if first_hit_amount(s) > 0 {
        first_hit_amount(s)
    } else {
        0
    }
}

/// An optional effect by its view.
pub open spec fn routed_view(e: Option<ActEffect>) -> Option<EffectView> {
    match e {
        Some(x) => Some(x@),
        None => None,
    }
}

/// Settles a loss of life. `routed` is what the queue made of the recorded hit, if it
/// took it over: then it takes the place of the hit and has already been taken from
/// the target's life; any other hit is taken now. Outside a combat the gains of ex
/// points, effects of `ex_kind`, are booked too. Returns the effects and the life that
/// was lost.
pub fn apply_lost_life(
    effects: Vec<ActEffect>,
    routed: Option<ActEffect>,
    target: i64,
    is_combat: bool,
    ex_kind: EffectType,
    mgr: &mut EntityMgr,
) -> (r: (Vec<ActEffect>, i32))
    requires
        ({
            let s = effects_view(effects@);
            let e = routed_view(routed);
            &&& !taken_over(s, e) && settled_loss(s, e) > 0 ==> fits(
                entry(old(mgr)@.current_hp, target) - settled_loss(s, e),
            )
            &&& !is_combat ==> ex_gains_fit(old(mgr)@.ex_points, with_routed(s, e), ex_kind)
        }),
    ensures
        ({
            let s = effects_view(effects@);
            let e = routed_view(routed);
            let lost = settled_loss(s, e);
            &&& effects_view(r.0@) == with_routed(s, e)
            &&& r.1 == lost
            &&& final(mgr)@ == (EntityMgrView {
                current_hp: if !taken_over(s, e) && lost > 0 {
                    old(mgr)@.current_hp.insert(
                        target,
                        at_least_zero(entry(old(mgr)@.current_hp, target) - lost) as i32,
                    )
                } else {
                    old(mgr)@.current_hp
                },
                ex_points: if is_combat {
                    old(mgr)@.ex_points
                } else {
                    ex_after(old(mgr)@.ex_points, with_routed(s, e), ex_kind)
                },
                ..old(mgr)@
            })
        }),
{
    let hit = find_routed_hit(&effects);
    let ghost whole = effects_view(effects@);
    let mut effects = effects;
    let mut lost: i32 = 0;
    let mut by_queue: bool = false;
    if let Some(h) = hit {
        if let Some(e) = routed {
            effects[h.index] = e;
            lost = h.amount;
            by_queue = true;
            assert(effects_view(effects@) =~= whole.update(h.index as int, e@));
        }
    }
    let ghost s = effects_view(effects@);
    if !by_queue {
        let damage = find_first_hit_amount(&effects);
        if damage > 0 {
            mgr.apply_damage(target, damage);
            lost = damage;
        }
    }
    if !is_combat {
        let ghost start = mgr@;
        assert(s.take(0).len() == 0);
        for i in 0..effects.len()
            invariant
                s == effects_view(effects@),
                ex_gains_fit(start.ex_points, s, ex_kind),
                mgr@ == (EntityMgrView {
                    ex_points: ex_after(start.ex_points, s.take(i as int), ex_kind),
                    ..start
                }),
        {
            assert(s.take(i + 1).drop_last() =~= s.take(i as int));
            assert(s.take(i + 1).last() == effects@[i as int]@);
            assert(s[i as int] == effects@[i as int]@);
            if has_kind(&effects[i], ex_kind) {
                if let Some(uid) = effects[i].target_id {
                    mgr.add_ex_point(uid, value(effects[i].effect_num));
                }
            }
        }
        assert(s.take(s.len() as int) =~= s);
    }
    (effects, lost)
}

} // verus!
