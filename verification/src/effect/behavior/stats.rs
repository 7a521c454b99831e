//! Behaviours that show one change of a stat.

use crate::fight_step::builder::ActEffectBuilder;
use crate::model::lists::group_effects_view;
use crate::model::{effects_view, ActEffect, EffectType, EffectView};
use crate::text::{param, param_at};
use vstd::prelude::*;

verus! {

broadcast use group_effects_view;

/// A thirst for blood.
pub fn bloodlust(target: i64, amount: i32) -> (r: Vec<ActEffect>)
    ensures
        effects_view(r@) == seq![EffectView::amount(EffectType::Bloodlust, target, amount)],
{
    let mut out: Vec<ActEffect> = Vec::new();
    out.push(ActEffectBuilder::bloodlust(target, amount));
    assert(effects_view(out@) =~= seq![
        EffectView::amount(EffectType::Bloodlust, target, amount),
    ]);
    out
}

/// The effect of a change of power.
pub open spec fn power_changed(target: i64, amount: i32) -> EffectView {
    EffectView {
        config_effect: Some(1),
        ..EffectView::amount(EffectType::PowerChange, target, amount)
    }
}

/// A change of power.
pub fn change_power(target: i64, amount: i32) -> (r: Vec<ActEffect>)
    ensures
        effects_view(r@) == seq![power_changed(target, amount)],
{
    let mut out: Vec<ActEffect> = Vec::new();
    out.push(ActEffectBuilder::power_change(Some(target), amount, Some(1)));
    assert(effects_view(out@) =~= seq![power_changed(target, amount)]);
    out
}

/// An evening-out of life.
pub fn average_life(target: i64) -> (r: Vec<ActEffect>)
    ensures
        effects_view(r@) == seq![EffectView::on(EffectType::AverageLife, target)],
{
    let mut out: Vec<ActEffect> = Vec::new();
    out.push(ActEffectBuilder::average_life(target));
    assert(effects_view(out@) =~= seq![EffectView::on(EffectType::AverageLife, target)]);
    out
}

/// What a behaviour of this family shows on a target.
pub open spec fn stat_effects(id: i32, target: i64, amount: i32) -> Seq<EffectView> {
    if id == 20010 {
        seq![EffectView::amount(EffectType::Bloodlust, target, amount)]
    } else if id == 20011 {
        seq![EffectView::on(EffectType::AverageLife, target)]
    } else if id == 50017 || id == 50037 {
        seq![power_changed(target, amount)]
    } else {
        Seq::empty()
    }
}

/// What a behaviour of this family shows on some targets.
pub open spec fn all_stat_effects(id: i32, targets: Seq<i64>, amount: i32) -> Seq<EffectView>
    decreases targets.len(),
{
    if targets.len() == 0 {
        Seq::empty()
    } else {
        all_stat_effects(id, targets.drop_last(), amount) + stat_effects(
            id,
            targets.last(),
            amount,
        )
    }
}

/// Shows the change of a stat on each of some targets.
pub fn execute(behaviour_id: i32, targets: &Vec<i64>, raw: &str) -> (r: Vec<ActEffect>)
    ensures
        effects_view(r@) == all_stat_effects(behaviour_id, targets@, param(raw@, 1)),
{
    let amount = param_at(raw, 1);
    let mut out: Vec<ActEffect> = Vec::new();
    assert(effects_view(out@) =~= all_stat_effects(behaviour_id, targets@.take(0), amount));
    for i in 0..targets.len()
        invariant
            effects_view(out@) == all_stat_effects(behaviour_id, targets@.take(i as int), amount),
    {
        assert(targets@.take(i + 1).drop_last() =~= targets@.take(i as int));
        let target: i64 = targets[i];
        let mut shown = match behaviour_id {
            20010 => bloodlust(target, amount),
            20011 => average_life(target),
            50017 | 50037 => change_power(target, amount),
            _ => Vec::new(),
        };
        assert(effects_view(shown@) =~= stat_effects(behaviour_id, target, amount));
        out.append(&mut shown);
    }
    assert(targets@.take(targets@.len() as int) =~= targets@);
    out
}

} // verus!
