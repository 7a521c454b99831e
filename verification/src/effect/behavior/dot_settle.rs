//! The settling of poison at the start of a round: all the poison on a carrier
//! goes off in one hit, and the poison stays.

use crate::arith::{or_zero, sat_i32, saturating_difference, saturating_product, saturating_sum, value};
use crate::buffs::BuffMgr;
use crate::effect::behavior::damage::{poisons_of, target_poisons, DotRow, PoisonHit};
use crate::fight_step::builder::{numeric_effect, ActEffectBuilder};
use crate::lookup::{entity_of, find_entity};
use crate::model::lists::group_effects_view;
use crate::model::{effects_view, ActEffect, EffectType, EffectView, Fight, FightView};
use vstd::prelude::*;

verus! {

broadcast use group_effects_view;

/// The damage of a poison that settles, as a crit, given its damage after the
/// carrier's fixes.
pub open spec fn settled(h: PoisonHit, fixed: i32) -> int {
    if fixed <= 0 {
        0
    } else {
        sat_i32(sat_i32(fixed * 1390) / 1000 * h.stacks)
    }
}

/// The damage of some poisons together, held at the end of the range.
pub open spec fn settled_all(hits: Seq<PoisonHit>, fixed: Seq<i32>) -> int
    decreases hits.len(),
{
    if hits.len() == 0 {
        0
    } else {
        let i = hits.len() - 1;
        sat_i32(settled_all(hits.drop_last(), fixed) + settled(hits[i], fixed[i]))
    }
}

/// Sums up the damage of some poisons that settle. `fixed` is the damage of each
/// after the carrier's fixes.
pub fn settle_damage(hits: &Vec<PoisonHit>, fixed: &Vec<i32>) -> (r: i32)
    requires
        fixed@.len() == hits@.len(),
    ensures
        r == settled_all(hits@, fixed@),
{
    let mut total: i32 = 0;
    assert(hits@.take(0).len() == 0);
    for i in 0..hits.len()
        invariant
            fixed@.len() == hits@.len(),
            total == settled_all(hits@.take(i as int), fixed@),
    {
        assert(hits@.take(i + 1).drop_last() =~= hits@.take(i as int));
        assert(hits@.take(i + 1)[i as int] == hits@[i as int]);
        let base = fixed[i];
        if base > 0 {
            let crit: i32 = saturating_product(base, 1390) / 1000;
            total = saturating_sum(total, saturating_product(crit, hits[i].stacks));
        }
    }
    assert(hits@.take(hits@.len() as int) =~= hits@);
    total
}

/// Whether a hit gets through the shield of a fighter and takes all its life.
pub open spec fn kills(f: FightView, uid: i64, damage: i32) -> bool {
    match entity_of(f, uid) {
        Some(e) => {
            let through = sat_i32(damage - or_zero(e.shield_value));
            through > 0 && or_zero(e.current_hp) <= through
        },
        None => false,
    }
}

/// Tests whether a hit gets through the shield of a fighter and takes all its life.
pub fn entity_will_die_from(fight: &Fight, uid: i64, damage: i32) -> (r: bool)
    ensures
        r == kills(fight@, uid, damage),
{
    match find_entity(fight, uid) {
        Some(e) => {
            let through = saturating_difference(damage, value(e.shield_value));
            through > 0 && value(e.current_hp) <= through
        },
        None => false,
    }
}

/// The settling of some damage: one crit on the carrier and, if and only if the
/// carrier dies of it, its death. Nothing else is shown.
pub open spec fn settle_view(f: FightView, carrier: i64, damage: i32) -> Seq<EffectView> {
    let hit = numeric_effect(EffectType::OriginCrit, carrier, damage, Some(60073), None, None);
    if kills(f, carrier, damage) {
        seq![hit, EffectView::amount(EffectType::Dead, carrier, 0)]
    } else {
        seq![hit]
    }
}

/// Shows the settling of some damage.
pub fn settle_effects(fight: &Fight, carrier: i64, damage: i32) -> (r: Vec<ActEffect>)
    ensures
        effects_view(r@) == settle_view(fight@, carrier, damage),
{
    let mut out: Vec<ActEffect> = Vec::new();
    out.push(ActEffectBuilder::origin_crit(carrier, damage, Some(60073)));
    if entity_will_die_from(fight, carrier, damage) {
        out.push(ActEffectBuilder::dead(carrier));
    }
    assert(effects_view(out@) =~= settle_view(fight@, carrier, damage));
    out
}

/// The poisons that settle on a carrier; none on an id of zero.
pub open spec fn settling_on(f: FightView, rows: Seq<DotRow>, buffs: BuffMgr, carrier: i64) -> Seq<
    PoisonHit,
> {
    if carrier == 0 {
        Seq::empty()
    } else {
        poisons_of(f, rows, buffs.of(carrier))
    }
}

/// Lists the poisons that settle on a carrier.
pub fn settling_poisons(fight: &Fight, buffs: &BuffMgr, rows: &Vec<DotRow>, carrier: i64) -> (r:
    Vec<PoisonHit>)
    ensures
        r@ == settling_on(fight@, rows@, *buffs, carrier),
{
    if carrier == 0 {
        return Vec::new();
    }
    target_poisons(fight, buffs, rows, carrier)
}

/// Settles the poisons of a carrier. `fixed` is the damage of each after the
/// carrier's fixes. Without damage nothing is shown.
pub fn execute(
    fight: &Fight,
    buffs: &BuffMgr,
    rows: &Vec<DotRow>,
    carrier: i64,
    fixed: &Vec<i32>,
) -> (r: Vec<ActEffect>)
    requires
        fixed@.len() == settling_on(fight@, rows@, *buffs, carrier).len(),
    ensures
        effects_view(r@) == ({
            let total = settled_all(settling_on(fight@, rows@, *buffs, carrier), fixed@);
            if total > 0 {
                settle_view(fight@, carrier, total as i32)
            } else {
                Seq::empty()
            }
        }),
{
    let hits = settling_poisons(fight, buffs, rows, carrier);
    let total = settle_damage(&hits, fixed);
    if total <= 0 {
        let none: Vec<ActEffect> = Vec::new();
        assert(effects_view(none@) =~= Seq::empty());
        return none;
    }
    settle_effects(fight, carrier, total)
}

} // verus!
