//! Damage out of the caster's own life, raised by two buffs of faith.

use crate::arith::{
    div_toward_zero, divide, or_zero, sat_i32, saturating_product, saturating_sum, value,
};
use crate::config::{
    effect_of_skill, find_row, resolve_skill_effect_id, row_at, SkillEffectRow, SkillLinkRow,
};
use crate::fight_step::builder::{blank_hurt, numeric_effect, ActEffectBuilder};
use crate::lookup::{entity_of, find_entity};
use crate::model::lists::group_effects_view;
use crate::model::{
    effects_view, ActEffect, EffectType, EffectView, EntityView, Fight, FightHurtInfo, FightView,
};
use crate::text::{number, param, param_at, parse_number, trim_text, trimmed};
use vstd::prelude::*;

verus! {

broadcast use group_effects_view;

/// A hit of a skill: on whom, how hard, and the effect that it is shown for.
#[derive(Clone, Copy, PartialEq, Eq, Structural, Debug)]
pub struct FaithHit {
    pub target_uid: i64,
    pub amount: i32,
    pub config_effect: i32,
}

/// The life that damage is measured by: the larger of the maximum and what is left.
pub open spec fn measured_hp(e: EntityView) -> int {
    let current = or_zero(e.current_hp);
    let max = match e.attr {
        Some(a) => match a.hp {
            Some(hp) => hp,
            None => current,
        },
        None => current,
    };
    let larger = if max > current {
        max
    } else {
        current
    };
    if larger > 0 {
        larger as int
    } else {
        0
    }
}

/// The rate of two buffs together, each counted at its own rate.
pub open spec fn faith_permille(raw: Seq<char>, primary: i32, secondary: i32) -> int {
    let sum = sat_i32(
        div_toward_zero(sat_i32(primary * param(raw, 2)), 1000) + div_toward_zero(
            sat_i32(secondary * param(raw, 4)),
            1000,
        ),
    );
    if sum > 0 {
        sum
    } else {
        0
    }
}

/// What the caster pays: so many hundredths of its life.
pub open spec fn self_loss(raw: Seq<char>, current_hp: i32) -> int {
    let fifth = div_toward_zero(param(raw, 5) as int, 5);
    div_toward_zero(
        sat_i32(
            current_hp * (if fifth > 0 {
                fifth
            } else {
                0
            }),
        ),
        100,
    )
}

/// The damage to each target, at least one.
pub open spec fn faith_damage(max_hp: int, permille: int) -> int {
    let d = sat_i32(max_hp * permille) / 1000;
    if d > 1 {
        d
    } else {
        1
    }
}

/// The hits on some targets; nobody and the caster itself are passed over.
pub open spec fn hits_on(targets: Seq<i64>, caster: i64, damage: i32) -> Seq<FaithHit>
    decreases targets.len(),
{
    if targets.len() == 0 {
        Seq::empty()
    } else {
        let before = hits_on(targets.drop_last(), caster, damage);
        let t = targets.last();
        if t == 0 || t == caster {
            before
        } else {
            before.push(FaithHit { target_uid: t, amount: damage, config_effect: -1i32 })
        }
    }
}

/// All the hits of a behaviour: what the caster pays, then the targets.
pub open spec fn faith_hits(
    f: FightView,
    caster: i64,
    raw: Seq<char>,
    primary: i32,
    secondary: i32,
    targets: Seq<i64>,
) -> Seq<FaithHit> {
    match entity_of(f, caster) {
        Some(e) => {
            let loss = self_loss(raw, or_zero(e.current_hp));
            let permille = faith_permille(raw, primary, secondary);
            let paid = if loss > 0 {
                seq![FaithHit { target_uid: caster, amount: loss as i32, config_effect: 30006 }]
            } else {
                Seq::empty()
            };
            if permille <= 0 {
                paid
            } else {
                paid + hits_on(targets, caster, faith_damage(measured_hp(e), permille) as i32)
            }
        },
        None => Seq::empty(),
    }
}

/// The code of the targets of a skill; zero if its row names none.
pub open spec fn target_code(
    rows: Seq<SkillEffectRow>,
    links: Seq<SkillLinkRow>,
    skill_id: i32,
) -> i32 {
    match row_at(rows, effect_of_skill(links, skill_id)) {
        Some(row) => match number(trimmed(row.logic_target@)) {
            Some(n) => n,
            None => 0,
        },
        None => 0,
    }
}

/// Finds the code of the targets of a skill.
pub fn find_target_code(rows: &Vec<SkillEffectRow>, links: &Vec<SkillLinkRow>, skill_id: i32) -> (r:
    i32)
    ensures
        r == target_code(rows@, links@, skill_id),
{
    match find_row(rows, resolve_skill_effect_id(links, skill_id)) {
        Some(row) => {
            let code = trim_text(row.logic_target.as_str());
            match parse_number(code.as_str()) {
                Some(n) => n,
                None => 0,
            }
        },
        None => 0,
    }
}

/// The two buffs that a behaviour counts.
pub fn faith_buffs(raw: &str) -> (r: (i32, i32))
    ensures
        r == (param(raw@, 1), param(raw@, 3)),
{
    (param_at(raw, 1), param_at(raw, 3))
}

/// Works out the hits of a behaviour. `primary` and `secondary` are the rates of the
/// two buffs that it counts, `targets` the targets of its skill.
pub fn plan_faith_hits(
    fight: &Fight,
    caster: i64,
    raw: &str,
    primary: i32,
    secondary: i32,
    targets: &Vec<i64>,
) -> (r: Vec<FaithHit>)
    ensures
        r@ == faith_hits(fight@, caster, raw@, primary, secondary, targets@),
{
    let mut out: Vec<FaithHit> = Vec::new();
    if let Some(e) = find_entity(fight, caster) {
        let current = value(e.current_hp);
        let max: i32 = match e.attr {
            Some(a) => match a.hp {
                Some(hp) => hp,
                None => current,
            },
            None => current,
        };
        let larger: i32 = if max > current {
            max
        } else {
            current
        };
        let measured: i32 = if larger > 0 {
            larger
        } else {
            0
        };
        let first = divide(saturating_product(primary, param_at(raw, 2)), 1000);
        let second = divide(saturating_product(secondary, param_at(raw, 4)), 1000);
        let permille = saturating_sum(first, second);
        let fifth = divide(param_at(raw, 5), 5);
        let loss = divide(
            saturating_product(
                current,
                if fifth > 0 {
                    fifth
                } else {
                    0
                },
            ),
            100,
        );
        if loss > 0 {
            out.push(FaithHit { target_uid: caster, amount: loss, config_effect: 30006 });
        }
        let ghost paid = out@;
        assert(paid =~= if self_loss(raw@, or_zero(e@.current_hp)) > 0 {
            seq![FaithHit { target_uid: caster, amount: loss, config_effect: 30006 }]
        } else {
            Seq::empty()
        });
        if permille > 0 {
            let share: i32 = saturating_product(measured, permille) / 1000;
            let damage: i32 = if share > 1 {
                share
            } else {
                1
            };
            assert(measured * permille >= 0) by (nonlinear_arith)
                requires
                    measured >= 0,
                    permille > 0,
            ;
            assert(damage == faith_damage(measured_hp(e@), permille as int));
            assert(paid + hits_on(targets@.take(0), caster, damage) =~= paid);
            for i in 0..targets.len()
                invariant
                    out@ == paid + hits_on(targets@.take(i as int), caster, damage),
            {
                assert(targets@.take(i + 1).drop_last() =~= targets@.take(i as int));
                let t: i64 = targets[i];
                if t != 0 && t != caster {
                    out.push(FaithHit { target_uid: t, amount: damage, config_effect: -1 });
                }
                assert(out@ =~= paid + hits_on(targets@.take(i + 1), caster, damage));
            }
            assert(targets@.take(targets@.len() as int) =~= targets@);
        }
    }
    out
}

/// How some hits are shown, with the record of each.
pub open spec fn hits_shown(hits: Seq<FaithHit>, records: Seq<Option<FightHurtInfo>>) -> Seq<
    EffectView,
> {
    Seq::new(
        hits.len(),
        |i: int|
            numeric_effect(
                EffectType::Damage,
                hits[i].target_uid,
                hits[i].amount,
                Some(hits[i].config_effect),
                None,
                Some(
                    match records[i] {
                        Some(h) => h,
                        None => blank_hurt(),
                    },
                ),
            ),
    )
}

/// Shows some hits. `records` holds the record that the event queue kept of each.
pub fn show_faith_hits(hits: &Vec<FaithHit>, records: &Vec<Option<FightHurtInfo>>) -> (r: Vec<
    ActEffect,
>)
    requires
        records@.len() == hits@.len(),
    ensures
        effects_view(r@) == hits_shown(hits@, records@),
{
    let mut out: Vec<ActEffect> = Vec::new();
    for i in 0..hits.len()
        invariant
            records@.len() == hits@.len(),
            effects_view(out@) =~= hits_shown(hits@, records@).take(i as int),
    {
        let h = hits[i];
        out.push(
            ActEffectBuilder::damage_skill(h.target_uid, h.amount, h.config_effect, records[i]),
        );
    }
    assert(effects_view(out@) =~= hits_shown(hits@, records@));
    out
}

/// Works out and shows the hits of a behaviour. `primary` and `secondary` are the
/// rates of the two buffs that it counts, `targets` the targets of its skill, and
/// `records` holds the record that the event queue kept of each hit.
pub fn execute(
    fight: &Fight,
    caster: i64,
    raw: &str,
    primary: i32,
    secondary: i32,
    targets: &Vec<i64>,
    records: &Vec<Option<FightHurtInfo>>,
) -> (r: Vec<ActEffect>)
    requires
        records@.len() == faith_hits(fight@, caster, raw@, primary, secondary, targets@).len(),
    ensures
        effects_view(r@) == hits_shown(
            faith_hits(fight@, caster, raw@, primary, secondary, targets@),
            records@,
        ),
{
    let hits = plan_faith_hits(fight, caster, raw, primary, secondary, targets);
    show_faith_hits(&hits, records)
}

} // verus!
