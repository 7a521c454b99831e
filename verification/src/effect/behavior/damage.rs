//! Behaviours that hit: plain damage, detonations, and damage by stacks.

use crate::arith::{
    div_toward_zero, divide, or_zero, sat_i32, saturating_difference, saturating_product,
    saturating_sum, value,
};
use crate::buffs::{find_buff, first_buff, BuffInstance, BuffMgr};
use crate::config::{
    find_row, find_shared_params, row_at, shared_params, BuffActRow, Row, SharedParamsRow,
    SkillBuffRow,
};
use crate::event::update_effect;
use crate::fight_step::builder::{
    effect_container_step, fresh_buff_add, numeric_effect, row_delete_layer, ActEffectBuilder,
    BuffStamp,
};
use crate::lookup::{entity_of, find_entity};
use crate::mechanics::channel::{read_trimmed, same_side, side, trimmed_number};
use crate::mechanics::injury_counter::after_hit;
use crate::model::lists::group_effects_view;
use crate::model::{
    effects_view, ActEffect, BuffInfoView, EffectType, EffectView, EntityView, Fight, FightView,
    StepView,
};
use crate::text::{
    param, param_at, pieces, split_text, text_is, texts_view,
};
use vstd::prelude::*;

verus! {

broadcast use group_effects_view;

/// What a behaviour of this family does to each of its targets.
#[derive(Clone, Copy, PartialEq, Eq, Structural, Debug)]
pub enum DamagePlan {
    /// A hit at a rate.
    Hit { rate: i32 },
    /// The detonation of the potion master: a hit at a rate, the poisons of the
    /// target, and cures for the allies.
    PotionDetonation { rate: i32, granted_buff_id: i32 },
    /// A hit that grows with the stacks of a buff group on the target.
    ByStacks { attr_id: i32, permille: i32, group_id: i32 },
    Nothing,
}

/// Two thirds of a rate, and never less than nothing.
pub open spec fn two_thirds(rate: i32) -> i32 {
    let r = div_toward_zero(sat_i32(rate * 2), 3) as i32;
    if r > 0 {
        r
    } else {
        0
    }
}

/// What a behaviour of this family does.
pub open spec fn damage_plan(id: i32, raw: Seq<char>, skill_id: i32) -> DamagePlan {
    if id == 60215 {
        DamagePlan::Nothing
    } else if id == 20009 {
        let rate = two_thirds(param(raw, 1));
        if skill_id == 300901321 && param(raw, 2) == 30091111 {
            DamagePlan::PotionDetonation { rate, granted_buff_id: param(raw, 2) }
        } else {
            DamagePlan::Hit { rate }
        }
    } else if id == 60127 {
        DamagePlan::ByStacks {
            attr_id: param(raw, 2),
            permille: param(raw, 3),
            group_id: param(raw, 4),
        }
    } else {
        DamagePlan::Hit { rate: param(raw, 1) }
    }
}

/// Decides what a behaviour of this family does.
pub fn plan_damage(behaviour_id: i32, raw: &str, skill_id: i32) -> (r: DamagePlan)
    ensures
        r == damage_plan(behaviour_id, raw@, skill_id),
{
    match behaviour_id {
        60215 => DamagePlan::Nothing,
        20009 => {
            let scaled = divide(saturating_product(param_at(raw, 1), 2), 3);
            let rate: i32 = if scaled > 0 {
                scaled
            } else {
                0
            };
            let granted_buff_id = param_at(raw, 2);
            if skill_id == 300901321 && granted_buff_id == 30091111 {
                DamagePlan::PotionDetonation { rate, granted_buff_id }
            } else {
                DamagePlan::Hit { rate }
            }
        },
        60127 => DamagePlan::ByStacks {
            attr_id: param_at(raw, 2),
            permille: param_at(raw, 3),
            group_id: param_at(raw, 4),
        },
        _ => DamagePlan::Hit { rate: param_at(raw, 1) },
    }
}

/// Whether an effect is one of the six kinds of emitted damage.
pub open spec fn is_emitted_damage(t: Option<EffectType>) -> bool {
    ||| t == Some(EffectType::Damage)
    ||| t == Some(EffectType::Crit)
    ||| t == Some(EffectType::OriginDamage)
    ||| t == Some(EffectType::OriginCrit)
    ||| t == Some(EffectType::AdditionalDamage)
    ||| t == Some(EffectType::AdditionalDamageCrit)
}

/// Tests whether an effect is one of the six kinds of emitted damage.
pub fn is_damage_effect_type(t: Option<EffectType>) -> (r: bool)
    ensures
        r == is_emitted_damage(t),
{
    match t {
        Some(EffectType::Damage) => true,
        Some(EffectType::Crit) => true,
        Some(EffectType::OriginDamage) => true,
        Some(EffectType::OriginCrit) => true,
        Some(EffectType::AdditionalDamage) => true,
        Some(EffectType::AdditionalDamageCrit) => true,
        _ => false,
    }
}

/// The damage of an effect to a target; none for any other effect.
pub open spec fn damage_to(e: EffectView, target: i64) -> Option<i32> {
    if e.target_id == Some(target) && is_emitted_damage(e.effect_type) {
        Some(
            if or_zero(e.effect_num) > 0 {
                or_zero(e.effect_num)
            } else {
                0
            },
        )
    } else {
        None
    }
}

fn read_damage_to(e: &ActEffect, target: i64) -> (r: Option<i32>)
    ensures
        r == damage_to(e@, target),
{
    match e.target_id {
        Some(uid) => if uid == target && is_damage_effect_type(e.effect_type) {
            let n = value(e.effect_num);
            Some(
                if n > 0 {
                    n
                } else {
                    0
                },
            )
        } else {
            None
        },
        None => None,
    }
}

/// The life and shield of a target under some hits, and whether one of them killed
/// it. Hits after the killing one no longer count.
pub struct Endurance {
    pub hp: i32,
    pub shield: i32,
    pub died: bool,
}

/// The endurance of a target after some effects.
pub open spec fn endured(start: Endurance, s: Seq<EffectView>, target: i64) -> Endurance
    decreases s.len(),
{
    if s.len() == 0 {
        start
    } else {
        let before = endured(start, s.drop_last(), target);
        match damage_to(s.last(), target) {
            Some(damage) => if before.died {
                before
            } else {
                let now = after_hit(before.hp, before.shield, damage);
                Endurance { hp: now.0, shield: now.1, died: now.0 <= 0 }
            },
            None => before,
        }
    }
}

/// Whether some effects kill a target.
pub open spec fn would_die(f: FightView, target: i64, s: Seq<EffectView>) -> bool {
    match entity_of(f, target) {
        Some(e) => endured(
            Endurance {
                hp: or_zero(e.current_hp),
                shield: or_zero(e.shield_value),
                died: false,
            },
            s,
            target,
        ).died,
        None => false,
    }
}

/// Once dead, a target stays dead.
proof fn died_stays(start: Endurance, s: Seq<EffectView>, n: int, target: i64)
    requires
        0 <= n <= s.len(),
        endured(start, s.take(n), target).died,
    ensures
        endured(start, s, target).died,
    decreases s.len() - n,
{
    if n < s.len() {
        assert(s.take(n + 1).drop_last() =~= s.take(n));
        died_stays(start, s, n + 1, target);
    } else {
        assert(s.take(n) =~= s);
    }
}

/// Tests whether some effects kill a target.
pub fn target_would_die(fight: &Fight, target_uid: i64, effects: &Vec<ActEffect>) -> (r: bool)
    ensures
        r == would_die(fight@, target_uid, effects_view(effects@)),
{
    match find_entity(fight, target_uid) {
        Some(e) => {
            let mut hp = value(e.current_hp);
            let mut shield = value(e.shield_value);
            let ghost start = Endurance { hp, shield, died: false };
            let ghost s = effects_view(effects@);
            assert(s.take(0).len() == 0);
            for i in 0..effects.len()
                invariant
                    s == effects_view(effects@),
                    entity_of(fight@, target_uid) == Some(e@),
                    start == (Endurance {
                        hp: or_zero(e@.current_hp),
                        shield: or_zero(e@.shield_value),
                        died: false,
                    }),
                    endured(start, s.take(i as int), target_uid) == (Endurance {
                        hp,
                        shield,
                        died: false,
                    }),
            {
                assert(s.take(i + 1).drop_last() =~= s.take(i as int));
                assert(s.take(i + 1).last() == effects@[i as int]@);
                if let Some(damage) = read_damage_to(&effects[i], target_uid) {
                    let absorbed: i32 = if damage <= shield {
                        damage
                    } else {
                        shield
                    };
                    let through = saturating_difference(damage, absorbed);
                    shield = saturating_difference(shield, absorbed);
                    hp = saturating_difference(hp, through);
                    if hp <= 0 {
                        proof {
                            died_stays(start, s, i + 1, target_uid);
                        }
                        return true;
                    }
                }
            }
            assert(s.take(s.len() as int) =~= s);
            false
        },
        None => false,
    }
}

/// The rate of an advanced cure that some feature entries name. The first entry
/// without a known act ends the search.
pub open spec fn cure_in(entries: Seq<Seq<char>>, acts: Seq<BuffActRow>) -> Option<i32>
    decreases entries.len(),
{
    if entries.len() == 0 {
        None
    } else {
        let parts = pieces(entries[0], '#');
        match trimmed_number(parts, 0) {
            Some(act_id) => match row_at(acts, act_id) {
                Some(act) => if act.act_type@ == "AdvancedCure"@ {
                    trimmed_number(parts, 3)
                } else {
                    cure_in(entries.skip(1), acts)
                },
                None => None,
            },
            None => None,
        }
    }
}

/// The rate of the advanced cure of a buff.
pub open spec fn cure_permille(
    rows: Seq<SkillBuffRow>,
    acts: Seq<BuffActRow>,
    buff_id: i32,
) -> Option<i32> {
    match row_at(rows, buff_id) {
        Some(row) => cure_in(pieces(row.features@, '|'), acts),
        None => None,
    }
}

/// Finds the rate of the advanced cure of a buff.
pub fn advanced_cure_permille(
    rows: &Vec<SkillBuffRow>,
    acts: &Vec<BuffActRow>,
    buff_id: i32,
) -> (r: Option<i32>)
    ensures
        r == cure_permille(rows@, acts@, buff_id),
{
    match find_row(rows, buff_id) {
        Some(row) => {
            let entries = split_text(row.features.as_str(), '|');
            let ghost ps = pieces(row.features@, '|');
            assert(ps.skip(0) =~= ps);
            let mut i: usize = 0;
            while i < entries.len()
                invariant
                    i <= entries@.len(),
                    texts_view(entries@) == ps,
                    ps == pieces(row.features@, '|'),
                    row_at(rows@, buff_id) == Some(*row),
                    cure_in(ps.skip(i as int), acts@) == cure_in(ps, acts@),
                decreases entries@.len() - i,
            {
                assert(ps.skip(i as int)[0] == entries@[i as int]@);
                assert(ps.skip(i as int).skip(1) =~= ps.skip(i + 1));
                let parts = split_text(entries[i].as_str(), '#');
                match read_trimmed(&parts, 0) {
                    Some(act_id) => match find_row(acts, act_id) {
                        Some(act) => {
                            if text_is(&act.act_type, "AdvancedCure") {
                                return read_trimmed(&parts, 3);
                            }
                        },
                        None => {
                            return None;
                        },
                    },
                    None => {
                        return None;
                    },
                }
                i += 1;
            }
            None
        },
        None => None,
    }
}

/// The rate of the damage over time of a buff, in thousandths of its source's
/// attack.
#[derive(Clone, Copy, PartialEq, Eq, Structural, Debug)]
pub struct DotRow {
    pub buff_id: i32,
    pub permille: i32,
}

impl Row for DotRow {
    open spec fn key(&self) -> i32 {
        self.buff_id
    }

    fn id(&self) -> (r: i32) {
        self.buff_id
    }
}

/// The attack of a fighter.
pub open spec fn attack_of(e: EntityView) -> i32 {
    match e.attr {
        Some(a) => or_zero(a.attack),
        None => 0,
    }
}

/// Looks up the attack of a fighter.
pub fn find_attack(fight: &Fight, uid: i64) -> (r: Option<i32>)
    ensures
        r == match entity_of(fight@, uid) {
            Some(e) => Some(attack_of(e)),
            None => None,
        },
{
    match find_entity(fight, uid) {
        Some(e) => Some(
            match e.attr {
                Some(a) => value(a.attack),
                None => 0,
            },
        ),
        None => None,
    }
}

/// A poison that goes off: its damage before the target's fixes, its stacks and its
/// rounds.
#[derive(Clone, Copy, PartialEq, Eq, Structural, Debug)]
pub struct PoisonHit {
    pub raw: i32,
    pub stacks: i32,
    pub rounds: i32,
}

/// The larger of a number and one.
pub open spec fn at_least_one(x: i32) -> i32 {
    if x > 1 {
        x
    } else {
        1
    }
}

/// The poison of a buff; none without damage over time or without an attack behind
/// it.
pub open spec fn poison_of(f: FightView, rows: Seq<DotRow>, b: BuffInstance) -> Option<PoisonHit> {
    match row_at(rows, b.buff_id) {
        Some(row) => match entity_of(f, b.from_uid) {
            Some(e) => if attack_of(e) > 0 {
                Some(
                    PoisonHit {
                        raw: div_toward_zero(sat_i32(attack_of(e) * row.permille), 1000) as i32,
                        stacks: at_least_one(b.layer),
                        rounds: at_least_one(b.duration),
                    },
                )
            } else {
                None
            },
            None => None,
        },
        None => None,
    }
}

/// The poisons of some buffs.
pub open spec fn poisons_of(f: FightView, rows: Seq<DotRow>, s: Seq<BuffInstance>) -> Seq<PoisonHit>
    decreases s.len(),
{
    if s.len() == 0 {
        Seq::empty()
    } else {
        let before = poisons_of(f, rows, s.drop_last());
        match poison_of(f, rows, s.last()) {
            Some(h) => before.push(h),
            None => before,
        }
    }
}

/// Lists the poisons of a target.
pub fn target_poisons(fight: &Fight, buffs: &BuffMgr, rows: &Vec<DotRow>, target: i64) -> (r: Vec<
    PoisonHit,
>)
    ensures
        r@ == poisons_of(fight@, rows@, buffs.of(target)),
{
    let held = buffs.get(target);
    let mut out: Vec<PoisonHit> = Vec::new();
    assert(held@.take(0).len() == 0);
    for i in 0..held.len()
        invariant
            out@ == poisons_of(fight@, rows@, held@.take(i as int)),
    {
        assert(held@.take(i + 1).drop_last() =~= held@.take(i as int));
        let b = held[i];
        if let Some(row) = find_row(rows, b.buff_id) {
            if let Some(attack) = find_attack(fight, b.from_uid) {
                if attack > 0 {
                    out.push(
                        PoisonHit {
                            raw: divide(saturating_product(attack, row.permille), 1000),
                            stacks: if b.layer > 1 {
                                b.layer
                            } else {
                                1
                            },
                            rounds: if b.duration > 1 {
                                b.duration
                            } else {
                                1
                            },
                        },
                    );
                }
            }
        }
    }
    assert(held@.take(held@.len() as int) =~= held@);
    out
}

/// The damage of a poison that goes off, as a crit, given its damage after the
/// target's fixes.
pub open spec fn detonated(h: PoisonHit, fixed: i32) -> int {
    if fixed <= 0 {
        0
    } else {
        sat_i32(sat_i32(sat_i32(fixed * 1390) / 1000 * h.stacks) * h.rounds)
    }
}

/// The damage of some poisons together, held at the end of the range.
pub open spec fn detonated_all(hits: Seq<PoisonHit>, fixed: Seq<i32>) -> int
    decreases hits.len(),
{
    if hits.len() == 0 {
        0
    } else {
        let i = hits.len() - 1;
        sat_i32(detonated_all(hits.drop_last(), fixed) + detonated(hits[i], fixed[i]))
    }
}

/// The damage of the poisons of a target that go off, if there is any.
pub open spec fn poison_damage_of(
    f: FightView,
    rows: Seq<DotRow>,
    buffs: BuffMgr,
    target: i64,
    fixed: Seq<i32>,
) -> Option<i32> {
    let total = detonated_all(poisons_of(f, rows, buffs.of(target)), fixed);
    if total > 0 {
        Some(total as i32)
    } else {
        None
    }
}

/// Sums up the damage of the poisons of a target that go off. `fixed` is the damage
/// of each after the target's fixes. Nothing goes off where there is no damage.
pub fn detonate_target_poison_damage(
    fight: &Fight,
    buffs: &BuffMgr,
    rows: &Vec<DotRow>,
    target: i64,
    fixed: &Vec<i32>,
) -> (r: Option<i32>)
    requires
        fixed@.len() == poisons_of(fight@, rows@, buffs.of(target)).len(),
    ensures
        r == poison_damage_of(fight@, rows@, *buffs, target, fixed@),
{
    let hits = target_poisons(fight, buffs, rows, target);
    let mut total: i32 = 0;
    assert(hits@.take(0).len() == 0);
    for i in 0..hits.len()
        invariant
            fixed@.len() == hits@.len(),
            total == detonated_all(hits@.take(i as int), fixed@),
    {
        assert(hits@.take(i + 1).drop_last() =~= hits@.take(i as int));
        assert(hits@.take(i + 1)[i as int] == hits@[i as int]);
        let base = fixed[i];
        if base > 0 {
            let crit: i32 = saturating_product(base, 1390) / 1000;
            let hit = saturating_product(
                saturating_product(crit, hits[i].stacks),
                hits[i].rounds,
            );
            total = saturating_sum(total, hit);
        }
    }
    assert(hits@.take(hits@.len() as int) =~= hits@);
    if total > 0 {
        Some(total)
    } else {
        None
    }
}

/// A cure that goes off: on whom, for how much, and the buff that it ends.
#[derive(Clone, Copy, PartialEq, Eq, Structural, Debug)]
pub struct CureStep {
    pub ally_uid: i64,
    pub heal: i32,
    pub buff: BuffInstance,
}

/// The cures of some buffs of an ally; only cures with a rate count, and only with
/// a caster.
pub open spec fn cures_of(
    attack: Option<i32>,
    rows: Seq<SkillBuffRow>,
    acts: Seq<BuffActRow>,
    ally_uid: i64,
    s: Seq<BuffInstance>,
) -> Seq<CureStep>
    decreases s.len(),
{
    if s.len() == 0 {
        Seq::empty()
    } else {
        let before = cures_of(attack, rows, acts, ally_uid, s.drop_last());
        let b = s.last();
        let rate = cure_permille(rows, acts, b.buff_id);
        if b.type_id == 30091111 && rate is Some && attack is Some {
            before.push(
                CureStep {
                    ally_uid,
                    heal: div_toward_zero(sat_i32(attack->0 * rate->0), 1000) as i32,
                    buff: b,
                },
            )
        } else {
            before
        }
    }
}

/// The cures of some allies.
pub open spec fn all_cures(
    attack: Option<i32>,
    rows: Seq<SkillBuffRow>,
    acts: Seq<BuffActRow>,
    buffs: BuffMgr,
    allies: Seq<i64>,
) -> Seq<CureStep>
    decreases allies.len(),
{
    if allies.len() == 0 {
        Seq::empty()
    } else {
        all_cures(attack, rows, acts, buffs, allies.drop_last()) + cures_of(
            attack,
            rows,
            acts,
            allies.last(),
            buffs.of(allies.last()),
        )
    }
}

/// Lists the cures that go off for the allies of a caster.
pub fn plan_cures(
    fight: &Fight,
    caster_uid: i64,
    allies: &Vec<i64>,
    buffs: &BuffMgr,
    rows: &Vec<SkillBuffRow>,
    acts: &Vec<BuffActRow>,
) -> (r: Vec<CureStep>)
    ensures
        r@ == all_cures(
            match entity_of(fight@, caster_uid) {
                Some(e) => Some(attack_of(e)),
                None => None,
            },
            rows@,
            acts@,
            *buffs,
            allies@,
        ),
{
    let attack = find_attack(fight, caster_uid);
    let mut out: Vec<CureStep> = Vec::new();
    assert(allies@.take(0).len() == 0);
    for i in 0..allies.len()
        invariant
            out@ == all_cures(attack, rows@, acts@, *buffs, allies@.take(i as int)),
    {
        assert(allies@.take(i + 1).drop_last() =~= allies@.take(i as int));
        let ally_uid: i64 = allies[i];
        let held = buffs.get(ally_uid);
        let ghost start = out@;
        assert(start + cures_of(attack, rows@, acts@, ally_uid, held@.take(0)) =~= start);
        for j in 0..held.len()
            invariant
                out@ == start + cures_of(
                    attack,
                    rows@,
                    acts@,
                    ally_uid,
                    held@.take(j as int),
                ),
        {
            assert(held@.take(j + 1).drop_last() =~= held@.take(j as int));
            let b = held[j];
            if b.type_id == 30091111 {
                if let Some(rate) = advanced_cure_permille(rows, acts, b.buff_id) {
                    if let Some(a) = attack {
                        out.push(
                            CureStep {
                                ally_uid,
                                heal: divide(saturating_product(a, rate), 1000),
                                buff: b,
                            },
                        );
                    }
                }
            }
            assert(out@ =~= start + cures_of(
                attack,
                rows@,
                acts@,
                ally_uid,
                held@.take(j + 1),
            ));
        }
        assert(held@.take(held@.len() as int) =~= held@);
    }
    assert(allies@.take(allies@.len() as int) =~= allies@);
    out
}

/// The end of a buff, shown.
pub open spec fn end_of_buff(
    rows: Seq<SkillBuffRow>,
    target: i64,
    buff_uid: i64,
    buff_id: i32,
    from_uid: i64,
) -> EffectView {
    EffectView {
        buff: Some(
            BuffInfoView {
                buff_id: Some(buff_id),
                duration: None,
                uid: Some(buff_uid),
                ex_info: None,
                from_uid: Some(from_uid),
                count: None,
                act_common_params: None,
                layer: Some(row_delete_layer(rows, buff_id)),
                layer_type: None,
                act_info: Seq::empty(),
            },
        ),
        ..EffectView::on(EffectType::BuffDel, target)
    }
}

/// The effects of some cures: each heals if it heals at all, then its buff ends.
/// `heals` are the heals, as the event queue shows them.
pub open spec fn cure_effects(
    rows: Seq<SkillBuffRow>,
    cures: Seq<CureStep>,
    heals: Seq<EffectView>,
) -> Seq<EffectView>
    decreases cures.len(),
{
    if cures.len() == 0 {
        Seq::empty()
    } else {
        let i = cures.len() - 1;
        let c = cures[i];
        let before = cure_effects(rows, cures.drop_last(), heals);
        let healed = if c.heal > 0 {
            before.push(heals[i])
        } else {
            before
        };
        healed.push(end_of_buff(rows, c.ally_uid, c.buff.uid, c.buff.buff_id, c.buff.from_uid))
    }
}

/// Shows some cures. `heals` holds the heal of each cure, in their order.
pub fn show_cures(rows: &Vec<SkillBuffRow>, cures: &Vec<CureStep>, heals: &Vec<ActEffect>) -> (r:
    Vec<ActEffect>)
    requires
        heals@.len() == cures@.len(),
    ensures
        effects_view(r@) == cure_effects(rows@, cures@, effects_view(heals@)),
{
    let mut out: Vec<ActEffect> = Vec::new();
    let ghost hs = effects_view(heals@);
    assert(cures@.take(0).len() == 0);
    for i in 0..cures.len()
        invariant
            heals@.len() == cures@.len(),
            hs == effects_view(heals@),
            effects_view(out@) == cure_effects(rows@, cures@.take(i as int), hs),
    {
        assert(cures@.take(i + 1).drop_last() =~= cures@.take(i as int));
        assert(cures@.take(i + 1)[i as int] == cures@[i as int]);
        assert(hs[i as int] == heals@[i as int]@);
        let c = cures[i];
        if c.heal > 0 {
            out.push(heals[i].clone());
        }
        out.push(
            ActEffectBuilder::buff_del(
                rows,
                c.ally_uid,
                c.buff.uid,
                c.buff.buff_id,
                c.buff.from_uid,
            ),
        );
    }
    assert(cures@.take(cures@.len() as int) =~= cures@);
    out
}

/// The id of the cure that an ally got: that of its last new cure with an id.
pub open spec fn cure_of_ally(allies: Seq<i64>, uids: Seq<i64>, ally: i64) -> Option<i64>
    decreases allies.len(),
{
    if allies.len() == 0 {
        None
    } else {
        let i = allies.len() - 1;
        if allies[i] == ally && uids[i] != 0 {
            Some(uids[i])
        } else {
            cure_of_ally(allies.drop_last(), uids, ally)
        }
    }
}

fn find_cure_of_ally(allies: &Vec<i64>, uids: &Vec<i64>, ally: i64) -> (r: Option<i64>)
    requires
        uids@.len() == allies@.len(),
    ensures
        r == cure_of_ally(allies@, uids@, ally),
{
    let mut i: usize = allies.len();
    assert(allies@.take(i as int) =~= allies@);
    while i > 0
        invariant
            i <= allies@.len(),
            uids@.len() == allies@.len(),
            cure_of_ally(allies@.take(i as int), uids@, ally) == cure_of_ally(
                allies@,
                uids@,
                ally,
            ),
        decreases i,
    {
        i -= 1;
        assert(allies@.take(i + 1).drop_last() =~= allies@.take(i as int));
        if allies[i] == ally && uids[i] != 0 {
            return Some(uids[i]);
        }
    }
    None
}

/// A potion that is spent: who spends it, what the allies gain, and the ids of the
/// new buffs. `poison_uids` holds one for each stack and target, stack by stack;
/// `cure_uids` one for each ally.
pub struct PotionUse {
    pub caster_uid: i64,
    pub granted_buff_id: i32,
    pub poison_uids: Vec<i64>,
    pub cure_uids: Vec<i64>,
}

impl PotionUse {
    /// The poisons of one stack, from some targets on.
    pub open spec fn poisons(
        &self,
        rows: Seq<SkillBuffRow>,
        shared: Seq<SharedParamsRow>,
        targets: Seq<i64>,
        first: int,
    ) -> Seq<EffectView>
        decreases targets.len(),
    {
        if targets.len() == 0 {
            Seq::empty()
        } else {
            let i = targets.len() - 1;
            self.poisons(rows, shared, targets.drop_last(), first).push(
                fresh_buff_add(
                    rows,
                    self.poison_uids@[first + i],
                    shared_params(shared, 300901412),
                    targets[i],
                    self.caster_uid,
                    300901412,
                    0,
                    0,
                ),
            ).push(EffectView::amount(EffectType::Poison, targets[i], 0))
        }
    }

    /// The cures of one stack: the first stack is a new buff for each ally, each
    /// later one a further layer of it.
    pub open spec fn cures(
        &self,
        rows: Seq<SkillBuffRow>,
        shared: Seq<SharedParamsRow>,
        allies: Seq<i64>,
        n: int,
        stack: int,
    ) -> Seq<EffectView>
        decreases n,
    {
        if n <= 0 {
            Seq::empty()
        } else {
            let before = self.cures(rows, shared, allies, n - 1, stack);
            let ally = allies[n - 1];
            if stack == 0 {
                before.push(
                    fresh_buff_add(
                        rows,
                        self.cure_uids@[n - 1],
                        shared_params(shared, self.granted_buff_id),
                        ally,
                        self.caster_uid,
                        self.granted_buff_id,
                        1,
                        0,
                    ),
                ).push(EffectView::on(EffectType::NoEffect, ally))
            } else {
                match cure_of_ally(allies, self.cure_uids@, ally) {
                    Some(uid) => before.push(
                        update_effect(
                            shared,
                            ally,
                            self.caster_uid,
                            self.granted_buff_id,
                            uid,
                            0,
                            (stack + 1) as i32,
                        ),
                    ).push(EffectView::on(EffectType::NoEffect, ally)),
                    None => before,
                }
            }
        }
    }

    /// What some stacks add.
    pub open spec fn stacks(
        &self,
        rows: Seq<SkillBuffRow>,
        shared: Seq<SharedParamsRow>,
        targets: Seq<i64>,
        allies: Seq<i64>,
        n: int,
        suppress_cure: bool,
    ) -> Seq<EffectView>
        decreases n,
    {
        if n <= 0 {
            Seq::empty()
        } else {
            self.stacks(rows, shared, targets, allies, n - 1, suppress_cure) + self.poisons(
                rows,
                shared,
                targets,
                (n - 1) * targets.len(),
            ) + (if suppress_cure {
                Seq::empty()
            } else {
                self.cures(rows, shared, allies, allies.len() as int, n - 1)
            })
        }
    }

    /// What is shown of potions that are spent: what their stacks add, and the end of
    /// the potion itself. Nothing is spent without a stack or a target.
    pub open spec fn spent(
        &self,
        rows: Seq<SkillBuffRow>,
        shared: Seq<SharedParamsRow>,
        targets: Seq<i64>,
        allies: Seq<i64>,
        duality: BuffInstance,
        stack_count: i32,
        suppress_cure: bool,
    ) -> Seq<EffectView> {
        if stack_count <= 0 || targets.len() == 0 {
            Seq::empty()
        } else {
            let adds = self.stacks(
                rows,
                shared,
                targets,
                allies,
                stack_count as int,
                suppress_cure,
            );
            let end = seq![
                end_of_buff(rows, self.caster_uid, duality.uid, duality.buff_id, duality.from_uid),
            ];
            seq![
                EffectView::wrapper(
                    StepView::container(self.caster_uid, self.caster_uid, 30091120, adds),
                ),
                EffectView::wrapper(
                    StepView::container(self.caster_uid, self.caster_uid, 30091120, end),
                ),
            ]
        }
    }
}

/// Shows the potions that a holder spends: for each stack a new poison on every
/// target and a cure, then a further layer of it, for every ally; at last the potion
/// itself ends. Nothing is spent without a stack or a target.
pub fn build_sotheby_holder_consume_steps(
    potion: &PotionUse,
    rows: &Vec<SkillBuffRow>,
    shared: &Vec<SharedParamsRow>,
    target_uids: &Vec<i64>,
    ally_uids: &Vec<i64>,
    duality: &BuffInstance,
    stack_count: i32,
    suppress_cure: bool,
) -> (r: Vec<ActEffect>)
    requires
        stack_count > 0 ==> potion.poison_uids@.len() == stack_count * target_uids@.len(),
        potion.cure_uids@.len() == ally_uids@.len(),
    ensures
        effects_view(r@) == potion.spent(
            rows@,
            shared@,
            target_uids@,
            ally_uids@,
            *duality,
            stack_count,
            suppress_cure,
        ),
{
    let mut out: Vec<ActEffect> = Vec::new();
    if stack_count <= 0 || target_uids.len() == 0 {
        assert(effects_view(out@) =~= Seq::empty());
        return out;
    }
    let caster_uid = potion.caster_uid;
    let ghost targets = target_uids@;
    let ghost allies = ally_uids@;
    let mut adds: Vec<ActEffect> = Vec::new();
    let total: usize = potion.poison_uids.len();
    let mut used: usize = 0;
    assert(effects_view(adds@) =~= Seq::empty());
    for stack in 0..stack_count
        invariant
            0 <= stack <= stack_count,
            targets == target_uids@,
            allies == ally_uids@,
            caster_uid == potion.caster_uid,
            total == potion.poison_uids@.len(),
            potion.poison_uids@.len() == stack_count * targets.len(),
            potion.cure_uids@.len() == allies.len(),
            used == stack * targets.len(),
            effects_view(adds@) == potion.stacks(
                rows@,
                shared@,
                targets,
                allies,
                stack as int,
                suppress_cure,
            ),
    {
        let ghost start = effects_view(adds@);
        let ghost first = used as int;
        assert(first + targets.len() == (stack + 1) * targets.len() <= stack_count * targets.len())
            by (nonlinear_arith)
            requires
                first == stack * targets.len(),
                stack + 1 <= stack_count,
                targets.len() >= 0,
        ;
        assert(start + potion.poisons(rows@, shared@, targets.take(0), first) =~= start);
        for i in 0..target_uids.len()
            invariant
                targets == target_uids@,
                caster_uid == potion.caster_uid,
                used == first + i,
                total == potion.poison_uids@.len(),
                first + targets.len() <= potion.poison_uids@.len(),
                effects_view(adds@) == start + potion.poisons(
                    rows@,
                    shared@,
                    targets.take(i as int),
                    first,
                ),
        {
            assert(targets.take(i + 1).drop_last() =~= targets.take(i as int));
            let target_uid: i64 = target_uids[i];
            let stamp = BuffStamp {
                uid: potion.poison_uids[used],
                params: find_shared_params(shared, 300901412),
            };
            adds.push(
                ActEffectBuilder::buff_add(rows, stamp, target_uid, caster_uid, 300901412, 0),
            );
            adds.push(ActEffectBuilder::poison(target_uid));
            used += 1;
            assert(effects_view(adds@) =~= start + potion.poisons(
                rows@,
                shared@,
                targets.take(i + 1),
                first,
            ));
        }
        assert(targets.take(targets.len() as int) =~= targets);
        let ghost middle = effects_view(adds@);
        if !suppress_cure {
            assert(middle + potion.cures(rows@, shared@, allies, 0, stack as int) =~= middle);
            for i in 0..ally_uids.len()
                invariant
                    0 <= stack < stack_count,
                    allies == ally_uids@,
                    caster_uid == potion.caster_uid,
                    potion.cure_uids@.len() == allies.len(),
                    effects_view(adds@) == middle + potion.cures(
                        rows@,
                        shared@,
                        allies,
                        i as int,
                        stack as int,
                    ),
            {
                let ally_uid: i64 = ally_uids[i];
                if stack == 0 {
                    let stamp = BuffStamp {
                        uid: potion.cure_uids[i],
                        params: find_shared_params(shared, potion.granted_buff_id),
                    };
                    adds.push(
                        ActEffectBuilder::buff_add(
                            rows,
                            stamp,
                            ally_uid,
                            caster_uid,
                            potion.granted_buff_id,
                            1,
                        ),
                    );
                    adds.push(ActEffectBuilder::effect_none(ally_uid));
                } else if let Some(uid) = find_cure_of_ally(
                    ally_uids,
                    &potion.cure_uids,
                    ally_uid,
                ) {
                    adds.push(
                        ActEffectBuilder::buff_update(
                            ally_uid,
                            caster_uid,
                            potion.granted_buff_id,
                            uid,
                            0,
                            find_shared_params(shared, potion.granted_buff_id),
                            stack + 1,
                        ),
                    );
                    adds.push(ActEffectBuilder::effect_none(ally_uid));
                }
                assert(effects_view(adds@) =~= middle + potion.cures(
                    rows@,
                    shared@,
                    allies,
                    i + 1,
                    stack as int,
                ));
            }
        } else {
            assert(middle + Seq::<EffectView>::empty() =~= middle);
        }
    }
    let mut end: Vec<ActEffect> = Vec::new();
    end.push(
        ActEffectBuilder::buff_del(
            rows,
            caster_uid,
            duality.uid,
            duality.buff_id,
            duality.from_uid,
        ),
    );
    assert(effects_view(end@) =~= seq![
        end_of_buff(rows@, caster_uid, duality.uid, duality.buff_id, duality.from_uid),
    ]);
    out.push(
        ActEffectBuilder::skill_wrapper(
            effect_container_step(caster_uid, caster_uid, 30091120, adds),
        ),
    );
    out.push(
        ActEffectBuilder::skill_wrapper(
            effect_container_step(caster_uid, caster_uid, 30091120, end),
        ),
    );
    assert(effects_view(out@).len() == 2);
    assert(effects_view(out@) =~= seq![out@[0]@, out@[1]@]);
    out
}

/// What becomes of the target of a detonation: its death, or the hit of the poisons
/// that go off.
pub open spec fn target_fate(target: i64, died: bool, poison_damage: Option<i32>) -> Seq<
    EffectView,
> {
    if died {
        seq![
            EffectView::amount(EffectType::Dead, target, 0),
            EffectView::wrapper(
                StepView::container(
                    0,
                    0,
                    0,
                    seq![
                        EffectView {
                            team_type: Some(1),
                            ..EffectView::on(EffectType::RemoveEntityCards, target)
                        },
                    ],
                ),
            ),
        ]
    } else {
        match poison_damage {
            Some(d) => seq![EffectView::amount(EffectType::OriginCrit, target, d)],
            None => Seq::empty(),
        }
    }
}

fn push_fate(out: &mut Vec<ActEffect>, target: i64, died: bool, poison_damage: Option<i32>)
    ensures
        effects_view(final(out)@) == effects_view(old(out)@) + target_fate(
            target,
            died,
            poison_damage,
        ),
{
    let ghost first = effects_view(out@);
    if died {
        out.push(ActEffectBuilder::dead(target));
        out.push(ActEffectBuilder::remove_entity_cards(target, Some(1)));
    } else if let Some(d) = poison_damage {
        out.push(ActEffectBuilder::origin_crit(target, d, None));
    }
    assert(effects_view(out@) =~= first + target_fate(target, died, poison_damage));
}

/// What a detonation takes from elsewhere.
pub struct Detonation {
    /// The effects of its hit.
    pub damage_effects: Vec<ActEffect>,
    /// The damage of each poison of the target after the target's fixes.
    pub fixed: Vec<i32>,
    /// The potion that its caster spends, if it has one.
    pub potion: PotionUse,
    /// The allies of its caster.
    pub allies: Vec<i64>,
    /// The heal of each cure that goes off, as the event queue shows it.
    pub heals: Vec<ActEffect>,
}

/// The tables of buffs: the buffs themselves, their acts, the parameters they share,
/// and the poisons among them.
pub struct BuffTables {
    pub rows: Vec<SkillBuffRow>,
    pub acts: Vec<BuffActRow>,
    pub shared: Vec<SharedParamsRow>,
    pub dots: Vec<DotRow>,
}

impl Detonation {
    /// Whether the target dies of the hit.
    pub open spec fn kills(&self, f: FightView, target: i64) -> bool {
        would_die(f, target, effects_view(self.damage_effects@))
    }

    /// The potion that the caster holds.
    pub open spec fn held_potion(&self, buffs: BuffMgr) -> Option<BuffInstance> {
        first_buff(buffs.of(self.potion.caster_uid), 30091120)
    }

    /// The cures that go off for the allies.
    pub open spec fn cures(&self, f: FightView, t: BuffTables, buffs: BuffMgr) -> Seq<
        CureStep,
    > {
        all_cures(
            match entity_of(f, self.potion.caster_uid) {
                Some(e) => Some(attack_of(e)),
                None => None,
            },
            t.rows@,
            t.acts@,
            buffs,
            self.allies@,
        )
    }

    /// There is one fixed damage for each poison of a target that lives on, one new id
    /// for each buff of a potion that is spent, and one heal for each cure.
    pub open spec fn fits(&self, f: FightView, t: BuffTables, buffs: BuffMgr, target: i64)
        -> bool {
        &&& !self.kills(f, target) ==> self.fixed@.len() == poisons_of(
            f,
            t.dots@,
            buffs.of(target),
        ).len()
        &&& self.held_potion(buffs) is Some ==> self.potion.poison_uids@.len() == 1
            && self.potion.cure_uids@.len() == self.allies@.len()
        &&& self.heals@.len() == self.cures(f, t, buffs).len()
    }

    /// What is shown of the detonation: the hit; the death of the target, or its
    /// poisons going off; the potion that is spent, without cures if the target died;
    /// and the cures.
    pub open spec fn shown(&self, f: FightView, t: BuffTables, buffs: BuffMgr, target: i64)
        -> Seq<EffectView> {
        let died = self.kills(f, target);
        let poison_damage = poison_damage_of(f, t.dots@, buffs, target, self.fixed@);
        let potions = match self.held_potion(buffs) {
            Some(b) => self.potion.spent(
                t.rows@,
                t.shared@,
                seq![target],
                self.allies@,
                b,
                1,
                died,
            ),
            None => Seq::empty(),
        };
        effects_view(self.damage_effects@) + target_fate(target, died, poison_damage) + potions
            + cure_effects(t.rows@, self.cures(f, t, buffs), effects_view(self.heals@))
    }
}

/// The potion master's detonation on a target: the hit; the death of the target, or
/// the poisons that go off; the potion that is spent; and the cures.
pub fn execute_sotheby_detonate2(
    fight: &Fight,
    buffs: &BuffMgr,
    tables: &BuffTables,
    target: i64,
    detonation: Detonation,
) -> (r: Vec<ActEffect>)
    requires
        detonation.fits(fight@, *tables, *buffs, target),
    ensures
        effects_view(r@) == detonation.shown(fight@, *tables, *buffs, target),
{
    let ghost d = detonation;
    let target_died = target_would_die(fight, target, &detonation.damage_effects);
    let poison_damage = if target_died {
        None
    } else {
        detonate_target_poison_damage(fight, buffs, &tables.dots, target, &detonation.fixed)
    };
    let caster_uid = detonation.potion.caster_uid;
    let held = buffs.get(caster_uid);
    let mut potions: Vec<ActEffect> = Vec::new();
    if let Some(duality) = find_buff(&held, 30091120) {
        let targets: Vec<i64> = vec![target];
        assert(targets@ =~= seq![target]);
        potions = build_sotheby_holder_consume_steps(
            &detonation.potion,
            &tables.rows,
            &tables.shared,
            &targets,
            &detonation.allies,
            &duality,
            1,
            target_died,
        );
    }
    let ghost spent = effects_view(potions@);
    let cures = plan_cures(
        fight,
        caster_uid,
        &detonation.allies,
        buffs,
        &tables.rows,
        &tables.acts,
    );
    let mut shown_cures = show_cures(&tables.rows, &cures, &detonation.heals);
    let ghost ends = effects_view(shown_cures@);
    let mut out = detonation.damage_effects;
    push_fate(&mut out, target, target_died, poison_damage);
    let ghost start = effects_view(out@);
    out.append(&mut potions);
    out.append(&mut shown_cures);
    assert(effects_view(out@) =~= start + spent + ends);
    assert(effects_view(out@) =~= d.shown(fight@, *tables, *buffs, target));
    out
}

/// The blood pool of a team as it is previewed during a step.
#[derive(Clone, Copy, PartialEq, Eq, Structural, Debug)]
pub struct PoolPreview {
    pub value: i32,
    pub acc: i32,
}

impl PoolPreview {
    /// The preview starts from the pool, without anything negative.
    pub fn start(value: i32, acc: i32) -> (r: PoolPreview)
        ensures
            r == (PoolPreview {
                value: if value > 0 {
                    value
                } else {
                    0
                },
                acc: if acc > 0 {
                    acc
                } else {
                    0
                },
            }),
    {
        PoolPreview {
            value: if value > 0 {
                value
            } else {
                0
            },
            acc: if acc > 0 {
                acc
            } else {
                0
            },
        }
    }
}

/// The damage of some effects to a target.
pub open spec fn total_damage(s: Seq<EffectView>, target: i64) -> int
    decreases s.len(),
{
    if s.len() == 0 {
        0
    } else {
        total_damage(s.drop_last(), target) + match damage_to(s.last(), target) {
            Some(d) => d as int,
            None => 0,
        }
    }
}

proof fn total_damage_grows(s: Seq<EffectView>, n: int, target: i64)
    requires
        0 <= n <= s.len(),
    ensures
        0 <= total_damage(s.take(n), target) <= total_damage(s, target),
    decreases s.len(),
{
    if n == s.len() {
        assert(s.take(n) =~= s);
        if s.len() > 0 {
            total_damage_grows(s.drop_last(), s.len() - 1, target);
            assert(s.drop_last().take(s.len() - 1) =~= s.drop_last());
        }
    } else {
        total_damage_grows(s.drop_last(), n, target);
        assert(s.drop_last().take(n) =~= s.take(n));
    }
}

/// The part of damage that feeds the pool: three tenths across the sides, all of it
/// otherwise.
pub open spec fn pool_share(damage: int, caster_uid: i64, target_uid: i64) -> int {
    if caster_uid != 0 && side(caster_uid) != side(target_uid) {
        damage * 300 / 1000
    } else {
        damage
    }
}

/// How often the pool grows by one: once for each three thousand gathered, as long
/// as there is room.
pub open spec fn pool_gains(acc: int, value: int, max: int) -> int {
    if acc < 3000 || value >= max {
        0
    } else if acc / 3000 <= max - value {
        acc / 3000
    } else {
        max - value
    }
}

/// The preview of a pool after so much was gathered.
pub open spec fn pool_after(p: PoolPreview, gathered: int, max: int) -> PoolPreview {
    let acc = p.acc + gathered;
    let n = pool_gains(acc, p.value as int, max);
    PoolPreview { value: (p.value + n) as i32, acc: (acc - 3000 * n) as i32 }
}

/// What some effects on a target feed its team's pool; nothing without a pool, a
/// target or a team.
pub open spec fn gathered_for(
    f: FightView,
    pool_ready: bool,
    caster_uid: i64,
    target_uid: i64,
    s: Seq<EffectView>,
) -> Option<(i32, int)> {
    if !pool_ready || target_uid == 0 {
        None
    } else {
        match entity_of(f, target_uid) {
            Some(e) => match e.team_type {
                Some(team) => {
                    let fed = pool_share(total_damage(s, target_uid), caster_uid, target_uid);
                    if fed <= 0 {
                        None
                    } else {
                        Some((team, fed))
                    }
                },
                None => None,
            },
            None => None,
        }
    }
}

/// Whether what some effects feed the pool can be counted.
pub open spec fn feed_counts(
    f: FightView,
    pool_ready: bool,
    caster_uid: i64,
    target_uid: i64,
    s: Seq<EffectView>,
    acc: i32,
) -> bool {
    let damage = total_damage(s, target_uid);
    pool_ready && target_uid != 0 && entity_of(f, target_uid) is Some && entity_of(
        f,
        target_uid,
    )->0.team_type is Some ==> {
        &&& damage <= i32::MAX
        &&& caster_uid != 0 && side(caster_uid) != side(target_uid) ==> damage * 300 <= i32::MAX
        &&& acc + pool_share(damage, caster_uid, target_uid) <= i32::MAX
    }
}

/// Adds the previewed gain of the pool to some effects on a target. `max_value` is
/// the capacity of the pool of the target's team.
pub fn append_preview_bloodtithe_gain_effects(
    preview: &mut PoolPreview,
    pool_ready: bool,
    max_value: i32,
    fight: &Fight,
    caster_uid: i64,
    target_uid: i64,
    effects: &mut Vec<ActEffect>,
)
    requires
        feed_counts(
            fight@,
            pool_ready,
            caster_uid,
            target_uid,
            effects_view(old(effects)@),
            old(preview).acc,
        ),
    ensures
        ({
            let s = effects_view(old(effects)@);
            let max = if max_value > 0 {
                max_value as int
            } else {
                0
            };
            match gathered_for(fight@, pool_ready, caster_uid, target_uid, s) {
                Some((team, fed)) => {
                    let n = pool_gains(old(preview).acc + fed, old(preview).value as int, max);
                    &&& *final(preview) == pool_after(*old(preview), fed, max)
                    &&& effects_view(final(effects)@) == (if n > 0 {
                        s.push(
                            EffectView {
                                effect_num1: Some(n as i32),
                                ..EffectView::amount(
                                    EffectType::BloodPoolValueChange,
                                    target_uid,
                                    team,
                                )
                            },
                        )
                    } else {
                        s
                    })
                },
                None => *final(preview) == *old(preview) && effects_view(final(effects)@) == s,
            }
        }),
{
    if !pool_ready || target_uid == 0 {
        return;
    }
    let team: i32 = match find_entity(fight, target_uid) {
        Some(e) => match e.team_type {
            Some(t) => t,
            None => {
                return;
            },
        },
        None => {
            return;
        },
    };
    let ghost s = effects_view(effects@);
    let mut damage: i32 = 0;
    assert(s.take(0).len() == 0);
    for i in 0..effects.len()
        invariant
            s == effects_view(effects@),
            total_damage(s, target_uid) <= i32::MAX,
            damage == total_damage(s.take(i as int), target_uid),
            0 <= damage,
    {
        assert(s.take(i + 1).drop_last() =~= s.take(i as int));
        assert(s.take(i + 1).last() == effects@[i as int]@);
        proof {
            total_damage_grows(s, i + 1, target_uid);
        }
        if let Some(d) = read_damage_to(&effects[i], target_uid) {
            damage = damage + d;
        }
    }
    assert(s.take(s.len() as int) =~= s);
    if damage <= 0 {
        assert(pool_share(0, caster_uid, target_uid) == 0);
        return;
    }
    let fed: i32 = if caster_uid != 0 && !same_side(caster_uid, target_uid) {
        damage * 300 / 1000
    } else {
        damage
    };
    if fed <= 0 {
        return;
    }
    let max: i32 = if max_value > 0 {
        max_value
    } else {
        0
    };
    let ghost start = *preview;
    preview.acc = preview.acc + fed;
    let ghost total = preview.acc as int;
    let ghost goal = pool_gains(total, start.value as int, max as int);
    let mut gained: i32 = 0;
    while preview.acc >= 3000 && preview.value < max
        invariant
            0 <= gained <= goal,
            goal == pool_gains(total, start.value as int, max as int),
            preview.acc == total - 3000 * gained,
            preview.value == start.value + gained,
            max >= 0,
            total <= i32::MAX,
            gained < goal ==> preview.value < max,
        decreases preview.acc,
    {
        preview.acc = preview.acc - 3000;
        preview.value = preview.value + 1;
        gained = gained + 1;
    }
    assert(gained == goal);
    if gained > 0 {
        effects.push(ActEffectBuilder::bloodpool_value_change(target_uid, team, gained));
    }
}

/// The attribute that damage by stacks draws on: life (100), life maximum (101),
/// attack (102) or defense (103).
pub open spec fn stack_attribute(e: EntityView, attr_id: i32) -> i32 {
    if attr_id == 100 {
        or_zero(e.current_hp)
    } else {
        match e.attr {
            Some(a) => if attr_id == 101 {
                or_zero(a.hp)
            } else if attr_id == 102 {
                or_zero(a.attack)
            } else if attr_id == 103 {
                or_zero(a.defense)
            } else {
                0
            },
            None => 0,
        }
    }
}

/// The damage by stacks before the target's fixes; zero where there is none.
pub open spec fn stack_damage(
    f: FightView,
    caster_uid: i64,
    target: i64,
    attr_id: i32,
    permille: i32,
    stacks: i32,
) -> int {
    let a = match entity_of(f, caster_uid) {
        Some(e) => stack_attribute(e, attr_id),
        None => 0,
    };
    if target == 0 || permille <= 0 || a <= 0 || stacks <= 0 {
        0
    } else if a * permille * stacks / 1000 <= i32::MAX {
        a * permille * stacks / 1000
    } else {
        i32::MAX as int
    }
}

/// Works out the damage by stacks before the target's fixes. `stacks` is how many
/// buffs of the group the target bears.
pub fn plan_stack_damage(
    fight: &Fight,
    caster_uid: i64,
    target: i64,
    attr_id: i32,
    permille: i32,
    stacks: i32,
) -> (r: i32)
    ensures
        r == stack_damage(fight@, caster_uid, target, attr_id, permille, stacks),
{
    if target == 0 || permille <= 0 {
        return 0;
    }
    let a: i32 = match find_entity(fight, caster_uid) {
        Some(e) => if attr_id == 100 {
            value(e.current_hp)
        } else {
            match e.attr {
                Some(x) => match attr_id {
                    101 => value(x.hp),
                    102 => value(x.attack),
                    103 => value(x.defense),
                    _ => 0,
                },
                None => 0,
            }
        },
        None => 0,
    };
    if a <= 0 || stacks <= 0 {
        return 0;
    }
    assert(0 < a * permille <= 0x4000_0000_0000_0000) by (nonlinear_arith)
        requires
            0 < a <= 0x7fff_ffff,
            0 < permille <= 0x7fff_ffff,
    ;
    assert(0 < a * permille * stacks <= 0x4000_0000_0000_0000 * 0x8000_0000) by (nonlinear_arith)
        requires
            0 < a * permille <= 0x4000_0000_0000_0000,
            0 < stacks <= 0x7fff_ffff,
    ;
    let product: i128 = (a as i128) * (permille as i128) * (stacks as i128);
    let damage: i128 = product / 1000;
    if damage <= i32::MAX as i128 {
        damage as i32
    } else {
        i32::MAX
    }
}

/// Deals damage by stacks. `stacks` is how many buffs of the group the target bears,
/// `fixed` the damage after the target's fixes. Without damage, before the fixes or
/// after them, nothing is shown.
pub fn execute_origin_damage_by_attr_and_buff_group_size(
    fight: &Fight,
    caster_uid: i64,
    target: i64,
    attr_id: i32,
    permille: i32,
    stacks: i32,
    fixed: i32,
) -> (r: Vec<ActEffect>)
    ensures
        effects_view(r@) == (if stack_damage(fight@, caster_uid, target, attr_id, permille, stacks)
            > 0 && fixed > 0 {
            seq![
                numeric_effect(EffectType::OriginDamage, target, fixed, Some(60127), None, None),
            ]
        } else {
            Seq::empty()
        }),
{
    let raw = plan_stack_damage(fight, caster_uid, target, attr_id, permille, stacks);
    let mut out: Vec<ActEffect> = Vec::new();
    if raw > 0 && fixed > 0 {
        out.push(ActEffectBuilder::origin_damage(target, fixed, Some(60127)));
    }
    assert(effects_view(out@) =~= (if raw > 0 && fixed > 0 {
        seq![numeric_effect(EffectType::OriginDamage, target, fixed, Some(60127), None, None)]
    } else {
        Seq::empty()
    }));
    out
}

/// Nothing that was gathered is lost: the pool grows by one for every three thousand
/// that leave the accumulator.
pub proof fn pool_gain_is_paid(p: PoolPreview, gathered: int, max: int)
    requires
        0 <= p.acc,
        0 <= p.value,
        0 <= gathered,
        p.acc + gathered <= i32::MAX,
        0 <= max <= i32::MAX,
    ensures
        ({
            let q = pool_after(p, gathered, max);
            &&& q.acc + 3000 * (q.value - p.value) == p.acc + gathered
            &&& q.value >= p.value
            &&& q.acc < 3000 || q.value >= max
        }),
{
}

} // verus!
