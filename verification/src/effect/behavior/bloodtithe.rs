//! Behaviours on the blood pool, and the loss of life that feeds it.

use crate::arith::{fits, or_zero, share, take_share, value};
use crate::buffs::{BuffInstance, BuffMgr};
use crate::config::{find_row, row_at, BuffActRow, SkillBuffRow};
use crate::event::Event;
use crate::fight_step::builder::{numeric_effect, skill_hurt, ActEffectBuilder};
use crate::lookup::{entity_of, find_entity};
use crate::mechanics::channel::{act_is, is_act, read_trimmed, trimmed_number};
use crate::mechanics::injury_counter::{find_team, team_of};
use crate::mechanics::shadowcloak::{attr_hp, find_attr_hp};
use crate::model::lists::group_effects_view;
use crate::model::{
    effects_view, ActEffect, DamageFromType, EffectType, EffectView, EntityView, Fight,
    FightEntityInfo, FightHurtInfo, FightView,
};
use crate::text::{param, param_at, pieces, split_text, texts_view};
use vstd::prelude::*;

verus! {

broadcast use group_effects_view;

/// One attribute of a fighter: life (100), life maximum (101), attack (102, and
/// any other), defense (103).
pub open spec fn attribute(e: EntityView, attr_id: i32) -> i32 {
    if attr_id == 100 {
        or_zero(e.current_hp)
    } else {
        match e.attr {
            Some(a) => if attr_id == 101 {
                or_zero(a.hp)
            } else if attr_id == 103 {
                or_zero(a.defense)
            } else {
                or_zero(a.attack)
            },
            None => 0,
        }
    }
}

/// Reads one attribute of a fighter.
pub fn attr_value(e: &FightEntityInfo, attr_id: i32) -> (r: i32)
    ensures
        r == attribute(e@, attr_id),
{
    if attr_id == 100 {
        return value(e.current_hp);
    }
    match e.attr {
        Some(a) => match attr_id {
            101 => value(a.hp),
            103 => value(a.defense),
            _ => value(a.attack),
        },
        None => 0,
    }
}

/// The act, the rate and the attribute of a burn.
#[derive(Clone, Copy, PartialEq, Eq, Structural, Debug)]
pub struct BurnParams {
    pub act_id: i32,
    pub rate: i32,
    pub attr_id: i32,
}

/// What a feature entry says of a burn.
pub open spec fn burn_entry(entry: Seq<char>, acts: Seq<BuffActRow>) -> Option<BurnParams> {
    let parts = pieces(entry, '#');
    match trimmed_number(parts, 0) {
        Some(act_id) => if act_is(acts, act_id, "Burn"@) {
            Some(
                BurnParams {
                    act_id,
                    rate: or_zero(trimmed_number(parts, 1)),
                    attr_id: or_zero(trimmed_number(parts, 2)),
                },
            )
        } else {
            None
        },
        None => None,
    }
}

/// The first burn among some feature entries.
pub open spec fn first_burn(entries: Seq<Seq<char>>, acts: Seq<BuffActRow>) -> Option<BurnParams>
    decreases entries.len(),
{
    if entries.len() == 0 {
        None
    } else {
        match burn_entry(entries[0], acts) {
            Some(p) => Some(p),
            None => first_burn(entries.skip(1), acts),
        }
    }
}

/// The burn of a buff.
pub open spec fn burn_of(
    rows: Seq<SkillBuffRow>,
    acts: Seq<BuffActRow>,
    buff_id: i32,
) -> Option<BurnParams> {
    if buff_id <= 0 {
        None
    } else {
        match row_at(rows, buff_id) {
            Some(row) => first_burn(pieces(row.features@, '|'), acts),
            None => None,
        }
    }
}

fn read_burn_entry(entry: &str, acts: &Vec<BuffActRow>) -> (r: Option<BurnParams>)
    ensures
        r == burn_entry(entry@, acts@),
{
    let parts = split_text(entry, '#');
    match read_trimmed(&parts, 0) {
        Some(act_id) => if is_act(acts, act_id, "Burn") {
            Some(
                BurnParams {
                    act_id,
                    rate: value(read_trimmed(&parts, 1)),
                    attr_id: value(read_trimmed(&parts, 2)),
                },
            )
        } else {
            None
        },
        None => None,
    }
}

/// Finds the burn of a buff.
pub fn burn_params(
    rows: &Vec<SkillBuffRow>,
    acts: &Vec<BuffActRow>,
    buff_id: i32,
) -> (r: Option<BurnParams>)
    ensures
        r == burn_of(rows@, acts@, buff_id),
{
    if buff_id <= 0 {
        return None;
    }
    match find_row(rows, buff_id) {
        Some(row) => {
            let entries = split_text(row.features.as_str(), '|');
            let ghost ps = pieces(row.features@, '|');
            assert(ps.skip(0) =~= ps);
            let mut i: usize = 0;
            while i < entries.len()
                invariant
                    i <= entries.len(),
                    texts_view(entries@) == ps,
                    buff_id > 0,
                    row_at(rows@, buff_id) == Some(*row),
                    ps == pieces(row.features@, '|'),
                    first_burn(ps.skip(i as int), acts@) == first_burn(ps, acts@),
                decreases entries.len() - i,
            {
                assert(ps.skip(i as int)[0] == entries@[i as int]@);
                assert(ps.skip(i as int).skip(1) =~= ps.skip(i + 1));
                let found = read_burn_entry(entries[i].as_str(), acts);
                if found.is_some() {
                    return found;
                }
                i += 1;
            }
            None
        },
        None => None,
    }
}

/// A loss of life that a skill asks for.
#[derive(Clone, Copy, PartialEq, Eq, Structural, Debug)]
pub struct LossRequest {
    pub caster_uid: i64,
    pub target: i64,
    /// One: a share of the present life, in thousandths. Other: a share of the life
    /// maximum, in ten-thousandths.
    pub mode: i32,
    pub attr_id: i32,
    pub permille: i32,
    pub behavior_id: i32,
    pub skill_id: i32,
}

/// What else a loss of life depends on.
#[derive(Clone, Copy, PartialEq, Eq, Structural, Debug)]
pub struct LossReadings {
    /// The damage that the damage rules give for the burn.
    pub burn_damage: i32,
    /// The fixed loss, where the skill is the basic self-loss of its caster.
    pub self_loss: Option<i32>,
    /// Below this share of the life maximum the target cannot be brought.
    pub floor_permille: i32,
}

/// The burn behind a loss; only a loss of present life can be a burn.
pub open spec fn loss_burn(
    q: LossRequest,
    rows: Seq<SkillBuffRow>,
    acts: Seq<BuffActRow>,
) -> Option<BurnParams> {
    if q.mode == 1 {
        burn_of(rows, acts, q.skill_id)
    } else {
        None
    }
}

/// Finds the burn behind a loss.
pub fn find_loss_burn(
    request: LossRequest,
    rows: &Vec<SkillBuffRow>,
    acts: &Vec<BuffActRow>,
) -> (r: Option<BurnParams>)
    ensures
        r == loss_burn(request, rows@, acts@),
{
    if request.mode == 1 {
        burn_params(rows, acts, request.skill_id)
    } else {
        None
    }
}

/// The rate that the damage of a burn is worked out with: its own, else the
/// request's.
pub fn burn_rate(burn: BurnParams, permille: i32) -> (r: i32)
    ensures
        r == (if burn.rate > 0 {
            burn.rate
        } else {
            permille
        }),
{
    if burn.rate > 0 {
        burn.rate
    } else {
        permille
    }
}

/// Whether an effect is a hit whose amount a burn takes over.
pub open spec fn is_plain_hit(e: EffectView) -> bool {
    ||| e.effect_type == Some(EffectType::Damage)
    ||| e.effect_type == Some(EffectType::Crit)
    ||| e.effect_type == Some(EffectType::OriginDamage)
    ||| e.effect_type == Some(EffectType::OriginCrit)
}

/// The amount of the first plain hit; zero if there is none or it has no amount.
pub open spec fn first_hit_amount(s: Seq<EffectView>) -> i32
    decreases s.len(),
{
    if s.len() == 0 {
        0
    } else if is_plain_hit(s[0]) {
        or_zero(s[0].effect_num)
    } else {
        first_hit_amount(s.skip(1))
    }
}

/// Finds the amount of the first plain hit.
pub fn find_first_hit_amount(v: &Vec<ActEffect>) -> (r: i32)
    ensures
        r == first_hit_amount(effects_view(v@)),
{
    let ghost s = effects_view(v@);
    assert(s.skip(0) =~= s);
    let mut i: usize = 0;
    while i < v.len()
        invariant
            i <= v.len(),
            s == effects_view(v@),
            first_hit_amount(s.skip(i as int)) == first_hit_amount(s),
        decreases v.len() - i,
    {
        assert(s.skip(i as int)[0] == v@[i as int]@);
        assert(s.skip(i as int).skip(1) =~= s.skip(i + 1));
        if let Some(kind) = v[i].effect_type {
            if kind == EffectType::Damage || kind == EffectType::Crit || kind
                == EffectType::OriginDamage || kind == EffectType::OriginCrit {
                return value(v[i].effect_num);
            }
        }
        i += 1;
    }
    0
}

/// The life of a fighter; zero if it is unknown.
pub open spec fn life(f: FightView, uid: i64) -> i32 {
    match entity_of(f, uid) {
        Some(e) => or_zero(e.current_hp),
        None => 0,
    }
}

/// The attribute that a burn without damage of its own draws on.
pub open spec fn burn_source(f: FightView, q: LossRequest, burn: BurnParams) -> i32 {
    match entity_of(f, q.caster_uid) {
        Some(e) => attribute(e, burn.attr_id),
        None => 0,
    }
}

/// Whether the loss is the fixed one of a fighter on itself.
pub open spec fn is_self_loss(q: LossRequest, r: LossReadings) -> bool {
    r.self_loss is Some && q.target == q.caster_uid && q.attr_id == 100
}

/// The loss before the floor.
pub open spec fn raw_loss(
    f: FightView,
    q: LossRequest,
    r: LossReadings,
    burn: Option<BurnParams>,
) -> int {
    match burn {
        Some(b) => if r.burn_damage > 0 {
            r.burn_damage as int
        } else {
            share(burn_source(f, q, b) as int, q.permille as int, 1000)
        },
        None => if is_self_loss(q, r) {
            r.self_loss->0 as int
        } else if q.mode == 1 {
            share(life(f, q.target) as int, q.permille as int, 1000)
        } else {
            share(attr_hp(f, q.target) as int, q.permille as int, 10000)
        },
    }
}

/// The products behind a loss are in range.
pub open spec fn loss_in_range(
    f: FightView,
    q: LossRequest,
    r: LossReadings,
    burn: Option<BurnParams>,
) -> bool {
    &&& match burn {
        Some(b) => r.burn_damage <= 0 ==> fits(burn_source(f, q, b) * q.permille),
        None => !is_self_loss(q, r) ==> (if q.mode == 1 {
            fits(life(f, q.target) * q.permille)
        } else {
            fits(attr_hp(f, q.target) * q.permille)
        }),
    }
    &&& r.floor_permille > 0 ==> fits(attr_hp(f, q.target) * r.floor_permille)
    &&& fits(life(f, q.target) - floor_hp(f, q, r))
}

/// The life that the target keeps: at least one where there is a floor.
pub open spec fn floor_hp(f: FightView, q: LossRequest, r: LossReadings) -> int {
    if r.floor_permille > 0 {
        let hp = share(attr_hp(f, q.target) as int, r.floor_permille as int, 1000);
        if hp > 1 {
            hp
        } else {
            1
        }
    } else {
        0
    }
}

/// The loss that takes place: no more than what is above the floor.
pub open spec fn actual_loss(
    f: FightView,
    q: LossRequest,
    r: LossReadings,
    burn: Option<BurnParams>,
) -> int {
    let room = life(f, q.target) - floor_hp(f, q, r);
    let room = if room > 0 {
        room
    } else {
        0
    };
    if raw_loss(f, q, r, burn) <= room {
        raw_loss(f, q, r, burn)
    } else {
        room
    }
}

/// How a loss of life takes place.
#[derive(Clone, Copy, PartialEq, Eq, Structural, Debug)]
pub enum LossPlan {
    /// Nothing is lost.
    Nothing,
    /// Through a burn: its act and the unique id of the burning buff, if known.
    Burn { amount: i32, act_id: i32, buff_uid: i64 },
    /// Through a hit of the skill.
    Hit { amount: i32 },
}

/// The unique id of the first buff of an id or a type; zero if there is none.
pub open spec fn burning_uid(s: Seq<BuffInstance>, skill_id: i32) -> i64
    decreases s.len(),
{
    if s.len() == 0 {
        0
    } else if s[0].buff_id == skill_id || s[0].type_id == skill_id {
        s[0].uid
    } else {
        burning_uid(s.skip(1), skill_id)
    }
}

fn find_burning_uid(v: &Vec<BuffInstance>, skill_id: i32) -> (r: i64)
    ensures
        r == burning_uid(v@, skill_id),
{
    assert(v@.skip(0) =~= v@);
    let mut i: usize = 0;
    while i < v.len()
        invariant
            i <= v.len(),
            burning_uid(v@.skip(i as int), skill_id) == burning_uid(v@, skill_id),
        decreases v.len() - i,
    {
        assert(v@.skip(i as int).skip(1) =~= v@.skip(i + 1));
        if v[i].buff_id == skill_id || v[i].type_id == skill_id {
            return v[i].uid;
        }
        i += 1;
    }
    0
}

/// How a loss of life takes place.
pub open spec fn loss_plan(
    f: FightView,
    q: LossRequest,
    r: LossReadings,
    burn: Option<BurnParams>,
    held: Seq<BuffInstance>,
) -> LossPlan {
    let amount = actual_loss(f, q, r, burn) as i32;
    if amount == 0 {
        LossPlan::Nothing
    } else {
        match burn {
            Some(b) => LossPlan::Burn {
                amount,
                act_id: b.act_id,
                buff_uid: burning_uid(held, q.skill_id),
            },
            None => LossPlan::Hit { amount },
        }
    }
}

/// Works out a loss of life. `burn` is the burn behind it; see [`find_loss_burn`].
pub fn plan_lost_life(
    fight: &Fight,
    request: LossRequest,
    readings: LossReadings,
    burn: Option<BurnParams>,
    buffs: &BuffMgr,
) -> (r: LossPlan)
    requires
        loss_in_range(fight@, request, readings, burn),
    ensures
        r == loss_plan(fight@, request, readings, burn, buffs.of(request.target)),
{
    let max_hp = find_attr_hp(fight, request.target);
    let current_hp: i32 = match find_entity(fight, request.target) {
        Some(e) => value(e.current_hp),
        None => 0,
    };
    let loss: i32 = match burn {
        Some(b) => if readings.burn_damage > 0 {
            readings.burn_damage
        } else {
            let source: i32 = match find_entity(fight, request.caster_uid) {
                Some(e) => attr_value(e, b.attr_id),
                None => 0,
            };
            take_share(source, request.permille, 1000)
        },
        None => {
            let fixed: Option<i32> = if request.target == request.caster_uid && request.attr_id
                == 100 {
                readings.self_loss
            } else {
                None
            };
            match fixed {
                Some(n) => n,
                None => if request.mode == 1 {
                    take_share(current_hp, request.permille, 1000)
                } else {
                    take_share(max_hp, request.permille, 10000)
                },
            }
        },
    };
    let min_hp: i32 = if readings.floor_permille > 0 {
        let hp = take_share(max_hp, readings.floor_permille, 1000);
        if hp > 1 {
            hp
        } else {
            1
        }
    } else {
        0
    };
    let room: i32 = current_hp - min_hp;
    let room: i32 = if room > 0 {
        room
    } else {
        0
    };
    let amount: i32 = if loss <= room {
        loss
    } else {
        room
    };
    if amount == 0 {
        return LossPlan::Nothing;
    }
    match burn {
        Some(b) => {
            let held = buffs.get(request.target);
            LossPlan::Burn {
                amount,
                act_id: b.act_id,
                buff_uid: find_burning_uid(&held, request.skill_id),
            }
        },
        None => LossPlan::Hit { amount },
    }
}

/// The event of a loss through a hit.
pub fn loss_event(request: LossRequest, amount: i32) -> (r: Event)
    ensures
        r == (Event::Damage {
            target: request.target,
            amount,
            is_crit: false,
            hurt_info: skill_hurt(
                amount,
                request.behavior_id,
                request.skill_id,
                request.caster_uid,
            ),
            from: request.caster_uid,
            skill_id: Some(request.skill_id),
        }),
{
    Event::Damage {
        target: request.target,
        amount,
        is_crit: false,
        hurt_info: ActEffectBuilder::damage_skill_hurt(
            amount,
            request.behavior_id,
            request.skill_id,
            request.caster_uid,
        ),
        from: request.caster_uid,
        skill_id: Some(request.skill_id),
    }
}

/// A positive id; none otherwise.
pub open spec fn positive(id: i32) -> Option<i32> {
    if id > 0 {
        Some(id)
    } else {
        None
    }
}

/// The effects of a loss through a burn: the burn, and a hit of origin damage.
pub open spec fn burn_effects(
    q: LossRequest,
    act_id: i32,
    buff_uid: i64,
    damage: i32,
) -> Seq<EffectView> {
    seq![
        EffectView {
            buff_act_id: positive(act_id),
            ..EffectView::amount(EffectType::Burn, q.target, q.skill_id)
        },
        numeric_effect(
            EffectType::OriginDamage,
            q.target,
            damage,
            None,
            positive(act_id),
            Some(
                FightHurtInfo {
                    damage: Some(damage),
                    reduce_hp: Some(0),
                    reduce_shield: Some(0),
                    career_restraint: Some(false),
                    critical: Some(false),
                    assassinate: Some(false),
                    hurt_effect: Some(EffectType::OriginDamage),
                    damage_from_type: Some(DamageFromType::Buff),
                    config_effect: Some(0),
                    buff_act_id: positive(act_id),
                    effect_id: Some(0),
                    skill_id: Some(0),
                    from_uid: Some(q.caster_uid),
                    buff_uid: if buff_uid > 0 {
                        Some(buff_uid as i32)
                    } else {
                        None
                    },
                },
            ),
        ),
    ]
}

/// What a loss of life brings to the blood pool.
#[derive(Debug)]
pub struct LossGains {
    /// The ultimate that shows its gain by itself.
    pub ultimate_skill_id: i32,
    /// What that ultimate gains with the target; nothing if not above zero.
    pub manual_gain: i32,
    /// The gain of that ultimate, shown.
    pub manual_effect: ActEffect,
    /// The gain of the pool of the target's team, where the loss fills it.
    pub pool: Option<ActEffect>,
    /// What the target gains along with the pool.
    pub faith: Option<ActEffect>,
}

/// The gains that are shown: the ultimate's alone, or the pool's after the target's
/// own. A target without a team fills no pool.
pub open spec fn shown_gains(f: FightView, q: LossRequest, g: LossGains) -> Seq<EffectView> {
    if q.skill_id == g.ultimate_skill_id && g.manual_gain > 0 {
        seq![g.manual_effect@]
    } else if team_of(f, q.target) is None {
        Seq::empty()
    } else {
        match g.pool {
            Some(p) => match g.faith {
                Some(x) => seq![x@, p@],
                None => seq![p@],
            },
            None => Seq::empty(),
        }
    }
}

/// What is shown of a loss of life: nothing, a burn, or what the hit came to; then
/// the gains.
pub open spec fn loss_shown(
    f: FightView,
    q: LossRequest,
    plan: LossPlan,
    fixed_damage: i32,
    drained: Seq<EffectView>,
    gains: LossGains,
) -> Seq<EffectView> {
    match plan {
        LossPlan::Nothing => Seq::<EffectView>::empty(),
        LossPlan::Burn { act_id, buff_uid, .. } => burn_effects(q, act_id, buff_uid, fixed_damage)
            + shown_gains(f, q, gains),
        LossPlan::Hit { .. } => drained + shown_gains(f, q, gains),
    }
}

/// Shows a loss of life that was planned. `fixed_damage` is what the burn's hit comes
/// to after the target's fixes; `drained` is what the event of the hit came to.
pub fn show_loss(
    fight: &Fight,
    request: LossRequest,
    plan: LossPlan,
    fixed_damage: i32,
    drained: Vec<ActEffect>,
    gains: LossGains,
) -> (r: Vec<ActEffect>)
    ensures
        effects_view(r@) == loss_shown(
            fight@,
            request,
            plan,
            fixed_damage,
            effects_view(drained@),
            gains,
        ),
{
    let mut effects: Vec<ActEffect> = Vec::new();
    match plan {
        LossPlan::Nothing => {
            return effects;
        },
        LossPlan::Burn { act_id, buff_uid, .. } => {
            let act: Option<i32> = if act_id > 0 {
                Some(act_id)
            } else {
                None
            };
            effects.push(ActEffectBuilder::burn(request.target, request.skill_id, act));
            effects.push(
                ActEffectBuilder::origin_damage_with_hurt(
                    request.target,
                    fixed_damage,
                    act,
                    FightHurtInfo {
                        damage: Some(fixed_damage),
                        reduce_hp: Some(0),
                        reduce_shield: Some(0),
                        career_restraint: Some(false),
                        critical: Some(false),
                        assassinate: Some(false),
                        hurt_effect: Some(EffectType::OriginDamage),
                        damage_from_type: Some(DamageFromType::Buff),
                        config_effect: Some(0),
                        buff_act_id: act,
                        effect_id: Some(0),
                        skill_id: Some(0),
                        from_uid: Some(request.caster_uid),
                        buff_uid: if buff_uid > 0 {
                            Some(#[verifier::truncate] (buff_uid as i32))
                        } else {
                            None
                        },
                    },
                ),
            );
            assert(effects_view(effects@) =~= burn_effects(
                request,
                act_id,
                buff_uid,
                fixed_damage,
            ));
        },
        LossPlan::Hit { .. } => {
            effects = drained;
        },
    }
    let ghost before = effects_view(effects@);
    let ghost goal = shown_gains(fight@, request, gains);
    if request.skill_id == gains.ultimate_skill_id && gains.manual_gain > 0 {
        effects.push(gains.manual_effect);
    } else if find_team(fight, request.target).is_some() {
        if let Some(p) = gains.pool {
            if let Some(x) = gains.faith {
                effects.push(x);
            }
            effects.push(p);
        }
    }
    assert(effects_view(effects@) =~= before + goal);
    effects
}

/// A target loses life: works out how much and in what way, and shows it.
/// `fixed_damage` is what the burn's hit comes to after the target's fixes, `drained`
/// what the event of the hit came to, and `gains` what the loss brings to the pool.
pub fn lost_life(
    fight: &Fight,
    buffs: &BuffMgr,
    rows: &Vec<SkillBuffRow>,
    acts: &Vec<BuffActRow>,
    request: LossRequest,
    readings: LossReadings,
    fixed_damage: i32,
    drained: Vec<ActEffect>,
    gains: LossGains,
) -> (r: Vec<ActEffect>)
    requires
        loss_in_range(fight@, request, readings, loss_burn(request, rows@, acts@)),
    ensures
        effects_view(r@) == loss_shown(
            fight@,
            request,
            loss_plan(
                fight@,
                request,
                readings,
                loss_burn(request, rows@, acts@),
                buffs.of(request.target),
            ),
            fixed_damage,
            effects_view(drained@),
            gains,
        ),
{
    let burn = find_loss_burn(request, rows, acts);
    let plan = plan_lost_life(fight, request, readings, burn, buffs);
    show_loss(fight, request, plan, fixed_damage, drained, gains)
}

/// What a behaviour on the blood pool comes down to.
#[derive(Clone, Copy, PartialEq, Eq, Structural, Debug)]
pub enum PoolPlan {
    /// The capacity of the attackers' pool changes.
    MaxChange { amount: i32 },
    /// The attackers' pool gains, shown at a target.
    ValueChange { target: i64, amount: i32 },
    Nothing,
}

/// Decides what a behaviour on the blood pool comes down to.
pub fn plan_pool(behaviour_id: i32, raw: &str, targets: &Vec<i64>) -> (r: PoolPlan)
    ensures
        r == (if behaviour_id == 60190 {
            PoolPlan::MaxChange { amount: param(raw@, 1) }
        } else if behaviour_id == 60191 {
            PoolPlan::ValueChange {
                target: if targets@.len() > 0 {
                    targets@[0]
                } else {
                    0
                },
                amount: param(raw@, 1),
            }
        } else {
            PoolPlan::Nothing
        }),
{
    let target: i64 = if targets.len() > 0 {
        targets[0]
    } else {
        0
    };
    let amount = param_at(raw, 1);
    match behaviour_id {
        60190 => PoolPlan::MaxChange { amount },
        60191 => PoolPlan::ValueChange { target, amount },
        _ => PoolPlan::Nothing,
    }
}

/// The event of a change of the attackers' capacity.
pub fn pool_max_change(amount: i32) -> (r: Event)
    ensures
        r == (Event::BloodpoolMaxChange { team_type: 1, max: amount }),
{
    Event::BloodpoolMaxChange { team_type: 1, max: amount }
}

/// What is shown later of a gain of the pool: what the target gains along with it,
/// then the gain.
pub fn pool_value_change(faith: Option<ActEffect>, change: ActEffect) -> (r: Vec<ActEffect>)
    ensures
        effects_view(r@) == match faith {
            Some(x) => seq![x@, change@],
            None => seq![change@],
        },
{
    let mut pending: Vec<ActEffect> = Vec::new();
    if let Some(x) = faith {
        pending.push(x);
    }
    pending.push(change);
    assert(effects_view(pending@) =~= match faith {
        Some(x) => seq![x@, change@],
        None => seq![change@],
    });
    pending
}

/// A loss of life never brings the target below its floor.
pub proof fn loss_keeps_floor(
    f: FightView,
    q: LossRequest,
    r: LossReadings,
    burn: Option<BurnParams>,
)
    requires
        life(f, q.target) >= floor_hp(f, q, r),
    ensures
        life(f, q.target) - actual_loss(f, q, r, burn) >= floor_hp(f, q, r),
{
}

/// A loss is never negative where what it is worked out from is not; and a target at
/// its floor or below loses nothing.
pub proof fn loss_is_a_loss(
    f: FightView,
    q: LossRequest,
    r: LossReadings,
    burn: Option<BurnParams>,
)
    requires
        raw_loss(f, q, r, burn) >= 0,
    ensures
        0 <= actual_loss(f, q, r, burn) <= raw_loss(f, q, r, burn),
        life(f, q.target) <= floor_hp(f, q, r) ==> actual_loss(f, q, r, burn) == 0,
        life(f, q.target) >= 0 ==> actual_loss(f, q, r, burn) <= life(f, q.target),
{
}

} // verus!
