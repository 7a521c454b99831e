//! Playing effects: what each kind of effect does to the battle.

use crate::arith::{fits, or_zero, or_zero64, value, value64};
use crate::config::{find_row, row_at, MonsterSkillTemplateRow, ResistanceRow, SkillBuffRow};
use crate::event::Event;
use crate::fight_step::builder::{row_delete_layer, ActEffectBuilder};
use crate::lookup::{everyone, members};
use crate::manager::entity_mgr::{
    at_least_zero, at_location, enrolled, enrolled_keeps_places, entry,
    get_entity_mut_by_location, locations, replaced_at, with_hp, EntityLocation, EntityMgr,
    EntityMgrView,
};
use crate::mechanics::injury_counter::{is_damage, is_damage_effect_type, kind_of, read_kind};
use crate::model::lists::group_effects_view;
use crate::model::{
    effects_view, entities_view, ActEffect, BuffInfoView, BuffLayerType, EffectType, EffectView,
    EntityView, Fight, FightEntityInfo, FightView, HeroAttribute, MagicCircleInfo, TeamView,
};
use vstd::prelude::*;

verus! {

broadcast use group_effects_view;

/// Why an effect cannot be played.
#[derive(Clone, Copy, PartialEq, Eq, Structural, Debug)]
pub enum PlayError {
    NoTarget,
    NoDamage,
    NoHeal,
    NoBuff,
    NoShield,
    NoHp,
    NoMaxHp,
    NoMagicCircle,
    /// The target is nowhere to be found.
    EntityMissing { uid: i64 },
    /// The target is no longer where it was.
    EntityGone { uid: i64 },
}

/// What the buffs and the blood pool are to do for an effect.
#[derive(Debug)]
pub enum PlayCommand {
    /// Takes from the shields among the buffs of a fighter. Where they are
    /// `emptied`, the buff of the shield ends; see
    /// [`FightCalculateDataMgr::end_shield_buff`].
    ReduceShield { target: i64, amount: i32, emptied: bool },
    /// Adds or changes a buff that has a unique id, and sets the parameters of its
    /// acts.
    AddBuffWithUid {
        target: i64,
        buff_id: i32,
        from_uid: i64,
        count: i32,
        layer: i32,
        buff_uid: i64,
        params: String,
    },
    /// Adds a buff that has no unique id yet.
    AddBuff { target: i64, buff_id: i32, from_uid: i64, count: i32, layer: i32 },
    RemoveBuff { target: i64, buff_uid: i64 },
    /// Removes the buffs that the player of effects itself keeps of a fighter.
    ClearBuffs { target: i64 },
    /// Life was lost. Where `keep_value` is set the value of the pool stays.
    HpLost { target: i64, team_type: i32, amount: i32, keep_value: bool },
    EnablePool,
    PoolMax { team_type: i32, max: i32 },
    PoolDelta { team_type: i32, target: i64, delta: i32 },
    PoolSet { team_type: i32, value: i32 },
}

/// [`PlayCommand`] as a mathematical value.
pub enum CommandView {
    ReduceShield { target: i64, amount: i32, emptied: bool },
    AddBuffWithUid {
        target: i64,
        buff_id: i32,
        from_uid: i64,
        count: i32,
        layer: i32,
        buff_uid: i64,
        params: Seq<char>,
    },
    AddBuff { target: i64, buff_id: i32, from_uid: i64, count: i32, layer: i32 },
    RemoveBuff { target: i64, buff_uid: i64 },
    ClearBuffs { target: i64 },
    HpLost { target: i64, team_type: i32, amount: i32, keep_value: bool },
    EnablePool,
    PoolMax { team_type: i32, max: i32 },
    PoolDelta { team_type: i32, target: i64, delta: i32 },
    PoolSet { team_type: i32, value: i32 },
}

impl View for PlayCommand {
    type V = CommandView;

    open spec fn view(&self) -> CommandView {
        match *self {
            PlayCommand::ReduceShield { target, amount, emptied } => CommandView::ReduceShield {
                target,
                amount,
                emptied,
            },
            PlayCommand::AddBuffWithUid {
                target,
                buff_id,
                from_uid,
                count,
                layer,
                buff_uid,
                params,
            } => CommandView::AddBuffWithUid {
                target,
                buff_id,
                from_uid,
                count,
                layer,
                buff_uid,
                params: params@,
            },
            PlayCommand::AddBuff { target, buff_id, from_uid, count, layer } =>
                CommandView::AddBuff { target, buff_id, from_uid, count, layer },
            PlayCommand::RemoveBuff { target, buff_uid } => CommandView::RemoveBuff {
                target,
                buff_uid,
            },
            PlayCommand::ClearBuffs { target } => CommandView::ClearBuffs { target },
            PlayCommand::HpLost { target, team_type, amount, keep_value } => CommandView::HpLost {
                target,
                team_type,
                amount,
                keep_value,
            },
            PlayCommand::EnablePool => CommandView::EnablePool,
            PlayCommand::PoolMax { team_type, max } => CommandView::PoolMax { team_type, max },
            PlayCommand::PoolDelta { team_type, target, delta } => CommandView::PoolDelta {
                team_type,
                target,
                delta,
            },
            PlayCommand::PoolSet { team_type, value } => CommandView::PoolSet { team_type, value },
        }
    }
}

/// The commands of a list, each by its view.
pub open spec fn commands_view(v: Seq<PlayCommand>) -> Seq<CommandView> {
    Seq::new(v.len(), |i: int| v[i]@)
}

/// What playing an effect reads of the buffs, the pool and the event queue.
#[derive(Clone, Copy, PartialEq, Eq, Structural, Debug)]
pub struct PlayReadings {
    /// Whether there is a blood pool.
    pub pool_ready: bool,
    /// The capacity of the pool that the effect is about.
    pub pool_max: i32,
    /// How many ex points the target may hold above its maximum.
    pub overflow_bonus: i32,
    /// What a change of power comes to.
    pub power_amount: i32,
}

/// The battle as far as playing an effect changes it.
pub struct PlayState {
    pub fight: FightView,
    pub trackers: EntityMgrView,
    pub pending: Seq<EffectView>,
    pub commands: Seq<CommandView>,
}

/// What becomes of the battle, or why the effect cannot be played.
pub type PlayResult = Result<PlayState, PlayError>;

/// Where an effect finds its target.
pub enum Spot {
    /// An enemy that left the battle: the effect is passed over.
    Skip,
    Missing,
    Gone,
    At { location: EntityLocation, entity: EntityView },
}

/// Where an effect finds a target.
pub open spec fn spot(cache: Map<i64, EntityLocation>, f: FightView, uid: i64) -> Spot {
    if !cache.contains_key(uid) {
        if uid < 0 {
            Spot::Skip
        } else {
            Spot::Missing
        }
    } else {
        match at_location(f, cache[uid]) {
            Some(entity) => Spot::At { location: cache[uid], entity },
            None => Spot::Gone,
        }
    }
}

/// The kinds of what an effect can do.
#[derive(Clone, Copy, PartialEq, Eq, Structural, Debug)]
pub enum PlayKind {
    Nothing,
    Damage,
    Heal,
    AddBuff,
    Death,
    Shield,
    ShieldDel,
    SetHp,
    SetMaxHp,
    SetCurrentHp,
    AddExPoint,
    DelExPoint,
    PoolEnable,
    PoolMax,
    PoolValue,
    CircleAdd,
    CircleDelete,
    CircleUpdate,
    HurtDetail,
    DelBuff,
    ChangeBuff,
    Power,
}

/// What an effect of a type does. Types that are only shown do nothing.
pub open spec fn play_kind(t: EffectType) -> PlayKind {
    if is_damage(t) {
        PlayKind::Damage
    } else {
        match t {
            EffectType::Heal => PlayKind::Heal,
            EffectType::Bloodlust => PlayKind::Heal,
            EffectType::InjuryBankHeal => PlayKind::Heal,
            EffectType::SubHeroLifeChange => PlayKind::Heal,
            EffectType::BuffAdd => PlayKind::AddBuff,
            EffectType::Dead => PlayKind::Death,
            EffectType::Kill => PlayKind::Death,
            EffectType::Shield => PlayKind::Shield,
            EffectType::ShieldDel => PlayKind::ShieldDel,
            EffectType::AverageLife => PlayKind::SetHp,
            EffectType::MaxHpChange => PlayKind::SetMaxHp,
            EffectType::CurrentHpChange => PlayKind::SetCurrentHp,
            EffectType::AddExPoint => PlayKind::AddExPoint,
            EffectType::ExPointChange => PlayKind::AddExPoint,
            EffectType::ExPointDel => PlayKind::DelExPoint,
            EffectType::BloodPoolMaxCreate => PlayKind::PoolEnable,
            EffectType::BloodPoolMaxChange => PlayKind::PoolMax,
            EffectType::BloodPoolValueChange => PlayKind::PoolValue,
            EffectType::MagicCircleAdd => PlayKind::CircleAdd,
            EffectType::MagicCircleDelete => PlayKind::CircleDelete,
            EffectType::MagicCircleUpdate => PlayKind::CircleUpdate,
            EffectType::FightHurtDetail => PlayKind::HurtDetail,
            EffectType::BuffDel => PlayKind::DelBuff,
            EffectType::BuffDelNoEffect => PlayKind::DelBuff,
            EffectType::BuffUpdate => PlayKind::ChangeBuff,
            EffectType::StorageInjury => PlayKind::ChangeBuff,
            EffectType::PowerChange => PlayKind::Power,
            _ => PlayKind::Nothing,
        }
    }
}

fn find_play_kind(t: EffectType) -> (r: PlayKind)
    ensures
        r == play_kind(t),
{
    if is_damage_effect_type(t) {
        return PlayKind::Damage;
    }
    match t {
        EffectType::Heal => PlayKind::Heal,
        EffectType::Bloodlust => PlayKind::Heal,
        EffectType::InjuryBankHeal => PlayKind::Heal,
        EffectType::SubHeroLifeChange => PlayKind::Heal,
        EffectType::BuffAdd => PlayKind::AddBuff,
        EffectType::Dead => PlayKind::Death,
        EffectType::Kill => PlayKind::Death,
        EffectType::Shield => PlayKind::Shield,
        EffectType::ShieldDel => PlayKind::ShieldDel,
        EffectType::AverageLife => PlayKind::SetHp,
        EffectType::MaxHpChange => PlayKind::SetMaxHp,
        EffectType::CurrentHpChange => PlayKind::SetCurrentHp,
        EffectType::AddExPoint => PlayKind::AddExPoint,
        EffectType::ExPointChange => PlayKind::AddExPoint,
        EffectType::ExPointDel => PlayKind::DelExPoint,
        EffectType::BloodPoolMaxCreate => PlayKind::PoolEnable,
        EffectType::BloodPoolMaxChange => PlayKind::PoolMax,
        EffectType::BloodPoolValueChange => PlayKind::PoolValue,
        EffectType::MagicCircleAdd => PlayKind::CircleAdd,
        EffectType::MagicCircleDelete => PlayKind::CircleDelete,
        EffectType::MagicCircleUpdate => PlayKind::CircleUpdate,
        EffectType::FightHurtDetail => PlayKind::HurtDetail,
        EffectType::BuffDel => PlayKind::DelBuff,
        EffectType::BuffDelNoEffect => PlayKind::DelBuff,
        EffectType::BuffUpdate => PlayKind::ChangeBuff,
        EffectType::StorageInjury => PlayKind::ChangeBuff,
        EffectType::PowerChange => PlayKind::Power,
        _ => PlayKind::Nothing,
    }
}

/// The part of a hit that the shield takes.
pub open spec fn absorbed(e: EntityView, damage: i32) -> i32 {
    if damage <= or_zero(e.shield_value) {
        damage
    } else {
        or_zero(e.shield_value)
    }
}

/// A fighter after a hit: the shield takes what it can, life the rest.
pub open spec fn hit_entity(e: EntityView, damage: i32) -> EntityView {
    let through = damage - absorbed(e, damage);
    EntityView {
        shield_value: Some((or_zero(e.shield_value) - absorbed(e, damage)) as i32),
        current_hp: Some(at_least_zero(or_zero(e.current_hp) - through) as i32),
        ..e
    }
}

/// What is shown of a shield that took a hit.
pub open spec fn shield_effects(e: EntityView, target: i64, damage: i32) -> Seq<EffectView> {
    let left = or_zero(e.shield_value) - absorbed(e, damage);
    if absorbed(e, damage) <= 0 {
        Seq::empty()
    } else if left == 0 {
        seq![
            EffectView::on(EffectType::ShieldBroken, target),
            EffectView::on(EffectType::ShieldDel, target),
        ]
    } else {
        seq![EffectView::amount(EffectType::Shield, target, left as i32)]
    }
}

/// What a hit asks of the buffs and the blood pool.
pub open spec fn hit_commands(
    e: EntityView,
    target: i64,
    damage: i32,
    pool_ready: bool,
    pool_is_synced: bool,
) -> Seq<CommandView> {
    let took = absorbed(e, damage);
    let through = damage - took;
    let shield = if took > 0 {
        seq![
            CommandView::ReduceShield {
                target,
                amount: took,
                emptied: or_zero(e.shield_value) == took,
            },
        ]
    } else {
        Seq::empty()
    };
    if through > 0 && pool_ready && e.team_type is Some {
        shield.push(
            CommandView::HpLost {
                target,
                team_type: e.team_type->0,
                amount: through as i32,
                keep_value: pool_is_synced,
            },
        )
    } else {
        shield
    }
}

/// The most ex points of a fighter before any bonus; zero where there is no limit.
pub open spec fn base_ex_max(e: EntityView) -> i32 {
    if or_zero(e.ex_point_type) == 0 {
        5
    } else if or_zero(e.ex_point_type) == 1 {
        8
    } else {
        0
    }
}

/// The ex points of a fighter after a change.
pub open spec fn changed_ex(e: EntityView, offset: i32, overflow_bonus: i32) -> int {
    let sum = or_zero(e.ex_point) + offset;
    if base_ex_max(e) > 0 && sum > base_ex_max(e) + overflow_bonus {
        base_ex_max(e) + overflow_bonus
    } else {
        sum
    }
}

/// The life of a fighter after a heal: up to its maximum.
pub open spec fn healed_hp(e: EntityView, heal: i32) -> int {
    let max = match e.attr {
        Some(a) => match a.hp {
            Some(hp) => hp,
            None => or_zero(e.current_hp),
        },
        None => or_zero(e.current_hp),
    };
    if or_zero(e.current_hp) + heal <= max {
        or_zero(e.current_hp) + heal
    } else {
        max as int
    }
}

/// The circle on the field after an update; there must be one.
pub open spec fn updated_circle(
    old_circle: Option<MagicCircleInfo>,
    new_circle: MagicCircleInfo,
) -> Option<MagicCircleInfo> {
    match old_circle {
        Some(c) => Some(
            MagicCircleInfo {
                round: new_circle.round,
                electric_level: new_circle.electric_level,
                electric_progress: new_circle.electric_progress,
                max_electric_progress: new_circle.max_electric_progress,
                ..c
            },
        ),
        None => None,
    }
}

/// The command for the buff of an effect that has a unique id.
pub open spec fn buff_command(target: i64, buff_id: i32, b: BuffInfoView) -> CommandView {
    CommandView::AddBuffWithUid {
        target,
        buff_id,
        from_uid: or_zero64(b.from_uid),
        count: or_zero(b.count),
        layer: or_zero(b.layer),
        buff_uid: or_zero64(b.uid),
        params: match b.act_common_params {
            Some(p) => p,
            None => Seq::empty(),
        },
    }
}

/// The command for an effect that adds a buff.
pub open spec fn add_buff_command(target: i64, buff_id: i32, buff: Option<BuffInfoView>) -> CommandView {
    match buff {
        Some(b) => if or_zero64(b.uid) != 0 {
            buff_command(target, buff_id, b)
        } else {
            CommandView::AddBuff {
                target,
                buff_id,
                from_uid: or_zero64(b.from_uid),
                count: or_zero(b.count),
                layer: or_zero(b.layer),
            }
        },
        None => CommandView::AddBuff { target, buff_id, from_uid: 0, count: 0, layer: 0 },
    }
}

/// The state with the target of an effect replaced.
pub open spec fn with_entity(st: PlayState, location: EntityLocation, e: EntityView) -> PlayState {
    PlayState { fight: replaced_at(st.fight, location, e), ..st }
}

/// What an effect that has a target on the field does to the battle.
pub open spec fn played_on(
    st: PlayState,
    location: EntityLocation,
    entity: EntityView,
    target: i64,
    num: i32,
    kind: PlayKind,
    r: PlayReadings,
    pool_is_synced: bool,
) -> PlayState {
    let m = st.trackers;
    match kind {
        PlayKind::Damage => {
            let through = num - absorbed(entity, num);
            PlayState {
                trackers: EntityMgrView {
                    current_hp: m.current_hp.insert(
                        target,
                        at_least_zero(entry(m.current_hp, target) - through) as i32,
                    ),
                    ..m
                },
                pending: st.pending + shield_effects(entity, target, num),
                commands: st.commands + hit_commands(
                    entity,
                    target,
                    num,
                    r.pool_ready,
                    pool_is_synced,
                ),
                ..with_entity(st, location, hit_entity(entity, num))
            }
        },
        PlayKind::Heal => {
            let hp = healed_hp(entity, num) as i32;
            PlayState {
                trackers: EntityMgrView {
                    current_hp: m.current_hp.insert(target, at_least_zero(hp as int) as i32),
                    ..m
                },
                ..with_entity(st, location, EntityView { current_hp: Some(hp), ..entity })
            }
        },
        PlayKind::Death => PlayState {
            commands: st.commands.push(CommandView::ClearBuffs { target }),
            ..with_entity(st, location, EntityView { current_hp: Some(0), ..entity })
        },
        PlayKind::Shield => with_entity(
            st,
            location,
            EntityView { shield_value: Some((or_zero(entity.shield_value) + num) as i32), ..entity },
        ),
        PlayKind::ShieldDel => with_entity(
            st,
            location,
            EntityView { shield_value: Some(0), ..entity },
        ),
        PlayKind::SetHp => with_entity(
            st,
            location,
            EntityView { current_hp: Some(num), ..entity },
        ),
        PlayKind::SetMaxHp => PlayState {
            trackers: EntityMgrView {
                max_hp: m.max_hp.insert(target, at_least_zero(num as int) as i32),
                ..m
            },
            ..with_entity(
                st,
                location,
                EntityView {
                    attr: with_hp(entity.attr, num),
                    base_attr: with_hp(entity.base_attr, num),
                    ..entity
                },
            )
        },
        PlayKind::SetCurrentHp => {
            let before = or_zero(entity.current_hp);
            PlayState {
                trackers: EntityMgrView {
                    current_hp: m.current_hp.insert(target, at_least_zero(num as int) as i32),
                    ..m
                },
                commands: if r.pool_ready && num < before && entity.team_type is Some {
                    st.commands.push(
                        CommandView::HpLost {
                            target,
                            team_type: entity.team_type->0,
                            amount: (before - num) as i32,
                            keep_value: false,
                        },
                    )
                } else {
                    st.commands
                },
                ..with_entity(st, location, EntityView { current_hp: Some(num), ..entity })
            }
        },
        PlayKind::AddExPoint => {
            let new = changed_ex(entity, num, r.overflow_bonus);
            PlayState {
                trackers: EntityMgrView {
                    ex_points: m.ex_points.insert(
                        target,
                        at_least_zero(
                            entry(m.ex_points, target) + (new - or_zero(entity.ex_point)),
                        ) as i32,
                    ),
                    ..m
                },
                ..with_entity(st, location, EntityView { ex_point: Some(new as i32), ..entity })
            }
        },
        PlayKind::DelExPoint => {
            let new = at_least_zero(or_zero(entity.ex_point) - num) as i32;
            PlayState {
                trackers: EntityMgrView {
                    ex_points: m.ex_points.insert(target, new),
                    ..m
                },
                ..with_entity(st, location, EntityView { ex_point: Some(new), ..entity })
            }
        },
        _ => st,
    }
}

/// Whether an effect of a kind acts on a fighter on the field.
pub open spec fn acts_on_entity(kind: PlayKind) -> bool {
    ||| kind == PlayKind::Damage
    ||| kind == PlayKind::Heal
    ||| kind == PlayKind::Death
    ||| kind == PlayKind::Shield
    ||| kind == PlayKind::ShieldDel
    ||| kind == PlayKind::SetHp
    ||| kind == PlayKind::SetMaxHp
    ||| kind == PlayKind::SetCurrentHp
    ||| kind == PlayKind::AddExPoint
    ||| kind == PlayKind::DelExPoint
}

/// The error of an effect of a kind that has no amount; none where it needs none.
pub open spec fn amount_error(kind: PlayKind) -> Option<PlayError> {
    match kind {
        PlayKind::Damage => Some(PlayError::NoDamage),
        PlayKind::Heal => Some(PlayError::NoHeal),
        PlayKind::Shield => Some(PlayError::NoShield),
        PlayKind::SetHp => Some(PlayError::NoHp),
        PlayKind::SetCurrentHp => Some(PlayError::NoHp),
        PlayKind::SetMaxHp => Some(PlayError::NoMaxHp),
        _ => None,
    }
}

/// What an effect does to the battle.
pub open spec fn played(
    cache: Map<i64, EntityLocation>,
    st: PlayState,
    e: EffectView,
    r: PlayReadings,
    pool_is_synced: bool,
) -> PlayResult {
    let kind = play_kind(kind_of(e));
    if acts_on_entity(kind) {
        if e.target_id is None {
            Err(PlayError::NoTarget)
        } else if e.effect_num is None && amount_error(kind) is Some {
            Err(amount_error(kind)->0)
        } else {
            let target = e.target_id->0;
            match spot(cache, st.fight, target) {
                Spot::Skip => Ok(st),
                Spot::Missing => Err(PlayError::EntityMissing { uid: target }),
                Spot::Gone => Err(PlayError::EntityGone { uid: target }),
                Spot::At { location, entity } => Ok(
                    played_on(
                        st,
                        location,
                        entity,
                        target,
                        or_zero(e.effect_num),
                        kind,
                        r,
                        pool_is_synced,
                    ),
                ),
            }
        }
    } else {
        match kind {
            PlayKind::AddBuff => if e.target_id is None {
                Err(PlayError::NoTarget)
            } else if e.effect_num is None {
                Err(PlayError::NoBuff)
            } else {
                Ok(
                    PlayState {
                        commands: st.commands.push(
                            add_buff_command(e.target_id->0, e.effect_num->0, e.buff),
                        ),
                        ..st
                    },
                )
            },
            PlayKind::ChangeBuff => if e.target_id is Some && e.buff is Some
                && e.buff->0.buff_id is Some && e.buff->0.uid is Some {
                Ok(
                    PlayState {
                        commands: st.commands.push(
                            buff_command(e.target_id->0, e.buff->0.buff_id->0, e.buff->0),
                        ),
                        ..st
                    },
                )
            } else {
                Ok(st)
            },
            PlayKind::DelBuff => match e.target_id {
                Some(target) => Ok(
                    PlayState {
                        commands: st.commands.push(
                            CommandView::RemoveBuff {
                                target,
                                buff_uid: match e.buff {
                                    Some(b) => or_zero64(b.uid),
                                    None => 0,
                                },
                            },
                        ),
                        ..st
                    },
                ),
                None => Err(PlayError::NoTarget),
            },
            PlayKind::HurtDetail => if e.target_id is None {
                Err(PlayError::NoTarget)
            } else {
                Ok(st)
            },
            PlayKind::PoolEnable => Ok(
                PlayState { commands: st.commands.push(CommandView::EnablePool), ..st },
            ),
            PlayKind::PoolMax => Ok(
                PlayState {
                    commands: st.commands.push(
                        CommandView::PoolMax {
                            team_type: match e.team_type {
                                Some(t) => t,
                                None => 1,
                            },
                            max: if r.pool_max >= or_zero(e.effect_num1) {
                                r.pool_max
                            } else {
                                or_zero(e.effect_num1)
                            },
                        },
                    ),
                    ..st
                },
            ),
            PlayKind::PoolValue => {
                let team_type = match e.team_type {
                    Some(t) => t,
                    None => 1,
                };
                Ok(
                    PlayState {
                        commands: st.commands.push(
                            if or_zero(e.effect_num) == 1 && or_zero(e.effect_num1) != 0 {
                                CommandView::PoolDelta {
                                    team_type,
                                    target: or_zero64(e.target_id),
                                    delta: or_zero(e.effect_num1),
                                }
                            } else {
                                CommandView::PoolSet { team_type, value: or_zero(e.effect_num) }
                            },
                        ),
                        ..st
                    },
                )
            },
            PlayKind::CircleAdd => match e.magic_circle {
                Some(c) => Ok(
                    PlayState {
                        fight: FightView { magic_circle: Some(c), ..st.fight },
                        ..st
                    },
                ),
                None => Err(PlayError::NoMagicCircle),
            },
            PlayKind::CircleDelete => Ok(
                PlayState { fight: FightView { magic_circle: None, ..st.fight }, ..st },
            ),
            PlayKind::CircleUpdate => match e.magic_circle {
                Some(c) => Ok(
                    PlayState {
                        fight: FightView {
                            magic_circle: updated_circle(st.fight.magic_circle, c),
                            ..st.fight
                        },
                        ..st
                    },
                ),
                None => Err(PlayError::NoMagicCircle),
            },
            PlayKind::Power => Ok(
                PlayState {
                    fight: match st.fight.attacker {
                        Some(t) => FightView {
                            attacker: Some(
                                TeamView {
                                    power: Some(
                                        at_least_zero(or_zero(t.power) + r.power_amount) as i32,
                                    ),
                                    ..t
                                },
                            ),
                            ..st.fight
                        },
                        None => st.fight,
                    },
                    ..st
                },
            ),
            _ => Ok(st),
        }
    }
}

/// The sums behind an effect are in range.
pub open spec fn play_fits(
    cache: Map<i64, EntityLocation>,
    st: PlayState,
    e: EffectView,
    r: PlayReadings,
) -> bool {
    let kind = play_kind(kind_of(e));
    let num = or_zero(e.effect_num);
    if acts_on_entity(kind) {
        e.target_id is Some && (amount_error(kind) is Some ==> e.effect_num is Some) ==> match spot(
            cache,
            st.fight,
            e.target_id->0,
        ) {
            Spot::At { entity, .. } => {
                let target = e.target_id->0;
                match kind {
                    PlayKind::Damage => {
                        let through = num - absorbed(entity, num);
                        &&& fits(through)
                        &&& fits(or_zero(entity.shield_value) - absorbed(entity, num))
                        &&& fits(or_zero(entity.current_hp) - through)
                        &&& fits(entry(st.trackers.current_hp, target) - through)
                    },
                    PlayKind::Heal => fits(or_zero(entity.current_hp) + num),
                    PlayKind::Shield => fits(or_zero(entity.shield_value) + num),
                    PlayKind::SetCurrentHp => fits(or_zero(entity.current_hp) - num),
                    PlayKind::AddExPoint => {
                        let change = changed_ex(entity, num, r.overflow_bonus) - or_zero(
                            entity.ex_point,
                        );
                        &&& fits(base_ex_max(entity) + r.overflow_bonus)
                        &&& fits(or_zero(entity.ex_point) + num)
                        &&& fits(change)
                        &&& fits(entry(st.trackers.ex_points, target) + change)
                    },
                    PlayKind::DelExPoint => fits(or_zero(entity.ex_point) - num),
                    _ => true,
                }
            },
            _ => true,
        }
    } else if kind == PlayKind::Power {
        st.fight.attacker is Some ==> fits(or_zero(st.fight.attacker->0.power) + r.power_amount)
    } else {
        true
    }
}

fn in_range(x: i64) -> (r: bool)
    ensures
        r == fits(x as int),
{
    i32::MIN as i64 <= x && x <= i32::MAX as i64
}

/// Plays effects.
#[derive(Debug)]
pub struct FightCalculateDataMgr {
    /// Where everyone stands.
    pub entity_mgr: EntityMgr,
    /// What is to be shown later.
    pub pending_effects: Vec<ActEffect>,
}

/// What became of playing an effect is what [`played`] says.
pub open spec fn agrees(
    want: PlayResult,
    start: PlayState,
    fight: FightView,
    trackers: EntityMgrView,
    pending: Seq<EffectView>,
    got: Result<Vec<PlayCommand>, PlayError>,
) -> bool {
    match want {
        Ok(s) => {
            &&& got is Ok
            &&& fight == s.fight
            &&& trackers == s.trackers
            &&& pending == s.pending
            &&& commands_view(got->Ok_0@) == s.commands
        },
        Err(e) => {
            &&& got is Err
            &&& got->Err_0 == e
            &&& fight == start.fight
            &&& trackers == start.trackers
            &&& pending == start.pending
        },
    }
}

/// The battle before an effect is played.
pub open spec fn before_play(
    fight: FightView,
    trackers: EntityMgrView,
    pending: Seq<EffectView>,
) -> PlayState {
    PlayState { fight, trackers, pending, commands: Seq::empty() }
}

fn one(command: PlayCommand) -> (r: Vec<PlayCommand>)
    ensures
        commands_view(r@) == seq![command@],
{
    let mut v: Vec<PlayCommand> = Vec::new();
    v.push(command);
    assert(commands_view(v@) =~= seq![command@]);
    v
}

fn no_commands() -> (r: Vec<PlayCommand>)
    ensures
        commands_view(r@) == Seq::<CommandView>::empty(),
{
    let v: Vec<PlayCommand> = Vec::new();
    assert(commands_view(v@) =~= Seq::<CommandView>::empty());
    v
}

fn clamped(x: i32) -> (r: i32)
    ensures
        r == at_least_zero(x as int),
{
    if x > 0 {
        x
    } else {
        0
    }
}

fn raise_hp(a: Option<HeroAttribute>, hp: i32) -> (r: Option<HeroAttribute>)
    ensures
        r == with_hp(a, hp),
{
    match a {
        Some(a) => {
            let mut a = a;
            a.hp = Some(hp);
            Some(a)
        },
        None => None,
    }
}

impl FightCalculateDataMgr {
    /// Starts with the places of everyone in a battle, and nothing to be shown.
    pub fn new(fight: &Fight, templates: &Vec<MonsterSkillTemplateRow>) -> (r:
        FightCalculateDataMgr)
        ensures
            r.entity_mgr@ == enrolled(
                EntityMgrView { entity_cache: locations(fight@), ..EntityMgrView::nobody() },
                everyone(fight@),
                templates@,
            ),
            r.entity_mgr@.entity_cache == locations(fight@),
            effects_view(r.pending_effects@) == Seq::<EffectView>::empty(),
    {
        let entity_mgr = EntityMgr::new(fight, templates);
        proof {
            enrolled_keeps_places(
                EntityMgrView { entity_cache: locations(fight@), ..EntityMgrView::nobody() },
                everyone(fight@),
                templates@,
            );
        }
        FightCalculateDataMgr { entity_mgr, pending_effects: Vec::new() }
    }

    /// Looks up again where everyone stands.
    pub fn update_cache(&mut self, fight: &Fight)
        ensures
            final(self).entity_mgr@ == (EntityMgrView {
                entity_cache: locations(fight@),
                ..old(self).entity_mgr@
            }),
            final(self).pending_effects@ == old(self).pending_effects@,
    {
        self.entity_mgr.rebuild_cache(fight);
    }

    /// Hands out what is to be shown later.
    pub fn take_pending_effects(&mut self) -> (r: Vec<ActEffect>)
        ensures
            r@ == old(self).pending_effects@,
            final(self).pending_effects@.len() == 0,
            final(self).entity_mgr@ == old(self).entity_mgr@,
    {
        let mut out: Vec<ActEffect> = Vec::new();
        out.append(&mut self.pending_effects);
        assert(out@ =~= old(self).pending_effects@);
        out
    }

    /// Shows that the buff of a shield ends.
    pub fn end_shield_buff(&mut self, rows: &Vec<SkillBuffRow>, target: i64, buff_id: i32)
        ensures
            effects_view(final(self).pending_effects@) == effects_view(
                old(self).pending_effects@,
            ).push(
                EffectView {
                    buff: Some(
                        (BuffInfoView {
                            buff_id: Some(buff_id),
                            duration: None,
                            uid: Some(0),
                            ex_info: None,
                            from_uid: Some(0),
                            count: None,
                            act_common_params: None,
                            layer: Some(row_delete_layer(rows@, buff_id)),
                            layer_type: None,
                            act_info: Seq::empty(),
                        }),
                    ),
                    ..EffectView::on(EffectType::BuffDel, target)
                },
            ),
            final(self).entity_mgr@ == old(self).entity_mgr@,
    {
        self.pending_effects.push(ActEffectBuilder::buff_del(rows, target, 0, buff_id, 0));
    }

    /// Where an effect finds its target: nothing for an enemy that left.
    fn entity_location_or_skip(&self, target_id: i64) -> (r: Result<
        Option<EntityLocation>,
        PlayError,
    >)
        ensures
            ({
                let cache = self.entity_mgr@.entity_cache;
                if cache.contains_key(target_id) {
                    r == Ok::<Option<EntityLocation>, PlayError>(Some(cache[target_id]))
                } else if target_id < 0 {
                    r == Ok::<Option<EntityLocation>, PlayError>(None)
                } else {
                    r == Err::<Option<EntityLocation>, PlayError>(
                        PlayError::EntityMissing { uid: target_id },
                    )
                }
            }),
    {
        match self.entity_mgr.get_location(target_id) {
            Some(location) => Ok(Some(location)),
            None => if target_id < 0 {
                Ok(None)
            } else {
                Err(PlayError::EntityMissing { uid: target_id })
            },
        }
    }

    /// Plays a hit on a fighter.
    fn play_effect_damage(
        &mut self,
        entity: &mut FightEntityInfo,
        trackers: &mut EntityMgr,
        target: i64,
        damage: i32,
        pool_ready: bool,
        pool_is_synced: bool,
    ) -> (r: Vec<PlayCommand>)
        requires
            ({
                let through = damage - absorbed(old(entity)@, damage);
                &&& fits(through)
                &&& fits(or_zero(old(entity)@.shield_value) - absorbed(old(entity)@, damage))
                &&& fits(or_zero(old(entity)@.current_hp) - through)
                &&& fits(entry(old(trackers)@.current_hp, target) - through)
            }),
        ensures
            final(entity)@ == hit_entity(old(entity)@, damage),
            final(trackers)@ == (EntityMgrView {
                current_hp: old(trackers)@.current_hp.insert(
                    target,
                    at_least_zero(
                        entry(old(trackers)@.current_hp, target) - (damage - absorbed(
                            old(entity)@,
                            damage,
                        )),
                    ) as i32,
                ),
                ..old(trackers)@
            }),
            effects_view(final(self).pending_effects@) == effects_view(
                old(self).pending_effects@,
            ) + shield_effects(old(entity)@, target, damage),
            final(self).entity_mgr@ == old(self).entity_mgr@,
            commands_view(r@) == hit_commands(
                old(entity)@,
                target,
                damage,
                pool_ready,
                pool_is_synced,
            ),
    {
        let ghost before = entity@;
        let ghost shown = effects_view(self.pending_effects@);
        let mut commands = no_commands();
        let shield = value(entity.shield_value);
        let took: i32 = if damage <= shield {
            damage
        } else {
            shield
        };
        let through: i32 = damage - took;
        let left: i32 = shield - took;
        entity.shield_value = Some(left);
        if took > 0 {
            let command = PlayCommand::ReduceShield { target, amount: took, emptied: left == 0 };
            commands.push(command);
            assert(commands_view(commands@) =~= seq![command@]);
            if left == 0 {
                self.pending_effects.push(ActEffectBuilder::shield_broken(target));
                self.pending_effects.push(ActEffectBuilder::shield_del(target));
            } else {
                self.pending_effects.push(ActEffectBuilder::shield(target, left));
            }
        }
        assert(effects_view(self.pending_effects@) =~= shown + shield_effects(
            before,
            target,
            damage,
        ));
        let hp = value(entity.current_hp);
        entity.current_hp = Some(clamped(hp - through));
        trackers.apply_damage(target, through);
        let ghost so_far = commands_view(commands@);
        if through > 0 && pool_ready {
            if let Some(team_type) = entity.team_type {
                let command = PlayCommand::HpLost {
                    target,
                    team_type,
                    amount: through,
                    keep_value: pool_is_synced,
                };
                commands.push(command);
                assert(commands_view(commands@) =~= so_far.push(command@));
            }
        }
        commands
    }

    /// Plays an effect on the fighter that it names.
    fn play_on_entity(
        &mut self,
        effect: &ActEffect,
        kind: PlayKind,
        fight: &mut Fight,
        trackers: &mut EntityMgr,
        readings: PlayReadings,
        pool_is_synced: bool,
    ) -> (r: Result<Vec<PlayCommand>, PlayError>)
        requires
            kind == play_kind(kind_of(effect@)),
            acts_on_entity(kind),
            play_fits(
                old(self).entity_mgr@.entity_cache,
                before_play(
                    old(fight)@,
                    old(trackers)@,
                    effects_view(old(self).pending_effects@),
                ),
                effect@,
                readings,
            ),
        ensures
            final(self).entity_mgr@ == old(self).entity_mgr@,
            ({
                let start = before_play(
                    old(fight)@,
                    old(trackers)@,
                    effects_view(old(self).pending_effects@),
                );
                agrees(
                    played(
                        old(self).entity_mgr@.entity_cache,
                        start,
                        effect@,
                        readings,
                        pool_is_synced,
                    ),
                    start,
                    final(fight)@,
                    final(trackers)@,
                    effects_view(final(self).pending_effects@),
                    r,
                )
            }),
    {
        let target = match effect.target_id {
            Some(t) => t,
            None => {
                return Err(PlayError::NoTarget);
            },
        };
        if effect.effect_num.is_none() {
            match kind {
                PlayKind::Damage => {
                    return Err(PlayError::NoDamage);
                },
                PlayKind::Heal => {
                    return Err(PlayError::NoHeal);
                },
                PlayKind::Shield => {
                    return Err(PlayError::NoShield);
                },
                PlayKind::SetHp => {
                    return Err(PlayError::NoHp);
                },
                PlayKind::SetCurrentHp => {
                    return Err(PlayError::NoHp);
                },
                PlayKind::SetMaxHp => {
                    return Err(PlayError::NoMaxHp);
                },
                _ => {},
            }
        }
        let num = value(effect.effect_num);
        let location = match self.entity_location_or_skip(target) {
            Ok(Some(location)) => location,
            Ok(None) => {
                return Ok(no_commands());
            },
            Err(e) => {
                return Err(e);
            },
        };
        let entity = match get_entity_mut_by_location(fight, location) {
            Some(e) => e,
            None => {
                return Err(PlayError::EntityGone { uid: target });
            },
        };
        let ghost was = entity@;
        let ghost empty = Seq::<CommandView>::empty();
        match kind {
            PlayKind::Damage => {
                let commands = self.play_effect_damage(
                    entity,
                    trackers,
                    target,
                    num,
                    readings.pool_ready,
                    pool_is_synced,
                );
                assert(empty + commands_view(commands@) =~= commands_view(commands@));
                Ok(commands)
            },
            PlayKind::Heal => {
                let hp = value(entity.current_hp);
                let max: i32 = match entity.attr {
                    Some(a) => match a.hp {
                        Some(x) => x,
                        None => hp,
                    },
                    None => hp,
                };
                let sum: i32 = hp + num;
                let new: i32 = if sum <= max {
                    sum
                } else {
                    max
                };
                entity.current_hp = Some(new);
                trackers.set_hp(target, new);
                Ok(no_commands())
            },
            PlayKind::Death => {
                entity.current_hp = Some(0);
                let commands = one(PlayCommand::ClearBuffs { target });
                assert(empty.push(CommandView::ClearBuffs { target }) =~= commands_view(commands@));
                Ok(commands)
            },
            PlayKind::Shield => {
                entity.shield_value = Some(value(entity.shield_value) + num);
                Ok(no_commands())
            },
            PlayKind::ShieldDel => {
                entity.shield_value = Some(0);
                Ok(no_commands())
            },
            PlayKind::SetHp => {
                entity.current_hp = Some(num);
                Ok(no_commands())
            },
            PlayKind::SetMaxHp => {
                entity.attr = raise_hp(entity.attr, num);
                entity.base_attr = raise_hp(entity.base_attr, num);
                trackers.set_max_hp(target, num);
                Ok(no_commands())
            },
            PlayKind::SetCurrentHp => {
                let hp = value(entity.current_hp);
                entity.current_hp = Some(num);
                trackers.set_hp(target, num);
                if readings.pool_ready && num < hp {
                    if let Some(team_type) = entity.team_type {
                        let command = PlayCommand::HpLost {
                            target,
                            team_type,
                            amount: hp - num,
                            keep_value: false,
                        };
                        let commands = one(command);
                        assert(empty.push(command@) =~= commands_view(commands@));
                        return Ok(commands);
                    }
                }
                Ok(no_commands())
            },
            PlayKind::AddExPoint => {
                let gauge = value(entity.ex_point_type);
                let base: i32 = if gauge == 0 {
                    5
                } else if gauge == 1 {
                    8
                } else {
                    0
                };
                let max: i32 = base + readings.overflow_bonus;
                let old_points = value(entity.ex_point);
                let sum: i32 = old_points + num;
                let new: i32 = if base > 0 && sum > max {
                    max
                } else {
                    sum
                };
                entity.ex_point = Some(new);
                trackers.add_ex_point(target, new - old_points);
                Ok(no_commands())
            },
            PlayKind::DelExPoint => {
                let new = clamped(value(entity.ex_point) - num);
                entity.ex_point = Some(new);
                trackers.set_ex_point(target, new);
                Ok(no_commands())
            },
            _ => Ok(no_commands()),
        }
    }

    /// The command for the buff of an effect that has a unique id.
    fn change_buff(effect: &ActEffect) -> (r: Vec<PlayCommand>)
        ensures
            commands_view(r@) == (if effect@.target_id is Some && effect@.buff is Some
                && effect@.buff->0.buff_id is Some && effect@.buff->0.uid is Some {
                seq![
                    buff_command(
                        effect@.target_id->0,
                        effect@.buff->0.buff_id->0,
                        effect@.buff->0,
                    ),
                ]
            } else {
                Seq::empty()
            }),
    {
        if let Some(target) = effect.target_id {
            if let Some(buff) = &effect.buff {
                if let Some(buff_id) = buff.buff_id {
                    if let Some(buff_uid) = buff.uid {
                        return one(
                            PlayCommand::AddBuffWithUid {
                                target,
                                buff_id,
                                from_uid: value64(buff.from_uid),
                                count: value(buff.count),
                                layer: value(buff.layer),
                                buff_uid,
                                params: match &buff.act_common_params {
                                    Some(p) => p.clone(),
                                    None => String::new(),
                                },
                            },
                        );
                    }
                }
            }
        }
        no_commands()
    }

    /// The command for an effect that adds a buff.
    fn add_buff(effect: &ActEffect, target: i64, buff_id: i32) -> (r: Vec<PlayCommand>)
        ensures
            commands_view(r@) == seq![add_buff_command(target, buff_id, effect@.buff)],
    {
        match &effect.buff {
            Some(buff) => {
                let from_uid = value64(buff.from_uid);
                let count = value(buff.count);
                let layer = value(buff.layer);
                let buff_uid = value64(buff.uid);
                if buff_uid != 0 {
                    one(
                        PlayCommand::AddBuffWithUid {
                            target,
                            buff_id,
                            from_uid,
                            count,
                            layer,
                            buff_uid,
                            params: match &buff.act_common_params {
                                Some(p) => p.clone(),
                                None => String::new(),
                            },
                        },
                    )
                } else {
                    one(PlayCommand::AddBuff { target, buff_id, from_uid, count, layer })
                }
            },
            None => one(
                PlayCommand::AddBuff { target, buff_id, from_uid: 0, count: 0, layer: 0 },
            ),
        }
    }

    /// Looks up who stands at a place.
    fn entity_at<'a>(fight: &'a Fight, location: EntityLocation) -> (r: Option<&'a FightEntityInfo>)
        ensures
            match r {
                Some(e) => at_location(fight@, location) == Some(e@),
                None => at_location(fight@, location) is None,
            },
    {
        let team = if location.is_attacker {
            &fight.attacker
        } else {
            &fight.defender
        };
        match team {
            Some(t) => if location.index < t.entitys.len() {
                Some(&t.entitys[location.index])
            } else {
                None
            },
            None => None,
        }
    }

    /// Tests whether the sums behind an effect are in range, so that it can be played.
    pub fn can_play(
        &self,
        effect: &ActEffect,
        fight: &Fight,
        trackers: &EntityMgr,
        readings: PlayReadings,
    ) -> (r: bool)
        ensures
            r == play_fits(
                self.entity_mgr@.entity_cache,
                before_play(fight@, trackers@, effects_view(self.pending_effects@)),
                effect@,
                readings,
            ),
    {
        let kind = find_play_kind(read_kind(effect));
        let num = value(effect.effect_num) as i64;
        match kind {
            PlayKind::Power => match &fight.attacker {
                Some(t) => in_range(value(t.power) as i64 + readings.power_amount as i64),
                None => true,
            },
            PlayKind::Damage
            | PlayKind::Heal
            | PlayKind::Shield
            | PlayKind::SetCurrentHp
            | PlayKind::AddExPoint
            | PlayKind::DelExPoint => {
                let target = match effect.target_id {
                    Some(uid) => uid,
                    None => {
                        return true;
                    },
                };
                let needs_amount: bool = kind != PlayKind::AddExPoint && kind
                    != PlayKind::DelExPoint;
                if needs_amount && effect.effect_num.is_none() {
                    return true;
                }
                let location = match self.entity_mgr.get_location(target) {
                    Some(l) => l,
                    None => {
                        return true;
                    },
                };
                let e = match FightCalculateDataMgr::entity_at(fight, location) {
                    Some(e) => e,
                    None => {
                        return true;
                    },
                };
                let hp = value(e.current_hp) as i64;
                let shield = value(e.shield_value) as i64;
                let points = value(e.ex_point) as i64;
                match kind {
                    PlayKind::Damage => {
                        let took: i64 = if num <= shield {
                            num
                        } else {
                            shield
                        };
                        let through: i64 = num - took;
                        in_range(through) && in_range(shield - took) && in_range(hp - through)
                            && in_range(trackers.get_hp(target) as i64 - through)
                    },
                    PlayKind::Heal => in_range(hp + num),
                    PlayKind::Shield => in_range(shield + num),
                    PlayKind::SetCurrentHp => in_range(hp - num),
                    PlayKind::AddExPoint => {
                        let base: i64 = match value(e.ex_point_type) {
                            0 => 5,
                            1 => 8,
                            _ => 0,
                        };
                        let most: i64 = base + readings.overflow_bonus as i64;
                        let sum: i64 = points + num;
                        let changed: i64 = if base > 0 && sum > most {
                            most
                        } else {
                            sum
                        };
                        let change: i64 = changed - points;
                        in_range(most) && in_range(sum) && in_range(change) && in_range(
                            trackers.get_ex_point(target) as i64 + change,
                        )
                    },
                    _ => in_range(points - num),
                }
            },
            _ => true,
        }
    }

    /// Plays one effect that carries no step. Returns what the buffs and the blood
    /// pool are to do for it.
    pub fn play_non_nested_effect_data(
        &mut self,
        effect: &ActEffect,
        fight: &mut Fight,
        trackers: &mut EntityMgr,
        readings: PlayReadings,
        pool_is_synced: bool,
    ) -> (r: Result<Vec<PlayCommand>, PlayError>)
        requires
            play_fits(
                old(self).entity_mgr@.entity_cache,
                before_play(
                    old(fight)@,
                    old(trackers)@,
                    effects_view(old(self).pending_effects@),
                ),
                effect@,
                readings,
            ),
        ensures
            final(self).entity_mgr@ == old(self).entity_mgr@,
            ({
                let start = before_play(
                    old(fight)@,
                    old(trackers)@,
                    effects_view(old(self).pending_effects@),
                );
                agrees(
                    played(
                        old(self).entity_mgr@.entity_cache,
                        start,
                        effect@,
                        readings,
                        pool_is_synced,
                    ),
                    start,
                    final(fight)@,
                    final(trackers)@,
                    effects_view(final(self).pending_effects@),
                    r,
                )
            }),
    {
        let kind = find_play_kind(read_kind(effect));
        let ghost empty = Seq::<CommandView>::empty();
        match kind {
            PlayKind::Nothing => Ok(no_commands()),
            PlayKind::AddBuff => match effect.target_id {
                Some(target) => match effect.effect_num {
                    Some(buff_id) => {
                        let commands = FightCalculateDataMgr::add_buff(effect, target, buff_id);
                        assert(empty.push(add_buff_command(target, buff_id, effect@.buff))
                            =~= commands_view(commands@));
                        Ok(commands)
                    },
                    None => Err(PlayError::NoBuff),
                },
                None => Err(PlayError::NoTarget),
            },
            PlayKind::ChangeBuff => {
                let commands = FightCalculateDataMgr::change_buff(effect);
                proof {
                    if effect@.target_id is Some && effect@.buff is Some
                        && effect@.buff->0.buff_id is Some && effect@.buff->0.uid is Some {
                        assert(empty.push(
                            buff_command(
                                effect@.target_id->0,
                                effect@.buff->0.buff_id->0,
                                effect@.buff->0,
                            ),
                        ) =~= commands_view(commands@));
                    }
                }
                Ok(commands)
            },
            PlayKind::DelBuff => match effect.target_id {
                Some(target) => {
                    let buff_uid: i64 = match &effect.buff {
                        Some(b) => value64(b.uid),
                        None => 0,
                    };
                    let commands = one(PlayCommand::RemoveBuff { target, buff_uid });
                    assert(empty.push(CommandView::RemoveBuff { target, buff_uid })
                        =~= commands_view(commands@));
                    Ok(commands)
                },
                None => Err(PlayError::NoTarget),
            },
            PlayKind::HurtDetail => match effect.target_id {
                Some(_) => Ok(no_commands()),
                None => Err(PlayError::NoTarget),
            },
            PlayKind::PoolEnable => {
                let commands = one(PlayCommand::EnablePool);
                assert(empty.push(CommandView::EnablePool) =~= commands_view(commands@));
                Ok(commands)
            },
            PlayKind::PoolMax => {
                let team_type: i32 = match effect.team_type {
                    Some(t) => t,
                    None => 1,
                };
                let asked = value(effect.effect_num1);
                let max: i32 = if readings.pool_max >= asked {
                    readings.pool_max
                } else {
                    asked
                };
                let commands = one(PlayCommand::PoolMax { team_type, max });
                assert(empty.push(CommandView::PoolMax { team_type, max }) =~= commands_view(
                    commands@,
                ));
                Ok(commands)
            },
            PlayKind::PoolValue => {
                let team_type: i32 = match effect.team_type {
                    Some(t) => t,
                    None => 1,
                };
                let num = value(effect.effect_num);
                let delta = value(effect.effect_num1);
                let command = if num == 1 && delta != 0 {
                    PlayCommand::PoolDelta { team_type, target: value64(effect.target_id), delta }
                } else {
                    PlayCommand::PoolSet { team_type, value: num }
                };
                let commands = one(command);
                assert(empty.push(command@) =~= commands_view(commands@));
                Ok(commands)
            },
            PlayKind::CircleAdd => match effect.magic_circle {
                Some(c) => {
                    fight.magic_circle = Some(c);
                    Ok(no_commands())
                },
                None => Err(PlayError::NoMagicCircle),
            },
            PlayKind::CircleDelete => {
                fight.magic_circle = None;
                Ok(no_commands())
            },
            PlayKind::CircleUpdate => match effect.magic_circle {
                Some(c) => {
                    if let Some(existing) = fight.magic_circle {
                        let mut next = existing;
                        next.round = c.round;
                        next.electric_level = c.electric_level;
                        next.electric_progress = c.electric_progress;
                        next.max_electric_progress = c.max_electric_progress;
                        fight.magic_circle = Some(next);
                    }
                    Ok(no_commands())
                },
                None => Err(PlayError::NoMagicCircle),
            },
            PlayKind::Power => {
                if let Some(t) = &mut fight.attacker {
                    let current = value(t.power);
                    t.power = Some(clamped(current + readings.power_amount));
                }
                Ok(no_commands())
            },
            _ => self.play_on_entity(effect, kind, fight, trackers, readings, pool_is_synced),
        }
    }

    /// The event of a change of power, for the event queue to work out its amount.
    pub fn power_event(effect: &ActEffect) -> (r: Event)
        ensures
            r == (Event::PowerChange { delta: or_zero(effect@.effect_num) }),
    {
        Event::PowerChange { delta: value(effect.effect_num) }
    }
}

/// Nobody's life falls below zero by a hit.
pub proof fn hit_keeps_life(e: EntityView, damage: i32)
    requires
        fits(or_zero(e.current_hp) - (damage - absorbed(e, damage))),
    ensures
        hit_entity(e, damage).current_hp->0 >= 0,
{
}

/// A hit is paid in full: by the shield, by life, or by life that was no longer
/// there.
pub proof fn hit_is_paid(e: EntityView, damage: i32)
    requires
        damage >= 0,
        or_zero(e.shield_value) >= 0,
        or_zero(e.current_hp) >= damage,
    ensures
        or_zero(e.shield_value) + or_zero(e.current_hp) - damage == or_zero(
            hit_entity(e, damage).shield_value,
        ) + or_zero(hit_entity(e, damage).current_hp),
{
}

/// A heal never leaves life above the maximum.
pub proof fn heal_keeps_maximum(e: EntityView, heal: i32)
    requires
        e.attr is Some,
        e.attr->0.hp is Some,
    ensures
        healed_hp(e, heal) <= e.attr->0.hp->0,
{
}

/// Ex points gained never go above the maximum of the gauge and its bonus.
pub proof fn ex_keeps_maximum(e: EntityView, offset: i32, bonus: i32)
    requires
        base_ex_max(e) > 0,
    ensures
        changed_ex(e, offset, bonus) <= base_ex_max(e) + bonus,
{
}

/// The special attributes of a fighter, all of them counted from zero.
#[derive(Clone, Copy, PartialEq, Eq, Structural, Debug)]
pub struct HeroSpAttribute {
    pub revive: Option<i32>,
    pub heal: Option<i32>,
    pub absorb: Option<i32>,
    pub defense_ignore: Option<i32>,
    pub clutch: Option<i32>,
    pub final_add_dmg: Option<i32>,
    pub final_drop_dmg: Option<i32>,
    pub normal_skill_rate: Option<i32>,
    pub play_add_rate: Option<i32>,
    pub play_drop_rate: Option<i32>,
    pub dizzy_resistances: Option<i32>,
    pub sleep_resistances: Option<i32>,
    pub petrified_resistances: Option<i32>,
    pub frozen_resistances: Option<i32>,
    pub disarm_resistances: Option<i32>,
    pub forbid_resistances: Option<i32>,
    pub seal_resistances: Option<i32>,
    pub cant_get_exskill_resistances: Option<i32>,
    pub del_ex_point_resistances: Option<i32>,
    pub stress_up_resistances: Option<i32>,
    pub control_resilience: Option<i32>,
    pub del_ex_point_resilience: Option<i32>,
    pub stress_up_resilience: Option<i32>,
    pub charm_resistances: Option<i32>,
    pub rebound_dmg: Option<i32>,
    pub extra_dmg: Option<i32>,
    pub reuse_dmg: Option<i32>,
    pub big_skill_rate: Option<i32>,
    pub clutch_dmg: Option<i32>,
    pub nowmal_dmg: Option<i32>,
}

/// Special attributes that are all zero.
pub open spec fn zero_sp() -> HeroSpAttribute {
    HeroSpAttribute {
        revive: Some(0),
        heal: Some(0),
        absorb: Some(0),
        defense_ignore: Some(0),
        clutch: Some(0),
        final_add_dmg: Some(0),
        final_drop_dmg: Some(0),
        normal_skill_rate: Some(0),
        play_add_rate: Some(0),
        play_drop_rate: Some(0),
        dizzy_resistances: Some(0),
        sleep_resistances: Some(0),
        petrified_resistances: Some(0),
        frozen_resistances: Some(0),
        disarm_resistances: Some(0),
        forbid_resistances: Some(0),
        seal_resistances: Some(0),
        cant_get_exskill_resistances: Some(0),
        del_ex_point_resistances: Some(0),
        stress_up_resistances: Some(0),
        control_resilience: Some(0),
        del_ex_point_resilience: Some(0),
        stress_up_resilience: Some(0),
        charm_resistances: Some(0),
        rebound_dmg: Some(0),
        extra_dmg: Some(0),
        reuse_dmg: Some(0),
        big_skill_rate: Some(0),
        clutch_dmg: Some(0),
        nowmal_dmg: Some(0),
    }
}

/// Special attributes with the resistances of a row, the rest zero.
pub open spec fn resistant_sp(row: ResistanceRow) -> HeroSpAttribute {
    HeroSpAttribute {
        dizzy_resistances: Some(row.dizzy),
        sleep_resistances: Some(row.sleep),
        petrified_resistances: Some(row.petrified),
        frozen_resistances: Some(row.frozen),
        disarm_resistances: Some(row.disarm),
        forbid_resistances: Some(row.forbid),
        seal_resistances: Some(row.seal),
        cant_get_exskill_resistances: Some(row.cant_get_exskill),
        charm_resistances: Some(row.charm),
        del_ex_point_resistances: Some(row.del_ex_point),
        stress_up_resistances: Some(row.stress_up),
        control_resilience: Some(row.control_resilience),
        del_ex_point_resilience: Some(row.del_ex_point_resilience),
        stress_up_resilience: Some(row.stress_up_resilience),
        ..zero_sp()
    }
}

/// The special attributes of one fighter.
#[derive(Clone, Copy, PartialEq, Eq, Structural, Debug)]
pub struct FightHeroSpAttributeInfo {
    pub uid: Option<i64>,
    pub attribute: Option<HeroSpAttribute>,
}

/// The special attributes of a fighter: the resistances of its model, if known.
pub open spec fn sp_info(
    e: EntityView,
    templates: Seq<MonsterSkillTemplateRow>,
    resistances: Seq<ResistanceRow>,
) -> FightHeroSpAttributeInfo {
    let row = match e.model_id {
        Some(id) => match row_at(templates, id) {
            Some(t) => row_at(resistances, t.resistance),
            None => None,
        },
        None => None,
    };
    FightHeroSpAttributeInfo {
        uid: e.uid,
        attribute: Some(
            match row {
                Some(x) => resistant_sp(x),
                None => zero_sp(),
            },
        ),
    }
}

/// The special attributes of some fighters.
pub open spec fn sp_infos(
    s: Seq<EntityView>,
    templates: Seq<MonsterSkillTemplateRow>,
    resistances: Seq<ResistanceRow>,
) -> Seq<FightHeroSpAttributeInfo> {
    Seq::new(s.len(), |i: int| sp_info(s[i], templates, resistances))
}

impl HeroSpAttribute {
    /// Special attributes that are all zero.
    pub fn zero_hero_sp_attribute() -> (r: HeroSpAttribute)
        ensures
            r == zero_sp(),
    {
        HeroSpAttribute {
            revive: Some(0),
            heal: Some(0),
            absorb: Some(0),
            defense_ignore: Some(0),
            clutch: Some(0),
            final_add_dmg: Some(0),
            final_drop_dmg: Some(0),
            normal_skill_rate: Some(0),
            play_add_rate: Some(0),
            play_drop_rate: Some(0),
            dizzy_resistances: Some(0),
            sleep_resistances: Some(0),
            petrified_resistances: Some(0),
            frozen_resistances: Some(0),
            disarm_resistances: Some(0),
            forbid_resistances: Some(0),
            seal_resistances: Some(0),
            cant_get_exskill_resistances: Some(0),
            del_ex_point_resistances: Some(0),
            stress_up_resistances: Some(0),
            control_resilience: Some(0),
            del_ex_point_resilience: Some(0),
            stress_up_resilience: Some(0),
            charm_resistances: Some(0),
            rebound_dmg: Some(0),
            extra_dmg: Some(0),
            reuse_dmg: Some(0),
            big_skill_rate: Some(0),
            clutch_dmg: Some(0),
            nowmal_dmg: Some(0),
        }
    }
}

fn resistant(row: &ResistanceRow) -> (r: HeroSpAttribute)
    ensures
        r == resistant_sp(*row),
{
    let mut a = HeroSpAttribute::zero_hero_sp_attribute();
    a.dizzy_resistances = Some(row.dizzy);
    a.sleep_resistances = Some(row.sleep);
    a.petrified_resistances = Some(row.petrified);
    a.frozen_resistances = Some(row.frozen);
    a.disarm_resistances = Some(row.disarm);
    a.forbid_resistances = Some(row.forbid);
    a.seal_resistances = Some(row.seal);
    a.cant_get_exskill_resistances = Some(row.cant_get_exskill);
    a.charm_resistances = Some(row.charm);
    a.del_ex_point_resistances = Some(row.del_ex_point);
    a.stress_up_resistances = Some(row.stress_up);
    a.control_resilience = Some(row.control_resilience);
    a.del_ex_point_resilience = Some(row.del_ex_point_resilience);
    a.stress_up_resilience = Some(row.stress_up_resilience);
    a
}

fn push_sp_infos(
    out: &mut Vec<FightHeroSpAttributeInfo>,
    team: &Vec<FightEntityInfo>,
    templates: &Vec<MonsterSkillTemplateRow>,
    resistances: &Vec<ResistanceRow>,
)
    ensures
        final(out)@ == old(out)@ + sp_infos(entities_view(team@), templates@, resistances@),
{
    let ghost start = out@;
    let ghost s = entities_view(team@);
    assert(start + sp_infos(s.take(0), templates@, resistances@) =~= start);
    for i in 0..team.len()
        invariant
            s == entities_view(team@),
            out@ == start + sp_infos(s.take(i as int), templates@, resistances@),
    {
        assert(s[i as int] == team@[i as int]@);
        let mut attribute = HeroSpAttribute::zero_hero_sp_attribute();
        if let Some(id) = team[i].model_id {
            if let Some(t) = find_row(templates, id) {
                if let Some(row) = find_row(resistances, t.resistance) {
                    attribute = resistant(row);
                }
            }
        }
        let info = FightHeroSpAttributeInfo { uid: team[i].uid, attribute: Some(attribute) };
        assert(info == sp_info(s[i as int], templates@, resistances@));
        out.push(info);
        assert(out@ =~= start + sp_infos(s.take(i + 1), templates@, resistances@));
    }
    assert(s.take(s.len() as int) =~= s);
}

/// The special attributes of the defenders.
pub fn build_hero_sp_attributes(
    fight: &Fight,
    templates: &Vec<MonsterSkillTemplateRow>,
    resistances: &Vec<ResistanceRow>,
) -> (r: Vec<FightHeroSpAttributeInfo>)
    ensures
        r@ == sp_infos(members(fight@.defender), templates@, resistances@),
{
    let mut out: Vec<FightHeroSpAttributeInfo> = Vec::new();
    if let Some(t) = &fight.defender {
        push_sp_infos(&mut out, &t.entitys, templates, resistances);
        push_sp_infos(&mut out, &t.sub_entitys, templates, resistances);
    }
    assert(out@ =~= sp_infos(members(fight@.defender), templates@, resistances@));
    out
}

/// A skill of the player's own.
#[derive(Clone, Copy, PartialEq, Eq, Structural, Debug)]
pub struct PlayerSkillInfo {
    pub skill_id: Option<i32>,
    pub cd: Option<i32>,
    pub need_power: Option<i32>,
    pub skill_type: Option<BuffLayerType>,
}

/// The two skills of the player's own.
pub fn build_player_skills() -> (r: Vec<PlayerSkillInfo>)
    ensures
        r@ == seq![
            PlayerSkillInfo {
                skill_id: Some(30010201),
                cd: Some(0),
                need_power: Some(40),
                skill_type: Some(BuffLayerType::Normal),
            },
            PlayerSkillInfo {
                skill_id: Some(30010202),
                cd: Some(0),
                need_power: Some(25),
                skill_type: Some(BuffLayerType::Normal),
            },
        ],
{
    let mut out: Vec<PlayerSkillInfo> = Vec::new();
    out.push(
        PlayerSkillInfo {
            skill_id: Some(30010201),
            cd: Some(0),
            need_power: Some(40),
            skill_type: Some(BuffLayerType::Normal),
        },
    );
    out.push(
        PlayerSkillInfo {
            skill_id: Some(30010202),
            cd: Some(0),
            need_power: Some(25),
            skill_type: Some(BuffLayerType::Normal),
        },
    );
    assert(out@ =~= seq![out@[0], out@[1]]);
    out
}

} // verus!
