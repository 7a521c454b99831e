//! What playing an effect does to the battle.

use crate::arith::{fits, or_zero, or_zero64};
use crate::manager::calculate_mgr::{played, CommandView, PlayError, PlayReadings, PlayState};
use crate::manager::entity_mgr::{entry, EntityLocation, EntityMgrView};
use crate::model::{EffectType, EffectView, EntityView, FightView, MagicCircleInfo, TeamView};
use vstd::prelude::*;

verus! {

/// A fighter stands on the field of a battle at a place.
pub open spec fn stands_at(f: FightView, place: EntityLocation, e: EntityView) -> bool {
    if place.is_attacker {
        f.attacker is Some && place.index < f.attacker->0.entitys.len()
            && f.attacker->0.entitys[place.index as int] == e
    } else {
        f.defender is Some && place.index < f.defender->0.entitys.len()
            && f.defender->0.entitys[place.index as int] == e
    }
}

/// Two teams agree but for one fighter on the field.
pub open spec fn same_team_but(t: TeamView, u: TeamView, index: int, e: EntityView) -> bool {
    &&& u.sub_entitys == t.sub_entitys
    &&& u.power == t.power
    &&& u.entitys.len() == t.entitys.len()
    &&& forall|i: int|
        0 <= i < t.entitys.len() ==> #[trigger] u.entitys[i] == (if i == index {
            e
        } else {
            t.entitys[i]
        })
}

/// Two battles agree but for one fighter on the field.
pub open spec fn same_but(f: FightView, g: FightView, place: EntityLocation, e: EntityView) -> bool {
    &&& f.attacker is Some <==> g.attacker is Some
    &&& f.defender is Some <==> g.defender is Some
    &&& g == (FightView { attacker: g.attacker, defender: g.defender, ..f })
    &&& if place.is_attacker {
        &&& g.defender == f.defender
        &&& f.attacker is Some
        &&& same_team_but(f.attacker->0, g.attacker->0, place.index as int, e)
    } else {
        &&& g.attacker == f.attacker
        &&& f.defender is Some
        &&& same_team_but(f.defender->0, g.defender->0, place.index as int, e)
    }
}

/// A ledger has a new value for one fighter and its old one for everyone else.
pub open spec fn ledger_but(m: Map<i64, i32>, n: Map<i64, i32>, uid: i64, value: int) -> bool {
    &&& n.contains_key(uid)
    &&& n[uid] == value
    &&& forall|other: i64| other != uid ==> n.contains_key(other) == m.contains_key(other)
    &&& forall|other: i64| other != uid && m.contains_key(other) ==> n[other] == m[other]
}

/// The types of effects that hit.
pub open spec fn hits(t: EffectType) -> bool {
    match t {
        EffectType::Damage => true,
        EffectType::Crit => true,
        EffectType::DamageExtra => true,
        EffectType::OriginDamage => true,
        EffectType::OriginCrit => true,
        EffectType::DamageFromAbsorb => true,
        EffectType::DamageFromLostHp => true,
        EffectType::EnchantBurnDamage => true,
        EffectType::DamageShareHp => true,
        EffectType::DeadlyPoisonOriginDamage => true,
        EffectType::DeadlyPoisonOriginCrit => true,
        EffectType::AdditionalDamage => true,
        EffectType::AdditionalDamageCrit => true,
        EffectType::ShareHurt => true,
        EffectType::EnchantDepresseDamage => true,
        _ => false,
    }
}

/// The types of effects that heal.
pub open spec fn heals(t: EffectType) -> bool {
    match t {
        EffectType::Heal => true,
        EffectType::Bloodlust => true,
        EffectType::InjuryBankHeal => true,
        EffectType::SubHeroLifeChange => true,
        _ => false,
    }
}

/// A heal adds its amount to the life of its target as long as that stays within the
/// maximum; beyond it the life is the maximum. The tracked life follows, but never
/// below zero, and nobody else changes.
pub proof fn a_heal_adds_up_to_the_maximum(
    cache: Map<i64, EntityLocation>,
    st: PlayState,
    e: EffectView,
    r: PlayReadings,
    synced: bool,
    uid: i64,
    entity: EntityView,
    heal: i32,
)
    requires
        e.effect_type is Some && heals(e.effect_type->0),
        e.target_id == Some(uid),
        e.effect_num == Some(heal),
        cache.contains_key(uid),
        stands_at(st.fight, cache[uid], entity),
        fits(or_zero(entity.current_hp) + heal),
    ensures
        ({
            let life = or_zero(entity.current_hp);
            let sum = life + heal;
            let max = if entity.attr is Some && entity.attr->0.hp is Some {
                entity.attr->0.hp->0
            } else {
                life
            };
            &&& played(cache, st, e, r, synced) matches Ok(s) && {
                let after = if sum <= max {
                    sum
                } else {
                    max as int
                };
                &&& same_but(
                    st.fight,
                    s.fight,
                    cache[uid],
                    EntityView { current_hp: Some(after as i32), ..entity },
                )
                &&& ledger_but(
                    st.trackers.current_hp,
                    s.trackers.current_hp,
                    uid,
                    if after > 0 {
                        after
                    } else {
                        0
                    },
                )
                &&& s.trackers == (EntityMgrView {
                    current_hp: s.trackers.current_hp,
                    ..st.trackers
                })
                &&& s.pending == st.pending
                &&& s.commands == st.commands
            }
        }),
{
}

/// A hit takes from the shield of its target first and from its life only what the
/// shield does not hold, and never below zero. The tracked life loses the same. Nobody
/// else changes.
pub proof fn a_hit_takes_the_shield_first(
    cache: Map<i64, EntityLocation>,
    st: PlayState,
    e: EffectView,
    r: PlayReadings,
    synced: bool,
    uid: i64,
    entity: EntityView,
    damage: i32,
)
    requires
        e.effect_type is Some && hits(e.effect_type->0),
        e.target_id == Some(uid),
        e.effect_num == Some(damage),
        cache.contains_key(uid),
        stands_at(st.fight, cache[uid], entity),
        ({
            let shield = or_zero(entity.shield_value);
            &&& shield < damage ==> fits(damage - shield) && fits(
                or_zero(entity.current_hp) - (damage - shield),
            ) && fits(entry(st.trackers.current_hp, uid) - (damage - shield))
            &&& damage <= shield ==> fits(shield - damage)
        }),
    ensures
        ({
            let shield = or_zero(entity.shield_value);
            let life = or_zero(entity.current_hp);
            let tracked_life = entry(st.trackers.current_hp, uid);
            &&& played(cache, st, e, r, synced) matches Ok(s) && {
                let through = if shield < damage {
                    damage - shield
                } else {
                    0
                };
                &&& same_but(
                    st.fight,
                    s.fight,
                    cache[uid],
                    EntityView {
                        shield_value: Some(
                            if shield < damage {
                                0
                            } else {
                                (shield - damage) as i32
                            },
                        ),
                        current_hp: Some(
                            if life - through > 0 {
                                (life - through) as i32
                            } else {
                                0
                            },
                        ),
                        ..entity
                    },
                )
                &&& ledger_but(
                    st.trackers.current_hp,
                    s.trackers.current_hp,
                    uid,
                    if tracked_life - through > 0 {
                        tracked_life - through
                    } else {
                        0
                    },
                )
                &&& s.trackers == (EntityMgrView {
                    current_hp: s.trackers.current_hp,
                    ..st.trackers
                })
            }
        }),
{
}

/// What is shown and asked for of a hit: a shield that gave way is broken and removed,
/// one that held is shown with what is left of it, and its buffs lose what it took; and
/// the blood pool of the target's team hears of the life that was lost, if there is a
/// pool and any was.
pub proof fn a_hit_is_reported(
    cache: Map<i64, EntityLocation>,
    st: PlayState,
    e: EffectView,
    r: PlayReadings,
    synced: bool,
    uid: i64,
    entity: EntityView,
    damage: i32,
)
    requires
        e.effect_type is Some && hits(e.effect_type->0),
        e.target_id == Some(uid),
        e.effect_num == Some(damage),
        cache.contains_key(uid),
        stands_at(st.fight, cache[uid], entity),
        damage >= 0,
        or_zero(entity.shield_value) >= 0,
    ensures
        ({
            let shield = or_zero(entity.shield_value);
            let n = st.pending.len() as int;
            let m = st.commands.len() as int;
            let hurts = shield < damage && r.pool_ready && entity.team_type is Some;
            let shielded = shield > 0 && damage > 0;
            &&& played(cache, st, e, r, synced) matches Ok(s) && {
                &&& s.pending.len() >= n && s.pending.take(n) == st.pending
                &&& s.commands.len() >= m && s.commands.take(m) == st.commands
                &&& !shielded ==> s.pending.len() == n
                &&& shielded && damage >= shield ==> {
                    &&& s.pending.len() == n + 2
                    &&& s.pending[n].effect_type == Some(EffectType::ShieldBroken)
                    &&& s.pending[n].target_id == Some(uid)
                    &&& s.pending[n + 1].effect_type == Some(EffectType::ShieldDel)
                    &&& s.pending[n + 1].target_id == Some(uid)
                }
                &&& shielded && damage < shield ==> {
                    &&& s.pending.len() == n + 1
                    &&& s.pending[n].effect_type == Some(EffectType::Shield)
                    &&& s.pending[n].target_id == Some(uid)
                    &&& s.pending[n].effect_num == Some((shield - damage) as i32)
                }
                &&& s.commands.len() == m + (if shielded {
                    1int
                } else {
                    0
                }) + (if hurts {
                    1int
                } else {
                    0
                })
                &&& shielded ==> s.commands[m] == (CommandView::ReduceShield {
                    target: uid,
                    amount: if damage < shield {
                        damage
                    } else {
                        shield
                    },
                    emptied: damage >= shield,
                })
                &&& hurts ==> s.commands.last() == (CommandView::HpLost {
                    target: uid,
                    team_type: entity.team_type->0,
                    amount: (damage - shield) as i32,
                    keep_value: synced,
                })
            }
        }),
{
    let s = played(cache, st, e, r, synced)->Ok_0;
    assert(s.pending.take(st.pending.len() as int) =~= st.pending);
    assert(s.commands.take(st.commands.len() as int) =~= st.commands);
}

/// Whoever dies or is killed has no life left and loses the buffs that playing keeps.
pub proof fn the_dead_have_no_life(
    cache: Map<i64, EntityLocation>,
    st: PlayState,
    e: EffectView,
    r: PlayReadings,
    synced: bool,
    uid: i64,
    entity: EntityView,
)
    requires
        e.effect_type == Some(EffectType::Dead) || e.effect_type == Some(EffectType::Kill),
        e.target_id == Some(uid),
        cache.contains_key(uid),
        stands_at(st.fight, cache[uid], entity),
    ensures
        played(cache, st, e, r, synced) matches Ok(s) && {
            &&& same_but(
                st.fight,
                s.fight,
                cache[uid],
                EntityView { current_hp: Some(0), ..entity },
            )
            &&& s.trackers == st.trackers
            &&& s.pending == st.pending
            &&& s.commands.len() == st.commands.len() + 1
            &&& s.commands.drop_last() == st.commands
            &&& s.commands.last() == (CommandView::ClearBuffs { target: uid })
        },
{
    let s = played(cache, st, e, r, synced)->Ok_0;
    assert(s.commands.drop_last() =~= st.commands);
}

/// A shield adds to the shield at hand; the end of the shield leaves none.
pub proof fn shields_add_up_and_end(
    cache: Map<i64, EntityLocation>,
    st: PlayState,
    e: EffectView,
    r: PlayReadings,
    synced: bool,
    uid: i64,
    entity: EntityView,
)
    requires
        e.target_id == Some(uid),
        cache.contains_key(uid),
        stands_at(st.fight, cache[uid], entity),
    ensures
        e.effect_type == Some(EffectType::Shield) && e.effect_num is Some && fits(
            or_zero(entity.shield_value) + e.effect_num->0,
        ) ==> (played(cache, st, e, r, synced) matches Ok(s) && {
            &&& same_but(
                st.fight,
                s.fight,
                cache[uid],
                EntityView {
                    shield_value: Some((or_zero(entity.shield_value) + e.effect_num->0) as i32),
                    ..entity
                },
            )
            &&& s == (PlayState { fight: s.fight, ..st })
        }),
        e.effect_type == Some(EffectType::ShieldDel) ==> (played(cache, st, e, r, synced) matches Ok(
            s,
        ) && {
            &&& same_but(
                st.fight,
                s.fight,
                cache[uid],
                EntityView { shield_value: Some(0), ..entity },
            )
            &&& s == (PlayState { fight: s.fight, ..st })
        }),
{
}

/// Life that is set, and a maximum of life that is set, are exactly as the effect says;
/// life that is set below what it was counts as lost where there is a blood pool.
pub proof fn life_is_set_as_told(
    cache: Map<i64, EntityLocation>,
    st: PlayState,
    e: EffectView,
    r: PlayReadings,
    synced: bool,
    uid: i64,
    entity: EntityView,
    num: i32,
)
    requires
        e.target_id == Some(uid),
        e.effect_num == Some(num),
        cache.contains_key(uid),
        stands_at(st.fight, cache[uid], entity),
    ensures
        e.effect_type == Some(EffectType::AverageLife) ==> (played(
            cache,
            st,
            e,
            r,
            synced,
        ) matches Ok(s) && {
            &&& same_but(
                st.fight,
                s.fight,
                cache[uid],
                EntityView { current_hp: Some(num), ..entity },
            )
            &&& s == (PlayState { fight: s.fight, ..st })
        }),
        e.effect_type == Some(EffectType::MaxHpChange) ==> (played(
            cache,
            st,
            e,
            r,
            synced,
        ) matches Ok(s) && exists|after: EntityView| #[trigger]
            same_but(st.fight, s.fight, cache[uid], after) && {
                &&& after == (EntityView {
                    attr: after.attr,
                    base_attr: after.base_attr,
                    ..entity
                })
                &&& entity.attr is None ==> after.attr is None
                &&& entity.attr is Some ==> after.attr is Some && after.attr->0.hp == Some(num)
                    && after.attr->0.attack == entity.attr->0.attack && after.attr->0.defense
                    == entity.attr->0.defense
                &&& entity.base_attr is None ==> after.base_attr is None
                &&& entity.base_attr is Some ==> after.base_attr is Some && after.base_attr->0.hp
                    == Some(num) && after.base_attr->0.attack == entity.base_attr->0.attack
                    && after.base_attr->0.defense == entity.base_attr->0.defense
            } && ledger_but(
            st.trackers.max_hp,
            s.trackers.max_hp,
            uid,
            if num > 0 {
                num as int
            } else {
                0
            },
        ) && s.trackers == (EntityMgrView { max_hp: s.trackers.max_hp, ..st.trackers }) && s.pending
            == st.pending && s.commands == st.commands),
        e.effect_type == Some(EffectType::CurrentHpChange) ==> (played(
            cache,
            st,
            e,
            r,
            synced,
        ) matches Ok(s) && {
            let lost = or_zero(entity.current_hp) - num;
            &&& same_but(
                st.fight,
                s.fight,
                cache[uid],
                EntityView { current_hp: Some(num), ..entity },
            )
            &&& ledger_but(
                st.trackers.current_hp,
                s.trackers.current_hp,
                uid,
                if num > 0 {
                    num as int
                } else {
                    0
                },
            )
            &&& s.trackers == (EntityMgrView { current_hp: s.trackers.current_hp, ..st.trackers })
            &&& s.pending == st.pending
            &&& (lost <= 0 || !r.pool_ready || entity.team_type is None) ==> s.commands
                == st.commands
            &&& (lost > 0 && fits(lost) && r.pool_ready && entity.team_type is Some) ==> {
                &&& s.commands.len() == st.commands.len() + 1
                &&& s.commands.drop_last() =~= st.commands
                &&& s.commands.last() == (CommandView::HpLost {
                    target: uid,
                    team_type: entity.team_type->0,
                    amount: lost as i32,
                    keep_value: false,
                })
            }
        }),
{
    if e.effect_type == Some(EffectType::MaxHpChange) {
        let s = played(cache, st, e, r, synced)->Ok_0;
        let after = if cache[uid].is_attacker {
            s.fight.attacker->0.entitys[cache[uid].index as int]
        } else {
            s.fight.defender->0.entitys[cache[uid].index as int]
        };
        assert(same_but(st.fight, s.fight, cache[uid], after));
    }
}

/// Ex points change by what the effect says, up to the maximum of the gauge and its
/// bonus: five for a gauge of the ordinary kind, eight for one of the first kind, and no
/// maximum for any other. The tracked points change by as much as the points did, and
/// never fall below zero.
pub proof fn ex_points_change_up_to_the_gauge(
    cache: Map<i64, EntityLocation>,
    st: PlayState,
    e: EffectView,
    r: PlayReadings,
    synced: bool,
    uid: i64,
    entity: EntityView,
)
    requires
        e.effect_type == Some(EffectType::AddExPoint) || e.effect_type == Some(
            EffectType::ExPointChange,
        ),
        e.target_id == Some(uid),
        cache.contains_key(uid),
        stands_at(st.fight, cache[uid], entity),
        fits(8 + r.overflow_bonus),
        fits(5 + r.overflow_bonus),
        fits(or_zero(entity.ex_point) + or_zero(e.effect_num)),
        fits(5 + r.overflow_bonus - or_zero(entity.ex_point)),
        fits(8 + r.overflow_bonus - or_zero(entity.ex_point)),
        fits(entry(st.trackers.ex_points, uid) + or_zero(e.effect_num)),
        fits(
            entry(st.trackers.ex_points, uid) + 5 + r.overflow_bonus - or_zero(entity.ex_point),
        ),
        fits(
            entry(st.trackers.ex_points, uid) + 8 + r.overflow_bonus - or_zero(entity.ex_point),
        ),
    ensures
        ({
            let sum = or_zero(entity.ex_point) + or_zero(e.effect_num);
            let kind = or_zero(entity.ex_point_type);
            &&& played(cache, st, e, r, synced) matches Ok(s) && {
                let after = if kind == 0 && sum > 5 + r.overflow_bonus {
                    5 + r.overflow_bonus
                } else if kind == 1 && sum > 8 + r.overflow_bonus {
                    8 + r.overflow_bonus
                } else {
                    sum
                };
                let tracked_after = entry(st.trackers.ex_points, uid) + after - or_zero(
                    entity.ex_point,
                );
                &&& same_but(
                    st.fight,
                    s.fight,
                    cache[uid],
                    EntityView { ex_point: Some(after as i32), ..entity },
                )
                &&& ledger_but(
                    st.trackers.ex_points,
                    s.trackers.ex_points,
                    uid,
                    if tracked_after > 0 {
                        tracked_after
                    } else {
                        0
                    },
                )
                &&& s.trackers == (EntityMgrView {
                    ex_points: s.trackers.ex_points,
                    ..st.trackers
                })
                &&& s.pending == st.pending
                &&& s.commands == st.commands
            }
        }),
{
}

/// Ex points that are deleted are gone, but no more than there were; the tracked points
/// are the points.
pub proof fn ex_points_are_deleted(
    cache: Map<i64, EntityLocation>,
    st: PlayState,
    e: EffectView,
    r: PlayReadings,
    synced: bool,
    uid: i64,
    entity: EntityView,
)
    requires
        e.effect_type == Some(EffectType::ExPointDel),
        e.target_id == Some(uid),
        cache.contains_key(uid),
        stands_at(st.fight, cache[uid], entity),
        fits(or_zero(entity.ex_point) - or_zero(e.effect_num)),
    ensures
        ({
            let rest = or_zero(entity.ex_point) - or_zero(e.effect_num);
            &&& played(cache, st, e, r, synced) matches Ok(s) && {
                let after = if rest > 0 {
                    rest
                } else {
                    0
                };
                &&& same_but(
                    st.fight,
                    s.fight,
                    cache[uid],
                    EntityView { ex_point: Some(after as i32), ..entity },
                )
                &&& ledger_but(st.trackers.ex_points, s.trackers.ex_points, uid, after)
                &&& s.trackers == (EntityMgrView {
                    ex_points: s.trackers.ex_points,
                    ..st.trackers
                })
                &&& s.pending == st.pending
                &&& s.commands == st.commands
            }
        }),
{
}

/// The types of effects that need a fighter on the field.
pub open spec fn needs_fighter(t: EffectType) -> bool {
    ||| hits(t)
    ||| heals(t)
    ||| t == EffectType::Dead
    ||| t == EffectType::Kill
    ||| t == EffectType::Shield
    ||| t == EffectType::ShieldDel
    ||| t == EffectType::AverageLife
    ||| t == EffectType::MaxHpChange
    ||| t == EffectType::CurrentHpChange
    ||| t == EffectType::AddExPoint
    ||| t == EffectType::ExPointChange
    ||| t == EffectType::ExPointDel
}

/// An effect that needs a fighter fails without a target; without the amount that it
/// needs; where its target is a hero who is nowhere to be found; and where its target is
/// no longer at its place. Where its target is an enemy who left, nothing happens.
pub proof fn effects_without_a_fighter(
    cache: Map<i64, EntityLocation>,
    st: PlayState,
    e: EffectView,
    r: PlayReadings,
    synced: bool,
)
    requires
        e.effect_type is Some && needs_fighter(e.effect_type->0),
    ensures
        ({
            let t = e.effect_type->0;
            let need = if hits(t) {
                Some(PlayError::NoDamage)
            } else if heals(t) {
                Some(PlayError::NoHeal)
            } else if t == EffectType::Shield {
                Some(PlayError::NoShield)
            } else if t == EffectType::AverageLife || t == EffectType::CurrentHpChange {
                Some(PlayError::NoHp)
            } else if t == EffectType::MaxHpChange {
                Some(PlayError::NoMaxHp)
            } else {
                None
            };
            let got = played(cache, st, e, r, synced);
            &&& e.target_id is None ==> got == Err::<PlayState, PlayError>(PlayError::NoTarget)
            &&& e.target_id is Some && e.effect_num is None && need is Some ==> got == Err::<
                PlayState,
                PlayError,
            >(need->0)
            &&& e.target_id is Some && (e.effect_num is Some || need is None) ==> {
                let uid = e.target_id->0;
                &&& !cache.contains_key(uid) && uid < 0 ==> got == Ok::<PlayState, PlayError>(st)
                &&& !cache.contains_key(uid) && uid >= 0 ==> got == Err::<PlayState, PlayError>(
                    PlayError::EntityMissing { uid },
                )
                &&& cache.contains_key(uid) && (forall|x: EntityView|
                    !stands_at(st.fight, cache[uid], x)) ==> got == Err::<PlayState, PlayError>(
                    PlayError::EntityGone { uid },
                )
            }
        }),
{
    if e.target_id is Some && cache.contains_key(e.target_id->0) {
        let place = cache[e.target_id->0];
        if place.is_attacker {
            if st.fight.attacker is Some && place.index < st.fight.attacker->0.entitys.len() {
                assert(stands_at(
                    st.fight,
                    place,
                    st.fight.attacker->0.entitys[place.index as int],
                ));
            }
        } else {
            if st.fight.defender is Some && place.index < st.fight.defender->0.entitys.len() {
                assert(stands_at(
                    st.fight,
                    place,
                    st.fight.defender->0.entitys[place.index as int],
                ));
            }
        }
    }
}

/// An effect asks one thing of the buffs and the pool, after what was asked before.
pub open spec fn asks(st: PlayState, got: Result<PlayState, PlayError>, c: CommandView) -> bool {
    got matches Ok(s) && s == (PlayState { commands: st.commands.push(c), ..st })
}

/// Effects on buffs ask the buffs to do what they say and change nothing else: a new buff
/// with a unique id is added under that id, one without is added anew, an update and a
/// stored injury write to the buff they name, and a deletion removes it.
pub proof fn effects_on_buffs(
    cache: Map<i64, EntityLocation>,
    st: PlayState,
    e: EffectView,
    r: PlayReadings,
    synced: bool,
)
    ensures
        ({
            let got = played(cache, st, e, r, synced);
            let t = e.effect_type;
            let buff_uid = if e.buff is Some {
                or_zero64(e.buff->0.uid)
            } else {
                0
            };
            let params = if e.buff is Some && e.buff->0.act_common_params is Some {
                e.buff->0.act_common_params->0
            } else {
                Seq::<char>::empty()
            };
            let from_uid = if e.buff is Some {
                or_zero64(e.buff->0.from_uid)
            } else {
                0
            };
            let count = if e.buff is Some {
                or_zero(e.buff->0.count)
            } else {
                0
            };
            let layer = if e.buff is Some {
                or_zero(e.buff->0.layer)
            } else {
                0
            };
            &&& t == Some(EffectType::BuffAdd) ==> {
                &&& e.target_id is None ==> got == Err::<PlayState, PlayError>(PlayError::NoTarget)
                &&& e.target_id is Some && e.effect_num is None ==> got == Err::<
                    PlayState,
                    PlayError,
                >(PlayError::NoBuff)
                &&& e.target_id is Some && e.effect_num is Some && buff_uid != 0 ==> asks(
                    st,
                    got,
                    CommandView::AddBuffWithUid {
                        target: e.target_id->0,
                        buff_id: e.effect_num->0,
                        from_uid,
                        count,
                        layer,
                        buff_uid,
                        params,
                    },
                )
                &&& e.target_id is Some && e.effect_num is Some && buff_uid == 0 ==> asks(
                    st,
                    got,
                    CommandView::AddBuff {
                        target: e.target_id->0,
                        buff_id: e.effect_num->0,
                        from_uid,
                        count,
                        layer,
                    },
                )
            }
            &&& t == Some(EffectType::BuffUpdate) || t == Some(EffectType::StorageInjury) ==> {
                &&& e.target_id is Some && e.buff is Some && e.buff->0.buff_id is Some
                    && e.buff->0.uid is Some ==> asks(
                    st,
                    got,
                    CommandView::AddBuffWithUid {
                        target: e.target_id->0,
                        buff_id: e.buff->0.buff_id->0,
                        from_uid,
                        count,
                        layer,
                        buff_uid,
                        params,
                    },
                )
                &&& e.target_id is None || e.buff is None || e.buff->0.buff_id is None
                    || e.buff->0.uid is None ==> got == Ok::<PlayState, PlayError>(st)
            }
            &&& t == Some(EffectType::BuffDel) || t == Some(EffectType::BuffDelNoEffect) ==> {
                &&& e.target_id is None ==> got == Err::<PlayState, PlayError>(PlayError::NoTarget)
                &&& e.target_id is Some ==> asks(
                    st,
                    got,
                    CommandView::RemoveBuff { target: e.target_id->0, buff_uid },
                )
            }
        }),
{
}

/// Effects on the blood pool ask the pool to do what they say: to exist; to hold no less
/// than before and no less than the effect says; to change by an amount; or to be set.
pub proof fn effects_on_the_pool(
    cache: Map<i64, EntityLocation>,
    st: PlayState,
    e: EffectView,
    r: PlayReadings,
    synced: bool,
)
    ensures
        ({
            let got = played(cache, st, e, r, synced);
            let t = e.effect_type;
            let team_type = if e.team_type is Some {
                e.team_type->0
            } else {
                1
            };
            let new_max = or_zero(e.effect_num1);
            &&& t == Some(EffectType::BloodPoolMaxCreate) ==> asks(
                st,
                got,
                CommandView::EnablePool,
            )
            &&& t == Some(EffectType::BloodPoolMaxChange) && new_max > r.pool_max ==> asks(
                st,
                got,
                CommandView::PoolMax { team_type, max: new_max },
            )
            &&& t == Some(EffectType::BloodPoolMaxChange) && new_max <= r.pool_max ==> asks(
                st,
                got,
                CommandView::PoolMax { team_type, max: r.pool_max },
            )
            &&& t == Some(EffectType::BloodPoolValueChange) && e.effect_num == Some(1i32)
                && e.effect_num1 is Some && e.effect_num1->0 != 0 ==> asks(
                st,
                got,
                CommandView::PoolDelta {
                    team_type,
                    target: or_zero64(e.target_id),
                    delta: e.effect_num1->0,
                },
            )
            &&& t == Some(EffectType::BloodPoolValueChange) && (e.effect_num != Some(1i32)
                || or_zero(e.effect_num1) == 0) ==> asks(
                st,
                got,
                CommandView::PoolSet { team_type, value: or_zero(e.effect_num) },
            )
        }),
{
}

/// A circle that is laid is on the field, one that is deleted is not; an update changes
/// the rounds and the charge of the circle at hand and keeps which it is and whose.
/// Power changes by what the queue made of the effect, and never falls below zero.
pub proof fn effects_on_circles_and_power(
    cache: Map<i64, EntityLocation>,
    st: PlayState,
    e: EffectView,
    r: PlayReadings,
    synced: bool,
)
    ensures
        ({
            let got = played(cache, st, e, r, synced);
            let t = e.effect_type;
            &&& (t == Some(EffectType::MagicCircleAdd) || t == Some(EffectType::MagicCircleUpdate))
                && e.magic_circle is None ==> got == Err::<PlayState, PlayError>(
                PlayError::NoMagicCircle,
            )
            &&& t == Some(EffectType::MagicCircleAdd) && e.magic_circle is Some ==> (got matches Ok(s)
                && s.fight.magic_circle == e.magic_circle && s == (PlayState {
                fight: FightView { magic_circle: s.fight.magic_circle, ..st.fight },
                ..st
            }))
            &&& t == Some(EffectType::MagicCircleDelete) ==> (got matches Ok(s)
                && s.fight.magic_circle is None && s == (PlayState {
                fight: FightView { magic_circle: s.fight.magic_circle, ..st.fight },
                ..st
            }))
            &&& t == Some(EffectType::MagicCircleUpdate) && e.magic_circle is Some
                && st.fight.magic_circle is None ==> got == Ok::<PlayState, PlayError>(st)
            &&& t == Some(EffectType::MagicCircleUpdate) && e.magic_circle is Some
                && st.fight.magic_circle is Some ==> (got matches Ok(s)
                && s.fight.magic_circle is Some && ({
                let old_circle: MagicCircleInfo = st.fight.magic_circle->0;
                let told: MagicCircleInfo = e.magic_circle->0;
                let now: MagicCircleInfo = s.fight.magic_circle->0;
                &&& now.magic_circle_id == old_circle.magic_circle_id
                &&& now.create_uid == old_circle.create_uid
                &&& now.round == told.round
                &&& now.electric_level == told.electric_level
                &&& now.electric_progress == told.electric_progress
                &&& now.max_electric_progress == told.max_electric_progress
            }) && s == (PlayState {
                fight: FightView { magic_circle: s.fight.magic_circle, ..st.fight },
                ..st
            }))
            &&& t == Some(EffectType::PowerChange) && st.fight.attacker is None ==> got == Ok::<
                PlayState,
                PlayError,
            >(st)
            &&& t == Some(EffectType::PowerChange) && st.fight.attacker is Some && fits(
                or_zero(st.fight.attacker->0.power) + r.power_amount,
            ) ==> (got matches Ok(s) && s.fight.attacker is Some && s.fight.attacker->0.power
                == Some(
                (if or_zero(st.fight.attacker->0.power) + r.power_amount > 0 {
                    or_zero(st.fight.attacker->0.power) + r.power_amount
                } else {
                    0
                }) as i32,
            ) && s.fight.attacker->0.entitys == st.fight.attacker->0.entitys
                && s.fight.attacker->0.sub_entitys == st.fight.attacker->0.sub_entitys && s == (
            PlayState { fight: FightView { attacker: s.fight.attacker, ..st.fight }, ..st }))
        }),
{
}

/// The types of effects that do something when they are played.
pub open spec fn acts(t: EffectType) -> bool {
    ||| needs_fighter(t)
    ||| t == EffectType::BuffAdd
    ||| t == EffectType::BuffUpdate
    ||| t == EffectType::StorageInjury
    ||| t == EffectType::BuffDel
    ||| t == EffectType::BuffDelNoEffect
    ||| t == EffectType::BloodPoolMaxCreate
    ||| t == EffectType::BloodPoolMaxChange
    ||| t == EffectType::BloodPoolValueChange
    ||| t == EffectType::MagicCircleAdd
    ||| t == EffectType::MagicCircleDelete
    ||| t == EffectType::MagicCircleUpdate
    ||| t == EffectType::PowerChange
}

/// Any other effect is only shown: the battle stays as it is. The detail of a hit has to
/// name its target all the same.
pub proof fn other_effects_are_only_shown(
    cache: Map<i64, EntityLocation>,
    st: PlayState,
    e: EffectView,
    r: PlayReadings,
    synced: bool,
)
    requires
        e.effect_type is None || !acts(e.effect_type->0),
    ensures
        e.effect_type == Some(EffectType::FightHurtDetail) && e.target_id is None ==> played(
            cache,
            st,
            e,
            r,
            synced,
        ) == Err::<PlayState, PlayError>(PlayError::NoTarget),
        !(e.effect_type == Some(EffectType::FightHurtDetail) && e.target_id is None) ==> played(
            cache,
            st,
            e,
            r,
            synced,
        ) == Ok::<PlayState, PlayError>(st),
{
}

} // verus!
