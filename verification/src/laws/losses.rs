//! Life that is lost.

use crate::arith::{fits, or_zero};
use crate::buffs::BuffInstance;
use crate::config::{row_at, BuffActRow, SkillBuffRow};
use crate::effect::behavior::bloodtithe::{
    actual_loss, attribute, burn_effects, burn_entry, burn_of, burning_uid, first_burn,
    first_hit_amount, floor_hp, life, loss_burn, loss_plan, loss_shown, raw_loss, shown_gains,
    BurnParams, LossGains, LossPlan, LossReadings, LossRequest,
};
use crate::effect::behavior::lost_life::{
    ex_after, first_recorded, lost_life_plan, settled_loss, taken_over, with_routed, LostLifePlan,
};
use crate::laws::events::nothing_set;
use crate::laws::play::ledger_but;
use crate::lookup::entity_of;
use crate::manager::entity_mgr::entry;
use crate::model::{
    DamageFromType, EffectType, EffectView, EntityView, FightHurtInfo, FightView,
};
use crate::text::{number, param, pieces, trimmed};
use vstd::prelude::*;

verus! {

/// The attribute of a fighter that an id names: its life, its maximum of life, its defense,
/// and its attack for any other id.
pub proof fn attributes_by_id(e: EntityView, attr_id: i32)
    ensures
        attr_id == 100 ==> attribute(e, attr_id) == or_zero(e.current_hp),
        attr_id != 100 && e.attr is None ==> attribute(e, attr_id) == 0,
        attr_id == 101 && e.attr is Some ==> attribute(e, attr_id) == or_zero(e.attr->0.hp),
        attr_id == 103 && e.attr is Some ==> attribute(e, attr_id) == or_zero(e.attr->0.defense),
        attr_id != 100 && attr_id != 101 && attr_id != 103 && e.attr is Some ==> attribute(
            e,
            attr_id,
        ) == or_zero(e.attr->0.attack),
{
}

/// The number at a place of a text that is split into parts, spaces aside.
pub open spec fn number_at(parts: Seq<Seq<char>>, k: int) -> Option<i32> {
    if k < parts.len() {
        number(trimmed(parts[k]))
    } else {
        None
    }
}

/// An entry of a buff is a burn if its act is one; its rate and its attribute follow.
pub proof fn what_is_a_burn(entry: Seq<char>, acts: Seq<BuffActRow>)
    ensures
        ({
            let parts = pieces(entry, '#');
            let id = number_at(parts, 0);
            let r = burn_entry(entry, acts);
            &&& r is Some <==> id is Some && row_at(acts, id->0) is Some && row_at(
                acts,
                id->0,
            )->0.act_type@ == "Burn"@
            &&& r is Some ==> r->0.act_id == id->0 && r->0.rate == or_zero(number_at(parts, 1))
                && r->0.attr_id == or_zero(number_at(parts, 2))
        }),
{
    crate::text::pieces_nonempty(entry, '#');
}

/// The burn of a buff is the first among its entries.
pub proof fn the_first_burn(entries: Seq<Seq<char>>, acts: Seq<BuffActRow>)
    ensures
        first_burn(entries, acts) is None <==> forall|i: int|
            0 <= i < entries.len() ==> burn_entry(#[trigger] entries[i], acts) is None,
        first_burn(entries, acts) is Some ==> exists|i: int|
            0 <= i < entries.len() && burn_entry(#[trigger] entries[i], acts) == first_burn(
                entries,
                acts,
            ) && forall|j: int| 0 <= j < i ==> burn_entry(#[trigger] entries[j], acts) is None,
    decreases entries.len(),
{
    if entries.len() > 0 {
        let rest = entries.skip(1);
        the_first_burn(rest, acts);
        assert forall|i: int| 0 <= i < rest.len() implies rest[i] == #[trigger] entries[i + 1] by {}
        if burn_entry(entries[0], acts) is Some {
            assert(burn_entry(entries[0], acts) == first_burn(entries, acts));
        } else if first_burn(rest, acts) is Some {
            let i = choose|i: int|
                0 <= i < rest.len() && burn_entry(#[trigger] rest[i], acts) == first_burn(
                    rest,
                    acts,
                ) && forall|j: int| 0 <= j < i ==> burn_entry(#[trigger] rest[j], acts) is None;
            assert(burn_entry(entries[i + 1], acts) == first_burn(entries, acts));
            assert forall|j: int| 0 <= j < i + 1 implies burn_entry(
                #[trigger] entries[j],
                acts,
            ) is None by {
                if j > 0 {
                    assert(rest[j - 1] == entries[j]);
                }
            }
        } else {
            assert forall|i: int| 0 <= i < entries.len() implies burn_entry(
                #[trigger] entries[i],
                acts,
            ) is None by {
                if i > 0 {
                    assert(rest[i - 1] == entries[i]);
                }
            }
        }
    }
}

/// A loss of the first mode burns if the buff of its skill does; no other loss does.
pub proof fn when_a_loss_burns(
    q: LossRequest,
    rows: Seq<SkillBuffRow>,
    acts: Seq<BuffActRow>,
)
    ensures
        q.mode != 1 ==> loss_burn(q, rows, acts) is None,
        q.skill_id <= 0 || row_at(rows, q.skill_id) is None ==> loss_burn(q, rows, acts) is None,
        q.mode == 1 && q.skill_id > 0 && row_at(rows, q.skill_id) is Some ==> loss_burn(
            q,
            rows,
            acts,
        ) == first_burn(pieces(row_at(rows, q.skill_id)->0.features@, '|'), acts),
        burn_of(rows, acts, 0) is None,
{
}

/// How much life is lost before the floor: what a burn was worked out to do, else so many
/// thousandths of the burn's attribute of the caster; without a burn the fixed loss of a
/// fighter on itself, else so many thousandths of the life that the target has, in the
/// first mode, or ten-thousandths of its maximum, in any other.
pub proof fn how_much_is_lost(
    f: FightView,
    q: LossRequest,
    r: LossReadings,
    burn: Option<BurnParams>,
    target: EntityView,
)
    requires
        entity_of(f, q.target) == Some(target),
        q.permille >= 0,
    ensures
        ({
            let caster = entity_of(f, q.caster_uid);
            let own = r.self_loss is Some && q.target == q.caster_uid && q.attr_id == 100;
            let hp = or_zero(target.current_hp);
            let max = if target.attr is Some {
                or_zero(target.attr->0.hp)
            } else {
                0
            };
            let loss = raw_loss(f, q, r, burn);
            &&& burn is Some && r.burn_damage > 0 ==> loss == r.burn_damage
            &&& burn is Some && r.burn_damage <= 0 && caster is None ==> loss == 0
            &&& burn is Some && r.burn_damage <= 0 && caster is Some && attribute(
                caster->0,
                burn->0.attr_id,
            ) >= 0 ==> loss == attribute(caster->0, burn->0.attr_id) * q.permille / 1000
            &&& burn is None && own ==> loss == r.self_loss->0
            &&& burn is None && !own && q.mode == 1 && hp >= 0 ==> loss == hp * q.permille / 1000
            &&& burn is None && !own && q.mode != 1 && max >= 0 ==> loss == max * q.permille
                / 10000
        }),
{
    let caster = entity_of(f, q.caster_uid);
    if burn is Some && caster is Some {
        let a = attribute(caster->0, burn->0.attr_id) as int;
        assert(a >= 0 ==> a * q.permille >= 0) by (nonlinear_arith)
            requires
                q.permille >= 0,
        ;
    }
    let hp = or_zero(target.current_hp) as int;
    assert(hp >= 0 ==> hp * q.permille >= 0) by (nonlinear_arith)
        requires
            q.permille >= 0,
    ;
    let max = if target.attr is Some {
        or_zero(target.attr->0.hp) as int
    } else {
        0
    };
    assert(max >= 0 ==> max * q.permille >= 0) by (nonlinear_arith)
        requires
            q.permille >= 0,
    ;
}

/// The floor of a loss: none, or so many thousandths of the maximum of life and at least
/// one. What takes place is the loss, or what is above the floor if that is less; a target
/// at the floor or below loses nothing.
pub proof fn a_loss_stops_at_the_floor(
    f: FightView,
    q: LossRequest,
    r: LossReadings,
    burn: Option<BurnParams>,
    target: EntityView,
)
    requires
        entity_of(f, q.target) == Some(target),
    ensures
        ({
            let hp = or_zero(target.current_hp);
            let max = if target.attr is Some {
                or_zero(target.attr->0.hp)
            } else {
                0
            };
            let floor = floor_hp(f, q, r);
            let loss = raw_loss(f, q, r, burn);
            &&& r.floor_permille <= 0 ==> floor == 0
            &&& r.floor_permille > 0 && max >= 0 && max * r.floor_permille / 1000 > 1 ==> floor
                == max * r.floor_permille / 1000
            &&& r.floor_permille > 0 && max >= 0 && max * r.floor_permille / 1000 <= 1 ==> floor
                == 1
            &&& hp > floor && loss <= hp - floor ==> actual_loss(f, q, r, burn) == loss
            &&& hp > floor && loss > hp - floor ==> actual_loss(f, q, r, burn) == hp - floor
            &&& hp <= floor && loss >= 0 ==> actual_loss(f, q, r, burn) == 0
            &&& hp <= floor && loss < 0 ==> actual_loss(f, q, r, burn) == loss
        }),
{
    let max = if target.attr is Some {
        or_zero(target.attr->0.hp) as int
    } else {
        0
    };
    if r.floor_permille > 0 && max >= 0 {
        assert(max * r.floor_permille >= 0) by (nonlinear_arith)
            requires
                max >= 0,
                r.floor_permille > 0,
        ;
    }
}

/// Who is not there has no life and loses none.
pub proof fn nobody_loses_nothing(
    f: FightView,
    q: LossRequest,
    r: LossReadings,
    burn: Option<BurnParams>,
)
    ensures
        entity_of(f, q.target) is None ==> life(f, q.target) == 0,
        entity_of(f, q.target) is None && raw_loss(f, q, r, burn) >= 0 ==> actual_loss(
            f,
            q,
            r,
            burn,
        ) == 0,
        entity_of(f, q.target) is Some ==> life(f, q.target) == or_zero(
            entity_of(f, q.target)->0.current_hp,
        ),
{
}

/// A loss of nothing does nothing; with a burn it burns, under the id of the first buff of
/// the target that is of the skill by its id or its type; without one it hits.
pub proof fn how_a_loss_takes_place(
    f: FightView,
    q: LossRequest,
    r: LossReadings,
    burn: Option<BurnParams>,
    held: Seq<BuffInstance>,
)
    requires
        fits(actual_loss(f, q, r, burn)),
    ensures
        ({
            let amount = actual_loss(f, q, r, burn);
            let plan = loss_plan(f, q, r, burn, held);
            &&& amount == 0 ==> plan == LossPlan::Nothing
            &&& amount != 0 && burn is None ==> plan == (LossPlan::Hit { amount: amount as i32 })
            &&& amount != 0 && burn is Some ==> plan == (LossPlan::Burn {
                amount: amount as i32,
                act_id: burn->0.act_id,
                buff_uid: burning_uid(held, q.skill_id),
            })
        }),
{
}

/// The buff that burns is the first that is of the skill, by its id or its type.
pub proof fn which_buff_burns(s: Seq<BuffInstance>, skill_id: i32)
    ensures
        (forall|i: int|
            0 <= i < s.len() ==> (#[trigger] s[i]).buff_id != skill_id && s[i].type_id != skill_id)
            ==> burning_uid(s, skill_id) == 0,
        forall|i: int|
            0 <= i < s.len() && ((#[trigger] s[i]).buff_id == skill_id || s[i].type_id == skill_id)
                && (forall|j: int|
                0 <= j < i ==> (#[trigger] s[j]).buff_id != skill_id && s[j].type_id != skill_id)
                ==> burning_uid(s, skill_id) == s[i].uid,
    decreases s.len(),
{
    if s.len() > 0 {
        let rest = s.skip(1);
        which_buff_burns(rest, skill_id);
        assert forall|i: int| 0 <= i < rest.len() implies rest[i] == #[trigger] s[i + 1] by {}
        assert forall|i: int|
            0 <= i < s.len() && ((#[trigger] s[i]).buff_id == skill_id || s[i].type_id == skill_id)
                && (forall|j: int|
                0 <= j < i ==> (#[trigger] s[j]).buff_id != skill_id && s[j].type_id
                    != skill_id) implies burning_uid(s, skill_id) == s[i].uid by {
            if i > 0 {
                assert(s[0].buff_id != skill_id && s[0].type_id != skill_id);
                assert(rest[i - 1] == s[i]);
                assert forall|j: int| 0 <= j < i - 1 implies (#[trigger] rest[j]).buff_id
                    != skill_id && rest[j].type_id != skill_id by {
                    assert(rest[j] == s[j + 1]);
                }
            }
        }
        if forall|i: int|
            0 <= i < s.len() ==> (#[trigger] s[i]).buff_id != skill_id && s[i].type_id != skill_id {
            assert forall|i: int| 0 <= i < rest.len() implies (#[trigger] rest[i]).buff_id
                != skill_id && rest[i].type_id != skill_id by {
                assert(rest[i] == s[i + 1]);
            }
        }
    }
}

/// A burn is shown as the burn of its skill and a hit with the fixed damage that a buff
/// dealt; a hit as what the queue made of it; both with the gains behind. Nothing that is
/// lost shows nothing.
pub proof fn how_a_loss_is_shown(
    f: FightView,
    q: LossRequest,
    plan: LossPlan,
    fixed_damage: i32,
    drained: Seq<EffectView>,
    gains: LossGains,
)
    ensures
        ({
            let s = loss_shown(f, q, plan, fixed_damage, drained, gains);
            let more = shown_gains(f, q, gains);
            &&& plan is Nothing ==> s.len() == 0
            &&& plan is Hit ==> s == drained + more
            &&& plan matches LossPlan::Burn { act_id, buff_uid, .. } ==> {
                let act = if act_id > 0 {
                    Some(act_id)
                } else {
                    None
                };
                &&& s.len() == 2 + more.len()
                &&& s.skip(2) == more
                &&& s[0] == (EffectView {
                    effect_type: Some(EffectType::Burn),
                    target_id: Some(q.target),
                    effect_num: Some(q.skill_id),
                    buff_act_id: act,
                    ..nothing_set()
                })
                &&& s[1].hurt_info is Some
                &&& s[1] == (EffectView {
                    effect_type: Some(EffectType::OriginDamage),
                    target_id: Some(q.target),
                    effect_num: Some(fixed_damage),
                    buff_act_id: act,
                    hurt_info: s[1].hurt_info,
                    ..nothing_set()
                })
                &&& ({
                    let h: FightHurtInfo = s[1].hurt_info->0;
                    &&& h.damage == Some(fixed_damage)
                    &&& h.from_uid == Some(q.caster_uid)
                    &&& h.hurt_effect == Some(EffectType::OriginDamage)
                    &&& h.damage_from_type == Some(DamageFromType::Buff)
                    &&& h.buff_act_id == act
                    &&& buff_uid <= 0 ==> h.buff_uid is None
                    &&& 0 < buff_uid <= i32::MAX ==> h.buff_uid == Some(buff_uid as i32)
                    &&& h.reduce_hp == Some(0i32) && h.reduce_shield == Some(0i32)
                    &&& h.critical == Some(false) && h.assassinate == Some(false)
                    &&& h.career_restraint == Some(false)
                    &&& h.config_effect == Some(0i32) && h.effect_id == Some(0i32) && h.skill_id
                        == Some(0i32)
                })
            }
        }),
        burn_effects(q, 0, 0, fixed_damage).len() == 2,
{
    if plan is Burn {
        let s = loss_shown(f, q, plan, fixed_damage, drained, gains);
        assert(s.skip(2) =~= shown_gains(f, q, gains));
    }
}

/// The ultimate that shows its own gain shows it alone; any other loss shows what its
/// target gains and then the gain of the pool, if the target has a team and the pool gains.
pub proof fn which_gains_are_shown(f: FightView, q: LossRequest, g: LossGains)
    ensures
        ({
            let s = shown_gains(f, q, g);
            let own = q.skill_id == g.ultimate_skill_id && g.manual_gain > 0;
            let teamed = entity_of(f, q.target) is Some && entity_of(
                f,
                q.target,
            )->0.team_type is Some;
            &&& own ==> s == seq![g.manual_effect@]
            &&& !own && (!teamed || g.pool is None) ==> s.len() == 0
            &&& !own && teamed && g.pool is Some && g.faith is None ==> s == seq![g.pool->0@]
            &&& !own && teamed && g.pool is Some && g.faith is Some ==> s == seq![
                g.faith->0@,
                g.pool->0@,
            ]
        }),
{
}

/// What a behaviour that costs life comes down to, by its id.
pub proof fn lost_life_by_id(id: i32, raw: Seq<char>)
    ensures
        ({
            let r = lost_life_plan(id, raw);
            let plain = id == 30005 || id == 30006 || id == 30010 || id == 30018 || id == 60226;
            &&& plain ==> r == (LostLifePlan::Loss {
                mode: param(raw, 1),
                attr_id: param(raw, 2),
                permille: param(raw, 3),
                behavior_id: param(raw, 4),
            })
            &&& id == 60216 ==> r == (LostLifePlan::RealLoss {
                buff_id: param(raw, 1),
                rate: param(raw, 3),
            })
            &&& !plain && id != 60216 ==> r == LostLifePlan::Nothing
        }),
{
}

/// An effect is a hit with a record.
pub open spec fn recorded(e: EffectView) -> bool {
    e.effect_type == Some(EffectType::Damage) && e.effect_num is Some && e.effect_num->0 > 0
        && e.target_id is Some && e.hurt_info is Some
}

/// An effect is a plain hit.
pub open spec fn plain(e: EffectView) -> bool {
    ||| e.effect_type == Some(EffectType::Damage)
    ||| e.effect_type == Some(EffectType::Crit)
    ||| e.effect_type == Some(EffectType::OriginDamage)
    ||| e.effect_type == Some(EffectType::OriginCrit)
}

/// The hit that is handed to the queue is the first that has a record.
pub proof fn the_first_recorded_hit(s: Seq<EffectView>)
    ensures
        first_recorded(s) is None <==> forall|i: int| 0 <= i < s.len() ==> !recorded(#[trigger] s[i]),
        first_recorded(s) is Some ==> first_recorded(s)->0 < s.len() && recorded(
            s[first_recorded(s)->0 as int],
        ) && forall|j: int| 0 <= j < first_recorded(s)->0 ==> !recorded(#[trigger] s[j]),
    decreases s.len(),
{
    if s.len() > 0 {
        let rest = s.skip(1);
        the_first_recorded_hit(rest);
        assert forall|i: int| 0 <= i < rest.len() implies rest[i] == #[trigger] s[i + 1] by {}
        if !recorded(s[0]) {
            assert forall|j: int| 0 < j < s.len() implies rest[j - 1] == #[trigger] s[j] by {}
        }
    }
}

/// The amount of the first plain hit; zero if there is none.
pub proof fn the_first_plain_hit(s: Seq<EffectView>)
    ensures
        (forall|i: int| 0 <= i < s.len() ==> !plain(#[trigger] s[i])) ==> first_hit_amount(s) == 0,
        forall|i: int|
            0 <= i < s.len() && plain(#[trigger] s[i]) && (forall|j: int|
                0 <= j < i ==> !plain(#[trigger] s[j])) ==> first_hit_amount(s) == or_zero(
                s[i].effect_num,
            ),
    decreases s.len(),
{
    if s.len() > 0 {
        let rest = s.skip(1);
        the_first_plain_hit(rest);
        assert forall|i: int|
            0 <= i < s.len() && plain(#[trigger] s[i]) && (forall|j: int|
                0 <= j < i ==> !plain(#[trigger] s[j])) implies first_hit_amount(s) == or_zero(
            s[i].effect_num,
        ) by {
            if i > 0 {
                assert(!plain(s[0]));
                assert(rest[i - 1] == s[i]);
                assert forall|j: int| 0 <= j < i - 1 implies !plain(#[trigger] rest[j]) by {
                    assert(rest[j] == s[j + 1]);
                }
            }
        }
        if forall|i: int| 0 <= i < s.len() ==> !plain(#[trigger] s[i]) {
            assert forall|i: int| 0 <= i < rest.len() implies !plain(#[trigger] rest[i]) by {
                assert(rest[i] == s[i + 1]);
            }
        }
    }
}

/// What the queue made of the recorded hit stands in its place and everything else stays;
/// the life that was lost is that of the recorded hit, if the queue took it over, and else
/// that of the first plain hit, but never less than nothing.
pub proof fn how_a_loss_is_settled(s: Seq<EffectView>, routed: Option<EffectView>)
    ensures
        ({
            let at = first_recorded(s);
            let out = with_routed(s, routed);
            let over = at is Some && routed is Some;
            &&& taken_over(s, routed) == over
            &&& out.len() == s.len()
            &&& forall|i: int|
                0 <= i < s.len() ==> #[trigger] out[i] == (if over && i == at->0 {
                    routed->0
                } else {
                    s[i]
                })
            &&& over ==> settled_loss(s, routed) == or_zero(s[at->0 as int].effect_num)
            &&& !over && first_hit_amount(s) > 0 ==> settled_loss(s, routed) == first_hit_amount(s)
            &&& !over && first_hit_amount(s) <= 0 ==> settled_loss(s, routed) == 0
        }),
{
    the_first_recorded_hit(s);
}

/// Gains of ex points are booked one after the other: each to its target, and never below
/// zero; an effect of another kind books nothing.
pub proof fn gains_of_ex_points_are_booked(
    m: Map<i64, i32>,
    s: Seq<EffectView>,
    e: EffectView,
    kind: EffectType,
)
    ensures
        ({
            let before = ex_after(m, s, kind);
            let after = ex_after(m, s.push(e), kind);
            let sum = entry(before, e.target_id->0) + or_zero(e.effect_num);
            &&& e.effect_type == Some(kind) && e.target_id is Some && fits(sum) ==> ledger_but(
                before,
                after,
                e.target_id->0,
                if sum > 0 {
                    sum
                } else {
                    0
                },
            )
            &&& (e.effect_type != Some(kind) || e.target_id is None) ==> after == before
        }),
        ex_after(m, Seq::empty(), kind) == m,
{
    assert(s.push(e).drop_last() =~= s);
}

} // verus!
