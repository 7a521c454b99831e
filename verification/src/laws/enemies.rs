//! How enemies cast, and what their casts do to ex points.

use crate::arith::{fits, or_zero};
use crate::buffs::{BuffInstance, BuffMgr};
use crate::config::{row_at, Row};
use crate::laws::play::ledger_but;
use crate::lookup::{entity_of, first_with_uid, position_in, position_in_finds, replaced};
use crate::manager::calculate_mgr::base_ex_max;
use crate::manager::entity_mgr::EntityMgrView;
use crate::manager::replay::leaves;
use crate::manager::wave_mgr::uid_size;
use crate::model::{ActType, EffectType, EffectView, EntityView, FightView, StepView, TeamView};
use crate::operation::ai_executor::{
    after_cast, aims_at_chance, caster_stands, ex_delta, ex_room, ex_spent, hit_targets,
    is_ex_skill, limited, limited_all, living, normalized, overflow_of, preview_delta,
    preview_effects, replay_cast, wave_needed, CastLimits, ExLimits, OverflowRow, Preview,
    WaveProgress,
};
use vstd::prelude::*;

verus! {

/// The overflow of a fighter is the bonus of the first of its buffs that has a row, and
/// zero if none has.
pub proof fn the_overflow_of_a_fighter(rows: Seq<OverflowRow>, s: Seq<BuffInstance>, r: OverflowRow)
    ensures
        r.key() == r.buff_id,
        (forall|i: int| 0 <= i < s.len() ==> row_at(rows, (#[trigger] s[i]).buff_id) is None)
            ==> overflow_of(s, rows) == 0,
        forall|i: int|
            0 <= i < s.len() && row_at(rows, (#[trigger] s[i]).buff_id) is Some && (forall|j: int|
                0 <= j < i ==> row_at(rows, (#[trigger] s[j]).buff_id) is None) ==> overflow_of(
                s,
                rows,
            ) == row_at(rows, s[i].buff_id)->0.bonus,
    decreases s.len(),
{
    if s.len() > 0 {
        let rest = s.skip(1);
        the_overflow_of_a_fighter(rows, rest, r);
        assert forall|i: int| 0 <= i < rest.len() implies rest[i] == #[trigger] s[i + 1] by {}
        assert forall|i: int|
            0 <= i < s.len() && row_at(rows, (#[trigger] s[i]).buff_id) is Some && (forall|j: int|
                0 <= j < i ==> row_at(rows, (#[trigger] s[j]).buff_id) is None) implies overflow_of(
            s,
            rows,
        ) == row_at(rows, s[i].buff_id)->0.bonus by {
            if i > 0 {
                assert(row_at(rows, s[0].buff_id) is None);
                assert(rest[i - 1] == s[i]);
                assert forall|j: int| 0 <= j < i - 1 implies row_at(
                    rows,
                    (#[trigger] rest[j]).buff_id,
                ) is None by {
                    assert(rest[j] == s[j + 1]);
                }
            }
        }
    }
}

proof fn the_living_join(
    a: Seq<EntityView>,
    b: Seq<EntityView>,
)
    ensures
        living(a + b) == living(a) + living(b),
    decreases b.len(),
{
    if b.len() == 0 {
        assert(a + b =~= a);
        assert(living(a) + living(b) =~= living(a));
    } else {
        the_living_join(a, b.drop_last());
        assert((a + b).drop_last() =~= a + b.drop_last());
        assert((a + b).last() == b.last());
        assert(living(a + b) =~= living(a) + living(b));
    }
}

/// The living: whoever has life left and an id, in their order.
pub proof fn the_living(
    a: Seq<EntityView>,
    b: Seq<EntityView>,
    x: EntityView,
)
    ensures
        living(a + b) == living(a) + living(b),
        living(Seq::<EntityView>::empty()).len() == 0,
        living(seq![x]) == (if x.current_hp is Some && x.current_hp->0 > 0 && x.uid is Some {
            seq![x.uid->0]
        } else {
            Seq::empty()
        }),
{
    the_living_join(a, b);
    let one = seq![x];
    assert(one.drop_last() =~= Seq::<EntityView>::empty());
    assert(one.last() == x);
    assert(living(one.drop_last()).len() == 0);
    assert(living(seq![x]) =~= (if x.current_hp is Some && x.current_hp->0 > 0 && x.uid is Some {
            seq![x.uid->0]
        } else {
            Seq::empty()
        }));
}

/// An enemy casts a skill.
pub open spec fn enemy_casts(step: StepView) -> bool {
    step.from_id is Some && step.from_id->0 < 0 && step.act_id is Some && step.act_id->0 != 0
}

/// A recorded cast of an enemy needs the wave that the enemy belongs to, two to a wave, if
/// that is still to come, exists, and was not taken over already.
pub proof fn which_wave_a_cast_needs(step: StepView, p: WaveProgress, wave: int)
    requires
        enemy_casts(step) ==> uid_size(step.from_id->0) < i32::MAX,
        enemy_casts(step) ==> 2 * wave - 1 <= uid_size(step.from_id->0) <= 2 * wave,
        wave >= 1,
    ensures
        ({
            let taken = p.snapshot_applied && p.snapshot_wave is Some && p.snapshot_wave->0 >= wave;
            let r = wave_needed(step, p);
            &&& !enemy_casts(step) ==> r is None
            &&& enemy_casts(step) ==> (r is Some <==> p.current_wave < wave <= p.max_wave && !taken)
            &&& r is Some ==> r->0 == wave
        }),
{
}

/// An enemy stands if it is on the field with life left.
pub proof fn which_enemy_stands(f: FightView, uid: i64)
    ensures
        f.defender is None ==> !caster_stands(f, uid),
        f.defender matches Some(t) ==> (caster_stands(f, uid) <==> (first_with_uid(
            t.entitys,
            uid,
        ) matches Some(e) && e.current_hp is Some && e.current_hp->0 > 0)),
{
}

/// A recorded cast is repeated by an enemy that stands, with its skill: at its recorded
/// target, or at who was drawn if it has none. A fighter of the player that is not there
/// cannot be aimed at.
pub proof fn how_a_cast_is_repeated(f: FightView, step: StepView, drawn: Option<i64>)
    ensures
        ({
            let r = replay_cast(f, step, drawn);
            let aimed = step.to_id is Some && step.to_id->0 != 0;
            let target = if aimed {
                step.to_id
            } else {
                drawn
            };
            let casts = enemy_casts(step) && caster_stands(f, step.from_id->0);
            &&& r is Some <==> casts && target is Some && (target->0 > 0 ==> entity_of(f, target->0)
                is Some)
            &&& r matches Some(c) ==> Some(c.caster_uid) == step.from_id && Some(c.target_uid)
                == target && Some(c.skill_id) == step.act_id
            &&& aims_at_chance(f, step) <==> casts && !aimed
        }),
{
}

/// An effect is a hit on a fighter of the player.
pub open spec fn hits_a_player(e: EffectView) -> bool {
    (e.effect_type == Some(EffectType::Damage) || e.effect_type == Some(EffectType::Crit)
        || e.effect_type == Some(EffectType::DamageExtra)) && e.target_id is Some && e.target_id->0
        > 0
}

/// Whom the hits of a list are on, each once, in the order in which they are hit first.
pub proof fn whom_hits_are_on(s: Seq<EffectView>, x: EffectView, uid: i64)
    ensures
        hit_targets(Seq::empty()).len() == 0,
        hits_a_player(x) && !hit_targets(s).contains(x.target_id->0) ==> hit_targets(s.push(x))
            == hit_targets(s).push(x.target_id->0),
        !hits_a_player(x) || hit_targets(s).contains(x.target_id->0) ==> hit_targets(s.push(x))
            == hit_targets(s),
{
    assert(s.push(x).drop_last() =~= s);
}

/// The effects of a cast: if the first carries the step of the skill itself, by its caster
/// or by nobody, the effects of that step take its place; else it loses the step that it
/// carries. All the others stay.
pub proof fn how_a_cast_is_unwrapped(s: Seq<EffectView>, uid: i64, skill_id: i32)
    requires
        s.len() > 0,
    ensures
        ({
            let first = s[0];
            let own = first.effect_type == Some(EffectType::FightStep) && first.fight_step is Some
                && first.fight_step->0.act_type == Some(ActType::Skill)
                && first.fight_step->0.act_id == Some(skill_id) && (first.fight_step->0.from_id
                == Some(uid) || first.fight_step->0.from_id == Some(0i64));
            let r = normalized(s, uid, skill_id);
            &&& own ==> r == first.fight_step->0.act_effect + s.skip(1)
            &&& !own ==> r.len() == s.len() && r[0] == (EffectView { fight_step: None, ..first })
                && forall|i: int| 0 < i < s.len() ==> #[trigger] r[i] == s[i]
        }),
        normalized(Seq::empty(), uid, skill_id).len() == 0,
{
}

/// An effect gives points that are limited.
pub open spec fn gives_limited_points(l: ExLimits, e: EffectView) -> bool {
    e.fight_step is None && (e.effect_type == Some(EffectType::AddExPoint) || e.effect_type == Some(
        EffectType::ExPointChange,
    )) && e.config_effect == Some(20002i32) && e.target_id is Some && e.effect_num is Some
        && e.effect_num->0 > 0 && entity_of(l.fight, e.target_id->0) is Some && base_ex_max(
        entity_of(l.fight, e.target_id->0)->0,
    ) > 0
}

/// The maximum of a gauge depends on its type: an ordinary one holds five points, the other
/// kind that has a maximum holds eight, and any further kind has none.
pub proof fn the_maximum_of_a_gauge(e: EntityView)
    ensures
        e.ex_point_type is None || e.ex_point_type == Some(0i32) ==> base_ex_max(e) == 5,
        e.ex_point_type == Some(1i32) ==> base_ex_max(e) == 8,
        e.ex_point_type is Some && e.ex_point_type->0 != 0 && e.ex_point_type->0 != 1
            ==> base_ex_max(e) == 0,
{
}

/// The room for points: what is left up to the maximum and the overflow, with the point that
/// the caster gains for its cast counted in, and never below zero.
pub proof fn the_room_for_points(l: ExLimits, uid: i64, e: EntityView)
    ensures
        ({
            let gain = if uid == l.caster_uid && l.caster_gains {
                1int
            } else {
                0
            };
            let left = base_ex_max(e) + overflow_of(l.buffs.of(uid), l.rows) - or_zero(e.ex_point)
                - gain;
            &&& left >= 0 ==> ex_room(l, uid, e) == left
            &&& left < 0 ==> ex_room(l, uid, e) == 0
        }),
{
}

/// Points that are limited are given up to the room for them. Every other effect stays, and
/// a carried step is limited within.
pub proof fn how_points_are_limited(l: ExLimits, e: EffectView, s: Seq<EffectView>, i: int)
    ensures
        ({
            let room = ex_room(l, e.target_id->0, entity_of(l.fight, e.target_id->0)->0);
            let r = limited(l, e);
            &&& gives_limited_points(l, e) && e.effect_num->0 <= room ==> r == e
            &&& gives_limited_points(l, e) && e.effect_num->0 > room ==> r == (EffectView {
                effect_num: Some(room as i32),
                ..e
            })
            &&& e.fight_step is None && !gives_limited_points(l, e) ==> r == e
            &&& e.fight_step matches Some(step) ==> r == (EffectView {
                fight_step: Some(StepView { act_effect: limited_all(l, step.act_effect), ..step }),
                ..e
            })
        }),
        limited_all(l, s).len() == s.len(),
        0 <= i < s.len() ==> limited_all(l, s)[i] == limited(l, s[i]),
{
}

/// The limits of a cast within a battle are those that it was given.
pub proof fn the_limits_of_a_cast(c: CastLimits, f: FightView)
    ensures
        c.in_fight(f).fight == f,
        c.in_fight(f).buffs == c.buffs,
        c.in_fight(f).rows == c.rows@,
        c.in_fight(f).caster_uid == c.caster_uid,
        c.in_fight(f).caster_gains == c.caster_gains,
{
}

/// A change of points in a preview: the fighter has its points and the change, not below
/// zero and, if it has a gauge, not above its maximum with the overflow; the same is kept
/// of it. A fighter that is not there changes nothing.
pub proof fn how_points_change_in_a_preview(
    p: Preview,
    uid: i64,
    delta: int,
    buffs: BuffMgr,
    rows: Seq<OverflowRow>,
)
    ensures
        ({
            let e = entity_of(p.fight, uid)->0;
            let sum = or_zero(e.ex_point) + delta;
            let most = base_ex_max(e) + overflow_of(buffs.of(uid), rows);
            let r = preview_delta(p, uid, delta, buffs, rows);
            let new = if sum < 0 {
                0
            } else if base_ex_max(e) > 0 && sum > most {
                most
            } else {
                sum
            };
            &&& entity_of(p.fight, uid) is None ==> r == p
            &&& entity_of(p.fight, uid) is Some && fits(new) ==> {
                &&& r.fight == replaced(
                    p.fight,
                    uid,
                    EntityView { ex_point: Some(new as i32), ..e },
                )
                &&& ledger_but(
                    p.trackers.ex_points,
                    r.trackers.ex_points,
                    uid,
                    if new > 0 {
                        new
                    } else {
                        0
                    },
                )
                &&& r.trackers == (EntityMgrView { ex_points: r.trackers.ex_points, ..p.trackers })
            }
        }),
{
}

/// Which effects change points, and by how much: gains add what they say, losses take it
/// unless it is below zero.
pub proof fn which_effects_change_points(e: EffectView)
    ensures
        ({
            let gains = e.effect_type == Some(EffectType::AddExPoint) || e.effect_type == Some(
                EffectType::ExPointChange,
            );
            let loses = e.effect_type == Some(EffectType::ExPointDel);
            let num = or_zero(e.effect_num) as int;
            &&& e.target_id is None || !(gains || loses) ==> ex_delta(e) is None
            &&& e.target_id is Some && gains ==> ex_delta(e) == Some((e.target_id->0, num))
            &&& e.target_id is Some && loses && num >= 0 ==> ex_delta(e) == Some(
                (e.target_id->0, -num),
            )
            &&& e.target_id is Some && loses && num < 0 ==> ex_delta(e) == Some(
                (e.target_id->0, 0int),
            )
        }),
{
}

/// Effects change points one after the other. A cast first pays its caster a point, if it
/// gains one, and then all its effects follow, those of carried steps included.
pub proof fn points_change_one_after_the_other(
    p: Preview,
    s: Seq<EffectView>,
    e: EffectView,
    uid: i64,
    buffs: BuffMgr,
    rows: Seq<OverflowRow>,
)
    ensures
        preview_effects(p, Seq::empty(), buffs, rows) == p,
        ex_delta(e) is None ==> preview_effects(p, s.push(e), buffs, rows) == preview_effects(
            p,
            s,
            buffs,
            rows,
        ),
        ex_delta(e) matches Some((target, delta)) ==> preview_effects(p, s.push(e), buffs, rows)
            == preview_delta(preview_effects(p, s, buffs, rows), target, delta, buffs, rows),
        after_cast(p, uid, false, s, buffs, rows) == preview_effects(p, leaves(s), buffs, rows),
        after_cast(p, uid, true, s, buffs, rows) == preview_effects(
            preview_delta(p, uid, 1, buffs, rows),
            leaves(s),
            buffs,
            rows,
        ),
{
    assert(s.push(e).drop_last() =~= s);
}

/// A skill is the ex skill of an enemy if the enemy says so, on the field or in reserve.
pub proof fn which_skill_is_the_ex_skill(f: FightView, uid: i64, skill_id: i32)
    ensures
        f.defender is None ==> !is_ex_skill(f, uid, skill_id),
        f.defender matches Some(t) ==> (is_ex_skill(f, uid, skill_id) <==> (first_with_uid(
            t.entitys + t.sub_entitys,
            uid,
        ) matches Some(e) && e.ex_skill == Some(skill_id))),
{
}

/// An enemy that spends its points has none left. It is looked for on the field first and
/// then in reserve; everyone else stays, and nobody changes if it is not there.
pub proof fn who_spends_points(f: FightView, t: TeamView, uid: i64, i: int)
    requires
        f.defender == Some(t),
        0 <= i,
    ensures
        ({
            let g = ex_spent(f, uid);
            let field = position_in(t.entitys, uid);
            let reserve = position_in(t.sub_entitys, uid);
            let u = g.defender->0;
            &&& g == (FightView { defender: g.defender, ..f })
            &&& g.defender is Some
            &&& u.entitys.len() == t.entitys.len()
            &&& u.sub_entitys.len() == t.sub_entitys.len()
            &&& u.power == t.power
            &&& i < t.entitys.len() && field == Some(i as nat) ==> u.entitys[i] == (EntityView {
                ex_point: Some(0),
                ..t.entitys[i]
            })
            &&& i < t.entitys.len() && field != Some(i as nat) ==> u.entitys[i] == t.entitys[i]
            &&& i < t.sub_entitys.len() && field is None && reserve == Some(i as nat)
                ==> u.sub_entitys[i] == (EntityView { ex_point: Some(0), ..t.sub_entitys[i] })
            &&& i < t.sub_entitys.len() && (field is Some || reserve != Some(i as nat))
                ==> u.sub_entitys[i] == t.sub_entitys[i]
        }),
{
    position_in_finds(t.entitys, uid);
    position_in_finds(t.sub_entitys, uid);
}

} // verus!
