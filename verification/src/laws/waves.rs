//! The power of the cloth, the waves of enemies and how a battle starts.

use crate::arith::{div_toward_zero, or_zero};
use crate::config::{row_at, BattleRow, EpisodeRow, MagicCircleRow, MonsterSkillTemplateRow};
use crate::laws::events::{nothing_set, step_of};
use crate::lookup::everyone;
use crate::manager::cloth_mgr::{
    cost_at, costs_of, power_fits, power_of, with_power, ClothLevel, ClothMgr,
};
use crate::manager::entity_mgr::{locations, required_set, taken, EntityMgrView};
use crate::manager::fight_data_mgr::{first_trackers, somebody_lives};
use crate::manager::wave_mgr::{
    advanced, advanced_by, arrival_steps, arrivals_joined, is_circle_buff, living_uids, max_wave,
    next_wave, uid_size, uids_of, wave_of, wave_shown, waves_until, waves_view, Advance, CircleBuff,
    WaveArrival,
};
use crate::model::{
    effects_view, entities_view, ActType, EffectType, EffectView, EntityView, FightEntityInfo,
    FightView, TeamView,
};
use crate::text::{number, pieces, trimmed};
use vstd::prelude::*;

verus! {

/// Power that changes moves by what is given, but not below zero nor above the limit, and
/// a limit below zero is zero.
pub proof fn how_power_changes(f: FightView, cloth: ClothLevel, delta: i32)
    requires
        f.attacker is Some,
        power_fits(f, Some(cloth), delta),
    ensures
        ({
            let before = if f.attacker->0.power is Some {
                f.attacker->0.power->0
            } else if cloth.initial > 0 {
                cloth.initial
            } else {
                0
            };
            let limit = if cloth.max_power > 0 {
                cloth.max_power as int
            } else {
                0
            };
            let g = with_power(f, Some(cloth), delta);
            let after = g.attacker->0.power->0;
            &&& power_of(f.attacker->0, cloth) == before
            &&& g.attacker is Some && g.attacker->0.power is Some
            &&& 0 <= before + delta <= limit ==> after == before + delta
            &&& before + delta < 0 ==> after == 0
            &&& before + delta > limit ==> after == limit
            &&& g == (FightView {
                attacker: Some(TeamView { power: Some(after), ..f.attacker->0 }),
                ..f
            })
        }),
{
}

/// Without a cloth or without attackers no power changes.
pub proof fn where_no_power_changes(f: FightView, cloth: Option<ClothLevel>, delta: i32)
    requires
        cloth is None || f.attacker is None,
    ensures
        with_power(f, cloth, delta) == f,
        power_fits(f, cloth, delta),
{
}

/// Each use of a skill has its own cost; the last one stays. A cloth has two skills with
/// costs of their own.
pub proof fn what_cloth_skills_cost(cloth: ClothLevel, skill_id: i32, costs: Seq<i32>, count: nat)
    ensures
        count < costs.len() ==> cost_at(costs, count) == costs[count as int],
        count >= costs.len() > 0 ==> cost_at(costs, count) == costs[costs.len() - 1],
        costs.len() == 0 ==> cost_at(costs, count) == 0,
        costs_of(cloth, cloth.skill1) == Some(cloth.use_power1@),
        cloth.skill1 != cloth.skill2 ==> costs_of(cloth, cloth.skill2) == Some(cloth.use_power2@),
        skill_id != cloth.skill1 && skill_id != cloth.skill2 ==> costs_of(cloth, skill_id) is None,
{
}

/// A skill was used as often as it is counted, and never if it is not.
pub proof fn how_often_a_skill_was_used(m: ClothMgr, skill_id: i32)
    ensures
        m.use_counts@.contains_key(skill_id) ==> m.uses(skill_id) == m.use_counts@[skill_id],
        !m.use_counts@.contains_key(skill_id) ==> m.uses(skill_id) == 0,
{
}

/// A battle is in the first wave if it does not say. Its waves are as many as the groups of
/// enemies that its battle lists, and one if it lists none.
pub proof fn how_waves_are_counted(
    f: FightView,
    episodes: Seq<EpisodeRow>,
    battles: Seq<BattleRow>,
    battle: i32,
)
    requires
        match row_at(episodes, or_zero(f.episode_id)) {
            Some(e) => e.battle_id == battle,
            None => battle == 0,
        },
    ensures
        f.cur_wave is Some ==> wave_of(f) == f.cur_wave->0,
        f.cur_wave is None ==> wave_of(f) == 1,
        row_at(battles, battle) is None ==> max_wave(f, episodes, battles) == 1,
        row_at(battles, battle) matches Some(b) ==> max_wave(f, episodes, battles) == (
        if b.monster_group_ids@.len() == 0 {
            1
        } else {
            pieces(b.monster_group_ids@, '#').len()
        }),
        wave_of(f) >= battle ==> waves_until(f, battle) == 0,
        wave_of(f) <= battle ==> wave_of(f) + waves_until(f, battle) == battle,
{
}

/// The next wave replaces the defenders on the field and empties their reserve. The battle
/// goes on, one wave further; nothing else changes.
pub proof fn what_the_next_wave_changes(f: FightView, wave: Seq<EntityView>)
    requires
        f.defender is Some,
        wave_of(f) < i32::MAX,
    ensures
        ({
            let g = next_wave(f, wave);
            &&& g.defender is Some
            &&& g.defender->0.entitys == wave
            &&& g.defender->0.sub_entitys.len() == 0
            &&& g.defender->0.power == f.defender->0.power
            &&& g.attacker == f.attacker
            &&& g.cur_wave == Some((wave_of(f) + 1) as i32)
            &&& wave_of(g) == wave_of(f) + 1
            &&& g.is_finish == Some(false)
            &&& g == (FightView {
                defender: g.defender,
                cur_wave: g.cur_wave,
                is_finish: g.is_finish,
                ..f
            })
        }),
{
}

/// The first negative ids belong to the first wave, two to each.
pub proof fn ids_of_enemies(uid: i64)
    requires
        -i32::MAX <= uid < 0,
    ensures
        uid_size(uid) == -uid,
        2 * div_toward_zero(uid_size(uid) + 1, 2) - 1 <= -uid <= 2 * div_toward_zero(
            uid_size(uid) + 1,
            2,
        ),
{
}

proof fn ids_in_their_order_join(
    a: Seq<EntityView>,
    b: Seq<EntityView>,
)
    ensures
        uids_of(a + b) == uids_of(a) + uids_of(b),
    decreases b.len(),
{
    if b.len() == 0 {
        assert(a + b =~= a);
        assert(uids_of(a) + uids_of(b) =~= uids_of(a));
    } else {
        ids_in_their_order_join(a, b.drop_last());
        assert((a + b).drop_last() =~= a + b.drop_last());
        assert((a + b).last() == b.last());
        assert(uids_of(a + b) =~= uids_of(a) + uids_of(b));
    }
}

/// The ids of fighters, in their order; one without an id has none.
pub proof fn ids_in_their_order(
    a: Seq<EntityView>,
    b: Seq<EntityView>,
    x: EntityView,
)
    ensures
        uids_of(a + b) == uids_of(a) + uids_of(b),
        uids_of(Seq::<EntityView>::empty()).len() == 0,
        uids_of(seq![x]) == (if x.uid is Some {
            seq![x.uid->0]
        } else {
            Seq::empty()
        }),
{
    ids_in_their_order_join(a, b);
    let one = seq![x];
    assert(one.drop_last() =~= Seq::<EntityView>::empty());
    assert(one.last() == x);
    assert(uids_of(one.drop_last()).len() == 0);
    assert(uids_of(seq![x]) =~= (if x.uid is Some {
            seq![x.uid->0]
        } else {
            Seq::empty()
        }));
}

proof fn ids_of_the_living_join(
    a: Seq<EntityView>,
    b: Seq<EntityView>,
)
    ensures
        living_uids(a + b) == living_uids(a) + living_uids(b),
    decreases b.len(),
{
    if b.len() == 0 {
        assert(a + b =~= a);
        assert(living_uids(a) + living_uids(b) =~= living_uids(a));
    } else {
        ids_of_the_living_join(a, b.drop_last());
        assert((a + b).drop_last() =~= a + b.drop_last());
        assert((a + b).last() == b.last());
        assert(living_uids(a + b) =~= living_uids(a) + living_uids(b));
    }
}

/// The ids of those with life left, in their order. An id of zero is none.
pub proof fn ids_of_the_living(
    a: Seq<EntityView>,
    b: Seq<EntityView>,
    x: EntityView,
)
    ensures
        living_uids(a + b) == living_uids(a) + living_uids(b),
        living_uids(Seq::<EntityView>::empty()).len() == 0,
        living_uids(seq![x]) == (if x.current_hp is Some && x.current_hp->0 > 0 && x.uid is Some && x.uid->0 != 0 {
            seq![x.uid->0]
        } else {
            Seq::empty()
        }),
{
    ids_of_the_living_join(a, b);
    let one = seq![x];
    assert(one.drop_last() =~= Seq::<EntityView>::empty());
    assert(one.last() == x);
    assert(living_uids(one.drop_last()).len() == 0);
    assert(living_uids(seq![x]) =~= (if x.current_hp is Some && x.current_hp->0 > 0 && x.uid is Some && x.uid->0 != 0 {
            seq![x.uid->0]
        } else {
            Seq::empty()
        }));
}

/// A wave that comes in passing replaces the one before it. Its fighters and what their
/// templates ask for are taken over, and the fighters before it are gone.
pub proof fn what_a_passing_wave_leaves(
    a: Advance,
    waves: Seq<Seq<EntityView>>,
    n: nat,
    wave: Seq<EntityView>,
    templates: Seq<MonsterSkillTemplateRow>,
)
    ensures
        advanced_by(a, waves, 0, templates) == a,
        advanced_by(a, waves, n + 1, templates) == advanced(
            advanced_by(a, waves, n, templates),
            waves[n as int],
            templates,
        ),
        ({
            let b = advanced(a, wave, templates);
            let m = taken(a.trackers, everyone(b.fight));
            &&& b.fight == next_wave(a.fight, wave)
            &&& a.fight.defender matches Some(t) ==> b.gone == a.gone + uids_of(
                t.entitys + t.sub_entitys,
            )
            &&& a.fight.defender is None ==> b.gone == a.gone
            &&& b.trackers.ex_points == m.ex_points
            &&& b.trackers.current_hp == m.current_hp
            &&& b.trackers.max_hp == m.max_hp
            &&& b.trackers.ex_point_required == required_set(
                a.trackers.ex_point_required,
                everyone(b.fight),
                templates,
            )
            &&& b.trackers.entity_cache == a.trackers.entity_cache
            &&& b.trackers.action_points == a.trackers.action_points
            &&& b.trackers.ex_max == a.trackers.ex_max
            &&& b.trackers.attr_bonus == a.trackers.attr_bonus
        }),
{
    let f = next_wave(a.fight, wave);
    taking_over_keeps_the_rest(a.trackers, everyone(f));
    if a.fight.defender is None {
        assert(a.gone + Seq::<i64>::empty() =~= a.gone);
    }
}

proof fn taking_over_keeps_the_rest(m: EntityMgrView, s: Seq<EntityView>)
    ensures
        taken(m, s) == (EntityMgrView {
            ex_points: taken(m, s).ex_points,
            current_hp: taken(m, s).current_hp,
            max_hp: taken(m, s).max_hp,
            ..m
        }),
    decreases s.len(),
{
    if s.len() > 0 {
        taking_over_keeps_the_rest(m, s.drop_last());
    }
}

/// A wave is shown by one step with the whole battle in it.
pub proof fn how_a_wave_is_shown(f: FightView)
    ensures
        wave_shown(f) == step_of(
            ActType::Effect,
            0,
            0,
            0,
            0,
            seq![
                EffectView {
                    effect_type: Some(EffectType::NewChangeWave),
                    effect_num: Some(0),
                    fight: Some(f),
                    ..nothing_set()
                },
            ],
        ),
{
}

/// A wave arrives with its step, and with a second one for what the circle does if it does
/// anything. Waves arrive one after the other.
pub proof fn how_waves_arrive(a: Seq<WaveArrival>, b: Seq<WaveArrival>, x: WaveArrival)
    ensures
        arrivals_joined(a + b) == arrivals_joined(a) + arrivals_joined(b),
        arrivals_joined(Seq::empty()).len() == 0,
        x.circle_effects@.len() == 0 ==> arrivals_joined(seq![x]) == seq![x.step@],
        x.circle_effects@.len() > 0 ==> arrivals_joined(seq![x]) == seq![
            x.step@,
            step_of(ActType::Effect, 0, 0, 0, 0, effects_view(x.circle_effects@)),
        ],
    decreases a.len(),
{
    assert(seq![x].skip(1) =~= Seq::<WaveArrival>::empty());
    assert(arrivals_joined(seq![x].skip(1)).len() == 0);
    assert(arrivals_joined(seq![x]) =~= arrival_steps(x));
    if a.len() == 0 {
        assert(a + b =~= b);
        assert(arrivals_joined(a) + arrivals_joined(b) =~= arrivals_joined(b));
    } else {
        how_waves_arrive(a.skip(1), b, x);
        assert((a + b).skip(1) =~= a.skip(1) + b);
        assert(arrivals_joined(a + b) =~= arrivals_joined(a) + arrivals_joined(b));
    }
}

/// The circle on the field gives its buff to a new wave: it must have an id, a row, a
/// creator and rounds left, its row must name a buff, and someone of the wave must live.
pub proof fn what_the_circle_gives(f: FightView, rows: Seq<MagicCircleRow>, r: Option<CircleBuff>)
    requires
        is_circle_buff(f, rows, r),
    ensures
        ({
            let c = f.magic_circle->0;
            let row = row_at(rows, c.magic_circle_id->0);
            let given = f.magic_circle is Some && c.magic_circle_id is Some && c.magic_circle_id->0
                != 0 && c.round is Some && c.round->0 > 0 && c.create_uid is Some
                && c.create_uid->0 != 0 && row is Some && number(trimmed(row->0.enemy_buff@))
                is Some && number(trimmed(row->0.enemy_buff@))->0 > 0;
            let reached = f.defender is Some && living_uids(f.defender->0.entitys).len() > 0;
            &&& r is Some <==> given && reached
            &&& r is Some ==> r->0.caster_uid == c.create_uid->0
            &&& r is Some ==> Some(r->0.buff_id) == number(trimmed(row->0.enemy_buff@))
            &&& r is Some ==> r->0.targets@ == living_uids(f.defender->0.entitys)
        }),
{
    if f.defender is None {
        assert(living_uids(Seq::empty()).len() == 0);
    }
}

/// Waves are seen one by one.
pub proof fn how_waves_are_seen(v: Seq<Vec<FightEntityInfo>>)
    ensures
        waves_view(v).len() == v.len(),
        forall|i: int| 0 <= i < v.len() ==> #[trigger] waves_view(v)[i] == entities_view(v[i]@),
{
}

/// A battle starts with everyone in its place, and with nothing told of anyone who is not
/// in it.
pub proof fn how_a_battle_starts(
    f: FightView,
    templates: Seq<MonsterSkillTemplateRow>,
    s: Seq<EntityView>,
)
    ensures
        first_trackers(f, templates).entity_cache == locations(f),
        first_trackers(f, templates).attr_bonus == Map::<(i64, i32), Seq<i32>>::empty(),
        forall|uid: i64| #[trigger]
            first_trackers(f, templates).current_hp.contains_key(uid) <==> exists|i: int|
                0 <= i < everyone(f).len() && (#[trigger] everyone(f)[i]).uid == Some(uid),
        somebody_lives(s) <==> exists|i: int|
            0 <= i < s.len() && (#[trigger] s[i]).current_hp is Some && s[i].current_hp->0 > 0,
{
    let m = EntityMgrView { entity_cache: locations(f), ..EntityMgrView::nobody() };
    enrolled_are_the_members(m, everyone(f), templates);
    if somebody_lives(s) {
        let k = choose|k: int| 0 <= k < s.len() && or_zero((#[trigger] s[k]).current_hp) > 0;
        assert(s[k].current_hp is Some);
    }
    if exists|i: int| 0 <= i < s.len() && (#[trigger] s[i]).current_hp is Some
        && s[i].current_hp->0 > 0 {
        let i = choose|i: int|
            0 <= i < s.len() && (#[trigger] s[i]).current_hp is Some && s[i].current_hp->0 > 0;
        assert(or_zero(s[i].current_hp) > 0);
    }
}

proof fn enrolled_are_the_members(
    m: EntityMgrView,
    s: Seq<EntityView>,
    templates: Seq<MonsterSkillTemplateRow>,
)
    ensures
        ({
            let n = crate::manager::entity_mgr::enrolled(m, s, templates);
            &&& n.entity_cache == m.entity_cache
            &&& n.attr_bonus == m.attr_bonus
            &&& forall|uid: i64| #[trigger]
                n.current_hp.contains_key(uid) <==> m.current_hp.contains_key(uid) || exists|
                    i: int,
                |
                    0 <= i < s.len() && (#[trigger] s[i]).uid == Some(uid)
        }),
    decreases s.len(),
{
    if s.len() > 0 {
        let less = s.drop_last();
        enrolled_are_the_members(m, less, templates);
        let n = crate::manager::entity_mgr::enrolled(m, s, templates);
        assert(s[s.len() - 1] == s.last());
        assert forall|uid: i64| #[trigger]
            n.current_hp.contains_key(uid) <==> m.current_hp.contains_key(uid) || exists|i: int|
                0 <= i < s.len() && (#[trigger] s[i]).uid == Some(uid) by {
            if exists|i: int| 0 <= i < less.len() && (#[trigger] less[i]).uid == Some(uid) {
                let i = choose|i: int| 0 <= i < less.len() && (#[trigger] less[i]).uid == Some(uid);
                assert(s[i].uid == Some(uid));
            }
            if exists|i: int| 0 <= i < s.len() && (#[trigger] s[i]).uid == Some(uid) {
                let i = choose|i: int| 0 <= i < s.len() && (#[trigger] s[i]).uid == Some(uid);
                if i < less.len() {
                    assert(less[i].uid == Some(uid));
                }
            }
        }
    }
}

} // verus!
