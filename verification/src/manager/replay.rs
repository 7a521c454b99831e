//! Taking a battle over from its recorded first round.

use crate::arith::{fits, or_zero, or_zero64, value, value64};
use crate::fight_step::steps::steps_view;
use crate::lookup::{everyone, members};
use crate::manager::entity_mgr::{
    at_least_zero, EntityMgr, EntityMgrView, ExPointInfoView, FightExPointInfo,
};
use crate::mechanics::injury_counter::{kind_of, read_kind};
use crate::model::copies::copy_effect;
use crate::model::lists::group_effects_view;
use crate::model::{
    effects_view, entities_view, ActEffect, BuffInfo, BuffInfoView, EffectType, EffectView,
    EntityView, Fight, FightEntityInfo, FightStep, FightTeam, FightView, StepView, TeamView,
};
use vstd::prelude::*;

verus! {

broadcast use group_effects_view;

/// The effects without a step of the first effects of a list, nested steps opened
/// in their place.
pub open spec fn leaves_upto(s: Seq<EffectView>, n: nat) -> Seq<EffectView>
    decreases s, n,
{
    if n == 0 || n > s.len() {
        Seq::empty()
    } else {
        leaves_upto(s, (n - 1) as nat) + match s[n - 1].fight_step {
            Some(step) => leaves(step.act_effect),
            None => seq![s[n - 1]],
        }
    }
}

/// The effects without a step, nested steps opened in their place.
pub open spec fn leaves(s: Seq<EffectView>) -> Seq<EffectView>
    decreases s, s.len() + 1,
{
    leaves_upto(s, s.len())
}

/// The effects without a step of some steps, one step after the other.
pub open spec fn all_leaves(steps: Seq<StepView>) -> Seq<EffectView>
    decreases steps.len(),
{
    if steps.len() == 0 {
        Seq::empty()
    } else {
        all_leaves(steps.drop_last()) + leaves(steps.last().act_effect)
    }
}

/// Adds the effects without a step of a list, nested steps opened in their place.
pub fn push_leaves(out: &mut Vec<ActEffect>, effects: &Vec<ActEffect>)
    ensures
        effects_view(final(out)@) == effects_view(old(out)@) + leaves(effects_view(effects@)),
    decreases effects,
{
    let ghost s = effects_view(effects@);
    let ghost start = effects_view(out@);
    assert(start + leaves_upto(s, 0) =~= start);
    for i in 0..effects.len()
        invariant
            s == effects_view(effects@),
            effects_view(out@) == start + leaves_upto(s, i as nat),
    {
        assert(s[i as int] == effects@[i as int]@);
        match &effects[i].fight_step {
            Some(step) => {
                assert(decreases_to!(effects => effects@[i as int]));
                push_leaves(out, &step.act_effect);
            },
            None => {
                out.push(copy_effect(&effects[i]));
            },
        }
        assert(effects_view(out@) =~= start + leaves_upto(s, (i + 1) as nat));
    }
}

/// Lists the effects without a step of some steps, in the order in which they are
/// written down.
pub fn round_leaves(steps: &Vec<FightStep>) -> (r: Vec<ActEffect>)
    ensures
        effects_view(r@) == all_leaves(steps_view(steps@)),
{
    let mut out: Vec<ActEffect> = Vec::new();
    let ghost ss = steps_view(steps@);
    assert(effects_view(out@) =~= all_leaves(ss.take(0)));
    for i in 0..steps.len()
        invariant
            ss == steps_view(steps@),
            effects_view(out@) == all_leaves(ss.take(i as int)),
    {
        assert(ss.take(i + 1).drop_last() =~= ss.take(i as int));
        assert(ss.take(i + 1).last() == steps@[i as int]@);
        push_leaves(&mut out, &steps[i].act_effect);
    }
    assert(ss.take(ss.len() as int) =~= ss);
    out
}

/// What an effect of a recorded round does to a blood pool that is rebuilt. Any of
/// them but `Nothing` shows that there is a pool.
#[derive(Clone, Copy, PartialEq, Eq, Structural, Debug)]
pub enum PoolReplay {
    Nothing,
    Exists,
    RaiseMax { team_type: i32, max: i32 },
    SetValue { team_type: i32, value: i32 },
}

/// What an effect of a type and an amount does to a pool that holds `value` of
/// `max`.
pub open spec fn pool_replay(
    kind: EffectType,
    team_type: i32,
    amount: i32,
    max: i32,
    value: i32,
) -> PoolReplay {
    match kind {
        EffectType::BloodPoolMaxCreate => PoolReplay::Exists,
        EffectType::BloodPoolMaxChange => if amount > max {
            PoolReplay::RaiseMax { team_type, max: amount }
        } else {
            PoolReplay::Exists
        },
        EffectType::BloodPoolValueChange => PoolReplay::SetValue {
            team_type,
            value: at_least_zero(value + amount) as i32,
        },
        _ => PoolReplay::Nothing,
    }
}

/// Decides what a recorded change does to a pool that holds `value` of `max`.
pub fn seed_replay_bloodtithe_from_effect(
    kind: EffectType,
    team_type: i32,
    amount: i32,
    max: i32,
    value: i32,
) -> (r: PoolReplay)
    requires
        kind == EffectType::BloodPoolValueChange ==> fits(value + amount),
    ensures
        r == pool_replay(kind, team_type, amount, max, value),
{
    match kind {
        EffectType::BloodPoolMaxCreate => PoolReplay::Exists,
        EffectType::BloodPoolMaxChange => if amount > max {
            PoolReplay::RaiseMax { team_type, max: amount }
        } else {
            PoolReplay::Exists
        },
        EffectType::BloodPoolValueChange => {
            let sum: i32 = value + amount;
            PoolReplay::SetValue {
                team_type,
                value: if sum > 0 {
                    sum
                } else {
                    0
                },
            }
        },
        _ => PoolReplay::Nothing,
    }
}

/// The team that an effect on a pool is about.
pub open spec fn pool_team(e: EffectView) -> i32 {
    match e.effect_num {
        Some(t) => t,
        None => match e.team_type {
            Some(t) => t,
            None => 1,
        },
    }
}

/// Reads the team that an effect on a pool is about.
pub fn read_pool_team(effect: &ActEffect) -> (r: i32)
    ensures
        r == pool_team(effect@),
{
    match effect.effect_num {
        Some(t) => t,
        None => match effect.team_type {
            Some(t) => t,
            None => 1,
        },
    }
}

/// Decides what an effect of a recorded round does to the pool of its team, which
/// holds `value` of `max`.
pub fn reseed_bloodtithe_from_effect(effect: &ActEffect, max: i32, value: i32) -> (r: PoolReplay)
    requires
        kind_of(effect@) == EffectType::BloodPoolValueChange ==> fits(
            value + or_zero(effect@.effect_num1),
        ),
    ensures
        r == pool_replay(
            kind_of(effect@),
            pool_team(effect@),
            or_zero(effect@.effect_num1),
            max,
            value,
        ),
{
    let amount: i32 = match effect.effect_num1 {
        Some(n) => n,
        None => 0,
    };
    seed_replay_bloodtithe_from_effect(
        read_kind(effect),
        read_pool_team(effect),
        amount,
        max,
        value,
    )
}

/// The capacity that an effect records for an act; none for any other effect.
pub open spec fn recorded_capacity(e: EffectView, act_id: i32) -> Option<i32> {
    if kind_of(e) == EffectType::BuffActInfoUpdate && e.buff_act_info is Some
        && e.buff_act_info->0.act_id == Some(act_id) && e.buff_act_info->0.param.len() > 1 {
        Some(e.buff_act_info->0.param[1])
    } else {
        None
    }
}

/// The largest capacity that some effects record; zero if none is positive.
pub open spec fn largest_capacity(s: Seq<EffectView>, act_id: i32) -> i32
    decreases s.len(),
{
    if s.len() == 0 {
        0
    } else {
        let before = largest_capacity(s.drop_last(), act_id);
        match recorded_capacity(s.last(), act_id) {
            Some(c) => if c > before {
                c
            } else {
                before
            },
            None => before,
        }
    }
}

/// Finds the capacity of the shadow cloak in a recorded round; zero if it is not
/// recorded.
pub fn reseed_shadow_cloak_from_round(steps: &Vec<FightStep>, act_id: i32) -> (r: i32)
    ensures
        r == largest_capacity(all_leaves(steps_view(steps@)), act_id),
{
    let effects = round_leaves(steps);
    let ghost s = effects_view(effects@);
    let mut largest: i32 = 0;
    assert(s.take(0).len() == 0);
    for i in 0..effects.len()
        invariant
            s == effects_view(effects@),
            largest == largest_capacity(s.take(i as int), act_id),
    {
        assert(s.take(i + 1).drop_last() =~= s.take(i as int));
        assert(s.take(i + 1).last() == effects@[i as int]@);
        if read_kind(&effects[i]) == EffectType::BuffActInfoUpdate {
            if let Some(info) = &effects[i].buff_act_info {
                if let Some(id) = info.act_id {
                    if id == act_id && info.param.len() > 1 {
                        if info.param[1] > largest {
                            largest = info.param[1];
                        }
                    }
                }
            }
        }
    }
    assert(s.take(s.len() as int) =~= s);
    largest
}

/// A buff of a recorded battle.
#[derive(Clone, Copy, PartialEq, Eq, Structural, Debug)]
pub struct RecordedBuff {
    pub buff_id: i32,
    pub target_uid: i64,
    pub from_uid: i64,
    pub count: i32,
    pub layer: i32,
    pub buff_uid: i64,
    pub duration: i32,
}

/// Whether a recorded buff can be taken over.
pub open spec fn is_usable(b: RecordedBuff) -> bool {
    b.buff_id > 0 && b.target_uid != 0 && b.buff_uid > 0
}

/// The position of the buff of a unique id.
pub open spec fn buff_position(s: Seq<BuffInfoView>, buff_uid: i64) -> Option<nat>
    decreases s.len(),
{
    if s.len() == 0 {
        None
    } else if s[0].uid == Some(buff_uid) {
        Some(0)
    } else {
        match buff_position(s.skip(1), buff_uid) {
            Some(i) => Some(i + 1),
            None => None,
        }
    }
}

/// The buffs of a fighter after a recorded one is taken over: the one of the same
/// unique id is changed, else a new one is added.
pub open spec fn with_recorded(s: Seq<BuffInfoView>, b: RecordedBuff) -> Seq<BuffInfoView> {
    match buff_position(s, b.buff_uid) {
        Some(i) => s.update(
            i as int,
            BuffInfoView {
                buff_id: Some(b.buff_id),
                from_uid: Some(b.from_uid),
                count: Some(b.count),
                layer: Some(b.layer),
                duration: Some(b.duration),
                ..s[i as int]
            },
        ),
        None => s.push(
            BuffInfoView {
                buff_id: Some(b.buff_id),
                duration: Some(b.duration),
                uid: Some(b.buff_uid),
                ex_info: None,
                from_uid: Some(b.from_uid),
                count: Some(b.count),
                act_common_params: None,
                layer: Some(b.layer),
                layer_type: None,
                act_info: Seq::empty(),
            },
        ),
    }
}

/// The position of the first fighter of an id.
pub open spec fn uid_position(s: Seq<EntityView>, uid: i64) -> Option<nat>
    decreases s.len(),
{
    if s.len() == 0 {
        None
    } else if s[0].uid == Some(uid) {
        Some(0)
    } else {
        match uid_position(s.skip(1), uid) {
            Some(i) => Some(i + 1),
            None => None,
        }
    }
}

/// Some fighters after the first of an id takes a recorded buff over.
pub open spec fn list_with_recorded(s: Seq<EntityView>, b: RecordedBuff) -> Seq<EntityView> {
    match uid_position(s, b.target_uid) {
        Some(i) => s.update(
            i as int,
            EntityView { buffs: with_recorded(s[i as int].buffs, b), ..s[i as int] },
        ),
        None => s,
    }
}

/// A team after its first member of an id takes a recorded buff over, the field
/// before the reserve.
pub open spec fn team_with_recorded(t: TeamView, b: RecordedBuff) -> TeamView {
    if uid_position(t.entitys, b.target_uid) is Some {
        TeamView { entitys: list_with_recorded(t.entitys, b), ..t }
    } else {
        TeamView { sub_entitys: list_with_recorded(t.sub_entitys, b), ..t }
    }
}

/// Whether a team has a member of an id.
pub open spec fn team_has(t: Option<TeamView>, uid: i64) -> bool {
    t is Some && (uid_position(t->0.entitys, uid) is Some || uid_position(t->0.sub_entitys, uid)
        is Some)
}

/// A battle after a recorded buff is taken over; attackers are looked at first.
pub open spec fn fight_with_recorded(f: FightView, b: RecordedBuff) -> FightView {
    if !is_usable(b) {
        f
    } else if team_has(f.attacker, b.target_uid) {
        FightView { attacker: Some(team_with_recorded(f.attacker->0, b)), ..f }
    } else if team_has(f.defender, b.target_uid) {
        FightView { defender: Some(team_with_recorded(f.defender->0, b)), ..f }
    } else {
        f
    }
}

/// A battle after some recorded buffs are taken over.
pub open spec fn fight_with_all(f: FightView, s: Seq<RecordedBuff>) -> FightView
    decreases s.len(),
{
    if s.len() == 0 {
        f
    } else {
        fight_with_recorded(fight_with_all(f, s.drop_last()), s.last())
    }
}

/// The recorded buffs that the buff registry takes over.
pub open spec fn usable(s: Seq<RecordedBuff>) -> Seq<RecordedBuff>
    decreases s.len(),
{
    if s.len() == 0 {
        Seq::empty()
    } else if is_usable(s.last()) {
        usable(s.drop_last()).push(s.last())
    } else {
        usable(s.drop_last())
    }
}

/// The buffs of a list, each by its view.
pub open spec fn buffs_view(v: Seq<BuffInfo>) -> Seq<BuffInfoView> {
    Seq::new(v.len(), |i: int| v[i]@)
}

fn find_buff_position(v: &Vec<BuffInfo>, buff_uid: i64) -> (r: Option<usize>)
    ensures
        match r {
            Some(i) => buff_position(buffs_view(v@), buff_uid) == Some(i as nat) && i < v@.len(),
            None => buff_position(buffs_view(v@), buff_uid) is None,
        },
{
    let ghost s = buffs_view(v@);
    assert(s.skip(0) =~= s);
    let mut i: usize = 0;
    while i < v.len()
        invariant
            i <= v.len(),
            s == buffs_view(v@),
            buff_position(s, buff_uid) == match buff_position(s.skip(i as int), buff_uid) {
                Some(k) => Some((k + i) as nat),
                None => None,
            },
        decreases v.len() - i,
    {
        assert(s.skip(i as int)[0] == v@[i as int]@);
        assert(s.skip(i as int).skip(1) =~= s.skip(i + 1));
        if let Some(uid) = v[i].uid {
            if uid == buff_uid {
                return Some(i);
            }
        }
        i += 1;
    }
    None
}

fn record_buff(v: &mut Vec<BuffInfo>, b: RecordedBuff)
    ensures
        buffs_view(final(v)@) == with_recorded(buffs_view(old(v)@), b),
{
    let ghost s = buffs_view(v@);
    match find_buff_position(v, b.buff_uid) {
        Some(i) => {
            let mut next = v[i].clone();
            next.buff_id = Some(b.buff_id);
            next.from_uid = Some(b.from_uid);
            next.count = Some(b.count);
            next.layer = Some(b.layer);
            next.duration = Some(b.duration);
            assert(s[i as int] == v@[i as int]@);
            v[i] = next;
            assert(buffs_view(v@) =~= s.update(i as int, next@));
        },
        None => {
            let next = BuffInfo {
                buff_id: Some(b.buff_id),
                duration: Some(b.duration),
                uid: Some(b.buff_uid),
                ex_info: None,
                from_uid: Some(b.from_uid),
                count: Some(b.count),
                act_common_params: None,
                layer: Some(b.layer),
                layer_type: None,
                act_info: Vec::new(),
            };
            assert(next@.act_info =~= Seq::empty());
            v.push(next);
            assert(buffs_view(v@) =~= s.push(next@));
        },
    }
}

fn find_uid_position(v: &Vec<FightEntityInfo>, uid: i64) -> (r: Option<usize>)
    ensures
        match r {
            Some(i) => uid_position(entities_view(v@), uid) == Some(i as nat) && i < v@.len(),
            None => uid_position(entities_view(v@), uid) is None,
        },
{
    let ghost s = entities_view(v@);
    assert(s.skip(0) =~= s);
    let mut i: usize = 0;
    while i < v.len()
        invariant
            i <= v.len(),
            s == entities_view(v@),
            uid_position(s, uid) == match uid_position(s.skip(i as int), uid) {
                Some(k) => Some((k + i) as nat),
                None => None,
            },
        decreases v.len() - i,
    {
        assert(s.skip(i as int)[0] == v@[i as int]@);
        assert(s.skip(i as int).skip(1) =~= s.skip(i + 1));
        if let Some(u) = v[i].uid {
            if u == uid {
                return Some(i);
            }
        }
        i += 1;
    }
    None
}

fn record_in_list(v: &mut Vec<FightEntityInfo>, b: RecordedBuff) -> (r: bool)
    ensures
        r == (uid_position(entities_view(old(v)@), b.target_uid) is Some),
        entities_view(final(v)@) == list_with_recorded(entities_view(old(v)@), b),
{
    let ghost s = entities_view(v@);
    let ghost before = v@;
    match find_uid_position(v, b.target_uid) {
        Some(i) => {
            assert(s[i as int] == v@[i as int]@);
            assert(s[i as int].buffs =~= buffs_view(v@[i as int].buffs@));
            record_buff(&mut v[i].buffs, b);
            assert(v@[i as int]@.buffs =~= with_recorded(s[i as int].buffs, b));
            assert(entities_view(v@) =~= s.update(i as int, v@[i as int]@));
            true
        },
        None => false,
    }
}

fn record_in_team(t: &mut FightTeam, b: RecordedBuff) -> (r: bool)
    ensures
        r == team_has(Some(old(t)@), b.target_uid),
        final(t)@ == team_with_recorded(old(t)@, b),
{
    if record_in_list(&mut t.entitys, b) {
        return true;
    }
    record_in_list(&mut t.sub_entitys, b)
}

/// Takes the buffs of a recorded battle over. Returns those that the buff registry
/// is to take over as well.
pub fn seed_replay_buffs_from_effects(fight: &mut Fight, recorded: &Vec<RecordedBuff>) -> (r: Vec<
    RecordedBuff,
>)
    ensures
        final(fight)@ == fight_with_all(old(fight)@, recorded@),
        r@ == usable(recorded@),
{
    let ghost start = fight@;
    let mut out: Vec<RecordedBuff> = Vec::new();
    assert(recorded@.take(0).len() == 0);
    for i in 0..recorded.len()
        invariant
            fight@ == fight_with_all(start, recorded@.take(i as int)),
            out@ == usable(recorded@.take(i as int)),
    {
        assert(recorded@.take(i + 1).drop_last() =~= recorded@.take(i as int));
        let b = recorded[i];
        if b.buff_id > 0 && b.target_uid != 0 && b.buff_uid > 0 {
            out.push(b);
            let ghost now = fight@;
            let mut seeded: bool = false;
            if let Some(t) = &mut fight.attacker {
                seeded = record_in_team(t, b);
                if !seeded {
                    proof {
                        unrecorded(now.attacker->0, b);
                    }
                }
            }
            if !seeded {
                if let Some(t) = &mut fight.defender {
                    let done = record_in_team(t, b);
                    if !done {
                        proof {
                            unrecorded(now.defender->0, b);
                        }
                    }
                }
            }
        }
    }
    assert(recorded@.take(recorded@.len() as int) =~= recorded@);
    out
}

proof fn unrecorded(t: TeamView, b: RecordedBuff)
    requires
        !team_has(Some(t), b.target_uid),
    ensures
        team_with_recorded(t, b) == t,
{
}

/// The last info about a fighter.
pub open spec fn last_info(s: Seq<ExPointInfoView>, uid: i64) -> Option<ExPointInfoView>
    decreases s.len(),
{
    if s.len() == 0 {
        None
    } else if s.last().uid == Some(uid) {
        Some(s.last())
    } else {
        last_info(s.drop_last(), uid)
    }
}

/// A fighter as its recorded gauges have it.
pub open spec fn gauged(e: EntityView, infos: Seq<ExPointInfoView>) -> EntityView {
    match last_info(infos, or_zero64(e.uid)) {
        Some(info) => EntityView {
            ex_point: Some(or_zero(info.ex_point)),
            current_hp: match info.current_hp {
                Some(hp) => Some(hp),
                None => e.current_hp,
            },
            ..e
        },
        None => e,
    }
}

/// Some fighters as their recorded gauges have them.
pub open spec fn gauged_list(s: Seq<EntityView>, infos: Seq<ExPointInfoView>) -> Seq<EntityView> {
    Seq::new(s.len(), |i: int| gauged(s[i], infos))
}

/// The trackers after the recorded gauges of some fighters are taken over.
pub open spec fn gauges_taken(
    m: EntityMgrView,
    s: Seq<EntityView>,
    infos: Seq<ExPointInfoView>,
) -> EntityMgrView
    decreases s.len(),
{
    if s.len() == 0 {
        m
    } else {
        let before = gauges_taken(m, s.drop_last(), infos);
        let uid = or_zero64(s.last().uid);
        match last_info(infos, uid) {
            Some(info) => EntityMgrView {
                ex_points: before.ex_points.insert(
                    uid,
                    at_least_zero(or_zero(info.ex_point) as int) as i32,
                ),
                current_hp: match info.current_hp {
                    Some(hp) => before.current_hp.insert(uid, at_least_zero(hp as int) as i32),
                    None => before.current_hp,
                },
                ..before
            },
            None => before,
        }
    }
}

/// Two lists are taken over one after the other.
pub proof fn gauges_taken_join(
    m: EntityMgrView,
    a: Seq<EntityView>,
    b: Seq<EntityView>,
    infos: Seq<ExPointInfoView>,
)
    ensures
        gauges_taken(m, a + b, infos) == gauges_taken(gauges_taken(m, a, infos), b, infos),
    decreases b.len(),
{
    if b.len() == 0 {
        assert(a + b =~= a);
    } else {
        gauges_taken_join(m, a, b.drop_last(), infos);
        assert((a + b).drop_last() =~= a + b.drop_last());
        assert((a + b).last() == b.last());
    }
}

/// The infos of a list, each by its view.
pub open spec fn recorded_infos(v: Seq<FightExPointInfo>) -> Seq<ExPointInfoView> {
    Seq::new(v.len(), |i: int| v[i]@)
}

fn find_last_info(v: &Vec<FightExPointInfo>, uid: i64) -> (r: Option<(i32, Option<i32>)>)
    ensures
        match r {
            Some((ex, hp)) => last_info(recorded_infos(v@), uid) is Some && ex == or_zero(
                last_info(recorded_infos(v@), uid)->0.ex_point,
            ) && hp == last_info(recorded_infos(v@), uid)->0.current_hp,
            None => last_info(recorded_infos(v@), uid) is None,
        },
{
    let ghost s = recorded_infos(v@);
    let mut i: usize = v.len();
    assert(s.take(i as int) =~= s);
    while i > 0
        invariant
            i <= v.len(),
            s == recorded_infos(v@),
            last_info(s.take(i as int), uid) == last_info(s, uid),
        decreases i,
    {
        assert(s.take(i as int).last() == v@[i - 1]@);
        assert(s.take(i as int).drop_last() =~= s.take(i - 1));
        if let Some(u) = v[i - 1].uid {
            if u == uid {
                return Some((value(v[i - 1].ex_point), v[i - 1].current_hp));
            }
        }
        i -= 1;
    }
    None
}

fn gauge_list(v: &mut Vec<FightEntityInfo>, infos: &Vec<FightExPointInfo>, mgr: &mut EntityMgr)
    ensures
        entities_view(final(v)@) == gauged_list(entities_view(old(v)@), recorded_infos(infos@)),
        final(mgr)@ == gauges_taken(
            old(mgr)@,
            entities_view(old(v)@),
            recorded_infos(infos@),
        ),
{
    let ghost start = v@;
    let ghost s = entities_view(v@);
    let ghost first = mgr@;
    let n = v.len();
    assert(s.take(0).len() == 0);
    for i in 0..n
        invariant
            n == start.len(),
            v@.len() == n,
            s == entities_view(start),
            mgr@ == gauges_taken(first, s.take(i as int), recorded_infos(infos@)),
            forall|k: int|
                0 <= k < i ==> (#[trigger] v@[k])@ == gauged(s[k], recorded_infos(infos@)),
            forall|k: int| i <= k < n ==> #[trigger] v@[k] == start[k],
    {
        assert(s.take(i + 1).drop_last() =~= s.take(i as int));
        assert(s.take(i + 1).last() == start[i as int]@);
        assert(v@[i as int] == start[i as int]);
        let uid = value64(v[i].uid);
        if let Some((ex_point, current_hp)) = find_last_info(infos, uid) {
            let e = &mut v[i];
            e.ex_point = Some(ex_point);
            mgr.set_ex_point(uid, ex_point);
            if let Some(hp) = current_hp {
                e.current_hp = Some(hp);
                mgr.set_hp(uid, hp);
            }
        }
    }
    assert(s.take(n as int) =~= s);
    assert(entities_view(v@) =~= gauged_list(s, recorded_infos(infos@)));
}

/// A team as its recorded gauges have it.
pub open spec fn gauged_team(t: Option<TeamView>, infos: Seq<ExPointInfoView>) -> Option<TeamView> {
    match t {
        Some(t) => Some(
            TeamView {
                entitys: gauged_list(t.entitys, infos),
                sub_entitys: gauged_list(t.sub_entitys, infos),
                ..t
            },
        ),
        None => None,
    }
}

/// Takes the recorded gauges of a battle over, into the battle and its trackers.
pub fn seed_replay_gauges(
    fight: &mut Fight,
    infos: &Vec<FightExPointInfo>,
    mgr: &mut EntityMgr,
)
    ensures
        final(fight)@ == (FightView {
            attacker: gauged_team(old(fight)@.attacker, recorded_infos(infos@)),
            defender: gauged_team(old(fight)@.defender, recorded_infos(infos@)),
            ..old(fight)@
        }),
        final(mgr)@ == gauges_taken(
            old(mgr)@,
            everyone(old(fight)@),
            recorded_infos(infos@),
        ),
{
    let ghost f = fight@;
    let ghost first = mgr@;
    let ghost is = recorded_infos(infos@);
    if let Some(t) = &mut fight.attacker {
        gauge_list(&mut t.entitys, infos, mgr);
        gauge_list(&mut t.sub_entitys, infos, mgr);
        proof {
            gauges_taken_join(first, f.attacker->0.entitys, f.attacker->0.sub_entitys, is);
        }
    }
    let ghost half = mgr@;
    if let Some(t) = &mut fight.defender {
        gauge_list(&mut t.entitys, infos, mgr);
        gauge_list(&mut t.sub_entitys, infos, mgr);
        proof {
            gauges_taken_join(half, f.defender->0.entitys, f.defender->0.sub_entitys, is);
        }
    }
    proof {
        gauges_taken_join(first, members(f.attacker), members(f.defender), is);
    }
}

} // verus!
