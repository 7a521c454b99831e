//! What the enemies do: their casts, previewed one after the other.

use crate::arith::{fits, or_zero, or_zero64, value, value64};
use crate::buffs::{BuffInstance, BuffMgr};
use crate::chance::draw_index;
use crate::config::{find_row, row_at, Row};
use crate::fight_step::steps::{make_skill_step, skill_step};
use crate::lookup::{
    entity_of, find_entity, find_in, find_in_team, find_place, find_position, first_with_uid,
    list_at, members, position_in, replaced, set_ex_point_at, with_list, Place,
};
use crate::manager::calculate_mgr::base_ex_max;
use crate::manager::entity_mgr::{at_least_zero, on_field, EntityMgr, EntityMgrView};
use crate::manager::replay::{leaves, push_leaves};
use crate::manager::wave_mgr::{uid_size, WaveMgr};
use crate::mechanics::channel::{alive, is_alive};
use crate::mechanics::injury_counter::{kind_of, read_kind};
use crate::model::copies::copy_effect;
use crate::model::lists::group_effects_view;
use crate::model::{
    effect_view, effects_view, entities_view, ActEffect, ActType, EffectType, EffectView,
    EntityView, Fight, FightEntityInfo, FightStep, FightView, StepView,
};
use rand::rngs::StdRng;
use vstd::prelude::*;

verus! {

broadcast use group_effects_view;

/// What a buff lets its bearer hold above the maximum of ex points.
#[derive(Clone, Copy, PartialEq, Eq, Structural, Debug)]
pub struct OverflowRow {
    pub buff_id: i32,
    pub bonus: i32,
}

impl Row for OverflowRow {
    open spec fn key(&self) -> i32 {
        self.buff_id
    }

    fn id(&self) -> (r: i32) {
        self.buff_id
    }
}

/// The bonus of the first buff that has one; zero if none has.
pub open spec fn overflow_of(s: Seq<BuffInstance>, rows: Seq<OverflowRow>) -> i32
    decreases s.len(),
{
    if s.len() == 0 {
        0
    } else {
        match row_at(rows, s[0].buff_id) {
            Some(r) => r.bonus,
            None => overflow_of(s.skip(1), rows),
        }
    }
}

/// Finds how many ex points a fighter may hold above its maximum.
pub fn find_overflow(buffs: &BuffMgr, rows: &Vec<OverflowRow>, uid: i64) -> (r: i32)
    ensures
        r == overflow_of(buffs.of(uid), rows@),
{
    let held = buffs.get(uid);
    assert(held@.skip(0) =~= held@);
    let mut i: usize = 0;
    while i < held.len()
        invariant
            i <= held@.len(),
            held@ == buffs.of(uid),
            overflow_of(held@.skip(i as int), rows@) == overflow_of(held@, rows@),
        decreases held@.len() - i,
    {
        assert(held@.skip(i as int).skip(1) =~= held@.skip(i + 1));
        if let Some(row) = find_row(rows, held[i].buff_id) {
            return row.bonus;
        }
        i += 1;
    }
    0
}

/// The ids of the living fighters of a list.
pub open spec fn living(s: Seq<EntityView>) -> Seq<i64>
    decreases s.len(),
{
    if s.len() == 0 {
        Seq::empty()
    } else {
        let before = living(s.drop_last());
        if is_alive(s.last()) && s.last().uid is Some {
            before.push(s.last().uid->0)
        } else {
            before
        }
    }
}

/// The ids of the living attackers on the field.
pub fn living_players(fight: &Fight) -> (r: Vec<i64>)
    ensures
        r@ == living(on_field(fight@.attacker)),
{
    let mut out: Vec<i64> = Vec::new();
    if let Some(t) = &fight.attacker {
        let ghost s = entities_view(t.entitys@);
        assert(s.take(0).len() == 0);
        for i in 0..t.entitys.len()
            invariant
                s == entities_view(t.entitys@),
                out@ == living(s.take(i as int)),
        {
            assert(s.take(i + 1).drop_last() =~= s.take(i as int));
            assert(s.take(i + 1).last() == t.entitys@[i as int]@);
            if alive(&t.entitys[i]) {
                if let Some(uid) = t.entitys[i].uid {
                    out.push(uid);
                }
            }
        }
        assert(s.take(s.len() as int) =~= s);
    }
    assert(out@ =~= living(on_field(fight@.attacker)));
    out
}

/// How far the waves of a replayed battle have come.
#[derive(Clone, Copy, PartialEq, Eq, Structural, Debug)]
pub struct WaveProgress {
    pub current_wave: i32,
    pub max_wave: i32,
    /// Whether a recorded wave was taken over, and which.
    pub snapshot_applied: bool,
    pub snapshot_wave: Option<i32>,
}

/// Whether a recorded step is a cast of an enemy.
pub open spec fn is_enemy_cast(step: StepView) -> bool {
    or_zero64(step.from_id) < 0 && or_zero(step.act_id) != 0
}

/// The wave that must have come before a recorded cast: the caster's, unless it is
/// there, covered by a recorded wave, or beyond the last.
pub open spec fn wave_needed(step: StepView, p: WaveProgress) -> Option<i32> {
    let wave = crate::arith::div_toward_zero(uid_size(or_zero64(step.from_id)) + 1, 2) as i32;
    if !is_enemy_cast(step) || (p.snapshot_applied && or_zero(p.snapshot_wave) >= wave) || wave
        <= p.current_wave || wave > p.max_wave {
        None
    } else {
        Some(wave)
    }
}

/// Decides which wave must come before a recorded cast.
pub fn replay_wave(step: &FightStep, progress: WaveProgress) -> (r: Option<i32>)
    requires
        or_zero64(step@.from_id) < 0 ==> uid_size(or_zero64(step@.from_id)) < i32::MAX,
    ensures
        r == wave_needed(step@, progress),
{
    let caster_uid = value64(step.from_id);
    if caster_uid >= 0 || value(step.act_id) == 0 {
        return None;
    }
    match WaveMgr::expected_wave_for_uid(caster_uid) {
        Some(wave) => {
            let covered: bool = progress.snapshot_applied && value(progress.snapshot_wave) >= wave;
            if !covered && wave > progress.current_wave && wave <= progress.max_wave {
                Some(wave)
            } else {
                None
            }
        },
        None => None,
    }
}

/// A cast: who plays which skill on whom.
#[derive(Clone, Copy, PartialEq, Eq, Structural, Debug)]
pub struct Cast {
    pub caster_uid: i64,
    pub target_uid: i64,
    pub skill_id: i32,
}

/// Whether the caster of a recorded cast is alive on the field.
pub open spec fn caster_stands(f: FightView, uid: i64) -> bool {
    match first_with_uid(on_field(f.defender), uid) {
        Some(e) => is_alive(e),
        None => false,
    }
}

/// The cast that a recorded step asks for, aimed at a given player where it names
/// no target. The caster must stand; a target on the players' side must exist.
pub open spec fn replay_cast(f: FightView, step: StepView, drawn: Option<i64>) -> Option<Cast> {
    let caster_uid = or_zero64(step.from_id);
    let to = or_zero64(step.to_id);
    if !is_enemy_cast(step) || !caster_stands(f, caster_uid) || (to == 0 && drawn is None) {
        None
    } else {
        let target_uid = if to == 0 {
            drawn->0
        } else {
            to
        };
        if target_uid > 0 && entity_of(f, target_uid) is None {
            None
        } else {
            Some(Cast { caster_uid, target_uid, skill_id: or_zero(step.act_id) })
        }
    }
}

/// Tests whether the caster of a recorded cast is alive on the field.
pub fn check_caster(fight: &Fight, uid: i64) -> (r: bool)
    ensures
        r == caster_stands(fight@, uid),
{
    match &fight.defender {
        Some(t) => match find_in(&t.entitys, uid) {
            Some(e) => alive(e),
            None => false,
        },
        None => false,
    }
}

/// Decides the cast that a recorded step asks for. `drawn` is the player that is
/// aimed at where the step names no target.
pub fn plan_replay_cast(fight: &Fight, step: &FightStep, drawn: Option<i64>) -> (r: Option<Cast>)
    ensures
        r == replay_cast(fight@, step@, drawn),
{
    let caster_uid = value64(step.from_id);
    let skill_id = value(step.act_id);
    if caster_uid >= 0 || skill_id == 0 {
        return None;
    }
    if !check_caster(fight, caster_uid) {
        return None;
    }
    let to = value64(step.to_id);
    let target_uid: i64 = if to == 0 {
        match drawn {
            Some(uid) => uid,
            None => {
                return None;
            },
        }
    } else {
        to
    };
    if target_uid > 0 && find_entity(fight, target_uid).is_none() {
        return None;
    }
    Some(Cast { caster_uid, target_uid, skill_id })
}

/// Draws a player to be aimed at; nobody where there is none, and then nothing is
/// drawn.
pub fn draw_player(players: &Vec<i64>, rng: &mut StdRng) -> (r: Option<i64>)
    ensures
        r is Some <==> players@.len() > 0,
        r is Some ==> players@.contains(r->0),
        r is None ==> *final(rng) == *old(rng),
{
    if players.len() == 0 {
        return None;
    }
    let i = draw_index(rng, players.len());
    assert(players@[i as int] == players@[i as int]);
    Some(players[i])
}

/// Whether a recorded step leaves its target to chance: a cast of an enemy that
/// stands, without a target.
pub open spec fn aims_at_chance(f: FightView, step: StepView) -> bool {
    is_enemy_cast(step) && caster_stands(f, or_zero64(step.from_id)) && or_zero64(step.to_id) == 0
}

/// Decides the cast that a recorded step asks for. A step that names no target is
/// aimed at a player that is drawn. A player is drawn only where it is needed; the
/// generator is left alone otherwise.
pub fn draw_replay_cast(
    fight: &Fight,
    step: &FightStep,
    players: &Vec<i64>,
    rng: &mut StdRng,
) -> (r: Option<Cast>)
    ensures
        !aims_at_chance(fight@, step@) || players@.len() == 0 ==> {
            &&& r == replay_cast(fight@, step@, None)
            &&& *final(rng) == *old(rng)
        },
        aims_at_chance(fight@, step@) && players@.len() > 0 ==> exists|uid: i64|
            players@.contains(uid) && r == #[trigger] replay_cast(fight@, step@, Some(uid)),
{
    let caster_uid = value64(step.from_id);
    let needed: bool = caster_uid < 0 && value(step.act_id) != 0 && check_caster(
        fight,
        caster_uid,
    ) && value64(step.to_id) == 0;
    let drawn: Option<i64> = if needed {
        draw_player(players, rng)
    } else {
        None
    };
    let r = plan_replay_cast(fight, step, drawn);
    proof {
        if needed && players@.len() > 0 {
            assert(players@.contains(drawn->0));
            assert(r == replay_cast(fight@, step@, Some(drawn->0)));
        }
    }
    r
}

/// Whether an effect is a hit whose target a replay keeps.
pub open spec fn is_kept_hit(e: EffectView) -> bool {
    &&& (e.effect_type == Some(EffectType::Damage) || e.effect_type == Some(EffectType::Crit)
        || e.effect_type == Some(EffectType::DamageExtra))
    &&& e.target_id is Some
    &&& e.target_id->0 > 0
}

/// The targets of the recorded hits on players, each once, in their order.
pub open spec fn hit_targets(s: Seq<EffectView>) -> Seq<i64>
    decreases s.len(),
{
    if s.len() == 0 {
        Seq::empty()
    } else {
        let before = hit_targets(s.drop_last());
        let e = s.last();
        if is_kept_hit(e) && !before.contains(e.target_id->0) {
            before.push(e.target_id->0)
        } else {
            before
        }
    }
}

fn lists(v: &Vec<i64>, uid: i64) -> (r: bool)
    ensures
        r == v@.contains(uid),
{
    for i in 0..v.len()
        invariant
            forall|k: int| 0 <= k < i ==> v@[k] != uid,
    {
        if v[i] == uid {
            return true;
        }
    }
    false
}

/// Lists the targets of the recorded hits on players.
pub fn replay_primary_damage_targets(effects: &Vec<ActEffect>) -> (r: Vec<i64>)
    ensures
        r@ == hit_targets(effects_view(effects@)),
{
    let ghost s = effects_view(effects@);
    let mut out: Vec<i64> = Vec::new();
    assert(s.take(0).len() == 0);
    for i in 0..effects.len()
        invariant
            s == effects_view(effects@),
            out@ == hit_targets(s.take(i as int)),
    {
        assert(s.take(i + 1).drop_last() =~= s.take(i as int));
        assert(s.take(i + 1).last() == effects@[i as int]@);
        if let Some(kind) = effects[i].effect_type {
            if kind == EffectType::Damage || kind == EffectType::Crit || kind
                == EffectType::DamageExtra {
                if let Some(uid) = effects[i].target_id {
                    if uid > 0 && !lists(&out, uid) {
                        out.push(uid);
                    }
                }
            }
        }
    }
    assert(s.take(s.len() as int) =~= s);
    out
}

/// No target is listed twice.
pub proof fn hit_targets_once(s: Seq<EffectView>)
    ensures
        hit_targets(s).no_duplicates(),
    decreases s.len(),
{
    if s.len() > 0 {
        hit_targets_once(s.drop_last());
    }
}

/// Whether an effect wraps the skill that it is the result of.
pub open spec fn is_root_wrapper(e: EffectView, caster_uid: i64, skill_id: i32) -> bool {
    &&& e.effect_type == Some(EffectType::FightStep)
    &&& e.fight_step is Some
    &&& e.fight_step->0.act_type == Some(ActType::Skill)
    &&& e.fight_step->0.act_id == Some(skill_id)
    &&& (e.fight_step->0.from_id == Some(caster_uid) || e.fight_step->0.from_id == Some(0i64))
}

/// The effects of a skill as its step carries them: a wrapper of the skill itself
/// at the start is opened up; any other first effect keeps no step of its own.
pub open spec fn normalized(s: Seq<EffectView>, caster_uid: i64, skill_id: i32) -> Seq<EffectView> {
    if s.len() == 0 {
        s
    } else if is_root_wrapper(s[0], caster_uid, skill_id) {
        s[0].fight_step->0.act_effect + s.skip(1)
    } else {
        seq![EffectView { fight_step: None, ..s[0] }] + s.skip(1)
    }
}

/// Brings the effects of a skill into the shape that its step carries.
pub fn normalize_skill_effects_for_operation(
    effects: Vec<ActEffect>,
    caster_uid: i64,
    skill_id: i32,
) -> (r: Vec<ActEffect>)
    ensures
        effects_view(r@) == normalized(effects_view(effects@), caster_uid, skill_id),
{
    let ghost s = effects_view(effects@);
    if effects.len() == 0 {
        return effects;
    }
    assert(s[0] == effects@[0]@);
    let mut effects = effects;
    let ghost whole = effects@;
    let mut first = effects.remove(0);
    assert(effects@ =~= whole.subrange(1, whole.len() as int));
    assert(effects_view(effects@) =~= s.skip(1));
    let kind = first.effect_type;
    let step = first.fight_step.take();
    let inline_root: bool = match (&step, kind) {
        (Some(x), Some(k)) => k == EffectType::FightStep && match (x.act_type, x.act_id, x.from_id) {
            (Some(t), Some(id), Some(from)) => t == ActType::Skill && id == skill_id && (from
                == caster_uid || from == 0),
            _ => false,
        },
        _ => false,
    };
    let mut out: Vec<ActEffect> = Vec::new();
    if inline_root {
        if let Some(x) = step {
            out = x.act_effect;
        }
    } else {
        out.push(first);
    }
    let ghost head = effects_view(out@);
    assert(!inline_root ==> head =~= seq![EffectView { fight_step: None, ..s[0] }]);
    out.append(&mut effects);
    out
}

/// What the gains of ex points of a cast are measured against.
pub struct ExLimits {
    pub fight: FightView,
    pub buffs: BuffMgr,
    pub rows: Seq<OverflowRow>,
    pub caster_uid: i64,
    /// Whether the caster gains an ex point for the cast itself.
    pub caster_gains: bool,
}

/// The ex points that a fighter will have before the gain.
pub open spec fn expected_ex(l: ExLimits, uid: i64, e: EntityView) -> int {
    or_zero(e.ex_point) + if uid == l.caster_uid && l.caster_gains {
        1int
    } else {
        0
    }
}

/// The ex points that a fighter still has room for.
pub open spec fn ex_room(l: ExLimits, uid: i64, e: EntityView) -> int {
    at_least_zero(
        base_ex_max(e) + overflow_of(l.buffs.of(uid), l.rows) - expected_ex(l, uid, e),
    )
}

/// Whether an effect is a gain of ex points that is held to the maximum.
pub open spec fn is_limited_gain(l: ExLimits, e: EffectView) -> bool {
    &&& e.fight_step is None
    &&& (kind_of(e) == EffectType::AddExPoint || kind_of(e) == EffectType::ExPointChange)
    &&& e.config_effect == Some(20002i32)
    &&& e.target_id is Some
    &&& or_zero(e.effect_num) > 0
    &&& entity_of(l.fight, e.target_id->0) is Some
    &&& base_ex_max(entity_of(l.fight, e.target_id->0)->0) > 0
}

/// An effect with its gain of ex points held to the maximum, nested steps included.
pub open spec fn limited(l: ExLimits, e: EffectView) -> EffectView
    decreases e,
{
    match e.fight_step {
        Some(step) => EffectView {
            fight_step: Some(StepView { act_effect: limited_all(l, step.act_effect), ..step }),
            ..e
        },
        None => if is_limited_gain(l, e) {
            let uid = e.target_id->0;
            let room = ex_room(l, uid, entity_of(l.fight, uid)->0);
            EffectView {
                effect_num: Some(
                    if e.effect_num->0 <= room {
                        e.effect_num->0
                    } else {
                        room as i32
                    },
                ),
                ..e
            }
        } else {
            e
        },
    }
}

/// Some effects with their gains of ex points held to the maximum.
pub open spec fn limited_all(l: ExLimits, s: Seq<EffectView>) -> Seq<EffectView>
    decreases s,
{
    Seq::new(
        s.len(),
        |i: int|
            if 0 <= i < s.len() {
                limited(l, s[i])
            } else {
                arbitrary()
            },
    )
}

/// The ex points of everyone can be counted.
pub open spec fn ex_counts(l: ExLimits) -> bool {
    forall|uid: i64|
        #![trigger entity_of(l.fight, uid)]
        entity_of(l.fight, uid) is Some ==> ({
            let e = entity_of(l.fight, uid)->0;
            &&& fits(expected_ex(l, uid, e))
            &&& fits(base_ex_max(e) + overflow_of(l.buffs.of(uid), l.rows))
            &&& fits(
                base_ex_max(e) + overflow_of(l.buffs.of(uid), l.rows) - expected_ex(l, uid, e),
            )
        })
}

/// The most ex points of a fighter before any bonus.
pub fn find_base_ex_max(e: &FightEntityInfo) -> (r: i32)
    ensures
        r == base_ex_max(e@),
{
    match value(e.ex_point_type) {
        0 => 5,
        1 => 8,
        _ => 0,
    }
}

/// What the gains of ex points of a cast are measured against.
#[derive(Debug)]
pub struct CastLimits {
    pub buffs: BuffMgr,
    pub rows: Vec<OverflowRow>,
    pub caster_uid: i64,
    pub caster_gains: bool,
}

impl CastLimits {
    /// The limits in a battle.
    pub open spec fn in_fight(self, f: FightView) -> ExLimits {
        ExLimits {
            fight: f,
            buffs: self.buffs,
            rows: self.rows@,
            caster_uid: self.caster_uid,
            caster_gains: self.caster_gains,
        }
    }
}

fn limit_effect(fight: &Fight, limits: &CastLimits, e: &ActEffect) -> (r: ActEffect)
    requires
        ex_counts(limits.in_fight(fight@)),
    ensures
        effect_view(r) == limited(limits.in_fight(fight@), effect_view(*e)),
    decreases e,
{
    let ghost l = limits.in_fight(fight@);
    let mut next = copy_effect(e);
    match &e.fight_step {
        Some(step) => {
            let mut inner = step.clone();
            inner.act_effect = clamp_ai_add_ex_with_max_effects(fight, limits, &step.act_effect);
            next.fight_step = Some(inner);
            next
        },
        None => {
            let kind = read_kind(e);
            if kind != EffectType::AddExPoint && kind != EffectType::ExPointChange {
                return next;
            }
            let by_behaviour: bool = match e.config_effect {
                Some(c) => c == 20002,
                None => false,
            };
            let raw = value(e.effect_num);
            if !by_behaviour || raw <= 0 {
                return next;
            }
            if let Some(uid) = e.target_id {
                if let Some(entity) = find_entity(fight, uid) {
                    assert(entity_of(l.fight, uid) == Some(entity@));
                    let base = find_base_ex_max(entity);
                    if base > 0 {
                        let overflow = find_overflow(&limits.buffs, &limits.rows, uid);
                        let pending: i32 = if uid == limits.caster_uid && limits.caster_gains {
                            1
                        } else {
                            0
                        };
                        let current: i32 = value(entity.ex_point) + pending;
                        let room: i32 = base + overflow - current;
                        let room: i32 = if room > 0 {
                            room
                        } else {
                            0
                        };
                        next.effect_num = Some(
                            if raw <= room {
                                raw
                            } else {
                                room
                            },
                        );
                    }
                }
            }
            next
        },
    }
}

/// Holds the gains of ex points of a cast to the maximum of each fighter, nested
/// steps included.
pub fn clamp_ai_add_ex_with_max_effects(
    fight: &Fight,
    limits: &CastLimits,
    effects: &Vec<ActEffect>,
) -> (r: Vec<ActEffect>)
    requires
        ex_counts(limits.in_fight(fight@)),
    ensures
        effects_view(r@) == limited_all(limits.in_fight(fight@), effects_view(effects@)),
    decreases effects,
{
    let mut out: Vec<ActEffect> = Vec::new();
    let ghost l = limits.in_fight(fight@);
    for i in 0..effects.len()
        invariant
            l == limits.in_fight(fight@),
            ex_counts(l),
            out@.len() == i,
            forall|k: int|
                0 <= k < i ==> effect_view(#[trigger] out@[k]) == limited(
                    l,
                    effect_view(effects@[k]),
                ),
    {
        assert(decreases_to!(effects => effects@[i as int]));
        out.push(limit_effect(fight, limits, &effects[i]));
    }
    assert(effects_view(out@) =~= limited_all(l, effects_view(effects@)));
    out
}

/// Holding a gain to the maximum never raises it, and never makes it a loss.
pub proof fn limit_never_raises(l: ExLimits, e: EffectView)
    requires
        e.fight_step is None,
        is_limited_gain(l, e),
        ex_room(l, e.target_id->0, entity_of(l.fight, e.target_id->0)->0) <= i32::MAX,
    ensures
        0 <= limited(l, e).effect_num->0 <= e.effect_num->0,
{
}

/// The ex points of a fighter after a previewed change.
pub open spec fn previewed_ex(e: EntityView, delta: int, overflow: i32) -> int {
    let sum = or_zero(e.ex_point) + delta;
    if sum < 0 {
        0
    } else if base_ex_max(e) > 0 && sum > base_ex_max(e) + overflow {
        base_ex_max(e) + overflow
    } else {
        sum
    }
}

/// A battle and its trackers in a preview.
pub struct Preview {
    pub fight: FightView,
    pub trackers: EntityMgrView,
}

/// The preview after a change of ex points; nothing changes for one who is not
/// there.
pub open spec fn preview_delta(
    p: Preview,
    uid: i64,
    delta: int,
    buffs: BuffMgr,
    rows: Seq<OverflowRow>,
) -> Preview {
    match entity_of(p.fight, uid) {
        Some(e) => {
            let new = previewed_ex(e, delta, overflow_of(buffs.of(uid), rows)) as i32;
            Preview {
                fight: replaced(p.fight, uid, EntityView { ex_point: Some(new), ..e }),
                trackers: EntityMgrView {
                    ex_points: p.trackers.ex_points.insert(
                        uid,
                        at_least_zero(new as int) as i32,
                    ),
                    ..p.trackers
                },
            }
        },
        None => p,
    }
}

/// The change of ex points that an effect makes; none for any other effect.
pub open spec fn ex_delta(e: EffectView) -> Option<(i64, int)> {
    match e.target_id {
        Some(uid) => if kind_of(e) == EffectType::AddExPoint || kind_of(e)
            == EffectType::ExPointChange {
            Some((uid, or_zero(e.effect_num) as int))
        } else if kind_of(e) == EffectType::ExPointDel {
            Some((uid, -at_least_zero(or_zero(e.effect_num) as int)))
        } else {
            None
        },
        None => None,
    }
}

/// The preview after some effects without a step.
pub open spec fn preview_effects(
    p: Preview,
    s: Seq<EffectView>,
    buffs: BuffMgr,
    rows: Seq<OverflowRow>,
) -> Preview
    decreases s.len(),
{
    if s.len() == 0 {
        p
    } else {
        let before = preview_effects(p, s.drop_last(), buffs, rows);
        match ex_delta(s.last()) {
            Some((uid, delta)) => preview_delta(before, uid, delta, buffs, rows),
            None => before,
        }
    }
}

/// A previewed change of ex points can be counted, and its bounds are in order.
pub open spec fn delta_counts(
    p: Preview,
    uid: i64,
    delta: int,
    buffs: BuffMgr,
    rows: Seq<OverflowRow>,
) -> bool {
    entity_of(p.fight, uid) is Some ==> ({
        let e = entity_of(p.fight, uid)->0;
        let most = base_ex_max(e) + overflow_of(buffs.of(uid), rows);
        &&& fits(or_zero(e.ex_point) + delta)
        &&& base_ex_max(e) > 0 ==> 0 <= most <= i32::MAX
    })
}

/// Every previewed change of some effects can be counted.
pub open spec fn effects_count(
    p: Preview,
    s: Seq<EffectView>,
    buffs: BuffMgr,
    rows: Seq<OverflowRow>,
) -> bool {
    forall|i: int|
        0 <= i < s.len() ==> (ex_delta(#[trigger] s[i]) matches Some((uid, delta))
            ==> delta_counts(preview_effects(p, s.take(i), buffs, rows), uid, delta, buffs, rows))
}

/// Previews a change of ex points.
pub fn apply_preview_ex_delta(
    fight: &mut Fight,
    trackers: &mut EntityMgr,
    target_id: i64,
    delta: i32,
    buffs: &BuffMgr,
    rows: &Vec<OverflowRow>,
)
    requires
        delta_counts(
            Preview { fight: old(fight)@, trackers: old(trackers)@ },
            target_id,
            delta as int,
            *buffs,
            rows@,
        ),
    ensures
        ({
            let p = preview_delta(
                Preview { fight: old(fight)@, trackers: old(trackers)@ },
                target_id,
                delta as int,
                *buffs,
                rows@,
            );
            final(fight)@ == p.fight && final(trackers)@ == p.trackers
        }),
{
    let place = match find_place(fight, target_id) {
        Some(p) => p,
        None => {
            return;
        },
    };
    let new: i32 = match find_entity(fight, target_id) {
        Some(e) => {
            let base = find_base_ex_max(e);
            let sum: i32 = value(e.ex_point) + delta;
            if sum < 0 {
                0
            } else if base > 0 {
                let most: i32 = base + find_overflow(buffs, rows, target_id);
                if sum > most {
                    most
                } else {
                    sum
                }
            } else {
                sum
            }
        },
        None => 0,
    };
    set_ex_point_at(fight, place, new);
    trackers.set_ex_point(target_id, new);
}

/// Previews the changes of ex points that some effects make, nested steps included.
pub fn apply_preview_ex_effects(
    fight: &mut Fight,
    trackers: &mut EntityMgr,
    effects: &Vec<ActEffect>,
    buffs: &BuffMgr,
    rows: &Vec<OverflowRow>,
)
    requires
        effects_count(
            Preview { fight: old(fight)@, trackers: old(trackers)@ },
            leaves(effects_view(effects@)),
            *buffs,
            rows@,
        ),
    ensures
        ({
            let p = preview_effects(
                Preview { fight: old(fight)@, trackers: old(trackers)@ },
                leaves(effects_view(effects@)),
                *buffs,
                rows@,
            );
            final(fight)@ == p.fight && final(trackers)@ == p.trackers
        }),
{
    let mut list: Vec<ActEffect> = Vec::new();
    push_leaves(&mut list, effects);
    let ghost s = leaves(effects_view(effects@));
    assert(effects_view(list@) =~= s);
    let ghost start = Preview { fight: fight@, trackers: trackers@ };
    assert(s.take(0).len() == 0);
    for i in 0..list.len()
        invariant
            s == effects_view(list@),
            effects_count(start, s, *buffs, rows@),
            (Preview { fight: fight@, trackers: trackers@ }) == preview_effects(
                start,
                s.take(i as int),
                *buffs,
                rows@,
            ),
    {
        assert(s.take(i + 1).drop_last() =~= s.take(i as int));
        assert(s.take(i + 1).last() == list@[i as int]@);
        assert(s[i as int] == list@[i as int]@);
        let kind = read_kind(&list[i]);
        if let Some(uid) = list[i].target_id {
            let num = value(list[i].effect_num);
            if kind == EffectType::AddExPoint || kind == EffectType::ExPointChange {
                apply_preview_ex_delta(fight, trackers, uid, num, buffs, rows);
            } else if kind == EffectType::ExPointDel {
                let loss: i32 = if num > 0 {
                    -num
                } else {
                    0
                };
                apply_preview_ex_delta(fight, trackers, uid, loss, buffs, rows);
            }
        }
    }
    assert(s.take(s.len() as int) =~= s);
}

/// The preview after a cast: the point for the cast itself, then what it did.
pub open spec fn after_cast(
    p: Preview,
    caster_uid: i64,
    gains: bool,
    effects: Seq<EffectView>,
    buffs: BuffMgr,
    rows: Seq<OverflowRow>,
) -> Preview {
    let paid = if gains {
        preview_delta(p, caster_uid, 1, buffs, rows)
    } else {
        p
    };
    preview_effects(paid, leaves(effects), buffs, rows)
}

/// Previews a cast: its caster may gain an ex point for it, and then its effects
/// change ex points.
pub fn advance_ai_preview_after_cast(
    fight: &mut Fight,
    trackers: &mut EntityMgr,
    caster_uid: i64,
    gains: bool,
    step: &FightStep,
    buffs: &BuffMgr,
    rows: &Vec<OverflowRow>,
)
    requires
        ({
            let p = Preview { fight: old(fight)@, trackers: old(trackers)@ };
            let paid = if gains {
                preview_delta(p, caster_uid, 1, *buffs, rows@)
            } else {
                p
            };
            &&& gains ==> delta_counts(p, caster_uid, 1, *buffs, rows@)
            &&& effects_count(paid, leaves(step@.act_effect), *buffs, rows@)
        }),
    ensures
        ({
            let p = after_cast(
                Preview { fight: old(fight)@, trackers: old(trackers)@ },
                caster_uid,
                gains,
                step@.act_effect,
                *buffs,
                rows@,
            );
            final(fight)@ == p.fight && final(trackers)@ == p.trackers
        }),
{
    if gains {
        apply_preview_ex_delta(fight, trackers, caster_uid, 1, buffs, rows);
    }
    apply_preview_ex_effects(fight, trackers, &step.act_effect, buffs, rows);
}

/// The step of a cast; none where the cast did nothing.
pub fn cast_step(cast: Cast, effects: Vec<ActEffect>) -> (r: Option<FightStep>)
    ensures
        r is Some <==> effects@.len() > 0,
        r is Some ==> r->0@ == skill_step(
            cast.caster_uid,
            cast.target_uid,
            cast.skill_id,
            0,
            effects_view(effects@),
        ),
{
    if effects.len() == 0 {
        return None;
    }
    Some(make_skill_step(cast.caster_uid, cast.target_uid, cast.skill_id, 0, effects))
}

/// Whether a skill is the ex skill of a defender.
pub open spec fn is_ex_skill(f: FightView, uid: i64, skill_id: i32) -> bool {
    match first_with_uid(members(f.defender), uid) {
        Some(e) => e.ex_skill == Some(skill_id),
        None => false,
    }
}

/// Tests whether a skill is the ex skill of a defender, after which its ex points
/// are spent.
pub fn uses_ex_skill(fight: &Fight, caster_uid: i64, skill_id: i32) -> (r: bool)
    ensures
        r == is_ex_skill(fight@, caster_uid, skill_id),
{
    match find_in_team(&fight.defender, caster_uid) {
        Some(e) => match e.ex_skill {
            Some(id) => id == skill_id,
            None => false,
        },
        None => false,
    }
}

/// A battle in which the ex points of a defender are spent; the field is looked at
/// before the reserve.
pub open spec fn ex_spent(f: FightView, uid: i64) -> FightView {
    let field = list_at(f, false, false);
    let reserve = list_at(f, false, true);
    if position_in(field, uid) is Some {
        let i = position_in(field, uid)->0 as int;
        with_list(f, false, false, field.update(i, EntityView { ex_point: Some(0), ..field[i] }))
    } else if position_in(reserve, uid) is Some {
        let i = position_in(reserve, uid)->0 as int;
        with_list(
            f,
            false,
            true,
            reserve.update(i, EntityView { ex_point: Some(0), ..reserve[i] }),
        )
    } else {
        f
    }
}

/// Spends the ex points of a defender that used its ex skill.
pub fn spend_ex_points(fight: &mut Fight, trackers: &mut EntityMgr, uid: i64)
    ensures
        final(fight)@ == ex_spent(old(fight)@, uid),
        final(trackers)@ == (EntityMgrView {
            ex_points: old(trackers)@.ex_points.insert(uid, 0),
            ..old(trackers)@
        }),
{
    trackers.set_ex_point(uid, 0);
    let place: Option<Place> = match &fight.defender {
        Some(t) => match find_position(&t.entitys, uid) {
            Some(i) => Some(Place { is_attacker: false, in_reserve: false, index: i }),
            None => match find_position(&t.sub_entitys, uid) {
                Some(i) => Some(Place { is_attacker: false, in_reserve: true, index: i }),
                None => None,
            },
        },
        None => None,
    };
    if let Some(p) = place {
        set_ex_point_at(fight, p, 0);
    }
}

} // verus!
