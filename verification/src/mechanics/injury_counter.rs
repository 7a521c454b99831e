//! Injuries of a round: how many hits each team took, who fell, and the markers
//! that show the count.

use crate::arith::{or_zero, sat_i32, saturating_difference, saturating_sum, value};
use crate::fight_step::builder::{effect_container_step, wrap_step, ActEffectBuilder};
use crate::lookup::{entity_of, find_entity};
use crate::manager::entity_mgr::{entry, read_entry};
use crate::model::lists::group_effects_view;
use crate::model::{
    effects_view, ActEffect, ActType, EffectType, EffectView, Fight, FightStep, FightView, StepView,
};
use std::collections::{HashMap, HashSet};
use vstd::prelude::*;

verus! {

broadcast use {group_effects_view, vstd::std_specs::hash::group_hash_axioms};

/// Whether an effect of a kind is a hit.
pub open spec fn is_damage(kind: EffectType) -> bool {
    ||| kind == EffectType::Damage
    ||| kind == EffectType::Crit
    ||| kind == EffectType::DamageExtra
    ||| kind == EffectType::OriginDamage
    ||| kind == EffectType::OriginCrit
    ||| kind == EffectType::DamageFromAbsorb
    ||| kind == EffectType::DamageFromLostHp
    ||| kind == EffectType::EnchantBurnDamage
    ||| kind == EffectType::DamageShareHp
    ||| kind == EffectType::DeadlyPoisonOriginDamage
    ||| kind == EffectType::DeadlyPoisonOriginCrit
    ||| kind == EffectType::AdditionalDamage
    ||| kind == EffectType::AdditionalDamageCrit
    ||| kind == EffectType::ShareHurt
    ||| kind == EffectType::EnchantDepresseDamage
}

/// Tests whether an effect of a kind is a hit.
pub fn is_damage_effect_type(kind: EffectType) -> (r: bool)
    ensures
        r == is_damage(kind),
{
    match kind {
        EffectType::Damage => true,
        EffectType::Crit => true,
        EffectType::DamageExtra => true,
        EffectType::OriginDamage => true,
        EffectType::OriginCrit => true,
        EffectType::DamageFromAbsorb => true,
        EffectType::DamageFromLostHp => true,
        EffectType::EnchantBurnDamage => true,
        EffectType::DamageShareHp => true,
        EffectType::DeadlyPoisonOriginDamage => true,
        EffectType::DeadlyPoisonOriginCrit => true,
        EffectType::AdditionalDamage => true,
        EffectType::AdditionalDamageCrit => true,
        EffectType::ShareHurt => true,
        EffectType::EnchantDepresseDamage => true,
        _ => false,
    }
}

/// The kind of an effect; one that names none does nothing.
pub open spec fn kind_of(e: EffectView) -> EffectType {
    match e.effect_type {
        Some(k) => k,
        None => EffectType::NoEffect,
    }
}

/// Reads the kind of an effect.
pub fn read_kind(e: &ActEffect) -> (r: EffectType)
    ensures
        r == kind_of(e@),
{
    match e.effect_type {
        Some(k) => k,
        None => EffectType::NoEffect,
    }
}

/// Whether an effect of a list hits a fighter itself, not inside a nested step.
pub open spec fn hit_directly(s: Seq<EffectView>, uid: i64) -> bool {
    exists|i: int|
        0 <= i < s.len() && (#[trigger] s[i]).fight_step is None && is_damage(kind_of(s[i]))
            && s[i].target_id == Some(uid)
}

fn is_hit_directly(v: &Vec<ActEffect>, uid: i64) -> (r: bool)
    ensures
        r == hit_directly(effects_view(v@), uid),
{
    let ghost s = effects_view(v@);
    for i in 0..v.len()
        invariant
            s == effects_view(v@),
            forall|k: int|
                0 <= k < i ==> !((#[trigger] s[k]).fight_step is None && is_damage(kind_of(s[k]))
                    && s[k].target_id == Some(uid)),
    {
        assert(s[i as int] == v@[i as int]@);
        if v[i].fight_step.is_none() && is_damage_effect_type(read_kind(&v[i])) {
            if let Some(t) = v[i].target_id {
                if t == uid {
                    return true;
                }
            }
        }
    }
    false
}

/// The team of a fighter.
pub open spec fn team_of(f: FightView, uid: i64) -> Option<i32> {
    match entity_of(f, uid) {
        Some(e) => e.team_type,
        None => None,
    }
}

/// Looks up the team of a fighter.
pub fn find_team(fight: &Fight, uid: i64) -> (r: Option<i32>)
    ensures
        r == team_of(fight@, uid),
{
    match find_entity(fight, uid) {
        Some(e) => e.team_type,
        None => None,
    }
}

/// Whether an effect of a list, itself no nested step, costs a member of a team
/// life. A plain change of life counts only where the list does not also hit the
/// fighter.
pub open spec fn injures(f: FightView, s: Seq<EffectView>, e: EffectView, team: i32) -> bool {
    &&& e.target_id is Some
    &&& team_of(f, e.target_id->0) == Some(team)
    &&& (is_damage(kind_of(e)) || (!hit_directly(s, e.target_id->0) && kind_of(e)
        == EffectType::CurrentHpChange) || kind_of(e) == EffectType::AverageLife)
}

/// How many injuries of a team the first effects of a list hold, nested steps
/// included.
pub open spec fn injuries_upto(f: FightView, s: Seq<EffectView>, n: nat, team: i32) -> nat
    decreases s, n,
{
    if n == 0 || n > s.len() {
        0
    } else {
        injuries_upto(f, s, (n - 1) as nat, team) + match s[n - 1].fight_step {
            Some(step) => injuries(f, step.act_effect, team),
            None => if injures(f, s, s[n - 1], team) {
                1
            } else {
                0
            },
        }
    }
}

/// How many injuries of a team a list of effects holds, nested steps included.
pub open spec fn injuries(f: FightView, s: Seq<EffectView>, team: i32) -> nat
    decreases s, s.len() + 1,
{
    injuries_upto(f, s, s.len(), team)
}

/// The first effects hold no more injuries than all of them.
pub proof fn injuries_upto_grows(f: FightView, s: Seq<EffectView>, n: nat, m: nat, team: i32)
    requires
        n <= m <= s.len(),
    ensures
        injuries_upto(f, s, n, team) <= injuries_upto(f, s, m, team),
    decreases m,
{
    if n < m {
        injuries_upto_grows(f, s, n, (m - 1) as nat, team);
    }
}

/// The team that an effect injures, if any.
fn injured_team(fight: &Fight, v: &Vec<ActEffect>, i: usize) -> (r: Option<i32>)
    requires
        i < v@.len(),
    ensures
        forall|team: i32|
            #[trigger] injures(fight@, effects_view(v@), v@[i as int]@, team) <==> r == Some(team),
{
    let e = &v[i];
    match e.target_id {
        Some(uid) => {
            let kind = read_kind(e);
            let counts: bool = is_damage_effect_type(kind) || (kind == EffectType::CurrentHpChange
                && !is_hit_directly(v, uid)) || kind == EffectType::AverageLife;
            if counts {
                find_team(fight, uid)
            } else {
                None
            }
        },
        None => None,
    }
}

/// Counts the injuries of a team in a list of effects, nested steps included.
pub fn count_team_injury_effects_in_effects(
    fight: &Fight,
    effects: &Vec<ActEffect>,
    team_type: i32,
) -> (r: i32)
    requires
        injuries(fight@, effects_view(effects@), team_type) <= i32::MAX,
    ensures
        r == injuries(fight@, effects_view(effects@), team_type),
    decreases effects,
{
    let ghost s = effects_view(effects@);
    let mut count: i32 = 0;
    for i in 0..effects.len()
        invariant
            s == effects_view(effects@),
            injuries_upto(fight@, s, s.len(), team_type) <= i32::MAX,
            count == injuries_upto(fight@, s, i as nat, team_type),
    {
        proof {
            injuries_upto_grows(fight@, s, (i + 1) as nat, s.len(), team_type);
            assert(s[i as int] == effects@[i as int]@);
        }
        match &effects[i].fight_step {
            Some(step) => {
                assert(decreases_to!(effects => effects@[i as int]));
                count = count + count_team_injury_effects_in_effects(
                    fight,
                    &step.act_effect,
                    team_type,
                );
            },
            None => {
                assert(injures(fight@, s, s[i as int], team_type) <==> injures(
                    fight@,
                    effects_view(effects@),
                    effects@[i as int]@,
                    team_type,
                ));
                if let Some(t) = injured_team(fight, effects, i) {
                    if t == team_type {
                        count = count + 1;
                    }
                }
            },
        }
    }
    count
}

/// Counts the injuries of each team in each battle, round by round.
#[derive(Debug)]
pub struct InjuryCounter {
    counts: HashMap<i64, i32>,
    rounds: HashMap<i64, i32>,
}

/// One key for a battle and a team.
pub open spec fn packed(battle_id: i32, team_type: i32) -> int {
    battle_id * 0x1_0000_0000 + team_type
}

fn pack(battle_id: i32, team_type: i32) -> (r: i64)
    requires
        team_type > 0,
    ensures
        r == packed(battle_id, team_type),
{
    (battle_id as i64) * 0x1_0000_0000 + team_type as i64
}

/// Whether a battle and a team are counted at all.
pub open spec fn counted(battle_id: i32, team_type: i32) -> bool {
    battle_id != 0 && team_type > 0
}

impl InjuryCounter {
    /// The injuries of a team in the current round.
    pub closed spec fn count(self, battle_id: i32, team_type: i32) -> i32 {
        if team_type > 0 {
            entry(self.counts@, packed(battle_id, team_type) as i64)
        } else {
            0
        }
    }

    /// The round that the injuries of a team are counted for.
    pub closed spec fn round(self, battle_id: i32, team_type: i32) -> Option<i32> {
        let key = packed(battle_id, team_type) as i64;
        if team_type > 0 && self.rounds@.contains_key(key) {
            Some(self.rounds@[key])
        } else {
            None
        }
    }

    /// Nothing counted yet.
    pub fn new() -> (r: InjuryCounter)
        ensures
            forall|b: i32, t: i32| #[trigger] r.count(b, t) == 0,
            forall|b: i32, t: i32| #[trigger] r.round(b, t) is None,
    {
        InjuryCounter { counts: HashMap::new(), rounds: HashMap::new() }
    }

    /// Counts one injury of a team.
    pub fn increment_round_injury_count(&mut self, battle_id: i32, team_type: i32)
        ensures
            forall|b: i32, t: i32|
                #[trigger] final(self).count(b, t) == (if counted(battle_id, team_type) && b
                    == battle_id && t == team_type {
                    sat_i32(old(self).count(b, t) + 1)
                } else {
                    old(self).count(b, t) as int
                }),
            forall|b: i32, t: i32| #[trigger] final(self).round(b, t) == old(self).round(b, t),
    {
        if battle_id == 0 || team_type <= 0 {
            return;
        }
        let key = pack(battle_id, team_type);
        let n = read_entry(&self.counts, key);
        self.counts.insert(key, saturating_sum(n, 1));
    }

    /// The injuries of a team in the current round.
    pub fn get_round_injury_count(&self, battle_id: i32, team_type: i32) -> (r: i32)
        ensures
            r == self.count(battle_id, team_type),
    {
        if team_type > 0 {
            read_entry(&self.counts, pack(battle_id, team_type))
        } else {
            0
        }
    }

    /// Starts to count for a round. The count starts again from zero unless it is
    /// already for that round.
    pub fn sync_round_injury_index(&mut self, battle_id: i32, team_type: i32, round_index: i32)
        ensures
            forall|b: i32, t: i32|
                #[trigger] final(self).count(b, t) == (if counted(battle_id, team_type) && b
                    == battle_id && t == team_type && old(self).round(b, t) != Some(round_index) {
                    0
                } else {
                    old(self).count(b, t)
                }),
            forall|b: i32, t: i32|
                #[trigger] final(self).round(b, t) == (if counted(battle_id, team_type) && b
                    == battle_id && t == team_type {
                    Some(round_index)
                } else {
                    old(self).round(b, t)
                }),
    {
        if battle_id == 0 || team_type <= 0 {
            return;
        }
        let key = pack(battle_id, team_type);
        let same: bool = match self.rounds.get(&key) {
            Some(r) => *r == round_index,
            None => false,
        };
        if !same {
            self.counts.insert(key, 0);
            self.rounds.insert(key, round_index);
        }
    }

    fn track_effects(&mut self, fight: &Fight, battle_id: i32, effects: &Vec<ActEffect>)
        requires
            battle_id != 0,
        ensures
            forall|b: i32, t: i32|
                #[trigger] final(self).count(b, t) == (if counted(b, t) && b == battle_id {
                    sat_i32(old(self).count(b, t) + injuries(fight@, effects_view(effects@), t))
                } else {
                    old(self).count(b, t) as int
                }),
            forall|b: i32, t: i32| #[trigger] final(self).round(b, t) == old(self).round(b, t),
        decreases effects,
    {
        let ghost s = effects_view(effects@);
        let ghost start = *self;
        for i in 0..effects.len()
            invariant
                battle_id != 0,
                s == effects_view(effects@),
                forall|b: i32, t: i32|
                    #[trigger] self.count(b, t) == (if counted(b, t) && b == battle_id {
                        sat_i32(start.count(b, t) + injuries_upto(fight@, s, i as nat, t))
                    } else {
                        start.count(b, t) as int
                    }),
                forall|b: i32, t: i32| #[trigger] self.round(b, t) == start.round(b, t),
        {
            assert(s[i as int] == effects@[i as int]@);
            let ghost before = *self;
            match &effects[i].fight_step {
                Some(step) => {
                    assert(decreases_to!(effects => effects@[i as int]));
                    self.track_effects(fight, battle_id, &step.act_effect);
                },
                None => {
                    if let Some(t) = injured_team(fight, effects, i) {
                        self.increment_round_injury_count(battle_id, t);
                    }
                    assert forall|t: i32| injures(fight@, s, s[i as int], t) == injures(
                        fight@,
                        effects_view(effects@),
                        effects@[i as int]@,
                        t,
                    ) by {}
                },
            }
            assert forall|b: i32, t: i32|
                #[trigger] self.count(b, t) == (if counted(b, t) && b == battle_id {
                    sat_i32(start.count(b, t) + injuries_upto(fight@, s, (i + 1) as nat, t))
                } else {
                    start.count(b, t) as int
                }) by {
                assert(before.count(b, t) == before.count(b, t));
                assert(injures(fight@, effects_view(effects@), effects@[i as int]@, t) == injures(
                    fight@,
                    s,
                    s[i as int],
                    t,
                ));
            }
        }
    }

    /// Counts the injuries of every team in a step. A battle without an id is not
    /// counted.
    pub fn track_team_injury_count(&mut self, fight: &Fight, step: &FightStep)
        ensures
            forall|b: i32, t: i32|
                #[trigger] final(self).count(b, t) == (if counted(b, t) && fight@.battle_id
                    == Some(b) {
                    sat_i32(old(self).count(b, t) + injuries(fight@, step@.act_effect, t))
                } else {
                    old(self).count(b, t) as int
                }),
            forall|b: i32, t: i32| #[trigger] final(self).round(b, t) == old(self).round(b, t),
    {
        let battle_id = value(fight.battle_id);
        if battle_id == 0 {
            return;
        }
        self.track_effects(fight, battle_id, &step.act_effect);
    }
}

/// What is known of the fighters that some hits go to.
pub struct KillState {
    /// Life and shield of those hit so far.
    pub states: Map<i64, (i32, i32)>,
    /// Those that are dead.
    pub dead: Set<i64>,
    /// Those that the hits killed, in order.
    pub killed: Seq<i64>,
}

/// Life and shield after a hit; the shield takes what it can.
pub open spec fn after_hit(hp: i32, shield: i32, damage: i32) -> (i32, i32) {
    let absorbed = if damage <= shield {
        damage
    } else {
        shield
    };
    let through = sat_i32(damage - absorbed);
    (sat_i32(hp - through) as i32, sat_i32(shield - absorbed) as i32)
}

/// The damage of a hit; never negative.
pub open spec fn damage_of(e: EffectView) -> i32 {
    if or_zero(e.effect_num) > 0 {
        or_zero(e.effect_num)
    } else {
        0
    }
}

/// What is known after one more effect.
pub open spec fn after_effect(f: FightView, k: KillState, e: EffectView) -> KillState {
    if !is_damage(kind_of(e)) || e.target_id is None || e.target_id->0 == 0 || k.dead.contains(
        e.target_id->0,
    ) || entity_of(f, e.target_id->0) is None {
        k
    } else {
        let uid = e.target_id->0;
        let target = entity_of(f, uid)->0;
        if or_zero(target.current_hp) <= 0 {
            KillState { dead: k.dead.insert(uid), ..k }
        } else {
            let was = if k.states.contains_key(uid) {
                k.states[uid]
            } else {
                (or_zero(target.current_hp), or_zero(target.shield_value))
            };
            let now = after_hit(was.0, was.1, damage_of(e));
            if now.0 <= 0 {
                KillState {
                    states: k.states.insert(uid, now),
                    dead: k.dead.insert(uid),
                    killed: k.killed.push(uid),
                }
            } else {
                KillState { states: k.states.insert(uid, now), ..k }
            }
        }
    }
}

/// What is known after some effects.
pub open spec fn after_effects(f: FightView, k: KillState, s: Seq<EffectView>) -> KillState
    decreases s.len(),
{
    if s.len() == 0 {
        k
    } else {
        after_effect(f, after_effects(f, k, s.drop_last()), s.last())
    }
}

/// Those whose death some effects report.
pub open spec fn reported_dead(s: Seq<EffectView>) -> Set<i64>
    decreases s.len(),
{
    if s.len() == 0 {
        Set::empty()
    } else {
        let before = reported_dead(s.drop_last());
        if s.last().effect_type == Some(EffectType::Dead) && s.last().target_id is Some {
            before.insert(s.last().target_id->0)
        } else {
            before
        }
    }
}

/// Those whom some effects kill and whose death they do not report, in order.
pub open spec fn killed_by(f: FightView, s: Seq<EffectView>) -> Seq<i64> {
    after_effects(
        f,
        KillState { states: Map::empty(), dead: reported_dead(s), killed: Seq::empty() },
        s,
    ).killed
}

/// The effects that report some deaths: each death, then the removal of the cards.
pub open spec fn death_effects(uids: Seq<i64>) -> Seq<EffectView>
    decreases uids.len(),
{
    if uids.len() == 0 {
        Seq::empty()
    } else {
        death_effects(uids.drop_last()) + seq![
            EffectView::amount(EffectType::Dead, uids.last(), 0),
            EffectView::wrapper(
                StepView::container(
                    0,
                    0,
                    0,
                    seq![
                        EffectView {
                            team_type: Some(1),
                            ..EffectView::on(EffectType::RemoveEntityCards, uids.last())
                        },
                    ],
                ),
            ),
        ]
    }
}

/// Reports the deaths that some effects cause and do not report.
pub fn collect_dead_effects_after_damage(fight: &Fight, effects: &Vec<ActEffect>) -> (r: Vec<
    ActEffect,
>)
    ensures
        effects_view(r@) == death_effects(killed_by(fight@, effects_view(effects@))),
{
    let ghost s = effects_view(effects@);
    let mut dead: HashSet<i64> = HashSet::new();
    assert(s.take(0).len() == 0);
    for i in 0..effects.len()
        invariant
            s == effects_view(effects@),
            dead@ == reported_dead(s.take(i as int)),
    {
        assert(s.take(i + 1).drop_last() =~= s.take(i as int));
        assert(s.take(i + 1).last() == effects@[i as int]@);
        if read_kind(&effects[i]) == EffectType::Dead {
            if let Some(uid) = effects[i].target_id {
                dead.insert(uid);
            }
        }
    }
    assert(s.take(s.len() as int) =~= s);
    let ghost start = KillState {
        states: Map::<i64, (i32, i32)>::empty(),
        dead: reported_dead(s),
        killed: Seq::<i64>::empty(),
    };
    let mut states: HashMap<i64, (i32, i32)> = HashMap::new();
    let mut killed: Vec<i64> = Vec::new();
    for i in 0..effects.len()
        invariant
            s == effects_view(effects@),
            ({
                let k = after_effects(fight@, start, s.take(i as int));
                &&& states@ == k.states
                &&& dead@ == k.dead
                &&& killed@ == k.killed
            }),
    {
        assert(s.take(i + 1).drop_last() =~= s.take(i as int));
        assert(s.take(i + 1).last() == effects@[i as int]@);
        let e = &effects[i];
        if is_damage_effect_type(read_kind(e)) {
            if let Some(uid) = e.target_id {
                if uid != 0 && !dead.contains(&uid) {
                    if let Some(target) = find_entity(fight, uid) {
                        let current_hp = value(target.current_hp);
                        if current_hp <= 0 {
                            dead.insert(uid);
                        } else {
                            let was: (i32, i32) = match states.get(&uid) {
                                Some(p) => *p,
                                None => (current_hp, value(target.shield_value)),
                            };
                            let n = value(e.effect_num);
                            let damage: i32 = if n > 0 {
                                n
                            } else {
                                0
                            };
                            let absorbed: i32 = if damage <= was.1 {
                                damage
                            } else {
                                was.1
                            };
                            let through = saturating_difference(damage, absorbed);
                            let hp = saturating_difference(was.0, through);
                            let shield = saturating_difference(was.1, absorbed);
                            states.insert(uid, (hp, shield));
                            if hp <= 0 {
                                dead.insert(uid);
                                killed.push(uid);
                            }
                        }
                    }
                }
            }
        }
    }
    assert(s.take(s.len() as int) =~= s);
    let mut out: Vec<ActEffect> = Vec::new();
    assert(killed@.take(0).len() == 0);
    for i in 0..killed.len()
        invariant
            effects_view(out@) == death_effects(killed@.take(i as int)),
    {
        assert(killed@.take(i + 1).drop_last() =~= killed@.take(i as int));
        let ghost before = effects_view(out@);
        out.push(ActEffectBuilder::dead(killed[i]));
        out.push(ActEffectBuilder::remove_entity_cards(killed[i], Some(1)));
        assert(effects_view(out@) =~= death_effects(killed@.take(i + 1)));
    }
    assert(killed@.take(killed@.len() as int) =~= killed@);
    out
}

proof fn kills_are_dead(f: FightView, k: KillState, s: Seq<EffectView>)
    requires
        k.killed.no_duplicates(),
        forall|i: int| 0 <= i < k.killed.len() ==> k.dead.contains(#[trigger] k.killed[i]),
    ensures
        after_effects(f, k, s).killed.no_duplicates(),
        forall|i: int|
            0 <= i < after_effects(f, k, s).killed.len() ==> after_effects(f, k, s).dead.contains(
                #[trigger] after_effects(f, k, s).killed[i],
            ),
        forall|uid: i64| k.dead.contains(uid) ==> #[trigger] after_effects(f, k, s).dead.contains(
            uid,
        ),
        forall|uid: i64|
            #[trigger] after_effects(f, k, s).killed.contains(uid) ==> k.killed.contains(uid)
                || !k.dead.contains(uid),
    decreases s.len(),
{
    if s.len() > 0 {
        kills_are_dead(f, k, s.drop_last());
        let a = after_effects(f, k, s.drop_last());
        let b = after_effects(f, k, s);
        assert(b == after_effect(f, a, s.last()));
        if b.killed.len() > a.killed.len() {
            let uid = s.last().target_id->0;
            assert(b.killed == a.killed.push(uid));
            assert(!a.dead.contains(uid));
            assert forall|x: i64| #[trigger] b.killed.contains(x) implies k.killed.contains(x)
                || !k.dead.contains(x) by {
                let j = choose|j: int| 0 <= j < b.killed.len() && b.killed[j] == x;
                if j < a.killed.len() {
                    assert(a.killed[j] == x);
                    assert(a.killed.contains(x));
                }
            }
        }
    }
}

/// A death is reported once, and never for one whose death the effects already
/// report.
pub proof fn deaths_reported_once(f: FightView, s: Seq<EffectView>)
    ensures
        killed_by(f, s).no_duplicates(),
        forall|uid: i64| #[trigger] killed_by(f, s).contains(uid) ==> !reported_dead(s).contains(uid),
{
    let k = KillState { states: Map::empty(), dead: reported_dead(s), killed: Seq::empty() };
    kills_are_dead(f, k, s);
}

/// The marker that shows an injury count where a fighter was injured.
pub open spec fn injury_marker(injured_uid: i64, holder_uid: i64, count: i32) -> EffectView {
    EffectView::wrapper(
        StepView::container(
            injured_uid,
            injured_uid,
            0,
            seq![EffectView::amount(EffectType::FightCounter, holder_uid, count)],
        ),
    )
}

fn build_card_host_injury_marker(
    injured_uid: i64,
    holder_uid: i64,
    injury_count: i32,
) -> (r: ActEffect)
    ensures
        r@ == injury_marker(injured_uid, holder_uid, injury_count),
{
    let mut inner: Vec<ActEffect> = Vec::new();
    inner.push(ActEffectBuilder::fight_counter(holder_uid, injury_count));
    assert(effects_view(inner@) =~= seq![
        EffectView::amount(EffectType::FightCounter, holder_uid, injury_count),
    ]);
    wrap_step(effect_container_step(injured_uid, injured_uid, 0, inner))
}

/// The member of a team that an effect itself hits.
pub open spec fn flat_injured(f: FightView, e: EffectView, team: i32) -> Option<i64> {
    if e.fight_step is None && is_damage(kind_of(e)) && e.target_id is Some && team_of(
        f,
        e.target_id->0,
    ) == Some(team) {
        e.target_id
    } else {
        None
    }
}

fn flat_host_injury_marker_uid(fight: &Fight, effect: &ActEffect, team: i32) -> (r: Option<i64>)
    ensures
        r == flat_injured(fight@, effect@, team),
{
    if effect.fight_step.is_some() || !is_damage_effect_type(read_kind(effect)) {
        return None;
    }
    match effect.target_id {
        Some(uid) => match find_team(fight, uid) {
            Some(t) => if t == team {
                Some(uid)
            } else {
                None
            },
            None => None,
        },
        None => None,
    }
}

/// Whether some of the first effects of a list hit a member of a team, nested
/// steps included.
pub open spec fn hits_team_upto(f: FightView, s: Seq<EffectView>, n: nat, team: i32) -> bool
    decreases s, n,
{
    if n == 0 || n > s.len() {
        false
    } else {
        hits_team_upto(f, s, (n - 1) as nat, team) || match s[n - 1].fight_step {
            Some(step) => hits_team(f, step.act_effect, team),
            None => flat_injured(f, s[n - 1], team) is Some,
        }
    }
}

/// Whether some effects hit a member of a team, nested steps included.
pub open spec fn hits_team(f: FightView, s: Seq<EffectView>, team: i32) -> bool
    decreases s, s.len() + 1,
{
    hits_team_upto(f, s, s.len(), team)
}

proof fn hits_team_upto_grows(f: FightView, s: Seq<EffectView>, n: nat, m: nat, team: i32)
    requires
        n <= m <= s.len(),
    ensures
        hits_team_upto(f, s, n, team) ==> hits_team_upto(f, s, m, team),
    decreases m,
{
    if n < m {
        hits_team_upto_grows(f, s, n, (m - 1) as nat, team);
    }
}

/// Tests whether some effects hit a member of a team, nested steps included.
pub fn step_contains_team_damage(fight: &Fight, effects: &Vec<ActEffect>, team: i32) -> (r: bool)
    ensures
        r == hits_team(fight@, effects_view(effects@), team),
    decreases effects,
{
    let ghost s = effects_view(effects@);
    for i in 0..effects.len()
        invariant
            s == effects_view(effects@),
            !hits_team_upto(fight@, s, i as nat, team),
    {
        proof {
            hits_team_upto_grows(fight@, s, (i + 1) as nat, s.len(), team);
            assert(s[i as int] == effects@[i as int]@);
        }
        match &effects[i].fight_step {
            Some(step) => {
                assert(decreases_to!(effects => effects@[i as int]));
                if step_contains_team_damage(fight, &step.act_effect, team) {
                    return true;
                }
            },
            None => {
                if flat_host_injury_marker_uid(fight, &effects[i], team).is_some() {
                    return true;
                }
            },
        }
    }
    false
}

/// The skills whose injuries are marked where their step is nested.
pub open spec fn is_marked_skill(act_id: i32) -> bool {
    act_id == 308801821 || act_id == 308802011 || act_id == 308801611
}

/// The caster of a nested step that is marked: a marked skill of a member of the
/// team, which hits the team.
pub open spec fn nested_injured(f: FightView, step: StepView, team: i32) -> Option<i64> {
    if step.act_type == Some(ActType::Skill) && is_marked_skill(or_zero(step.act_id))
        && step.from_id is Some && team_of(f, step.from_id->0) == Some(team) && hits_team(
        f,
        step.act_effect,
        team,
    ) {
        step.from_id
    } else {
        None
    }
}

fn nested_host_injury_marker_uid(fight: &Fight, step: &FightStep, team: i32) -> (r: Option<i64>)
    ensures
        r == nested_injured(fight@, step@, team),
{
    let is_skill: bool = match step.act_type {
        Some(t) => t == ActType::Skill,
        None => false,
    };
    let act_id = value(step.act_id);
    if !is_skill || !(act_id == 308801821 || act_id == 308802011 || act_id == 308801611) {
        return None;
    }
    match step.from_id {
        Some(uid) => match find_team(fight, uid) {
            Some(t) => if t == team && step_contains_team_damage(
                fight,
                &step.act_effect,
                team,
            ) {
                Some(uid)
            } else {
                None
            },
            None => None,
        },
        None => None,
    }
}

/// The markers of the first effects of a host step, each with the position it
/// belongs at: at a hit on the caster's team, and behind a marked nested step.
pub open spec fn host_markers(
    f: FightView,
    s: Seq<EffectView>,
    team: i32,
    holder_uid: i64,
    count: i32,
) -> Seq<(int, EffectView)>
    decreases s.len(),
{
    if s.len() == 0 {
        Seq::empty()
    } else {
        let i = s.len() - 1;
        let e = s.last();
        let before = host_markers(f, s.drop_last(), team, holder_uid, count);
        let flat = match flat_injured(f, e, team) {
            Some(uid) => before.push((i, injury_marker(uid, holder_uid, count))),
            None => before,
        };
        let nested = match e.fight_step {
            Some(step) => nested_injured(f, step, team),
            None => None,
        };
        match nested {
            Some(uid) => flat.push((i + 1, injury_marker(uid, holder_uid, count))),
            None => flat,
        }
    }
}

/// Markers with their positions, each marker by its view.
pub open spec fn markers_view(v: Seq<(usize, ActEffect)>) -> Seq<(int, EffectView)> {
    Seq::new(v.len(), |i: int| (v[i].0 as int, v[i].1@))
}

/// Makes the markers that show the injury count of a team inside the step of a
/// card. Nothing is marked where there is no count, no holder, or no team.
pub fn inject_card_host_injury_markers(
    host_step: &FightStep,
    fight: &Fight,
    holder_uid: i64,
    injury_count: i32,
) -> (r: Vec<(usize, ActEffect)>)
    ensures
        markers_view(r@) == (if injury_count <= 0 || holder_uid == 0 || host_step@.from_id is None
            || team_of(fight@, host_step@.from_id->0) is None {
            Seq::empty()
        } else {
            host_markers(
                fight@,
                host_step@.act_effect,
                team_of(fight@, host_step@.from_id->0)->0,
                holder_uid,
                injury_count,
            )
        }),
{
    let mut markers: Vec<(usize, ActEffect)> = Vec::new();
    assert(markers_view(markers@) =~= Seq::empty());
    if injury_count <= 0 || holder_uid == 0 {
        return markers;
    }
    let team = match host_step.from_id {
        Some(uid) => find_team(fight, uid),
        None => None,
    };
    let team: i32 = match team {
        Some(t) => t,
        None => {
            return markers;
        },
    };
    let ghost s = host_step@.act_effect;
    assert(s.take(0).len() == 0);
    for i in 0..host_step.act_effect.len()
        invariant
            s == effects_view(host_step.act_effect@),
            markers_view(markers@) == host_markers(
                fight@,
                s.take(i as int),
                team,
                holder_uid,
                injury_count,
            ),
    {
        assert(s.take(i + 1).drop_last() =~= s.take(i as int));
        assert(s.take(i + 1).last() == host_step.act_effect@[i as int]@);
        let effect = &host_step.act_effect[i];
        let ghost before = markers_view(markers@);
        if let Some(uid) = flat_host_injury_marker_uid(fight, effect, team) {
            let marker = build_card_host_injury_marker(uid, holder_uid, injury_count);
            markers.push((i, marker));
            assert(markers_view(markers@) =~= before.push((i as int, marker@)));
        }
        let ghost middle = markers_view(markers@);
        if let Some(step) = &effect.fight_step {
            if let Some(uid) = nested_host_injury_marker_uid(fight, step, team) {
                let marker = build_card_host_injury_marker(uid, holder_uid, injury_count);
                markers.push((i + 1, marker));
                assert(markers_view(markers@) =~= middle.push((i + 1, marker@)));
            }
        }
    }
    assert(s.take(s.len() as int) =~= s);
    markers
}

} // verus!
