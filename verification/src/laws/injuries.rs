//! How injuries are counted, whom hits kill, and what injuries add to skills.

use crate::arith::{fits, or_zero, or_zero64};
use crate::config::{effect_of_skill, first_ten, row_at, BehaviorConditionRow, SlotRow};
use crate::laws::events::{carries, nothing_set, says, step_of};
use crate::lookup::entity_of;
use crate::mechanics::injury_bonus::{
    any_passive_counts, asks_skill, bonus_on, counts_injuries, first_counter, first_hit,
    first_hit_bound, first_playing, first_raised, injury_cap, leads, passive_counts, passive_row,
    passives_params, raised, raised_all, rate_of, segment_asks_skill, segment_is, segment_lists,
    skill_path, slot_counts, slot_params, slots_params, step_at, step_with_bonus, with_step_at,
    PassiveTables, SkillPath,
};
use crate::mechanics::injury_counter::{
    after_effect, after_effects, after_hit, counted, death_effects, hit_directly, hits_team,
    hits_team_upto, host_markers, injuries, injuries_upto, injury_marker, is_damage, killed_by,
    markers_view, nested_injured, packed, reported_dead, team_of, KillState,
};
use crate::model::{
    ActEffect, ActType, EffectType, EffectView, EntityView, FightHurtInfo, FightView, StepView,
};
use crate::text::{number, number_or_zero, pieces, pieces_nonempty, trimmed};
use vstd::prelude::*;

verus! {

/// The effect is a hit.
pub open spec fn is_hit(e: EffectView) -> bool {
    ||| e.effect_type == Some(EffectType::Damage)
    ||| e.effect_type == Some(EffectType::Crit)
    ||| e.effect_type == Some(EffectType::DamageExtra)
    ||| e.effect_type == Some(EffectType::OriginDamage)
    ||| e.effect_type == Some(EffectType::OriginCrit)
    ||| e.effect_type == Some(EffectType::DamageFromAbsorb)
    ||| e.effect_type == Some(EffectType::DamageFromLostHp)
    ||| e.effect_type == Some(EffectType::EnchantBurnDamage)
    ||| e.effect_type == Some(EffectType::DamageShareHp)
    ||| e.effect_type == Some(EffectType::DeadlyPoisonOriginDamage)
    ||| e.effect_type == Some(EffectType::DeadlyPoisonOriginCrit)
    ||| e.effect_type == Some(EffectType::AdditionalDamage)
    ||| e.effect_type == Some(EffectType::AdditionalDamageCrit)
    ||| e.effect_type == Some(EffectType::ShareHurt)
    ||| e.effect_type == Some(EffectType::EnchantDepresseDamage)
}

/// Somebody of a team is the target of an effect.
pub open spec fn aims_at_team(f: FightView, e: EffectView, team: i32) -> bool {
    e.target_id is Some && entity_of(f, e.target_id->0) is Some && entity_of(
        f,
        e.target_id->0,
    )->0.team_type == Some(team)
}

/// Which effects are hits, and whose team a fighter is on.
pub proof fn what_a_hit_is(e: EffectView, kind: EffectType, f: FightView, uid: i64)
    ensures
        is_damage(kind) <==> is_hit(EffectView { effect_type: Some(kind), ..e }),
        entity_of(f, uid) is None ==> team_of(f, uid) is None,
        entity_of(f, uid) is Some ==> team_of(f, uid) == entity_of(f, uid)->0.team_type,
{
}

/// A list hits a fighter itself, not within a step that it carries.
pub proof fn who_is_hit_directly(s: Seq<EffectView>, uid: i64)
    ensures
        hit_directly(s, uid) <==> exists|i: int|
            0 <= i < s.len() && (#[trigger] s[i]).fight_step is None && is_hit(s[i])
                && s[i].target_id == Some(uid),
{
    if hit_directly(s, uid) {
        let i = choose|i: int|
            0 <= i < s.len() && (#[trigger] s[i]).fight_step is None && is_damage(
                crate::mechanics::injury_counter::kind_of(s[i]),
            ) && s[i].target_id == Some(uid);
        assert(is_hit(s[i]));
    }
    if exists|i: int|
        0 <= i < s.len() && (#[trigger] s[i]).fight_step is None && is_hit(s[i]) && s[i].target_id
            == Some(uid) {
        let i = choose|i: int|
            0 <= i < s.len() && (#[trigger] s[i]).fight_step is None && is_hit(s[i])
                && s[i].target_id == Some(uid);
        assert(is_damage(crate::mechanics::injury_counter::kind_of(s[i])));
    }
}

/// The injuries of a team are counted effect by effect: each hit on it, each change of life
/// of someone whom the list does not hit itself, each sharing of life; and within a carried
/// step its own injuries.
pub proof fn how_injuries_are_counted(f: FightView, s: Seq<EffectView>, n: nat, team: i32)
    requires
        n < s.len(),
    ensures
        injuries(f, s, team) == injuries_upto(f, s, s.len(), team),
        injuries_upto(f, s, 0, team) == 0,
        ({
            let e = s[n as int];
            let counts = aims_at_team(f, e, team) && (is_hit(e) || e.effect_type == Some(
                EffectType::AverageLife,
            ) || (e.effect_type == Some(EffectType::CurrentHpChange) && !hit_directly(
                s,
                e.target_id->0,
            )));
            injuries_upto(f, s, n + 1, team) == injuries_upto(f, s, n, team) + (
            if e.fight_step is Some {
                injuries(f, e.fight_step->0.act_effect, team) as int
            } else if counts {
                1
            } else {
                0
            })
        }),
{
}

/// Two battles or two teams never share a count, and only a battle with an id and a team
/// above zero is counted.
pub proof fn counts_are_kept_apart(b: i32, t: i32, c: i32, u: i32)
    ensures
        packed(b, t) == packed(c, u) ==> b == c && t == u,
        counted(b, t) <==> b != 0 && t > 0,
{
}

/// A hit takes from the shield first and from life what the shield does not stop.
pub proof fn what_a_hit_takes(hp: i32, shield: i32, damage: i32)
    requires
        hp > 0,
        shield >= 0,
        damage >= 0,
    ensures
        ({
            let (hp2, shield2) = after_hit(hp, shield, damage);
            &&& hp2 + shield2 == hp + shield - damage
            &&& damage <= shield ==> hp2 == hp
            &&& damage > shield ==> shield2 == 0
        }),
{
}

/// A hit on someone who lives takes from what the hits before it left. Whoever it leaves
/// without life is killed. No other effect changes anything.
pub proof fn whom_an_effect_kills(f: FightView, k: KillState, e: EffectView)
    ensures
        ({
            let r = after_effect(f, k, e);
            let uid = e.target_id->0;
            let target = entity_of(f, uid)->0;
            let counts = is_hit(e) && e.target_id is Some && uid != 0 && !k.dead.contains(uid)
                && entity_of(f, uid) is Some;
            let lives = target.current_hp is Some && target.current_hp->0 > 0;
            let hp = if k.states.contains_key(uid) {
                k.states[uid].0
            } else {
                or_zero(target.current_hp)
            };
            let shield = if k.states.contains_key(uid) {
                k.states[uid].1
            } else {
                or_zero(target.shield_value)
            };
            let damage = if e.effect_num is Some && e.effect_num->0 > 0 {
                e.effect_num->0
            } else {
                0i32
            };
            let left = after_hit(hp, shield, damage);
            &&& !counts ==> r == k
            &&& counts && !lives ==> r == (KillState { dead: k.dead.insert(uid), ..k })
            &&& counts && lives && left.0 > 0 ==> r == (KillState {
                states: k.states.insert(uid, left),
                ..k
            })
            &&& counts && lives && left.0 <= 0 ==> r == (KillState {
                states: k.states.insert(uid, left),
                dead: k.dead.insert(uid),
                killed: k.killed.push(uid),
            })
        }),
{
}

/// Effects kill one after the other, from a state in which nobody was hit and those are
/// dead whose death the list reports.
pub proof fn effects_kill_one_after_the_other(
    f: FightView,
    k: KillState,
    s: Seq<EffectView>,
    e: EffectView,
)
    ensures
        after_effects(f, k, Seq::empty()) == k,
        after_effects(f, k, s.push(e)) == after_effect(f, after_effects(f, k, s), e),
        killed_by(f, s) == after_effects(
            f,
            KillState { states: Map::empty(), dead: reported_dead(s), killed: Seq::empty() },
            s,
        ).killed,
{
    assert(s.push(e).drop_last() =~= s);
}

/// Whose death is reported.
pub proof fn whose_death_is_reported(s: Seq<EffectView>, uid: i64)
    ensures
        reported_dead(s).contains(uid) <==> exists|i: int|
            0 <= i < s.len() && (#[trigger] s[i]).effect_type == Some(EffectType::Dead)
                && s[i].target_id == Some(uid),
    decreases s.len(),
{
    if s.len() > 0 {
        let less = s.drop_last();
        whose_death_is_reported(less, uid);
        assert(s[s.len() - 1] == s.last());
        if reported_dead(less).contains(uid) {
            let i = choose|i: int|
                0 <= i < less.len() && (#[trigger] less[i]).effect_type == Some(EffectType::Dead)
                    && less[i].target_id == Some(uid);
            assert(s[i] == less[i]);
        }
        if exists|i: int|
            0 <= i < s.len() && (#[trigger] s[i]).effect_type == Some(EffectType::Dead)
                && s[i].target_id == Some(uid) {
            let i = choose|i: int|
                0 <= i < s.len() && (#[trigger] s[i]).effect_type == Some(EffectType::Dead)
                    && s[i].target_id == Some(uid);
            if i < less.len() {
                assert(less[i] == s[i]);
            }
        }
    }
}

/// The cards of the fallen are removed.
pub open spec fn cards_removed(uid: i64) -> EffectView {
    EffectView {
        effect_type: Some(EffectType::RemoveEntityCards),
        target_id: Some(uid),
        team_type: Some(1),
        ..nothing_set()
    }
}

/// Each death is told by two effects: that the fighter is dead, and a step in which its
/// cards are removed.
pub proof fn how_deaths_are_told(a: Seq<i64>, b: Seq<i64>, x: i64)
    ensures
        death_effects(a + b) == death_effects(a) + death_effects(b),
        death_effects(Seq::empty()).len() == 0,
        death_effects(seq![x]).len() == 2,
        says(death_effects(seq![x])[0], EffectType::Dead, x, 0),
        carries(
            death_effects(seq![x])[1],
            step_of(ActType::Effect, 0, 0, 0, 0, seq![cards_removed(x)]),
        ),
    decreases b.len(),
{
    assert(seq![x].drop_last() =~= Seq::<i64>::empty());
    assert(death_effects(seq![x].drop_last()).len() == 0);
    assert(seq![x].last() == x);
    if b.len() == 0 {
        assert(a + b =~= a);
        assert(death_effects(a) + death_effects(b) =~= death_effects(a));
    } else {
        how_deaths_are_told(a, b.drop_last(), x);
        assert((a + b).drop_last() =~= a + b.drop_last());
        assert((a + b).last() == b.last());
        assert(death_effects(a + b) =~= death_effects(a) + death_effects(b));
    }
}

proof fn hits_team_first(f: FightView, s: Seq<EffectView>, x: EffectView, n: nat, team: i32)
    requires
        n <= s.len(),
    ensures
        hits_team_upto(f, s.push(x), n, team) == hits_team_upto(f, s, n, team),
    decreases n,
{
    if n > 0 {
        hits_team_first(f, s, x, (n - 1) as nat, team);
        assert(s.push(x)[n - 1] == s[n - 1]);
    }
}

/// Effects hit a team if one of them does, or one within a step that they carry.
pub proof fn which_effects_hit_a_team(f: FightView, s: Seq<EffectView>, x: EffectView, team: i32)
    ensures
        !hits_team(f, Seq::empty(), team),
        x.fight_step is None ==> (hits_team(f, s.push(x), team) <==> hits_team(f, s, team) || (
        is_hit(x) && aims_at_team(f, x, team))),
        x.fight_step matches Some(step) ==> (hits_team(f, s.push(x), team) <==> hits_team(
            f,
            s,
            team,
        ) || hits_team(f, step.act_effect, team)),
{
    hits_team_first(f, s, x, s.len(), team);
    assert(s.push(x)[s.len() as int] == x);
}

/// A marker tells the count of injuries to the one who counts, in a step of the injured.
pub proof fn what_a_marker_says(injured: i64, holder: i64, count: i32)
    ensures
        exists|e: EffectView| #[trigger]
            says(e, EffectType::FightCounter, holder, count) && carries(
                injury_marker(injured, holder, count),
                step_of(ActType::Effect, injured, injured, 0, 0, seq![e]),
            ),
{
    let e = EffectView::amount(EffectType::FightCounter, holder, count);
    assert(says(e, EffectType::FightCounter, holder, count));
}

/// A carried step injures the one who plays it if it is one of three skills, of someone of
/// the team, and hits the team.
pub proof fn which_step_injures_its_own(f: FightView, step: StepView, team: i32)
    ensures
        ({
            let marked = step.act_id == Some(308801821i32) || step.act_id == Some(308802011i32)
                || step.act_id == Some(308801611i32);
            let injures = step.act_type == Some(ActType::Skill) && marked && step.from_id is Some
                && entity_of(f, step.from_id->0) is Some && entity_of(
                f,
                step.from_id->0,
            )->0.team_type == Some(team) && hits_team(f, step.act_effect, team);
            &&& injures ==> nested_injured(f, step, team) == step.from_id
            &&& !injures ==> nested_injured(f, step, team) is None
        }),
{
}

/// A marker stands before each hit on the team, and behind each carried step that injures
/// its own; nowhere else.
pub proof fn where_markers_stand(
    f: FightView,
    s: Seq<EffectView>,
    x: EffectView,
    team: i32,
    holder: i64,
    count: i32,
)
    ensures
        ({
            let before = host_markers(f, s, team, holder, count);
            let after = host_markers(f, s.push(x), team, holder, count);
            &&& host_markers(f, Seq::empty(), team, holder, count).len() == 0
            &&& x.fight_step is None && is_hit(x) && aims_at_team(f, x, team) ==> after
                == before.push((s.len() as int, injury_marker(x.target_id->0, holder, count)))
            &&& x.fight_step is None && !(is_hit(x) && aims_at_team(f, x, team)) ==> after == before
            &&& x.fight_step matches Some(step) ==> (nested_injured(f, step, team) matches Some(uid)
                ==> after == before.push((s.len() as int + 1, injury_marker(uid, holder, count))))
            &&& x.fight_step matches Some(step) ==> (nested_injured(f, step, team) is None ==> after
                == before)
        }),
{
    assert(s.push(x).drop_last() =~= s);
}

/// Markers are seen with their places.
pub proof fn how_markers_are_seen(v: Seq<(usize, ActEffect)>, i: int)
    ensures
        markers_view(v).len() == v.len(),
        0 <= i < v.len() ==> markers_view(v)[i] == (v[i].0 as int, v[i].1@),
{
}

/// A passive has the row of the effect that its skill is linked to; an id not above zero has
/// none.
pub proof fn the_row_of_a_passive(t: PassiveTables, id: i32)
    ensures
        id <= 0 ==> passive_row(t, id) is None,
        id > 0 ==> passive_row(t, id) == row_at(t.skills@, effect_of_skill(t.links@, id)),
{
}

/// The rate of a behaviour stands behind its code; any other behaviour has none.
pub proof fn the_rate_of_a_behaviour(rest: Seq<char>, b: Seq<char>)
    ensures
        trimmed(b) == seq!['1', '0', '0', '0', '1', '#'] + rest ==> rate_of(b) == number_or_zero(
            trimmed(rest),
        ),
        trimmed(b).len() < 6 || trimmed(b).take(6) != seq!['1', '0', '0', '0', '1', '#'] ==> rate_of(
            b,
        ) == 0,
{
    reveal_strlit("10001#");
    let x = seq!['1', '0', '0', '0', '1', '#'];
    assert("10001#"@ =~= x);
    assert((x + rest).take(6) =~= x);
    assert((x + rest).skip(6) =~= rest);
}

/// A segment of a condition is of a type.
pub open spec fn is_of_type(
    segment: Seq<char>,
    conditions: Seq<BehaviorConditionRow>,
    cond_type: Seq<char>,
) -> bool {
    let id = number(trimmed(pieces(segment, '#')[0]));
    id is Some && row_at(conditions, id->0) is Some && row_at(conditions, id->0)->0.cond_type@
        == cond_type
}

/// A segment asks for a skill if it is of one of two types and lists the skill behind its
/// id. A condition does if one of its segments does, and it counts injuries if one of its
/// segments is of that type.
pub proof fn what_a_condition_asks_for(
    segment: Seq<char>,
    segments: Seq<Seq<char>>,
    conditions: Seq<BehaviorConditionRow>,
    cond_type: Seq<char>,
    skill_id: i32,
)
    ensures
        segment_is(segment, conditions, cond_type) <==> is_of_type(segment, conditions, cond_type),
        segment_lists(segment, skill_id) <==> exists|k: int|
            1 <= k < pieces(segment, '#').len() && number(
                trimmed(#[trigger] pieces(segment, '#')[k]),
            ) == Some(skill_id),
        segment_asks_skill(segment, conditions, skill_id) <==> (is_of_type(
            segment,
            conditions,
            "UseSkillId"@,
        ) || is_of_type(segment, conditions, "CanUseSkill"@)) && segment_lists(segment, skill_id),
        asks_skill(segments, conditions, skill_id) <==> exists|k: int|
            0 <= k < segments.len() && segment_asks_skill(
                #[trigger] segments[k],
                conditions,
                skill_id,
            ),
        counts_injuries(segments, conditions) <==> exists|k: int|
            0 <= k < segments.len() && is_of_type(
                #[trigger] segments[k],
                conditions,
                "TeamInjuryCountRound"@,
            ),
{
    pieces_nonempty(segment, '#');
    if counts_injuries(segments, conditions) {
        let k = choose|k: int|
            0 <= k < segments.len() && segment_is(
                #[trigger] segments[k],
                conditions,
                "TeamInjuryCountRound"@,
            );
        pieces_nonempty(segments[k], '#');
        assert(is_of_type(segments[k], conditions, "TeamInjuryCountRound"@));
    }
    if exists|k: int|
        0 <= k < segments.len() && is_of_type(
            #[trigger] segments[k],
            conditions,
            "TeamInjuryCountRound"@,
        ) {
        let k = choose|k: int|
            0 <= k < segments.len() && is_of_type(
                #[trigger] segments[k],
                conditions,
                "TeamInjuryCountRound"@,
            );
        pieces_nonempty(segments[k], '#');
        assert(segment_is(segments[k], conditions, "TeamInjuryCountRound"@));
    }
}

/// The cap on injuries is the number behind the id of the last segment that counts them.
pub proof fn the_cap_on_injuries(
    segments: Seq<Seq<char>>,
    x: Seq<char>,
    conditions: Seq<BehaviorConditionRow>,
)
    ensures
        injury_cap(Seq::empty(), conditions) is None,
        !is_of_type(x, conditions, "TeamInjuryCountRound"@) ==> injury_cap(
            segments.push(x),
            conditions,
        ) == injury_cap(segments, conditions),
        is_of_type(x, conditions, "TeamInjuryCountRound"@) ==> injury_cap(
            segments.push(x),
            conditions,
        ) == (if pieces(x, '#').len() > 1 {
            number(trimmed(pieces(x, '#')[1]))
        } else {
            None
        }),
{
    assert(segments.push(x).drop_last() =~= segments);
    pieces_nonempty(x, '#');
}

/// What a slot adds for injuries: it must have a rate above zero and a condition that asks
/// for the skill. Without a cap of its own the cap is twenty.
pub proof fn what_a_slot_adds(slot: SlotRow, conditions: Seq<BehaviorConditionRow>, skill_id: i32)
    ensures
        ({
            let segments = pieces(slot.condition@, '&');
            let r = slot_params(slot, conditions, skill_id);
            &&& r is Some <==> rate_of(slot.behavior@) > 0 && trimmed(slot.condition@).len() > 0
                && asks_skill(segments, conditions, skill_id)
            &&& r is Some ==> (r->0).1 == rate_of(slot.behavior@)
            &&& r is Some && injury_cap(segments, conditions) is Some ==> Some((r->0).0)
                == injury_cap(segments, conditions)
            &&& r is Some && injury_cap(segments, conditions) is None ==> (r->0).0 == 20
            &&& slot_counts(slot, conditions) <==> rate_of(slot.behavior@) > 0 && trimmed(
                slot.condition@,
            ).len() > 0 && counts_injuries(segments, conditions)
        }),
{
}

/// The first slot that adds something decides.
pub proof fn the_first_slot_that_adds(
    conditions: Seq<BehaviorConditionRow>,
    skill_id: i32,
    s: Seq<SlotRow>,
)
    ensures
        slots_params(s, conditions, skill_id) is None <==> forall|i: int| 0 <= i < s.len() ==> !(slot_params((#[trigger] s[i]), conditions, skill_id) is Some),
        slots_params(s, conditions, skill_id) is Some ==> exists|i: int|
            0 <= i < s.len() && slot_params((#[trigger] s[i]), conditions, skill_id) is Some && slots_params(s, conditions, skill_id) == slot_params(s[i], conditions, skill_id) && forall|j: int|
                0 <= j < i ==> !(slot_params((#[trigger] s[j]), conditions, skill_id) is Some),
    decreases s.len(),
{
    if s.len() > 0 {
        let rest = s.skip(1);
        the_first_slot_that_adds(conditions, skill_id, rest);
        assert forall|i: int| 0 < i < s.len() implies rest[i - 1] == #[trigger] s[i] by {}
        if slot_params(s[0], conditions, skill_id) is Some {
            assert(slots_params(s, conditions, skill_id) == slot_params(s[0], conditions, skill_id));
        } else if slots_params(rest, conditions, skill_id) is Some {
            let i = choose|i: int|
                0 <= i < rest.len() && slot_params((#[trigger] rest[i]), conditions, skill_id) is Some && slots_params(rest, conditions, skill_id) == slot_params(rest[i], conditions, skill_id) && forall|j: int|
                    0 <= j < i ==> !(slot_params((#[trigger] rest[j]), conditions, skill_id) is Some);
            assert(rest[i] == s[i + 1]);
            assert forall|j: int| 0 <= j < i + 1 implies !(slot_params((#[trigger] s[j]), conditions, skill_id) is Some) by {
                if j > 0 {
                    assert(rest[j - 1] == s[j]);
                }
            }
        }
        if slots_params(s, conditions, skill_id) is None {
            assert forall|i: int| 0 <= i < s.len() implies !(slot_params((#[trigger] s[i]), conditions, skill_id) is Some) by {
                if i > 0 {
                    assert(rest[i - 1] == s[i]);
                }
            }
        }
    }
}

/// What a passive adds for injuries, by the first ten slots of its row.
pub open spec fn added_by(t: PassiveTables, skill_id: i32, passive: i32) -> Option<(i32, i32)> {
    if passive_row(t, passive) is Some {
        slots_params(first_ten(passive_row(t, passive)->0.slots@), t.conditions@, skill_id)
    } else {
        None
    }
}

/// The first passive that adds something decides.
pub proof fn the_first_passive_that_adds(
    t: PassiveTables,
    skill_id: i32,
    s: Seq<i32>,
)
    ensures
        passives_params(s, t, skill_id) is None <==> forall|i: int| 0 <= i < s.len() ==> !(added_by(t, skill_id, (#[trigger] s[i])) is Some),
        passives_params(s, t, skill_id) is Some ==> exists|i: int|
            0 <= i < s.len() && added_by(t, skill_id, (#[trigger] s[i])) is Some && passives_params(s, t, skill_id) == added_by(t, skill_id, s[i]) && forall|j: int|
                0 <= j < i ==> !(added_by(t, skill_id, (#[trigger] s[j])) is Some),
    decreases s.len(),
{
    if s.len() > 0 {
        let rest = s.skip(1);
        the_first_passive_that_adds(t, skill_id, rest);
        assert forall|i: int| 0 < i < s.len() implies rest[i - 1] == #[trigger] s[i] by {}
        if added_by(t, skill_id, s[0]) is Some {
            assert(passives_params(s, t, skill_id) == added_by(t, skill_id, s[0]));
        } else if passives_params(rest, t, skill_id) is Some {
            let i = choose|i: int|
                0 <= i < rest.len() && added_by(t, skill_id, (#[trigger] rest[i])) is Some && passives_params(rest, t, skill_id) == added_by(t, skill_id, rest[i]) && forall|j: int|
                    0 <= j < i ==> !(added_by(t, skill_id, (#[trigger] rest[j])) is Some);
            assert(rest[i] == s[i + 1]);
            assert forall|j: int| 0 <= j < i + 1 implies !(added_by(t, skill_id, (#[trigger] s[j])) is Some) by {
                if j > 0 {
                    assert(rest[j - 1] == s[j]);
                }
            }
        }
        if passives_params(s, t, skill_id) is None {
            assert forall|i: int| 0 <= i < s.len() implies !(added_by(t, skill_id, (#[trigger] s[i])) is Some) by {
                if i > 0 {
                    assert(rest[i - 1] == s[i]);
                }
            }
        }
    }
}

/// A passive counts injuries if one of the first ten slots of its row does, and passives do
/// if one of them does.
pub proof fn which_passives_count(passives: Seq<i32>, id: i32, t: PassiveTables)
    ensures
        passive_counts(id, t) <==> passive_row(t, id) is Some && exists|k: int|
            0 <= k < first_ten(passive_row(t, id)->0.slots@).len() && slot_counts(
                #[trigger] first_ten(passive_row(t, id)->0.slots@)[k],
                t.conditions@,
            ),
        any_passive_counts(passives, t) <==> exists|k: int|
            0 <= k < passives.len() && passive_counts(#[trigger] passives[k], t),
{
}

/// Somebody counts the injuries of a team.
pub open spec fn counts_for(f: FightView, e: EntityView, team: i32, t: PassiveTables) -> bool {
    e.current_hp is Some && e.current_hp->0 > 0 && e.team_type == Some(team) && e.uid is Some
        && entity_of(f, e.uid->0) is Some && any_passive_counts(
        entity_of(f, e.uid->0)->0.passive_skill,
        t,
    )
}

/// The first living fighter of the team with a passive that counts is the one who counts.
pub proof fn the_first_who_counts(
    f: FightView,
    team: i32,
    t: PassiveTables,
    s: Seq<EntityView>,
)
    ensures
        first_counter(f, s, team, t) is None <==> forall|i: int| 0 <= i < s.len() ==> !(counts_for(f, (#[trigger] s[i]), team, t)),
        first_counter(f, s, team, t) is Some ==> exists|i: int|
            0 <= i < s.len() && counts_for(f, (#[trigger] s[i]), team, t) && first_counter(f, s, team, t) == s[i].uid && forall|j: int|
                0 <= j < i ==> !(counts_for(f, (#[trigger] s[j]), team, t)),
    decreases s.len(),
{
    if s.len() > 0 {
        let rest = s.skip(1);
        the_first_who_counts(f, team, t, rest);
        assert forall|i: int| 0 < i < s.len() implies rest[i - 1] == #[trigger] s[i] by {}
        if counts_for(f, s[0], team, t) {
            assert(first_counter(f, s, team, t) == s[0].uid);
        } else if first_counter(f, rest, team, t) is Some {
            let i = choose|i: int|
                0 <= i < rest.len() && counts_for(f, (#[trigger] rest[i]), team, t) && first_counter(f, rest, team, t) == rest[i].uid && forall|j: int|
                    0 <= j < i ==> !(counts_for(f, (#[trigger] rest[j]), team, t));
            assert(rest[i] == s[i + 1]);
            assert forall|j: int| 0 <= j < i + 1 implies !(counts_for(f, (#[trigger] s[j]), team, t)) by {
                if j > 0 {
                    assert(rest[j - 1] == s[j]);
                }
            }
        }
        if first_counter(f, s, team, t) is None {
            assert forall|i: int| 0 <= i < s.len() implies !(counts_for(f, (#[trigger] s[i]), team, t)) by {
                if i > 0 {
                    assert(rest[i - 1] == s[i]);
                }
            }
        }
    }
}

/// An effect carries the step of a skill.
pub open spec fn plays_skill(e: EffectView, act_id: i32) -> bool {
    e.fight_step is Some && e.fight_step->0.act_type == Some(ActType::Skill)
        && e.fight_step->0.act_id == Some(act_id)
}

/// The first effect that carries the step of a skill.
pub proof fn the_first_that_plays(
    act_id: i32,
    s: Seq<EffectView>,
)
    ensures
        first_playing(s, act_id) is None <==> forall|i: int| 0 <= i < s.len() ==> !(plays_skill((#[trigger] s[i]), act_id)),
        first_playing(s, act_id) matches Some(n) ==> n < s.len() && plays_skill(s[n as int], act_id) && forall|j: int|
            0 <= j < n ==> !(plays_skill((#[trigger] s[j]), act_id)),
    decreases s.len(),
{
    if s.len() > 0 {
        let rest = s.skip(1);
        the_first_that_plays(act_id, rest);
        assert forall|i: int| 0 < i < s.len() implies rest[i - 1] == #[trigger] s[i] by {}
        if !(plays_skill(s[0], act_id)) && first_playing(rest, act_id) is Some {
            let n = first_playing(rest, act_id)->0;
            assert(rest[n as int] == s[n as int + 1]);
            assert forall|j: int| 0 <= j < n + 1 implies !(plays_skill((#[trigger] s[j]), act_id)) by {
                if j > 0 {
                    assert(rest[j - 1] == s[j]);
                }
            }
        }
        if first_playing(s, act_id) is None {
            assert forall|i: int| 0 <= i < s.len() implies !(plays_skill((#[trigger] s[i]), act_id)) by {
                if i > 0 {
                    assert(rest[i - 1] == s[i]);
                }
            }
        }
    }
}

/// The way to a skill: to the first effect that carries its step or a step in which it is
/// carried.
pub proof fn the_way_to_a_skill(s: Seq<EffectView>, from: nat, act_id: i32)
    ensures
        ({
            let e = s[from as int];
            let inner = first_playing(e.fight_step->0.act_effect, act_id);
            &&& from >= s.len() ==> skill_path(s, from, act_id) is None
            &&& from < s.len() && plays_skill(e, act_id) ==> skill_path(s, from, act_id) == Some(
                SkillPath::Direct { index: from as usize },
            )
            &&& from < s.len() && !plays_skill(e, act_id) && e.fight_step is Some && inner is Some
                ==> skill_path(s, from, act_id) == Some(
                SkillPath::Inner { index: from as usize, inner: inner->0 as usize },
            )
            &&& from < s.len() && !plays_skill(e, act_id) && (e.fight_step is None || inner
                is None) ==> skill_path(s, from, act_id) == skill_path(s, from + 1, act_id)
        }),
{
}

/// A step that is put at the end of a way stands there, and the way still leads there.
pub proof fn putting_a_step_at_the_end_of_a_way(
    s: Seq<EffectView>,
    p: SkillPath,
    step: StepView,
    i: int,
)
    requires
        leads(s, p),
        0 <= i < s.len(),
    ensures
        ({
            let t = with_step_at(s, p, step);
            let place = match p {
                SkillPath::Direct { index } => index as int,
                SkillPath::Inner { index, .. } => index as int,
            };
            &&& leads(t, p)
            &&& step_at(t, p) == step
            &&& t.len() == s.len()
            &&& i != place ==> t[i] == s[i]
            &&& with_step_at(s, p, step_at(s, p)) == s
        }),
{
    let same = with_step_at(s, p, step_at(s, p));
    match p {
        SkillPath::Direct { index } => {
            assert(same =~= s);
        },
        SkillPath::Inner { index, inner } => {
            let outer = s[index as int].fight_step->0;
            assert(outer.act_effect.update(inner as int, outer.act_effect[inner as int])
                =~= outer.act_effect);
            assert(same =~= s);
        },
    }
}

/// The first hit of a list, and its end if there is none.
pub proof fn the_first_hit(s: Seq<EffectView>)
    ensures
        first_hit(s) <= s.len(),
        first_hit(s) < s.len() ==> is_hit(s[first_hit(s) as int]),
        forall|j: int| 0 <= j < first_hit(s) ==> !is_hit(#[trigger] s[j]),
    decreases s.len(),
{
    if s.len() > 0 && !is_hit(s[0]) {
        let rest = s.skip(1);
        the_first_hit(rest);
        assert forall|j: int| 0 <= j < first_hit(s) implies !is_hit(#[trigger] s[j]) by {
            if j > 0 {
                assert(rest[j - 1] == s[j]);
            }
        }
    }
}

/// A hit with damage is raised by its rate in eighths of a hundredth, its report with it;
/// everything else stays.
pub proof fn how_a_hit_is_raised(e: EffectView, rate: i32)
    requires
        rate > 0,
    ensures
        ({
            let hit = is_hit(e) && e.effect_num is Some && e.effect_num->0 > 0;
            let damage = e.effect_num->0;
            let bonus = (damage * rate) / 800;
            let r = raised(e, rate);
            &&& !hit ==> r == e
            &&& hit && fits(damage * rate) && fits(damage + bonus) ==> {
                &&& bonus_on(e, rate) == bonus
                &&& r.effect_num == Some((damage + bonus) as i32)
                &&& e.hurt_info is None ==> r.hurt_info is None
                &&& e.hurt_info matches Some(h) ==> r.hurt_info == Some(
                    FightHurtInfo {
                        damage: Some((damage + bonus) as i32),
                        reduce_hp: if h.reduce_hp is Some && h.reduce_hp->0 > 0 {
                            Some((damage + bonus) as i32)
                        } else {
                            h.reduce_hp
                        },
                        ..h
                    },
                )
            }
            &&& r == (EffectView { effect_num: r.effect_num, hurt_info: r.hurt_info, ..e })
        }),
{
}

/// Every effect is raised, and the first hit with damage on somebody says on whom and by
/// how much.
pub proof fn how_hits_are_raised(s: Seq<EffectView>, x: EffectView, rate: i32, i: int)
    ensures
        raised_all(s, rate).len() == s.len(),
        0 <= i < s.len() ==> raised_all(s, rate)[i] == raised(s[i], rate),
        first_raised(Seq::empty(), rate) == (0i64, 0int),
        first_raised(s, rate).0 != 0 ==> first_raised(s.push(x), rate) == first_raised(s, rate),
        first_raised(s, rate).0 == 0 && is_hit(x) && x.effect_num is Some && x.effect_num->0 > 0
            ==> first_raised(s.push(x), rate) == (or_zero64(x.target_id), bonus_on(x, rate)),
        !is_hit(x) || x.effect_num is None || x.effect_num->0 <= 0 ==> first_raised(
            s.push(x),
            rate,
        ) == first_raised(s, rate),
{
    assert(s.push(x).drop_last() =~= s);
}

/// A step with the bonus for injuries tells the count before its first hit, raises every
/// hit, tells the deaths behind, and at last the bonus as damage of its own, on the primary
/// target or else on whom was hit first.
pub proof fn what_a_bonus_changes(
    f: FightView,
    step: StepView,
    holder: i64,
    primary: i64,
    stacks: i32,
    rate: i32,
    i: int,
)
    ensures
        ({
            let t = step_with_bonus(f, step, holder, primary, stacks, rate);
            let n = step.act_effect.len() as int;
            let h = first_hit(step.act_effect) as int;
            let hits = t.act_effect.take(n + 1);
            let deaths = death_effects(killed_by(f, hits));
            let counter = EffectView {
                effect_type: Some(EffectType::FightCounter),
                target_id: Some(holder),
                effect_num: Some(stacks),
                ..nothing_set()
            };
            let first = first_raised(step.act_effect.insert(h, counter), rate);
            let target = if primary != 0 {
                primary
            } else {
                first.0
            };
            let told = target != 0 && first.1 > 0;
            &&& t == (StepView { act_effect: t.act_effect, ..step })
            &&& t.act_effect.len() == n + 1 + deaths.len() + (if told {
                1int
            } else {
                0
            })
            &&& 0 <= i < h ==> t.act_effect[i] == raised(step.act_effect[i], rate)
            &&& says(t.act_effect[h], EffectType::FightCounter, holder, stacks)
            &&& h <= i < n ==> t.act_effect[i + 1] == raised(step.act_effect[i], rate)
            &&& 0 <= i < deaths.len() ==> t.act_effect[n + 1 + i] == deaths[i]
            &&& told ==> says(
                t.act_effect.last(),
                EffectType::AdditionalDamageCrit,
                target,
                first.1 as i32,
            )
        }),
{
    first_hit_bound(step.act_effect);
    let n = step.act_effect.len() as int;
    let h = first_hit(step.act_effect) as int;
    let counter = EffectView::amount(EffectType::FightCounter, holder, stacks);
    let shown = step.act_effect.insert(h, counter);
    let hits = raised_all(shown, rate);
    let t = step_with_bonus(f, step, holder, primary, stacks, rate);
    assert(hits.len() == n + 1);
    assert(t.act_effect.take(n + 1) =~= hits);
    assert(hits[h] == raised(counter, rate));
    assert(counter == (EffectView {
        effect_type: Some(EffectType::FightCounter),
        target_id: Some(holder),
        effect_num: Some(stacks),
        ..nothing_set()
    }));
    if h <= i < n {
        assert(shown[i + 1] == step.act_effect[i]);
    }
}

} // verus!
