//! Skills that grow with the injuries of a round.

use crate::arith::{
    or_zero, or_zero64, sat_i32, saturating_product, saturating_sum, value, value64,
};
use crate::config::{
    effect_of_skill, find_row, first_ten, resolve_skill_effect_id, row_at, BehaviorConditionRow,
    SkillEffectRow, SkillLinkRow, SlotRow,
};
use crate::fight_step::builder::ActEffectBuilder;
use crate::lookup::{entity_of, everyone, find_entity, members};
use crate::mechanics::channel::{alive, is_alive, read_trimmed, trimmed_number};
use crate::mechanics::injury_counter::{
    collect_dead_effects_after_damage, death_effects, find_team, is_damage, is_damage_effect_type,
    kind_of, killed_by, read_kind, team_of, InjuryCounter,
};
use crate::model::lists::group_effects_view;
use crate::model::{
    effects_view, entities_view, ActEffect, ActType, EffectType, EffectView, EntityView, Fight,
    FightEntityInfo, FightHurtInfo, FightStep, FightView, StepView,
};
use crate::text::{
    after_prefix, begins_with, number, number_or_zero, parse_number, pieces, split_text, text_is,
    texts_view, trim_text, trimmed,
};
use vstd::prelude::*;

verus! {

broadcast use group_effects_view;

/// The game tables that passives are looked up in.
#[derive(Debug)]
pub struct PassiveTables {
    pub links: Vec<SkillLinkRow>,
    pub skills: Vec<SkillEffectRow>,
    pub conditions: Vec<BehaviorConditionRow>,
}

/// The row of a passive skill; only positive ids count.
pub open spec fn passive_row(t: PassiveTables, id: i32) -> Option<SkillEffectRow> {
    if id <= 0 {
        None
    } else {
        row_at(t.skills@, effect_of_skill(t.links@, id))
    }
}

fn find_passive_row<'a>(t: &'a PassiveTables, id: i32) -> (r: Option<&'a SkillEffectRow>)
    ensures
        match r {
            Some(x) => passive_row(*t, id) == Some(*x),
            None => passive_row(*t, id) is None,
        },
{
    if id <= 0 {
        None
    } else {
        find_row(&t.skills, resolve_skill_effect_id(&t.links, id))
    }
}

/// The rate that a skill-rate behaviour adds; zero for any other behaviour.
pub open spec fn rate_of(behavior: Seq<char>) -> i32 {
    let t = trimmed(behavior);
    if begins_with(t, "10001#"@) {
        number_or_zero(trimmed(t.skip("10001#"@.len() as int)))
    } else {
        0
    }
}

fn read_rate(behavior: &str) -> (r: i32)
    ensures
        r == rate_of(behavior@),
{
    let t = trim_text(behavior);
    match after_prefix(t.as_str(), "10001#") {
        Some(rest) => {
            let rest = trim_text(rest.as_str());
            match parse_number(rest.as_str()) {
                Some(n) => n,
                None => 0,
            }
        },
        None => 0,
    }
}

/// Whether a condition segment is of a type.
pub open spec fn segment_is(
    segment: Seq<char>,
    conditions: Seq<BehaviorConditionRow>,
    cond_type: Seq<char>,
) -> bool {
    let id = trimmed_number(pieces(segment, '#'), 0);
    &&& id is Some
    &&& row_at(conditions, id->0) is Some
    &&& row_at(conditions, id->0)->0.cond_type@ == cond_type
}

/// Whether a condition segment lists a skill among its parameters.
pub open spec fn segment_lists(segment: Seq<char>, skill_id: i32) -> bool {
    exists|k: int|
        1 <= k < pieces(segment, '#').len() && number(
            trimmed(#[trigger] pieces(segment, '#')[k]),
        ) == Some(skill_id)
}

/// Whether a condition segment asks for the use of a skill.
pub open spec fn segment_asks_skill(
    segment: Seq<char>,
    conditions: Seq<BehaviorConditionRow>,
    skill_id: i32,
) -> bool {
    (segment_is(segment, conditions, "UseSkillId"@) || segment_is(
        segment,
        conditions,
        "CanUseSkill"@,
    )) && segment_lists(segment, skill_id)
}

fn check_segment(
    parts: &Vec<String>,
    segment: &String,
    conditions: &Vec<BehaviorConditionRow>,
    cond_type: &str,
) -> (r: bool)
    requires
        texts_view(parts@) == pieces(segment@, '#'),
    ensures
        r == segment_is(segment@, conditions@, cond_type@),
{
    match read_trimmed(parts, 0) {
        Some(id) => match find_row(conditions, id) {
            Some(c) => text_is(&c.cond_type, cond_type),
            None => false,
        },
        None => false,
    }
}

fn check_lists(parts: &Vec<String>, segment: &String, skill_id: i32) -> (r: bool)
    requires
        texts_view(parts@) == pieces(segment@, '#'),
    ensures
        r == segment_lists(segment@, skill_id),
{
    let ghost ps = pieces(segment@, '#');
    let mut k: usize = 1;
    while k < parts.len()
        invariant
            1 <= k,
            texts_view(parts@) == ps,
            ps == pieces(segment@, '#'),
            forall|j: int|
                1 <= j < k && j < ps.len() ==> number(trimmed(#[trigger] ps[j])) != Some(skill_id),
        decreases parts.len() - k,
    {
        if let Some(n) = read_trimmed(parts, k) {
            if n == skill_id {
                assert(number(trimmed(ps[k as int])) == Some(skill_id));
                return true;
            }
        }
        k += 1;
    }
    false
}

/// Whether one of some condition segments asks for the use of a skill.
pub open spec fn asks_skill(
    segments: Seq<Seq<char>>,
    conditions: Seq<BehaviorConditionRow>,
    skill_id: i32,
) -> bool {
    exists|k: int|
        0 <= k < segments.len() && segment_asks_skill(#[trigger] segments[k], conditions, skill_id)
}

/// The cap that the last injury-count segment sets; none if there is no such
/// segment or it names no number.
pub open spec fn injury_cap(
    segments: Seq<Seq<char>>,
    conditions: Seq<BehaviorConditionRow>,
) -> Option<i32>
    decreases segments.len(),
{
    if segments.len() == 0 {
        None
    } else if segment_is(segments.last(), conditions, "TeamInjuryCountRound"@) {
        trimmed_number(pieces(segments.last(), '#'), 1)
    } else {
        injury_cap(segments.drop_last(), conditions)
    }
}

/// Whether one of some condition segments counts injuries.
pub open spec fn counts_injuries(
    segments: Seq<Seq<char>>,
    conditions: Seq<BehaviorConditionRow>,
) -> bool {
    exists|k: int|
        0 <= k < segments.len() && segment_is(
            #[trigger] segments[k],
            conditions,
            "TeamInjuryCountRound"@,
        )
}

/// The cap and the rate that a slot gives a skill.
pub open spec fn slot_params(
    slot: SlotRow,
    conditions: Seq<BehaviorConditionRow>,
    skill_id: i32,
) -> Option<(i32, i32)> {
    let rate = rate_of(slot.behavior@);
    let segments = pieces(slot.condition@, '&');
    if rate <= 0 || trimmed(slot.condition@).len() == 0 || !asks_skill(
        segments,
        conditions,
        skill_id,
    ) {
        None
    } else {
        Some(
            (
                match injury_cap(segments, conditions) {
                    Some(c) => c,
                    None => 20,
                },
                rate,
            ),
        )
    }
}

/// The cap and the rate that the first matching slot gives a skill.
pub open spec fn slots_params(
    slots: Seq<SlotRow>,
    conditions: Seq<BehaviorConditionRow>,
    skill_id: i32,
) -> Option<(i32, i32)>
    decreases slots.len(),
{
    if slots.len() == 0 {
        None
    } else {
        match slot_params(slots[0], conditions, skill_id) {
            Some(p) => Some(p),
            None => slots_params(slots.skip(1), conditions, skill_id),
        }
    }
}

/// The cap and the rate that the first matching passive gives a skill.
pub open spec fn passives_params(
    passives: Seq<i32>,
    t: PassiveTables,
    skill_id: i32,
) -> Option<(i32, i32)>
    decreases passives.len(),
{
    if passives.len() == 0 {
        None
    } else {
        let here = match passive_row(t, passives[0]) {
            Some(row) => slots_params(first_ten(row.slots@), t.conditions@, skill_id),
            None => None,
        };
        match here {
            Some(p) => Some(p),
            None => passives_params(passives.skip(1), t, skill_id),
        }
    }
}

fn read_slot_params(
    slot: &SlotRow,
    conditions: &Vec<BehaviorConditionRow>,
    skill_id: i32,
) -> (r: Option<(i32, i32)>)
    ensures
        r == slot_params(*slot, conditions@, skill_id),
{
    let rate = read_rate(slot.behavior.as_str());
    let bare = trim_text(slot.condition.as_str());
    if rate <= 0 || bare.as_str().is_empty() {
        return None;
    }
    let segments = split_text(slot.condition.as_str(), '&');
    let ghost ps = pieces(slot.condition@, '&');
    let mut matched: bool = false;
    let mut cap: Option<i32> = None;
    assert(ps.take(0).len() == 0);
    for i in 0..segments.len()
        invariant
            texts_view(segments@) == ps,
            cap == injury_cap(ps.take(i as int), conditions@),
            matched == (exists|k: int|
                0 <= k < i && segment_asks_skill(#[trigger] ps[k], conditions@, skill_id)),
    {
        assert(ps.take(i + 1).drop_last() =~= ps.take(i as int));
        assert(ps.take(i + 1).last() == segments@[i as int]@);
        assert(ps[i as int] == segments@[i as int]@);
        let parts = split_text(segments[i].as_str(), '#');
        proof {
            reveal_strlit("UseSkillId");
            reveal_strlit("CanUseSkill");
            reveal_strlit("TeamInjuryCountRound");
            assert("UseSkillId"@.len() == 10 && "CanUseSkill"@.len() == 11
                && "TeamInjuryCountRound"@.len() == 20);
        }
        if check_segment(&parts, &segments[i], conditions, "UseSkillId") || check_segment(
            &parts,
            &segments[i],
            conditions,
            "CanUseSkill",
        ) {
            if check_lists(&parts, &segments[i], skill_id) {
                assert(segment_asks_skill(ps[i as int], conditions@, skill_id));
                matched = true;
            }
        } else if check_segment(&parts, &segments[i], conditions, "TeamInjuryCountRound") {
            cap = read_trimmed(&parts, 1);
        }
    }
    assert(ps.take(ps.len() as int) =~= ps);
    if matched {
        Some(
            (
                match cap {
                    Some(c) => c,
                    None => 20,
                },
                rate,
            ),
        )
    } else {
        None
    }
}

fn read_slots_params(
    row: &SkillEffectRow,
    conditions: &Vec<BehaviorConditionRow>,
    skill_id: i32,
) -> (r: Option<(i32, i32)>)
    ensures
        r == slots_params(first_ten(row.slots@), conditions@, skill_id),
{
    let n: usize = if row.slots.len() > 10 {
        10
    } else {
        row.slots.len()
    };
    let ghost lead = first_ten(row.slots@);
    assert(lead.skip(0) =~= lead);
    let mut i: usize = 0;
    while i < n
        invariant
            i <= n,
            n == lead.len(),
            n <= row.slots.len(),
            lead == first_ten(row.slots@),
            forall|k: int| 0 <= k < n ==> lead[k] == row.slots@[k],
            slots_params(lead.skip(i as int), conditions@, skill_id) == slots_params(
                lead,
                conditions@,
                skill_id,
            ),
        decreases n - i,
    {
        assert(lead.skip(i as int)[0] == row.slots@[i as int]);
        assert(lead.skip(i as int).skip(1) =~= lead.skip(i + 1));
        let found = read_slot_params(&row.slots[i], conditions, skill_id);
        if found.is_some() {
            return found;
        }
        i += 1;
    }
    None
}

/// Finds the cap and the rate that a fighter's passives give a skill per injury.
pub fn find_round_injury_skill_rate_params(
    fight: &Fight,
    holder_uid: i64,
    output_skill_id: i32,
    tables: &PassiveTables,
) -> (r: Option<(i32, i32)>)
    ensures
        r == match entity_of(fight@, holder_uid) {
            Some(e) => passives_params(e.passive_skill, *tables, output_skill_id),
            None => None,
        },
{
    match find_entity(fight, holder_uid) {
        Some(holder) => {
            let ghost s = holder.passive_skill@;
            assert(s.skip(0) =~= s);
            let mut i: usize = 0;
            while i < holder.passive_skill.len()
                invariant
                    i <= holder.passive_skill@.len(),
                    s == holder.passive_skill@,
                    entity_of(fight@, holder_uid) == Some(holder@),
                    passives_params(s.skip(i as int), *tables, output_skill_id)
                        == passives_params(s, *tables, output_skill_id),
                decreases holder.passive_skill@.len() - i,
            {
                assert(s.skip(i as int)[0] == s[i as int]);
                assert(s.skip(i as int).skip(1) =~= s.skip(i + 1));
                if let Some(row) = find_passive_row(tables, holder.passive_skill[i]) {
                    let found = read_slots_params(row, &tables.conditions, output_skill_id);
                    if found.is_some() {
                        return found;
                    }
                }
                i += 1;
            }
            None
        },
        None => None,
    }
}

/// Whether a slot adds a rate for injuries.
pub open spec fn slot_counts(slot: SlotRow, conditions: Seq<BehaviorConditionRow>) -> bool {
    &&& rate_of(slot.behavior@) > 0
    &&& trimmed(slot.condition@).len() > 0
    &&& counts_injuries(pieces(slot.condition@, '&'), conditions)
}

/// Whether a passive adds a rate for injuries.
pub open spec fn passive_counts(id: i32, t: PassiveTables) -> bool {
    passive_row(t, id) is Some && exists|k: int|
        0 <= k < first_ten(passive_row(t, id)->0.slots@).len() && slot_counts(
            #[trigger] first_ten(passive_row(t, id)->0.slots@)[k],
            t.conditions@,
        )
}

/// Whether one of some passives adds a rate for injuries.
pub open spec fn any_passive_counts(passives: Seq<i32>, t: PassiveTables) -> bool {
    exists|k: int| 0 <= k < passives.len() && passive_counts(#[trigger] passives[k], t)
}

fn check_slot_counts(slot: &SlotRow, conditions: &Vec<BehaviorConditionRow>) -> (r: bool)
    ensures
        r == slot_counts(*slot, conditions@),
{
    let bare = trim_text(slot.condition.as_str());
    if read_rate(slot.behavior.as_str()) <= 0 || bare.as_str().is_empty() {
        return false;
    }
    let segments = split_text(slot.condition.as_str(), '&');
    let ghost ps = pieces(slot.condition@, '&');
    for i in 0..segments.len()
        invariant
            texts_view(segments@) == ps,
            ps == pieces(slot.condition@, '&'),
            rate_of(slot.behavior@) > 0,
            trimmed(slot.condition@).len() > 0,
            forall|k: int|
                0 <= k < i ==> !segment_is(
                    #[trigger] ps[k],
                    conditions@,
                    "TeamInjuryCountRound"@,
                ),
    {
        assert(ps[i as int] == segments@[i as int]@);
        let parts = split_text(segments[i].as_str(), '#');
        if check_segment(&parts, &segments[i], conditions, "TeamInjuryCountRound") {
            return true;
        }
    }
    false
}

fn check_passive_counts(id: i32, tables: &PassiveTables) -> (r: bool)
    ensures
        r == passive_counts(id, *tables),
{
    match find_passive_row(tables, id) {
        Some(row) => {
            let n: usize = if row.slots.len() > 10 {
                10
            } else {
                row.slots.len()
            };
            let ghost lead = first_ten(row.slots@);
            for i in 0..n
                invariant
                    n == lead.len(),
                    n <= row.slots.len(),
                    lead == first_ten(row.slots@),
                    passive_row(*tables, id) == Some(*row),
                    forall|k: int| 0 <= k < n ==> lead[k] == row.slots@[k],
                    forall|k: int|
                        0 <= k < i ==> !slot_counts(#[trigger] lead[k], tables.conditions@),
            {
                assert(lead[i as int] == row.slots@[i as int]);
                if check_slot_counts(&row.slots[i], &tables.conditions) {
                    assert(slot_counts(
                        first_ten(passive_row(*tables, id)->0.slots@)[i as int],
                        tables.conditions@,
                    ));
                    return true;
                }
            }
            false
        },
        None => false,
    }
}

/// Whether a fighter has a passive that adds a rate for injuries.
pub fn has_round_injury_counter_passive(
    fight: &Fight,
    holder_uid: i64,
    tables: &PassiveTables,
) -> (r: bool)
    ensures
        r == (entity_of(fight@, holder_uid) is Some && any_passive_counts(
            entity_of(fight@, holder_uid)->0.passive_skill,
            *tables,
        )),
{
    match find_entity(fight, holder_uid) {
        Some(holder) => {
            for i in 0..holder.passive_skill.len()
                invariant
                    entity_of(fight@, holder_uid) == Some(holder@),
                    forall|k: int|
                        0 <= k < i ==> !passive_counts(
                            #[trigger] holder.passive_skill@[k],
                            *tables,
                        ),
            {
                if check_passive_counts(holder.passive_skill[i], tables) {
                    return true;
                }
            }
            false
        },
        None => false,
    }
}

/// Whether a fighter of a list counts the injuries of a team: it is alive, a
/// member, and the battle knows it by a passive that does.
pub open spec fn counts_for_team(
    f: FightView,
    e: EntityView,
    team: i32,
    t: PassiveTables,
) -> bool {
    &&& is_alive(e)
    &&& e.team_type == Some(team)
    &&& e.uid is Some
    &&& entity_of(f, e.uid->0) is Some
    &&& any_passive_counts(entity_of(f, e.uid->0)->0.passive_skill, t)
}

/// The first fighter of a list that counts the injuries of a team.
pub open spec fn first_counter(
    f: FightView,
    s: Seq<EntityView>,
    team: i32,
    t: PassiveTables,
) -> Option<i64>
    decreases s.len(),
{
    if s.len() == 0 {
        None
    } else if counts_for_team(f, s[0], team, t) {
        s[0].uid
    } else {
        first_counter(f, s.skip(1), team, t)
    }
}

/// What the first of two lists finds comes first.
pub proof fn first_counter_join(
    f: FightView,
    a: Seq<EntityView>,
    b: Seq<EntityView>,
    team: i32,
    t: PassiveTables,
)
    ensures
        first_counter(f, a + b, team, t) == match first_counter(f, a, team, t) {
            Some(u) => Some(u),
            None => first_counter(f, b, team, t),
        },
    decreases a.len(),
{
    if a.len() == 0 {
        assert(a + b =~= b);
    } else {
        first_counter_join(f, a.skip(1), b, team, t);
        assert((a + b).skip(1) =~= a.skip(1) + b);
    }
}

fn find_counter_in(
    fight: &Fight,
    v: &Vec<FightEntityInfo>,
    team: i32,
    tables: &PassiveTables,
) -> (r: Option<i64>)
    ensures
        r == first_counter(fight@, entities_view(v@), team, *tables),
{
    let ghost s = entities_view(v@);
    assert(s.skip(0) =~= s);
    let mut i: usize = 0;
    while i < v.len()
        invariant
            i <= v.len(),
            s == entities_view(v@),
            first_counter(fight@, s.skip(i as int), team, *tables) == first_counter(
                fight@,
                s,
                team,
                *tables,
            ),
        decreases v.len() - i,
    {
        assert(s.skip(i as int)[0] == v@[i as int]@);
        assert(s.skip(i as int).skip(1) =~= s.skip(i + 1));
        let member: bool = match v[i].team_type {
            Some(t) => t == team,
            None => false,
        };
        if member && alive(&v[i]) {
            if let Some(uid) = v[i].uid {
                if has_round_injury_counter_passive(fight, uid, tables) {
                    return Some(uid);
                }
            }
        }
        i += 1;
    }
    None
}

/// Finds the fighter that counts the injuries of a team.
pub fn find_round_injury_holder_uid(
    fight: &Fight,
    team_type: i32,
    tables: &PassiveTables,
) -> (r: Option<i64>)
    ensures
        r == first_counter(fight@, everyone(fight@), team_type, *tables),
{
    let mut found: Option<i64> = None;
    if let Some(t) = &fight.attacker {
        proof {
            first_counter_join(fight@, t@.entitys, t@.sub_entitys, team_type, *tables);
        }
        found = find_counter_in(fight, &t.entitys, team_type, tables);
        if found.is_none() {
            found = find_counter_in(fight, &t.sub_entitys, team_type, tables);
        }
    }
    assert(found == first_counter(fight@, members(fight@.attacker), team_type, *tables));
    proof {
        first_counter_join(
            fight@,
            members(fight@.attacker),
            members(fight@.defender),
            team_type,
            *tables,
        );
    }
    if found.is_some() {
        return found;
    }
    if let Some(t) = &fight.defender {
        proof {
            first_counter_join(fight@, t@.entitys, t@.sub_entitys, team_type, *tables);
        }
        found = find_counter_in(fight, &t.entitys, team_type, tables);
        if found.is_none() {
            found = find_counter_in(fight, &t.sub_entitys, team_type, tables);
        }
    }
    found
}

/// Finds who counts the injuries that a card's host step shows, and the count.
/// Nothing is shown without a battle id, a host, its team, or an injury.
pub fn find_card_host_injury_marker_params(
    counter: &InjuryCounter,
    fight: &Fight,
    host_from_uid: i64,
    tables: &PassiveTables,
) -> (r: Option<(i64, i32)>)
    ensures
        ({
            let battle = or_zero(fight@.battle_id);
            let team = team_of(fight@, host_from_uid);
            if battle == 0 || host_from_uid == 0 || team is None || counter.count(battle, team->0)
                <= 0 {
                r is None
            } else {
                r == match first_counter(fight@, everyone(fight@), team->0, *tables) {
                    Some(uid) => Some((uid, counter.count(battle, team->0))),
                    None => None,
                }
            }
        }),
{
    let battle_id = value(fight.battle_id);
    if battle_id == 0 || host_from_uid == 0 {
        return None;
    }
    let team = match find_team(fight, host_from_uid) {
        Some(t) => t,
        None => {
            return None;
        },
    };
    let count = counter.get_round_injury_count(battle_id, team);
    if count <= 0 {
        return None;
    }
    match find_round_injury_holder_uid(fight, team, tables) {
        Some(uid) => Some((uid, count)),
        None => None,
    }
}

/// Where a nested skill step is: in an effect of the list, or one level deeper.
#[derive(Clone, Copy, PartialEq, Eq, Structural, Debug)]
pub enum SkillPath {
    Direct { index: usize },
    Inner { index: usize, inner: usize },
}

/// Whether a step plays a skill.
pub open spec fn plays(step: StepView, act_id: i32) -> bool {
    step.act_type == Some(ActType::Skill) && step.act_id == Some(act_id)
}

/// The position of the first effect whose step plays a skill.
pub open spec fn first_playing(s: Seq<EffectView>, act_id: i32) -> Option<nat>
    decreases s.len(),
{
    if s.len() == 0 {
        None
    } else if s[0].fight_step is Some && plays(s[0].fight_step->0, act_id) {
        Some(0)
    } else {
        match first_playing(s.skip(1), act_id) {
            Some(i) => Some(i + 1),
            None => None,
        }
    }
}

/// A position found is a position in the list.
pub proof fn first_playing_bound(s: Seq<EffectView>, act_id: i32)
    ensures
        first_playing(s, act_id) is Some ==> first_playing(s, act_id)->0 < s.len()
            && s[first_playing(s, act_id)->0 as int].fight_step is Some,
    decreases s.len(),
{
    if s.len() > 0 {
        first_playing_bound(s.skip(1), act_id);
    }
}

/// The place of a skill step: the first effect that carries it, itself or one
/// level deeper.
pub open spec fn skill_path(s: Seq<EffectView>, from: nat, act_id: i32) -> Option<SkillPath>
    decreases s.len() - from,
{
    if from >= s.len() {
        None
    } else {
        let here = match s[from as int].fight_step {
            Some(step) => if plays(step, act_id) {
                Some(SkillPath::Direct { index: from as usize })
            } else {
                match first_playing(step.act_effect, act_id) {
                    Some(j) => Some(
                        SkillPath::Inner { index: from as usize, inner: j as usize },
                    ),
                    None => None,
                }
            },
            None => None,
        };
        match here {
            Some(p) => Some(p),
            None => skill_path(s, from + 1, act_id),
        }
    }
}

fn is_playing(step: &FightStep, act_id: i32) -> (r: bool)
    ensures
        r == plays(step@, act_id),
{
    match (step.act_type, step.act_id) {
        (Some(t), Some(id)) => t == ActType::Skill && id == act_id,
        _ => false,
    }
}

fn find_first_playing(v: &Vec<ActEffect>, act_id: i32) -> (r: Option<usize>)
    ensures
        match r {
            Some(i) => first_playing(effects_view(v@), act_id) == Some(i as nat),
            None => first_playing(effects_view(v@), act_id) is None,
        },
{
    let ghost s = effects_view(v@);
    assert(s.skip(0) =~= s);
    let mut i: usize = 0;
    while i < v.len()
        invariant
            i <= v.len(),
            s == effects_view(v@),
            first_playing(s, act_id) == match first_playing(s.skip(i as int), act_id) {
                Some(k) => Some((k + i) as nat),
                None => None,
            },
        decreases v.len() - i,
    {
        assert(s.skip(i as int)[0] == v@[i as int]@);
        assert(s.skip(i as int).skip(1) =~= s.skip(i + 1));
        if let Some(step) = &v[i].fight_step {
            if is_playing(step, act_id) {
                return Some(i);
            }
        }
        i += 1;
    }
    None
}

/// Finds a nested skill step.
pub fn find_nested_skill_step(v: &Vec<ActEffect>, act_id: i32) -> (r: Option<SkillPath>)
    ensures
        r == skill_path(effects_view(v@), 0, act_id),
        r is Some ==> leads(effects_view(v@), r->0),
{
    let ghost s = effects_view(v@);
    let mut i: usize = 0;
    while i < v.len()
        invariant
            i <= v.len(),
            s == effects_view(v@),
            skill_path(s, i as nat, act_id) == skill_path(s, 0, act_id),
        decreases v.len() - i,
    {
        assert(s[i as int] == v@[i as int]@);
        if let Some(step) = &v[i].fight_step {
            if is_playing(step, act_id) {
                return Some(SkillPath::Direct { index: i });
            }
            if let Some(j) = find_first_playing(&step.act_effect, act_id) {
                proof {
                    first_playing_bound(step@.act_effect, act_id);
                }
                return Some(SkillPath::Inner { index: i, inner: j });
            }
        }
        i += 1;
    }
    None
}

/// Whether a path leads to a step.
pub open spec fn leads(s: Seq<EffectView>, p: SkillPath) -> bool {
    match p {
        SkillPath::Direct { index } => index < s.len() && s[index as int].fight_step is Some,
        SkillPath::Inner { index, inner } => {
            &&& index < s.len()
            &&& s[index as int].fight_step is Some
            &&& inner < s[index as int].fight_step->0.act_effect.len()
            &&& s[index as int].fight_step->0.act_effect[inner as int].fight_step is Some
        },
    }
}

/// The step that a path leads to.
pub open spec fn step_at(s: Seq<EffectView>, p: SkillPath) -> StepView {
    match p {
        SkillPath::Direct { index } => s[index as int].fight_step->0,
        SkillPath::Inner { index, inner } =>
            s[index as int].fight_step->0.act_effect[inner as int].fight_step->0,
    }
}

/// The list with another step where a path leads.
pub open spec fn with_step_at(s: Seq<EffectView>, p: SkillPath, step: StepView) -> Seq<EffectView> {
    match p {
        SkillPath::Direct { index } => s.update(
            index as int,
            EffectView { fight_step: Some(step), ..s[index as int] },
        ),
        SkillPath::Inner { index, inner } => {
            let outer = s[index as int].fight_step->0;
            s.update(
                index as int,
                EffectView {
                    fight_step: Some(
                        StepView {
                            act_effect: outer.act_effect.update(
                                inner as int,
                                EffectView {
                                    fight_step: Some(step),
                                    ..outer.act_effect[inner as int]
                                },
                            ),
                            ..outer
                        },
                    ),
                    ..s[index as int]
                },
            )
        },
    }
}

/// The position of the first hit; the end of the list if there is none.
pub open spec fn first_hit(s: Seq<EffectView>) -> nat
    decreases s.len(),
{
    if s.len() == 0 || is_damage(kind_of(s[0])) {
        0
    } else {
        1 + first_hit(s.skip(1))
    }
}

/// A position of the list, or its end.
pub proof fn first_hit_bound(s: Seq<EffectView>)
    ensures
        first_hit(s) <= s.len(),
    decreases s.len(),
{
    if s.len() > 0 {
        first_hit_bound(s.skip(1));
    }
}

fn find_first_hit(v: &Vec<ActEffect>) -> (r: usize)
    ensures
        r == first_hit(effects_view(v@)),
{
    let ghost s = effects_view(v@);
    assert(s.skip(0) =~= s);
    let mut i: usize = 0;
    while i < v.len()
        invariant
            i <= v.len(),
            s == effects_view(v@),
            first_hit(s) == i + first_hit(s.skip(i as int)),
        decreases v.len() - i,
    {
        assert(s.skip(i as int)[0] == v@[i as int]@);
        assert(s.skip(i as int).skip(1) =~= s.skip(i + 1));
        if is_damage_effect_type(read_kind(&v[i])) {
            return i;
        }
        i += 1;
    }
    i
}

/// Whether an effect is a hit with an amount that a bonus raises.
pub open spec fn is_raised(e: EffectView) -> bool {
    is_damage(kind_of(e)) && or_zero(e.effect_num) > 0
}

/// What a bonus rate adds to a hit.
pub open spec fn bonus_on(e: EffectView, rate: i32) -> int {
    sat_i32(or_zero(e.effect_num) * rate) / 800
}

/// A hit with its bonus.
pub open spec fn raised(e: EffectView, rate: i32) -> EffectView {
    if !is_raised(e) {
        e
    } else {
        let amount = sat_i32(or_zero(e.effect_num) + bonus_on(e, rate)) as i32;
        EffectView {
            effect_num: Some(amount),
            hurt_info: match e.hurt_info {
                Some(h) => Some(
                    FightHurtInfo {
                        damage: Some(amount),
                        reduce_hp: if or_zero(h.reduce_hp) > 0 {
                            Some(amount)
                        } else {
                            h.reduce_hp
                        },
                        ..h
                    },
                ),
                None => None,
            },
            ..e
        }
    }
}

/// The hits of a list with their bonus.
pub open spec fn raised_all(s: Seq<EffectView>, rate: i32) -> Seq<EffectView> {
    Seq::new(s.len(), |i: int| raised(s[i], rate))
}

/// The target and the bonus of the first raised hit that has a target.
pub open spec fn first_raised(s: Seq<EffectView>, rate: i32) -> (i64, int)
    decreases s.len(),
{
    if s.len() == 0 {
        (0i64, 0int)
    } else {
        let before = first_raised(s.drop_last(), rate);
        if is_raised(s.last()) && before.0 == 0 {
            (or_zero64(s.last().target_id), bonus_on(s.last(), rate))
        } else {
            before
        }
    }
}

/// The skill step with the bonus of the injuries: the count is shown before the
/// first hit, every hit is raised, the deaths that follow are reported, and the
/// bonus is shown once as additional damage.
pub open spec fn step_with_bonus(
    f: FightView,
    step: StepView,
    holder_uid: i64,
    primary_target_uid: i64,
    stacks: i32,
    rate: i32,
) -> StepView {
    let shown = step.act_effect.insert(
        first_hit(step.act_effect) as int,
        EffectView::amount(EffectType::FightCounter, holder_uid, stacks),
    );
    let hits = raised_all(shown, rate);
    let all = hits + death_effects(killed_by(f, hits));
    let first = first_raised(shown, rate);
    let target = if primary_target_uid != 0 {
        primary_target_uid
    } else {
        first.0
    };
    StepView {
        act_effect: if target != 0 && first.1 > 0 {
            all.push(
                EffectView::amount(EffectType::AdditionalDamageCrit, target, first.1 as i32),
            )
        } else {
            all
        },
        ..step
    }
}

/// Raises one hit.
fn raise_hit(e: &mut ActEffect, rate: i32) -> (r: Option<i32>)
    requires
        rate > 0,
    ensures
        final(e)@ == raised(old(e)@, rate),
        r is Some <==> is_raised(old(e)@),
        r is Some ==> r->0 == bonus_on(old(e)@, rate),
{
    if !is_damage_effect_type(read_kind(e)) {
        return None;
    }
    let base = value(e.effect_num);
    if base <= 0 {
        return None;
    }
    let product = saturating_product(base, rate);
    assert(base * rate > 0) by (nonlinear_arith)
        requires
            base > 0,
            rate > 0,
    ;
    let bonus: i32 = product / 800;
    let amount = saturating_sum(base, bonus);
    e.effect_num = Some(amount);
    if let Some(h) = e.hurt_info {
        let mut h = h;
        h.damage = Some(amount);
        if value(h.reduce_hp) > 0 {
            h.reduce_hp = Some(amount);
        }
        e.hurt_info = Some(h);
    }
    Some(bonus)
}

fn add_bonus(
    fight: &Fight,
    step: FightStep,
    holder_uid: i64,
    primary_target_uid: i64,
    stacks: i32,
    rate: i32,
) -> (r: FightStep)
    requires
        rate > 0,
    ensures
        r@ == step_with_bonus(fight@, step@, holder_uid, primary_target_uid, stacks, rate),
{
    let ghost before = step@;
    let mut step = step;
    let at = find_first_hit(&step.act_effect);
    proof {
        first_hit_bound(step@.act_effect);
        assert(effects_view(step.act_effect@).len() == step.act_effect@.len());
    }
    step.act_effect.insert(at, ActEffectBuilder::fight_counter(holder_uid, stacks));
    let ghost shown = effects_view(step.act_effect@);
    assert(shown == before.act_effect.insert(
        first_hit(before.act_effect) as int,
        EffectView::amount(EffectType::FightCounter, holder_uid, stacks),
    ));
    let n = step.act_effect.len();
    let mut bonus: i32 = 0;
    let mut target: i64 = 0;
    assert(shown.take(0).len() == 0);
    for i in 0..n
        invariant
            rate > 0,
            n == shown.len(),
            step.act_effect@.len() == n,
            step@ == (StepView { act_effect: step@.act_effect, ..before }),
            forall|k: int|
                0 <= k < i ==> (#[trigger] step.act_effect@[k])@ == raised(shown[k], rate),
            forall|k: int| i <= k < n ==> (#[trigger] step.act_effect@[k])@ == shown[k],
            first_raised(shown.take(i as int), rate) == (target, bonus as int),
    {
        assert(shown.take(i + 1).drop_last() =~= shown.take(i as int));
        assert(shown.take(i + 1).last() == shown[i as int]);
        assert(step.act_effect@[i as int]@ == shown[i as int]);
        let hit = &mut step.act_effect[i];
        let uid = value64(hit.target_id);
        if let Some(b) = raise_hit(hit, rate) {
            if target == 0 {
                target = uid;
                bonus = b;
            }
        }
    }
    assert(shown.take(n as int) =~= shown);
    assert(effects_view(step.act_effect@) =~= raised_all(shown, rate));
    let mut deaths = collect_dead_effects_after_damage(fight, &step.act_effect);
    let ghost hits = step.act_effect@;
    let ghost fallen = deaths@;
    step.act_effect.append(&mut deaths);
    assert(step.act_effect@ == hits + fallen);
    let ghost all = raised_all(shown, rate) + death_effects(
        killed_by(fight@, raised_all(shown, rate)),
    );
    assert(effects_view(step.act_effect@) == all);
    assert(step@ == (StepView { act_effect: all, ..before }));
    let shown_at: i64 = if primary_target_uid != 0 {
        primary_target_uid
    } else {
        target
    };
    if shown_at != 0 && bonus > 0 {
        step.act_effect.push(ActEffectBuilder::additional_damage_crit(shown_at, bonus));
        assert(step@.act_effect == all.push(
            EffectView::amount(EffectType::AdditionalDamageCrit, shown_at, bonus),
        ));
    }
    step
}

/// Gives a nested skill step the bonus of the injuries. Nothing changes where the
/// skill is not among the effects or the bonus is not positive.
pub fn apply_round_injury_skill_bonus(
    fight: &Fight,
    skill_effects: &mut Vec<ActEffect>,
    holder_uid: i64,
    output_skill_id: i32,
    primary_target_uid: i64,
    stacks: i32,
    rate_per_stack: i32,
)
    ensures
        ({
            let s = effects_view(old(skill_effects)@);
            let rate = sat_i32(stacks * rate_per_stack);
            effects_view(final(skill_effects)@) == match skill_path(s, 0, output_skill_id) {
                Some(p) => if rate > 0 {
                    with_step_at(
                        s,
                        p,
                        step_with_bonus(
                            fight@,
                            step_at(s, p),
                            holder_uid,
                            primary_target_uid,
                            stacks,
                            rate as i32,
                        ),
                    )
                } else {
                    s
                },
                None => s,
            }
        }),
{
    let ghost s = effects_view(skill_effects@);
    let rate = saturating_product(stacks, rate_per_stack);
    if rate <= 0 {
        return;
    }
    match find_nested_skill_step(skill_effects, output_skill_id) {
        Some(path) => {
            match path {
                SkillPath::Direct { index } => {
                    proof {
                        assert(s[index as int] == skill_effects@[index as int]@);
                    }
                    let mut effect = skill_effects[index].clone();
                    if let Some(step) = effect.fight_step {
                        let step = add_bonus(
                            fight,
                            step,
                            holder_uid,
                            primary_target_uid,
                            stacks,
                            rate,
                        );
                        effect.fight_step = Some(step);
                        skill_effects[index] = effect;
                        assert(effects_view(skill_effects@) == s.update(index as int, effect@));
                        assert(effect@ == (EffectView {
                            fight_step: Some(step@),
                            ..s[index as int]
                        }));
                    }
                },
                SkillPath::Inner { index, inner } => {
                    proof {
                        assert(s[index as int] == skill_effects@[index as int]@);
                    }
                    let mut effect = skill_effects[index].clone();
                    if let Some(outer) = effect.fight_step {
                        let mut outer = outer;
                        proof {
                            assert(effects_view(outer.act_effect@).len() == outer.act_effect@.len());
                            assert(effects_view(outer.act_effect@)[inner as int]
                                == outer.act_effect@[inner as int]@);
                        }
                        let mut carrier = outer.act_effect[inner].clone();
                        if let Some(step) = carrier.fight_step {
                            let step = add_bonus(
                                fight,
                                step,
                                holder_uid,
                                primary_target_uid,
                                stacks,
                                rate,
                            );
                            carrier.fight_step = Some(step);
                            outer.act_effect[inner] = carrier;
                        }
                        let ghost inside = s[index as int].fight_step->0;
                        assert(outer@.act_effect == inside.act_effect.update(
                            inner as int,
                            outer.act_effect@[inner as int]@,
                        ));
                        effect.fight_step = Some(outer);
                        skill_effects[index] = effect;
                        assert(effects_view(skill_effects@) == s.update(index as int, effect@));
                    }
                },
            }
        },
        None => {},
    }
}

} // verus!
