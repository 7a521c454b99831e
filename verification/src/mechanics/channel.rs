//! Channels: buffs through which a fighter answers the skills of others.

use crate::buffs::{find_buff, first_buff, has_buff, holds, BuffInstance, BuffMgr};
use crate::config::{find_row, row_at, BuffActRow, Row, SkillBuffRow, SkillEffectRow, SlotRow};
use crate::fight_step::select::has_kind;
use crate::lookup::members;
use crate::model::lists::group_effects_view;
use crate::model::{
    effects_view, entities_view, ActEffect, EffectType, EffectView, EntityView, Fight,
    FightEntityInfo, FightView,
};
use crate::seqs::to_set_push;
use crate::text::{
    after_prefix, begins_with, number, number_or_zero, parse_number, piece_number, pieces,
    pieces_nonempty, split_text, text_is, texts_view, trim_text, trimmed,
};
use std::collections::HashSet;
use vstd::prelude::*;

verus! {

broadcast use {group_effects_view, vstd::std_specs::hash::group_hash_axioms};

/// What the monitor-continue feature of a buff says.
#[derive(Clone, Copy, PartialEq, Eq, Structural, Debug)]
pub struct MonitorRow {
    pub buff_id: i32,
    /// The buff that must be present, if positive.
    pub prerequisite_buff_id: i32,
    /// The skill that answers an enemy's skill.
    pub enemy_reaction_id: i32,
    /// The buff that counts the layers left; also the effect that is announced.
    pub counter_buff_id: i32,
    /// The skill that answers one's own skill.
    pub own_reaction_id: i32,
}

impl Row for MonitorRow {
    open spec fn key(&self) -> i32 {
        self.buff_id
    }

    fn id(&self) -> (r: i32) {
        self.buff_id
    }
}

/// A fighter that can answer an enemy's skill, and with what.
#[derive(Clone, Copy, PartialEq, Eq, Structural, Debug)]
pub struct MonitorContinueHolder {
    pub holder_uid: i64,
    pub channel_buff_id: i32,
    pub prerequisite_buff_id: i32,
    pub reactive_skill_id: i32,
    pub layer_counter_buff_id: i32,
}

/// The fighters that have a channel passive.
#[derive(Debug)]
pub struct ChannelState {
    /// A fighter and its trigger skill, for every channel passive.
    pub monitor_triggers: Vec<(i64, i32)>,
}

/// Whether an act is of a type.
pub open spec fn act_is(acts: Seq<BuffActRow>, act_id: i32, act_type: Seq<char>) -> bool {
    row_at(acts, act_id) is Some && row_at(acts, act_id)->0.act_type@ == act_type
}

/// The act that a feature entry names; zero if it names none.
pub open spec fn entry_act(entry: Seq<char>) -> i32 {
    number_or_zero(trimmed(pieces(entry, '#')[0]))
}

/// Whether some feature of a buff is an act of a type.
pub open spec fn feature_has_act(
    features: Seq<char>,
    acts: Seq<BuffActRow>,
    act_type: Seq<char>,
) -> bool {
    exists|k: int|
        0 <= k < pieces(features, '|').len() && act_is(
            acts,
            entry_act(#[trigger] pieces(features, '|')[k]),
            act_type,
        )
}

/// Tests whether an act is of a type.
pub fn is_act(acts: &Vec<BuffActRow>, act_id: i32, act_type: &str) -> (r: bool)
    ensures
        r == act_is(acts@, act_id, act_type@),
{
    match find_row(acts, act_id) {
        Some(a) => text_is(&a.act_type, act_type),
        None => false,
    }
}

/// Reads one trimmed number out of the pieces of an entry.
pub open spec fn trimmed_number(parts: Seq<Seq<char>>, k: int) -> Option<i32> {
    if 0 <= k < parts.len() {
        number(trimmed(parts[k]))
    } else {
        None
    }
}

/// Reads one trimmed number out of the pieces of an entry.
pub fn read_trimmed(parts: &Vec<String>, k: usize) -> (r: Option<i32>)
    ensures
        r == trimmed_number(texts_view(parts@), k as int),
{
    if k < parts.len() {
        let t = trim_text(parts[k].as_str());
        parse_number(t.as_str())
    } else {
        None
    }
}

/// Reads the act that a feature entry names.
pub fn act_of_entry(entry: &str) -> (r: i32)
    ensures
        r == entry_act(entry@),
{
    let parts = split_text(entry, '#');
    proof {
        pieces_nonempty(entry@, '#');
    }
    match read_trimmed(&parts, 0) {
        Some(n) => n,
        None => 0,
    }
}

fn has_feature_act(features: &str, acts: &Vec<BuffActRow>, act_type: &str) -> (r: bool)
    ensures
        r == feature_has_act(features@, acts@, act_type@),
{
    let entries = split_text(features, '|');
    let ghost ps = pieces(features@, '|');
    assert(texts_view(entries@) == ps);
    for i in 0..entries.len()
        invariant
            texts_view(entries@) == ps,
            ps == pieces(features@, '|'),
            forall|k: int|
                0 <= k < i ==> !act_is(acts@, entry_act(#[trigger] ps[k]), act_type@),
    {
        assert(ps[i as int] == entries@[i as int]@);
        if is_act(acts, act_of_entry(entries[i].as_str()), act_type) {
            return true;
        }
    }
    false
}

/// Whether a behaviour gives a buff that takes its attributes from an entity.
pub open spec fn gives_attr_from_entity(
    behavior: Seq<char>,
    buff_rows: Seq<SkillBuffRow>,
    acts: Seq<BuffActRow>,
) -> bool {
    let parts = pieces(behavior, '#');
    &&& parts[0] == "1"@
    &&& parts.len() > 1
    &&& number(parts[1]) is Some
    &&& row_at(buff_rows, number(parts[1])->0) is Some
    &&& feature_has_act(
        row_at(buff_rows, number(parts[1])->0)->0.features@,
        acts,
        "AttrFromEntity"@,
    )
}

fn check_attr_from_entity(
    behavior: &String,
    buff_rows: &Vec<SkillBuffRow>,
    acts: &Vec<BuffActRow>,
) -> (r: bool)
    ensures
        r == gives_attr_from_entity(behavior@, buff_rows@, acts@),
{
    let parts = split_text(behavior.as_str(), '#');
    proof {
        pieces_nonempty(behavior@, '#');
    }
    assert(texts_view(parts@)[0] == parts@[0]@);
    if !text_is(&parts[0], "1") {
        return false;
    }
    assert(parts@.len() > 1 ==> texts_view(parts@)[1] == parts@[1]@);
    match piece_number(&parts, 1) {
        Some(buff_id) => match find_row(buff_rows, buff_id) {
            Some(row) => has_feature_act(row.features.as_str(), acts, "AttrFromEntity"),
            None => false,
        },
        None => false,
    }
}

/// The slots of a passive that are looked at: the first five.
pub open spec fn leading_slots(slots: Seq<SlotRow>) -> Seq<SlotRow> {
    if slots.len() > 5 {
        slots.take(5)
    } else {
        slots
    }
}

/// One entry per slot that gives an attribute-taking buff.
pub open spec fn slot_triggers(
    slots: Seq<SlotRow>,
    uid: i64,
    passive: i32,
    buff_rows: Seq<SkillBuffRow>,
    acts: Seq<BuffActRow>,
) -> Seq<(i64, i32)>
    decreases slots.len(),
{
    if slots.len() == 0 {
        Seq::empty()
    } else {
        let before = slot_triggers(slots.drop_last(), uid, passive, buff_rows, acts);
        if gives_attr_from_entity(slots.last().behavior@, buff_rows, acts) {
            before.push((uid, passive))
        } else {
            before
        }
    }
}

/// The channel passives among the passives of a fighter.
pub open spec fn passive_triggers(
    passives: Seq<i32>,
    uid: i64,
    skills: Seq<SkillEffectRow>,
    buff_rows: Seq<SkillBuffRow>,
    acts: Seq<BuffActRow>,
) -> Seq<(i64, i32)>
    decreases passives.len(),
{
    if passives.len() == 0 {
        Seq::empty()
    } else {
        passive_triggers(passives.drop_last(), uid, skills, buff_rows, acts) + match row_at(
            skills,
            passives.last(),
        ) {
            Some(row) => slot_triggers(
                leading_slots(row.slots@),
                uid,
                passives.last(),
                buff_rows,
                acts,
            ),
            None => Seq::empty(),
        }
    }
}

/// The id of a fighter; zero if it has none.
pub open spec fn uid_or_zero(e: EntityView) -> i64 {
    match e.uid {
        Some(u) => u,
        None => 0,
    }
}

/// The channel passives of a row of fighters.
pub open spec fn team_triggers(
    team: Seq<EntityView>,
    skills: Seq<SkillEffectRow>,
    buff_rows: Seq<SkillBuffRow>,
    acts: Seq<BuffActRow>,
) -> Seq<(i64, i32)>
    decreases team.len(),
{
    if team.len() == 0 {
        Seq::empty()
    } else {
        team_triggers(team.drop_last(), skills, buff_rows, acts) + passive_triggers(
            team.last().passive_skill,
            uid_or_zero(team.last()),
            skills,
            buff_rows,
            acts,
        )
    }
}

fn collect_slot_triggers(
    out: &mut Vec<(i64, i32)>,
    row: &SkillEffectRow,
    uid: i64,
    passive: i32,
    buff_rows: &Vec<SkillBuffRow>,
    acts: &Vec<BuffActRow>,
)
    ensures
        final(out)@ == old(out)@ + slot_triggers(
            leading_slots(row.slots@),
            uid,
            passive,
            buff_rows@,
            acts@,
        ),
{
    let n: usize = if row.slots.len() > 5 {
        5
    } else {
        row.slots.len()
    };
    let ghost lead = leading_slots(row.slots@);
    let ghost start = out@;
    assert(start + slot_triggers(lead.take(0), uid, passive, buff_rows@, acts@) =~= start);
    for i in 0..n
        invariant
            n == lead.len(),
            n <= row.slots.len(),
            forall|k: int| 0 <= k < n ==> lead[k] == row.slots@[k],
            out@ == start + slot_triggers(lead.take(i as int), uid, passive, buff_rows@, acts@),
    {
        assert(lead.take(i + 1).drop_last() =~= lead.take(i as int));
        assert(lead.take(i + 1).last() == row.slots@[i as int]);
        if check_attr_from_entity(&row.slots[i].behavior, buff_rows, acts) {
            out.push((uid, passive));
        }
        assert(out@ =~= start + slot_triggers(lead.take(i + 1), uid, passive, buff_rows@, acts@));
    }
    assert(lead.take(n as int) =~= lead);
}

fn collect_passive_triggers(
    out: &mut Vec<(i64, i32)>,
    passives: &Vec<i32>,
    uid: i64,
    skills: &Vec<SkillEffectRow>,
    buff_rows: &Vec<SkillBuffRow>,
    acts: &Vec<BuffActRow>,
)
    ensures
        final(out)@ == old(out)@ + passive_triggers(passives@, uid, skills@, buff_rows@, acts@),
{
    let ghost start = out@;
    assert(start + passive_triggers(passives@.take(0), uid, skills@, buff_rows@, acts@) =~= start);
    for i in 0..passives.len()
        invariant
            out@ == start + passive_triggers(
                passives@.take(i as int),
                uid,
                skills@,
                buff_rows@,
                acts@,
            ),
    {
        let ghost before = out@;
        assert(passives@.take(i + 1).drop_last() =~= passives@.take(i as int));
        assert(passives@.take(i + 1).last() == passives@[i as int]);
        if let Some(row) = find_row(skills, passives[i]) {
            collect_slot_triggers(out, row, uid, passives[i], buff_rows, acts);
        }
        assert(out@ =~= start + passive_triggers(
            passives@.take(i + 1),
            uid,
            skills@,
            buff_rows@,
            acts@,
        ));
    }
    assert(passives@.take(passives@.len() as int) =~= passives@);
}

/// The attackers on the field.
pub open spec fn attackers_on_field(f: FightView) -> Seq<EntityView> {
    match f.attacker {
        Some(t) => t.entitys,
        None => Seq::empty(),
    }
}

impl ChannelState {
    /// No channel passives.
    pub fn new() -> (r: ChannelState)
        ensures
            r.monitor_triggers@ == Seq::<(i64, i32)>::empty(),
    {
        ChannelState { monitor_triggers: Vec::new() }
    }

    /// Adds the channel passives of the attackers on the field.
    pub fn init(
        &mut self,
        fight: &Fight,
        skills: &Vec<SkillEffectRow>,
        buff_rows: &Vec<SkillBuffRow>,
        acts: &Vec<BuffActRow>,
    )
        ensures
            final(self).monitor_triggers@ == old(self).monitor_triggers@ + team_triggers(
                attackers_on_field(fight@),
                skills@,
                buff_rows@,
                acts@,
            ),
    {
        let ghost start = self.monitor_triggers@;
        let ghost team = attackers_on_field(fight@);
        assert(start + team_triggers(team.take(0), skills@, buff_rows@, acts@) =~= start);
        if let Some(attacker) = &fight.attacker {
            for i in 0..attacker.entitys.len()
                invariant
                    team == entities_view(attacker.entitys@),
                    self.monitor_triggers@ == start + team_triggers(
                        team.take(i as int),
                        skills@,
                        buff_rows@,
                        acts@,
                    ),
            {
                assert(team.take(i + 1).drop_last() =~= team.take(i as int));
                assert(team.take(i + 1).last() == attacker.entitys@[i as int]@);
                let e = &attacker.entitys[i];
                let uid: i64 = match e.uid {
                    Some(u) => u,
                    None => 0,
                };
                collect_passive_triggers(
                    &mut self.monitor_triggers,
                    &e.passive_skill,
                    uid,
                    skills,
                    buff_rows,
                    acts,
                );
                assert(self.monitor_triggers@ =~= start + team_triggers(
                    team.take(i + 1),
                    skills@,
                    buff_rows@,
                    acts@,
                ));
            }
        }
        assert(team.take(team.len() as int) =~= team);
    }

    /// Whether anyone has a channel passive.
    pub fn is_active(&self) -> (r: bool)
        ensures
            r == (self.monitor_triggers@.len() > 0),
    {
        self.monitor_triggers.len() > 0
    }
}

/// Whether a list holds a buff of an id with a layer or a stack left.
pub open spec fn has_layer_left(s: Seq<BuffInstance>, buff_id: i32) -> bool {
    exists|i: int|
        0 <= i < s.len() && (#[trigger] s[i]).buff_id == buff_id && (s[i].layer >= 1
            || s[i].stacks >= 1)
}

fn layer_left(v: &Vec<BuffInstance>, buff_id: i32) -> (r: bool)
    ensures
        r == has_layer_left(v@, buff_id),
{
    for i in 0..v.len()
        invariant
            forall|k: int|
                0 <= k < i ==> !((#[trigger] v@[k]).buff_id == buff_id && (v@[k].layer >= 1
                    || v@[k].stacks >= 1)),
    {
        if v[i].buff_id == buff_id && (v[i].layer >= 1 || v[i].stacks >= 1) {
            return true;
        }
    }
    false
}

/// What one buff lets its holder answer with, given all the holder's buffs.
pub open spec fn holder_by(
    rows: Seq<MonitorRow>,
    uid: i64,
    held: Seq<BuffInstance>,
    buff_id: i32,
) -> Option<MonitorContinueHolder> {
    match row_at(rows, buff_id) {
        Some(row) => if (row.prerequisite_buff_id > 0 && !holds(held, row.prerequisite_buff_id))
            || !has_layer_left(held, row.counter_buff_id) {
            None
        } else {
            Some(
                MonitorContinueHolder {
                    holder_uid: uid,
                    channel_buff_id: buff_id,
                    prerequisite_buff_id: row.prerequisite_buff_id,
                    reactive_skill_id: row.enemy_reaction_id,
                    layer_counter_buff_id: row.counter_buff_id,
                },
            )
        },
        None => None,
    }
}

/// The answer that the first of some of a holder's buffs allows that allows one.
pub open spec fn first_answer(
    rows: Seq<MonitorRow>,
    uid: i64,
    held: Seq<BuffInstance>,
    some: Seq<BuffInstance>,
) -> Option<MonitorContinueHolder>
    decreases some.len(),
{
    if some.len() == 0 {
        None
    } else {
        match holder_by(rows, uid, held, some[0].buff_id) {
            Some(h) => Some(h),
            None => first_answer(rows, uid, held, some.skip(1)),
        }
    }
}

fn find_first_answer(rows: &Vec<MonitorRow>, uid: i64, held: &Vec<BuffInstance>) -> (r: Option<
    MonitorContinueHolder,
>)
    ensures
        r == first_answer(rows@, uid, held@, held@),
{
    let mut j: usize = 0;
    assert(held@.skip(0) =~= held@);
    while j < held.len()
        invariant
            j <= held@.len(),
            first_answer(rows@, uid, held@, held@.skip(j as int)) == first_answer(
                rows@,
                uid,
                held@,
                held@,
            ),
        decreases held@.len() - j,
    {
        assert(held@.skip(j as int)[0] == held@[j as int]);
        assert(held@.skip(j as int).skip(1) =~= held@.skip(j + 1));
        let buff_id: i32 = held[j].buff_id;
        if let Some(row) = find_row(rows, buff_id) {
            let gated: bool = row.prerequisite_buff_id > 0 && !has_buff(
                held,
                row.prerequisite_buff_id,
            );
            if !gated && layer_left(held, row.counter_buff_id) {
                return Some(
                    MonitorContinueHolder {
                        holder_uid: uid,
                        channel_buff_id: buff_id,
                        prerequisite_buff_id: row.prerequisite_buff_id,
                        reactive_skill_id: row.enemy_reaction_id,
                        layer_counter_buff_id: row.counter_buff_id,
                    },
                );
            }
        }
        j += 1;
    }
    None
}

/// Whether a fighter has life left.
pub open spec fn is_alive(e: EntityView) -> bool {
    e.current_hp is Some && e.current_hp->0 > 0
}

/// Tests whether a fighter has life left.
pub fn alive(e: &FightEntityInfo) -> (r: bool)
    ensures
        r == is_alive(e@),
{
    match e.current_hp {
        Some(hp) => hp > 0,
        None => false,
    }
}

/// The answers that a row of fighters can give: one for each that can. Only the
/// living answer.
pub open spec fn eligible_holders(
    rows: Seq<MonitorRow>,
    buffs: BuffMgr,
    team: Seq<EntityView>,
) -> Seq<MonitorContinueHolder>
    decreases team.len(),
{
    if team.len() == 0 {
        Seq::empty()
    } else {
        let before = eligible_holders(rows, buffs, team.drop_last());
        let e = team.last();
        if is_alive(e) && e.uid is Some {
            match first_answer(rows, e.uid->0, buffs.of(e.uid->0), buffs.of(e.uid->0)) {
                Some(h) => before.push(h),
                None => before,
            }
        } else {
            before
        }
    }
}

/// The answers of two rows of fighters are those of the first, then the second.
pub proof fn eligible_holders_join(
    rows: Seq<MonitorRow>,
    buffs: BuffMgr,
    a: Seq<EntityView>,
    b: Seq<EntityView>,
)
    ensures
        eligible_holders(rows, buffs, a + b) == eligible_holders(rows, buffs, a)
            + eligible_holders(rows, buffs, b),
    decreases b.len(),
{
    if b.len() == 0 {
        assert(a + b =~= a);
        assert(eligible_holders(rows, buffs, a) + eligible_holders(rows, buffs, b)
            =~= eligible_holders(rows, buffs, a));
    } else {
        eligible_holders_join(rows, buffs, a, b.drop_last());
        assert((a + b).drop_last() =~= a + b.drop_last());
        assert((a + b).last() == b.last());
        assert(eligible_holders(rows, buffs, a + b) =~= eligible_holders(rows, buffs, a)
            + eligible_holders(rows, buffs, b));
    }
}

fn collect_holders(
    out: &mut Vec<MonitorContinueHolder>,
    team: &Vec<FightEntityInfo>,
    buffs: &BuffMgr,
    rows: &Vec<MonitorRow>,
)
    ensures
        final(out)@ == old(out)@ + eligible_holders(rows@, *buffs, entities_view(team@)),
{
    let ghost start = out@;
    let ghost s = entities_view(team@);
    assert(start + eligible_holders(rows@, *buffs, s.take(0)) =~= start);
    for i in 0..team.len()
        invariant
            s == entities_view(team@),
            out@ == start + eligible_holders(rows@, *buffs, s.take(i as int)),
    {
        assert(s.take(i + 1).drop_last() =~= s.take(i as int));
        assert(s.take(i + 1).last() == team@[i as int]@);
        let ghost before = out@;
        if alive(&team[i]) {
            if let Some(uid) = team[i].uid {
                let held = buffs.get(uid);
                if let Some(h) = find_first_answer(rows, uid, &held) {
                    out.push(h);
                }
            }
        }
        assert(out@ =~= start + eligible_holders(rows@, *buffs, s.take(i + 1)));
    }
    assert(s.take(s.len() as int) =~= s);
}

/// Finds the answers that the living attackers can give to an enemy's skill, one for
/// each that can: it has a buff with the monitor-continue feature, the prerequisite
/// of it, and a layer of its counter left.
pub fn find_eligible_monitor_continue_holders(
    fight: &Fight,
    buffs: &BuffMgr,
    rows: &Vec<MonitorRow>,
) -> (r: Vec<MonitorContinueHolder>)
    ensures
        r@ == eligible_holders(rows@, *buffs, members(fight@.attacker)),
{
    let mut holders: Vec<MonitorContinueHolder> = Vec::new();
    if let Some(attacker) = &fight.attacker {
        collect_holders(&mut holders, &attacker.entitys, buffs, rows);
        collect_holders(&mut holders, &attacker.sub_entitys, buffs, rows);
        proof {
            eligible_holders_join(rows@, *buffs, attacker@.entitys, attacker@.sub_entitys);
        }
    }
    assert(holders@ =~= eligible_holders(rows@, *buffs, members(fight@.attacker)));
    holders
}

/// Where an answer is put: before the last buff update, or at the end if there is
/// none.
pub open spec fn splice_index(s: Seq<EffectView>) -> nat
    decreases s.len(),
{
    match last_update(s) {
        Some(i) => i,
        None => s.len(),
    }
}

/// The position of the last buff update.
pub open spec fn last_update(s: Seq<EffectView>) -> Option<nat>
    decreases s.len(),
{
    if s.len() == 0 {
        None
    } else if s.last().effect_type == Some(EffectType::BuffUpdate) {
        Some((s.len() - 1) as nat)
    } else {
        last_update(s.drop_last())
    }
}

/// A position found is a position in the list.
pub proof fn last_update_bound(s: Seq<EffectView>)
    ensures
        last_update(s) is Some ==> last_update(s)->0 < s.len()
            && s[last_update(s)->0 as int].effect_type == Some(EffectType::BuffUpdate),
        splice_index(s) <= s.len(),
    decreases s.len(),
{
    if s.len() > 0 {
        last_update_bound(s.drop_last());
    }
}

/// Where an answer is put among some effects.
pub fn monitor_continue_splice_index(effects: &Vec<ActEffect>) -> (r: usize)
    ensures
        r == splice_index(effects_view(effects@)),
{
    let ghost s = effects_view(effects@);
    let mut i: usize = effects.len();
    assert(s.take(i as int) =~= s);
    while i > 0
        invariant
            i <= effects.len(),
            s == effects_view(effects@),
            last_update(s.take(i as int)) == last_update(s),
        decreases i,
    {
        assert(s.take(i as int).last() == effects@[i - 1]@);
        if has_kind(&effects[i - 1], EffectType::BuffUpdate) {
            return i - 1;
        }
        assert(s.take(i as int).drop_last() =~= s.take(i - 1));
        i -= 1;
    }
    effects.len()
}

/// The positive number that a text starts with, up to a separator.
pub open spec fn leading_id(s: Seq<char>, sep: char) -> Seq<i32> {
    match number(pieces(s, sep)[0]) {
        Some(id) => if id > 0 {
            seq![id]
        } else {
            Seq::empty()
        },
        None => Seq::empty(),
    }
}

/// The ids that lead the entries of a weighted pool.
pub open spec fn pool_ids(chunks: Seq<Seq<char>>) -> Seq<i32>
    decreases chunks.len(),
{
    if chunks.len() == 0 {
        Seq::empty()
    } else {
        pool_ids(chunks.drop_last()) + leading_id(chunks.last(), ':')
    }
}

/// The skills that a behaviour invokes directly: one by use-skill, any of a pool
/// by random-use-skill.
pub open spec fn behaviour_invokes(b: Seq<char>) -> Seq<i32> {
    if begins_with(b, "50008#"@) {
        leading_id(b.skip("50008#"@.len() as int), '#')
    } else if begins_with(b, "60225#"@) {
        pool_ids(pieces(b.skip("60225#"@.len() as int), '&'))
    } else {
        Seq::empty()
    }
}

fn push_leading_id(out: &mut Vec<i32>, s: &str, sep: char)
    ensures
        final(out)@ == old(out)@ + leading_id(s@, sep),
{
    let ghost start = out@;
    let parts = split_text(s, sep);
    proof {
        pieces_nonempty(s@, sep);
    }
    assert(texts_view(parts@)[0] == parts@[0]@);
    if let Some(id) = parse_number(parts[0].as_str()) {
        if id > 0 {
            out.push(id);
        }
    }
    assert(out@ =~= start + leading_id(s@, sep));
}

fn push_behaviour_invokes(out: &mut Vec<i32>, behavior: &str)
    ensures
        final(out)@ == old(out)@ + behaviour_invokes(behavior@),
{
    let ghost start = out@;
    if let Some(rest) = after_prefix(behavior, "50008#") {
        push_leading_id(out, rest.as_str(), '#');
    } else if let Some(rest) = after_prefix(behavior, "60225#") {
        let chunks = split_text(rest.as_str(), '&');
        let ghost ps = pieces(rest@, '&');
        assert(texts_view(chunks@) == ps);
        assert(start + pool_ids(ps.take(0)) =~= start);
        for i in 0..chunks.len()
            invariant
                texts_view(chunks@) == ps,
                out@ == start + pool_ids(ps.take(i as int)),
        {
            assert(ps.take(i + 1).drop_last() =~= ps.take(i as int));
            assert(ps.take(i + 1).last() == chunks@[i as int]@);
            push_leading_id(out, chunks[i].as_str(), ':');
            assert(out@ =~= start + pool_ids(ps.take(i + 1)));
        }
        assert(ps.take(ps.len() as int) =~= ps);
    } else {
        assert(out@ =~= start + behaviour_invokes(behavior@));
    }
}

/// The skills that some slots invoke directly.
pub open spec fn slots_invoke(slots: Seq<SlotRow>) -> Seq<i32>
    decreases slots.len(),
{
    if slots.len() == 0 {
        Seq::empty()
    } else {
        slots_invoke(slots.drop_last()) + behaviour_invokes(slots.last().behavior@)
    }
}

/// The skills that some passives invoke directly.
pub open spec fn passives_invoke(passives: Seq<i32>, skills: Seq<SkillEffectRow>) -> Seq<i32>
    decreases passives.len(),
{
    if passives.len() == 0 {
        Seq::empty()
    } else {
        passives_invoke(passives.drop_last(), skills) + match row_at(skills, passives.last()) {
            Some(row) => slots_invoke(leading_slots(row.slots@)),
            None => Seq::empty(),
        }
    }
}

/// The skills that the passives of a row of fighters invoke directly. Only
/// fighters with a negative id count.
pub open spec fn team_invokes(team: Seq<EntityView>, skills: Seq<SkillEffectRow>) -> Seq<i32>
    decreases team.len(),
{
    if team.len() == 0 {
        Seq::empty()
    } else if uid_or_zero(team.last()) >= 0 {
        team_invokes(team.drop_last(), skills)
    } else {
        team_invokes(team.drop_last(), skills) + passives_invoke(
            team.last().passive_skill,
            skills,
        )
    }
}

/// What two rows of fighters invoke is what the first invokes, then the second.
pub proof fn team_invokes_join(
    a: Seq<EntityView>,
    b: Seq<EntityView>,
    skills: Seq<SkillEffectRow>,
)
    ensures
        team_invokes(a + b, skills) == team_invokes(a, skills) + team_invokes(b, skills),
    decreases b.len(),
{
    if b.len() == 0 {
        assert(a + b =~= a);
    } else {
        team_invokes_join(a, b.drop_last(), skills);
        assert((a + b).drop_last() =~= a + b.drop_last());
    }
    assert(team_invokes(a + b, skills) =~= team_invokes(a, skills) + team_invokes(b, skills));
}

fn push_passives_invoke(out: &mut Vec<i32>, passives: &Vec<i32>, skills: &Vec<SkillEffectRow>)
    ensures
        final(out)@ == old(out)@ + passives_invoke(passives@, skills@),
{
    let ghost start = out@;
    assert(start + passives_invoke(passives@.take(0), skills@) =~= start);
    for i in 0..passives.len()
        invariant
            out@ == start + passives_invoke(passives@.take(i as int), skills@),
    {
        let ghost before = out@;
        assert(passives@.take(i + 1).drop_last() =~= passives@.take(i as int));
        assert(passives@.take(i + 1).last() == passives@[i as int]);
        if let Some(row) = find_row(skills, passives[i]) {
            let n: usize = if row.slots.len() > 5 {
                5
            } else {
                row.slots.len()
            };
            let ghost lead = leading_slots(row.slots@);
            assert(before + slots_invoke(lead.take(0)) =~= before);
            for j in 0..n
                invariant
                    n == lead.len(),
                    n <= row.slots.len(),
                    forall|k: int| 0 <= k < n ==> lead[k] == row.slots@[k],
                    out@ == before + slots_invoke(lead.take(j as int)),
            {
                assert(lead.take(j + 1).drop_last() =~= lead.take(j as int));
                assert(lead.take(j + 1).last() == row.slots@[j as int]);
                push_behaviour_invokes(out, row.slots[j].behavior.as_str());
                assert(out@ =~= before + slots_invoke(lead.take(j + 1)));
            }
            assert(lead.take(n as int) =~= lead);
        }
        assert(out@ =~= start + passives_invoke(passives@.take(i + 1), skills@));
    }
    assert(passives@.take(passives@.len() as int) =~= passives@);
}

fn push_team_invokes(
    out: &mut Vec<i32>,
    team: &Vec<FightEntityInfo>,
    skills: &Vec<SkillEffectRow>,
)
    ensures
        final(out)@ == old(out)@ + team_invokes(entities_view(team@), skills@),
{
    let ghost start = out@;
    let ghost s = entities_view(team@);
    assert(start + team_invokes(s.take(0), skills@) =~= start);
    for i in 0..team.len()
        invariant
            s == entities_view(team@),
            out@ == start + team_invokes(s.take(i as int), skills@),
    {
        assert(s.take(i + 1).drop_last() =~= s.take(i as int));
        assert(s.take(i + 1).last() == team@[i as int]@);
        let uid: i64 = match team[i].uid {
            Some(u) => u,
            None => 0,
        };
        if uid < 0 {
            push_passives_invoke(out, &team[i].passive_skill, skills);
        }
        assert(out@ =~= start + team_invokes(s.take(i + 1), skills@));
    }
    assert(s.take(s.len() as int) =~= s);
}

/// The skills that a passive of a defender invokes directly. A channel answers
/// only these.
pub fn gather_boss_invoked_reactive_target_skills(
    fight: &Fight,
    skills: &Vec<SkillEffectRow>,
) -> (r: HashSet<i32>)
    ensures
        r@ == team_invokes(members(fight@.defender), skills@).to_set(),
{
    let mut ids: Vec<i32> = Vec::new();
    if let Some(defender) = &fight.defender {
        push_team_invokes(&mut ids, &defender.entitys, skills);
        push_team_invokes(&mut ids, &defender.sub_entitys, skills);
        proof {
            team_invokes_join(defender@.entitys, defender@.sub_entitys, skills@);
        }
    }
    assert(ids@ =~= team_invokes(members(fight@.defender), skills@));
    let mut invoked: HashSet<i32> = HashSet::new();
    assert(invoked@ =~= ids@.take(0).to_set());
    for i in 0..ids.len()
        invariant
            invoked@ == ids@.take(i as int).to_set(),
    {
        assert(ids@.take(i + 1) =~= ids@.take(i as int).push(ids@[i as int]));
        proof {
            to_set_push(ids@.take(i as int), ids@[i as int]);
        }
        invoked.insert(ids[i]);
    }
    assert(ids@.take(ids@.len() as int) =~= ids@);
    invoked
}

/// The counter buff with one layer less, or one stack less where it has no layer.
pub open spec fn one_layer_less(b: BuffInstance) -> BuffInstance {
    if b.layer > 0 {
        BuffInstance { layer: (b.layer - 1) as i32, ..b }
    } else {
        BuffInstance {
            layer: 0,
            stacks: if b.stacks > i32::MIN {
                (b.stacks - 1) as i32
            } else {
                i32::MIN
            },
            ..b
        }
    }
}

/// The counter buff as it is written back after an answer; nothing where the
/// holder has no such buff.
pub fn consume_monitor_continue_layer(
    buffs: &BuffMgr,
    holder_uid: i64,
    layer_counter_buff_id: i32,
) -> (r: Option<BuffInstance>)
    ensures
        r == match first_buff(buffs.of(holder_uid), layer_counter_buff_id) {
            Some(b) => Some(one_layer_less(b)),
            None => None,
        },
{
    let held = buffs.get(holder_uid);
    match find_buff(&held, layer_counter_buff_id) {
        Some(b) => {
            let mut next = b;
            if b.layer > 0 {
                next.layer = b.layer - 1;
            } else {
                next.layer = 0;
                if b.stacks > i32::MIN {
                    next.stacks = b.stacks - 1;
                }
            }
            Some(next)
        },
        None => None,
    }
}

/// What happened during a skill, as far as its triggers ask.
#[derive(Debug)]
pub struct SkillReadings {
    pub primary_target_uid: i64,
    pub damaged_uids: Vec<i64>,
    pub used_ex_skill: bool,
    pub teammate_used_ex_skill: bool,
    pub was_attacked_by_enemy: bool,
    pub took_mental_damage: bool,
    pub lost_ex_point: bool,
    pub dealt_damage: bool,
    pub triggered_bullet: bool,
    pub deleted_buff_ids: Vec<i32>,
    pub teammate_injury_not_reset: i32,
    pub active_card_cast_uids: Vec<i64>,
    pub bloodpool_max_attacker: i32,
    pub bloodpool_value_attacker: i32,
}

/// What the conditions of a triggered skill may ask for.
#[derive(Debug)]
pub struct TriggerState {
    pub active_use_skill: bool,
    pub skill_id: i32,
    pub action_order_index: i32,
    pub used_ex_skill: bool,
    pub teammate_use_ex_skill: bool,
    pub trigger_bullet: bool,
    pub event_driven_only: bool,
    pub be_attacked: bool,
    pub hurt_magic: bool,
    pub lost_ex_point: bool,
    pub hurt_not_restraint: bool,
    pub hurt_restraint: bool,
    pub teammate_injury_count: i32,
    pub teammate_injury_count_not_reset: i32,
    pub team_injury_count_round: bool,
    pub deleted_buff_ids: Vec<i32>,
    pub active_card_cast_uids: Vec<i64>,
    pub bloodpool_max_attacker: Option<i32>,
    pub bloodpool_value_attacker: Option<i32>,
}

/// The side that an id belongs to.
pub open spec fn side(uid: i64) -> int {
    if uid > 0 {
        1
    } else if uid < 0 {
        -1
    } else {
        0
    }
}

/// Whether two ids are on the same side.
pub fn same_side(a: i64, b: i64) -> (r: bool)
    ensures
        r == (side(a) == side(b)),
{
    (a > 0 && b > 0) || (a < 0 && b < 0) || (a == 0 && b == 0)
}

/// How many of some ids are on the side of a fighter.
pub open spec fn count_on_side(uids: Seq<i64>, of: i64) -> nat
    decreases uids.len(),
{
    if uids.len() == 0 {
        0
    } else {
        count_on_side(uids.drop_last(), of) + (if side(uids.last()) == side(of) {
            1nat
        } else {
            0nat
        })
    }
}

/// The state that the conditions of a triggered skill are checked with. Hits on the
/// caster's side count as teammate injuries.
pub open spec fn is_trigger_state(
    t: TriggerState,
    caster_uid: i64,
    skill_id: i32,
    readings: SkillReadings,
    trigger_bullet: bool,
) -> bool {
    &&& t.active_use_skill
    &&& !t.event_driven_only
    &&& t.trigger_bullet == trigger_bullet
    &&& t.skill_id == skill_id
    &&& t.action_order_index == 0
    &&& t.used_ex_skill == readings.used_ex_skill
    &&& t.teammate_use_ex_skill == readings.teammate_used_ex_skill
    &&& t.be_attacked == readings.was_attacked_by_enemy
    &&& t.hurt_magic == readings.took_mental_damage
    &&& t.lost_ex_point == readings.lost_ex_point
    &&& t.hurt_not_restraint == readings.dealt_damage
    &&& t.hurt_restraint == readings.dealt_damage
    &&& t.teammate_injury_count == count_on_side(readings.damaged_uids@, caster_uid)
    &&& t.teammate_injury_count_not_reset == readings.teammate_injury_not_reset
    &&& t.team_injury_count_round == (count_on_side(readings.damaged_uids@, caster_uid) > 0)
    &&& t.deleted_buff_ids@ == readings.deleted_buff_ids@
    &&& t.active_card_cast_uids@ == readings.active_card_cast_uids@
    &&& t.bloodpool_max_attacker == Some(readings.bloodpool_max_attacker)
    &&& t.bloodpool_value_attacker == Some(readings.bloodpool_value_attacker)
}

/// Prepares the state that the conditions of a triggered skill are checked with.
pub fn skill_trigger_state(
    caster_uid: i64,
    skill_id: i32,
    readings: SkillReadings,
    trigger_bullet: bool,
) -> (r: TriggerState)
    requires
        readings.damaged_uids@.len() <= i32::MAX,
    ensures
        is_trigger_state(r, caster_uid, skill_id, readings, trigger_bullet),
{
    let ghost uids = readings.damaged_uids@;
    let mut hits: i32 = 0;
    assert(uids.take(0).len() == 0);
    for i in 0..readings.damaged_uids.len()
        invariant
            uids == readings.damaged_uids@,
            uids.len() <= i32::MAX,
            hits == count_on_side(uids.take(i as int), caster_uid),
            0 <= hits <= i,
    {
        assert(uids.take(i + 1).drop_last() =~= uids.take(i as int));
        if same_side(readings.damaged_uids[i], caster_uid) {
            hits = hits + 1;
        }
    }
    assert(uids.take(uids.len() as int) =~= uids);
    TriggerState {
        active_use_skill: true,
        skill_id,
        action_order_index: 0,
        used_ex_skill: readings.used_ex_skill,
        teammate_use_ex_skill: readings.teammate_used_ex_skill,
        trigger_bullet,
        event_driven_only: false,
        be_attacked: readings.was_attacked_by_enemy,
        hurt_magic: readings.took_mental_damage,
        lost_ex_point: readings.lost_ex_point,
        hurt_not_restraint: readings.dealt_damage,
        hurt_restraint: readings.dealt_damage,
        teammate_injury_count: hits,
        teammate_injury_count_not_reset: readings.teammate_injury_not_reset,
        team_injury_count_round: hits > 0,
        deleted_buff_ids: readings.deleted_buff_ids,
        active_card_cast_uids: readings.active_card_cast_uids,
        bloodpool_max_attacker: Some(readings.bloodpool_max_attacker),
        bloodpool_value_attacker: Some(readings.bloodpool_value_attacker),
    }
}

/// The state that a channel's skill is triggered with: it always counts as a bullet.
pub fn channel_trigger_state(
    caster_uid: i64,
    skill_id: i32,
    readings: SkillReadings,
) -> (r: TriggerState)
    requires
        readings.damaged_uids@.len() <= i32::MAX,
    ensures
        is_trigger_state(r, caster_uid, skill_id, readings, true),
{
    skill_trigger_state(caster_uid, skill_id, readings, true)
}

} // verus!
