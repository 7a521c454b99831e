//! How a channel answers: which skill it plays, and where the answer is put.

use crate::arith::{or_zero, or_zero64, value, value64};
use crate::buffs::{find_buff, first_buff, has_buff, holds, BuffInstance, BuffMgr};
use crate::config::{
    find_row, find_shared_params, row_at, shared_params, BuffActRow, SharedParamsRow, SkillBuffRow,
};
use crate::fight_step::builder::{effect_container_step, wrap_step, ActEffectBuilder};
use crate::fight_step::select::{keep_wrappers, splice_effects, wrappers};
use crate::lookup::members;
use crate::mechanics::channel::{
    act_is, alive, eligible_holders, entry_act, find_eligible_monitor_continue_holders, is_act,
    is_alive, last_update_bound, monitor_continue_splice_index, read_trimmed, same_side, side,
    splice_index, trimmed_number, MonitorContinueHolder, MonitorRow,
};
use crate::model::lists::group_effects_view;
use crate::model::{
    effects_view, entities_view, ActEffect, ActType, BuffInfoView, BuffLayerType, EffectType,
    EffectView, EntityView, Fight, FightEntityInfo, FightStep, FightView, StepView,
};
use crate::text::{pieces, pieces_nonempty, split_text, texts_view};
use std::collections::HashSet;
use vstd::prelude::*;

verus! {

broadcast use {group_effects_view, vstd::std_specs::hash::group_hash_axioms};

/// Whom the answers to a skill are aimed at: the target of the skill if it is on
/// the other side, else the primary target of what happened.
pub open spec fn emission_target(root: StepView, primary_target_uid: i64) -> i64 {
    let to = or_zero64(root.to_id);
    if to != 0 && side(to) != side(or_zero64(root.from_id)) {
        to
    } else {
        primary_target_uid
    }
}

/// Whether a step is a skill of an attacker that has someone to answer at.
pub open spec fn can_emit(root: StepView, primary_target_uid: i64) -> bool {
    &&& or_zero64(root.from_id) > 0
    &&& root.act_type == Some(ActType::Skill)
    &&& emission_target(root, primary_target_uid) != 0
}

/// The skill that a channel plays next, and the effect it is announced with.
#[derive(Clone, Copy, PartialEq, Eq, Structural, Debug)]
pub struct ChannelRequest {
    pub emit_effect_id: i32,
    pub emit_skill_id: i32,
}

/// The answers of a caster's channels to its own skill, one after the other.
#[derive(Debug)]
pub struct ChannelEmission {
    pub caster_uid: i64,
    pub target_uid: i64,
    /// The caster's buffs when the skill was played.
    pub pending: Vec<BuffInstance>,
    /// How many of them were looked at.
    pub done: usize,
    /// What was asked for before.
    pub seen: Vec<ChannelRequest>,
    /// The effects to be put into the host step.
    pub out: Vec<ActEffect>,
}

/// Whether a step already carries the answer to a request.
pub open spec fn already_present(host: StepView, q: ChannelRequest) -> bool {
    exists|i: int|
        0 <= i < host.act_effect.len() && (#[trigger] host.act_effect[i]).fight_step is Some && (
        host.act_effect[i].fight_step->0.act_id == Some(q.emit_effect_id)
            || host.act_effect[i].fight_step->0.act_id == Some(q.emit_skill_id))
}

/// The request that a buff makes; none where it has no channel feature or its
/// prerequisite is missing.
pub open spec fn request_of(
    rows: Seq<MonitorRow>,
    held: Seq<BuffInstance>,
    buff_id: i32,
) -> Option<ChannelRequest> {
    match row_at(rows, buff_id) {
        Some(row) => if row.prerequisite_buff_id > 0 && !holds(held, row.prerequisite_buff_id) {
            None
        } else {
            Some(
                ChannelRequest {
                    emit_effect_id: row.counter_buff_id,
                    emit_skill_id: row.own_reaction_id,
                },
            )
        },
        None => None,
    }
}

/// The outcome of looking for the next request: how far it got, what has been
/// seen by then, and the request.
pub struct Scan {
    pub done: nat,
    pub seen: Seq<ChannelRequest>,
    pub found: Option<ChannelRequest>,
}

/// Looks on from a buff for the next request that is new and not yet answered.
pub open spec fn scan(
    pending: Seq<BuffInstance>,
    done: nat,
    seen: Seq<ChannelRequest>,
    host: StepView,
    rows: Seq<MonitorRow>,
    held: Seq<BuffInstance>,
) -> Scan
    decreases pending.len() - done,
{
    if done >= pending.len() {
        Scan { done, seen, found: None }
    } else {
        match request_of(rows, held, pending[done as int].buff_id) {
            None => scan(pending, done + 1, seen, host, rows, held),
            Some(q) => if seen.contains(q) {
                scan(pending, done + 1, seen, host, rows, held)
            } else if already_present(host, q) {
                scan(pending, done + 1, seen.push(q), host, rows, held)
            } else {
                Scan { done: done + 1, seen: seen.push(q), found: Some(q) }
            },
        }
    }
}

/// The update that announces a request, where the caster has its buff.
pub open spec fn announcement(
    caster_uid: i64,
    held: Seq<BuffInstance>,
    shared: Seq<SharedParamsRow>,
    buff_id: i32,
) -> Option<EffectView> {
    match first_buff(held, buff_id) {
        Some(b) => Some(
            EffectView {
                buff: Some(
                    BuffInfoView::full(
                        buff_id,
                        0,
                        b.uid,
                        b.from_uid,
                        if b.stacks > 1 {
                            b.stacks
                        } else {
                            1
                        },
                        shared_params(shared, buff_id),
                        b.layer,
                        BuffLayerType::Normal,
                    ),
                ),
                ..EffectView::amount(EffectType::BuffUpdate, caster_uid, 0)
            },
        ),
        None => None,
    }
}

/// Announces a request; see [`announcement`].
pub fn announce(
    caster_uid: i64,
    held: &Vec<BuffInstance>,
    shared: &Vec<SharedParamsRow>,
    buff_id: i32,
) -> (r: Option<ActEffect>)
    ensures
        match r {
            Some(e) => announcement(caster_uid, held@, shared@, buff_id) == Some(e@),
            None => announcement(caster_uid, held@, shared@, buff_id) is None,
        },
{
    match find_buff(held, buff_id) {
        Some(b) => {
            let count: i32 = if b.stacks > 1 {
                b.stacks
            } else {
                1
            };
            let params = find_shared_params(shared, buff_id);
            Some(
                ActEffectBuilder::buff_update(
                    caster_uid,
                    b.from_uid,
                    buff_id,
                    b.uid,
                    count,
                    params,
                    b.layer,
                ),
            )
        },
        None => None,
    }
}

fn answered(host: &FightStep, q: ChannelRequest) -> (r: bool)
    ensures
        r == already_present(host@, q),
{
    for i in 0..host.act_effect.len()
        invariant
            forall|k: int|
                0 <= k < i ==> !((#[trigger] host@.act_effect[k]).fight_step is Some && (
                host@.act_effect[k].fight_step->0.act_id == Some(q.emit_effect_id)
                    || host@.act_effect[k].fight_step->0.act_id == Some(q.emit_skill_id))),
    {
        assert(host@.act_effect[i as int] == host.act_effect@[i as int]@);
        if let Some(step) = &host.act_effect[i].fight_step {
            if let Some(id) = step.act_id {
                if id == q.emit_effect_id || id == q.emit_skill_id {
                    return true;
                }
            }
        }
    }
    false
}

fn was_seen(seen: &Vec<ChannelRequest>, q: ChannelRequest) -> (r: bool)
    ensures
        r == seen@.contains(q),
{
    for i in 0..seen.len()
        invariant
            forall|k: int| 0 <= k < i ==> seen@[k] != q,
    {
        if seen[i] == q {
            return true;
        }
    }
    false
}

impl ChannelEmission {
    /// Starts the answers to a skill; nothing where the step cannot be answered.
    pub fn begin(
        root_step: &FightStep,
        primary_target_uid: i64,
        caster_buffs: Vec<BuffInstance>,
    ) -> (r: Option<ChannelEmission>)
        ensures
            r is Some <==> can_emit(root_step@, primary_target_uid),
            r is Some ==> {
                &&& r->0.caster_uid == or_zero64(root_step@.from_id)
                &&& r->0.target_uid == emission_target(root_step@, primary_target_uid)
                &&& r->0.pending@ == caster_buffs@
                &&& r->0.done == 0
                &&& r->0.seen@ == Seq::<ChannelRequest>::empty()
                &&& effects_view(r->0.out@) == Seq::<EffectView>::empty()
            },
    {
        let caster_uid = value64(root_step.from_id);
        let is_skill: bool = match root_step.act_type {
            Some(t) => t == ActType::Skill,
            None => false,
        };
        if caster_uid <= 0 || !is_skill {
            return None;
        }
        let to = value64(root_step.to_id);
        let target_uid: i64 = if to != 0 && !same_side(to, caster_uid) {
            to
        } else {
            primary_target_uid
        };
        if target_uid == 0 {
            return None;
        }
        Some(
            ChannelEmission {
                caster_uid,
                target_uid,
                pending: caster_buffs,
                done: 0,
                seen: Vec::new(),
                out: Vec::new(),
            },
        )
    }

    /// Finds the next skill to play. A request whose effect the caster bears as a
    /// buff is announced with an update of that buff. `held` are the caster's buffs
    /// as they are now.
    pub fn advance(
        &mut self,
        host_step: &FightStep,
        rows: &Vec<MonitorRow>,
        held: &Vec<BuffInstance>,
        shared: &Vec<SharedParamsRow>,
    ) -> (r: Option<ChannelRequest>)
        requires
            old(self).done <= old(self).pending@.len(),
        ensures
            final(self).caster_uid == old(self).caster_uid,
            final(self).target_uid == old(self).target_uid,
            final(self).pending@ == old(self).pending@,
            final(self).done <= final(self).pending@.len(),
            ({
                let next = scan(
                    old(self).pending@,
                    old(self).done as nat,
                    old(self).seen@,
                    host_step@,
                    rows@,
                    held@,
                );
                &&& r == next.found
                &&& final(self).done == next.done
                &&& final(self).seen@ == next.seen
                &&& effects_view(final(self).out@) == match next.found {
                    Some(q) => match announcement(
                        old(self).caster_uid,
                        held@,
                        shared@,
                        q.emit_effect_id,
                    ) {
                        Some(e) => effects_view(old(self).out@).push(
                            EffectView::wrapper(
                                StepView::container(
                                    old(self).caster_uid,
                                    old(self).caster_uid,
                                    q.emit_effect_id,
                                    seq![e],
                                ),
                            ),
                        ),
                        None => effects_view(old(self).out@),
                    },
                    None => effects_view(old(self).out@),
                }
            }),
    {
        let ghost goal = scan(
            self.pending@,
            self.done as nat,
            self.seen@,
            host_step@,
            rows@,
            held@,
        );
        let ghost start = effects_view(self.out@);
        while self.done < self.pending.len()
            invariant
                self.done <= self.pending@.len(),
                self.caster_uid == old(self).caster_uid,
                self.target_uid == old(self).target_uid,
                self.pending@ == old(self).pending@,
                effects_view(self.out@) == start,
                start == effects_view(old(self).out@),
                goal == scan(
                    old(self).pending@,
                    old(self).done as nat,
                    old(self).seen@,
                    host_step@,
                    rows@,
                    held@,
                ),
                goal == scan(
                    self.pending@,
                    self.done as nat,
                    self.seen@,
                    host_step@,
                    rows@,
                    held@,
                ),
            decreases self.pending@.len() - self.done,
        {
            let buff_id: i32 = self.pending[self.done].buff_id;
            self.done = self.done + 1;
            if let Some(row) = find_row(rows, buff_id) {
                let gated: bool = row.prerequisite_buff_id > 0 && !has_buff(
                    held,
                    row.prerequisite_buff_id,
                );
                let q = ChannelRequest {
                    emit_effect_id: row.counter_buff_id,
                    emit_skill_id: row.own_reaction_id,
                };
                if !gated && !was_seen(&self.seen, q) {
                    self.seen.push(q);
                    if !answered(host_step, q) {
                        if let Some(e) = announce(
                            self.caster_uid,
                            held,
                            shared,
                            q.emit_effect_id,
                        ) {
                            let mut inner: Vec<ActEffect> = Vec::new();
                            inner.push(e);
                            let step = effect_container_step(
                                self.caster_uid,
                                self.caster_uid,
                                q.emit_effect_id,
                                inner,
                            );
                            assert(step@.act_effect =~= seq![e@]);
                            self.out.push(wrap_step(step));
                        }
                        return Some(q);
                    }
                }
            }
        }
        None
    }

    /// Takes what the requested skill did. Only nested steps are kept; a skill that
    /// failed adds nothing. Says whether the skill did anything.
    pub fn take_result(&mut self, skill_effects: Option<Vec<ActEffect>>) -> (r: bool)
        ensures
            final(self).caster_uid == old(self).caster_uid,
            final(self).target_uid == old(self).target_uid,
            final(self).pending@ == old(self).pending@,
            final(self).done == old(self).done,
            final(self).seen@ == old(self).seen@,
            r == (skill_effects is Some && skill_effects->0@.len() > 0),
            effects_view(final(self).out@) == match skill_effects {
                Some(v) => effects_view(old(self).out@) + wrappers(effects_view(v@)),
                None => effects_view(old(self).out@),
            },
    {
        match skill_effects {
            Some(v) => {
                let mut kept = keep_wrappers(&v);
                self.out.append(&mut kept);
                v.len() > 0
            },
            None => false,
        }
    }
}

/// Chooses who answers an enemy's skill: the first that can, if the skill is one
/// that channels answer.
pub fn plan_monitor_reaction(
    fight: &Fight,
    buffs: &BuffMgr,
    rows: &Vec<MonitorRow>,
    step: &FightStep,
    reactive_target_skills: &HashSet<i32>,
) -> (r: Option<MonitorContinueHolder>)
    ensures
        r == (if reactive_target_skills@.contains(or_zero(step@.act_id)) && eligible_holders(
            rows@,
            *buffs,
            members(fight@.attacker),
        ).len() > 0 {
            Some(eligible_holders(rows@, *buffs, members(fight@.attacker))[0])
        } else {
            None
        }),
{
    if !reactive_target_skills.contains(&value(step.act_id)) {
        return None;
    }
    let holders = find_eligible_monitor_continue_holders(fight, buffs, rows);
    if holders.len() > 0 {
        Some(holders[0])
    } else {
        None
    }
}

/// The step that carries an answer to an enemy's skill; none where the answer
/// does nothing.
pub fn monitor_reaction_step(
    holder: MonitorContinueHolder,
    enemy_uid: i64,
    skill_effects: Vec<ActEffect>,
) -> (r: Option<FightStep>)
    ensures
        r is Some <==> skill_effects@.len() > 0,
        r is Some ==> r->0@ == StepView::container(
            holder.holder_uid,
            enemy_uid,
            holder.channel_buff_id,
            effects_view(skill_effects@),
        ),
{
    if skill_effects.len() == 0 {
        return None;
    }
    Some(
        effect_container_step(
            holder.holder_uid,
            enemy_uid,
            holder.channel_buff_id,
            skill_effects,
        ),
    )
}

/// A list of effects with more of them put in at a position.
pub open spec fn spliced(
    s: Seq<EffectView>,
    at: int,
    more: Seq<EffectView>,
) -> Seq<EffectView> {
    s.take(at) + more + s.skip(at)
}

/// Puts an answer into the enemy's step. Triggered effects that found no place in
/// the answer go in at `insert_at` of it.
pub fn inject_monitor_continue_into_enemy_skill_step(
    step: &mut FightStep,
    monitor_step: FightStep,
    leftovers: Vec<ActEffect>,
    insert_at: usize,
)
    requires
        insert_at <= monitor_step.act_effect@.len(),
    ensures
        final(step)@ == (StepView {
            act_effect: old(step)@.act_effect.insert(
                splice_index(old(step)@.act_effect) as int,
                EffectView::wrapper(
                    StepView {
                        act_effect: spliced(
                            monitor_step@.act_effect,
                            insert_at as int,
                            effects_view(leftovers@),
                        ),
                        ..monitor_step@
                    },
                ),
            ),
            ..old(step)@
        }),
{
    let ghost before = step@;
    let ghost answer = monitor_step@;
    let mut monitor_step = monitor_step;
    splice_effects(&mut monitor_step.act_effect, insert_at, leftovers);
    assert(monitor_step@.act_effect == spliced(
        answer.act_effect,
        insert_at as int,
        effects_view(leftovers@),
    ));
    let wrapper = wrap_step(monitor_step);
    let at = monitor_continue_splice_index(&step.act_effect);
    proof {
        last_update_bound(step@.act_effect);
    }
    assert(effects_view(step.act_effect@).len() == step.act_effect@.len());
    step.act_effect.insert(at, wrapper);
    assert(step@.act_effect == before.act_effect.insert(at as int, wrapper@));
}

/// A channel that plays a skill at the start of a battle.
#[derive(Clone, Copy, PartialEq, Eq, Structural, Debug)]
pub struct ChannelSeed {
    pub caster_uid: i64,
    pub channel_buff_id: i32,
    pub extra_skill_id: i32,
    pub target_type: i32,
    pub emit_effect_id: i32,
}

/// What a feature entry says of a consuming channel: the skill, its target type,
/// and the effect it emits.
pub open spec fn consume_entry(
    entry: Seq<char>,
    acts: Seq<BuffActRow>,
) -> Option<(i32, i32, i32)> {
    let parts = pieces(entry, '#');
    let skill = trimmed_number(parts, 1);
    if act_is(acts, entry_act(entry), "ConsumeBuffContinueChannel"@) && skill is Some && skill->0
        > 0 {
        Some((skill->0, or_zero(trimmed_number(parts, 3)), or_zero(trimmed_number(parts, 4))))
    } else {
        None
    }
}

/// The first consuming channel among some feature entries.
pub open spec fn first_consume(
    entries: Seq<Seq<char>>,
    acts: Seq<BuffActRow>,
) -> Option<(i32, i32, i32)>
    decreases entries.len(),
{
    if entries.len() == 0 {
        None
    } else {
        match consume_entry(entries[0], acts) {
            Some(x) => Some(x),
            None => first_consume(entries.skip(1), acts),
        }
    }
}

/// The first consuming channel among some buffs of a fighter.
pub open spec fn seed_in_buffs(
    uid: i64,
    held: Seq<BuffInstance>,
    buff_rows: Seq<SkillBuffRow>,
    acts: Seq<BuffActRow>,
) -> Option<ChannelSeed>
    decreases held.len(),
{
    if held.len() == 0 {
        None
    } else {
        let found = match row_at(buff_rows, held[0].buff_id) {
            Some(row) => first_consume(pieces(row.features@, '|'), acts),
            None => None,
        };
        match found {
            Some((extra_skill_id, target_type, emit_effect_id)) => Some(
                ChannelSeed {
                    caster_uid: uid,
                    channel_buff_id: held[0].buff_id,
                    extra_skill_id,
                    target_type,
                    emit_effect_id,
                },
            ),
            None => seed_in_buffs(uid, held.skip(1), buff_rows, acts),
        }
    }
}

/// The first consuming channel among some fighters.
pub open spec fn seed_among(
    uids: Seq<i64>,
    buffs: BuffMgr,
    buff_rows: Seq<SkillBuffRow>,
    acts: Seq<BuffActRow>,
) -> Option<ChannelSeed>
    decreases uids.len(),
{
    if uids.len() == 0 {
        None
    } else {
        match seed_in_buffs(uids[0], buffs.of(uids[0]), buff_rows, acts) {
            Some(x) => Some(x),
            None => seed_among(uids.skip(1), buffs, buff_rows, acts),
        }
    }
}

/// The ids of the living fighters that stand on a position.
pub open spec fn standing_uids(team: Seq<EntityView>) -> Seq<i64>
    decreases team.len(),
{
    if team.len() == 0 {
        Seq::empty()
    } else {
        let before = standing_uids(team.drop_last());
        let e = team.last();
        if e.position is Some && e.position->0 > 0 && is_alive(e) && e.uid is Some {
            before.push(e.uid->0)
        } else {
            before
        }
    }
}

/// Those of two rows are those of the first, then the second.
pub proof fn standing_uids_join(a: Seq<EntityView>, b: Seq<EntityView>)
    ensures
        standing_uids(a + b) == standing_uids(a) + standing_uids(b),
    decreases b.len(),
{
    if b.len() == 0 {
        assert(a + b =~= a);
    } else {
        standing_uids_join(a, b.drop_last());
        assert((a + b).drop_last() =~= a + b.drop_last());
    }
    assert(standing_uids(a + b) =~= standing_uids(a) + standing_uids(b));
}

fn push_standing(out: &mut Vec<i64>, team: &Vec<FightEntityInfo>)
    ensures
        final(out)@ == old(out)@ + standing_uids(entities_view(team@)),
{
    let ghost start = out@;
    let ghost s = entities_view(team@);
    assert(start + standing_uids(s.take(0)) =~= start);
    for i in 0..team.len()
        invariant
            s == entities_view(team@),
            out@ == start + standing_uids(s.take(i as int)),
    {
        assert(s.take(i + 1).drop_last() =~= s.take(i as int));
        assert(s.take(i + 1).last() == team@[i as int]@);
        let placed: bool = match team[i].position {
            Some(p) => p > 0,
            None => false,
        };
        if placed && alive(&team[i]) {
            if let Some(uid) = team[i].uid {
                out.push(uid);
            }
        }
        assert(out@ =~= start + standing_uids(s.take(i + 1)));
    }
    assert(s.take(s.len() as int) =~= s);
}

fn read_consume_entry(entry: &str, acts: &Vec<BuffActRow>) -> (r: Option<(i32, i32, i32)>)
    ensures
        r == consume_entry(entry@, acts@),
{
    let parts = split_text(entry, '#');
    proof {
        pieces_nonempty(entry@, '#');
    }
    let act_id = value(read_trimmed(&parts, 0));
    if !is_act(acts, act_id, "ConsumeBuffContinueChannel") {
        return None;
    }
    match read_trimmed(&parts, 1) {
        Some(skill) => if skill > 0 {
            Some((skill, value(read_trimmed(&parts, 3)), value(read_trimmed(&parts, 4))))
        } else {
            None
        },
        None => None,
    }
}

fn find_consume(features: &str, acts: &Vec<BuffActRow>) -> (r: Option<(i32, i32, i32)>)
    ensures
        r == first_consume(pieces(features@, '|'), acts@),
{
    let entries = split_text(features, '|');
    let ghost ps = pieces(features@, '|');
    assert(ps.skip(0) =~= ps);
    let mut i: usize = 0;
    while i < entries.len()
        invariant
            i <= entries.len(),
            texts_view(entries@) == ps,
            ps == pieces(features@, '|'),
            first_consume(ps.skip(i as int), acts@) == first_consume(ps, acts@),
        decreases entries.len() - i,
    {
        assert(ps.skip(i as int)[0] == entries@[i as int]@);
        assert(ps.skip(i as int).skip(1) =~= ps.skip(i + 1));
        let found = read_consume_entry(entries[i].as_str(), acts);
        if found.is_some() {
            return found;
        }
        i += 1;
    }
    None
}

fn find_seed_in_buffs(
    uid: i64,
    held: &Vec<BuffInstance>,
    buff_rows: &Vec<SkillBuffRow>,
    acts: &Vec<BuffActRow>,
) -> (r: Option<ChannelSeed>)
    ensures
        r == seed_in_buffs(uid, held@, buff_rows@, acts@),
{
    assert(held@.skip(0) =~= held@);
    let mut i: usize = 0;
    while i < held.len()
        invariant
            i <= held.len(),
            seed_in_buffs(uid, held@.skip(i as int), buff_rows@, acts@) == seed_in_buffs(
                uid,
                held@,
                buff_rows@,
                acts@,
            ),
        decreases held.len() - i,
    {
        assert(held@.skip(i as int)[0] == held@[i as int]);
        assert(held@.skip(i as int).skip(1) =~= held@.skip(i + 1));
        if let Some(row) = find_row(buff_rows, held[i].buff_id) {
            if let Some((extra_skill_id, target_type, emit_effect_id)) = find_consume(
                row.features.as_str(),
                acts,
            ) {
                return Some(
                    ChannelSeed {
                        caster_uid: uid,
                        channel_buff_id: held[i].buff_id,
                        extra_skill_id,
                        target_type,
                        emit_effect_id,
                    },
                );
            }
        }
        i += 1;
    }
    None
}

/// The channel that plays a skill in the first round: the first consuming channel
/// of an attacker that stands on the field.
pub open spec fn channel_seed(
    f: FightView,
    buffs: BuffMgr,
    buff_rows: Seq<SkillBuffRow>,
    acts: Seq<BuffActRow>,
) -> Option<ChannelSeed> {
    if f.cur_round is Some && f.cur_round->0 != 1 {
        None
    } else {
        seed_among(standing_uids(members(f.attacker)), buffs, buff_rows, acts)
    }
}

/// Finds the channel that plays a skill in the first round.
pub fn find_channel_seed(
    fight: &Fight,
    buffs: &BuffMgr,
    buff_rows: &Vec<SkillBuffRow>,
    acts: &Vec<BuffActRow>,
) -> (r: Option<ChannelSeed>)
    ensures
        r == channel_seed(fight@, *buffs, buff_rows@, acts@),
{
    let round: i32 = match fight.cur_round {
        Some(n) => n,
        None => 1,
    };
    if round != 1 {
        return None;
    }
    let mut uids: Vec<i64> = Vec::new();
    if let Some(attacker) = &fight.attacker {
        push_standing(&mut uids, &attacker.entitys);
        push_standing(&mut uids, &attacker.sub_entitys);
        proof {
            standing_uids_join(attacker@.entitys, attacker@.sub_entitys);
        }
    }
    assert(uids@ =~= standing_uids(members(fight@.attacker)));
    assert(uids@.skip(0) =~= uids@);
    let mut i: usize = 0;
    while i < uids.len()
        invariant
            i <= uids.len(),
            fight@.cur_round is Some ==> fight@.cur_round->0 == 1,
            uids@ == standing_uids(members(fight@.attacker)),
            seed_among(uids@.skip(i as int), *buffs, buff_rows@, acts@) == seed_among(
                uids@,
                *buffs,
                buff_rows@,
                acts@,
            ),
        decreases uids.len() - i,
    {
        assert(uids@.skip(i as int).skip(1) =~= uids@.skip(i + 1));
        let held = buffs.get(uids[i]);
        let found = find_seed_in_buffs(uids[i], &held, buff_rows, acts);
        if found.is_some() {
            return found;
        }
        i += 1;
    }
    None
}

/// Whom the channel's skill is aimed at: the first resolved target, else the
/// selected enemy, else the caster.
pub fn channel_target(resolved: &Vec<i64>, selected_uid: i64, caster_uid: i64) -> (r: i64)
    ensures
        r == (if resolved@.len() > 0 {
            resolved@[0]
        } else if selected_uid != 0 {
            selected_uid
        } else {
            caster_uid
        }),
{
    if resolved.len() > 0 {
        resolved[0]
    } else if selected_uid != 0 {
        selected_uid
    } else {
        caster_uid
    }
}

/// The step of the channel's own skill; none where the skill does nothing.
pub fn channel_step(seed: ChannelSeed, channel_effects: Vec<ActEffect>) -> (r: Option<FightStep>)
    ensures
        r is Some <==> channel_effects@.len() > 0,
        r is Some ==> r->0@ == StepView::container(
            seed.caster_uid,
            seed.caster_uid,
            seed.channel_buff_id,
            effects_view(channel_effects@),
        ),
{
    if channel_effects.len() == 0 {
        return None;
    }
    Some(
        effect_container_step(
            seed.caster_uid,
            seed.caster_uid,
            seed.channel_buff_id,
            channel_effects,
        ),
    )
}

/// The channel whose triggers are put in a fixed order.
pub open spec fn lopera_channel() -> i32 {
    31020114
}

/// Whether a channel shows the bullets that it spends.
pub fn wants_bullets(seed: ChannelSeed) -> (r: bool)
    ensures
        r == (seed.channel_buff_id == lopera_channel() && seed.emit_effect_id > 0),
{
    seed.channel_buff_id == 31020114 && seed.emit_effect_id > 0
}

/// The position of the first effect that carries a step.
pub open spec fn first_nested(s: Seq<EffectView>) -> Option<nat>
    decreases s.len(),
{
    if s.len() == 0 {
        None
    } else if s[0].fight_step is Some {
        Some(0)
    } else {
        match first_nested(s.skip(1)) {
            Some(i) => Some(i + 1),
            None => None,
        }
    }
}

/// A position found carries a step.
pub proof fn first_nested_bound(s: Seq<EffectView>)
    ensures
        first_nested(s) is Some ==> first_nested(s)->0 < s.len()
            && s[first_nested(s)->0 as int].fight_step is Some,
    decreases s.len(),
{
    if s.len() > 0 {
        first_nested_bound(s.skip(1));
    }
}

/// Finds the first effect that carries a step.
pub fn find_first_nested(v: &Vec<ActEffect>) -> (r: Option<usize>)
    ensures
        match r {
            Some(i) => first_nested(effects_view(v@)) == Some(i as nat),
            None => first_nested(effects_view(v@)) is None,
        },
{
    let ghost s = effects_view(v@);
    assert(s.skip(0) =~= s);
    let mut i: usize = 0;
    while i < v.len()
        invariant
            i <= v.len(),
            s == effects_view(v@),
            first_nested(s) == match first_nested(s.skip(i as int)) {
                Some(k) => Some((k + i) as nat),
                None => None,
            },
        decreases v.len() - i,
    {
        assert(s.skip(i as int)[0] == v@[i as int]@);
        assert(s.skip(i as int).skip(1) =~= s.skip(i + 1));
        if v[i].fight_step.is_some() {
            return Some(i);
        }
        i += 1;
    }
    None
}

/// A list of effects in which the step carried by one of them has more effects
/// put in.
pub open spec fn with_nested_splice(
    s: Seq<EffectView>,
    i: int,
    at: int,
    more: Seq<EffectView>,
) -> Seq<EffectView> {
    let nested = s[i].fight_step->0;
    s.update(
        i,
        EffectView {
            fight_step: Some(
                StepView { act_effect: spliced(nested.act_effect, at, more), ..nested },
            ),
            ..s[i]
        },
    )
}

/// Puts effects into the step that an effect of a list carries.
pub fn splice_nested(v: &mut Vec<ActEffect>, i: usize, at: usize, more: Vec<ActEffect>)
    requires
        i < old(v)@.len(),
        old(v)@[i as int].fight_step is Some,
        at <= old(v)@[i as int].fight_step->0.act_effect@.len(),
    ensures
        effects_view(final(v)@) == with_nested_splice(
            effects_view(old(v)@),
            i as int,
            at as int,
            effects_view(more@),
        ),
{
    let ghost before = effects_view(v@);
    let ghost nested = v@[i as int].fight_step->0;
    let ghost carrier = v@[i as int];
    let mut effect = v[i].clone();
    if let Some(step) = effect.fight_step {
        let mut step = step;
        assert(step@ == nested@);
        assert(effects_view(step.act_effect@) == effects_view(nested.act_effect@));
        assert(effects_view(step.act_effect@).len() == step.act_effect@.len());
        assert(effects_view(nested.act_effect@).len() == nested.act_effect@.len());
        splice_effects(&mut step.act_effect, at, more);
        effect.fight_step = Some(step);
        v[i] = effect;
    }
}

/// Puts the bullets that a channel spends into the first nested step of its step.
/// `insert_at` is the position there.
pub fn embed_bullets(channel_step: &mut FightStep, bullets: Vec<ActEffect>, insert_at: usize)
    requires
        first_nested(old(channel_step)@.act_effect) matches Some(i) ==> insert_at
            <= old(channel_step)@.act_effect[i as int].fight_step->0.act_effect.len(),
    ensures
        final(channel_step)@ == match first_nested(old(channel_step)@.act_effect) {
            Some(i) => StepView {
                act_effect: with_nested_splice(
                    old(channel_step)@.act_effect,
                    i as int,
                    insert_at as int,
                    effects_view(bullets@),
                ),
                ..old(channel_step)@
            },
            None => old(channel_step)@,
        },
{
    if let Some(i) = find_first_nested(&channel_step.act_effect) {
        proof {
            first_nested_bound(channel_step@.act_effect);
            assert(channel_step@.act_effect[i as int] == channel_step.act_effect@[i as int]@);
            let nested = channel_step.act_effect@[i as int].fight_step->0;
            assert(effects_view(nested.act_effect@).len() == nested.act_effect@.len());
        }
        splice_nested(&mut channel_step.act_effect, i, insert_at, bullets);
    }
}

} // verus!
