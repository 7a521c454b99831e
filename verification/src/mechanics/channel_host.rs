//! How the triggers of a channel's skill are put into the step that hosts them.

use crate::buffs::BuffInstance;
use crate::config::SharedParamsRow;
use crate::fight_step::builder::wrap_step;
use crate::fight_step::select::{has_kind, keep_wrappers, splice_effects, wrappers};
use crate::mechanics::channel_followup::{
    announce, announcement, lopera_channel, spliced, splice_nested, with_nested_splice, ChannelSeed,
};
use crate::model::copies::copy_effects;
use crate::model::lists::group_effects_view;
use crate::model::{
    effects_view, ActEffect, ActType, EffectType, EffectView, FightStep, StepView,
};
use vstd::prelude::*;

verus! {

broadcast use group_effects_view;

/// A skill emission to be queued: who emits which skill on whom, with which
/// effects inside.
#[derive(Debug)]
pub struct SkillEmission {
    pub from: i64,
    pub to: i64,
    pub skill_id: i32,
    pub children: Vec<ActEffect>,
}

/// [`SkillEmission`] as a mathematical value.
pub struct SkillEmissionView {
    pub from: i64,
    pub to: i64,
    pub skill_id: i32,
    pub children: Seq<EffectView>,
}

impl View for SkillEmission {
    type V = SkillEmissionView;

    open spec fn view(&self) -> SkillEmissionView {
        SkillEmissionView {
            from: self.from,
            to: self.to,
            skill_id: self.skill_id,
            children: effects_view(self.children@),
        }
    }
}

/// The emissions of a list, each by its view.
pub open spec fn emissions_view(v: Seq<SkillEmission>) -> Seq<SkillEmissionView> {
    Seq::new(v.len(), |i: int| v[i]@)
}

/// Whether an effect wraps the given skill.
pub open spec fn wraps_skill(e: EffectView, skill_id: i32) -> bool {
    &&& e.fight_step is Some
    &&& e.effect_type == Some(EffectType::FightStep)
    &&& e.fight_step->0.act_type == Some(ActType::Skill)
    &&& e.fight_step->0.act_id == Some(skill_id)
}

/// The emissions that repeat the wrapped steps of a skill.
pub open spec fn repeated_emissions(
    s: Seq<EffectView>,
    caster_uid: i64,
    skill_id: i32,
) -> Seq<SkillEmissionView>
    decreases s.len(),
{
    if s.len() == 0 {
        Seq::empty()
    } else {
        let before = repeated_emissions(s.drop_last(), caster_uid, skill_id);
        if wraps_skill(s.last(), skill_id) {
            before.push(
                SkillEmissionView {
                    from: caster_uid,
                    to: caster_uid,
                    skill_id,
                    children: s.last().fight_step->0.act_effect,
                },
            )
        } else {
            before
        }
    }
}

/// The emissions that show a consuming channel: one for each wrapped step of the
/// emitted skill, and one for the buff of the same id if the caster bears it. A
/// skill that failed shows nothing.
pub open spec fn consume_emissions(
    skill_effects: Option<Seq<EffectView>>,
    caster_uid: i64,
    emit_effect_id: i32,
    held: Seq<BuffInstance>,
    shared: Seq<SharedParamsRow>,
) -> Seq<SkillEmissionView> {
    match skill_effects {
        None => Seq::empty(),
        Some(s) => {
            let repeated = repeated_emissions(s, caster_uid, emit_effect_id);
            match announcement(caster_uid, held, shared, emit_effect_id) {
                Some(e) => repeated.push(
                    SkillEmissionView {
                        from: caster_uid,
                        to: caster_uid,
                        skill_id: emit_effect_id,
                        children: seq![e],
                    },
                ),
                None => repeated,
            }
        },
    }
}

fn is_skill_wrapper(e: &ActEffect, skill_id: i32) -> (r: bool)
    ensures
        r == wraps_skill(e@, skill_id),
{
    if !has_kind(e, EffectType::FightStep) {
        return false;
    }
    match &e.fight_step {
        Some(step) => match (step.act_type, step.act_id) {
            (Some(t), Some(id)) => t == ActType::Skill && id == skill_id,
            _ => false,
        },
        None => false,
    }
}

/// Prepares the emissions that show a consuming channel; see
/// [`consume_emissions`]. `skill_effects` is what the emitted skill did when it was
/// tried, if it could be played.
pub fn build_display_only_consume_channel_embeds(
    skill_effects: Option<Vec<ActEffect>>,
    caster_uid: i64,
    emit_effect_id: i32,
    held: &Vec<BuffInstance>,
    shared: &Vec<SharedParamsRow>,
) -> (r: Vec<SkillEmission>)
    ensures
        emissions_view(r@) == consume_emissions(
            match skill_effects {
                Some(v) => Some(effects_view(v@)),
                None => None,
            },
            caster_uid,
            emit_effect_id,
            held@,
            shared@,
        ),
{
    let mut out: Vec<SkillEmission> = Vec::new();
    match skill_effects {
        None => {
            assert(emissions_view(out@) =~= Seq::empty());
        },
        Some(effects) => {
            let ghost s = effects_view(effects@);
            assert(emissions_view(out@) =~= repeated_emissions(
                s.take(0),
                caster_uid,
                emit_effect_id,
            ));
            for i in 0..effects.len()
                invariant
                    s == effects_view(effects@),
                    emissions_view(out@) == repeated_emissions(
                        s.take(i as int),
                        caster_uid,
                        emit_effect_id,
                    ),
            {
                assert(s.take(i + 1).drop_last() =~= s.take(i as int));
                assert(s.take(i + 1).last() == effects@[i as int]@);
                let ghost before = emissions_view(out@);
                if is_skill_wrapper(&effects[i], emit_effect_id) {
                    if let Some(step) = &effects[i].fight_step {
                        let emission = SkillEmission {
                            from: caster_uid,
                            to: caster_uid,
                            skill_id: emit_effect_id,
                            children: copy_effects(&step.act_effect),
                        };
                        out.push(emission);
                        assert(emissions_view(out@) =~= before.push(emission@));
                    }
                }
            }
            assert(s.take(s.len() as int) =~= s);
            if let Some(e) = announce(caster_uid, held, shared, emit_effect_id) {
                let ghost before = emissions_view(out@);
                let mut children: Vec<ActEffect> = Vec::new();
                children.push(e);
                assert(effects_view(children@) =~= seq![e@]);
                let emission = SkillEmission {
                    from: caster_uid,
                    to: caster_uid,
                    skill_id: emit_effect_id,
                    children,
                };
                out.push(emission);
                assert(emissions_view(out@) =~= before.push(emission@));
            }
        },
    }
    out
}

/// A step that a channel's skill triggered, the effect that embeds it, and the
/// fighter it originates from.
#[derive(Debug)]
pub struct TriggerEmbed {
    pub step: FightStep,
    pub embedded: ActEffect,
    pub origin_uid: Option<i64>,
}

/// [`TriggerEmbed`] as a mathematical value.
pub struct TriggerEmbedView {
    pub step: StepView,
    pub embedded: EffectView,
    pub origin_uid: Option<i64>,
}

impl View for TriggerEmbed {
    type V = TriggerEmbedView;

    open spec fn view(&self) -> TriggerEmbedView {
        TriggerEmbedView {
            step: self.step@,
            embedded: self.embedded@,
            origin_uid: self.origin_uid,
        }
    }
}

/// The triggers of a list, each by its view.
pub open spec fn triggers_view(v: Seq<TriggerEmbed>) -> Seq<TriggerEmbedView> {
    Seq::new(v.len(), |i: int| v[i]@)
}

/// The effects that a trigger stands for: the nested steps of a step of effects,
/// if it has any, else the one that embeds it whole.
pub open spec fn exploded(t: TriggerEmbedView) -> Seq<EffectView> {
    if t.step.act_type == Some(ActType::Effect) && wrappers(t.step.act_effect).len() > 0 {
        wrappers(t.step.act_effect)
    } else {
        seq![t.embedded]
    }
}

/// The effects that a trigger stands for.
pub fn explode_trigger_step_embeds(t: &TriggerEmbed) -> (r: Vec<ActEffect>)
    ensures
        effects_view(r@) == exploded(t@),
{
    let is_effect: bool = match t.step.act_type {
        Some(k) => k == ActType::Effect,
        None => false,
    };
    if is_effect {
        let kept = keep_wrappers(&t.step.act_effect);
        assert(effects_view(kept@).len() == kept@.len());
        if kept.len() > 0 {
            return kept;
        }
    }
    let mut r: Vec<ActEffect> = Vec::new();
    r.push(t.embedded.clone());
    assert(effects_view(r@) =~= seq![t@.embedded]);
    r
}

/// Whether an effect repeats the skill that hosts it.
pub open spec fn repeats_host(e: EffectView, skill_id: i32, caster_uid: i64) -> bool {
    &&& e.fight_step is Some
    &&& e.fight_step->0.act_type == Some(ActType::Skill)
    &&& e.fight_step->0.act_id == Some(skill_id)
    &&& e.fight_step->0.from_id == Some(caster_uid)
}

fn is_host_again(e: &ActEffect, skill_id: i32, caster_uid: i64) -> (r: bool)
    ensures
        r == repeats_host(e@, skill_id, caster_uid),
{
    match &e.fight_step {
        Some(step) => match (step.act_type, step.act_id, step.from_id) {
            (Some(t), Some(id), Some(from)) => t == ActType::Skill && id == skill_id && from
                == caster_uid,
            _ => false,
        },
        None => false,
    }
}

/// The effects that do not repeat their host.
pub open spec fn new_effects(
    s: Seq<EffectView>,
    skill_id: i32,
    caster_uid: i64,
) -> Seq<EffectView>
    decreases s.len(),
{
    if s.len() == 0 {
        Seq::empty()
    } else if repeats_host(s.last(), skill_id, caster_uid) {
        new_effects(s.drop_last(), skill_id, caster_uid)
    } else {
        new_effects(s.drop_last(), skill_id, caster_uid).push(s.last())
    }
}

/// What the triggers of the caster add to the channel's skill.
pub open spec fn candidates(
    ts: Seq<TriggerEmbedView>,
    skill_id: i32,
    caster_uid: i64,
) -> Seq<EffectView>
    decreases ts.len(),
{
    if ts.len() == 0 {
        Seq::empty()
    } else {
        let before = candidates(ts.drop_last(), skill_id, caster_uid);
        if ts.last().origin_uid == Some(caster_uid) {
            before + new_effects(exploded(ts.last()), skill_id, caster_uid)
        } else {
            before
        }
    }
}

/// The triggers of the caster, each embedded whole.
pub open spec fn whole_embeds(ts: Seq<TriggerEmbedView>, caster_uid: i64) -> Seq<EffectView>
    decreases ts.len(),
{
    if ts.len() == 0 {
        Seq::empty()
    } else if ts.last().origin_uid == Some(caster_uid) {
        whole_embeds(ts.drop_last(), caster_uid).push(ts.last().embedded)
    } else {
        whole_embeds(ts.drop_last(), caster_uid)
    }
}

fn comes_from(t: &TriggerEmbed, uid: i64) -> (r: bool)
    ensures
        r == (t@.origin_uid == Some(uid)),
{
    match t.origin_uid {
        Some(u) => u == uid,
        None => false,
    }
}

fn collect_candidates(
    triggers: &Vec<TriggerEmbed>,
    skill_id: i32,
    caster_uid: i64,
) -> (r: Vec<ActEffect>)
    ensures
        effects_view(r@) == candidates(triggers_view(triggers@), skill_id, caster_uid),
{
    let ghost ts = triggers_view(triggers@);
    let mut out: Vec<ActEffect> = Vec::new();
    assert(effects_view(out@) =~= candidates(ts.take(0), skill_id, caster_uid));
    for i in 0..triggers.len()
        invariant
            ts == triggers_view(triggers@),
            effects_view(out@) == candidates(ts.take(i as int), skill_id, caster_uid),
    {
        assert(ts.take(i + 1).drop_last() =~= ts.take(i as int));
        assert(ts.take(i + 1).last() == triggers@[i as int]@);
        let ghost before = effects_view(out@);
        if comes_from(&triggers[i], caster_uid) {
            let parts = explode_trigger_step_embeds(&triggers[i]);
            let ghost ps = effects_view(parts@);
            assert(before + new_effects(ps.take(0), skill_id, caster_uid) =~= before);
            for j in 0..parts.len()
                invariant
                    ps == effects_view(parts@),
                    effects_view(out@) == before + new_effects(
                        ps.take(j as int),
                        skill_id,
                        caster_uid,
                    ),
            {
                assert(ps.take(j + 1).drop_last() =~= ps.take(j as int));
                assert(ps.take(j + 1).last() == parts@[j as int]@);
                if !is_host_again(&parts[j], skill_id, caster_uid) {
                    out.push(parts[j].clone());
                }
                assert(effects_view(out@) =~= before + new_effects(
                    ps.take(j + 1),
                    skill_id,
                    caster_uid,
                ));
            }
            assert(ps.take(ps.len() as int) =~= ps);
        }
        assert(effects_view(out@) =~= candidates(ts.take(i + 1), skill_id, caster_uid));
    }
    assert(ts.take(ts.len() as int) =~= ts);
    out
}

fn collect_whole(triggers: &Vec<TriggerEmbed>, caster_uid: i64) -> (r: Vec<ActEffect>)
    ensures
        effects_view(r@) == whole_embeds(triggers_view(triggers@), caster_uid),
{
    let ghost ts = triggers_view(triggers@);
    let mut out: Vec<ActEffect> = Vec::new();
    assert(effects_view(out@) =~= whole_embeds(ts.take(0), caster_uid));
    for i in 0..triggers.len()
        invariant
            ts == triggers_view(triggers@),
            effects_view(out@) == whole_embeds(ts.take(i as int), caster_uid),
    {
        assert(ts.take(i + 1).drop_last() =~= ts.take(i as int));
        assert(ts.take(i + 1).last() == triggers@[i as int]@);
        if comes_from(&triggers[i], caster_uid) {
            out.push(triggers[i].embedded.clone());
        }
    }
    assert(ts.take(ts.len() as int) =~= ts);
    out
}

/// The place of a trigger in the fixed order: the two known skills first, other
/// steps after them, plain effects last.
pub open spec fn lopera_rank(e: EffectView) -> int {
    match e.fight_step {
        Some(step) => if step.act_id == Some(31020151i32) {
            0
        } else if step.act_id == Some(433711i32) {
            1
        } else {
            2
        },
        None => 3,
    }
}

/// The effects of one place in the fixed order.
pub open spec fn ranked(s: Seq<EffectView>, rank: int) -> Seq<EffectView>
    decreases s.len(),
{
    if s.len() == 0 {
        Seq::empty()
    } else if lopera_rank(s.last()) == rank {
        ranked(s.drop_last(), rank).push(s.last())
    } else {
        ranked(s.drop_last(), rank)
    }
}

/// The effects in the fixed order; those of one place keep their order.
pub open spec fn lopera_sorted(s: Seq<EffectView>) -> Seq<EffectView> {
    ranked(s, 0) + ranked(s, 1) + ranked(s, 2) + ranked(s, 3)
}

fn rank_of(e: &ActEffect) -> (r: u8)
    ensures
        r == lopera_rank(e@),
{
    match &e.fight_step {
        Some(step) => match step.act_id {
            Some(id) => if id == 31020151 {
                0
            } else if id == 433711 {
                1
            } else {
                2
            },
            None => 2,
        },
        None => 3,
    }
}

fn push_ranked(out: &mut Vec<ActEffect>, v: &Vec<ActEffect>, rank: u8)
    ensures
        effects_view(final(out)@) == effects_view(old(out)@) + ranked(effects_view(v@), rank as int),
{
    let ghost start = effects_view(out@);
    let ghost s = effects_view(v@);
    assert(start + ranked(s.take(0), rank as int) =~= start);
    for i in 0..v.len()
        invariant
            s == effects_view(v@),
            effects_view(out@) == start + ranked(s.take(i as int), rank as int),
    {
        assert(s.take(i + 1).drop_last() =~= s.take(i as int));
        assert(s.take(i + 1).last() == v@[i as int]@);
        if rank_of(&v[i]) == rank {
            out.push(v[i].clone());
        }
        assert(effects_view(out@) =~= start + ranked(s.take(i + 1), rank as int));
    }
    assert(s.take(s.len() as int) =~= s);
}

/// Puts effects in the fixed order.
pub fn sort_lopera(v: &Vec<ActEffect>) -> (r: Vec<ActEffect>)
    ensures
        effects_view(r@) == lopera_sorted(effects_view(v@)),
{
    let mut out: Vec<ActEffect> = Vec::new();
    push_ranked(&mut out, v, 0);
    push_ranked(&mut out, v, 1);
    push_ranked(&mut out, v, 2);
    push_ranked(&mut out, v, 3);
    assert(effects_view(out@) =~= lopera_sorted(effects_view(v@)));
    out
}

/// Whether an effect wraps a step of a skill, whatever its act type.
pub open spec fn hosts_skill(e: EffectView, skill_id: i32) -> bool {
    &&& e.effect_type == Some(EffectType::FightStep)
    &&& e.fight_step is Some
    &&& e.fight_step->0.act_id == Some(skill_id)
}

/// The position of the first effect that wraps a step of a skill.
pub open spec fn host_position(s: Seq<EffectView>, skill_id: i32) -> Option<nat>
    decreases s.len(),
{
    if s.len() == 0 {
        None
    } else if hosts_skill(s[0], skill_id) {
        Some(0)
    } else {
        match host_position(s.skip(1), skill_id) {
            Some(i) => Some(i + 1),
            None => None,
        }
    }
}

/// A position found wraps a step of the skill.
pub proof fn host_position_bound(s: Seq<EffectView>, skill_id: i32)
    ensures
        host_position(s, skill_id) is Some ==> host_position(s, skill_id)->0 < s.len()
            && hosts_skill(s[host_position(s, skill_id)->0 as int], skill_id),
    decreases s.len(),
{
    if s.len() > 0 {
        host_position_bound(s.skip(1), skill_id);
    }
}

fn find_host(v: &Vec<ActEffect>, skill_id: i32) -> (r: Option<usize>)
    ensures
        match r {
            Some(i) => host_position(effects_view(v@), skill_id) == Some(i as nat),
            None => host_position(effects_view(v@), skill_id) is None,
        },
{
    let ghost s = effects_view(v@);
    assert(s.skip(0) =~= s);
    let mut i: usize = 0;
    while i < v.len()
        invariant
            i <= v.len(),
            s == effects_view(v@),
            host_position(s, skill_id) == match host_position(s.skip(i as int), skill_id) {
                Some(k) => Some((k + i) as nat),
                None => None,
            },
        decreases v.len() - i,
    {
        assert(s.skip(i as int)[0] == v@[i as int]@);
        assert(s.skip(i as int).skip(1) =~= s.skip(i + 1));
        if has_kind(&v[i], EffectType::FightStep) {
            if let Some(step) = &v[i].fight_step {
                if let Some(id) = step.act_id {
                    if id == skill_id {
                        return Some(i);
                    }
                }
            }
        }
        i += 1;
    }
    None
}

/// What becomes of a channel's step and its triggers.
#[derive(Debug)]
pub enum HostPlan {
    /// The step is complete.
    Ready { host: FightStep },
    /// The triggers are to be tried one by one inside the step at `position`; those
    /// that fit nowhere are left over for [`finish_host`].
    Insert { host: FightStep, position: usize, candidates: Vec<ActEffect> },
}

/// Plans how the triggers of a channel's skill join its step. `insert_at` is where
/// triggers go in a step that does not wrap the skill.
pub fn plan_host(
    channel_step: &FightStep,
    seed: ChannelSeed,
    triggers: &Vec<TriggerEmbed>,
    insert_at: usize,
) -> (r: HostPlan)
    requires
        insert_at <= channel_step@.act_effect.len(),
    ensures
        ({
            let s = channel_step@.act_effect;
            let ts = triggers_view(triggers@);
            match host_position(s, seed.extra_skill_id) {
                None => r matches HostPlan::Ready { host } && host@ == (StepView {
                    act_effect: spliced(s, insert_at as int, whole_embeds(ts, seed.caster_uid)),
                    ..channel_step@
                }),
                Some(i) => if seed.channel_buff_id == lopera_channel() {
                    r matches HostPlan::Ready { host } && host@ == (StepView {
                        act_effect: with_nested_splice(
                            s,
                            i as int,
                            s[i as int].fight_step->0.act_effect.len() as int,
                            lopera_sorted(
                                candidates(ts, seed.extra_skill_id, seed.caster_uid),
                            ),
                        ),
                        ..channel_step@
                    })
                } else {
                    r matches HostPlan::Insert { host, position, candidates: cs } && host@
                        == channel_step@ && position == i && effects_view(cs@) == candidates(
                        ts,
                        seed.extra_skill_id,
                        seed.caster_uid,
                    )
                },
            }
        }),
{
    let mut host = channel_step.clone();
    let ghost s = channel_step@.act_effect;
    assert(effects_view(host.act_effect@) == s);
    assert(effects_view(host.act_effect@).len() == host.act_effect@.len());
    match find_host(&host.act_effect, seed.extra_skill_id) {
        None => {
            let whole = collect_whole(triggers, seed.caster_uid);
            splice_effects(&mut host.act_effect, insert_at, whole);
            HostPlan::Ready { host }
        },
        Some(i) => {
            proof {
                host_position_bound(s, seed.extra_skill_id);
                assert(s[i as int] == host.act_effect@[i as int]@);
            }
            let more = collect_candidates(triggers, seed.extra_skill_id, seed.caster_uid);
            if seed.channel_buff_id == 31020114 {
                let sorted = sort_lopera(&more);
                let end: usize = match &host.act_effect[i].fight_step {
                    Some(step) => step.act_effect.len(),
                    None => 0,
                };
                proof {
                    let nested = host.act_effect@[i as int].fight_step->0;
                    assert(effects_view(nested.act_effect@).len() == nested.act_effect@.len());
                }
                splice_nested(&mut host.act_effect, i, end, sorted);
                HostPlan::Ready { host }
            } else {
                HostPlan::Insert { host, position: i, candidates: more }
            }
        },
    }
}

/// Puts the triggers that fitted nowhere into the step at `position`.
pub fn finish_host(
    host: FightStep,
    position: usize,
    leftovers: Vec<ActEffect>,
    insert_at: usize,
) -> (r: FightStep)
    requires
        position < host@.act_effect.len(),
        host@.act_effect[position as int].fight_step is Some,
        insert_at <= host@.act_effect[position as int].fight_step->0.act_effect.len(),
    ensures
        r@ == (StepView {
            act_effect: with_nested_splice(
                host@.act_effect,
                position as int,
                insert_at as int,
                effects_view(leftovers@),
            ),
            ..host@
        }),
{
    let mut host = host;
    proof {
        assert(host@.act_effect[position as int] == host.act_effect@[position as int]@);
        let nested = host.act_effect@[position as int].fight_step->0;
        assert(effects_view(nested.act_effect@).len() == nested.act_effect@.len());
    }
    splice_nested(&mut host.act_effect, position, insert_at, leftovers);
    host
}

/// The effect that carries a channel's finished step into the round.
pub fn channel_round_effect(host: FightStep) -> (r: ActEffect)
    ensures
        r@ == EffectView::wrapper(host@),
{
    wrap_step(host)
}

/// Each effect of one place is of that place.
proof fn ranked_rank(s: Seq<EffectView>, rank: int)
    ensures
        forall|i: int| 0 <= i < ranked(s, rank).len() ==> lopera_rank(#[trigger] ranked(s, rank)[i])
            == rank,
    decreases s.len(),
{
    if s.len() > 0 {
        ranked_rank(s.drop_last(), rank);
        let before = ranked(s.drop_last(), rank);
        assert forall|i: int| 0 <= i < ranked(s, rank).len() implies lopera_rank(
            #[trigger] ranked(s, rank)[i],
        ) == rank by {
            if i < before.len() {
                assert(ranked(s, rank)[i] == before[i]);
            }
        }
    }
}

/// The fixed order is an order: no effect stands before one of an earlier place.
pub proof fn lopera_sorted_ordered(s: Seq<EffectView>, i: int, j: int)
    requires
        0 <= i < j < lopera_sorted(s).len(),
    ensures
        lopera_rank(lopera_sorted(s)[i]) <= lopera_rank(lopera_sorted(s)[j]),
{
    ranked_rank(s, 0);
    ranked_rank(s, 1);
    ranked_rank(s, 2);
    ranked_rank(s, 3);
}

/// Putting effects in the fixed order neither drops nor repeats any.
pub proof fn lopera_sorted_keeps(s: Seq<EffectView>)
    ensures
        lopera_sorted(s).to_multiset() =~= s.to_multiset(),
    decreases s.len(),
{
    broadcast use vstd::seq_lib::group_to_multiset_ensures;

    if s.len() == 0 {
        assert(lopera_sorted(s) =~= s);
    } else {
        let t = s.drop_last();
        let e = s.last();
        lopera_sorted_keeps(t);
        assert(s =~= t.push(e));
        let a = ranked(t, 0);
        let b = ranked(t, 1);
        let c = ranked(t, 2);
        let d = ranked(t, 3);
        vstd::seq_lib::lemma_multiset_commutative(a, b);
        vstd::seq_lib::lemma_multiset_commutative(a + b, c);
        vstd::seq_lib::lemma_multiset_commutative(a + b + c, d);
        let a2 = ranked(s, 0);
        let b2 = ranked(s, 1);
        let c2 = ranked(s, 2);
        let d2 = ranked(s, 3);
        vstd::seq_lib::lemma_multiset_commutative(a2, b2);
        vstd::seq_lib::lemma_multiset_commutative(a2 + b2, c2);
        vstd::seq_lib::lemma_multiset_commutative(a2 + b2 + c2, d2);
        assert(s.to_multiset() =~= t.to_multiset().insert(e));
    }
}

} // verus!
