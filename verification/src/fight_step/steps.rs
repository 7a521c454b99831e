//! Skill steps, and steps cut to the size that the client takes.

use crate::model::copies::copy_effect;
use crate::model::lists::group_effects_view;
use crate::model::{
    effect_view, effects_view, step_view, ActEffect, ActType, EffectView, FightStep, StepView,
};
use vstd::prelude::*;

verus! {

broadcast use group_effects_view;

/// The most effects that one step may carry.
pub const STEP_EFFECT_COUNT_LIMIT: usize = 50;

/// The step of a skill that was played from a card. Card indexes of steps count
/// from one.
pub open spec fn skill_step(
    caster_uid: i64,
    target_uid: i64,
    skill_id: i32,
    card_index: i32,
    effects: Seq<EffectView>,
) -> StepView {
    StepView {
        card_index: Some((card_index + 1) as i32),
        ..StepView::plain(ActType::Skill, caster_uid, target_uid, skill_id, effects)
    }
}

/// Builds the step of a skill.
pub fn make_skill_step(
    caster_uid: i64,
    target_uid: i64,
    skill_id: i32,
    card_index: i32,
    effects: Vec<ActEffect>,
) -> (r: FightStep)
    requires
        card_index < i32::MAX,
    ensures
        r@ == skill_step(caster_uid, target_uid, skill_id, card_index, effects_view(effects@)),
{
    FightStep {
        act_type: Some(ActType::Skill),
        from_id: Some(caster_uid),
        to_id: Some(target_uid),
        act_id: Some(skill_id),
        act_effect: effects,
        card_index: Some(card_index + 1),
        support_hero_id: Some(0),
        fake_timeline: Some(false),
        real_skill_type: Some(0),
        real_skin_id: Some(0),
    }
}

/// The steps of a list, each by its view.
pub open spec fn steps_view(v: Seq<FightStep>) -> Seq<StepView> {
    Seq::new(v.len(), |i: int| step_view(v[i]))
}

/// A pushed step is pushed in the view.
pub proof fn steps_view_push(v: Seq<FightStep>, s: FightStep)
    ensures
        steps_view(v.push(s)) == steps_view(v).push(s@),
{
    assert(steps_view(v.push(s)) =~= steps_view(v).push(s@));
}

/// The step cut into steps of at most the limit, each the same but for its effects.
/// A step within the limit stays whole.
pub open spec fn chunked(s: StepView) -> Seq<StepView>
    decreases s.act_effect.len(),
{
    if s.act_effect.len() <= STEP_EFFECT_COUNT_LIMIT {
        seq![s]
    } else {
        seq![StepView { act_effect: s.act_effect.take(STEP_EFFECT_COUNT_LIMIT as int), ..s }]
            + chunked(
            StepView { act_effect: s.act_effect.skip(STEP_EFFECT_COUNT_LIMIT as int), ..s },
        )
    }
}

/// Copies part of a list of effects.
pub fn copy_range(v: &Vec<ActEffect>, from: usize, to: usize) -> (r: Vec<ActEffect>)
    requires
        from <= to <= v@.len(),
    ensures
        effects_view(r@) == effects_view(v@).subrange(from as int, to as int),
{
    let mut r: Vec<ActEffect> = Vec::new();
    for i in from..to
        invariant
            from <= to <= v@.len(),
            r@.len() == i - from,
            forall|k: int|
                0 <= k < r@.len() ==> effect_view(#[trigger] r@[k]) == effect_view(v@[from + k]),
    {
        r.push(copy_effect(&v[i]));
    }
    assert(effects_view(r@) =~= effects_view(v@).subrange(from as int, to as int));
    r
}

/// Cuts a step into steps that the client takes.
pub fn split_step_by_effect_limit(step: FightStep) -> (r: Vec<FightStep>)
    ensures
        steps_view(r@) == chunked(step@),
{
    let n = step.act_effect.len();
    let ghost s = step@.act_effect;
    assert(s.len() == n);
    let mut out: Vec<FightStep> = Vec::new();
    if n <= STEP_EFFECT_COUNT_LIMIT {
        out.push(step);
        assert(steps_view(out@) =~= seq![step@]);
        return out;
    }
    let mut at: usize = 0;
    assert(s.skip(0) =~= s);
    assert(steps_view(out@) =~= Seq::empty());
    assert(StepView { act_effect: s.skip(0), ..step@ } == step@);
    assert(Seq::<StepView>::empty() + chunked(step@) =~= chunked(step@));
    while n - at > STEP_EFFECT_COUNT_LIMIT
        invariant
            n == step.act_effect@.len(),
            s == effects_view(step.act_effect@),
            s == step@.act_effect,
            at < n,
            steps_view(out@) + chunked(
                StepView { act_effect: s.skip(at as int), ..step@ },
            ) == chunked(step@),
        decreases n - at,
    {
        let ghost before = out@;
        let ghost rest = StepView { act_effect: s.skip(at as int), ..step@ };
        let part = with_effects(&step, copy_range(&step.act_effect, at, at + STEP_EFFECT_COUNT_LIMIT));
        out.push(part);
        proof {
            steps_view_push(before, part);
            assert(s.skip(at as int).take(STEP_EFFECT_COUNT_LIMIT as int) =~= s.subrange(
                at as int,
                at + STEP_EFFECT_COUNT_LIMIT,
            ));
            assert(s.skip(at as int).skip(STEP_EFFECT_COUNT_LIMIT as int) =~= s.skip(
                at + STEP_EFFECT_COUNT_LIMIT,
            ));
            let tail = chunked(
                StepView { act_effect: s.skip(at + STEP_EFFECT_COUNT_LIMIT), ..step@ },
            );
            assert(chunked(rest) == seq![part@] + tail);
            assert(steps_view(before) + (seq![part@] + tail) =~= steps_view(before).push(part@)
                + tail);
        }
        at = at + STEP_EFFECT_COUNT_LIMIT;
    }
    let ghost before = out@;
    let last = with_effects(&step, copy_range(&step.act_effect, at, n));
    out.push(last);
    proof {
        steps_view_push(before, last);
        assert(s.skip(at as int) =~= s.subrange(at as int, n as int));
        assert(steps_view(out@) =~= steps_view(before) + seq![last@]);
    }
    out
}

/// A copy of a step with other effects.
pub fn with_effects(step: &FightStep, effects: Vec<ActEffect>) -> (r: FightStep)
    ensures
        r@ == (StepView { act_effect: effects_view(effects@), ..step@ }),
{
    FightStep {
        act_type: step.act_type,
        from_id: step.from_id,
        to_id: step.to_id,
        act_id: step.act_id,
        act_effect: effects,
        card_index: step.card_index,
        support_hero_id: step.support_hero_id,
        fake_timeline: step.fake_timeline,
        real_skill_type: step.real_skill_type,
        real_skin_id: step.real_skin_id,
    }
}

/// All the effects of some steps, one after the other.
pub open spec fn all_effects(steps: Seq<StepView>) -> Seq<EffectView>
    decreases steps.len(),
{
    if steps.len() == 0 {
        Seq::empty()
    } else {
        steps[0].act_effect + all_effects(steps.skip(1))
    }
}

/// Cutting a step loses no effect and changes no order; no part is over the limit,
/// and every part but the last is full; and each part is the step but for its effects.
pub proof fn chunks_are_the_step(s: StepView)
    ensures
        all_effects(chunked(s)) == s.act_effect,
        forall|i: int|
            0 <= i < chunked(s).len() ==> (#[trigger] chunked(s)[i]).act_effect.len()
                <= STEP_EFFECT_COUNT_LIMIT,
        chunked(s).len() > 0,
        forall|i: int|
            0 <= i < chunked(s).len() - 1 ==> (#[trigger] chunked(s)[i]).act_effect.len()
                == STEP_EFFECT_COUNT_LIMIT,
        forall|i: int|
            0 <= i < chunked(s).len() ==> #[trigger] chunked(s)[i] == (StepView {
                act_effect: chunked(s)[i].act_effect,
                ..s
            }),
    decreases s.act_effect.len(),
{
    if s.act_effect.len() <= STEP_EFFECT_COUNT_LIMIT {
        assert(chunked(s).skip(1) =~= Seq::empty());
        assert(all_effects(chunked(s).skip(1)) =~= Seq::empty());
        assert(all_effects(chunked(s)) =~= s.act_effect);
    } else {
        let n = STEP_EFFECT_COUNT_LIMIT as int;
        let head = StepView { act_effect: s.act_effect.take(n), ..s };
        let rest = StepView { act_effect: s.act_effect.skip(n), ..s };
        chunks_are_the_step(rest);
        assert(chunked(s).skip(1) =~= chunked(rest));
        assert(all_effects(chunked(s)) =~= s.act_effect);
        assert forall|i: int| 0 <= i < chunked(s).len() implies (#[trigger] chunked(
            s,
        )[i]).act_effect.len() <= STEP_EFFECT_COUNT_LIMIT && (i < chunked(s).len() - 1 ==> chunked(
            s,
        )[i].act_effect.len() == STEP_EFFECT_COUNT_LIMIT) && chunked(s)[i] == (StepView {
            act_effect: chunked(s)[i].act_effect,
            ..s
        }) by {
            if i > 0 {
                assert(chunked(s)[i] == chunked(rest)[i - 1]);
            } else {
                assert(chunked(s)[i] == head);
            }
        }
    }
}

} // verus!
