//! Skills that play skills, the hits of faith, empathy, and whom poison goes to.

use crate::arith::{fits, or_zero};
use crate::buffs::{holds, BuffInstance, BuffMgr};
use crate::config::{row_at, SkillBuffRow, SkillEffectRow, SkillLinkRow};
use crate::effect::behavior::direct_skill::{
    big_skill_id, capped, chosen_skill, deduped, direct_plan, emitted_skill, fanout_skill,
    first_own_layer, initial_consume, needed_points, opened, pool_of, pool_skills, prep_layer,
    refund_of, shown_effects, BigSkillInputs, DirectSkillPlan, PassiveCondition, UseCondition,
};
use crate::effect::behavior::empathy::{empathy_buff, empathy_plan, empty_store, EmpathyPlan};
use crate::effect::behavior::nuodika_damage::{
    faith_hits, hits_on, hits_shown, target_code, FaithHit,
};
use crate::effect::behavior::poison_priority::{
    any_poisoned, is_poison, poison_in, pool_size, rank_of, ranked,
};
use crate::laws::events::nothing_set;
use crate::laws::play::hits;
use crate::lookup::entity_of;
use crate::model::{EffectType, EffectView, EntityView, FightHurtInfo, FightView};
use crate::text::{decimal, number, param, pieces, trimmed};
use vstd::prelude::*;

verus! {

/// What a behaviour that plays a skill comes down to, by its id: eight play the skill that
/// they name, two the middle one of a pool, one the ex skill, one a skill of a group; any
/// other nothing. It is aimed at the first target, and at the caster if there is none.
pub proof fn played_skills_by_id(id: i32, raw: Seq<char>, caster_uid: i64, targets: Seq<i64>)
    ensures
        ({
            let r = direct_plan(id, raw, caster_uid, targets);
            let target = if targets.len() > 0 {
                targets[0]
            } else {
                caster_uid
            };
            let named = id == 50008 || id == 50012 || id == 50038 || id == 50039 || id == 60014
                || id == 60053 || id == 60156 || id == 60223;
            let pooled = id == 60225 || id == 60239;
            let pool = pool_of(raw);
            &&& named && param(raw, 1) > 0 ==> r == (DirectSkillPlan::UseSkill {
                target,
                skill_id: param(raw, 1),
            })
            &&& named && param(raw, 1) <= 0 ==> r == DirectSkillPlan::Nothing
            &&& id == 60175 ==> r == (DirectSkillPlan::BigSkill { target })
            &&& id == 50010 ==> r == (DirectSkillPlan::GroupAndStar {
                target,
                group: param(raw, 1),
                rank: param(raw, 2),
            })
            &&& pooled && pool.len() == 0 ==> r == DirectSkillPlan::Nothing
            &&& pooled && pool.len() > 0 ==> r == (DirectSkillPlan::UseSkill {
                target,
                skill_id: pool[pool.len() as int / 2],
            })
            &&& !named && !pooled && id != 60175 && id != 50010 ==> r == DirectSkillPlan::Nothing
        }),
{
}

proof fn a_pool_of_skills_is_read_in_order_join(
    a: Seq<Seq<char>>,
    b: Seq<Seq<char>>,
)
    ensures
        pool_skills(a + b) == pool_skills(a) + pool_skills(b),
    decreases b.len(),
{
    if b.len() == 0 {
        assert(a + b =~= a);
        assert(pool_skills(a) + pool_skills(b) =~= pool_skills(a));
    } else {
        a_pool_of_skills_is_read_in_order_join(a, b.drop_last());
        assert((a + b).drop_last() =~= a + b.drop_last());
        assert((a + b).last() == b.last());
        assert(pool_skills(a + b) =~= pool_skills(a) + pool_skills(b));
    }
}

/// A pool of skills is the positive numbers that its entries start with, in their order.
pub proof fn a_pool_of_skills_is_read_in_order(
    a: Seq<Seq<char>>,
    b: Seq<Seq<char>>,
    x: Seq<char>,
)
    ensures
        pool_skills(a + b) == pool_skills(a) + pool_skills(b),
        pool_skills(Seq::<Seq<char>>::empty()).len() == 0,
        pool_skills(seq![x]) == (if number(trimmed(pieces(x, ':')[0])) is Some && number(trimmed(pieces(x, ':')[0]))->0 > 0 {
            seq![number(trimmed(pieces(x, ':')[0]))->0]
        } else {
            Seq::empty()
        }),
{
    a_pool_of_skills_is_read_in_order_join(a, b);
    let one = seq![x];
    assert(one.drop_last() =~= Seq::<Seq<char>>::empty());
    assert(one.last() == x);
    assert(pool_skills(one.drop_last()).len() == 0);
    assert(pool_skills(seq![x]) =~= (if number(trimmed(pieces(x, ':')[0])) is Some && number(trimmed(pieces(x, ':')[0]))->0 > 0 {
            seq![number(trimmed(pieces(x, ':')[0]))->0]
        } else {
            Seq::empty()
        }));
}

/// The pool of a text is in its second part.
pub proof fn where_a_pool_of_skills_is_listed(raw: Seq<char>)
    ensures
        pieces(raw, '#').len() > 1 ==> pool_of(raw) == pool_skills(
            pieces(pieces(raw, '#')[1], '&'),
        ),
        pieces(raw, '#').len() <= 1 ==> pool_of(raw).len() == 0,
{
}

/// The ex skill that is played: the one that the skill at hand wraps, if it is known, and
/// else the caster's own.
pub proof fn which_ex_skill_is_played(f: FightView, caster_uid: i64, q: BigSkillInputs)
    requires
        q.skill_id >= i32::MIN + 20,
    ensures
        q.wrapped_known ==> big_skill_id(f, caster_uid, q) == q.skill_id - 20,
        !q.wrapped_known && entity_of(f, caster_uid) is Some ==> big_skill_id(f, caster_uid, q)
            == or_zero(entity_of(f, caster_uid)->0.ex_skill),
        !q.wrapped_known && entity_of(f, caster_uid) is None ==> big_skill_id(f, caster_uid, q)
            == 0,
{
}

/// What an ex skill costs: what its row asks for or else what it consumes, but no more than
/// the caster has; all that the caster has if it asks for nothing; and no more than each of
/// the caps allows. As much comes back, but no more than the skill asks for.
pub proof fn what_an_ex_skill_costs(
    rows: Seq<SkillEffectRow>,
    links: Seq<SkillLinkRow>,
    skill_id: i32,
    max_consume: Option<i32>,
    current: i32,
    cap: Option<i32>,
)
    ensures
        ({
            let id = if row_at(links, skill_id) is Some {
                row_at(links, skill_id)->0.effect_id
            } else {
                skill_id
            };
            let row = row_at(rows, id);
            let need = needed_points(rows, links, skill_id, max_consume);
            let have = if current > 0 {
                current
            } else {
                0
            };
            let start = initial_consume(need, current);
            let cost = capped(start, cap);
            &&& row is Some && row->0.need_ex_point > 0 ==> need == row->0.need_ex_point
            &&& (row is None || row->0.need_ex_point <= 0) && or_zero(max_consume) > 0 ==> need
                == or_zero(max_consume)
            &&& (row is None || row->0.need_ex_point <= 0) && or_zero(max_consume) <= 0 ==> need
                == 0
            &&& need > 0 && need <= have ==> start == need
            &&& (need <= 0 || need > have) ==> start == have
            &&& cap is None ==> cost == start
            &&& cap is Some && cap->0 >= start ==> cost == start
            &&& cap is Some && 0 <= cap->0 < start ==> cost == cap->0
            &&& cap is Some && cap->0 < 0 ==> cost == 0
            &&& need <= 0 || cost <= need ==> refund_of(need, cost) == cost
            &&& need > 0 && cost > need ==> refund_of(need, cost) == need
        }),
{
}

/// The layer of a buff that an effect puts on a caster.
pub open spec fn layer_put_on(e: EffectView, caster_uid: i64) -> Option<i32> {
    if e.effect_type == Some(EffectType::BuffAdd) && e.target_id == Some(caster_uid)
        && e.buff is Some {
        Some(
            if e.buff->0.layer is Some && e.buff->0.layer->0 > 0 {
                e.buff->0.layer->0
            } else {
                0
            },
        )
    } else {
        None
    }
}

/// The layer that caps the cost is that of the first buff that some effects put on the
/// caster.
pub proof fn the_first_layer_put_on(s: Seq<EffectView>, caster_uid: i64)
    ensures
        (forall|i: int| 0 <= i < s.len() ==> layer_put_on(#[trigger] s[i], caster_uid) is None)
            ==> first_own_layer(s, caster_uid) is None,
        forall|i: int|
            0 <= i < s.len() && layer_put_on(#[trigger] s[i], caster_uid) is Some && (forall|j: int|
                0 <= j < i ==> layer_put_on(#[trigger] s[j], caster_uid) is None)
                ==> first_own_layer(s, caster_uid) == layer_put_on(s[i], caster_uid),
    decreases s.len(),
{
    if s.len() > 0 {
        let rest = s.skip(1);
        the_first_layer_put_on(rest, caster_uid);
        assert forall|i: int|
            0 <= i < s.len() && layer_put_on(#[trigger] s[i], caster_uid) is Some && (forall|j: int|
                0 <= j < i ==> layer_put_on(
                    #[trigger] s[j],
                    caster_uid,
                ) is None) implies first_own_layer(s, caster_uid) == layer_put_on(
            s[i],
            caster_uid,
        ) by {
            if i > 0 {
                assert(layer_put_on(s[0], caster_uid) is None);
                assert(rest[i - 1] == s[i]);
                assert forall|j: int| 0 <= j < i - 1 implies layer_put_on(
                    #[trigger] rest[j],
                    caster_uid,
                ) is None by {
                    assert(rest[j] == s[j + 1]);
                }
            }
        }
        if forall|i: int| 0 <= i < s.len() ==> layer_put_on(#[trigger] s[i], caster_uid) is None {
            assert(layer_put_on(s[0], caster_uid) is None);
            assert forall|i: int| 0 <= i < rest.len() implies layer_put_on(
                #[trigger] rest[i],
                caster_uid,
            ) is None by {
                assert(rest[i] == s[i + 1]);
            }
        }
    }
}

/// The cap of the precast skills is looked for step by step, and the first step that has
/// one gives it.
pub proof fn the_cap_of_the_precast_skills(e: EffectView, rest: Seq<EffectView>, caster_uid: i64)
    ensures
        ({
            let here = if e.fight_step is Some {
                first_own_layer(e.fight_step->0.act_effect, caster_uid)
            } else {
                None
            };
            &&& here is Some ==> prep_layer(seq![e] + rest, caster_uid) == here
            &&& here is None ==> prep_layer(seq![e] + rest, caster_uid) == prep_layer(
                rest,
                caster_uid,
            )
        }),
        prep_layer(Seq::empty(), caster_uid) is None,
{
    let s = seq![e] + rest;
    assert(s.skip(1) =~= rest);
    assert(s[0] == e);
}

/// An effect is a step of a skill.
pub open spec fn step_of_skill(e: EffectView, skill_id: i32) -> bool {
    e.effect_type == Some(EffectType::FightStep) && e.fight_step is Some
        && e.fight_step->0.act_id == Some(skill_id)
}

/// A step of a skill does no damage.
pub open spec fn idle_step(e: EffectView, skill_id: i32) -> bool {
    step_of_skill(e, skill_id) && forall|i: int|
        0 <= i < e.fight_step->0.act_effect.len() ==> ({
            let t = (#[trigger] e.fight_step->0.act_effect[i]).effect_type;
            t is None || !hits(t->0)
        })
}

/// Whether a step of a skill among some effects does damage.
pub open spec fn some_step_hits(s: Seq<EffectView>, skill_id: i32) -> bool {
    exists|i: int|
        0 <= i < s.len() && step_of_skill(#[trigger] s[i], skill_id) && !idle_step(s[i], skill_id)
}

proof fn idle_is_empty(e: EffectView, skill_id: i32)
    ensures
        idle_step(e, skill_id) == crate::effect::behavior::direct_skill::is_empty_step(
            e,
            skill_id,
        ),
{
    if step_of_skill(e, skill_id) {
        let v = e.fight_step->0.act_effect;
        assert forall|i: int| 0 <= i < v.len() implies ({
            let t = (#[trigger] v[i]).effect_type;
            (t is Some && hits(t->0)) == crate::mechanics::injury_counter::is_damage(
                crate::mechanics::injury_counter::kind_of(v[i]),
            )
        }) by {}
        if !idle_step(e, skill_id) {
            let i = choose|i: int|
                0 <= i < v.len() && ({
                    let t = (#[trigger] v[i]).effect_type;
                    t is Some && hits(t->0)
                });
            assert(crate::mechanics::injury_counter::is_damage(
                crate::mechanics::injury_counter::kind_of(e.fight_step->0.act_effect[i]),
            ));
        }
    }
}

/// Of the steps of the ex skill the idle ones are dropped if another one hits, and else all
/// but the first; every other effect stays in its place.
pub proof fn idle_steps_are_dropped(
    s: Seq<EffectView>,
    e: EffectView,
    skill_id: i32,
    has_damage: bool,
)
    ensures
        ({
            let before = deduped(s, skill_id, has_damage);
            let after = deduped(s.push(e), skill_id, has_damage);
            let idle_before = exists|i: int| 0 <= i < s.len() && idle_step(#[trigger] s[i], skill_id);
            &&& idle_step(e, skill_id) && (has_damage || idle_before) ==> after == before
            &&& !idle_step(e, skill_id) || (!has_damage && !idle_before) ==> after == before.push(e)
        }),
        deduped(Seq::empty(), skill_id, has_damage).len() == 0,
{
    assert(s.push(e).drop_last() =~= s);
    assert(s.push(e).last() == e);
    idle_is_empty(e, skill_id);
    assert forall|i: int| 0 <= i < s.len() implies idle_step(#[trigger] s[i], skill_id)
        == crate::effect::behavior::direct_skill::is_empty_step(s[i], skill_id) by {
        idle_is_empty(s[i], skill_id);
    }
    let idle_before = exists|i: int| 0 <= i < s.len() && idle_step(#[trigger] s[i], skill_id);
    if idle_before {
        let i = choose|i: int| 0 <= i < s.len() && idle_step(#[trigger] s[i], skill_id);
        assert(crate::effect::behavior::direct_skill::is_empty_step(s[i], skill_id));
    }
    if crate::effect::behavior::direct_skill::any_empty_step(s, skill_id) {
        let i = choose|i: int|
            0 <= i < s.len() && crate::effect::behavior::direct_skill::is_empty_step(
                #[trigger] s[i],
                skill_id,
            );
        assert(idle_step(s[i], skill_id));
    }
}

proof fn own_steps_are_opened_join(
    skill_id: i32,
    a: Seq<EffectView>,
    b: Seq<EffectView>,
)
    ensures
        opened(a + b, skill_id) == opened(a, skill_id) + opened(b, skill_id),
    decreases b.len(),
{
    if b.len() == 0 {
        assert(a + b =~= a);
        assert(opened(a, skill_id) + opened(b, skill_id) =~= opened(a, skill_id));
    } else {
        own_steps_are_opened_join(skill_id, a, b.drop_last());
        assert((a + b).drop_last() =~= a + b.drop_last());
        assert((a + b).last() == b.last());
        assert(opened(a + b, skill_id) =~= opened(a, skill_id) + opened(b, skill_id));
    }
}

/// Where the ex skill is the skill at hand its steps are opened up in their place.
pub proof fn own_steps_are_opened(
    skill_id: i32,
    a: Seq<EffectView>,
    b: Seq<EffectView>,
    x: EffectView,
)
    ensures
        opened(a + b, skill_id) == opened(a, skill_id) + opened(b, skill_id),
        opened(Seq::<EffectView>::empty(), skill_id).len() == 0,
        opened(seq![x], skill_id) == (if step_of_skill(x, skill_id) {
            x.fight_step->0.act_effect
        } else {
            seq![x]
        }),
{
    own_steps_are_opened_join(skill_id, a, b);
    let one = seq![x];
    assert(one.drop_last() =~= Seq::<EffectView>::empty());
    assert(one.last() == x);
    assert(opened(one.drop_last(), skill_id).len() == 0);
    assert(opened(seq![x], skill_id) =~= (if step_of_skill(x, skill_id) {
            x.fight_step->0.act_effect
        } else {
            seq![x]
        }));
}

/// What is shown of the ex skill.
pub proof fn what_is_shown_of_the_ex_skill(s: Seq<EffectView>, ex_skill_id: i32, skill_id: i32)
    ensures
        ({
            let kept = deduped(s, ex_skill_id, some_step_hits(s, ex_skill_id));
            &&& ex_skill_id != skill_id ==> shown_effects(s, ex_skill_id, skill_id) == kept
            &&& ex_skill_id == skill_id ==> shown_effects(s, ex_skill_id, skill_id) == opened(
                kept,
                skill_id,
            )
        }),
{
    assert forall|i: int| 0 <= i < s.len() implies idle_step(#[trigger] s[i], ex_skill_id)
        == crate::effect::behavior::direct_skill::is_empty_step(s[i], ex_skill_id) by {
        idle_is_empty(s[i], ex_skill_id);
    }
    if some_step_hits(s, ex_skill_id) {
        let i = choose|i: int|
            0 <= i < s.len() && step_of_skill(#[trigger] s[i], ex_skill_id) && !idle_step(
                s[i],
                ex_skill_id,
            );
        assert(crate::effect::behavior::direct_skill::is_ex_step(s[i], ex_skill_id));
        assert(crate::effect::behavior::direct_skill::step_has_damage(s[i]));
    }
    if crate::effect::behavior::direct_skill::any_damage_step(s, ex_skill_id) {
        let i = choose|i: int|
            0 <= i < s.len() && crate::effect::behavior::direct_skill::is_ex_step(
                #[trigger] s[i],
                ex_skill_id,
            ) && crate::effect::behavior::direct_skill::step_has_damage(s[i]);
        assert(step_of_skill(s[i], ex_skill_id) && !idle_step(s[i], ex_skill_id));
    }
}

/// The skill of a group and a rank: for a large group the skill nine and the rank above it,
/// the rank being at least one; for the first two groups the skill of that rank in the
/// caster's list; none for any other group, rank or caster.
pub proof fn the_skill_of_a_group(f: FightView, caster_uid: i64, group: i32, rank: i32)
    ensures
        ({
            let r = chosen_skill(f, caster_uid, group, rank);
            let at = if rank > 1 {
                rank as int
            } else {
                1
            };
            let e = entity_of(f, caster_uid);
            &&& group >= 10000 && group + 9 + at <= i32::MAX ==> r == group + 9 + at
            &&& group >= 10000 && group + 9 + at > i32::MAX ==> r == i32::MAX
            &&& group < 10000 && e is None ==> r == 0
            &&& group == 1 && e is Some && 1 <= rank <= e->0.skill_group1.len() ==> r
                == e->0.skill_group1[rank - 1]
            &&& group == 1 && e is Some && !(1 <= rank <= e->0.skill_group1.len()) ==> r == 0
            &&& group == 2 && e is Some && 1 <= rank <= e->0.skill_group2.len() ==> r
                == e->0.skill_group2[rank - 1]
            &&& group == 2 && e is Some && !(1 <= rank <= e->0.skill_group2.len()) ==> r == 0
            &&& group < 10000 && group != 1 && group != 2 ==> r == 0
        }),
{
}

/// A passive answers to the use of a skill if one of its conditions that says anything asks
/// for such a use; it emits its effect, where that is another skill and the round without
/// an act is asked for, and else itself.
pub proof fn which_passives_answer(
    skill_id: i32,
    effect_id: i32,
    conditions: Seq<PassiveCondition>,
)
    ensures
        ({
            let r = emitted_skill(skill_id, effect_id, conditions);
            let asks = |i: int|
                trimmed(conditions[i].text@).len() > 0 && conditions[i].asks
                    != UseCondition::Other;
            let answers = exists|i: int| 0 <= i < conditions.len() && #[trigger] asks(i);
            let idle_round = exists|i: int|
                0 <= i < conditions.len() && #[trigger] asks(i) && conditions[i].asks
                    == UseCondition::NoActRound;
            &&& !answers ==> r is None
            &&& answers && effect_id != skill_id && idle_round ==> r == Some(effect_id)
            &&& answers && !(effect_id != skill_id && idle_round) ==> r == Some(skill_id)
        }),
{
    let asks = |i: int|
        trimmed(conditions[i].text@).len() > 0 && conditions[i].asks != UseCondition::Other;
    assert forall|i: int| 0 <= i < conditions.len() implies asks(i)
        == crate::effect::behavior::direct_skill::is_use_trigger(#[trigger] conditions[i]) by {}
    if exists|i: int|
        0 <= i < conditions.len() && crate::effect::behavior::direct_skill::is_use_trigger(
            #[trigger] conditions[i],
        ) {
        let i = choose|i: int|
            0 <= i < conditions.len() && crate::effect::behavior::direct_skill::is_use_trigger(
                #[trigger] conditions[i],
            );
        assert(asks(i));
    }
    if exists|i: int|
        0 <= i < conditions.len() && crate::effect::behavior::direct_skill::is_use_trigger(
            #[trigger] conditions[i],
        ) && conditions[i].asks == UseCondition::NoActRound {
        let i = choose|i: int|
            0 <= i < conditions.len() && crate::effect::behavior::direct_skill::is_use_trigger(
                #[trigger] conditions[i],
            ) && conditions[i].asks == UseCondition::NoActRound;
        assert(asks(i));
    }
    if exists|i: int| 0 <= i < conditions.len() && #[trigger] asks(i) {
        let i = choose|i: int| 0 <= i < conditions.len() && #[trigger] asks(i);
        assert(crate::effect::behavior::direct_skill::is_use_trigger(conditions[i]));
    }
    if exists|i: int|
        0 <= i < conditions.len() && #[trigger] asks(i) && conditions[i].asks
            == UseCondition::NoActRound {
        let i = choose|i: int|
            0 <= i < conditions.len() && #[trigger] asks(i) && conditions[i].asks
                == UseCondition::NoActRound;
        assert(crate::effect::behavior::direct_skill::is_use_trigger(conditions[i]));
    }
}

/// A passive that answers plays what it emits, or itself if that is a buff the caster
/// bears; but never the skill at hand or the one that was chosen, nor for one of them.
pub proof fn what_an_answer_plays(
    passive_id: i32,
    emitted: Option<i32>,
    held: Seq<BuffInstance>,
    skill_id: i32,
    chosen: i32,
)
    ensures
        ({
            let r = fanout_skill(passive_id, emitted, held, skill_id, chosen);
            let play = if emitted is Some && emitted->0 != passive_id && holds(held, emitted->0) {
                passive_id
            } else {
                emitted->0
            };
            let barred = passive_id <= 0 || passive_id == skill_id || passive_id == chosen || play
                == skill_id || play == chosen;
            &&& emitted is None || barred ==> r is None
            &&& emitted is Some && !barred ==> r == Some(play)
        }),
{
}

/// The hits of faith: the caster pays a share of its life, so many hundredths for each five
/// of a number; and every target but the caster and nobody takes so many thousandths of the
/// caster's life at its largest, and at least one, if the two rates come to anything.
pub proof fn what_faith_does(
    f: FightView,
    caster: i64,
    raw: Seq<char>,
    primary: i32,
    secondary: i32,
    targets: Seq<i64>,
    e: EntityView,
)
    requires
        entity_of(f, caster) == Some(e),
        or_zero(e.current_hp) >= 0,
        primary >= 0,
        secondary >= 0,
        param(raw, 2) >= 0,
        param(raw, 4) >= 0,
        param(raw, 5) >= 0,
        fits(primary * param(raw, 2)),
        fits(secondary * param(raw, 4)),
        fits(primary * param(raw, 2) / 1000 + secondary * param(raw, 4) / 1000),
        fits(or_zero(e.current_hp) * (param(raw, 5) / 5)),
    ensures
        ({
            let hp = or_zero(e.current_hp);
            let max = if e.attr is Some && e.attr->0.hp is Some && e.attr->0.hp->0 > hp {
                e.attr->0.hp->0
            } else {
                hp
            };
            let permille = primary * param(raw, 2) / 1000 + secondary * param(raw, 4) / 1000;
            let price = hp * (param(raw, 5) / 5) / 100;
            let s = faith_hits(f, caster, raw, primary, secondary, targets);
            let n = if price > 0 {
                1int
            } else {
                0
            };
            &&& s.len() >= n
            &&& price > 0 ==> s[0].target_uid == caster && s[0].amount == price
                && s[0].config_effect == 30006
            &&& permille == 0 ==> s.len() == n
            &&& permille > 0 && fits(max * permille) && max * permille / 1000 >= 1 ==> s.skip(n)
                == hits_on(targets, caster, (max * permille / 1000) as i32)
            &&& permille > 0 && fits(max * permille) && max * permille / 1000 < 1 ==> s.skip(n)
                == hits_on(targets, caster, 1)
        }),
        entity_of(f, caster) is None ==> faith_hits(f, caster, raw, primary, secondary, targets).len()
            == 0,
{
    let hp = or_zero(e.current_hp) as int;
    let fifth = param(raw, 5) as int / 5;
    assert(primary * param(raw, 2) >= 0) by (nonlinear_arith)
        requires
            primary >= 0,
            param(raw, 2) >= 0,
    ;
    assert(secondary * param(raw, 4) >= 0) by (nonlinear_arith)
        requires
            secondary >= 0,
            param(raw, 4) >= 0,
    ;
    assert(hp * fifth >= 0) by (nonlinear_arith)
        requires
            hp >= 0,
            fifth >= 0,
    ;
    let permille = primary * param(raw, 2) / 1000 + secondary * param(raw, 4) / 1000;
    let s = faith_hits(f, caster, raw, primary, secondary, targets);
    let price = hp * fifth / 100;
    let n = if price > 0 {
        1int
    } else {
        0
    };
    if permille > 0 {
        let max = crate::effect::behavior::nuodika_damage::measured_hp(e);
        assert(max * permille >= 0) by (nonlinear_arith)
            requires
                max >= 0,
                permille > 0,
        ;
        let d = crate::effect::behavior::nuodika_damage::faith_damage(max, permille) as i32;
        assert(s.skip(n) =~= hits_on(targets, caster, d));
    }
}

proof fn faith_hits_each_target_join(
    caster: i64,
    damage: i32,
    a: Seq<i64>,
    b: Seq<i64>,
)
    ensures
        hits_on(a + b, caster, damage) == hits_on(a, caster, damage) + hits_on(b, caster, damage),
    decreases b.len(),
{
    if b.len() == 0 {
        assert(a + b =~= a);
        assert(hits_on(a, caster, damage) + hits_on(b, caster, damage) =~= hits_on(a, caster, damage));
    } else {
        faith_hits_each_target_join(caster, damage, a, b.drop_last());
        assert((a + b).drop_last() =~= a + b.drop_last());
        assert((a + b).last() == b.last());
        assert(hits_on(a + b, caster, damage) =~= hits_on(a, caster, damage) + hits_on(b, caster, damage));
    }
}

/// Every target but the caster and nobody is hit, one after the other.
pub proof fn faith_hits_each_target(
    caster: i64,
    damage: i32,
    a: Seq<i64>,
    b: Seq<i64>,
    x: i64,
)
    ensures
        hits_on(a + b, caster, damage) == hits_on(a, caster, damage) + hits_on(b, caster, damage),
        hits_on(Seq::<i64>::empty(), caster, damage).len() == 0,
        hits_on(seq![x], caster, damage) == (if x != 0 && x != caster {
            seq![FaithHit { target_uid: x, amount: damage, config_effect: -1i32 }]
        } else {
            Seq::empty()
        }),
{
    faith_hits_each_target_join(caster, damage, a, b);
    let one = seq![x];
    assert(one.drop_last() =~= Seq::<i64>::empty());
    assert(one.last() == x);
    assert(hits_on(one.drop_last(), caster, damage).len() == 0);
    assert(hits_on(seq![x], caster, damage) =~= (if x != 0 && x != caster {
            seq![FaithHit { target_uid: x, amount: damage, config_effect: -1i32 }]
        } else {
            Seq::empty()
        }));
}

/// Each hit of faith is shown with its target, its amount, its mark and the record that was
/// kept of it.
pub proof fn how_faith_is_shown(hits: Seq<FaithHit>, records: Seq<Option<FightHurtInfo>>, i: int)
    requires
        0 <= i < hits.len(),
    ensures
        hits_shown(hits, records).len() == hits.len(),
        ({
            let e = hits_shown(hits, records)[i];
            &&& e == (EffectView {
                effect_type: Some(EffectType::Damage),
                target_id: Some(hits[i].target_uid),
                effect_num: Some(hits[i].amount),
                config_effect: Some(hits[i].config_effect),
                hurt_info: e.hurt_info,
                ..nothing_set()
            })
            &&& e.hurt_info is Some
            &&& records[i] is Some ==> e.hurt_info == records[i]
            &&& records[i] is None ==> e.hurt_info->0.damage is None && e.hurt_info->0.from_uid is None
        }),
{
}

/// The targets of a skill are named by the number in its row, and by none if there is no
/// such number or row.
pub proof fn where_targets_are_named(
    rows: Seq<SkillEffectRow>,
    links: Seq<SkillLinkRow>,
    skill_id: i32,
)
    ensures
        ({
            let id = if row_at(links, skill_id) is Some {
                row_at(links, skill_id)->0.effect_id
            } else {
                skill_id
            };
            let row = row_at(rows, id);
            let code = if row is Some {
                number(trimmed(row->0.logic_target@))
            } else {
                None
            };
            &&& code is Some ==> target_code(rows, links, skill_id) == code->0
            &&& code is None ==> target_code(rows, links, skill_id) == 0
        }),
{
}

/// What empathy does, by the id of the behaviour: two deal so many thousandths of what is
/// stored, if that is anything; one deals it and empties the store; one, of three skills
/// only, costs the caster so many thousandths of its maximum of life and gives a buff to
/// somebody else.
pub proof fn empathy_by_id(
    f: FightView,
    id: i32,
    raw: Seq<char>,
    skill_id: i32,
    caster: i64,
    target: i64,
    current: i32,
)
    ensures
        ({
            let r = empathy_plan(f, id, raw, skill_id, caster, target, current);
            let rate = param(raw, 1);
            let amount = current * rate / 1000;
            let due = current > 0 && rate > 0 && target != 0;
            let e = entity_of(f, caster);
            let max = if e is Some && e->0.attr is Some {
                or_zero(e->0.attr->0.hp)
            } else {
                0
            };
            let comforts = (skill_id == 30800121 || skill_id == 30800122 || skill_id == 30800123)
                && target != caster && max > 0;
            &&& (id == 60038 || id == 60052) && due && fits(current * rate) && amount > 0 ==> r == (
            EmpathyPlan::Release { amount: amount as i32, clears: false })
            &&& (id == 60038 || id == 60052) && (!due || amount == 0) ==> r == EmpathyPlan::Nothing
            &&& id == 60040 && due && fits(current * rate) ==> r == (EmpathyPlan::Release {
                amount: amount as i32,
                clears: true,
            })
            &&& id == 60040 && !due ==> r == EmpathyPlan::Nothing
            &&& id == 60039 && comforts && rate >= 0 && fits(max * rate) ==> r == (
            EmpathyPlan::Solace {
                self_damage: (max * rate / 1000) as i32,
                max_hp: max,
                buff_id: param(raw, 2),
            })
            &&& id == 60039 && !comforts ==> r == EmpathyPlan::Nothing
            &&& id != 60038 && id != 60039 && id != 60040 && id != 60052 ==> r
                == EmpathyPlan::Nothing
        }),
{
    let rate = param(raw, 1) as int;
    if current > 0 && rate > 0 {
        assert(current * rate > 0) by (nonlinear_arith)
            requires
                current > 0,
                rate > 0,
        ;
    }
    let max = crate::mechanics::shadowcloak::attr_hp(f, caster) as int;
    if max > 0 && rate >= 0 {
        assert(max * rate >= 0) by (nonlinear_arith)
            requires
                max > 0,
                rate >= 0,
        ;
    }
}

/// The buff that holds empathy is the first of its type; a nameless one of the default id
/// if there is none. A store that was emptied says so with its capacity.
pub proof fn which_buff_holds_empathy(
    s: Seq<BuffInstance>,
    type_id: i32,
    default_id: i32,
    cap: i32,
)
    ensures
        (forall|i: int| 0 <= i < s.len() ==> (#[trigger] s[i]).type_id != type_id) ==> empathy_buff(
            s,
            type_id,
            default_id,
        ) == (default_id, 0i64),
        forall|i: int|
            0 <= i < s.len() && (#[trigger] s[i]).type_id == type_id && (forall|j: int|
                0 <= j < i ==> (#[trigger] s[j]).type_id != type_id) ==> empathy_buff(
                s,
                type_id,
                default_id,
            ) == (s[i].buff_id, s[i].uid),
        cap >= 0 ==> empty_store(cap) == "770#0#"@ + decimal(cap as nat),
        cap < 0 ==> empty_store(cap) == "770#0#"@ + decimal(0),
    decreases s.len(),
{
    if s.len() > 0 {
        let rest = s.skip(1);
        which_buff_holds_empathy(rest, type_id, default_id, cap);
        assert forall|i: int|
            0 <= i < s.len() && (#[trigger] s[i]).type_id == type_id && (forall|j: int|
                0 <= j < i ==> (#[trigger] s[j]).type_id != type_id) implies empathy_buff(
            s,
            type_id,
            default_id,
        ) == (s[i].buff_id, s[i].uid) by {
            if i > 0 {
                assert(s[0].type_id != type_id);
                assert(rest[i - 1] == s[i]);
                assert forall|j: int| 0 <= j < i - 1 implies (#[trigger] rest[j]).type_id
                    != type_id by {
                    assert(rest[j] == s[j + 1]);
                }
            }
        }
        if forall|i: int| 0 <= i < s.len() ==> (#[trigger] s[i]).type_id != type_id {
            assert(s[0].type_id != type_id);
            assert forall|i: int| 0 <= i < rest.len() implies (#[trigger] rest[i]).type_id
                != type_id by {
                assert(rest[i] == s[i + 1]);
            }
        }
    }
}

/// A buff is a poison of the family if an entry of its row starts with one of two acts; a
/// buff without a row is none.
pub proof fn which_buffs_are_poison(rows: Seq<SkillBuffRow>, buff_id: i32)
    ensures
        row_at(rows, buff_id) is None ==> !is_poison(rows, buff_id),
        row_at(rows, buff_id) is Some ==> ({
            let entries = pieces(row_at(rows, buff_id)->0.features@, '|');
            is_poison(rows, buff_id) <==> exists|k: int|
                0 <= k < entries.len() && ({
                    let act = number(trimmed(pieces(#[trigger] entries[k], '#')[0]));
                    act == Some(803i32) || act == Some(844i32)
                })
        }),
{
    if row_at(rows, buff_id) is Some {
        let entries = pieces(row_at(rows, buff_id)->0.features@, '|');
        assert forall|k: int| 0 <= k < entries.len() implies (pieces(
            #[trigger] entries[k],
            '#',
        ).len() >= 1) by {
            crate::text::pieces_nonempty(entries[k], '#');
        }
        if is_poison(rows, buff_id) {
            let k = choose|k: int|
                0 <= k < entries.len()
                    && crate::effect::behavior::poison_priority::poison_entry(
                    #[trigger] entries[k],
                );
            assert(pieces(entries[k], '#').len() >= 1);
        }
        if exists|k: int|
            0 <= k < entries.len() && ({
                let act = number(trimmed(pieces(#[trigger] entries[k], '#')[0]));
                act == Some(803i32) || act == Some(844i32)
            }) {
            let k = choose|k: int|
                0 <= k < entries.len() && ({
                    let act = number(trimmed(pieces(#[trigger] entries[k], '#')[0]));
                    act == Some(803i32) || act == Some(844i32)
                });
            assert(crate::effect::behavior::poison_priority::poison_entry(entries[k]));
        }
    }
}

/// The poison of a fighter is the sum of the layers of its poisons, each of them at least
/// one.
pub proof fn poison_adds_up(
    rows: Seq<SkillBuffRow>,
    a: Seq<BuffInstance>,
    b: Seq<BuffInstance>,
    x: BuffInstance,
)
    ensures
        poison_in(rows, a + b) == poison_in(rows, a) + poison_in(rows, b),
        poison_in(rows, Seq::empty()) == 0,
        !is_poison(rows, x.buff_id) ==> poison_in(rows, seq![x]) == 0,
        is_poison(rows, x.buff_id) && x.layer >= 1 ==> poison_in(rows, seq![x]) == x.layer,
        is_poison(rows, x.buff_id) && x.layer < 1 ==> poison_in(rows, seq![x]) == 1,
    decreases b.len(),
{
    assert(seq![x].drop_last() =~= Seq::<BuffInstance>::empty());
    assert(poison_in(rows, seq![x].drop_last()) == 0);
    assert(seq![x].last() == x);
    if b.len() == 0 {
        assert(a + b =~= a);
    } else {
        poison_adds_up(rows, a, b.drop_last(), x);
        assert((a + b).drop_last() =~= a + b.drop_last());
    }
}

/// In a ranking whoever bears more poison comes first; among equals the one in focus, then
/// the one further in front, then the one with the smaller id.
pub proof fn how_enemies_rank(
    f: FightView,
    buffs: BuffMgr,
    rows: Seq<SkillBuffRow>,
    focus_uid: i64,
    uids: Seq<i64>,
    i: int,
    j: int,
)
    requires
        ranked(f, buffs, rows, focus_uid, uids),
        0 <= i < j < uids.len(),
        0 <= poison_in(rows, buffs.of(uids[i])) <= i32::MAX,
        0 <= poison_in(rows, buffs.of(uids[j])) <= i32::MAX,
    ensures
        ({
            let a = uids[i];
            let b = uids[j];
            let pa = poison_in(rows, buffs.of(a));
            let pb = poison_in(rows, buffs.of(b));
            let place = |uid: i64|
                if entity_of(f, uid) is Some && entity_of(f, uid)->0.position is Some {
                    entity_of(f, uid)->0.position->0
                } else {
                    99
                };
            &&& pa >= pb
            &&& pa == pb && b == focus_uid ==> a == focus_uid
            &&& pa == pb && (a == focus_uid <==> b == focus_uid) ==> place(a) <= place(b)
            &&& pa == pb && (a == focus_uid <==> b == focus_uid) && place(a) == place(b) ==> a <= b
        }),
{
    assert(rank_of(f, buffs, rows, focus_uid, uids[i]).no_later(
        rank_of(f, buffs, rows, focus_uid, uids[j]),
    ));
}

/// Poison goes to as many enemies as the fifth part of its text says, and at least to one;
/// somebody of a list is poisoned if one of them bears poison.
pub proof fn how_many_enemies_are_poisoned(
    raw: Seq<char>,
    buffs: BuffMgr,
    rows: Seq<SkillBuffRow>,
    uids: Seq<i64>,
)
    ensures
        ({
            let parts = pieces(raw, '#');
            let n = if parts.len() > 4 {
                number(parts[4])
            } else {
                None
            };
            &&& n is Some && n->0 >= 1 ==> pool_size(raw) == n->0
            &&& n is None || n->0 < 1 ==> pool_size(raw) == 1
        }),
        any_poisoned(buffs, rows, uids) <==> exists|k: int|
            0 <= k < uids.len() && poison_in(rows, buffs.of(#[trigger] uids[k])) > 0,
{
}

} // verus!
