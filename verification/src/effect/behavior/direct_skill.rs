//! Behaviours that play another skill: directly, as an ex skill with its cost and
//! refund, derived from a group and a rank, or picked from a pool.

use crate::arith::{or_zero, sat_i32, saturating_sum, value};
use crate::buffs::{has_buff, holds, BuffInstance};
use crate::config::{
    effect_of_skill, find_row, resolve_skill_effect_id, row_at, SkillEffectRow, SkillLinkRow,
};
use crate::fight_step::builder::{wrap_step, ActEffectBuilder, FightStepBuilder};
use crate::fight_step::select::has_kind;
use crate::lookup::{entity_of, find_entity};
use crate::manager::entity_mgr::{entry, EntityMgr, EntityMgrView};
use crate::mechanics::injury_counter::{is_damage, is_damage_effect_type, kind_of, read_kind};
use crate::model::copies::copy_effects;
use crate::model::lists::group_effects_view;
use crate::model::{
    effects_view, ActEffect, ActType, EffectType, EffectView, Fight, FightStep, FightView, StepView,
};
use crate::text::{
    number, param, param_at, parse_number, pieces, pieces_nonempty, split_text, texts_view,
    trim_text, trimmed,
};
use vstd::prelude::*;

verus! {

broadcast use group_effects_view;

/// What a behaviour of this family comes down to.
#[derive(Clone, Copy, PartialEq, Eq, Structural, Debug)]
pub enum DirectSkillPlan {
    /// Play a skill on a target.
    UseSkill { target: i64, skill_id: i32 },
    /// Play the caster's ex skill; see [`BigSkillCast`].
    BigSkill { target: i64 },
    /// Play a skill derived from a group and a rank.
    GroupAndStar { target: i64, group: i32, rank: i32 },
    /// Nothing happens.
    Nothing,
}

/// The behaviours that play the skill they name.
pub open spec fn uses_named_skill(id: i32) -> bool {
    ||| id == 50008
    ||| id == 60053
    ||| id == 60014
    ||| id == 50012
    ||| id == 50038
    ||| id == 60223
    ||| id == 50039
    ||| id == 60156
}

/// The behaviours that pick a skill from a pool.
pub open spec fn uses_pool(id: i32) -> bool {
    id == 60225 || id == 60239
}

/// The positive skill id of a pool entry, as a list of at most one.
pub open spec fn pool_entry(entry: Seq<char>) -> Seq<i32> {
    match number(trimmed(pieces(entry, ':')[0])) {
        Some(id) => if id > 0 {
            seq![id]
        } else {
            Seq::empty()
        },
        None => Seq::empty(),
    }
}

/// The skills of some pool entries.
pub open spec fn pool_skills(entries: Seq<Seq<char>>) -> Seq<i32>
    decreases entries.len(),
{
    if entries.len() == 0 {
        Seq::empty()
    } else {
        pool_skills(entries.drop_last()) + pool_entry(entries.last())
    }
}

/// The pool that a behaviour names.
pub open spec fn pool_of(raw: Seq<char>) -> Seq<i32> {
    let parts = pieces(raw, '#');
    if parts.len() > 1 {
        pool_skills(pieces(parts[1], '&'))
    } else {
        Seq::empty()
    }
}

/// What a behaviour of this family comes down to.
pub open spec fn direct_plan(
    id: i32,
    raw: Seq<char>,
    caster_uid: i64,
    targets: Seq<i64>,
) -> DirectSkillPlan {
    let target = if targets.len() > 0 {
        targets[0]
    } else {
        caster_uid
    };
    if uses_named_skill(id) {
        if param(raw, 1) <= 0 {
            DirectSkillPlan::Nothing
        } else {
            DirectSkillPlan::UseSkill { target, skill_id: param(raw, 1) }
        }
    } else if id == 60175 {
        DirectSkillPlan::BigSkill { target }
    } else if id == 50010 {
        DirectSkillPlan::GroupAndStar { target, group: param(raw, 1), rank: param(raw, 2) }
    } else if uses_pool(id) {
        let pool = pool_of(raw);
        if pool.len() == 0 {
            DirectSkillPlan::Nothing
        } else {
            DirectSkillPlan::UseSkill { target, skill_id: pool[pool.len() as int / 2] }
        }
    } else {
        DirectSkillPlan::Nothing
    }
}

/// Reads the pool that a behaviour names.
pub fn read_pool(raw: &str) -> (r: Vec<i32>)
    ensures
        r@ == pool_of(raw@),
{
    let mut out: Vec<i32> = Vec::new();
    let parts = split_text(raw, '#');
    assert(texts_view(parts@).len() == parts@.len());
    if parts.len() < 2 {
        return out;
    }
    let entries = split_text(parts[1].as_str(), '&');
    let ghost ps = pieces(parts@[1]@, '&');
    assert(texts_view(parts@)[1] == parts@[1]@);
    assert(ps.take(0).len() == 0);
    for i in 0..entries.len()
        invariant
            texts_view(entries@) == ps,
            out@ == pool_skills(ps.take(i as int)),
    {
        assert(ps.take(i + 1).drop_last() =~= ps.take(i as int));
        assert(ps.take(i + 1).last() == entries@[i as int]@);
        let ghost before = out@;
        let halves = split_text(entries[i].as_str(), ':');
        proof {
            pieces_nonempty(entries@[i as int]@, ':');
        }
        assert(texts_view(halves@)[0] == halves@[0]@);
        let text = trim_text(halves[0].as_str());
        if let Some(id) = parse_number(text.as_str()) {
            if id > 0 {
                out.push(id);
            }
        }
        assert(out@ =~= before + pool_entry(entries@[i as int]@));
    }
    assert(ps.take(ps.len() as int) =~= ps);
    out
}

/// Decides what a behaviour of this family comes down to. The first target counts,
/// else the caster. A pool is always picked from in the middle.
pub fn plan_direct_skill(
    behaviour_id: i32,
    raw: &str,
    caster_uid: i64,
    targets: &Vec<i64>,
) -> (r: DirectSkillPlan)
    ensures
        r == direct_plan(behaviour_id, raw@, caster_uid, targets@),
{
    let target: i64 = if targets.len() > 0 {
        targets[0]
    } else {
        caster_uid
    };
    match behaviour_id {
        50008 | 60053 | 60014 | 50012 | 50038 | 60223 | 50039 | 60156 => {
            let skill_id = param_at(raw, 1);
            if skill_id <= 0 {
                DirectSkillPlan::Nothing
            } else {
                DirectSkillPlan::UseSkill { target, skill_id }
            }
        },
        60175 => DirectSkillPlan::BigSkill { target },
        50010 => DirectSkillPlan::GroupAndStar {
            target,
            group: param_at(raw, 1),
            rank: param_at(raw, 2),
        },
        60225 | 60239 => {
            let pool = read_pool(raw);
            if pool.len() == 0 {
                DirectSkillPlan::Nothing
            } else {
                DirectSkillPlan::UseSkill { target, skill_id: pool[pool.len() / 2] }
            }
        },
        _ => DirectSkillPlan::Nothing,
    }
}

/// What the skill tables and the precast rules say about an ex skill.
#[derive(Clone, Copy, PartialEq, Eq, Structural, Debug)]
pub struct BigSkillInputs {
    /// The skill that wraps the ex skill.
    pub skill_id: i32,
    /// Whether the skill twenty below it is known.
    pub wrapped_known: bool,
    /// The most ex points that the ex skill's behaviours consume, if they do.
    pub max_consume: Option<i32>,
    /// The cap that the precast skills set, if they do.
    pub seeded_cap: Option<i32>,
}

/// The smaller of two numbers.
pub open spec fn min32(a: i32, b: i32) -> i32 {
    if a <= b {
        a
    } else {
        b
    }
}

/// The larger of a number and zero.
pub open spec fn nonneg(a: i32) -> i32 {
    if a > 0 {
        a
    } else {
        0
    }
}

fn smaller_of(a: i32, b: i32) -> (r: i32)
    ensures
        r == min32(a, b),
{
    if a <= b {
        a
    } else {
        b
    }
}

fn not_negative(a: i32) -> (r: i32)
    ensures
        r == nonneg(a),
{
    if a > 0 {
        a
    } else {
        0
    }
}

/// The ex skill that is played; zero if there is none.
pub open spec fn big_skill_id(f: FightView, caster_uid: i64, q: BigSkillInputs) -> i32 {
    if q.wrapped_known {
        (q.skill_id - 20) as i32
    } else {
        match entity_of(f, caster_uid) {
            Some(e) => or_zero(e.ex_skill),
            None => 0,
        }
    }
}

/// The ex points that a skill needs: what its row asks for, else what it consumes.
pub open spec fn needed_points(
    rows: Seq<SkillEffectRow>,
    links: Seq<SkillLinkRow>,
    skill_id: i32,
    max_consume: Option<i32>,
) -> i32 {
    nonneg(
        match row_at(rows, effect_of_skill(links, skill_id)) {
            Some(row) => if row.need_ex_point > 0 {
                row.need_ex_point
            } else {
                or_zero(max_consume)
            },
            None => or_zero(max_consume),
        },
    )
}

/// What is consumed of the points at hand: what is needed, or all if nothing is.
pub open spec fn initial_consume(need: i32, current: i32) -> i32 {
    if need > 0 {
        min32(need, nonneg(current))
    } else {
        nonneg(current)
    }
}

/// What is consumed under a cap.
pub open spec fn capped(consume: i32, cap: Option<i32>) -> i32 {
    match cap {
        Some(c) => nonneg(min32(consume, nonneg(c))),
        None => nonneg(consume),
    }
}

/// What is given back: what was consumed, up to what is needed.
pub open spec fn refund_of(need: i32, consume: i32) -> i32 {
    if need > 0 {
        min32(consume, need)
    } else {
        consume
    }
}

/// The playing of an ex skill, from its cost to its refund.
#[derive(Debug)]
pub struct BigSkillCast {
    pub caster_uid: i64,
    pub skill_id: i32,
    pub ex_skill_id: i32,
    pub need_ex: i32,
    pub initial_consume: i32,
    pub consume: i32,
    pub refund: i32,
    pub out: Vec<ActEffect>,
}

/// The layer of a buff that an effect puts on the caster.
pub open spec fn own_layer(e: EffectView, caster_uid: i64) -> Option<i32> {
    if e.effect_type == Some(EffectType::BuffAdd) && e.target_id == Some(caster_uid)
        && e.buff is Some {
        Some(nonneg(or_zero(e.buff->0.layer)))
    } else {
        None
    }
}

/// The layer of the first buff that some effects put on the caster.
pub open spec fn first_own_layer(s: Seq<EffectView>, caster_uid: i64) -> Option<i32>
    decreases s.len(),
{
    if s.len() == 0 {
        None
    } else {
        match own_layer(s[0], caster_uid) {
            Some(l) => Some(l),
            None => first_own_layer(s.skip(1), caster_uid),
        }
    }
}

/// The layer of the first buff that the steps of some effects put on the caster.
pub open spec fn prep_layer(s: Seq<EffectView>, caster_uid: i64) -> Option<i32>
    decreases s.len(),
{
    if s.len() == 0 {
        None
    } else {
        let here = match s[0].fight_step {
            Some(step) => first_own_layer(step.act_effect, caster_uid),
            None => None,
        };
        match here {
            Some(l) => Some(l),
            None => prep_layer(s.skip(1), caster_uid),
        }
    }
}

fn find_own_layer(v: &Vec<ActEffect>, caster_uid: i64) -> (r: Option<i32>)
    ensures
        r == first_own_layer(effects_view(v@), caster_uid),
{
    let ghost s = effects_view(v@);
    assert(s.skip(0) =~= s);
    let mut i: usize = 0;
    while i < v.len()
        invariant
            i <= v.len(),
            s == effects_view(v@),
            first_own_layer(s.skip(i as int), caster_uid) == first_own_layer(s, caster_uid),
        decreases v.len() - i,
    {
        assert(s.skip(i as int)[0] == v@[i as int]@);
        assert(s.skip(i as int).skip(1) =~= s.skip(i + 1));
        if has_kind(&v[i], EffectType::BuffAdd) {
            if let Some(uid) = v[i].target_id {
                if uid == caster_uid {
                    if let Some(buff) = &v[i].buff {
                        return Some(not_negative(value(buff.layer)));
                    }
                }
            }
        }
        i += 1;
    }
    None
}

fn find_prep_layer(v: &Vec<ActEffect>, caster_uid: i64) -> (r: Option<i32>)
    ensures
        r == prep_layer(effects_view(v@), caster_uid),
{
    let ghost s = effects_view(v@);
    assert(s.skip(0) =~= s);
    let mut i: usize = 0;
    while i < v.len()
        invariant
            i <= v.len(),
            s == effects_view(v@),
            prep_layer(s.skip(i as int), caster_uid) == prep_layer(s, caster_uid),
        decreases v.len() - i,
    {
        assert(s.skip(i as int)[0] == v@[i as int]@);
        assert(s.skip(i as int).skip(1) =~= s.skip(i + 1));
        if let Some(step) = &v[i].fight_step {
            let found = find_own_layer(&step.act_effect, caster_uid);
            if found.is_some() {
                return found;
            }
        }
        i += 1;
    }
    None
}

/// Whether an effect wraps a step of a skill.
pub open spec fn is_ex_step(e: EffectView, skill_id: i32) -> bool {
    &&& e.effect_type == Some(EffectType::FightStep)
    &&& e.fight_step is Some
    &&& e.fight_step->0.act_id == Some(skill_id)
}

/// Whether the step of an effect holds a hit.
pub open spec fn step_has_damage(e: EffectView) -> bool {
    e.fight_step is Some && exists|i: int|
        0 <= i < e.fight_step->0.act_effect.len() && is_damage(
            kind_of(#[trigger] e.fight_step->0.act_effect[i]),
        )
}

/// Whether an effect wraps a step of a skill that holds no hit.
pub open spec fn is_empty_step(e: EffectView, skill_id: i32) -> bool {
    is_ex_step(e, skill_id) && !step_has_damage(e)
}

/// Whether some effect wraps a step of a skill that holds a hit.
pub open spec fn any_damage_step(s: Seq<EffectView>, skill_id: i32) -> bool {
    exists|i: int|
        0 <= i < s.len() && is_ex_step(#[trigger] s[i], skill_id) && step_has_damage(s[i])
}

/// Whether some effect wraps a step of a skill that holds no hit.
pub open spec fn any_empty_step(s: Seq<EffectView>, skill_id: i32) -> bool {
    exists|i: int| 0 <= i < s.len() && is_empty_step(#[trigger] s[i], skill_id)
}

/// The effects of a skill without repeated wrappers: a step without hits is kept
/// only if no step has hits, and then only the first.
pub open spec fn deduped(s: Seq<EffectView>, skill_id: i32, has_damage: bool) -> Seq<EffectView>
    decreases s.len(),
{
    if s.len() == 0 {
        Seq::empty()
    } else {
        let before = deduped(s.drop_last(), skill_id, has_damage);
        if is_empty_step(s.last(), skill_id) && (has_damage || any_empty_step(
            s.drop_last(),
            skill_id,
        )) {
            before
        } else {
            before.push(s.last())
        }
    }
}

/// The effects of a skill with its own wrapped steps opened up.
pub open spec fn opened(s: Seq<EffectView>, skill_id: i32) -> Seq<EffectView>
    decreases s.len(),
{
    if s.len() == 0 {
        Seq::empty()
    } else {
        opened(s.drop_last(), skill_id) + (if is_ex_step(s.last(), skill_id) {
            s.last().fight_step->0.act_effect
        } else {
            seq![s.last()]
        })
    }
}

/// What an ex skill did, as it is shown: without repeated wrappers, and opened up
/// where the ex skill is the skill that plays it.
pub open spec fn shown_effects(
    s: Seq<EffectView>,
    ex_skill_id: i32,
    skill_id: i32,
) -> Seq<EffectView> {
    let kept = deduped(s, ex_skill_id, any_damage_step(s, ex_skill_id));
    if ex_skill_id == skill_id {
        opened(kept, ex_skill_id)
    } else {
        kept
    }
}

fn check_ex_step(e: &ActEffect, skill_id: i32) -> (r: bool)
    ensures
        r == is_ex_step(e@, skill_id),
{
    if !has_kind(e, EffectType::FightStep) {
        return false;
    }
    match &e.fight_step {
        Some(step) => match step.act_id {
            Some(id) => id == skill_id,
            None => false,
        },
        None => false,
    }
}

fn check_step_damage(e: &ActEffect) -> (r: bool)
    ensures
        r == step_has_damage(e@),
{
    match &e.fight_step {
        Some(step) => {
            let ghost s = step@.act_effect;
            for i in 0..step.act_effect.len()
                invariant
                    s == effects_view(step.act_effect@),
                    e@.fight_step == Some(step@),
                    s == step@.act_effect,
                    forall|k: int| 0 <= k < i ==> !is_damage(kind_of(#[trigger] s[k])),
            {
                assert(s[i as int] == step.act_effect@[i as int]@);
                if is_damage_effect_type(read_kind(&step.act_effect[i])) {
                    assert(is_damage(kind_of(e@.fight_step->0.act_effect[i as int])));
                    return true;
                }
            }
            false
        },
        None => false,
    }
}

fn dedupe(v: &Vec<ActEffect>, skill_id: i32) -> (r: Vec<ActEffect>)
    ensures
        effects_view(r@) == deduped(
            effects_view(v@),
            skill_id,
            any_damage_step(effects_view(v@), skill_id),
        ),
{
    let ghost s = effects_view(v@);
    let mut has_damage: bool = false;
    for i in 0..v.len()
        invariant
            s == effects_view(v@),
            has_damage == (exists|k: int|
                0 <= k < i && is_ex_step(#[trigger] s[k], skill_id) && step_has_damage(s[k])),
    {
        assert(s[i as int] == v@[i as int]@);
        if check_ex_step(&v[i], skill_id) && check_step_damage(&v[i]) {
            has_damage = true;
        }
    }
    assert(has_damage == any_damage_step(s, skill_id));
    let mut out: Vec<ActEffect> = Vec::new();
    let mut seen_empty: bool = false;
    assert(s.take(0).len() == 0);
    for i in 0..v.len()
        invariant
            s == effects_view(v@),
            seen_empty == any_empty_step(s.take(i as int), skill_id),
            effects_view(out@) == deduped(s.take(i as int), skill_id, has_damage),
    {
        let ghost t = s.take(i + 1);
        assert(t.drop_last() =~= s.take(i as int));
        assert(t.last() == v@[i as int]@);
        let empty: bool = check_ex_step(&v[i], skill_id) && !check_step_damage(&v[i]);
        if !(empty && (has_damage || seen_empty)) {
            out.push(v[i].clone());
        }
        proof {
            if any_empty_step(s.take(i as int), skill_id) {
                let k = choose|k: int|
                    0 <= k < s.take(i as int).len() && is_empty_step(
                        #[trigger] s.take(i as int)[k],
                        skill_id,
                    );
                assert(is_empty_step(t[k], skill_id));
            }
            if any_empty_step(t, skill_id) {
                let k = choose|k: int|
                    0 <= k < t.len() && is_empty_step(#[trigger] t[k], skill_id);
                if k < i {
                    assert(is_empty_step(s.take(i as int)[k], skill_id));
                }
            }
            assert(t[i as int] == v@[i as int]@);
        }
        if empty {
            seen_empty = true;
        }
    }
    assert(s.take(s.len() as int) =~= s);
    out
}

fn open_up(v: &Vec<ActEffect>, skill_id: i32) -> (r: Vec<ActEffect>)
    ensures
        effects_view(r@) == opened(effects_view(v@), skill_id),
{
    let ghost s = effects_view(v@);
    let mut out: Vec<ActEffect> = Vec::new();
    assert(s.take(0).len() == 0);
    for i in 0..v.len()
        invariant
            s == effects_view(v@),
            effects_view(out@) == opened(s.take(i as int), skill_id),
    {
        assert(s.take(i + 1).drop_last() =~= s.take(i as int));
        assert(s.take(i + 1).last() == v@[i as int]@);
        let ghost before = effects_view(out@);
        if check_ex_step(&v[i], skill_id) {
            if let Some(step) = &v[i].fight_step {
                let mut inside = copy_effects(&step.act_effect);
                out.append(&mut inside);
            }
        } else {
            out.push(v[i].clone());
            assert(effects_view(out@) =~= before + seq![v@[i as int]@]);
        }
    }
    assert(s.take(s.len() as int) =~= s);
    out
}

impl BigSkillCast {
    /// The numbers of a cast add up: nothing is negative, and no more is given back
    /// than was consumed.
    pub open spec fn wf(self) -> bool {
        &&& self.need_ex >= 0
        &&& self.initial_consume >= 0
        &&& 0 <= self.consume <= self.initial_consume
        &&& 0 <= self.refund <= self.consume
        &&& self.refund == refund_of(self.need_ex, self.consume)
    }

    /// Works out the cost of an ex skill and notes it with the caster. Nothing
    /// happens where the caster has no ex skill.
    pub fn begin(
        fight: &Fight,
        mgr: &mut EntityMgr,
        rows: &Vec<SkillEffectRow>,
        links: &Vec<SkillLinkRow>,
        caster_uid: i64,
        inputs: BigSkillInputs,
    ) -> (r: Option<BigSkillCast>)
        requires
            inputs.skill_id >= i32::MIN + 20,
        ensures
            ({
                let ex_skill_id = big_skill_id(fight@, caster_uid, inputs);
                let need = needed_points(rows@, links@, ex_skill_id, inputs.max_consume);
                let start = initial_consume(need, entry(old(mgr)@.ex_points, caster_uid));
                let consume = capped(start, inputs.seeded_cap);
                if ex_skill_id == 0 {
                    r is None && final(mgr)@ == old(mgr)@
                } else {
                    &&& r matches Some(cast) && cast.caster_uid == caster_uid && cast.skill_id
                        == inputs.skill_id && cast.ex_skill_id == ex_skill_id && cast.need_ex == need && cast.initial_consume == start && cast.consume
                        == consume && cast.refund == refund_of(need, consume) && effects_view(
                        cast.out@,
                    ) == Seq::<EffectView>::empty() && cast.wf()
                    &&& final(mgr)@ == (EntityMgrView {
                        recent_decr_ex_point: old(mgr)@.recent_decr_ex_point.insert(
                            caster_uid,
                            consume,
                        ),
                        ..old(mgr)@
                    })
                }
            }),
    {
        let ex_skill_id: i32 = if inputs.wrapped_known {
            inputs.skill_id - 20
        } else {
            match find_entity(fight, caster_uid) {
                Some(e) => value(e.ex_skill),
                None => 0,
            }
        };
        if ex_skill_id == 0 {
            return None;
        }
        let need_ex = not_negative(
            match find_row(rows, resolve_skill_effect_id(links, ex_skill_id)) {
                Some(row) => if row.need_ex_point > 0 {
                    row.need_ex_point
                } else {
                    value(inputs.max_consume)
                },
                None => value(inputs.max_consume),
            },
        );
        let current = not_negative(mgr.get_ex_point(caster_uid));
        let start: i32 = if need_ex > 0 {
            smaller_of(need_ex, current)
        } else {
            current
        };
        let consume: i32 = match inputs.seeded_cap {
            Some(cap) => not_negative(smaller_of(start, not_negative(cap))),
            None => not_negative(start),
        };
        let refund: i32 = if need_ex > 0 {
            smaller_of(consume, need_ex)
        } else {
            consume
        };
        mgr.set_recent_decr_ex_point(caster_uid, consume);
        Some(
            BigSkillCast {
                caster_uid,
                skill_id: inputs.skill_id,
                ex_skill_id,
                need_ex,
                initial_consume: start,
                consume,
                refund,
                out: Vec::new(),
            },
        )
    }

    /// Takes what a precast skill did.
    pub fn take_prep(&mut self, effects: Vec<ActEffect>)
        ensures
            final(self).same_numbers(*old(self)),
            effects_view(final(self).out@) == effects_view(old(self).out@) + effects_view(effects@),
    {
        let mut effects = effects;
        self.out.append(&mut effects);
    }

    /// Two casts agree in everything but their effects.
    pub open spec fn same_numbers(self, other: BigSkillCast) -> bool {
        &&& self.caster_uid == other.caster_uid
        &&& self.skill_id == other.skill_id
        &&& self.ex_skill_id == other.ex_skill_id
        &&& self.need_ex == other.need_ex
        &&& self.initial_consume == other.initial_consume
        &&& self.consume == other.consume
        &&& self.refund == other.refund
    }

    /// Settles the cost once the precast skills are done. A buff that they put on
    /// the caster caps it by its layer. A cost above zero is shown.
    pub fn settle(&mut self, mgr: &mut EntityMgr)
        requires
            old(self).wf(),
        ensures
            final(self).wf(),
            final(self).caster_uid == old(self).caster_uid,
            final(self).skill_id == old(self).skill_id,
            final(self).ex_skill_id == old(self).ex_skill_id,
            final(self).need_ex == old(self).need_ex,
            final(self).initial_consume == old(self).initial_consume,
            ({
                let s = effects_view(old(self).out@);
                let consume = capped(
                    old(self).consume,
                    prep_layer(s, old(self).caster_uid),
                );
                &&& final(self).consume == consume
                &&& final(self).refund == refund_of(old(self).need_ex, consume)
                &&& effects_view(final(self).out@) == (if consume > 0 {
                    s.push(
                        EffectView::amount(
                            EffectType::ExPointChange,
                            old(self).caster_uid,
                            (-consume) as i32,
                        ),
                    ).push(
                        EffectView::amount(
                            EffectType::DirectUseExSkill,
                            old(self).caster_uid,
                            0,
                        ),
                    )
                } else {
                    s
                })
                &&& final(mgr)@ == (if consume != old(self).initial_consume {
                    EntityMgrView {
                        recent_decr_ex_point: old(mgr)@.recent_decr_ex_point.insert(
                            old(self).caster_uid,
                            consume,
                        ),
                        ..old(mgr)@
                    }
                } else {
                    old(mgr)@
                })
            }),
    {
        if let Some(cap) = find_prep_layer(&self.out, self.caster_uid) {
            self.consume = not_negative(smaller_of(self.consume, not_negative(cap)));
            self.refund = if self.need_ex > 0 {
                smaller_of(self.consume, self.need_ex)
            } else {
                self.consume
            };
        }
        if self.consume != self.initial_consume {
            mgr.set_recent_decr_ex_point(self.caster_uid, self.consume);
        }
        if self.consume > 0 {
            self.out.push(ActEffectBuilder::ex_point_change(self.caster_uid, 0 - self.consume));
            self.out.push(ActEffectBuilder::direct_use_ex_skill(self.caster_uid));
        }
    }

    /// Whom the ex skill is aimed at: the target if it is a living opponent, else
    /// the first living enemy, else the target after all.
    pub fn ex_target(
        fight: &Fight,
        target: i64,
        opposed: bool,
        first_enemy: Option<i64>,
    ) -> (r: i64)
        ensures
            r == (if opposed && entity_of(fight@, target) is Some && or_zero(
                entity_of(fight@, target)->0.current_hp,
            ) > 0 {
                target
            } else {
                match first_enemy {
                    Some(uid) => uid,
                    None => target,
                }
            }),
    {
        let living: bool = match find_entity(fight, target) {
            Some(e) => value(e.current_hp) > 0,
            None => false,
        };
        if opposed && living {
            target
        } else {
            match first_enemy {
                Some(uid) => uid,
                None => target,
            }
        }
    }

    /// Takes what the ex skill did, shows it, and gives the refund. The caster no
    /// longer has a noted cost.
    pub fn finish(self, ex_effects: Vec<ActEffect>, mgr: &mut EntityMgr) -> (r: Vec<ActEffect>)
        ensures
            ({
                let shown = effects_view(self.out@) + shown_effects(
                    effects_view(ex_effects@),
                    self.ex_skill_id,
                    self.skill_id,
                );
                effects_view(r@) == (if self.refund > 0 {
                    shown.push(
                        EffectView::amount(
                            EffectType::ExPointChange,
                            self.caster_uid,
                            self.refund,
                        ),
                    )
                } else {
                    shown
                })
            }),
            final(mgr)@ == (EntityMgrView {
                recent_decr_ex_point: old(mgr)@.recent_decr_ex_point.remove(self.caster_uid),
                ..old(mgr)@
            }),
    {
        let mut out = self.out;
        let mut kept = dedupe(&ex_effects, self.ex_skill_id);
        if self.ex_skill_id == self.skill_id {
            kept = open_up(&kept, self.ex_skill_id);
        }
        out.append(&mut kept);
        if self.refund > 0 {
            out.push(ActEffectBuilder::ex_point_change(self.caster_uid, self.refund));
        }
        mgr.clear_recent_decr_ex_point(self.caster_uid);
        out
    }
}

/// An ex skill never costs more than the caster has, and gives back no more than
/// it cost.
pub proof fn cost_within_means(need: i32, current: i32, cap: Option<i32>, layer: Option<i32>)
    requires
        need >= 0,
    ensures
        ({
            let consume = capped(capped(initial_consume(need, current), cap), layer);
            0 <= refund_of(need, consume) <= consume <= nonneg(current)
        }),
{
}

/// The skill derived from a group and a rank: above ten thousand the group is a
/// base id, below it is one of the caster's two skill groups.
pub open spec fn chosen_skill(f: FightView, caster_uid: i64, group: i32, rank: i32) -> int {
    if group >= 10000 {
        sat_i32(
            group + (9 + if rank > 1 {
                rank
            } else {
                1
            }),
        )
    } else {
        match entity_of(f, caster_uid) {
            Some(e) => {
                let list = if group == 1 {
                    e.skill_group1
                } else if group == 2 {
                    e.skill_group2
                } else {
                    Seq::empty()
                };
                if 1 <= rank <= list.len() {
                    list[rank - 1] as int
                } else {
                    0
                }
            },
            None => 0,
        }
    }
}

/// Derives a skill from a group and a rank.
pub fn choose_skill(fight: &Fight, caster_uid: i64, group: i32, rank: i32) -> (r: i32)
    requires
        group >= 10000 ==> rank <= i32::MAX - 9,
    ensures
        r == chosen_skill(fight@, caster_uid, group, rank),
{
    if group >= 10000 {
        let step: i32 = 9 + (if rank > 1 {
            rank
        } else {
            1
        });
        saturating_sum(group, step)
    } else {
        match find_entity(fight, caster_uid) {
            Some(e) => {
                if rank < 1 {
                    return 0;
                }
                let i: usize = (rank - 1) as usize;
                if group == 1 && i < e.skill_group1.len() {
                    e.skill_group1[i]
                } else if group == 2 && i < e.skill_group2.len() {
                    e.skill_group2[i]
                } else {
                    0
                }
            },
            None => 0,
        }
    }
}

/// Shows a derived skill even where it did nothing.
pub fn derived_effects(
    caster_uid: i64,
    target: i64,
    skill_id: i32,
    effects: Vec<ActEffect>,
) -> (r: Vec<ActEffect>)
    ensures
        effects_view(r@) == (if effects@.len() == 0 {
            seq![
                EffectView::wrapper(
                    StepView::plain(ActType::Skill, caster_uid, target, skill_id, Seq::empty()),
                ),
            ]
        } else {
            effects_view(effects@)
        }),
{
    if effects.len() > 0 {
        return effects;
    }
    let step = FightStepBuilder::skill(caster_uid, target, skill_id).build();
    let mut out: Vec<ActEffect> = Vec::new();
    out.push(wrap_step(step));
    assert(effects_view(out@) =~= seq![EffectView::wrapper(step@)]);
    out
}

/// What the conditions of a passive ask about the use of a skill.
#[derive(Clone, Copy, PartialEq, Eq, Structural, Debug)]
pub enum UseCondition {
    ActiveUseSkill,
    ActiveUseSkillId,
    ActOrder,
    UseSkillEffectTag,
    UseSpecificSkill,
    UseHurtSkill,
    NoActRound,
    Other,
}

/// A condition text of a passive, and what it asks.
#[derive(Debug)]
pub struct PassiveCondition {
    pub text: String,
    pub asks: UseCondition,
}

/// Whether a condition counts as a trigger by use.
pub open spec fn is_use_trigger(c: PassiveCondition) -> bool {
    trimmed(c.text@).len() > 0 && c.asks != UseCondition::Other
}

/// The skill that a passive emits when a skill is used: none without a trigger; the
/// passive's own effect where it is triggered by a round without action and is not
/// that effect itself; else the passive.
pub open spec fn emitted_skill(
    skill_id: i32,
    effect_id: i32,
    conditions: Seq<PassiveCondition>,
) -> Option<i32> {
    if !(exists|i: int| 0 <= i < conditions.len() && is_use_trigger(#[trigger] conditions[i])) {
        None
    } else if effect_id != skill_id && exists|i: int|
        0 <= i < conditions.len() && is_use_trigger(#[trigger] conditions[i])
            && conditions[i].asks == UseCondition::NoActRound {
        Some(effect_id)
    } else {
        Some(skill_id)
    }
}

/// Finds the skill that a passive emits when a skill is used.
pub fn active_use_trigger_emit_skill_id(
    skill_id: i32,
    effect_id: i32,
    conditions: &Vec<PassiveCondition>,
) -> (r: Option<i32>)
    ensures
        r == emitted_skill(skill_id, effect_id, conditions@),
{
    let mut has_trigger: bool = false;
    let mut prefers_effect: bool = false;
    for i in 0..conditions.len()
        invariant
            has_trigger == (exists|k: int|
                0 <= k < i && is_use_trigger(#[trigger] conditions@[k])),
            prefers_effect == (effect_id != skill_id && exists|k: int|
                0 <= k < i && is_use_trigger(#[trigger] conditions@[k]) && conditions@[k].asks
                    == UseCondition::NoActRound),
    {
        let text = trim_text(conditions[i].text.as_str());
        if !text.as_str().is_empty() && conditions[i].asks != UseCondition::Other {
            assert(is_use_trigger(conditions@[i as int]));
            has_trigger = true;
            if conditions[i].asks == UseCondition::NoActRound && effect_id != skill_id {
                prefers_effect = true;
            }
        }
    }
    if !has_trigger {
        None
    } else if prefers_effect {
        Some(effect_id)
    } else {
        Some(skill_id)
    }
}

/// The skill that is played for a passive after a derived skill: the passive itself
/// where the caster already bears what it emits, else what it emits. Neither the
/// skill at hand nor the derived skill is played again.
pub open spec fn fanout_skill(
    passive_id: i32,
    emitted: Option<i32>,
    held: Seq<BuffInstance>,
    skill_id: i32,
    chosen: i32,
) -> Option<i32> {
    match emitted {
        Some(emit) => {
            let play = if emit != passive_id && holds(held, emit) {
                passive_id
            } else {
                emit
            };
            if passive_id <= 0 || passive_id == skill_id || passive_id == chosen || play
                == skill_id || play == chosen {
                None
            } else {
                Some(play)
            }
        },
        None => None,
    }
}

/// Decides which skill is played for a passive after a derived skill.
pub fn plan_fanout(
    passive_id: i32,
    emitted: Option<i32>,
    held: &Vec<BuffInstance>,
    skill_id: i32,
    chosen: i32,
) -> (r: Option<i32>)
    ensures
        r == fanout_skill(passive_id, emitted, held@, skill_id, chosen),
{
    match emitted {
        Some(emit) => {
            let play: i32 = if emit != passive_id && has_buff(held, emit) {
                passive_id
            } else {
                emit
            };
            if passive_id <= 0 || passive_id == skill_id || passive_id == chosen || play
                == skill_id || play == chosen {
                None
            } else {
                Some(play)
            }
        },
        None => None,
    }
}

} // verus!
