//! Magic circles: laying one, and the skill that it adds to its team's attacks.

use crate::arith::{or_zero, or_zero64, value, value64};
use crate::config::{find_row, row_at, MagicCircleRow, SkillBuffRow};
use crate::event::Event;
use crate::fight_step::builder::{fresh_buff_add, ActEffectBuilder, BuffStamp};
use crate::fight_step::select::{has_kind, keep_wrappers, splice_effects, wrappers};
use crate::mechanics::channel::{
    is_trigger_state, same_side, side, skill_trigger_state, SkillReadings, TriggerState,
};
use crate::mechanics::channel_followup::spliced;
use crate::model::lists::group_effects_view;
use crate::model::{
    effects_view, ActEffect, ActType, EffectType, EffectView, Fight, FightStep, FightView,
    MagicCircleInfo, StepView,
};
use crate::text::{
    list_pieces, number, param, param_at, parse_number, split_list, texts_view, trim_text, trimmed,
};
use vstd::prelude::*;

verus! {

broadcast use group_effects_view;

/// The positive id that a text spells.
pub open spec fn positive_id(s: Seq<char>) -> Option<i32> {
    match number(trimmed(s)) {
        Some(id) => if id > 0 {
            Some(id)
        } else {
            None
        },
        None => None,
    }
}

/// Reads the positive id that a text spells.
pub fn read_positive_id(s: &str) -> (r: Option<i32>)
    ensures
        r == positive_id(s@),
{
    let t = trim_text(s);
    match parse_number(t.as_str()) {
        Some(id) => if id > 0 {
            Some(id)
        } else {
            None
        },
        None => None,
    }
}

/// What a circle brings: the buff of its own side, the buff of the other side, and
/// how long it lasts.
#[derive(Clone, Copy, PartialEq, Eq, Structural, Debug)]
pub struct CirclePlan {
    pub self_buff: Option<i32>,
    pub enemy_buff: Option<i32>,
    pub round: i32,
}

/// What a circle brings; nothing for one that is not listed.
pub open spec fn circle_plan(rows: Seq<MagicCircleRow>, circle_id: i32) -> CirclePlan {
    match row_at(rows, circle_id) {
        Some(row) => CirclePlan {
            self_buff: positive_id(row.self_buff@),
            enemy_buff: positive_id(row.enemy_buff@),
            round: row.round,
        },
        None => CirclePlan { self_buff: None, enemy_buff: None, round: 0 },
    }
}

/// Looks up what a circle brings.
pub fn plan_circle(rows: &Vec<MagicCircleRow>, circle_id: i32) -> (r: CirclePlan)
    ensures
        r == circle_plan(rows@, circle_id),
{
    match find_row(rows, circle_id) {
        Some(row) => CirclePlan {
            self_buff: read_positive_id(row.self_buff.as_str()),
            enemy_buff: read_positive_id(row.enemy_buff.as_str()),
            round: row.round,
        },
        None => CirclePlan { self_buff: None, enemy_buff: None, round: 0 },
    }
}

/// How the buff of a circle's own side is given: to all allies by a feature of its
/// own, or to the caster.
#[derive(Debug)]
pub enum SelfBuffGift {
    Spread { effects: Vec<ActEffect> },
    Caster { stamp: BuffStamp },
}

/// The effects of the buff of a circle's own side.
pub open spec fn gift_effects(
    plan: CirclePlan,
    gift: SelfBuffGift,
    buff_rows: Seq<SkillBuffRow>,
    caster_uid: i64,
) -> Seq<EffectView> {
    match plan.self_buff {
        Some(buff_id) => match gift {
            SelfBuffGift::Spread { effects } => effects_view(effects@),
            SelfBuffGift::Caster { stamp } => seq![
                fresh_buff_add(
                    buff_rows,
                    stamp.uid,
                    stamp.params@,
                    caster_uid,
                    caster_uid,
                    buff_id,
                    1,
                    0,
                ),
            ],
        },
        None => Seq::empty(),
    }
}

/// The effect that lays a circle.
pub open spec fn circle_add_effect(caster_uid: i64, circle_id: i32, round: i32) -> EffectView {
    EffectView {
        reserve_id: Some(circle_id as i64),
        magic_circle: Some(
            MagicCircleInfo {
                magic_circle_id: Some(circle_id),
                round: Some(round),
                create_uid: Some(caster_uid),
                electric_level: Some(0),
                electric_progress: Some(0),
                max_electric_progress: Some(0),
            },
        ),
        ..EffectView::amount(EffectType::MagicCircleAdd, caster_uid, 0)
    }
}

/// The event of the buff that a circle puts on an enemy.
pub fn enemy_buff_event(caster_uid: i64, enemy_uid: i64, buff_id: i32) -> (r: Event)
    ensures
        r == (Event::BuffApply {
            target: enemy_uid,
            buff_id,
            count: 0,
            layer: 1,
            from: caster_uid,
            from_skill_id: 0,
            config_effect: None,
        }),
{
    Event::BuffApply {
        target: enemy_uid,
        buff_id,
        count: 0,
        layer: 1,
        from: caster_uid,
        from_skill_id: 0,
        config_effect: None,
    }
}

/// Chooses the enemy that the buff of a circle goes to. Only one hero lays circles
/// that pick an enemy: `picker_uid` is that hero, if it is in the battle, and
/// `picked` whom it picks. Any other circle picks nobody.
pub fn pick_enemy_buff_target_for_creator(
    caster_uid: i64,
    picker_uid: Option<i64>,
    picked: Option<i64>,
) -> (r: Option<i64>)
    ensures
        r == (if picker_uid == Some(caster_uid) {
            picked
        } else {
            None
        }),
{
    match picker_uid {
        Some(uid) => if uid == caster_uid {
            picked
        } else {
            None
        },
        None => None,
    }
}

/// Lays a circle: the buff of its own side, what its buff did to the enemy that was
/// picked, and the circle itself.
pub fn add_magic_circle(
    rows: &Vec<MagicCircleRow>,
    circle_id: i32,
    caster_uid: i64,
    gift: SelfBuffGift,
    buff_rows: &Vec<SkillBuffRow>,
    enemy_effects: Vec<ActEffect>,
) -> (r: Vec<ActEffect>)
    ensures
        effects_view(r@) == ({
            let plan = circle_plan(rows@, circle_id);
            let on_enemy = if plan.enemy_buff is Some {
                effects_view(enemy_effects@)
            } else {
                Seq::empty()
            };
            (gift_effects(plan, gift, buff_rows@, caster_uid) + on_enemy).push(
                circle_add_effect(caster_uid, circle_id, plan.round),
            )
        }),
{
    let plan = plan_circle(rows, circle_id);
    let mut out: Vec<ActEffect> = Vec::new();
    if let Some(buff_id) = plan.self_buff {
        match gift {
            SelfBuffGift::Spread { effects } => {
                out = effects;
            },
            SelfBuffGift::Caster { stamp } => {
                out.push(
                    ActEffectBuilder::buff_add(
                        buff_rows,
                        stamp,
                        caster_uid,
                        caster_uid,
                        buff_id,
                        1,
                    ),
                );
            },
        }
    }
    assert(effects_view(out@) =~= gift_effects(plan, gift, buff_rows@, caster_uid));
    let ghost first = effects_view(out@);
    if plan.enemy_buff.is_some() {
        let mut more = enemy_effects;
        out.append(&mut more);
    }
    assert(effects_view(out@) =~= first + (if plan.enemy_buff is Some {
        effects_view(enemy_effects@)
    } else {
        Seq::empty()
    }));
    out.push(
        ActEffectBuilder::magic_circle_add(
            caster_uid,
            circle_id,
            MagicCircleInfo {
                magic_circle_id: Some(circle_id),
                round: Some(plan.round),
                create_uid: Some(caster_uid),
                electric_level: Some(0),
                electric_progress: Some(0),
                max_electric_progress: Some(0),
            },
        ),
    );
    out
}

/// The row of the circle on the field; none for one that has no rounds left.
pub open spec fn active_row(f: FightView, rows: Seq<MagicCircleRow>) -> Option<MagicCircleRow> {
    match f.magic_circle {
        Some(c) => if c.magic_circle_id is Some && or_zero(c.round) != 0 {
            row_at(rows, c.magic_circle_id->0)
        } else {
            None
        },
        None => None,
    }
}

/// Looks up the row of the circle on the field.
pub fn active_circle_row<'a>(fight: &Fight, rows: &'a Vec<MagicCircleRow>) -> (r: Option<
    &'a MagicCircleRow,
>)
    ensures
        match r {
            Some(x) => active_row(fight@, rows@) == Some(*x),
            None => active_row(fight@, rows@) is None,
        },
{
    match fight.magic_circle {
        Some(c) => match c.magic_circle_id {
            Some(id) => if value(c.round) != 0 {
                find_row(rows, id)
            } else {
                None
            },
            None => None,
        },
        None => None,
    }
}

/// Who laid the circle on the field.
pub fn active_circle_create_uid(fight: &Fight) -> (r: Option<i64>)
    ensures
        r == (if fight@.magic_circle is Some && or_zero64(fight@.magic_circle->0.create_uid) != 0 {
            fight@.magic_circle->0.create_uid
        } else {
            None
        }),
{
    match fight.magic_circle {
        Some(c) => match c.create_uid {
            Some(uid) => if uid != 0 {
                Some(uid)
            } else {
                None
            },
            None => None,
        },
        None => None,
    }
}

/// Whether a circle lists a skill as its own.
pub open spec fn lists_self_skill(row: MagicCircleRow, skill_id: i32) -> bool {
    exists|k: int|
        0 <= k < list_pieces(row.self_skills@).len() && number(
            trimmed(#[trigger] list_pieces(row.self_skills@)[k]),
        ) == Some(skill_id)
}

fn check_self_skill(row: &MagicCircleRow, skill_id: i32) -> (r: bool)
    ensures
        r == lists_self_skill(*row, skill_id),
{
    let parts = split_list(row.self_skills.as_str());
    let ghost ps = list_pieces(row.self_skills@);
    for i in 0..parts.len()
        invariant
            texts_view(parts@) == ps,
            ps == list_pieces(row.self_skills@),
            forall|k: int| 0 <= k < i ==> number(trimmed(#[trigger] ps[k])) != Some(skill_id),
    {
        assert(ps[i as int] == parts@[i as int]@);
        let t = trim_text(parts[i].as_str());
        if let Some(id) = parse_number(t.as_str()) {
            if id == skill_id {
                assert(number(trimmed(list_pieces(row.self_skills@)[i as int])) == Some(skill_id));
                return true;
            }
        }
    }
    false
}

/// Whether any circle lists a skill as its own.
pub fn is_magic_circle_self_skill(rows: &Vec<MagicCircleRow>, skill_id: i32) -> (r: bool)
    ensures
        r == (exists|i: int|
            0 <= i < rows@.len() && lists_self_skill(#[trigger] rows@[i], skill_id)),
{
    for i in 0..rows.len()
        invariant
            forall|k: int| 0 <= k < i ==> !lists_self_skill(#[trigger] rows@[k], skill_id),
    {
        if check_self_skill(&rows[i], skill_id) {
            return true;
        }
    }
    false
}

/// Whether an effect of a step wraps the same skill of the same caster.
pub open spec fn is_root_child(host: StepView, e: EffectView) -> bool {
    &&& e.effect_type == Some(EffectType::FightStep)
    &&& e.fight_step is Some
    &&& e.fight_step->0.act_type == Some(ActType::Skill)
    &&& e.fight_step->0.act_id == host.act_id
    &&& e.fight_step->0.from_id == host.from_id
}

/// The position of the first effect of a list that wraps the same skill again.
pub open spec fn root_child_in(host: StepView, s: Seq<EffectView>) -> Option<nat>
    decreases s.len(),
{
    if s.len() == 0 {
        None
    } else if is_root_child(host, s[0]) {
        Some(0)
    } else {
        match root_child_in(host, s.skip(1)) {
            Some(i) => Some(i + 1),
            None => None,
        }
    }
}

/// The position of the first effect that wraps the same skill again; none for a
/// step without a skill or a caster.
pub open spec fn root_child(host: StepView) -> Option<nat> {
    if host.act_id is None || host.from_id is None {
        None
    } else {
        root_child_in(host, host.act_effect)
    }
}

/// Finds the first effect that wraps the same skill again.
pub fn find_direct_root_skill_child(host: &FightStep) -> (r: Option<usize>)
    ensures
        match r {
            Some(i) => root_child(host@) == Some(i as nat) && i < host.act_effect@.len()
                && host.act_effect@[i as int].fight_step is Some,
            None => root_child(host@) is None,
        },
{
    let act_id = match host.act_id {
        Some(id) => id,
        None => {
            return None;
        },
    };
    let from = match host.from_id {
        Some(uid) => uid,
        None => {
            return None;
        },
    };
    let ghost s = host@.act_effect;
    assert(s.skip(0) =~= s);
    let mut i: usize = 0;
    while i < host.act_effect.len()
        invariant
            i <= host.act_effect@.len(),
            s == effects_view(host.act_effect@),
            s == host@.act_effect,
            host@.act_id == Some(act_id),
            host@.from_id == Some(from),
            root_child_in(host@, s) == match root_child_in(host@, s.skip(i as int)) {
                Some(k) => Some((k + i) as nat),
                None => None,
            },
        decreases host.act_effect@.len() - i,
    {
        assert(s.skip(i as int)[0] == host.act_effect@[i as int]@);
        assert(s.skip(i as int).skip(1) =~= s.skip(i + 1));
        if has_kind(&host.act_effect[i], EffectType::FightStep) {
            if let Some(child) = &host.act_effect[i].fight_step {
                match (child.act_type, child.act_id, child.from_id) {
                    (Some(t), Some(id), Some(uid)) => {
                        if t == ActType::Skill && id == act_id && uid == from {
                            return Some(i);
                        }
                    },
                    _ => {},
                }
            }
        }
        i += 1;
    }
    None
}

/// Whether an effect of a step carries a step of a skill.
pub open spec fn carries_skill(s: Seq<EffectView>, skill_id: i32) -> bool {
    exists|i: int|
        0 <= i < s.len() && (#[trigger] s[i]).fight_step is Some && s[i].fight_step->0.act_id
            == Some(skill_id)
}

fn check_carries(v: &Vec<ActEffect>, skill_id: i32) -> (r: bool)
    ensures
        r == carries_skill(effects_view(v@), skill_id),
{
    let ghost s = effects_view(v@);
    for i in 0..v.len()
        invariant
            s == effects_view(v@),
            forall|k: int|
                0 <= k < i ==> !((#[trigger] s[k]).fight_step is Some && s[k].fight_step->0.act_id
                    == Some(skill_id)),
    {
        assert(s[i as int] == v@[i as int]@);
        if let Some(step) = &v[i].fight_step {
            if let Some(id) = step.act_id {
                if id == skill_id {
                    return true;
                }
            }
        }
    }
    false
}

/// The skill that the circle on the field adds to a step, and its target. The step
/// must be a skill of the circle's side that dealt damage, or that wraps itself
/// against the other side; and it must not have the skill yet.
pub open spec fn aura(
    f: FightView,
    rows: Seq<MagicCircleRow>,
    host: StepView,
    caster_uid: i64,
    dealt_damage: bool,
    primary_target_uid: i64,
) -> Option<(i32, i64)> {
    let to = or_zero64(host.to_id);
    let against = to != 0 && side(to) != side(caster_uid);
    if caster_uid == 0 || host.act_type != Some(ActType::Skill) || f.magic_circle is None {
        None
    } else {
        let create_uid = or_zero64(f.magic_circle->0.create_uid);
        let row = active_row(f, rows);
        if create_uid == 0 || side(create_uid) != side(caster_uid) || row is None {
            None
        } else {
            match positive_id(row->0.self_skills@) {
                Some(skill_id) => if host.act_id == Some(skill_id) || carries_skill(
                    host.act_effect,
                    skill_id,
                ) || !(dealt_damage || (against && root_child(host) is Some)) {
                    None
                } else {
                    Some(
                        (
                            skill_id,
                            if against {
                                to
                            } else {
                                primary_target_uid
                            },
                        ),
                    )
                },
                None => None,
            }
        }
    }
}

/// Decides which skill the circle on the field adds to a step.
pub fn magic_circle_aura_state(
    fight: &Fight,
    rows: &Vec<MagicCircleRow>,
    host: &FightStep,
    caster_uid: i64,
    dealt_damage: bool,
    primary_target_uid: i64,
) -> (r: Option<(i32, i64)>)
    ensures
        r == aura(fight@, rows@, host@, caster_uid, dealt_damage, primary_target_uid),
{
    let is_skill: bool = match host.act_type {
        Some(t) => t == ActType::Skill,
        None => false,
    };
    if caster_uid == 0 || !is_skill {
        return None;
    }
    let create_uid = match fight.magic_circle {
        Some(c) => value64(c.create_uid),
        None => {
            return None;
        },
    };
    if create_uid == 0 || !same_side(create_uid, caster_uid) {
        return None;
    }
    let row = match active_circle_row(fight, rows) {
        Some(x) => x,
        None => {
            return None;
        },
    };
    let skill_id = match read_positive_id(row.self_skills.as_str()) {
        Some(id) => id,
        None => {
            return None;
        },
    };
    let is_itself: bool = match host.act_id {
        Some(id) => id == skill_id,
        None => false,
    };
    if is_itself || check_carries(&host.act_effect, skill_id) {
        return None;
    }
    let to = value64(host.to_id);
    let against: bool = to != 0 && !same_side(to, caster_uid);
    if !dealt_damage && !(against && find_direct_root_skill_child(host).is_some()) {
        return None;
    }
    Some(
        (
            skill_id,
            if against {
                to
            } else {
                primary_target_uid
            },
        ),
    )
}

/// The state that a circle's skill is triggered with.
pub fn aura_trigger_state(caster_uid: i64, host: &FightStep, readings: SkillReadings) -> (r:
    TriggerState)
    requires
        readings.damaged_uids@.len() <= i32::MAX,
    ensures
        is_trigger_state(
            r,
            caster_uid,
            or_zero(host@.act_id),
            readings,
            readings.triggered_bullet,
        ),
{
    let bullet: bool = readings.triggered_bullet;
    skill_trigger_state(caster_uid, value(host.act_id), readings, bullet)
}

/// The results of some skills, each by its effects; none for one that failed.
pub open spec fn results_view(v: Seq<Option<Vec<ActEffect>>>) -> Seq<Option<Seq<EffectView>>> {
    Seq::new(
        v.len(),
        |i: int|
            match v[i] {
                Some(e) => Some(effects_view(e@)),
                None => None,
            },
    )
}

/// The nested steps that some skills led to; skills that failed led to none.
pub open spec fn led_to(s: Seq<Option<Seq<EffectView>>>) -> Seq<EffectView>
    decreases s.len(),
{
    if s.len() == 0 {
        Seq::empty()
    } else {
        led_to(s.drop_last()) + match s.last() {
            Some(e) => wrappers(e),
            None => Seq::empty(),
        }
    }
}

/// What a circle's skill and the skills that followed it put into a step: their
/// nested steps. Nothing where the circle's skill failed.
pub fn build_magic_circle_self_skill_embeds(
    skill_effects: Option<Vec<ActEffect>>,
    followups: &Vec<Option<Vec<ActEffect>>>,
) -> (r: Vec<ActEffect>)
    ensures
        effects_view(r@) == match skill_effects {
            Some(v) => wrappers(effects_view(v@)) + led_to(results_view(followups@)),
            None => Seq::<EffectView>::empty(),
        },
{
    match skill_effects {
        Some(v) => {
            let mut out = keep_wrappers(&v);
            let ghost first = effects_view(out@);
            let ghost rs = results_view(followups@);
            assert(first + led_to(rs.take(0)) =~= first);
            for i in 0..followups.len()
                invariant
                    rs == results_view(followups@),
                    effects_view(out@) == first + led_to(rs.take(i as int)),
            {
                assert(rs.take(i + 1).drop_last() =~= rs.take(i as int));
                if let Some(more) = &followups[i] {
                    let mut kept = keep_wrappers(more);
                    out.append(&mut kept);
                }
                assert(effects_view(out@) =~= first + led_to(rs.take(i + 1)));
            }
            assert(rs.take(rs.len() as int) =~= rs);
            out
        },
        None => Vec::new(),
    }
}

/// Paths with a step put in front of each.
pub open spec fn under(i: int, paths: Seq<Seq<int>>) -> Seq<Seq<int>> {
    Seq::new(paths.len(), |k: int| seq![i] + paths[k])
}

/// The paths to the skill steps nested in the first effects of a list, each step
/// before what is nested in it.
pub open spec fn skill_paths_upto(s: Seq<EffectView>, n: nat) -> Seq<Seq<int>>
    decreases s, n,
{
    if n == 0 || n > s.len() {
        Seq::empty()
    } else {
        let before = skill_paths_upto(s, (n - 1) as nat);
        match s[n - 1].fight_step {
            Some(child) => {
                let own = if child.act_type == Some(ActType::Skill) {
                    seq![seq![n - 1]]
                } else {
                    Seq::empty()
                };
                before + own + under(n - 1, skill_paths(child.act_effect))
            },
            None => before,
        }
    }
}

/// The paths to the skill steps nested in a list, each step before what is nested
/// in it.
pub open spec fn skill_paths(s: Seq<EffectView>) -> Seq<Seq<int>>
    decreases s, s.len() + 1,
{
    skill_paths_upto(s, s.len())
}

/// A path as numbers.
pub open spec fn path_view(p: Seq<usize>) -> Seq<int> {
    Seq::new(p.len(), |i: int| p[i] as int)
}

/// The paths of a list, each as numbers.
pub open spec fn paths_view(v: Seq<Vec<usize>>) -> Seq<Seq<int>> {
    Seq::new(v.len(), |i: int| path_view(v[i]@))
}

fn prepend(i: usize, p: &Vec<usize>) -> (r: Vec<usize>)
    ensures
        path_view(r@) == seq![i as int] + path_view(p@),
{
    let mut r: Vec<usize> = Vec::new();
    r.push(i);
    for k in 0..p.len()
        invariant
            path_view(r@) == seq![i as int] + path_view(p@).take(k as int),
    {
        let ghost before = path_view(r@);
        r.push(p[k]);
        assert(path_view(r@) =~= before.push(p@[k as int] as int));
        assert(path_view(p@).take(k + 1) =~= path_view(p@).take(k as int).push(
            p@[k as int] as int,
        ));
        assert(path_view(r@) =~= seq![i as int] + path_view(p@).take(k + 1));
    }
    assert(path_view(p@).take(p@.len() as int) =~= path_view(p@));
    r
}

/// Lists the paths to the skill steps nested in a list of effects.
pub fn nested_skill_paths(effects: &Vec<ActEffect>) -> (r: Vec<Vec<usize>>)
    ensures
        paths_view(r@) == skill_paths(effects_view(effects@)),
    decreases effects,
{
    let ghost s = effects_view(effects@);
    let mut out: Vec<Vec<usize>> = Vec::new();
    assert(paths_view(out@) =~= skill_paths_upto(s, 0));
    for i in 0..effects.len()
        invariant
            s == effects_view(effects@),
            paths_view(out@) == skill_paths_upto(s, i as nat),
    {
        assert(s[i as int] == effects@[i as int]@);
        if let Some(child) = &effects[i].fight_step {
            let ghost before = paths_view(out@);
            let is_skill: bool = match child.act_type {
                Some(t) => t == ActType::Skill,
                None => false,
            };
            let ghost own = if is_skill {
                seq![seq![i as int]]
            } else {
                Seq::<Seq<int>>::empty()
            };
            if is_skill {
                let mut p: Vec<usize> = Vec::new();
                p.push(i);
                assert(path_view(p@) =~= seq![i as int]);
                out.push(p);
            }
            assert(paths_view(out@) =~= before + own);
            assert(decreases_to!(effects => effects@[i as int]));
            let inner = nested_skill_paths(&child.act_effect);
            let ghost deep = under(i as int, skill_paths(child@.act_effect));
            assert((before + own) + deep.take(0) =~= before + own);
            for k in 0..inner.len()
                invariant
                    paths_view(inner@) == skill_paths(child@.act_effect),
                    deep == under(i as int, skill_paths(child@.act_effect)),
                    paths_view(out@) == (before + own) + deep.take(k as int),
            {
                let ghost now = paths_view(out@);
                let p = prepend(i, &inner[k]);
                assert(path_view(p@) == deep[k as int]);
                out.push(p);
                assert(paths_view(out@) =~= now.push(path_view(p@)));
                assert(deep.take(k + 1) =~= deep.take(k as int).push(deep[k as int]));
                assert(paths_view(out@) =~= (before + own) + deep.take(k + 1));
            }
            assert(deep.take(deep.len() as int) =~= deep);
        }
    }
    out
}

/// The last of some paths that was accepted.
pub fn last_accepted(paths: &Vec<Vec<usize>>, accepted: &Vec<bool>) -> (r: Option<usize>)
    requires
        accepted@.len() == paths@.len(),
    ensures
        match r {
            Some(i) => i < paths@.len() && accepted@[i as int] && forall|k: int|
                i < k < paths@.len() ==> !accepted@[k],
            None => forall|k: int| 0 <= k < paths@.len() ==> !accepted@[k],
        },
{
    let mut i: usize = paths.len();
    while i > 0
        invariant
            i <= paths@.len(),
            accepted@.len() == paths@.len(),
            forall|k: int| i <= k < paths@.len() ==> !accepted@[k],
        decreases i,
    {
        if accepted[i - 1] {
            return Some(i - 1);
        }
        i -= 1;
    }
    None
}

/// Whether a path leads to a step.
pub open spec fn path_leads(s: StepView, path: Seq<int>) -> bool
    decreases path.len(),
{
    if path.len() == 0 {
        true
    } else {
        &&& 0 <= path[0] < s.act_effect.len()
        &&& s.act_effect[path[0]].fight_step is Some
        &&& path_leads(s.act_effect[path[0]].fight_step->0, path.skip(1))
    }
}

/// The step that a path leads to.
pub open spec fn step_on_path(s: StepView, path: Seq<int>) -> StepView
    decreases path.len(),
{
    if path.len() == 0 {
        s
    } else {
        step_on_path(s.act_effect[path[0]].fight_step->0, path.skip(1))
    }
}

/// A step with effects put into the step that a path leads to.
pub open spec fn spliced_on_path(
    s: StepView,
    path: Seq<int>,
    at: int,
    more: Seq<EffectView>,
) -> StepView
    decreases path.len(),
{
    if path.len() == 0 {
        StepView { act_effect: spliced(s.act_effect, at, more), ..s }
    } else {
        let e = s.act_effect[path[0]];
        StepView {
            act_effect: s.act_effect.update(
                path[0],
                EffectView {
                    fight_step: Some(spliced_on_path(e.fight_step->0, path.skip(1), at, more)),
                    ..e
                },
            ),
            ..s
        }
    }
}

/// The part of a path from a position on.
pub open spec fn rest_of(path: Seq<usize>, from: int) -> Seq<int> {
    path_view(path).skip(from)
}

/// Looks up the step that a path leads to.
pub fn nested_step_ref_at_path<'a>(step: &'a FightStep, path: &Vec<usize>) -> (r: Option<
    &'a FightStep,
>)
    ensures
        match r {
            Some(x) => path_leads(step@, path_view(path@)) && x@ == step_on_path(
                step@,
                path_view(path@),
            ),
            None => !path_leads(step@, path_view(path@)),
        },
{
    let mut current = step;
    let ghost whole = path_view(path@);
    assert(whole.skip(0) =~= whole);
    for i in 0..path.len()
        invariant
            whole == path_view(path@),
            path_leads(step@, whole) == path_leads(current@, whole.skip(i as int)),
            path_leads(step@, whole) ==> step_on_path(step@, whole) == step_on_path(
                current@,
                whole.skip(i as int),
            ),
    {
        assert(whole.skip(i as int)[0] == path@[i as int] as int);
        assert(whole.skip(i as int).skip(1) =~= whole.skip(i + 1));
        let k = path[i];
        if k >= current.act_effect.len() {
            return None;
        }
        assert(current@.act_effect[k as int] == current.act_effect@[k as int]@);
        match &current.act_effect[k].fight_step {
            Some(next) => {
                current = next;
            },
            None => {
                return None;
            },
        }
    }
    assert(whole.skip(path@.len() as int).len() == 0);
    Some(current)
}

fn splice_from(
    step: FightStep,
    path: &Vec<usize>,
    from: usize,
    at: usize,
    more: Vec<ActEffect>,
) -> (r: FightStep)
    requires
        from <= path@.len(),
        path_leads(step@, rest_of(path@, from as int)),
        at <= step_on_path(step@, rest_of(path@, from as int)).act_effect.len(),
    ensures
        r@ == spliced_on_path(
            step@,
            rest_of(path@, from as int),
            at as int,
            effects_view(more@),
        ),
    decreases path@.len() - from,
{
    let ghost before = step@;
    let ghost rest = rest_of(path@, from as int);
    let mut step = step;
    assert(effects_view(step.act_effect@).len() == step.act_effect@.len());
    if from == path.len() {
        assert(rest.len() == 0);
        splice_effects(&mut step.act_effect, at, more);
        assert(step@.act_effect == spliced(before.act_effect, at as int, effects_view(more@)));
        step
    } else {
        let k = path[from];
        assert(rest[0] == k as int);
        assert(rest.skip(1) =~= rest_of(path@, from + 1));
        assert(before.act_effect[k as int] == step.act_effect@[k as int]@);
        let mut effect = step.act_effect[k].clone();
        if let Some(inner) = effect.fight_step {
            let inner = splice_from(inner, path, from + 1, at, more);
            effect.fight_step = Some(inner);
            step.act_effect[k] = effect;
            assert(step@.act_effect == before.act_effect.update(k as int, effect@));
            assert(effect@ == (EffectView {
                fight_step: Some(inner@),
                ..before.act_effect[k as int]
            }));
        }
        step
    }
}

/// How the effects of a circle were put into a step.
#[derive(Clone, Copy, PartialEq, Eq, Structural, Debug)]
pub enum MagicCircleApplyKind {
    /// Nothing was put in.
    Nothing,
    /// Among the effects of the step itself.
    TopLevel,
    /// Among the effects of a nested step.
    NestedPath,
}

/// Puts the effects of a circle into the step that a path leads to. Nothing happens
/// without effects.
pub fn apply_to_nested(
    host: FightStep,
    path: &Vec<usize>,
    embeds: Vec<ActEffect>,
    insert_at: usize,
) -> (r: (FightStep, MagicCircleApplyKind))
    requires
        path_leads(host@, path_view(path@)),
        insert_at <= step_on_path(host@, path_view(path@)).act_effect.len(),
    ensures
        embeds@.len() == 0 ==> r.0@ == host@ && r.1 == MagicCircleApplyKind::Nothing,
        embeds@.len() > 0 ==> r.0@ == spliced_on_path(
            host@,
            path_view(path@),
            insert_at as int,
            effects_view(embeds@),
        ) && r.1 == MagicCircleApplyKind::NestedPath,
{
    if embeds.len() == 0 {
        return (host, MagicCircleApplyKind::Nothing);
    }
    assert(rest_of(path@, 0) =~= path_view(path@));
    let host = splice_from(host, path, 0, insert_at, embeds);
    (host, MagicCircleApplyKind::NestedPath)
}

/// Puts the effects of a circle among the effects of a step. Nothing happens
/// without effects.
pub fn apply_to_host(
    host: &mut FightStep,
    embeds: Vec<ActEffect>,
    insert_at: usize,
) -> (r: MagicCircleApplyKind)
    requires
        insert_at <= old(host)@.act_effect.len(),
    ensures
        embeds@.len() == 0 ==> final(host)@ == old(host)@ && r == MagicCircleApplyKind::Nothing,
        embeds@.len() > 0 ==> final(host)@ == (StepView {
            act_effect: spliced(
                old(host)@.act_effect,
                insert_at as int,
                effects_view(embeds@),
            ),
            ..old(host)@
        }) && r == MagicCircleApplyKind::TopLevel,
{
    if embeds.len() == 0 {
        return MagicCircleApplyKind::Nothing;
    }
    splice_effects(&mut host.act_effect, insert_at, embeds);
    MagicCircleApplyKind::TopLevel
}

/// The position of the first effect that lays a circle.
pub open spec fn circle_position(s: Seq<EffectView>) -> Option<nat>
    decreases s.len(),
{
    if s.len() == 0 {
        None
    } else if s[0].effect_type == Some(EffectType::MagicCircleAdd) {
        Some(0)
    } else {
        match circle_position(s.skip(1)) {
            Some(i) => Some(i + 1),
            None => None,
        }
    }
}

/// Finds the first effect that lays a circle.
pub fn find_circle_add(v: &Vec<ActEffect>) -> (r: Option<usize>)
    ensures
        match r {
            Some(i) => circle_position(effects_view(v@)) == Some(i as nat) && i < v@.len(),
            None => circle_position(effects_view(v@)) is None,
        },
{
    let ghost s = effects_view(v@);
    assert(s.skip(0) =~= s);
    let mut i: usize = 0;
    while i < v.len()
        invariant
            i <= v.len(),
            s == effects_view(v@),
            circle_position(s) == match circle_position(s.skip(i as int)) {
                Some(k) => Some((k + i) as nat),
                None => None,
            },
        decreases v.len() - i,
    {
        assert(s.skip(i as int)[0] == v@[i as int]@);
        assert(s.skip(i as int).skip(1) =~= s.skip(i + 1));
        if has_kind(&v[i], EffectType::MagicCircleAdd) {
            return Some(i);
        }
        i += 1;
    }
    None
}

/// The paths to the skill steps behind the laying of a circle in a step.
pub open spec fn paths_behind_circle(s: Seq<EffectView>) -> Seq<Seq<int>> {
    match circle_position(s) {
        Some(i) => skill_paths(s).filter(|p: Seq<int>| p[0] > i),
        None => Seq::empty(),
    }
}

/// Lists the paths to the skill steps that are nested behind the laying of a
/// circle, among which the last that the circle answers is looked for.
pub fn find_nested_aura_targets(host: &FightStep) -> (r: Vec<Vec<usize>>)
    ensures
        paths_view(r@) == paths_behind_circle(host@.act_effect),
{
    let mut out: Vec<Vec<usize>> = Vec::new();
    match find_circle_add(&host.act_effect) {
        Some(at) => {
            let paths = nested_skill_paths(&host.act_effect);
            let ghost all = skill_paths(host@.act_effect);
            let ghost behind = |p: Seq<int>| p[0] > at as nat;
            proof {
                skill_paths_nonempty(host@.act_effect, host@.act_effect.len());
                assert(all == skill_paths_upto(host@.act_effect, host@.act_effect.len()));
            }
            assert(paths_view(out@) =~= all.take(0).filter(behind)) by {
                reveal(Seq::filter);
            }
            for i in 0..paths.len()
                invariant
                    paths_view(paths@) == all,
                    behind == (|p: Seq<int>| p[0] > at as nat),
                    forall|k: int| 0 <= k < all.len() ==> (#[trigger] all[k]).len() > 0,
                    paths_view(out@) == all.take(i as int).filter(behind),
            {
                let ghost before = paths_view(out@);
                let ghost t = all.take(i + 1);
                assert(t.drop_last() =~= all.take(i as int));
                assert(t.last() == all[i as int]);
                assert(all[i as int] == path_view(paths@[i as int]@));
                assert(all[i as int].len() > 0);
                proof {
                    reveal(Seq::filter);
                }
                if paths[i][0] > at {
                    let p = copy_path(&paths[i]);
                    out.push(p);
                    assert(paths_view(out@) =~= before.push(path_view(p@)));
                }
            }
            assert(all.take(all.len() as int) =~= all);
        },
        None => {
            assert(paths_view(out@) =~= Seq::empty());
        },
    }
    out
}

fn copy_path(p: &Vec<usize>) -> (r: Vec<usize>)
    ensures
        path_view(r@) == path_view(p@),
{
    let mut r: Vec<usize> = Vec::new();
    for k in 0..p.len()
        invariant
            r@ == p@.take(k as int),
    {
        r.push(p[k]);
        assert(p@.take(k + 1) =~= p@.take(k as int).push(p@[k as int]));
    }
    assert(p@.take(p@.len() as int) =~= p@);
    r
}

proof fn skill_paths_nonempty(s: Seq<EffectView>, n: nat)
    requires
        n <= s.len(),
    ensures
        forall|k: int|
            0 <= k < skill_paths_upto(s, n).len() ==> (#[trigger] skill_paths_upto(
                s,
                n,
            )[k]).len() > 0,
    decreases n,
{
    if n > 0 {
        skill_paths_nonempty(s, (n - 1) as nat);
        let before = skill_paths_upto(s, (n - 1) as nat);
        let all = skill_paths_upto(s, n);
        assert forall|k: int| 0 <= k < all.len() implies (#[trigger] all[k]).len() > 0 by {
            if k < before.len() {
                assert(all[k] == before[k]);
            }
        }
    }
}

/// The circle that a behaviour lays; none for a behaviour that lays none.
pub fn plan_magic_circle(behaviour_id: i32, raw: &str) -> (r: Option<i32>)
    ensures
        r == (if behaviour_id == 50019 || behaviour_id == 60163 {
            Some(param(raw@, 1))
        } else {
            None
        }),
{
    match behaviour_id {
        50019 | 60163 => Some(param_at(raw, 1)),
        _ => None,
    }
}

} // verus!
