//! Magic circles and the shadow cloak.

use crate::arith::fits;
use crate::buffs::{first_buff, BuffMgr};
use crate::config::{row_at, MagicCircleRow, SkillBuffRow};
use crate::fight_step::builder::fresh_buff_add;
use crate::fight_step::select::wrappers;
use crate::laws::events::{nothing_set, says};
use crate::lookup::entity_of;
use crate::manager::entity_mgr::{entry, EntityMgrView};
use crate::mechanics::channel_followup::spliced;
use crate::mechanics::magic_circle::{
    active_row, aura, carries_skill, circle_add_effect, circle_plan, circle_position, gift_effects,
    led_to, lists_self_skill, path_leads, path_view, paths_behind_circle, paths_view, positive_id,
    rest_of, results_view, root_child, root_child_in, skill_paths, skill_paths_upto,
    spliced_on_path, step_on_path, under, CirclePlan, SelfBuffGift,
};
use crate::mechanics::shadowcloak::{
    attr_hp, buff_uid_of, cloak_effects, cloak_fits, cloak_sync, CloakSettings, ShadowCloakState,
};
use crate::model::{
    effects_view, ActEffect, ActType, BuffActInfoView, EffectType, EffectView, EntityView,
    FightView, MagicCircleInfo, StepView,
};
use crate::text::{list_pieces, number, trimmed};
use vstd::prelude::*;

verus! {

/// A text names an id if it is a number above zero, whatever spaces surround it.
pub proof fn ids_above_zero(s: Seq<char>, id: i32)
    ensures
        positive_id(s) == Some(id) <==> number(trimmed(s)) == Some(id) && id > 0,
        positive_id(s) is None <==> number(trimmed(s)) is None || number(trimmed(s))->0 <= 0,
{
}

/// What a circle does stands in its row; one without a row does nothing.
pub proof fn what_a_circle_does(rows: Seq<MagicCircleRow>, circle_id: i32)
    ensures
        row_at(rows, circle_id) is None ==> circle_plan(rows, circle_id) == (CirclePlan {
            self_buff: None,
            enemy_buff: None,
            round: 0,
        }),
        row_at(rows, circle_id) matches Some(row) ==> circle_plan(rows, circle_id) == (CirclePlan {
            self_buff: positive_id(row.self_buff@),
            enemy_buff: positive_id(row.enemy_buff@),
            round: row.round,
        }),
{
}

/// A circle that gives a buff to its own side gives what was spread, or one layer to its
/// caster. One that gives none gives nothing.
pub proof fn what_a_circle_gives_its_side(
    plan: CirclePlan,
    gift: SelfBuffGift,
    rows: Seq<SkillBuffRow>,
    uid: i64,
)
    ensures
        plan.self_buff is None ==> gift_effects(plan, gift, rows, uid).len() == 0,
        plan.self_buff is Some ==> (gift matches SelfBuffGift::Spread { effects } ==> gift_effects(
            plan,
            gift,
            rows,
            uid,
        ) == effects_view(effects@)),
        plan.self_buff matches Some(id) ==> (gift matches SelfBuffGift::Caster { stamp }
            ==> gift_effects(plan, gift, rows, uid) == seq![
            fresh_buff_add(rows, stamp.uid, stamp.params@, uid, uid, id, 1, 0),
        ]),
{
}

/// How a new circle is told.
pub proof fn how_a_circle_is_told(uid: i64, circle_id: i32, round: i32)
    ensures
        circle_add_effect(uid, circle_id, round) == (EffectView {
            effect_type: Some(EffectType::MagicCircleAdd),
            target_id: Some(uid),
            effect_num: Some(0),
            reserve_id: Some(circle_id as i64),
            magic_circle: Some(
                MagicCircleInfo {
                    magic_circle_id: Some(circle_id),
                    round: Some(round),
                    create_uid: Some(uid),
                    electric_level: Some(0),
                    electric_progress: Some(0),
                    max_electric_progress: Some(0),
                },
            ),
            ..nothing_set()
        }),
{
}

/// The circle that is active is the one on the field, while it has rounds.
pub proof fn which_circle_is_active(f: FightView, rows: Seq<MagicCircleRow>)
    ensures
        f.magic_circle is None ==> active_row(f, rows) is None,
        f.magic_circle matches Some(c) ==> {
            let active = c.magic_circle_id is Some && c.round is Some && c.round->0 != 0;
            &&& active ==> active_row(f, rows) == row_at(rows, c.magic_circle_id->0)
            &&& !active ==> active_row(f, rows) is None
        },
{
}

/// A circle lists a skill if one of the pieces of its list is the number of it.
pub proof fn which_skills_a_circle_lists(row: MagicCircleRow, skill_id: i32)
    ensures
        lists_self_skill(row, skill_id) <==> exists|k: int|
            0 <= k < list_pieces(row.self_skills@).len() && number(
                trimmed(#[trigger] list_pieces(row.self_skills@)[k]),
            ) == Some(skill_id),
{
}

/// An effect carries the skill of a step itself, by the same fighter.
pub open spec fn repeats_the_step(host: StepView, e: EffectView) -> bool {
    e.effect_type == Some(EffectType::FightStep) && e.fight_step is Some
        && e.fight_step->0.act_type == Some(ActType::Skill) && e.fight_step->0.act_id == host.act_id
        && e.fight_step->0.from_id == host.from_id
}

/// The first effect that carries the skill of the step itself.
pub proof fn the_first_that_repeats_the_step(
    host: StepView,
    s: Seq<EffectView>,
)
    ensures
        root_child_in(host, s) is None <==> forall|i: int| 0 <= i < s.len() ==> !(repeats_the_step(host, (#[trigger] s[i]))),
        root_child_in(host, s) matches Some(n) ==> n < s.len() && repeats_the_step(host, s[n as int]) && forall|j: int|
            0 <= j < n ==> !(repeats_the_step(host, (#[trigger] s[j]))),
    decreases s.len(),
{
    if s.len() > 0 {
        let rest = s.skip(1);
        the_first_that_repeats_the_step(host, rest);
        assert forall|i: int| 0 < i < s.len() implies rest[i - 1] == #[trigger] s[i] by {}
        if !(repeats_the_step(host, s[0])) && root_child_in(host, rest) is Some {
            let n = root_child_in(host, rest)->0;
            assert(rest[n as int] == s[n as int + 1]);
            assert forall|j: int| 0 <= j < n + 1 implies !(repeats_the_step(host, (#[trigger] s[j]))) by {
                if j > 0 {
                    assert(rest[j - 1] == s[j]);
                }
            }
        }
        if root_child_in(host, s) is None {
            assert forall|i: int| 0 <= i < s.len() implies !(repeats_the_step(host, (#[trigger] s[i]))) by {
                if i > 0 {
                    assert(rest[i - 1] == s[i]);
                }
            }
        }
    }
}

/// A step without a skill or a fighter repeats nothing. A skill is carried if some effect
/// carries a step with its id.
pub proof fn what_a_step_repeats(host: StepView, s: Seq<EffectView>, skill_id: i32)
    ensures
        host.act_id is None || host.from_id is None ==> root_child(host) is None,
        host.act_id is Some && host.from_id is Some ==> root_child(host) == root_child_in(
            host,
            host.act_effect,
        ),
        carries_skill(s, skill_id) <==> exists|i: int|
            0 <= i < s.len() && (#[trigger] s[i]).fight_step is Some && s[i].fight_step->0.act_id
                == Some(skill_id),
{
}

/// Two ids have the same sign.
pub open spec fn together(a: i64, b: i64) -> bool {
    (a > 0 && b > 0) || (a < 0 && b < 0) || (a == 0 && b == 0)
}

/// The aura of a circle answers a skill of the creator's side, unless the skill is the
/// aura's own or already carries it, and only if it dealt damage or repeats itself against
/// the other side. It is aimed at whom the skill was used on, if that is on the other side,
/// and else at the primary target.
pub proof fn when_the_aura_answers(
    f: FightView,
    rows: Seq<MagicCircleRow>,
    host: StepView,
    uid: i64,
    dealt_damage: bool,
    primary: i64,
)
    ensures
        ({
            let r = aura(f, rows, host, uid, dealt_damage, primary);
            let creator = f.magic_circle->0.create_uid;
            let skill = positive_id(active_row(f, rows)->0.self_skills@);
            let against = host.to_id is Some && host.to_id->0 != 0 && !together(host.to_id->0, uid);
            let circled = f.magic_circle is Some && creator is Some && creator->0 != 0 && together(
                creator->0,
                uid,
            ) && active_row(f, rows) is Some && skill is Some;
            &&& r is Some <==> uid != 0 && host.act_type == Some(ActType::Skill) && circled
                && host.act_id != skill && !carries_skill(host.act_effect, skill->0) && (dealt_damage
                || (against && root_child(host) is Some))
            &&& r is Some ==> Some((r->0).0) == skill
            &&& r is Some && against ==> (r->0).1 == host.to_id->0
            &&& r is Some && !against ==> (r->0).1 == primary
        }),
{
}

proof fn what_followups_led_to_join(
    a: Seq<Option<Seq<EffectView>>>,
    b: Seq<Option<Seq<EffectView>>>,
)
    ensures
        led_to(a + b) == led_to(a) + led_to(b),
    decreases b.len(),
{
    if b.len() == 0 {
        assert(a + b =~= a);
        assert(led_to(a) + led_to(b) =~= led_to(a));
    } else {
        what_followups_led_to_join(a, b.drop_last());
        assert((a + b).drop_last() =~= a + b.drop_last());
        assert((a + b).last() == b.last());
        assert(led_to(a + b) =~= led_to(a) + led_to(b));
    }
}

/// Followups led to the steps that their effects carry; one that was not played led to nothing.
pub proof fn what_followups_led_to(
    a: Seq<Option<Seq<EffectView>>>,
    b: Seq<Option<Seq<EffectView>>>,
    x: Option<Seq<EffectView>>,
)
    ensures
        led_to(a + b) == led_to(a) + led_to(b),
        led_to(Seq::<Option<Seq<EffectView>>>::empty()).len() == 0,
        led_to(seq![x]) == (match x {
            Some(e) => wrappers(e),
            None => Seq::empty(),
        }),
{
    what_followups_led_to_join(a, b);
    let one = seq![x];
    assert(one.drop_last() =~= Seq::<Option<Seq<EffectView>>>::empty());
    assert(one.last() == x);
    assert(led_to(one.drop_last()).len() == 0);
    assert(led_to(seq![x]) =~= (match x {
            Some(e) => wrappers(e),
            None => Seq::empty(),
        }));
}

proof fn skill_paths_first(s: Seq<EffectView>, x: EffectView, n: nat)
    requires
        n <= s.len(),
    ensures
        skill_paths_upto(s.push(x), n) == skill_paths_upto(s, n),
    decreases n,
{
    if n > 0 {
        skill_paths_first(s, x, (n - 1) as nat);
        assert(s.push(x)[n - 1] == s[n - 1]);
    }
}

/// The paths to skills within effects, effect by effect: to a step that is a skill, and then
/// to the skills within it.
pub proof fn paths_to_skills(s: Seq<EffectView>, x: EffectView)
    ensures
        skill_paths(Seq::empty()).len() == 0,
        x.fight_step is None ==> skill_paths(s.push(x)) == skill_paths(s),
        x.fight_step matches Some(child) ==> {
            let inner = under(s.len() as int, skill_paths(child.act_effect));
            &&& child.act_type == Some(ActType::Skill) ==> skill_paths(s.push(x)) == skill_paths(
                s,
            ).push(seq![s.len() as int]) + inner
            &&& child.act_type != Some(ActType::Skill) ==> skill_paths(s.push(x)) == skill_paths(s)
                + inner
        },
{
    skill_paths_first(s, x, s.len());
    assert(s.push(x)[s.len() as int] == x);
    if x.fight_step is Some {
        let n = s.len() as int;
        let inner = under(n, skill_paths(x.fight_step->0.act_effect));
        assert(skill_paths(s) + seq![seq![n]] + inner =~= skill_paths(s).push(seq![n]) + inner);
        assert(skill_paths(s) + Seq::<Seq<int>>::empty() + inner =~= skill_paths(s) + inner);
    }
}

/// A path below an effect begins with its place.
pub proof fn paths_below_an_effect(i: int, paths: Seq<Seq<int>>, k: int)
    ensures
        under(i, paths).len() == paths.len(),
        0 <= k < paths.len() ==> under(i, paths)[k].len() == paths[k].len() + 1 && under(
            i,
            paths,
        )[k][0] == i && under(i, paths)[k].skip(1) == paths[k],
{
    if 0 <= k < paths.len() {
        assert(under(i, paths)[k].skip(1) =~= paths[k]);
    }
}

/// A path leads from carried step to carried step.
pub proof fn where_a_path_leads(s: StepView, path: Seq<int>, i: int)
    ensures
        path_leads(s, Seq::empty()),
        step_on_path(s, Seq::empty()) == s,
        path_leads(s, seq![i] + path) <==> 0 <= i < s.act_effect.len()
            && s.act_effect[i].fight_step is Some && path_leads(
            s.act_effect[i].fight_step->0,
            path,
        ),
        step_on_path(s, seq![i] + path) == step_on_path(s.act_effect[i].fight_step->0, path),
{
    assert((seq![i] + path).skip(1) =~= path);
    assert((seq![i] + path)[0] == i);
}

/// What is spliced in at the end of a path changes the step there and nothing else.
pub proof fn splicing_at_the_end_of_a_path(
    s: StepView,
    path: Seq<int>,
    at: int,
    more: Seq<EffectView>,
)
    requires
        path_leads(s, path),
    ensures
        ({
            let t = spliced_on_path(s, path, at, more);
            &&& path_leads(t, path)
            &&& step_on_path(t, path) == (StepView {
                act_effect: spliced(step_on_path(s, path).act_effect, at, more),
                ..step_on_path(s, path)
            })
            &&& t == (StepView { act_effect: t.act_effect, ..s })
            &&& path.len() > 0 ==> t.act_effect.len() == s.act_effect.len() && forall|j: int|
                0 <= j < s.act_effect.len() && j != path[0] ==> #[trigger] t.act_effect[j]
                    == s.act_effect[j]
        }),
    decreases path.len(),
{
    if path.len() > 0 {
        splicing_at_the_end_of_a_path(
            s.act_effect[path[0]].fight_step->0,
            path.skip(1),
            at,
            more,
        );
    }
}

/// The first effect that adds a circle.
pub proof fn where_the_circle_is_added(
    s: Seq<EffectView>,
)
    ensures
        circle_position(s) is None <==> forall|i: int| 0 <= i < s.len() ==> !((#[trigger] s[i]).effect_type == Some(EffectType::MagicCircleAdd)),
        circle_position(s) matches Some(n) ==> n < s.len() && s[n as int].effect_type == Some(EffectType::MagicCircleAdd) && forall|j: int|
            0 <= j < n ==> !((#[trigger] s[j]).effect_type == Some(EffectType::MagicCircleAdd)),
    decreases s.len(),
{
    if s.len() > 0 {
        let rest = s.skip(1);
        where_the_circle_is_added(rest);
        assert forall|i: int| 0 < i < s.len() implies rest[i - 1] == #[trigger] s[i] by {}
        if !(s[0].effect_type == Some(EffectType::MagicCircleAdd)) && circle_position(rest) is Some {
            let n = circle_position(rest)->0;
            assert(rest[n as int] == s[n as int + 1]);
            assert forall|j: int| 0 <= j < n + 1 implies !((#[trigger] s[j]).effect_type == Some(EffectType::MagicCircleAdd)) by {
                if j > 0 {
                    assert(rest[j - 1] == s[j]);
                }
            }
        }
        if circle_position(s) is None {
            assert forall|i: int| 0 <= i < s.len() implies !((#[trigger] s[i]).effect_type == Some(EffectType::MagicCircleAdd)) by {
                if i > 0 {
                    assert(rest[i - 1] == s[i]);
                }
            }
        }
    }
}

/// Only skills behind the circle take part, each of them.
pub proof fn skills_behind_the_circle(s: Seq<EffectView>, p: Seq<int>)
    ensures
        circle_position(s) is None ==> paths_behind_circle(s).len() == 0,
        circle_position(s) matches Some(i) ==> (paths_behind_circle(s).contains(p) <==> skill_paths(
            s,
        ).contains(p) && p[0] > i),
{
    if circle_position(s) is Some {
        let i = circle_position(s)->0;
        let behind = |p: Seq<int>| p[0] > i;
        filtered_are_members(skill_paths(s), behind, p);
    }
}

proof fn filtered_are_members(s: Seq<Seq<int>>, behind: spec_fn(Seq<int>) -> bool, p: Seq<int>)
    ensures
        s.filter(behind).contains(p) ==> s.contains(p) && behind(p),
        s.contains(p) && behind(p) ==> s.filter(behind).contains(p),
{
    broadcast use vstd::seq_lib::group_filter_ensures;

    if s.filter(behind).contains(p) {
        let t = s.filter(behind);
        let k = choose|k: int| 0 <= k < t.len() && t[k] == p;
        assert(behind(t[k]));
        s.lemma_filter_contains_rev(behind, p);
    }
    if s.contains(p) && behind(p) {
        let k = choose|k: int| 0 <= k < s.len() && s[k] == p;
        assert(s.filter(behind).contains(s[k]));
    }
}

/// Paths and results are seen one by one.
pub proof fn how_paths_are_seen(
    p: Seq<usize>,
    v: Seq<Vec<usize>>,
    r: Seq<Option<Vec<ActEffect>>>,
    from: int,
    i: int,
)
    ensures
        path_view(p).len() == p.len(),
        0 <= i < p.len() ==> path_view(p)[i] == p[i],
        0 <= from <= p.len() ==> rest_of(p, from).len() == p.len() - from,
        0 <= from <= p.len() && 0 <= i < p.len() - from ==> rest_of(p, from)[i] == p[from + i],
        paths_view(v).len() == v.len(),
        0 <= i < v.len() ==> paths_view(v)[i] == path_view(v[i]@),
        results_view(r).len() == r.len(),
        0 <= i < r.len() ==> (results_view(r)[i] is Some <==> r[i] is Some),
        0 <= i < r.len() && r[i] is Some ==> results_view(r)[i]->0 == effects_view(r[i]->0@),
{
}

/// A fighter's own life, and the id of a buff that it holds; zero if there is none.
pub proof fn what_the_cloak_reads(f: FightView, buffs: BuffMgr, uid: i64, buff_id: i32)
    ensures
        entity_of(f, uid) is None ==> attr_hp(f, uid) == 0,
        entity_of(f, uid) matches Some(e) ==> (e.attr is Some && e.attr->0.hp is Some ==> attr_hp(
            f,
            uid,
        ) == e.attr->0.hp->0) && (e.attr is None || e.attr->0.hp is None ==> attr_hp(f, uid) == 0),
        first_buff(buffs.of(uid), buff_id) is Some ==> buff_uid_of(buffs, uid, buff_id)
            == first_buff(buffs.of(uid), buff_id)->0.uid,
        first_buff(buffs.of(uid), buff_id) is None ==> buff_uid_of(buffs, uid, buff_id) == 0,
{
}

/// What the cloak tells of one fighter: its life, the gain and the limit, and its own life
/// with all that the cloak gathered.
pub open spec fn cloak_told(
    t: Seq<EffectView>,
    c: ShadowCloakState,
    settings: CloakSettings,
    f: FightView,
    buffs: BuffMgr,
    m: EntityMgrView,
    uid: i64,
) -> bool {
    &&& t.len() == 3
    &&& says(t[0], EffectType::CurrentHpChange, uid, entry(m.current_hp, uid))
    &&& t[1] == (EffectView {
        effect_type: Some(EffectType::BuffActInfoUpdate),
        target_id: Some(uid),
        reserve_id: Some(buff_uid_of(buffs, uid, settings.accumulator_buff_id)),
        buff_act_info: Some(
            BuffActInfoView {
                act_id: Some(1042),
                param: seq![c.last_gain_shared, settings.max_capacity],
            },
        ),
        ..nothing_set()
    })
    &&& fits(attr_hp(f, uid) + c.total_shared) ==> t[2] == (EffectView {
        effect_type: Some(EffectType::MaxHpChange),
        target_id: Some(uid),
        effect_num: Some((attr_hp(f, uid) + c.total_shared) as i32),
        buff_act_id: Some(1042),
        ..nothing_set()
    })
}

/// The cloak tells of everyone in turn who has an id.
pub proof fn what_the_cloak_tells(
    c: ShadowCloakState,
    settings: CloakSettings,
    f: FightView,
    buffs: BuffMgr,
    m: EntityMgrView,
    team: Seq<EntityView>,
    e: EntityView,
)
    ensures
        cloak_effects(c, settings, f, buffs, m, Seq::empty()).len() == 0,
        e.uid is None ==> cloak_effects(c, settings, f, buffs, m, team.push(e)) == cloak_effects(
            c,
            settings,
            f,
            buffs,
            m,
            team,
        ),
        e.uid is Some ==> exists|t: Seq<EffectView>|
            cloak_effects(c, settings, f, buffs, m, team.push(e)) == cloak_effects(
                c,
                settings,
                f,
                buffs,
                m,
                team,
            ) + t && #[trigger] cloak_told(t, c, settings, f, buffs, m, e.uid->0),
{
    assert(team.push(e).drop_last() =~= team);
    let before = cloak_effects(c, settings, f, buffs, m, team);
    assert(before + Seq::<EffectView>::empty() =~= before);
    if e.uid is Some {
        let t = crate::mechanics::shadowcloak::cloak_effects_of(
            c,
            settings,
            f,
            buffs,
            m,
            e.uid->0,
        );
        assert(cloak_told(t, c, settings, f, buffs, m, e.uid->0));
    }
}

/// A cloak that gained nothing tells nothing; else it tells of the attackers on the field,
/// provided that the numbers are in range.
pub proof fn when_the_cloak_tells(
    c: ShadowCloakState,
    settings: CloakSettings,
    f: FightView,
    buffs: BuffMgr,
    m: EntityMgrView,
)
    ensures
        c.last_gain_shared == 0 ==> cloak_sync(c, settings, f, buffs, m).len() == 0,
        f.attacker is None ==> cloak_sync(c, settings, f, buffs, m).len() == 0,
        c.last_gain_shared != 0 && f.attacker is Some ==> cloak_sync(c, settings, f, buffs, m)
            == cloak_effects(c, settings, f, buffs, m, f.attacker->0.entitys),
        f.attacker is Some ==> (cloak_fits(c, f) <==> forall|i: int|
            0 <= i < f.attacker->0.entitys.len() && (#[trigger] f.attacker->0.entitys[i]).uid
                is Some ==> fits(attr_hp(f, f.attacker->0.entitys[i].uid->0) + c.total_shared)),
{
    if f.attacker is None {
        assert(cloak_effects(c, settings, f, buffs, m, Seq::empty()).len() == 0);
    }
}

} // verus!
