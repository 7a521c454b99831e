//! Poison that a magic circle settles at the start of a round, before anyone acts.

use crate::arith::{or_zero, or_zero64, value, value64};
use crate::config::{
    effect_of_skill, find_row, resolve_skill_effect_id, row_at, MagicCircleRow, SkillEffectRow,
    SkillLinkRow, SlotRow,
};
use crate::buffs::BuffMgr;
use crate::effect::behavior::damage::{poisons_of, target_poisons, DotRow};
use crate::effect::behavior::dot_settle::{
    settle_damage, settle_effects, settle_view, settled_all,
};
use crate::effect::parser::first_twenty;
use crate::fight_step::builder::{effect_container_step, wrap_step};
use crate::fight_step::steps::{make_skill_step, skill_step, steps_view};
use crate::lookup::{everyone, members};
use crate::mechanics::channel::{read_trimmed, same_side, side, trimmed_number};
use crate::mechanics::magic_circle::{active_circle_row, active_row};
use crate::model::lists::group_effects_view;
use crate::model::{
    effects_view, entities_view, ActEffect, EffectView, EntityView, Fight, FightEntityInfo,
    FightStep, FightTeam, FightView, StepView,
};
use crate::text::{
    list_pieces, number, parse_number, pieces, split_list, split_text, texts_view, trim_text,
    trimmed,
};
use vstd::prelude::*;

verus! {

broadcast use group_effects_view;

/// Whether one of some slots settles poison.
pub open spec fn slots_settle(slots: Seq<SlotRow>) -> bool {
    exists|k: int|
        0 <= k < slots.len() && trimmed_number(
            pieces((#[trigger] slots[k]).behavior@, '#'),
            0,
        ) == Some(60073i32)
}

/// The tables that tell which skills settle poison. `round_start_only` lists the
/// skills all of whose conditions speak of the start of a round.
pub struct SettleTables {
    pub skills: Vec<SkillEffectRow>,
    pub links: Vec<SkillLinkRow>,
    pub round_start_only: Vec<i32>,
}

impl SettleTables {
    /// Whether a skill settles poison at the start of a round.
    pub open spec fn settles(&self, skill_id: i32) -> bool {
        &&& self.round_start_only@.contains(skill_id)
        &&& match row_at(self.skills@, effect_of_skill(self.links@, skill_id)) {
            Some(row) => slots_settle(first_twenty(row.slots@)),
            None => false,
        }
    }

    /// Tests whether a skill settles poison at the start of a round.
    pub fn is_round_start_settle_skill(&self, skill_id: i32) -> (r: bool)
        ensures
            r == self.settles(skill_id),
    {
        if !has_id(&self.round_start_only, skill_id) {
            return false;
        }
        match find_row(&self.skills, resolve_skill_effect_id(&self.links, skill_id)) {
            Some(row) => {
                let n: usize = if row.slots.len() > 20 {
                    20
                } else {
                    row.slots.len()
                };
                let ghost lead = first_twenty(row.slots@);
                for i in 0..n
                    invariant
                        n == lead.len(),
                        n <= row.slots@.len(),
                        lead == first_twenty(row.slots@),
                        self.round_start_only@.contains(skill_id),
                        row_at(self.skills@, effect_of_skill(self.links@, skill_id)) == Some(*row),
                        forall|k: int| 0 <= k < n ==> lead[k] == row.slots@[k],
                        forall|k: int|
                            0 <= k < i ==> trimmed_number(
                                pieces((#[trigger] lead[k]).behavior@, '#'),
                                0,
                            ) != Some(60073i32),
                {
                    let parts = split_text(row.slots[i].behavior.as_str(), '#');
                    assert(lead[i as int] == row.slots@[i as int]);
                    if let Some(id) = read_trimmed(&parts, 0) {
                        if id == 60073 {
                            return true;
                        }
                    }
                }
                false
            },
            None => false,
        }
    }
}

fn has_id(ids: &Vec<i32>, id: i32) -> (r: bool)
    ensures
        r == ids@.contains(id),
{
    for i in 0..ids.len()
        invariant
            forall|k: int| 0 <= k < i ==> ids@[k] != id,
    {
        if ids[i] == id {
            return true;
        }
    }
    false
}

/// The settling skills that some entries name, each once, in the order of their
/// first entry.
pub open spec fn settling(t: SettleTables, entries: Seq<Seq<char>>) -> Seq<i32>
    decreases entries.len(),
{
    if entries.len() == 0 {
        Seq::empty()
    } else {
        let before = settling(t, entries.drop_last());
        match number(trimmed(entries.last())) {
            Some(id) => if id > 0 && t.settles(id) && !before.contains(id) {
                before.push(id)
            } else {
                before
            },
            None => before,
        }
    }
}

/// The settling skills of the circle on the field, if anyone laid it.
pub open spec fn circle_settles(f: FightView, t: SettleTables, rows: Seq<MagicCircleRow>) -> Seq<
    i32,
> {
    match active_row(f, rows) {
        Some(row) => if circle_owner(f) == 0 {
            Seq::empty()
        } else {
            settling(t, list_pieces(row.enemy_skills@))
        },
        None => Seq::empty(),
    }
}

/// Who laid the circle on the field; zero if there is none.
pub open spec fn circle_owner(f: FightView) -> i64 {
    match f.magic_circle {
        Some(c) => or_zero64(c.create_uid),
        None => 0,
    }
}

/// Looks up who laid the circle on the field.
pub fn find_circle_owner(fight: &Fight) -> (r: i64)
    ensures
        r == circle_owner(fight@),
{
    match fight.magic_circle {
        Some(c) => value64(c.create_uid),
        None => 0,
    }
}

/// Lists the settling skills of the circle on the field.
pub fn settle_skill_ids(fight: &Fight, tables: &SettleTables, rows: &Vec<MagicCircleRow>) -> (r:
    Vec<i32>)
    ensures
        r@ == circle_settles(fight@, *tables, rows@),
{
    let mut out: Vec<i32> = Vec::new();
    if let Some(row) = active_circle_row(fight, rows) {
        if find_circle_owner(fight) != 0 {
            let entries = split_list(row.enemy_skills.as_str());
            let ghost ps = list_pieces(row.enemy_skills@);
            assert(ps.take(0).len() == 0);
            for i in 0..entries.len()
                invariant
                    texts_view(entries@) == ps,
                    out@ == settling(*tables, ps.take(i as int)),
            {
                assert(ps.take(i + 1).drop_last() =~= ps.take(i as int));
                assert(ps.take(i + 1).last() == entries@[i as int]@);
                let entry = trim_text(entries[i].as_str());
                if let Some(id) = parse_number(entry.as_str()) {
                    if id > 0 && tables.is_round_start_settle_skill(id) && !has_id(&out, id) {
                        out.push(id);
                    }
                }
            }
            assert(ps.take(ps.len() as int) =~= ps);
        }
    }
    out
}

/// The living fighters of a list on another side than an id.
pub open spec fn hostile(s: Seq<EntityView>, owner_uid: i64) -> Seq<i64>
    decreases s.len(),
{
    if s.len() == 0 {
        Seq::empty()
    } else {
        let before = hostile(s.drop_last(), owner_uid);
        match s.last().uid {
            Some(uid) => if side(uid) != side(owner_uid) && or_zero(s.last().current_hp) > 0 {
                before.push(uid)
            } else {
                before
            },
            None => before,
        }
    }
}

proof fn hostile_join(a: Seq<EntityView>, b: Seq<EntityView>, owner_uid: i64)
    ensures
        hostile(a + b, owner_uid) == hostile(a, owner_uid) + hostile(b, owner_uid),
    decreases b.len(),
{
    if b.len() == 0 {
        assert(a + b =~= a);
        assert(hostile(a, owner_uid) + hostile(b, owner_uid) =~= hostile(a, owner_uid));
    } else {
        hostile_join(a, b.drop_last(), owner_uid);
        assert((a + b).drop_last() =~= a + b.drop_last());
        assert(hostile(a + b, owner_uid) =~= hostile(a, owner_uid) + hostile(b, owner_uid));
    }
}

fn push_hostile(v: &Vec<FightEntityInfo>, owner_uid: i64, out: &mut Vec<i64>)
    ensures
        final(out)@ == old(out)@ + hostile(entities_view(v@), owner_uid),
{
    let ghost start = out@;
    let ghost s = entities_view(v@);
    assert(start + hostile(s.take(0), owner_uid) =~= start);
    for i in 0..v.len()
        invariant
            s == entities_view(v@),
            out@ == start + hostile(s.take(i as int), owner_uid),
    {
        assert(s.take(i + 1).drop_last() =~= s.take(i as int));
        assert(s.take(i + 1).last() == v@[i as int]@);
        if let Some(uid) = v[i].uid {
            if !same_side(uid, owner_uid) && value(v[i].current_hp) > 0 {
                out.push(uid);
            }
        }
        assert(out@ =~= start + hostile(s.take(i + 1), owner_uid));
    }
    assert(s.take(s.len() as int) =~= s);
}

fn push_hostile_team(t: &Option<FightTeam>, owner_uid: i64, out: &mut Vec<i64>)
    ensures
        final(out)@ == old(out)@ + hostile(
            members(
                match t {
                    Some(x) => Some(x@),
                    None => None,
                },
            ),
            owner_uid,
        ),
{
    let ghost start = out@;
    match t {
        Some(x) => {
            push_hostile(&x.entitys, owner_uid, out);
            push_hostile(&x.sub_entitys, owner_uid, out);
            proof {
                hostile_join(
                    entities_view(x.entitys@),
                    entities_view(x.sub_entitys@),
                    owner_uid,
                );
            }
            assert(out@ =~= start + hostile(members(Some(x@)), owner_uid));
        },
        None => {
            assert(out@ =~= start + hostile(members(None), owner_uid));
        },
    }
}

/// Lists the living fighters on another side than an id.
pub fn iter_hostile_alive_uids(fight: &Fight, owner_uid: i64) -> (r: Vec<i64>)
    ensures
        r@ == hostile(everyone(fight@), owner_uid),
{
    let mut out: Vec<i64> = Vec::new();
    push_hostile_team(&fight.attacker, owner_uid, &mut out);
    push_hostile_team(&fight.defender, owner_uid, &mut out);
    proof {
        hostile_join(members(fight@.attacker), members(fight@.defender), owner_uid);
    }
    assert(out@ =~= hostile(everyone(fight@), owner_uid));
    out
}

/// The settling of some damage on a carrier by each of some skills.
pub open spec fn settled_by(f: FightView, carrier: i64, damage: i32, skills: Seq<i32>) -> Seq<
    EffectView,
>
    decreases skills.len(),
{
    if skills.len() == 0 {
        Seq::empty()
    } else {
        settled_by(f, carrier, damage, skills.drop_last()).push(
            EffectView::wrapper(
                skill_step(carrier, carrier, skills.last(), 0, settle_view(f, carrier, damage)),
            ),
        )
    }
}

/// The settling on some carriers; one without damage is passed over.
pub open spec fn settled_on(
    f: FightView,
    carriers: Seq<i64>,
    totals: Seq<i32>,
    skills: Seq<i32>,
) -> Seq<EffectView>
    decreases carriers.len(),
{
    if carriers.len() == 0 {
        Seq::empty()
    } else {
        let i = carriers.len() - 1;
        let before = settled_on(f, carriers.drop_last(), totals, skills);
        if totals[i] <= 0 {
            before
        } else {
            before + settled_by(f, carriers[i], totals[i], skills)
        }
    }
}

/// The steps that settle poison at the start of a round: one step for all of it, or
/// none at all.
pub open spec fn settle_steps(
    f: FightView,
    carriers: Seq<i64>,
    totals: Seq<i32>,
    skills: Seq<i32>,
) -> Seq<StepView> {
    let shown = settled_on(f, carriers, totals, skills);
    if shown.len() == 0 {
        Seq::empty()
    } else {
        seq![StepView::container(0, 0, 0, shown)]
    }
}

/// Shows the settling on some carriers. `totals` is the damage that settles on each.
pub fn show_settled(
    fight: &Fight,
    carriers: &Vec<i64>,
    totals: &Vec<i32>,
    skills: &Vec<i32>,
) -> (r: Vec<FightStep>)
    requires
        totals@.len() == carriers@.len(),
    ensures
        steps_view(r@) == settle_steps(fight@, carriers@, totals@, skills@),
{
    let mut shown: Vec<ActEffect> = Vec::new();
    assert(effects_view(shown@) =~= settled_on(fight@, carriers@.take(0), totals@, skills@));
    for i in 0..carriers.len()
        invariant
            totals@.len() == carriers@.len(),
            effects_view(shown@) == settled_on(fight@, carriers@.take(i as int), totals@, skills@),
    {
        assert(carriers@.take(i + 1).drop_last() =~= carriers@.take(i as int));
        assert(carriers@.take(i + 1)[i as int] == carriers@[i as int]);
        let carrier: i64 = carriers[i];
        let damage: i32 = totals[i];
        if damage > 0 {
            let ghost start = effects_view(shown@);
            assert(start + settled_by(fight@, carrier, damage, skills@.take(0)) =~= start);
            for j in 0..skills.len()
                invariant
                    effects_view(shown@) == start + settled_by(
                        fight@,
                        carrier,
                        damage,
                        skills@.take(j as int),
                    ),
            {
                assert(skills@.take(j + 1).drop_last() =~= skills@.take(j as int));
                let effects = settle_effects(fight, carrier, damage);
                shown.push(wrap_step(make_skill_step(carrier, carrier, skills[j], 0, effects)));
                assert(effects_view(shown@) =~= start + settled_by(
                    fight@,
                    carrier,
                    damage,
                    skills@.take(j + 1),
                ));
            }
            assert(skills@.take(skills@.len() as int) =~= skills@);
        }
    }
    assert(carriers@.take(carriers@.len() as int) =~= carriers@);
    let mut out: Vec<FightStep> = Vec::new();
    if shown.len() > 0 {
        out.push(effect_container_step(0, 0, 0, shown));
    }
    assert(steps_view(out@) =~= settle_steps(fight@, carriers@, totals@, skills@));
    out
}

/// Who may carry poison that settles: the living fighters on another side than the
/// one who laid the circle, if the circle has a settling skill.
pub open spec fn carriers_of(f: FightView, t: SettleTables, rows: Seq<MagicCircleRow>) -> Seq<
    i64,
> {
    if circle_settles(f, t, rows).len() == 0 {
        Seq::empty()
    } else {
        hostile(everyone(f), circle_owner(f))
    }
}

/// Lists who may carry poison that settles.
pub fn settle_carriers(fight: &Fight, tables: &SettleTables, rows: &Vec<MagicCircleRow>) -> (r: Vec<
    i64,
>)
    ensures
        r@ == carriers_of(fight@, *tables, rows@),
{
    if settle_skill_ids(fight, tables, rows).len() == 0 {
        return Vec::new();
    }
    iter_hostile_alive_uids(fight, find_circle_owner(fight))
}

/// There is one fixed damage for each poison of each carrier.
pub open spec fn fixes_match(
    f: FightView,
    dots: Seq<DotRow>,
    buffs: BuffMgr,
    carriers: Seq<i64>,
    fixed: Seq<Vec<i32>>,
) -> bool {
    &&& fixed.len() == carriers.len()
    &&& forall|i: int|
        0 <= i < carriers.len() ==> (#[trigger] fixed[i])@.len() == poisons_of(
            f,
            dots,
            buffs.of(carriers[i]),
        ).len()
}

/// The damage that settles on each carrier, given the fixed damage of its poisons.
pub open spec fn totals_of(
    f: FightView,
    dots: Seq<DotRow>,
    buffs: BuffMgr,
    carriers: Seq<i64>,
    fixed: Seq<Vec<i32>>,
) -> Seq<i32> {
    Seq::new(
        carriers.len(),
        |i: int|
            settled_all(poisons_of(f, dots, buffs.of(carriers[i])), fixed[i]@) as i32,
    )
}

/// Settles the poison at the start of a round. `fixed` holds, for each carrier in
/// the order of [`settle_carriers`], the damage of each of its poisons after the
/// carrier's fixes.
pub fn build_round_start_dot_settle_steps(
    fight: &Fight,
    buffs: &BuffMgr,
    dots: &Vec<DotRow>,
    tables: &SettleTables,
    rows: &Vec<MagicCircleRow>,
    fixed: &Vec<Vec<i32>>,
) -> (r: Vec<FightStep>)
    requires
        fixes_match(
            fight@,
            dots@,
            *buffs,
            carriers_of(fight@, *tables, rows@),
            fixed@,
        ),
    ensures
        steps_view(r@) == settle_steps(
            fight@,
            carriers_of(fight@, *tables, rows@),
            totals_of(fight@, dots@, *buffs, carriers_of(fight@, *tables, rows@), fixed@),
            circle_settles(fight@, *tables, rows@),
        ),
{
    let skills = settle_skill_ids(fight, tables, rows);
    let carriers = settle_carriers(fight, tables, rows);
    let ghost goal = totals_of(fight@, dots@, *buffs, carriers@, fixed@);
    let mut totals: Vec<i32> = Vec::new();
    for i in 0..carriers.len()
        invariant
            fixes_match(fight@, dots@, *buffs, carriers@, fixed@),
            goal == totals_of(fight@, dots@, *buffs, carriers@, fixed@),
            totals@ == goal.take(i as int),
    {
        let hits = target_poisons(fight, buffs, dots, carriers[i]);
        assert(fixed@[i as int]@.len() == hits@.len());
        totals.push(settle_damage(&hits, &fixed[i]));
        assert(totals@ =~= goal.take(i + 1));
    }
    assert(totals@ =~= goal);
    show_settled(fight, &carriers, &totals, &skills)
}

/// An effect wraps a skill step of a carrier on itself that holds the hit of its
/// damage and, if and only if the carrier dies of it, its death.
pub open spec fn settles_one(
    f: FightView,
    carriers: Seq<i64>,
    totals: Seq<i32>,
    skills: Seq<i32>,
    e: EffectView,
    i: int,
    j: int,
) -> bool {
    &&& 0 <= i < carriers.len()
    &&& 0 <= j < skills.len()
    &&& totals[i] > 0
    &&& e == EffectView::wrapper(
        skill_step(
            carriers[i],
            carriers[i],
            skills[j],
            0,
            settle_view(f, carriers[i], totals[i]),
        ),
    )
}

/// An effect settles some carrier by some skill.
pub open spec fn settles_some(
    f: FightView,
    carriers: Seq<i64>,
    totals: Seq<i32>,
    skills: Seq<i32>,
    e: EffectView,
) -> bool {
    exists|i: int, j: int| #[trigger] settles_one(f, carriers, totals, skills, e, i, j)
}

proof fn settled_by_each(f: FightView, carrier: i64, damage: i32, skills: Seq<i32>)
    ensures
        settled_by(f, carrier, damage, skills).len() == skills.len(),
        forall|j: int|
            0 <= j < skills.len() ==> #[trigger] settled_by(f, carrier, damage, skills)[j]
                == EffectView::wrapper(
                skill_step(carrier, carrier, skills[j], 0, settle_view(f, carrier, damage)),
            ),
    decreases skills.len(),
{
    if skills.len() > 0 {
        settled_by_each(f, carrier, damage, skills.drop_last());
    }
}

/// Whatever settles is shown as hits of carriers on themselves, each with the death
/// of the carrier if and only if it dies, and with nothing else.
pub proof fn settling_shows_hits_and_deaths(
    f: FightView,
    carriers: Seq<i64>,
    totals: Seq<i32>,
    skills: Seq<i32>,
)
    requires
        totals.len() == carriers.len(),
    ensures
        forall|k: int|
            0 <= k < settled_on(f, carriers, totals, skills).len() ==> settles_some(
                f,
                carriers,
                totals,
                skills,
                #[trigger] settled_on(f, carriers, totals, skills)[k],
            ),
    decreases carriers.len(),
{
    if carriers.len() > 0 {
        let n = carriers.len() - 1;
        let fewer = carriers.drop_last();
        let before = settled_on(f, fewer, totals.take(n), skills);
        settled_on_prefix(f, fewer, totals, totals.take(n), skills);
        settling_shows_hits_and_deaths(f, fewer, totals.take(n), skills);
        settled_by_each(f, carriers[n], totals[n], skills);
        let all = settled_on(f, carriers, totals, skills);
        assert forall|k: int| 0 <= k < all.len() implies settles_some(
            f,
            carriers,
            totals,
            skills,
            #[trigger] all[k],
        ) by {
            if k < before.len() {
                assert(all[k] == before[k]);
                assert(settles_some(f, fewer, totals.take(n), skills, before[k]));
                let (i, j) = choose|i: int, j: int|
                    settles_one(f, fewer, totals.take(n), skills, before[k], i, j);
                assert(settles_one(f, carriers, totals, skills, all[k], i, j));
            } else {
                assert(settles_one(f, carriers, totals, skills, all[k], n, k - before.len()));
            }
        }
    }
}

proof fn settled_on_prefix(
    f: FightView,
    carriers: Seq<i64>,
    a: Seq<i32>,
    b: Seq<i32>,
    skills: Seq<i32>,
)
    requires
        a.len() >= carriers.len(),
        b.len() >= carriers.len(),
        forall|i: int| 0 <= i < carriers.len() ==> a[i] == b[i],
    ensures
        settled_on(f, carriers, a, skills) == settled_on(f, carriers, b, skills),
    decreases carriers.len(),
{
    if carriers.len() > 0 {
        settled_on_prefix(f, carriers.drop_last(), a, b, skills);
    }
}

/// Nothing at all is shown if and only if there is no settling skill or no carrier
/// has damage that settles; otherwise there is one step.
pub proof fn settling_is_one_step_or_none(
    f: FightView,
    carriers: Seq<i64>,
    totals: Seq<i32>,
    skills: Seq<i32>,
)
    requires
        totals.len() == carriers.len(),
    ensures
        settle_steps(f, carriers, totals, skills).len() <= 1,
        settle_steps(f, carriers, totals, skills).len() == 0 <==> (skills.len() == 0 || forall|
            i: int,
        |
            0 <= i < carriers.len() ==> totals[i] <= 0),
    decreases carriers.len(),
{
    if carriers.len() > 0 {
        let n = carriers.len() - 1;
        let fewer = carriers.drop_last();
        settling_is_one_step_or_none(f, fewer, totals.take(n), skills);
        settled_on_prefix(f, fewer, totals, totals.take(n), skills);
        settled_by_each(f, carriers[n], totals[n], skills);
        assert(settled_on(f, carriers, totals, skills).len() == 0 <==> settled_on(
            f,
            fewer,
            totals,
            skills,
        ).len() == 0 && (totals[n] <= 0 || skills.len() == 0));
        assert(forall|i: int| 0 <= i < n ==> totals.take(n)[i] == totals[i]);
    }
}

} // verus!
