//! Ex points: their gain, and the damage rate that comes from spending them.

use crate::arith::{fits, sat_i32, saturating_product};
use crate::config::{
    effect_of_skill, find_row, first_ten, resolve_skill_effect_id, row_at, SkillEffectRow,
    SkillLinkRow, SlotRow,
};
use crate::event::Event;
use crate::manager::entity_mgr::{at_least_zero, entry, EntityMgr, EntityMgrView};
use crate::text::{after_prefix, begins_with, param, param_at};
use vstd::prelude::*;

verus! {

/// The fighters after each of some targets got ex points.
pub open spec fn gained(m: EntityMgrView, targets: Seq<i64>, delta: int) -> EntityMgrView
    decreases targets.len(),
{
    if targets.len() == 0 {
        m
    } else {
        let before = gained(m, targets.drop_last(), delta);
        EntityMgrView {
            ex_points: before.ex_points.insert(
                targets.last(),
                at_least_zero(entry(before.ex_points, targets.last()) + delta) as i32,
            ),
            ..before
        }
    }
}

/// Whether no sum on the way leaves the range.
pub open spec fn gains_fit(m: EntityMgrView, targets: Seq<i64>, delta: int) -> bool {
    forall|n: int|
        0 <= n < targets.len() ==> fits(
            entry(gained(m, targets.take(n), delta).ex_points, #[trigger] targets[n]) + delta,
        )
}

/// Gives ex points to each of some targets.
pub fn add_ex_points(mgr: &mut EntityMgr, targets: &Vec<i64>, raw: &str, count: i32) -> (r: Vec<
    Event,
>)
    requires
        fits(param(raw@, 1) * count),
        gains_fit(old(mgr)@, targets@, param(raw@, 1) * count),
    ensures
        final(mgr)@ == gained(old(mgr)@, targets@, param(raw@, 1) * count),
        r@ == targets@.map_values(
            |uid: i64|
                Event::ExPointChange {
                    target: uid,
                    delta: (param(raw@, 1) * count) as i32,
                    emit_step: true,
                },
        ),
{
    let amount = param_at(raw, 1);
    let delta: i32 = amount * count;
    let mut out: Vec<Event> = Vec::new();
    let ghost start = mgr@;
    assert(targets@.take(0).len() == 0);
    for i in 0..targets.len()
        invariant
            gains_fit(start, targets@, delta as int),
            mgr@ == gained(start, targets@.take(i as int), delta as int),
            out@ == targets@.take(i as int).map_values(
                |uid: i64| Event::ExPointChange { target: uid, delta, emit_step: true },
            ),
    {
        assert(targets@.take(i + 1).drop_last() =~= targets@.take(i as int));
        let uid: i64 = targets[i];
        assert(fits(
            entry(gained(start, targets@.take(i as int), delta as int).ex_points, targets@[i as int])
                + delta,
        ));
        mgr.add_ex_point(uid, delta);
        out.push(Event::ExPointChange { target: uid, delta, emit_step: true });
        assert(out@ =~= targets@.take(i + 1).map_values(
            |uid: i64| Event::ExPointChange { target: uid, delta, emit_step: true },
        ));
    }
    assert(targets@.take(targets@.len() as int) =~= targets@);
    assert(out@ =~= targets@.map_values(
        |uid: i64|
            Event::ExPointChange {
                target: uid,
                delta: (param(raw@, 1) * count) as i32,
                emit_step: true,
            },
    ));
    out
}

/// The rate of a slot that spends ex points.
pub open spec fn slot_rate(slot: SlotRow) -> i32 {
    if begins_with(slot.behavior@, "60174#"@) {
        param(slot.behavior@, 2)
    } else {
        0
    }
}

/// The first rate of some slots that is not zero; zero if there is none.
pub open spec fn first_rate(slots: Seq<SlotRow>) -> i32
    decreases slots.len(),
{
    if slots.len() == 0 {
        0
    } else if slot_rate(slots[0]) != 0 {
        slot_rate(slots[0])
    } else {
        first_rate(slots.skip(1))
    }
}

/// The rate for each ex point that a skill spends.
pub open spec fn rate_of_skill(
    rows: Seq<SkillEffectRow>,
    links: Seq<SkillLinkRow>,
    skill_id: i32,
) -> i32 {
    match row_at(rows, effect_of_skill(links, skill_id)) {
        Some(row) => first_rate(first_ten(row.slots@)),
        None => 0,
    }
}

/// Finds the rate for each ex point that a skill spends.
pub fn rate_per_point(rows: &Vec<SkillEffectRow>, links: &Vec<SkillLinkRow>, skill_id: i32) -> (r:
    i32)
    ensures
        r == rate_of_skill(rows@, links@, skill_id),
{
    match find_row(rows, resolve_skill_effect_id(links, skill_id)) {
        Some(row) => {
            let n: usize = if row.slots.len() > 10 {
                10
            } else {
                row.slots.len()
            };
            let ghost lead = first_ten(row.slots@);
            assert(lead.skip(0) =~= lead);
            let mut i: usize = 0;
            while i < n
                invariant
                    i <= n,
                    n == lead.len(),
                    n <= row.slots@.len(),
                    lead == first_ten(row.slots@),
                    row_at(rows@, effect_of_skill(links@, skill_id)) == Some(*row),
                    forall|k: int| 0 <= k < n ==> lead[k] == row.slots@[k],
                    first_rate(lead.skip(i as int)) == first_rate(lead),
                decreases n - i,
            {
                assert(lead.skip(i as int)[0] == row.slots@[i as int]);
                assert(lead.skip(i as int).skip(1) =~= lead.skip(i + 1));
                let behavior = row.slots[i].behavior.as_str();
                if let Some(_) = after_prefix(behavior, "60174#") {
                    let rate = param_at(behavior, 2);
                    if rate != 0 {
                        return rate;
                    }
                }
                i += 1;
            }
            0
        },
        None => 0,
    }
}

/// How many of the spent ex points count, between the bounds that a behaviour sets.
pub open spec fn usable(raw: Seq<char>, spent: i32) -> int {
    let points = at_least_zero(spent as int);
    if points < param(raw, 3) {
        param(raw, 3) as int
    } else if points > param(raw, 4) {
        param(raw, 4) as int
    } else {
        points
    }
}

/// Works out the damage rate that a fighter gets for the ex points it spent; none
/// where no point counts or no point is worth anything.
pub fn spent_bonus(
    mgr: &EntityMgr,
    entity_uid: i64,
    raw: &str,
    rows: &Vec<SkillEffectRow>,
    links: &Vec<SkillLinkRow>,
    skill_id: i32,
) -> (r: Option<i32>)
    requires
        param(raw@, 3) <= param(raw@, 4),
    ensures
        ({
            let n = usable(raw@, entry(mgr@.recent_decr_ex_point, entity_uid));
            let rate = rate_of_skill(rows@, links@, skill_id);
            r == (if n <= 0 || rate == 0 {
                None
            } else {
                Some(sat_i32(rate * n) as i32)
            })
        }),
{
    let low = param_at(raw, 3);
    let high = param_at(raw, 4);
    let spent = mgr.get_recent_decr_ex_point(entity_uid);
    let points: i32 = if spent > 0 {
        spent
    } else {
        0
    };
    let n: i32 = if points < low {
        low
    } else if points > high {
        high
    } else {
        points
    };
    if n <= 0 {
        return None;
    }
    let rate = rate_per_point(rows, links, skill_id);
    if rate == 0 {
        return None;
    }
    Some(saturating_product(rate, n))
}

} // verus!
