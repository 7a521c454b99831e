//! Reading the effect of a skill out of its row.

use crate::config::{find_row, row_at, SkillEffectRow, SlotRow};
use crate::effect::behavior::{behaviours_in, parse as parse_behaviours};
use crate::effect::condition::{
    conditions_in, op_of, parse as parse_conditions, separator_of, ConditionContext, ContextView,
    OtherHooks,
};
use crate::effect::slot::{slots_view, EffectSlot, SkillEffect, SkillEffectView, SlotView};
use crate::model::copies::copy_numbers;
use crate::text::{number, number_or_zero, parse_number, pieces};
use vstd::prelude::*;

verus! {

/// The slot that a row spells; none where it has no behaviour, no target, or no
/// condition that exists.
pub open spec fn slot_in(row: SlotRow, known: Seq<i32>, elsewhere: OtherHooks) -> Option<SlotView> {
    if row.behavior@.len() == 0 || number(row.condition_target@) is None || row.condition@.len()
        == 0 {
        None
    } else {
        let ctx = ContextView { known, target: number(row.condition_target@)->0, elsewhere };
        let conditions = conditions_in(
            pieces(row.condition@, separator_of(row.condition@)),
            ctx,
        );
        if conditions.len() == 0 {
            None
        } else {
            Some(
                SlotView {
                    op: op_of(row.condition@),
                    conditions,
                    behaviours: behaviours_in(
                        pieces(row.behavior@, '|'),
                        number_or_zero(row.behavior_target@),
                    ),
                    limit: row.limit,
                    round_limit: row.round_limit,
                    use_count: 0,
                    round_use_count: 0,
                },
            )
        }
    }
}

/// The slots that some rows spell.
pub open spec fn slots_in(
    rows: Seq<SlotRow>,
    known: Seq<i32>,
    elsewhere: OtherHooks,
) -> Seq<SlotView>
    decreases rows.len(),
{
    if rows.len() == 0 {
        Seq::empty()
    } else {
        let before = slots_in(rows.drop_last(), known, elsewhere);
        match slot_in(rows.last(), known, elsewhere) {
            Some(s) => before.push(s),
            None => before,
        }
    }
}

/// The slots of a row that are looked at: the first twenty.
pub open spec fn first_twenty(slots: Seq<SlotRow>) -> Seq<SlotRow> {
    if slots.len() > 20 {
        slots.take(20)
    } else {
        slots
    }
}

fn read_slot(row: &SlotRow, known: &Vec<i32>, elsewhere: OtherHooks) -> (r: Option<EffectSlot>)
    ensures
        match r {
            Some(s) => slot_in(*row, known@, elsewhere) == Some(s@),
            None => slot_in(*row, known@, elsewhere) is None,
        },
{
    if row.behavior.as_str().is_empty() {
        return None;
    }
    let target = match parse_number(row.condition_target.as_str()) {
        Some(n) => n,
        None => {
            return None;
        },
    };
    let ctx = ConditionContext { known: copy_numbers(known), target, elsewhere };
    match parse_conditions(row.condition.as_str(), &ctx) {
        Some((conditions, op)) => {
            let beh_target: i32 = match parse_number(row.behavior_target.as_str()) {
                Some(n) => n,
                None => 0,
            };
            let behaviours = parse_behaviours(row.behavior.as_str(), beh_target);
            Some(
                EffectSlot {
                    op,
                    conditions,
                    behaviours,
                    limit: row.limit,
                    round_limit: row.round_limit,
                    use_count: 0,
                    round_use_count: 0,
                },
            )
        },
        None => None,
    }
}

/// Reads the effect of a skill for its owner; none where there is no such row.
pub fn parse(
    rows: &Vec<SkillEffectRow>,
    effect_id: i32,
    owner_uid: i64,
    known: &Vec<i32>,
    elsewhere: OtherHooks,
) -> (r: Option<SkillEffect>)
    ensures
        match row_at(rows@, effect_id) {
            Some(row) => r is Some && r->0@ == (SkillEffectView {
                owner_uid,
                slots: slots_in(first_twenty(row.slots@), known@, elsewhere),
            }),
            None => r is None,
        },
{
    match find_row(rows, effect_id) {
        Some(row) => {
            let n: usize = if row.slots.len() > 20 {
                20
            } else {
                row.slots.len()
            };
            let ghost lead = first_twenty(row.slots@);
            let mut slots: Vec<EffectSlot> = Vec::new();
            assert(slots_view(slots@) =~= slots_in(lead.take(0), known@, elsewhere));
            for i in 0..n
                invariant
                    n == lead.len(),
                    n <= row.slots@.len(),
                    forall|k: int| 0 <= k < n ==> lead[k] == row.slots@[k],
                    slots_view(slots@) == slots_in(lead.take(i as int), known@, elsewhere),
            {
                assert(lead.take(i + 1).drop_last() =~= lead.take(i as int));
                assert(lead.take(i + 1).last() == row.slots@[i as int]);
                let ghost before = slots_view(slots@);
                if let Some(s) = read_slot(&row.slots[i], known, elsewhere) {
                    slots.push(s);
                    assert(slots_view(slots@) =~= before.push(s@));
                }
            }
            assert(lead.take(n as int) =~= lead);
            Some(SkillEffect { owner_uid, slots })
        },
        None => None,
    }
}

} // verus!
