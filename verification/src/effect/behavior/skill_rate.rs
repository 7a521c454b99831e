//! Behaviours that raise the damage rate of the skill that they belong to.

use crate::arith::{sat_i32, saturating_product};
use crate::effect::behavior::disperse::numbers_in;
use crate::text::{param, param_at, parse_number, pieces, split_text, texts_view};
use vstd::prelude::*;

verus! {

/// What a behaviour of this family does for each of its targets.
#[derive(Debug)]
pub enum RatePlan {
    /// A higher rate.
    Flat { rate: i32 },
    /// A rate for each stack of a type of buffs that the caster bears.
    PerStack { buff_type_id: i32, rate: i32 },
    /// A rate against a target that bears a buff of one of some types.
    AgainstTypes { rate: i32, buff_types: Vec<i32> },
    Nothing,
}

/// The types of buffs that a behaviour names: the numbers from the fourth piece on.
pub open spec fn named_types(raw: Seq<char>) -> Seq<i32> {
    let parts = pieces(raw, '#');
    if parts.len() > 3 {
        numbers_in(parts.skip(3))
    } else {
        Seq::empty()
    }
}

/// Reads the types of buffs that a behaviour names.
pub fn read_types(raw: &str) -> (r: Vec<i32>)
    ensures
        r@ == named_types(raw@),
{
    let parts = split_text(raw, '#');
    let ghost ps = pieces(raw@, '#');
    let mut out: Vec<i32> = Vec::new();
    if parts.len() <= 3 {
        return out;
    }
    let ghost tail = ps.skip(3);
    assert(tail.take(0).len() == 0);
    for i in 3..parts.len()
        invariant
            texts_view(parts@) == ps,
            tail == ps.skip(3),
            out@ == numbers_in(tail.take(i - 3)),
    {
        assert(tail.take(i - 3 + 1).drop_last() =~= tail.take(i - 3));
        assert(tail.take(i - 3 + 1).last() == parts@[i as int]@);
        if let Some(n) = parse_number(parts[i].as_str()) {
            out.push(n);
        }
    }
    assert(tail.take(tail.len() as int) =~= tail);
    out
}

/// Whether a behaviour raises the rate without a condition.
pub open spec fn is_flat_rate(id: i32) -> bool {
    id == 10001 || id == 10002 || id == 10003 || id == 40015 || id == 60028
}

/// Whether something is what a behaviour of this family does.
pub open spec fn is_rate_plan(id: i32, raw: Seq<char>, plan: RatePlan) -> bool {
    match plan {
        RatePlan::Flat { rate } => is_flat_rate(id) && rate == param(raw, 1),
        RatePlan::PerStack { buff_type_id, rate } => {
            &&& id == 10009
            &&& buff_type_id == param(raw, 1)
            &&& rate == param(raw, 2)
            &&& rate != 0
        },
        RatePlan::AgainstTypes { rate, buff_types } => {
            &&& id == 10012
            &&& rate == param(raw, 1)
            &&& rate != 0
            &&& buff_types@ == named_types(raw)
            &&& buff_types@.len() > 0
        },
        RatePlan::Nothing => {
            &&& !is_flat_rate(id)
            &&& id == 10009 ==> param(raw, 2) == 0
            &&& id == 10012 ==> param(raw, 1) == 0 || named_types(raw).len() == 0
        },
    }
}

/// Decides what a behaviour of this family does.
pub fn plan_rate(behaviour_id: i32, raw: &str) -> (r: RatePlan)
    ensures
        is_rate_plan(behaviour_id, raw@, r),
{
    let p1 = param_at(raw, 1);
    match behaviour_id {
        10001 | 10002 | 10003 | 40015 | 60028 => RatePlan::Flat { rate: p1 },
        10009 => {
            let rate = param_at(raw, 2);
            if rate != 0 {
                RatePlan::PerStack { buff_type_id: p1, rate }
            } else {
                RatePlan::Nothing
            }
        },
        10012 => {
            let buff_types = read_types(raw);
            if p1 != 0 && buff_types.len() > 0 {
                RatePlan::AgainstTypes { rate: p1, buff_types }
            } else {
                RatePlan::Nothing
            }
        },
        _ => RatePlan::Nothing,
    }
}

/// A higher rate against a target.
#[derive(Clone, Copy, PartialEq, Eq, Structural, Debug)]
pub struct RateBonus {
    pub target_uid: i64,
    pub amount: i32,
}

/// What is known of the battle when a plan is carried out: the stacks that the
/// caster bears, and whether each target bears a buff of the named types.
#[derive(Debug)]
pub struct RateReadings {
    pub stacks: i32,
    pub bears_type: Vec<bool>,
}

/// The bonus of a behaviour against the target at a place, if it gives one.
pub open spec fn bonus_at(id: i32, raw: Seq<char>, readings: RateReadings, i: int) -> Option<i32> {
    if is_flat_rate(id) {
        Some(param(raw, 1))
    } else if id == 10009 && param(raw, 2) != 0 && readings.stacks > 0 {
        Some(sat_i32(param(raw, 2) * readings.stacks) as i32)
    } else if id == 10012 && param(raw, 1) != 0 && named_types(raw).len() > 0
        && readings.bears_type@[i] {
        Some(param(raw, 1))
    } else {
        None
    }
}

/// The bonuses of a behaviour against some targets.
pub open spec fn bonuses(id: i32, raw: Seq<char>, readings: RateReadings, targets: Seq<i64>) -> Seq<
    RateBonus,
>
    decreases targets.len(),
{
    if targets.len() == 0 {
        Seq::empty()
    } else {
        let i = targets.len() - 1;
        let before = bonuses(id, raw, readings, targets.drop_last());
        match bonus_at(id, raw, readings, i) {
            Some(amount) => before.push(RateBonus { target_uid: targets[i], amount }),
            None => before,
        }
    }
}

/// Works out the bonuses of a behaviour against some targets.
pub fn execute(behaviour_id: i32, raw: &str, readings: &RateReadings, targets: &Vec<i64>) -> (r:
    Vec<RateBonus>)
    requires
        readings.bears_type@.len() == targets@.len(),
    ensures
        r@ == bonuses(behaviour_id, raw@, *readings, targets@),
{
    let plan = plan_rate(behaviour_id, raw);
    let mut out: Vec<RateBonus> = Vec::new();
    assert(targets@.take(0).len() == 0);
    for i in 0..targets.len()
        invariant
            readings.bears_type@.len() == targets@.len(),
            is_rate_plan(behaviour_id, raw@, plan),
            out@ == bonuses(behaviour_id, raw@, *readings, targets@.take(i as int)),
    {
        assert(targets@.take(i + 1).drop_last() =~= targets@.take(i as int));
        let bonus: Option<i32> = match &plan {
            RatePlan::Flat { rate } => Some(*rate),
            RatePlan::PerStack { rate, .. } => if readings.stacks > 0 {
                Some(saturating_product(*rate, readings.stacks))
            } else {
                None
            },
            RatePlan::AgainstTypes { rate, .. } => if readings.bears_type[i] {
                Some(*rate)
            } else {
                None
            },
            RatePlan::Nothing => None,
        };
        assert(bonus == bonus_at(behaviour_id, raw@, *readings, i as int));
        if let Some(amount) = bonus {
            out.push(RateBonus { target_uid: targets[i], amount });
        }
    }
    assert(targets@.take(targets@.len() as int) =~= targets@);
    out
}

} // verus!
