//! Buffs that a behaviour gives, some of them for a price in blood.

use crate::text::{param, param_at};
use vstd::prelude::*;

verus! {

/// What a behaviour of this family does to each of its targets.
#[derive(Clone, Copy, PartialEq, Eq, Structural, Debug)]
pub enum GiftPlan {
    /// A buff, so many times.
    Give { buff_id: i32, count: i32 },
    /// A buff that costs so much of the blood pool.
    Buy { cost: i32, buff_id: i32, count: i32 },
    /// The blood pool holds too little.
    CannotPay,
    Nothing,
}

/// What a behaviour of this family does, given what the blood pool holds.
pub open spec fn gift_plan(id: i32, raw: Seq<char>, count: i32, pool_value: i32) -> GiftPlan {
    if id == 1 || id == 20005 || id == 20017 {
        GiftPlan::Give { buff_id: param(raw, 1), count }
    } else if id == 60210 || id == 60211 {
        if pool_value < param(raw, 1) {
            GiftPlan::CannotPay
        } else {
            GiftPlan::Buy { cost: param(raw, 1), buff_id: param(raw, 2), count: param(raw, 3) }
        }
    } else {
        GiftPlan::Nothing
    }
}

/// Decides what a behaviour of this family does to its next target. `pool_value` is
/// what the blood pool holds then.
pub fn plan_gift(behaviour_id: i32, raw: &str, count: i32, pool_value: i32) -> (r: GiftPlan)
    ensures
        r == gift_plan(behaviour_id, raw@, count, pool_value),
{
    match behaviour_id {
        1 | 20005 | 20017 => GiftPlan::Give { buff_id: param_at(raw, 1), count },
        60210 | 60211 => {
            let cost = param_at(raw, 1);
            if pool_value < cost {
                GiftPlan::CannotPay
            } else {
                GiftPlan::Buy { cost, buff_id: param_at(raw, 2), count: param_at(raw, 3) }
            }
        },
        _ => GiftPlan::Nothing,
    }
}

/// Nobody buys on credit: a purchase leaves the pool with nothing below zero.
pub proof fn pool_never_in_debt(id: i32, raw: Seq<char>, count: i32, pool_value: i32)
    ensures
        gift_plan(id, raw, count, pool_value) matches GiftPlan::Buy { cost, .. } ==> pool_value
            - cost >= 0,
{
}

} // verus!
