//! Behaviours that heal.

use crate::text::{param, param_at};
use vstd::prelude::*;

verus! {

/// How a behaviour of this family heals each of its targets.
#[derive(Clone, Copy, PartialEq, Eq, Structural, Debug)]
pub enum HealPlan {
    /// At a rate of the caster's attack.
    Rate { rate: i32 },
    /// By the life that the target lacks and the life of the caster.
    ByTwoAttributes { missing_percent: i32, caster_hp_percent: i32 },
}

/// Decides how a behaviour of this family heals.
pub fn plan_heal(behaviour_id: i32, raw: &str) -> (r: HealPlan)
    ensures
        r == (if behaviour_id == 60232 {
            HealPlan::ByTwoAttributes {
                missing_percent: param(raw@, 1),
                caster_hp_percent: param(raw@, 2),
            }
        } else {
            HealPlan::Rate { rate: param(raw@, 1) }
        }),
{
    if behaviour_id == 60232 {
        HealPlan::ByTwoAttributes {
            missing_percent: param_at(raw, 1),
            caster_hp_percent: param_at(raw, 2),
        }
    } else {
        HealPlan::Rate { rate: param_at(raw, 1) }
    }
}

} // verus!
