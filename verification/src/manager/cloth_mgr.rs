//! The player's cloth: its power, and the skills that spend it.

use crate::arith::fits;
use crate::event::Event;
use crate::model::{Fight, FightView, TeamView};
use std::collections::HashMap;
use vstd::prelude::*;

verus! {

broadcast use vstd::std_specs::hash::group_hash_axioms;

/// A cloth at its level.
#[derive(Debug)]
pub struct ClothLevel {
    pub initial: i32,
    pub max_power: i32,
    pub skill1: i32,
    pub skill2: i32,
    /// What the first skill costs, use by use.
    pub use_power1: Vec<i32>,
    /// What the second skill costs, use by use.
    pub use_power2: Vec<i32>,
    /// Power gained when a card is played.
    pub use_gain: i32,
    /// Power gained when a card is moved.
    pub move_gain: i32,
    /// Power gained when cards are merged.
    pub compose_gain: i32,
}

/// Why a cloth skill cannot be used.
#[derive(Clone, Copy, PartialEq, Eq, Structural, Debug)]
pub enum ClothError {
    NoCloth,
    Unimplemented { skill_id: i32 },
}

/// What a cloth skill does.
#[derive(Clone, Copy, PartialEq, Eq, Structural, Debug)]
pub enum ClothSkill {
    /// Puts a universal card into the hand.
    UniversalCard,
    /// Deals the hand again.
    RedealCards,
}

/// How often each cloth skill was used.
#[derive(Debug)]
pub struct ClothMgr {
    pub use_counts: HashMap<i32, usize>,
}

/// The larger of a number and zero.
pub open spec fn floor_zero(x: i32) -> i32 {
    if x > 0 {
        x
    } else {
        0
    }
}

fn not_below_zero(x: i32) -> (r: i32)
    ensures
        r == floor_zero(x),
{
    if x > 0 {
        x
    } else {
        0
    }
}

/// The power that a team has: the cloth's first power where none is set.
pub open spec fn power_of(t: TeamView, cloth: ClothLevel) -> i32 {
    match t.power {
        Some(p) => p,
        None => floor_zero(cloth.initial),
    }
}

/// Power after a change: within zero and the cloth's most.
pub open spec fn changed_power(current: i32, delta: i32, cloth: ClothLevel) -> i32 {
    let sum = current + delta;
    if sum < 0 {
        0
    } else if sum > floor_zero(cloth.max_power) {
        floor_zero(cloth.max_power)
    } else {
        sum as i32
    }
}

/// The battle after a change of power; nothing changes without a cloth or without
/// attackers.
pub open spec fn with_power(f: FightView, cloth: Option<ClothLevel>, delta: i32) -> FightView {
    match (cloth, f.attacker) {
        (Some(c), Some(t)) => FightView {
            attacker: Some(
                TeamView { power: Some(changed_power(power_of(t, c), delta, c)), ..t },
            ),
            ..f
        },
        _ => f,
    }
}

/// The change of power can be counted.
pub open spec fn power_fits(f: FightView, cloth: Option<ClothLevel>, delta: i32) -> bool {
    cloth is Some && f.attacker is Some ==> fits(power_of(f.attacker->0, cloth->0) + delta)
}

/// What a use of a skill costs: the cost of that use, of the last one listed, or
/// nothing.
pub open spec fn cost_at(costs: Seq<i32>, count: nat) -> i32 {
    if count < costs.len() {
        costs[count as int]
    } else if costs.len() > 0 {
        costs.last()
    } else {
        0
    }
}

fn find_cost(costs: &Vec<i32>, count: usize) -> (r: i32)
    ensures
        r == cost_at(costs@, count as nat),
{
    if count < costs.len() {
        costs[count]
    } else if costs.len() > 0 {
        costs[costs.len() - 1]
    } else {
        0
    }
}

/// The costs of a skill; none for a skill that the cloth does not have.
pub open spec fn costs_of(cloth: ClothLevel, skill_id: i32) -> Option<Seq<i32>> {
    if skill_id == cloth.skill1 {
        Some(cloth.use_power1@)
    } else if skill_id == cloth.skill2 {
        Some(cloth.use_power2@)
    } else {
        None
    }
}

impl ClothMgr {
    /// How often a skill was used.
    pub open spec fn uses(self, skill_id: i32) -> usize {
        if self.use_counts@.contains_key(skill_id) {
            self.use_counts@[skill_id]
        } else {
            0
        }
    }

    /// No skill used yet.
    pub fn new() -> (r: ClothMgr)
        ensures
            r.use_counts@ == Map::<i32, usize>::empty(),
    {
        ClothMgr { use_counts: HashMap::new() }
    }

    /// Changes the power of the attackers.
    pub fn apply_power(fight: &mut Fight, cloth: &Option<ClothLevel>, delta: i32)
        requires
            power_fits(old(fight)@, *cloth, delta),
        ensures
            final(fight)@ == with_power(old(fight)@, *cloth, delta),
    {
        if let Some(c) = cloth {
            if let Some(t) = &mut fight.attacker {
                let current: i32 = match t.power {
                    Some(p) => p,
                    None => not_below_zero(c.initial),
                };
                let sum: i32 = current + delta;
                let most = not_below_zero(c.max_power);
                let next: i32 = if sum < 0 {
                    0
                } else if sum > most {
                    most
                } else {
                    sum
                };
                t.power = Some(next);
            }
        }
    }

    /// Forgets how often the skills were used.
    pub fn reset(&mut self)
        ensures
            final(self).use_counts@ == Map::<i32, usize>::empty(),
    {
        self.use_counts.clear();
    }

    /// Uses a cloth skill: counts it, takes its cost, and says what it does. A skill
    /// that the cloth does not have is neither counted nor paid.
    pub fn execute_skill(
        &mut self,
        skill_id: i32,
        fight: &mut Fight,
        cloth: &Option<ClothLevel>,
    ) -> (r: Result<ClothSkill, ClothError>)
        requires
            old(self).uses(skill_id) < usize::MAX,
            cloth is Some && costs_of(cloth->0, skill_id) is Some ==> ({
                let cost = cost_at(
                    costs_of(cloth->0, skill_id)->0,
                    old(self).uses(skill_id) as nat,
                );
                cost > i32::MIN && power_fits(old(fight)@, *cloth, (-cost) as i32)
            }),
        ensures
            match *cloth {
                None => r == Err::<ClothSkill, ClothError>(ClothError::NoCloth)
                    && final(self).use_counts@ == old(self).use_counts@ && final(fight)@ == old(
                    fight,
                )@,
                Some(c) => match costs_of(c, skill_id) {
                    None => r == Err::<ClothSkill, ClothError>(
                        ClothError::Unimplemented { skill_id },
                    ) && final(self).use_counts@ == old(self).use_counts@ && final(fight)@ == old(
                        fight,
                    )@,
                    Some(costs) => {
                        &&& final(self).use_counts@ == old(self).use_counts@.insert(
                            skill_id,
                            (old(self).uses(skill_id) + 1) as usize,
                        )
                        &&& final(fight)@ == with_power(
                            old(fight)@,
                            *cloth,
                            (-cost_at(costs, old(self).uses(skill_id) as nat)) as i32,
                        )
                        &&& r == (if skill_id == 30010201 {
                            Ok::<ClothSkill, ClothError>(ClothSkill::UniversalCard)
                        } else if skill_id == 30010202 {
                            Ok::<ClothSkill, ClothError>(ClothSkill::RedealCards)
                        } else {
                            Err::<ClothSkill, ClothError>(ClothError::Unimplemented { skill_id })
                        })
                    },
                },
            },
    {
        let count: usize = match self.use_counts.get(&skill_id) {
            Some(n) => *n,
            None => 0,
        };
        let cost: i32 = match cloth {
            None => {
                return Err(ClothError::NoCloth);
            },
            Some(c) => if skill_id == c.skill1 {
                find_cost(&c.use_power1, count)
            } else if skill_id == c.skill2 {
                find_cost(&c.use_power2, count)
            } else {
                return Err(ClothError::Unimplemented { skill_id });
            },
        };
        self.use_counts.insert(skill_id, count + 1);
        ClothMgr::apply_power(fight, cloth, -cost);
        match skill_id {
            30010201 => Ok(ClothSkill::UniversalCard),
            30010202 => Ok(ClothSkill::RedealCards),
            _ => Err(ClothError::Unimplemented { skill_id }),
        }
    }

    /// The start of a battle: power that is not set starts at the cloth's first.
    pub fn on_battle_start(fight: &mut Fight, cloth: &Option<ClothLevel>)
        ensures
            final(fight)@ == match (*cloth, old(fight)@.attacker) {
                (Some(c), Some(t)) => FightView {
                    attacker: Some(TeamView { power: Some(power_of(t, c)), ..t }),
                    ..old(fight)@
                },
                _ => old(fight)@,
            },
    {
        if let Some(c) = cloth {
            if let Some(t) = &mut fight.attacker {
                if t.power.is_none() {
                    t.power = Some(not_below_zero(c.initial));
                }
            }
        }
    }

    /// The end of a round: what the cloth recovers in that round.
    pub fn on_round_end(fight: &mut Fight, cloth: &Option<ClothLevel>, recover_delta: i32)
        requires
            power_fits(old(fight)@, *cloth, recover_delta),
        ensures
            final(fight)@ == (if recover_delta != 0 {
                with_power(old(fight)@, *cloth, recover_delta)
            } else {
                old(fight)@
            }),
    {
        if recover_delta != 0 {
            ClothMgr::apply_power(fight, cloth, recover_delta);
        }
    }

    fn gain(events: Vec<Event>, delta: i32) -> (r: Vec<Event>)
        ensures
            r@ == (if delta > 0 {
                events@.push(Event::PowerChange { delta })
            } else {
                events@
            }),
    {
        let mut events = events;
        if delta > 0 {
            events.push(Event::PowerChange { delta });
        }
        events
    }

    /// A card was played: the cloth gains power.
    pub fn on_use_card(cloth: &Option<ClothLevel>, events: Vec<Event>) -> (r: Vec<Event>)
        ensures
            r@ == (if cloth is Some && cloth->0.use_gain > 0 {
                events@.push(Event::PowerChange { delta: cloth->0.use_gain })
            } else {
                events@
            }),
    {
        match cloth {
            Some(c) => ClothMgr::gain(events, c.use_gain),
            None => events,
        }
    }

    /// A card was moved: the cloth gains power.
    pub fn on_move_card(cloth: &Option<ClothLevel>, events: Vec<Event>) -> (r: Vec<Event>)
        ensures
            r@ == (if cloth is Some && cloth->0.move_gain > 0 {
                events@.push(Event::PowerChange { delta: cloth->0.move_gain })
            } else {
                events@
            }),
    {
        match cloth {
            Some(c) => ClothMgr::gain(events, c.move_gain),
            None => events,
        }
    }

    /// Cards were merged: the cloth gains power.
    pub fn on_card_upgrade(cloth: &Option<ClothLevel>, events: Vec<Event>) -> (r: Vec<Event>)
        ensures
            r@ == (if cloth is Some && cloth->0.compose_gain > 0 {
                events@.push(Event::PowerChange { delta: cloth->0.compose_gain })
            } else {
                events@
            }),
    {
        match cloth {
            Some(c) => ClothMgr::gain(events, c.compose_gain),
            None => events,
        }
    }
}

impl Default for ClothMgr {
    fn default() -> (r: ClothMgr)
        ensures
            r.use_counts@ == Map::<i32, usize>::empty(),
    {
        ClothMgr::new()
    }
}

/// Power stays within zero and the cloth's most, whatever the change.
pub proof fn power_in_bounds(current: i32, delta: i32, cloth: ClothLevel)
    ensures
        0 <= changed_power(current, delta, cloth) <= floor_zero(cloth.max_power),
{
}

} // verus!
