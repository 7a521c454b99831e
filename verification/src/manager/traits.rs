//! What a manager does at the turning points of a battle.

use crate::event::Event;
use crate::model::Fight;
use vstd::prelude::*;

verus! {

/// A part of the state of a battle that answers to its turning points. Nothing
/// happens unless a manager says otherwise: nobody changes, cards lead to the events
/// they led to before, and no events arise.
pub trait Manager: Sized {
    /// The battle starts.
    fn on_battle_start(&mut self, fight: &mut Fight)
        default_ensures
            *final(self) == *old(self),
            *final(fight) == *old(fight),
    {
    }

    /// A round starts.
    fn on_round_start(&mut self)
        default_ensures
            *final(self) == *old(self),
    {
    }

    /// A round ends.
    fn on_round_end(&mut self, fight: &mut Fight)
        default_ensures
            *final(self) == *old(self),
            *final(fight) == *old(fight),
    {
    }

    /// The battle ends.
    fn on_battle_end(&mut self)
        default_ensures
            *final(self) == *old(self),
    {
    }

    /// A fighter enters the battle.
    fn on_enter_fight(&mut self, fight: &Fight, entity_uid: i64) -> (r: Vec<Event>)
        default_ensures
            *final(self) == *old(self),
            r@.len() == 0,
    {
        Vec::new()
    }

    /// A card was used.
    fn on_use_card(&mut self, fight: &Fight, events: Vec<Event>) -> (r: Vec<Event>)
        default_ensures
            *final(self) == *old(self),
            r == events,
    {
        events
    }

    /// A card was moved.
    fn on_move_card(&mut self, fight: &Fight, events: Vec<Event>) -> (r: Vec<Event>)
        default_ensures
            *final(self) == *old(self),
            r == events,
    {
        events
    }

    /// Cards merged into a better one.
    fn on_card_upgrade(&mut self, fight: &Fight, events: Vec<Event>) -> (r: Vec<Event>)
        default_ensures
            *final(self) == *old(self),
            r == events,
    {
        events
    }

    /// A fighter died.
    fn on_dead(&mut self, fight: &Fight, entity_uid: i64) -> (r: Vec<Event>)
        default_ensures
            *final(self) == *old(self),
            r@.len() == 0,
    {
        Vec::new()
    }
}

} // verus!
