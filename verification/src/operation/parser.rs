//! Reading the operations of the player at the start of a round.

use crate::event::Event;
use crate::model::{BeginRoundOper, CardInfo, CardOpType};
use vstd::prelude::*;

verus! {

/// The skill of a universal card.
pub open spec fn universal_skill() -> i32 {
    30000001
}

/// A position that an operation names, counted from one; one where it names none.
/// Positions below one are outside any hand.
pub open spec fn hand_position(p: Option<i32>) -> int {
    match p {
        Some(n) => n - 1,
        None => 0,
    }
}

fn read_position(p: Option<i32>) -> (r: Option<usize>)
    ensures
        hand_position(p) >= 0 ==> r == Some(hand_position(p) as usize),
        hand_position(p) < 0 ==> r is None,
{
    let n: i32 = match p {
        Some(n) => n,
        None => 1,
    };
    if n >= 1 {
        Some((n - 1) as usize)
    } else {
        None
    }
}

/// What an operation does to the hand. After a move and after a play, cards of the
/// hand may merge.
#[derive(Clone, Copy, PartialEq, Eq, Structural, Debug)]
pub enum OpPlan {
    /// A card moves in the hand; then cards may merge.
    Move { card: CardInfo },
    /// A card leaves the hand to be played; then cards may merge.
    Play { card: CardInfo },
    /// A universal card is spent on another card; `target` is that card's position.
    Upgrade { universal: usize, target: usize },
    /// A dissolve is only announced.
    Dissolve,
    Nothing,
}

/// Whether an operation moves a card within the hand.
pub open spec fn is_move(op: BeginRoundOper) -> bool {
    op.oper_type == Some(CardOpType::MoveCard) && (op.to_id is None || op.to_id->0 == 0)
}

/// Whether an operation plays a card. A move with a target does so too.
pub open spec fn is_play(op: BeginRoundOper) -> bool {
    ||| op.oper_type == Some(CardOpType::PlayCard)
    ||| op.oper_type == Some(CardOpType::AssistBoss)
    ||| op.oper_type == Some(CardOpType::PlayerFinisherSkill)
    ||| op.oper_type == Some(CardOpType::BloodPool)
    ||| (op.oper_type == Some(CardOpType::MoveCard) && !is_move(op))
}

/// What an operation does with a hand.
pub open spec fn op_plan(hand: Seq<CardInfo>, op: BeginRoundOper) -> OpPlan {
    let a = hand_position(op.param1);
    let b = hand_position(op.param2);
    if is_move(op) {
        if 0 <= a < hand.len() && 0 <= b < hand.len() {
            OpPlan::Move { card: hand[a] }
        } else {
            OpPlan::Nothing
        }
    } else if is_play(op) {
        if 0 <= a < hand.len() {
            OpPlan::Play { card: hand[a] }
        } else {
            OpPlan::Nothing
        }
    } else if op.oper_type == Some(CardOpType::MoveUniversal) {
        if 0 <= a < hand.len() && hand[a].skill_id == Some(universal_skill()) && 0 <= b < hand.len() {
            OpPlan::Upgrade { universal: a as usize, target: b as usize }
        } else {
            OpPlan::Nothing
        }
    } else if op.oper_type == Some(CardOpType::SimulateDissolveCard) {
        OpPlan::Dissolve
    } else {
        OpPlan::Nothing
    }
}

/// The hand after an operation, before any merging.
pub open spec fn hand_after(hand: Seq<CardInfo>, op: BeginRoundOper) -> Seq<CardInfo> {
    let a = hand_position(op.param1);
    let b = hand_position(op.param2);
    match op_plan(hand, op) {
        OpPlan::Move { card } => hand.remove(a).insert(b, card),
        OpPlan::Play { .. } => hand.remove(a),
        _ => hand,
    }
}

/// The cards that were played and the events of the operations so far.
#[derive(Debug)]
pub struct ParsedOps {
    pub selected_cards: Vec<CardInfo>,
    pub player_events: Vec<Event>,
}

/// The events of an operation, before any merging.
pub open spec fn op_events(plan: OpPlan, op: BeginRoundOper) -> Seq<Event> {
    match plan {
        OpPlan::Move { card } => seq![Event::CardMoved { card }],
        OpPlan::Play { card } => seq![Event::CardPlayed { card, oper: op }],
        OpPlan::Dissolve => seq![Event::SimulateDissolveCard { oper: op }],
        _ => Seq::empty(),
    }
}

/// The cards that an operation plays.
pub open spec fn op_cards(plan: OpPlan) -> Seq<CardInfo> {
    match plan {
        OpPlan::Play { card } => seq![card],
        _ => Seq::empty(),
    }
}

/// The events of so many mergers after a card was moved or played.
pub open spec fn upgrade_events(plan: OpPlan, upgrades: nat) -> Seq<Event> {
    match plan {
        OpPlan::Move { card } => Seq::new(upgrades, |i: int| Event::CardUpgrade { card }),
        OpPlan::Play { card } => Seq::new(upgrades, |i: int| Event::CardUpgrade { card }),
        _ => Seq::empty(),
    }
}

fn plan_op(hand: &Vec<CardInfo>, op: &BeginRoundOper) -> (r: OpPlan)
    ensures
        r == op_plan(hand@, *op),
{
    let kind = match op.oper_type {
        Some(k) => k,
        None => {
            return OpPlan::Nothing;
        },
    };
    let a = read_position(op.param1);
    let b = read_position(op.param2);
    let untargeted: bool = match op.to_id {
        Some(uid) => uid == 0,
        None => true,
    };
    match kind {
        CardOpType::MoveCard if untargeted => match (a, b) {
            (Some(from), Some(to)) => if from < hand.len() && to < hand.len() {
                OpPlan::Move { card: hand[from] }
            } else {
                OpPlan::Nothing
            },
            _ => OpPlan::Nothing,
        },
        CardOpType::PlayCard
        | CardOpType::MoveCard
        | CardOpType::AssistBoss
        | CardOpType::PlayerFinisherSkill
        | CardOpType::BloodPool => match a {
            Some(i) => if i < hand.len() {
                OpPlan::Play { card: hand[i] }
            } else {
                OpPlan::Nothing
            },
            None => OpPlan::Nothing,
        },
        CardOpType::MoveUniversal => match (a, b) {
            (Some(universal), Some(target)) => if universal < hand.len() && target < hand.len() {
                let is_universal: bool = match hand[universal].skill_id {
                    Some(id) => id == 30000001,
                    None => false,
                };
                if is_universal {
                    OpPlan::Upgrade { universal, target }
                } else {
                    OpPlan::Nothing
                }
            } else {
                OpPlan::Nothing
            },
            _ => OpPlan::Nothing,
        },
        CardOpType::SimulateDissolveCard => OpPlan::Dissolve,
        CardOpType::Other(_) => OpPlan::Nothing,
    }
}

impl ParsedOps {
    /// No operation read yet.
    pub fn new() -> (r: ParsedOps)
        ensures
            r.selected_cards@ == Seq::<CardInfo>::empty(),
            r.player_events@ == Seq::<Event>::empty(),
    {
        ParsedOps { selected_cards: Vec::new(), player_events: Vec::new() }
    }

    /// Reads an operation: changes the hand, notes the card that is played, and adds
    /// the event. After a move or a play the hand is to be searched for mergers; see
    /// [`ParsedOps::note_upgrades`]. For an upgrade see [`apply_universal`].
    pub fn read_op(&mut self, hand: &mut Vec<CardInfo>, op: &BeginRoundOper) -> (r: OpPlan)
        ensures
            r == op_plan(old(hand)@, *op),
            final(hand)@ == hand_after(old(hand)@, *op),
            final(self).selected_cards@ == old(self).selected_cards@ + op_cards(r),
            final(self).player_events@ == old(self).player_events@ + op_events(r, *op),
    {
        let plan = plan_op(hand, op);
        let ghost events = self.player_events@;
        let ghost cards = self.selected_cards@;
        match plan {
            OpPlan::Move { card } => {
                if let (Some(from), Some(to)) = (
                    read_position(op.param1),
                    read_position(op.param2),
                ) {
                    let moved = hand.remove(from);
                    hand.insert(to, moved);
                }
                self.player_events.push(Event::CardMoved { card });
            },
            OpPlan::Play { card } => {
                if let Some(i) = read_position(op.param1) {
                    hand.remove(i);
                }
                self.player_events.push(Event::CardPlayed { card, oper: *op });
                self.selected_cards.push(card);
            },
            OpPlan::Dissolve => {
                self.player_events.push(Event::SimulateDissolveCard { oper: *op });
            },
            _ => {},
        }
        assert(self.player_events@ =~= events + op_events(plan, *op));
        assert(self.selected_cards@ =~= cards + op_cards(plan));
        plan
    }

    /// Notes how many mergers followed a move or a play.
    pub fn note_upgrades(&mut self, plan: OpPlan, upgrades: usize)
        ensures
            final(self).selected_cards@ == old(self).selected_cards@,
            final(self).player_events@ == old(self).player_events@ + upgrade_events(
                plan,
                upgrades as nat,
            ),
    {
        let ghost start = self.player_events@;
        let card: CardInfo = match plan {
            OpPlan::Move { card } => card,
            OpPlan::Play { card } => card,
            _ => {
                assert(self.player_events@ =~= start + upgrade_events(plan, upgrades as nat));
                return;
            },
        };
        assert(start + upgrade_events(plan, 0) =~= start);
        for i in 0..upgrades
            invariant
                plan == (OpPlan::Move { card }) || plan == (OpPlan::Play { card }),
                self.selected_cards@ == old(self).selected_cards@,
                self.player_events@ == start + upgrade_events(plan, i as nat),
        {
            self.player_events.push(Event::CardUpgrade { card });
            assert(self.player_events@ =~= start + upgrade_events(plan, (i + 1) as nat));
        }
    }
}

/// Spends a universal card on another card: that card gets its next skill, and the
/// universal card leaves the hand. Nothing happens where there is no next skill.
pub fn apply_universal(
    hand: &mut Vec<CardInfo>,
    universal: usize,
    target: usize,
    next_skill: Option<i32>,
)
    requires
        universal < old(hand)@.len(),
        target < old(hand)@.len(),
    ensures
        final(hand)@ == match next_skill {
            Some(id) => old(hand)@.update(
                target as int,
                CardInfo { skill_id: Some(id), ..old(hand)@[target as int] },
            ).remove(universal as int),
            None => old(hand)@,
        },
{
    if let Some(id) = next_skill {
        let mut card = hand[target];
        card.skill_id = Some(id);
        hand[target] = card;
        hand.remove(universal);
    }
}

/// Moving a card only reorders the hand.
pub proof fn move_keeps_hand(hand: Seq<CardInfo>, op: BeginRoundOper)
    requires
        op_plan(hand, op) is Move,
    ensures
        hand_after(hand, op).len() == hand.len(),
        hand_after(hand, op).to_multiset() =~= hand.to_multiset(),
{
    broadcast use vstd::seq_lib::group_to_multiset_ensures;

    let a = hand_position(op.param1);
    let b = hand_position(op.param2);
    let card = hand[a];
    assert(hand.to_multiset().count(card) > 0) by {
        assert(hand.contains(card));
        hand.to_multiset_ensures();
    }
    let rest = hand.remove(a);
    hand.to_multiset_ensures();
    rest.to_multiset_ensures();
    assert(rest.to_multiset() =~= hand.to_multiset().remove(card));
    assert(rest.insert(b, card).to_multiset() =~= rest.to_multiset().insert(card));
}

/// Playing a card takes exactly that card out of the hand.
pub proof fn play_takes_card(hand: Seq<CardInfo>, op: BeginRoundOper)
    requires
        op_plan(hand, op) is Play,
    ensures
        hand_after(hand, op).len() + 1 == hand.len(),
        hand_after(hand, op).to_multiset() =~= hand.to_multiset().remove(
            hand[hand_position(op.param1)],
        ),
{
    hand.to_multiset_ensures();
}

} // verus!
