//! What the operations of a player do to the hand.

use crate::event::Event;
use crate::model::{BeginRoundOper, CardInfo, CardOpType};
use crate::operation::parser::{hand_after, op_cards, op_events, op_plan, upgrade_events, OpPlan};
use vstd::prelude::*;

verus! {

/// The position that a parameter names: positions count from one, and where none is named
/// it is the first.
pub open spec fn place(p: Option<i32>) -> int {
    if p is Some {
        p->0 - 1
    } else {
        0
    }
}

/// An operation moves a card within the hand: a move that is not aimed at anyone.
pub open spec fn moves(op: BeginRoundOper) -> bool {
    op.oper_type == Some(CardOpType::MoveCard) && (op.to_id is None || op.to_id == Some(0i64))
}

/// An operation plays a card.
pub open spec fn plays(op: BeginRoundOper) -> bool {
    ||| op.oper_type == Some(CardOpType::PlayCard)
    ||| op.oper_type == Some(CardOpType::AssistBoss)
    ||| op.oper_type == Some(CardOpType::PlayerFinisherSkill)
    ||| op.oper_type == Some(CardOpType::BloodPool)
    ||| op.oper_type == Some(CardOpType::MoveCard) && op.to_id is Some && op.to_id->0 != 0
}

/// A card that is moved stands where it was moved to, the other cards keep their order,
/// and the move is noted with that card. Nothing is played. A move from or to a place
/// outside the hand does nothing.
pub proof fn a_moved_card_is_where_it_was_moved_to(hand: Seq<CardInfo>, op: BeginRoundOper)
    requires
        moves(op),
    ensures
        ({
            let from = place(op.param1);
            let to = place(op.param2);
            let after = hand_after(hand, op);
            let plan = op_plan(hand, op);
            &&& 0 <= from < hand.len() && 0 <= to < hand.len() ==> {
                &&& plan == (OpPlan::Move { card: hand[from] })
                &&& after.len() == hand.len()
                &&& after[to] == hand[from]
                &&& after.remove(to) == hand.remove(from)
                &&& op_cards(plan).len() == 0
                &&& op_events(plan, op) == seq![Event::CardMoved { card: hand[from] }]
            }
            &&& !(0 <= from < hand.len() && 0 <= to < hand.len()) ==> {
                &&& plan == OpPlan::Nothing
                &&& after == hand
                &&& op_cards(plan).len() == 0
                &&& op_events(plan, op).len() == 0
            }
        }),
{
    let from = place(op.param1);
    let to = place(op.param2);
    if 0 <= from < hand.len() && 0 <= to < hand.len() {
        let after = hand_after(hand, op);
        assert(after.remove(to) =~= hand.remove(from));
    }
}

/// A move and the move back leave the hand as it was.
pub proof fn a_move_is_undone_by_the_move_back(
    hand: Seq<CardInfo>,
    op: BeginRoundOper,
    back: BeginRoundOper,
)
    requires
        moves(op),
        moves(back),
        0 <= place(op.param1) < hand.len(),
        0 <= place(op.param2) < hand.len(),
        back.param1 == op.param2,
        back.param2 == op.param1,
    ensures
        hand_after(hand_after(hand, op), back) == hand,
{
    let from = place(op.param1);
    let to = place(op.param2);
    let after = hand_after(hand, op);
    a_moved_card_is_where_it_was_moved_to(hand, op);
    a_moved_card_is_where_it_was_moved_to(after, back);
    let end = hand_after(after, back);
    assert(end.remove(from) == hand.remove(from));
    assert forall|i: int| 0 <= i < hand.len() implies end[i] == hand[i] by {
        if i < from {
            assert(end.remove(from)[i] == hand.remove(from)[i]);
        } else if i > from {
            assert(end.remove(from)[i - 1] == hand.remove(from)[i - 1]);
        }
    }
    assert(end =~= hand);
}

/// A card that is played leaves the hand, the other cards keep their order, the card is
/// chosen, and the play is noted with the card and the operation. A play from outside the
/// hand does nothing.
pub proof fn a_played_card_leaves_the_hand(hand: Seq<CardInfo>, op: BeginRoundOper)
    requires
        plays(op),
    ensures
        ({
            let from = place(op.param1);
            let after = hand_after(hand, op);
            let plan = op_plan(hand, op);
            &&& 0 <= from < hand.len() ==> {
                &&& plan == (OpPlan::Play { card: hand[from] })
                &&& after.len() == hand.len() - 1
                &&& forall|i: int| 0 <= i < from ==> after[i] == hand[i]
                &&& forall|i: int| from <= i < after.len() ==> after[i] == hand[i + 1]
                &&& op_cards(plan) == seq![hand[from]]
                &&& op_events(plan, op) == seq![Event::CardPlayed { card: hand[from], oper: op }]
            }
            &&& !(0 <= from < hand.len()) ==> {
                &&& plan == OpPlan::Nothing
                &&& after == hand
                &&& op_cards(plan).len() == 0
                &&& op_events(plan, op).len() == 0
            }
        }),
{
}

/// A universal card is spent on another card only if there is one at the place that is
/// named; the hand itself stays until the other card is known to have a better one.
/// A dissolve is only announced, and any other operation does nothing.
pub proof fn other_operations_keep_the_hand(hand: Seq<CardInfo>, op: BeginRoundOper)
    requires
        !moves(op),
        !plays(op),
    ensures
        ({
            let a = place(op.param1);
            let b = place(op.param2);
            let plan = op_plan(hand, op);
            let spends = op.oper_type == Some(CardOpType::MoveUniversal) && 0 <= a < hand.len()
                && 0 <= b < hand.len() && hand[a].skill_id == Some(30000001i32);
            &&& hand_after(hand, op) == hand
            &&& op_cards(plan).len() == 0
            &&& spends && hand.len() <= usize::MAX ==> (plan matches OpPlan::Upgrade {
                universal,
                target,
            } && universal == a && target == b)
            &&& op.oper_type == Some(CardOpType::MoveUniversal) && !spends ==> plan
                == OpPlan::Nothing
            &&& op.oper_type == Some(CardOpType::SimulateDissolveCard) ==> plan == OpPlan::Dissolve
                && op_events(plan, op) == seq![Event::SimulateDissolveCard { oper: op }]
            &&& op.oper_type != Some(CardOpType::SimulateDissolveCard) ==> op_events(
                plan,
                op,
            ).len() == 0
            &&& op.oper_type != Some(CardOpType::MoveUniversal) && op.oper_type != Some(
                CardOpType::SimulateDissolveCard,
            ) ==> plan == OpPlan::Nothing
        }),
{
}

/// After a move or a play every merge of cards is noted once, with the card that was
/// moved or played; after anything else none is.
pub proof fn merges_are_noted(plan: OpPlan, upgrades: nat)
    ensures
        plan matches OpPlan::Move { card } ==> upgrade_events(plan, upgrades).len() == upgrades
            && forall|i: int|
            0 <= i < upgrades ==> upgrade_events(plan, upgrades)[i] == (Event::CardUpgrade { card }),
        plan matches OpPlan::Play { card } ==> upgrade_events(plan, upgrades).len() == upgrades
            && forall|i: int|
            0 <= i < upgrades ==> upgrade_events(plan, upgrades)[i] == (Event::CardUpgrade { card }),
        !(plan is Move) && !(plan is Play) ==> upgrade_events(plan, upgrades).len() == 0,
{
}

} // verus!
