//! When conditions hold, and which slots fire.

use crate::buffs::{holds, BuffMgr};
use crate::effect::behavior::{behaviours_in, fixes_attr, BehaviourView};
use crate::effect::condition::{
    check_count, condition_in, conditions_in, hooks_of, numbers_in, op_of, separator_of, total,
    without_bangs, ConditionEval, ConditionOp, ConditionView, ContextView, Hook, OtherHooks,
    Reading,
};
use crate::effect::slot::{
    greatest_count, least_count, picked, slot_count, slot_fires, slots_after, slots_fire, FiredView,
    SlotEval, SlotView,
};
use crate::text::{number, pieces};
use vstd::prelude::*;

verus! {

/// The ids of conditions that only ask whether the fighter at hand is a target.
pub open spec fn asks_for_alignment(id: i32) -> bool {
    ||| id == 101 || id == 102 || id == 104
    ||| id == 201 || id == 203 || id == 208 || id == 210
    ||| id == 301 || id == 304
    ||| id == 5 || id == 5021
    ||| id == 8 || id == 812
    ||| id == 22209
}

/// The ids of conditions that the state of the battle decides elsewhere.
pub open spec fn decided_elsewhere(id: i32) -> bool {
    ||| id == 10 || id == 17 || id == 45104
    ||| id == 19201 || id == 19202 || id == 19203
    ||| id == 19208 || id == 19209 || id == 19210
}

/// What holds exactly once if something is so, and otherwise not.
pub open spec fn holds_once(r: Option<int>, b: bool) -> bool {
    r == (if b {
        Some(1int)
    } else {
        None
    })
}

/// When a condition holds, by its id. A condition of an unknown id never does.
pub proof fn conditions_by_id(
    c: ConditionView,
    eval: ConditionEval,
    buffs: BuffMgr,
    reading: Reading,
)
    ensures
        ({
            let id = c.cond_id;
            let r = check_count(c, eval, buffs, reading);
            let among = exists|i: int|
                0 <= i < eval.targets@.len() && eval.targets@[i] == eval.target_uid;
            let aimed_at = exists|i: int|
                0 <= i < eval.skill_targets@.len() && eval.skill_targets@[i] == eval.target_uid;
            let bears = exists|i: int, j: int|
                #![trigger eval.skill_targets@[i], c.params[j]]
                0 <= i < eval.skill_targets@.len() && 0 <= j < c.params.len() && holds(
                    buffs.of(eval.skill_targets@[i]),
                    c.params[j],
                );
            &&& asks_for_alignment(id) ==> holds_once(r, among)
            &&& id == 25210 ==> holds_once(r, aimed_at)
            &&& id == 34210 ==> holds_once(r, among && c.params.len() > 0)
            &&& id == 49 ==> holds_once(
                r,
                among && eval.lost_buff_id is Some && exists|j: int|
                    0 <= j < c.params.len() && c.params[j] == eval.lost_buff_id->0,
            )
            &&& id == 57208 ==> holds_once(r, !bears)
            &&& (id == 61003 || id == 61203) && c.params.len() > 0 && total(reading.counts@) > 0
                ==> r == Some(total(reading.counts@))
            &&& (id == 61003 || id == 61203) && (c.params.len() == 0 || total(reading.counts@) <= 0)
                ==> r is None
            &&& decided_elsewhere(id) ==> holds_once(r, reading.outcome)
            &&& !asks_for_alignment(id) && !decided_elsewhere(id) && id != 25210 && id != 34210
                && id != 49 && id != 57208 && id != 61003 && id != 61203 ==> r is None
        }),
{
}

/// The moment at which a condition is looked at, by its id; at none for an unknown id.
pub proof fn moments_by_id(id: i32, elsewhere: OtherHooks)
    ensures
        ({
            let s = hooks_of(id, elsewhere);
            let at = |h: Hook| s.len() == 1 && s[0] == h;
            &&& (id == 101 || id == 102 || id == 104 || id == 45104) ==> at(Hook::RoundStart)
            &&& (id == 201 || id == 203 || id == 19201 || id == 19203 || id == 19208 || id == 61003
                || id == 61203) ==> at(Hook::EvalActiveSkill)
            &&& (id == 208 || id == 210 || id == 19210 || id == 34210 || id == 57208) ==> at(
                Hook::AfterAction,
            )
            &&& (id == 301 || id == 304) ==> at(Hook::RoundEnd)
            &&& (id == 22209 || id == 19202 || id == 19209) ==> at(Hook::EvalBeingAttacked)
            &&& (id == 8 || id == 812) ==> at(Hook::Dead)
            &&& (id == 5 || id == 5021) ==> at(Hook::EnterFight)
            &&& id == 25210 ==> at(Hook::UseExSkill)
            &&& id == 49 ==> at(Hook::BuffLost)
            &&& id == 17 ==> at(elsewhere.teammate_dead)
            &&& id == 10 ==> at(elsewhere.buff_added)
            &&& !asks_for_alignment(id) && !decided_elsewhere(id) && id != 25210 && id != 34210
                && id != 49 && id != 57208 && id != 61003 && id != 61203 ==> s.len() == 0
        }),
{
}

/// A sum is the sum of all its terms.
pub proof fn totals_add_up(a: Seq<i32>, b: Seq<i32>, x: i32)
    ensures
        total(a + b) == total(a) + total(b),
        total(seq![x]) == x,
        total(Seq::<i32>::empty()) == 0,
    decreases b.len(),
{
    assert(seq![x].drop_last() =~= Seq::<i32>::empty());
    assert(total(seq![x].drop_last()) == 0);
    if b.len() == 0 {
        assert(a + b =~= a);
    } else {
        totals_add_up(a, b.drop_last(), x);
        assert((a + b).drop_last() =~= a + b.drop_last());
    }
}

proof fn least_count_is_least(
    s: Seq<ConditionView>,
    n: nat,
    eval: ConditionEval,
    buffs: BuffMgr,
    readings: Seq<Reading>,
)
    requires
        n <= s.len(),
    ensures
        ({
            let r = least_count(s, n, eval, buffs, readings);
            &&& r is None <==> exists|i: int|
                0 <= i < n && #[trigger] check_count(s[i], eval, buffs, readings[i]) is None
            &&& r is Some ==> forall|i: int|
                0 <= i < n ==> r->0 <= (#[trigger] check_count(s[i], eval, buffs, readings[i]))->0
            &&& r is Some ==> r->0 <= i32::MAX
            &&& r is Some && r->0 < i32::MAX ==> exists|i: int|
                0 <= i < n && (#[trigger] check_count(s[i], eval, buffs, readings[i]))->0 == r->0
        }),
    decreases n,
{
    if n > 0 {
        least_count_is_least(s, (n - 1) as nat, eval, buffs, readings);
        let here = check_count(s[n - 1], eval, buffs, readings[n - 1]);
        let before = least_count(s, (n - 1) as nat, eval, buffs, readings);
        if before is None {
            let i = choose|i: int|
                0 <= i < n - 1 && #[trigger] check_count(s[i], eval, buffs, readings[i]) is None;
            assert(check_count(s[i], eval, buffs, readings[i]) is None);
        } else if here is Some && here->0 >= before->0 && before->0 < i32::MAX {
            let i = choose|i: int|
                0 <= i < n - 1 && (#[trigger] check_count(s[i], eval, buffs, readings[i]))->0
                    == before->0;
            assert(check_count(s[i], eval, buffs, readings[i])->0 == before->0);
        }
    }
}

proof fn greatest_count_is_greatest(
    s: Seq<ConditionView>,
    n: nat,
    eval: ConditionEval,
    buffs: BuffMgr,
    readings: Seq<Reading>,
)
    requires
        n <= s.len(),
    ensures
        ({
            let r = greatest_count(s, n, eval, buffs, readings);
            &&& r is Some <==> exists|i: int|
                0 <= i < n && #[trigger] check_count(s[i], eval, buffs, readings[i]) is Some
            &&& r is Some ==> r->0 >= 0 && forall|i: int|
                0 <= i < n && (#[trigger] check_count(s[i], eval, buffs, readings[i])) is Some
                    ==> check_count(s[i], eval, buffs, readings[i])->0 <= r->0
            &&& r is Some && r->0 > 0 ==> exists|i: int|
                0 <= i < n && #[trigger] check_count(s[i], eval, buffs, readings[i]) == r
        }),
    decreases n,
{
    if n > 0 {
        greatest_count_is_greatest(s, (n - 1) as nat, eval, buffs, readings);
        let before = greatest_count(s, (n - 1) as nat, eval, buffs, readings);
        if before is Some {
            let i = choose|i: int|
                0 <= i < n - 1 && #[trigger] check_count(s[i], eval, buffs, readings[i]) is Some;
            assert(check_count(s[i], eval, buffs, readings[i]) is Some);
            if before->0 > 0 {
                let j = choose|j: int|
                    0 <= j < n - 1 && #[trigger] check_count(s[j], eval, buffs, readings[j])
                        == before;
                assert(check_count(s[j], eval, buffs, readings[j]) == before);
            }
        }
    }
}

/// A slot that wants all its conditions holds if every one of them does, and as often as
/// the one that holds least; once if none of them sets a bound.
pub proof fn all_conditions_together(s: SlotView, e: SlotEval, buffs: BuffMgr)
    requires
        s.op == ConditionOp::And,
    ensures
        ({
            let r = slot_count(s, e, buffs);
            let one = |i: int| check_count(s.conditions[i], e.eval, buffs, e.readings@[i]);
            &&& r is Some <==> forall|i: int| 0 <= i < s.conditions.len() ==> #[trigger] one(i) is Some
            &&& r is Some && (exists|i: int|
                0 <= i < s.conditions.len() && (#[trigger] one(i))->0 < i32::MAX) ==> {
                &&& forall|i: int| 0 <= i < s.conditions.len() ==> r->0 <= (#[trigger] one(i))->0
                &&& exists|i: int| 0 <= i < s.conditions.len() && #[trigger] one(i) == r
            }
            &&& r is Some && (forall|i: int|
                0 <= i < s.conditions.len() ==> (#[trigger] one(i))->0 >= i32::MAX) ==> r == Some(
                1int,
            )
        }),
{
    let c = s.conditions;
    let n = c.len();
    let one = |i: int| check_count(c[i], e.eval, buffs, e.readings@[i]);
    least_count_is_least(c, n, e.eval, buffs, e.readings@);
    let least = least_count(c, n, e.eval, buffs, e.readings@);
    assert forall|i: int| 0 <= i < n implies one(i) == #[trigger] check_count(
        c[i],
        e.eval,
        buffs,
        e.readings@[i],
    ) by {}
    if least is None {
        let i = choose|i: int|
            0 <= i < n && #[trigger] check_count(c[i], e.eval, buffs, e.readings@[i]) is None;
        assert(one(i) is None);
    } else {
        assert forall|i: int| 0 <= i < n implies #[trigger] one(i) is Some && least->0 <= one(i)->0 by {
            assert(check_count(c[i], e.eval, buffs, e.readings@[i]) is Some);
        }
        if least->0 < i32::MAX {
            let i = choose|i: int|
                0 <= i < n && (#[trigger] check_count(c[i], e.eval, buffs, e.readings@[i]))->0
                    == least->0;
            assert(one(i) == least);
        }
    }
}

/// A slot that wants one of its conditions holds if any of them does, and as often as the
/// one that holds most.
pub proof fn any_condition_will_do(s: SlotView, e: SlotEval, buffs: BuffMgr)
    requires
        s.op == ConditionOp::Or,
    ensures
        ({
            let r = slot_count(s, e, buffs);
            let one = |i: int| check_count(s.conditions[i], e.eval, buffs, e.readings@[i]);
            &&& r is Some <==> exists|i: int| 0 <= i < s.conditions.len() && #[trigger] one(i) is Some
            &&& r is Some ==> r->0 >= 0 && forall|i: int|
                0 <= i < s.conditions.len() && (#[trigger] one(i)) is Some ==> one(i)->0 <= r->0
            &&& r is Some && r->0 > 0 ==> exists|i: int|
                0 <= i < s.conditions.len() && #[trigger] one(i) == r
        }),
{
    let c = s.conditions;
    let n = c.len();
    let one = |i: int| check_count(c[i], e.eval, buffs, e.readings@[i]);
    greatest_count_is_greatest(c, n, e.eval, buffs, e.readings@);
    let r = greatest_count(c, n, e.eval, buffs, e.readings@);
    if r is Some {
        let i = choose|i: int|
            0 <= i < n && #[trigger] check_count(c[i], e.eval, buffs, e.readings@[i]) is Some;
        assert(one(i) is Some);
        assert forall|k: int| 0 <= k < n && (#[trigger] one(k)) is Some implies one(k)->0 <= r->0 by {
            assert(check_count(c[k], e.eval, buffs, e.readings@[k]) is Some);
        }
        if r->0 > 0 {
            let j = choose|j: int|
                0 <= j < n && #[trigger] check_count(c[j], e.eval, buffs, e.readings@[j]) == r;
            assert(one(j) == r);
        }
    } else {
        assert forall|k: int| 0 <= k < n implies (#[trigger] one(k)) is None by {
            assert(check_count(c[k], e.eval, buffs, e.readings@[k]) is None);
        }
    }
}

/// A slot fires at a moment if its first condition belongs to that moment, it has not
/// used up what it may do in the battle and in the round (zero being no limit), and its
/// conditions hold.
pub proof fn when_a_slot_fires(s: SlotView, hook: Hook, e: SlotEval, buffs: BuffMgr)
    ensures
        slot_fires(s, hook, e, buffs) <==> {
            &&& s.conditions.len() > 0
            &&& exists|i: int|
                0 <= i < s.conditions[0].hooks.len() && s.conditions[0].hooks[i] == hook
            &&& s.limit != 0 ==> s.use_count < s.limit
            &&& s.round_limit != 0 ==> s.round_use_count < s.round_limit
            &&& slot_count(s, e, buffs) is Some
        },
{
    if s.conditions.len() > 0 && s.conditions[0].hooks.contains(hook) {
        let i = choose|i: int|
            0 <= i < s.conditions[0].hooks.len() && s.conditions[0].hooks[i] == hook;
        assert(s.conditions[0].hooks[i] == hook);
    }
}

/// A slot that fires is counted once, for the battle and for the round; any other slot,
/// and everything else of a slot, stays as it is.
pub proof fn a_slot_that_fires_is_counted_once(
    s: Seq<SlotView>,
    hook: Hook,
    evals: Seq<SlotEval>,
    buffs: BuffMgr,
    i: int,
)
    requires
        0 <= i < s.len(),
        s[i].use_count < i32::MAX,
        s[i].round_use_count < i32::MAX,
    ensures
        ({
            let after = slots_after(s, hook, evals, buffs);
            &&& after.len() == s.len()
            &&& !slot_fires(s[i], hook, evals[i], buffs) ==> after[i] == s[i]
            &&& slot_fires(s[i], hook, evals[i], buffs) ==> {
                &&& after[i].use_count == s[i].use_count + 1
                &&& after[i].round_use_count == s[i].round_use_count + 1
                &&& after[i] == (SlotView {
                    use_count: after[i].use_count,
                    round_use_count: after[i].round_use_count,
                    ..s[i]
                })
            }
        }),
{
}

proof fn behaviours_fire_in_order_join(
    count: int,
    attr_fix: bool,
    a: Seq<BehaviourView>,
    b: Seq<BehaviourView>,
)
    ensures
        picked(a + b, count, attr_fix) == picked(a, count, attr_fix) + picked(b, count, attr_fix),
    decreases b.len(),
{
    if b.len() == 0 {
        assert(a + b =~= a);
        assert(picked(a, count, attr_fix) + picked(b, count, attr_fix) =~= picked(a, count, attr_fix));
    } else {
        behaviours_fire_in_order_join(count, attr_fix, a, b.drop_last());
        assert((a + b).drop_last() =~= a + b.drop_last());
        assert((a + b).last() == b.last());
        assert(picked(a + b, count, attr_fix) =~= picked(a, count, attr_fix) + picked(b, count, attr_fix));
    }
}

/// The behaviours of one pass fire in their order, each with the count of its slot:
/// those that fix an attribute in one pass, the others in the other.
pub proof fn behaviours_fire_in_order(
    count: int,
    attr_fix: bool,
    a: Seq<BehaviourView>,
    b: Seq<BehaviourView>,
    x: BehaviourView,
)
    ensures
        picked(a + b, count, attr_fix) == picked(a, count, attr_fix) + picked(b, count, attr_fix),
        picked(Seq::<BehaviourView>::empty(), count, attr_fix).len() == 0,
        picked(seq![x], count, attr_fix) == (if fixes_attr(x.raw) == attr_fix {
            seq![FiredView { raw: x.raw, target: x.target, count }]
        } else {
            Seq::empty()
        }),
{
    behaviours_fire_in_order_join(count, attr_fix, a, b);
    let one = seq![x];
    assert(one.drop_last() =~= Seq::<BehaviourView>::empty());
    assert(one.last() == x);
    assert(picked(one.drop_last(), count, attr_fix).len() == 0);
    assert(picked(seq![x], count, attr_fix) =~= (if fixes_attr(x.raw) == attr_fix {
            seq![FiredView { raw: x.raw, target: x.target, count }]
        } else {
            Seq::empty()
        }));
}

/// The slots fire in their order: what more slots do comes after what the slots before
/// them did, and a slot does nothing unless it fires.
pub proof fn slots_fire_in_order(
    s: Seq<SlotView>,
    hook: Hook,
    evals: Seq<SlotEval>,
    buffs: BuffMgr,
    attr_fix: bool,
    slot: SlotView,
)
    requires
        evals.len() > s.len(),
    ensures
        ({
            let before = slots_fire(s, hook, evals, buffs, attr_fix);
            let after = slots_fire(s.push(slot), hook, evals, buffs, attr_fix);
            let eval = evals[s.len() as int];
            &&& slot_fires(slot, hook, eval, buffs) ==> after == before + picked(
                slot.behaviours,
                slot_count(slot, eval, buffs)->0,
                attr_fix,
            )
            &&& !slot_fires(slot, hook, eval, buffs) ==> after == before
        }),
        slots_fire(Seq::empty(), hook, evals, buffs, attr_fix).len() == 0,
{
    assert(s.push(slot).drop_last() =~= s);
    assert(s.push(slot)[s.len() as int] == slot);
}

/// The behaviours that fix an attribute are those of three ids.
pub proof fn attribute_fixes_by_id(raw: Seq<char>)
    ensures
        fixes_attr(raw) <==> {
            let head = number(pieces(raw, '#')[0]);
            head == Some(10004i32) || head == Some(10011i32) || head == Some(60033i32)
        },
{
    crate::text::pieces_nonempty(raw, '#');
}

proof fn behaviours_are_read_in_order_join(
    target: i32,
    a: Seq<Seq<char>>,
    b: Seq<Seq<char>>,
)
    ensures
        behaviours_in(a + b, target) == behaviours_in(a, target) + behaviours_in(b, target),
    decreases b.len(),
{
    if b.len() == 0 {
        assert(a + b =~= a);
        assert(behaviours_in(a, target) + behaviours_in(b, target) =~= behaviours_in(a, target));
    } else {
        behaviours_are_read_in_order_join(target, a, b.drop_last());
        assert((a + b).drop_last() =~= a + b.drop_last());
        assert((a + b).last() == b.last());
        assert(behaviours_in(a + b, target) =~= behaviours_in(a, target) + behaviours_in(b, target));
    }
}

/// The behaviours of a slot are the parts of its text that say anything, in their order,
/// each for the same targets.
pub proof fn behaviours_are_read_in_order(
    target: i32,
    a: Seq<Seq<char>>,
    b: Seq<Seq<char>>,
    x: Seq<char>,
)
    ensures
        behaviours_in(a + b, target) == behaviours_in(a, target) + behaviours_in(b, target),
        behaviours_in(Seq::<Seq<char>>::empty(), target).len() == 0,
        behaviours_in(seq![x], target) == (if x.len() > 0 {
            seq![BehaviourView { raw: x, target }]
        } else {
            Seq::empty()
        }),
{
    behaviours_are_read_in_order_join(target, a, b);
    let one = seq![x];
    assert(one.drop_last() =~= Seq::<Seq<char>>::empty());
    assert(one.last() == x);
    assert(behaviours_in(one.drop_last(), target).len() == 0);
    assert(behaviours_in(seq![x], target) =~= (if x.len() > 0 {
            seq![BehaviourView { raw: x, target }]
        } else {
            Seq::empty()
        }));
}

proof fn parameters_are_read_in_order_join(
    a: Seq<Seq<char>>,
    b: Seq<Seq<char>>,
)
    ensures
        numbers_in(a + b) == numbers_in(a) + numbers_in(b),
    decreases b.len(),
{
    if b.len() == 0 {
        assert(a + b =~= a);
        assert(numbers_in(a) + numbers_in(b) =~= numbers_in(a));
    } else {
        parameters_are_read_in_order_join(a, b.drop_last());
        assert((a + b).drop_last() =~= a + b.drop_last());
        assert((a + b).last() == b.last());
        assert(numbers_in(a + b) =~= numbers_in(a) + numbers_in(b));
    }
}

/// The parameters of a condition are those parts of its text that are numbers, in their
/// order; marks behind a number do not matter.
pub proof fn parameters_are_read_in_order(
    a: Seq<Seq<char>>,
    b: Seq<Seq<char>>,
    x: Seq<char>,
)
    ensures
        numbers_in(a + b) == numbers_in(a) + numbers_in(b),
        numbers_in(Seq::<Seq<char>>::empty()).len() == 0,
        numbers_in(seq![x]) == (if number(without_bangs(x)) is Some {
            seq![number(without_bangs(x))->0]
        } else {
            Seq::empty()
        }),
{
    parameters_are_read_in_order_join(a, b);
    let one = seq![x];
    assert(one.drop_last() =~= Seq::<Seq<char>>::empty());
    assert(one.last() == x);
    assert(numbers_in(one.drop_last()).len() == 0);
    assert(numbers_in(seq![x]) =~= (if number(without_bangs(x)) is Some {
            seq![number(without_bangs(x))->0]
        } else {
            Seq::empty()
        }));
}

proof fn conditions_are_read_in_order_join(
    ctx: ContextView,
    a: Seq<Seq<char>>,
    b: Seq<Seq<char>>,
)
    ensures
        conditions_in(a + b, ctx) == conditions_in(a, ctx) + conditions_in(b, ctx),
    decreases b.len(),
{
    if b.len() == 0 {
        assert(a + b =~= a);
        assert(conditions_in(a, ctx) + conditions_in(b, ctx) =~= conditions_in(a, ctx));
    } else {
        conditions_are_read_in_order_join(ctx, a, b.drop_last());
        assert((a + b).drop_last() =~= a + b.drop_last());
        assert((a + b).last() == b.last());
        assert(conditions_in(a + b, ctx) =~= conditions_in(a, ctx) + conditions_in(b, ctx));
    }
}

/// The conditions of a text are those of its segments that name one, in their order.
pub proof fn conditions_are_read_in_order(
    ctx: ContextView,
    a: Seq<Seq<char>>,
    b: Seq<Seq<char>>,
    x: Seq<char>,
)
    ensures
        conditions_in(a + b, ctx) == conditions_in(a, ctx) + conditions_in(b, ctx),
        conditions_in(Seq::<Seq<char>>::empty(), ctx).len() == 0,
        conditions_in(seq![x], ctx) == (if condition_in(x, ctx) is Some {
            seq![condition_in(x, ctx)->0]
        } else {
            Seq::empty()
        }),
{
    conditions_are_read_in_order_join(ctx, a, b);
    let one = seq![x];
    assert(one.drop_last() =~= Seq::<Seq<char>>::empty());
    assert(one.last() == x);
    assert(conditions_in(one.drop_last(), ctx).len() == 0);
    assert(conditions_in(seq![x], ctx) =~= (if condition_in(x, ctx) is Some {
            seq![condition_in(x, ctx)->0]
        } else {
            Seq::empty()
        }));
}

/// A segment names a condition if it starts with a known id; the condition is looked at
/// at the moment of that id, and its parameters are the numbers that follow.
pub proof fn a_segment_names_a_condition(segment: Seq<char>, ctx: ContextView)
    ensures
        ({
            let parts = pieces(segment, '#');
            let id = number(parts[0]);
            let r = condition_in(segment, ctx);
            &&& r is Some <==> id is Some && exists|i: int|
                0 <= i < ctx.known.len() && ctx.known[i] == id->0
            &&& r is Some ==> {
                &&& r->0.cond_id == id->0
                &&& r->0.target == ctx.target
                &&& r->0.hooks == hooks_of(id->0, ctx.elsewhere)
                &&& r->0.params == numbers_in(parts.skip(1))
            }
        }),
{
    if number(pieces(segment, '#')[0]) is Some && ctx.known.contains(
        number(pieces(segment, '#')[0])->0,
    ) {
        let id = number(pieces(segment, '#')[0])->0;
        let i = choose|i: int| 0 <= i < ctx.known.len() && ctx.known[i] == id;
        assert(ctx.known[i] == id);
    }
}

/// The marks behind a number are taken off, all of them and nothing else.
pub proof fn marks_are_taken_off(s: Seq<char>)
    ensures
        ({
            let t = without_bangs(s);
            &&& t.len() <= s.len()
            &&& t == s.take(t.len() as int)
            &&& t.len() > 0 ==> t.last() != '!'
            &&& forall|i: int| t.len() <= i < s.len() ==> s[i] == '!'
        }),
    decreases s.len(),
{
    if s.len() > 0 && s.last() == '!' {
        marks_are_taken_off(s.drop_last());
        let t = without_bangs(s);
        assert(s.drop_last().take(t.len() as int) =~= s.take(t.len() as int));
        assert forall|i: int| t.len() <= i < s.len() implies s[i] == '!' by {
            if i < s.len() - 1 {
                assert(s.drop_last()[i] == '!');
            }
        }
    } else {
        assert(s.take(s.len() as int) =~= s);
    }
}

/// A text with an ampersand wants all its conditions and is split there; any other wants
/// one of them and is split at the bars.
pub proof fn how_conditions_are_joined(raw: Seq<char>)
    ensures
        (exists|i: int| 0 <= i < raw.len() && raw[i] == '&') ==> op_of(raw) == ConditionOp::And
            && separator_of(raw) == '&',
        (forall|i: int| 0 <= i < raw.len() ==> raw[i] != '&') ==> op_of(raw) == ConditionOp::Or
            && separator_of(raw) == '|',
{
    if exists|i: int| 0 <= i < raw.len() && raw[i] == '&' {
        let i = choose|i: int| 0 <= i < raw.len() && raw[i] == '&';
        assert(raw.contains('&'));
    }
}

} // verus!
