//! The slots of a skill effect: conditions, behaviours, and how often they fire.

use crate::buffs::BuffMgr;
use crate::effect::behavior::attr_modify::{
    calculate_bonuses, target_bonuses, target_bonuses_fit,
};
use crate::effect::behavior::{behaviours_view, fixes_attr, is_attr_fix, Behaviour, BehaviourView};
use crate::effect::condition::{
    check_count, conditions_view, opt_int, sums_fit, Condition, ConditionEval, ConditionOp,
    ConditionView, Hook, Reading,
};
use crate::manager::attr_bonus::{merged, AttrBonusMap};
use crate::model::{Fight, FightView};
use vstd::prelude::*;

verus! {

/// One slot: it fires when its conditions hold, as often as its limits allow. A
/// limit of zero is no limit.
#[derive(Debug)]
pub struct EffectSlot {
    pub op: ConditionOp,
    pub conditions: Vec<Condition>,
    pub behaviours: Vec<Behaviour>,
    pub limit: i32,
    pub round_limit: i32,
    pub use_count: i32,
    pub round_use_count: i32,
}

/// [`EffectSlot`] as a mathematical value.
pub struct SlotView {
    pub op: ConditionOp,
    pub conditions: Seq<ConditionView>,
    pub behaviours: Seq<BehaviourView>,
    pub limit: i32,
    pub round_limit: i32,
    pub use_count: i32,
    pub round_use_count: i32,
}

impl View for EffectSlot {
    type V = SlotView;

    open spec fn view(&self) -> SlotView {
        SlotView {
            op: self.op,
            conditions: conditions_view(self.conditions@),
            behaviours: behaviours_view(self.behaviours@),
            limit: self.limit,
            round_limit: self.round_limit,
            use_count: self.use_count,
            round_use_count: self.round_use_count,
        }
    }
}

/// The slots of a list, each by its view.
pub open spec fn slots_view(v: Seq<EffectSlot>) -> Seq<SlotView> {
    Seq::new(v.len(), |i: int| v[i]@)
}

/// What the conditions of a slot are checked against, and what the battle state
/// says about each of them.
#[derive(Debug)]
pub struct SlotEval {
    pub eval: ConditionEval,
    pub readings: Vec<Reading>,
}

impl SlotView {
    /// Whether the slot is looked at at a moment: its first condition belongs to it.
    pub open spec fn hooked(self, hook: Hook) -> bool {
        self.conditions.len() > 0 && self.conditions[0].hooks.contains(hook)
    }

    /// Whether the limits of the slot allow it to fire once more.
    pub open spec fn allowed(self) -> bool {
        (self.limit == 0 || self.use_count < self.limit) && (self.round_limit == 0
            || self.round_use_count < self.round_limit)
    }

    /// The slot after it fired.
    pub open spec fn fired(self) -> SlotView {
        SlotView {
            use_count: (self.use_count + 1) as i32,
            round_use_count: (self.round_use_count + 1) as i32,
            ..self
        }
    }
}

/// The least count of the first conditions; none if one of them does not hold.
pub open spec fn least_count(
    s: Seq<ConditionView>,
    n: nat,
    eval: ConditionEval,
    buffs: BuffMgr,
    readings: Seq<Reading>,
) -> Option<int>
    decreases n,
{
    if n == 0 {
        Some(i32::MAX as int)
    } else {
        match least_count(s, (n - 1) as nat, eval, buffs, readings) {
            None => None,
            Some(least) => match check_count(s[n - 1], eval, buffs, readings[n - 1]) {
                None => None,
                Some(c) => if c < least {
                    Some(c)
                } else {
                    Some(least)
                },
            },
        }
    }
}

/// The greatest count of the first conditions, at least zero; none if none of them
/// holds.
pub open spec fn greatest_count(
    s: Seq<ConditionView>,
    n: nat,
    eval: ConditionEval,
    buffs: BuffMgr,
    readings: Seq<Reading>,
) -> Option<int>
    decreases n,
{
    if n == 0 {
        None
    } else {
        let before = greatest_count(s, (n - 1) as nat, eval, buffs, readings);
        match check_count(s[n - 1], eval, buffs, readings[n - 1]) {
            None => before,
            Some(c) => {
                let most = match before {
                    Some(b) => b,
                    None => 0,
                };
                if c > most {
                    Some(c)
                } else {
                    Some(most)
                }
            },
        }
    }
}

/// How often the conditions of a slot hold together. All of them: the least count,
/// once where there is no count to speak of. One of them: the greatest count.
pub open spec fn slot_count(s: SlotView, e: SlotEval, buffs: BuffMgr) -> Option<int> {
    let n = s.conditions.len();
    match s.op {
        ConditionOp::And => match least_count(s.conditions, n, e.eval, buffs, e.readings@) {
            Some(c) => if c == i32::MAX {
                Some(1)
            } else {
                Some(c)
            },
            None => None,
        },
        ConditionOp::Or => greatest_count(s.conditions, n, e.eval, buffs, e.readings@),
    }
}

/// There is a reading for every condition, and its counts can be summed.
pub open spec fn readable(s: SlotView, e: SlotEval) -> bool {
    &&& e.readings@.len() == s.conditions.len()
    &&& forall|i: int| 0 <= i < e.readings@.len() ==> sums_fit((#[trigger] e.readings@[i]).counts@)
}

/// Once a condition does not hold, all of them together do not.
proof fn least_count_none(
    s: Seq<ConditionView>,
    n: nat,
    m: nat,
    eval: ConditionEval,
    buffs: BuffMgr,
    readings: Seq<Reading>,
)
    requires
        n <= m,
        least_count(s, n, eval, buffs, readings) is None,
    ensures
        least_count(s, m, eval, buffs, readings) is None,
    decreases m,
{
    if n < m {
        least_count_none(s, n, (m - 1) as nat, eval, buffs, readings);
    }
}

impl EffectSlot {
    /// Whether the slot is looked at at a moment.
    pub fn matches_hook(&self, hook: Hook) -> (r: bool)
        ensures
            r == self@.hooked(hook),
    {
        if self.conditions.len() == 0 {
            return false;
        }
        let hooks = &self.conditions[0].hooks;
        assert(self@.conditions[0].hooks == hooks@);
        for i in 0..hooks.len()
            invariant
                forall|k: int| 0 <= k < i ==> hooks@[k] != hook,
                self@.conditions.len() > 0,
                self@.conditions[0].hooks == hooks@,
        {
            if hooks[i] == hook {
                assert(hooks@.contains(hook));
                return true;
            }
        }
        false
    }

    /// How often the conditions of the slot hold together; see [`slot_count`].
    pub fn check_conditions(&self, e: &SlotEval, buffs: &BuffMgr) -> (r: Option<i32>)
        requires
            readable(self@, *e),
        ensures
            opt_int(r) == slot_count(self@, *e, *buffs),
    {
        let n = self.conditions.len();
        let ghost s = self@.conditions;
        match self.op {
            ConditionOp::And => {
                let mut least: i32 = i32::MAX;
                for i in 0..n
                    invariant
                        n == self.conditions@.len(),
                        s == conditions_view(self.conditions@),
                        s == self@.conditions,
                        self.op == ConditionOp::And,
                        readable(self@, *e),
                        least_count(s, i as nat, e.eval, *buffs, e.readings@) == Some(least as int),
                {
                    assert(s[i as int] == self.conditions@[i as int]@);
                    match self.conditions[i].check(&e.eval, buffs, &e.readings[i]) {
                        Some(c) => {
                            if c < least {
                                least = c;
                            }
                        },
                        None => {
                            proof {
                                least_count_none(
                                    s,
                                    (i + 1) as nat,
                                    s.len(),
                                    e.eval,
                                    *buffs,
                                    e.readings@,
                                );
                            }
                            return None;
                        },
                    }
                }
                if least == i32::MAX {
                    Some(1)
                } else {
                    Some(least)
                }
            },
            ConditionOp::Or => {
                let mut most: i32 = 0;
                let mut matched: bool = false;
                for i in 0..n
                    invariant
                        n == self.conditions@.len(),
                        s == conditions_view(self.conditions@),
                        s == self@.conditions,
                        readable(self@, *e),
                        !matched ==> most == 0,
                        greatest_count(s, i as nat, e.eval, *buffs, e.readings@) == (if matched {
                            Some(most as int)
                        } else {
                            None
                        }),
                {
                    assert(s[i as int] == self.conditions@[i as int]@);
                    if let Some(c) = self.conditions[i].check(&e.eval, buffs, &e.readings[i]) {
                        if c > most {
                            most = c;
                        }
                        matched = true;
                    }
                }
                if matched {
                    Some(most)
                } else {
                    None
                }
            },
        }
    }

    /// Whether the limits of the slot allow it to fire once more.
    pub fn within_limits(&self) -> (r: bool)
        ensures
            r == self@.allowed(),
    {
        (self.limit == 0 || self.use_count < self.limit) && (self.round_limit == 0
            || self.round_use_count < self.round_limit)
    }
}

/// A behaviour that fired: on what target code, and how often.
#[derive(Debug)]
pub struct FiredBehaviour {
    pub raw: String,
    pub target: i32,
    pub count: i32,
}

/// [`FiredBehaviour`] as a mathematical value.
pub struct FiredView {
    pub raw: Seq<char>,
    pub target: i32,
    pub count: int,
}

impl View for FiredBehaviour {
    type V = FiredView;

    open spec fn view(&self) -> FiredView {
        FiredView { raw: self.raw@, target: self.target, count: self.count as int }
    }
}

/// The fired behaviours of a list, each by its view.
pub open spec fn fired_view(v: Seq<FiredBehaviour>) -> Seq<FiredView> {
    Seq::new(v.len(), |i: int| v[i]@)
}

/// The behaviours of one pass: those that fix an attribute, or the others.
pub open spec fn picked(s: Seq<BehaviourView>, count: int, attr_fix: bool) -> Seq<FiredView>
    decreases s.len(),
{
    if s.len() == 0 {
        Seq::empty()
    } else {
        let before = picked(s.drop_last(), count, attr_fix);
        let b = s.last();
        if fixes_attr(b.raw) == attr_fix {
            before.push(FiredView { raw: b.raw, target: b.target, count })
        } else {
            before
        }
    }
}

/// Whether a slot fires at a moment.
pub open spec fn slot_fires(s: SlotView, hook: Hook, e: SlotEval, buffs: BuffMgr) -> bool {
    s.hooked(hook) && s.allowed() && slot_count(s, e, buffs) is Some
}

/// What the slots do at a moment, in their order.
pub open spec fn slots_fire(
    s: Seq<SlotView>,
    hook: Hook,
    evals: Seq<SlotEval>,
    buffs: BuffMgr,
    attr_fix: bool,
) -> Seq<FiredView>
    decreases s.len(),
{
    if s.len() == 0 {
        Seq::empty()
    } else {
        let i = s.len() - 1;
        let before = slots_fire(s.drop_last(), hook, evals, buffs, attr_fix);
        if slot_fires(s[i], hook, evals[i], buffs) {
            before + picked(s[i].behaviours, slot_count(s[i], evals[i], buffs)->0, attr_fix)
        } else {
            before
        }
    }
}

/// The slots after those that fired were counted.
pub open spec fn slots_after(
    s: Seq<SlotView>,
    hook: Hook,
    evals: Seq<SlotEval>,
    buffs: BuffMgr,
) -> Seq<SlotView> {
    Seq::new(
        s.len(),
        |i: int|
            if slot_fires(s[i], hook, evals[i], buffs) {
                s[i].fired()
            } else {
                s[i]
            },
    )
}

/// The effect of a skill on behalf of its owner.
#[derive(Debug)]
pub struct SkillEffect {
    pub owner_uid: i64,
    pub slots: Vec<EffectSlot>,
}

/// [`SkillEffect`] as a mathematical value.
pub struct SkillEffectView {
    pub owner_uid: i64,
    pub slots: Seq<SlotView>,
}

impl View for SkillEffect {
    type V = SkillEffectView;

    open spec fn view(&self) -> SkillEffectView {
        SkillEffectView { owner_uid: self.owner_uid, slots: slots_view(self.slots@) }
    }
}

/// There is one reading for each slot, and every slot that is checked at a moment can
/// be checked.
pub open spec fn fireable(s: Seq<SlotView>, hook: Hook, evals: Seq<SlotEval>) -> bool {
    &&& evals.len() == s.len()
    &&& forall|i: int|
        #![trigger s[i]]
        0 <= i < s.len() && s[i].hooked(hook) && s[i].allowed() ==> readable(s[i], evals[i])
}

/// The counters of every slot that fires at a moment can grow.
pub open spec fn countable(
    s: Seq<SlotView>,
    hook: Hook,
    evals: Seq<SlotEval>,
    buffs: BuffMgr,
) -> bool {
    forall|i: int|
        #![trigger s[i]]
        0 <= i < s.len() && slot_fires(s[i], hook, evals[i], buffs) ==> s[i].use_count < i32::MAX
            && s[i].round_use_count < i32::MAX
}

fn push_picked(out: &mut Vec<FiredBehaviour>, slot: &EffectSlot, count: i32, attr_fix: bool)
    ensures
        fired_view(final(out)@) == fired_view(old(out)@) + picked(
            slot@.behaviours,
            count as int,
            attr_fix,
        ),
{
    let ghost start = fired_view(out@);
    let ghost s = slot@.behaviours;
    assert(start + picked(s.take(0), count as int, attr_fix) =~= start);
    for i in 0..slot.behaviours.len()
        invariant
            s == behaviours_view(slot.behaviours@),
            fired_view(out@) == start + picked(s.take(i as int), count as int, attr_fix),
    {
        assert(s.take(i + 1).drop_last() =~= s.take(i as int));
        assert(s.take(i + 1).last() == slot.behaviours@[i as int]@);
        let ghost before = fired_view(out@);
        let b = &slot.behaviours[i];
        if is_attr_fix(b.raw.as_str()) == attr_fix {
            let fired = FiredBehaviour { raw: b.raw.clone(), target: b.target, count };
            out.push(fired);
            assert(fired_view(out@) =~= before.push(fired@));
        }
        assert(fired_view(out@) =~= start + picked(s.take(i + 1), count as int, attr_fix));
    }
    assert(s.take(s.len() as int) =~= s);
}

impl SkillEffect {
    /// An effect without slots.
    pub fn empty(owner_uid: i64) -> (r: SkillEffect)
        ensures
            r@ == (SkillEffectView { owner_uid, slots: Seq::empty() }),
    {
        let r = SkillEffect { owner_uid, slots: Vec::new() };
        assert(r@.slots =~= Seq::empty());
        r
    }

    /// A new round: the limits per round start again.
    pub fn reset_round_counts(&mut self)
        ensures
            final(self)@ == (SkillEffectView {
                slots: Seq::new(
                    old(self)@.slots.len(),
                    |i: int| SlotView { round_use_count: 0, ..old(self)@.slots[i] },
                ),
                ..old(self)@
            }),
    {
        let ghost start = self@.slots;
        let ghost goal = Seq::new(
            start.len(),
            |i: int| SlotView { round_use_count: 0, ..start[i] },
        );
        let n = self.slots.len();
        for i in 0..n
            invariant
                n == start.len(),
                self.slots@.len() == n,
                self.owner_uid == old(self).owner_uid,
                forall|k: int|
                    0 <= k < i ==> (#[trigger] self.slots@[k])@ == (SlotView {
                        round_use_count: 0,
                        ..start[k]
                    }),
                forall|k: int| i <= k < n ==> (#[trigger] self.slots@[k])@ == start[k],
        {
            self.slots[i].round_use_count = 0;
        }
        assert(self@.slots =~= goal);
    }

    /// Fires the slots at a moment: counts each slot that fires, and returns what
    /// they do, but for the behaviours that fix an attribute.
    pub fn fire_hook(&mut self, hook: Hook, evals: &Vec<SlotEval>, buffs: &BuffMgr) -> (r: Vec<
        FiredBehaviour,
    >)
        requires
            fireable(old(self)@.slots, hook, evals@),
            countable(old(self)@.slots, hook, evals@, *buffs),
        ensures
            fired_view(r@) == slots_fire(old(self)@.slots, hook, evals@, *buffs, false),
            final(self)@ == (SkillEffectView {
                slots: slots_after(old(self)@.slots, hook, evals@, *buffs),
                ..old(self)@
            }),
    {
        let ghost start = self@.slots;
        let mut out: Vec<FiredBehaviour> = Vec::new();
        let n = self.slots.len();
        assert(fired_view(out@) =~= slots_fire(start.take(0), hook, evals@, *buffs, false));
        for i in 0..n
            invariant
                n == start.len(),
                self.slots@.len() == n,
                self.owner_uid == old(self).owner_uid,
                fireable(start, hook, evals@),
                countable(start, hook, evals@, *buffs),
                fired_view(out@) == slots_fire(
                    start.take(i as int),
                    hook,
                    evals@,
                    *buffs,
                    false,
                ),
                forall|k: int|
                    0 <= k < i ==> (#[trigger] self.slots@[k])@ == slots_after(
                        start,
                        hook,
                        evals@,
                        *buffs,
                    )[k],
                forall|k: int| i <= k < n ==> (#[trigger] self.slots@[k])@ == start[k],
        {
            assert(start.take(i + 1).drop_last() =~= start.take(i as int));
            assert(start.take(i + 1)[i as int] == start[i as int]);
            assert(self.slots@[i as int]@ == start[i as int]);
            if self.slots[i].matches_hook(hook) && self.slots[i].within_limits() {
                if let Some(count) = self.slots[i].check_conditions(&evals[i], buffs) {
                    push_picked(&mut out, &self.slots[i], count, false);
                    let uses: i32 = self.slots[i].use_count + 1;
                    let round_uses: i32 = self.slots[i].round_use_count + 1;
                    self.slots[i].use_count = uses;
                    self.slots[i].round_use_count = round_uses;
                }
            }
            assert(slots_after(start, hook, evals@, *buffs)[i as int] == self.slots@[i as int]@);
        }
        assert(start.take(n as int) =~= start);
        assert(self@.slots =~= slots_after(start, hook, evals@, *buffs));
        out
    }

    /// What the slots do at a moment of the behaviours that fix an attribute. This
    /// pass counts nothing: the other pass does.
    pub fn fire_hook_attr_fix(&self, hook: Hook, evals: &Vec<SlotEval>, buffs: &BuffMgr) -> (r:
        Vec<FiredBehaviour>)
        requires
            fireable(self@.slots, hook, evals@),
        ensures
            fired_view(r@) == slots_fire(self@.slots, hook, evals@, *buffs, true),
    {
        let ghost start = self@.slots;
        let mut out: Vec<FiredBehaviour> = Vec::new();
        assert(fired_view(out@) =~= slots_fire(start.take(0), hook, evals@, *buffs, true));
        for i in 0..self.slots.len()
            invariant
                start == slots_view(self.slots@),
                fireable(start, hook, evals@),
                fired_view(out@) == slots_fire(start.take(i as int), hook, evals@, *buffs, true),
        {
            assert(start.take(i + 1).drop_last() =~= start.take(i as int));
            assert(start.take(i + 1)[i as int] == start[i as int]);
            assert(self.slots@[i as int]@ == start[i as int]);
            if self.slots[i].matches_hook(hook) && self.slots[i].within_limits() {
                if let Some(count) = self.slots[i].check_conditions(&evals[i], buffs) {
                    push_picked(&mut out, &self.slots[i], count, true);
                }
            }
        }
        assert(start.take(start.len() as int) =~= start);
        out
    }

    /// Fires the slots at the moment an active skill is worked out.
    pub fn on_eval_active_skill(&mut self, evals: &Vec<SlotEval>, buffs: &BuffMgr) -> (r: Vec<
        FiredBehaviour,
    >)
        requires
            fireable(old(self)@.slots, Hook::EvalActiveSkill, evals@),
            countable(old(self)@.slots, Hook::EvalActiveSkill, evals@, *buffs),
        ensures
            fired_view(r@) == slots_fire(
                old(self)@.slots,
                Hook::EvalActiveSkill,
                evals@,
                *buffs,
                false,
            ),
            final(self)@ == (SkillEffectView {
                slots: slots_after(old(self)@.slots, Hook::EvalActiveSkill, evals@, *buffs),
                ..old(self)@
            }),
    {
        self.fire_hook(Hook::EvalActiveSkill, evals, buffs)
    }
}

/// A fired behaviour together with the fighters that its target code names.
#[derive(Debug)]
pub struct AimedBehaviour {
    pub fired: FiredBehaviour,
    pub targets: Vec<i64>,
}

/// The bonuses of some fired behaviours, gathered one after the other.
pub open spec fn gathered(f: FightView, s: Seq<AimedBehaviour>) -> Map<(i64, i32), Seq<i32>>
    decreases s.len(),
{
    if s.len() == 0 {
        Map::empty()
    } else {
        let b = s.last();
        merged(
            gathered(f, s.drop_last()),
            target_bonuses(f, b.targets@, b.fired.raw@, b.fired.count),
        )
    }
}

/// Gathers the bonuses of fired behaviours that fix an attribute.
pub fn gather_bonuses(fight: &Fight, aimed: &Vec<AimedBehaviour>) -> (r: AttrBonusMap)
    requires
        forall|i: int|
            0 <= i < aimed@.len() ==> target_bonuses_fit(
                fight@,
                (#[trigger] aimed@[i]).targets@,
                aimed@[i].fired.raw@,
                aimed@[i].fired.count,
            ),
    ensures
        r@ == gathered(fight@, aimed@),
{
    let mut out = AttrBonusMap::new();
    assert(aimed@.take(0).len() == 0);
    for i in 0..aimed.len()
        invariant
            out@ == gathered(fight@, aimed@.take(i as int)),
            forall|k: int|
                0 <= k < aimed@.len() ==> target_bonuses_fit(
                    fight@,
                    (#[trigger] aimed@[k]).targets@,
                    aimed@[k].fired.raw@,
                    aimed@[k].fired.count,
                ),
    {
        assert(aimed@.take(i + 1).drop_last() =~= aimed@.take(i as int));
        let b = &aimed[i];
        assert(target_bonuses_fit(
            fight@,
            aimed@[i as int].targets@,
            aimed@[i as int].fired.raw@,
            aimed@[i as int].fired.count,
        ));
        let more = calculate_bonuses(fight, &b.targets, b.fired.raw.as_str(), b.fired.count);
        out.merge(more);
    }
    assert(aimed@.take(aimed@.len() as int) =~= aimed@);
    out
}

/// A slot that has used up its limit does not fire.
pub proof fn limit_is_kept(s: SlotView, hook: Hook, e: SlotEval, buffs: BuffMgr)
    requires
        (s.limit != 0 && s.use_count >= s.limit) || (s.round_limit != 0 && s.round_use_count
            >= s.round_limit),
    ensures
        !slot_fires(s, hook, e, buffs),
{
}

/// Firing never brings a slot above its limits.
pub proof fn uses_stay_within(s: SlotView, hook: Hook, e: SlotEval, buffs: BuffMgr)
    requires
        slot_fires(s, hook, e, buffs),
        s.use_count < i32::MAX,
        s.round_use_count < i32::MAX,
    ensures
        s.limit != 0 ==> s.fired().use_count <= s.limit,
        s.round_limit != 0 ==> s.fired().round_use_count <= s.round_limit,
{
}

} // verus!
