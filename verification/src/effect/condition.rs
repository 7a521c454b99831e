//! When the slots of a skill fire: conditions, and how they are read and checked.

use crate::arith::fits;
use crate::buffs::{has_buff, holds, BuffMgr};
use crate::text::{
    chars_of, number, parse_number, pieces, pieces_nonempty, split_text, texts_view,
};
use vstd::prelude::*;
use vstd::string::*;

verus! {

/// The moments at which skills are looked at.
#[derive(Clone, Copy, PartialEq, Eq, Structural, Debug, Hash)]
pub enum Hook {
    Dead,
    EnterFight,
    RoundStart,
    RoundEnd,
    BattleStart,
    UseCard,
    MoveCard,
    CardUpgrade,
    BuffAdd,
    BuffLost,
    EvalActiveSkill,
    EvalBeingAttacked,
    UseExSkill,
    AfterAction,
}

/// Whether all conditions of a slot must hold, or one of them.
#[derive(Clone, Copy, PartialEq, Eq, Structural, Debug)]
pub enum ConditionOp {
    And,
    Or,
}

/// One condition of a slot.
#[derive(Debug)]
pub struct Condition {
    pub hooks: Vec<Hook>,
    pub cond_id: i32,
    pub target: i32,
    pub params: Vec<i32>,
}

/// [`Condition`] as a mathematical value.
pub struct ConditionView {
    pub hooks: Seq<Hook>,
    pub cond_id: i32,
    pub target: i32,
    pub params: Seq<i32>,
}

impl View for Condition {
    type V = ConditionView;

    open spec fn view(&self) -> ConditionView {
        ConditionView {
            hooks: self.hooks@,
            cond_id: self.cond_id,
            target: self.target,
            params: self.params@,
        }
    }
}

/// How a condition is checked.
#[derive(Clone, Copy, PartialEq, Eq, Structural, Debug)]
pub enum CheckKind {
    /// The fighter at hand is among the targets.
    Aligned,
    /// The fighter at hand is among the targets of the skill.
    SkillAligned,
    /// As `Aligned`, and there are parameters.
    TaggedAligned,
    /// The fighter at hand is among the targets and lost one of the listed buffs.
    BuffLost,
    /// No target of the skill bears one of the listed buffs.
    NoBuff,
    /// How many of the listed buffs the targets of the skill bear.
    BuffCount,
    /// The battle state decides elsewhere.
    Elsewhere,
    /// Never holds.
    Never,
}

/// How a condition is checked, by its id.
pub open spec fn check_kind(id: i32) -> CheckKind {
    if id == 101 || id == 102 || id == 104 || id == 201 || id == 203 || id == 208 || id == 210 || id
        == 304 || id == 301 || id == 22209 || id == 8 || id == 812 || id == 5 || id == 5021 {
        CheckKind::Aligned
    } else if id == 25210 {
        CheckKind::SkillAligned
    } else if id == 34210 {
        CheckKind::TaggedAligned
    } else if id == 49 {
        CheckKind::BuffLost
    } else if id == 57208 {
        CheckKind::NoBuff
    } else if id == 61003 || id == 61203 {
        CheckKind::BuffCount
    } else if id == 45104 || id == 17 || id == 10 || id == 19201 || id == 19208 || id == 19202 || id
        == 19209 || id == 19210 || id == 19203 {
        CheckKind::Elsewhere
    } else {
        CheckKind::Never
    }
}

fn kind_of_check(id: i32) -> (r: CheckKind)
    ensures
        r == check_kind(id),
{
    match id {
        101 | 102 | 104 | 201 | 203 | 208 | 210 | 304 | 301 | 22209 | 8 | 812 | 5 | 5021 =>
            CheckKind::Aligned,
        25210 => CheckKind::SkillAligned,
        34210 => CheckKind::TaggedAligned,
        49 => CheckKind::BuffLost,
        57208 => CheckKind::NoBuff,
        61003 | 61203 => CheckKind::BuffCount,
        45104 | 17 | 10 | 19201 | 19208 | 19202 | 19209 | 19210 | 19203 => CheckKind::Elsewhere,
        _ => CheckKind::Never,
    }
}

/// The moments of the two conditions that are decided wholly elsewhere: the death
/// of a teammate, and the gain of a buff.
#[derive(Clone, Copy, PartialEq, Eq, Structural, Debug)]
pub struct OtherHooks {
    pub teammate_dead: Hook,
    pub buff_added: Hook,
}

/// The moment that a condition belongs to, by its id; none for an id that is not
/// looked at.
pub open spec fn hook_of(id: i32, elsewhere: OtherHooks) -> Option<Hook> {
    if id == 45104 || id == 101 || id == 102 || id == 104 {
        Some(Hook::RoundStart)
    } else if id == 201 || id == 203 || id == 19201 || id == 19208 || id == 19203 || id == 61003
        || id == 61203 {
        Some(Hook::EvalActiveSkill)
    } else if id == 208 || id == 210 || id == 19210 || id == 57208 || id == 34210 {
        Some(Hook::AfterAction)
    } else if id == 304 || id == 301 {
        Some(Hook::RoundEnd)
    } else if id == 22209 || id == 19202 || id == 19209 {
        Some(Hook::EvalBeingAttacked)
    } else if id == 8 || id == 812 {
        Some(Hook::Dead)
    } else if id == 5 || id == 5021 {
        Some(Hook::EnterFight)
    } else if id == 25210 {
        Some(Hook::UseExSkill)
    } else if id == 49 {
        Some(Hook::BuffLost)
    } else if id == 17 {
        Some(elsewhere.teammate_dead)
    } else if id == 10 {
        Some(elsewhere.buff_added)
    } else {
        None
    }
}

/// The moments that a condition belongs to.
pub open spec fn hooks_of(id: i32, elsewhere: OtherHooks) -> Seq<Hook> {
    match hook_of(id, elsewhere) {
        Some(h) => seq![h],
        None => Seq::empty(),
    }
}

/// Looks up the moments that a condition belongs to.
pub fn hooks_for_type(id: i32, elsewhere: OtherHooks) -> (r: Vec<Hook>)
    ensures
        r@ == hooks_of(id, elsewhere),
{
    let hook: Option<Hook> = match id {
        45104 | 101 | 102 | 104 => Some(Hook::RoundStart),
        201 | 203 | 19201 | 19208 | 19203 | 61003 | 61203 => Some(Hook::EvalActiveSkill),
        208 | 210 | 19210 | 57208 | 34210 => Some(Hook::AfterAction),
        304 | 301 => Some(Hook::RoundEnd),
        22209 | 19202 | 19209 => Some(Hook::EvalBeingAttacked),
        8 | 812 => Some(Hook::Dead),
        5 | 5021 => Some(Hook::EnterFight),
        25210 => Some(Hook::UseExSkill),
        49 => Some(Hook::BuffLost),
        17 => Some(elsewhere.teammate_dead),
        10 => Some(elsewhere.buff_added),
        _ => None,
    };
    let mut out: Vec<Hook> = Vec::new();
    if let Some(h) = hook {
        out.push(h);
    }
    assert(out@ =~= hooks_of(id, elsewhere));
    out
}

/// What the conditions of a slot are checked against.
#[derive(Debug)]
pub struct ConditionEval {
    /// The fighters that the condition's target code names.
    pub targets: Vec<i64>,
    /// The same, where the code may name the target of the skill.
    pub skill_targets: Vec<i64>,
    /// The fighter at hand.
    pub target_uid: i64,
    /// The buff that was just lost, if any.
    pub lost_buff_id: Option<i32>,
}

/// What the battle state says about one condition.
#[derive(Debug)]
pub struct Reading {
    /// The outcome of a check that is made elsewhere.
    pub outcome: bool,
    /// For each target of the skill, how many of the listed buffs it bears.
    pub counts: Vec<i32>,
}

/// The sum of some numbers.
pub open spec fn total(s: Seq<i32>) -> int
    decreases s.len(),
{
    if s.len() == 0 {
        0
    } else {
        total(s.drop_last()) + s.last()
    }
}

/// Every partial sum is in range.
pub open spec fn sums_fit(s: Seq<i32>) -> bool {
    forall|n: int| 0 <= n <= s.len() ==> fits(#[trigger] total(s.take(n)))
}

fn add_up(v: &Vec<i32>) -> (r: i32)
    requires
        sums_fit(v@),
    ensures
        r == total(v@),
{
    let mut sum: i32 = 0;
    assert(v@.take(0).len() == 0);
    for i in 0..v.len()
        invariant
            sums_fit(v@),
            sum == total(v@.take(i as int)),
    {
        assert(v@.take(i + 1).drop_last() =~= v@.take(i as int));
        assert(fits(total(v@.take(i + 1))));
        sum = sum + v[i];
    }
    assert(v@.take(v@.len() as int) =~= v@);
    sum
}

/// Whether no fighter of a list bears one of the listed buffs.
pub open spec fn none_bears(uids: Seq<i64>, ids: Seq<i32>, buffs: BuffMgr) -> bool {
    forall|i: int, j: int|
        #![trigger uids[i], ids[j]]
        0 <= i < uids.len() && 0 <= j < ids.len() ==> !holds(buffs.of(uids[i]), ids[j])
}

fn check_none_bears(uids: &Vec<i64>, ids: &Vec<i32>, buffs: &BuffMgr) -> (r: bool)
    ensures
        r == none_bears(uids@, ids@, *buffs),
{
    for i in 0..uids.len()
        invariant
            forall|a: int, b: int|
                #![trigger uids@[a], ids@[b]]
                0 <= a < i && 0 <= b < ids@.len() ==> !holds(buffs.of(uids@[a]), ids@[b]),
    {
        let held = buffs.get(uids[i]);
        for j in 0..ids.len()
            invariant
                i < uids@.len(),
                held@ == buffs.of(uids@[i as int]),
                forall|b: int| 0 <= b < j ==> !holds(held@, #[trigger] ids@[b]),
        {
            if has_buff(&held, ids[j]) {
                assert(uids@[i as int] == uids@[i as int] && ids@[j as int] == ids@[j as int]);
                return false;
            }
        }
    }
    true
}

/// How often a condition holds: none where it does not; once, but for counts.
pub open spec fn check_count(
    c: ConditionView,
    eval: ConditionEval,
    buffs: BuffMgr,
    reading: Reading,
) -> Option<int> {
    let once = |b: bool|
        if b {
            Some(1int)
        } else {
            None
        };
    match check_kind(c.cond_id) {
        CheckKind::Aligned => once(eval.targets@.contains(eval.target_uid)),
        CheckKind::SkillAligned => once(eval.skill_targets@.contains(eval.target_uid)),
        CheckKind::TaggedAligned => once(
            c.params.len() > 0 && eval.targets@.contains(eval.target_uid),
        ),
        CheckKind::BuffLost => once(
            eval.lost_buff_id is Some && eval.targets@.contains(eval.target_uid)
                && c.params.contains(eval.lost_buff_id->0),
        ),
        CheckKind::NoBuff => once(
            c.params.len() == 0 || none_bears(eval.skill_targets@, c.params, buffs),
        ),
        CheckKind::BuffCount => if c.params.len() > 0 && total(reading.counts@) > 0 {
            Some(total(reading.counts@))
        } else {
            None
        },
        CheckKind::Elsewhere => once(reading.outcome),
        CheckKind::Never => None,
    }
}

fn contains_uid(v: &Vec<i64>, uid: i64) -> (r: bool)
    ensures
        r == v@.contains(uid),
{
    for i in 0..v.len()
        invariant
            forall|k: int| 0 <= k < i ==> v@[k] != uid,
    {
        if v[i] == uid {
            return true;
        }
    }
    false
}

fn contains_id(v: &Vec<i32>, id: i32) -> (r: bool)
    ensures
        r == v@.contains(id),
{
    for i in 0..v.len()
        invariant
            forall|k: int| 0 <= k < i ==> v@[k] != id,
    {
        if v[i] == id {
            return true;
        }
    }
    false
}

fn once(b: bool) -> (r: Option<i32>)
    ensures
        r == (if b {
            Some(1i32)
        } else {
            None
        }),
{
    if b {
        Some(1)
    } else {
        None
    }
}

/// The option as a number.
pub open spec fn opt_int(x: Option<i32>) -> Option<int> {
    match x {
        Some(v) => Some(v as int),
        None => None,
    }
}

impl Condition {
    /// Checks a condition; see [`check_count`].
    pub fn check(&self, eval: &ConditionEval, buffs: &BuffMgr, reading: &Reading) -> (r: Option<i32>)
        requires
            sums_fit(reading.counts@),
        ensures
            opt_int(r) == check_count(self@, *eval, *buffs, *reading),
            ({
                let id = self.cond_id;
                let among = eval.targets@.contains(eval.target_uid);
                let aimed_at = eval.skill_targets@.contains(eval.target_uid);
                let sum = total(reading.counts@);
                &&& (id == 101 || id == 102 || id == 104 || id == 201 || id == 203 || id == 208
                    || id == 210 || id == 301 || id == 304 || id == 5 || id == 5021 || id == 8 || id
                    == 812 || id == 22209) ==> r == (if among {
                    Some(1i32)
                } else {
                    None
                })
                &&& id == 25210 ==> r == (if aimed_at {
                    Some(1i32)
                } else {
                    None
                })
                &&& id == 34210 ==> r == (if among && self.params@.len() > 0 {
                    Some(1i32)
                } else {
                    None
                })
                &&& id == 49 ==> r == (if among && eval.lost_buff_id is Some
                    && self.params@.contains(eval.lost_buff_id->0) {
                    Some(1i32)
                } else {
                    None
                })
                &&& id == 57208 ==> (r == Some(1i32) || r is None)
                &&& id == 57208 ==> (r is None <==> exists|i: int, j: int|
                    #![trigger eval.skill_targets@[i], self.params@[j]]
                    0 <= i < eval.skill_targets@.len() && 0 <= j < self.params@.len() && holds(
                        buffs.of(eval.skill_targets@[i]),
                        self.params@[j],
                    ))
                &&& (id == 61003 || id == 61203) ==> (if self.params@.len() > 0 && sum > 0 {
                    r is Some && r->0 == sum
                } else {
                    r is None
                })
                &&& (id == 45104 || id == 17 || id == 10 || id == 19201 || id == 19202 || id
                    == 19203 || id == 19208 || id == 19209 || id == 19210) ==> r == (
                if reading.outcome {
                    Some(1i32)
                } else {
                    None
                })
            }),
    {
        match kind_of_check(self.cond_id) {
            CheckKind::Aligned => once(contains_uid(&eval.targets, eval.target_uid)),
            CheckKind::SkillAligned => once(contains_uid(&eval.skill_targets, eval.target_uid)),
            CheckKind::TaggedAligned => once(
                self.params.len() > 0 && contains_uid(&eval.targets, eval.target_uid),
            ),
            CheckKind::BuffLost => match eval.lost_buff_id {
                Some(lost) => once(
                    contains_uid(&eval.targets, eval.target_uid) && contains_id(&self.params, lost),
                ),
                None => None,
            },
            CheckKind::NoBuff => once(
                self.params.len() == 0 || check_none_bears(
                    &eval.skill_targets,
                    &self.params,
                    buffs,
                ),
            ),
            CheckKind::BuffCount => {
                let sum = add_up(&reading.counts);
                if self.params.len() > 0 && sum > 0 {
                    Some(sum)
                } else {
                    None
                }
            },
            CheckKind::Elsewhere => once(reading.outcome),
            CheckKind::Never => None,
        }
    }
}

/// What the interval of a round-interval condition is asked with: its first round,
/// its period, and the present round. The period stands in for a missing first
/// round.
pub fn round_interval(params: &Vec<i32>, cur_round: Option<i32>) -> (r: (i32, i32, i32))
    ensures
        ({
            let period = if params@.len() > 0 {
                params@[0]
            } else {
                0
            };
            r == (
                if params@.len() > 1 {
                    params@[1]
                } else {
                    period
                },
                period,
                match cur_round {
                    Some(n) => n,
                    None => 1,
                },
            )
        }),
{
    let period: i32 = if params.len() > 0 {
        params[0]
    } else {
        0
    };
    let start: i32 = if params.len() > 1 {
        params[1]
    } else {
        period
    };
    let round: i32 = match cur_round {
        Some(n) => n,
        None => 1,
    };
    (start, period, round)
}

/// A text without the exclamation marks at its end.
pub open spec fn without_bangs(s: Seq<char>) -> Seq<char>
    decreases s.len(),
{
    if s.len() > 0 && s.last() == '!' {
        without_bangs(s.drop_last())
    } else {
        s
    }
}

fn strip_bangs(s: &str) -> (r: String)
    ensures
        r@ == without_bangs(s@),
{
    let chars = chars_of(s);
    let mut n: usize = chars.len();
    assert(s@.take(n as int) =~= s@);
    while n > 0 && chars[n - 1] == '!'
        invariant
            n <= chars.len(),
            chars@ == s@,
            without_bangs(s@.take(n as int)) == without_bangs(s@),
        decreases n,
    {
        assert(s@.take(n as int).drop_last() =~= s@.take(n - 1));
        n -= 1;
    }
    assert(s@.take(n as int) =~= s@.subrange(0, n as int));
    s.substring_char(0, n).to_owned()
}

/// The numbers among some texts, exclamation marks at their ends ignored.
pub open spec fn numbers_in(parts: Seq<Seq<char>>) -> Seq<i32>
    decreases parts.len(),
{
    if parts.len() == 0 {
        Seq::empty()
    } else {
        match number(without_bangs(parts.last())) {
            Some(n) => numbers_in(parts.drop_last()).push(n),
            None => numbers_in(parts.drop_last()),
        }
    }
}

/// Whether an id is listed.
pub open spec fn is_known(known: Seq<i32>, id: i32) -> bool {
    known.contains(id)
}

/// What conditions are read with: the ids that exist, the target code of the slot,
/// and the moments of the conditions that are decided elsewhere.
#[derive(Debug)]
pub struct ConditionContext {
    pub known: Vec<i32>,
    pub target: i32,
    pub elsewhere: OtherHooks,
}

/// [`ConditionContext`] as a mathematical value.
pub struct ContextView {
    pub known: Seq<i32>,
    pub target: i32,
    pub elsewhere: OtherHooks,
}

impl View for ConditionContext {
    type V = ContextView;

    open spec fn view(&self) -> ContextView {
        ContextView { known: self.known@, target: self.target, elsewhere: self.elsewhere }
    }
}

/// The condition that a segment spells; none for an id that does not exist.
pub open spec fn condition_in(segment: Seq<char>, ctx: ContextView) -> Option<ConditionView> {
    let parts = pieces(segment, '#');
    match number(parts[0]) {
        Some(id) => if is_known(ctx.known, id) {
            Some(
                ConditionView {
                    hooks: hooks_of(id, ctx.elsewhere),
                    cond_id: id,
                    target: ctx.target,
                    params: numbers_in(parts.skip(1)),
                },
            )
        } else {
            None
        },
        None => None,
    }
}

/// The conditions that some segments spell.
pub open spec fn conditions_in(
    segments: Seq<Seq<char>>,
    ctx: ContextView,
) -> Seq<ConditionView>
    decreases segments.len(),
{
    if segments.len() == 0 {
        Seq::empty()
    } else {
        let before = conditions_in(segments.drop_last(), ctx);
        match condition_in(segments.last(), ctx) {
            Some(c) => before.push(c),
            None => before,
        }
    }
}

/// How the conditions of a text are combined: by `And` where it has an ampersand.
pub open spec fn op_of(raw: Seq<char>) -> ConditionOp {
    if raw.contains('&') {
        ConditionOp::And
    } else {
        ConditionOp::Or
    }
}

/// The separator of the conditions of a text.
pub open spec fn separator_of(raw: Seq<char>) -> char {
    if raw.contains('&') {
        '&'
    } else {
        '|'
    }
}

/// The conditions of a list, each by its view.
pub open spec fn conditions_view(v: Seq<Condition>) -> Seq<ConditionView> {
    Seq::new(v.len(), |i: int| v[i]@)
}

fn read_condition(segment: &str, ctx: &ConditionContext) -> (r: Option<Condition>)
    ensures
        match r {
            Some(c) => condition_in(segment@, ctx@) == Some(c@),
            None => condition_in(segment@, ctx@) is None,
        },
{
    let parts = split_text(segment, '#');
    let ghost ps = pieces(segment@, '#');
    proof {
        pieces_nonempty(segment@, '#');
    }
    assert(ps[0] == parts@[0]@);
    let id = match parse_number(parts[0].as_str()) {
        Some(n) => n,
        None => {
            return None;
        },
    };
    if !contains_id(&ctx.known, id) {
        return None;
    }
    let mut params: Vec<i32> = Vec::new();
    let ghost rest = ps.skip(1);
    assert(rest.take(0).len() == 0);
    let mut i: usize = 1;
    while i < parts.len()
        invariant
            1 <= i <= parts.len(),
            texts_view(parts@) == ps,
            rest == ps.skip(1),
            params@ == numbers_in(rest.take(i - 1)),
        decreases parts.len() - i,
    {
        assert(rest.take(i as int).drop_last() =~= rest.take(i - 1));
        assert(rest.take(i as int).last() == parts@[i as int]@);
        let text = strip_bangs(parts[i].as_str());
        if let Some(n) = parse_number(text.as_str()) {
            params.push(n);
        }
        i += 1;
    }
    assert(rest.take(rest.len() as int) =~= rest);
    Some(
        Condition {
            hooks: hooks_for_type(id, ctx.elsewhere),
            cond_id: id,
            target: ctx.target,
            params,
        },
    )
}

fn has_ampersand(s: &str) -> (r: bool)
    ensures
        r == s@.contains('&'),
{
    let chars = chars_of(s);
    for i in 0..chars.len()
        invariant
            chars@ == s@,
            forall|k: int| 0 <= k < i ==> s@[k] != '&',
    {
        if chars[i] == '&' {
            return true;
        }
    }
    false
}

/// Reads the conditions of a slot and how they are combined. Nothing is returned
/// where the text spells no condition that exists.
pub fn parse(raw: &str, ctx: &ConditionContext) -> (r: Option<(Vec<Condition>, ConditionOp)>)
    ensures
        ({
            let found = conditions_in(pieces(raw@, separator_of(raw@)), ctx@);
            match r {
                Some((conditions, op)) => found.len() > 0 && raw@.len() > 0 && conditions_view(
                    conditions@,
                ) == found && op == op_of(raw@),
                None => found.len() == 0 || raw@.len() == 0,
            }
        }),
{
    if raw.is_empty() {
        return None;
    }
    let all = has_ampersand(raw);
    let segments = split_text(
        raw,
        if all {
            '&'
        } else {
            '|'
        },
    );
    let ghost ps = pieces(raw@, separator_of(raw@));
    let mut out: Vec<Condition> = Vec::new();
    assert(conditions_view(out@) =~= conditions_in(ps.take(0), ctx@));
    for i in 0..segments.len()
        invariant
            texts_view(segments@) == ps,
            conditions_view(out@) == conditions_in(ps.take(i as int), ctx@),
    {
        assert(ps.take(i + 1).drop_last() =~= ps.take(i as int));
        assert(ps.take(i + 1).last() == segments@[i as int]@);
        let ghost before = conditions_view(out@);
        if let Some(c) = read_condition(segments[i].as_str(), ctx) {
            out.push(c);
            assert(conditions_view(out@) =~= before.push(c@));
        }
    }
    assert(ps.take(ps.len() as int) =~= ps);
    assert(conditions_view(out@).len() == out@.len());
    if out.len() == 0 {
        return None;
    }
    Some(
        (
            out,
            if all {
                ConditionOp::And
            } else {
                ConditionOp::Or
            },
        ),
    )
}

} // verus!
