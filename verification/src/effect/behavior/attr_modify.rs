//! Behaviours that fix an attribute.

use crate::arith::{div_toward_zero, divide, fits, or_zero, sat_i32, saturating_product, value};
use crate::lookup::{entity_of, find_entity};
use crate::manager::attr_bonus::{merged, AttrBonusMap};
use crate::manager::entity_mgr::{EntityMgr, EntityMgrView};
use crate::model::{EntityView, Fight, FightView};
use crate::text::{param, param_at};
use vstd::prelude::*;

verus! {

/// An attribute and the amount that is added to it.
#[derive(Clone, Copy, PartialEq, Eq, Structural, Debug)]
pub struct AttrBonus {
    pub attr_id: i32,
    pub amount: i32,
}

/// The life maximum in the attributes of a fighter.
pub open spec fn max_hp_of(e: EntityView) -> i32 {
    match e.attr {
        Some(a) => or_zero(a.hp),
        None => 0,
    }
}

/// The share of life that a fighter is missing, in thousandths, as a 32-bit number.
pub open spec fn missing_permille(e: EntityView) -> i32 {
    let missing = max_hp_of(e) - or_zero(e.current_hp);
    (((if missing > 0 {
        missing
    } else {
        0
    }) * 1000 / (max_hp_of(e) as int)) as i64) as i32
}

/// The life that a fighter is missing can be counted, where a behaviour counts it.
pub open spec fn missing_fits(f: FightView, uid: i64, raw: Seq<char>) -> bool {
    param(raw, 0) == 60033 && param(raw, 1) > 0 && param(raw, 2) != 0 && param(raw, 3) > 0 && param(
        raw,
        4,
    ) > 0 ==> match entity_of(f, uid) {
        Some(e) => max_hp_of(e) > 0 ==> fits(max_hp_of(e) - or_zero(e.current_hp)),
        None => true,
    }
}

/// A fixed bonus: the amount once per count, and at least once.
pub open spec fn flat_bonus(raw: Seq<char>, count: i32) -> Option<AttrBonus> {
    let attr_id = param(raw, 1);
    let amount = sat_i32(
        param(raw, 2) * if count > 1 {
            count
        } else {
            1
        },
    ) as i32;
    if attr_id != 0 && amount != 0 {
        Some(AttrBonus { attr_id, amount })
    } else {
        None
    }
}

/// A bonus by lost life: so much for each step of lost life, up to so many steps.
pub open spec fn lost_hp_bonus(e: Option<EntityView>, raw: Seq<char>) -> Option<AttrBonus> {
    let step = param(raw, 1);
    let attr_id = param(raw, 2);
    let per_stack = param(raw, 3);
    let max_stacks = param(raw, 4);
    if step <= 0 || per_stack <= 0 || max_stacks <= 0 || attr_id == 0 || e is None || max_hp_of(
        e->0,
    ) <= 0 {
        None
    } else {
        let full = div_toward_zero(missing_permille(e->0) as int, step as int);
        let stacks = if full <= max_stacks {
            full
        } else {
            max_stacks as int
        };
        if stacks <= 0 {
            None
        } else {
            Some(AttrBonus { attr_id, amount: sat_i32(stacks * per_stack) as i32 })
        }
    }
}

/// The bonus that a behaviour gives a fighter.
pub open spec fn bonus_of(f: FightView, uid: i64, raw: Seq<char>, count: i32) -> Option<AttrBonus> {
    let id = param(raw, 0);
    if id == 10004 || id == 10011 {
        flat_bonus(raw, count)
    } else if id == 60033 {
        lost_hp_bonus(entity_of(f, uid), raw)
    } else {
        None
    }
}

/// Works out the bonus that a behaviour gives a fighter.
pub fn calculate_bonus(fight: &Fight, entity_uid: i64, raw: &str, count: i32) -> (r: Option<
    AttrBonus,
>)
    requires
        missing_fits(fight@, entity_uid, raw@),
    ensures
        r == bonus_of(fight@, entity_uid, raw@, count),
{
    let id = param_at(raw, 0);
    if id == 10004 || id == 10011 {
        let attr_id = param_at(raw, 1);
        let amount = saturating_product(
            param_at(raw, 2),
            if count > 1 {
                count
            } else {
                1
            },
        );
        if attr_id != 0 && amount != 0 {
            Some(AttrBonus { attr_id, amount })
        } else {
            None
        }
    } else if id == 60033 {
        let step = param_at(raw, 1);
        let attr_id = param_at(raw, 2);
        let per_stack = param_at(raw, 3);
        let max_stacks = param_at(raw, 4);
        if step <= 0 || per_stack <= 0 || max_stacks <= 0 || attr_id == 0 {
            return None;
        }
        match find_entity(fight, entity_uid) {
            Some(e) => {
                let max_hp: i32 = match e.attr {
                    Some(a) => value(a.hp),
                    None => 0,
                };
                if max_hp <= 0 {
                    return None;
                }
                let gap: i32 = max_hp - value(e.current_hp);
                let missing: i64 = if gap > 0 {
                    gap as i64
                } else {
                    0
                };
                let permille: i32 = #[verifier::truncate] ((missing * 1000 / (max_hp as i64)) as i32);
                assert(permille == missing_permille(e@));
                let full = divide(permille, step);
                let stacks: i32 = if full <= max_stacks {
                    full
                } else {
                    max_stacks
                };
                if stacks <= 0 {
                    return None;
                }
                Some(AttrBonus { attr_id, amount: saturating_product(stacks, per_stack) })
            },
            None => None,
        }
    } else {
        None
    }
}

/// A bonus that is given is never zero.
pub proof fn bonus_not_zero(f: FightView, uid: i64, raw: Seq<char>, count: i32)
    ensures
        bonus_of(f, uid, raw, count) is Some ==> bonus_of(f, uid, raw, count)->0.amount != 0,
{
    if param(raw, 0) == 60033 && bonus_of(f, uid, raw, count) is Some {
        let full = div_toward_zero(
            missing_permille(entity_of(f, uid)->0) as int,
            param(raw, 1) as int,
        );
        let stacks = if full <= param(raw, 4) {
            full
        } else {
            param(raw, 4) as int
        };
        assert(stacks * param(raw, 3) > 0) by (nonlinear_arith)
            requires
                stacks > 0,
                param(raw, 3) > 0,
        ;
    }
}

/// How often an id occurs in a list.
pub open spec fn occurrences(s: Seq<i64>, uid: i64) -> nat
    decreases s.len(),
{
    if s.len() == 0 {
        0
    } else {
        occurrences(s.drop_last(), uid) + (if s.last() == uid {
            1nat
        } else {
            0nat
        })
    }
}

/// An id occurs where it is in the list.
pub proof fn occurrences_positive(s: Seq<i64>, uid: i64)
    ensures
        occurrences(s, uid) > 0 <==> s.contains(uid),
        occurrences(s, uid) <= s.len(),
    decreases s.len(),
{
    if s.len() > 0 {
        occurrences_positive(s.drop_last(), uid);
        if s.drop_last().contains(uid) {
            let i = choose|i: int| 0 <= i < s.drop_last().len() && s.drop_last()[i] == uid;
            assert(s[i] == uid);
        }
        if s.contains(uid) && s.last() != uid {
            let i = choose|i: int| 0 <= i < s.len() && s[i] == uid;
            assert(s.drop_last()[i] == uid);
        }
        assert(s[s.len() - 1] == s.last());
    }
}

/// The bonuses that a behaviour gives its targets: a target that is named twice
/// gets it twice, in one sum.
pub open spec fn target_bonuses(
    f: FightView,
    targets: Seq<i64>,
    raw: Seq<char>,
    count: i32,
) -> Map<(i64, i32), Seq<i32>> {
    Map::new(
        |k: (i64, i32)|
            targets.contains(k.0) && bonus_of(f, k.0, raw, count) is Some && bonus_of(
                f,
                k.0,
                raw,
                count,
            )->0.attr_id == k.1,
        |k: (i64, i32)|
            seq![
                (occurrences(targets, k.0) * bonus_of(f, k.0, raw, count)->0.amount) as i32,
            ],
    )
}

/// The sums of the bonuses of all targets are in range.
pub open spec fn target_bonuses_fit(
    f: FightView,
    targets: Seq<i64>,
    raw: Seq<char>,
    count: i32,
) -> bool {
    forall|i: int|
        0 <= i < targets.len() ==> ({
            let uid = #[trigger] targets[i];
            &&& missing_fits(f, uid, raw)
            &&& bonus_of(f, uid, raw, count) is Some ==> fits(
                occurrences(targets, uid) * bonus_of(f, uid, raw, count)->0.amount,
            )
        })
}

fn count_occurrences(v: &Vec<i64>, uid: i64) -> (r: usize)
    ensures
        r == occurrences(v@, uid),
{
    let mut n: usize = 0;
    assert(v@.take(0).len() == 0);
    for i in 0..v.len()
        invariant
            n <= i,
            n == occurrences(v@.take(i as int), uid),
    {
        assert(v@.take(i + 1).drop_last() =~= v@.take(i as int));
        if v[i] == uid {
            n = n + 1;
        }
    }
    assert(v@.take(v@.len() as int) =~= v@);
    n
}

/// Works out the bonuses that a behaviour gives its targets; see
/// [`target_bonuses`].
pub fn calculate_bonuses(fight: &Fight, targets: &Vec<i64>, raw: &str, count: i32) -> (r:
    AttrBonusMap)
    requires
        target_bonuses_fit(fight@, targets@, raw@, count),
    ensures
        r@ == target_bonuses(fight@, targets@, raw@, count),
{
    let ghost goal = target_bonuses(fight@, targets@, raw@, count);
    let mut out = AttrBonusMap::new();
    for i in 0..targets.len()
        invariant
            target_bonuses_fit(fight@, targets@, raw@, count),
            goal == target_bonuses(fight@, targets@, raw@, count),
            forall|k: (i64, i32)|
                #[trigger] out@.contains_key(k) <==> goal.contains_key(k) && exists|j: int|
                    0 <= j < i && targets@[j] == k.0,
            forall|k: (i64, i32)| #[trigger] out@.contains_key(k) ==> out@[k] == goal[k],
    {
        let uid: i64 = targets[i];
        let ghost before = out@;
        assert(targets@[i as int] == uid);
        if let Some(b) = calculate_bonus(fight, uid, raw, count) {
            let n = count_occurrences(targets, uid);
            proof {
                occurrences_positive(targets@, uid);
            }
            let total: i32 = repeated(b.amount, n);
            let mut values: Vec<i32> = Vec::new();
            values.push(total);
            assert(values@ =~= goal[(uid, b.attr_id)]);
            assert(targets@.contains(uid));
            assert(goal.contains_key((uid, b.attr_id)));
            out.insert((uid, b.attr_id), values);
        }
        assert forall|k: (i64, i32)| #[trigger]
            out@.contains_key(k) <==> goal.contains_key(k) && exists|j: int|
                0 <= j < i + 1 && targets@[j] == k.0 by {
            if goal.contains_key(k) && exists|j: int| 0 <= j < i + 1 && targets@[j] == k.0 {
                let j = choose|j: int| 0 <= j < i + 1 && targets@[j] == k.0;
                if j < i {
                    assert(before.contains_key(k));
                }
            }
            if before.contains_key(k) {
                let j = choose|j: int| 0 <= j < i && targets@[j] == k.0;
                assert(j < i + 1);
            }
        }
    }
    assert(out@ =~= goal) by {
        assert forall|k: (i64, i32)| #[trigger] out@.contains_key(k) <==> goal.contains_key(k) by {
            if goal.contains_key(k) {
                let j = choose|j: int| 0 <= j < targets@.len() && targets@[j] == k.0;
                assert(0 <= j < targets@.len());
            }
        }
    }
    out
}

fn repeated(amount: i32, n: usize) -> (r: i32)
    requires
        fits(n * amount),
    ensures
        r == n * amount,
{
    let mut sum: i32 = 0;
    assert(0 * amount == 0) by (nonlinear_arith);
    for i in 0..n
        invariant
            fits(n * amount),
            sum == i * amount,
    {
        proof {
            partial_product(amount as int, (i + 1) as int, n as int);
            assert((i + 1) * amount == i * amount + amount) by (nonlinear_arith);
        }
        sum = sum + amount;
    }
    sum
}

proof fn partial_product(a: int, i: int, n: int)
    requires
        0 <= i <= n,
        fits(n * a),
    ensures
        fits(i * a),
{
    if a >= 0 {
        assert(0 <= i * a <= n * a) by (nonlinear_arith)
            requires
                0 <= i <= n,
                a >= 0,
        ;
    } else {
        assert(n * a <= i * a <= 0) by (nonlinear_arith)
            requires
                0 <= i <= n,
                a < 0,
        ;
    }
}

/// Adds the bonus that a behaviour gives a fighter to its trackers.
pub fn execute(fight: &Fight, mgr: &mut EntityMgr, entity_uid: i64, raw: &str, count: i32)
    requires
        missing_fits(fight@, entity_uid, raw@),
    ensures
        final(mgr)@ == (EntityMgrView {
            attr_bonus: merged(
                old(mgr)@.attr_bonus,
                match bonus_of(fight@, entity_uid, raw@, count) {
                    Some(b) => Map::empty().insert((entity_uid, b.attr_id), seq![b.amount]),
                    None => Map::empty(),
                },
            ),
            ..old(mgr)@
        }),
{
    let mut more = AttrBonusMap::new();
    if let Some(b) = calculate_bonus(fight, entity_uid, raw, count) {
        let mut values: Vec<i32> = Vec::new();
        values.push(b.amount);
        assert(values@ =~= seq![b.amount]);
        more.insert((entity_uid, b.attr_id), values);
    }
    mgr.merge_attr_bonus(more);
}

} // verus!
