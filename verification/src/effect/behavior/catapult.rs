//! A buff for a target that then leaps to other enemies at random.

use crate::chance::{after_shuffle, shuffle_list, shuffled};
use crate::text::{param, param_at};
use rand::rngs::StdRng;
use vstd::prelude::*;

verus! {

/// A target as often as it is hit; not at all for a number below one.
pub open spec fn repeated(target: i64, n: i32) -> Seq<i64> {
    Seq::new(
        if n > 0 {
            n as nat
        } else {
            0
        },
        |i: int| target,
    )
}

/// Each of some targets as often as it is hit.
pub open spec fn each_repeated(targets: Seq<i64>, n: i32) -> Seq<i64>
    decreases targets.len(),
{
    if targets.len() == 0 {
        Seq::empty()
    } else {
        each_repeated(targets.drop_last(), n) + repeated(targets.last(), n)
    }
}

/// The first of some enemies, as many as the leap reaches.
pub open spec fn reached(order: Seq<i64>, cap: i32) -> Seq<i64> {
    if cap <= 0 {
        Seq::empty()
    } else if cap < order.len() {
        order.take(cap as int)
    } else {
        order
    }
}

/// Whom the stacks go to, one at a time: first the target, then the enemies that the
/// leap reaches, in their order. The target may be among them.
pub open spec fn leaps(raw: Seq<char>, target: i64, order: Seq<i64>) -> Seq<i64> {
    repeated(target, param(raw, 2)) + each_repeated(reached(order, param(raw, 6)), param(raw, 5))
}

/// The buff that leaps.
pub fn leaping_buff(raw: &str) -> (r: i32)
    ensures
        r == param(raw@, 4),
{
    param_at(raw, 4)
}

fn push_repeated(out: &mut Vec<i64>, target: i64, n: i32)
    ensures
        final(out)@ == old(out)@ + repeated(target, n),
{
    let ghost start = out@;
    assert(start =~= start + repeated(target, 0));
    let mut i: i32 = 0;
    while i < n
        invariant
            0 <= i,
            n > 0 ==> i <= n,
            n <= 0 ==> i == 0,
            out@ == start + repeated(target, i),
        decreases n - i,
    {
        out.push(target);
        i += 1;
        assert(out@ =~= start + repeated(target, i));
    }
    assert(out@ =~= start + repeated(target, n));
}

/// Lists whom the stacks go to for an order of the enemies.
pub fn leap_targets(raw: &str, target: i64, order: &Vec<i64>) -> (r: Vec<i64>)
    ensures
        r@ == leaps(raw@, target, order@),
{
    let mut out: Vec<i64> = Vec::new();
    let stacks = param_at(raw, 5);
    let cap = param_at(raw, 6);
    push_repeated(&mut out, target, param_at(raw, 2));
    let ghost first = out@;
    assert(first =~= repeated(target, param(raw@, 2)));
    assert(first + each_repeated(order@.take(0), stacks) =~= first);
    let mut i: usize = 0;
    while i < order.len() && cap > 0 && (i as u64) < (cap as u64)
        invariant
            i <= order@.len(),
            cap > 0 ==> i <= cap,
            cap <= 0 ==> i == 0,
            out@ == first + each_repeated(order@.take(i as int), stacks),
        decreases order@.len() - i,
    {
        assert(order@.take(i + 1).drop_last() =~= order@.take(i as int));
        push_repeated(&mut out, order[i], stacks);
        i += 1;
        assert(out@ =~= first + each_repeated(order@.take(i as int), stacks));
    }
    assert(order@.take(i as int) =~= reached(order@, cap));
    out
}

/// The target that the stacks go to first; nobody without a target.
pub open spec fn main_target(targets: Seq<i64>) -> i64 {
    if targets.len() > 0 {
        targets[0]
    } else {
        0
    }
}

/// Draws whom the stacks go to: the order of the enemies is left to the generator.
/// Some order of the enemies it is in any case.
pub fn execute(rng: &mut StdRng, raw: &str, targets: &Vec<i64>, enemies: Vec<i64>) -> (r: Vec<i64>)
    ensures
        r@ == leaps(raw@, main_target(targets@), shuffled(enemies@, *old(rng))),
        *final(rng) == after_shuffle(*old(rng), enemies@.len()),
        exists|order: Seq<i64>|
            order.to_multiset() == enemies@.to_multiset() && r@ == #[trigger] leaps(
                raw@,
                main_target(targets@),
                order,
            ),
{
    let target: i64 = if targets.len() > 0 {
        targets[0]
    } else {
        0
    };
    let mut order = enemies;
    shuffle_list(&mut order, rng);
    leap_targets(raw, target, &order)
}

} // verus!
