//! Action points.

use crate::arith::fits;
use crate::event::Event;
use crate::manager::entity_mgr::{entry, EntityMgr, EntityMgrView};
use crate::text::{param, param_at};
use vstd::prelude::*;

verus! {

/// The fighters after each of some targets got action points.
pub open spec fn acted(m: EntityMgrView, targets: Seq<i64>, delta: int) -> EntityMgrView
    decreases targets.len(),
{
    if targets.len() == 0 {
        m
    } else {
        let before = acted(m, targets.drop_last(), delta);
        EntityMgrView {
            action_points: before.action_points.insert(
                targets.last(),
                (entry(before.action_points, targets.last()) + delta) as i32,
            ),
            ..before
        }
    }
}

/// Whether no sum on the way leaves the range.
pub open spec fn acts_fit(m: EntityMgrView, targets: Seq<i64>, delta: int) -> bool {
    forall|n: int|
        0 <= n < targets.len() ==> fits(
            entry(acted(m, targets.take(n), delta).action_points, #[trigger] targets[n]) + delta,
        )
}

/// Gives action points to each of some targets.
pub fn execute(mgr: &mut EntityMgr, targets: &Vec<i64>, raw: &str, count: i32) -> (r: Vec<Event>)
    requires
        fits(param(raw@, 1) * count),
        acts_fit(old(mgr)@, targets@, param(raw@, 1) * count),
    ensures
        final(mgr)@ == acted(old(mgr)@, targets@, param(raw@, 1) * count),
        r@ == targets@.map_values(
            |uid: i64|
                Event::AddActionPoint { entity_uid: uid, delta: (param(raw@, 1) * count) as i32 },
        ),
{
    let amount = param_at(raw, 1);
    let delta: i32 = amount * count;
    let mut out: Vec<Event> = Vec::new();
    let ghost start = mgr@;
    assert(targets@.take(0).len() == 0);
    for i in 0..targets.len()
        invariant
            acts_fit(start, targets@, delta as int),
            mgr@ == acted(start, targets@.take(i as int), delta as int),
            out@ == targets@.take(i as int).map_values(
                |uid: i64| Event::AddActionPoint { entity_uid: uid, delta },
            ),
    {
        assert(targets@.take(i + 1).drop_last() =~= targets@.take(i as int));
        let uid: i64 = targets[i];
        assert(fits(
            entry(acted(start, targets@.take(i as int), delta as int).action_points, targets@[i as int])
                + delta,
        ));
        let e = mgr.add_action_point(uid, delta);
        out.push(e);
        assert(out@ =~= targets@.take(i + 1).map_values(
            |uid: i64| Event::AddActionPoint { entity_uid: uid, delta },
        ));
    }
    assert(targets@.take(targets@.len() as int) =~= targets@);
    assert(out@ =~= targets@.map_values(
        |uid: i64|
            Event::AddActionPoint { entity_uid: uid, delta: (param(raw@, 1) * count) as i32 },
    ));
    out
}

} // verus!
