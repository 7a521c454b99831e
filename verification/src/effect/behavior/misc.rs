//! Behaviours that change who stands on the field.

use crate::text::{param, param_at};
use vstd::prelude::*;

verus! {

/// A fighter that is to appear.
#[derive(Clone, Copy, PartialEq, Eq, Structural, Debug)]
pub struct PendingSummon {
    pub caster_uid: i64,
    pub monster_id: i32,
}

/// A fighter that is to take another form.
#[derive(Clone, Copy, PartialEq, Eq, Structural, Debug)]
pub struct PendingMonsterChange {
    pub target_uid: i64,
    pub new_monster_id: i32,
}

/// What is still to happen to the field.
#[derive(Debug)]
pub struct PendingField {
    pub summons: Vec<PendingSummon>,
    pub changes: Vec<PendingMonsterChange>,
}

/// Whether a behaviour summons.
pub open spec fn is_summon(id: i32) -> bool {
    id == 60008 || id == 60013 || id == 60056
}

/// Whether a behaviour changes the form of its targets.
pub open spec fn is_monster_change(id: i32) -> bool {
    id == 40006 || id == 40008
}

/// The changes of form of some targets.
pub open spec fn changes_of(targets: Seq<i64>, new_monster_id: i32) -> Seq<PendingMonsterChange> {
    targets.map_values(
        |target_uid: i64| PendingMonsterChange { target_uid, new_monster_id },
    )
}

/// Notes what a behaviour of this family does to the field; the others of the family
/// do nothing.
pub fn execute(
    pending: &mut PendingField,
    caster_uid: i64,
    targets: &Vec<i64>,
    raw: &str,
    behaviour_id: i32,
)
    ensures
        final(pending).summons@ == (if is_summon(behaviour_id) {
            old(pending).summons@.push(
                PendingSummon { caster_uid, monster_id: param(raw@, 1) },
            )
        } else {
            old(pending).summons@
        }),
        final(pending).changes@ == (if is_monster_change(behaviour_id) {
            old(pending).changes@ + changes_of(targets@, param(raw@, 1))
        } else {
            old(pending).changes@
        }),
{
    match behaviour_id {
        60008 | 60013 | 60056 => {
            pending.summons.push(PendingSummon { caster_uid, monster_id: param_at(raw, 1) });
        },
        40006 | 40008 => {
            let new_monster_id = param_at(raw, 1);
            let ghost start = pending.changes@;
            let ghost summons = pending.summons@;
            assert(start + changes_of(targets@.take(0), new_monster_id) =~= start);
            for i in 0..targets.len()
                invariant
                    pending.summons@ == summons,
                    pending.changes@ == start + changes_of(
                        targets@.take(i as int),
                        new_monster_id,
                    ),
            {
                pending.changes.push(
                    PendingMonsterChange { target_uid: targets[i], new_monster_id },
                );
                assert(pending.changes@ =~= start + changes_of(
                    targets@.take(i + 1),
                    new_monster_id,
                ));
            }
            assert(targets@.take(targets@.len() as int) =~= targets@);
        },
        _ => {},
    }
}

} // verus!
