//! How skills are read from the tables and loaded for the fighters.

use crate::config::{row_at, SlotRow};
use crate::effect::behavior::{behaviour_id, behaviours_in, family, Family};
use crate::effect::condition::{
    conditions_in, op_of, separator_of, ContextView, OtherHooks,
};
use crate::effect::parser::{first_twenty, slot_in, slots_in};
use crate::effect::slot::SkillEffectView;
use crate::manager::passive_mgr::{all_loaded, effect_in, effects_of, loaded, EffectTables};
use crate::manager::rule_mgr::{rule_effects, team_rule_effects};
use crate::model::EntityView;
use crate::text::{number, pieces};
use vstd::prelude::*;

verus! {

/// A row of the table makes a slot if it has a behaviour, a target for its conditions and
/// a condition that is known. The slot has the row's conditions, behaviours and limits,
/// and has not been used.
pub proof fn a_row_makes_a_slot(row: SlotRow, known: Seq<i32>, elsewhere: OtherHooks)
    ensures
        ({
            let r = slot_in(row, known, elsewhere);
            let target = number(row.condition_target@);
            let conditions = conditions_in(
                pieces(row.condition@, separator_of(row.condition@)),
                ContextView { known, target: target->0, elsewhere },
            );
            &&& r is Some <==> row.behavior@.len() > 0 && row.condition@.len() > 0 && target is Some
                && conditions.len() > 0
            &&& r is Some ==> {
                &&& r->0.op == op_of(row.condition@)
                &&& r->0.conditions == conditions
                &&& r->0.behaviours == behaviours_in(
                    pieces(row.behavior@, '|'),
                    if number(row.behavior_target@) is Some {
                        number(row.behavior_target@)->0
                    } else {
                        0
                    },
                )
                &&& r->0.limit == row.limit
                &&& r->0.round_limit == row.round_limit
                &&& r->0.use_count == 0
                &&& r->0.round_use_count == 0
            }
        }),
{
}

proof fn slots_are_read_in_order_join(
    known: Seq<i32>,
    elsewhere: OtherHooks,
    a: Seq<SlotRow>,
    b: Seq<SlotRow>,
)
    ensures
        slots_in(a + b, known, elsewhere) == slots_in(a, known, elsewhere) + slots_in(b, known, elsewhere),
    decreases b.len(),
{
    if b.len() == 0 {
        assert(a + b =~= a);
        assert(slots_in(a, known, elsewhere) + slots_in(b, known, elsewhere) =~= slots_in(a, known, elsewhere));
    } else {
        slots_are_read_in_order_join(known, elsewhere, a, b.drop_last());
        assert((a + b).drop_last() =~= a + b.drop_last());
        assert((a + b).last() == b.last());
        assert(slots_in(a + b, known, elsewhere) =~= slots_in(a, known, elsewhere) + slots_in(b, known, elsewhere));
    }
}

/// The slots of a skill are those that its rows make, in their order.
pub proof fn slots_are_read_in_order(
    known: Seq<i32>,
    elsewhere: OtherHooks,
    a: Seq<SlotRow>,
    b: Seq<SlotRow>,
    x: SlotRow,
)
    ensures
        slots_in(a + b, known, elsewhere) == slots_in(a, known, elsewhere) + slots_in(b, known, elsewhere),
        slots_in(Seq::<SlotRow>::empty(), known, elsewhere).len() == 0,
        slots_in(seq![x], known, elsewhere) == (if slot_in(x, known, elsewhere) is Some {
            seq![slot_in(x, known, elsewhere)->0]
        } else {
            Seq::empty()
        }),
{
    slots_are_read_in_order_join(known, elsewhere, a, b);
    let one = seq![x];
    assert(one.drop_last() =~= Seq::<SlotRow>::empty());
    assert(one.last() == x);
    assert(slots_in(one.drop_last(), known, elsewhere).len() == 0);
    assert(slots_in(seq![x], known, elsewhere) =~= (if slot_in(x, known, elsewhere) is Some {
            seq![slot_in(x, known, elsewhere)->0]
        } else {
            Seq::empty()
        }));
}

/// Of the slots of a skill the first twenty count.
pub proof fn twenty_slots_count(slots: Seq<SlotRow>)
    ensures
        first_twenty(slots).len() <= 20,
        slots.len() <= 20 ==> first_twenty(slots).len() == slots.len(),
        slots.len() > 20 ==> first_twenty(slots).len() == 20,
        forall|i: int| 0 <= i < first_twenty(slots).len() ==> first_twenty(slots)[i] == slots[i],
{
}

/// A fighter has the effect of a skill if the table has a row for it.
pub proof fn an_effect_belongs_to_its_owner(t: EffectTables, effect_id: i32, owner_uid: i64)
    ensures
        effect_in(t, effect_id, owner_uid) is Some <==> row_at(t.rows@, effect_id) is Some,
        effect_in(t, effect_id, owner_uid) is Some ==> {
            let e = effect_in(t, effect_id, owner_uid)->0;
            &&& e.owner_uid == owner_uid
            &&& e.slots == slots_in(
                first_twenty(row_at(t.rows@, effect_id)->0.slots@),
                t.known@,
                t.elsewhere,
            )
        },
{
}

proof fn passives_are_read_in_order_join(
    t: EffectTables,
    owner_uid: i64,
    a: Seq<i32>,
    b: Seq<i32>,
)
    ensures
        effects_of(t, a + b, owner_uid) == effects_of(t, a, owner_uid) + effects_of(t, b, owner_uid),
    decreases b.len(),
{
    if b.len() == 0 {
        assert(a + b =~= a);
        assert(effects_of(t, a, owner_uid) + effects_of(t, b, owner_uid) =~= effects_of(t, a, owner_uid));
    } else {
        passives_are_read_in_order_join(t, owner_uid, a, b.drop_last());
        assert((a + b).drop_last() =~= a + b.drop_last());
        assert((a + b).last() == b.last());
        assert(effects_of(t, a + b, owner_uid) =~= effects_of(t, a, owner_uid) + effects_of(t, b, owner_uid));
    }
}

/// The passives of a fighter are the effects of its passive skills that have one, in
/// their order.
pub proof fn passives_are_read_in_order(
    t: EffectTables,
    owner_uid: i64,
    a: Seq<i32>,
    b: Seq<i32>,
    x: i32,
)
    ensures
        effects_of(t, a + b, owner_uid) == effects_of(t, a, owner_uid) + effects_of(t, b, owner_uid),
        effects_of(t, Seq::<i32>::empty(), owner_uid).len() == 0,
        effects_of(t, seq![x], owner_uid) == (if effect_in(t, x, owner_uid) is Some {
            seq![effect_in(t, x, owner_uid)->0]
        } else {
            Seq::empty()
        }),
{
    passives_are_read_in_order_join(t, owner_uid, a, b);
    let one = seq![x];
    assert(one.drop_last() =~= Seq::<i32>::empty());
    assert(one.last() == x);
    assert(effects_of(t, one.drop_last(), owner_uid).len() == 0);
    assert(effects_of(t, seq![x], owner_uid) =~= (if effect_in(t, x, owner_uid) is Some {
            seq![effect_in(t, x, owner_uid)->0]
        } else {
            Seq::empty()
        }));
}

/// Loading a fighter gives it its passives, unless it has none or no id; everybody
/// else keeps theirs.
pub proof fn a_fighter_is_loaded(
    m: Map<i64, Seq<SkillEffectView>>,
    e: EntityView,
    t: EffectTables,
    uid: i64,
)
    ensures
        ({
            let after = loaded(m, e, t);
            let own = effects_of(t, e.passive_skill, uid);
            &&& e.uid == Some(uid) && own.len() > 0 ==> after.contains_key(uid) && after[uid] == own
            &&& (e.uid != Some(uid) || own.len() == 0) ==> (after.contains_key(uid)
                <==> m.contains_key(uid)) && (m.contains_key(uid) ==> after[uid] == m[uid])
        }),
{
}

/// Loading some fighters and then others is loading them all, one after the other.
pub proof fn fighters_are_loaded_one_by_one(
    m: Map<i64, Seq<SkillEffectView>>,
    a: Seq<EntityView>,
    b: Seq<EntityView>,
    x: EntityView,
    t: EffectTables,
)
    ensures
        all_loaded(m, a + b, t) == all_loaded(all_loaded(m, a, t), b, t),
        all_loaded(m, seq![x], t) == loaded(m, x, t),
        all_loaded(m, Seq::empty(), t) == m,
    decreases b.len(),
{
    assert(seq![x].drop_last() =~= Seq::<EntityView>::empty());
    assert(all_loaded(m, seq![x].drop_last(), t) == m);
    assert(seq![x].last() == x);
    if b.len() == 0 {
        assert(a + b =~= a);
    } else {
        fighters_are_loaded_one_by_one(m, a, b.drop_last(), x, t);
        assert((a + b).drop_last() =~= a + b.drop_last());
        assert((a + b).last() == b.last());
    }
}

proof fn rules_apply_by_side_join(
    t: EffectTables,
    uid: i64,
    a: Seq<(i32, i32)>,
    b: Seq<(i32, i32)>,
)
    ensures
        rule_effects(t, a + b, uid) == rule_effects(t, a, uid) + rule_effects(t, b, uid),
    decreases b.len(),
{
    if b.len() == 0 {
        assert(a + b =~= a);
        assert(rule_effects(t, a, uid) + rule_effects(t, b, uid) =~= rule_effects(t, a, uid));
    } else {
        rules_apply_by_side_join(t, uid, a, b.drop_last());
        assert((a + b).drop_last() =~= a + b.drop_last());
        assert((a + b).last() == b.last());
        assert(rule_effects(t, a + b, uid) =~= rule_effects(t, a, uid) + rule_effects(t, b, uid));
    }
}

/// A rule of the battle gives its effect to a fighter: one of the first kind only to heroes,
/// one of the second only to enemies, any other to everyone. The effects come in the order
/// of the rules.
pub proof fn rules_apply_by_side(
    t: EffectTables,
    uid: i64,
    a: Seq<(i32, i32)>,
    b: Seq<(i32, i32)>,
    x: (i32, i32),
)
    ensures
        rule_effects(t, a + b, uid) == rule_effects(t, a, uid) + rule_effects(t, b, uid),
        rule_effects(t, Seq::<(i32, i32)>::empty(), uid).len() == 0,
        rule_effects(t, seq![x], uid) == (if effect_in(t, x.1, uid) is Some && (x.0 == 1 ==> uid >= 0) && (x.0 == 2 ==> uid < 0) {
            seq![effect_in(t, x.1, uid)->0]
        } else {
            Seq::empty()
        }),
{
    rules_apply_by_side_join(t, uid, a, b);
    let one = seq![x];
    assert(one.drop_last() =~= Seq::<(i32, i32)>::empty());
    assert(one.last() == x);
    assert(rule_effects(t, one.drop_last(), uid).len() == 0);
    assert(rule_effects(t, seq![x], uid) =~= (if effect_in(t, x.1, uid) is Some && (x.0 == 1 ==> uid >= 0) && (x.0 == 2 ==> uid < 0) {
            seq![effect_in(t, x.1, uid)->0]
        } else {
            Seq::empty()
        }));
}

proof fn rules_apply_to_each_of_a_team_join(
    t: EffectTables,
    rules: Seq<(i32, i32)>,
    a: Seq<EntityView>,
    b: Seq<EntityView>,
)
    ensures
        team_rule_effects(t, rules, a + b) == team_rule_effects(t, rules, a) + team_rule_effects(t, rules, b),
    decreases b.len(),
{
    if b.len() == 0 {
        assert(a + b =~= a);
        assert(team_rule_effects(t, rules, a) + team_rule_effects(t, rules, b) =~= team_rule_effects(t, rules, a));
    } else {
        rules_apply_to_each_of_a_team_join(t, rules, a, b.drop_last());
        assert((a + b).drop_last() =~= a + b.drop_last());
        assert((a + b).last() == b.last());
        assert(team_rule_effects(t, rules, a + b) =~= team_rule_effects(t, rules, a) + team_rule_effects(t, rules, b));
    }
}

/// The rules apply to each fighter of a team that has an id, one fighter after the other.
pub proof fn rules_apply_to_each_of_a_team(
    t: EffectTables,
    rules: Seq<(i32, i32)>,
    a: Seq<EntityView>,
    b: Seq<EntityView>,
    x: EntityView,
)
    ensures
        team_rule_effects(t, rules, a + b) == team_rule_effects(t, rules, a) + team_rule_effects(t, rules, b),
        team_rule_effects(t, rules, Seq::<EntityView>::empty()).len() == 0,
        team_rule_effects(t, rules, seq![x]) == (if x.uid is Some {
            rule_effects(t, rules, x.uid->0)
        } else {
            Seq::empty()
        }),
{
    rules_apply_to_each_of_a_team_join(t, rules, a, b);
    let one = seq![x];
    assert(one.drop_last() =~= Seq::<EntityView>::empty());
    assert(one.last() == x);
    assert(team_rule_effects(t, rules, one.drop_last()).len() == 0);
    assert(team_rule_effects(t, rules, seq![x]) =~= (if x.uid is Some {
            rule_effects(t, rules, x.uid->0)
        } else {
            Seq::empty()
        }));
}

/// Which family a behaviour belongs to, by its id.
pub proof fn families_by_id(id: i32)
    ensures
        family(id) == Some(Family::ExPoint) <==> {
            ||| id == 20002 || id == 60174
        },
        family(id) == Some(Family::AddBuff) <==> {
            ||| id == 1 || id == 20005 || id == 20017 || id == 60210
            ||| id == 60211
        },
        family(id) == Some(Family::AddAct) <==> {
            ||| id == 40003 || id == 50006
        },
        family(id) == Some(Family::Stats) <==> {
            ||| id == 20010 || id == 20011 || id == 50017 || id == 50037
        },
        family(id) == Some(Family::Disperse) <==> {
            ||| id == 20003 || id == 20004 || id == 20020 || id == 30003
            ||| id == 30004 || id == 30008 || id == 30009 || id == 30016
            ||| id == 30017 || id == 50014 || id == 50016 || id == 60010
            ||| id == 60011 || id == 60176 || id == 90002
        },
        family(id) == Some(Family::SkillRate) <==> {
            ||| id == 10001 || id == 10002 || id == 10003 || id == 10009
            ||| id == 10012 || id == 40015 || id == 60028
        },
        family(id) == Some(Family::Misc) <==> {
            ||| id == 40006 || id == 40008 || id == 60008 || id == 60013
            ||| id == 60015 || id == 60018 || id == 60019 || id == 60056
            ||| id == 100017
        },
        family(id) == Some(Family::Catapult) <==> {
            ||| id == 60074
        },
        family(id) == Some(Family::Random) <==> {
            ||| id == 20021 || id == 20022 || id == 20023
        },
        family(id) == Some(Family::MagicCircle) <==> {
            ||| id == 50019 || id == 50020 || id == 50021 || id == 60076
            ||| id == 60163 || id == 60270 || id == 60272
        },
        family(id) == Some(Family::NuodikaDamage) <==> {
            ||| id == 60209
        },
        family(id) == Some(Family::Damage) <==> {
            ||| id == 10006 || id == 10008 || id == 20008 || id == 20009
            ||| id == 30014 || id == 60127 || id == 60215 || id == 60237
        },
        family(id) == Some(Family::Heal) <==> {
            ||| id == 20001 || id == 20012 || id == 20016 || id == 20018
            ||| id == 60232 || id == 90001
        },
        family(id) == Some(Family::Empathy) <==> {
            ||| id == 60038 || id == 60039 || id == 60040 || id == 60052
        },
        family(id) == Some(Family::DotSettle) <==> {
            ||| id == 60073
        },
        family(id) == Some(Family::LostLife) <==> {
            ||| id == 30005 || id == 30006 || id == 30010 || id == 30018
            ||| id == 60146 || id == 60213 || id == 60216 || id == 60226
        },
        family(id) == Some(Family::Bloodtithe) <==> {
            ||| id == 60190 || id == 60191 || id == 60199
        },
        family(id) == Some(Family::PoisonPriority) <==> {
            ||| id == 60112
        },
        family(id) == Some(Family::DirectSkill) <==> {
            ||| id == 50008 || id == 50010 || id == 50012 || id == 50036
            ||| id == 50038 || id == 50039 || id == 60014 || id == 60053
            ||| id == 60156 || id == 60175 || id == 60188 || id == 60196
            ||| id == 60223 || id == 60225 || id == 60239 || id == 60262
            ||| id == 100021
        },
{
}

/// The id of a behaviour is the number that its text starts with, and zero if it starts
/// with none.
pub proof fn the_id_of_a_behaviour(raw: Seq<char>)
    ensures
        number(pieces(raw, '#')[0]) is Some ==> behaviour_id(raw) == number(
            pieces(raw, '#')[0],
        )->0,
        number(pieces(raw, '#')[0]) is None ==> behaviour_id(raw) == 0,
{
    crate::text::pieces_nonempty(raw, '#');
}

} // verus!
