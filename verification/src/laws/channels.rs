//! Channels: who triggers and holds them, and what enemies invoke.

use crate::buffs::{BuffInstance, BuffMgr};
use crate::config::{row_at, BuffActRow, Row, SkillBuffRow, SkillEffectRow, SlotRow};
use crate::mechanics::channel::{
    act_is, attackers_on_field, behaviour_invokes, count_on_side, eligible_holders, entry_act,
    feature_has_act, first_answer, gives_attr_from_entity, has_layer_left, holder_by, is_alive,
    is_trigger_state, last_update, leading_slots, one_layer_less, passive_triggers, passives_invoke,
    pool_ids, side, slot_triggers, slots_invoke, splice_index, team_invokes, team_triggers,
    trimmed_number, uid_or_zero, MonitorRow, SkillReadings, TriggerState,
};
use crate::model::{EffectType, EffectView, EntityView, FightView};
use crate::text::{number, pieces, trimmed};
use vstd::prelude::*;

verus! {

/// The number that an entry of features begins with, zero if it is none.
pub open spec fn first_number(entry: Seq<char>) -> i32 {
    let n = number(trimmed(pieces(entry, '#')[0]));
    if n is Some {
        n->0
    } else {
        0
    }
}

/// Features have an act if one of the entries between bars begins with the id of a row of
/// its type.
pub proof fn what_features_have(
    features: Seq<char>,
    acts: Seq<BuffActRow>,
    act_type: Seq<char>,
    act_id: i32,
    entry: Seq<char>,
    parts: Seq<Seq<char>>,
    k: int,
)
    ensures
        entry_act(entry) == first_number(entry),
        act_is(acts, act_id, act_type) <==> row_at(acts, act_id) is Some && row_at(
            acts,
            act_id,
        )->0.act_type@ == act_type,
        feature_has_act(features, acts, act_type) <==> exists|k: int|
            0 <= k < pieces(features, '|').len() && row_at(
                acts,
                first_number(#[trigger] pieces(features, '|')[k]),
            ) is Some && row_at(acts, first_number(pieces(features, '|')[k]))->0.act_type@
                == act_type,
        0 <= k < parts.len() ==> trimmed_number(parts, k) == number(trimmed(parts[k])),
        k < 0 || k >= parts.len() ==> trimmed_number(parts, k) is None,
{
    let p = pieces(features, '|');
    if feature_has_act(features, acts, act_type) {
        let k = choose|k: int|
            0 <= k < p.len() && act_is(acts, entry_act(#[trigger] p[k]), act_type);
        assert(row_at(acts, first_number(p[k])) is Some);
    }
    if exists|k: int|
        0 <= k < p.len() && row_at(acts, first_number(#[trigger] p[k])) is Some && row_at(
            acts,
            first_number(p[k]),
        )->0.act_type@ == act_type {
        let k = choose|k: int|
            0 <= k < p.len() && row_at(acts, first_number(#[trigger] p[k])) is Some && row_at(
                acts,
                first_number(p[k]),
            )->0.act_type@ == act_type;
        assert(act_is(acts, entry_act(p[k]), act_type));
    }
}

/// A behaviour gives attributes of an entity if it puts on a buff whose features say so.
pub proof fn which_behaviour_triggers(
    behavior: Seq<char>,
    buff_rows: Seq<SkillBuffRow>,
    acts: Seq<BuffActRow>,
)
    ensures
        ({
            let parts = pieces(behavior, '#');
            let row = row_at(buff_rows, number(parts[1])->0);
            gives_attr_from_entity(behavior, buff_rows, acts) <==> parts.len() >= 2 && parts[0]
                == seq!['1'] && number(parts[1]) is Some && row is Some && feature_has_act(
                row->0.features@,
                acts,
                "AttrFromEntity"@,
            )
        }),
{
    reveal_strlit("1");
    assert("1"@ =~= seq!['1']);
}

/// The first five slots of a skill count.
pub proof fn five_slots_at_most(slots: Seq<SlotRow>)
    ensures
        slots.len() <= 5 ==> leading_slots(slots) == slots,
        slots.len() > 5 ==> leading_slots(slots).len() == 5,
        forall|i: int|
            0 <= i < leading_slots(slots).len() ==> #[trigger] leading_slots(slots)[i] == slots[i],
{
}

proof fn triggers_of_slots_join(
    uid: i64,
    passive: i32,
    buff_rows: Seq<SkillBuffRow>,
    acts: Seq<BuffActRow>,
    a: Seq<SlotRow>,
    b: Seq<SlotRow>,
)
    ensures
        slot_triggers(a + b, uid, passive, buff_rows, acts) == slot_triggers(a, uid, passive, buff_rows, acts) + slot_triggers(b, uid, passive, buff_rows, acts),
    decreases b.len(),
{
    if b.len() == 0 {
        assert(a + b =~= a);
        assert(slot_triggers(a, uid, passive, buff_rows, acts) + slot_triggers(b, uid, passive, buff_rows, acts) =~= slot_triggers(a, uid, passive, buff_rows, acts));
    } else {
        triggers_of_slots_join(uid, passive, buff_rows, acts, a, b.drop_last());
        assert((a + b).drop_last() =~= a + b.drop_last());
        assert((a + b).last() == b.last());
        assert(slot_triggers(a + b, uid, passive, buff_rows, acts) =~= slot_triggers(a, uid, passive, buff_rows, acts) + slot_triggers(b, uid, passive, buff_rows, acts));
    }
}

/// Each slot that gives attributes of an entity is a trigger of its fighter and passive.
pub proof fn triggers_of_slots(
    uid: i64,
    passive: i32,
    buff_rows: Seq<SkillBuffRow>,
    acts: Seq<BuffActRow>,
    a: Seq<SlotRow>,
    b: Seq<SlotRow>,
    x: SlotRow,
)
    ensures
        slot_triggers(a + b, uid, passive, buff_rows, acts) == slot_triggers(a, uid, passive, buff_rows, acts) + slot_triggers(b, uid, passive, buff_rows, acts),
        slot_triggers(Seq::<SlotRow>::empty(), uid, passive, buff_rows, acts).len() == 0,
        slot_triggers(seq![x], uid, passive, buff_rows, acts) == (if gives_attr_from_entity(x.behavior@, buff_rows, acts) {
            seq![(uid, passive)]
        } else {
            Seq::empty()
        }),
{
    triggers_of_slots_join(uid, passive, buff_rows, acts, a, b);
    let one = seq![x];
    assert(one.drop_last() =~= Seq::<SlotRow>::empty());
    assert(one.last() == x);
    assert(slot_triggers(one.drop_last(), uid, passive, buff_rows, acts).len() == 0);
    assert(slot_triggers(seq![x], uid, passive, buff_rows, acts) =~= (if gives_attr_from_entity(x.behavior@, buff_rows, acts) {
            seq![(uid, passive)]
        } else {
            Seq::empty()
        }));
}

proof fn triggers_of_passives_join(
    uid: i64,
    skills: Seq<SkillEffectRow>,
    buff_rows: Seq<SkillBuffRow>,
    acts: Seq<BuffActRow>,
    a: Seq<i32>,
    b: Seq<i32>,
)
    ensures
        passive_triggers(a + b, uid, skills, buff_rows, acts) == passive_triggers(a, uid, skills, buff_rows, acts) + passive_triggers(b, uid, skills, buff_rows, acts),
    decreases b.len(),
{
    if b.len() == 0 {
        assert(a + b =~= a);
        assert(passive_triggers(a, uid, skills, buff_rows, acts) + passive_triggers(b, uid, skills, buff_rows, acts) =~= passive_triggers(a, uid, skills, buff_rows, acts));
    } else {
        triggers_of_passives_join(uid, skills, buff_rows, acts, a, b.drop_last());
        assert((a + b).drop_last() =~= a + b.drop_last());
        assert((a + b).last() == b.last());
        assert(passive_triggers(a + b, uid, skills, buff_rows, acts) =~= passive_triggers(a, uid, skills, buff_rows, acts) + passive_triggers(b, uid, skills, buff_rows, acts));
    }
}

/// The triggers of passives are those of their slots; a passive without a row has none.
pub proof fn triggers_of_passives(
    uid: i64,
    skills: Seq<SkillEffectRow>,
    buff_rows: Seq<SkillBuffRow>,
    acts: Seq<BuffActRow>,
    a: Seq<i32>,
    b: Seq<i32>,
    x: i32,
)
    ensures
        passive_triggers(a + b, uid, skills, buff_rows, acts) == passive_triggers(a, uid, skills, buff_rows, acts) + passive_triggers(b, uid, skills, buff_rows, acts),
        passive_triggers(Seq::<i32>::empty(), uid, skills, buff_rows, acts).len() == 0,
        passive_triggers(seq![x], uid, skills, buff_rows, acts) == (match row_at(skills, x) {
            Some(row) => slot_triggers(leading_slots(row.slots@), uid, x, buff_rows, acts),
            None => Seq::empty(),
        }),
{
    triggers_of_passives_join(uid, skills, buff_rows, acts, a, b);
    let one = seq![x];
    assert(one.drop_last() =~= Seq::<i32>::empty());
    assert(one.last() == x);
    assert(passive_triggers(one.drop_last(), uid, skills, buff_rows, acts).len() == 0);
    assert(passive_triggers(seq![x], uid, skills, buff_rows, acts) =~= (match row_at(skills, x) {
            Some(row) => slot_triggers(leading_slots(row.slots@), uid, x, buff_rows, acts),
            None => Seq::empty(),
        }));
}

proof fn triggers_of_a_team_join(
    skills: Seq<SkillEffectRow>,
    buff_rows: Seq<SkillBuffRow>,
    acts: Seq<BuffActRow>,
    a: Seq<EntityView>,
    b: Seq<EntityView>,
)
    ensures
        team_triggers(a + b, skills, buff_rows, acts) == team_triggers(a, skills, buff_rows, acts) + team_triggers(b, skills, buff_rows, acts),
    decreases b.len(),
{
    if b.len() == 0 {
        assert(a + b =~= a);
        assert(team_triggers(a, skills, buff_rows, acts) + team_triggers(b, skills, buff_rows, acts) =~= team_triggers(a, skills, buff_rows, acts));
    } else {
        triggers_of_a_team_join(skills, buff_rows, acts, a, b.drop_last());
        assert((a + b).drop_last() =~= a + b.drop_last());
        assert((a + b).last() == b.last());
        assert(team_triggers(a + b, skills, buff_rows, acts) =~= team_triggers(a, skills, buff_rows, acts) + team_triggers(b, skills, buff_rows, acts));
    }
}

/// The triggers of a team are those of the passives of its fighters, under their ids.
pub proof fn triggers_of_a_team(
    skills: Seq<SkillEffectRow>,
    buff_rows: Seq<SkillBuffRow>,
    acts: Seq<BuffActRow>,
    a: Seq<EntityView>,
    b: Seq<EntityView>,
    x: EntityView,
)
    ensures
        team_triggers(a + b, skills, buff_rows, acts) == team_triggers(a, skills, buff_rows, acts) + team_triggers(b, skills, buff_rows, acts),
        team_triggers(Seq::<EntityView>::empty(), skills, buff_rows, acts).len() == 0,
        team_triggers(seq![x], skills, buff_rows, acts) == (passive_triggers(
            x.passive_skill,
            if x.uid is Some {
                x.uid->0
            } else {
                0
            },
            skills,
            buff_rows,
            acts,
        )),
{
    triggers_of_a_team_join(skills, buff_rows, acts, a, b);
    let one = seq![x];
    assert(one.drop_last() =~= Seq::<EntityView>::empty());
    assert(one.last() == x);
    assert(team_triggers(one.drop_last(), skills, buff_rows, acts).len() == 0);
    assert(team_triggers(seq![x], skills, buff_rows, acts) =~= (passive_triggers(
            x.passive_skill,
            if x.uid is Some {
                x.uid->0
            } else {
                0
            },
            skills,
            buff_rows,
            acts,
        )));
}

/// The attackers on the field, who is alive, and the id of a fighter.
pub proof fn who_is_on_the_field(f: FightView, e: EntityView, row: MonitorRow)
    ensures
        f.attacker is Some ==> attackers_on_field(f) == f.attacker->0.entitys,
        f.attacker is None ==> attackers_on_field(f).len() == 0,
        e.current_hp is None ==> !is_alive(e),
        e.current_hp is Some ==> (is_alive(e) <==> e.current_hp->0 > 0),
        e.uid is Some ==> uid_or_zero(e) == e.uid->0,
        e.uid is None ==> uid_or_zero(e) == 0,
        row.key() == row.buff_id,
{
}

/// Somebody has a buff.
pub open spec fn has(held: Seq<BuffInstance>, buff_id: i32) -> bool {
    exists|i: int| 0 <= i < held.len() && (#[trigger] held[i]).buff_id == buff_id
}

/// Somebody has a buff of which a layer or a stack is left.
pub open spec fn has_some_of(held: Seq<BuffInstance>, buff_id: i32) -> bool {
    exists|i: int|
        0 <= i < held.len() && (#[trigger] held[i]).buff_id == buff_id && (held[i].layer > 0
            || held[i].stacks > 0)
}

/// A buff makes its fighter answer if it has a row, the fighter has the buff that the row
/// asks for, if any, and something is left of the buff that counts.
pub proof fn which_buff_answers(
    rows: Seq<MonitorRow>,
    uid: i64,
    held: Seq<BuffInstance>,
    buff_id: i32,
)
    ensures
        ({
            let row = row_at(rows, buff_id);
            let h = holder_by(rows, uid, held, buff_id);
            &&& h is Some <==> row is Some && (row->0.prerequisite_buff_id > 0 ==> has(
                held,
                row->0.prerequisite_buff_id,
            )) && has_some_of(held, row->0.counter_buff_id)
            &&& h is Some ==> h->0.holder_uid == uid
            &&& h is Some ==> h->0.channel_buff_id == buff_id
            &&& h is Some ==> h->0.prerequisite_buff_id == row->0.prerequisite_buff_id
            &&& h is Some ==> h->0.reactive_skill_id == row->0.enemy_reaction_id
            &&& h is Some ==> h->0.layer_counter_buff_id == row->0.counter_buff_id
        }),
{
    if row_at(rows, buff_id) is Some {
        let c = row_at(rows, buff_id)->0.counter_buff_id;
        if has_layer_left(held, c) {
            let i = choose|i: int|
                0 <= i < held.len() && (#[trigger] held[i]).buff_id == c && (held[i].layer >= 1
                    || held[i].stacks >= 1);
            assert(held[i].buff_id == c);
        }
        if has_some_of(held, c) {
            let i = choose|i: int|
                0 <= i < held.len() && (#[trigger] held[i]).buff_id == c && (held[i].layer > 0
                    || held[i].stacks > 0);
            assert(held[i].buff_id == c);
        }
    }
}

/// The first buff that makes its fighter answer decides.
pub proof fn the_first_buff_that_answers(
    rows: Seq<MonitorRow>,
    uid: i64,
    held: Seq<BuffInstance>,
    some: Seq<BuffInstance>,
)
    ensures
        first_answer(rows, uid, held, some) is None <==> forall|i: int|
            0 <= i < some.len() ==> holder_by(rows, uid, held, (#[trigger] some[i]).buff_id) is None,
        first_answer(rows, uid, held, some) is Some ==> exists|i: int|
            0 <= i < some.len() && holder_by(rows, uid, held, (#[trigger] some[i]).buff_id)
                == first_answer(rows, uid, held, some) && forall|j: int|
                0 <= j < i ==> holder_by(rows, uid, held, (#[trigger] some[j]).buff_id) is None,
    decreases some.len(),
{
    if some.len() > 0 {
        let rest = some.skip(1);
        the_first_buff_that_answers(rows, uid, held, rest);
        assert forall|i: int| 0 < i < some.len() implies rest[i - 1] == #[trigger] some[i] by {}
        if holder_by(rows, uid, held, some[0].buff_id) is Some {
            assert(holder_by(rows, uid, held, some[0].buff_id) == first_answer(
                rows,
                uid,
                held,
                some,
            ));
        } else if first_answer(rows, uid, held, rest) is Some {
            let i = choose|i: int|
                0 <= i < rest.len() && holder_by(rows, uid, held, (#[trigger] rest[i]).buff_id)
                    == first_answer(rows, uid, held, rest) && forall|j: int|
                    0 <= j < i ==> holder_by(rows, uid, held, (#[trigger] rest[j]).buff_id) is None;
            assert(some[i + 1] == rest[i]);
            assert forall|j: int| 0 <= j < i + 1 implies holder_by(
                rows,
                uid,
                held,
                (#[trigger] some[j]).buff_id,
            ) is None by {
                if j > 0 {
                    assert(rest[j - 1] == some[j]);
                }
            }
        } else {
            assert forall|i: int| 0 <= i < some.len() implies holder_by(
                rows,
                uid,
                held,
                (#[trigger] some[i]).buff_id,
            ) is None by {
                if i > 0 {
                    assert(rest[i - 1] == some[i]);
                }
            }
        }
    }
}

proof fn holders_of_a_team_join(
    rows: Seq<MonitorRow>,
    buffs: BuffMgr,
    a: Seq<EntityView>,
    b: Seq<EntityView>,
)
    ensures
        eligible_holders(rows, buffs, a + b) == eligible_holders(rows, buffs, a) + eligible_holders(rows, buffs, b),
    decreases b.len(),
{
    if b.len() == 0 {
        assert(a + b =~= a);
        assert(eligible_holders(rows, buffs, a) + eligible_holders(rows, buffs, b) =~= eligible_holders(rows, buffs, a));
    } else {
        holders_of_a_team_join(rows, buffs, a, b.drop_last());
        assert((a + b).drop_last() =~= a + b.drop_last());
        assert((a + b).last() == b.last());
        assert(eligible_holders(rows, buffs, a + b) =~= eligible_holders(rows, buffs, a) + eligible_holders(rows, buffs, b));
    }
}

/// The holders of a team are its living fighters whom a buff makes answer, in their order.
pub proof fn holders_of_a_team(
    rows: Seq<MonitorRow>,
    buffs: BuffMgr,
    a: Seq<EntityView>,
    b: Seq<EntityView>,
    x: EntityView,
)
    ensures
        eligible_holders(rows, buffs, a + b) == eligible_holders(rows, buffs, a) + eligible_holders(rows, buffs, b),
        eligible_holders(rows, buffs, Seq::<EntityView>::empty()).len() == 0,
        eligible_holders(rows, buffs, seq![x]) == (if x.current_hp is Some && x.current_hp->0 > 0 && x.uid is Some && first_answer(
            rows,
            x.uid->0,
            buffs.of(x.uid->0),
            buffs.of(x.uid->0),
        ) is Some {
            seq![first_answer(rows, x.uid->0, buffs.of(x.uid->0), buffs.of(x.uid->0))->0]
        } else {
            Seq::empty()
        }),
{
    holders_of_a_team_join(rows, buffs, a, b);
    let one = seq![x];
    assert(one.drop_last() =~= Seq::<EntityView>::empty());
    assert(one.last() == x);
    assert(eligible_holders(rows, buffs, one.drop_last()).len() == 0);
    assert(eligible_holders(rows, buffs, seq![x]) =~= (if x.current_hp is Some && x.current_hp->0 > 0 && x.uid is Some && first_answer(
            rows,
            x.uid->0,
            buffs.of(x.uid->0),
            buffs.of(x.uid->0),
        ) is Some {
            seq![first_answer(rows, x.uid->0, buffs.of(x.uid->0), buffs.of(x.uid->0))->0]
        } else {
            Seq::empty()
        }));
}

/// What follows a channel goes before the last update of a buff, and to the end if there
/// is none.
pub proof fn where_followups_go(s: Seq<EffectView>)
    ensures
        ({
            let i = splice_index(s) as int;
            &&& i <= s.len()
            &&& i < s.len() ==> s[i].effect_type == Some(EffectType::BuffUpdate)
            &&& forall|j: int|
                i < j < s.len() ==> (#[trigger] s[j]).effect_type != Some(EffectType::BuffUpdate)
            &&& i == s.len() ==> forall|j: int|
                0 <= j < s.len() ==> (#[trigger] s[j]).effect_type != Some(EffectType::BuffUpdate)
        }),
{
    the_last_update(s);
}

proof fn the_last_update(s: Seq<EffectView>)
    ensures
        last_update(s) is None ==> forall|j: int|
            0 <= j < s.len() ==> (#[trigger] s[j]).effect_type != Some(EffectType::BuffUpdate),
        last_update(s) is Some ==> last_update(s)->0 < s.len() && s[last_update(
            s,
        )->0 as int].effect_type == Some(EffectType::BuffUpdate) && forall|j: int|
            last_update(s)->0 < j < s.len() ==> (#[trigger] s[j]).effect_type != Some(
                EffectType::BuffUpdate,
            ),
    decreases s.len(),
{
    if s.len() > 0 {
        let less = s.drop_last();
        the_last_update(less);
        assert forall|j: int| 0 <= j < less.len() implies less[j] == #[trigger] s[j] by {}
        assert(s[s.len() - 1] == s.last());
    }
}

/// A behaviour that begins with one of two codes invokes skills: one invokes the skill
/// behind its code, the other those that begin its chunks. Ids not above zero are none.
pub proof fn what_a_behaviour_invokes(rest: Seq<char>, b: Seq<char>)
    ensures
        behaviour_invokes(seq!['5', '0', '0', '0', '8', '#'] + rest) == (match number(
            pieces(rest, '#')[0],
        ) {
            Some(id) => if id > 0 {
                seq![id]
            } else {
                Seq::empty()
            },
            None => Seq::empty(),
        }),
        behaviour_invokes(seq!['6', '0', '2', '2', '5', '#'] + rest) == pool_ids(pieces(rest, '&')),
        b.len() < 6 || (b.take(6) != seq!['5', '0', '0', '0', '8', '#'] && b.take(6) != seq![
            '6',
            '0',
            '2',
            '2',
            '5',
            '#',
        ]) ==> behaviour_invokes(b).len() == 0,
{
    reveal_strlit("50008#");
    reveal_strlit("60225#");
    let x = seq!['5', '0', '0', '0', '8', '#'];
    let y = seq!['6', '0', '2', '2', '5', '#'];
    assert("50008#"@ =~= x);
    assert("60225#"@ =~= y);
    assert((x + rest).take(6) =~= x);
    assert((y + rest).take(6) =~= y);
    assert((x + rest).skip(6) =~= rest);
    assert((y + rest).skip(6) =~= rest);
    assert(x[0] != y[0]);
}

proof fn ids_of_chunks_join(
    a: Seq<Seq<char>>,
    b: Seq<Seq<char>>,
)
    ensures
        pool_ids(a + b) == pool_ids(a) + pool_ids(b),
    decreases b.len(),
{
    if b.len() == 0 {
        assert(a + b =~= a);
        assert(pool_ids(a) + pool_ids(b) =~= pool_ids(a));
    } else {
        ids_of_chunks_join(a, b.drop_last());
        assert((a + b).drop_last() =~= a + b.drop_last());
        assert((a + b).last() == b.last());
        assert(pool_ids(a + b) =~= pool_ids(a) + pool_ids(b));
    }
}

/// Each chunk names the id before its colon, if that is above zero.
pub proof fn ids_of_chunks(
    a: Seq<Seq<char>>,
    b: Seq<Seq<char>>,
    x: Seq<char>,
)
    ensures
        pool_ids(a + b) == pool_ids(a) + pool_ids(b),
        pool_ids(Seq::<Seq<char>>::empty()).len() == 0,
        pool_ids(seq![x]) == (match number(pieces(x, ':')[0]) {
            Some(id) => if id > 0 {
                seq![id]
            } else {
                Seq::empty()
            },
            None => Seq::empty(),
        }),
{
    ids_of_chunks_join(a, b);
    let one = seq![x];
    assert(one.drop_last() =~= Seq::<Seq<char>>::empty());
    assert(one.last() == x);
    assert(pool_ids(one.drop_last()).len() == 0);
    assert(pool_ids(seq![x]) =~= (match number(pieces(x, ':')[0]) {
            Some(id) => if id > 0 {
                seq![id]
            } else {
                Seq::empty()
            },
            None => Seq::empty(),
        }));
}

proof fn what_slots_invoke_join(
    a: Seq<SlotRow>,
    b: Seq<SlotRow>,
)
    ensures
        slots_invoke(a + b) == slots_invoke(a) + slots_invoke(b),
    decreases b.len(),
{
    if b.len() == 0 {
        assert(a + b =~= a);
        assert(slots_invoke(a) + slots_invoke(b) =~= slots_invoke(a));
    } else {
        what_slots_invoke_join(a, b.drop_last());
        assert((a + b).drop_last() =~= a + b.drop_last());
        assert((a + b).last() == b.last());
        assert(slots_invoke(a + b) =~= slots_invoke(a) + slots_invoke(b));
    }
}

/// Slots invoke what their behaviours invoke, in their order.
pub proof fn what_slots_invoke(
    a: Seq<SlotRow>,
    b: Seq<SlotRow>,
    x: SlotRow,
)
    ensures
        slots_invoke(a + b) == slots_invoke(a) + slots_invoke(b),
        slots_invoke(Seq::<SlotRow>::empty()).len() == 0,
        slots_invoke(seq![x]) == (behaviour_invokes(x.behavior@)),
{
    what_slots_invoke_join(a, b);
    let one = seq![x];
    assert(one.drop_last() =~= Seq::<SlotRow>::empty());
    assert(one.last() == x);
    assert(slots_invoke(one.drop_last()).len() == 0);
    assert(slots_invoke(seq![x]) =~= (behaviour_invokes(x.behavior@)));
}

proof fn what_passives_invoke_join(
    skills: Seq<SkillEffectRow>,
    a: Seq<i32>,
    b: Seq<i32>,
)
    ensures
        passives_invoke(a + b, skills) == passives_invoke(a, skills) + passives_invoke(b, skills),
    decreases b.len(),
{
    if b.len() == 0 {
        assert(a + b =~= a);
        assert(passives_invoke(a, skills) + passives_invoke(b, skills) =~= passives_invoke(a, skills));
    } else {
        what_passives_invoke_join(skills, a, b.drop_last());
        assert((a + b).drop_last() =~= a + b.drop_last());
        assert((a + b).last() == b.last());
        assert(passives_invoke(a + b, skills) =~= passives_invoke(a, skills) + passives_invoke(b, skills));
    }
}

/// Passives invoke what their slots invoke; one without a row invokes nothing.
pub proof fn what_passives_invoke(
    skills: Seq<SkillEffectRow>,
    a: Seq<i32>,
    b: Seq<i32>,
    x: i32,
)
    ensures
        passives_invoke(a + b, skills) == passives_invoke(a, skills) + passives_invoke(b, skills),
        passives_invoke(Seq::<i32>::empty(), skills).len() == 0,
        passives_invoke(seq![x], skills) == (match row_at(skills, x) {
            Some(row) => slots_invoke(leading_slots(row.slots@)),
            None => Seq::empty(),
        }),
{
    what_passives_invoke_join(skills, a, b);
    let one = seq![x];
    assert(one.drop_last() =~= Seq::<i32>::empty());
    assert(one.last() == x);
    assert(passives_invoke(one.drop_last(), skills).len() == 0);
    assert(passives_invoke(seq![x], skills) =~= (match row_at(skills, x) {
            Some(row) => slots_invoke(leading_slots(row.slots@)),
            None => Seq::empty(),
        }));
}

proof fn what_enemies_invoke_join(
    skills: Seq<SkillEffectRow>,
    a: Seq<EntityView>,
    b: Seq<EntityView>,
)
    ensures
        team_invokes(a + b, skills) == team_invokes(a, skills) + team_invokes(b, skills),
    decreases b.len(),
{
    if b.len() == 0 {
        assert(a + b =~= a);
        assert(team_invokes(a, skills) + team_invokes(b, skills) =~= team_invokes(a, skills));
    } else {
        what_enemies_invoke_join(skills, a, b.drop_last());
        assert((a + b).drop_last() =~= a + b.drop_last());
        assert((a + b).last() == b.last());
        assert(team_invokes(a + b, skills) =~= team_invokes(a, skills) + team_invokes(b, skills));
    }
}

/// Enemies, whose ids are below zero, invoke what their passives invoke; nobody else does.
pub proof fn what_enemies_invoke(
    skills: Seq<SkillEffectRow>,
    a: Seq<EntityView>,
    b: Seq<EntityView>,
    x: EntityView,
)
    ensures
        team_invokes(a + b, skills) == team_invokes(a, skills) + team_invokes(b, skills),
        team_invokes(Seq::<EntityView>::empty(), skills).len() == 0,
        team_invokes(seq![x], skills) == (if x.uid is Some && x.uid->0 < 0 {
            passives_invoke(x.passive_skill, skills)
        } else {
            Seq::empty()
        }),
{
    what_enemies_invoke_join(skills, a, b);
    let one = seq![x];
    assert(one.drop_last() =~= Seq::<EntityView>::empty());
    assert(one.last() == x);
    assert(team_invokes(one.drop_last(), skills).len() == 0);
    assert(team_invokes(seq![x], skills) =~= (if x.uid is Some && x.uid->0 < 0 {
            passives_invoke(x.passive_skill, skills)
        } else {
            Seq::empty()
        }));
}

/// Using up a layer takes one layer, or one stack if no layer is left; nothing else of the
/// buff changes.
pub proof fn using_up_a_layer(b: BuffInstance)
    ensures
        ({
            let c = one_layer_less(b);
            &&& b.layer > 0 ==> c == (BuffInstance { layer: (b.layer - 1) as i32, ..b })
            &&& b.layer <= 0 && b.stacks > i32::MIN ==> c == (BuffInstance {
                layer: 0,
                stacks: (b.stacks - 1) as i32,
                ..b
            })
            &&& b.layer <= 0 && b.stacks == i32::MIN ==> c == (BuffInstance { layer: 0, ..b })
        }),
{
}

/// Two fighters are on one side if their ids have the same sign. Those on a side are
/// counted one by one.
pub proof fn fighters_on_a_side(uids: Seq<i64>, x: i64, of: i64)
    ensures
        side(x) == side(of) <==> (x > 0 && of > 0) || (x < 0 && of < 0) || (x == 0 && of == 0),
        count_on_side(Seq::empty(), of) == 0,
        count_on_side(uids.push(x), of) == count_on_side(uids, of) + (if (x > 0 && of > 0) || (x < 0
            && of < 0) || (x == 0 && of == 0) {
            1int
        } else {
            0
        }),
{
    assert(uids.push(x).drop_last() =~= uids);
}

/// What a skill leaves as the state of triggers: it was used, not driven by an event, first
/// in order, and each reading stands where it belongs.
pub proof fn what_a_skill_triggers(
    t: TriggerState,
    caster_uid: i64,
    skill_id: i32,
    readings: SkillReadings,
    trigger_bullet: bool,
)
    requires
        is_trigger_state(t, caster_uid, skill_id, readings, trigger_bullet),
    ensures
        t.active_use_skill,
        !t.event_driven_only,
        t.trigger_bullet == trigger_bullet,
        t.skill_id == skill_id,
        t.action_order_index == 0,
        t.used_ex_skill == readings.used_ex_skill,
        t.teammate_use_ex_skill == readings.teammate_used_ex_skill,
        t.be_attacked == readings.was_attacked_by_enemy,
        t.hurt_magic == readings.took_mental_damage,
        t.lost_ex_point == readings.lost_ex_point,
        t.hurt_not_restraint == readings.dealt_damage,
        t.hurt_restraint == readings.dealt_damage,
        t.teammate_injury_count == count_on_side(readings.damaged_uids@, caster_uid),
        t.teammate_injury_count_not_reset == readings.teammate_injury_not_reset,
        t.team_injury_count_round <==> t.teammate_injury_count > 0,
        t.deleted_buff_ids@ == readings.deleted_buff_ids@,
        t.active_card_cast_uids@ == readings.active_card_cast_uids@,
        t.bloodpool_max_attacker == Some(readings.bloodpool_max_attacker),
        t.bloodpool_value_attacker == Some(readings.bloodpool_value_attacker),
{
}

} // verus!
