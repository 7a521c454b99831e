//! What tables, buffs and lists hold, and how they are searched.

use crate::buffs::{first_buff, holds, BuffInstance, BuffMgr};
use crate::chance::{reordered, seed_of_round};
use crate::config::{
    effect_of_skill, first_ten, row_at, shared_params, BattleRow, BehaviorConditionRow, BuffActRow,
    EpisodeRow, MagicCircleRow, MonsterSkillTemplateRow, ResistanceRow, Row, SharedParamsRow,
    SkillBuffRow, SkillEffectRow, SkillLinkRow, SlotRow,
};
use vstd::prelude::*;

verus! {

/// Rows are found by their id, and the links of skills and the shared parameters by the
/// skill and the buff that they belong to.
pub proof fn what_rows_are_found_by(
    buff: SkillBuffRow,
    act: BuffActRow,
    effect: SkillEffectRow,
    template: MonsterSkillTemplateRow,
    circle: MagicCircleRow,
    episode: EpisodeRow,
    battle: BattleRow,
    resistance: ResistanceRow,
    condition: BehaviorConditionRow,
    link: SkillLinkRow,
    params: SharedParamsRow,
)
    ensures
        buff.key() == buff.id,
        act.key() == act.id,
        effect.key() == effect.id,
        template.key() == template.id,
        circle.key() == circle.id,
        episode.key() == episode.id,
        battle.key() == battle.id,
        resistance.key() == resistance.id,
        condition.key() == condition.id,
        link.key() == link.skill_id,
        params.key() == params.buff_id,
{
}

/// The row of an id is the first that has it; there is none only if no row has it.
pub proof fn the_row_of_an_id<T: Row>(rows: Seq<T>, id: i32)
    ensures
        row_at(rows, id) is None <==> forall|i: int|
            0 <= i < rows.len() ==> (#[trigger] rows[i]).key() != id,
        row_at(rows, id) is Some ==> exists|i: int|
            0 <= i < rows.len() && #[trigger] rows[i] == row_at(rows, id)->0 && rows[i].key() == id
                && forall|j: int| 0 <= j < i ==> (#[trigger] rows[j]).key() != id,
    decreases rows.len(),
{
    if rows.len() > 0 {
        let rest = rows.skip(1);
        the_row_of_an_id(rest, id);
        assert forall|i: int| 0 < i < rows.len() implies rest[i - 1] == #[trigger] rows[i] by {}
        if rows[0].key() == id {
            assert(rows[0] == row_at(rows, id)->0);
        } else if row_at(rest, id) is Some {
            let i = choose|i: int|
                0 <= i < rest.len() && #[trigger] rest[i] == row_at(rest, id)->0 && rest[i].key()
                    == id && forall|j: int| 0 <= j < i ==> (#[trigger] rest[j]).key() != id;
            assert(rows[i + 1] == row_at(rows, id)->0);
            assert forall|j: int| 0 <= j < i + 1 implies (#[trigger] rows[j]).key() != id by {
                if j > 0 {
                    assert(rest[j - 1] == rows[j]);
                }
            }
        } else {
            assert forall|i: int| 0 <= i < rows.len() implies (#[trigger] rows[i]).key() != id by {
                if i > 0 {
                    assert(rest[i - 1] == rows[i]);
                }
            }
        }
    }
}

/// A skill has the effect that it is linked to, else the effect of its own id. A buff has
/// the parameters that are shared for it, else none.
pub proof fn what_skills_and_buffs_are_linked_to(
    links: Seq<SkillLinkRow>,
    skill_id: i32,
    rows: Seq<SharedParamsRow>,
    buff_id: i32,
)
    ensures
        row_at(links, skill_id) is Some ==> effect_of_skill(links, skill_id) == row_at(
            links,
            skill_id,
        )->0.effect_id,
        row_at(links, skill_id) is None ==> effect_of_skill(links, skill_id) == skill_id,
        row_at(rows, buff_id) is Some ==> shared_params(rows, buff_id) == row_at(
            rows,
            buff_id,
        )->0.params@,
        row_at(rows, buff_id) is None ==> shared_params(rows, buff_id).len() == 0,
{
}

/// A skill has at most ten slots; what stands behind the tenth is ignored.
pub proof fn ten_slots_at_most(slots: Seq<SlotRow>)
    ensures
        slots.len() <= 10 ==> first_ten(slots) == slots,
        slots.len() > 10 ==> first_ten(slots).len() == 10,
        forall|i: int|
            0 <= i < first_ten(slots).len() ==> #[trigger] first_ten(slots)[i] == slots[i],
{
}

/// A buff is held exactly if it is found, and found is the first of its id.
pub proof fn the_buff_of_an_id(s: Seq<BuffInstance>, buff_id: i32)
    ensures
        first_buff(s, buff_id) is Some <==> holds(s, buff_id),
        holds(s, buff_id) <==> exists|i: int|
            0 <= i < s.len() && (#[trigger] s[i]).buff_id == buff_id,
        first_buff(s, buff_id) is Some ==> exists|i: int|
            0 <= i < s.len() && #[trigger] s[i] == first_buff(s, buff_id)->0 && s[i].buff_id
                == buff_id && forall|j: int| 0 <= j < i ==> (#[trigger] s[j]).buff_id != buff_id,
    decreases s.len(),
{
    if s.len() > 0 {
        let rest = s.skip(1);
        the_buff_of_an_id(rest, buff_id);
        assert forall|i: int| 0 < i < s.len() implies rest[i - 1] == #[trigger] s[i] by {}
        if s[0].buff_id == buff_id {
            assert(s[0] == first_buff(s, buff_id)->0);
        } else {
            if holds(s, buff_id) {
                let i = choose|i: int| 0 <= i < s.len() && (#[trigger] s[i]).buff_id == buff_id;
                assert(rest[i - 1] == s[i]);
            }
            if first_buff(rest, buff_id) is Some {
                let i = choose|i: int|
                    0 <= i < rest.len() && #[trigger] rest[i] == first_buff(rest, buff_id)->0
                        && rest[i].buff_id == buff_id && forall|j: int|
                        0 <= j < i ==> (#[trigger] rest[j]).buff_id != buff_id;
                assert(s[i + 1] == first_buff(s, buff_id)->0);
                assert forall|j: int| 0 <= j < i + 1 implies (#[trigger] s[j]).buff_id
                    != buff_id by {
                    if j > 0 {
                        assert(rest[j - 1] == s[j]);
                    }
                }
            }
        }
    }
}

/// A fighter's buffs are those that are kept for it, and none if none are kept.
pub proof fn the_buffs_of_a_fighter(m: BuffMgr, uid: i64)
    ensures
        m.active_buff@.contains_key(uid) ==> m.of(uid) == m.active_buff@[uid]@,
        !m.active_buff@.contains_key(uid) ==> m.of(uid).len() == 0,
{
}

/// What is reordered keeps its length, and each place takes what stood at the place that
/// the order names.
pub proof fn reordering<T>(s: Seq<T>, from: Seq<int>, i: int)
    ensures
        reordered(s, from).len() == s.len(),
        0 <= i < s.len() ==> reordered(s, from)[i] == s[from[i]],
{
}

/// The chance of a round comes from the number of the round, and from one if there is none.
pub proof fn the_seed_of_a_round(n: i32)
    ensures
        n >= 0 ==> seed_of_round(Some(n)) == n,
        seed_of_round(None) == 1,
{
}

} // verus!
