//! Gifts, points, summons, leaps and draws.

use crate::arith::{fits, or_zero};
use crate::buffs::BuffInstance;
use crate::config::{row_at, SkillBuffRow, SkillEffectRow, SkillLinkRow, SlotRow};
use crate::effect::behavior::add_act::acted;
use crate::effect::behavior::add_buff::{gift_plan, GiftPlan};
use crate::effect::behavior::attr_modify::{bonus_of, occurrences, target_bonuses, AttrBonus};
use crate::effect::behavior::catapult::{each_repeated, leaps, main_target, reached, repeated};
use crate::effect::behavior::disperse::{numbers_in, param_or_one, sources_in};
use crate::effect::behavior::ex_point::{first_rate, gained, rate_of_skill, usable};
use crate::effect::behavior::misc::{changes_of, is_monster_change, is_summon};
use crate::effect::behavior::random::{chosen, part_of, pool_in, pool_of, possible_draw};
use crate::effect::behavior::skill_rate::{bonuses, RateReadings};
use crate::effect::behavior::stats::{all_stat_effects, stat_effects};
use crate::laws::events::{nothing_set, says};
use crate::laws::play::ledger_but;
use crate::lookup::entity_of;
use crate::manager::entity_mgr::{entry, EntityMgrView};
use crate::model::{EffectType, EffectView, EntityView, FightView};
use crate::text::{number, param, pieces};
use vstd::prelude::*;

verus! {

/// What a gift of a buff comes down to, by its id: three kinds give the buff as often as
/// they fire; two buy it from the blood pool, if the pool can pay, with the numbers that
/// they name; any other gives nothing.
pub proof fn gifts_by_id(id: i32, raw: Seq<char>, count: i32, pool_value: i32)
    ensures
        ({
            let r = gift_plan(id, raw, count, pool_value);
            &&& (id == 1 || id == 20005 || id == 20017) ==> r == (GiftPlan::Give {
                buff_id: param(raw, 1),
                count,
            })
            &&& (id == 60210 || id == 60211) && pool_value >= param(raw, 1) ==> r == (
            GiftPlan::Buy { cost: param(raw, 1), buff_id: param(raw, 2), count: param(raw, 3) })
            &&& (id == 60210 || id == 60211) && pool_value < param(raw, 1) ==> r
                == GiftPlan::CannotPay
            &&& id != 1 && id != 20005 && id != 20017 && id != 60210 && id != 60211 ==> r
                == GiftPlan::Nothing
        }),
{
}

/// Action points are added to one target after the other; each time that target gains the
/// amount and nothing else changes.
pub proof fn action_points_are_added(
    m: EntityMgrView,
    targets: Seq<i64>,
    uid: i64,
    delta: int,
)
    requires
        fits(entry(acted(m, targets, delta).action_points, uid) + delta),
    ensures
        ({
            let before = acted(m, targets, delta);
            let after = acted(m, targets.push(uid), delta);
            &&& ledger_but(
                before.action_points,
                after.action_points,
                uid,
                entry(before.action_points, uid) + delta,
            )
            &&& after == (EntityMgrView { action_points: after.action_points, ..before })
        }),
        acted(m, Seq::empty(), delta) == m,
{
    assert(targets.push(uid).drop_last() =~= targets);
}

/// Ex points are added to one target after the other; each time that target gains the
/// amount, but is never left with less than none, and nothing else changes.
pub proof fn ex_points_are_added(m: EntityMgrView, targets: Seq<i64>, uid: i64, delta: int)
    requires
        fits(entry(gained(m, targets, delta).ex_points, uid) + delta),
    ensures
        ({
            let before = gained(m, targets, delta);
            let after = gained(m, targets.push(uid), delta);
            let sum = entry(before.ex_points, uid) + delta;
            &&& ledger_but(
                before.ex_points,
                after.ex_points,
                uid,
                if sum > 0 {
                    sum
                } else {
                    0
                },
            )
            &&& after == (EntityMgrView { ex_points: after.ex_points, ..before })
        }),
        gained(m, Seq::empty(), delta) == m,
{
    assert(targets.push(uid).drop_last() =~= targets);
}

/// The points that were spent count within the two bounds of the behaviour.
pub proof fn spent_points_count_within_bounds(raw: Seq<char>, spent: i32)
    requires
        param(raw, 3) <= param(raw, 4),
    ensures
        ({
            let n = usable(raw, spent);
            let points = if spent > 0 {
                spent as int
            } else {
                0
            };
            &&& param(raw, 3) <= n <= param(raw, 4)
            &&& param(raw, 3) <= points <= param(raw, 4) ==> n == points
            &&& points < param(raw, 3) ==> n == param(raw, 3)
            &&& points > param(raw, 4) ==> n == param(raw, 4)
        }),
{
}

/// The rate of a slot for each point: the third part of a text that starts with its id.
pub open spec fn rate_in(slot: SlotRow) -> i32 {
    let head = "60174#"@;
    if slot.behavior@.len() >= head.len() && slot.behavior@.take(head.len() as int) == head {
        param(slot.behavior@, 2)
    } else {
        0
    }
}

/// The rate of a skill for each point is the first among its first ten slots that is not
/// zero; zero if there is none or the skill has no row.
pub proof fn the_rate_of_a_skill(slots: Seq<SlotRow>)
    ensures
        first_rate(slots) == 0 <==> forall|i: int|
            0 <= i < slots.len() ==> rate_in(#[trigger] slots[i]) == 0,
        first_rate(slots) != 0 ==> exists|i: int|
            0 <= i < slots.len() && rate_in(#[trigger] slots[i]) == first_rate(slots) && forall|
                j: int,
            |
                0 <= j < i ==> rate_in(#[trigger] slots[j]) == 0,
    decreases slots.len(),
{
    if slots.len() > 0 {
        let rest = slots.skip(1);
        the_rate_of_a_skill(rest);
        if rate_in(slots[0]) != 0 {
            assert(rate_in(slots[0]) == first_rate(slots));
        } else {
            assert forall|i: int| 0 <= i < rest.len() implies rest[i] == #[trigger] slots[i + 1] by {}
            if first_rate(rest) != 0 {
                let i = choose|i: int|
                    0 <= i < rest.len() && rate_in(#[trigger] rest[i]) == first_rate(rest)
                        && forall|j: int| 0 <= j < i ==> rate_in(#[trigger] rest[j]) == 0;
                assert(rate_in(slots[i + 1]) == first_rate(slots));
                assert forall|j: int| 0 <= j < i + 1 implies rate_in(#[trigger] slots[j]) == 0 by {
                    if j > 0 {
                        assert(rest[j - 1] == slots[j]);
                    }
                }
            } else {
                assert forall|i: int| 0 <= i < slots.len() implies rate_in(#[trigger] slots[i])
                    == 0 by {
                    if i > 0 {
                        assert(rest[i - 1] == slots[i]);
                    }
                }
            }
        }
    }
}

/// Which slots the rate of a skill is looked for in.
pub proof fn where_the_rate_is_looked_for(
    rows: Seq<SkillEffectRow>,
    links: Seq<SkillLinkRow>,
    skill_id: i32,
)
    ensures
        ({
            let id = if row_at(links, skill_id) is Some {
                row_at(links, skill_id)->0.effect_id
            } else {
                skill_id
            };
            let row = row_at(rows, id);
            &&& row is None ==> rate_of_skill(rows, links, skill_id) == 0
            &&& row is Some && row->0.slots@.len() <= 10 ==> rate_of_skill(rows, links, skill_id)
                == first_rate(row->0.slots@)
            &&& row is Some && row->0.slots@.len() > 10 ==> rate_of_skill(rows, links, skill_id)
                == first_rate(row->0.slots@.take(10))
        }),
{
}

/// What is shown to a target, by the id of the behaviour.
pub proof fn shown_stats_by_id(id: i32, target: i64, amount: i32)
    ensures
        ({
            let s = stat_effects(id, target, amount);
            &&& id == 20010 ==> s.len() == 1 && says(s[0], EffectType::Bloodlust, target, amount)
            &&& id == 20011 ==> s.len() == 1 && s[0] == (EffectView {
                effect_type: Some(EffectType::AverageLife),
                target_id: Some(target),
                ..nothing_set()
            })
            &&& (id == 50017 || id == 50037) ==> s.len() == 1 && s[0] == (EffectView {
                effect_type: Some(EffectType::PowerChange),
                target_id: Some(target),
                effect_num: Some(amount),
                config_effect: Some(1),
                ..nothing_set()
            })
            &&& id != 20010 && id != 20011 && id != 50017 && id != 50037 ==> s.len() == 0
        }),
{
}

proof fn stats_are_shown_target_by_target_join(
    id: i32,
    amount: i32,
    a: Seq<i64>,
    b: Seq<i64>,
)
    ensures
        all_stat_effects(id, a + b, amount) == all_stat_effects(id, a, amount) + all_stat_effects(id, b, amount),
    decreases b.len(),
{
    if b.len() == 0 {
        assert(a + b =~= a);
        assert(all_stat_effects(id, a, amount) + all_stat_effects(id, b, amount) =~= all_stat_effects(id, a, amount));
    } else {
        stats_are_shown_target_by_target_join(id, amount, a, b.drop_last());
        assert((a + b).drop_last() =~= a + b.drop_last());
        assert((a + b).last() == b.last());
        assert(all_stat_effects(id, a + b, amount) =~= all_stat_effects(id, a, amount) + all_stat_effects(id, b, amount));
    }
}

/// What a behaviour shows, it shows to one target after the other.
pub proof fn stats_are_shown_target_by_target(
    id: i32,
    amount: i32,
    a: Seq<i64>,
    b: Seq<i64>,
    x: i64,
)
    ensures
        all_stat_effects(id, a + b, amount) == all_stat_effects(id, a, amount) + all_stat_effects(id, b, amount),
        all_stat_effects(id, Seq::<i64>::empty(), amount).len() == 0,
        all_stat_effects(id, seq![x], amount) == (stat_effects(id, x, amount)),
{
    stats_are_shown_target_by_target_join(id, amount, a, b);
    let one = seq![x];
    assert(one.drop_last() =~= Seq::<i64>::empty());
    assert(one.last() == x);
    assert(all_stat_effects(id, one.drop_last(), amount).len() == 0);
    assert(all_stat_effects(id, seq![x], amount) =~= (stat_effects(id, x, amount)));
}

/// Which behaviours summon and which change a form; a change waits for every target.
pub proof fn summons_and_changes_by_id(id: i32, targets: Seq<i64>, new_id: i32)
    ensures
        is_summon(id) <==> id == 60008 || id == 60013 || id == 60056,
        is_monster_change(id) <==> id == 40006 || id == 40008,
        changes_of(targets, new_id).len() == targets.len(),
        forall|i: int|
            0 <= i < targets.len() ==> (#[trigger] changes_of(targets, new_id)[i]).target_uid
                == targets[i] && changes_of(targets, new_id)[i].new_monster_id == new_id,
{
}

/// A repeated number of a text is one if the text has none there.
pub proof fn a_count_is_one_unless_told(raw: Seq<char>, index: int)
    requires
        index >= 0,
    ensures
        ({
            let parts = pieces(raw, '#');
            &&& index < parts.len() && number(parts[index]) is Some ==> param_or_one(raw, index)
                == number(parts[index])->0
            &&& (index >= parts.len() || number(parts[index]) is None) ==> param_or_one(raw, index)
                == 1
            &&& parts.len() > 1 ==> sources_in(raw) == numbers_in(pieces(parts[1], ','))
            &&& parts.len() <= 1 ==> sources_in(raw).len() == 0
        }),
{
}

proof fn numbers_are_read_in_order_join(
    a: Seq<Seq<char>>,
    b: Seq<Seq<char>>,
)
    ensures
        numbers_in(a + b) == numbers_in(a) + numbers_in(b),
    decreases b.len(),
{
    if b.len() == 0 {
        assert(a + b =~= a);
        assert(numbers_in(a) + numbers_in(b) =~= numbers_in(a));
    } else {
        numbers_are_read_in_order_join(a, b.drop_last());
        assert((a + b).drop_last() =~= a + b.drop_last());
        assert((a + b).last() == b.last());
        assert(numbers_in(a + b) =~= numbers_in(a) + numbers_in(b));
    }
}

/// The numbers of some texts are those of the texts that are one, in their order.
pub proof fn numbers_are_read_in_order(
    a: Seq<Seq<char>>,
    b: Seq<Seq<char>>,
    x: Seq<char>,
)
    ensures
        numbers_in(a + b) == numbers_in(a) + numbers_in(b),
        numbers_in(Seq::<Seq<char>>::empty()).len() == 0,
        numbers_in(seq![x]) == (if number(x) is Some {
            seq![number(x)->0]
        } else {
            Seq::empty()
        }),
{
    numbers_are_read_in_order_join(a, b);
    let one = seq![x];
    assert(one.drop_last() =~= Seq::<Seq<char>>::empty());
    assert(one.last() == x);
    assert(numbers_in(one.drop_last()).len() == 0);
    assert(numbers_in(seq![x]) =~= (if number(x) is Some {
            seq![number(x)->0]
        } else {
            Seq::empty()
        }));
}

/// A leaping buff goes to the main target so many times, and then to as many of the
/// enemies in the order of the draw as it reaches, to each of them so many times.
pub proof fn where_a_buff_leaps(raw: Seq<char>, target: i64, order: Seq<i64>)
    ensures
        ({
            let first = param(raw, 2);
            let each = param(raw, 5);
            let cap = param(raw, 6);
            let n = if first > 0 {
                first as int
            } else {
                0
            };
            let k = if cap <= 0 {
                0
            } else if cap < order.len() {
                cap as int
            } else {
                order.len() as int
            };
            let s = leaps(raw, target, order);
            &&& s.len() >= n
            &&& forall|i: int| 0 <= i < n ==> s[i] == target
            &&& s.skip(n) == each_repeated(order.take(k), each)
        }),
{
    let n = if param(raw, 2) > 0 {
        param(raw, 2) as int
    } else {
        0
    };
    let s = leaps(raw, target, order);
    let rest = each_repeated(reached(order, param(raw, 6)), param(raw, 5));
    assert(s.skip(n) =~= rest);
    assert(order.take(order.len() as int) =~= order);
    assert(order.take(0) =~= Seq::<i64>::empty());
}

proof fn each_enemy_is_reached_in_order_join(
    n: i32,
    a: Seq<i64>,
    b: Seq<i64>,
)
    ensures
        each_repeated(a + b, n) == each_repeated(a, n) + each_repeated(b, n),
    decreases b.len(),
{
    if b.len() == 0 {
        assert(a + b =~= a);
        assert(each_repeated(a, n) + each_repeated(b, n) =~= each_repeated(a, n));
    } else {
        each_enemy_is_reached_in_order_join(n, a, b.drop_last());
        assert((a + b).drop_last() =~= a + b.drop_last());
        assert((a + b).last() == b.last());
        assert(each_repeated(a + b, n) =~= each_repeated(a, n) + each_repeated(b, n));
    }
}

/// Each of some enemies is reached so many times, one enemy after the other.
pub proof fn each_enemy_is_reached_in_order(
    n: i32,
    a: Seq<i64>,
    b: Seq<i64>,
    x: i64,
)
    ensures
        each_repeated(a + b, n) == each_repeated(a, n) + each_repeated(b, n),
        each_repeated(Seq::<i64>::empty(), n).len() == 0,
        each_repeated(seq![x], n) == (Seq::new(
            if n > 0 {
                n as nat
            } else {
                0
            },
            |i: int| x,
        )),
{
    each_enemy_is_reached_in_order_join(n, a, b);
    let one = seq![x];
    assert(one.drop_last() =~= Seq::<i64>::empty());
    assert(one.last() == x);
    assert(each_repeated(one.drop_last(), n).len() == 0);
    assert(each_repeated(seq![x], n) =~= (Seq::new(
            if n > 0 {
                n as nat
            } else {
                0
            },
            |i: int| x,
        )));
}

/// The main target is the first, and nobody if there is none.
pub proof fn the_main_target(targets: Seq<i64>)
    ensures
        targets.len() > 0 ==> main_target(targets) == targets[0],
        targets.len() == 0 ==> main_target(targets) == 0,
        repeated(main_target(targets), 0).len() == 0,
{
}

proof fn a_pool_is_read_in_order_join(
    a: Seq<Seq<char>>,
    b: Seq<Seq<char>>,
)
    ensures
        pool_in(a + b) == pool_in(a) + pool_in(b),
    decreases b.len(),
{
    if b.len() == 0 {
        assert(a + b =~= a);
        assert(pool_in(a) + pool_in(b) =~= pool_in(a));
    } else {
        a_pool_is_read_in_order_join(a, b.drop_last());
        assert((a + b).drop_last() =~= a + b.drop_last());
        assert((a + b).last() == b.last());
        assert(pool_in(a + b) =~= pool_in(a) + pool_in(b));
    }
}

/// A pool of buffs is the numbers that its entries start with, in their order.
pub proof fn a_pool_is_read_in_order(
    a: Seq<Seq<char>>,
    b: Seq<Seq<char>>,
    x: Seq<char>,
)
    ensures
        pool_in(a + b) == pool_in(a) + pool_in(b),
        pool_in(Seq::<Seq<char>>::empty()).len() == 0,
        pool_in(seq![x]) == (if number(pieces(x, ',')[0]) is Some {
            seq![number(pieces(x, ',')[0])->0]
        } else {
            Seq::empty()
        }),
{
    a_pool_is_read_in_order_join(a, b);
    let one = seq![x];
    assert(one.drop_last() =~= Seq::<Seq<char>>::empty());
    assert(one.last() == x);
    assert(pool_in(one.drop_last()).len() == 0);
    assert(pool_in(seq![x]) =~= (if number(pieces(x, ',')[0]) is Some {
            seq![number(pieces(x, ',')[0])->0]
        } else {
            Seq::empty()
        }));
}

proof fn a_pool_is_parted_by_what_is_borne_join(
    held: Seq<BuffInstance>,
    borne: bool,
    a: Seq<i32>,
    b: Seq<i32>,
)
    ensures
        part_of(a + b, held, borne) == part_of(a, held, borne) + part_of(b, held, borne),
    decreases b.len(),
{
    if b.len() == 0 {
        assert(a + b =~= a);
        assert(part_of(a, held, borne) + part_of(b, held, borne) =~= part_of(a, held, borne));
    } else {
        a_pool_is_parted_by_what_is_borne_join(held, borne, a, b.drop_last());
        assert((a + b).drop_last() =~= a + b.drop_last());
        assert((a + b).last() == b.last());
        assert(part_of(a + b, held, borne) =~= part_of(a, held, borne) + part_of(b, held, borne));
    }
}

/// The part of a pool that is borne, or that is not, is in the order of the pool.
pub proof fn a_pool_is_parted_by_what_is_borne(
    held: Seq<BuffInstance>,
    borne: bool,
    a: Seq<i32>,
    b: Seq<i32>,
    x: i32,
)
    ensures
        part_of(a + b, held, borne) == part_of(a, held, borne) + part_of(b, held, borne),
        part_of(Seq::<i32>::empty(), held, borne).len() == 0,
        part_of(seq![x], held, borne) == (if (exists|k: int| 0 <= k < held.len() && (#[trigger] held[k]).buff_id == x) == borne {
            seq![x]
        } else {
            Seq::empty()
        }),
{
    a_pool_is_parted_by_what_is_borne_join(held, borne, a, b);
    let one = seq![x];
    assert(one.drop_last() =~= Seq::<i32>::empty());
    assert(one.last() == x);
    assert(part_of(one.drop_last(), held, borne).len() == 0);
    assert(part_of(seq![x], held, borne) =~= (if (exists|k: int| 0 <= k < held.len() && (#[trigger] held[k]).buff_id == x) == borne {
            seq![x]
        } else {
            Seq::empty()
        }));
}

proof fn parts_are_all(pool: Seq<i32>, held: Seq<BuffInstance>)
    ensures
        part_of(pool, held, false).len() + part_of(pool, held, true).len() == pool.len(),
    decreases pool.len(),
{
    if pool.len() > 0 {
        parts_are_all(pool.drop_last(), held);
    }
}

/// Of the buffs at hand those that are missing are chosen first, then those that are borne,
/// until there are as many as asked for or no more are left.
pub proof fn missing_buffs_are_chosen_first(missing: Seq<i32>, borne: Seq<i32>, count: i32)
    ensures
        ({
            let s = chosen(missing, borne, count);
            let all = missing.len() + borne.len();
            &&& count <= 0 ==> s.len() == 0
            &&& 0 < count <= all ==> s.len() == count
            &&& count > all ==> s.len() == all
            &&& forall|i: int| 0 <= i < s.len() && i < missing.len() ==> s[i] == missing[i]
            &&& forall|i: int|
                missing.len() <= i < s.len() ==> s[i] == borne[i - missing.len()]
        }),
{
}

/// However the draw falls, as many buffs come out of it as were asked for, or all of the
/// pool if that is less.
pub proof fn how_many_buffs_are_drawn(
    pool: Seq<i32>,
    held: Seq<BuffInstance>,
    count: i32,
    out: Seq<i32>,
)
    requires
        possible_draw(pool, held, count, out),
    ensures
        count <= 0 ==> out.len() == 0,
        0 < count <= pool.len() ==> out.len() == count,
        count > pool.len() ==> out.len() == pool.len(),
{
    broadcast use vstd::seq_lib::to_multiset_len;

    let (missing, borne) = choose|missing: Seq<i32>, borne: Seq<i32>|
        {
            &&& missing.to_multiset() == part_of(pool, held, false).to_multiset()
            &&& borne.to_multiset() == part_of(pool, held, true).to_multiset()
            &&& out == #[trigger] chosen(missing, borne, count)
        };
    assert(missing.to_multiset().len() == missing.len());
    assert(part_of(pool, held, false).to_multiset().len() == part_of(pool, held, false).len());
    assert(borne.to_multiset().len() == borne.len());
    assert(part_of(pool, held, true).to_multiset().len() == part_of(pool, held, true).len());
    parts_are_all(pool, held);
    missing_buffs_are_chosen_first(missing, borne, count);
}

/// The pool of a buff is in its row; a buff without a row has none.
pub proof fn where_a_pool_is_listed(rows: Seq<SkillBuffRow>, pool_buff_id: i32)
    ensures
        row_at(rows, pool_buff_id) is None ==> pool_of(rows, pool_buff_id).len() == 0,
        row_at(rows, pool_buff_id) is Some ==> pool_of(rows, pool_buff_id) == pool_in(
            pieces(row_at(rows, pool_buff_id)->0.features@, '#'),
        ),
{
}

/// The bonuses to the rate of a skill, by the id of the behaviour: five raise it against
/// every target; one for each stack that the caster bears; one against the targets that
/// bear a buff of a type that is named; any other not at all.
pub proof fn rates_by_id(
    id: i32,
    raw: Seq<char>,
    readings: RateReadings,
    targets: Seq<i64>,
    target: i64,
)
    ensures
        ({
            let before = bonuses(id, raw, readings, targets);
            let after = bonuses(id, raw, readings, targets.push(target));
            let parts = pieces(raw, '#');
            let adds = |amount: int|
                after.len() == before.len() + 1 && after.take(before.len() as int) == before
                    && after.last().target_uid == target && after.last().amount == amount;
            let flat = id == 10001 || id == 10002 || id == 10003 || id == 40015 || id == 60028;
            let product = param(raw, 2) * readings.stacks;
            let by_stack = id == 10009 && param(raw, 2) != 0 && readings.stacks > 0;
            let by_type = id == 10012 && param(raw, 1) != 0 && (exists|k: int|
                3 <= k < parts.len() && number(#[trigger] parts[k]) is Some)
                && readings.bears_type@[targets.len() as int];
            &&& flat ==> adds(param(raw, 1) as int)
            &&& by_stack && fits(product) ==> adds(product)
            &&& by_stack && product > i32::MAX ==> adds(i32::MAX as int)
            &&& by_stack && product < i32::MIN ==> adds(i32::MIN as int)
            &&& by_type ==> adds(param(raw, 1) as int)
            &&& !flat && !by_stack && !by_type ==> after == before
        }),
        bonuses(id, raw, readings, Seq::empty()).len() == 0,
{
    let before = bonuses(id, raw, readings, targets);
    let after = bonuses(id, raw, readings, targets.push(target));
    assert(targets.push(target).drop_last() =~= targets);
    if after.len() > before.len() {
        assert(after.take(before.len() as int) =~= before);
    }
    let parts = pieces(raw, '#');
    if parts.len() > 3 {
        some_number(parts.skip(3));
        assert forall|k: int| 3 <= k < parts.len() implies parts.skip(3)[k - 3]
            == #[trigger] parts[k] by {}
        if numbers_in(parts.skip(3)).len() > 0 {
            let j = choose|j: int|
                0 <= j < parts.skip(3).len() && number(#[trigger] parts.skip(3)[j]) is Some;
            assert(number(parts[j + 3]) is Some);
        }
        if exists|k: int| 3 <= k < parts.len() && number(#[trigger] parts[k]) is Some {
            let k = choose|k: int| 3 <= k < parts.len() && number(#[trigger] parts[k]) is Some;
            assert(number(parts.skip(3)[k - 3]) is Some);
        }
    }
}

proof fn some_number(texts: Seq<Seq<char>>)
    ensures
        numbers_in(texts).len() > 0 <==> exists|k: int|
            0 <= k < texts.len() && number(#[trigger] texts[k]) is Some,
    decreases texts.len(),
{
    if texts.len() > 0 {
        let n = texts.len() - 1;
        let less = texts.drop_last();
        some_number(less);
        assert forall|k: int| 0 <= k < n implies less[k] == #[trigger] texts[k] by {}
        if number(texts[n]) is Some {
            assert(number(texts[n]) is Some);
        } else if numbers_in(less).len() > 0 {
            let k = choose|k: int| 0 <= k < less.len() && number(#[trigger] less[k]) is Some;
            assert(number(texts[k]) is Some);
        }
        if exists|k: int| 0 <= k < texts.len() && number(#[trigger] texts[k]) is Some {
            let k = choose|k: int| 0 <= k < texts.len() && number(#[trigger] texts[k]) is Some;
            if k < n {
                assert(number(less[k]) is Some);
            }
        }
    }
}

/// The bonus that a behaviour gives a fighter, by its id: two give an amount once per
/// count, and at least once; one so much for each step of life that the fighter lost, up to
/// so many steps; any other gives none. A bonus of zero, or to no attribute, is none.
pub proof fn attribute_bonuses_by_id(
    f: FightView,
    uid: i64,
    raw: Seq<char>,
    count: i32,
    e: EntityView,
    max_hp: i32,
)
    ensures
        ({
            let id = param(raw, 0);
            let r = bonus_of(f, uid, raw, count);
            let times = if count > 1 {
                count as int
            } else {
                1
            };
            let flat = param(raw, 2) * times;
            &&& (id == 10004 || id == 10011) && fits(flat) && flat != 0 && param(raw, 1) != 0 ==> r
                == Some(AttrBonus { attr_id: param(raw, 1), amount: flat as i32 })
            &&& (id == 10004 || id == 10011) && (flat == 0 || param(raw, 1) == 0) ==> r is None
            &&& id != 10004 && id != 10011 && id != 60033 ==> r is None
            &&& id == 60033 && entity_of(f, uid) is None ==> r is None
            &&& id == 60033 && entity_of(f, uid) == Some(e) && (e.attr is None || e.attr->0.hp
                is None || e.attr->0.hp->0 <= 0 || or_zero(e.current_hp) >= e.attr->0.hp->0) ==> r
                is None
            &&& (id == 10004 || id == 10011) && flat > i32::MAX && param(raw, 1) != 0 ==> r == Some(
                AttrBonus { attr_id: param(raw, 1), amount: i32::MAX },
            )
            &&& (id == 10004 || id == 10011) && flat < i32::MIN && param(raw, 1) != 0 ==> r == Some(
                AttrBonus { attr_id: param(raw, 1), amount: i32::MIN },
            )
            &&& id == 60033 && entity_of(f, uid) == Some(e) && e.attr is Some && e.attr->0.hp
                == Some(max_hp) && max_hp > 0 && 0 <= or_zero(e.current_hp) <= max_hp ==> {
                let step = param(raw, 1);
                let attr_id = param(raw, 2);
                let each = param(raw, 3);
                let most = param(raw, 4);
                let lost = (max_hp - or_zero(e.current_hp)) * 1000 / max_hp as int;
                let steps = if step > 0 && lost / step as int > most {
                    most as int
                } else {
                    lost / step as int
                };
                &&& (step <= 0 || each <= 0 || most <= 0 || attr_id == 0 || steps <= 0) ==> r is None
                &&& step > 0 && each > 0 && most > 0 && attr_id != 0 && steps > 0 && fits(
                    steps * each,
                ) ==> r == Some(AttrBonus { attr_id, amount: (steps * each) as i32 })
            }
        }),
{
    if param(raw, 0) == 60033 && max_hp > 0 && 0 <= or_zero(e.current_hp) <= max_hp {
        let gap = max_hp - or_zero(e.current_hp);
        assert(0 <= gap * 1000 / max_hp as int <= 1000) by (nonlinear_arith)
            requires
                0 <= gap <= max_hp,
                max_hp > 0,
        ;
    }
}

/// How often an id occurs: once for each place where it stands.
pub proof fn occurrences_add_up(a: Seq<i64>, b: Seq<i64>, x: i64, uid: i64)
    ensures
        occurrences(a + b, uid) == occurrences(a, uid) + occurrences(b, uid),
        occurrences(seq![x], uid) == (if x == uid {
            1nat
        } else {
            0
        }),
        occurrences(Seq::empty(), uid) == 0,
    decreases b.len(),
{
    assert(seq![x].drop_last() =~= Seq::<i64>::empty());
    assert(occurrences(seq![x].drop_last(), uid) == 0);
    assert(seq![x].last() == x);
    if b.len() == 0 {
        assert(a + b =~= a);
    } else {
        occurrences_add_up(a, b.drop_last(), x, uid);
        assert((a + b).drop_last() =~= a + b.drop_last());
    }
}

/// A behaviour gives its bonus to every target that it names, to the attribute that the
/// bonus is for, and as often as it names the target, in one sum; to nobody else.
pub proof fn bonuses_go_to_the_targets(
    f: FightView,
    targets: Seq<i64>,
    raw: Seq<char>,
    count: i32,
    uid: i64,
    attr_id: i32,
)
    ensures
        ({
            let m = target_bonuses(f, targets, raw, count);
            let b = bonus_of(f, uid, raw, count);
            let sum = occurrences(targets, uid) * b->0.amount;
            let gets = b is Some && b->0.attr_id == attr_id && exists|i: int|
                0 <= i < targets.len() && targets[i] == uid;
            &&& m.contains_key((uid, attr_id)) <==> gets
            &&& gets && fits(sum) ==> m[(uid, attr_id)] == seq![sum as i32]
        }),
{
    if targets.contains(uid) {
        let i = choose|i: int| 0 <= i < targets.len() && targets[i] == uid;
        assert(targets[i] == uid);
    }
}

} // verus!
