//! Hits, detonations, cures and the blood that they feed.

use crate::arith::{fits, or_zero};
use crate::buffs::{first_buff, BuffInstance, BuffMgr};
use crate::config::{row_at, BuffActRow, SharedParamsRow, SkillBuffRow};
use crate::effect::behavior::damage::{
    all_cures, cure_effects, cure_in, cure_of_ally, cure_permille, cures_of, damage_plan,
    endured, gathered_for, pool_after, pool_gains, poison_damage_of, stack_damage, target_fate,
    total_damage, would_die, BuffTables, CureStep, DamagePlan, Detonation, Endurance, PoolPreview,
    PotionUse,
};
use crate::laws::events::{carries, nothing_set, says, step_of};
use crate::laws::poison::sign;
use crate::lookup::entity_of;
use crate::model::{
    effects_view, ActType, BuffInfoView, BuffLayerType, EffectType, EffectView, FightView,
};
use crate::text::{number, param, pieces, trimmed};
use vstd::prelude::*;

verus! {

/// What a behaviour of this family does, by its id: detonations hit at two thirds of their
/// rate, and that of the potion master by its own ultimate also spends the potion; one
/// behaviour hits by stacks, one does nothing, and any other hits at its rate.
pub proof fn hits_by_id(id: i32, raw: Seq<char>, skill_id: i32)
    ensures
        ({
            let r = damage_plan(id, raw, skill_id);
            let rate = param(raw, 1);
            let potion = skill_id == 300901321 && param(raw, 2) == 30091111;
            &&& id == 60215 ==> r == DamagePlan::Nothing
            &&& id == 20009 && potion && rate >= 0 && fits(rate * 2) ==> r == (
            DamagePlan::PotionDetonation { rate: (rate * 2 / 3) as i32, granted_buff_id: 30091111 })
            &&& id == 20009 && potion && rate < 0 ==> r == (DamagePlan::PotionDetonation {
                rate: 0,
                granted_buff_id: 30091111,
            })
            &&& id == 20009 && !potion && rate >= 0 && fits(rate * 2) ==> r == (DamagePlan::Hit {
                rate: (rate * 2 / 3) as i32,
            })
            &&& id == 20009 && !potion && rate < 0 ==> r == (DamagePlan::Hit { rate: 0 })
            &&& id == 60127 ==> r == (DamagePlan::ByStacks {
                attr_id: param(raw, 2),
                permille: param(raw, 3),
                group_id: param(raw, 4),
            })
            &&& id != 60215 && id != 20009 && id != 60127 ==> r == (DamagePlan::Hit { rate })
        }),
{
}

/// The types of effects that count as damage that was dealt.
pub open spec fn deals(t: EffectType) -> bool {
    match t {
        EffectType::Damage => true,
        EffectType::Crit => true,
        EffectType::OriginDamage => true,
        EffectType::OriginCrit => true,
        EffectType::AdditionalDamage => true,
        EffectType::AdditionalDamageCrit => true,
        _ => false,
    }
}

/// The damage that one effect deals to a target: its amount, and nothing if it is
/// negative, aimed at somebody else or no damage at all.
pub open spec fn dealt_by(e: EffectView, target: i64) -> int {
    if e.effect_type is Some && deals(e.effect_type->0) && e.target_id == Some(target)
        && e.effect_num is Some && e.effect_num->0 > 0 {
        e.effect_num->0 as int
    } else {
        0
    }
}

/// The damage of a list of effects is the sum over all of them.
pub proof fn damage_adds_up(a: Seq<EffectView>, b: Seq<EffectView>, x: EffectView, target: i64)
    ensures
        total_damage(a + b, target) == total_damage(a, target) + total_damage(b, target),
        total_damage(seq![x], target) == dealt_by(x, target),
        total_damage(Seq::empty(), target) == 0,
        total_damage(a, target) >= 0,
        total_damage(b, target) >= 0,
    decreases a.len() + b.len(),
{
    assert(seq![x].drop_last() =~= Seq::<EffectView>::empty());
    assert(total_damage(seq![x].drop_last(), target) == 0);
    if b.len() == 0 {
        assert(a + b =~= a);
        if a.len() > 0 {
            damage_adds_up(a.drop_last(), b, x, target);
        }
    } else {
        damage_adds_up(a, b.drop_last(), x, target);
        assert((a + b).drop_last() =~= a + b.drop_last());
    }
}

proof fn endured_so_far(start: Endurance, s: Seq<EffectView>, target: i64)
    requires
        start.hp > 0,
        start.shield >= 0,
        !start.died,
    ensures
        ({
            let now = endured(start, s, target);
            let dealt = total_damage(s, target);
            &&& dealt >= 0
            &&& now.died <==> dealt >= start.hp + start.shield
            &&& !now.died ==> now.hp > 0 && now.shield >= 0 && now.hp + now.shield == start.hp
                + start.shield - dealt
        }),
    decreases s.len(),
{
    if s.len() > 0 {
        endured_so_far(start, s.drop_last(), target);
    }
}

/// A fighter with life left would die of some effects if and only if the damage that they
/// deal to it together is at least its life and its shield.
pub proof fn who_would_die(f: FightView, target: i64, s: Seq<EffectView>)
    ensures
        entity_of(f, target) is None ==> !would_die(f, target, s),
        entity_of(f, target) is Some && or_zero(entity_of(f, target)->0.current_hp) > 0 && or_zero(
            entity_of(f, target)->0.shield_value,
        ) >= 0 ==> (would_die(f, target, s) <==> total_damage(s, target) >= or_zero(
            entity_of(f, target)->0.current_hp,
        ) + or_zero(entity_of(f, target)->0.shield_value)),
{
    if entity_of(f, target) is Some {
        let e = entity_of(f, target)->0;
        if or_zero(e.current_hp) > 0 && or_zero(e.shield_value) >= 0 {
            endured_so_far(
                Endurance {
                    hp: or_zero(e.current_hp),
                    shield: or_zero(e.shield_value),
                    died: false,
                },
                s,
                target,
            );
        }
    }
}

/// The pool of a team grows by one for every three thousand that was gathered, up to its
/// capacity; what is left over stays gathered. A pool that is full keeps gathering.
pub proof fn how_the_pool_grows(p: PoolPreview, gathered: int, max: int)
    requires
        0 <= p.acc,
        0 <= p.value,
        0 <= gathered,
        p.acc + gathered <= i32::MAX,
        0 <= max <= i32::MAX,
    ensures
        ({
            let all = p.acc + gathered;
            let room = if p.value < max {
                max - p.value
            } else {
                0
            };
            let n = if all / 3000 <= room {
                all / 3000
            } else {
                room
            };
            &&& pool_gains(all, p.value as int, max) == n
            &&& pool_after(p, gathered, max).value == p.value + n
            &&& pool_after(p, gathered, max).acc == all - 3000 * n
        }),
{
}

/// A pool is fed by the damage to a fighter of its team: by all of it, or by three tenths
/// where the damage comes from the other side. Nothing is fed without a pool, a target, a
/// team or damage.
pub proof fn what_feeds_the_pool(
    f: FightView,
    pool_ready: bool,
    caster_uid: i64,
    target_uid: i64,
    s: Seq<EffectView>,
)
    ensures
        ({
            let e = entity_of(f, target_uid);
            let damage = total_damage(s, target_uid);
            let across = caster_uid != 0 && sign(caster_uid) != sign(target_uid);
            let fed = if across {
                damage * 3 / 10
            } else {
                damage
            };
            let r = gathered_for(f, pool_ready, caster_uid, target_uid, s);
            &&& r is Some <==> pool_ready && target_uid != 0 && e is Some && e->0.team_type is Some
                && fed > 0
            &&& r is Some ==> r == Some((e->0.team_type->0, fed))
        }),
{
    let d = total_damage(s, target_uid);
    assert(d * 300 / 1000 == d * 3 / 10) by (nonlinear_arith);
}

/// Damage by stacks is an attribute of the caster, at so many thousandths, for each stack
/// on the target; it is held at the largest number, and there is none without a target, a
/// rate, the attribute or a stack.
pub proof fn damage_by_stacks(
    f: FightView,
    caster_uid: i64,
    target: i64,
    attr_id: i32,
    permille: i32,
    stacks: i32,
)
    ensures
        ({
            let e = entity_of(f, caster_uid);
            let attr = if e is Some {
                e->0.attr
            } else {
                None
            };
            let base = if e is Some && attr_id == 100 {
                or_zero(e->0.current_hp)
            } else if attr is Some && attr_id == 101 {
                or_zero(attr->0.hp)
            } else if attr is Some && attr_id == 102 {
                or_zero(attr->0.attack)
            } else if attr is Some && attr_id == 103 {
                or_zero(attr->0.defense)
            } else {
                0
            };
            let exact = base * permille * stacks / 1000;
            let r = stack_damage(f, caster_uid, target, attr_id, permille, stacks);
            &&& (target == 0 || permille <= 0 || base <= 0 || stacks <= 0) ==> r == 0
            &&& target != 0 && permille > 0 && base > 0 && stacks > 0 && exact <= i32::MAX ==> r
                == exact
            &&& target != 0 && permille > 0 && base > 0 && stacks > 0 && exact > i32::MAX ==> r
                == i32::MAX
        }),
{
}

/// The text of the act of an entry of a buff, if the act is known.
pub open spec fn act_of_text(entry: Seq<char>, acts: Seq<BuffActRow>) -> Option<Seq<char>> {
    let id = number(trimmed(pieces(entry, '#')[0]));
    if id is Some && row_at(acts, id->0) is Some {
        Some(row_at(acts, id->0)->0.act_type@)
    } else {
        None
    }
}

/// A buff cures at the rate of its first entry that is a cure, as long as the acts of all
/// the entries before it are known; the rate is the fourth part of that entry. It does not
/// cure if no entry is a cure or one before it is unknown.
pub proof fn the_rate_of_a_cure(entries: Seq<Seq<char>>, acts: Seq<BuffActRow>, i: int)
    requires
        0 <= i <= entries.len(),
        forall|j: int|
            0 <= j < i ==> act_of_text(#[trigger] entries[j], acts) is Some && act_of_text(
                entries[j],
                acts,
            )->0 != "AdvancedCure"@,
    ensures
        i == entries.len() ==> cure_in(entries, acts) is None,
        i < entries.len() && act_of_text(entries[i], acts) is None ==> cure_in(
            entries,
            acts,
        ) is None,
        i < entries.len() && act_of_text(entries[i], acts) == Some("AdvancedCure"@) ==> cure_in(
            entries,
            acts,
        ) == (if pieces(entries[i], '#').len() > 3 {
            number(trimmed(pieces(entries[i], '#')[3]))
        } else {
            None
        }),
    decreases i,
{
    if entries.len() > 0 {
        crate::text::pieces_nonempty(entries[0], '#');
    }
    if i > 0 {
        let rest = entries.skip(1);
        assert forall|j: int| 0 <= j < i - 1 implies act_of_text(#[trigger] rest[j], acts) is Some
            && act_of_text(rest[j], acts)->0 != "AdvancedCure"@ by {
            assert(rest[j] == entries[j + 1]);
        }
        the_rate_of_a_cure(rest, acts, i - 1);
        assert(act_of_text(entries[0], acts) is Some);
        if i < entries.len() {
            assert(rest[i - 1] == entries[i]);
        }
    }
}

/// A buff without a row cures nobody; any other cures as its entries say.
pub proof fn the_rate_of_a_buff(rows: Seq<SkillBuffRow>, acts: Seq<BuffActRow>, buff_id: i32)
    ensures
        row_at(rows, buff_id) is None ==> cure_permille(rows, acts, buff_id) is None,
        row_at(rows, buff_id) is Some ==> cure_permille(rows, acts, buff_id) == cure_in(
            pieces(row_at(rows, buff_id)->0.features@, '|'),
            acts,
        ),
{
}

/// The heal of a cure at a rate, by the attack of its caster.
pub open spec fn heals_by(attack: i32, rate: i32, heal: i32) -> bool {
    attack >= 0 && rate >= 0 && fits(attack * rate) ==> heal == attack * rate / 1000
}

proof fn cures_join(
    attack: Option<i32>,
    rows: Seq<SkillBuffRow>,
    acts: Seq<BuffActRow>,
    ally_uid: i64,
    a: Seq<BuffInstance>,
    b: Seq<BuffInstance>,
)
    ensures
        cures_of(attack, rows, acts, ally_uid, a + b) == cures_of(attack, rows, acts, ally_uid, a)
            + cures_of(attack, rows, acts, ally_uid, b),
    decreases b.len(),
{
    if b.len() == 0 {
        assert(a + b =~= a);
        assert(cures_of(attack, rows, acts, ally_uid, a) + cures_of(attack, rows, acts, ally_uid, b)
            =~= cures_of(attack, rows, acts, ally_uid, a));
    } else {
        cures_join(attack, rows, acts, ally_uid, a, b.drop_last());
        assert((a + b).drop_last() =~= a + b.drop_last());
        assert(cures_of(attack, rows, acts, ally_uid, a + b) =~= cures_of(
            attack,
            rows,
            acts,
            ally_uid,
            a,
        ) + cures_of(attack, rows, acts, ally_uid, b));
    }
}

/// The cures of an ally go off in the order of its buffs: those of the curing type with a
/// rate, each for that share of the caster's attack. Without a caster none does.
pub proof fn cures_go_off_in_order(
    attack: Option<i32>,
    rows: Seq<SkillBuffRow>,
    acts: Seq<BuffActRow>,
    ally_uid: i64,
    a: Seq<BuffInstance>,
    b: Seq<BuffInstance>,
    x: BuffInstance,
)
    ensures
        cures_of(attack, rows, acts, ally_uid, a + b) == cures_of(attack, rows, acts, ally_uid, a)
            + cures_of(attack, rows, acts, ally_uid, b),
        cures_of(attack, rows, acts, ally_uid, Seq::empty()).len() == 0,
        ({
            let one = cures_of(attack, rows, acts, ally_uid, seq![x]);
            let rate = cure_permille(rows, acts, x.buff_id);
            let cures = x.type_id == 30091111 && rate is Some && attack is Some;
            &&& !cures ==> one.len() == 0
            &&& cures ==> {
                &&& one.len() == 1
                &&& one[0].ally_uid == ally_uid
                &&& one[0].buff == x
                &&& heals_by(attack->0, rate->0, one[0].heal)
            }
        }),
{
    cures_join(attack, rows, acts, ally_uid, a, b);
    assert(seq![x].drop_last() =~= Seq::<BuffInstance>::empty());
    assert(cures_of(attack, rows, acts, ally_uid, seq![x].drop_last()).len() == 0);
    assert(seq![x].last() == x);
    let rate = cure_permille(rows, acts, x.buff_id);
    if attack is Some && rate is Some && attack->0 >= 0 && rate->0 >= 0 {
        assert(attack->0 * rate->0 >= 0) by (nonlinear_arith)
            requires
                attack->0 >= 0,
                rate->0 >= 0,
        ;
    }
}

proof fn allies_are_cured_in_order_join(
    attack: Option<i32>,
    rows: Seq<SkillBuffRow>,
    acts: Seq<BuffActRow>,
    buffs: BuffMgr,
    a: Seq<i64>,
    b: Seq<i64>,
)
    ensures
        all_cures(attack, rows, acts, buffs, a + b) == all_cures(attack, rows, acts, buffs, a) + all_cures(attack, rows, acts, buffs, b),
    decreases b.len(),
{
    if b.len() == 0 {
        assert(a + b =~= a);
        assert(all_cures(attack, rows, acts, buffs, a) + all_cures(attack, rows, acts, buffs, b) =~= all_cures(attack, rows, acts, buffs, a));
    } else {
        allies_are_cured_in_order_join(attack, rows, acts, buffs, a, b.drop_last());
        assert((a + b).drop_last() =~= a + b.drop_last());
        assert((a + b).last() == b.last());
        assert(all_cures(attack, rows, acts, buffs, a + b) =~= all_cures(attack, rows, acts, buffs, a) + all_cures(attack, rows, acts, buffs, b));
    }
}

/// The allies are cured one after the other.
pub proof fn allies_are_cured_in_order(
    attack: Option<i32>,
    rows: Seq<SkillBuffRow>,
    acts: Seq<BuffActRow>,
    buffs: BuffMgr,
    a: Seq<i64>,
    b: Seq<i64>,
    x: i64,
)
    ensures
        all_cures(attack, rows, acts, buffs, a + b) == all_cures(attack, rows, acts, buffs, a) + all_cures(attack, rows, acts, buffs, b),
        all_cures(attack, rows, acts, buffs, Seq::<i64>::empty()).len() == 0,
        all_cures(attack, rows, acts, buffs, seq![x]) == (cures_of(attack, rows, acts, x, buffs.of(x))),
{
    allies_are_cured_in_order_join(attack, rows, acts, buffs, a, b);
    let one = seq![x];
    assert(one.drop_last() =~= Seq::<i64>::empty());
    assert(one.last() == x);
    assert(all_cures(attack, rows, acts, buffs, one.drop_last()).len() == 0);
    assert(all_cures(attack, rows, acts, buffs, seq![x]) =~= (cures_of(attack, rows, acts, x, buffs.of(x))));
}

/// What an effect says of a buff that ends.
pub open spec fn ends(e: EffectView, rows: Seq<SkillBuffRow>, target: i64, b: BuffInstance) -> bool {
    let row = row_at(rows, b.buff_id);
    e == (EffectView {
        effect_type: Some(EffectType::BuffDel),
        target_id: Some(target),
        buff: Some(
            BuffInfoView {
                buff_id: Some(b.buff_id),
                duration: None,
                uid: Some(b.uid),
                ex_info: None,
                from_uid: Some(b.from_uid),
                count: None,
                act_common_params: None,
                layer: Some(
                    if row is Some && row->0.features@.len() > 0 {
                        1
                    } else {
                        0
                    },
                ),
                layer_type: None,
                act_info: Seq::empty(),
            },
        ),
        ..nothing_set()
    })
}

/// Each cure is shown after those before it: its heal, if it heals at all, and then the
/// end of its buff.
pub proof fn a_cure_is_shown_with_its_end(
    rows: Seq<SkillBuffRow>,
    cures: Seq<CureStep>,
    heals: Seq<EffectView>,
    c: CureStep,
)
    ensures
        ({
            let before = cure_effects(rows, cures, heals);
            let after = cure_effects(rows, cures.push(c), heals);
            let n = before.len() as int;
            &&& after.len() == n + (if c.heal > 0 {
                2int
            } else {
                1
            })
            &&& after.take(n) == before
            &&& c.heal > 0 ==> after[n] == heals[cures.len() as int]
            &&& ends(after.last(), rows, c.ally_uid, c.buff)
        }),
        cure_effects(rows, Seq::empty(), heals).len() == 0,
{
    assert(cures.push(c).drop_last() =~= cures);
    let before = cure_effects(rows, cures, heals);
    assert(cure_effects(rows, cures.push(c), heals).take(before.len() as int) =~= before);
}

/// What an effect says of a buff that is laid anew.
pub open spec fn lays(
    e: EffectView,
    rows: Seq<SkillBuffRow>,
    shared: Seq<SharedParamsRow>,
    target: i64,
    from: i64,
    buff_id: i32,
    buff_uid: i64,
    layer: i32,
) -> bool {
    e == (EffectView {
        effect_type: Some(EffectType::BuffAdd),
        target_id: Some(target),
        effect_num: Some(buff_id),
        buff: Some(
            BuffInfoView {
                buff_id: Some(buff_id),
                duration: Some(
                    if row_at(rows, buff_id) is Some {
                        row_at(rows, buff_id)->0.during_time
                    } else {
                        0
                    },
                ),
                uid: Some(buff_uid),
                ex_info: Some(0),
                from_uid: Some(from),
                count: Some(0),
                act_common_params: Some(
                    if row_at(shared, buff_id) is Some {
                        row_at(shared, buff_id)->0.params@
                    } else {
                        Seq::empty()
                    },
                ),
                layer: Some(layer),
                layer_type: Some(BuffLayerType::Normal),
                act_info: Seq::empty(),
            },
        ),
        ..nothing_set()
    })
}

/// A stack of a potion poisons every target, one after the other, each with a new poison
/// of the caster under an id of its own.
pub proof fn a_potion_poisons_every_target(
    p: PotionUse,
    rows: Seq<SkillBuffRow>,
    shared: Seq<SharedParamsRow>,
    targets: Seq<i64>,
    first: int,
)
    ensures
        ({
            let s = p.poisons(rows, shared, targets, first);
            &&& s.len() == 2 * targets.len()
            &&& forall|i: int|
                0 <= i < targets.len() ==> lays(
                    s[2 * i],
                    rows,
                    shared,
                    #[trigger] targets[i],
                    p.caster_uid,
                    300901412,
                    p.poison_uids@[first + i],
                    0,
                ) && says(s[2 * i + 1], EffectType::Poison, targets[i], 0)
        }),
    decreases targets.len(),
{
    if targets.len() > 0 {
        let n = targets.len() - 1;
        let less = targets.drop_last();
        a_potion_poisons_every_target(p, rows, shared, less, first);
        let s = p.poisons(rows, shared, targets, first);
        let before = p.poisons(rows, shared, less, first);
        assert forall|i: int| 0 <= i < targets.len() implies lays(
            s[2 * i],
            rows,
            shared,
            #[trigger] targets[i],
            p.caster_uid,
            300901412,
            p.poison_uids@[first + i],
            0,
        ) && says(s[2 * i + 1], EffectType::Poison, targets[i], 0) by {
            if i < n {
                assert(less[i] == targets[i]);
                assert(s[2 * i] == before[2 * i]);
                assert(s[2 * i + 1] == before[2 * i + 1]);
            }
        }
    }
}

/// The first stack of a potion gives every ally a new cure under an id of its own, with
/// one layer.
pub proof fn a_potion_cures_every_ally(
    p: PotionUse,
    rows: Seq<SkillBuffRow>,
    shared: Seq<SharedParamsRow>,
    allies: Seq<i64>,
    n: int,
)
    requires
        0 <= n <= allies.len(),
    ensures
        ({
            let s = p.cures(rows, shared, allies, n, 0);
            &&& s.len() == 2 * n
            &&& forall|i: int|
                0 <= i < n ==> lays(
                    s[2 * i],
                    rows,
                    shared,
                    #[trigger] allies[i],
                    p.caster_uid,
                    p.granted_buff_id,
                    p.cure_uids@[i],
                    1,
                ) && s[2 * i + 1] == (EffectView {
                    effect_type: Some(EffectType::NoEffect),
                    target_id: Some(allies[i]),
                    ..nothing_set()
                })
        }),
    decreases n,
{
    if n > 0 {
        a_potion_cures_every_ally(p, rows, shared, allies, n - 1);
        let s = p.cures(rows, shared, allies, n, 0);
        let before = p.cures(rows, shared, allies, n - 1, 0);
        assert forall|i: int| 0 <= i < n implies lays(
            s[2 * i],
            rows,
            shared,
            #[trigger] allies[i],
            p.caster_uid,
            p.granted_buff_id,
            p.cure_uids@[i],
            1,
        ) && s[2 * i + 1] == (EffectView {
            effect_type: Some(EffectType::NoEffect),
            target_id: Some(allies[i]),
            ..nothing_set()
        }) by {
            if i < n - 1 {
                assert(s[2 * i] == before[2 * i]);
                assert(s[2 * i + 1] == before[2 * i + 1]);
            }
        }
    }
}

/// A further stack of a potion adds a layer to the cure of every ally that has one, and
/// says so of the cure that the ally got.
pub proof fn a_further_stack_adds_a_layer(
    p: PotionUse,
    rows: Seq<SkillBuffRow>,
    shared: Seq<SharedParamsRow>,
    allies: Seq<i64>,
    n: int,
    stack: int,
)
    requires
        0 < n <= allies.len(),
        0 < stack < i32::MAX,
    ensures
        ({
            let before = p.cures(rows, shared, allies, n - 1, stack);
            let after = p.cures(rows, shared, allies, n, stack);
            let k = before.len() as int;
            let ally = allies[n - 1];
            let own = cure_of_ally(allies, p.cure_uids@, ally);
            &&& own is None ==> after == before
            &&& own is Some ==> {
                &&& after.len() == k + 2
                &&& after.take(k) == before
                &&& after[k].effect_type == Some(EffectType::BuffUpdate)
                &&& after[k].target_id == Some(ally)
                &&& after[k].buff is Some
                &&& after[k].buff->0.uid == own
                &&& after[k].buff->0.buff_id == Some(p.granted_buff_id)
                &&& after[k].buff->0.from_uid == Some(p.caster_uid)
                &&& after[k].buff->0.layer is Some
                &&& after[k].buff->0.layer->0 == stack + 1
                &&& after[k].buff->0.count == Some(0i32)
                &&& after[k + 1] == (EffectView {
                    effect_type: Some(EffectType::NoEffect),
                    target_id: Some(ally),
                    ..nothing_set()
                })
            }
        }),
        p.cures(rows, shared, allies, 0, stack).len() == 0,
{
    let before = p.cures(rows, shared, allies, n - 1, stack);
    let after = p.cures(rows, shared, allies, n, stack);
    assert(after.take(before.len() as int) =~= before);
}

/// The cure that an ally got is the last one laid on it under an id.
pub proof fn the_cure_that_an_ally_got(allies: Seq<i64>, uids: Seq<i64>, ally: i64)
    ensures
        cure_of_ally(allies, uids, ally) is None <==> forall|i: int|
            0 <= i < allies.len() && #[trigger] allies[i] == ally ==> uids[i] == 0,
        cure_of_ally(allies, uids, ally) is Some ==> exists|i: int|
            0 <= i < allies.len() && #[trigger] allies[i] == ally && uids[i] == cure_of_ally(
                allies,
                uids,
                ally,
            )->0 && uids[i] != 0 && forall|j: int|
                i < j < allies.len() && #[trigger] allies[j] == ally ==> uids[j] == 0,
    decreases allies.len(),
{
    if allies.len() > 0 {
        let n = allies.len() - 1;
        let less = allies.drop_last();
        the_cure_that_an_ally_got(less, uids, ally);
        if allies[n] == ally && uids[n] != 0 {
            assert(allies[n] == ally);
        } else {
            assert forall|i: int| 0 <= i < n implies less[i] == #[trigger] allies[i] by {}
            if cure_of_ally(less, uids, ally) is Some {
                let i = choose|i: int|
                    0 <= i < less.len() && #[trigger] less[i] == ally && uids[i] == cure_of_ally(
                        less,
                        uids,
                        ally,
                    )->0 && uids[i] != 0 && forall|j: int|
                        i < j < less.len() && #[trigger] less[j] == ally ==> uids[j] == 0;
                assert(allies[i] == ally);
                assert forall|j: int| i < j < allies.len() && #[trigger] allies[j] == ally implies uids[j]
                    == 0 by {
                    if j < n {
                        assert(less[j] == ally);
                    }
                }
            }
            if cure_of_ally(less, uids, ally) is None {
                assert forall|i: int| 0 <= i < allies.len() && #[trigger] allies[i] == ally implies uids[i]
                    == 0 by {
                    if i < n {
                        assert(less[i] == ally);
                    }
                }
            }
        }
    }
}

/// Each stack that is spent comes after those before it: its poisons, and then, unless
/// they are held back, its cures.
pub proof fn stacks_are_spent_in_order(
    p: PotionUse,
    rows: Seq<SkillBuffRow>,
    shared: Seq<SharedParamsRow>,
    targets: Seq<i64>,
    allies: Seq<i64>,
    n: int,
)
    requires
        n >= 0,
    ensures
        p.stacks(rows, shared, targets, allies, n + 1, true) == p.stacks(
            rows,
            shared,
            targets,
            allies,
            n,
            true,
        ) + p.poisons(rows, shared, targets, n * targets.len()),
        p.stacks(rows, shared, targets, allies, n + 1, false) == p.stacks(
            rows,
            shared,
            targets,
            allies,
            n,
            false,
        ) + p.poisons(rows, shared, targets, n * targets.len()) + p.cures(
            rows,
            shared,
            allies,
            allies.len() as int,
            n,
        ),
        p.stacks(rows, shared, targets, allies, 0, true).len() == 0,
        p.stacks(rows, shared, targets, allies, 0, false).len() == 0,
{
    assert(p.stacks(rows, shared, targets, allies, n + 1, true) =~= p.stacks(
        rows,
        shared,
        targets,
        allies,
        n,
        true,
    ) + p.poisons(rows, shared, targets, n * targets.len()));
}

/// A potion that is spent is shown in two steps of its holder: what its stacks add, and
/// its end. Without a stack or a target it is not spent.
pub proof fn a_spent_potion_is_shown(
    p: PotionUse,
    rows: Seq<SkillBuffRow>,
    shared: Seq<SharedParamsRow>,
    targets: Seq<i64>,
    allies: Seq<i64>,
    duality: BuffInstance,
    stack_count: i32,
    suppress: bool,
)
    ensures
        ({
            let s = p.spent(rows, shared, targets, allies, duality, stack_count, suppress);
            let adds = p.stacks(rows, shared, targets, allies, stack_count as int, suppress);
            &&& (stack_count <= 0 || targets.len() == 0) ==> s.len() == 0
            &&& stack_count > 0 && targets.len() > 0 ==> {
                &&& s.len() == 2
                &&& carries(
                    s[0],
                    step_of(ActType::Effect, p.caster_uid, p.caster_uid, 30091120, 0, adds),
                )
                &&& s[1].fight_step is Some
                &&& s[1].fight_step->0.act_effect.len() == 1
                &&& ends(s[1].fight_step->0.act_effect[0], rows, p.caster_uid, duality)
                &&& carries(
                    s[1],
                    step_of(
                        ActType::Effect,
                        p.caster_uid,
                        p.caster_uid,
                        30091120,
                        0,
                        s[1].fight_step->0.act_effect,
                    ),
                )
            }
        }),
{
}

/// A target that dies of a detonation is shown as dead and loses its cards; one that lives
/// takes the damage of its poisons as a crit, if there is any.
pub proof fn what_becomes_of_a_target(target: i64, poison_damage: Option<i32>)
    ensures
        ({
            let s = target_fate(target, true, poison_damage);
            let inner = EffectView {
                effect_type: Some(EffectType::RemoveEntityCards),
                target_id: Some(target),
                team_type: Some(1),
                ..nothing_set()
            };
            &&& s.len() == 2
            &&& says(s[0], EffectType::Dead, target, 0)
            &&& carries(s[1], step_of(ActType::Effect, 0, 0, 0, 0, seq![inner]))
        }),
        poison_damage is None ==> target_fate(target, false, poison_damage).len() == 0,
        poison_damage is Some ==> target_fate(target, false, poison_damage).len() == 1 && says(
            target_fate(target, false, poison_damage)[0],
            EffectType::OriginCrit,
            target,
            poison_damage->0,
        ),
{
}

/// A detonation shows its hit; the fate of its target; the potion of its caster, if the
/// caster holds one, whose cures are held back if the target died; and the cures.
pub proof fn how_a_detonation_is_shown(
    d: Detonation,
    f: FightView,
    t: BuffTables,
    buffs: BuffMgr,
    target: i64,
)
    ensures
        ({
            let hit = effects_view(d.damage_effects@);
            let died = would_die(f, target, hit);
            let fate = target_fate(
                target,
                died,
                poison_damage_of(f, t.dots@, buffs, target, d.fixed@),
            );
            let held = first_buff(buffs.of(d.potion.caster_uid), 30091120);
            let caster = entity_of(f, d.potion.caster_uid);
            let attack = if caster is Some {
                Some(
                    if caster->0.attr is Some {
                        or_zero(caster->0.attr->0.attack)
                    } else {
                        0
                    },
                )
            } else {
                None
            };
            let cures = cure_effects(
                t.rows@,
                all_cures(attack, t.rows@, t.acts@, buffs, d.allies@),
                effects_view(d.heals@),
            );
            let s = d.shown(f, t, buffs, target);
            &&& held is None ==> s == hit + fate + cures
            &&& held is Some ==> s == hit + fate + d.potion.spent(
                t.rows@,
                t.shared@,
                seq![target],
                d.allies@,
                held->0,
                1,
                died,
            ) + cures
        }),
{
    if first_buff(buffs.of(d.potion.caster_uid), 30091120) is None {
        let s = d.shown(f, t, buffs, target);
        let hit = effects_view(d.damage_effects@);
        let fate = target_fate(
            target,
            would_die(f, target, hit),
            poison_damage_of(f, t.dots@, buffs, target, d.fixed@),
        );
        assert(hit + fate + Seq::<EffectView>::empty() =~= hit + fate);
    }
}

} // verus!
