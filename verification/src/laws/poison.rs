//! Poison: what it is worth, and what it does when it goes off or settles.

use crate::arith::{fits, or_zero, or_zero64, sat_i32};
use crate::buffs::{BuffInstance, BuffMgr};
use crate::config::{row_at, MagicCircleRow};
use crate::effect::behavior::damage::{
    detonated, detonated_all, poison_damage_of, poison_of, poisons_of, DotRow, PoisonHit,
};
use crate::effect::behavior::dot_settle::{settle_view, settled, settled_all, settling_on};
use crate::laws::events::nothing_set;
use crate::lookup::{entity_of, everyone};
use crate::mechanics::dot_settle_round_start::{
    carriers_of, circle_owner, circle_settles, hostile, settling, SettleTables,
};
use crate::model::{EffectType, EffectView, EntityView, FightView};
use crate::text::{list_pieces, number, trimmed};
use vstd::prelude::*;

verus! {

/// No poison has a negative number of stacks or rounds.
pub open spec fn countable_poisons(s: Seq<PoisonHit>) -> bool {
    forall|i: int| 0 <= i < s.len() ==> (#[trigger] s[i]).stacks >= 1 && s[i].rounds >= 1
}

/// A buff is a poison if the table lists it and whoever laid it is in the battle with
/// some attack. It is worth so many thousandths of that attack, once for each layer and
/// each round, and at least once.
pub proof fn what_a_poison_is_worth(f: FightView, rows: Seq<DotRow>, b: BuffInstance)
    ensures
        ({
            let row = row_at(rows, b.buff_id);
            let source = entity_of(f, b.from_uid);
            let attack = if source is Some && source->0.attr is Some {
                or_zero(source->0.attr->0.attack)
            } else {
                0
            };
            let r = poison_of(f, rows, b);
            &&& r is Some <==> row is Some && source is Some && attack > 0
            &&& r is Some && row->0.permille >= 0 && fits(attack * row->0.permille) ==> r->0.raw
                == attack * row->0.permille / 1000
            &&& r is Some ==> r->0.stacks >= 1 && r->0.rounds >= 1
            &&& r is Some && b.layer >= 1 ==> r->0.stacks == b.layer
            &&& r is Some && b.layer < 1 ==> r->0.stacks == 1
            &&& r is Some && b.duration >= 1 ==> r->0.rounds == b.duration
            &&& r is Some && b.duration < 1 ==> r->0.rounds == 1
        }),
{
    let row = row_at(rows, b.buff_id);
    if row is Some && entity_of(f, b.from_uid) is Some {
        let a = or_zero(entity_of(f, b.from_uid)->0.attr->0.attack) as int;
        let p = row->0.permille as int;
        if a > 0 && p >= 0 {
            assert(a * p >= 0) by (nonlinear_arith)
                requires
                    a > 0,
                    p >= 0,
            ;
        }
    }
}

proof fn poisons_are_found_in_order_join(
    f: FightView,
    rows: Seq<DotRow>,
    a: Seq<BuffInstance>,
    b: Seq<BuffInstance>,
)
    ensures
        poisons_of(f, rows, a + b) == poisons_of(f, rows, a) + poisons_of(f, rows, b),
    decreases b.len(),
{
    if b.len() == 0 {
        assert(a + b =~= a);
        assert(poisons_of(f, rows, a) + poisons_of(f, rows, b) =~= poisons_of(f, rows, a));
    } else {
        poisons_are_found_in_order_join(f, rows, a, b.drop_last());
        assert((a + b).drop_last() =~= a + b.drop_last());
        assert((a + b).last() == b.last());
        assert(poisons_of(f, rows, a + b) =~= poisons_of(f, rows, a) + poisons_of(f, rows, b));
    }
}

/// The poisons of a fighter are those of its buffs that are one, in their order.
pub proof fn poisons_are_found_in_order(
    f: FightView,
    rows: Seq<DotRow>,
    a: Seq<BuffInstance>,
    b: Seq<BuffInstance>,
    x: BuffInstance,
)
    ensures
        poisons_of(f, rows, a + b) == poisons_of(f, rows, a) + poisons_of(f, rows, b),
        poisons_of(f, rows, Seq::<BuffInstance>::empty()).len() == 0,
        poisons_of(f, rows, seq![x]) == (if poison_of(f, rows, x) is Some {
            seq![poison_of(f, rows, x)->0]
        } else {
            Seq::empty()
        }),
{
    poisons_are_found_in_order_join(f, rows, a, b);
    let one = seq![x];
    assert(one.drop_last() =~= Seq::<BuffInstance>::empty());
    assert(one.last() == x);
    assert(poisons_of(f, rows, one.drop_last()).len() == 0);
    assert(poisons_of(f, rows, seq![x]) =~= (if poison_of(f, rows, x) is Some {
            seq![poison_of(f, rows, x)->0]
        } else {
            Seq::empty()
        }));
}

/// The poisons of a fighter can be counted.
pub proof fn poisons_are_countable(f: FightView, rows: Seq<DotRow>, s: Seq<BuffInstance>)
    ensures
        countable_poisons(poisons_of(f, rows, s)),
    decreases s.len(),
{
    if s.len() > 0 {
        poisons_are_countable(f, rows, s.drop_last());
        what_a_poison_is_worth(f, rows, s.last());
    }
}

proof fn capped_product(x: int, s: int, r: int)
    requires
        0 <= x <= i32::MAX,
        s >= 1,
        r >= 1,
    ensures
        0 <= sat_i32(x * s) <= i32::MAX,
        sat_i32(sat_i32(x * s) * r) == (if x * s * r <= i32::MAX {
            x * s * r
        } else {
            i32::MAX as int
        }),
{
    assert(x * s >= x) by (nonlinear_arith)
        requires
            x >= 0,
            s >= 1,
    ;
    let y = x * s;
    assert(y * r >= y) by (nonlinear_arith)
        requires
            y >= 0,
            r >= 1,
    ;
    if y > i32::MAX {
        let m = i32::MAX as int;
        assert(m * r >= m) by (nonlinear_arith)
            requires
                m >= 0,
                r >= 1,
        ;
    }
}

/// A poison that goes off does its damage as a crit, at one hundred and thirty-nine
/// hundredths, for each stack and each round; one that settles does so for each stack.
/// Damage that the fixes took away does nothing, and no damage is above the largest
/// number.
pub proof fn what_a_poison_does(h: PoisonHit, fixed: i32)
    requires
        h.stacks >= 1,
        h.rounds >= 1,
    ensures
        fixed <= 0 ==> detonated(h, fixed) == 0 && settled(h, fixed) == 0,
        fixed > 0 && fixed * 1390 <= i32::MAX ==> {
            let crit = fixed * 1390 / 1000;
            &&& crit * h.stacks * h.rounds <= i32::MAX ==> detonated(h, fixed) == crit * h.stacks
                * h.rounds
            &&& crit * h.stacks * h.rounds > i32::MAX ==> detonated(h, fixed) == i32::MAX
            &&& crit * h.stacks <= i32::MAX ==> settled(h, fixed) == crit * h.stacks
            &&& crit * h.stacks > i32::MAX ==> settled(h, fixed) == i32::MAX
        },
        fixed > 0 && fixed * 1390 > i32::MAX ==> {
            let crit = i32::MAX / 1000;
            &&& crit * h.stacks * h.rounds <= i32::MAX ==> detonated(h, fixed) == crit * h.stacks
                * h.rounds
            &&& crit * h.stacks * h.rounds > i32::MAX ==> detonated(h, fixed) == i32::MAX
            &&& crit * h.stacks <= i32::MAX ==> settled(h, fixed) == crit * h.stacks
            &&& crit * h.stacks > i32::MAX ==> settled(h, fixed) == i32::MAX
        },
        0 <= detonated(h, fixed) <= i32::MAX,
        0 <= settled(h, fixed) <= i32::MAX,
{
    if fixed > 0 {
        let crit = sat_i32(fixed * 1390) / 1000;
        capped_product(crit, h.stacks as int, h.rounds as int);
    }
}

proof fn detonation_one_nonnegative(h: PoisonHit, fixed: i32)
    requires
        h.stacks >= 1,
        h.rounds >= 1,
    ensures
        0 <= detonated(h, fixed) <= i32::MAX,
{
    what_a_poison_does(h, fixed);
}

proof fn settling_one_nonnegative(h: PoisonHit, fixed: i32)
    requires
        h.stacks >= 1,
        h.rounds >= 1,
    ensures
        0 <= settled(h, fixed) <= i32::MAX,
{
    what_a_poison_does(h, fixed);
}

proof fn detonation_join(a: Seq<PoisonHit>, fa: Seq<i32>, b: Seq<PoisonHit>, fb: Seq<i32>)
    requires
        fa.len() == a.len(),
        fb.len() == b.len(),
        countable_poisons(a),
        countable_poisons(b),
    ensures
        detonated_all(a + b, fa + fb) == sat_i32(detonated_all(a, fa) + detonated_all(b, fb)),
        0 <= detonated_all(a, fa) <= i32::MAX,
        0 <= detonated_all(b, fb) <= i32::MAX,
    decreases a.len() + b.len(),
{
    if b.len() == 0 {
        assert(a + b =~= a);
        assert(fa + fb =~= fa);
        if a.len() > 0 {
            let n = a.len() - 1;
            detonation_prefix(a.drop_last(), fa, fa.take(n));
            detonation_join(a.drop_last(), fa.take(n), b, fb);
            detonation_one_nonnegative(a[n], fa[n]);
        }
    } else {
        let n = b.len() - 1;
        let m = a.len() + n;
        detonation_join(a, fa, b.drop_last(), fb.take(n));
        detonation_prefix(b.drop_last(), fb, fb.take(n));
        detonation_prefix((a + b).drop_last(), fa + fb, fa + fb.take(n));
        assert((a + b).drop_last() =~= a + b.drop_last());
        assert((a + b)[m] == b[n]);
        assert((fa + fb)[m] == fb[n]);
        detonation_one_nonnegative(b[n], fb[n]);
    }
}

proof fn detonation_prefix(hits: Seq<PoisonHit>, f: Seq<i32>, g: Seq<i32>)
    requires
        f.len() >= hits.len(),
        g.len() >= hits.len(),
        forall|i: int| 0 <= i < hits.len() ==> f[i] == g[i],
    ensures
        detonated_all(hits, f) == detonated_all(hits, g),
    decreases hits.len(),
{
    if hits.len() > 0 {
        detonation_prefix(hits.drop_last(), f, g);
    }
}

proof fn settling_join(a: Seq<PoisonHit>, fa: Seq<i32>, b: Seq<PoisonHit>, fb: Seq<i32>)
    requires
        fa.len() == a.len(),
        fb.len() == b.len(),
        countable_poisons(a),
        countable_poisons(b),
    ensures
        settled_all(a + b, fa + fb) == sat_i32(settled_all(a, fa) + settled_all(b, fb)),
        0 <= settled_all(a, fa) <= i32::MAX,
        0 <= settled_all(b, fb) <= i32::MAX,
    decreases a.len() + b.len(),
{
    if b.len() == 0 {
        assert(a + b =~= a);
        assert(fa + fb =~= fa);
        if a.len() > 0 {
            let n = a.len() - 1;
            settling_prefix(a.drop_last(), fa, fa.take(n));
            settling_join(a.drop_last(), fa.take(n), b, fb);
            settling_one_nonnegative(a[n], fa[n]);
        }
    } else {
        let n = b.len() - 1;
        let m = a.len() + n;
        settling_join(a, fa, b.drop_last(), fb.take(n));
        settling_prefix(b.drop_last(), fb, fb.take(n));
        settling_prefix((a + b).drop_last(), fa + fb, fa + fb.take(n));
        assert((a + b).drop_last() =~= a + b.drop_last());
        assert((a + b)[m] == b[n]);
        assert((fa + fb)[m] == fb[n]);
        settling_one_nonnegative(b[n], fb[n]);
    }
}

proof fn settling_prefix(hits: Seq<PoisonHit>, f: Seq<i32>, g: Seq<i32>)
    requires
        f.len() >= hits.len(),
        g.len() >= hits.len(),
        forall|i: int| 0 <= i < hits.len() ==> f[i] == g[i],
    ensures
        settled_all(hits, f) == settled_all(hits, g),
    decreases hits.len(),
{
    if hits.len() > 0 {
        settling_prefix(hits.drop_last(), f, g);
    }
}

/// The damage of poisons is the sum over all of them, held at the largest number: that of
/// a list in two parts is that of the parts together, that of one poison is its own, and
/// none of them is lost, whether they go off or settle.
pub proof fn the_damage_of_poisons_adds_up(
    a: Seq<PoisonHit>,
    fa: Seq<i32>,
    b: Seq<PoisonHit>,
    fb: Seq<i32>,
    h: PoisonHit,
    fixed: i32,
)
    requires
        fa.len() == a.len(),
        fb.len() == b.len(),
        countable_poisons(a),
        countable_poisons(b),
        h.stacks >= 1,
        h.rounds >= 1,
    ensures
        ({
            let sum = detonated_all(a, fa) + detonated_all(b, fb);
            let whole = detonated_all(a + b, fa + fb);
            &&& sum <= i32::MAX ==> whole == sum
            &&& sum > i32::MAX ==> whole == i32::MAX
            &&& whole >= detonated_all(a, fa)
            &&& whole >= detonated_all(b, fb)
        }),
        detonated_all(seq![h], seq![fixed]) == detonated(h, fixed),
        detonated_all(Seq::empty(), Seq::empty()) == 0,
        ({
            let sum = settled_all(a, fa) + settled_all(b, fb);
            let whole = settled_all(a + b, fa + fb);
            &&& sum <= i32::MAX ==> whole == sum
            &&& sum > i32::MAX ==> whole == i32::MAX
            &&& whole >= settled_all(a, fa)
            &&& whole >= settled_all(b, fb)
        }),
        settled_all(seq![h], seq![fixed]) == settled(h, fixed),
        settled_all(Seq::empty(), Seq::empty()) == 0,
{
    detonation_join(a, fa, b, fb);
    settling_join(a, fa, b, fb);
    what_a_poison_does(h, fixed);
    let one = seq![h];
    assert(one.drop_last() =~= Seq::<PoisonHit>::empty());
    assert(detonated_all(one.drop_last(), seq![fixed]) == 0);
    assert(settled_all(one.drop_last(), seq![fixed]) == 0);
    assert(one[0] == h && seq![fixed][0] == fixed);
}

/// No poison of a list does more than all of them together.
pub proof fn no_poison_is_lost(hits: Seq<PoisonHit>, fixed: Seq<i32>, i: int)
    requires
        fixed.len() == hits.len(),
        countable_poisons(hits),
        0 <= i < hits.len(),
    ensures
        detonated(hits[i], fixed[i]) <= detonated_all(hits, fixed) <= i32::MAX,
        settled(hits[i], fixed[i]) <= settled_all(hits, fixed) <= i32::MAX,
{
    let a = hits.take(i);
    let b = hits.skip(i + 1);
    let fa = fixed.take(i);
    let fb = fixed.skip(i + 1);
    the_damage_of_poisons_adds_up(a, fa, seq![hits[i]], seq![fixed[i]], hits[i], fixed[i]);
    the_damage_of_poisons_adds_up(
        a + seq![hits[i]],
        fa + seq![fixed[i]],
        b,
        fb,
        hits[i],
        fixed[i],
    );
    assert(a + seq![hits[i]] + b =~= hits);
    assert(fa + seq![fixed[i]] + fb =~= fixed);
    detonation_join(hits, fixed, Seq::empty(), Seq::empty());
    settling_join(hits, fixed, Seq::empty(), Seq::empty());
}

/// The poisons of a target go off with all their damage together, if there is any.
pub proof fn poisons_go_off_together(
    f: FightView,
    rows: Seq<DotRow>,
    buffs: BuffMgr,
    target: i64,
    fixed: Seq<i32>,
)
    requires
        fixed.len() == poisons_of(f, rows, buffs.of(target)).len(),
    ensures
        ({
            let hits = poisons_of(f, rows, buffs.of(target));
            let r = poison_damage_of(f, rows, buffs, target, fixed);
            &&& r is Some <==> exists|i: int| 0 <= i < hits.len() && #[trigger] fixed[i] > 0 && detonated(hits[i], fixed[i]) > 0
            &&& r is Some ==> r->0 == detonated_all(hits, fixed) && r->0 > 0
        }),
{
    let hits = poisons_of(f, rows, buffs.of(target));
    poisons_are_countable(f, rows, buffs.of(target));
    damage_comes_from_some_poison(hits, fixed);
    detonation_join(hits, fixed, Seq::empty(), Seq::empty());
    if exists|i: int| 0 <= i < hits.len() && #[trigger] fixed[i] > 0 && detonated(hits[i], fixed[i]) > 0 {
        let i = choose|i: int| 0 <= i < hits.len() && #[trigger] fixed[i] > 0 && detonated(hits[i], fixed[i]) > 0;
        no_poison_is_lost(hits, fixed, i);
    }
}

proof fn damage_comes_from_some_poison(hits: Seq<PoisonHit>, fixed: Seq<i32>)
    requires
        fixed.len() >= hits.len(),
        countable_poisons(hits),
    ensures
        detonated_all(hits, fixed) > 0 ==> exists|i: int|
            0 <= i < hits.len() && #[trigger] fixed[i] > 0 && detonated(hits[i], fixed[i]) > 0,
    decreases hits.len(),
{
    if hits.len() > 0 {
        let n = hits.len() - 1;
        damage_comes_from_some_poison(hits.drop_last(), fixed);
        what_a_poison_does(hits[n], fixed[n]);
        if detonated_all(hits, fixed) > 0 {
            if detonated(hits[n], fixed[n]) > 0 {
                assert(fixed[n] > 0);
            } else {
                let i = choose|i: int|
                    0 <= i < n && #[trigger] fixed[i] > 0 && detonated(
                        hits.drop_last()[i],
                        fixed[i],
                    ) > 0;
                assert(fixed[i] > 0 && detonated(hits[i], fixed[i]) > 0);
            }
        }
    }
}

/// Poison that settles is shown as one crit on its carrier with the damage and, if and
/// only if the damage beyond the shield is no less than the life, as the carrier's death.
pub proof fn how_settled_poison_is_shown(f: FightView, carrier: i64, damage: i32, e: EntityView)
    requires
        entity_of(f, carrier) == Some(e),
        fits(damage - or_zero(e.shield_value)),
    ensures
        ({
            let s = settle_view(f, carrier, damage);
            let through = damage - or_zero(e.shield_value);
            let deadly = through > 0 && or_zero(e.current_hp) <= through;
            &&& s.len() == (if deadly {
                2int
            } else {
                1
            })
            &&& s[0] == (EffectView {
                effect_type: Some(EffectType::OriginCrit),
                target_id: Some(carrier),
                effect_num: Some(damage),
                config_effect: Some(60073),
                ..nothing_set()
            })
            &&& deadly ==> s[1] == (EffectView {
                effect_type: Some(EffectType::Dead),
                target_id: Some(carrier),
                effect_num: Some(0),
                ..nothing_set()
            })
        }),
{
}

/// The poisons that settle on a carrier are its poisons; nobody is no carrier.
pub proof fn poisons_that_settle(f: FightView, rows: Seq<DotRow>, buffs: BuffMgr, carrier: i64)
    ensures
        carrier != 0 ==> settling_on(f, rows, buffs, carrier) == poisons_of(
            f,
            rows,
            buffs.of(carrier),
        ),
        carrier == 0 ==> settling_on(f, rows, buffs, carrier).len() == 0,
{
}

/// The sign of an id, which tells its side.
pub open spec fn sign(uid: i64) -> int {
    if uid > 0 {
        1
    } else if uid < 0 {
        -1
    } else {
        0
    }
}

proof fn hostile_fighters_in_order_join(
    owner_uid: i64,
    a: Seq<EntityView>,
    b: Seq<EntityView>,
)
    ensures
        hostile(a + b, owner_uid) == hostile(a, owner_uid) + hostile(b, owner_uid),
    decreases b.len(),
{
    if b.len() == 0 {
        assert(a + b =~= a);
        assert(hostile(a, owner_uid) + hostile(b, owner_uid) =~= hostile(a, owner_uid));
    } else {
        hostile_fighters_in_order_join(owner_uid, a, b.drop_last());
        assert((a + b).drop_last() =~= a + b.drop_last());
        assert((a + b).last() == b.last());
        assert(hostile(a + b, owner_uid) =~= hostile(a, owner_uid) + hostile(b, owner_uid));
    }
}

/// The fighters that a circle acts on are the living ones on another side than its owner,
/// in their order.
pub proof fn hostile_fighters_in_order(
    owner_uid: i64,
    a: Seq<EntityView>,
    b: Seq<EntityView>,
    x: EntityView,
)
    ensures
        hostile(a + b, owner_uid) == hostile(a, owner_uid) + hostile(b, owner_uid),
        hostile(Seq::<EntityView>::empty(), owner_uid).len() == 0,
        hostile(seq![x], owner_uid) == (if x.uid is Some && sign(x.uid->0) != sign(owner_uid) && x.current_hp is Some
            && x.current_hp->0 > 0 {
            seq![x.uid->0]
        } else {
            Seq::empty()
        }),
{
    hostile_fighters_in_order_join(owner_uid, a, b);
    let one = seq![x];
    assert(one.drop_last() =~= Seq::<EntityView>::empty());
    assert(one.last() == x);
    assert(hostile(one.drop_last(), owner_uid).len() == 0);
    assert(hostile(seq![x], owner_uid) =~= (if x.uid is Some && sign(x.uid->0) != sign(owner_uid) && x.current_hp is Some
            && x.current_hp->0 > 0 {
            seq![x.uid->0]
        } else {
            Seq::empty()
        }));
}

/// A circle settles poison only while it lies on the field with rounds left and has an
/// owner, and by the skills among its own that settle at the start of a round. Without
/// such a skill nobody carries anything.
pub proof fn when_a_circle_settles(f: FightView, t: SettleTables, rows: Seq<MagicCircleRow>)
    ensures
        ({
            let c = f.magic_circle;
            let lies = c is Some && c->0.magic_circle_id is Some && or_zero(c->0.round) != 0
                && or_zero64(c->0.create_uid) != 0 && row_at(
                rows,
                c->0.magic_circle_id->0,
            ) is Some;
            &&& !lies ==> circle_settles(f, t, rows).len() == 0
            &&& lies ==> circle_settles(f, t, rows) == settling(
                t,
                list_pieces(row_at(rows, c->0.magic_circle_id->0)->0.enemy_skills@),
            )
            &&& circle_owner(f) == (if c is Some {
                or_zero64(c->0.create_uid)
            } else {
                0
            })
            &&& circle_settles(f, t, rows).len() == 0 ==> carriers_of(f, t, rows).len() == 0
            &&& circle_settles(f, t, rows).len() > 0 ==> carriers_of(f, t, rows) == hostile(
                everyone(f),
                circle_owner(f),
            )
        }),
{
}

/// The settling skills of a list are the positive numbers in it that are such skills, each
/// of them once.
pub proof fn settling_skills_once(t: SettleTables, entries: Seq<Seq<char>>, id: i32)
    ensures
        settling(t, entries).contains(id) <==> id > 0 && t.settles(id) && exists|k: int|
            0 <= k < entries.len() && number(trimmed(#[trigger] entries[k])) == Some(id),
        forall|i: int, j: int|
            0 <= i < j < settling(t, entries).len() ==> settling(t, entries)[i] != settling(
                t,
                entries,
            )[j],
    decreases entries.len(),
{
    if entries.len() > 0 {
        let n = entries.len() - 1;
        let less = entries.drop_last();
        let before = settling(t, less);
        settling_skills_once(t, less, id);
        let all = settling(t, entries);
        if exists|k: int| 0 <= k < less.len() && number(trimmed(#[trigger] less[k])) == Some(id) {
            let k = choose|k: int|
                0 <= k < less.len() && number(trimmed(#[trigger] less[k])) == Some(id);
            assert(number(trimmed(entries[k])) == Some(id));
        }
        if exists|k: int|
            0 <= k < entries.len() && number(trimmed(#[trigger] entries[k])) == Some(id) {
            let k = choose|k: int|
                0 <= k < entries.len() && number(trimmed(#[trigger] entries[k])) == Some(id);
            if k < n {
                assert(number(trimmed(less[k])) == Some(id));
            }
        }
        assert(entries[n] == entries.last());
        if all.len() > before.len() {
            let added = all.last();
            assert(all =~= before.push(added));
            assert(before.push(added)[before.len() as int] == added);
            if all.contains(id) && id != added {
                let i = choose|i: int| 0 <= i < all.len() && all[i] == id;
                assert(before[i] == id);
            }
            if before.contains(id) {
                let i = choose|i: int| 0 <= i < before.len() && before[i] == id;
                assert(all[i] == id);
            }
            assert(number(trimmed(entries[n])) == Some(added));
            if id == added {
                assert(all[before.len() as int] == id);
            }
        }
    }
}

} // verus!
