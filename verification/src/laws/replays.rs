//! The order in which effects are played, and what a recorded battle leaves behind.

use crate::arith::{fits, or_zero, or_zero64};
use crate::laws::play::ledger_but;
use crate::manager::entity_mgr::{EntityMgrView, ExPointInfoView, FightExPointInfo};
use crate::manager::play_order::{
    effects_of, fills_pool, fills_pool_upto, items_view, nested_order, own_effects, play_order,
    PlayItem, PlayItemView,
};
use crate::manager::replay::{
    all_leaves, buff_position, buffs_view, fight_with_all, fight_with_recorded, gauged, gauged_list,
    gauged_team, gauges_taken, largest_capacity, last_info, leaves, leaves_upto, list_with_recorded,
    pool_replay, pool_team, recorded_infos, uid_position, usable, with_recorded, PoolReplay,
    RecordedBuff,
};
use crate::mechanics::injury_counter::kind_of;
use crate::model::{
    BuffInfo, BuffInfoView, EffectType, EffectView, EntityView, FightView, StepView, TeamView,
};
use vstd::prelude::*;

verus! {

/// An effect puts blood into the pool.
pub open spec fn gives_blood(e: EffectView) -> bool {
    e.effect_type == Some(EffectType::BloodPoolValueChange) && e.effect_num1 is Some
        && e.effect_num1->0 > 0
}

proof fn fills_pool_first(s: Seq<EffectView>, x: EffectView, n: nat)
    requires
        n <= s.len(),
    ensures
        fills_pool_upto(s.push(x), n) == fills_pool_upto(s, n),
    decreases n,
{
    if n > 0 {
        fills_pool_first(s, x, (n - 1) as nat);
        assert(s.push(x)[n - 1] == s[n - 1]);
    }
}

/// Effects fill the pool if one of them puts blood into it, or one within a step that they
/// carry.
pub proof fn what_fills_the_pool(s: Seq<EffectView>, x: EffectView)
    ensures
        !fills_pool(Seq::empty()),
        x.fight_step is None ==> (fills_pool(s.push(x)) <==> fills_pool(s) || gives_blood(x)),
        x.fight_step is Some ==> (fills_pool(s.push(x)) <==> fills_pool(s) || gives_blood(x)
            || fills_pool(x.fight_step->0.act_effect)),
{
    fills_pool_first(s, x, s.len());
    assert(s.push(x)[s.len() as int] == x);
}

proof fn own_effects_reversed(s: Seq<EffectView>, x: EffectView, synced: bool)
    ensures
        own_effects(s.push(x), synced) == (if x.fight_step is None {
            seq![PlayItemView { effect: x, pool_is_synced: synced }] + own_effects(s, synced)
        } else {
            own_effects(s, synced)
        }),
    decreases s.len(),
{
    if s.len() == 0 {
        assert(s.push(x).skip(1) =~= Seq::<EffectView>::empty());
        assert(s.push(x)[0] == x);
        assert(own_effects(s.push(x).skip(1), synced).len() == 0);
        assert(own_effects(s.push(x), synced) =~= (if x.fight_step is None {
            seq![PlayItemView { effect: x, pool_is_synced: synced }] + own_effects(s, synced)
        } else {
            own_effects(s, synced)
        }));
    } else {
        own_effects_reversed(s.skip(1), x, synced);
        assert(s.push(x).skip(1) =~= s.skip(1).push(x));
        assert(s.push(x)[0] == s[0]);
        assert(own_effects(s.push(x), synced) =~= (if x.fight_step is None {
            seq![PlayItemView { effect: x, pool_is_synced: synced }] + own_effects(s, synced)
        } else {
            own_effects(s, synced)
        }));
    }
}

proof fn nested_first(s: Seq<EffectView>, x: EffectView, n: nat, depth: nat, synced: bool)
    requires
        n <= s.len(),
    ensures
        nested_order(s.push(x), n, depth, synced) == nested_order(s, n, depth, synced),
    decreases n,
{
    if n > 0 {
        nested_first(s, x, (n - 1) as nat, depth, synced);
        assert(s.push(x)[n - 1] == s[n - 1]);
    }
}

/// The effects of a step are played from the last to the first, and behind them the steps
/// that they carry, from the first to the last. Steps that lie too deep are left out.
pub proof fn how_effects_are_played(s: Seq<EffectView>, x: EffectView, depth: nat)
    ensures
        play_order(Seq::empty(), depth, true).len() == 0,
        x.fight_step is None ==> play_order(s.push(x), depth, true) == seq![
            PlayItemView { effect: x, pool_is_synced: true },
        ] + play_order(s, depth, true),
        x.fight_step is Some && depth < 256 ==> play_order(s.push(x), depth, true) == play_order(
            s,
            depth,
            true,
        ) + play_order(x.fight_step->0.act_effect, depth + 1, true),
        x.fight_step is Some && depth >= 256 ==> play_order(s.push(x), depth, true) == play_order(
            s,
            depth,
            true,
        ),
{
    assert(own_effects(Seq::empty(), true).len() == 0);
    assert(nested_order(Seq::empty(), 0, depth, true).len() == 0);
    own_effects_reversed(s, x, true);
    nested_first(s, x, s.len(), depth, true);
    assert(s.push(x)[s.len() as int] == x);
    let own = own_effects(s, true);
    let nested = nested_order(s, s.len(), depth, true);
    if x.fight_step is None {
        let head = seq![PlayItemView { effect: x, pool_is_synced: true }];
        assert(head + own + nested =~= head + (own + nested));
    } else if depth < 256 {
        let more = play_order(x.fight_step->0.act_effect, depth + 1, true);
        assert(own + (nested + more) =~= own + nested + more);
    }
}

proof fn own_effects_alike(s: Seq<EffectView>, synced: bool)
    ensures
        own_effects(s, synced).len() == own_effects(s, true).len(),
        forall|i: int|
            0 <= i < own_effects(s, synced).len() ==> #[trigger] own_effects(s, synced)[i]
                == (PlayItemView { effect: own_effects(s, true)[i].effect, pool_is_synced: synced }),
    decreases s.len(),
{
    if s.len() > 0 {
        own_effects_alike(s.skip(1), synced);
    }
}

/// The order does not depend on the pool. Each effect is marked exactly if the pool was
/// filled before it or is filled within the step that it is played with.
pub proof fn how_effects_are_marked(s: Seq<EffectView>, depth: nat, inherited: bool)
    ensures
        play_order(s, depth, inherited).len() == play_order(s, depth, true).len(),
        forall|i: int|
            0 <= i < play_order(s, depth, inherited).len() ==> #[trigger] play_order(
                s,
                depth,
                inherited,
            )[i] == (PlayItemView {
                effect: play_order(s, depth, true)[i].effect,
                pool_is_synced: inherited || fills_pool(s),
            }),
    decreases s, s.len() + 1,
{
    let synced = inherited || fills_pool(s);
    own_effects_alike(s, synced);
    nested_alike(s, s.len(), depth, synced);
}

proof fn fills_from(s: Seq<EffectView>, k: nat, n: nat)
    requires
        k < n <= s.len(),
        s[k as int].fight_step is Some,
        fills_pool(s[k as int].fight_step->0.act_effect),
    ensures
        fills_pool_upto(s, n),
    decreases n,
{
    if k < n - 1 {
        fills_from(s, k, (n - 1) as nat);
    }
}

proof fn nested_alike(s: Seq<EffectView>, n: nat, depth: nat, synced: bool)
    requires
        n <= s.len(),
        fills_pool(s) ==> synced,
    ensures
        nested_order(s, n, depth, synced).len() == nested_order(s, n, depth, true).len(),
        forall|i: int|
            0 <= i < nested_order(s, n, depth, synced).len() ==> #[trigger] nested_order(
                s,
                n,
                depth,
                synced,
            )[i] == (PlayItemView {
                effect: nested_order(s, n, depth, true)[i].effect,
                pool_is_synced: synced,
            }),
    decreases s, n,
{
    if n > 0 {
        nested_alike(s, (n - 1) as nat, depth, synced);
        if s[n - 1].fight_step is Some && depth < 256 {
            let inner = s[n - 1].fight_step->0.act_effect;
            how_effects_are_marked(inner, depth + 1, synced);
            how_effects_are_marked(inner, depth + 1, true);
            if fills_pool(inner) {
                fills_from(s, (n - 1) as nat, s.len());
            }
        }
    }
}

proof fn leaves_first(s: Seq<EffectView>, x: EffectView, n: nat)
    requires
        n <= s.len(),
    ensures
        leaves_upto(s.push(x), n) == leaves_upto(s, n),
    decreases n,
{
    if n > 0 {
        leaves_first(s, x, (n - 1) as nat);
        assert(s.push(x)[n - 1] == s[n - 1]);
    }
}

/// The leaves of effects: those that carry no step, and in place of one that does, the
/// leaves of its step.
pub proof fn leaves_in_their_order(s: Seq<EffectView>, x: EffectView)
    ensures
        leaves(Seq::empty()).len() == 0,
        x.fight_step is None ==> leaves(s.push(x)) == leaves(s).push(x),
        x.fight_step is Some ==> leaves(s.push(x)) == leaves(s) + leaves(
            x.fight_step->0.act_effect,
        ),
{
    leaves_first(s, x, s.len());
    assert(s.push(x)[s.len() as int] == x);
    assert(leaves(s) + seq![x] =~= leaves(s).push(x));
}

proof fn leaves_of_a_round_join(
    a: Seq<StepView>,
    b: Seq<StepView>,
)
    ensures
        all_leaves(a + b) == all_leaves(a) + all_leaves(b),
    decreases b.len(),
{
    if b.len() == 0 {
        assert(a + b =~= a);
        assert(all_leaves(a) + all_leaves(b) =~= all_leaves(a));
    } else {
        leaves_of_a_round_join(a, b.drop_last());
        assert((a + b).drop_last() =~= a + b.drop_last());
        assert((a + b).last() == b.last());
        assert(all_leaves(a + b) =~= all_leaves(a) + all_leaves(b));
    }
}

/// The leaves of a round are those of its steps, one after the other.
pub proof fn leaves_of_a_round(
    a: Seq<StepView>,
    b: Seq<StepView>,
    x: StepView,
)
    ensures
        all_leaves(a + b) == all_leaves(a) + all_leaves(b),
        all_leaves(Seq::<StepView>::empty()).len() == 0,
        all_leaves(seq![x]) == (leaves(x.act_effect)),
{
    leaves_of_a_round_join(a, b);
    let one = seq![x];
    assert(one.drop_last() =~= Seq::<StepView>::empty());
    assert(one.last() == x);
    assert(all_leaves(one.drop_last()).len() == 0);
    assert(all_leaves(seq![x]) =~= (leaves(x.act_effect)));
}

/// What an effect does to a blood pool in a replay: it is there, its limit rises, or its
/// content changes but not below zero.
pub proof fn what_a_replay_does_to_a_pool(
    kind: EffectType,
    team_type: i32,
    amount: i32,
    max: i32,
    value: i32,
)
    ensures
        ({
            let r = pool_replay(kind, team_type, amount, max, value);
            &&& kind == EffectType::BloodPoolMaxCreate ==> r == PoolReplay::Exists
            &&& kind == EffectType::BloodPoolMaxChange && amount > max ==> r
                == (PoolReplay::RaiseMax { team_type, max: amount })
            &&& kind == EffectType::BloodPoolMaxChange && amount <= max ==> r == PoolReplay::Exists
            &&& kind == EffectType::BloodPoolValueChange && 0 <= value + amount && fits(
                value + amount,
            ) ==> r == (PoolReplay::SetValue { team_type, value: (value + amount) as i32 })
            &&& kind == EffectType::BloodPoolValueChange && value + amount < 0 ==> r
                == (PoolReplay::SetValue { team_type, value: 0 })
            &&& kind != EffectType::BloodPoolMaxCreate && kind != EffectType::BloodPoolMaxChange
                && kind != EffectType::BloodPoolValueChange ==> r == PoolReplay::Nothing
        }),
{
}

/// The team of a pool is the amount of its effect, else its team, else the first. The kind
/// of an effect is what it says, else none.
pub proof fn what_a_pool_effect_says(e: EffectView)
    ensures
        e.effect_num is Some ==> pool_team(e) == e.effect_num->0,
        e.effect_num is None && e.team_type is Some ==> pool_team(e) == e.team_type->0,
        e.effect_num is None && e.team_type is None ==> pool_team(e) == 1,
        e.effect_type is Some ==> kind_of(e) == e.effect_type->0,
        e.effect_type is None ==> kind_of(e) == EffectType::NoEffect,
{
}

/// An effect records a capacity for an act as the second parameter of an update.
pub open spec fn records_capacity(e: EffectView, act_id: i32, capacity: i32) -> bool {
    e.effect_type == Some(EffectType::BuffActInfoUpdate) && e.buff_act_info is Some
        && e.buff_act_info->0.act_id == Some(act_id) && e.buff_act_info->0.param.len() >= 2
        && e.buff_act_info->0.param[1] == capacity
}

/// The largest capacity is at least zero and at least every one that is recorded, and it is
/// zero or one of those.
pub proof fn the_largest_capacity(s: Seq<EffectView>, act_id: i32)
    ensures
        ({
            let top = largest_capacity(s, act_id);
            &&& top >= 0
            &&& forall|i: int, c: int|
                0 <= i < s.len() && #[trigger] records_capacity(s[i], act_id, c as i32) && fits(c)
                    ==> c <= top
            &&& top > 0 ==> exists|i: int|
                0 <= i < s.len() && records_capacity(#[trigger] s[i], act_id, top)
        }),
    decreases s.len(),
{
    if s.len() > 0 {
        let less = s.drop_last();
        the_largest_capacity(less, act_id);
        let before = largest_capacity(less, act_id);
        let top = largest_capacity(s, act_id);
        assert forall|i: int, c: int|
            0 <= i < s.len() && #[trigger] records_capacity(s[i], act_id, c as i32) && fits(
                c,
            ) implies c <= top by {
            if i < less.len() {
                assert(less[i] == s[i]);
                assert(records_capacity(less[i], act_id, c as i32));
            } else {
                assert(s[i] == s.last());
            }
        }
        if top > 0 {
            if top == before {
                let i = choose|i: int|
                    0 <= i < less.len() && records_capacity(#[trigger] less[i], act_id, top);
                assert(s[i] == less[i]);
            } else {
                assert(records_capacity(s[s.len() - 1], act_id, top));
            }
        }
    }
}

/// A recorded buff can be used if it and its target are named and it has an id of its own.
pub open spec fn can_be_used(b: RecordedBuff) -> bool {
    b.buff_id > 0 && b.target_uid != 0 && b.buff_uid > 0
}

proof fn usable_buffs_join(
    a: Seq<RecordedBuff>,
    b: Seq<RecordedBuff>,
)
    ensures
        usable(a + b) == usable(a) + usable(b),
    decreases b.len(),
{
    if b.len() == 0 {
        assert(a + b =~= a);
        assert(usable(a) + usable(b) =~= usable(a));
    } else {
        usable_buffs_join(a, b.drop_last());
        assert((a + b).drop_last() =~= a + b.drop_last());
        assert((a + b).last() == b.last());
        assert(usable(a + b) =~= usable(a) + usable(b));
    }
}

/// The buffs that are used are those that can be, in their order.
pub proof fn usable_buffs(
    a: Seq<RecordedBuff>,
    b: Seq<RecordedBuff>,
    x: RecordedBuff,
)
    ensures
        usable(a + b) == usable(a) + usable(b),
        usable(Seq::<RecordedBuff>::empty()).len() == 0,
        usable(seq![x]) == (if can_be_used(x) {
            seq![x]
        } else {
            Seq::empty()
        }),
{
    usable_buffs_join(a, b);
    let one = seq![x];
    assert(one.drop_last() =~= Seq::<RecordedBuff>::empty());
    assert(one.last() == x);
    assert(usable(one.drop_last()).len() == 0);
    assert(usable(seq![x]) =~= (if can_be_used(x) {
            seq![x]
        } else {
            Seq::empty()
        }));
}

proof fn where_a_buff_stands(s: Seq<BuffInfoView>, uid: i64)
    ensures
        buff_position(s, uid) is None <==> forall|i: int|
            0 <= i < s.len() ==> (#[trigger] s[i]).uid != Some(uid),
        buff_position(s, uid) is Some ==> buff_position(s, uid)->0 < s.len() && s[buff_position(
            s,
            uid,
        )->0 as int].uid == Some(uid) && forall|j: int|
            0 <= j < buff_position(s, uid)->0 ==> (#[trigger] s[j]).uid != Some(uid),
    decreases s.len(),
{
    if s.len() > 0 {
        let rest = s.skip(1);
        where_a_buff_stands(rest, uid);
        assert forall|i: int| 0 < i < s.len() implies rest[i - 1] == #[trigger] s[i] by {}
        if s[0].uid != Some(uid) {
            if buff_position(rest, uid) is None {
                assert forall|i: int| 0 <= i < s.len() implies (#[trigger] s[i]).uid != Some(
                    uid,
                ) by {
                    if i > 0 {
                        assert(rest[i - 1] == s[i]);
                    }
                }
            }
        }
    }
}

/// A recorded buff replaces what is told of the first buff with its id and keeps its
/// parameters; if there is none, the buff comes last.
pub proof fn how_a_recorded_buff_is_kept(s: Seq<BuffInfoView>, b: RecordedBuff, i: int)
    requires
        0 <= i < s.len(),
    ensures
        ({
            let t = with_recorded(s, b);
            let first = s[i].uid == Some(b.buff_uid) && forall|j: int|
                0 <= j < i ==> (#[trigger] s[j]).uid != Some(b.buff_uid);
            &&& first ==> t.len() == s.len() && t[i] == (BuffInfoView {
                buff_id: Some(b.buff_id),
                from_uid: Some(b.from_uid),
                count: Some(b.count),
                layer: Some(b.layer),
                duration: Some(b.duration),
                ..s[i]
            })
            &&& !first ==> t[i] == s[i]
        }),
{
    where_a_buff_stands(s, b.buff_uid);
}

/// A recorded buff that nobody had yet comes last.
pub proof fn how_a_recorded_buff_is_added(s: Seq<BuffInfoView>, b: RecordedBuff)
    requires
        forall|i: int| 0 <= i < s.len() ==> (#[trigger] s[i]).uid != Some(b.buff_uid),
    ensures
        with_recorded(s, b) == s.push(
            BuffInfoView {
                buff_id: Some(b.buff_id),
                duration: Some(b.duration),
                uid: Some(b.buff_uid),
                ex_info: None,
                from_uid: Some(b.from_uid),
                count: Some(b.count),
                act_common_params: None,
                layer: Some(b.layer),
                layer_type: None,
                act_info: Seq::empty(),
            },
        ),
{
    where_a_buff_stands(s, b.buff_uid);
}

/// The place of an id in a list is the first that has it.
pub proof fn where_an_id_stands(s: Seq<EntityView>, uid: i64)
    ensures
        uid_position(s, uid) is None <==> forall|i: int|
            0 <= i < s.len() ==> (#[trigger] s[i]).uid != Some(uid),
        uid_position(s, uid) is Some ==> uid_position(s, uid)->0 < s.len() && s[uid_position(
            s,
            uid,
        )->0 as int].uid == Some(uid) && forall|j: int|
            0 <= j < uid_position(s, uid)->0 ==> (#[trigger] s[j]).uid != Some(uid),
    decreases s.len(),
{
    if s.len() > 0 {
        let rest = s.skip(1);
        where_an_id_stands(rest, uid);
        assert forall|i: int| 0 < i < s.len() implies rest[i - 1] == #[trigger] s[i] by {}
        if s[0].uid != Some(uid) {
            if uid_position(rest, uid) is None {
                assert forall|i: int| 0 <= i < s.len() implies (#[trigger] s[i]).uid != Some(
                    uid,
                ) by {
                    if i > 0 {
                        assert(rest[i - 1] == s[i]);
                    }
                }
            }
        }
    }
}

/// Somebody of a list has an id.
pub open spec fn has_id(s: Seq<EntityView>, uid: i64) -> bool {
    exists|i: int| 0 <= i < s.len() && (#[trigger] s[i]).uid == Some(uid)
}

/// The list with a recorded buff on the first of its target's id.
pub proof fn who_gets_a_recorded_buff(s: Seq<EntityView>, b: RecordedBuff, i: int)
    requires
        0 <= i < s.len(),
    ensures
        ({
            let t = list_with_recorded(s, b);
            let first = s[i].uid == Some(b.target_uid) && forall|j: int|
                0 <= j < i ==> (#[trigger] s[j]).uid != Some(b.target_uid);
            &&& t.len() == s.len()
            &&& first ==> t[i] == (EntityView { buffs: with_recorded(s[i].buffs, b), ..s[i] })
            &&& !first ==> t[i] == s[i]
        }),
{
    where_an_id_stands(s, b.target_uid);
}

/// A recorded buff goes to its target where that is found first: among the attackers, on the
/// field and then in reserve, or among the defenders likewise. One that cannot be used, or
/// whose target is not there, changes nothing.
pub proof fn where_a_recorded_buff_goes(f: FightView, b: RecordedBuff)
    ensures
        ({
            let g = fight_with_recorded(f, b);
            let uid = b.target_uid;
            let a1 = f.attacker is Some && has_id(f.attacker->0.entitys, uid);
            let a2 = f.attacker is Some && has_id(f.attacker->0.sub_entitys, uid);
            let d1 = f.defender is Some && has_id(f.defender->0.entitys, uid);
            let d2 = f.defender is Some && has_id(f.defender->0.sub_entitys, uid);
            let used = can_be_used(b);
            &&& !used || !(a1 || a2 || d1 || d2) ==> g == f
            &&& used && a1 ==> g == (FightView {
                attacker: Some(
                    TeamView {
                        entitys: list_with_recorded(f.attacker->0.entitys, b),
                        ..f.attacker->0
                    },
                ),
                ..f
            })
            &&& used && !a1 && a2 ==> g == (FightView {
                attacker: Some(
                    TeamView {
                        sub_entitys: list_with_recorded(f.attacker->0.sub_entitys, b),
                        ..f.attacker->0
                    },
                ),
                ..f
            })
            &&& used && !a1 && !a2 && d1 ==> g == (FightView {
                defender: Some(
                    TeamView {
                        entitys: list_with_recorded(f.defender->0.entitys, b),
                        ..f.defender->0
                    },
                ),
                ..f
            })
            &&& used && !a1 && !a2 && !d1 && d2 ==> g == (FightView {
                defender: Some(
                    TeamView {
                        sub_entitys: list_with_recorded(f.defender->0.sub_entitys, b),
                        ..f.defender->0
                    },
                ),
                ..f
            })
        }),
{
    if f.attacker is Some {
        where_an_id_stands(f.attacker->0.entitys, b.target_uid);
        where_an_id_stands(f.attacker->0.sub_entitys, b.target_uid);
    }
    if f.defender is Some {
        where_an_id_stands(f.defender->0.entitys, b.target_uid);
        where_an_id_stands(f.defender->0.sub_entitys, b.target_uid);
    }
}

/// Recorded buffs are kept one after the other.
pub proof fn recorded_buffs_one_after_the_other(
    f: FightView,
    s: Seq<RecordedBuff>,
    b: RecordedBuff,
)
    ensures
        fight_with_all(f, Seq::empty()) == f,
        fight_with_all(f, s.push(b)) == fight_with_recorded(fight_with_all(f, s), b),
{
    assert(s.push(b).drop_last() =~= s);
}

/// What is recorded of a fighter is the last that names it.
pub proof fn the_last_record_of_a_fighter(s: Seq<ExPointInfoView>, uid: i64)
    ensures
        last_info(s, uid) is None <==> forall|i: int|
            0 <= i < s.len() ==> (#[trigger] s[i]).uid != Some(uid),
        last_info(s, uid) is Some ==> exists|i: int|
            0 <= i < s.len() && #[trigger] s[i] == last_info(s, uid)->0 && s[i].uid == Some(uid)
                && forall|j: int| i < j < s.len() ==> (#[trigger] s[j]).uid != Some(uid),
    decreases s.len(),
{
    if s.len() > 0 {
        let less = s.drop_last();
        the_last_record_of_a_fighter(less, uid);
        assert(s[s.len() - 1] == s.last());
        if s.last().uid == Some(uid) {
            assert(s[s.len() - 1] == last_info(s, uid)->0);
        } else if last_info(less, uid) is Some {
            let i = choose|i: int|
                0 <= i < less.len() && #[trigger] less[i] == last_info(less, uid)->0 && less[i].uid
                    == Some(uid) && forall|j: int|
                    i < j < less.len() ==> (#[trigger] less[j]).uid != Some(uid);
            assert(s[i] == less[i]);
            assert forall|j: int| i < j < s.len() implies (#[trigger] s[j]).uid != Some(uid) by {
                if j < less.len() {
                    assert(less[j] == s[j]);
                }
            }
        } else {
            assert forall|i: int| 0 <= i < s.len() implies (#[trigger] s[i]).uid != Some(uid) by {
                if i < less.len() {
                    assert(less[i] == s[i]);
                }
            }
        }
    }
}

/// A fighter of which something is recorded gets its points, and its life if that is
/// recorded too. Everything else of it stays, and so does everyone else.
pub proof fn what_is_set_by_a_record(
    e: EntityView,
    infos: Seq<ExPointInfoView>,
    s: Seq<EntityView>,
    t: TeamView,
    i: int,
)
    ensures
        last_info(infos, or_zero64(e.uid)) is None ==> gauged(e, infos) == e,
        last_info(infos, or_zero64(e.uid)) matches Some(info) ==> gauged(e, infos) == (EntityView {
            ex_point: Some(
                if info.ex_point is Some {
                    info.ex_point->0
                } else {
                    0
                },
            ),
            current_hp: if info.current_hp is Some {
                info.current_hp
            } else {
                e.current_hp
            },
            ..e
        }),
        gauged_list(s, infos).len() == s.len(),
        0 <= i < s.len() ==> gauged_list(s, infos)[i] == gauged(s[i], infos),
        gauged_team(None, infos) is None,
        gauged_team(Some(t), infos) == Some(
            TeamView {
                entitys: gauged_list(t.entitys, infos),
                sub_entitys: gauged_list(t.sub_entitys, infos),
                power: t.power,
            },
        ),
{
}

/// What is kept of fighters follows their records one after the other, never below zero.
pub proof fn what_is_kept_of_records(
    m: EntityMgrView,
    s: Seq<EntityView>,
    e: EntityView,
    infos: Seq<ExPointInfoView>,
)
    ensures
        ({
            let before = gauges_taken(m, s, infos);
            let after = gauges_taken(m, s.push(e), infos);
            let uid = or_zero64(e.uid);
            let floor = |x: i32|
                if x > 0 {
                    x as int
                } else {
                    0
                };
            &&& gauges_taken(m, Seq::empty(), infos) == m
            &&& last_info(infos, uid) is None ==> after == before
            &&& last_info(infos, uid) matches Some(info) ==> {
                &&& ledger_but(
                    before.ex_points,
                    after.ex_points,
                    uid,
                    floor(or_zero(info.ex_point)),
                )
                &&& info.current_hp is Some ==> ledger_but(
                    before.current_hp,
                    after.current_hp,
                    uid,
                    floor(info.current_hp->0),
                )
                &&& info.current_hp is None ==> after.current_hp == before.current_hp
                &&& after == (EntityMgrView {
                    ex_points: after.ex_points,
                    current_hp: after.current_hp,
                    ..before
                })
            }
        }),
{
    assert(s.push(e).drop_last() =~= s);
}

/// Records, buffs and played effects are seen one by one.
pub proof fn how_records_are_seen(
    v: Seq<FightExPointInfo>,
    b: Seq<BuffInfo>,
    items: Seq<PlayItem>,
    shown: Seq<PlayItemView>,
)
    ensures
        recorded_infos(v).len() == v.len(),
        forall|i: int| 0 <= i < v.len() ==> #[trigger] recorded_infos(v)[i] == v[i]@,
        buffs_view(b).len() == b.len(),
        forall|i: int| 0 <= i < b.len() ==> #[trigger] buffs_view(b)[i] == b[i]@,
        items_view(items).len() == items.len(),
        forall|i: int|
            0 <= i < items.len() ==> (#[trigger] items_view(items)[i]).effect == items[i].effect@
                && items_view(items)[i].pool_is_synced == items[i].pool_is_synced,
        effects_of(shown).len() == shown.len(),
        forall|i: int| 0 <= i < shown.len() ==> #[trigger] effects_of(shown)[i] == shown[i].effect,
{
}

} // verus!
