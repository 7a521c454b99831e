//! How the events of a battle are reported.

use crate::config::row_at;
use crate::event::{
    all_event_effects, applies, applies_all, applies_upto, effects_upto, event_effects,
    single_steps, Event, EventTables,
};
use crate::model::{
    ActType, BuffInfoView, BuffLayerType, EffectType, EffectView, FightHurtInfo, StepView,
};
use vstd::prelude::*;

verus! {

/// An effect of which nothing is set.
pub open spec fn nothing_set() -> EffectView {
    EffectView {
        effect_type: None,
        target_id: None,
        effect_num: None,
        effect_num1: None,
        buff: None,
        card_info_list: Seq::empty(),
        config_effect: None,
        buff_act_id: None,
        reserve_id: None,
        reserve_str: None,
        team_type: None,
        hurt_info: None,
        buff_act_info: None,
        magic_circle: None,
        fight: None,
        entity: None,
        fight_step: None,
    }
}

/// An effect says its type, its target and its amount, and nothing else.
pub open spec fn says(e: EffectView, t: EffectType, target: i64, num: i32) -> bool {
    e == (EffectView {
        effect_type: Some(t),
        target_id: Some(target),
        effect_num: Some(num),
        ..nothing_set()
    })
}

/// An effect carries a step and nothing else.
pub open spec fn carries(e: EffectView, step: StepView) -> bool {
    e == (EffectView {
        effect_type: Some(EffectType::FightStep),
        target_id: Some(0),
        effect_num: Some(0),
        fight_step: Some(step),
        ..nothing_set()
    })
}

/// A step from one fighter to another whose other fields are at rest.
pub open spec fn step_of(
    act_type: ActType,
    from: i64,
    to: i64,
    act_id: i32,
    card_index: i32,
    effects: Seq<EffectView>,
) -> StepView {
    StepView {
        act_type: Some(act_type),
        from_id: Some(from),
        to_id: Some(to),
        act_id: Some(act_id),
        act_effect: effects,
        card_index: Some(card_index),
        support_hero_id: Some(0),
        fake_timeline: Some(false),
        real_skill_type: Some(0),
        real_skin_id: Some(0),
    }
}

/// A hit is reported once, with the damage that the event names and none for a negative
/// one, as a crit if it is one. Its record says what the event says, and where the event
/// left something open: the damage, who dealt it, with which skill, and as what.
pub proof fn damage_is_reported(
    uids: Seq<i64>,
    tables: EventTables,
    target: i64,
    amount: i32,
    is_crit: bool,
    hurt_info: FightHurtInfo,
    from: i64,
    skill_id: Option<i32>,
)
    ensures
        ({
            let e = Event::Damage { target, amount, is_crit, hurt_info, from, skill_id };
            let out = event_effects(e, uids, tables);
            let kind = if is_crit {
                EffectType::Crit
            } else {
                EffectType::Damage
            };
            &&& out.len() == 1
            &&& out[0] == (EffectView {
                effect_type: Some(kind),
                target_id: Some(target),
                effect_num: out[0].effect_num,
                config_effect: hurt_info.config_effect,
                hurt_info: out[0].hurt_info,
                ..nothing_set()
            })
            &&& amount >= 0 ==> out[0].effect_num == Some(amount)
            &&& amount < 0 ==> out[0].effect_num == Some(0i32)
            &&& out[0].hurt_info is Some
            &&& ({
                let h = out[0].hurt_info->0;
                &&& hurt_info.damage is Some ==> h.damage == hurt_info.damage
                &&& hurt_info.damage is None && amount >= 0 ==> h.damage == Some(amount)
                &&& hurt_info.damage is None && amount < 0 ==> h.damage == Some(0i32)
                &&& hurt_info.from_uid is Some ==> h.from_uid == hurt_info.from_uid
                &&& hurt_info.from_uid is None ==> h.from_uid == Some(from)
                &&& hurt_info.skill_id is Some ==> h.skill_id == hurt_info.skill_id
                &&& hurt_info.skill_id is None ==> h.skill_id == skill_id
                &&& hurt_info.hurt_effect is Some ==> h.hurt_effect == hurt_info.hurt_effect
                &&& hurt_info.hurt_effect is None ==> h.hurt_effect == Some(kind)
                &&& h == (FightHurtInfo {
                    damage: h.damage,
                    from_uid: h.from_uid,
                    skill_id: h.skill_id,
                    hurt_effect: h.hurt_effect,
                    ..hurt_info
                })
            })
        }),
{
}

/// Deaths, heals and changes of points, power and pools are reported once, each with the
/// fighter and the amount that the event names. A change of ex points that is not to be
/// shown is not.
pub proof fn simple_events_are_reported(
    uids: Seq<i64>,
    tables: EventTables,
    uid: i64,
    from: i64,
    n: i32,
    team_type: i32,
)
    ensures
        ({
            let out = event_effects(Event::Dead { entity_uid: uid }, uids, tables);
            out.len() == 1 && says(out[0], EffectType::Dead, uid, 0)
        }),
        ({
            let out = event_effects(Event::Heal { target: uid, amount: n, from }, uids, tables);
            out.len() == 1 && says(out[0], EffectType::Heal, uid, n)
        }),
        ({
            let out = event_effects(Event::HealCrit { target: uid, amount: n, from }, uids, tables);
            out.len() == 1 && says(out[0], EffectType::HealCrit, uid, n)
        }),
        ({
            let e = Event::ExPointChange { target: uid, delta: n, emit_step: true };
            let out = event_effects(e, uids, tables);
            out.len() == 1 && says(out[0], EffectType::ExPointChange, uid, n)
        }),
        event_effects(
            Event::ExPointChange { target: uid, delta: n, emit_step: false },
            uids,
            tables,
        ).len() == 0,
        ({
            let out = event_effects(Event::PowerChange { delta: n }, uids, tables);
            out.len() == 1 && out[0] == (EffectView {
                effect_type: Some(EffectType::PowerChange),
                effect_num: Some(n),
                ..nothing_set()
            })
        }),
        ({
            let e = Event::BloodpoolValueChange { team_type, target: uid, delta: n };
            let out = event_effects(e, uids, tables);
            out.len() == 1 && out[0] == (EffectView {
                effect_type: Some(EffectType::BloodPoolValueChange),
                target_id: Some(uid),
                effect_num: Some(team_type),
                effect_num1: Some(n),
                ..nothing_set()
            })
        }),
        ({
            let out = event_effects(Event::BloodpoolMaxChange { team_type, max: n }, uids, tables);
            out.len() == 1 && out[0] == (EffectView {
                effect_type: Some(EffectType::BloodPoolMaxChange),
                target_id: Some(0),
                effect_num: Some(team_type),
                effect_num1: Some(n),
                ..nothing_set()
            })
        }),
        ({
            let out = event_effects(Event::RemoveEntityCards { entity_uid: uid }, uids, tables);
            let inner = EffectView {
                effect_type: Some(EffectType::RemoveEntityCards),
                target_id: Some(uid),
                team_type: Some(1),
                ..nothing_set()
            };
            out.len() == 1 && carries(
                out[0],
                step_of(ActType::Effect, 0, 0, 0, 0, seq![inner]),
            )
        }),
{
}

/// What an effect says of a buff when it is added or updated.
pub open spec fn buff_told(
    b: Option<BuffInfoView>,
    tables: EventTables,
    buff_id: i32,
    buff_uid: i64,
    from: i64,
    count: i32,
    layer: i32,
) -> bool {
    b == Some(
        BuffInfoView {
            buff_id: Some(buff_id),
            duration: Some(0),
            uid: Some(buff_uid),
            ex_info: Some(0),
            from_uid: Some(from),
            count: Some(count),
            act_common_params: Some(
                if row_at(tables.shared@, buff_id) is Some {
                    row_at(tables.shared@, buff_id)->0.params@
                } else {
                    Seq::empty()
                },
            ),
            layer: Some(layer),
            layer_type: Some(BuffLayerType::Normal),
            act_info: Seq::empty(),
        },
    )
}

/// A new buff is reported under the first of the ids that were handed out, an update
/// under the id that it names, and each with the numbers of its event. A buff that ends
/// is reported by its id; its layer is one if its row has features, else zero.
pub proof fn buff_events_are_reported(
    uids: Seq<i64>,
    tables: EventTables,
    target: i64,
    buff_id: i32,
    buff_uid: i64,
    from: i64,
    from_skill_id: i32,
    count: i32,
    layer: i32,
    config_effect: Option<i32>,
    sync_count: i32,
    sync_layer: i32,
)
    ensures
        ({
            let e = Event::BuffApply {
                target,
                buff_id,
                count,
                layer,
                from,
                from_skill_id,
                config_effect,
            };
            let out = event_effects(e, uids, tables);
            &&& out.len() == 1
            &&& buff_told(out[0].buff, tables, buff_id, uids[0], from, count, layer)
            &&& out[0] == (EffectView {
                effect_type: Some(EffectType::BuffAdd),
                target_id: Some(target),
                effect_num: Some(buff_id),
                buff: out[0].buff,
                config_effect,
                ..nothing_set()
            })
        }),
        ({
            let e = Event::BuffUpdate {
                target,
                buff_uid,
                new_count: count,
                new_layer: layer,
                buff_id,
                from_uid: from,
            };
            let out = event_effects(e, uids, tables);
            &&& out.len() == 1
            &&& buff_told(out[0].buff, tables, buff_id, buff_uid, from, count, layer)
            &&& out[0] == (EffectView {
                effect_type: Some(EffectType::BuffUpdate),
                target_id: Some(target),
                effect_num: Some(0),
                buff: out[0].buff,
                ..nothing_set()
            })
        }),
        ({
            let e = Event::BuffSyncAddWithUidAndEmitUpdate {
                target,
                buff_id,
                from,
                from_skill_id,
                sync_count,
                sync_layer,
                buff_uid,
                emit_count: count,
                emit_layer: layer,
            };
            let out = event_effects(e, uids, tables);
            &&& out.len() == 1
            &&& buff_told(out[0].buff, tables, buff_id, buff_uid, from, count, layer)
            &&& out[0] == (EffectView {
                effect_type: Some(EffectType::BuffUpdate),
                target_id: Some(target),
                effect_num: Some(0),
                buff: out[0].buff,
                ..nothing_set()
            })
        }),
        ({
            let e = Event::BuffRemove { target, buff_uid, buff_id, from_uid: from };
            let out = event_effects(e, uids, tables);
            let row = row_at(tables.buff_rows@, buff_id);
            &&& out.len() == 1
            &&& out[0] == (EffectView {
                effect_type: Some(EffectType::BuffDel),
                target_id: Some(target),
                buff: Some(
                    BuffInfoView {
                        buff_id: Some(buff_id),
                        duration: None,
                        uid: Some(buff_uid),
                        ex_info: None,
                        from_uid: Some(from),
                        count: None,
                        act_common_params: None,
                        layer: Some(
                            if row is Some && row->0.features@.len() > 0 {
                                1
                            } else {
                                0
                            },
                        ),
                        layer_type: None,
                        act_info: Seq::empty(),
                    },
                ),
                ..nothing_set()
            })
        }),
{
}

/// An effect that is handed on is reported as it is, and events that only notify are
/// not reported at all.
pub proof fn other_events(uids: Seq<i64>, tables: EventTables, e: Event)
    ensures
        e matches Event::SerializedActEffect { effect } ==> event_effects(e, uids, tables)
            == seq![effect@],
        (e is BuffSyncAddWithUid || e is EffectMarker || e is CardPlayed || e is CardMoved
            || e is CardUpgrade || e is SimulateDissolveCard || e is EnterBattle || e is BuffAdd
            || e is RemoveBuff || e is AddActionPoint) ==> event_effects(e, uids, tables).len()
            == 0,
{
}

/// A skill is reported as one step from its caster to its target that holds what its
/// events report, in their order, whatever it was emitted for.
pub proof fn a_skill_is_reported_as_a_step(uids: Seq<i64>, tables: EventTables, e: Event)
    ensures
        e matches Event::SkillEmit { skill_id, from, to, children, kind } ==> {
            let out = event_effects(e, uids, tables);
            &&& out.len() == 1
            &&& carries(
                out[0],
                step_of(
                    ActType::Skill,
                    from,
                    to,
                    skill_id,
                    1,
                    all_event_effects(children@, uids, tables),
                ),
            )
        },
{
}

proof fn applies_of_prefix(a: Seq<Event>, b: Seq<Event>, n: nat)
    requires
        n <= a.len(),
    ensures
        applies_upto(a + b, n) == applies_upto(a, n),
    decreases n,
{
    if n > 0 {
        applies_of_prefix(a, b, (n - 1) as nat);
        assert((a + b)[n - 1] == a[n - 1]);
    }
}

proof fn applies_after(a: Seq<Event>, b: Seq<Event>, n: nat)
    requires
        n <= b.len(),
    ensures
        applies_upto(a + b, a.len() + n) == applies_upto(a, a.len()) + applies_upto(b, n),
    decreases n,
{
    if n == 0 {
        applies_of_prefix(a, b, a.len());
    } else {
        applies_after(a, b, (n - 1) as nat);
        assert((a + b)[a.len() + n - 1] == b[n - 1]);
    }
}

proof fn effects_of_prefix(
    a: Seq<Event>,
    b: Seq<Event>,
    n: nat,
    uids: Seq<i64>,
    tables: EventTables,
)
    requires
        n <= a.len(),
    ensures
        effects_upto(a + b, n, uids, tables) == effects_upto(a, n, uids, tables),
    decreases n,
{
    if n > 0 {
        effects_of_prefix(a, b, (n - 1) as nat, uids, tables);
        applies_of_prefix(a, b, (n - 1) as nat);
        assert((a + b)[n - 1] == a[n - 1]);
    }
}

proof fn effects_after(
    a: Seq<Event>,
    b: Seq<Event>,
    n: nat,
    uids: Seq<i64>,
    tables: EventTables,
)
    requires
        n <= b.len(),
        applies_all(a) + applies_all(b) <= uids.len(),
    ensures
        effects_upto(a + b, a.len() + n, uids, tables) == effects_upto(a, a.len(), uids, tables)
            + effects_upto(b, n, uids.skip(applies_all(a) as int), tables),
    decreases n,
{
    let rest = uids.skip(applies_all(a) as int);
    if n == 0 {
        effects_of_prefix(a, b, a.len(), uids, tables);
        assert(effects_upto(a, a.len(), uids, tables) + effects_upto(b, n, rest, tables)
            =~= effects_upto(a, a.len(), uids, tables));
    } else {
        effects_after(a, b, (n - 1) as nat, uids, tables);
        applies_after(a, b, (n - 1) as nat);
        crate::event::applies_upto_grows(b, (n - 1) as nat, b.len());
        let k = applies_upto(b, (n - 1) as nat);
        assert((a + b)[a.len() + n - 1] == b[n - 1]);
        assert(rest.skip(k as int) =~= uids.skip((applies_all(a) + k) as int));
        assert(effects_upto(a + b, a.len() + n, uids, tables) =~= effects_upto(
            a,
            a.len(),
            uids,
            tables,
        ) + effects_upto(b, n, rest, tables));
    }
}

/// Events are reported one after the other, each new buff under the next id: the report
/// of two lists is the report of the first and then that of the second, which starts
/// after the ids that the first has used.
pub proof fn reports_follow_each_other(
    a: Seq<Event>,
    b: Seq<Event>,
    uids: Seq<i64>,
    tables: EventTables,
)
    requires
        applies_all(a) + applies_all(b) <= uids.len(),
    ensures
        applies_all(a + b) == applies_all(a) + applies_all(b),
        all_event_effects(a + b, uids, tables) == all_event_effects(a, uids, tables)
            + all_event_effects(b, uids.skip(applies_all(a) as int), tables),
{
    applies_after(a, b, b.len());
    effects_after(a, b, b.len(), uids, tables);
    assert((a + b).len() == a.len() + b.len());
}

/// A report of one event is the report of that event, and a list without events has
/// none. A buff that is applied uses one id, a skill as many as its events, and nothing
/// else uses any.
pub proof fn report_of_one(e: Event, uids: Seq<i64>, tables: EventTables)
    ensures
        all_event_effects(seq![e], uids, tables) == event_effects(e, uids, tables),
        all_event_effects(Seq::<Event>::empty(), uids, tables).len() == 0,
        applies_all(seq![e]) == applies(e),
        applies_all(Seq::<Event>::empty()) == 0,
        e is BuffApply ==> applies(e) == 1,
        e matches Event::SkillEmit { children, .. } ==> applies(e) == applies_all(children@),
        !(e is BuffApply) && !(e is SkillEmit) ==> applies(e) == 0,
{
    let s = seq![e];
    assert(s[0] == e);
    assert(applies_upto(s, 0) == 0);
    assert(applies_upto(s, 1) == applies_upto(s, 0) + applies(s[0]));
    assert(uids.skip(0) =~= uids);
    assert(effects_upto(s, 0, uids, tables) =~= Seq::empty());
    assert(effects_upto(s, 1, uids, tables) =~= event_effects(e, uids, tables));
}

/// Every effect of a report is sent in a step of its own, in the same order.
pub proof fn each_effect_has_its_step(s: Seq<EffectView>)
    ensures
        single_steps(s).len() == s.len(),
        forall|i: int|
            0 <= i < s.len() ==> #[trigger] single_steps(s)[i] == step_of(
                ActType::Effect,
                0,
                0,
                0,
                0,
                seq![s[i]],
            ),
{
}

} // verus!
