//! What happens in a battle, and the effects that report it.

use crate::config::{find_shared_params, shared_params, SharedParamsRow, SkillBuffRow};
use crate::fight_step::builder::{
    numeric_effect, row_delete_layer, wrap_step, ActEffectBuilder, FightStepBuilder,
};
use crate::fight_step::steps::{make_skill_step, skill_step, steps_view};
use crate::model::copies::copy_effect;
use crate::model::lists::group_effects_view;
use crate::model::{
    effects_view, ActEffect, BeginRoundOper, BuffInfoView, BuffLayerType, CardInfo, EffectType,
    EffectView, FightHurtInfo, FightStep, StepView,
};
use vstd::prelude::*;

verus! {

broadcast use group_effects_view;

/// Why a skill is emitted.
#[derive(Clone, Copy, PartialEq, Eq, Structural, Debug)]
pub enum SkillEmitKind {
    PlayerInitiated,
    AutomaticPhase,
    EventTriggered,
    EquipmentEmbedded,
}

/// Something that happens in a battle.
#[derive(Debug)]
#[allow(inconsistent_fields)]
pub enum Event {
    BuffApply {
        target: i64,
        buff_id: i32,
        count: i32,
        layer: i32,
        from: i64,
        from_skill_id: i32,
        config_effect: Option<i32>,
    },
    BuffUpdate {
        target: i64,
        buff_uid: i64,
        new_count: i32,
        new_layer: i32,
        buff_id: i32,
        from_uid: i64,
    },
    BuffRemove { target: i64, buff_uid: i64, buff_id: i32, from_uid: i64 },
    BuffSyncAddWithUid {
        target: i64,
        buff_id: i32,
        from: i64,
        from_skill_id: i32,
        count: i32,
        layer: i32,
        buff_uid: i64,
    },
    BuffSyncAddWithUidAndEmitUpdate {
        target: i64,
        buff_id: i32,
        from: i64,
        from_skill_id: i32,
        sync_count: i32,
        sync_layer: i32,
        buff_uid: i64,
        emit_count: i32,
        emit_layer: i32,
    },
    Damage {
        target: i64,
        amount: i32,
        is_crit: bool,
        hurt_info: FightHurtInfo,
        from: i64,
        skill_id: Option<i32>,
    },
    Heal { target: i64, amount: i32, from: i64 },
    HealCrit { target: i64, amount: i32, from: i64 },
    ExPointChange { target: i64, delta: i32, emit_step: bool },
    PowerChange { delta: i32 },
    BloodpoolValueChange { team_type: i32, target: i64, delta: i32 },
    BloodpoolMaxChange { team_type: i32, max: i32 },
    SerializedActEffect { effect: ActEffect },
    SkillEmit {
        skill_id: i32,
        from: i64,
        to: i64,
        children: Vec<Event>,
        kind: SkillEmitKind,
    },
    EffectMarker { effect_type: EffectType },
    CardPlayed { card: CardInfo, oper: BeginRoundOper },
    CardMoved { card: CardInfo },
    CardUpgrade { card: CardInfo },
    SimulateDissolveCard { oper: BeginRoundOper },
    EnterBattle { entity_uid: i64 },
    Dead { entity_uid: i64 },
    RemoveEntityCards { entity_uid: i64 },
    BuffAdd { target_uid: i64, buff_id: i32 },
    RemoveBuff { target_uid: i64, buff_id: i32 },
    AddActionPoint { entity_uid: i64, delta: i32 },
}

/// How many new buffs an event applies, the events inside it included.
pub open spec fn applies(e: Event) -> nat
    decreases e,
{
    match e {
        Event::BuffApply { .. } => 1,
        Event::SkillEmit { children, .. } => applies_all(children@),
        _ => 0,
    }
}

/// How many new buffs some events apply.
pub open spec fn applies_all(s: Seq<Event>) -> nat
    decreases s, s.len() + 1,
{
    applies_upto(s, s.len())
}

/// How many new buffs the first events of a list apply.
pub open spec fn applies_upto(s: Seq<Event>, n: nat) -> nat
    decreases s, n,
{
    if n == 0 || n > s.len() {
        0
    } else {
        applies_upto(s, (n - 1) as nat) + applies(s[n - 1])
    }
}

/// The hit record of a damage event: what the event does not say is filled in.
pub open spec fn completed_hurt(
    h: FightHurtInfo,
    damage: i32,
    from: i64,
    skill_id: Option<i32>,
    kind: EffectType,
) -> FightHurtInfo {
    FightHurtInfo {
        from_uid: if h.from_uid is None {
            Some(from)
        } else {
            h.from_uid
        },
        skill_id: if h.skill_id is None {
            skill_id
        } else {
            h.skill_id
        },
        damage: if h.damage is None {
            Some(damage)
        } else {
            h.damage
        },
        hurt_effect: if h.hurt_effect is None {
            Some(kind)
        } else {
            h.hurt_effect
        },
        ..h
    }
}

/// The game tables that reporting an event needs.
#[derive(Debug)]
pub struct EventTables {
    pub shared: Vec<SharedParamsRow>,
    pub buff_rows: Vec<SkillBuffRow>,
}

/// The effect that reports the update of a buff.
pub open spec fn update_effect(
    shared: Seq<SharedParamsRow>,
    target: i64,
    from: i64,
    buff_id: i32,
    buff_uid: i64,
    count: i32,
    layer: i32,
) -> EffectView {
    EffectView {
        buff: Some(
            BuffInfoView::full(
                buff_id,
                0,
                buff_uid,
                from,
                count,
                shared_params(shared, buff_id),
                layer,
                BuffLayerType::Normal,
            ),
        ),
        ..EffectView::amount(EffectType::BuffUpdate, target, 0)
    }
}

/// The effects that report an event. `uids` are the unique ids for the buffs that
/// the event applies, in their order.
pub open spec fn event_effects(e: Event, uids: Seq<i64>, tables: EventTables) -> Seq<EffectView>
    decreases e,
{
    match e {
        Event::Dead { entity_uid } => seq![EffectView::amount(EffectType::Dead, entity_uid, 0)],
        Event::RemoveEntityCards { entity_uid } => seq![
            EffectView::wrapper(
                StepView::container(
                    0,
                    0,
                    0,
                    seq![
                        EffectView {
                            team_type: Some(1),
                            ..EffectView::on(EffectType::RemoveEntityCards, entity_uid)
                        },
                    ],
                ),
            ),
        ],
        Event::Damage { target, amount, is_crit, hurt_info, from, skill_id } => {
            let damage = if amount > 0 {
                amount
            } else {
                0
            };
            let kind = if is_crit {
                EffectType::Crit
            } else {
                EffectType::Damage
            };
            seq![
                numeric_effect(
                    kind,
                    target,
                    damage,
                    hurt_info.config_effect,
                    None,
                    Some(completed_hurt(hurt_info, damage, from, skill_id, kind)),
                ),
            ]
        },
        Event::Heal { target, amount, .. } => seq![
            EffectView::amount(EffectType::Heal, target, amount),
        ],
        Event::HealCrit { target, amount, .. } => seq![
            EffectView::amount(EffectType::HealCrit, target, amount),
        ],
        Event::BuffApply { target, buff_id, count, layer, from, config_effect, .. } => seq![
            EffectView {
                buff: Some(
                    BuffInfoView::full(
                        buff_id,
                        0,
                        uids[0],
                        from,
                        count,
                        shared_params(tables.shared@, buff_id),
                        layer,
                        BuffLayerType::Normal,
                    ),
                ),
                config_effect,
                ..EffectView::amount(EffectType::BuffAdd, target, buff_id)
            },
        ],
        Event::BuffUpdate { target, buff_uid, new_count, new_layer, buff_id, from_uid } => seq![
            update_effect(
                tables.shared@,
                target,
                from_uid,
                buff_id,
                buff_uid,
                new_count,
                new_layer,
            ),
        ],
        Event::BuffSyncAddWithUidAndEmitUpdate {
            target,
            buff_id,
            from,
            buff_uid,
            emit_count,
            emit_layer,
            ..
        } => seq![
            update_effect(
                tables.shared@,
                target,
                from,
                buff_id,
                buff_uid,
                emit_count,
                emit_layer,
            ),
        ],
        Event::BuffRemove { target, buff_uid, buff_id, from_uid } => seq![
            EffectView {
                buff: Some(
                    BuffInfoView {
                        buff_id: Some(buff_id),
                        duration: None,
                        uid: Some(buff_uid),
                        ex_info: None,
                        from_uid: Some(from_uid),
                        count: None,
                        act_common_params: None,
                        layer: Some(row_delete_layer(tables.buff_rows@, buff_id)),
                        layer_type: None,
                        act_info: Seq::empty(),
                    },
                ),
                ..EffectView::on(EffectType::BuffDel, target)
            },
        ],
        Event::BloodpoolValueChange { team_type, target, delta } => seq![
            EffectView {
                effect_num1: Some(delta),
                ..EffectView::amount(EffectType::BloodPoolValueChange, target, team_type)
            },
        ],
        Event::BloodpoolMaxChange { team_type, max } => seq![
            EffectView {
                effect_num1: Some(max),
                ..EffectView::amount(EffectType::BloodPoolMaxChange, 0, team_type)
            },
        ],
        Event::SerializedActEffect { effect } => seq![effect@],
        Event::ExPointChange { target, delta, emit_step } => if emit_step {
            seq![EffectView::amount(EffectType::ExPointChange, target, delta)]
        } else {
            Seq::empty()
        },
        Event::PowerChange { delta } => seq![
            EffectView {
                effect_num: Some(delta),
                ..EffectView::kind_only(EffectType::PowerChange)
            },
        ],
        Event::SkillEmit { skill_id, from, to, children, .. } => seq![
            EffectView::wrapper(
                skill_step(from, to, skill_id, 0, all_event_effects(children@, uids, tables)),
            ),
        ],
        _ => Seq::empty(),
    }
}

/// The effects that report some events, one after the other.
pub open spec fn all_event_effects(
    s: Seq<Event>,
    uids: Seq<i64>,
    tables: EventTables,
) -> Seq<EffectView>
    decreases s, s.len() + 1,
{
    effects_upto(s, s.len(), uids, tables)
}

/// The effects that report the first events of a list.
pub open spec fn effects_upto(
    s: Seq<Event>,
    n: nat,
    uids: Seq<i64>,
    tables: EventTables,
) -> Seq<EffectView>
    decreases s, n,
{
    if n == 0 || n > s.len() {
        Seq::empty()
    } else {
        effects_upto(s, (n - 1) as nat, uids, tables) + event_effects(
            s[n - 1],
            uids.skip(applies_upto(s, (n - 1) as nat) as int),
            tables,
        )
    }
}

/// The first events of a list apply no more buffs than the whole list.
pub proof fn applies_upto_grows(s: Seq<Event>, n: nat, m: nat)
    requires
        n <= m <= s.len(),
    ensures
        applies_upto(s, n) <= applies_upto(s, m),
    decreases m,
{
    if n < m {
        applies_upto_grows(s, n, (m - 1) as nat);
    }
}

/// Reports an event; see [`event_effects`].
pub fn event_to_act_effects(
    e: &Event,
    uids: &Vec<i64>,
    at: usize,
    tables: &EventTables,
) -> (r: Vec<ActEffect>)
    requires
        at + applies(*e) <= uids@.len(),
    ensures
        effects_view(r@) == event_effects(*e, uids@.skip(at as int), *tables),
    decreases e,
{
    let mut out: Vec<ActEffect> = Vec::new();
    match e {
        Event::Dead { entity_uid } => {
            out.push(ActEffectBuilder::dead(*entity_uid));
        },
        Event::RemoveEntityCards { entity_uid } => {
            out.push(ActEffectBuilder::remove_entity_cards(*entity_uid, Some(1)));
        },
        Event::Damage { target, amount, is_crit, hurt_info, from, skill_id } => {
            let damage: i32 = if *amount > 0 {
                *amount
            } else {
                0
            };
            let mut hurt: FightHurtInfo = *hurt_info;
            if hurt.from_uid.is_none() {
                hurt.from_uid = Some(*from);
            }
            if hurt.skill_id.is_none() {
                hurt.skill_id = *skill_id;
            }
            if hurt.damage.is_none() {
                hurt.damage = Some(damage);
            }
            if hurt.hurt_effect.is_none() {
                hurt.hurt_effect = Some(
                    if *is_crit {
                        EffectType::Crit
                    } else {
                        EffectType::Damage
                    },
                );
            }
            if *is_crit {
                out.push(
                    ActEffectBuilder::crit_with_hurt(*target, damage, hurt.config_effect, hurt),
                );
            } else {
                out.push(
                    ActEffectBuilder::damage_with_hurt(*target, damage, hurt.config_effect, hurt),
                );
            }
        },
        Event::Heal { target, amount, .. } => {
            out.push(ActEffectBuilder::heal(*target, *amount, None));
        },
        Event::HealCrit { target, amount, .. } => {
            out.push(ActEffectBuilder::heal_crit(*target, *amount));
        },
        Event::BuffApply { target, buff_id, count, layer, from, config_effect, .. } => {
            let params = find_shared_params(&tables.shared, *buff_id);
            out.push(
                ActEffectBuilder::buff_add_with_snapshot(
                    *target,
                    *from,
                    *buff_id,
                    uids[at],
                    0,
                    *count,
                    params,
                    *layer,
                    BuffLayerType::Normal,
                    *config_effect,
                ),
            );
        },
        Event::BuffUpdate { target, buff_uid, new_count, new_layer, buff_id, from_uid } => {
            let params = find_shared_params(&tables.shared, *buff_id);
            out.push(
                ActEffectBuilder::buff_update(
                    *target,
                    *from_uid,
                    *buff_id,
                    *buff_uid,
                    *new_count,
                    params,
                    *new_layer,
                ),
            );
        },
        Event::BuffSyncAddWithUidAndEmitUpdate {
            target,
            buff_id,
            from,
            buff_uid,
            emit_count,
            emit_layer,
            ..
        } => {
            let params = find_shared_params(&tables.shared, *buff_id);
            out.push(
                ActEffectBuilder::buff_update(
                    *target,
                    *from,
                    *buff_id,
                    *buff_uid,
                    *emit_count,
                    params,
                    *emit_layer,
                ),
            );
        },
        Event::BuffRemove { target, buff_uid, buff_id, from_uid } => {
            out.push(
                ActEffectBuilder::buff_del(
                    &tables.buff_rows,
                    *target,
                    *buff_uid,
                    *buff_id,
                    *from_uid,
                ),
            );
        },
        Event::BloodpoolValueChange { team_type, target, delta } => {
            out.push(ActEffectBuilder::bloodpool_value_change(*target, *team_type, *delta));
        },
        Event::BloodpoolMaxChange { team_type, max } => {
            out.push(ActEffectBuilder::bloodpool_max_change(*team_type, *max));
        },
        Event::SerializedActEffect { effect } => {
            out.push(copy_effect(effect));
        },
        Event::ExPointChange { target, delta, emit_step } => {
            if *emit_step {
                out.push(ActEffectBuilder::ex_point_change(*target, *delta));
            }
        },
        Event::PowerChange { delta } => {
            out.push(ActEffectBuilder::power_change(None, *delta, None));
        },
        Event::SkillEmit { skill_id, from, to, children, .. } => {
            let inner = events_to_act_effects(children, uids, at, tables);
            out.push(wrap_step(make_skill_step(*from, *to, *skill_id, 0, inner)));
        },
        _ => {},
    }
    assert(effects_view(out@) =~= event_effects(*e, uids@.skip(at as int), *tables));
    out
}

/// Reports some events. `uids`, from position `at` on, are the unique ids for the
/// buffs that they apply.
pub fn events_to_act_effects(
    events: &Vec<Event>,
    uids: &Vec<i64>,
    at: usize,
    tables: &EventTables,
) -> (r: Vec<ActEffect>)
    requires
        at + applies_all(events@) <= uids@.len(),
    ensures
        effects_view(r@) == all_event_effects(events@, uids@.skip(at as int), *tables),
    decreases events,
{
    let mut out: Vec<ActEffect> = Vec::new();
    let ghost rest = uids@.skip(at as int);
    let mut next: usize = at;
    let total = uids.len();
    for i in 0..events.len()
        invariant
            total == uids@.len(),
            rest == uids@.skip(at as int),
            at <= next,
            next - at == applies_upto(events@, i as nat),
            at + applies_upto(events@, events@.len()) <= uids@.len(),
            effects_view(out@) == effects_upto(events@, i as nat, rest, *tables),
    {
        proof {
            applies_upto_grows(events@, (i + 1) as nat, events@.len());
        }
        assert(decreases_to!(events => events@[i as int]));
        assert(uids@.skip(next as int) =~= rest.skip(
            applies_upto(events@, i as nat) as int,
        ));
        let mut part = event_to_act_effects(&events[i], uids, next, tables);
        out.append(&mut part);
        next = next + count_applies(&events[i]);
    }
    out
}

/// Counts the new buffs that an event applies.
pub fn count_applies(e: &Event) -> (r: usize)
    requires
        applies(*e) <= usize::MAX,
    ensures
        r == applies(*e),
    decreases e,
{
    match e {
        Event::BuffApply { .. } => 1,
        Event::SkillEmit { children, .. } => {
            let mut n: usize = 0;
            for i in 0..children.len()
                invariant
                    applies_upto(children@, children@.len()) <= usize::MAX,
                    n == applies_upto(children@, i as nat),
                    decreases_to!(e => children),
            {
                proof {
                    applies_upto_grows(children@, (i + 1) as nat, children@.len());
                }
                assert(decreases_to!(children => children@[i as int]));
                n = n + count_applies(&children[i]);
            }
            n
        },
        _ => 0,
    }
}

/// One step for each effect.
pub open spec fn single_steps(s: Seq<EffectView>) -> Seq<StepView> {
    Seq::new(s.len(), |i: int| StepView::container(0, 0, 0, seq![s[i]]))
}

/// Reports some events, one step for each effect.
pub fn events_to_steps(
    events: &Vec<Event>,
    uids: &Vec<i64>,
    tables: &EventTables,
) -> (r: Vec<FightStep>)
    requires
        applies_all(events@) <= uids@.len(),
    ensures
        steps_view(r@) == single_steps(all_event_effects(events@, uids@, *tables)),
{
    assert(uids@.skip(0) =~= uids@);
    let effects = events_to_act_effects(events, uids, 0, tables);
    let ghost s = effects_view(effects@);
    let mut out: Vec<FightStep> = Vec::new();
    for i in 0..effects.len()
        invariant
            s == effects_view(effects@),
            out@.len() == i,
            forall|k: int|
                0 <= k < i ==> (#[trigger] out@[k])@ == StepView::container(0, 0, 0, seq![s[k]]),
    {
        let step = FightStepBuilder::effect().with(effects[i].clone()).build();
        assert(step@.act_effect =~= seq![s[i as int]]);
        out.push(step);
    }
    assert(steps_view(out@) =~= single_steps(s));
    out
}

} // verus!
