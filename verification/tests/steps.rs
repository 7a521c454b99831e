use battle::config::{SharedParamsRow, SkillBuffRow};
use battle::event::{
    count_applies, event_to_act_effects, events_to_act_effects, events_to_steps, Event,
    EventTables, SkillEmitKind,
};
use battle::fight_step::builder::{
    effect_container_step, wrap_step, ActEffectBuilder, BuffStamp, FightStepBuilder,
};
use battle::fight_step::select::{has_kind, keep_wrappers, splice_effects};
use battle::fight_step::steps::{
    make_skill_step, split_step_by_effect_limit, STEP_EFFECT_COUNT_LIMIT,
};
use battle::model::{ActEffect, ActType, EffectType, FightHurtInfo};

fn tables() -> EventTables {
    EventTables {
        shared: vec![SharedParamsRow { buff_id: 5, params: "770#1".to_string() }],
        buff_rows: vec![SkillBuffRow {
            id: 5,
            type_id: 1,
            during_time: 3,
            effect_count: 2,
            features: "1#2".to_string(),
        }],
    }
}

fn apply(target: i64) -> Event {
    Event::BuffApply {
        target,
        buff_id: 5,
        count: 1,
        layer: 2,
        from: 7,
        from_skill_id: 0,
        config_effect: Some(3),
    }
}

#[test]
fn a_long_step_is_cut_and_nothing_is_lost() {
    assert_eq!(STEP_EFFECT_COUNT_LIMIT, 50);
    let effects: Vec<ActEffect> =
        (0..120).map(|i| ActEffectBuilder::effect_none(i as i64)).collect();
    let step = make_skill_step(7, -1, 30, 4, effects);
    assert_eq!(step.card_index, Some(5));
    let parts = split_step_by_effect_limit(step);
    assert_eq!(parts.iter().map(|p| p.act_effect.len()).collect::<Vec<_>>(), vec![50, 50, 20]);
    let ids: Vec<i64> =
        parts.iter().flat_map(|p| p.act_effect.iter()).map(|e| e.target_id.unwrap()).collect();
    assert_eq!(ids, (0..120).collect::<Vec<i64>>());
    assert!(parts.iter().all(|p| p.act_id == Some(30) && p.act_type == Some(ActType::Skill)));
    let short = make_skill_step(7, -1, 30, 0, vec![]);
    assert_eq!(split_step_by_effect_limit(short).len(), 1);
}

#[test]
fn events_become_effects() {
    let t = tables();
    let uids = vec![100, 101, 102];
    let nested = Event::SkillEmit {
        skill_id: 30,
        from: 7,
        to: -1,
        children: vec![apply(1), Event::Dead { entity_uid: -1 }, apply(2)],
        kind: SkillEmitKind::EventTriggered,
    };
    assert_eq!(count_applies(&nested), 2);
    let out = events_to_act_effects(&vec![nested, apply(3)], &uids, 0, &t);
    assert_eq!(out.len(), 2);
    let step = out[0].fight_step.as_ref().unwrap();
    assert_eq!(step.act_effect.len(), 3);
    assert_eq!(step.act_effect[0].buff.as_ref().unwrap().uid, Some(100));
    assert_eq!(step.act_effect[2].buff.as_ref().unwrap().uid, Some(101));
    assert_eq!(out[1].buff.as_ref().unwrap().uid, Some(102));
    assert_eq!(
        out[1].buff.as_ref().unwrap().act_common_params,
        Some("770#1".to_string())
    );
}

#[test]
fn a_hit_without_details_is_completed() {
    let hit = Event::Damage {
        target: -1,
        amount: -4,
        is_crit: true,
        hurt_info: FightHurtInfo::blank(),
        from: 7,
        skill_id: Some(30),
    };
    let out = event_to_act_effects(&hit, &vec![], 0, &tables());
    assert_eq!(out[0].effect_type, Some(EffectType::Crit));
    let hurt = out[0].hurt_info.unwrap();
    assert_eq!((hurt.from_uid, hurt.skill_id, hurt.damage), (Some(7), Some(30), Some(0)));
    assert_eq!(hurt.hurt_effect, Some(EffectType::Crit));
}

#[test]
fn some_events_show_nothing() {
    let t = tables();
    let quiet = vec![
        Event::ExPointChange { target: 7, delta: 1, emit_step: false },
        Event::AddActionPoint { entity_uid: 7, delta: 1 },
        Event::EnterBattle { entity_uid: 7 },
    ];
    assert!(events_to_act_effects(&quiet, &vec![], 0, &t).is_empty());
    let loud = vec![
        Event::PowerChange { delta: 3 },
        Event::AddActionPoint { entity_uid: 7, delta: 1 },
        Event::BloodpoolMaxChange { team_type: 1, max: 9 },
    ];
    let steps = events_to_steps(&loud, &vec![], &t);
    assert_eq!(steps.len(), 2);
    assert_eq!(steps[0].act_effect[0].effect_num, Some(3));
    assert_eq!(steps[1].act_effect[0].effect_num1, Some(9));
}

#[test]
fn buffs_show_what_their_rows_say() {
    let t = tables();
    let stamp = BuffStamp { uid: 100, params: "p".to_string() };
    let add = ActEffectBuilder::buff_add(&t.buff_rows, stamp, -1, 7, 5, 2);
    let b = add.buff.as_ref().unwrap();
    assert_eq!((b.duration, b.uid, b.layer, b.count), (Some(3), Some(100), Some(2), Some(0)));
    let del = ActEffectBuilder::buff_del(&t.buff_rows, -1, 100, 5, 7);
    assert_eq!(del.buff.as_ref().unwrap().layer, Some(1));
    let unknown = ActEffectBuilder::buff_del(&t.buff_rows, -1, 100, 6, 7);
    assert_eq!(unknown.buff.as_ref().unwrap().layer, Some(0));
}

#[test]
fn containers_wrappers_and_splices() {
    let inner = effect_container_step(7, 7, 30, vec![ActEffectBuilder::effect_none(1)]);
    let wrapped = wrap_step(inner);
    assert_eq!(wrapped.effect_type, Some(EffectType::FightStep));
    assert!(has_kind(&wrapped, EffectType::FightStep));
    let mut list = vec![ActEffectBuilder::effect_none(2), wrapped];
    assert_eq!(keep_wrappers(&list).len(), 1);
    splice_effects(&mut list, 1, vec![ActEffectBuilder::bloodlust(3, 1)]);
    assert_eq!(list[1].effect_type, Some(EffectType::Bloodlust));
    assert_eq!(list.len(), 3);
    let built = FightStepBuilder::effect().with_many(list).build();
    assert_eq!(built.act_type, Some(ActType::Effect));
    assert_eq!(built.act_effect.len(), 3);
}
