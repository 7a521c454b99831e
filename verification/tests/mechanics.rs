use battle::buffs::{BuffInstance, BuffMgr};
use battle::config::{
    BehaviorConditionRow, BuffActRow, MagicCircleRow, SkillBuffRow, SkillEffectRow, SkillLinkRow,
    SlotRow,
};
use battle::effect::behavior::bloodtithe::{
    burn_params, burn_rate, find_first_hit_amount, find_loss_burn, loss_event, lost_life,
    plan_lost_life, plan_pool, show_loss, BurnParams, LossGains, LossPlan, LossReadings,
    LossRequest, PoolPlan,
};
use battle::effect::behavior::damage::DotRow;
use battle::effect::behavior::direct_skill::{
    choose_skill, derived_effects, plan_direct_skill, read_pool, BigSkillCast, BigSkillInputs,
    DirectSkillPlan,
};
use battle::effect::behavior::lost_life::{
    apply_lost_life, find_routed_hit, plan_lost_life_behaviour, LostLifePlan,
};
use battle::event::Event;
use battle::fight_step::builder::{
    effect_container_step, wrap_step, ActEffectBuilder, BuffStamp,
};
use battle::fight_step::steps::make_skill_step;
use battle::manager::entity_mgr::EntityMgr;
use battle::mechanics::channel::{
    consume_monitor_continue_layer, find_eligible_monitor_continue_holders,
    monitor_continue_splice_index, same_side, MonitorRow,
};
use battle::mechanics::channel_followup::{
    channel_step, channel_target, find_channel_seed, inject_monitor_continue_into_enemy_skill_step,
    monitor_reaction_step, plan_monitor_reaction, wants_bullets, ChannelEmission, ChannelRequest,
};
use battle::mechanics::channel_host::sort_lopera;
use battle::mechanics::dot_settle_round_start::{
    build_round_start_dot_settle_steps, find_circle_owner, iter_hostile_alive_uids,
    settle_carriers, settle_skill_ids, show_settled, SettleTables,
};
use battle::mechanics::injury_bonus::{
    apply_round_injury_skill_bonus, find_card_host_injury_marker_params,
    find_round_injury_holder_uid, find_round_injury_skill_rate_params,
    has_round_injury_counter_passive, PassiveTables,
};
use battle::mechanics::injury_counter::{
    collect_dead_effects_after_damage, count_team_injury_effects_in_effects,
    step_contains_team_damage, InjuryCounter,
};
use battle::mechanics::magic_circle::{
    active_circle_create_uid, add_magic_circle, is_magic_circle_self_skill,
    magic_circle_aura_state, nested_skill_paths, nested_step_ref_at_path,
    pick_enemy_buff_target_for_creator, plan_circle,
    plan_magic_circle, SelfBuffGift,
};
use battle::mechanics::shadowcloak::{CloakSettings, ShadowCloakState};
use battle::mechanics::Mechanics;
use battle::model::{
    ActEffect, EffectType, Fight, FightEntityInfo, FightTeam, HeroAttribute, MagicCircleInfo,
};
use std::collections::HashSet;

fn fighter(uid: i64, hp: i32, position: i32) -> FightEntityInfo {
    FightEntityInfo {
        uid: Some(uid),
        model_id: None,
        position: Some(position),
        current_hp: Some(hp),
        shield_value: None,
        team_type: Some(if uid > 0 { 1 } else { 2 }),
        ex_point: None,
        ex_point_type: None,
        ex_skill: None,
        attr: Some(HeroAttribute { hp: Some(1000), attack: Some(1000), defense: None }),
        base_attr: None,
        passive_skill: vec![],
        skill_group1: vec![],
        skill_group2: vec![],
        buffs: vec![],
        power_infos: vec![],
    }
}

fn battle_of(attackers: Vec<FightEntityInfo>, defenders: Vec<FightEntityInfo>) -> Fight {
    Fight {
        attacker: Some(FightTeam { entitys: attackers, sub_entitys: vec![], power: None }),
        defender: Some(FightTeam { entitys: defenders, sub_entitys: vec![], power: None }),
        cur_round: Some(1),
        max_round: None,
        is_finish: None,
        cur_wave: None,
        battle_id: Some(4),
        magic_circle: None,
        version: None,
        is_record: None,
        episode_id: None,
        fight_act_type: None,
        last_change_hero_uid: None,
        progress: None,
        progress_max: None,
        fight_task_box: None,
    }
}

fn buff(uid: i64, buff_id: i32, stacks: i32, layer: i32) -> BuffInstance {
    BuffInstance {
        uid,
        buff_id,
        type_id: 0,
        from_uid: 7,
        from_skill_id: 0,
        stacks,
        layer,
        duration: 1,
    }
}

fn kinds(effects: &[ActEffect]) -> Vec<EffectType> {
    effects.iter().map(|e| e.effect_type.unwrap()).collect()
}

fn hit(target: i64, amount: i32) -> ActEffect {
    ActEffectBuilder::origin_damage(target, amount, None)
}

fn circle_row(id: i32, enemy_skills: &str) -> MagicCircleRow {
    MagicCircleRow {
        id,
        round: 3,
        self_buff: "55".to_string(),
        enemy_buff: "0".to_string(),
        self_skills: "900| 901".to_string(),
        enemy_skills: enemy_skills.to_string(),
    }
}

fn laid_circle(id: i32, owner: i64, round: i32) -> Option<MagicCircleInfo> {
    Some(MagicCircleInfo {
        magic_circle_id: Some(id),
        round: Some(round),
        create_uid: Some(owner),
        electric_level: None,
        electric_progress: None,
        max_electric_progress: None,
    })
}

fn skill_row(id: i32, slots: Vec<(&str, &str)>) -> SkillEffectRow {
    SkillEffectRow {
        id,
        logic_target: String::new(),
        need_ex_point: 0,
        slots: slots
            .into_iter()
            .map(|(condition, behavior)| SlotRow {
                condition: condition.to_string(),
                condition_target: String::new(),
                behavior: behavior.to_string(),
                behavior_target: String::new(),
                limit: 0,
                round_limit: 0,
            })
            .collect(),
    }
}

#[test]
fn injuries_are_counted_by_battle_team_and_round() {
    let f = battle_of(vec![fighter(7, 50, 1), fighter(8, 50, 2)], vec![fighter(-1, 50, 1)]);
    let inner = effect_container_step(0, 0, 0, vec![hit(8, 5), hit(-1, 5)]);
    let effects = vec![
        hit(7, 5),
        ActEffectBuilder::current_hp_change(7, 45),
        ActEffectBuilder::current_hp_change(8, 45),
        wrap_step(inner),
    ];
    // the change of life of 7 is part of its hit; that of 8 is not
    assert_eq!(count_team_injury_effects_in_effects(&f, &effects, 1), 3);
    assert_eq!(count_team_injury_effects_in_effects(&f, &effects, 2), 1);
    assert!(step_contains_team_damage(&f, &effects, 2));

    let mut counter = InjuryCounter::new();
    counter.track_team_injury_count(&f, &effect_container_step(0, 0, 0, effects));
    assert_eq!((counter.get_round_injury_count(4, 1), counter.get_round_injury_count(4, 2)), (3, 1));
    assert_eq!(counter.get_round_injury_count(5, 1), 0);
    counter.increment_round_injury_count(4, 1);
    counter.increment_round_injury_count(0, 1);
    counter.sync_round_injury_index(4, 1, 2);
    assert_eq!(counter.get_round_injury_count(4, 1), 0);
    assert_eq!(counter.get_round_injury_count(4, 2), 1);
    counter.increment_round_injury_count(4, 1);
    counter.sync_round_injury_index(4, 1, 2);
    assert_eq!(counter.get_round_injury_count(4, 1), 1);
}

#[test]
fn every_death_is_reported_once() {
    let mut shielded = fighter(-2, 50, 2);
    shielded.shield_value = Some(30);
    let f = battle_of(vec![], vec![fighter(-1, 50, 1), shielded, fighter(-3, 0, 3)]);
    let effects =
        vec![hit(-1, 30), hit(-1, 30), hit(-1, 30), hit(-2, 79), hit(-3, 9), hit(0, 9), hit(-9, 9)];
    let deaths = collect_dead_effects_after_damage(&f, &effects);
    assert_eq!(deaths.len(), 2);
    assert_eq!((deaths[0].effect_type, deaths[0].target_id), (Some(EffectType::Dead), Some(-1)));
    let mut reported = effects;
    reported.insert(0, ActEffectBuilder::dead(-1));
    assert!(collect_dead_effects_after_damage(&f, &reported).is_empty());
}

#[test]
fn passives_turn_injuries_into_rates() {
    let tables = PassiveTables {
        links: vec![SkillLinkRow { skill_id: 60, effect_id: 61 }],
        skills: vec![skill_row(61, vec![
            ("1#5", "10001#40"),
            ("3#12&2# 900 ", " 10001# 35 "),
        ])],
        conditions: vec![
            BehaviorConditionRow { id: 2, cond_type: "UseSkillId".to_string() },
            BehaviorConditionRow { id: 3, cond_type: "TeamInjuryCountRound".to_string() },
        ],
    };
    let mut holder = fighter(7, 50, 1);
    holder.passive_skill = vec![0, 60];
    let f = battle_of(vec![fighter(8, 50, 2), holder], vec![fighter(-1, 1000, 1)]);
    assert_eq!(find_round_injury_skill_rate_params(&f, 7, 900, &tables), Some((12, 35)));
    assert_eq!(find_round_injury_skill_rate_params(&f, 7, 901, &tables), None);
    assert_eq!(find_round_injury_skill_rate_params(&f, 8, 900, &tables), None);
    assert!(has_round_injury_counter_passive(&f, 7, &tables));
    assert!(!has_round_injury_counter_passive(&f, 8, &tables));
    assert_eq!(find_round_injury_holder_uid(&f, 1, &tables), Some(7));
    assert_eq!(find_round_injury_holder_uid(&f, 2, &tables), None);
    let mut counter = InjuryCounter::new();
    assert_eq!(find_card_host_injury_marker_params(&counter, &f, 8, &tables), None);
    counter.increment_round_injury_count(4, 1);
    assert_eq!(find_card_host_injury_marker_params(&counter, &f, 8, &tables), Some((7, 1)));

    // four stacks of fifty, in eight-hundredths: a quarter more
    let skill = wrap_step(make_skill_step(7, -1, 900, 0, vec![hit(-1, 100)]));
    let mut effects = vec![skill];
    apply_round_injury_skill_bonus(&f, &mut effects, 7, 900, 0, 4, 50);
    let inner = &effects[0].fight_step.as_ref().unwrap().act_effect;
    assert_eq!(kinds(inner), vec![
        EffectType::FightCounter,
        EffectType::OriginDamage,
        EffectType::AdditionalDamageCrit,
    ]);
    assert_eq!((inner[0].effect_num, inner[1].effect_num, inner[2].effect_num),
        (Some(4), Some(125), Some(25)));
}

#[test]
fn a_circle_brings_buffs_and_skills() {
    let rows = vec![circle_row(20, "700,701;x|0|702|700")];
    assert_eq!(plan_magic_circle(50019, "50019#20"), Some(20));
    assert_eq!(plan_magic_circle(60163, "60163#20"), Some(20));
    assert_eq!(plan_magic_circle(50020, "50020#20"), None);
    let plan = plan_circle(&rows, 20);
    assert_eq!((plan.self_buff, plan.enemy_buff, plan.round), (Some(55), None, 3));
    let shown = add_magic_circle(
        &rows,
        20,
        7,
        SelfBuffGift::Spread { effects: vec![ActEffectBuilder::effect_none(7)] },
        &vec![],
        vec![ActEffectBuilder::effect_none(-1)],
    );
    assert_eq!(kinds(&shown), vec![EffectType::NoEffect, EffectType::MagicCircleAdd]);
    assert_eq!(shown[1].magic_circle.unwrap().create_uid, Some(7));
    assert!(is_magic_circle_self_skill(&rows, 901) && !is_magic_circle_self_skill(&rows, 902));

    assert_eq!(pick_enemy_buff_target_for_creator(7, Some(7), Some(-1)), Some(-1));
    assert_eq!(pick_enemy_buff_target_for_creator(8, Some(7), Some(-1)), None);
    assert_eq!(pick_enemy_buff_target_for_creator(7, None, Some(-1)), None);

    let mut f = battle_of(vec![fighter(7, 50, 1)], vec![fighter(-1, 50, 1)]);
    assert_eq!(active_circle_create_uid(&f), None);
    f.magic_circle = laid_circle(20, 7, 2);
    assert_eq!(active_circle_create_uid(&f), Some(7));

    let inner = make_skill_step(7, -1, 31, 0, vec![hit(-1, 1)]);
    let host = effect_container_step(7, -1, 30, vec![hit(-1, 1), wrap_step(inner)]);
    let paths = nested_skill_paths(&host.act_effect);
    assert_eq!(paths, vec![vec![1]]);
    assert_eq!(nested_step_ref_at_path(&host, &paths[0]).unwrap().act_id, Some(31));
    assert!(nested_step_ref_at_path(&host, &vec![0]).is_none());
    assert!(magic_circle_aura_state(&f, &rows, &host, 7, false, -1).is_none());
}

#[test]
fn a_circle_settles_poison_before_anyone_acts() {
    let rows = vec![circle_row(20, "700,701;x|0|702|700")];
    let tables = SettleTables {
        skills: vec![
            skill_row(700, vec![("101", "1#5"), ("101", " 60073 #1")]),
            skill_row(701, vec![("101", "60073#1")]),
            skill_row(702, vec![("101", "60074#1")]),
        ],
        links: vec![],
        round_start_only: vec![700, 702],
    };
    let mut f = battle_of(
        vec![fighter(7, 50, 1)],
        vec![fighter(-1, 500, 1), fighter(-2, 0, 2), fighter(-3, 100, 3)],
    );
    assert!(settle_skill_ids(&f, &tables, &rows).is_empty());
    f.magic_circle = laid_circle(20, 7, 2);
    assert_eq!(settle_skill_ids(&f, &tables, &rows), vec![700]);
    assert_eq!(find_circle_owner(&f), 7);
    let carriers = iter_hostile_alive_uids(&f, 7);
    assert_eq!(carriers, vec![-1, -3]);
    assert_eq!(iter_hostile_alive_uids(&f, -9), vec![7]);
    assert_eq!(settle_carriers(&f, &tables, &rows), vec![-1, -3]);
    let steps = show_settled(&f, &carriers, &vec![0, 100], &vec![700]);
    assert_eq!(steps.len(), 1);
    let inner = steps[0].act_effect[0].fight_step.as_ref().unwrap();
    assert_eq!((inner.act_id, inner.from_id, inner.to_id), (Some(700), Some(-3), Some(-3)));
    assert_eq!(kinds(&inner.act_effect), vec![EffectType::OriginCrit, EffectType::Dead]);
    assert!(show_settled(&f, &carriers, &vec![0, 0], &vec![700]).is_empty());

    let dots = vec![DotRow { buff_id: 40, permille: 200 }];
    let mut buffs = BuffMgr::new();
    buffs.set(-3, vec![buff(1, 40, 7, 2)]);
    let fixed = vec![vec![], vec![20]];
    let steps = build_round_start_dot_settle_steps(&f, &buffs, &dots, &tables, &rows, &fixed);
    let inner = steps[0].act_effect[0].fight_step.as_ref().unwrap();
    // 20 * 1390 / 1000 = 27, two stacks
    assert_eq!(inner.act_effect[0].effect_num, Some(54));
    assert_eq!(kinds(&inner.act_effect), vec![EffectType::OriginCrit]);
    let fixed = vec![vec![], vec![40]];
    let steps = build_round_start_dot_settle_steps(&f, &buffs, &dots, &tables, &rows, &fixed);
    let inner = steps[0].act_effect[0].fight_step.as_ref().unwrap();
    assert_eq!(kinds(&inner.act_effect), vec![EffectType::OriginCrit, EffectType::Dead]);
    let fixed = vec![vec![], vec![0]];
    let steps = build_round_start_dot_settle_steps(&f, &buffs, &dots, &tables, &rows, &fixed);
    assert!(steps.is_empty());
    f.magic_circle = laid_circle(20, 7, 0);
    assert!(settle_skill_ids(&f, &tables, &rows).is_empty());
    assert!(settle_carriers(&f, &tables, &rows).is_empty());
    let steps = build_round_start_dot_settle_steps(&f, &buffs, &dots, &tables, &rows, &vec![]);
    assert!(steps.is_empty());
}

#[test]
fn a_cloak_is_shown_once_for_each_gain() {
    let f = battle_of(vec![fighter(7, 50, 1)], vec![]);
    let mgr = EntityMgr::new(&f, &vec![]);
    let buffs = BuffMgr::new();
    let settings = CloakSettings { accumulator_buff_id: 5, max_capacity: 900 };
    let mut mechanics = Mechanics::new();
    assert!(mechanics.on_post_raspberry(settings, &f, &buffs, &mgr).is_none());
    let cloak = ShadowCloakState { rubuska_uid: 7, ..ShadowCloakState::default() };
    mechanics.init(&f, cloak, &vec![], &vec![], &vec![]);
    assert!(mechanics.on_post_raspberry(settings, &f, &buffs, &mgr).is_none());
    assert_eq!(mechanics.shadow_cloak.add(8, 40), 0);
    assert_eq!(mechanics.shadow_cloak.add(7, -1), 0);
    assert_eq!(mechanics.shadow_cloak.add(7, 40), 40);
    let step = mechanics.on_post_raspberry(settings, &f, &buffs, &mgr).unwrap();
    assert_eq!(kinds(&step.act_effect), vec![
        EffectType::CurrentHpChange,
        EffectType::BuffActInfoUpdate,
        EffectType::MaxHpChange,
    ]);
    assert_eq!(step.act_effect[2].effect_num, Some(1040));
    assert_eq!(step.act_effect[1].buff_act_info.as_ref().unwrap().param, vec![40, 900]);
    assert!(mechanics.on_post_raspberry(settings, &f, &buffs, &mgr).is_none());
    assert_eq!(mechanics.shadow_cloak.total_shared, 40);
}

fn monitor_rows() -> Vec<MonitorRow> {
    vec![MonitorRow {
        buff_id: 60,
        prerequisite_buff_id: 61,
        enemy_reaction_id: 70,
        counter_buff_id: 62,
        own_reaction_id: 71,
    }]
}

#[test]
fn monitors_answer_while_they_have_layers() {
    let f = battle_of(vec![fighter(8, 0, 1), fighter(7, 50, 2)], vec![fighter(-1, 50, 1)]);
    let mut buffs = BuffMgr::new();
    buffs.set(8, vec![buff(1, 60, 1, 1), buff(2, 61, 1, 1), buff(3, 62, 1, 1)]);
    buffs.set(7, vec![buff(4, 60, 1, 1), buff(5, 61, 1, 1)]);
    let rows = monitor_rows();
    assert!(find_eligible_monitor_continue_holders(&f, &buffs, &rows).is_empty());
    buffs.set(7, vec![buff(4, 60, 1, 1), buff(5, 61, 1, 1), buff(6, 62, 0, 2)]);
    let holders = find_eligible_monitor_continue_holders(&f, &buffs, &rows);
    assert_eq!(holders.len(), 1);
    assert_eq!((holders[0].holder_uid, holders[0].reactive_skill_id), (7, 70));
    // an ally answers once, however many of its buffs would let it
    let mut twice = buffs.get(7);
    twice.push(buff(9, 60, 1, 1));
    buffs.set(7, twice);
    assert_eq!(find_eligible_monitor_continue_holders(&f, &buffs, &rows).len(), 1);
    let spent = consume_monitor_continue_layer(&buffs, 7, 62).unwrap();
    assert_eq!((spent.uid, spent.layer), (6, 1));
    assert!(consume_monitor_continue_layer(&buffs, 7, 99).is_none());

    let enemy = make_skill_step(-1, 7, 500, 0, vec![hit(7, 3)]);
    let answered: HashSet<i32> = [500].into_iter().collect();
    let holder = plan_monitor_reaction(&f, &buffs, &rows, &enemy, &answered).unwrap();
    assert!(plan_monitor_reaction(&f, &buffs, &rows, &enemy, &HashSet::new()).is_none());
    assert!(monitor_reaction_step(holder, -1, vec![]).is_none());
    let answer = monitor_reaction_step(holder, -1, vec![hit(-1, 9)]).unwrap();
    assert_eq!(answer.act_id, Some(60));
    let mut step = enemy;
    let at = monitor_continue_splice_index(&step.act_effect);
    inject_monitor_continue_into_enemy_skill_step(
        &mut step,
        answer,
        vec![ActEffectBuilder::effect_none(1)],
        1,
    );
    assert_eq!(step.act_effect.len(), 2);
    assert_eq!(step.act_effect[at].fight_step.as_ref().unwrap().act_effect.len(), 2);
    assert!(same_side(7, 8) && !same_side(7, -1));
}

#[test]
fn a_channel_asks_for_each_skill_once() {
    let root = make_skill_step(7, -1, 30, 0, vec![]);
    let held = vec![buff(4, 60, 1, 1), buff(5, 61, 1, 1), buff(6, 62, 3, 2), buff(7, 60, 1, 1)];
    let mut emission = ChannelEmission::begin(&root, 0, held.clone()).unwrap();
    assert_eq!((emission.caster_uid, emission.target_uid), (7, -1));
    let rows = monitor_rows();
    let asked = emission.advance(&root, &rows, &held, &vec![]);
    assert_eq!(asked, Some(ChannelRequest { emit_effect_id: 62, emit_skill_id: 71 }));
    assert_eq!(emission.out.len(), 1);
    assert!(emission.take_result(Some(vec![wrap_step(make_skill_step(7, -1, 71, 0, vec![]))])));
    assert_eq!(emission.out.len(), 2);
    assert_eq!(emission.advance(&root, &rows, &held, &vec![]), None);
    let enemy_root = make_skill_step(-1, 7, 30, 0, vec![]);
    assert!(ChannelEmission::begin(&enemy_root, 0, vec![]).is_none());
    let own = make_skill_step(7, 8, 30, 0, vec![]);
    assert!(ChannelEmission::begin(&own, 0, vec![]).is_none());
    assert_eq!(ChannelEmission::begin(&own, -4, vec![]).unwrap().target_uid, -4);
}

#[test]
fn a_consuming_channel_plays_in_the_first_round() {
    let mut f = battle_of(vec![fighter(7, 50, 1)], vec![fighter(-1, 50, 1)]);
    let mut buffs = BuffMgr::new();
    buffs.set(7, vec![buff(1, 59, 1, 1), buff(2, 31020114, 1, 1)]);
    let rows = vec![SkillBuffRow {
        id: 31020114,
        type_id: 0,
        during_time: 1,
        effect_count: 0,
        features: "4#1|5# 800 #0#201#810".to_string(),
    }];
    let acts = vec![BuffActRow { id: 5, act_type: "ConsumeBuffContinueChannel".to_string() }];
    let seed = find_channel_seed(&f, &buffs, &rows, &acts).unwrap();
    assert_eq!((seed.caster_uid, seed.extra_skill_id), (7, 800));
    assert_eq!((seed.target_type, seed.emit_effect_id), (201, 810));
    assert!(wants_bullets(seed));
    assert_eq!(channel_target(&vec![], -1, 7), -1);
    assert_eq!(channel_target(&vec![-4], -1, 7), -4);
    assert_eq!(channel_target(&vec![], 0, 7), 7);
    assert!(channel_step(seed, vec![]).is_none());
    assert_eq!(channel_step(seed, vec![hit(-1, 1)]).unwrap().act_id, Some(31020114));
    f.cur_round = Some(2);
    assert!(find_channel_seed(&f, &buffs, &rows, &acts).is_none());

    let of = |id: i32| wrap_step(make_skill_step(7, -1, id, 0, vec![]));
    let sorted = sort_lopera(&vec![hit(1, 1), of(5), of(433711), of(31020151), of(6)]);
    let ids: Vec<Option<i32>> =
        sorted.iter().map(|e| e.fight_step.as_ref().and_then(|s| s.act_id)).collect();
    assert_eq!(ids, vec![Some(31020151), Some(433711), Some(5), Some(6), None]);
}

#[test]
fn life_is_lost_down_to_a_floor() {
    let f = battle_of(vec![fighter(7, 400, 1)], vec![]);
    let request = |mode: i32, permille: i32| LossRequest {
        caster_uid: 7,
        target: 7,
        mode,
        attr_id: 101,
        permille,
        behavior_id: 30005,
        skill_id: 900,
    };
    let readings = |floor_permille: i32, self_loss: Option<i32>| LossReadings {
        burn_damage: 0,
        self_loss,
        floor_permille,
    };
    let none = BuffMgr::new();
    let plan = |q: LossRequest, r: LossReadings| plan_lost_life(&f, q, r, None, &none);
    assert_eq!(plan(request(1, 500), readings(0, None)), LossPlan::Hit { amount: 200 });
    assert_eq!(plan(request(0, 500), readings(0, None)), LossPlan::Hit { amount: 50 });
    assert_eq!(plan(request(1, 900), readings(300, None)), LossPlan::Hit { amount: 100 });
    assert_eq!(plan(request(1, 900), readings(400, None)), LossPlan::Nothing);
    let basic = LossRequest { attr_id: 100, ..request(1, 500) };
    assert_eq!(plan(basic, readings(0, Some(33))), LossPlan::Hit { amount: 33 });

    let rows = vec![SkillBuffRow {
        id: 900,
        type_id: 0,
        during_time: 1,
        effect_count: 0,
        features: "x|4#1|5#250#102".to_string(),
    }];
    let acts = vec![BuffActRow { id: 5, act_type: "Burn".to_string() }];
    let burn = BurnParams { act_id: 5, rate: 250, attr_id: 102 };
    assert_eq!(burn_params(&rows, &acts, 900), Some(burn));
    assert_eq!(burn_params(&rows, &acts, 0), None);
    assert_eq!(find_loss_burn(request(1, 500), &rows, &acts), Some(burn));
    assert_eq!(find_loss_burn(request(0, 500), &rows, &acts), None);
    assert_eq!(burn_rate(burn, 9), 250);
    assert_eq!(burn_rate(BurnParams { rate: 0, ..burn }, 9), 9);
    let mut buffs = BuffMgr::new();
    buffs.set(7, vec![buff(44, 900, 1, 1)]);
    // a tenth of the attack of a thousand
    assert_eq!(
        plan_lost_life(&f, request(1, 100), readings(0, None), Some(burn), &buffs),
        LossPlan::Burn { amount: 100, act_id: 5, buff_uid: 44 }
    );
    assert_eq!(find_first_hit_amount(&vec![ActEffectBuilder::effect_none(1), hit(7, 66)]), 66);

    assert!(matches!(
        loss_event(request(1, 500), 200),
        Event::Damage { target: 7, amount: 200, is_crit: false, from: 7, skill_id: Some(900), .. }
    ));
    let gains = |ultimate_skill_id: i32, manual_gain: i32| LossGains {
        ultimate_skill_id,
        manual_gain,
        manual_effect: ActEffectBuilder::effect_none(3),
        pool: Some(ActEffectBuilder::effect_none(1)),
        faith: Some(ActEffectBuilder::effect_none(2)),
    };
    let shown = show_loss(
        &f,
        request(1, 100),
        LossPlan::Burn { amount: 100, act_id: 5, buff_uid: 44 },
        90,
        vec![],
        gains(901, 4),
    );
    assert_eq!(kinds(&shown), vec![
        EffectType::Burn,
        EffectType::OriginDamage,
        EffectType::NoEffect,
        EffectType::NoEffect,
    ]);
    assert_eq!((shown[1].effect_num, shown[2].target_id), (Some(90), Some(2)));

    // the ultimate's own gain comes alone, and only if there is one
    let by_ultimate = |gain: i32| {
        let plan = LossPlan::Hit { amount: 1 };
        show_loss(&f, request(1, 100), plan, 0, vec![], gains(900, gain))
    };
    assert_eq!((by_ultimate(4).len(), by_ultimate(4)[0].target_id), (1, Some(3)));
    assert_eq!(by_ultimate(0).len(), 2);
    // a target without a team fills no pool
    let stranger = LossRequest { target: 99, ..request(1, 100) };
    let plan = LossPlan::Hit { amount: 1 };
    assert!(show_loss(&f, stranger, plan, 0, vec![], gains(901, 4)).is_empty());

    let nothing = || LossGains { pool: None, ..gains(0, 0) };
    let lose = |q: LossRequest, r: LossReadings, drained: Vec<ActEffect>| {
        lost_life(&f, &buffs, &rows, &acts, q, r, 90, drained, nothing())
    };
    let burnt = lose(request(1, 100), readings(0, None), vec![]);
    assert_eq!(kinds(&burnt), vec![EffectType::Burn, EffectType::OriginDamage]);
    let hurt = burnt[1].hurt_info.as_ref().unwrap();
    assert_eq!((hurt.damage, hurt.buff_uid), (Some(90), Some(44)));
    let lost = lose(request(0, 500), readings(0, None), vec![hit(7, 50)]);
    assert_eq!((lost.len(), lost[0].effect_num), (1, Some(50)));
    assert!(lose(request(0, 500), readings(400, None), vec![hit(7, 50)]).is_empty());
    assert_eq!(plan_pool(60190, "60190#7", &vec![3]), PoolPlan::MaxChange { amount: 7 });
    assert_eq!(
        plan_pool(60191, "60191#7", &vec![3]),
        PoolPlan::ValueChange { target: 3, amount: 7 }
    );
    assert_eq!(plan_pool(60199, "60199#7", &vec![3]), PoolPlan::Nothing);
}

#[test]
fn lost_life_behaviours_name_their_share() {
    assert!(matches!(
        plan_lost_life_behaviour(30005, "30005#1#101#500"),
        LostLifePlan::Loss { mode: 1, attr_id: 101, permille: 500, .. }
    ));
    assert!(matches!(
        plan_lost_life_behaviour(60216, "60216#55#0#700"),
        LostLifePlan::RealLoss { buff_id: 55, rate: 700 }
    ));
}

#[test]
fn a_loss_is_settled_once() {
    let f = battle_of(vec![fighter(7, 400, 1)], vec![]);
    let mut mgr = EntityMgr::new(&f, &vec![]);
    let gain = ActEffectBuilder::ex_point_change(7, 2);
    let kind = EffectType::ExPointChange;
    let (_, lost) = apply_lost_life(vec![hit(7, 30), gain], None, 7, false, kind, &mut mgr);
    assert_eq!((lost, mgr.get_hp(7), mgr.get_ex_point(7)), (30, 370, 2));

    let recorded = ActEffectBuilder::damage_skill(7, 50, 0, None);
    let effects = vec![ActEffectBuilder::effect_none(7), recorded];
    let routed = find_routed_hit(&effects).unwrap();
    assert_eq!((routed.index, routed.amount, routed.target_id), (1, 50, 7));
    let shown = Some(ActEffectBuilder::damage_skill(7, 45, 0, None));
    let (out, lost) = apply_lost_life(effects, shown, 7, true, kind, &mut mgr);
    // the queue has taken the life of a routed hit already
    assert_eq!((lost, mgr.get_hp(7), out[1].effect_num), (50, 370, Some(45)));
}

#[test]
fn skills_that_play_skills() {
    assert_eq!(
        plan_direct_skill(50008, "50008#900", 7, &vec![-1]),
        DirectSkillPlan::UseSkill { target: -1, skill_id: 900 }
    );
    assert_eq!(
        plan_direct_skill(60175, "60175", 7, &vec![-1]),
        DirectSkillPlan::BigSkill { target: -1 }
    );
    assert_eq!(
        plan_direct_skill(50010, "50010#30630111#2", 7, &vec![-1]),
        DirectSkillPlan::GroupAndStar { target: -1, group: 30630111, rank: 2 }
    );
    let raw = "60225#530000751:100&530000752:100&530000753:100";
    assert_eq!(read_pool(raw), vec![530000751, 530000752, 530000753]);
    assert_eq!(
        plan_direct_skill(60225, raw, 7, &vec![-1]),
        DirectSkillPlan::UseSkill { target: -1, skill_id: 530000752 }
    );
    assert_eq!(choose_skill(&battle_of(vec![], vec![]), 7, 30630111, 2), 30630122);
    let mut caster = fighter(7, 50, 1);
    caster.skill_group1 = vec![11, 12];
    let mut f = battle_of(vec![caster], vec![fighter(-1, 50, 1)]);
    assert_eq!(choose_skill(&f, 7, 1, 2), 12);
    assert_eq!(choose_skill(&f, 7, 1, 0), 0);
    assert_eq!(choose_skill(&f, 7, 2, 1), 0);
    assert_eq!(derived_effects(7, -1, 12, vec![]).len(), 1);
    let mut mgr = EntityMgr::new(&f, &vec![]);
    let inputs = BigSkillInputs {
        skill_id: 900,
        wrapped_known: false,
        max_consume: None,
        seeded_cap: None,
    };
    let rows = vec![SkillEffectRow { need_ex_point: 5, ..skill_row(90, vec![]) }];
    let links = vec![SkillLinkRow { skill_id: 900, effect_id: 90 }];
    assert!(BigSkillCast::begin(&f, &mut mgr, &rows, &links, 7, inputs).is_none());

    // seven points at hand, five needed, and a precast buff that caps them at three
    f.attacker.as_mut().unwrap().entitys[0].ex_skill = Some(900);
    mgr.set_ex_point(7, 7);
    let free = BigSkillInputs { max_consume: Some(2), ..inputs };
    let other = BigSkillCast::begin(&f, &mut mgr, &vec![], &links, 7, free).unwrap();
    assert_eq!((other.need_ex, other.consume), (2, 2));
    let mut cast = BigSkillCast::begin(&f, &mut mgr, &rows, &links, 7, inputs).unwrap();
    assert_eq!((cast.consume, cast.refund, mgr.get_recent_decr_ex_point(7)), (5, 5, 5));
    let stamp = BuffStamp { uid: 1, params: String::new() };
    let own = ActEffectBuilder::buff_add(&vec![], stamp, 7, 7, 55, 3);
    cast.take_prep(vec![wrap_step(effect_container_step(7, 7, 54, vec![own]))]);
    cast.settle(&mut mgr);
    assert_eq!((cast.consume, cast.refund, mgr.get_recent_decr_ex_point(7)), (3, 3, 3));
    assert_eq!(BigSkillCast::ex_target(&f, -1, true, Some(-9)), -1);
    assert_eq!(BigSkillCast::ex_target(&f, 7, false, Some(-9)), -9);
    assert_eq!(BigSkillCast::ex_target(&f, 7, false, None), 7);
    // the ex skill is the skill at hand: its step is opened up, an empty one dropped
    let empty = wrap_step(make_skill_step(7, -1, 900, 0, vec![]));
    let full = wrap_step(make_skill_step(7, -1, 900, 0, vec![hit(-1, 5)]));
    let out = cast.finish(vec![empty, full], &mut mgr);
    assert_eq!(kinds(&out), vec![
        EffectType::FightStep,
        EffectType::ExPointChange,
        EffectType::DirectUseExSkill,
        EffectType::OriginDamage,
        EffectType::ExPointChange,
    ]);
    assert_eq!((out[1].effect_num, out[4].effect_num), (Some(-3), Some(3)));
    assert_eq!(mgr.get_recent_decr_ex_point(7), 0);
}
