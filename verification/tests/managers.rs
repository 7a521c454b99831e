use battle::config::{
    BattleRow, EpisodeRow, MagicCircleRow, MonsterSkillTemplateRow, SkillBuffRow,
};
use battle::effect::condition::{Hook, OtherHooks};
use battle::event::Event;
use battle::fight::{build_fight, BattleContext};
use battle::fight_step::builder::{effect_container_step, wrap_step, ActEffectBuilder};
use battle::manager::calculate_mgr::{
    build_player_skills, FightCalculateDataMgr, PlayCommand, PlayError, PlayReadings,
};
use battle::manager::cloth_mgr::{ClothError, ClothLevel, ClothMgr, ClothSkill};
use battle::manager::entity_mgr::{
    build_ex_point_info, seed_ex_point_required_from_fight, sync_from_fight, sync_to_fight,
    EntityMgr, FightExPointInfo,
};
use battle::manager::fight_data_mgr::{CardInfoPush, FightDataMgr};
use battle::manager::passive_mgr::EffectTables;
use battle::manager::play_order::{play_step_data, step_contains_positive_bloodpool_delta};
use battle::manager::replay::{
    reseed_bloodtithe_from_effect, reseed_shadow_cloak_from_round, round_leaves,
    seed_replay_bloodtithe_from_effect, seed_replay_buffs_from_effects, PoolReplay, RecordedBuff,
};
use battle::manager::traits::Manager;
use battle::manager::wave_mgr::{
    join_wave_steps, next_wave_due, WaveArrival, WaveError, WaveMgr,
};
use battle::mechanics::shadowcloak::ShadowCloakState;
use battle::model::{
    ActEffect, BuffActInfo, EffectType, Fight, FightActType, FightEntityInfo, FightTeam,
    HeroAttribute, MagicCircleInfo,
};

fn fighter(uid: i64, hp: i32, max_hp: i32, position: i32) -> FightEntityInfo {
    FightEntityInfo {
        uid: Some(uid),
        model_id: Some(500),
        position: Some(position),
        current_hp: Some(hp),
        shield_value: None,
        team_type: Some(if uid > 0 { 1 } else { 2 }),
        ex_point: Some(2),
        ex_point_type: None,
        ex_skill: None,
        attr: Some(HeroAttribute { hp: Some(max_hp), attack: Some(100), defense: None }),
        base_attr: None,
        passive_skill: vec![],
        skill_group1: vec![],
        skill_group2: vec![],
        buffs: vec![],
        power_infos: vec![],
    }
}

fn team(entitys: Vec<FightEntityInfo>, sub_entitys: Vec<FightEntityInfo>) -> FightTeam {
    FightTeam { entitys, sub_entitys, power: None }
}

fn context() -> BattleContext {
    BattleContext { player_id: 1, chapter_id: 2, episode_id: 3, battle_id: 4, max_ap: 5 }
}

fn fight() -> Fight {
    build_fight(
        &context(),
        team(vec![fighter(7, 80, 100, 1), fighter(8, 60, 100, 2)], vec![fighter(9, 50, 50, -1)]),
        team(vec![fighter(-1, 300, 300, 1)], vec![]),
        30,
    )
    .fight
}

fn dealt() -> CardInfoPush {
    CardInfoPush { card_group: vec![] }
}

fn templates() -> Vec<MonsterSkillTemplateRow> {
    vec![MonsterSkillTemplateRow { id: 500, unique_skill_point: 6, resistance: 0 }]
}

fn tables() -> EffectTables {
    EffectTables {
        rows: vec![],
        known: vec![],
        elsewhere: OtherHooks { teammate_dead: Hook::Dead, buff_added: Hook::BuffAdd },
    }
}

fn readings() -> PlayReadings {
    PlayReadings { pool_ready: false, pool_max: 0, overflow_bonus: 0, power_amount: 0 }
}

fn cloth() -> Option<ClothLevel> {
    Some(ClothLevel {
        initial: 30,
        max_power: 100,
        skill1: 30010201,
        skill2: 77,
        use_power1: vec![10, 25],
        use_power2: vec![],
        use_gain: 4,
        move_gain: 0,
        compose_gain: 6,
    })
}

#[test]
fn a_battle_starts_in_the_first_round_of_the_first_wave() {
    let f = fight();
    assert_eq!((f.cur_round, f.cur_wave, f.max_round), (Some(1), Some(1), Some(30)));
    assert_eq!(f.fight_act_type, Some(FightActType::Normal));
    assert!(f.fight_task_box.as_ref().unwrap().tasks.is_empty());
    assert_eq!(f.clone().fight_task_box.unwrap().tasks.len(), 0);
    assert_eq!((f.battle_id, f.episode_id, f.version), (Some(4), Some(3), Some(5)));
    assert!(f.magic_circle.is_none());
    assert_eq!(f.is_finish, Some(false));
}

#[test]
fn everyone_is_followed_and_twice_is_once() {
    let f = fight();
    let mut mgr = EntityMgr::new(&f, &templates());
    for _ in 0..2 {
        assert_eq!((mgr.get_hp(7), mgr.get_max_hp(7), mgr.get_ex_point(9)), (80, 100, 2));
        assert_eq!((mgr.get_ex_max(7), mgr.get_ex_point_required(7)), (5, 6));
        assert_eq!(mgr.get_location(8).unwrap().index, 1);
        assert!(mgr.get_location(9).is_none());
        mgr.init(&f, &templates());
    }
    assert_eq!(mgr.get_ac_point(&f, true), 2);
    assert!(mgr.alive_hero_uids().contains(&7) && !mgr.alive_hero_uids().contains(&-1));
    assert!(mgr.alive_enemy_uids().contains(&-1));
}

#[test]
fn life_and_points_stay_in_bounds() {
    let mut mgr = EntityMgr::new(&fight(), &templates());
    mgr.apply_damage(7, 500);
    assert_eq!(mgr.get_hp(7), 0);
    mgr.apply_heal(7, 500, 100);
    assert_eq!(mgr.get_hp(7), 100);
    mgr.add_ex_point(7, -9);
    assert_eq!(mgr.get_ex_point(7), 0);
    assert!(!mgr.consume_ex_point(7, 1));
    mgr.set_ex_point(7, 3);
    assert!(mgr.consume_ex_point(7, 3));
    assert_eq!(mgr.get_ex_point(7), 0);
    mgr.set_recent_decr_ex_point(7, 2);
    mgr.add_action_point(7, 4);
    mgr.on_round_end(&mut fight());
    assert_eq!((mgr.get_recent_decr_ex_point(7), mgr.action_points[&7]), (0, 1));
    mgr.on_battle_end();
    assert_eq!(mgr.get_hp(8), 0);
}

#[test]
fn a_reserve_takes_the_place_of_the_fallen() {
    let mut f = fight();
    let mut mgr = EntityMgr::new(&f, &templates());
    assert!(mgr.sub_hero(&mut f).is_none());
    f.attacker.as_mut().unwrap().entitys[1].current_hp = Some(0);
    let (gone, came, position) = mgr.sub_hero(&mut f).unwrap();
    assert_eq!((gone, came.uid, position), (8, Some(9), 2));
    let t = f.attacker.as_ref().unwrap();
    assert_eq!((t.entitys[1].uid, t.entitys[1].position), (Some(9), Some(2)));
    assert!(t.sub_entitys.is_empty());
}

#[test]
fn the_battle_and_its_numbers_agree_after_a_sync() {
    let mut f = fight();
    let mut mgr = EntityMgr::new(&f, &templates());
    mgr.apply_damage(7, 30);
    mgr.set_ex_point(7, 4);
    sync_to_fight(&mut f, &mgr);
    let e = &f.attacker.as_ref().unwrap().entitys[0];
    assert_eq!((e.current_hp, e.ex_point), (Some(50), Some(4)));
    let mut other = EntityMgr::default();
    sync_from_fight(&f, &mut other);
    assert_eq!((other.get_hp(7), other.get_ex_point(7)), (50, 4));
    seed_ex_point_required_from_fight(&f, &mut other, &templates());
    assert_eq!(other.get_ex_point_required(-1), 6);
    let infos = build_ex_point_info(&f, &mgr);
    assert_eq!(infos.len(), 4);
    assert_eq!((infos[0].uid, infos[0].current_hp, infos[0].ex_point), (Some(7), Some(50), Some(4)));
}

#[test]
fn ids_of_enemies_tell_their_wave() {
    assert_eq!(WaveMgr::expected_wave_for_uid(-1), Some(1));
    assert_eq!(WaveMgr::expected_wave_for_uid(-2), Some(1));
    assert_eq!(WaveMgr::expected_wave_for_uid(-3), Some(2));
    assert_eq!(WaveMgr::expected_wave_for_uid(-6), Some(3));
    assert_eq!(WaveMgr::expected_wave_for_uid(0), None);
    assert_eq!(WaveMgr::expected_wave_for_uid(5), None);
    let battles = vec![BattleRow { id: 40, monster_group_ids: "1#2#3".to_string() }];
    let episodes = vec![EpisodeRow { id: 3, battle_id: 40 }];
    assert_eq!(WaveMgr::max_wave_for_fight(&fight(), &episodes, &battles), 3);
    assert_eq!(WaveMgr::max_wave_for_fight(&fight(), &vec![], &battles), 1);
}

#[test]
fn waves_come_one_after_the_other() {
    let mut f = fight();
    let mut mgr = EntityMgr::new(&f, &templates());
    let waves = vec![vec![fighter(-3, 10, 10, 1)], vec![fighter(-5, 10, 10, 1)]];
    let gone =
        WaveMgr::fast_forward_state_to_wave(&mut f, &mut mgr, 3, waves, &templates()).unwrap();
    assert_eq!(gone, vec![-1, -3]);
    assert_eq!(f.cur_wave, Some(3));
    assert_eq!(f.defender.as_ref().unwrap().entitys[0].uid, Some(-5));
    assert_eq!(mgr.get_hp(-5), 10);

    f.magic_circle = Some(MagicCircleInfo {
        magic_circle_id: Some(20),
        round: Some(2),
        create_uid: Some(7),
        electric_level: None,
        electric_progress: None,
        max_electric_progress: None,
    });
    let circles = vec![MagicCircleRow {
        id: 20,
        round: 3,
        self_buff: String::new(),
        enemy_buff: " 88 ".to_string(),
        self_skills: String::new(),
        enemy_skills: String::new(),
    }];
    let start =
        WaveMgr::advance_wave(&mut f, vec![fighter(-7, 10, 10, 1), fighter(-8, 0, 10, 2)], &circles)
            .unwrap();
    assert_eq!(start.entered, vec![-7, -8]);
    assert_eq!(start.step.act_effect[0].effect_type, Some(EffectType::NewChangeWave));
    let circle = start.circle.unwrap();
    assert_eq!((circle.caster_uid, circle.buff_id, circle.targets), (7, 88, vec![-7]));

    f.defender = None;
    assert!(matches!(WaveMgr::advance_wave_state(&mut f, vec![]), Err(WaveError::NoDefenders)));
    assert!(matches!(WaveMgr::advance_wave(&mut f, vec![], &circles), Err(WaveError::NoDefenders)));
}

#[test]
fn the_steps_of_waves_are_joined_in_their_order() {
    let mut f = fight();
    let mut arrivals = Vec::new();
    let mut gone = Vec::new();
    while let Some(old) = next_wave_due(&f, 3) {
        gone.push(old);
        let wave = vec![fighter(-10 - arrivals.len() as i64, 10, 10, 1)];
        let start = WaveMgr::advance_wave(&mut f, wave, &vec![]).unwrap();
        let circle_effects =
            if arrivals.is_empty() { vec![ActEffectBuilder::effect_none(4)] } else { vec![] };
        arrivals.push(WaveArrival { step: start.step, circle_effects });
    }
    assert_eq!(gone, vec![vec![-1], vec![-10]]);
    assert_eq!(f.cur_wave, Some(3));
    let steps = join_wave_steps(arrivals);
    assert_eq!(steps.len(), 3);
    let wave_shown = |i: usize| {
        let shown: &ActEffect = &steps[i].act_effect[0];
        shown.fight.as_ref().unwrap().cur_wave
    };
    assert_eq!((wave_shown(0), wave_shown(2)), (Some(2), Some(3)));
    assert_eq!(steps[1].act_effect[0].target_id, Some(4));
    assert!(next_wave_due(&f, 3).is_none());
    assert!(join_wave_steps(vec![]).is_empty());
}

#[test]
fn cloth_skills_cost_more_each_time() {
    let mut m = FightDataMgr::new(fight(), dealt(), &templates(), &vec![], &tables());
    let c = cloth();
    ClothMgr::on_battle_start(m.fight_mut(), &c);
    let power = |m: &FightDataMgr| m.fight().attacker.as_ref().unwrap().power;
    assert_eq!(power(&m), Some(30));
    ClothMgr::apply_power(m.fight_mut(), &c, 500);
    assert_eq!(power(&m), Some(100));
    assert_eq!(m.execute_cloth_skill(30010201, &c), Ok(ClothSkill::UniversalCard));
    assert_eq!(power(&m), Some(90));
    m.execute_cloth_skill(30010201, &c).unwrap();
    m.execute_cloth_skill(30010201, &c).unwrap();
    assert_eq!(power(&m), Some(40));
    assert_eq!(
        m.execute_cloth_skill(77, &c),
        Err(ClothError::Unimplemented { skill_id: 77 })
    );
    assert_eq!(m.managers.cloth_mgr.use_counts[&77], 1);
    assert_eq!(m.execute_cloth_skill(5, &c), Err(ClothError::Unimplemented { skill_id: 5 }));
    assert!(!m.managers.cloth_mgr.use_counts.contains_key(&5));
    assert_eq!(m.execute_cloth_skill(5, &None), Err(ClothError::NoCloth));
    assert_eq!(m.cloth_round(vec![], &vec![]).power, Some(40));

    assert!(matches!(
        ClothMgr::on_use_card(&c, vec![])[..],
        [Event::PowerChange { delta: 4 }]
    ));
    assert!(ClothMgr::on_move_card(&c, vec![]).is_empty());
    assert_eq!(ClothMgr::on_card_upgrade(&c, vec![]).len(), 1);
}

#[test]
fn the_result_depends_on_the_heroes_on_the_field() {
    let mut m = FightDataMgr::new(fight(), dealt(), &templates(), &vec![], &tables());
    assert_eq!(m.check_battle_result(), 1);
    for e in &mut m.fight_mut().attacker.as_mut().unwrap().entitys {
        e.current_hp = Some(0);
    }
    assert_eq!(m.check_battle_result(), 0);
    assert_eq!(m.pre_fight.as_ref().unwrap().attacker.as_ref().unwrap().entitys[0].current_hp,
        Some(80));
    m.fight_mut().attacker = None;
    assert_eq!(m.check_battle_result(), 0);
    assert!(m.last_round.is_none());
    assert_eq!(m.mechanics.shadow_cloak, ShadowCloakState::default());
    assert!(m.initial_card_push.is_some());
}

#[test]
fn hits_go_through_the_shield_to_the_life() {
    let mut f = fight();
    f.attacker.as_mut().unwrap().entitys[0].shield_value = Some(20);
    let mut trackers = EntityMgr::new(&f, &templates());
    let mut calc = FightCalculateDataMgr::new(&f, &templates());
    let hit = ActEffectBuilder::origin_damage(7, 50, None);
    let commands = calc
        .play_non_nested_effect_data(&hit, &mut f, &mut trackers, readings(), false)
        .unwrap();
    let e = &f.attacker.as_ref().unwrap().entitys[0];
    assert_eq!((e.current_hp, e.shield_value), (Some(50), Some(0)));
    assert_eq!(trackers.get_hp(7), 50);
    assert!(commands
        .iter()
        .any(|c| matches!(c, PlayCommand::ReduceShield { target: 7, amount: 20, emptied: true })));

    let huge = ActEffectBuilder::heal(7, i32::MAX, None);
    assert!(!calc.can_play(&huge, &f, &trackers, readings()));
    let heal = ActEffectBuilder::heal(7, 500, None);
    assert!(calc.can_play(&heal, &f, &trackers, readings()));
    calc.play_non_nested_effect_data(&heal, &mut f, &mut trackers, readings(), false).unwrap();
    assert_eq!(f.attacker.as_ref().unwrap().entitys[0].current_hp, Some(100));
    let ex = ActEffectBuilder::ex_point_change(7, 9);
    calc.play_non_nested_effect_data(&ex, &mut f, &mut trackers, readings(), false).unwrap();
    assert_eq!(f.attacker.as_ref().unwrap().entitys[0].ex_point, Some(5));
}

#[test]
fn effects_that_cannot_be_played_say_why() {
    let mut f = fight();
    let mut trackers = EntityMgr::new(&f, &templates());
    let mut calc = FightCalculateDataMgr::new(&f, &templates());
    let mut play = |kind: EffectType, target: Option<i64>, num: Option<i32>| {
        let effect = ActEffect {
            effect_type: Some(kind),
            target_id: target,
            effect_num: num,
            ..ActEffect::blank()
        };
        calc.play_non_nested_effect_data(&effect, &mut f, &mut trackers, readings(), false).err()
    };
    assert_eq!(play(EffectType::Damage, None, Some(1)), Some(PlayError::NoTarget));
    assert_eq!(play(EffectType::Damage, Some(7), None), Some(PlayError::NoDamage));
    assert_eq!(play(EffectType::Heal, Some(7), None), Some(PlayError::NoHeal));
    assert_eq!(play(EffectType::BuffAdd, Some(7), None), Some(PlayError::NoBuff));
    assert_eq!(play(EffectType::Shield, Some(7), None), Some(PlayError::NoShield));
    assert_eq!(play(EffectType::AverageLife, Some(7), None), Some(PlayError::NoHp));
    assert_eq!(play(EffectType::MaxHpChange, Some(7), None), Some(PlayError::NoMaxHp));
    assert_eq!(play(EffectType::MagicCircleAdd, Some(7), None), Some(PlayError::NoMagicCircle));
    assert_eq!(
        play(EffectType::Damage, Some(77), Some(1)),
        Some(PlayError::EntityMissing { uid: 77 })
    );
    assert_eq!(play(EffectType::NoEffect, None, None), None);
    f.attacker.as_mut().unwrap().entitys.clear();
    let hit = ActEffectBuilder::origin_damage(7, 1, None);
    assert_eq!(
        calc.play_non_nested_effect_data(&hit, &mut f, &mut trackers, readings(), false).err(),
        Some(PlayError::EntityGone { uid: 7 })
    );
}

#[test]
fn nested_effects_are_played_as_leaves() {
    let inner = effect_container_step(7, -1, 3, vec![
        ActEffectBuilder::origin_damage(-1, 5, None),
        ActEffectBuilder::bloodpool_value_change(7, 1, 2),
    ]);
    let step =
        effect_container_step(7, -1, 2, vec![wrap_step(inner), ActEffectBuilder::effect_none(1)]);
    let items = play_step_data(&step);
    assert_eq!(items.len(), 3);
    assert!(items.iter().all(|i| i.effect.fight_step.is_none()));
    assert!(step_contains_positive_bloodpool_delta(&step.act_effect));
    assert_eq!(round_leaves(&vec![step]).len(), 3);
}

#[test]
fn shields_end_with_their_buff() {
    let f = fight();
    let mut calc = FightCalculateDataMgr::new(&f, &templates());
    let rows = vec![SkillBuffRow {
        id: 5,
        type_id: 0,
        during_time: 1,
        effect_count: 0,
        features: "1".to_string(),
    }];
    calc.end_shield_buff(&rows, 7, 5);
    let shown = calc.take_pending_effects();
    assert!(!shown.is_empty() && shown[0].target_id == Some(7));
    assert!(calc.take_pending_effects().is_empty());
    let skills = build_player_skills();
    assert_eq!((skills[0].need_power, skills[1].need_power), (Some(40), Some(25)));
}

#[test]
fn recorded_pools_only_rise_to_a_larger_maximum() {
    let max = EffectType::BloodPoolMaxChange;
    assert_eq!(
        seed_replay_bloodtithe_from_effect(max, 1, 9, 5, 0),
        PoolReplay::RaiseMax { team_type: 1, max: 9 }
    );
    assert_eq!(seed_replay_bloodtithe_from_effect(max, 1, 4, 5, 0), PoolReplay::Exists);
    let value = EffectType::BloodPoolValueChange;
    assert_eq!(
        seed_replay_bloodtithe_from_effect(value, 2, -9, 5, 3),
        PoolReplay::SetValue { team_type: 2, value: 0 }
    );
    assert_eq!(
        seed_replay_bloodtithe_from_effect(EffectType::Damage, 2, -9, 5, 3),
        PoolReplay::Nothing
    );
    assert_eq!(
        reseed_bloodtithe_from_effect(&ActEffectBuilder::bloodpool_value_change(7, 2, 4), 9, 3),
        PoolReplay::SetValue { team_type: 2, value: 7 }
    );
}

#[test]
fn recorded_capacities_buffs_and_gauges_count() {
    let update = |cap: i32| {
        ActEffectBuilder::buff_act_info_update(7, 1, BuffActInfo {
            act_id: Some(1042),
            param: vec![1, cap],
        })
    };
    let inner = effect_container_step(0, 0, 0, vec![update(400), update(300)]);
    let round = vec![effect_container_step(0, 0, 0, vec![wrap_step(inner), update(200)])];
    assert_eq!(reseed_shadow_cloak_from_round(&round, 1042), 400);
    assert_eq!(reseed_shadow_cloak_from_round(&round, 1), 0);

    let mut f = fight();
    let record = |buff_id: i32, target_uid: i64, layer: i32| RecordedBuff {
        buff_id,
        target_uid,
        from_uid: 7,
        count: 1,
        layer,
        buff_uid: 100,
        duration: 3,
    };
    let used =
        seed_replay_buffs_from_effects(&mut f, &vec![record(5, 8, 1), record(0, 8, 1), record(6, 8, 2)]);
    assert_eq!(used.len(), 2);
    let buffs = &f.attacker.as_ref().unwrap().entitys[1].buffs;
    assert_eq!((buffs.len(), buffs[0].buff_id, buffs[0].layer), (1, Some(6), Some(2)));

    let mut m = FightDataMgr::new(f, dealt(), &templates(), &vec![], &tables());
    m.begin_replay(&templates());
    m.seed_replay_state(&vec![FightExPointInfo {
        uid: Some(7),
        ex_point: Some(1),
        power_infos: vec![],
        current_hp: Some(33),
        ex_point_type: None,
    }]);
    assert_eq!((m.managers.entity_mgr.get_hp(7), m.managers.entity_mgr.get_ex_point(7)), (33, 1));
    assert_eq!(m.get_fight().attacker.as_ref().unwrap().entitys[0].current_hp, Some(33));
    assert_eq!(m.managers.entity_mgr.get_hp(8), 60);
}
