use battle::arith::value;
use battle::buffs::{BuffInstance, BuffMgr};
use battle::config::{
    BuffActRow, SharedParamsRow, SkillBuffRow, SkillEffectRow, SkillLinkRow, SlotRow,
};
use battle::effect::behavior::add_act;
use battle::effect::behavior::add_buff::{plan_gift, GiftPlan};
use battle::effect::behavior::damage::{
    advanced_cure_permille, append_preview_bloodtithe_gain_effects,
    build_sotheby_holder_consume_steps, detonate_target_poison_damage,
    execute_origin_damage_by_attr_and_buff_group_size, execute_sotheby_detonate2,
    is_damage_effect_type, plan_cures, plan_damage, plan_stack_damage, show_cures,
    target_poisons, target_would_die, BuffTables, DamagePlan, Detonation, DotRow, PoisonHit,
    PoolPreview, PotionUse,
};
use battle::effect::behavior::disperse::{plan_disperse, DispersePlan};
use battle::effect::behavior::dot_settle;
use battle::effect::behavior::empathy::{
    find_empathy_buff, plan_empathy, release, release_all, solace, EmpathyPlan,
};
use battle::effect::behavior::ex_point::{add_ex_points, rate_per_point, spent_bonus};
use battle::effect::behavior::heal::{plan_heal, HealPlan};
use battle::effect::behavior::misc::{self, PendingField, PendingMonsterChange, PendingSummon};
use battle::effect::behavior::nuodika_damage::{
    self, faith_buffs, find_target_code, plan_faith_hits, FaithHit,
};
use battle::effect::behavior::skill_rate::{self, plan_rate, RateBonus, RatePlan, RateReadings};
use battle::effect::behavior::stats;
use battle::event::Event;
use battle::fight_step::builder::ActEffectBuilder;
use battle::manager::entity_mgr::EntityMgr;
use battle::model::{
    ActEffect, EffectType, Fight, FightEntityInfo, FightHurtInfo, FightTeam, HeroAttribute,
};

fn fighter(uid: i64, hp: i32, max_hp: i32, attack: i32) -> FightEntityInfo {
    FightEntityInfo {
        uid: Some(uid),
        model_id: None,
        position: Some(1),
        current_hp: Some(hp),
        shield_value: None,
        team_type: Some(if uid > 0 { 1 } else { 2 }),
        ex_point: None,
        ex_point_type: None,
        ex_skill: None,
        attr: Some(HeroAttribute { hp: Some(max_hp), attack: Some(attack), defense: Some(50) }),
        base_attr: None,
        passive_skill: vec![],
        skill_group1: vec![],
        skill_group2: vec![],
        buffs: vec![],
        power_infos: vec![],
    }
}

fn battle_of(attackers: Vec<FightEntityInfo>, defenders: Vec<FightEntityInfo>) -> Fight {
    Fight {
        attacker: Some(FightTeam { entitys: attackers, sub_entitys: vec![], power: None }),
        defender: Some(FightTeam { entitys: defenders, sub_entitys: vec![], power: None }),
        cur_round: Some(1),
        max_round: None,
        is_finish: None,
        cur_wave: None,
        battle_id: None,
        magic_circle: None,
        version: None,
        is_record: None,
        episode_id: None,
        fight_act_type: None,
        last_change_hero_uid: None,
        progress: None,
        progress_max: None,
        fight_task_box: None,
    }
}

fn buff(uid: i64, buff_id: i32, type_id: i32, from_uid: i64, layer: i32, duration: i32) -> BuffInstance {
    BuffInstance { uid, buff_id, type_id, from_uid, from_skill_id: 0, stacks: 1, layer, duration }
}

fn buff_row(id: i32, features: &str) -> SkillBuffRow {
    SkillBuffRow {
        id,
        type_id: 0,
        during_time: 2,
        effect_count: 0,
        features: features.to_string(),
    }
}

fn slot(behavior: &str) -> SlotRow {
    SlotRow {
        condition: String::new(),
        condition_target: String::new(),
        behavior: behavior.to_string(),
        behavior_target: String::new(),
        limit: 0,
        round_limit: 0,
    }
}

fn kinds(effects: &[ActEffect]) -> Vec<EffectType> {
    effects.iter().map(|e| e.effect_type.unwrap()).collect()
}

#[test]
fn damage_plans_follow_the_id() {
    assert_eq!(plan_damage(10006, "10006#1500", 1), DamagePlan::Hit { rate: 1500 });
    assert_eq!(plan_damage(60215, "60215#1500", 1), DamagePlan::Nothing);
    assert_eq!(plan_damage(20009, "20009#1500#5", 1), DamagePlan::Hit { rate: 1000 });
    assert_eq!(plan_damage(20009, "20009#-9", 1), DamagePlan::Hit { rate: 0 });
    assert_eq!(
        plan_damage(20009, "20009#1600#30091111", 300901321),
        DamagePlan::PotionDetonation { rate: 1066, granted_buff_id: 30091111 }
    );
    assert_eq!(
        plan_damage(60127, "60127#1#102#300#7", 30980131),
        DamagePlan::ByStacks { attr_id: 102, permille: 300, group_id: 7 }
    );
}

#[test]
fn shields_take_hits_first_and_the_killing_hit_ends_it() {
    let mut e = fighter(-1, 100, 100, 10);
    e.shield_value = Some(50);
    let f = battle_of(vec![], vec![e]);
    let hit = |n: i32| ActEffectBuilder::origin_damage(-1, n, None);
    assert!(!target_would_die(&f, -1, &vec![hit(149)]));
    assert!(target_would_die(&f, -1, &vec![hit(150)]));
    assert!(target_would_die(&f, -1, &vec![hit(50), hit(60), hit(40)]));
    assert!(!target_would_die(&f, -2, &vec![hit(999)]));
    assert!(!target_would_die(&f, -1, &vec![ActEffectBuilder::bloodlust(-1, 999)]));
    assert!(is_damage_effect_type(Some(EffectType::AdditionalDamageCrit)));
    assert!(!is_damage_effect_type(Some(EffectType::Heal)));
    assert!(!is_damage_effect_type(None));
}

#[test]
fn a_cure_needs_every_entry_before_it_to_be_known() {
    let acts = vec![
        BuffActRow { id: 5, act_type: "Poison".to_string() },
        BuffActRow { id: 6, act_type: "AdvancedCure".to_string() },
    ];
    let rows = vec![buff_row(1, "5#1|6#1#2# 250 "), buff_row(2, "7#1|6#1#2#250"), buff_row(3, "5#1")];
    assert_eq!(advanced_cure_permille(&rows, &acts, 1), Some(250));
    assert_eq!(advanced_cure_permille(&rows, &acts, 2), None);
    assert_eq!(advanced_cure_permille(&rows, &acts, 3), None);
    assert_eq!(advanced_cure_permille(&rows, &acts, 4), None);
}

#[test]
fn poisons_go_off_as_crits_for_all_their_rounds() {
    let f = battle_of(vec![fighter(7, 100, 100, 1000)], vec![fighter(-1, 100, 100, 10)]);
    let mut buffs = BuffMgr::new();
    buffs.set(-1, vec![buff(1, 40, 4, 7, 3, 2), buff(2, 41, 4, 7, 1, 1), buff(3, 40, 4, 9, 1, 1)]);
    let rows = vec![DotRow { buff_id: 40, permille: 200 }];
    let hits = target_poisons(&f, &buffs, &rows, -1);
    assert_eq!(hits, vec![PoisonHit { raw: 200, stacks: 3, rounds: 2 }]);
    // 200 * 1390 / 1000 = 278, three stacks, two rounds
    let go_off =
        |fixed: i32| detonate_target_poison_damage(&f, &buffs, &rows, -1, &vec![fixed]);
    assert_eq!(go_off(200), Some(1668));
    assert_eq!(go_off(0), None);
    assert_eq!(dot_settle::settle_damage(&hits, &vec![200]), 834);
}

#[test]
fn settled_poison_kills_through_the_shield() {
    let mut e = fighter(-5, 700, 1000, 10);
    e.shield_value = Some(100);
    let f = battle_of(vec![fighter(7, 100, 100, 1000)], vec![e]);
    let mut buffs = BuffMgr::new();
    buffs.set(-5, vec![buff(1, 40, 4, 7, 3, 2)]);
    buffs.set(0, vec![buff(2, 40, 4, 7, 3, 2)]);
    let rows = vec![DotRow { buff_id: 40, permille: 200 }];
    let settle = |fixed: i32| dot_settle::execute(&f, &buffs, &rows, -5, &vec![fixed]);
    let alive = settle(100);
    assert_eq!(kinds(&alive), vec![EffectType::OriginCrit]);
    assert_eq!(alive[0].effect_num, Some(417));
    assert_eq!(alive[0].config_effect, Some(60073));
    let dead = settle(200);
    assert_eq!(kinds(&dead), vec![EffectType::OriginCrit, EffectType::Dead]);
    assert_eq!(dead.len(), 2);
    assert!(settle(-1).is_empty());
    assert!(dot_settle::execute(&f, &buffs, &rows, 0, &vec![]).is_empty());
    assert!(dot_settle::execute(&f, &buffs, &rows, 7, &vec![]).is_empty());
    assert!(dot_settle::settling_poisons(&f, &BuffMgr::new(), &vec![], 0).is_empty());
}

#[test]
fn the_pool_grows_by_one_for_every_three_thousand() {
    let f = battle_of(vec![fighter(7, 100, 100, 10)], vec![fighter(-1, 100, 100, 10)]);
    let mut p = PoolPreview::start(-3, 1000);
    assert_eq!(p, PoolPreview { value: 0, acc: 1000 });
    let mut effects = vec![ActEffectBuilder::origin_damage(-1, 20000, None)];
    append_preview_bloodtithe_gain_effects(&mut p, true, 20, &f, 7, -1, &mut effects);
    // three tenths of 20000 across the sides: 6000, with 1000 from before
    assert_eq!(p, PoolPreview { value: 2, acc: 1000 });
    assert_eq!(effects.len(), 2);
    assert_eq!(effects[1].effect_type, Some(EffectType::BloodPoolValueChange));
    assert_eq!((effects[1].effect_num, effects[1].effect_num1), (Some(2), Some(2)));

    let mut own = vec![ActEffectBuilder::origin_damage(-1, 9000, None)];
    let mut q = PoolPreview::start(4, 0);
    append_preview_bloodtithe_gain_effects(&mut q, true, 5, &f, -2, -1, &mut own);
    assert_eq!(q, PoolPreview { value: 5, acc: 6000 });
    assert_eq!(own[1].effect_num1, Some(1));

    let mut none = vec![ActEffectBuilder::origin_damage(-1, 9000, None)];
    let mut r = PoolPreview::start(4, 0);
    append_preview_bloodtithe_gain_effects(&mut r, false, 5, &f, -2, -1, &mut none);
    assert_eq!((r, none.len()), (PoolPreview { value: 4, acc: 0 }, 1));
}

#[test]
fn damage_by_stacks_is_attribute_times_rate_times_stacks() {
    let f = battle_of(vec![fighter(7, 80, 100, 1000)], vec![fighter(-1, 100, 100, 10)]);
    assert_eq!(plan_stack_damage(&f, 7, -1, 102, 300, 4), 1200);
    assert_eq!(plan_stack_damage(&f, 7, -1, 100, 500, 1), 40);
    assert_eq!(plan_stack_damage(&f, 7, -1, 101, 500, 1), 50);
    assert_eq!(plan_stack_damage(&f, 7, -1, 103, 1000, 2), 100);
    assert_eq!(plan_stack_damage(&f, 7, -1, 104, 300, 4), 0);
    assert_eq!(plan_stack_damage(&f, 7, 0, 102, 300, 4), 0);
    assert_eq!(plan_stack_damage(&f, 7, -1, 102, 0, 4), 0);
    assert_eq!(plan_stack_damage(&f, 7, -1, 102, 300, 0), 0);
    assert_eq!(plan_stack_damage(&f, 7, -1, 102, i32::MAX, i32::MAX), i32::MAX);
    let deal = |stacks: i32, fixed: i32| {
        execute_origin_damage_by_attr_and_buff_group_size(&f, 7, -1, 102, 300, stacks, fixed)
    };
    let shown = deal(4, 900);
    assert_eq!(shown[0].effect_num, Some(900));
    assert_eq!(shown[0].config_effect, Some(60127));
    assert!(deal(4, 0).is_empty());
    assert!(deal(0, 900).is_empty());
}

#[test]
fn a_potion_poisons_every_stack_and_layers_one_cure() {
    let shared = vec![SharedParamsRow { buff_id: 300901412, params: "p".to_string() }];
    let rows = vec![buff_row(300901412, "1"), buff_row(30091111, "2")];
    let potion = PotionUse {
        caster_uid: 7,
        granted_buff_id: 30091111,
        poison_uids: vec![100, 101],
        cure_uids: vec![200],
    };
    let duality = buff(50, 30091120, 9, 7, 1, 1);
    let out = build_sotheby_holder_consume_steps(
        &potion, &rows, &shared, &vec![-1], &vec![8], &duality, 2, false,
    );
    assert_eq!(out.len(), 2);
    let adds = &out[0].fight_step.as_ref().unwrap().act_effect;
    assert_eq!(
        kinds(adds),
        vec![
            EffectType::BuffAdd,
            EffectType::Poison,
            EffectType::BuffAdd,
            EffectType::NoEffect,
            EffectType::BuffAdd,
            EffectType::Poison,
            EffectType::BuffUpdate,
            EffectType::NoEffect,
        ]
    );
    assert_eq!(adds[0].buff.as_ref().unwrap().uid, Some(100));
    assert_eq!(adds[4].buff.as_ref().unwrap().uid, Some(101));
    assert_eq!(adds[6].buff.as_ref().unwrap().uid, Some(200));
    assert_eq!(adds[6].buff.as_ref().unwrap().layer, Some(2));
    let end = &out[1].fight_step.as_ref().unwrap().act_effect;
    assert_eq!(kinds(end), vec![EffectType::BuffDel]);
    let none = PotionUse { poison_uids: vec![], ..potion };
    assert!(build_sotheby_holder_consume_steps(
        &none, &rows, &shared, &vec![-1], &vec![8], &duality, 0, false
    )
    .is_empty());
}

#[test]
fn cures_heal_by_the_casters_attack_and_end() {
    let f = battle_of(vec![fighter(7, 100, 100, 1000), fighter(8, 50, 100, 5)], vec![]);
    let acts = vec![BuffActRow { id: 6, act_type: "AdvancedCure".to_string() }];
    let rows = vec![buff_row(60, "6#1#2#250"), buff_row(61, "6#1#2#0")];
    let mut buffs = BuffMgr::new();
    buffs.set(8, vec![
        buff(1, 60, 30091111, 7, 1, 1),
        buff(2, 61, 30091111, 7, 1, 1),
        buff(3, 60, 5, 7, 1, 1),
    ]);
    let cures = plan_cures(&f, 7, &vec![7, 8], &buffs, &rows, &acts);
    assert_eq!(cures.iter().map(|c| (c.ally_uid, c.heal, c.buff.uid)).collect::<Vec<_>>(), vec![
        (8, 250, 1),
        (8, 0, 2)
    ]);
    let heals = vec![ActEffectBuilder::effect_none(1), ActEffectBuilder::effect_none(2)];
    let shown = show_cures(&rows, &cures, &heals);
    assert_eq!(kinds(&shown), vec![EffectType::NoEffect, EffectType::BuffDel, EffectType::BuffDel]);
    assert_eq!(shown[0].target_id, Some(1));

}

#[test]
fn a_detonation_kills_or_sets_off_the_poisons() {
    let mut f = battle_of(
        vec![fighter(7, 100, 100, 1000), fighter(8, 50, 100, 5)],
        vec![fighter(-1, 900, 900, 10)],
    );
    let tables = BuffTables {
        rows: vec![buff_row(60, "6#1#2#250")],
        acts: vec![BuffActRow { id: 6, act_type: "AdvancedCure".to_string() }],
        shared: vec![],
        dots: vec![DotRow { buff_id: 40, permille: 200 }],
    };
    let mut buffs = BuffMgr::new();
    buffs.set(-1, vec![buff(1, 40, 4, 7, 3, 2)]);
    buffs.set(8, vec![buff(2, 60, 30091111, 7, 1, 1)]);
    let detonation = |hit: i32, fixed: Vec<i32>, poison_uids: Vec<i64>, cure_uids: Vec<i64>| {
        Detonation {
            damage_effects: vec![ActEffectBuilder::origin_damage(-1, hit, None)],
            fixed,
            potion: PotionUse { caster_uid: 7, granted_buff_id: 60, poison_uids, cure_uids },
            allies: vec![8],
            heals: vec![ActEffectBuilder::effect_none(8)],
        }
    };
    // the caster holds no potion
    let plain = detonation(100, vec![200], vec![], vec![]);
    let out = execute_sotheby_detonate2(&f, &buffs, &tables, -1, plain);
    assert_eq!(kinds(&out), vec![
        EffectType::OriginDamage,
        EffectType::OriginCrit,
        EffectType::NoEffect,
        EffectType::BuffDel,
    ]);
    // 200 * 1390 / 1000 = 278, three stacks, two rounds
    assert_eq!(out[1].effect_num, Some(1668));
    let fixed_away = detonation(100, vec![0], vec![], vec![]);
    let out = execute_sotheby_detonate2(&f, &buffs, &tables, -1, fixed_away);
    assert_eq!(out.len(), 3);

    buffs.set(7, vec![buff(9, 30091120, 0, 7, 1, 1)]);
    let potion = detonation(100, vec![200], vec![70], vec![71]);
    let out = execute_sotheby_detonate2(&f, &buffs, &tables, -1, potion);
    assert_eq!(out.len(), 6);
    let adds = &out[2].fight_step.as_ref().unwrap().act_effect;
    assert_eq!(kinds(adds), vec![
        EffectType::BuffAdd,
        EffectType::Poison,
        EffectType::BuffAdd,
        EffectType::NoEffect,
    ]);
    let end = &out[3].fight_step.as_ref().unwrap().act_effect;
    assert_eq!(end[0].buff.as_ref().unwrap().uid, Some(9));

    // a target that dies gets neither the poisons nor the cures of the potion
    f.defender.as_mut().unwrap().entitys[0].current_hp = Some(100);
    let deadly = detonation(100, vec![], vec![70], vec![71]);
    let out = execute_sotheby_detonate2(&f, &buffs, &tables, -1, deadly);
    assert_eq!(out.len(), 7);
    assert_eq!(out[1].effect_type, Some(EffectType::Dead));
    let cards = &out[2].fight_step.as_ref().unwrap().act_effect;
    assert_eq!(kinds(cards), vec![EffectType::RemoveEntityCards]);
    let adds = &out[3].fight_step.as_ref().unwrap().act_effect;
    assert_eq!(kinds(adds), vec![EffectType::BuffAdd, EffectType::Poison]);
}

#[test]
fn empathy_is_released_and_stored() {
    let f = battle_of(vec![fighter(7, 900, 2000, 10)], vec![fighter(-1, 100, 100, 10)]);
    assert_eq!(
        plan_empathy(&f, 60038, "60038#1800", 0, 7, -1, 500),
        EmpathyPlan::Release { amount: 900, clears: false }
    );
    assert_eq!(plan_empathy(&f, 60052, "60052#1", 0, 7, -1, 500), EmpathyPlan::Nothing);
    assert_eq!(
        plan_empathy(&f, 60040, "60040#1", 0, 7, -1, 500),
        EmpathyPlan::Release { amount: 0, clears: true }
    );
    assert_eq!(plan_empathy(&f, 60040, "60040#1", 0, 7, 0, 500), EmpathyPlan::Nothing);
    assert_eq!(
        plan_empathy(&f, 60039, "60039#150#77", 30800122, 7, -1, 0),
        EmpathyPlan::Solace { self_damage: 300, max_hp: 2000, buff_id: 77 }
    );
    assert_eq!(plan_empathy(&f, 60039, "60039#150#77", 1, 7, -1, 0), EmpathyPlan::Nothing);
    assert_eq!(plan_empathy(&f, 60039, "60039#150#77", 30800122, 7, 7, 0), EmpathyPlan::Nothing);

    let mut buffs = BuffMgr::new();
    buffs.set(7, vec![buff(1, 10, 3, 7, 1, 1), buff(2, 11, 4, 7, 1, 1)]);
    assert_eq!(find_empathy_buff(&buffs, 7, 4, 99), (11, 2));
    assert_eq!(find_empathy_buff(&buffs, 7, 5, 99), (99, 0));

    let one = release(-1, 900);
    assert_eq!((one.len(), one[0].config_effect), (1, Some(60038)));
    let all = release_all(7, -1, 900, 4321, (11, 2));
    assert_eq!(kinds(&all), vec![EffectType::StorageInjury, EffectType::OriginDamage]);
    let stored = all[0].buff.as_ref().unwrap();
    assert_eq!(stored.act_common_params, Some("770#0#4321".to_string()));
    assert_eq!(release_all(7, -1, 1, -5, (11, 2))[0].buff.as_ref().unwrap().act_common_params,
        Some("770#0#0".to_string()));
    let s = solace(7, -1, 300, ActEffectBuilder::effect_none(7), vec![],
        vec![ActEffectBuilder::bloodlust(-1, 1)]);
    assert_eq!(kinds(&s), vec![
        EffectType::NoEffect,
        EffectType::OriginDamage,
        EffectType::Bloodlust,
        EffectType::NoEffect,
    ]);
    assert_eq!(s[1].config_effect, Some(60039));
}

#[test]
fn blood_is_only_spent_where_there_is_enough() {
    assert_eq!(plan_gift(1, "1#55", 3, 0), GiftPlan::Give { buff_id: 55, count: 3 });
    assert_eq!(
        plan_gift(60210, "60210#4#55#2", 9, 4),
        GiftPlan::Buy { cost: 4, buff_id: 55, count: 2 }
    );
    assert_eq!(plan_gift(60211, "60211#4#55#2", 9, 3), GiftPlan::CannotPay);
    assert_eq!(plan_gift(7, "7#4", 9, 3), GiftPlan::Nothing);
}

#[test]
fn dispersal_plans() {
    assert!(matches!(plan_disperse(30003, "30003"), DispersePlan::Disperse));
    assert!(matches!(
        plan_disperse(30009, "30009#31260121"),
        DispersePlan::DisperseForce { buff_id: 31260121 }
    ));
    assert!(matches!(plan_disperse(60010, "60010#5"), DispersePlan::DisperseForce { buff_id: 5 }));
    assert!(matches!(plan_disperse(20020, "20020"), DispersePlan::Purify));
    assert!(matches!(
        plan_disperse(50014, "50014#6"),
        DispersePlan::ConsumeByType { type_id: 6, count: 1 }
    ));
    match plan_disperse(60176, "60176#1,x,3#9#2") {
        DispersePlan::Replace { source_ids, replacement_id, duration, count } => {
            assert_eq!((source_ids, replacement_id, duration, count), (vec![1, 3], 9, 2, 1));
        }
        other => panic!("{other:?}"),
    }
    assert!(matches!(plan_disperse(1, "1"), DispersePlan::Nothing));
}

#[test]
fn rates_rise_flat_by_stack_and_by_type() {
    let targets = vec![-1, -2];
    let readings = RateReadings { stacks: 3, bears_type: vec![true, false] };
    assert!(matches!(plan_rate(10001, "10001#100"), RatePlan::Flat { rate: 100 }));
    assert_eq!(skill_rate::execute(10001, "10001#100", &readings, &targets), vec![
        RateBonus { target_uid: -1, amount: 100 },
        RateBonus { target_uid: -2, amount: 100 },
    ]);
    let per = plan_rate(10009, "10009#8#50");
    assert!(matches!(per, RatePlan::PerStack { buff_type_id: 8, rate: 50 }));
    assert_eq!(skill_rate::execute(10009, "10009#8#50", &readings, &targets)[1].amount, 150);
    let none = RateReadings { stacks: 0, bears_type: vec![false, false] };
    assert!(skill_rate::execute(10009, "10009#8#50", &none, &targets).is_empty());
    match plan_rate(10012, "10012#70#0#4#x#5") {
        RatePlan::AgainstTypes { rate, buff_types } => {
            assert_eq!((rate, &buff_types), (70, &vec![4, 5]));
            assert_eq!(
                skill_rate::execute(10012, "10012#70#0#4#x#5", &readings, &targets),
                vec![RateBonus { target_uid: -1, amount: 70 }]
            );
        }
        other => panic!("{other:?}"),
    }
    assert!(matches!(plan_rate(10012, "10012#70#0"), RatePlan::Nothing));
    assert!(matches!(plan_rate(10009, "10009#8#0"), RatePlan::Nothing));
    assert!(skill_rate::execute(10012, "10012#70#0", &readings, &targets).is_empty());
}

#[test]
fn heals_by_rate_or_by_two_attributes() {
    assert_eq!(plan_heal(20001, "20001#300"), HealPlan::Rate { rate: 300 });
    assert_eq!(
        plan_heal(60232, "60232#300#20"),
        HealPlan::ByTwoAttributes { missing_percent: 300, caster_hp_percent: 20 }
    );
}

#[test]
fn summons_and_changes_wait() {
    let mut field = PendingField { summons: vec![], changes: vec![] };
    misc::execute(&mut field, 7, &vec![-1, -2], "60008#500", 60008);
    misc::execute(&mut field, 7, &vec![-1, -2], "40006#600", 40006);
    misc::execute(&mut field, 7, &vec![-1, -2], "60015#600", 60015);
    assert_eq!(field.summons, vec![PendingSummon { caster_uid: 7, monster_id: 500 }]);
    assert_eq!(field.changes, vec![
        PendingMonsterChange { target_uid: -1, new_monster_id: 600 },
        PendingMonsterChange { target_uid: -2, new_monster_id: 600 },
    ]);
}

#[test]
fn faith_costs_life_and_hits_the_others() {
    let f = battle_of(vec![fighter(7, 800, 1000, 10)], vec![fighter(-1, 100, 100, 10)]);
    let raw = "60209#1#500#2#250#50";
    assert_eq!(faith_buffs(raw), (1, 2));
    // 400 * 500 / 1000 + 800 * 250 / 1000 = 400 thousandths of 1000; ten hundredths of 800
    let hits = plan_faith_hits(&f, 7, raw, 400, 800, &vec![0, 7, -1]);
    assert_eq!(hits, vec![
        FaithHit { target_uid: 7, amount: 80, config_effect: 30006 },
        FaithHit { target_uid: -1, amount: 400, config_effect: -1 },
    ]);
    assert_eq!(plan_faith_hits(&f, 7, raw, 0, 0, &vec![-1]).len(), 1);
    assert!(plan_faith_hits(&f, 9, raw, 400, 800, &vec![-1]).is_empty());
    // a rate too small to show still takes one point of life
    assert_eq!(plan_faith_hits(&f, 7, "60209#1#1000", 0, 0, &vec![-1]).len(), 0);
    assert_eq!(
        plan_faith_hits(&battle_of(vec![fighter(7, 1, 1, 1)], vec![]), 7, "60209#1#1000", 1, 0, &vec![-1]),
        vec![FaithHit { target_uid: -1, amount: 1, config_effect: -1 }]
    );
    let records: Vec<Option<FightHurtInfo>> = vec![None, None];
    let shown = nuodika_damage::execute(&f, 7, raw, 400, 800, &vec![0, 7, -1], &records);
    assert_eq!(kinds(&shown), vec![EffectType::Damage, EffectType::Damage]);
    assert_eq!(shown[1].effect_num, Some(400));
    let rows = vec![SkillEffectRow {
        id: 5,
        logic_target: " 103 ".to_string(),
        need_ex_point: 0,
        slots: vec![],
    }];
    let links = vec![SkillLinkRow { skill_id: 50, effect_id: 5 }];
    assert_eq!(find_target_code(&rows, &links, 50), 103);
    assert_eq!(find_target_code(&rows, &links, 51), 0);
}

#[test]
fn action_points_add_up_for_repeated_targets() {
    let mut mgr = EntityMgr::default();
    mgr.set_action_point(7, 1);
    let events = add_act::execute(&mut mgr, &vec![7, 8, 7], "40003#2", 2);
    assert_eq!(events.len(), 3);
    assert!(matches!(events[1], Event::AddActionPoint { entity_uid: 8, delta: 4 }));
    assert_eq!(value(mgr.action_points.get(&7).copied()), 9);
    assert_eq!(value(mgr.action_points.get(&8).copied()), 4);
}

#[test]
fn ex_points_are_gained_and_spent() {
    let mut mgr = EntityMgr::default();
    mgr.set_ex_point(7, 3);
    let events = add_ex_points(&mut mgr, &vec![7, 8], "20002#-2", 2);
    assert_eq!(mgr.get_ex_point(7), 0);
    assert_eq!(mgr.get_ex_point(8), 0);
    assert!(matches!(events[0], Event::ExPointChange { target: 7, delta: -4, emit_step: true }));

    let rows = vec![SkillEffectRow {
        id: 5,
        logic_target: String::new(),
        need_ex_point: 0,
        slots: vec![slot("1#60174#9"), slot("60174#0#0"), slot("60174#0#40"), slot("60174#0#90")],
    }];
    let links = vec![SkillLinkRow { skill_id: 50, effect_id: 5 }];
    assert_eq!(rate_per_point(&rows, &links, 50), 40);
    mgr.set_recent_decr_ex_point(7, 9);
    assert_eq!(spent_bonus(&mgr, 7, "60174#0#0#1#5", &rows, &links, 50), Some(200));
    assert_eq!(spent_bonus(&mgr, 8, "60174#0#0#0#5", &rows, &links, 50), None);
    assert_eq!(spent_bonus(&mgr, 7, "60174#0#0#1#5", &rows, &links, 51), None);
}

#[test]
fn stats_show_one_effect_for_each_target() {
    let shown = stats::execute(20010, &vec![1, 2], "20010#5");
    assert_eq!(kinds(&shown), vec![EffectType::Bloodlust, EffectType::Bloodlust]);
    let power = stats::execute(50037, &vec![1], "50037#5");
    assert_eq!((power[0].effect_num, power[0].config_effect), (Some(5), Some(1)));
    assert_eq!(kinds(&stats::execute(20011, &vec![1], "20011")), vec![EffectType::AverageLife]);
    assert!(stats::execute(1, &vec![1], "1").is_empty());
}
