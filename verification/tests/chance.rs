use battle::buffs::{BuffInstance, BuffMgr};
use battle::chance::round_rng;
use battle::config::SkillBuffRow;
use battle::effect::behavior::catapult::{self, leap_targets, leaping_buff};
use battle::effect::behavior::poison_priority::{
    enemy_position, is_poison_family, plan_poison, poison_instance_count, rank_enemies,
};
use battle::effect::behavior::random::{
    add_buff_ran_id, buff_pool, choose_buffs, plan_draw, DrawPlan,
};
use battle::model::{Fight, FightEntityInfo, FightTeam};
use battle::operation::ai_executor::draw_player;
use rand::rngs::StdRng;
use rand::{Rng, SeedableRng};

fn buff(uid: i64, buff_id: i32, layer: i32) -> BuffInstance {
    BuffInstance {
        uid,
        buff_id,
        type_id: 0,
        from_uid: 7,
        from_skill_id: 0,
        stacks: 1,
        layer,
        duration: 1,
    }
}

fn buff_row(id: i32, features: &str) -> SkillBuffRow {
    SkillBuffRow {
        id,
        type_id: 0,
        during_time: 1,
        effect_count: 0,
        features: features.to_string(),
    }
}

fn enemy(uid: i64, position: i32) -> FightEntityInfo {
    FightEntityInfo {
        uid: Some(uid),
        model_id: None,
        position: Some(position),
        current_hp: Some(10),
        shield_value: None,
        team_type: Some(2),
        ex_point: None,
        ex_point_type: None,
        ex_skill: None,
        attr: None,
        base_attr: None,
        passive_skill: vec![],
        skill_group1: vec![],
        skill_group2: vec![],
        buffs: vec![],
        power_infos: vec![],
    }
}

fn battle_against(enemies: Vec<FightEntityInfo>) -> Fight {
    Fight {
        attacker: None,
        defender: Some(FightTeam { entitys: enemies, sub_entitys: vec![], power: None }),
        cur_round: None,
        max_round: None,
        is_finish: None,
        cur_wave: None,
        battle_id: None,
        magic_circle: None,
        version: None,
        is_record: None,
        episode_id: None,
        fight_act_type: None,
        last_change_hero_uid: None,
        progress: None,
        progress_max: None,
        fight_task_box: None,
    }
}

#[test]
fn the_round_alone_seeds_the_generator() {
    let draw = |mut rng: StdRng| -> Vec<u32> { (0..8).map(|_| rng.gen()).collect() };
    assert_eq!(draw(round_rng(Some(5))), draw(StdRng::seed_from_u64(5)));
    assert_eq!(draw(round_rng(None)), draw(StdRng::seed_from_u64(1)));
    assert_eq!(draw(round_rng(Some(-1))), draw(StdRng::seed_from_u64(u64::MAX)));
    assert_ne!(draw(round_rng(Some(5))), draw(round_rng(Some(6))));
}

#[test]
fn players_are_drawn_from_the_list() {
    let players: Vec<i64> = (1..=10).collect();
    let mut rng = round_rng(Some(3));
    let drawn: Vec<i64> = (0..60).map(|_| draw_player(&players, &mut rng).unwrap()).collect();
    assert!(drawn.iter().all(|uid| players.contains(uid)));
    assert!(drawn.iter().any(|uid| *uid != drawn[0]));
    assert_eq!(draw_player(&vec![], &mut rng), None);
}

#[test]
fn a_pool_is_shuffled_and_what_is_missing_comes_first() {
    let entries: Vec<String> = (1..=40).map(|n| format!("{n},100")).collect();
    let rows = vec![buff_row(900, &format!("{}#x,1#,", entries.join("#")))];
    assert_eq!(buff_pool(&rows, 900), (1..=40).collect::<Vec<i32>>());
    assert!(buff_pool(&rows, 901).is_empty());
    assert_eq!(
        plan_draw(20021, "20021#900#2"),
        Some(DrawPlan { pool_buff_id: 900, count: 2 })
    );
    assert_eq!(plan_draw(20022, "20022#900#2"), None);

    let mut buffs = BuffMgr::new();
    buffs.set(7, vec![buff(1, 3, 1), buff(2, 4, 1)]);
    let all = add_buff_ran_id(&mut round_rng(Some(2)), &rows, &buffs, 7, 900, 99);
    let again = add_buff_ran_id(&mut round_rng(Some(2)), &rows, &buffs, 7, 900, 99);
    assert_eq!(all, again);
    assert_eq!(all.len(), 40);
    let mut sorted = all.clone();
    sorted.sort();
    assert_eq!(sorted, (1..=40).collect::<Vec<i32>>());
    let in_order: Vec<i32> = (1..=40).filter(|n| *n != 3 && *n != 4).collect();
    assert_ne!(all[..38], in_order[..]);
    let mut last = all[38..].to_vec();
    last.sort();
    assert_eq!(last, vec![3, 4]);
    assert_eq!(add_buff_ran_id(&mut round_rng(Some(2)), &rows, &buffs, 7, 900, 5), all[..5]);
    assert!(add_buff_ran_id(&mut round_rng(Some(2)), &rows, &buffs, 7, 900, -1).is_empty());
    assert!(add_buff_ran_id(&mut round_rng(Some(2)), &rows, &buffs, 7, 901, 5).is_empty());
}

#[test]
fn the_first_of_both_lists_are_chosen() {
    assert_eq!(choose_buffs(&vec![1, 2], &vec![3, 4], 3), vec![1, 2, 3]);
    assert_eq!(choose_buffs(&vec![1, 2], &vec![3, 4], 1), vec![1]);
    assert_eq!(choose_buffs(&vec![1, 2], &vec![3, 4], 9), vec![1, 2, 3, 4]);
    assert!(choose_buffs(&vec![1, 2], &vec![3, 4], 0).is_empty());
}

#[test]
fn a_catapult_hits_the_target_then_leaps() {
    let raw = "60074#0#2#0#555#1#2";
    assert_eq!(leaping_buff(raw), 555);
    assert_eq!(leap_targets(raw, -1, &vec![-2, -1, -3]), vec![-1, -1, -2, -1]);
    assert_eq!(leap_targets("60074#0#-1#0#555#2#9", -1, &vec![-2, -3]), vec![-2, -2, -3, -3]);
    assert!(leap_targets("60074", -1, &vec![-2, -3]).is_empty());

    let enemies: Vec<i64> = (1..=20).map(|n| -n).collect();
    let raw = "60074#0#0#0#555#1#20";
    let order = catapult::execute(&mut round_rng(Some(4)), raw, &vec![], enemies.clone());
    assert_ne!(order, enemies);
    let mut sorted = order;
    sorted.sort();
    sorted.reverse();
    assert_eq!(sorted, enemies);
}

#[test]
fn poison_goes_to_whom_bears_most_of_it() {
    let rows = vec![buff_row(1, "803#5"), buff_row(2, "7|844#1"), buff_row(3, "7#803")];
    assert!(is_poison_family(&rows, 1) && is_poison_family(&rows, 2));
    assert!(!is_poison_family(&rows, 3) && !is_poison_family(&rows, 4));

    let f = battle_against(vec![enemy(-1, 3), enemy(-2, 1), enemy(-3, 2)]);
    let mut buffs = BuffMgr::new();
    buffs.set(-3, vec![buff(1, 1, 2), buff(2, 2, 0), buff(3, 3, 9)]);
    assert_eq!(poison_instance_count(&buffs, &rows, -3), 3);
    assert_eq!(enemy_position(&f, -1), 3);
    assert_eq!(enemy_position(&f, -9), 99);
    let uids = vec![-1, -2, -3, -9];
    assert_eq!(rank_enemies(&f, &buffs, &rows, &uids, 0), vec![-3, -2, -1, -9]);
    assert_eq!(rank_enemies(&f, &buffs, &rows, &uids, -1), vec![-3, -1, -2, -9]);

    let plan = plan_poison(&f, &buffs, &rows, &uids, -1, "60112#1#3#2#2").unwrap();
    assert_eq!((plan.buff_id, plan.stacks, plan.has_poison), (1, 3, true));
    assert_eq!(plan.pool, vec![-3, -1]);
    assert_eq!(plan.target(&f, &buffs, &rows, -1, 2), -3);
    buffs.set(-1, vec![buff(4, 1, 4)]);
    assert_eq!(plan.target(&f, &buffs, &rows, -1, 2), -1);

    let clean = BuffMgr::new();
    let even = plan_poison(&f, &clean, &rows, &uids, -1, "60112#1#3#2#2").unwrap();
    assert_eq!((even.has_poison, even.pool.clone()), (false, vec![-1, -2]));
    let spread: Vec<i64> = (0..3).map(|i| even.target(&f, &clean, &rows, -1, i)).collect();
    assert_eq!(spread, vec![-1, -2, -1]);

    assert!(plan_poison(&f, &clean, &rows, &uids, -1, "60112#1#0").is_none());
    assert!(plan_poison(&f, &clean, &rows, &uids, -1, "60112#0#3").is_none());
    assert!(plan_poison(&f, &clean, &rows, &vec![], -1, "60112#1#3").is_none());
    assert_eq!(plan_poison(&f, &clean, &rows, &uids, -1, "60112#1#3").unwrap().pool.len(), 1);
}
