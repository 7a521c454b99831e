use battle::buffs::{BuffInstance, BuffMgr};
use battle::config::{SkillEffectRow, SlotRow};
use battle::effect::behavior::attr_modify::{
    self, calculate_bonus, calculate_bonuses, AttrBonus,
};
use battle::effect::behavior::{self, is_attr_fix, Family};
use battle::effect::condition::{
    self, hooks_for_type, round_interval, Condition, ConditionContext, ConditionEval, ConditionOp,
    Hook, OtherHooks, Reading,
};
use battle::effect::parser;
use battle::effect::slot::{gather_bonuses, AimedBehaviour, FiredBehaviour, SkillEffect, SlotEval};
use battle::manager::entity_mgr::EntityMgr;
use battle::manager::passive_mgr::{EffectTables, PassiveMgr};
use battle::manager::rule_mgr::RuleMgr;
use battle::manager::traits::Manager;
use battle::model::{Fight, FightEntityInfo, FightTeam, HeroAttribute};

const ELSEWHERE: OtherHooks =
    OtherHooks { teammate_dead: Hook::Dead, buff_added: Hook::BuffAdd };

fn fighter(uid: i64, hp: i32, max_hp: i32, passives: Vec<i32>) -> FightEntityInfo {
    FightEntityInfo {
        uid: Some(uid),
        model_id: None,
        position: Some(1),
        current_hp: Some(hp),
        shield_value: None,
        team_type: None,
        ex_point: None,
        ex_point_type: None,
        ex_skill: None,
        attr: Some(HeroAttribute { hp: Some(max_hp), attack: None, defense: None }),
        base_attr: None,
        passive_skill: passives,
        skill_group1: vec![],
        skill_group2: vec![],
        buffs: vec![],
        power_infos: vec![],
    }
}

fn battle_of(attackers: Vec<FightEntityInfo>, defenders: Vec<FightEntityInfo>) -> Fight {
    Fight {
        attacker: Some(FightTeam { entitys: attackers, sub_entitys: vec![], power: None }),
        defender: Some(FightTeam { entitys: defenders, sub_entitys: vec![], power: None }),
        cur_round: None,
        max_round: None,
        is_finish: None,
        cur_wave: None,
        battle_id: None,
        magic_circle: None,
        version: None,
        is_record: None,
        episode_id: None,
        fight_act_type: None,
        last_change_hero_uid: None,
        progress: None,
        progress_max: None,
        fight_task_box: None,
    }
}

fn slot_row(condition: &str, target: &str, behavior: &str, limit: i32, round_limit: i32) -> SlotRow {
    SlotRow {
        condition: condition.to_string(),
        condition_target: target.to_string(),
        behavior: behavior.to_string(),
        behavior_target: "103".to_string(),
        limit,
        round_limit,
    }
}

fn eval(targets: Vec<i64>, target_uid: i64) -> ConditionEval {
    ConditionEval { skill_targets: targets.clone(), targets, target_uid, lost_buff_id: None }
}

fn reading(outcome: bool, counts: Vec<i32>) -> Reading {
    Reading { outcome, counts }
}

fn condition_of(raw: &str, known: Vec<i32>) -> Condition {
    let ctx = ConditionContext { known, target: 103, elsewhere: ELSEWHERE };
    condition::parse(raw, &ctx).unwrap().0.remove(0)
}

#[test]
fn conditions_are_read_with_their_parameters() {
    let ctx = ConditionContext { known: vec![101, 49, 61203], target: 103, elsewhere: ELSEWHERE };
    let (all, op) = condition::parse("101&49#5!#x#6!!&999#1", &ctx).unwrap();
    assert_eq!(op, ConditionOp::And);
    assert_eq!(all.len(), 2);
    assert_eq!((all[0].cond_id, all[0].target), (101, 103));
    assert_eq!(all[0].hooks, vec![Hook::RoundStart]);
    assert_eq!(all[1].params, vec![5, 6]);
    let (any, op) = condition::parse("101|61203#7", &ctx).unwrap();
    assert_eq!((any.len(), op), (2, ConditionOp::Or));
    assert!(condition::parse("", &ctx).is_none());
    assert!(condition::parse("999#1", &ctx).is_none());
}

#[test]
fn every_condition_has_its_moment() {
    for (id, hook) in [
        (45104, Hook::RoundStart),
        (203, Hook::EvalActiveSkill),
        (210, Hook::AfterAction),
        (301, Hook::RoundEnd),
        (22209, Hook::EvalBeingAttacked),
        (812, Hook::Dead),
        (5021, Hook::EnterFight),
        (25210, Hook::UseExSkill),
        (49, Hook::BuffLost),
        (17, ELSEWHERE.teammate_dead),
        (10, ELSEWHERE.buff_added),
        (19209, Hook::EvalBeingAttacked),
        (19210, Hook::AfterAction),
        (61003, Hook::EvalActiveSkill),
    ] {
        assert_eq!(hooks_for_type(id, ELSEWHERE), vec![hook], "{id}");
    }
    assert!(hooks_for_type(66210, ELSEWHERE).is_empty());
}

#[test]
fn checks_of_each_kind() {
    let none = BuffMgr::new();
    let r = reading(false, vec![]);
    let aligned = condition_of("101", vec![101]);
    assert_eq!(aligned.check(&eval(vec![1, 2], 2), &none, &r), Some(1));
    assert_eq!(aligned.check(&eval(vec![1], 2), &none, &r), None);
    assert_eq!(condition_of("34210", vec![34210]).check(&eval(vec![2], 2), &none, &r), None);
    assert_eq!(condition_of("34210#1", vec![34210]).check(&eval(vec![2], 2), &none, &r), Some(1));

    let lost = condition_of("49#5#6", vec![49]);
    let mut e = eval(vec![2], 2);
    assert_eq!(lost.check(&e, &none, &r), None);
    e.lost_buff_id = Some(6);
    assert_eq!(lost.check(&e, &none, &r), Some(1));
    e.lost_buff_id = Some(7);
    assert_eq!(lost.check(&e, &none, &r), None);

    let mut buffs = BuffMgr::new();
    buffs.set(2, vec![BuffInstance {
        uid: 1,
        buff_id: 5,
        type_id: 0,
        from_uid: 0,
        from_skill_id: 0,
        stacks: 1,
        layer: 1,
        duration: 1,
    }]);
    let no_buff = condition_of("57208#5", vec![57208]);
    assert_eq!(no_buff.check(&eval(vec![2], 2), &buffs, &r), None);
    assert_eq!(no_buff.check(&eval(vec![3], 2), &buffs, &r), Some(1));

    let count = condition_of("61203#5", vec![61203]);
    assert_eq!(count.check(&eval(vec![2], 2), &buffs, &reading(false, vec![2, 3])), Some(5));
    assert_eq!(count.check(&eval(vec![2], 2), &buffs, &reading(false, vec![0])), None);
    assert_eq!(condition_of("17", vec![17]).check(&eval(vec![], 2), &buffs, &reading(true, vec![])),
        Some(1));
    assert_eq!(condition_of("66210", vec![66210]).check(&eval(vec![2], 2), &buffs, &r), None);
}

#[test]
fn round_intervals_are_read_from_the_parameters() {
    assert_eq!(round_interval(&vec![3, 2], Some(8)), (2, 3, 8));
    assert_eq!(round_interval(&vec![3], None), (3, 3, 1));
    assert_eq!(round_interval(&vec![], Some(8)), (0, 0, 8));
}

#[test]
fn a_slot_fires_within_its_limits() {
    let rows = vec![SkillEffectRow {
        id: 9,
        logic_target: String::new(),
        need_ex_point: 0,
        slots: vec![
            slot_row("101", "103", "1#55|10004#205#30", 3, 2),
            slot_row("", "103", "1#56", 0, 0),
            slot_row("101", "x", "1#57", 0, 0),
            slot_row("101", "103", "", 0, 0),
            slot_row("304", "103", "1#58", 0, 0),
        ],
    }];
    let mut e = parser::parse(&rows, 9, 7, &vec![101, 304], ELSEWHERE).unwrap();
    assert!(parser::parse(&rows, 8, 7, &vec![101], ELSEWHERE).is_none());
    assert_eq!((e.owner_uid, e.slots.len()), (7, 2));
    let evals = || {
        vec![
            SlotEval { eval: eval(vec![7], 7), readings: vec![reading(false, vec![])] },
            SlotEval { eval: eval(vec![7], 7), readings: vec![reading(false, vec![])] },
        ]
    };
    let buffs = BuffMgr::new();
    let fixes = e.fire_hook_attr_fix(Hook::RoundStart, &evals(), &buffs);
    assert_eq!(fixes.len(), 1);
    assert_eq!((fixes[0].raw.as_str(), fixes[0].target, fixes[0].count), ("10004#205#30", 103, 1));
    assert_eq!(e.slots[0].use_count, 0);

    let mut fired = 0;
    for _ in 0..3 {
        fired += e.fire_hook(Hook::RoundStart, &evals(), &buffs).len();
    }
    assert_eq!((fired, e.slots[0].use_count, e.slots[0].round_use_count), (2, 2, 2));
    e.reset_round_counts();
    for _ in 0..3 {
        fired += e.fire_hook(Hook::RoundStart, &evals(), &buffs).len();
    }
    assert_eq!((fired, e.slots[0].use_count), (3, 3));
    assert_eq!(e.fire_hook(Hook::RoundEnd, &evals(), &buffs)[0].raw, "1#58");
    // a counter that cannot grow any more does not matter at another moment
    e.slots[1].use_count = i32::MAX;
    e.reset_round_counts();
    e.slots[0].use_count = 0;
    assert_eq!(e.fire_hook(Hook::RoundStart, &evals(), &buffs).len(), 1);
    assert!(e.on_eval_active_skill(&evals(), &buffs).is_empty());
    assert!(SkillEffect::empty(3).slots.is_empty());
}

#[test]
fn all_or_one_of_the_conditions() {
    let make = |condition: &str| {
        let rows = vec![SkillEffectRow {
            id: 9,
            logic_target: String::new(),
            need_ex_point: 0,
            slots: vec![slot_row(condition, "103", "1#55", 0, 0)],
        }];
        parser::parse(&rows, 9, 7, &vec![201, 61203], ELSEWHERE).unwrap()
    };
    let evals = |aligned: bool, count: i32| {
        vec![SlotEval {
            eval: eval(if aligned { vec![7] } else { vec![] }, 7),
            readings: vec![reading(false, vec![]), reading(false, vec![count])],
        }]
    };
    let buffs = BuffMgr::new();
    let both = make("201&61203#5");
    let one = make("201|61203#5");
    assert_eq!(both.slots[0].check_conditions(&evals(true, 4)[0], &buffs), Some(1));
    assert_eq!(both.slots[0].check_conditions(&evals(true, 0)[0], &buffs), None);
    assert_eq!(one.slots[0].check_conditions(&evals(true, 4)[0], &buffs), Some(4));
    assert_eq!(one.slots[0].check_conditions(&evals(true, 0)[0], &buffs), Some(1));
    assert_eq!(one.slots[0].check_conditions(&evals(false, 0)[0], &buffs), None);
}

#[test]
fn bonuses_by_amount_and_by_lost_life() {
    let f = battle_of(vec![fighter(7, 450, 1000, vec![])], vec![]);
    let bonus = |raw: &str, count: i32| calculate_bonus(&f, 7, raw, count);
    assert_eq!(bonus("10004#205#30", 3), Some(AttrBonus { attr_id: 205, amount: 90 }));
    assert_eq!(bonus("10011#205#30", 0), Some(AttrBonus { attr_id: 205, amount: 30 }));
    assert_eq!(bonus("10004#0#30", 1), None);
    assert_eq!(bonus("10004#205#0", 1), None);
    // 550 thousandths are missing: five full steps of a hundred
    assert_eq!(bonus("60033#100#205#75#8", 1), Some(AttrBonus { attr_id: 205, amount: 375 }));
    assert_eq!(bonus("60033#100#205#75#2", 1), Some(AttrBonus { attr_id: 205, amount: 150 }));
    assert_eq!(bonus("60033#600#205#75#8", 1), None);
    assert_eq!(calculate_bonus(&f, 9, "60033#100#205#75#8", 1), None);
    assert_eq!(bonus("1#205#30", 1), None);

    let map = calculate_bonuses(&f, &vec![7, 8], "10004#205#30", 1);
    assert_eq!(map.get(&(7, 205)).unwrap(), &vec![30]);
    assert_eq!(map.get(&(8, 205)).unwrap(), &vec![30]);
    let mut mgr = EntityMgr::default();
    attr_modify::execute(&f, &mut mgr, 7, "10004#205#30", 2);
    assert_eq!(mgr.sum_attr_bonus(7, 205), 60);

    let aim = |amount: i32, targets: Vec<i64>| AimedBehaviour {
        fired: FiredBehaviour { raw: format!("10004#201#{amount}"), target: 103, count: 2 },
        targets,
    };
    // one behaviour adds up for a target that it names twice; two behaviours do not
    let aimed = vec![aim(5, vec![7, 7]), aim(4, vec![7, 8])];
    let gathered = gather_bonuses(&f, &aimed);
    assert_eq!(gathered.get(&(7, 201)).unwrap(), &vec![20, 8]);
    assert_eq!(gathered.get(&(8, 201)).unwrap(), &vec![8]);
}

#[test]
fn behaviours_belong_to_families() {
    assert_eq!(behavior::parse("1#5|10004#1#2", 3).len(), 2);
    assert!(is_attr_fix("10004#1") && is_attr_fix("60033") && !is_attr_fix("1#2"));
    for (raw, family) in [
        ("20002#1", Family::ExPoint),
        ("60211#1", Family::AddBuff),
        ("50006#1", Family::AddAct),
        ("50037#1", Family::Stats),
        ("60176#1", Family::Disperse),
        ("60028#1", Family::SkillRate),
        ("100017", Family::Misc),
        ("60074#1", Family::Catapult),
        ("20023#1", Family::Random),
        ("60272#1", Family::MagicCircle),
        ("60209#1", Family::NuodikaDamage),
        ("60127#1", Family::Damage),
        ("20018#1", Family::Heal),
        ("60052#1", Family::Empathy),
        ("60073#1", Family::DotSettle),
        ("60146#1", Family::LostLife),
        ("60199#1", Family::Bloodtithe),
        ("60112#1", Family::PoisonPriority),
        ("60239#1", Family::DirectSkill),
    ] {
        assert_eq!(behavior::execute(raw), Some(family), "{raw}");
    }
    assert_eq!(behavior::execute("10004#1"), None);
    assert_eq!(behavior::execute("x"), None);
}

#[test]
fn passives_and_rules_are_loaded_for_those_on_the_field() {
    let tables = EffectTables {
        rows: vec![SkillEffectRow {
            id: 9,
            logic_target: String::new(),
            need_ex_point: 0,
            slots: vec![slot_row("101", "103", "1#55", 0, 0)],
        }],
        known: vec![101],
        elsewhere: ELSEWHERE,
    };
    let f = battle_of(vec![fighter(7, 1, 1, vec![9, 10])], vec![fighter(-1, 1, 1, vec![])]);
    let mut passives = PassiveMgr::new(&f, &tables);
    assert_eq!(passives.get(7).unwrap().len(), 1);
    assert!(passives.get(-1).is_none());
    passives.get_mut(7).unwrap().clear();
    assert!(passives.get(7).unwrap().is_empty());

    let mut rules = RuleMgr::new(&f, &vec![(1, 9), (2, 9), (0, 9), (0, 10)], &tables);
    let owners: Vec<i64> = rules.effects.iter().map(|e| e.owner_uid).collect();
    assert_eq!(owners, vec![7, 7, -1, -1]);
    rules.on_battle_end();
    assert_eq!(rules.effects.len(), 4);
    assert!(rules.on_dead(&f, 7).is_empty());
}
