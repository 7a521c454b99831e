use battle::buffs::{BuffInstance, BuffMgr};
use battle::event::Event;
use battle::fight_step::builder::{effect_container_step, wrap_step, ActEffectBuilder};
use battle::fight_step::steps::make_skill_step;
use battle::manager::entity_mgr::EntityMgr;
use battle::model::{
    ActEffect, BeginRoundOper, CardInfo, CardOpType, EffectType, Fight, FightEntityInfo, FightTeam,
    HeroAttribute,
};
use battle::chance::round_rng;
use battle::operation::ai_executor::{
    advance_ai_preview_after_cast, apply_preview_ex_delta, cast_step,
    clamp_ai_add_ex_with_max_effects, draw_player, draw_replay_cast, find_overflow, living_players,
    normalize_skill_effects_for_operation, plan_replay_cast, replay_primary_damage_targets,
    replay_wave, spend_ex_points, uses_ex_skill, Cast, CastLimits, OverflowRow, WaveProgress,
};
use battle::operation::parser::{apply_universal, OpPlan, ParsedOps};
use rand::rngs::StdRng;

fn fighter(uid: i64, hp: i32, position: i32) -> FightEntityInfo {
    FightEntityInfo {
        uid: Some(uid),
        model_id: None,
        position: Some(position),
        current_hp: Some(hp),
        shield_value: None,
        team_type: Some(if uid > 0 { 1 } else { 2 }),
        ex_point: None,
        ex_point_type: None,
        ex_skill: None,
        attr: Some(HeroAttribute { hp: Some(1000), attack: Some(1000), defense: None }),
        base_attr: None,
        passive_skill: vec![],
        skill_group1: vec![],
        skill_group2: vec![],
        buffs: vec![],
        power_infos: vec![],
    }
}

fn battle_of(attackers: Vec<FightEntityInfo>, defenders: Vec<FightEntityInfo>) -> Fight {
    Fight {
        attacker: Some(FightTeam { entitys: attackers, sub_entitys: vec![], power: None }),
        defender: Some(FightTeam { entitys: defenders, sub_entitys: vec![], power: None }),
        cur_round: Some(1),
        max_round: None,
        is_finish: None,
        cur_wave: None,
        battle_id: Some(4),
        magic_circle: None,
        version: None,
        is_record: None,
        episode_id: None,
        fight_act_type: None,
        last_change_hero_uid: None,
        progress: None,
        progress_max: None,
        fight_task_box: None,
    }
}

fn buff(uid: i64, buff_id: i32, stacks: i32, layer: i32) -> BuffInstance {
    BuffInstance {
        uid,
        buff_id,
        type_id: 0,
        from_uid: 7,
        from_skill_id: 0,
        stacks,
        layer,
        duration: 1,
    }
}

fn kinds(effects: &[ActEffect]) -> Vec<EffectType> {
    effects.iter().map(|e| e.effect_type.unwrap()).collect()
}

fn card(skill_id: i32) -> CardInfo {
    CardInfo { uid: Some(7), skill_id: Some(skill_id) }
}

fn op(kind: CardOpType, param1: i32, param2: i32, to_id: i64) -> BeginRoundOper {
    BeginRoundOper {
        oper_type: Some(kind),
        param1: Some(param1),
        param2: Some(param2),
        to_id: Some(to_id),
    }
}

fn skills(hand: &[CardInfo]) -> Vec<i32> {
    hand.iter().map(|c| c.skill_id.unwrap()).collect()
}

#[test]
fn cards_are_moved_and_played() {
    let mut hand = vec![card(1), card(2), card(3)];
    let mut ops = ParsedOps::new();
    let moved = ops.read_op(&mut hand, &op(CardOpType::MoveCard, 1, 3, 0));
    assert_eq!(moved, OpPlan::Move { card: card(1) });
    assert_eq!(skills(&hand), vec![2, 3, 1]);
    ops.note_upgrades(moved, 2);
    let played = ops.read_op(&mut hand, &op(CardOpType::PlayCard, 2, 0, -1));
    assert_eq!(played, OpPlan::Play { card: card(3) });
    assert_eq!(ops.read_op(&mut hand, &op(CardOpType::MoveCard, 1, 2, -1)), OpPlan::Play {
        card: card(2)
    });
    assert_eq!(skills(&hand), vec![1]);
    assert_eq!(ops.selected_cards, vec![card(3), card(2)]);
    assert_eq!(ops.player_events.len(), 5);
    assert!(matches!(ops.player_events[2], Event::CardUpgrade { .. }));
    assert_eq!(ops.read_op(&mut hand, &op(CardOpType::PlayCard, 0, 0, 0)), OpPlan::Nothing);
    assert_eq!(ops.read_op(&mut hand, &op(CardOpType::PlayCard, 2, 0, 0)), OpPlan::Nothing);
    assert_eq!(
        ops.read_op(&mut hand, &op(CardOpType::SimulateDissolveCard, 0, 0, 0)),
        OpPlan::Dissolve
    );
    assert_eq!(ops.player_events.len(), 6);
}

#[test]
fn a_universal_card_upgrades_another() {
    let mut hand = vec![card(30000001), card(2)];
    let mut ops = ParsedOps::new();
    let plan = ops.read_op(&mut hand, &op(CardOpType::MoveUniversal, 1, 2, 0));
    assert_eq!(plan, OpPlan::Upgrade { universal: 0, target: 1 });
    apply_universal(&mut hand, 0, 1, None);
    assert_eq!(hand.len(), 2);
    apply_universal(&mut hand, 0, 1, Some(22));
    assert_eq!(skills(&hand), vec![22]);
    assert_eq!(
        ops.read_op(&mut hand, &op(CardOpType::MoveUniversal, 1, 1, 0)),
        OpPlan::Nothing
    );
}

#[test]
fn recorded_casts_need_a_living_caster_and_a_target() {
    let f = battle_of(
        vec![fighter(7, 50, 1), fighter(8, 0, 2)],
        vec![fighter(-1, 50, 1), fighter(-2, 0, 2)],
    );
    assert_eq!(living_players(&f), vec![7]);
    let step = |from: i64, to: i64, id: i32| make_skill_step(from, to, id, 0, vec![]);
    let cast = |target_uid: i64| Some(Cast { caster_uid: -1, target_uid, skill_id: 9 });
    assert_eq!(plan_replay_cast(&f, &step(-1, 7, 9), None), cast(7));
    assert_eq!(plan_replay_cast(&f, &step(-1, 0, 9), Some(7)), cast(7));
    assert_eq!(plan_replay_cast(&f, &step(-1, 0, 9), None), None);
    assert_eq!(plan_replay_cast(&f, &step(-2, 7, 9), None), None);
    assert_eq!(plan_replay_cast(&f, &step(7, -1, 9), None), None);
    assert_eq!(plan_replay_cast(&f, &step(-1, 7, 0), None), None);
    assert_eq!(plan_replay_cast(&f, &step(-1, 77, 9), None), None);
    let mut rng = round_rng(Some(1));
    assert_eq!(draw_replay_cast(&f, &step(-1, 0, 9), &vec![7], &mut rng), cast(7));
    assert_eq!(draw_replay_cast(&f, &step(-1, 0, 9), &vec![], &mut rng), None);
    // a fallen caster draws nobody: the generator stays where it was
    let players: Vec<i64> = (1..=1000).collect();
    let mut a = round_rng(Some(3));
    let mut b = round_rng(Some(3));
    assert_eq!(draw_replay_cast(&f, &step(-2, 0, 9), &players, &mut a), None);
    let drawn = |rng: &mut StdRng| -> Vec<Option<i64>> {
        (0..5).map(|_| draw_player(&players, rng)).collect()
    };
    assert_eq!(drawn(&mut a), drawn(&mut b));

    let progress = WaveProgress {
        current_wave: 1,
        max_wave: 2,
        snapshot_applied: false,
        snapshot_wave: None,
    };
    assert_eq!(replay_wave(&step(-3, 7, 9), progress), Some(2));
    assert_eq!(replay_wave(&step(-1, 7, 9), progress), None);
    assert_eq!(replay_wave(&step(-5, 7, 9), progress), None);
    let covered = WaveProgress { snapshot_applied: true, snapshot_wave: Some(2), ..progress };
    assert_eq!(replay_wave(&step(-3, 7, 9), covered), None);
}

#[test]
fn the_targets_of_hits_are_listed_once() {
    let hit = |uid: i64| ActEffectBuilder::damage_skill(uid, 5, 0, None);
    let effects = vec![hit(7), hit(-1), hit(8), hit(7), ActEffectBuilder::bloodlust(9, 1)];
    assert_eq!(replay_primary_damage_targets(&effects), vec![7, 8]);
}

#[test]
fn the_wrapper_of_the_skill_itself_is_opened() {
    let root = wrap_step(make_skill_step(-1, 7, 9, 0, vec![
        ActEffectBuilder::bloodlust(1, 1),
        ActEffectBuilder::bloodlust(2, 1),
    ]));
    let out = normalize_skill_effects_for_operation(
        vec![root, ActEffectBuilder::effect_none(3)],
        -1,
        9,
    );
    assert_eq!(kinds(&out), vec![
        EffectType::Bloodlust,
        EffectType::Bloodlust,
        EffectType::NoEffect,
    ]);
    assert!(normalize_skill_effects_for_operation(vec![], -1, 9).is_empty());
    let cast = Cast { caster_uid: -1, target_uid: 7, skill_id: 9 };
    assert!(cast_step(cast, vec![]).is_none());
    assert_eq!(cast_step(cast, out).unwrap().act_effect.len(), 3);
}

#[test]
fn gains_of_ex_points_stop_at_the_maximum() {
    let mut caster = fighter(-1, 50, 1);
    caster.ex_point = Some(3);
    caster.ex_skill = Some(99);
    let mut f = battle_of(vec![], vec![caster]);
    let gain = ActEffect {
        config_effect: Some(20002),
        ..ActEffectBuilder::ex_point_change(-1, 9)
    };
    let mut buffs = BuffMgr::new();
    buffs.set(-1, vec![buff(1, 70, 1, 1)]);
    let rows = vec![OverflowRow { buff_id: 70, bonus: 2 }];
    assert_eq!(find_overflow(&buffs, &rows, -1), 2);
    assert_eq!(find_overflow(&buffs, &rows, -2), 0);
    let limits = |buffs: BuffMgr, caster_gains: bool| CastLimits {
        buffs,
        rows: vec![OverflowRow { buff_id: 70, bonus: 2 }],
        caster_uid: -1,
        caster_gains,
    };
    let nested = wrap_step(effect_container_step(0, 0, 0, vec![gain.clone()]));
    let out = clamp_ai_add_ex_with_max_effects(&f, &limits(BuffMgr::new(), true), &vec![
        gain.clone(),
        nested,
        ActEffectBuilder::ex_point_change(-1, 9),
    ]);
    assert_eq!(out[0].effect_num, Some(1));
    assert_eq!(out[1].fight_step.as_ref().unwrap().act_effect[0].effect_num, Some(1));
    assert_eq!(out[2].effect_num, Some(9));
    let more = clamp_ai_add_ex_with_max_effects(&f, &limits(buffs, false), &vec![gain]);
    assert_eq!(more[0].effect_num, Some(4));

    assert!(uses_ex_skill(&f, -1, 99) && !uses_ex_skill(&f, -1, 98));
    let mut mgr = EntityMgr::new(&f, &vec![]);
    let none = BuffMgr::new();
    let points = |f: &Fight| f.defender.as_ref().unwrap().entitys[0].ex_point;
    apply_preview_ex_delta(&mut f, &mut mgr, -1, 1, &none, &rows);
    assert_eq!((points(&f), mgr.get_ex_point(-1)), (Some(4), 4));
    let step = make_skill_step(-1, 7, 9, 0, vec![]);
    advance_ai_preview_after_cast(&mut f, &mut mgr, -1, true, &step, &none, &rows);
    advance_ai_preview_after_cast(&mut f, &mut mgr, -1, true, &step, &none, &rows);
    assert_eq!((points(&f), mgr.get_ex_point(-1)), (Some(5), 5));
    spend_ex_points(&mut f, &mut mgr, -1);
    assert_eq!(points(&f), Some(0));
}
