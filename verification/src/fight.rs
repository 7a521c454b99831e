//! The start of a battle.

use crate::model::{Fight, FightActType, FightTaskBox, FightTeam, FightView};
use vstd::prelude::*;

verus! {

/// Who fights where.
#[derive(Clone, Copy, PartialEq, Eq, Structural, Debug)]
pub struct BattleContext {
    pub player_id: i64,
    pub chapter_id: i32,
    pub episode_id: i32,
    pub battle_id: i32,
    pub max_ap: i32,
}

/// A battle that is ready to start.
#[derive(Debug)]
pub struct BuiltFight {
    pub fight: Fight,
}

/// Sets two teams against each other: an ordinary battle in the first round of the
/// first wave, with no circle on the field, no tasks and nothing decided.
pub fn build_fight(ctx: &BattleContext, attacker: FightTeam, defender: FightTeam, max_round: i32)
    -> (r: BuiltFight)
    ensures
        r.fight@ == (FightView {
            attacker: Some(attacker@),
            defender: Some(defender@),
            cur_round: Some(1),
            max_round: Some(max_round),
            is_finish: Some(false),
            cur_wave: Some(1),
            battle_id: Some(ctx.battle_id),
            magic_circle: None,
            version: Some(5),
            is_record: Some(false),
            episode_id: Some(ctx.episode_id),
            fight_act_type: Some(FightActType::Normal),
            last_change_hero_uid: Some(0),
            progress: Some(0),
            progress_max: Some(0),
            fight_task_box: Some(Seq::empty()),
        }),
{
    BuiltFight {
        fight: Fight {
            attacker: Some(attacker),
            defender: Some(defender),
            cur_round: Some(1),
            max_round: Some(max_round),
            is_finish: Some(false),
            cur_wave: Some(1),
            battle_id: Some(ctx.battle_id),
            magic_circle: None,
            version: Some(5),
            is_record: Some(false),
            episode_id: Some(ctx.episode_id),
            fight_act_type: Some(FightActType::Normal),
            last_change_hero_uid: Some(0),
            progress: Some(0),
            progress_max: Some(0),
            fight_task_box: Some(FightTaskBox { tasks: Vec::new() }),
        },
    }
}

} // verus!
