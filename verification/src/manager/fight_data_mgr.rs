//! All the state of one battle.

use crate::arith::{or_zero, value};
use crate::buffs::BuffMgr;
use crate::chance::{rng_of_seed, round_rng, seed_of_round};
use crate::config::MonsterSkillTemplateRow;
use crate::lookup::everyone;
use crate::manager::active_effect_mgr::ActiveEffectMgr;
use crate::manager::calculate_mgr::FightCalculateDataMgr;
use crate::manager::cloth_mgr::{
    cost_at, costs_of, power_fits, with_power, ClothError, ClothLevel, ClothMgr, ClothSkill,
};
use crate::manager::entity_mgr::{
    enrolled, locations, on_field, EntityMgr, EntityMgrView, FightExPointInfo,
};
use crate::manager::passive_mgr::{
    all_loaded, skill_effects_view, EffectTables, PassiveMgr,
};
use crate::manager::replay::{gauged_team, gauges_taken, recorded_infos, seed_replay_gauges};
use crate::manager::rule_mgr::{team_rule_effects, RuleMgr};
use crate::manager::wave_mgr::WaveMgr;
use crate::mechanics::shadowcloak::ShadowCloakState;
use crate::mechanics::Mechanics;
use crate::model::copies::copy_cards;
use crate::model::{
    effects_view, entities_view, CardInfo, EffectView, EntityView, Fight, FightEntityInfo,
    FightStep, FightView,
};
use rand::rngs::StdRng;
use vstd::prelude::*;

verus! {

/// The managers of a battle.
#[derive(Debug)]
pub struct Managers {
    pub entity_mgr: EntityMgr,
    pub calculate_mgr: FightCalculateDataMgr,
    pub buff_mgr: BuffMgr,
    pub wave_mgr: WaveMgr,
    pub cloth_mgr: ClothMgr,
    pub rule_mgr: RuleMgr,
    pub passive_mgr: PassiveMgr,
    pub active_effect_mgr: ActiveEffectMgr,
}

/// The trackers of everyone in a battle.
pub open spec fn first_trackers(f: FightView, templates: Seq<MonsterSkillTemplateRow>) -> EntityMgrView {
    enrolled(
        EntityMgrView { entity_cache: locations(f), ..EntityMgrView::nobody() },
        everyone(f),
        templates,
    )
}

impl Managers {
    /// The managers as a battle starts: everyone is tracked, the passives and rules of
    /// those on the field are loaded, and nothing has happened.
    pub open spec fn starts(
        &self,
        f: FightView,
        templates: Seq<MonsterSkillTemplateRow>,
        rules: Seq<(i32, i32)>,
        tables: EffectTables,
    ) -> bool {
        &&& self.entity_mgr@ == first_trackers(f, templates)
        &&& self.calculate_mgr.entity_mgr@ == first_trackers(f, templates)
        &&& effects_view(self.calculate_mgr.pending_effects@) == Seq::<EffectView>::empty()
        &&& forall|uid: i64| #[trigger] self.buff_mgr.of(uid).len() == 0
        &&& self.cloth_mgr.use_counts@ == Map::<i32, usize>::empty()
        &&& skill_effects_view(self.rule_mgr.effects@) == team_rule_effects(
            tables,
            rules,
            on_field(f.attacker),
        ) + team_rule_effects(tables, rules, on_field(f.defender))
        &&& self.passive_mgr@ == all_loaded(
            all_loaded(Map::empty(), on_field(f.attacker), tables),
            on_field(f.defender),
            tables,
        )
        &&& self.active_effect_mgr.next_idx == 0
        &&& self.active_effect_mgr.map@.dom() =~= Set::<usize>::empty()
        &&& self.active_effect_mgr.active_idx is None
    }

    /// The managers of a battle that starts.
    pub fn new(
        fight: &Fight,
        templates: &Vec<MonsterSkillTemplateRow>,
        rules: &Vec<(i32, i32)>,
        tables: &EffectTables,
    ) -> (r: Managers)
        ensures
            r.starts(fight@, templates@, rules@, *tables),
    {
        Managers {
            entity_mgr: EntityMgr::new(fight, templates),
            calculate_mgr: FightCalculateDataMgr::new(fight, templates),
            buff_mgr: BuffMgr::new(),
            wave_mgr: WaveMgr::new(),
            cloth_mgr: ClothMgr::new(),
            rule_mgr: RuleMgr::new(fight, rules, tables),
            passive_mgr: PassiveMgr::new(fight, tables),
            active_effect_mgr: ActiveEffectMgr::default(),
        }
    }

    /// Loads the passives and rules of a wave that has come.
    pub fn seed_wave(
        &mut self,
        wave: &Vec<FightEntityInfo>,
        rules: &Vec<(i32, i32)>,
        tables: &EffectTables,
    )
        ensures
            final(self).passive_mgr@ == all_loaded(
                old(self).passive_mgr@,
                entities_view(wave@),
                *tables,
            ),
            skill_effects_view(final(self).rule_mgr.effects@) == skill_effects_view(
                old(self).rule_mgr.effects@,
            ) + team_rule_effects(*tables, rules@, entities_view(wave@)),
            final(self).entity_mgr == old(self).entity_mgr,
            final(self).calculate_mgr == old(self).calculate_mgr,
            final(self).buff_mgr == old(self).buff_mgr,
            final(self).wave_mgr == old(self).wave_mgr,
            final(self).cloth_mgr == old(self).cloth_mgr,
            final(self).active_effect_mgr == old(self).active_effect_mgr,
    {
        self.passive_mgr.seed_entities(wave, tables);
        self.rule_mgr.seed_team(wave, rules, tables);
    }
}

/// What a round reports: its steps, the attackers' power, and the cards in hand.
#[derive(Debug)]
pub struct FightRound {
    pub fight_step: Vec<FightStep>,
    pub power: Option<i32>,
    pub team_a_cards1: Vec<CardInfo>,
}

/// The cards that a player is dealt.
#[derive(Debug)]
pub struct CardInfoPush {
    pub card_group: Vec<CardInfo>,
}

/// Whether somebody of a list is alive.
pub open spec fn somebody_lives(s: Seq<EntityView>) -> bool {
    exists|k: int| 0 <= k < s.len() && or_zero((#[trigger] s[k]).current_hp) > 0
}

fn finds_somebody(v: &Vec<FightEntityInfo>) -> (r: bool)
    ensures
        r == somebody_lives(entities_view(v@)),
{
    let ghost s = entities_view(v@);
    for i in 0..v.len()
        invariant
            s == entities_view(v@),
            forall|k: int| 0 <= k < i ==> or_zero((#[trigger] s[k]).current_hp) <= 0,
    {
        assert(s[i as int] == v@[i as int]@);
        if value(v[i].current_hp) > 0 {
            assert(or_zero(s[i as int].current_hp) > 0);
            return true;
        }
    }
    false
}

/// The state of one battle.
#[derive(Debug)]
pub struct FightDataMgr {
    pub fight: Fight,
    /// The battle as it started.
    pub pre_fight: Option<Fight>,
    pub mechanics: Mechanics,
    pub managers: Managers,
    /// The round that was reported last.
    pub last_round: Option<FightRound>,
    /// The cards that the player was dealt first.
    pub initial_card_push: Option<CardInfoPush>,
}

impl FightDataMgr {
    /// A battle that starts. `dealt` are the cards that the deck dealt for it.
    pub fn new(
        fight: Fight,
        dealt: CardInfoPush,
        templates: &Vec<MonsterSkillTemplateRow>,
        rules: &Vec<(i32, i32)>,
        tables: &EffectTables,
    ) -> (r: FightDataMgr)
        ensures
            r.fight@ == fight@,
            r.pre_fight is Some && r.pre_fight->0@ == fight@,
            r.mechanics.channel.monitor_triggers@.len() == 0,
            r.mechanics.shadow_cloak == (ShadowCloakState {
                total_shared: 0,
                last_gain_shared: 0,
                rubuska_entry_max_hp: 0,
                rubuska_uid: 0,
                raspberry_accum: 0,
                raspberry_max: 0,
            }),
            r.managers.starts(fight@, templates@, rules@, *tables),
            r.last_round is None,
            r.initial_card_push == Some(dealt),
    {
        let pre_fight = Some(fight.clone());
        let managers = Managers::new(&fight, templates, rules, tables);
        FightDataMgr {
            fight,
            pre_fight,
            mechanics: Mechanics::new(),
            managers,
            last_round: None,
            initial_card_push: Some(dealt),
        }
    }

    /// The battle.
    pub fn fight(&self) -> (r: &Fight)
        ensures
            *r == self.fight,
    {
        &self.fight
    }

    /// The battle.
    pub fn get_fight(&self) -> (r: &Fight)
        ensures
            *r == self.fight,
    {
        &self.fight
    }

    /// The battle, to be changed.
    pub fn fight_mut(&mut self) -> (r: &mut Fight)
        ensures
            *r == old(self).fight,
            final(self).fight == *final(r),
            final(self).pre_fight == old(self).pre_fight,
            final(self).mechanics == old(self).mechanics,
            final(self).managers == old(self).managers,
            final(self).last_round == old(self).last_round,
            final(self).initial_card_push == old(self).initial_card_push,
    {
        &mut self.fight
    }

    /// Starts the generator of the present round.
    pub fn start_round(&self) -> (r: StdRng)
        ensures
            r == rng_of_seed(seed_of_round(self.fight@.cur_round)),
    {
        round_rng(self.fight.cur_round)
    }

    /// The result of the battle: lost (zero) where no attacker on the field is alive.
    pub fn check_battle_result(&self) -> (r: i32)
        ensures
            r == (if somebody_lives(on_field(self.fight@.attacker)) {
                1i32
            } else {
                0i32
            }),
    {
        let heroes_alive: bool = match &self.fight.attacker {
            Some(t) => finds_somebody(&t.entitys),
            None => false,
        };
        if heroes_alive {
            1
        } else {
            0
        }
    }

    /// Uses a cloth skill: counts it, takes its cost, and says what it does to the
    /// deck. A skill that the cloth does not have is neither counted nor paid.
    pub fn execute_cloth_skill(&mut self, skill_id: i32, cloth: &Option<ClothLevel>) -> (r: Result<
        ClothSkill,
        ClothError,
    >)
        requires
            old(self).managers.cloth_mgr.uses(skill_id) < usize::MAX,
            cloth is Some && costs_of(cloth->0, skill_id) is Some ==> ({
                let cost = cost_at(
                    costs_of(cloth->0, skill_id)->0,
                    old(self).managers.cloth_mgr.uses(skill_id) as nat,
                );
                cost > i32::MIN && power_fits(old(self).fight@, *cloth, (-cost) as i32)
            }),
        ensures
            ({
                let n = old(self).managers.cloth_mgr.uses(skill_id);
                let counts = old(self).managers.cloth_mgr.use_counts@;
                let refused = cloth is None || costs_of(cloth->0, skill_id) is None;
                &&& refused ==> {
                    &&& r == Err::<ClothSkill, ClothError>(
                        if cloth is None {
                            ClothError::NoCloth
                        } else {
                            ClothError::Unimplemented { skill_id }
                        },
                    )
                    &&& final(self).managers.cloth_mgr.use_counts@ == counts
                    &&& final(self).fight@ == old(self).fight@
                }
                &&& !refused ==> {
                    &&& r == (if skill_id == 30010201 {
                        Ok::<ClothSkill, ClothError>(ClothSkill::UniversalCard)
                    } else if skill_id == 30010202 {
                        Ok::<ClothSkill, ClothError>(ClothSkill::RedealCards)
                    } else {
                        Err::<ClothSkill, ClothError>(ClothError::Unimplemented { skill_id })
                    })
                    &&& final(self).managers.cloth_mgr.use_counts@ == counts.insert(
                        skill_id,
                        (n + 1) as usize,
                    )
                    &&& final(self).fight@ == with_power(
                        old(self).fight@,
                        *cloth,
                        (-cost_at(costs_of(cloth->0, skill_id)->0, n as nat)) as i32,
                    )
                }
            }),
            final(self).pre_fight == old(self).pre_fight,
            final(self).mechanics == old(self).mechanics,
            final(self).managers.entity_mgr == old(self).managers.entity_mgr,
            final(self).managers.calculate_mgr == old(self).managers.calculate_mgr,
            final(self).managers.buff_mgr == old(self).managers.buff_mgr,
            final(self).managers.wave_mgr == old(self).managers.wave_mgr,
            final(self).managers.rule_mgr == old(self).managers.rule_mgr,
            final(self).managers.passive_mgr == old(self).managers.passive_mgr,
            final(self).managers.active_effect_mgr == old(self).managers.active_effect_mgr,
            final(self).last_round == old(self).last_round,
            final(self).initial_card_push == old(self).initial_card_push,
    {
        self.managers.cloth_mgr.execute_skill(skill_id, &mut self.fight, cloth)
    }

    /// The report of a round: its steps, the power that is left, and the hand.
    pub fn cloth_round(&self, steps: Vec<FightStep>, hand: &Vec<CardInfo>) -> (r: FightRound)
        ensures
            r.fight_step == steps,
            r.power == match self.fight@.attacker {
                Some(t) => t.power,
                None => None,
            },
            r.team_a_cards1@ == hand@,
    {
        FightRound {
            fight_step: steps,
            power: match &self.fight.attacker {
                Some(t) => t.power,
                None => None,
            },
            team_a_cards1: copy_cards(hand),
        }
    }

    /// Before a recorded round is played: everyone is tracked anew.
    pub fn begin_replay(&mut self, templates: &Vec<MonsterSkillTemplateRow>)
        ensures
            final(self).fight == old(self).fight,
            final(self).pre_fight == old(self).pre_fight,
            final(self).mechanics == old(self).mechanics,
            final(self).managers.entity_mgr@ == enrolled(
                old(self).managers.entity_mgr@,
                everyone(old(self).fight@),
                templates@,
            ),
            final(self).managers.calculate_mgr == old(self).managers.calculate_mgr,
            final(self).managers.buff_mgr == old(self).managers.buff_mgr,
            final(self).managers.wave_mgr == old(self).managers.wave_mgr,
            final(self).managers.cloth_mgr == old(self).managers.cloth_mgr,
            final(self).managers.rule_mgr == old(self).managers.rule_mgr,
            final(self).managers.passive_mgr == old(self).managers.passive_mgr,
            final(self).managers.active_effect_mgr == old(self).managers.active_effect_mgr,
            final(self).last_round == old(self).last_round,
            final(self).initial_card_push == old(self).initial_card_push,
    {
        self.managers.entity_mgr.init(&self.fight, templates);
    }

    /// After a recorded round was played: the recorded gauges count, in the battle and
    /// its trackers, and everyone is looked up again.
    pub fn seed_replay_state(&mut self, infos: &Vec<FightExPointInfo>)
        ensures
            final(self).fight@ == (FightView {
                attacker: gauged_team(old(self).fight@.attacker, recorded_infos(infos@)),
                defender: gauged_team(old(self).fight@.defender, recorded_infos(infos@)),
                ..old(self).fight@
            }),
            final(self).managers.entity_mgr@ == (EntityMgrView {
                entity_cache: locations(final(self).fight@),
                ..gauges_taken(
                    old(self).managers.entity_mgr@,
                    everyone(old(self).fight@),
                    recorded_infos(infos@),
                )
            }),
            final(self).managers.calculate_mgr.entity_mgr@ == (EntityMgrView {
                entity_cache: locations(final(self).fight@),
                ..old(self).managers.calculate_mgr.entity_mgr@
            }),
            final(self).managers.calculate_mgr.pending_effects@ == old(
                self,
            ).managers.calculate_mgr.pending_effects@,
            final(self).managers.buff_mgr == old(self).managers.buff_mgr,
            final(self).managers.wave_mgr == old(self).managers.wave_mgr,
            final(self).managers.cloth_mgr == old(self).managers.cloth_mgr,
            final(self).managers.rule_mgr == old(self).managers.rule_mgr,
            final(self).managers.passive_mgr == old(self).managers.passive_mgr,
            final(self).managers.active_effect_mgr == old(self).managers.active_effect_mgr,
            final(self).mechanics == old(self).mechanics,
            final(self).pre_fight == old(self).pre_fight,
            final(self).last_round == old(self).last_round,
            final(self).initial_card_push == old(self).initial_card_push,
    {
        seed_replay_gauges(&mut self.fight, infos, &mut self.managers.entity_mgr);
        self.managers.entity_mgr.rebuild_cache(&self.fight);
        self.managers.calculate_mgr.update_cache(&self.fight);
    }
}

} // verus!
