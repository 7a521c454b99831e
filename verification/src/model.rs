//! The plain data a battle is made of: the two teams and their entities, the
//! effects that a skill produces, and the steps that carry those effects.
//!
//! Each type that owns a vector or a string has a view that shows it through
//! sequences. Contracts compare values by these views.

pub mod copies;
pub mod lists;

use vstd::prelude::*;

verus! {

/// What an effect does. Effects that no rule singles out keep their wire code.
#[derive(Clone, Copy, PartialEq, Eq, Structural, Debug)]
pub enum EffectType {
    NoEffect,
    AddExPoint,
    AddToTarget,
    AdditionalDamage,
    AdditionalDamageCrit,
    AfterReDealCard,
    AllocateCardEnergy,
    Attr,
    AverageLife,
    BloodPoolMaxChange,
    BloodPoolMaxCreate,
    BloodPoolValueChange,
    Bloodlust,
    BuffActInfoUpdate,
    BuffAdd,
    BuffAddNoEffect,
    BuffDel,
    BuffDelNoEffect,
    BuffUpdate,
    Burn,
    CardDeckNum,
    CardInvalid,
    CardsPush,
    ChangeHero,
    ChangeRound,
    ChangeToTempCard,
    ClearUniversalCard,
    Crit,
    Cure,
    CureUpByLostHp,
    CurrentHpChange,
    Damage,
    DamageExtra,
    DamageFromAbsorb,
    DamageFromLostHp,
    DamageShareHp,
    Dead,
    DeadlyPoisonOriginCrit,
    DeadlyPoisonOriginDamage,
    DealCard1,
    DealCard2,
    DirectUseExSkill,
    EnchantBurnDamage,
    EnchantDepresseDamage,
    EnterFightDeal,
    ExPointChange,
    ExPointDel,
    ExPointOverflowBank,
    FightCounter,
    FightHurtDetail,
    FightStep,
    Heal,
    HealCrit,
    InjuryBankHeal,
    Kill,
    MagicCircleAdd,
    MagicCircleDelete,
    MagicCircleUpdate,
    MasterHalo,
    MaxHpChange,
    MonsterLabelBuff,
    NewChangeWave,
    NuodikaRandomAttack,
    NuodikaRandomAttackNum,
    NuodikaTeamAttack,
    OriginCrit,
    OriginDamage,
    Poison,
    PowerChange,
    Rebound,
    RemoveEntityCards,
    RoundEnd,
    ShareHurt,
    Shield,
    ShieldBroken,
    ShieldChange,
    ShieldDel,
    SlaveHalo,
    SmallRoundEnd,
    SpCardAdd,
    StorageInjury,
    SubHeroLifeChange,
    TeammateInjuryCount,
    UseCards,
    Other(i32),
}

/// Where a hit came from.
#[derive(Clone, Copy, PartialEq, Eq, Structural, Debug)]
pub enum DamageFromType {
    SkillEffect,
    Buff,
    Other(i32),
}

/// Whether a step plays a skill or only carries effects.
#[derive(Clone, Copy, PartialEq, Eq, Structural, Debug)]
pub enum ActType {
    Skill,
    Effect,
    Other(i32),
}

/// How the layers of a buff are shown.
#[derive(Clone, Copy, PartialEq, Eq, Structural, Debug)]
pub enum BuffLayerType {
    Normal,
    Other(i32),
}

/// The record of one hit.
#[derive(Clone, Copy, PartialEq, Eq, Structural, Debug)]
pub struct FightHurtInfo {
    pub damage: Option<i32>,
    pub reduce_hp: Option<i32>,
    pub reduce_shield: Option<i32>,
    pub career_restraint: Option<bool>,
    pub critical: Option<bool>,
    pub assassinate: Option<bool>,
    pub hurt_effect: Option<EffectType>,
    pub damage_from_type: Option<DamageFromType>,
    pub config_effect: Option<i32>,
    pub buff_act_id: Option<i32>,
    pub effect_id: Option<i32>,
    pub skill_id: Option<i32>,
    pub from_uid: Option<i64>,
    pub buff_uid: Option<i32>,
}

/// A card as it is dealt or played.
#[derive(Clone, Copy, PartialEq, Eq, Structural, Debug)]
pub struct CardInfo {
    pub uid: Option<i64>,
    pub skill_id: Option<i32>,
}

/// What a player does with a card.
#[derive(Clone, Copy, PartialEq, Eq, Structural, Debug)]
pub enum CardOpType {
    MoveCard,
    PlayCard,
    AssistBoss,
    PlayerFinisherSkill,
    BloodPool,
    MoveUniversal,
    SimulateDissolveCard,
    Other(i32),
}

/// One operation of a player at the start of a round. An operation of an unknown
/// code has no type.
#[derive(Clone, Copy, PartialEq, Eq, Structural, Debug)]
pub struct BeginRoundOper {
    pub oper_type: Option<CardOpType>,
    pub param1: Option<i32>,
    pub param2: Option<i32>,
    pub to_id: Option<i64>,
}

/// The magic circle on the field.
#[derive(Clone, Copy, PartialEq, Eq, Structural, Debug)]
pub struct MagicCircleInfo {
    pub magic_circle_id: Option<i32>,
    pub round: Option<i32>,
    pub create_uid: Option<i64>,
    pub electric_level: Option<i32>,
    pub electric_progress: Option<i32>,
    pub max_electric_progress: Option<i32>,
}

/// The main attributes of an entity.
#[derive(Clone, Copy, PartialEq, Eq, Structural, Debug)]
pub struct HeroAttribute {
    pub hp: Option<i32>,
    pub attack: Option<i32>,
    pub defense: Option<i32>,
}

/// One power gauge of an entity.
#[derive(Clone, Copy, PartialEq, Eq, Structural, Debug)]
pub struct PowerInfo {
    pub power_id: Option<i32>,
    pub num: Option<i32>,
    pub max: Option<i32>,
}

/// A change of the parameters of one act of a buff.
#[derive(Debug)]
pub struct BuffActInfo {
    pub act_id: Option<i32>,
    pub param: Vec<i32>,
}

/// [`BuffActInfo`] as a mathematical value.
pub struct BuffActInfoView {
    pub act_id: Option<i32>,
    pub param: Seq<i32>,
}

impl View for BuffActInfo {
    type V = BuffActInfoView;

    open spec fn view(&self) -> BuffActInfoView {
        BuffActInfoView { act_id: self.act_id, param: self.param@ }
    }
}

/// A buff as the client shows it.
#[derive(Debug)]
pub struct BuffInfo {
    pub buff_id: Option<i32>,
    pub duration: Option<i32>,
    pub uid: Option<i64>,
    pub ex_info: Option<i32>,
    pub from_uid: Option<i64>,
    pub count: Option<i32>,
    pub act_common_params: Option<String>,
    pub layer: Option<i32>,
    pub layer_type: Option<BuffLayerType>,
    pub act_info: Vec<BuffActInfo>,
}

/// [`BuffInfo`] as a mathematical value.
pub struct BuffInfoView {
    pub buff_id: Option<i32>,
    pub duration: Option<i32>,
    pub uid: Option<i64>,
    pub ex_info: Option<i32>,
    pub from_uid: Option<i64>,
    pub count: Option<i32>,
    pub act_common_params: Option<Seq<char>>,
    pub layer: Option<i32>,
    pub layer_type: Option<BuffLayerType>,
    pub act_info: Seq<BuffActInfoView>,
}

/// The characters of an optional string.
pub open spec fn text_view(s: Option<String>) -> Option<Seq<char>> {
    match s {
        Some(t) => Some(t@),
        None => None,
    }
}

impl View for BuffInfo {
    type V = BuffInfoView;

    open spec fn view(&self) -> BuffInfoView {
        BuffInfoView {
            buff_id: self.buff_id,
            duration: self.duration,
            uid: self.uid,
            ex_info: self.ex_info,
            from_uid: self.from_uid,
            count: self.count,
            act_common_params: text_view(self.act_common_params),
            layer: self.layer,
            layer_type: self.layer_type,
            act_info: Seq::new(self.act_info@.len(), |i: int| self.act_info@[i]@),
        }
    }
}

/// One fighter, on the field or in reserve.
#[derive(Debug)]
pub struct FightEntityInfo {
    pub uid: Option<i64>,
    pub model_id: Option<i32>,
    pub position: Option<i32>,
    pub current_hp: Option<i32>,
    pub shield_value: Option<i32>,
    pub team_type: Option<i32>,
    pub ex_point: Option<i32>,
    pub ex_point_type: Option<i32>,
    pub ex_skill: Option<i32>,
    pub attr: Option<HeroAttribute>,
    pub base_attr: Option<HeroAttribute>,
    pub passive_skill: Vec<i32>,
    pub skill_group1: Vec<i32>,
    pub skill_group2: Vec<i32>,
    pub buffs: Vec<BuffInfo>,
    pub power_infos: Vec<PowerInfo>,
}

/// [`FightEntityInfo`] as a mathematical value.
pub struct EntityView {
    pub uid: Option<i64>,
    pub model_id: Option<i32>,
    pub position: Option<i32>,
    pub current_hp: Option<i32>,
    pub shield_value: Option<i32>,
    pub team_type: Option<i32>,
    pub ex_point: Option<i32>,
    pub ex_point_type: Option<i32>,
    pub ex_skill: Option<i32>,
    pub attr: Option<HeroAttribute>,
    pub base_attr: Option<HeroAttribute>,
    pub passive_skill: Seq<i32>,
    pub skill_group1: Seq<i32>,
    pub skill_group2: Seq<i32>,
    pub buffs: Seq<BuffInfoView>,
    pub power_infos: Seq<PowerInfo>,
}

impl View for FightEntityInfo {
    type V = EntityView;

    open spec fn view(&self) -> EntityView {
        EntityView {
            uid: self.uid,
            model_id: self.model_id,
            position: self.position,
            current_hp: self.current_hp,
            shield_value: self.shield_value,
            team_type: self.team_type,
            ex_point: self.ex_point,
            ex_point_type: self.ex_point_type,
            ex_skill: self.ex_skill,
            attr: self.attr,
            base_attr: self.base_attr,
            passive_skill: self.passive_skill@,
            skill_group1: self.skill_group1@,
            skill_group2: self.skill_group2@,
            buffs: Seq::new(self.buffs@.len(), |i: int| self.buffs@[i]@),
            power_infos: self.power_infos@,
        }
    }
}

/// One side of a battle.
#[derive(Debug)]
pub struct FightTeam {
    pub entitys: Vec<FightEntityInfo>,
    pub sub_entitys: Vec<FightEntityInfo>,
    pub power: Option<i32>,
}

/// [`FightTeam`] as a mathematical value.
pub struct TeamView {
    pub entitys: Seq<EntityView>,
    pub sub_entitys: Seq<EntityView>,
    pub power: Option<i32>,
}

/// The fighters of a list, each by its view.
pub open spec fn entities_view(s: Seq<FightEntityInfo>) -> Seq<EntityView> {
    Seq::new(s.len(), |i: int| s[i]@)
}

impl View for FightTeam {
    type V = TeamView;

    open spec fn view(&self) -> TeamView {
        TeamView {
            entitys: entities_view(self.entitys@),
            sub_entitys: entities_view(self.sub_entitys@),
            power: self.power,
        }
    }
}

/// The kind of a battle; other kinds than the ordinary one are kept by their number.
#[derive(Clone, Copy, PartialEq, Eq, Structural, Debug)]
pub enum FightActType {
    Normal,
    Other(i32),
}

/// The tasks of a battle, by their ids.
#[derive(Debug)]
pub struct FightTaskBox {
    pub tasks: Vec<i32>,
}

/// The state of a battle that the client sees.
#[derive(Debug)]
pub struct Fight {
    pub attacker: Option<FightTeam>,
    pub defender: Option<FightTeam>,
    pub cur_round: Option<i32>,
    pub max_round: Option<i32>,
    pub is_finish: Option<bool>,
    pub cur_wave: Option<i32>,
    pub battle_id: Option<i32>,
    pub magic_circle: Option<MagicCircleInfo>,
    pub version: Option<i32>,
    pub is_record: Option<bool>,
    pub episode_id: Option<i32>,
    pub fight_act_type: Option<FightActType>,
    pub last_change_hero_uid: Option<i64>,
    pub progress: Option<i32>,
    pub progress_max: Option<i32>,
    pub fight_task_box: Option<FightTaskBox>,
}

/// [`Fight`] as a mathematical value.
pub struct FightView {
    pub attacker: Option<TeamView>,
    pub defender: Option<TeamView>,
    pub cur_round: Option<i32>,
    pub max_round: Option<i32>,
    pub is_finish: Option<bool>,
    pub cur_wave: Option<i32>,
    pub battle_id: Option<i32>,
    pub magic_circle: Option<MagicCircleInfo>,
    pub version: Option<i32>,
    pub is_record: Option<bool>,
    pub episode_id: Option<i32>,
    pub fight_act_type: Option<FightActType>,
    pub last_change_hero_uid: Option<i64>,
    pub progress: Option<i32>,
    pub progress_max: Option<i32>,
    pub fight_task_box: Option<Seq<i32>>,
}

/// An optional task box by the ids of its tasks.
pub open spec fn tasks_view(b: Option<FightTaskBox>) -> Option<Seq<i32>> {
    match b {
        Some(b) => Some(b.tasks@),
        None => None,
    }
}

/// An optional team by its view.
pub open spec fn team_view(t: Option<FightTeam>) -> Option<TeamView> {
    match t {
        Some(t) => Some(t@),
        None => None,
    }
}

impl View for Fight {
    type V = FightView;

    open spec fn view(&self) -> FightView {
        FightView {
            attacker: team_view(self.attacker),
            defender: team_view(self.defender),
            cur_round: self.cur_round,
            max_round: self.max_round,
            is_finish: self.is_finish,
            cur_wave: self.cur_wave,
            battle_id: self.battle_id,
            magic_circle: self.magic_circle,
            version: self.version,
            is_record: self.is_record,
            episode_id: self.episode_id,
            fight_act_type: self.fight_act_type,
            last_change_hero_uid: self.last_change_hero_uid,
            progress: self.progress,
            progress_max: self.progress_max,
            fight_task_box: tasks_view(self.fight_task_box),
        }
    }
}

/// One effect of a step. A wrapper effect carries a whole nested step.
#[derive(Debug)]
pub struct ActEffect {
    pub effect_type: Option<EffectType>,
    pub target_id: Option<i64>,
    pub effect_num: Option<i32>,
    pub effect_num1: Option<i32>,
    pub buff: Option<BuffInfo>,
    pub card_info_list: Vec<CardInfo>,
    pub config_effect: Option<i32>,
    pub buff_act_id: Option<i32>,
    pub reserve_id: Option<i64>,
    pub reserve_str: Option<String>,
    pub team_type: Option<i32>,
    pub hurt_info: Option<FightHurtInfo>,
    pub buff_act_info: Option<BuffActInfo>,
    pub magic_circle: Option<MagicCircleInfo>,
    pub fight: Option<Fight>,
    pub entity: Option<FightEntityInfo>,
    pub fight_step: Option<FightStep>,
}

/// One step of a round: who acts on whom, with what, and the effects of it.
#[derive(Debug)]
pub struct FightStep {
    pub act_type: Option<ActType>,
    pub from_id: Option<i64>,
    pub to_id: Option<i64>,
    pub act_id: Option<i32>,
    pub act_effect: Vec<ActEffect>,
    pub card_index: Option<i32>,
    pub support_hero_id: Option<i32>,
    pub fake_timeline: Option<bool>,
    pub real_skill_type: Option<i32>,
    pub real_skin_id: Option<i32>,
}

/// [`ActEffect`] as a mathematical value.
pub struct EffectView {
    pub effect_type: Option<EffectType>,
    pub target_id: Option<i64>,
    pub effect_num: Option<i32>,
    pub effect_num1: Option<i32>,
    pub buff: Option<BuffInfoView>,
    pub card_info_list: Seq<CardInfo>,
    pub config_effect: Option<i32>,
    pub buff_act_id: Option<i32>,
    pub reserve_id: Option<i64>,
    pub reserve_str: Option<Seq<char>>,
    pub team_type: Option<i32>,
    pub hurt_info: Option<FightHurtInfo>,
    pub buff_act_info: Option<BuffActInfoView>,
    pub magic_circle: Option<MagicCircleInfo>,
    pub fight: Option<FightView>,
    pub entity: Option<EntityView>,
    pub fight_step: Option<StepView>,
}

/// [`FightStep`] as a mathematical value.
pub struct StepView {
    pub act_type: Option<ActType>,
    pub from_id: Option<i64>,
    pub to_id: Option<i64>,
    pub act_id: Option<i32>,
    pub act_effect: Seq<EffectView>,
    pub card_index: Option<i32>,
    pub support_hero_id: Option<i32>,
    pub fake_timeline: Option<bool>,
    pub real_skill_type: Option<i32>,
    pub real_skin_id: Option<i32>,
}

/// The view of an effect, nested steps included.
pub open spec fn effect_view(e: ActEffect) -> EffectView
    decreases e,
{
    EffectView {
        effect_type: e.effect_type,
        target_id: e.target_id,
        effect_num: e.effect_num,
        effect_num1: e.effect_num1,
        buff: match e.buff {
            Some(b) => Some(b@),
            None => None,
        },
        card_info_list: e.card_info_list@,
        config_effect: e.config_effect,
        buff_act_id: e.buff_act_id,
        reserve_id: e.reserve_id,
        reserve_str: text_view(e.reserve_str),
        team_type: e.team_type,
        hurt_info: e.hurt_info,
        buff_act_info: match e.buff_act_info {
            Some(b) => Some(b@),
            None => None,
        },
        magic_circle: e.magic_circle,
        fight: match e.fight {
            Some(f) => Some(f@),
            None => None,
        },
        entity: match e.entity {
            Some(x) => Some(x@),
            None => None,
        },
        fight_step: match e.fight_step {
            Some(s) => Some(step_view(s)),
            None => None,
        },
    }
}

/// The view of a step, nested steps included.
pub open spec fn step_view(s: FightStep) -> StepView
    decreases s,
{
    StepView {
        act_type: s.act_type,
        from_id: s.from_id,
        to_id: s.to_id,
        act_id: s.act_id,
        act_effect: effects_view(s.act_effect@),
        card_index: s.card_index,
        support_hero_id: s.support_hero_id,
        fake_timeline: s.fake_timeline,
        real_skill_type: s.real_skill_type,
        real_skin_id: s.real_skin_id,
    }
}

/// The effects of a list, each by its view.
pub open spec fn effects_view(v: Seq<ActEffect>) -> Seq<EffectView>
    decreases v,
{
    Seq::new(
        v.len(),
        |i: int|
            if 0 <= i < v.len() {
                effect_view(v[i])
            } else {
                arbitrary()
            },
    )
}

impl View for ActEffect {
    type V = EffectView;

    open spec fn view(&self) -> EffectView {
        effect_view(*self)
    }
}

impl View for FightStep {
    type V = StepView;

    open spec fn view(&self) -> StepView {
        step_view(*self)
    }
}

} // verus!
