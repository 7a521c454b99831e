//! Constructors for the effects and steps that the rules emit.

use crate::config::{find_row, row_at, SkillBuffRow};
use crate::model::lists::group_effects_view;
use crate::model::{
    effects_view, ActEffect, ActType, BuffActInfo, BuffInfo, BuffInfoView, BuffLayerType, CardInfo,
    DamageFromType, EffectType, EffectView, Fight, FightEntityInfo, FightHurtInfo, FightStep,
    MagicCircleInfo, StepView,
};
use vstd::prelude::*;

verus! {

broadcast use group_effects_view;

impl EffectView {
    /// The effect of which nothing is set.
    pub open spec fn blank() -> EffectView {
        EffectView {
            effect_type: None,
            target_id: None,
            effect_num: None,
            effect_num1: None,
            buff: None,
            card_info_list: Seq::empty(),
            config_effect: None,
            buff_act_id: None,
            reserve_id: None,
            reserve_str: None,
            team_type: None,
            hurt_info: None,
            buff_act_info: None,
            magic_circle: None,
            fight: None,
            entity: None,
            fight_step: None,
        }
    }

    /// An effect of a kind, and nothing else set.
    pub open spec fn kind_only(kind: EffectType) -> EffectView {
        EffectView { effect_type: Some(kind), ..EffectView::blank() }
    }

    /// An effect of a kind on a target.
    pub open spec fn on(kind: EffectType, target: i64) -> EffectView {
        EffectView { target_id: Some(target), ..EffectView::kind_only(kind) }
    }

    /// An effect of a kind on a target with an amount.
    pub open spec fn amount(kind: EffectType, target: i64, num: i32) -> EffectView {
        EffectView { effect_num: Some(num), ..EffectView::on(kind, target) }
    }

    /// The wrapper that carries a nested step.
    pub open spec fn wrapper(step: StepView) -> EffectView {
        EffectView {
            fight_step: Some(step),
            ..EffectView::amount(EffectType::FightStep, 0, 0)
        }
    }
}

impl StepView {
    /// A step whose client-side fields are all at rest.
    pub open spec fn plain(
        act_type: ActType,
        from_id: i64,
        to_id: i64,
        act_id: i32,
        effects: Seq<EffectView>,
    ) -> StepView {
        StepView {
            act_type: Some(act_type),
            from_id: Some(from_id),
            to_id: Some(to_id),
            act_id: Some(act_id),
            act_effect: effects,
            card_index: Some(0),
            support_hero_id: Some(0),
            fake_timeline: Some(false),
            real_skill_type: Some(0),
            real_skin_id: Some(0),
        }
    }

    /// A step that only carries effects.
    pub open spec fn container(
        from_id: i64,
        to_id: i64,
        act_id: i32,
        effects: Seq<EffectView>,
    ) -> StepView {
        StepView::plain(ActType::Effect, from_id, to_id, act_id, effects)
    }
}

impl BuffInfoView {
    /// A buff with every field but its acts given.
    pub open spec fn full(
        buff_id: i32,
        duration: i32,
        uid: i64,
        from_uid: i64,
        count: i32,
        params: Seq<char>,
        layer: i32,
        layer_type: BuffLayerType,
    ) -> BuffInfoView {
        BuffInfoView {
            buff_id: Some(buff_id),
            duration: Some(duration),
            uid: Some(uid),
            ex_info: Some(0),
            from_uid: Some(from_uid),
            count: Some(count),
            act_common_params: Some(params),
            layer: Some(layer),
            layer_type: Some(layer_type),
            act_info: Seq::empty(),
        }
    }
}

/// The hit record of which nothing is set.
pub open spec fn blank_hurt() -> FightHurtInfo {
    FightHurtInfo {
        damage: None,
        reduce_hp: None,
        reduce_shield: None,
        career_restraint: None,
        critical: None,
        assassinate: None,
        hurt_effect: None,
        damage_from_type: None,
        config_effect: None,
        buff_act_id: None,
        effect_id: None,
        skill_id: None,
        from_uid: None,
        buff_uid: None,
    }
}

/// The hit record that a hit by a skill is announced with.
pub open spec fn skill_hurt(
    amount: i32,
    config_effect: i32,
    skill_id: i32,
    from_uid: i64,
) -> FightHurtInfo {
    FightHurtInfo {
        damage: Some(amount),
        reduce_hp: Some(0),
        hurt_effect: Some(EffectType::Damage),
        damage_from_type: Some(DamageFromType::SkillEffect),
        config_effect: Some(config_effect),
        effect_id: Some(skill_id),
        skill_id: Some(skill_id),
        from_uid: Some(from_uid),
        ..blank_hurt()
    }
}

/// The hit record of a skill or buff detail: all of the damage went to life.
pub open spec fn detail_hurt(
    target: i64,
    damage: i32,
    skill_id: i32,
    damage_type: DamageFromType,
    hurt_effect: EffectType,
    config_effect: i32,
    buff_act_id: Option<i32>,
) -> FightHurtInfo {
    FightHurtInfo {
        damage: Some(damage),
        reduce_hp: Some(damage),
        reduce_shield: Some(0),
        career_restraint: Some(false),
        critical: Some(false),
        assassinate: Some(false),
        hurt_effect: Some(hurt_effect),
        damage_from_type: Some(damage_type),
        config_effect: Some(config_effect),
        buff_act_id,
        effect_id: Some(skill_id),
        skill_id: Some(skill_id),
        from_uid: Some(target),
        buff_uid: None,
    }
}

/// The shape shared by hits, crits and heals.
pub open spec fn numeric_effect(
    kind: EffectType,
    target: i64,
    amount: i32,
    config_effect: Option<i32>,
    buff_act_id: Option<i32>,
    hurt_info: Option<FightHurtInfo>,
) -> EffectView {
    EffectView {
        config_effect,
        buff_act_id,
        hurt_info,
        ..EffectView::amount(kind, target, amount)
    }
}

/// What the buff registry hands out for a new buff: its unique id and the
/// parameters shared by its acts.
#[derive(Debug)]
pub struct BuffStamp {
    pub uid: i64,
    pub params: String,
}

/// The `(duration, count, features)` part of a buff that comes from its row.
pub open spec fn row_duration(rows: Seq<SkillBuffRow>, buff_id: i32) -> i32 {
    match row_at(rows, buff_id) {
        Some(b) => b.during_time,
        None => 0,
    }
}

/// How many charges a buff starts with.
pub open spec fn row_effect_count(rows: Seq<SkillBuffRow>, buff_id: i32) -> i32 {
    match row_at(rows, buff_id) {
        Some(b) => b.effect_count,
        None => 0,
    }
}

/// The layer shown when a buff is deleted: one if its row lists features.
pub open spec fn row_delete_layer(rows: Seq<SkillBuffRow>, buff_id: i32) -> i32 {
    match row_at(rows, buff_id) {
        Some(b) => if b.features@.len() == 0 {
            0
        } else {
            1
        },
        None => 0,
    }
}

/// The buff-add effect of a freshly stamped buff.
pub open spec fn fresh_buff_add(
    rows: Seq<SkillBuffRow>,
    stamp_uid: i64,
    params: Seq<char>,
    target_uid: i64,
    from_uid: i64,
    buff_id: i32,
    layer: i32,
    count: i32,
) -> EffectView {
    EffectView {
        buff: Some(
            BuffInfoView::full(
                buff_id,
                row_duration(rows, buff_id),
                stamp_uid,
                from_uid,
                count,
                params,
                layer,
                BuffLayerType::Normal,
            ),
        ),
        ..EffectView::amount(EffectType::BuffAdd, target_uid, buff_id)
    }
}

/// An effect under construction.
#[derive(Debug)]
pub struct ActEffectBuilder {
    effect: ActEffect,
}

impl View for ActEffectBuilder {
    type V = EffectView;

    closed spec fn view(&self) -> EffectView {
        self.effect@
    }
}

impl ActEffect {
    /// The effect of which nothing is set.
    pub fn blank() -> (r: ActEffect)
        ensures
            r@ == EffectView::blank(),
    {
        ActEffect {
            effect_type: None,
            target_id: None,
            effect_num: None,
            effect_num1: None,
            buff: None,
            card_info_list: Vec::new(),
            config_effect: None,
            buff_act_id: None,
            reserve_id: None,
            reserve_str: None,
            team_type: None,
            hurt_info: None,
            buff_act_info: None,
            magic_circle: None,
            fight: None,
            entity: None,
            fight_step: None,
        }
    }
}

impl FightHurtInfo {
    /// The hit record of which nothing is set.
    pub fn blank() -> (r: FightHurtInfo)
        ensures
            r == blank_hurt(),
    {
        FightHurtInfo {
            damage: None,
            reduce_hp: None,
            reduce_shield: None,
            career_restraint: None,
            critical: None,
            assassinate: None,
            hurt_effect: None,
            damage_from_type: None,
            config_effect: None,
            buff_act_id: None,
            effect_id: None,
            skill_id: None,
            from_uid: None,
            buff_uid: None,
        }
    }
}

impl ActEffectBuilder {
    /// Starts an effect of a kind on a target.
    pub fn new(effect_type: EffectType, target_id: i64) -> (r: ActEffectBuilder)
        ensures
            r@ == EffectView::on(effect_type, target_id),
    {
        let mut effect = ActEffect::blank();
        effect.effect_type = Some(effect_type);
        effect.target_id = Some(target_id);
        ActEffectBuilder { effect }
    }

    /// Starts an effect of a kind on nobody.
    fn bare(effect_type: EffectType) -> (r: ActEffectBuilder)
        ensures
            r@ == EffectView::kind_only(effect_type),
    {
        let mut effect = ActEffect::blank();
        effect.effect_type = Some(effect_type);
        ActEffectBuilder { effect }
    }

    /// Sets `effect_num`.
    pub fn effect_num(self, value: i32) -> (r: ActEffectBuilder)
        ensures
            r@ == (EffectView { effect_num: Some(value), ..self@ }),
    {
        let mut effect = self.effect;
        effect.effect_num = Some(value);
        ActEffectBuilder { effect }
    }

    /// Sets `target_id`.
    pub fn target_id(self, value: i64) -> (r: ActEffectBuilder)
        ensures
            r@ == (EffectView { target_id: Some(value), ..self@ }),
    {
        let mut effect = self.effect;
        effect.target_id = Some(value);
        ActEffectBuilder { effect }
    }

    /// Sets `effect_num1`.
    pub fn effect_num1(self, value: i32) -> (r: ActEffectBuilder)
        ensures
            r@ == (EffectView { effect_num1: Some(value), ..self@ }),
    {
        let mut effect = self.effect;
        effect.effect_num1 = Some(value);
        ActEffectBuilder { effect }
    }

    /// Sets `config_effect`.
    pub fn config_effect(self, value: i32) -> (r: ActEffectBuilder)
        ensures
            r@ == (EffectView { config_effect: Some(value), ..self@ }),
    {
        let mut effect = self.effect;
        effect.config_effect = Some(value);
        ActEffectBuilder { effect }
    }

    /// Sets `buff_act_id`.
    pub fn buff_act_id(self, value: i32) -> (r: ActEffectBuilder)
        ensures
            r@ == (EffectView { buff_act_id: Some(value), ..self@ }),
    {
        let mut effect = self.effect;
        effect.buff_act_id = Some(value);
        ActEffectBuilder { effect }
    }

    /// Sets `reserve_id`.
    pub fn reserve_id(self, value: i64) -> (r: ActEffectBuilder)
        ensures
            r@ == (EffectView { reserve_id: Some(value), ..self@ }),
    {
        let mut effect = self.effect;
        effect.reserve_id = Some(value);
        ActEffectBuilder { effect }
    }

    /// Sets `reserve_str`.
    pub fn reserve_str(self, value: String) -> (r: ActEffectBuilder)
        ensures
            r@ == (EffectView { reserve_str: Some(value@), ..self@ }),
    {
        let mut effect = self.effect;
        effect.reserve_str = Some(value);
        ActEffectBuilder { effect }
    }

    /// Sets `team_type`.
    pub fn team_type(self, value: i32) -> (r: ActEffectBuilder)
        ensures
            r@ == (EffectView { team_type: Some(value), ..self@ }),
    {
        let mut effect = self.effect;
        effect.team_type = Some(value);
        ActEffectBuilder { effect }
    }

    /// Sets `hurt_info`.
    pub fn hurt_info(self, value: FightHurtInfo) -> (r: ActEffectBuilder)
        ensures
            r@ == (EffectView { hurt_info: Some(value), ..self@ }),
    {
        let mut effect = self.effect;
        effect.hurt_info = Some(value);
        ActEffectBuilder { effect }
    }

    /// Sets `buff`.
    pub fn buff(self, value: BuffInfo) -> (r: ActEffectBuilder)
        ensures
            r@ == (EffectView { buff: Some(value@), ..self@ }),
    {
        let mut effect = self.effect;
        effect.buff = Some(value);
        ActEffectBuilder { effect }
    }

    /// Sets `buff_act_info`.
    pub fn buff_act_info(self, value: BuffActInfo) -> (r: ActEffectBuilder)
        ensures
            r@ == (EffectView { buff_act_info: Some(value@), ..self@ }),
    {
        let mut effect = self.effect;
        effect.buff_act_info = Some(value);
        ActEffectBuilder { effect }
    }

    /// Sets `magic_circle`.
    pub fn magic_circle(self, value: MagicCircleInfo) -> (r: ActEffectBuilder)
        ensures
            r@ == (EffectView { magic_circle: Some(value), ..self@ }),
    {
        let mut effect = self.effect;
        effect.magic_circle = Some(value);
        ActEffectBuilder { effect }
    }

    /// Sets `fight`.
    pub fn fight(self, value: Fight) -> (r: ActEffectBuilder)
        ensures
            r@ == (EffectView { fight: Some(value@), ..self@ }),
    {
        let mut effect = self.effect;
        effect.fight = Some(value);
        ActEffectBuilder { effect }
    }

    /// Sets `fight_step`.
    pub fn fight_step(self, value: FightStep) -> (r: ActEffectBuilder)
        ensures
            r@ == (EffectView { fight_step: Some(value@), ..self@ }),
    {
        let mut effect = self.effect;
        effect.fight_step = Some(value);
        ActEffectBuilder { effect }
    }

    /// Sets `card_info_list`.
    pub fn card_info_list(self, value: Vec<CardInfo>) -> (r: ActEffectBuilder)
        ensures
            r@ == (EffectView { card_info_list: value@, ..self@ }),
    {
        let mut effect = self.effect;
        effect.card_info_list = value;
        ActEffectBuilder { effect }
    }

    /// The finished effect.
    pub fn build(self) -> (r: ActEffect)
        ensures
            r@ == self@,
    {
        self.effect
    }

    /// Wraps a step into an effect.
    pub fn skill_wrapper(step: FightStep) -> (r: ActEffect)
        ensures
            r@ == EffectView::wrapper(step@),
    {
        ActEffectBuilder::bare(EffectType::FightStep).target_id(0).effect_num(0).fight_step(step).build()
    }

    /// Wraps a step into an effect that carries no amount.
    pub fn skill_wrapper_without_num(step: FightStep) -> (r: ActEffect)
        ensures
            r@ == (EffectView {
                fight_step: Some(step@),
                ..EffectView::on(EffectType::FightStep, 0)
            }),
    {
        ActEffectBuilder::bare(EffectType::FightStep).target_id(0).fight_step(step).build()
    }

    /// Ex points gained or lost.
    pub fn ex_point_change(target: i64, delta: i32) -> (r: ActEffect)
        ensures
            r@ == EffectView::amount(EffectType::ExPointChange, target, delta),
    {
        ActEffectBuilder::new(EffectType::ExPointChange, target).effect_num(delta).build()
    }

    /// Ex points gained or lost, with the behaviour that caused it.
    pub fn ex_point_change_with_config_effect(
        target: i64,
        delta: i32,
        config_effect: i32,
    ) -> (r: ActEffect)
        ensures
            r@ == (EffectView {
                config_effect: Some(config_effect),
                ..EffectView::amount(EffectType::ExPointChange, target, delta)
            }),
    {
        ActEffectBuilder::new(EffectType::ExPointChange, target).effect_num(delta).config_effect(config_effect).build()
    }

    /// Ex points gained through the add-ex-point behaviour.
    pub fn moxie_change(target: i64, delta: i32) -> (r: ActEffect)
        ensures
            r@ == (EffectView {
                config_effect: Some(20002),
                ..EffectView::amount(EffectType::ExPointChange, target, delta)
            }),
    {
        ActEffectBuilder::ex_point_change_with_config_effect(target, delta, 20002)
    }

    /// A change of the blood pool of a team, shown at a target.
    pub fn bloodpool_value_change(target: i64, team: i32, delta: i32) -> (r: ActEffect)
        ensures
            r@ == (EffectView {
                effect_num1: Some(delta),
                ..EffectView::amount(EffectType::BloodPoolValueChange, target, team)
            }),
    {
        ActEffectBuilder::new(EffectType::BloodPoolValueChange, target).effect_num(team).effect_num1(delta).build()
    }

    /// A change of the capacity of the blood pool of a team.
    pub fn bloodpool_max_change(team: i32, amount: i32) -> (r: ActEffect)
        ensures
            r@ == (EffectView {
                effect_num1: Some(amount),
                ..EffectView::amount(EffectType::BloodPoolMaxChange, 0, team)
            }),
    {
        ActEffectBuilder::new(EffectType::BloodPoolMaxChange, 0).effect_num(team).effect_num1(amount).build()
    }

    /// The creation of a blood pool.
    pub fn bloodpool_max_create(effect_num: i32) -> (r: ActEffect)
        ensures
            r@ == (EffectView {
                effect_num: Some(effect_num),
                ..EffectView::kind_only(EffectType::BloodPoolMaxCreate)
            }),
    {
        ActEffectBuilder::bare(EffectType::BloodPoolMaxCreate).effect_num(effect_num).build()
    }

    /// An effect that does nothing, on a target.
    pub fn effect_none(target: i64) -> (r: ActEffect)
        ensures
            r@ == EffectView::on(EffectType::NoEffect, target),
    {
        ActEffectBuilder::new(EffectType::NoEffect, target).build()
    }

    /// An effect that does nothing, with a number for the client.
    pub fn effect_none_with_num(target: i64, effect_num: i32) -> (r: ActEffect)
        ensures
            r@ == EffectView::amount(EffectType::NoEffect, target, effect_num),
    {
        ActEffectBuilder::new(EffectType::NoEffect, target).effect_num(effect_num).build()
    }

    /// An effect that does nothing, naming the act of a buff.
    pub fn effect_none_with_buff_act(
        target: i64,
        effect_num: i32,
        buff_act_id: i32,
    ) -> (r: ActEffect)
        ensures
            r@ == (EffectView {
                buff_act_id: Some(buff_act_id),
                ..EffectView::amount(EffectType::NoEffect, target, effect_num)
            }),
    {
        ActEffectBuilder::new(EffectType::NoEffect, target).effect_num(effect_num).buff_act_id(buff_act_id).build()
    }

    /// Damage stored by a buff for later; never a negative amount.
    pub fn storage_injury(
        target_uid: i64,
        amount: i32,
        buff_id: i32,
        buff_uid: i64,
        from_uid: i64,
        act_common_params: String,
        config_effect: Option<i32>,
    ) -> (r: ActEffect)
        ensures
            r@ == (EffectView {
                buff: Some(
                    BuffInfoView::full(
                        buff_id,
                        0,
                        buff_uid,
                        from_uid,
                        0,
                        act_common_params@,
                        0,
                        BuffLayerType::Normal,
                    ),
                ),
                config_effect,
                ..EffectView::amount(
                    EffectType::StorageInjury,
                    target_uid,
                    if amount > 0 {
                        amount
                    } else {
                        0
                    },
                )
            }),
    {
        let kept: i32 = if amount > 0 {
            amount
        } else {
            0
        };
        let buff = ActEffectBuilder::full_buff(
            buff_id,
            0,
            buff_uid,
            from_uid,
            0,
            act_common_params,
            0,
            BuffLayerType::Normal,
        );
        let mut builder = ActEffectBuilder::new(EffectType::StorageInjury, target_uid).effect_num(
            kept,
        ).buff(buff);
        if let Some(config_effect) = config_effect {
            builder = builder.config_effect(config_effect);
        }
        builder.build()
    }

    /// A buff with every field but its acts given.
    fn full_buff(
        buff_id: i32,
        duration: i32,
        uid: i64,
        from_uid: i64,
        count: i32,
        params: String,
        layer: i32,
        layer_type: BuffLayerType,
    ) -> (r: BuffInfo)
        ensures
            r@ == BuffInfoView::full(
                buff_id,
                duration,
                uid,
                from_uid,
                count,
                params@,
                layer,
                layer_type,
            ),
    {
        let r = BuffInfo {
            buff_id: Some(buff_id),
            duration: Some(duration),
            uid: Some(uid),
            ex_info: Some(0),
            from_uid: Some(from_uid),
            count: Some(count),
            act_common_params: Some(params),
            layer: Some(layer),
            layer_type: Some(layer_type),
            act_info: Vec::new(),
        };
        assert(r@.act_info =~= Seq::empty());
        r
    }

    /// The buff record of a freshly stamped buff; its duration is its row's.
    fn create_buff(
        rows: &Vec<SkillBuffRow>,
        stamp: BuffStamp,
        buff_id: i32,
        from_uid: i64,
        count: i32,
        layer: i32,
    ) -> (r: BuffInfo)
        ensures
            r@ == BuffInfoView::full(
                buff_id,
                row_duration(rows@, buff_id),
                stamp.uid,
                from_uid,
                count,
                stamp.params@,
                layer,
                BuffLayerType::Normal,
            ),
    {
        let duration: i32 = match find_row(rows, buff_id) {
            Some(b) => b.during_time,
            None => 0,
        };
        ActEffectBuilder::full_buff(
            buff_id,
            duration,
            stamp.uid,
            from_uid,
            count,
            stamp.params,
            layer,
            BuffLayerType::Normal,
        )
    }

    /// A buff-add effect with a number of charges given.
    fn build_buff_add(
        rows: &Vec<SkillBuffRow>,
        stamp: BuffStamp,
        target_uid: i64,
        from_uid: i64,
        buff_id: i32,
        layer: i32,
        count: i32,
    ) -> (r: ActEffect)
        ensures
            r@ == fresh_buff_add(
                rows@,
                stamp.uid,
                stamp.params@,
                target_uid,
                from_uid,
                buff_id,
                layer,
                count,
            ),
    {
        let buff = ActEffectBuilder::create_buff(rows, stamp, buff_id, from_uid, count, layer);
        ActEffectBuilder::new(EffectType::BuffAdd, target_uid).effect_num(buff_id).buff(buff).build()
    }

    /// A new buff without charges.
    pub fn buff_add(
        rows: &Vec<SkillBuffRow>,
        stamp: BuffStamp,
        target_uid: i64,
        from_uid: i64,
        buff_id: i32,
        layer: i32,
    ) -> (r: ActEffect)
        ensures
            r@ == fresh_buff_add(
                rows@,
                stamp.uid,
                stamp.params@,
                target_uid,
                from_uid,
                buff_id,
                layer,
                0,
            ),
    {
        ActEffectBuilder::build_buff_add(rows, stamp, target_uid, from_uid, buff_id, layer, 0)
    }

    /// A new buff with a number of charges.
    pub fn buff_add_with_count(
        rows: &Vec<SkillBuffRow>,
        stamp: BuffStamp,
        target_uid: i64,
        from_uid: i64,
        buff_id: i32,
        layer: i32,
        count: i32,
    ) -> (r: ActEffect)
        ensures
            r@ == fresh_buff_add(
                rows@,
                stamp.uid,
                stamp.params@,
                target_uid,
                from_uid,
                buff_id,
                layer,
                count,
            ),
    {
        ActEffectBuilder::build_buff_add(rows, stamp, target_uid, from_uid, buff_id, layer, count)
    }

    /// A new buff of a halo's bearer: one charge if it is layered, else as many as
    /// its row says.
    pub fn buff_add_slave(
        rows: &Vec<SkillBuffRow>,
        stamp: BuffStamp,
        target_uid: i64,
        from_uid: i64,
        buff_id: i32,
        layer: i32,
    ) -> (r: ActEffect)
        ensures
            r@ == fresh_buff_add(
                rows@,
                stamp.uid,
                stamp.params@,
                target_uid,
                from_uid,
                buff_id,
                layer,
                if layer > 1 {
                    1
                } else {
                    row_effect_count(rows@, buff_id)
                },
            ),
    {
        let count: i32 = if layer > 1 {
            1
        } else {
            match find_row(rows, buff_id) {
                Some(b) => b.effect_count,
                None => 0,
            }
        };
        ActEffectBuilder::build_buff_add(rows, stamp, target_uid, from_uid, buff_id, layer, count)
    }

    /// A buff taken over with all its state.
    pub fn buff_add_with_snapshot(
        target_uid: i64,
        from_uid: i64,
        buff_id: i32,
        buff_uid: i64,
        duration: i32,
        count: i32,
        act_common_params: String,
        layer: i32,
        buff_type: BuffLayerType,
        config_effect: Option<i32>,
    ) -> (r: ActEffect)
        ensures
            r@ == (EffectView {
                buff: Some(
                    BuffInfoView::full(
                        buff_id,
                        duration,
                        buff_uid,
                        from_uid,
                        count,
                        act_common_params@,
                        layer,
                        buff_type,
                    ),
                ),
                config_effect,
                ..EffectView::amount(EffectType::BuffAdd, target_uid, buff_id)
            }),
    {
        let buff = ActEffectBuilder::full_buff(
            buff_id,
            duration,
            buff_uid,
            from_uid,
            count,
            act_common_params,
            layer,
            buff_type,
        );
        let mut builder = ActEffectBuilder::new(EffectType::BuffAdd, target_uid).effect_num(
            buff_id,
        ).buff(buff);
        if let Some(config_effect) = config_effect {
            builder = builder.config_effect(config_effect);
        }
        builder.build()
    }

    /// A change of a buff, with all its state.
    pub fn buff_update_with_snapshot(
        target_uid: i64,
        from_uid: i64,
        buff_id: i32,
        buff_uid: i64,
        duration: i32,
        count: i32,
        act_common_params: String,
        layer: i32,
        buff_type: BuffLayerType,
    ) -> (r: ActEffect)
        ensures
            r@ == (EffectView {
                buff: Some(
                    BuffInfoView::full(
                        buff_id,
                        duration,
                        buff_uid,
                        from_uid,
                        count,
                        act_common_params@,
                        layer,
                        buff_type,
                    ),
                ),
                ..EffectView::amount(EffectType::BuffUpdate, target_uid, 0)
            }),
    {
        let buff = ActEffectBuilder::full_buff(
            buff_id,
            duration,
            buff_uid,
            from_uid,
            count,
            act_common_params,
            layer,
            buff_type,
        );
        ActEffectBuilder::new(EffectType::BuffUpdate, target_uid).effect_num(0).buff(buff).build()
    }

    /// A change of the charges and layers of a buff. `params` are the parameters
    /// that the acts of the buff share.
    pub fn buff_update(
        target_uid: i64,
        from_uid: i64,
        buff_id: i32,
        buff_uid: i64,
        count: i32,
        params: String,
        layer: i32,
    ) -> (r: ActEffect)
        ensures
            r@ == (EffectView {
                buff: Some(
                    BuffInfoView::full(
                        buff_id,
                        0,
                        buff_uid,
                        from_uid,
                        count,
                        params@,
                        layer,
                        BuffLayerType::Normal,
                    ),
                ),
                ..EffectView::amount(EffectType::BuffUpdate, target_uid, 0)
            }),
    {
        ActEffectBuilder::buff_update_with_snapshot(
            target_uid,
            from_uid,
            buff_id,
            buff_uid,
            0,
            count,
            params,
            layer,
            BuffLayerType::Normal,
        )
    }

    /// The end of a buff; a buff whose row lists features shows one layer.
    pub fn buff_del(
        rows: &Vec<SkillBuffRow>,
        target: i64,
        buff_uid: i64,
        buff_id: i32,
        from_uid: i64,
    ) -> (r: ActEffect)
        ensures
            r@ == (EffectView {
                buff: Some(
                    (BuffInfoView {
                        buff_id: Some(buff_id),
                        duration: None,
                        uid: Some(buff_uid),
                        ex_info: None,
                        from_uid: Some(from_uid),
                        count: None,
                        act_common_params: None,
                        layer: Some(row_delete_layer(rows@, buff_id)),
                        layer_type: None,
                        act_info: Seq::empty(),
                    }),
                ),
                ..EffectView::on(EffectType::BuffDel, target)
            }),
    {
        let layer: i32 = match find_row(rows, buff_id) {
            Some(b) => if b.features.as_str().is_empty() {
                0
            } else {
                1
            },
            None => 0,
        };
        let buff = BuffInfo {
            buff_id: Some(buff_id),
            duration: None,
            uid: Some(buff_uid),
            ex_info: None,
            from_uid: Some(from_uid),
            count: None,
            act_common_params: None,
            layer: Some(layer),
            layer_type: None,
            act_info: Vec::new(),
        };
        assert(buff@.act_info =~= Seq::empty());
        ActEffectBuilder::new(EffectType::BuffDel, target).buff(buff).build()
    }

    /// The end of a buff, with all its state.
    pub fn buff_del_with_snapshot(
        target: i64,
        buff_uid: i64,
        buff_id: i32,
        from_uid: i64,
        duration: i32,
        count: i32,
        act_common_params: String,
        layer: i32,
        buff_type: BuffLayerType,
    ) -> (r: ActEffect)
        ensures
            r@ == (EffectView {
                buff: Some(
                    BuffInfoView::full(
                        buff_id,
                        duration,
                        buff_uid,
                        from_uid,
                        count,
                        act_common_params@,
                        layer,
                        buff_type,
                    ),
                ),
                ..EffectView::on(EffectType::BuffDel, target)
            }),
    {
        let buff = ActEffectBuilder::full_buff(
            buff_id,
            duration,
            buff_uid,
            from_uid,
            count,
            act_common_params,
            layer,
            buff_type,
        );
        ActEffectBuilder::new(EffectType::BuffDel, target).buff(buff).build()
    }

    /// The shape shared by hits, crits and heals.
    fn build_numeric_effect(
        effect_type: EffectType,
        target: i64,
        amount: i32,
        config_effect: Option<i32>,
        buff_act_id: Option<i32>,
        hurt_info: Option<FightHurtInfo>,
    ) -> (r: ActEffect)
        ensures
            r@ == numeric_effect(
                effect_type,
                target,
                amount,
                config_effect,
                buff_act_id,
                hurt_info,
            ),
    {
        let mut builder = ActEffectBuilder::new(effect_type, target).effect_num(amount);
        if let Some(config_effect) = config_effect {
            builder = builder.config_effect(config_effect);
        }
        if let Some(buff_act_id) = buff_act_id {
            builder = builder.buff_act_id(buff_act_id);
        }
        if let Some(hurt_info) = hurt_info {
            builder = builder.hurt_info(hurt_info);
        }
        builder.build()
    }

    /// A hit.
    pub fn damage(target: i64, amount: i32, config_effect: Option<i32>) -> (r: ActEffect)
        ensures
            r@ == numeric_effect(
                EffectType::Damage,
                target,
                amount,
                config_effect,
                None,
                None,
            ),
    {
        ActEffectBuilder::build_numeric_effect(
            EffectType::Damage,
            target,
            amount,
            config_effect,
            None,
            None,
        )
    }

    /// A hit by the plain damage behaviour.
    pub fn damage_default(target: i64, amount: i32) -> (r: ActEffect)
        ensures
            r@ == numeric_effect(
                EffectType::Damage,
                target,
                amount,
                Some(30006),
                None,
                None,
            ),
    {
        ActEffectBuilder::build_numeric_effect(
            EffectType::Damage,
            target,
            amount,
            Some(30006),
            None,
            None,
        )
    }

    /// A hit by an act of a buff.
    pub fn damage_with_buff_act(target: i64, amount: i32, buff_act_id: i32) -> (r: ActEffect)
        ensures
            r@ == numeric_effect(
                EffectType::Damage,
                target,
                amount,
                None,
                Some(buff_act_id),
                None,
            ),
    {
        ActEffectBuilder::build_numeric_effect(
            EffectType::Damage,
            target,
            amount,
            None,
            Some(buff_act_id),
            None,
        )
    }

    /// A hit with its record.
    pub fn damage_with_hurt(
        target: i64,
        amount: i32,
        config_effect: Option<i32>,
        hurt_info: FightHurtInfo,
    ) -> (r: ActEffect)
        ensures
            r@ == numeric_effect(
                EffectType::Damage,
                target,
                amount,
                config_effect,
                None,
                Some(hurt_info),
            ),
    {
        ActEffectBuilder::build_numeric_effect(
            EffectType::Damage,
            target,
            amount,
            config_effect,
            None,
            Some(hurt_info),
        )
    }

    /// A hit by an act of a buff with its record.
    pub fn damage_with_buff_hurt(
        target: i64,
        amount: i32,
        buff_act_id: i32,
        hurt_info: FightHurtInfo,
    ) -> (r: ActEffect)
        ensures
            r@ == numeric_effect(
                EffectType::Damage,
                target,
                amount,
                None,
                Some(buff_act_id),
                Some(hurt_info),
            ),
    {
        ActEffectBuilder::build_numeric_effect(
            EffectType::Damage,
            target,
            amount,
            None,
            Some(buff_act_id),
            Some(hurt_info),
        )
    }

    /// The hit record that a hit by a skill is announced with.
    pub fn damage_skill_hurt(
        amount: i32,
        config_effect: i32,
        skill_id: i32,
        from_uid: i64,
    ) -> (r: FightHurtInfo)
        ensures
            r == skill_hurt(amount, config_effect, skill_id, from_uid),
    {
        let mut hurt = FightHurtInfo::blank();
        hurt.damage = Some(amount);
        hurt.reduce_hp = Some(0);
        hurt.hurt_effect = Some(EffectType::Damage);
        hurt.damage_from_type = Some(DamageFromType::SkillEffect);
        hurt.config_effect = Some(config_effect);
        hurt.effect_id = Some(skill_id);
        hurt.skill_id = Some(skill_id);
        hurt.from_uid = Some(from_uid);
        hurt
    }

    /// A hit by a skill. `recorded` is the record that came back from the event
    /// queue for [`ActEffectBuilder::damage_skill_hurt`].
    pub fn damage_skill(
        target: i64,
        amount: i32,
        config_effect: i32,
        recorded: Option<FightHurtInfo>,
    ) -> (r: ActEffect)
        ensures
            r@ == numeric_effect(
                EffectType::Damage,
                target,
                amount,
                Some(config_effect),
                None,
                Some(
                    match recorded {
                        Some(h) => h,
                        None => blank_hurt(),
                    },
                ),
            ),
    {
        let hurt = match recorded {
            Some(h) => h,
            None => FightHurtInfo::blank(),
        };
        ActEffectBuilder::damage_with_hurt(target, amount, Some(config_effect), hurt)
    }

    /// A hit by an act of a buff that is known by its unique id. The record keeps
    /// the low half of that id.
    pub fn damage_buff_with_uid(
        target: i64,
        amount: i32,
        buff_act_id: i32,
        from_uid: i64,
        buff_uid: i64,
    ) -> (r: ActEffect)
        ensures
            r@ == numeric_effect(
                EffectType::Damage,
                target,
                amount,
                None,
                Some(buff_act_id),
                Some(
                    (FightHurtInfo {
                        damage: Some(amount),
                        hurt_effect: Some(EffectType::Damage),
                        damage_from_type: Some(DamageFromType::Buff),
                        buff_act_id: Some(buff_act_id),
                        from_uid: Some(from_uid),
                        buff_uid: Some(buff_uid as i32),
                        ..blank_hurt()
                    }),
                ),
            ),
    {
        let mut hurt = FightHurtInfo::blank();
        hurt.damage = Some(amount);
        hurt.hurt_effect = Some(EffectType::Damage);
        hurt.damage_from_type = Some(DamageFromType::Buff);
        hurt.buff_act_id = Some(buff_act_id);
        hurt.from_uid = Some(from_uid);
        hurt.buff_uid = Some(#[verifier::truncate] (buff_uid as i32));
        ActEffectBuilder::damage_with_buff_hurt(target, amount, buff_act_id, hurt)
    }

    /// A critical hit.
    pub fn crit(target: i64, amount: i32, config_effect: Option<i32>) -> (r: ActEffect)
        ensures
            r@ == numeric_effect(
                EffectType::Crit,
                target,
                amount,
                config_effect,
                None,
                None,
            ),
    {
        ActEffectBuilder::build_numeric_effect(
            EffectType::Crit,
            target,
            amount,
            config_effect,
            None,
            None,
        )
    }

    /// A critical hit with its record.
    pub fn crit_with_hurt(
        target: i64,
        amount: i32,
        config_effect: Option<i32>,
        hurt_info: FightHurtInfo,
    ) -> (r: ActEffect)
        ensures
            r@ == numeric_effect(
                EffectType::Crit,
                target,
                amount,
                config_effect,
                None,
                Some(hurt_info),
            ),
    {
        ActEffectBuilder::build_numeric_effect(
            EffectType::Crit,
            target,
            amount,
            config_effect,
            None,
            Some(hurt_info),
        )
    }

    /// A heal.
    pub fn heal(target: i64, amount: i32, config_effect: Option<i32>) -> (r: ActEffect)
        ensures
            r@ == numeric_effect(
                EffectType::Heal,
                target,
                amount,
                config_effect,
                None,
                None,
            ),
    {
        ActEffectBuilder::build_numeric_effect(
            EffectType::Heal,
            target,
            amount,
            config_effect,
            None,
            None,
        )
    }

    /// A hit by origin damage.
    pub fn origin_damage(target: i64, amount: i32, config_effect: Option<i32>) -> (r: ActEffect)
        ensures
            r@ == numeric_effect(
                EffectType::OriginDamage,
                target,
                amount,
                config_effect,
                None,
                None,
            ),
    {
        ActEffectBuilder::build_numeric_effect(
            EffectType::OriginDamage,
            target,
            amount,
            config_effect,
            None,
            None,
        )
    }

    /// A hit by origin damage with its record.
    pub fn origin_damage_with_hurt(
        target: i64,
        amount: i32,
        buff_act_id: Option<i32>,
        hurt_info: FightHurtInfo,
    ) -> (r: ActEffect)
        ensures
            r@ == numeric_effect(
                EffectType::OriginDamage,
                target,
                amount,
                None,
                buff_act_id,
                Some(hurt_info),
            ),
    {
        ActEffectBuilder::build_numeric_effect(
            EffectType::OriginDamage,
            target,
            amount,
            None,
            buff_act_id,
            Some(hurt_info),
        )
    }

    /// A critical hit by origin damage.
    pub fn origin_crit(target: i64, amount: i32, config_effect: Option<i32>) -> (r: ActEffect)
        ensures
            r@ == numeric_effect(
                EffectType::OriginCrit,
                target,
                amount,
                config_effect,
                None,
                None,
            ),
    {
        ActEffectBuilder::build_numeric_effect(
            EffectType::OriginCrit,
            target,
            amount,
            config_effect,
            None,
            None,
        )
    }

    /// A death.
    pub fn dead(target: i64) -> (r: ActEffect)
        ensures
            r@ == EffectView::amount(EffectType::Dead, target, 0),
    {
        ActEffectBuilder::new(EffectType::Dead, target).effect_num(0).build()
    }

    /// A new amount of life.
    pub fn current_hp_change(target: i64, amount: i32) -> (r: ActEffect)
        ensures
            r@ == EffectView::amount(EffectType::CurrentHpChange, target, amount),
    {
        ActEffectBuilder::new(EffectType::CurrentHpChange, target).effect_num(amount).build()
    }

    /// A new life maximum.
    pub fn max_hp_change(target: i64, amount: i32, buff_act_id: Option<i32>) -> (r: ActEffect)
        ensures
            r@ == (EffectView { buff_act_id, ..EffectView::amount(EffectType::MaxHpChange, target, amount) }),
    {
        let mut builder = ActEffectBuilder::new(EffectType::MaxHpChange, target).effect_num(amount);
        if let Some(buff_act_id) = buff_act_id {
            builder = builder.buff_act_id(buff_act_id);
        }
        builder.build()
    }

    /// A change of attributes.
    pub fn attr(target: i64) -> (r: ActEffect)
        ensures
            r@ == EffectView::amount(EffectType::Attr, target, 0),
    {
        ActEffectBuilder::new(EffectType::Attr, target).effect_num(0).build()
    }

    /// A change of power, of a target or of the team.
    pub fn power_change(
        target: Option<i64>,
        amount: i32,
        config_effect: Option<i32>,
    ) -> (r: ActEffect)
        ensures
            r@ == (EffectView {
                target_id: target,
                effect_num: Some(amount),
                config_effect,
                ..EffectView::kind_only(EffectType::PowerChange)
            }),
    {
        let start = match target {
            Some(target) => ActEffectBuilder::new(EffectType::PowerChange, target),
            None => ActEffectBuilder::bare(EffectType::PowerChange),
        };
        let mut builder = start.effect_num(amount);
        if let Some(config_effect) = config_effect {
            builder = builder.config_effect(config_effect);
        }
        builder.build()
    }

    /// Damage out of an absorption.
    pub fn damage_from_absorb(target: i64, amount: i32) -> (r: ActEffect)
        ensures
            r@ == EffectView::amount(EffectType::DamageFromAbsorb, target, amount),
    {
        ActEffectBuilder::new(EffectType::DamageFromAbsorb, target).effect_num(amount).build()
    }

    /// A heal out of stored injury.
    pub fn injury_bank_heal(target: i64, amount: i32) -> (r: ActEffect)
        ensures
            r@ == EffectView::amount(EffectType::InjuryBankHeal, target, amount),
    {
        ActEffectBuilder::new(EffectType::InjuryBankHeal, target).effect_num(amount).build()
    }

    /// The number of cards left in the deck.
    pub fn card_deck_num(deck_num: i32) -> (r: ActEffect)
        ensures
            r@ == (EffectView {
                effect_num: Some(deck_num),
                team_type: Some(1),
                ..EffectView::kind_only(EffectType::CardDeckNum)
            }),
    {
        ActEffectBuilder::bare(EffectType::CardDeckNum).effect_num(deck_num).team_type(1).build()
    }

    /// The number of cards left in the deck, on a target.
    pub fn card_deck_num_with_target(target: i64, deck_num: i32) -> (r: ActEffect)
        ensures
            r@ == (EffectView {
                team_type: Some(1),
                ..EffectView::amount(EffectType::CardDeckNum, target, deck_num)
            }),
    {
        ActEffectBuilder::new(EffectType::CardDeckNum, target).effect_num(deck_num).team_type(1).build()
    }

    /// Cards handed to the client.
    pub fn cards_push(card_info_list: Vec<CardInfo>, team_type: Option<i32>) -> (r: ActEffect)
        ensures
            r@ == (EffectView {
                card_info_list: card_info_list@,
                team_type,
                ..EffectView::kind_only(EffectType::CardsPush)
            }),
    {
        let mut builder = ActEffectBuilder::bare(EffectType::CardsPush).card_info_list(
            card_info_list,
        );
        if let Some(team_type) = team_type {
            builder = builder.team_type(team_type);
        }
        builder.build()
    }

    /// The removal of the cards of an entity, as a wrapped container.
    pub fn remove_entity_cards(target_uid: i64, team_type: Option<i32>) -> (r: ActEffect)
        ensures
            r@ == EffectView::wrapper(
                StepView::container(
                    0,
                    0,
                    0,
                    seq![
                        EffectView {
                            team_type: Some(
                                match team_type {
                                    Some(t) => t,
                                    None => 1,
                                },
                            ),
                            ..EffectView::on(EffectType::RemoveEntityCards, target_uid)
                        },
                    ],
                ),
            ),
    {
        let team: i32 = match team_type {
            Some(t) => t,
            None => 1,
        };
        let inner = ActEffectBuilder::new(EffectType::RemoveEntityCards, target_uid).team_type(
            team,
        ).build();
        let mut effects: Vec<ActEffect> = Vec::new();
        effects.push(inner);
        let step = effect_container_step(0, 0, 0, effects);
        ActEffectBuilder::skill_wrapper(step)
    }

    /// The start of a wave, with the state of the battle.
    pub fn new_change_wave(fight: Fight) -> (r: ActEffect)
        ensures
            r@ == (EffectView {
                effect_num: Some(0),
                fight: Some(fight@),
                ..EffectView::kind_only(EffectType::NewChangeWave)
            }),
    {
        ActEffectBuilder::bare(EffectType::NewChangeWave).effect_num(0).fight(fight).build()
    }

    /// The record of a hit on its own.
    pub fn fight_hurt_detail(target: i64, hurt_info: FightHurtInfo) -> (r: ActEffect)
        ensures
            r@ == (EffectView {
                hurt_info: Some(hurt_info),
                ..EffectView::on(EffectType::FightHurtDetail, target)
            }),
    {
        ActEffectBuilder::new(EffectType::FightHurtDetail, target).hurt_info(hurt_info).build()
    }

    /// The record of a hit by a skill.
    pub fn hurt_detail_skill(
        target: i64,
        damage: i32,
        skill_id: i32,
        damage_type: DamageFromType,
        hurt_effect: EffectType,
    ) -> (r: ActEffect)
        ensures
            r@ == (EffectView {
                hurt_info: Some(
                    detail_hurt(target, damage, skill_id, damage_type, hurt_effect, 30006, None),
                ),
                ..EffectView::on(EffectType::FightHurtDetail, target)
            }),
    {
        ActEffectBuilder::fight_hurt_detail(
            target,
            FightHurtInfo {
                damage: Some(damage),
                reduce_hp: Some(damage),
                reduce_shield: Some(0),
                career_restraint: Some(false),
                critical: Some(false),
                assassinate: Some(false),
                hurt_effect: Some(hurt_effect),
                damage_from_type: Some(damage_type),
                config_effect: Some(30006),
                buff_act_id: None,
                effect_id: Some(skill_id),
                skill_id: Some(skill_id),
                from_uid: Some(target),
                buff_uid: None,
            },
        )
    }

    /// The record of a hit by a buff.
    pub fn hurt_detail_buff(
        target: i64,
        damage: i32,
        skill_id: i32,
        damage_type: DamageFromType,
        buff_id: i32,
    ) -> (r: ActEffect)
        ensures
            r@ == (EffectView {
                hurt_info: Some(
                    detail_hurt(
                        target,
                        damage,
                        skill_id,
                        damage_type,
                        EffectType::Damage,
                        0,
                        Some(buff_id),
                    ),
                ),
                ..EffectView::on(EffectType::FightHurtDetail, target)
            }),
    {
        ActEffectBuilder::fight_hurt_detail(
            target,
            FightHurtInfo {
                damage: Some(damage),
                reduce_hp: Some(damage),
                reduce_shield: Some(0),
                career_restraint: Some(false),
                critical: Some(false),
                assassinate: Some(false),
                hurt_effect: Some(EffectType::Damage),
                damage_from_type: Some(damage_type),
                config_effect: Some(0),
                buff_act_id: Some(buff_id),
                effect_id: Some(skill_id),
                skill_id: Some(skill_id),
                from_uid: Some(target),
                buff_uid: None,
            },
        )
    }

    /// A critical heal.
    pub fn heal_crit(target: i64, amount: i32) -> (r: ActEffect)
        ensures
            r@ == EffectView::amount(EffectType::HealCrit, target, amount),
    {
        ActEffectBuilder::new(EffectType::HealCrit, target).effect_num(amount).build()
    }

    /// A cure.
    pub fn cure(target: i64) -> (r: ActEffect)
        ensures
            r@ == EffectView::amount(EffectType::Cure, target, 0),
    {
        ActEffectBuilder::new(EffectType::Cure, target).effect_num(0).build()
    }

    /// A cure that grows with lost life.
    pub fn cure_up_by_lost_hp(target: i64) -> (r: ActEffect)
        ensures
            r@ == EffectView::amount(EffectType::CureUpByLostHp, target, 0),
    {
        ActEffectBuilder::new(EffectType::CureUpByLostHp, target).effect_num(0).build()
    }

    /// A shield.
    pub fn shield(target: i64, amount: i32) -> (r: ActEffect)
        ensures
            r@ == EffectView::amount(EffectType::Shield, target, amount),
    {
        ActEffectBuilder::new(EffectType::Shield, target).effect_num(amount).build()
    }

    /// A new amount of shield.
    pub fn shield_change(target: i64, current: i32) -> (r: ActEffect)
        ensures
            r@ == EffectView::amount(EffectType::ShieldChange, target, current),
    {
        ActEffectBuilder::new(EffectType::ShieldChange, target).effect_num(current).build()
    }

    /// A shield that broke.
    pub fn shield_broken(target: i64) -> (r: ActEffect)
        ensures
            r@ == EffectView::on(EffectType::ShieldBroken, target),
    {
        ActEffectBuilder::new(EffectType::ShieldBroken, target).build()
    }

    /// A shield that is taken away.
    pub fn shield_del(target: i64) -> (r: ActEffect)
        ensures
            r@ == EffectView::on(EffectType::ShieldDel, target),
    {
        ActEffectBuilder::new(EffectType::ShieldDel, target).build()
    }

    /// A poison marker.
    pub fn poison(target: i64) -> (r: ActEffect)
        ensures
            r@ == EffectView::amount(EffectType::Poison, target, 0),
    {
        ActEffectBuilder::new(EffectType::Poison, target).effect_num(0).build()
    }

    /// A burn marker.
    pub fn burn(target: i64, effect_num: i32, buff_act_id: Option<i32>) -> (r: ActEffect)
        ensures
            r@ == (EffectView { buff_act_id, ..EffectView::amount(EffectType::Burn, target, effect_num) }),
    {
        let mut builder = ActEffectBuilder::new(EffectType::Burn, target).effect_num(effect_num);
        if let Some(buff_act_id) = buff_act_id {
            builder = builder.buff_act_id(buff_act_id);
        }
        builder.build()
    }

    /// A bloodlust marker.
    pub fn bloodlust(target: i64, amount: i32) -> (r: ActEffect)
        ensures
            r@ == EffectView::amount(EffectType::Bloodlust, target, amount),
    {
        ActEffectBuilder::new(EffectType::Bloodlust, target).effect_num(amount).build()
    }

    /// An evening-out of life.
    pub fn average_life(target: i64) -> (r: ActEffect)
        ensures
            r@ == EffectView::on(EffectType::AverageLife, target),
    {
        ActEffectBuilder::new(EffectType::AverageLife, target).build()
    }

    /// A counter of the battle.
    pub fn fight_counter(target: i64, amount: i32) -> (r: ActEffect)
        ensures
            r@ == EffectView::amount(EffectType::FightCounter, target, amount),
    {
        ActEffectBuilder::new(EffectType::FightCounter, target).effect_num(amount).build()
    }

    /// A change of the parameters of an act of a buff.
    pub fn buff_act_info_update(
        target: i64,
        reserve_id: i64,
        buff_act_info: BuffActInfo,
    ) -> (r: ActEffect)
        ensures
            r@ == (EffectView {
                reserve_id: Some(reserve_id),
                buff_act_info: Some(buff_act_info@),
                ..EffectView::on(EffectType::BuffActInfoUpdate, target)
            }),
    {
        ActEffectBuilder::new(EffectType::BuffActInfoUpdate, target).reserve_id(
            reserve_id,
        ).buff_act_info(buff_act_info).build()
    }

    /// How many random-target follow-up hits will fire.
    pub fn nuodika_random_attack_num(target: i64, amount: i32, target_count: i32) -> (r: ActEffect)
        ensures
            r@ == (EffectView {
                effect_num1: Some(target_count),
                ..EffectView::amount(EffectType::NuodikaRandomAttackNum, target, amount)
            }),
    {
        ActEffectBuilder::new(EffectType::NuodikaRandomAttackNum, target).effect_num(
            amount,
        ).effect_num1(target_count).build()
    }

    /// A random-target follow-up hit.
    pub fn nuodika_random_attack(
        target: i64,
        amount: i32,
        hit_kind: i32,
        config_effect: i32,
        buff_act_id: i32,
        reserve_str: String,
    ) -> (r: ActEffect)
        ensures
            r@ == (EffectView {
                effect_num1: Some(hit_kind),
                config_effect: Some(config_effect),
                buff_act_id: Some(buff_act_id),
                reserve_str: Some(reserve_str@),
                ..EffectView::amount(EffectType::NuodikaRandomAttack, target, amount)
            }),
    {
        ActEffectBuilder::new(EffectType::NuodikaRandomAttack, target).effect_num(
            amount,
        ).effect_num1(hit_kind).config_effect(config_effect).buff_act_id(buff_act_id).reserve_str(
            reserve_str,
        ).build()
    }

    /// A team-wide follow-up hit.
    pub fn nuodika_team_attack(
        target: i64,
        amount: i32,
        team_hit_kind: i32,
        config_effect: i32,
        buff_act_id: i32,
    ) -> (r: ActEffect)
        ensures
            r@ == (EffectView {
                effect_num1: Some(team_hit_kind),
                config_effect: Some(config_effect),
                buff_act_id: Some(buff_act_id),
                ..EffectView::amount(EffectType::NuodikaTeamAttack, target, amount)
            }),
    {
        ActEffectBuilder::new(EffectType::NuodikaTeamAttack, target).effect_num(
            amount,
        ).effect_num1(team_hit_kind).config_effect(config_effect).buff_act_id(buff_act_id).build()
    }

    /// A magic circle is laid.
    pub fn magic_circle_add(target: i64, circle_id: i32, circle: MagicCircleInfo) -> (r: ActEffect)
        ensures
            r@ == (EffectView {
                reserve_id: Some(circle_id as i64),
                magic_circle: Some(circle),
                ..EffectView::amount(EffectType::MagicCircleAdd, target, 0)
            }),
    {
        ActEffectBuilder::new(EffectType::MagicCircleAdd, target).effect_num(0).reserve_id(
            circle_id as i64,
        ).magic_circle(circle).build()
    }

    /// A magic circle is taken away.
    pub fn magic_circle_delete(target: i64, circle_id: i32) -> (r: ActEffect)
        ensures
            r@ == (EffectView {
                reserve_id: Some(circle_id as i64),
                ..EffectView::amount(EffectType::MagicCircleDelete, target, 0)
            }),
    {
        ActEffectBuilder::new(EffectType::MagicCircleDelete, target).reserve_id(
            circle_id as i64,
        ).effect_num(0).build()
    }

    /// A magic circle changes.
    pub fn magic_circle_update(
        target: i64,
        circle_id: i32,
        reserve_str: String,
        circle: MagicCircleInfo,
    ) -> (r: ActEffect)
        ensures
            r@ == (EffectView {
                reserve_id: Some(circle_id as i64),
                reserve_str: Some(reserve_str@),
                magic_circle: Some(circle),
                ..EffectView::amount(EffectType::MagicCircleUpdate, target, 0)
            }),
    {
        ActEffectBuilder::new(EffectType::MagicCircleUpdate, target).reserve_id(
            circle_id as i64,
        ).reserve_str(reserve_str).magic_circle(circle).effect_num(0).build()
    }

    /// Additional damage.
    pub fn additional_damage(target: i64, amount: i32) -> (r: ActEffect)
        ensures
            r@ == EffectView::amount(EffectType::AdditionalDamage, target, amount),
    {
        ActEffectBuilder::new(EffectType::AdditionalDamage, target).effect_num(amount).build()
    }

    /// Critical additional damage.
    pub fn additional_damage_crit(target: i64, amount: i32) -> (r: ActEffect)
        ensures
            r@ == EffectView::amount(EffectType::AdditionalDamageCrit, target, amount),
    {
        ActEffectBuilder::new(EffectType::AdditionalDamageCrit, target).effect_num(amount).build()
    }

    /// The card that an actor gave up. The effect does not name the actor.
    pub fn select(_actor: i64, card_idx: i32) -> (r: ActEffect)
        ensures
            r@ == (EffectView {
                effect_num: Some(card_idx),
                ..EffectView::kind_only(EffectType::CardInvalid)
            }),
    {
        ActEffectBuilder::bare(EffectType::CardInvalid).effect_num(card_idx).build()
    }

    /// The ex point gained for playing a card.
    pub fn click_effect(target: i64) -> (r: ActEffect)
        ensures
            r@ == EffectView::amount(EffectType::ExPointChange, target, 1),
    {
        ActEffectBuilder::new(EffectType::ExPointChange, target).effect_num(1).build()
    }

    /// The source of a halo.
    pub fn master_halo(target: i64) -> (r: ActEffect)
        ensures
            r@ == EffectView::on(EffectType::MasterHalo, target),
    {
        ActEffectBuilder::new(EffectType::MasterHalo, target).build()
    }

    /// The bearer of a halo.
    pub fn slave_halo(target: i64) -> (r: ActEffect)
        ensures
            r@ == EffectView::on(EffectType::SlaveHalo, target),
    {
        ActEffectBuilder::new(EffectType::SlaveHalo, target).build()
    }

    /// A change of attributes with a number.
    pub fn attr_with_num(target: i64, effect_num: i32) -> (r: ActEffect)
        ensures
            r@ == EffectView::amount(EffectType::Attr, target, effect_num),
    {
        ActEffectBuilder::new(EffectType::Attr, target).effect_num(effect_num).build()
    }

    /// A bare marker of any kind.
    pub fn marker(effect_type: EffectType, target: i64, effect_num: i32) -> (r: ActEffect)
        ensures
            r@ == EffectView::amount(effect_type, target, effect_num),
    {
        ActEffectBuilder::new(effect_type, target).effect_num(effect_num).build()
    }

    /// The end of a round.
    pub fn round_end(target: Option<i64>, effect_num: Option<i32>) -> (r: ActEffect)
        ensures
            r@ == (EffectView {
                target_id: target,
                effect_num,
                ..EffectView::kind_only(EffectType::RoundEnd)
            }),
    {
        let mut builder = ActEffectBuilder::bare(EffectType::RoundEnd);
        if let Some(target) = target {
            builder = builder.target_id(target);
        }
        if let Some(effect_num) = effect_num {
            builder = builder.effect_num(effect_num);
        }
        builder.build()
    }

    /// The change to the next round.
    pub fn change_round(target: Option<i64>, effect_num: Option<i32>) -> (r: ActEffect)
        ensures
            r@ == (EffectView {
                target_id: target,
                effect_num,
                ..EffectView::kind_only(EffectType::ChangeRound)
            }),
    {
        let mut builder = ActEffectBuilder::bare(EffectType::ChangeRound);
        if let Some(target) = target {
            builder = builder.target_id(target);
        }
        if let Some(effect_num) = effect_num {
            builder = builder.effect_num(effect_num);
        }
        builder.build()
    }

    /// Universal cards are cleared away.
    pub fn clear_universal_card(
        target: Option<i64>,
        effect_num: Option<i32>,
        team_type: Option<i32>,
    ) -> (r: ActEffect)
        ensures
            r@ == (EffectView {
                target_id: target,
                effect_num,
                team_type,
                ..EffectView::kind_only(EffectType::ClearUniversalCard)
            }),
    {
        let mut builder = ActEffectBuilder::bare(EffectType::ClearUniversalCard);
        if let Some(target) = target {
            builder = builder.target_id(target);
        }
        if let Some(effect_num) = effect_num {
            builder = builder.effect_num(effect_num);
        }
        if let Some(team_type) = team_type {
            builder = builder.team_type(team_type);
        }
        builder.build()
    }

    /// A reserve takes the place of the fallen.
    pub fn change_hero(dead_uid: i64, sub_entity: FightEntityInfo, position: i32) -> (r: ActEffect)
        ensures
            r@ == (EffectView {
                entity: Some(sub_entity@),
                ..EffectView::amount(EffectType::ChangeHero, dead_uid, position)
            }),
    {
        let mut effect = ActEffectBuilder::new(EffectType::ChangeHero, dead_uid).effect_num(
            position,
        ).build();
        effect.entity = Some(sub_entity);
        effect
    }

    /// The end of a small round.
    pub fn small_round_end(target: Option<i64>, effect_num: i32) -> (r: ActEffect)
        ensures
            r@ == (EffectView {
                target_id: target,
                effect_num: Some(effect_num),
                ..EffectView::kind_only(EffectType::SmallRoundEnd)
            }),
    {
        let mut builder = ActEffectBuilder::bare(EffectType::SmallRoundEnd).effect_num(effect_num);
        if let Some(target) = target {
            builder = builder.target_id(target);
        }
        builder.build()
    }

    /// The hand after a redeal.
    pub fn after_redeal_card(card_info_list: Vec<CardInfo>) -> (r: ActEffect)
        ensures
            r@ == (EffectView {
                card_info_list: card_info_list@,
                team_type: Some(1),
                ..EffectView::on(EffectType::AfterReDealCard, 0)
            }),
    {
        ActEffectBuilder::new(EffectType::AfterReDealCard, 0).card_info_list(
            card_info_list,
        ).team_type(1).build()
    }

    /// The cards in use.
    pub fn use_cards(card_info_list: Vec<CardInfo>) -> (r: ActEffect)
        ensures
            r@ == (EffectView {
                card_info_list: card_info_list@,
                ..EffectView::kind_only(EffectType::UseCards)
            }),
    {
        ActEffectBuilder::bare(EffectType::UseCards).card_info_list(card_info_list).build()
    }

    /// The first deal of a battle.
    pub fn enter_fight_deal() -> (r: ActEffect)
        ensures
            r@ == (EffectView {
                team_type: Some(0),
                ..EffectView::amount(EffectType::EnterFightDeal, 0, 0)
            }),
    {
        ActEffectBuilder::new(EffectType::EnterFightDeal, 0).effect_num(0).team_type(0).build()
    }

    /// An ex skill is used at once.
    pub fn direct_use_ex_skill(target: i64) -> (r: ActEffect)
        ensures
            r@ == EffectView::amount(EffectType::DirectUseExSkill, target, 0),
    {
        ActEffectBuilder::new(EffectType::DirectUseExSkill, target).effect_num(0).build()
    }

    /// Energy is given to cards.
    pub fn allocate_card_energy(card_info_list: Vec<CardInfo>) -> (r: ActEffect)
        ensures
            r@ == (EffectView {
                effect_num: Some(1),
                card_info_list: card_info_list@,
                ..EffectView::kind_only(EffectType::AllocateCardEnergy)
            }),
    {
        ActEffectBuilder::bare(EffectType::AllocateCardEnergy).effect_num(1).card_info_list(
            card_info_list,
        ).build()
    }

    /// The first part of a deal.
    pub fn deal_card1() -> (r: ActEffect)
        ensures
            r@ == EffectView::on(EffectType::DealCard1, 0),
    {
        ActEffectBuilder::new(EffectType::DealCard1, 0).build()
    }

    /// The second part of a deal.
    pub fn deal_card2() -> (r: ActEffect)
        ensures
            r@ == EffectView::on(EffectType::DealCard2, 0),
    {
        ActEffectBuilder::new(EffectType::DealCard2, 0).build()
    }

    /// A special card joins the hand.
    pub fn sp_card_add(
        target: i64,
        effect_num: i32,
        reserve_id: i64,
        team_type: i32,
    ) -> (r: ActEffect)
        ensures
            r@ == (EffectView {
                reserve_id: Some(reserve_id),
                team_type: Some(team_type),
                ..EffectView::amount(EffectType::SpCardAdd, target, effect_num)
            }),
    {
        ActEffectBuilder::new(EffectType::SpCardAdd, target).effect_num(effect_num).reserve_id(
            reserve_id,
        ).team_type(team_type).build()
    }

    /// Cards turn into temporary cards.
    pub fn change_to_temp_card(target: i64, reserve_str: String, team_type: i32) -> (r: ActEffect)
        ensures
            r@ == (EffectView {
                reserve_str: Some(reserve_str@),
                team_type: Some(team_type),
                ..EffectView::on(EffectType::ChangeToTempCard, target)
            }),
    {
        ActEffectBuilder::new(EffectType::ChangeToTempCard, target).reserve_str(
            reserve_str,
        ).team_type(team_type).build()
    }

}

/// The three effects that show a blood pool to the client.
pub open spec fn bloodtithe_sync_effects(
    team: i32,
    display_uid: i64,
    cur: i32,
    max: i32,
) -> Seq<EffectView> {
    seq![
        EffectView {
            team_type: Some(team),
            ..EffectView::amount(EffectType::BloodPoolMaxCreate, 0, 1)
        },
        EffectView {
            team_type: Some(team),
            effect_num1: Some(max),
            ..EffectView::amount(EffectType::BloodPoolMaxChange, 0, 1)
        },
        EffectView {
            team_type: Some(team),
            effect_num1: Some(1),
            ..EffectView::amount(EffectType::BloodPoolValueChange, display_uid, cur)
        },
    ]
}

/// A step under construction.
#[derive(Debug)]
pub struct FightStepBuilder {
    act_type: ActType,
    from_id: i64,
    to_id: i64,
    act_id: i32,
    effects: Vec<ActEffect>,
}

impl View for FightStepBuilder {
    type V = StepView;

    closed spec fn view(&self) -> StepView {
        StepView::plain(
            self.act_type,
            self.from_id,
            self.to_id,
            self.act_id,
            effects_view(self.effects@),
        )
    }
}

impl StepView {
    /// The step with more effects at its end.
    pub open spec fn extended(self, more: Seq<EffectView>) -> StepView {
        StepView { act_effect: self.act_effect + more, ..self }
    }
}

impl FightStepBuilder {
    /// Starts a step that only carries effects.
    pub fn effect() -> (r: FightStepBuilder)
        ensures
            r@ == StepView::container(0, 0, 0, Seq::empty()),
    {
        FightStepBuilder::effect_from(0)
    }

    /// Starts a step of effects that come from an entity.
    pub fn effect_from(from_id: i64) -> (r: FightStepBuilder)
        ensures
            r@ == StepView::container(from_id, 0, 0, Seq::empty()),
    {
        FightStepBuilder {
            act_type: ActType::Effect,
            from_id,
            to_id: 0,
            act_id: 0,
            effects: Vec::new(),
        }
    }

    /// Starts a step that plays a skill.
    pub fn skill(from_id: i64, to_id: i64, skill_id: i32) -> (r: FightStepBuilder)
        ensures
            r@ == StepView::plain(ActType::Skill, from_id, to_id, skill_id, Seq::empty()),
    {
        FightStepBuilder {
            act_type: ActType::Skill,
            from_id,
            to_id,
            act_id: skill_id,
            effects: Vec::new(),
        }
    }

    /// Adds an effect.
    pub fn with(self, effect: ActEffect) -> (r: FightStepBuilder)
        ensures
            r@ == self@.extended(seq![effect@]),
    {
        let mut effects = self.effects;
        let ghost before = effects@;
        effects.push(effect);
        assert(effects_view(effects@) =~= effects_view(before) + seq![effect@]);
        FightStepBuilder {
            act_type: self.act_type,
            from_id: self.from_id,
            to_id: self.to_id,
            act_id: self.act_id,
            effects,
        }
    }

    /// Adds effects.
    pub fn with_many(self, effects: Vec<ActEffect>) -> (r: FightStepBuilder)
        ensures
            r@ == self@.extended(effects_view(effects@)),
    {
        let mut all = self.effects;
        let mut more = effects;
        all.append(&mut more);
        FightStepBuilder {
            act_type: self.act_type,
            from_id: self.from_id,
            to_id: self.to_id,
            act_id: self.act_id,
            effects: all,
        }
    }

    /// Adds a nested step.
    pub fn with_nested(self, step: FightStep) -> (r: FightStepBuilder)
        ensures
            r@ == self@.extended(
                seq![
                    EffectView {
                        fight_step: Some(step@),
                        ..EffectView::on(EffectType::FightStep, 0)
                    },
                ],
            ),
    {
        self.with(ActEffectBuilder::skill_wrapper_without_num(step))
    }

    /// Adds a nested skill step that an entity plays on itself.
    pub fn with_skill_container(
        self,
        from_uid: i64,
        skill_id: i32,
        effects: Vec<ActEffect>,
    ) -> (r: FightStepBuilder)
        ensures
            r@ == self@.extended(
                seq![
                    EffectView::wrapper(
                        StepView::plain(
                            ActType::Skill,
                            from_uid,
                            from_uid,
                            skill_id,
                            effects_view(effects@),
                        ),
                    ),
                ],
            ),
    {
        let step = FightStepBuilder::skill(from_uid, from_uid, skill_id).with_many(effects).build();
        assert(step@.act_effect =~= effects_view(effects@));
        self.with(wrap_step(step))
    }

    /// Adds a nested step that only carries effects.
    pub fn with_effect_container(
        self,
        from_uid: i64,
        to_uid: i64,
        act_id: i32,
        effects: Vec<ActEffect>,
    ) -> (r: FightStepBuilder)
        ensures
            r@ == self@.extended(
                seq![
                    EffectView::wrapper(
                        StepView::container(from_uid, to_uid, act_id, effects_view(effects@)),
                    ),
                ],
            ),
    {
        self.with(wrap_step(effect_container_step(from_uid, to_uid, act_id, effects)))
    }

    /// Adds the three effects that show a blood pool to the client.
    pub fn with_bloodtithe_sync(
        self,
        team: i32,
        display_uid: i64,
        cur: i32,
        max: i32,
    ) -> (r: FightStepBuilder)
        ensures
            r@ == self@.extended(bloodtithe_sync_effects(team, display_uid, cur, max)),
    {
        let create = ActEffectBuilder::new(EffectType::BloodPoolMaxCreate, 0).team_type(
            team,
        ).effect_num(1).build();
        let capacity = ActEffectBuilder::new(EffectType::BloodPoolMaxChange, 0).team_type(
            team,
        ).effect_num(1).effect_num1(max).build();
        let value = ActEffectBuilder::new(EffectType::BloodPoolValueChange, display_uid).team_type(
            team,
        ).effect_num(cur).effect_num1(1).build();
        let r = self.with(create).with(capacity).with(value);
        assert(r@.act_effect =~= self@.act_effect + bloodtithe_sync_effects(
            team,
            display_uid,
            cur,
            max,
        ));
        r
    }

    /// The finished step.
    pub fn build(self) -> (r: FightStep)
        ensures
            r@ == self@,
    {
        FightStep {
            act_type: Some(self.act_type),
            from_id: Some(self.from_id),
            to_id: Some(self.to_id),
            act_id: Some(self.act_id),
            act_effect: self.effects,
            card_index: Some(0),
            support_hero_id: Some(0),
            fake_timeline: Some(false),
            real_skill_type: Some(0),
            real_skin_id: Some(0),
        }
    }

    /// A step that changes the ex points of one entity.
    pub fn ex_point_change(uid: i64, delta: i32) -> (r: FightStep)
        ensures
            r@ == StepView::container(
                0,
                0,
                0,
                seq![EffectView::amount(EffectType::ExPointChange, uid, delta)],
            ),
    {
        let r = FightStepBuilder::effect().with(
            ActEffectBuilder::ex_point_change(uid, delta),
        ).build();
        assert(r@.act_effect =~= seq![EffectView::amount(EffectType::ExPointChange, uid, delta)]);
        r
    }

    /// The finished step, wrapped into an effect.
    pub fn wrap(self) -> (r: ActEffect)
        ensures
            r@ == EffectView::wrapper(self@),
    {
        wrap_step(self.build())
    }
}

/// A step that only carries effects.
pub fn effect_container_step(
    from_uid: i64,
    to_uid: i64,
    act_id: i32,
    effects: Vec<ActEffect>,
) -> (r: FightStep)
    ensures
        r@ == StepView::container(from_uid, to_uid, act_id, effects_view(effects@)),
{
    FightStep {
        act_type: Some(ActType::Effect),
        from_id: Some(from_uid),
        to_id: Some(to_uid),
        act_id: Some(act_id),
        act_effect: effects,
        card_index: Some(0),
        support_hero_id: Some(0),
        fake_timeline: Some(false),
        real_skill_type: Some(0),
        real_skin_id: Some(0),
    }
}

/// Wraps a step into an effect.
pub fn wrap_step(step: FightStep) -> (r: ActEffect)
    ensures
        r@ == EffectView::wrapper(step@),
{
    ActEffectBuilder::skill_wrapper(step)
}

} // verus!
