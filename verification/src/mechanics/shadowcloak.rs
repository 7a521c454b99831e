//! The shadow cloak: one fighter's lost life, shared by its team as a larger life
//! maximum.

use crate::arith::{or_zero, value};
use crate::buffs::{find_buff, first_buff, BuffMgr};
use crate::fight_step::builder::{ActEffectBuilder, FightStepBuilder};
use crate::lookup::{entity_of, find_entity};
use crate::manager::entity_mgr::{entry, on_field, EntityMgr, EntityMgrView};
use crate::model::lists::group_effects_view;
use crate::model::{
    effects_view, entities_view, ActEffect, BuffActInfo, BuffActInfoView, EffectType, EffectView,
    EntityView, Fight, FightStep, FightView, StepView,
};
use vstd::prelude::*;

verus! {

broadcast use group_effects_view;

/// The state of the cloak.
#[derive(Clone, Copy, PartialEq, Eq, Structural, Debug)]
pub struct ShadowCloakState {
    /// What the cloak gathered so far.
    pub total_shared: i32,
    /// What it gathered since the last tick.
    pub last_gain_shared: i32,
    pub rubuska_entry_max_hp: i32,
    /// The fighter whose lost life feeds the cloak; zero if there is none.
    pub rubuska_uid: i64,
    pub raspberry_accum: i32,
    pub raspberry_max: i32,
}

/// What does not come from the cloak itself: the buff that shows it, and how much
/// it can hold.
#[derive(Clone, Copy, PartialEq, Eq, Structural, Debug)]
pub struct CloakSettings {
    pub accumulator_buff_id: i32,
    pub max_capacity: i32,
}

/// The life maximum in the attributes of a fighter; zero if it is unknown.
pub open spec fn attr_hp(f: FightView, uid: i64) -> i32 {
    match entity_of(f, uid) {
        Some(e) => match e.attr {
            Some(a) => or_zero(a.hp),
            None => 0,
        },
        None => 0,
    }
}

/// Looks up the life maximum in the attributes of a fighter.
pub fn find_attr_hp(fight: &Fight, uid: i64) -> (r: i32)
    ensures
        r == attr_hp(fight@, uid),
{
    match find_entity(fight, uid) {
        Some(e) => match e.attr {
            Some(a) => value(a.hp),
            None => 0,
        },
        None => 0,
    }
}

/// The unique id of the first buff of an id; zero if there is none.
pub open spec fn buff_uid_of(buffs: BuffMgr, uid: i64, buff_id: i32) -> i64 {
    match first_buff(buffs.of(uid), buff_id) {
        Some(b) => b.uid,
        None => 0,
    }
}

/// The effects that show the cloak on one fighter.
pub open spec fn cloak_effects_of(
    c: ShadowCloakState,
    settings: CloakSettings,
    f: FightView,
    buffs: BuffMgr,
    m: EntityMgrView,
    uid: i64,
) -> Seq<EffectView> {
    seq![
        EffectView::amount(EffectType::CurrentHpChange, uid, entry(m.current_hp, uid)),
        EffectView {
            reserve_id: Some(buff_uid_of(buffs, uid, settings.accumulator_buff_id)),
            buff_act_info: Some(
                BuffActInfoView {
                    act_id: Some(1042),
                    param: seq![c.last_gain_shared, settings.max_capacity],
                },
            ),
            ..EffectView::on(EffectType::BuffActInfoUpdate, uid)
        },
        EffectView {
            buff_act_id: Some(1042),
            ..EffectView::amount(
                EffectType::MaxHpChange,
                uid,
                (attr_hp(f, uid) + c.total_shared) as i32,
            )
        },
    ]
}

/// The effects that show the cloak on some fighters.
pub open spec fn cloak_effects(
    c: ShadowCloakState,
    settings: CloakSettings,
    f: FightView,
    buffs: BuffMgr,
    m: EntityMgrView,
    team: Seq<EntityView>,
) -> Seq<EffectView>
    decreases team.len(),
{
    if team.len() == 0 {
        Seq::empty()
    } else {
        cloak_effects(c, settings, f, buffs, m, team.drop_last()) + match team.last().uid {
            Some(uid) => cloak_effects_of(c, settings, f, buffs, m, uid),
            None => Seq::empty(),
        }
    }
}

/// The effects that show the cloak: nothing where it gathered nothing since the
/// last tick.
pub open spec fn cloak_sync(
    c: ShadowCloakState,
    settings: CloakSettings,
    f: FightView,
    buffs: BuffMgr,
    m: EntityMgrView,
) -> Seq<EffectView> {
    if c.last_gain_shared == 0 {
        Seq::empty()
    } else {
        cloak_effects(c, settings, f, buffs, m, on_field(f.attacker))
    }
}

/// The life maximum of every attacker on the field can carry the cloak.
pub open spec fn cloak_fits(c: ShadowCloakState, f: FightView) -> bool {
    forall|i: int|
        0 <= i < on_field(f.attacker).len() && (#[trigger] on_field(f.attacker)[i]).uid is Some
            ==> i32::MIN <= attr_hp(f, on_field(f.attacker)[i].uid->0) + c.total_shared
            <= i32::MAX
}

impl ShadowCloakState {
    /// No cloak.
    pub fn new() -> (r: ShadowCloakState)
        ensures
            r == (ShadowCloakState {
                total_shared: 0,
                last_gain_shared: 0,
                rubuska_entry_max_hp: 0,
                rubuska_uid: 0,
                raspberry_accum: 0,
                raspberry_max: 0,
            }),
    {
        ShadowCloakState {
            total_shared: 0,
            last_gain_shared: 0,
            rubuska_entry_max_hp: 0,
            rubuska_uid: 0,
            raspberry_accum: 0,
            raspberry_max: 0,
        }
    }

    /// Whether there is a cloak.
    pub fn is_active(&self) -> (r: bool)
        ensures
            r == (self.rubuska_uid != 0),
    {
        self.rubuska_uid != 0
    }

    /// Feeds the cloak with what a fighter's lost life is worth. Only its own
    /// fighter feeds it, and only with a gain. Returns what was gathered.
    pub fn add(&mut self, uid: i64, gain: i32) -> (r: i32)
        requires
            uid == old(self).rubuska_uid && gain > 0 ==> old(self).total_shared + gain <= i32::MAX,
        ensures
            r == (if uid == old(self).rubuska_uid && gain > 0 {
                gain
            } else {
                0
            }),
            *final(self) == (if r > 0 {
                ShadowCloakState {
                    last_gain_shared: gain,
                    total_shared: (old(self).total_shared + gain) as i32,
                    ..*old(self)
                }
            } else {
                *old(self)
            }),
    {
        if uid != self.rubuska_uid || gain <= 0 {
            return 0;
        }
        self.last_gain_shared = gain;
        self.total_shared = self.total_shared + gain;
        gain
    }

    /// Forgets what was gathered since the last tick.
    pub fn reset_tick(&mut self)
        ensures
            *final(self) == (ShadowCloakState { last_gain_shared: 0, ..*old(self) }),
    {
        self.last_gain_shared = 0;
    }

    /// Shows the cloak on every attacker on the field.
    pub fn build_sync_effects(
        &self,
        settings: CloakSettings,
        fight: &Fight,
        buffs: &BuffMgr,
        entity_mgr: &EntityMgr,
    ) -> (r: Vec<ActEffect>)
        requires
            cloak_fits(*self, fight@),
        ensures
            effects_view(r@) == cloak_sync(*self, settings, fight@, *buffs, entity_mgr@),
    {
        let mut effects: Vec<ActEffect> = Vec::new();
        if self.last_gain_shared == 0 {
            return effects;
        }
        if let Some(attacker) = &fight.attacker {
            let ghost team = entities_view(attacker.entitys@);
            assert(team.take(0).len() == 0);
            for i in 0..attacker.entitys.len()
                invariant
                    cloak_fits(*self, fight@),
                    team == entities_view(attacker.entitys@),
                    team == on_field(fight@.attacker),
                    effects_view(effects@) == cloak_effects(
                        *self,
                        settings,
                        fight@,
                        *buffs,
                        entity_mgr@,
                        team.take(i as int),
                    ),
            {
                assert(team.take(i + 1).drop_last() =~= team.take(i as int));
                assert(team.take(i + 1).last() == attacker.entitys@[i as int]@);
                assert(on_field(fight@.attacker)[i as int] == attacker.entitys@[i as int]@);
                let ghost before = effects_view(effects@);
                if let Some(uid) = attacker.entitys[i].uid {
                    let full: i32 = find_attr_hp(fight, uid) + self.total_shared;
                    let held = buffs.get(uid);
                    let buff_uid: i64 = match find_buff(&held, settings.accumulator_buff_id) {
                        Some(b) => b.uid,
                        None => 0,
                    };
                    let mut params: Vec<i32> = Vec::new();
                    params.push(self.last_gain_shared);
                    params.push(settings.max_capacity);
                    assert(params@ =~= seq![self.last_gain_shared, settings.max_capacity]);
                    effects.push(ActEffectBuilder::current_hp_change(uid, entity_mgr.get_hp(uid)));
                    effects.push(
                        ActEffectBuilder::buff_act_info_update(
                            uid,
                            buff_uid,
                            BuffActInfo { act_id: Some(1042), param: params },
                        ),
                    );
                    effects.push(ActEffectBuilder::max_hp_change(uid, full, Some(1042)));
                    assert(effects_view(effects@) =~= before + cloak_effects_of(
                        *self,
                        settings,
                        fight@,
                        *buffs,
                        entity_mgr@,
                        uid,
                    ));
                }
                assert(effects_view(effects@) =~= cloak_effects(
                    *self,
                    settings,
                    fight@,
                    *buffs,
                    entity_mgr@,
                    team.take(i + 1),
                ));
            }
            assert(team.take(team.len() as int) =~= team);
        }
        effects
    }

    /// Shows the cloak in a step of its own and starts the next tick. Nothing is
    /// shown without a cloak or without a gain.
    pub fn sync_step(
        &mut self,
        settings: CloakSettings,
        fight: &Fight,
        buffs: &BuffMgr,
        entity_mgr: &EntityMgr,
    ) -> (r: Option<FightStep>)
        requires
            cloak_fits(*old(self), fight@),
        ensures
            ({
                let s = cloak_sync(*old(self), settings, fight@, *buffs, entity_mgr@);
                if old(self).rubuska_uid == 0 {
                    r is None && *final(self) == *old(self)
                } else {
                    &&& *final(self) == (ShadowCloakState { last_gain_shared: 0, ..*old(self) })
                    &&& r is Some <==> s.len() > 0
                    &&& r is Some ==> r->0@ == StepView::container(0, 0, 0, s)
                }
            }),
    {
        if !self.is_active() {
            return None;
        }
        let effects = self.build_sync_effects(settings, fight, buffs, entity_mgr);
        assert(effects_view(effects@).len() == effects@.len());
        self.reset_tick();
        if effects.len() == 0 {
            return None;
        }
        let step = FightStepBuilder::effect().with_many(effects).build();
        assert(step@.act_effect =~= effects_view(effects@));
        Some(step)
    }
}

impl Default for ShadowCloakState {
    fn default() -> (r: ShadowCloakState)
        ensures
            r == (ShadowCloakState {
                total_shared: 0,
                last_gain_shared: 0,
                rubuska_entry_max_hp: 0,
                rubuska_uid: 0,
                raspberry_accum: 0,
                raspberry_max: 0,
            }),
    {
        ShadowCloakState::new()
    }
}

} // verus!
