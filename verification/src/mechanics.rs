//! Mechanics that span several skills.

pub mod channel;
pub mod channel_followup;
pub mod channel_host;
pub mod dot_settle_round_start;
pub mod injury_bonus;
pub mod injury_counter;
pub mod magic_circle;
pub mod shadowcloak;

use crate::buffs::BuffMgr;
use crate::config::{BuffActRow, SkillBuffRow, SkillEffectRow};
use crate::manager::entity_mgr::EntityMgr;
use crate::mechanics::channel::{attackers_on_field, team_triggers, ChannelState};
use crate::mechanics::shadowcloak::{cloak_fits, cloak_sync, CloakSettings, ShadowCloakState};
use crate::model::{Fight, FightStep, StepView};
use vstd::prelude::*;

verus! {

/// The state of the mechanics of a battle.
#[derive(Debug)]
pub struct Mechanics {
    pub channel: ChannelState,
    pub shadow_cloak: ShadowCloakState,
}

impl Mechanics {
    /// Nothing has happened yet.
    pub fn new() -> (r: Mechanics)
        ensures
            r.channel.monitor_triggers@.len() == 0,
            r.shadow_cloak == (ShadowCloakState {
                total_shared: 0,
                last_gain_shared: 0,
                rubuska_entry_max_hp: 0,
                rubuska_uid: 0,
                raspberry_accum: 0,
                raspberry_max: 0,
            }),
    {
        Mechanics { channel: ChannelState::new(), shadow_cloak: ShadowCloakState::new() }
    }

    /// Takes over what a battle starts with. `cloak` is the cloak of its fighters.
    pub fn init(
        &mut self,
        fight: &Fight,
        cloak: ShadowCloakState,
        skills: &Vec<SkillEffectRow>,
        buff_rows: &Vec<SkillBuffRow>,
        acts: &Vec<BuffActRow>,
    )
        ensures
            final(self).channel.monitor_triggers@ == old(self).channel.monitor_triggers@
                + team_triggers(attackers_on_field(fight@), skills@, buff_rows@, acts@),
            final(self).shadow_cloak == cloak,
    {
        self.channel.init(fight, skills, buff_rows, acts);
        self.shadow_cloak = cloak;
    }

    /// The step that shows the cloak after a tick.
    pub fn on_post_raspberry(
        &mut self,
        settings: CloakSettings,
        fight: &Fight,
        buffs: &BuffMgr,
        entity_mgr: &EntityMgr,
    ) -> (r: Option<FightStep>)
        requires
            cloak_fits(old(self).shadow_cloak, fight@),
        ensures
            final(self).channel == old(self).channel,
            ({
                let s = cloak_sync(
                    old(self).shadow_cloak,
                    settings,
                    fight@,
                    *buffs,
                    entity_mgr@,
                );
                if old(self).shadow_cloak.rubuska_uid == 0 {
                    r is None && final(self).shadow_cloak == old(self).shadow_cloak
                } else {
                    &&& final(self).shadow_cloak == (ShadowCloakState {
                        last_gain_shared: 0,
                        ..old(self).shadow_cloak
                    })
                    &&& r is Some <==> s.len() > 0
                    &&& r is Some ==> r->0@ == StepView::container(0, 0, 0, s)
                }
            }),
    {
        self.shadow_cloak.sync_step(settings, fight, buffs, entity_mgr)
    }
}

} // verus!
