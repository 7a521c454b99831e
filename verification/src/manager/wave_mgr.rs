//! Waves of enemies.

use crate::arith::{div_toward_zero, or_zero, or_zero64, value, value64};
use crate::config::{
    find_row, row_at, BattleRow, EpisodeRow, MagicCircleRow, MonsterSkillTemplateRow,
};
use crate::fight_step::builder::{ActEffectBuilder, FightStepBuilder};
use crate::fight_step::steps::steps_view;
use crate::lookup::{everyone, members};
use crate::manager::entity_mgr::{
    on_field, required_set, seed_ex_point_required_from_fight, sync_from_fight, taken, EntityMgr,
    EntityMgrView,
};
use crate::mechanics::channel::{alive, is_alive};
use crate::model::lists::group_effects_view;
use crate::model::{
    effects_view, entities_view, ActEffect, EffectType, EffectView, EntityView, Fight,
    FightEntityInfo, FightStep, FightView, StepView, TeamView,
};
use crate::text::{number, parse_number, pieces, split_text, texts_view, trim_text, trimmed};
use vstd::prelude::*;

verus! {

broadcast use group_effects_view;

/// Why a wave cannot start.
#[derive(Clone, Copy, PartialEq, Eq, Structural, Debug)]
pub enum WaveError {
    NoDefenders,
}

/// Moves battles from wave to wave.
#[derive(Clone, Copy, PartialEq, Eq, Structural, Debug)]
pub struct WaveMgr {}

/// The present wave; the first where none is set.
pub open spec fn wave_of(f: FightView) -> i32 {
    match f.cur_wave {
        Some(n) => n,
        None => 1,
    }
}

/// Reads the present wave.
pub fn current_wave(fight: &Fight) -> (r: i32)
    ensures
        r == wave_of(fight@),
{
    match fight.cur_wave {
        Some(n) => n,
        None => 1,
    }
}

/// The number of waves of a battle: one per monster group, and at least one.
pub open spec fn max_wave(f: FightView, episodes: Seq<EpisodeRow>, battles: Seq<BattleRow>) -> nat {
    let battle_id = match row_at(episodes, or_zero(f.episode_id)) {
        Some(e) => e.battle_id,
        None => 0,
    };
    match row_at(battles, battle_id) {
        Some(b) => if b.monster_group_ids@.len() == 0 {
            1
        } else {
            pieces(b.monster_group_ids@, '#').len()
        },
        None => 1,
    }
}

/// The size of an id, as far as waves look at it: its lower half, with a sign.
pub open spec fn uid_size(uid: i64) -> i32 {
    ((-uid) as u64) as i32
}

/// The battle after the next wave has come.
pub open spec fn next_wave(f: FightView, wave: Seq<EntityView>) -> FightView {
    FightView {
        defender: Some(
            TeamView { entitys: wave, sub_entitys: Seq::empty(), ..f.defender->0 },
        ),
        cur_wave: Some((wave_of(f) + 1) as i32),
        is_finish: Some(false),
        ..f
    }
}

/// The ids of some fighters.
pub open spec fn uids_of(s: Seq<EntityView>) -> Seq<i64>
    decreases s.len(),
{
    if s.len() == 0 {
        Seq::empty()
    } else {
        match s.last().uid {
            Some(uid) => uids_of(s.drop_last()).push(uid),
            None => uids_of(s.drop_last()),
        }
    }
}

/// The ids of two lists are those of the first, then the second.
pub proof fn uids_of_join(a: Seq<EntityView>, b: Seq<EntityView>)
    ensures
        uids_of(a + b) == uids_of(a) + uids_of(b),
    decreases b.len(),
{
    if b.len() == 0 {
        assert(a + b =~= a);
    } else {
        uids_of_join(a, b.drop_last());
        assert((a + b).drop_last() =~= a + b.drop_last());
    }
    assert(uids_of(a + b) =~= uids_of(a) + uids_of(b));
}

fn push_uids(out: &mut Vec<i64>, team: &Vec<FightEntityInfo>)
    ensures
        final(out)@ == old(out)@ + uids_of(entities_view(team@)),
{
    let ghost start = out@;
    let ghost s = entities_view(team@);
    assert(start + uids_of(s.take(0)) =~= start);
    for i in 0..team.len()
        invariant
            s == entities_view(team@),
            out@ == start + uids_of(s.take(i as int)),
    {
        assert(s.take(i + 1).drop_last() =~= s.take(i as int));
        assert(s.take(i + 1).last() == team@[i as int]@);
        if let Some(uid) = team[i].uid {
            out.push(uid);
        }
        assert(out@ =~= start + uids_of(s.take(i + 1)));
    }
    assert(s.take(s.len() as int) =~= s);
}

/// The ids of all defenders, the field before the reserve.
pub fn defender_uids(fight: &Fight) -> (r: Vec<i64>)
    ensures
        r@ == uids_of(members(fight@.defender)),
{
    let mut out: Vec<i64> = Vec::new();
    if let Some(t) = &fight.defender {
        push_uids(&mut out, &t.entitys);
        push_uids(&mut out, &t.sub_entitys);
        proof {
            uids_of_join(t@.entitys, t@.sub_entitys);
        }
    }
    assert(out@ =~= uids_of(members(fight@.defender)));
    out
}

/// The ids of the defenders on the field.
pub fn field_defender_uids(fight: &Fight) -> (r: Vec<i64>)
    ensures
        r@ == uids_of(on_field(fight@.defender)),
{
    let mut out: Vec<i64> = Vec::new();
    if let Some(t) = &fight.defender {
        push_uids(&mut out, &t.entitys);
    }
    assert(out@ =~= uids_of(on_field(fight@.defender)));
    out
}

/// The waves of a list, each by its view.
pub open spec fn waves_view(v: Seq<Vec<FightEntityInfo>>) -> Seq<Seq<EntityView>> {
    Seq::new(v.len(), |i: int| entities_view(v[i]@))
}

/// A battle on its way to a wave: the battle, its trackers, and whose buffs are to
/// be removed.
pub struct Advance {
    pub fight: FightView,
    pub trackers: EntityMgrView,
    pub gone: Seq<i64>,
}

/// One step on the way: the next wave comes, the trackers follow, and the buffs of
/// the enemies of before are to be removed.
pub open spec fn advanced(
    a: Advance,
    wave: Seq<EntityView>,
    templates: Seq<MonsterSkillTemplateRow>,
) -> Advance {
    let f = next_wave(a.fight, wave);
    let m = taken(a.trackers, everyone(f));
    Advance {
        fight: f,
        trackers: EntityMgrView {
            ex_point_required: required_set(m.ex_point_required, everyone(f), templates),
            ..m
        },
        gone: a.gone + uids_of(members(a.fight.defender)),
    }
}

/// The way to a wave: so many steps, with the waves that come.
pub open spec fn advanced_by(
    a: Advance,
    waves: Seq<Seq<EntityView>>,
    n: nat,
    templates: Seq<MonsterSkillTemplateRow>,
) -> Advance
    decreases n,
{
    if n == 0 {
        a
    } else {
        advanced(
            advanced_by(a, waves, (n - 1) as nat, templates),
            waves[n - 1],
            templates,
        )
    }
}

/// How many waves are still to come until a wave.
pub open spec fn waves_until(f: FightView, target_wave: i32) -> nat {
    if wave_of(f) >= target_wave {
        0
    } else {
        (target_wave - wave_of(f)) as nat
    }
}

/// Each step on the way is one wave further, and keeps the defenders' side.
pub proof fn advanced_by_wave(
    a: Advance,
    waves: Seq<Seq<EntityView>>,
    n: nat,
    templates: Seq<MonsterSkillTemplateRow>,
)
    requires
        a.fight.defender is Some,
        wave_of(a.fight) + n <= i32::MAX,
    ensures
        wave_of(advanced_by(a, waves, n, templates).fight) == wave_of(a.fight) + n,
        advanced_by(a, waves, n, templates).fight.defender is Some,
        advanced_by(a, waves, n, templates).fight.attacker == a.fight.attacker,
    decreases n,
{
    if n > 0 {
        advanced_by_wave(a, waves, (n - 1) as nat, templates);
    }
}

/// The step that shows the start of a wave.
pub open spec fn wave_shown(f: FightView) -> StepView {
    StepView::container(
        0,
        0,
        0,
        seq![
            EffectView {
                effect_num: Some(0),
                fight: Some(f),
                ..EffectView::kind_only(EffectType::NewChangeWave)
            },
        ],
    )
}

/// The start of a wave: the step that shows it, who enters, and what the circle on
/// the field puts on them.
#[derive(Debug)]
pub struct WaveStart {
    pub step: FightStep,
    pub entered: Vec<i64>,
    pub circle: Option<CircleBuff>,
}

impl WaveMgr {
    /// A manager of waves.
    pub fn new() -> (r: WaveMgr)
        ensures
            r == (WaveMgr {}),
    {
        WaveMgr {  }
    }

    /// The number of waves of a battle.
    pub fn max_wave_for_fight(
        fight: &Fight,
        episodes: &Vec<EpisodeRow>,
        battles: &Vec<BattleRow>,
    ) -> (r: i32)
        requires
            max_wave(fight@, episodes@, battles@) <= i32::MAX,
        ensures
            r == max_wave(fight@, episodes@, battles@),
    {
        let battle_id: i32 = match find_row(episodes, value(fight.episode_id)) {
            Some(e) => e.battle_id,
            None => 0,
        };
        match find_row(battles, battle_id) {
            Some(b) => if b.monster_group_ids.as_str().is_empty() {
                1
            } else {
                let groups = split_text(b.monster_group_ids.as_str(), '#');
                assert(texts_view(groups@).len() == groups@.len());
                groups.len() as i32
            },
            None => 1,
        }
    }

    /// The wave that an enemy belongs to, by its id. Each wave has two places, and
    /// ids count down from minus one. Attackers belong to no wave.
    pub fn expected_wave_for_uid(uid: i64) -> (r: Option<i32>)
        requires
            uid < 0 ==> uid_size(uid) < i32::MAX,
        ensures
            r == (if uid >= 0 {
                None
            } else {
                Some(div_toward_zero(uid_size(uid) + 1, 2) as i32)
            }),
    {
        if uid >= 0 {
            return None;
        }
        let size: u64 = if uid == i64::MIN {
            0x8000_0000_0000_0000
        } else {
            (-uid) as u64
        };
        let low: i32 = #[verifier::truncate] (size as i32);
        Some((low + 1) / 2)
    }

    /// Brings the next wave onto the field.
    pub fn advance_wave_state(fight: &mut Fight, wave: Vec<FightEntityInfo>) -> (r: Result<
        (),
        WaveError,
    >)
        requires
            wave_of(old(fight)@) < i32::MAX,
        ensures
            match old(fight)@.defender {
                Some(_) => r == Ok::<(), WaveError>(()) && final(fight)@ == next_wave(
                    old(fight)@,
                    entities_view(wave@),
                ),
                None => r == Err::<(), WaveError>(WaveError::NoDefenders) && final(fight)@ == old(
                    fight,
                )@,
            },
    {
        let new_wave: i32 = current_wave(fight) + 1;
        match &mut fight.defender {
            Some(t) => {
                t.entitys = wave;
                t.sub_entitys = Vec::new();
                assert(entities_view(t.sub_entitys@) =~= Seq::<EntityView>::empty());
            },
            None => {
                return Err(WaveError::NoDefenders);
            },
        }
        fight.cur_wave = Some(new_wave);
        fight.is_finish = Some(false);
        Ok(())
    }

    /// The step that shows the start of a wave.
    pub fn wave_step(fight: &Fight) -> (r: FightStep)
        ensures
            r@ == wave_shown(fight@),
    {
        let shown = ActEffectBuilder::new_change_wave(fight.clone());
        let r = FightStepBuilder::effect().with(shown).build();
        assert(r@.act_effect =~= seq![shown@]);
        r
    }

    /// Brings the next wave onto the field and shows it: the step of the wave, who
    /// enters, and what the circle on the field puts on them.
    pub fn advance_wave(
        fight: &mut Fight,
        wave: Vec<FightEntityInfo>,
        circles: &Vec<MagicCircleRow>,
    ) -> (r: Result<WaveStart, WaveError>)
        requires
            wave_of(old(fight)@) < i32::MAX,
        ensures
            match old(fight)@.defender {
                Some(_) => {
                    &&& r is Ok
                    &&& final(fight)@ == next_wave(old(fight)@, entities_view(wave@))
                    &&& r->Ok_0.step@ == wave_shown(final(fight)@)
                    &&& r->Ok_0.entered@ == uids_of(entities_view(wave@))
                    &&& is_circle_buff(final(fight)@, circles@, r->Ok_0.circle)
                },
                None => {
                    &&& r is Err
                    &&& r->Err_0 == WaveError::NoDefenders
                    &&& final(fight)@ == old(fight)@
                },
            },
    {
        match WaveMgr::advance_wave_state(fight, wave) {
            Ok(()) => {},
            Err(e) => {
                return Err(e);
            },
        }
        let step = WaveMgr::wave_step(fight);
        let entered = field_defender_uids(fight);
        let circle = build_active_circle_enemy_buff(fight, circles);
        Ok(WaveStart { step, entered, circle })
    }

    /// Brings waves onto the field until a wave is reached. `waves` are the waves
    /// that come, in their order. Returns whose buffs are to be removed.
    pub fn fast_forward_state_to_wave(
        fight: &mut Fight,
        trackers: &mut EntityMgr,
        target_wave: i32,
        waves: Vec<Vec<FightEntityInfo>>,
        templates: &Vec<MonsterSkillTemplateRow>,
    ) -> (r: Result<Vec<i64>, WaveError>)
        requires
            waves@.len() >= waves_until(old(fight)@, target_wave),
        ensures
            ({
                let n = waves_until(old(fight)@, target_wave);
                let a = advanced_by(
                    Advance {
                        fight: old(fight)@,
                        trackers: old(trackers)@,
                        gone: Seq::empty(),
                    },
                    waves_view(waves@),
                    n,
                    templates@,
                );
                if n > 0 && old(fight)@.defender is None {
                    &&& r is Err && r->Err_0 == WaveError::NoDefenders
                    &&& final(fight)@ == old(fight)@
                    &&& final(trackers)@ == old(trackers)@
                } else {
                    &&& r is Ok && r->Ok_0@ == a.gone
                    &&& final(fight)@ == a.fight
                    &&& final(trackers)@ == a.trackers
                }
            }),
    {
        let ghost start = Advance {
            fight: fight@,
            trackers: trackers@,
            gone: Seq::<i64>::empty(),
        };
        let ghost all = waves_view(waves@);
        let ghost n = waves_until(fight@, target_wave);
        let mut gone: Vec<i64> = Vec::new();
        if current_wave(fight) < target_wave && fight.defender.is_none() {
            return Err(WaveError::NoDefenders);
        }
        let mut waves = waves;
        let mut done: usize = 0;
        waves = reversed(waves);
        while current_wave(fight) < target_wave
            invariant
                done <= n,
                n <= all.len(),
                n == waves_until(start.fight, target_wave),
                n > 0 ==> start.fight.defender is Some,
                wave_of(start.fight) + n <= i32::MAX,
                waves@.len() == all.len() - done,
                forall|k: int|
                    0 <= k < waves@.len() ==> entities_view((#[trigger] waves@[k])@) == all[all.len()
                        - 1 - k],
                ({
                    let a = advanced_by(start, all, done as nat, templates@);
                    &&& fight@ == a.fight
                    &&& trackers@ == a.trackers
                    &&& gone@ == a.gone
                }),
            decreases n - done,
        {
            proof {
                if n > 0 {
                    advanced_by_wave(start, all, done as nat, templates@);
                }
            }
            let ghost before = advanced_by(start, all, done as nat, templates@);
            let mut old_uids = defender_uids(fight);
            match waves.pop() {
                Some(wave) => {
                    let _ = WaveMgr::advance_wave_state(fight, wave);
                },
                None => {},
            }
            sync_from_fight(fight, trackers);
            seed_ex_point_required_from_fight(fight, trackers, templates);
            gone.append(&mut old_uids);
            done = done + 1;
            assert(advanced_by(start, all, done as nat, templates@) == advanced(
                before,
                all[done - 1],
                templates@,
            ));
        }
        proof {
            if n > 0 {
                advanced_by_wave(start, all, done as nat, templates@);
            }
        }
        Ok(gone)
    }
}

fn reversed(v: Vec<Vec<FightEntityInfo>>) -> (r: Vec<Vec<FightEntityInfo>>)
    ensures
        r@.len() == v@.len(),
        forall|k: int| 0 <= k < v@.len() ==> #[trigger] r@[k] == v@[v@.len() - 1 - k],
{
    let ghost all = v@;
    let mut v = v;
    let mut r: Vec<Vec<FightEntityInfo>> = Vec::new();
    while v.len() > 0
        invariant
            v@.len() + r@.len() == all.len(),
            v@ == all.take(v@.len() as int),
            forall|k: int| 0 <= k < r@.len() ==> #[trigger] r@[k] == all[all.len() - 1 - k],
        decreases v@.len(),
    {
        let ghost before = v@;
        if let Some(x) = v.pop() {
            r.push(x);
        }
        assert(v@ =~= all.take(v@.len() as int));
    }
    r
}

/// Decides whether another wave has to come before a wave is reached, and whose
/// buffs end when it comes.
pub fn next_wave_due(fight: &Fight, target_wave: i32) -> (r: Option<Vec<i64>>)
    ensures
        r is Some <==> wave_of(fight@) < target_wave,
        r is Some ==> r->0@ == uids_of(members(fight@.defender)),
{
    if current_wave(fight) < target_wave {
        Some(defender_uids(fight))
    } else {
        None
    }
}

/// What the coming of one wave came to: the step that shows it, and the effects of
/// what the circle on the field put on the enemies.
#[derive(Debug)]
pub struct WaveArrival {
    pub step: FightStep,
    pub circle_effects: Vec<ActEffect>,
}

/// The steps of one wave: its start, and what the circle did to it, if anything.
pub open spec fn arrival_steps(a: WaveArrival) -> Seq<StepView> {
    if a.circle_effects@.len() == 0 {
        seq![a.step@]
    } else {
        seq![a.step@, StepView::container(0, 0, 0, effects_view(a.circle_effects@))]
    }
}

/// The steps of some waves, one wave after the other.
pub open spec fn arrivals_joined(s: Seq<WaveArrival>) -> Seq<StepView>
    decreases s.len(),
{
    if s.len() == 0 {
        Seq::empty()
    } else {
        arrival_steps(s[0]) + arrivals_joined(s.skip(1))
    }
}

/// Joins the steps of the waves that came, in the order of the waves.
pub fn join_wave_steps(arrivals: Vec<WaveArrival>) -> (r: Vec<FightStep>)
    ensures
        steps_view(r@) == arrivals_joined(arrivals@),
{
    let ghost all = arrivals@;
    let mut arrivals = arrivals;
    let mut out: Vec<FightStep> = Vec::new();
    assert(steps_view(out@) + arrivals_joined(all) =~= arrivals_joined(all));
    while arrivals.len() > 0
        invariant
            steps_view(out@) + arrivals_joined(arrivals@) == arrivals_joined(all),
        decreases arrivals@.len(),
    {
        let ghost before = steps_view(out@);
        let ghost rest = arrivals@;
        let a = arrivals.remove(0);
        assert(arrivals@ =~= rest.skip(1));
        out.push(a.step);
        if let Some(step) = build_active_circle_enemy_buff_step(a.circle_effects) {
            out.push(step);
        }
        assert(steps_view(out@) =~= before + arrival_steps(rest[0]));
        assert(steps_view(out@) + arrivals_joined(arrivals@) =~= before + arrivals_joined(rest));
    }
    assert(steps_view(out@) + arrivals_joined(arrivals@) =~= steps_view(out@));
    out
}

/// Bringing wave after wave for as long as one is due ends at the wave that was to
/// be reached, after exactly as many waves as it is ahead.
pub proof fn waves_come_until_the_target(
    a: Advance,
    waves: Seq<Seq<EntityView>>,
    n: nat,
    templates: Seq<MonsterSkillTemplateRow>,
    target_wave: i32,
)
    requires
        a.fight.defender is Some,
        n <= waves_until(a.fight, target_wave),
    ensures
        wave_of(advanced_by(a, waves, n, templates).fight) < target_wave <==> n < waves_until(
            a.fight,
            target_wave,
        ),
{
    advanced_by_wave(a, waves, n, templates);
}

/// The ids of the first waves: minus one and minus two belong to the first wave,
/// the next two to the second, and so on.
pub proof fn wave_of_uid(wave: int, place: int)
    requires
        1 <= wave,
        1 <= place <= 2,
        2 * (wave - 1) + place < i32::MAX,
    ensures
        ({
            let uid = -(2 * (wave - 1) + place);
            div_toward_zero(uid_size(uid as i64) + 1, 2) == wave
        }),
{
}

/// What the circle on the field puts on the enemies of a new wave.
#[derive(Debug)]
pub struct CircleBuff {
    pub caster_uid: i64,
    pub buff_id: i32,
    pub targets: Vec<i64>,
}

/// The ids of the living fighters of a list; an id of zero does not count.
pub open spec fn living_uids(s: Seq<EntityView>) -> Seq<i64>
    decreases s.len(),
{
    if s.len() == 0 {
        Seq::empty()
    } else {
        let before = living_uids(s.drop_last());
        let e = s.last();
        if is_alive(e) && e.uid is Some && e.uid->0 != 0 {
            before.push(e.uid->0)
        } else {
            before
        }
    }
}

/// The buff that the circle on the field puts on enemies, and its caster; none
/// without a circle, rounds, a buff or a caster.
pub open spec fn circle_buff(f: FightView, rows: Seq<MagicCircleRow>) -> Option<(i64, i32)> {
    match f.magic_circle {
        Some(c) => {
            let row = row_at(rows, or_zero(c.magic_circle_id));
            if or_zero(c.magic_circle_id) == 0 || or_zero(c.round) <= 0 || row is None || or_zero64(
                c.create_uid,
            ) == 0 {
                None
            } else {
                match number(trimmed(row->0.enemy_buff@)) {
                    Some(id) => if id > 0 {
                        Some((or_zero64(c.create_uid), id))
                    } else {
                        None
                    },
                    None => None,
                }
            }
        },
        None => None,
    }
}

/// Whether something is what the circle on the field puts on the living enemies:
/// nothing where none is left.
pub open spec fn is_circle_buff(
    f: FightView,
    rows: Seq<MagicCircleRow>,
    r: Option<CircleBuff>,
) -> bool {
    let targets = living_uids(on_field(f.defender));
    match circle_buff(f, rows) {
        Some((caster_uid, buff_id)) => if targets.len() > 0 {
            r is Some && r->0.caster_uid == caster_uid && r->0.buff_id == buff_id && r->0.targets@
                == targets
        } else {
            r is None
        },
        None => r is None,
    }
}

/// Decides what the circle on the field puts on the living enemies of a new wave;
/// nothing where none is left.
pub fn build_active_circle_enemy_buff(fight: &Fight, rows: &Vec<MagicCircleRow>) -> (r: Option<
    CircleBuff,
>)
    ensures
        is_circle_buff(fight@, rows@, r),
{
    let circle = match fight.magic_circle {
        Some(c) => c,
        None => {
            return None;
        },
    };
    let circle_id = value(circle.magic_circle_id);
    if circle_id == 0 || value(circle.round) <= 0 {
        return None;
    }
    let row = match find_row(rows, circle_id) {
        Some(x) => x,
        None => {
            return None;
        },
    };
    let text = trim_text(row.enemy_buff.as_str());
    let buff_id: i32 = match parse_number(text.as_str()) {
        Some(id) => id,
        None => 0,
    };
    let caster_uid = value64(circle.create_uid);
    if buff_id <= 0 || caster_uid == 0 {
        return None;
    }
    let mut targets: Vec<i64> = Vec::new();
    if let Some(t) = &fight.defender {
        let ghost s = entities_view(t.entitys@);
        assert(s.take(0).len() == 0);
        for i in 0..t.entitys.len()
            invariant
                s == entities_view(t.entitys@),
                targets@ == living_uids(s.take(i as int)),
        {
            assert(s.take(i + 1).drop_last() =~= s.take(i as int));
            assert(s.take(i + 1).last() == t.entitys@[i as int]@);
            if alive(&t.entitys[i]) {
                if let Some(uid) = t.entitys[i].uid {
                    if uid != 0 {
                        targets.push(uid);
                    }
                }
            }
        }
        assert(s.take(s.len() as int) =~= s);
    }
    assert(targets@ =~= living_uids(on_field(fight@.defender)));
    if targets.len() == 0 {
        return None;
    }
    Some(CircleBuff { caster_uid, buff_id, targets })
}

/// The step that shows what the circle did to a new wave; none where it did
/// nothing.
pub fn build_active_circle_enemy_buff_step(effects: Vec<ActEffect>) -> (r: Option<FightStep>)
    ensures
        r is Some <==> effects@.len() > 0,
        r is Some ==> r->0@ == StepView::container(0, 0, 0, effects_view(effects@)),
{
    if effects.len() == 0 {
        return None;
    }
    let r = FightStepBuilder::effect().with_many(effects).build();
    assert(r@.act_effect =~= effects_view(effects@));
    Some(r)
}

} // verus!
