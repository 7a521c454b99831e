//! What is read of fighters, slots and plans, and what is shown of special attributes.

use crate::arith::{fits, or_zero};
use crate::buffs::{BuffInstance, BuffMgr};
use crate::chance::{after_shuffle, reordered, shuffle_of, shuffled};
use crate::config::{effect_of_skill, row_at, MonsterSkillTemplateRow, ResistanceRow};
use crate::effect::behavior::attr_modify::target_bonuses;
use crate::effect::behavior::damage::{
    attack_of, damage_to, is_emitted_damage, would_die, Detonation, DotRow,
};
use crate::effect::behavior::direct_skill::BigSkillCast;
use crate::effect::behavior::disperse::{is_disperse_family, numbers_in};
use crate::effect::behavior::dot_settle::{kills, settle_view, settled_all};
use crate::effect::behavior::empathy::release_hit;
use crate::effect::behavior::lost_life::routed_view;
use crate::effect::behavior::random::{after_draw, chosen, drawn, part_of};
use crate::effect::behavior::skill_rate::{is_rate_plan, named_types, RatePlan};
use crate::effect::behavior::stats::power_changed;
use crate::effect::behavior::{behaviours_view, Behaviour};
use crate::effect::condition::{conditions_view, opt_int, Condition, Hook};
use crate::effect::slot::{
    fired_view, gathered, slots_view, AimedBehaviour, EffectSlot, FiredBehaviour, SkillEffect,
    SlotView,
};
use crate::laws::events::{carries, nothing_set, step_of};
use crate::lookup::{entity_of, list_at, with_list};
use crate::manager::active_effect_mgr::ActiveEffectMgr;
use crate::manager::attr_bonus::merged;
use crate::manager::calculate_mgr::{
    agrees, before_play, commands_view, play_fits, sp_info, sp_infos, HeroSpAttribute, PlayCommand,
    PlayError, PlayReadings, PlayResult, PlayState,
};
use crate::manager::entity_mgr::{
    at_location, entry, infos_view, refs_view, side_team, EntityLocation, EntityMgr,
    EntityMgrView, FightExPointInfo,
};
use crate::manager::fight_data_mgr::{first_trackers, Managers};
use crate::manager::passive_mgr::{all_loaded, skill_effects_view, EffectTables, PassiveMgr};
use crate::manager::rule_mgr::team_rule_effects;
use crate::mechanics::dot_settle_round_start::{
    settle_steps, settled_by, settled_on, totals_of, SettleTables,
};
use crate::model::{
    effects_view, ActEffect, ActType, BuffInfoView, BuffLayerType, EffectType, EffectView,
    EntityView, FightEntityInfo, FightView, TeamView,
};
use crate::text::{number, param, pieces, pieces_nonempty, texts_view, trimmed};
use rand::rngs::StdRng;
use vstd::prelude::*;

verus! {

/// Lists are seen one by one.
pub proof fn how_lists_are_seen(
    behaviours: Seq<Behaviour>,
    conditions: Seq<Condition>,
    slots: Seq<EffectSlot>,
    effects: Seq<SkillEffect>,
    fired: Seq<FiredBehaviour>,
    commands: Seq<PlayCommand>,
    infos: Seq<FightExPointInfo>,
    texts: Seq<String>,
    i: int,
)
    ensures
        behaviours_view(behaviours).len() == behaviours.len(),
        0 <= i < behaviours.len() ==> behaviours_view(behaviours)[i] == behaviours[i]@,
        conditions_view(conditions).len() == conditions.len(),
        0 <= i < conditions.len() ==> conditions_view(conditions)[i] == conditions[i]@,
        slots_view(slots).len() == slots.len(),
        0 <= i < slots.len() ==> slots_view(slots)[i] == slots[i]@,
        skill_effects_view(effects).len() == effects.len(),
        0 <= i < effects.len() ==> skill_effects_view(effects)[i] == effects[i]@,
        fired_view(fired).len() == fired.len(),
        0 <= i < fired.len() ==> fired_view(fired)[i] == fired[i]@,
        commands_view(commands).len() == commands.len(),
        0 <= i < commands.len() ==> commands_view(commands)[i] == commands[i]@,
        infos_view(infos).len() == infos.len(),
        0 <= i < infos.len() ==> infos_view(infos)[i] == infos[i]@,
        texts_view(texts).len() == texts.len(),
        0 <= i < texts.len() ==> texts_view(texts)[i] == texts[i]@,
{
}

/// Conditions, behaviours and slots are seen by all that they say.
pub proof fn how_slots_are_seen(
    c: Condition,
    b: Behaviour,
    s: EffectSlot,
    e: SkillEffect,
    f: FiredBehaviour,
)
    ensures
        c@.hooks == c.hooks@,
        c@.cond_id == c.cond_id,
        c@.target == c.target,
        c@.params == c.params@,
        b@.raw == b.raw@,
        b@.target == b.target,
        s@.op == s.op,
        s@.conditions == conditions_view(s.conditions@),
        s@.behaviours == behaviours_view(s.behaviours@),
        s@.limit == s.limit,
        s@.round_limit == s.round_limit,
        s@.use_count == s.use_count,
        s@.round_use_count == s.round_use_count,
        e@.owner_uid == e.owner_uid,
        e@.slots == slots_view(e.slots@),
        f@.raw == f.raw@,
        f@.target == f.target,
        f@.count == f.count,
{
}

/// What is kept of fighters is seen by all its ledgers.
pub proof fn how_ledgers_are_seen(
    m: EntityMgr,
    p: PassiveMgr,
    info: FightExPointInfo,
    refs: Seq<&FightEntityInfo>,
    uid: i64,
    i: int,
)
    ensures
        m@.entity_cache == m.entity_cache@,
        m@.ex_points == m.ex_points@,
        m@.ex_max == m.ex_max@,
        m@.ex_point_required == m.ex_point_required@,
        m@.current_hp == m.current_hp@,
        m@.max_hp == m.max_hp@,
        m@.recent_decr_ex_point == m.recent_decr_ex_point@,
        m@.action_points == m.action_points@,
        m@.attr_bonus == m.attr_bonus@,
        p@.contains_key(uid) <==> p.map@.contains_key(uid),
        p.map@.contains_key(uid) ==> p@[uid] == skill_effects_view(p.map@[uid]@),
        info@.uid == info.uid,
        info@.ex_point == info.ex_point,
        info@.power_infos == info.power_infos@,
        info@.current_hp == info.current_hp,
        info@.ex_point_type == info.ex_point_type,
        refs_view(refs).len() == refs.len(),
        0 <= i < refs.len() ==> refs_view(refs)[i] == refs[i]@,
        EntityMgrView::nobody().entity_cache == Map::<i64, EntityLocation>::empty(),
        EntityMgrView::nobody().current_hp == Map::<i64, i32>::empty(),
        EntityMgrView::nobody().max_hp == Map::<i64, i32>::empty(),
        EntityMgrView::nobody().ex_points == Map::<i64, i32>::empty(),
{
}

/// A count that is given is the number itself.
pub proof fn counts_that_are_given(x: i32, e: ActEffect)
    ensures
        opt_int(Some(x)) == Some(x as int),
        opt_int(None) is None,
        routed_view(Some(e)) == Some(e@),
        routed_view(None) is None,
{
}

/// Six kinds of effects are emitted damage, and the damage to a target is what they say,
/// never below zero.
pub proof fn what_emitted_damage_is(e: EffectView, target: i64)
    ensures
        ({
            let emitted = e.effect_type == Some(EffectType::Damage) || e.effect_type == Some(
                EffectType::Crit,
            ) || e.effect_type == Some(EffectType::OriginDamage) || e.effect_type == Some(
                EffectType::OriginCrit,
            ) || e.effect_type == Some(EffectType::AdditionalDamage) || e.effect_type == Some(
                EffectType::AdditionalDamageCrit,
            );
            &&& is_emitted_damage(e.effect_type) <==> emitted
            &&& damage_to(e, target) is Some <==> emitted && e.target_id == Some(target)
            &&& damage_to(e, target) is Some && e.effect_num is Some && e.effect_num->0 >= 0
                ==> damage_to(e, target) == e.effect_num
            &&& damage_to(e, target) is Some && (e.effect_num is None || e.effect_num->0 < 0)
                ==> damage_to(e, target) == Some(0i32)
        }),
{
}

/// The attack of a fighter is what its attributes say, and zero if they do not.
pub proof fn the_attack_of_a_fighter(e: EntityView)
    ensures
        e.attr is Some && e.attr->0.attack is Some ==> attack_of(e) == e.attr->0.attack->0,
        e.attr is None || e.attr->0.attack is None ==> attack_of(e) == 0,
{
}

/// A hit of settled damage kills if it gets through the shield and takes all the life that
/// is left.
pub proof fn whom_settled_damage_kills(f: FightView, uid: i64, damage: i32)
    ensures
        entity_of(f, uid) is None ==> !kills(f, uid, damage),
        entity_of(f, uid) matches Some(e) ==> (fits(damage - or_zero(e.shield_value)) ==> (kills(
            f,
            uid,
            damage,
        ) <==> damage > or_zero(e.shield_value) && damage >= or_zero(e.shield_value) + or_zero(
            e.current_hp,
        ))),
{
}

/// A detonation kills if its own effects do.
pub proof fn whom_a_detonation_kills(d: Detonation, f: FightView, target: i64)
    ensures
        d.kills(f, target) <==> would_die(f, target, effects_view(d.damage_effects@)),
{
}

/// The release of empathy hits with damage of its own, under one code if it clears what was
/// gathered and under another if not.
pub proof fn how_empathy_hits(target: i64, damage: i32, clears: bool)
    ensures
        release_hit(target, damage, clears) == (EffectView {
            effect_type: Some(EffectType::OriginDamage),
            target_id: Some(target),
            effect_num: Some(damage),
            config_effect: Some(
                if clears {
                    60040i32
                } else {
                    60038i32
                },
            ),
            ..nothing_set()
        }),
{
}

/// A change of power is told under its own code.
pub proof fn how_a_change_of_power_is_told(target: i64, amount: i32)
    ensures
        power_changed(target, amount) == (EffectView {
            effect_type: Some(EffectType::PowerChange),
            target_id: Some(target),
            effect_num: Some(amount),
            config_effect: Some(1),
            ..nothing_set()
        }),
{
}

/// Which behaviours disperse.
pub proof fn which_behaviours_disperse(id: i32)
    ensures
        is_disperse_family(id) <==> set![
            20003i32,
            20004,
            20020,
            30003,
            30004,
            30008,
            30009,
            30016,
            30017,
            50014,
            50016,
            60010,
            60011,
            60176,
            90002,
        ].contains(id),
{
}

/// A draw takes from the shuffled buffs that are missing, then from the shuffled ones that
/// are borne; a shuffle keeps every one of what it is given.
pub proof fn how_buffs_are_drawn(
    pool: Seq<i32>,
    held: Seq<BuffInstance>,
    count: i32,
    rng: StdRng,
)
    ensures
        ({
            let missing = part_of(pool, held, false);
            let borne = part_of(pool, held, true);
            let first = shuffle_of(rng, missing.len());
            let second = shuffle_of(first.1, borne.len());
            &&& drawn(pool, held, count, rng) == chosen(
                reordered(missing, first.0),
                reordered(borne, second.0),
                count,
            )
            &&& pool.len() == 0 ==> after_draw(pool, held, rng) == rng
            &&& pool.len() > 0 ==> after_draw(pool, held, rng) == second.1
            &&& shuffled(missing, rng) == reordered(missing, first.0)
            &&& after_shuffle(rng, missing.len()) == first.1
        }),
{
}

/// The types that a rate is against are the numbers from the fourth piece on.
pub proof fn which_types_a_rate_is_against(raw: Seq<char>)
    ensures
        pieces(raw, '#').len() <= 3 ==> named_types(raw).len() == 0,
        pieces(raw, '#').len() > 3 ==> named_types(raw) == numbers_in(pieces(raw, '#').skip(3)),
{
}

/// What a behaviour does to the rate, by its id.
pub proof fn what_a_rate_plan_is(id: i32, raw: Seq<char>, plan: RatePlan)
    requires
        is_rate_plan(id, raw, plan),
    ensures
        id == 10001 || id == 10002 || id == 10003 || id == 40015 || id == 60028 ==> plan == (
        RatePlan::Flat { rate: param(raw, 1) }),
        id == 10009 && param(raw, 2) != 0 ==> plan == (RatePlan::PerStack {
            buff_type_id: param(raw, 1),
            rate: param(raw, 2),
        }),
        id == 10009 && param(raw, 2) == 0 ==> plan == RatePlan::Nothing,
        id == 10012 && param(raw, 1) != 0 && named_types(raw).len() > 0 ==> (
        plan matches RatePlan::AgainstTypes { rate, buff_types } && rate == param(raw, 1)
            && buff_types@ == named_types(raw)),
        id == 10012 && (param(raw, 1) == 0 || named_types(raw).len() == 0) ==> plan
            == RatePlan::Nothing,
        id != 10001 && id != 10002 && id != 10003 && id != 40015 && id != 60028 && id != 10009 && id
            != 10012 ==> plan == RatePlan::Nothing,
{
}

/// While an ex skill is played, what it gives back is what it took, up to what it needs if
/// it needs anything.
pub proof fn what_an_ex_skill_gives_back(c: BigSkillCast, d: BigSkillCast)
    ensures
        c.wf() ==> 0 <= c.refund <= c.consume <= c.initial_consume,
        c.wf() && c.need_ex > 0 ==> c.refund <= c.need_ex && (c.refund == c.consume || c.refund
            == c.need_ex),
        c.wf() && c.need_ex == 0 ==> c.refund == c.consume,
        c.need_ex >= 0 && c.consume >= 0 && c.initial_consume >= c.consume && c.refund == (
        if c.need_ex > 0 && c.need_ex < c.consume {
            c.need_ex
        } else {
            c.consume
        }) ==> c.wf(),
        c.same_numbers(d) <==> c.caster_uid == d.caster_uid && c.skill_id == d.skill_id
            && c.ex_skill_id == d.ex_skill_id && c.need_ex == d.need_ex && c.initial_consume
            == d.initial_consume && c.consume == d.consume && c.refund == d.refund,
{
}

/// The groups of effects are in order while each has an index below the next one.
pub proof fn when_groups_are_in_order(m: ActiveEffectMgr)
    ensures
        m.wf() <==> forall|i: usize| #[trigger] m.map@.contains_key(i) ==> i < m.next_idx,
{
}

/// A slot belongs to a moment if its first condition does. It may be used while it is below
/// both its limits, where zero is no limit, and each use counts for both.
pub proof fn when_a_slot_may_be_used(s: SlotView, hook: Hook)
    ensures
        s.hooked(hook) <==> s.conditions.len() > 0 && s.conditions[0].hooks.contains(hook),
        s.allowed() <==> (s.limit != 0 ==> s.use_count < s.limit) && (s.round_limit != 0
            ==> s.round_use_count < s.round_limit),
        s.use_count < i32::MAX && s.round_use_count < i32::MAX ==> s.fired() == (SlotView {
            use_count: (s.use_count + 1) as i32,
            round_use_count: (s.round_use_count + 1) as i32,
            ..s
        }),
{
}

/// Bonuses are gathered behaviour by behaviour.
pub proof fn how_bonuses_are_gathered(f: FightView, s: Seq<AimedBehaviour>, b: AimedBehaviour)
    ensures
        gathered(f, Seq::empty()) == Map::<(i64, i32), Seq<i32>>::empty(),
        gathered(f, s.push(b)) == merged(
            gathered(f, s),
            target_bonuses(f, b.targets@, b.fired.raw@, b.fired.count),
        ),
{
    assert(s.push(b).drop_last() =~= s);
}

/// What playing gave agrees with what it should give: the new state and its commands, or an
/// error and nothing changed.
pub proof fn what_playing_gives(
    want: PlayResult,
    start: PlayState,
    fight: FightView,
    trackers: EntityMgrView,
    pending: Seq<EffectView>,
    got: Result<Vec<PlayCommand>, PlayError>,
)
    requires
        agrees(want, start, fight, trackers, pending, got),
    ensures
        want is Ok <==> got is Ok,
        want is Err ==> got->Err_0 == want->Err_0 && fight == start.fight && trackers
            == start.trackers && pending == start.pending,
        want is Ok ==> fight == want->Ok_0.fight && trackers == want->Ok_0.trackers && pending
            == want->Ok_0.pending && commands_view(got->Ok_0@) == want->Ok_0.commands,
        before_play(fight, trackers, pending).fight == fight,
        before_play(fight, trackers, pending).trackers == trackers,
        before_play(fight, trackers, pending).pending == pending,
        before_play(fight, trackers, pending).commands.len() == 0,
{
}

/// A number is far from the ends of the range.
pub open spec fn moderate(x: i32) -> bool {
    -0x1000_0000 <= x <= 0x1000_0000
}

/// Effects with moderate numbers on fighters with moderate numbers can always be played.
pub proof fn moderate_numbers_can_be_played(
    cache: Map<i64, EntityLocation>,
    st: PlayState,
    e: EffectView,
    r: PlayReadings,
)
    requires
        moderate(or_zero(e.effect_num)),
        moderate(r.overflow_bonus),
        moderate(r.power_amount),
        st.fight.attacker is Some ==> moderate(or_zero(st.fight.attacker->0.power)),
        e.target_id matches Some(uid) ==> moderate(entry(st.trackers.current_hp, uid)) && moderate(
            entry(st.trackers.ex_points, uid),
        ) && (cache.contains_key(uid) ==> (at_location(st.fight, cache[uid]) matches Some(x)
            ==> moderate(or_zero(x.shield_value)) && moderate(or_zero(x.current_hp)) && moderate(
            or_zero(x.ex_point),
        ))),
    ensures
        play_fits(cache, st, e, r),
{
}

/// A heal or a shield that would leave the range of numbers cannot be played, nor can a
/// change of power that would.
pub proof fn what_cannot_be_played(
    cache: Map<i64, EntityLocation>,
    st: PlayState,
    e: EffectView,
    r: PlayReadings,
    uid: i64,
    x: EntityView,
)
    requires
        e.effect_num is Some,
    ensures
        ({
            let stands = e.target_id == Some(uid) && cache.contains_key(uid) && at_location(
                st.fight,
                cache[uid],
            ) == Some(x);
            &&& e.effect_type == Some(EffectType::Heal) && stands && !fits(
                or_zero(x.current_hp) + e.effect_num->0,
            ) ==> !play_fits(cache, st, e, r)
            &&& e.effect_type == Some(EffectType::Shield) && stands && !fits(
                or_zero(x.shield_value) + e.effect_num->0,
            ) ==> !play_fits(cache, st, e, r)
            &&& e.effect_type == Some(EffectType::PowerChange) && st.fight.attacker is Some && !fits(
                or_zero(st.fight.attacker->0.power) + r.power_amount,
            ) ==> !play_fits(cache, st, e, r)
        }),
{
}

/// The special attributes of a fighter are the resistances of its model, as the row of its
/// template names them, and all else is zero.
pub proof fn what_special_attributes_are(
    e: EntityView,
    templates: Seq<MonsterSkillTemplateRow>,
    resistances: Seq<ResistanceRow>,
)
    ensures
        ({
            let template = row_at(templates, e.model_id->0);
            let row = row_at(resistances, template->0.resistance);
            let known = e.model_id is Some && template is Some && row is Some;
            let of = |x: i32|
                Some(
                    if known {
                        x
                    } else {
                        0i32
                    },
                );
            let info = sp_info(e, templates, resistances);
            &&& info.uid == e.uid
            &&& info.attribute == Some(
                HeroSpAttribute {
                    revive: Some(0),
                    heal: Some(0),
                    absorb: Some(0),
                    defense_ignore: Some(0),
                    clutch: Some(0),
                    final_add_dmg: Some(0),
                    final_drop_dmg: Some(0),
                    normal_skill_rate: Some(0),
                    play_add_rate: Some(0),
                    play_drop_rate: Some(0),
                    dizzy_resistances: of(row->0.dizzy),
                    sleep_resistances: of(row->0.sleep),
                    petrified_resistances: of(row->0.petrified),
                    frozen_resistances: of(row->0.frozen),
                    disarm_resistances: of(row->0.disarm),
                    forbid_resistances: of(row->0.forbid),
                    seal_resistances: of(row->0.seal),
                    cant_get_exskill_resistances: of(row->0.cant_get_exskill),
                    del_ex_point_resistances: of(row->0.del_ex_point),
                    stress_up_resistances: of(row->0.stress_up),
                    control_resilience: of(row->0.control_resilience),
                    del_ex_point_resilience: of(row->0.del_ex_point_resilience),
                    stress_up_resilience: of(row->0.stress_up_resilience),
                    charm_resistances: of(row->0.charm),
                    rebound_dmg: Some(0),
                    extra_dmg: Some(0),
                    reuse_dmg: Some(0),
                    big_skill_rate: Some(0),
                    clutch_dmg: Some(0),
                    nowmal_dmg: Some(0),
                },
            )
        }),
{
}

/// Everyone has special attributes, in its place. A side is the attackers or the defenders.
pub proof fn everyone_has_special_attributes(
    s: Seq<EntityView>,
    templates: Seq<MonsterSkillTemplateRow>,
    resistances: Seq<ResistanceRow>,
    f: FightView,
    i: int,
)
    ensures
        sp_infos(s, templates, resistances).len() == s.len(),
        0 <= i < s.len() ==> sp_infos(s, templates, resistances)[i] == sp_info(
            s[i],
            templates,
            resistances,
        ),
        side_team(f, true) == f.attacker,
        side_team(f, false) == f.defender,
{
}

/// The lists of a battle: its attackers and defenders, on the field and in reserve. A list
/// that is put in place of one changes that one alone.
pub proof fn the_lists_of_a_battle(
    f: FightView,
    t: TeamView,
    u: TeamView,
    list: Seq<EntityView>,
)
    requires
        f.attacker == Some(t),
        f.defender == Some(u),
    ensures
        list_at(f, true, false) == t.entitys,
        list_at(f, true, true) == t.sub_entitys,
        list_at(f, false, false) == u.entitys,
        list_at(f, false, true) == u.sub_entitys,
        with_list(f, true, false, list) == (FightView {
            attacker: Some(TeamView { entitys: list, ..t }),
            ..f
        }),
        with_list(f, true, true, list) == (FightView {
            attacker: Some(TeamView { sub_entitys: list, ..t }),
            ..f
        }),
        with_list(f, false, false, list) == (FightView {
            defender: Some(TeamView { entitys: list, ..u }),
            ..f
        }),
        with_list(f, false, true, list) == (FightView {
            defender: Some(TeamView { sub_entitys: list, ..u }),
            ..f
        }),
{
}

/// A buff that is told in full says all that it is given and nothing else.
pub proof fn what_a_full_buff_says(
    buff_id: i32,
    duration: i32,
    uid: i64,
    from_uid: i64,
    count: i32,
    params: Seq<char>,
    layer: i32,
    layer_type: BuffLayerType,
)
    ensures
        BuffInfoView::full(buff_id, duration, uid, from_uid, count, params, layer, layer_type) == (
        BuffInfoView {
            buff_id: Some(buff_id),
            duration: Some(duration),
            uid: Some(uid),
            ex_info: Some(0),
            from_uid: Some(from_uid),
            count: Some(count),
            act_common_params: Some(params),
            layer: Some(layer),
            layer_type: Some(layer_type),
            act_info: Seq::empty(),
        }),
{
}

/// The managers of a battle start with everyone followed, nothing played, no buffs, no uses
/// of the cloth, the rules and the passives of both sides, and no group of effects.
pub proof fn what_managers_start_with(
    m: Managers,
    f: FightView,
    templates: Seq<MonsterSkillTemplateRow>,
    rules: Seq<(i32, i32)>,
    tables: EffectTables,
    uid: i64,
)
    requires
        m.starts(f, templates, rules, tables),
    ensures
        m.entity_mgr@ == first_trackers(f, templates),
        m.calculate_mgr.entity_mgr@ == first_trackers(f, templates),
        m.calculate_mgr.pending_effects@.len() == 0,
        m.buff_mgr.of(uid).len() == 0,
        m.cloth_mgr.use_counts@ == Map::<i32, usize>::empty(),
        m.active_effect_mgr.next_idx == 0,
        m.active_effect_mgr.active_idx is None,
        forall|idx: usize| !#[trigger] m.active_effect_mgr.map@.contains_key(idx),
        f.attacker is Some && f.defender is Some ==> m.passive_mgr@ == all_loaded(
            all_loaded(Map::empty(), f.attacker->0.entitys, tables),
            f.defender->0.entitys,
            tables,
        ) && skill_effects_view(m.rule_mgr.effects@) == team_rule_effects(
            tables,
            rules,
            f.attacker->0.entitys,
        ) + team_rule_effects(tables, rules, f.defender->0.entitys),
{
    assert(effects_view(m.calculate_mgr.pending_effects@).len()
        == m.calculate_mgr.pending_effects@.len());
    assert forall|idx: usize| !#[trigger] m.active_effect_mgr.map@.contains_key(idx) by {
        assert(!m.active_effect_mgr.map@.dom().contains(idx));
    }
}

/// Each skill settles the damage of a carrier in a step of its own.
pub proof fn how_skills_settle(f: FightView, carrier: i64, damage: i32, skills: Seq<i32>, x: i32)
    ensures
        settled_by(f, carrier, damage, Seq::empty()).len() == 0,
        settled_by(f, carrier, damage, skills.push(x)).len() == settled_by(
            f,
            carrier,
            damage,
            skills,
        ).len() + 1,
        settled_by(f, carrier, damage, skills.push(x)).drop_last() == settled_by(
            f,
            carrier,
            damage,
            skills,
        ),
        carries(
            settled_by(f, carrier, damage, skills.push(x)).last(),
            step_of(ActType::Skill, carrier, carrier, x, 1, settle_view(f, carrier, damage)),
        ),
{
    assert(skills.push(x).drop_last() =~= skills);
    let before = settled_by(f, carrier, damage, skills);
    assert(settled_by(f, carrier, damage, skills.push(x)).drop_last() =~= before);
}

/// The damage settles carrier by carrier, on those whose total is above zero, in one step of
/// effects if there is any.
pub proof fn how_damage_settles(
    f: FightView,
    carriers: Seq<i64>,
    x: i64,
    totals: Seq<i32>,
    skills: Seq<i32>,
)
    ensures
        settled_on(f, Seq::empty(), totals, skills).len() == 0,
        totals[carriers.len() as int] <= 0 ==> settled_on(f, carriers.push(x), totals, skills)
            == settled_on(f, carriers, totals, skills),
        totals[carriers.len() as int] > 0 ==> settled_on(f, carriers.push(x), totals, skills)
            == settled_on(f, carriers, totals, skills) + settled_by(
            f,
            x,
            totals[carriers.len() as int],
            skills,
        ),
        settled_on(f, carriers, totals, skills).len() == 0 ==> settle_steps(
            f,
            carriers,
            totals,
            skills,
        ).len() == 0,
        settled_on(f, carriers, totals, skills).len() > 0 ==> settle_steps(
            f,
            carriers,
            totals,
            skills,
        ) == seq![step_of(ActType::Effect, 0, 0, 0, 0, settled_on(f, carriers, totals, skills))],
{
    assert(carriers.push(x).drop_last() =~= carriers);
}

/// The total of a carrier is what its poisons settle to.
pub proof fn what_settles_on_a_carrier(
    f: FightView,
    dots: Seq<DotRow>,
    buffs: BuffMgr,
    carriers: Seq<i64>,
    fixed: Seq<Vec<i32>>,
    i: int,
)
    requires
        0 <= i < carriers.len(),
    ensures
        totals_of(f, dots, buffs, carriers, fixed).len() == carriers.len(),
        totals_of(f, dots, buffs, carriers, fixed)[i] == settled_all(
            crate::effect::behavior::damage::poisons_of(f, dots, buffs.of(carriers[i])),
            fixed[i]@,
        ) as i32,
{
}

/// A skill settles damage at the start of a round if it is listed for it and one of the
/// first twenty slots of its effect begins with the code for it.
pub proof fn which_skills_settle(t: SettleTables, skill_id: i32)
    ensures
        ({
            let row = row_at(t.skills@, effect_of_skill(t.links@, skill_id));
            t.settles(skill_id) <==> t.round_start_only@.contains(skill_id) && row is Some && exists|
                k: int,
            |
                0 <= k < row->0.slots@.len() && k < 20 && number(
                    trimmed(pieces((#[trigger] row->0.slots@[k]).behavior@, '#')[0]),
                ) == Some(60073i32)
        }),
{
    let row = row_at(t.skills@, effect_of_skill(t.links@, skill_id));
    if row is Some {
        let all = row->0.slots@;
        let some = crate::effect::parser::first_twenty(all);
        assert forall|k: int| 0 <= k < some.len() implies some[k] == #[trigger] all[k] by {}
        assert forall|k: int| 0 <= k < all.len() implies pieces(
            (#[trigger] all[k]).behavior@,
            '#',
        ).len() >= 1 by {
            pieces_nonempty(all[k].behavior@, '#');
        }
        if t.settles(skill_id) {
            let k = choose|k: int|
                0 <= k < some.len() && crate::mechanics::channel::trimmed_number(
                    pieces((#[trigger] some[k]).behavior@, '#'),
                    0,
                ) == Some(60073i32);
            assert(all[k] == some[k]);
        }
        if exists|k: int|
            0 <= k < all.len() && k < 20 && number(
                trimmed(pieces((#[trigger] all[k]).behavior@, '#')[0]),
            ) == Some(60073i32) {
            let k = choose|k: int|
                0 <= k < all.len() && k < 20 && number(
                    trimmed(pieces((#[trigger] all[k]).behavior@, '#')[0]),
                ) == Some(60073i32);
            assert(some[k] == all[k]);
        }
    }
}

} // verus!
