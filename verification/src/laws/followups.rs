//! What follows a channel, and the step that hosts it.

use crate::buffs::{first_buff, BuffInstance, BuffMgr};
use crate::config::{row_at, shared_params, BuffActRow, SharedParamsRow, SkillBuffRow};
use crate::laws::channels::{first_number, has};
use crate::laws::events::nothing_set;
use crate::mechanics::channel::MonitorRow;
use crate::mechanics::channel_followup::{
    announcement, can_emit, channel_seed, consume_entry, emission_target, first_consume,
    first_nested, lopera_channel, request_of, scan, seed_among, seed_in_buffs, spliced,
    standing_uids, with_nested_splice, ChannelRequest, ChannelSeed, Scan,
};
use crate::mechanics::channel_host::{
    candidates, consume_emissions, emissions_view, exploded, host_position, lopera_rank,
    lopera_sorted, new_effects, ranked, repeated_emissions, triggers_view, whole_embeds,
    SkillEmission, SkillEmissionView, TriggerEmbed, TriggerEmbedView,
};
use crate::model::{
    effects_view, ActType, BuffInfoView, BuffLayerType, EffectType, EffectView, EntityView,
    FightView, StepView,
};
use crate::text::{number, pieces, trimmed};
use vstd::prelude::*;

verus! {

/// A fighter of the player that uses a skill on an enemy emits at that enemy, and else at
/// the primary target. Nothing is emitted without a target, by an enemy, or by what is no
/// skill.
pub proof fn at_whom_is_emitted(root: StepView, primary: i64)
    requires
        root.from_id is Some,
        root.from_id->0 > 0,
    ensures
        root.to_id is Some && root.to_id->0 < 0 ==> emission_target(root, primary)
            == root.to_id->0,
        root.to_id is None || root.to_id->0 >= 0 ==> emission_target(root, primary) == primary,
        can_emit(root, primary) <==> root.act_type == Some(ActType::Skill) && emission_target(
            root,
            primary,
        ) != 0,
{
}

/// Nobody else emits.
pub proof fn who_does_not_emit(root: StepView, primary: i64)
    requires
        root.from_id is None || root.from_id->0 <= 0,
    ensures
        !can_emit(root, primary),
{
}

/// A buff asks for an emission if it has a row and its fighter has the buff that the row
/// asks for, if any.
pub proof fn what_a_buff_asks_for(rows: Seq<MonitorRow>, held: Seq<BuffInstance>, buff_id: i32)
    ensures
        ({
            let row = row_at(rows, buff_id);
            let q = request_of(rows, held, buff_id);
            &&& q is Some <==> row is Some && (row->0.prerequisite_buff_id > 0 ==> has(
                held,
                row->0.prerequisite_buff_id,
            ))
            &&& q is Some ==> q->0.emit_effect_id == row->0.counter_buff_id
            &&& q is Some ==> q->0.emit_skill_id == row->0.own_reaction_id
        }),
{
}

/// A step already holds what is asked for, as an effect or as a skill.
pub open spec fn holds_already(host: StepView, q: ChannelRequest) -> bool {
    exists|i: int|
        0 <= i < host.act_effect.len() && (#[trigger] host.act_effect[i]).fight_step is Some && (
        host.act_effect[i].fight_step->0.act_id == Some(q.emit_effect_id)
            || host.act_effect[i].fight_step->0.act_id == Some(q.emit_skill_id))
}

/// The buffs are gone through one by one: one that asks for nothing, or for what was asked
/// for before, is passed over; one that asks for what is there already is only remembered;
/// the first other one is found.
pub proof fn how_buffs_are_gone_through(
    pending: Seq<BuffInstance>,
    done: nat,
    seen: Seq<ChannelRequest>,
    host: StepView,
    rows: Seq<MonitorRow>,
    held: Seq<BuffInstance>,
)
    ensures
        ({
            let r = scan(pending, done, seen, host, rows, held);
            let q = request_of(rows, held, pending[done as int].buff_id);
            &&& done >= pending.len() ==> r == (Scan { done, seen, found: None })
            &&& done < pending.len() && (q is None || seen.contains(q->0)) ==> r == scan(
                pending,
                done + 1,
                seen,
                host,
                rows,
                held,
            )
            &&& done < pending.len() && q is Some && !seen.contains(q->0) && holds_already(
                host,
                q->0,
            ) ==> r == scan(pending, done + 1, seen.push(q->0), host, rows, held)
            &&& done < pending.len() && q is Some && !seen.contains(q->0) && !holds_already(
                host,
                q->0,
            ) ==> r == (Scan { done: done + 1, seen: seen.push(q->0), found: q })
        }),
{
}

/// An emission is announced by an update of the buff that counts, as it is held; its count
/// is at least one. Who does not hold it announces nothing.
pub proof fn how_an_emission_is_announced(
    uid: i64,
    held: Seq<BuffInstance>,
    shared: Seq<SharedParamsRow>,
    buff_id: i32,
)
    ensures
        first_buff(held, buff_id) is None ==> announcement(uid, held, shared, buff_id) is None,
        first_buff(held, buff_id) matches Some(b) ==> announcement(uid, held, shared, buff_id)
            == Some(
            EffectView {
                effect_type: Some(EffectType::BuffUpdate),
                target_id: Some(uid),
                effect_num: Some(0),
                buff: Some(
                    BuffInfoView {
                        buff_id: Some(buff_id),
                        duration: Some(0),
                        uid: Some(b.uid),
                        ex_info: Some(0),
                        from_uid: Some(b.from_uid),
                        count: Some(
                            if b.stacks >= 1 {
                                b.stacks
                            } else {
                                1
                            },
                        ),
                        act_common_params: Some(shared_params(shared, buff_id)),
                        layer: Some(b.layer),
                        layer_type: Some(BuffLayerType::Normal),
                        act_info: Seq::empty(),
                    },
                ),
                ..nothing_set()
            },
        ),
{
}

/// What is spliced in stands together at its place, with everything else around it in its
/// order.
pub proof fn what_is_spliced_in(s: Seq<EffectView>, at: int, more: Seq<EffectView>, i: int)
    requires
        0 <= at <= s.len(),
    ensures
        ({
            let t = spliced(s, at, more);
            &&& t.len() == s.len() + more.len()
            &&& 0 <= i < at ==> t[i] == s[i]
            &&& 0 <= i < more.len() ==> t[at + i] == more[i]
            &&& at <= i < s.len() ==> t[more.len() + i] == s[i]
        }),
{
}

/// What is spliced into a carried step changes that step alone.
pub proof fn what_is_spliced_into_a_carried_step(
    s: Seq<EffectView>,
    i: int,
    at: int,
    more: Seq<EffectView>,
)
    requires
        0 <= i < s.len(),
        s[i].fight_step is Some,
    ensures
        ({
            let t = with_nested_splice(s, i, at, more);
            &&& t.len() == s.len()
            &&& forall|j: int| 0 <= j < s.len() && j != i ==> #[trigger] t[j] == s[j]
            &&& t[i].fight_step is Some
            &&& t[i].fight_step->0 == (StepView {
                act_effect: spliced(s[i].fight_step->0.act_effect, at, more),
                ..s[i].fight_step->0
            })
            &&& t[i] == (EffectView { fight_step: t[i].fight_step, ..s[i] })
        }),
{
}

/// An entry of features consumes a buff for a channel.
pub open spec fn consumes(entry: Seq<char>, acts: Seq<BuffActRow>) -> bool {
    let row = row_at(acts, first_number(entry));
    let parts = pieces(entry, '#');
    row is Some && row->0.act_type@ == "ConsumeBuffContinueChannel"@ && parts.len() > 1 && number(
        trimmed(parts[1]),
    ) is Some && number(trimmed(parts[1]))->0 > 0
}

/// What such an entry names: the skill behind its act, and in the fourth and fifth place the
/// kind of target and the effect, zero if they are not there.
pub proof fn what_a_consuming_entry_names(entry: Seq<char>, acts: Seq<BuffActRow>)
    ensures
        ({
            let parts = pieces(entry, '#');
            let at = |k: int|
                if k < parts.len() && number(trimmed(parts[k])) is Some {
                    number(trimmed(parts[k]))->0
                } else {
                    0i32
                };
            &&& consume_entry(entry, acts) is Some <==> consumes(entry, acts)
            &&& consume_entry(entry, acts) is Some ==> consume_entry(entry, acts) == Some(
                (at(1), at(3), at(4)),
            )
        }),
{
}

/// The first entry that consumes a buff decides.
pub proof fn the_first_consuming_entry(
    acts: Seq<BuffActRow>,
    s: Seq<Seq<char>>,
)
    ensures
        first_consume(s, acts) is None <==> forall|i: int| 0 <= i < s.len() ==> !(consume_entry((#[trigger] s[i]), acts) is Some),
        first_consume(s, acts) is Some ==> exists|i: int|
            0 <= i < s.len() && consume_entry((#[trigger] s[i]), acts) is Some && first_consume(s, acts) == consume_entry(s[i], acts) && forall|j: int|
                0 <= j < i ==> !(consume_entry((#[trigger] s[j]), acts) is Some),
    decreases s.len(),
{
    if s.len() > 0 {
        let rest = s.skip(1);
        the_first_consuming_entry(acts, rest);
        assert forall|i: int| 0 < i < s.len() implies rest[i - 1] == #[trigger] s[i] by {}
        if consume_entry(s[0], acts) is Some {
            assert(first_consume(s, acts) == consume_entry(s[0], acts));
        } else if first_consume(rest, acts) is Some {
            let i = choose|i: int|
                0 <= i < rest.len() && consume_entry((#[trigger] rest[i]), acts) is Some && first_consume(rest, acts) == consume_entry(rest[i], acts) && forall|j: int|
                    0 <= j < i ==> !(consume_entry((#[trigger] rest[j]), acts) is Some);
            assert(rest[i] == s[i + 1]);
            assert forall|j: int| 0 <= j < i + 1 implies !(consume_entry((#[trigger] s[j]), acts) is Some) by {
                if j > 0 {
                    assert(rest[j - 1] == s[j]);
                }
            }
        }
        if first_consume(s, acts) is None {
            assert forall|i: int| 0 <= i < s.len() implies !(consume_entry((#[trigger] s[i]), acts) is Some) by {
                if i > 0 {
                    assert(rest[i - 1] == s[i]);
                }
            }
        }
    }
}

/// The channel that a buff seeds, if its features have an entry that consumes it.
pub open spec fn seeded_by(
    uid: i64,
    b: BuffInstance,
    buff_rows: Seq<SkillBuffRow>,
    acts: Seq<BuffActRow>,
) -> Option<ChannelSeed> {
    let row = row_at(buff_rows, b.buff_id);
    let found = first_consume(pieces(row->0.features@, '|'), acts);
    if row is Some && found is Some {
        Some(
            ChannelSeed {
                caster_uid: uid,
                channel_buff_id: b.buff_id,
                extra_skill_id: (found->0).0,
                target_type: (found->0).1,
                emit_effect_id: (found->0).2,
            },
        )
    } else {
        None
    }
}

/// The first buff that seeds a channel decides.
pub proof fn the_first_buff_that_seeds(
    uid: i64,
    buff_rows: Seq<SkillBuffRow>,
    acts: Seq<BuffActRow>,
    s: Seq<BuffInstance>,
)
    ensures
        seed_in_buffs(uid, s, buff_rows, acts) is None <==> forall|i: int| 0 <= i < s.len() ==> !(seeded_by(uid, (#[trigger] s[i]), buff_rows, acts) is Some),
        seed_in_buffs(uid, s, buff_rows, acts) is Some ==> exists|i: int|
            0 <= i < s.len() && seeded_by(uid, (#[trigger] s[i]), buff_rows, acts) is Some && seed_in_buffs(uid, s, buff_rows, acts) == seeded_by(uid, s[i], buff_rows, acts) && forall|j: int|
                0 <= j < i ==> !(seeded_by(uid, (#[trigger] s[j]), buff_rows, acts) is Some),
    decreases s.len(),
{
    if s.len() > 0 {
        let rest = s.skip(1);
        the_first_buff_that_seeds(uid, buff_rows, acts, rest);
        assert forall|i: int| 0 < i < s.len() implies rest[i - 1] == #[trigger] s[i] by {}
        if seeded_by(uid, s[0], buff_rows, acts) is Some {
            assert(seed_in_buffs(uid, s, buff_rows, acts) == seeded_by(uid, s[0], buff_rows, acts));
        } else if seed_in_buffs(uid, rest, buff_rows, acts) is Some {
            let i = choose|i: int|
                0 <= i < rest.len() && seeded_by(uid, (#[trigger] rest[i]), buff_rows, acts) is Some && seed_in_buffs(uid, rest, buff_rows, acts) == seeded_by(uid, rest[i], buff_rows, acts) && forall|j: int|
                    0 <= j < i ==> !(seeded_by(uid, (#[trigger] rest[j]), buff_rows, acts) is Some);
            assert(rest[i] == s[i + 1]);
            assert forall|j: int| 0 <= j < i + 1 implies !(seeded_by(uid, (#[trigger] s[j]), buff_rows, acts) is Some) by {
                if j > 0 {
                    assert(rest[j - 1] == s[j]);
                }
            }
        }
        if seed_in_buffs(uid, s, buff_rows, acts) is None {
            assert forall|i: int| 0 <= i < s.len() implies !(seeded_by(uid, (#[trigger] s[i]), buff_rows, acts) is Some) by {
                if i > 0 {
                    assert(rest[i - 1] == s[i]);
                }
            }
        }
    }
}

/// The first fighter with a buff that seeds a channel decides.
pub proof fn the_first_fighter_that_seeds(
    buffs: BuffMgr,
    buff_rows: Seq<SkillBuffRow>,
    acts: Seq<BuffActRow>,
    s: Seq<i64>,
)
    ensures
        seed_among(s, buffs, buff_rows, acts) is None <==> forall|i: int| 0 <= i < s.len() ==> !(seed_in_buffs((#[trigger] s[i]), buffs.of((s[i])), buff_rows, acts) is Some),
        seed_among(s, buffs, buff_rows, acts) is Some ==> exists|i: int|
            0 <= i < s.len() && seed_in_buffs((#[trigger] s[i]), buffs.of((s[i])), buff_rows, acts) is Some && seed_among(s, buffs, buff_rows, acts) == seed_in_buffs(s[i], buffs.of(s[i]), buff_rows, acts) && forall|j: int|
                0 <= j < i ==> !(seed_in_buffs((#[trigger] s[j]), buffs.of((s[j])), buff_rows, acts) is Some),
    decreases s.len(),
{
    if s.len() > 0 {
        let rest = s.skip(1);
        the_first_fighter_that_seeds(buffs, buff_rows, acts, rest);
        assert forall|i: int| 0 < i < s.len() implies rest[i - 1] == #[trigger] s[i] by {}
        if seed_in_buffs(s[0], buffs.of(s[0]), buff_rows, acts) is Some {
            assert(seed_among(s, buffs, buff_rows, acts) == seed_in_buffs(s[0], buffs.of(s[0]), buff_rows, acts));
        } else if seed_among(rest, buffs, buff_rows, acts) is Some {
            let i = choose|i: int|
                0 <= i < rest.len() && seed_in_buffs((#[trigger] rest[i]), buffs.of((rest[i])), buff_rows, acts) is Some && seed_among(rest, buffs, buff_rows, acts) == seed_in_buffs(rest[i], buffs.of(rest[i]), buff_rows, acts) && forall|j: int|
                    0 <= j < i ==> !(seed_in_buffs((#[trigger] rest[j]), buffs.of((rest[j])), buff_rows, acts) is Some);
            assert(rest[i] == s[i + 1]);
            assert forall|j: int| 0 <= j < i + 1 implies !(seed_in_buffs((#[trigger] s[j]), buffs.of((s[j])), buff_rows, acts) is Some) by {
                if j > 0 {
                    assert(rest[j - 1] == s[j]);
                }
            }
        }
        if seed_among(s, buffs, buff_rows, acts) is None {
            assert forall|i: int| 0 <= i < s.len() implies !(seed_in_buffs((#[trigger] s[i]), buffs.of((s[i])), buff_rows, acts) is Some) by {
                if i > 0 {
                    assert(rest[i - 1] == s[i]);
                }
            }
        }
    }
}

proof fn who_stands_join(
    a: Seq<EntityView>,
    b: Seq<EntityView>,
)
    ensures
        standing_uids(a + b) == standing_uids(a) + standing_uids(b),
    decreases b.len(),
{
    if b.len() == 0 {
        assert(a + b =~= a);
        assert(standing_uids(a) + standing_uids(b) =~= standing_uids(a));
    } else {
        who_stands_join(a, b.drop_last());
        assert((a + b).drop_last() =~= a + b.drop_last());
        assert((a + b).last() == b.last());
        assert(standing_uids(a + b) =~= standing_uids(a) + standing_uids(b));
    }
}

/// Who stands: whoever has a position, life left and an id, in their order.
pub proof fn who_stands(
    a: Seq<EntityView>,
    b: Seq<EntityView>,
    x: EntityView,
)
    ensures
        standing_uids(a + b) == standing_uids(a) + standing_uids(b),
        standing_uids(Seq::<EntityView>::empty()).len() == 0,
        standing_uids(seq![x]) == (if x.position is Some && x.position->0 > 0 && x.current_hp is Some && x.current_hp->0 > 0
            && x.uid is Some {
            seq![x.uid->0]
        } else {
            Seq::empty()
        }),
{
    who_stands_join(a, b);
    let one = seq![x];
    assert(one.drop_last() =~= Seq::<EntityView>::empty());
    assert(one.last() == x);
    assert(standing_uids(one.drop_last()).len() == 0);
    assert(standing_uids(seq![x]) =~= (if x.position is Some && x.position->0 > 0 && x.current_hp is Some && x.current_hp->0 > 0
            && x.uid is Some {
            seq![x.uid->0]
        } else {
            Seq::empty()
        }));
}

/// Channels are seeded in the first round alone, by the attackers who stand.
pub proof fn when_channels_are_seeded(
    f: FightView,
    buffs: BuffMgr,
    buff_rows: Seq<SkillBuffRow>,
    acts: Seq<BuffActRow>,
)
    ensures
        f.cur_round is Some && f.cur_round->0 != 1 ==> channel_seed(f, buffs, buff_rows, acts)
            is None,
        f.attacker is None ==> channel_seed(f, buffs, buff_rows, acts) is None,
        (f.cur_round is None || f.cur_round == Some(1i32)) && f.attacker is Some ==> channel_seed(
            f,
            buffs,
            buff_rows,
            acts,
        ) == seed_among(
            standing_uids(f.attacker->0.entitys + f.attacker->0.sub_entitys),
            buffs,
            buff_rows,
            acts,
        ),
        lopera_channel() == 31020114,
{
    if f.attacker is None {
        assert(standing_uids(Seq::empty()).len() == 0);
    }
}

/// The first effect that carries a step.
pub proof fn the_first_carried_step(
    s: Seq<EffectView>,
)
    ensures
        first_nested(s) is None <==> forall|i: int| 0 <= i < s.len() ==> !((#[trigger] s[i]).fight_step is Some),
        first_nested(s) matches Some(n) ==> n < s.len() && s[n as int].fight_step is Some && forall|j: int|
            0 <= j < n ==> !((#[trigger] s[j]).fight_step is Some),
    decreases s.len(),
{
    if s.len() > 0 {
        let rest = s.skip(1);
        the_first_carried_step(rest);
        assert forall|i: int| 0 < i < s.len() implies rest[i - 1] == #[trigger] s[i] by {}
        if !(s[0].fight_step is Some) && first_nested(rest) is Some {
            let n = first_nested(rest)->0;
            assert(rest[n as int] == s[n as int + 1]);
            assert forall|j: int| 0 <= j < n + 1 implies !((#[trigger] s[j]).fight_step is Some) by {
                if j > 0 {
                    assert(rest[j - 1] == s[j]);
                }
            }
        }
        if first_nested(s) is None {
            assert forall|i: int| 0 <= i < s.len() implies !((#[trigger] s[i]).fight_step is Some) by {
                if i > 0 {
                    assert(rest[i - 1] == s[i]);
                }
            }
        }
    }
}

/// An effect carries the step of a skill.
pub open spec fn carries_skill(e: EffectView, skill_id: i32) -> bool {
    e.effect_type == Some(EffectType::FightStep) && e.fight_step is Some
        && e.fight_step->0.act_type == Some(ActType::Skill) && e.fight_step->0.act_id == Some(
        skill_id,
    )
}

proof fn skills_that_are_emitted_again_join(
    uid: i64,
    skill_id: i32,
    a: Seq<EffectView>,
    b: Seq<EffectView>,
)
    ensures
        repeated_emissions(a + b, uid, skill_id) == repeated_emissions(a, uid, skill_id) + repeated_emissions(b, uid, skill_id),
    decreases b.len(),
{
    if b.len() == 0 {
        assert(a + b =~= a);
        assert(repeated_emissions(a, uid, skill_id) + repeated_emissions(b, uid, skill_id) =~= repeated_emissions(a, uid, skill_id));
    } else {
        skills_that_are_emitted_again_join(uid, skill_id, a, b.drop_last());
        assert((a + b).drop_last() =~= a + b.drop_last());
        assert((a + b).last() == b.last());
        assert(repeated_emissions(a + b, uid, skill_id) =~= repeated_emissions(a, uid, skill_id) + repeated_emissions(b, uid, skill_id));
    }
}

/// Each carried step of a skill is emitted again, by its fighter at itself.
pub proof fn skills_that_are_emitted_again(
    uid: i64,
    skill_id: i32,
    a: Seq<EffectView>,
    b: Seq<EffectView>,
    x: EffectView,
)
    ensures
        repeated_emissions(a + b, uid, skill_id) == repeated_emissions(a, uid, skill_id) + repeated_emissions(b, uid, skill_id),
        repeated_emissions(Seq::<EffectView>::empty(), uid, skill_id).len() == 0,
        repeated_emissions(seq![x], uid, skill_id) == (if carries_skill(x, skill_id) {
            seq![
                SkillEmissionView {
                    from: uid,
                    to: uid,
                    skill_id,
                    children: x.fight_step->0.act_effect,
                },
            ]
        } else {
            Seq::empty()
        }),
{
    skills_that_are_emitted_again_join(uid, skill_id, a, b);
    let one = seq![x];
    assert(one.drop_last() =~= Seq::<EffectView>::empty());
    assert(one.last() == x);
    assert(repeated_emissions(one.drop_last(), uid, skill_id).len() == 0);
    assert(repeated_emissions(seq![x], uid, skill_id) =~= (if carries_skill(x, skill_id) {
            seq![
                SkillEmissionView {
                    from: uid,
                    to: uid,
                    skill_id,
                    children: x.fight_step->0.act_effect,
                },
            ]
        } else {
            Seq::empty()
        }));
}

/// What a consumed channel emits: nothing if its skill was not played, else what is emitted
/// again and then the announcement, if there is one.
pub proof fn what_a_consumed_channel_emits(
    s: Seq<EffectView>,
    uid: i64,
    id: i32,
    held: Seq<BuffInstance>,
    shared: Seq<SharedParamsRow>,
)
    ensures
        consume_emissions(None, uid, id, held, shared).len() == 0,
        announcement(uid, held, shared, id) is None ==> consume_emissions(
            Some(s),
            uid,
            id,
            held,
            shared,
        ) == repeated_emissions(s, uid, id),
        announcement(uid, held, shared, id) matches Some(e) ==> consume_emissions(
            Some(s),
            uid,
            id,
            held,
            shared,
        ) == repeated_emissions(s, uid, id).push(
            SkillEmissionView { from: uid, to: uid, skill_id: id, children: seq![e] },
        ),
{
}

/// A trigger's step of effects that carries steps falls apart into these; any other trigger
/// stays as it is embedded.
pub proof fn how_triggers_fall_apart(t: TriggerEmbedView)
    ensures
        ({
            let inner = crate::fight_step::select::wrappers(t.step.act_effect);
            &&& t.step.act_type == Some(ActType::Effect) && inner.len() > 0 ==> exploded(t)
                == inner
            &&& t.step.act_type != Some(ActType::Effect) || inner.len() == 0 ==> exploded(t)
                == seq![t.embedded]
        }),
{
}

proof fn effects_that_are_new_join(
    skill_id: i32,
    uid: i64,
    a: Seq<EffectView>,
    b: Seq<EffectView>,
)
    ensures
        new_effects(a + b, skill_id, uid) == new_effects(a, skill_id, uid) + new_effects(b, skill_id, uid),
    decreases b.len(),
{
    if b.len() == 0 {
        assert(a + b =~= a);
        assert(new_effects(a, skill_id, uid) + new_effects(b, skill_id, uid) =~= new_effects(a, skill_id, uid));
    } else {
        effects_that_are_new_join(skill_id, uid, a, b.drop_last());
        assert((a + b).drop_last() =~= a + b.drop_last());
        assert((a + b).last() == b.last());
        assert(new_effects(a + b, skill_id, uid) =~= new_effects(a, skill_id, uid) + new_effects(b, skill_id, uid));
    }
}

/// What repeats the fighter's own skill is left out; everything else stays in its order.
pub proof fn effects_that_are_new(
    skill_id: i32,
    uid: i64,
    a: Seq<EffectView>,
    b: Seq<EffectView>,
    x: EffectView,
)
    ensures
        new_effects(a + b, skill_id, uid) == new_effects(a, skill_id, uid) + new_effects(b, skill_id, uid),
        new_effects(Seq::<EffectView>::empty(), skill_id, uid).len() == 0,
        new_effects(seq![x], skill_id, uid) == (if x.fight_step is Some && x.fight_step->0.act_type == Some(ActType::Skill)
            && x.fight_step->0.act_id == Some(skill_id) && x.fight_step->0.from_id == Some(uid) {
            Seq::empty()
        } else {
            seq![x]
        }),
{
    effects_that_are_new_join(skill_id, uid, a, b);
    let one = seq![x];
    assert(one.drop_last() =~= Seq::<EffectView>::empty());
    assert(one.last() == x);
    assert(new_effects(one.drop_last(), skill_id, uid).len() == 0);
    assert(new_effects(seq![x], skill_id, uid) =~= (if x.fight_step is Some && x.fight_step->0.act_type == Some(ActType::Skill)
            && x.fight_step->0.act_id == Some(skill_id) && x.fight_step->0.from_id == Some(uid) {
            Seq::empty()
        } else {
            seq![x]
        }));
}

proof fn candidates_of_triggers_join(
    skill_id: i32,
    uid: i64,
    a: Seq<TriggerEmbedView>,
    b: Seq<TriggerEmbedView>,
)
    ensures
        candidates(a + b, skill_id, uid) == candidates(a, skill_id, uid) + candidates(b, skill_id, uid),
    decreases b.len(),
{
    if b.len() == 0 {
        assert(a + b =~= a);
        assert(candidates(a, skill_id, uid) + candidates(b, skill_id, uid) =~= candidates(a, skill_id, uid));
    } else {
        candidates_of_triggers_join(skill_id, uid, a, b.drop_last());
        assert((a + b).drop_last() =~= a + b.drop_last());
        assert((a + b).last() == b.last());
        assert(candidates(a + b, skill_id, uid) =~= candidates(a, skill_id, uid) + candidates(b, skill_id, uid));
    }
}

/// The triggers of a fighter give what is new in them; those of others give nothing.
pub proof fn candidates_of_triggers(
    skill_id: i32,
    uid: i64,
    a: Seq<TriggerEmbedView>,
    b: Seq<TriggerEmbedView>,
    x: TriggerEmbedView,
)
    ensures
        candidates(a + b, skill_id, uid) == candidates(a, skill_id, uid) + candidates(b, skill_id, uid),
        candidates(Seq::<TriggerEmbedView>::empty(), skill_id, uid).len() == 0,
        candidates(seq![x], skill_id, uid) == (if x.origin_uid == Some(uid) {
            new_effects(exploded(x), skill_id, uid)
        } else {
            Seq::empty()
        }),
{
    candidates_of_triggers_join(skill_id, uid, a, b);
    let one = seq![x];
    assert(one.drop_last() =~= Seq::<TriggerEmbedView>::empty());
    assert(one.last() == x);
    assert(candidates(one.drop_last(), skill_id, uid).len() == 0);
    assert(candidates(seq![x], skill_id, uid) =~= (if x.origin_uid == Some(uid) {
            new_effects(exploded(x), skill_id, uid)
        } else {
            Seq::empty()
        }));
}

proof fn triggers_that_stay_whole_join(
    uid: i64,
    a: Seq<TriggerEmbedView>,
    b: Seq<TriggerEmbedView>,
)
    ensures
        whole_embeds(a + b, uid) == whole_embeds(a, uid) + whole_embeds(b, uid),
    decreases b.len(),
{
    if b.len() == 0 {
        assert(a + b =~= a);
        assert(whole_embeds(a, uid) + whole_embeds(b, uid) =~= whole_embeds(a, uid));
    } else {
        triggers_that_stay_whole_join(uid, a, b.drop_last());
        assert((a + b).drop_last() =~= a + b.drop_last());
        assert((a + b).last() == b.last());
        assert(whole_embeds(a + b, uid) =~= whole_embeds(a, uid) + whole_embeds(b, uid));
    }
}

/// The triggers of a fighter as they are embedded, in their order.
pub proof fn triggers_that_stay_whole(
    uid: i64,
    a: Seq<TriggerEmbedView>,
    b: Seq<TriggerEmbedView>,
    x: TriggerEmbedView,
)
    ensures
        whole_embeds(a + b, uid) == whole_embeds(a, uid) + whole_embeds(b, uid),
        whole_embeds(Seq::<TriggerEmbedView>::empty(), uid).len() == 0,
        whole_embeds(seq![x], uid) == (if x.origin_uid == Some(uid) {
            seq![x.embedded]
        } else {
            Seq::empty()
        }),
{
    triggers_that_stay_whole_join(uid, a, b);
    let one = seq![x];
    assert(one.drop_last() =~= Seq::<TriggerEmbedView>::empty());
    assert(one.last() == x);
    assert(whole_embeds(one.drop_last(), uid).len() == 0);
    assert(whole_embeds(seq![x], uid) =~= (if x.origin_uid == Some(uid) {
            seq![x.embedded]
        } else {
            Seq::empty()
        }));
}

proof fn effects_of_a_rank_join(
    rank: int,
    a: Seq<EffectView>,
    b: Seq<EffectView>,
)
    ensures
        ranked(a + b, rank) == ranked(a, rank) + ranked(b, rank),
    decreases b.len(),
{
    if b.len() == 0 {
        assert(a + b =~= a);
        assert(ranked(a, rank) + ranked(b, rank) =~= ranked(a, rank));
    } else {
        effects_of_a_rank_join(rank, a, b.drop_last());
        assert((a + b).drop_last() =~= a + b.drop_last());
        assert((a + b).last() == b.last());
        assert(ranked(a + b, rank) =~= ranked(a, rank) + ranked(b, rank));
    }
}

/// The effects of a rank, in their order.
pub proof fn effects_of_a_rank(
    rank: int,
    a: Seq<EffectView>,
    b: Seq<EffectView>,
    x: EffectView,
)
    ensures
        ranked(a + b, rank) == ranked(a, rank) + ranked(b, rank),
        ranked(Seq::<EffectView>::empty(), rank).len() == 0,
        ranked(seq![x], rank) == (if lopera_rank(x) == rank {
            seq![x]
        } else {
            Seq::empty()
        }),
{
    effects_of_a_rank_join(rank, a, b);
    let one = seq![x];
    assert(one.drop_last() =~= Seq::<EffectView>::empty());
    assert(one.last() == x);
    assert(ranked(one.drop_last(), rank).len() == 0);
    assert(ranked(seq![x], rank) =~= (if lopera_rank(x) == rank {
            seq![x]
        } else {
            Seq::empty()
        }));
}

/// Two skills come first, each in its turn, then other steps, then what carries no step;
/// what has one rank keeps its order.
pub proof fn how_effects_are_sorted(s: Seq<EffectView>, e: EffectView)
    ensures
        lopera_sorted(s) == ranked(s, 0) + ranked(s, 1) + ranked(s, 2) + ranked(s, 3),
        e.fight_step is None ==> lopera_rank(e) == 3,
        e.fight_step matches Some(step) ==> {
            &&& step.act_id == Some(31020151i32) ==> lopera_rank(e) == 0
            &&& step.act_id == Some(433711i32) ==> lopera_rank(e) == 1
            &&& step.act_id != Some(31020151i32) && step.act_id != Some(433711i32) ==> lopera_rank(
                e,
            ) == 2
        },
{
}

/// The step that hosts a skill is the first carried one with its id.
pub proof fn the_step_that_hosts(
    skill_id: i32,
    s: Seq<EffectView>,
)
    ensures
        host_position(s, skill_id) is None <==> forall|i: int| 0 <= i < s.len() ==> !(((#[trigger] s[i]).effect_type == Some(EffectType::FightStep) && s[i].fight_step is Some && s[i].fight_step->0.act_id == Some(skill_id))),
        host_position(s, skill_id) matches Some(n) ==> n < s.len() && (s[n as int].effect_type == Some(EffectType::FightStep) && s[n as int].fight_step is Some && s[n as int].fight_step->0.act_id == Some(skill_id)) && forall|j: int|
            0 <= j < n ==> !(((#[trigger] s[j]).effect_type == Some(EffectType::FightStep) && s[j].fight_step is Some && s[j].fight_step->0.act_id == Some(skill_id))),
    decreases s.len(),
{
    if s.len() > 0 {
        let rest = s.skip(1);
        the_step_that_hosts(skill_id, rest);
        assert forall|i: int| 0 < i < s.len() implies rest[i - 1] == #[trigger] s[i] by {}
        if !((s[0].effect_type == Some(EffectType::FightStep) && s[0].fight_step is Some && s[0].fight_step->0.act_id == Some(skill_id))) && host_position(rest, skill_id) is Some {
            let n = host_position(rest, skill_id)->0;
            assert(rest[n as int] == s[n as int + 1]);
            assert forall|j: int| 0 <= j < n + 1 implies !(((#[trigger] s[j]).effect_type == Some(EffectType::FightStep) && s[j].fight_step is Some && s[j].fight_step->0.act_id == Some(skill_id))) by {
                if j > 0 {
                    assert(rest[j - 1] == s[j]);
                }
            }
        }
        if host_position(s, skill_id) is None {
            assert forall|i: int| 0 <= i < s.len() implies !(((#[trigger] s[i]).effect_type == Some(EffectType::FightStep) && s[i].fight_step is Some && s[i].fight_step->0.act_id == Some(skill_id))) by {
                if i > 0 {
                    assert(rest[i - 1] == s[i]);
                }
            }
        }
    }
}

/// Emissions and triggers are seen by all that they say.
pub proof fn how_emissions_are_seen(v: Seq<SkillEmission>, ts: Seq<TriggerEmbed>, i: int)
    ensures
        emissions_view(v).len() == v.len(),
        0 <= i < v.len() ==> emissions_view(v)[i] == (SkillEmissionView {
            from: v[i].from,
            to: v[i].to,
            skill_id: v[i].skill_id,
            children: effects_view(v[i].children@),
        }),
        triggers_view(ts).len() == ts.len(),
        0 <= i < ts.len() ==> triggers_view(ts)[i] == (TriggerEmbedView {
            step: ts[i].step@,
            embedded: ts[i].embedded@,
            origin_uid: ts[i].origin_uid,
        }),
{
}

} // verus!
