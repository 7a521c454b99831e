//! Where fighters stand, what is kept of them, and who takes the place of the fallen.

use crate::arith::{fits, or_zero, or_zero64};
use crate::config::{row_at, MonsterSkillTemplateRow};
use crate::laws::play::{ledger_but, stands_at};
use crate::lookup::{entity_of, everyone, first_with_uid, members, position_in, replaced};
use crate::manager::attr_bonus::{bonus_values, first_value, merged, nonzero, without_value};
use crate::manager::entity_mgr::{
    alive_on_side, ap_sum, at_least_zero, at_location, enrolled, enrolled_one, entry,
    ex_point_info, ex_point_infos, fallen, gauge_type, located, locations, of_team, on_field,
    positioned, replaced_at, required_points, required_set, saturated_sum, synced, synced_list,
    synced_team, taken, taken_one, EntityLocation, EntityMgrView, ExPointType,
};
use crate::model::{EntityView, FightView, TeamView};
use vstd::prelude::*;

verus! {

/// The entry of a ledger is what the ledger holds, and zero if it holds nothing.
pub proof fn entries_of_a_ledger(m: Map<i64, i32>, uid: i64, x: int)
    ensures
        m.contains_key(uid) ==> entry(m, uid) == m[uid],
        !m.contains_key(uid) ==> entry(m, uid) == 0,
        x >= 0 ==> at_least_zero(x) == x,
        x < 0 ==> at_least_zero(x) == 0,
{
}

/// Everyone in a battle: the attackers on the field and in reserve, then the defenders.
pub proof fn who_is_in_a_battle(f: FightView)
    ensures
        ({
            let a = if f.attacker is Some {
                f.attacker->0.entitys + f.attacker->0.sub_entitys
            } else {
                Seq::empty()
            };
            let d = if f.defender is Some {
                f.defender->0.entitys + f.defender->0.sub_entitys
            } else {
                Seq::empty()
            };
            everyone(f) == a + d
        }),
        f.attacker is Some ==> on_field(f.attacker) == f.attacker->0.entitys,
        f.attacker is None ==> on_field(f.attacker).len() == 0,
        members(None).len() == 0,
{
}

/// The fighter of an id is the first in the battle that has it.
pub proof fn the_fighter_of_an_id(s: Seq<EntityView>, uid: i64)
    ensures
        first_with_uid(s, uid) is None <==> forall|i: int|
            0 <= i < s.len() ==> (#[trigger] s[i]).uid != Some(uid),
        first_with_uid(s, uid) is Some ==> exists|i: int|
            0 <= i < s.len() && #[trigger] s[i] == first_with_uid(s, uid)->0 && s[i].uid == Some(uid)
                && forall|j: int| 0 <= j < i ==> (#[trigger] s[j]).uid != Some(uid),
        position_in(s, uid) is Some <==> first_with_uid(s, uid) is Some,
        position_in(s, uid) is Some ==> position_in(s, uid)->0 < s.len() && s[position_in(
            s,
            uid,
        )->0 as int].uid == Some(uid) && forall|j: int|
            0 <= j < position_in(s, uid)->0 ==> (#[trigger] s[j]).uid != Some(uid),
    decreases s.len(),
{
    if s.len() > 0 {
        let rest = s.skip(1);
        the_fighter_of_an_id(rest, uid);
        assert forall|i: int| 0 <= i < rest.len() implies rest[i] == #[trigger] s[i + 1] by {}
        assert forall|i: int| 0 < i < s.len() implies rest[i - 1] == #[trigger] s[i] by {}
        if s[0].uid == Some(uid) {
            assert(s[0] == first_with_uid(s, uid)->0);
        } else if first_with_uid(rest, uid) is Some {
            let i = choose|i: int|
                0 <= i < rest.len() && #[trigger] rest[i] == first_with_uid(rest, uid)->0
                    && rest[i].uid == Some(uid) && forall|j: int|
                    0 <= j < i ==> (#[trigger] rest[j]).uid != Some(uid);
            assert(s[i + 1] == first_with_uid(s, uid)->0);
            assert forall|j: int| 0 <= j < i + 1 implies (#[trigger] s[j]).uid != Some(uid) by {
                if j > 0 {
                    assert(rest[j - 1] == s[j]);
                }
            }
        }
    }
}

/// A battle is searched from the first attacker to the last defender in reserve.
pub proof fn how_a_battle_is_searched(f: FightView, uid: i64)
    ensures
        entity_of(f, uid) == first_with_uid(everyone(f), uid),
{
}

/// Replacing a fighter replaces the one that its id finds, and nobody if it finds none.
pub proof fn replacing_a_fighter(f: FightView, uid: i64, e: EntityView)
    requires
        e.uid == Some(uid),
    ensures
        entity_of(f, uid) is None ==> replaced(f, uid, e) == f,
        entity_of(f, uid) is Some ==> entity_of(replaced(f, uid, e), uid) == Some(e),
{
    let a = if f.attacker is Some {
        f.attacker->0.entitys
    } else {
        Seq::empty()
    };
    let b = if f.attacker is Some {
        f.attacker->0.sub_entitys
    } else {
        Seq::empty()
    };
    let c = if f.defender is Some {
        f.defender->0.entitys
    } else {
        Seq::empty()
    };
    let d = if f.defender is Some {
        f.defender->0.sub_entitys
    } else {
        Seq::empty()
    };
    assert(everyone(f) =~= a + b + (c + d));
    crate::lookup::first_with_uid_join(a + b, c + d, uid);
    crate::lookup::first_with_uid_join(a, b, uid);
    crate::lookup::first_with_uid_join(c, d, uid);
    the_fighter_of_an_id(a, uid);
    the_fighter_of_an_id(b, uid);
    the_fighter_of_an_id(c, uid);
    the_fighter_of_an_id(d, uid);
    if entity_of(f, uid) is Some {
        let g = replaced(f, uid, e);
        let a2 = if position_in(a, uid) is Some {
            a.update(position_in(a, uid)->0 as int, e)
        } else {
            a
        };
        let b2 = if position_in(a, uid) is None && position_in(b, uid) is Some {
            b.update(position_in(b, uid)->0 as int, e)
        } else {
            b
        };
        let c2 = if position_in(a, uid) is None && position_in(b, uid) is None && position_in(
            c,
            uid,
        ) is Some {
            c.update(position_in(c, uid)->0 as int, e)
        } else {
            c
        };
        let d2 = if position_in(a, uid) is None && position_in(b, uid) is None && position_in(
            c,
            uid,
        ) is None && position_in(d, uid) is Some {
            d.update(position_in(d, uid)->0 as int, e)
        } else {
            d
        };
        assert(everyone(g) =~= a2 + b2 + (c2 + d2));
        crate::lookup::first_with_uid_join(a2 + b2, c2 + d2, uid);
        crate::lookup::first_with_uid_join(a2, b2, uid);
        crate::lookup::first_with_uid_join(c2, d2, uid);
        the_fighter_of_an_id(a2, uid);
        the_fighter_of_an_id(b2, uid);
        the_fighter_of_an_id(c2, uid);
        the_fighter_of_an_id(d2, uid);
        first_is_replaced(a, uid, e);
        first_is_replaced(b, uid, e);
        first_is_replaced(c, uid, e);
        first_is_replaced(d, uid, e);
    }
}

proof fn first_is_replaced(s: Seq<EntityView>, uid: i64, e: EntityView)
    requires
        e.uid == Some(uid),
    ensures
        position_in(s, uid) is Some ==> first_with_uid(
            s.update(position_in(s, uid)->0 as int, e),
            uid,
        ) == Some(e),
{
    the_fighter_of_an_id(s, uid);
    if position_in(s, uid) is Some {
        let p = position_in(s, uid)->0 as int;
        let t = s.update(p, e);
        the_fighter_of_an_id(t, uid);
        assert(t[p] == e);
        let i = choose|i: int|
            0 <= i < t.len() && #[trigger] t[i] == first_with_uid(t, uid)->0 && t[i].uid == Some(uid)
                && forall|j: int| 0 <= j < i ==> (#[trigger] t[j]).uid != Some(uid);
        if i < p {
            assert(t[i] == s[i]);
        }
        if i > p {
            assert(t[p].uid != Some(uid));
        }
    }
}

/// A place names the fighter that stands there, and a fighter that is put there stands
/// there, while everyone else stays.
pub proof fn places_name_fighters(f: FightView, place: EntityLocation, e: EntityView)
    ensures
        at_location(f, place) is Some ==> stands_at(f, place, at_location(f, place)->0),
        at_location(f, place) is None ==> !stands_at(f, place, e),
        at_location(f, place) is Some ==> crate::laws::play::same_but(
            f,
            replaced_at(f, place, e),
            place,
            e,
        ),
{
}

proof fn located_last(
    m: Map<i64, EntityLocation>,
    s: Seq<EntityView>,
    is_attacker: bool,
    uid: i64,
)
    requires
        s.len() <= usize::MAX,
    ensures
        ({
            let after = located(m, s, is_attacker);
            let here = exists|i: int| 0 <= i < s.len() && (#[trigger] s[i]).uid == Some(uid);
            &&& !here ==> after.contains_key(uid) == m.contains_key(uid) && after[uid] == m[uid]
            &&& here ==> after.contains_key(uid) && after[uid].is_attacker == is_attacker
                && after[uid].index < s.len() && s[after[uid].index as int].uid == Some(uid)
                && forall|j: int|
                after[uid].index < j < s.len() ==> (#[trigger] s[j]).uid != Some(uid)
        }),
    decreases s.len(),
{
    if s.len() > 0 {
        let n = s.len() - 1;
        let less = s.drop_last();
        located_last(m, less, is_attacker, uid);
        assert forall|i: int| 0 <= i < n implies less[i] == #[trigger] s[i] by {}
        assert(s[n] == s.last());
        if exists|i: int| 0 <= i < less.len() && (#[trigger] less[i]).uid == Some(uid) {
            let i = choose|i: int| 0 <= i < less.len() && (#[trigger] less[i]).uid == Some(uid);
            assert(s[i].uid == Some(uid));
        }
        if exists|i: int| 0 <= i < s.len() && (#[trigger] s[i]).uid == Some(uid) {
            let i = choose|i: int| 0 <= i < s.len() && (#[trigger] s[i]).uid == Some(uid);
            if i < n {
                assert(less[i].uid == Some(uid));
            }
        }
    }
}

/// Everyone on the field who has an id is found at the place where it stands: among the
/// defenders if it is one of them, else among the attackers. Nobody else is found.
pub proof fn everyone_is_found_at_its_place(f: FightView, uid: i64)
    requires
        f.attacker is Some ==> f.attacker->0.entitys.len() <= usize::MAX,
        f.defender is Some ==> f.defender->0.entitys.len() <= usize::MAX,
    ensures
        ({
            let a = f.attacker is Some && exists|i: int|
                0 <= i < f.attacker->0.entitys.len() && (#[trigger] f.attacker->0.entitys[i]).uid
                    == Some(uid);
            let d = f.defender is Some && exists|i: int|
                0 <= i < f.defender->0.entitys.len() && (#[trigger] f.defender->0.entitys[i]).uid
                    == Some(uid);
            let m = locations(f);
            &&& m.contains_key(uid) <==> a || d
            &&& d ==> !m[uid].is_attacker && m[uid].index < f.defender->0.entitys.len()
                && f.defender->0.entitys[m[uid].index as int].uid == Some(uid)
            &&& a && !d ==> m[uid].is_attacker && m[uid].index < f.attacker->0.entitys.len()
                && f.attacker->0.entitys[m[uid].index as int].uid == Some(uid)
        }),
{
    let a = on_field(f.attacker);
    let d = on_field(f.defender);
    located_last(Map::empty(), a, true, uid);
    located_last(located(Map::empty(), a, true), d, false, uid);
}

/// Whoever is followed starts with its points, its life and its maximum, one action, the
/// maximum of its gauge and the points that its template asks for; nobody else changes.
pub proof fn how_a_fighter_is_followed(
    m: EntityMgrView,
    e: EntityView,
    templates: Seq<MonsterSkillTemplateRow>,
)
    ensures
        ({
            let n = enrolled_one(m, e, templates);
            let uid = e.uid->0;
            let row = if e.model_id is Some {
                row_at(templates, e.model_id->0)
            } else {
                None
            };
            &&& e.uid is None ==> n == m
            &&& e.uid is Some ==> {
                &&& ledger_but(m.ex_points, n.ex_points, uid, or_zero(e.ex_point) as int)
                &&& ledger_but(
                    m.ex_max,
                    n.ex_max,
                    uid,
                    if e.ex_point_type == Some(1i32) {
                        8
                    } else {
                        5
                    },
                )
                &&& ledger_but(
                    m.ex_point_required,
                    n.ex_point_required,
                    uid,
                    if row is Some {
                        row->0.unique_skill_point as int
                    } else {
                        0
                    },
                )
                &&& ledger_but(m.current_hp, n.current_hp, uid, or_zero(e.current_hp) as int)
                &&& ledger_but(
                    m.max_hp,
                    n.max_hp,
                    uid,
                    if e.attr is Some && e.attr->0.hp is Some {
                        e.attr->0.hp->0 as int
                    } else {
                        or_zero(e.current_hp) as int
                    },
                )
                &&& ledger_but(m.action_points, n.action_points, uid, 1)
                &&& n.entity_cache == m.entity_cache
                &&& n.recent_decr_ex_point == m.recent_decr_ex_point
                &&& n.attr_bonus == m.attr_bonus
            }
        }),
{
}

/// Fighters are followed, taken over and looked up one after the other.
pub proof fn fighters_one_after_the_other(
    m: EntityMgrView,
    s: Seq<EntityView>,
    e: EntityView,
    templates: Seq<MonsterSkillTemplateRow>,
    required: Map<i64, i32>,
)
    ensures
        enrolled(m, s.push(e), templates) == enrolled_one(enrolled(m, s, templates), e, templates),
        enrolled(m, Seq::empty(), templates) == m,
        taken(m, s.push(e)) == taken_one(taken(m, s), e),
        taken(m, Seq::empty()) == m,
        e.uid is None ==> required_set(required, s.push(e), templates) == required_set(
            required,
            s,
            templates,
        ),
        e.uid is Some ==> required_set(required, s.push(e), templates) == required_set(
            required,
            s,
            templates,
        ).insert(e.uid->0, required_points(e, templates)),
        required_set(required, Seq::empty(), templates) == required,
        e.model_id is None ==> required_points(e, templates) == 0,
        e.model_id is Some && row_at(templates, e.model_id->0) is Some ==> required_points(
            e,
            templates,
        ) == row_at(templates, e.model_id->0)->0.unique_skill_point,
        e.model_id is Some && row_at(templates, e.model_id->0) is None ==> required_points(
            e,
            templates,
        ) == 0,
{
    assert(s.push(e).drop_last() =~= s);
}

/// What is taken over of a fighter: its points, its life and, if it is known, its maximum,
/// none of them below zero.
pub proof fn what_is_taken_over(m: EntityMgrView, e: EntityView)
    ensures
        ({
            let n = taken_one(m, e);
            let uid = e.uid->0;
            let floor = |x: i32|
                if x > 0 {
                    x as int
                } else {
                    0
                };
            &&& e.uid is None ==> n == m
            &&& e.uid is Some ==> {
                &&& ledger_but(m.ex_points, n.ex_points, uid, floor(or_zero(e.ex_point)))
                &&& ledger_but(m.current_hp, n.current_hp, uid, floor(or_zero(e.current_hp)))
                &&& e.attr is Some && e.attr->0.hp is Some ==> ledger_but(
                    m.max_hp,
                    n.max_hp,
                    uid,
                    floor(e.attr->0.hp->0),
                )
                &&& e.attr is None || e.attr->0.hp is None ==> n.max_hp == m.max_hp
                &&& n == (EntityMgrView {
                    ex_points: n.ex_points,
                    current_hp: n.current_hp,
                    max_hp: n.max_hp,
                    ..m
                })
            }
        }),
{
}

/// What a fighter is shown with: its tracked points and life, and its tracked maximum if
/// that is known. Everything else of it stays, and so does a fighter without an id.
pub proof fn what_a_fighter_is_shown_with(e: EntityView, m: EntityMgrView)
    ensures
        ({
            let t = synced(e, m);
            let uid = e.uid->0;
            let max = entry(m.max_hp, uid);
            &&& e.uid is None ==> t == e
            &&& e.uid is Some ==> {
                &&& t.ex_point == Some(entry(m.ex_points, uid))
                &&& t.current_hp == Some(entry(m.current_hp, uid))
                &&& max <= 0 ==> t.attr == e.attr && t.base_attr == e.base_attr
                &&& max > 0 && e.attr is Some ==> t.attr is Some && t.attr->0.hp == Some(max)
                    && t.attr->0.attack == e.attr->0.attack && t.attr->0.defense
                    == e.attr->0.defense
                &&& max > 0 && e.base_attr is Some ==> t.base_attr is Some && t.base_attr->0.hp
                    == Some(max) && t.base_attr->0.attack == e.base_attr->0.attack
                    && t.base_attr->0.defense == e.base_attr->0.defense
                &&& e.attr is None ==> t.attr is None
                &&& e.base_attr is None ==> t.base_attr is None
                &&& t == (EntityView {
                    ex_point: t.ex_point,
                    current_hp: t.current_hp,
                    attr: t.attr,
                    base_attr: t.base_attr,
                    ..e
                })
            }
        }),
{
}

/// Everyone of a team is shown so, on the field and in reserve, in its place.
pub proof fn everyone_is_shown(t: Option<TeamView>, m: EntityMgrView, s: Seq<EntityView>)
    ensures
        t is None ==> synced_team(t, m) is None,
        t is Some ==> synced_team(t, m) is Some && synced_team(t, m)->0.entitys == synced_list(
            t->0.entitys,
            m,
        ) && synced_team(t, m)->0.sub_entitys == synced_list(t->0.sub_entitys, m) && synced_team(
            t,
            m,
        )->0.power == t->0.power,
        synced_list(s, m).len() == s.len(),
        forall|i: int| 0 <= i < s.len() ==> #[trigger] synced_list(s, m)[i] == synced(s[i], m),
{
}

/// The report of a fighter: its id, its powers, its tracked points and life, and the kind
/// of its gauge, which four models have of their own.
pub proof fn how_a_fighter_is_reported(e: EntityView, m: EntityMgrView)
    ensures
        ({
            let r = ex_point_info(e, m);
            &&& r.uid == e.uid
            &&& r.power_infos == e.power_infos
            &&& r.ex_point == Some(entry(m.ex_points, or_zero64(e.uid)))
            &&& r.current_hp == Some(entry(m.current_hp, or_zero64(e.uid)))
            &&& r.ex_point_type == Some(gauge_type(e))
        }),
        e.model_id == Some(3120i32) ==> gauge_type(e) == ExPointType::Belief,
        e.model_id == Some(3123i32) ==> gauge_type(e) == ExPointType::Synchronization,
        e.model_id == Some(3122i32) || e.model_id == Some(3124i32) ==> gauge_type(e)
            == ExPointType::Adrenaline,
        e.model_id != Some(3120i32) && e.model_id != Some(3122i32) && e.model_id != Some(3123i32)
            && e.model_id != Some(3124i32) ==> (if e.ex_point_type is Some {
            gauge_type(e) == ExPointType::Other(e.ex_point_type->0)
        } else {
            gauge_type(e) == ExPointType::Common
        }),
{
}

/// Everyone is reported, in its place.
pub proof fn everyone_is_reported(s: Seq<EntityView>, m: EntityMgrView)
    ensures
        ex_point_infos(s, m).len() == s.len(),
        forall|i: int|
            0 <= i < s.len() ==> #[trigger] ex_point_infos(s, m)[i] == ex_point_info(s[i], m),
{
}

proof fn fighters_with_a_position_join(
    a: Seq<EntityView>,
    b: Seq<EntityView>,
)
    ensures
        positioned(a + b) == positioned(a) + positioned(b),
    decreases b.len(),
{
    if b.len() == 0 {
        assert(a + b =~= a);
        assert(positioned(a) + positioned(b) =~= positioned(a));
    } else {
        fighters_with_a_position_join(a, b.drop_last());
        assert((a + b).drop_last() =~= a + b.drop_last());
        assert((a + b).last() == b.last());
        assert(positioned(a + b) =~= positioned(a) + positioned(b));
    }
}

/// The fighters with a position are those with an id whose position is above zero, in
/// their order.
pub proof fn fighters_with_a_position(
    a: Seq<EntityView>,
    b: Seq<EntityView>,
    x: EntityView,
)
    ensures
        positioned(a + b) == positioned(a) + positioned(b),
        positioned(Seq::<EntityView>::empty()).len() == 0,
        positioned(seq![x]) == (if x.uid is Some && x.position is Some && x.position->0 > 0 {
            seq![x.uid->0]
        } else {
            Seq::empty()
        }),
{
    fighters_with_a_position_join(a, b);
    let one = seq![x];
    assert(one.drop_last() =~= Seq::<EntityView>::empty());
    assert(one.last() == x);
    assert(positioned(one.drop_last()).len() == 0);
    assert(positioned(seq![x]) =~= (if x.uid is Some && x.position is Some && x.position->0 > 0 {
            seq![x.uid->0]
        } else {
            Seq::empty()
        }));
}

proof fn fighters_of_a_team_join(
    team_type: i32,
    a: Seq<EntityView>,
    b: Seq<EntityView>,
)
    ensures
        of_team(a + b, team_type) == of_team(a, team_type) + of_team(b, team_type),
    decreases b.len(),
{
    if b.len() == 0 {
        assert(a + b =~= a);
        assert(of_team(a, team_type) + of_team(b, team_type) =~= of_team(a, team_type));
    } else {
        fighters_of_a_team_join(team_type, a, b.drop_last());
        assert((a + b).drop_last() =~= a + b.drop_last());
        assert((a + b).last() == b.last());
        assert(of_team(a + b, team_type) =~= of_team(a, team_type) + of_team(b, team_type));
    }
}

/// The fighters of a team are those of its type, in their order.
pub proof fn fighters_of_a_team(
    team_type: i32,
    a: Seq<EntityView>,
    b: Seq<EntityView>,
    x: EntityView,
)
    ensures
        of_team(a + b, team_type) == of_team(a, team_type) + of_team(b, team_type),
        of_team(Seq::<EntityView>::empty(), team_type).len() == 0,
        of_team(seq![x], team_type) == (if x.team_type == Some(team_type) {
            seq![x]
        } else {
            Seq::empty()
        }),
{
    fighters_of_a_team_join(team_type, a, b);
    let one = seq![x];
    assert(one.drop_last() =~= Seq::<EntityView>::empty());
    assert(one.last() == x);
    assert(of_team(one.drop_last(), team_type).len() == 0);
    assert(of_team(seq![x], team_type) =~= (if x.team_type == Some(team_type) {
            seq![x]
        } else {
            Seq::empty()
        }));
}

/// The actions of a side are the sum of the actions of everyone on its field.
pub proof fn actions_add_up(
    a: Seq<EntityView>,
    b: Seq<EntityView>,
    x: EntityView,
    points: Map<i64, i32>,
)
    ensures
        ap_sum(a + b, points) == ap_sum(a, points) + ap_sum(b, points),
        ap_sum(Seq::empty(), points) == 0,
        x.uid is Some ==> ap_sum(seq![x], points) == entry(points, x.uid->0),
        x.uid is None ==> ap_sum(seq![x], points) == 0,
    decreases b.len(),
{
    assert(seq![x].drop_last() =~= Seq::<EntityView>::empty());
    assert(ap_sum(seq![x].drop_last(), points) == 0);
    assert(seq![x].last() == x);
    if b.len() == 0 {
        assert(a + b =~= a);
    } else {
        actions_add_up(a, b.drop_last(), x, points);
        assert((a + b).drop_last() =~= a + b.drop_last());
    }
}

/// Who is alive on a side: whoever stands there with tracked life above zero.
pub proof fn who_is_alive_on_a_side(m: EntityMgrView, is_attacker: bool, uid: i64)
    ensures
        alive_on_side(m, is_attacker).contains(uid) <==> m.entity_cache.contains_key(uid)
            && m.entity_cache[uid].is_attacker == is_attacker && m.current_hp.contains_key(uid)
            && m.current_hp[uid] > 0,
{
}

/// Somebody on the field has fallen: it has an id and a position but no life.
pub open spec fn has_fallen(e: EntityView) -> bool {
    e.uid is Some && or_zero(e.current_hp) <= 0 && e.position is Some && e.position->0 > 0
}

/// The fallen whose place is taken is the first on the field.
pub proof fn the_first_who_fell(s: Seq<EntityView>)
    ensures
        fallen(s) is None <==> forall|i: int| 0 <= i < s.len() ==> !has_fallen(#[trigger] s[i]),
        fallen(s) matches Some((slot, uid, position)) ==> slot < s.len() && has_fallen(
            s[slot as int],
        ) && s[slot as int].uid == Some(uid) && s[slot as int].position == Some(position)
            && forall|j: int| 0 <= j < slot ==> !has_fallen(#[trigger] s[j]),
    decreases s.len(),
{
    if s.len() > 0 {
        let rest = s.skip(1);
        the_first_who_fell(rest);
        assert forall|i: int| 0 < i < s.len() implies rest[i - 1] == #[trigger] s[i] by {}
        assert forall|i: int| 0 <= i < rest.len() implies rest[i] == #[trigger] s[i + 1] by {}
        if !has_fallen(s[0]) && fallen(rest) is None {
            assert forall|i: int| 0 <= i < s.len() implies !has_fallen(#[trigger] s[i]) by {
                if i > 0 {
                    assert(rest[i - 1] == s[i]);
                }
            }
        }
    }
}

/// The first in reserve takes the place of the fallen, at its position; the rest of the
/// reserve moves up and everyone else stays.
pub proof fn the_reserve_moves_up(t: TeamView)
    requires
        fallen(t.entitys) is Some,
        t.sub_entitys.len() > 0,
    ensures
        ({
            let u = crate::manager::entity_mgr::substituted(t);
            fallen(t.entitys) matches Some((slot, _, position)) && {
                &&& u.entitys.len() == t.entitys.len()
                &&& u.entitys[slot as int] == (EntityView {
                    position: Some(position),
                    ..t.sub_entitys[0]
                })
                &&& forall|i: int|
                    0 <= i < t.entitys.len() && i != slot ==> u.entitys[i] == #[trigger] t.entitys[i]
                &&& u.sub_entitys.len() == t.sub_entitys.len() - 1
                &&& forall|i: int|
                    0 <= i < u.sub_entitys.len() ==> #[trigger] u.sub_entitys[i]
                        == t.sub_entitys[i + 1]
                &&& u.power == t.power
            }
        }),
{
    the_first_who_fell(t.entitys);
}

proof fn zeros_are_no_bonuses_join(
    a: Seq<i32>,
    b: Seq<i32>,
)
    ensures
        nonzero(a + b) == nonzero(a) + nonzero(b),
    decreases b.len(),
{
    if b.len() == 0 {
        assert(a + b =~= a);
        assert(nonzero(a) + nonzero(b) =~= nonzero(a));
    } else {
        zeros_are_no_bonuses_join(a, b.drop_last());
        assert((a + b).drop_last() =~= a + b.drop_last());
        assert((a + b).last() == b.last());
        assert(nonzero(a + b) =~= nonzero(a) + nonzero(b));
    }
}

/// The bonuses that count are those that are not zero, in their order.
pub proof fn zeros_are_no_bonuses(
    a: Seq<i32>,
    b: Seq<i32>,
    x: i32,
)
    ensures
        nonzero(a + b) == nonzero(a) + nonzero(b),
        nonzero(Seq::<i32>::empty()).len() == 0,
        nonzero(seq![x]) == (if x != 0 {
            seq![x]
        } else {
            Seq::empty()
        }),
{
    zeros_are_no_bonuses_join(a, b);
    let one = seq![x];
    assert(one.drop_last() =~= Seq::<i32>::empty());
    assert(one.last() == x);
    assert(nonzero(one.drop_last()).len() == 0);
    assert(nonzero(seq![x]) =~= (if x != 0 {
            seq![x]
        } else {
            Seq::empty()
        }));
}

/// Bonuses that are merged come behind those that were there, key by key; a bonus of zero
/// is left out.
pub proof fn bonuses_are_merged(
    m: Map<(i64, i32), Seq<i32>>,
    more: Map<(i64, i32), Seq<i32>>,
    key: (i64, i32),
)
    ensures
        merged(m, more).contains_key(key) <==> m.contains_key(key) || more.contains_key(key),
        m.contains_key(key) && more.contains_key(key) ==> merged(m, more)[key] == m[key] + nonzero(
            more[key],
        ),
        m.contains_key(key) && !more.contains_key(key) ==> merged(m, more)[key] == m[key],
        !m.contains_key(key) && more.contains_key(key) ==> merged(m, more)[key] == nonzero(
            more[key],
        ),
        bonus_values(m, key) == (if m.contains_key(key) {
            m[key]
        } else {
            Seq::empty()
        }),
{
    if m.contains_key(key) && !more.contains_key(key) {
        assert(nonzero(Seq::empty()) =~= Seq::<i32>::empty());
        assert(m[key] + Seq::<i32>::empty() =~= m[key]);
    }
    if !m.contains_key(key) && more.contains_key(key) {
        assert(Seq::<i32>::empty() + nonzero(more[key]) =~= nonzero(more[key]));
    }
}

/// Removing a bonus takes away one occurrence of its value and keeps all the others; a
/// value that is not there leaves the list as it is.
pub proof fn one_bonus_is_removed(s: Seq<i32>, amount: i32)
    ensures
        !s.contains(amount) ==> without_value(s, amount) == s,
        s.contains(amount) ==> without_value(s, amount).to_multiset() == s.to_multiset().remove(
            amount,
        ) && without_value(s, amount).len() == s.len() - 1,
{
    crate::manager::attr_bonus::first_value_bound(s, amount);
    if s.contains(amount) {
        let i = first_value(s, amount)->0 as int;
        broadcast use vstd::seq_lib::group_to_multiset_ensures;

        let last = s.last();
        let rest = s.drop_last();
        assert(s =~= rest.push(last));
        assert(s.to_multiset() =~= rest.to_multiset().insert(last));
        if i < s.len() - 1 {
            let out = without_value(s, amount);
            assert(out =~= rest.update(i, last));
            let a = rest.take(i);
            let b = rest.skip(i + 1);
            assert(rest =~= a.push(amount) + b);
            assert(out =~= a.push(last) + b);
            vstd::seq_lib::lemma_multiset_commutative(a.push(amount), b);
            vstd::seq_lib::lemma_multiset_commutative(a.push(last), b);
            assert(rest.to_multiset() =~= a.to_multiset().insert(amount).add(b.to_multiset()));
            assert(out.to_multiset() =~= a.to_multiset().insert(last).add(b.to_multiset()));
            assert(out.to_multiset() =~= s.to_multiset().remove(amount));
        } else {
            assert(without_value(s, amount) =~= rest);
            assert(rest.to_multiset() =~= s.to_multiset().remove(amount));
        }
    }
}

/// A sum of bonuses adds one after the other and stays within the range of numbers.
pub proof fn bonuses_add_up(s: Seq<i32>, x: i32)
    ensures
        ({
            let sum = saturated_sum(s) + x;
            let after = saturated_sum(s.push(x));
            &&& fits(sum) ==> after == sum
            &&& sum > i32::MAX ==> after == i32::MAX
            &&& sum < i32::MIN ==> after == i32::MIN
        }),
        saturated_sum(Seq::empty()) == 0,
{
    assert(s.push(x).drop_last() =~= s);
}

} // verus!
