//! Finding fighters in a battle.

use crate::model::{
    entities_view, EntityView, Fight, FightEntityInfo, FightTeam, FightView, TeamView,
};
use vstd::prelude::*;

verus! {

/// The members of a team: those on the field, then those in reserve.
pub open spec fn members(t: Option<TeamView>) -> Seq<EntityView> {
    match t {
        Some(t) => t.entitys + t.sub_entitys,
        None => Seq::empty(),
    }
}

/// Everyone in a battle: attackers before defenders, the field before the reserve.
pub open spec fn everyone(f: FightView) -> Seq<EntityView> {
    members(f.attacker) + members(f.defender)
}

/// The first fighter of a list with an id.
pub open spec fn first_with_uid(s: Seq<EntityView>, uid: i64) -> Option<EntityView>
    decreases s.len(),
{
    if s.len() == 0 {
        None
    } else if s[0].uid == Some(uid) {
        Some(s[0])
    } else {
        first_with_uid(s.skip(1), uid)
    }
}

/// The fighter with an id.
pub open spec fn entity_of(f: FightView, uid: i64) -> Option<EntityView> {
    first_with_uid(everyone(f), uid)
}

/// A fighter found in the first of two lists is found in both together; otherwise
/// the second list decides.
pub proof fn first_with_uid_join(a: Seq<EntityView>, b: Seq<EntityView>, uid: i64)
    ensures
        first_with_uid(a + b, uid) == match first_with_uid(a, uid) {
            Some(e) => Some(e),
            None => first_with_uid(b, uid),
        },
    decreases a.len(),
{
    if a.len() == 0 {
        assert(a + b =~= b);
    } else {
        first_with_uid_join(a.skip(1), b, uid);
        assert((a + b).skip(1) =~= a.skip(1) + b);
    }
}

/// Looks a fighter up in a list.
pub fn find_in<'a>(v: &'a Vec<FightEntityInfo>, uid: i64) -> (r: Option<&'a FightEntityInfo>)
    ensures
        match r {
            Some(e) => first_with_uid(entities_view(v@), uid) == Some(e@),
            None => first_with_uid(entities_view(v@), uid) is None,
        },
{
    let mut i: usize = 0;
    let ghost s = entities_view(v@);
    assert(s.skip(0) =~= s);
    while i < v.len()
        invariant
            i <= v.len(),
            s == entities_view(v@),
            first_with_uid(s.skip(i as int), uid) == first_with_uid(s, uid),
        decreases v.len() - i,
    {
        assert(s.skip(i as int)[0] == v@[i as int]@);
        if let Some(u) = v[i].uid {
            if u == uid {
                return Some(&v[i]);
            }
        }
        assert(s.skip(i as int).skip(1) =~= s.skip(i + 1));
        i += 1;
    }
    None
}

/// Looks a fighter up in a team.
pub fn find_in_team<'a>(t: &'a Option<FightTeam>, uid: i64) -> (r: Option<&'a FightEntityInfo>)
    ensures
        match r {
            Some(e) => first_with_uid(members(crate::model::team_view(*t)), uid) == Some(e@),
            None => first_with_uid(members(crate::model::team_view(*t)), uid) is None,
        },
{
    match t {
        Some(team) => {
            proof {
                first_with_uid_join(team@.entitys, team@.sub_entitys, uid);
            }
            match find_in(&team.entitys, uid) {
                Some(e) => Some(e),
                None => find_in(&team.sub_entitys, uid),
            }
        },
        None => None,
    }
}

/// Looks a fighter up in a battle.
pub fn find_entity<'a>(fight: &'a Fight, uid: i64) -> (r: Option<&'a FightEntityInfo>)
    ensures
        match r {
            Some(e) => entity_of(fight@, uid) == Some(e@),
            None => entity_of(fight@, uid) is None,
        },
{
    proof {
        first_with_uid_join(members(fight@.attacker), members(fight@.defender), uid);
    }
    match find_in_team(&fight.attacker, uid) {
        Some(e) => Some(e),
        None => find_in_team(&fight.defender, uid),
    }
}

/// Where a fighter is: which side, the field or the reserve, and which position.
#[derive(Clone, Copy, PartialEq, Eq, Structural, Debug)]
pub struct Place {
    pub is_attacker: bool,
    pub in_reserve: bool,
    pub index: usize,
}

/// The list that a place belongs to.
pub open spec fn list_at(f: FightView, is_attacker: bool, in_reserve: bool) -> Seq<EntityView> {
    let team = if is_attacker {
        f.attacker
    } else {
        f.defender
    };
    match team {
        Some(t) => if in_reserve {
            t.sub_entitys
        } else {
            t.entitys
        },
        None => Seq::empty(),
    }
}

/// A battle with another list at a place.
pub open spec fn with_list(
    f: FightView,
    is_attacker: bool,
    in_reserve: bool,
    list: Seq<EntityView>,
) -> FightView {
    if is_attacker {
        let t = f.attacker->0;
        FightView {
            attacker: Some(
                if in_reserve {
                    TeamView { sub_entitys: list, ..t }
                } else {
                    TeamView { entitys: list, ..t }
                },
            ),
            ..f
        }
    } else {
        let t = f.defender->0;
        FightView {
            defender: Some(
                if in_reserve {
                    TeamView { sub_entitys: list, ..t }
                } else {
                    TeamView { entitys: list, ..t }
                },
            ),
            ..f
        }
    }
}

/// The position of the first fighter of an id in a list.
pub open spec fn position_in(s: Seq<EntityView>, uid: i64) -> Option<nat>
    decreases s.len(),
{
    if s.len() == 0 {
        None
    } else if s[0].uid == Some(uid) {
        Some(0)
    } else {
        match position_in(s.skip(1), uid) {
            Some(i) => Some(i + 1),
            None => None,
        }
    }
}

/// A fighter found by position is the one found by id.
pub proof fn position_in_finds(s: Seq<EntityView>, uid: i64)
    ensures
        position_in(s, uid) is Some <==> first_with_uid(s, uid) is Some,
        position_in(s, uid) is Some ==> position_in(s, uid)->0 < s.len() && first_with_uid(s, uid)
            == Some(s[position_in(s, uid)->0 as int]),
    decreases s.len(),
{
    if s.len() > 0 && s[0].uid != Some(uid) {
        position_in_finds(s.skip(1), uid);
    }
}

/// The battle after the fighter of an id is replaced. Attackers are looked at
/// before defenders, the field before the reserve.
pub open spec fn replaced(f: FightView, uid: i64, e: EntityView) -> FightView {
    if position_in(list_at(f, true, false), uid) is Some {
        let s = list_at(f, true, false);
        with_list(f, true, false, s.update(position_in(s, uid)->0 as int, e))
    } else if position_in(list_at(f, true, true), uid) is Some {
        let s = list_at(f, true, true);
        with_list(f, true, true, s.update(position_in(s, uid)->0 as int, e))
    } else if position_in(list_at(f, false, false), uid) is Some {
        let s = list_at(f, false, false);
        with_list(f, false, false, s.update(position_in(s, uid)->0 as int, e))
    } else if position_in(list_at(f, false, true), uid) is Some {
        let s = list_at(f, false, true);
        with_list(f, false, true, s.update(position_in(s, uid)->0 as int, e))
    } else {
        f
    }
}

/// Finds the position of the first fighter of an id.
pub fn find_position(v: &Vec<FightEntityInfo>, uid: i64) -> (r: Option<usize>)
    ensures
        match r {
            Some(i) => position_in(entities_view(v@), uid) == Some(i as nat) && i < v@.len(),
            None => position_in(entities_view(v@), uid) is None,
        },
{
    let ghost s = entities_view(v@);
    assert(s.skip(0) =~= s);
    let mut i: usize = 0;
    while i < v.len()
        invariant
            i <= v.len(),
            s == entities_view(v@),
            position_in(s, uid) == match position_in(s.skip(i as int), uid) {
                Some(k) => Some((k + i) as nat),
                None => None,
            },
        decreases v.len() - i,
    {
        assert(s.skip(i as int)[0] == v@[i as int]@);
        assert(s.skip(i as int).skip(1) =~= s.skip(i + 1));
        if let Some(u) = v[i].uid {
            if u == uid {
                return Some(i);
            }
        }
        i += 1;
    }
    None
}

/// Where the fighter of an id is.
pub fn find_place(fight: &Fight, uid: i64) -> (r: Option<Place>)
    ensures
        match r {
            Some(p) => {
                let s = list_at(fight@, p.is_attacker, p.in_reserve);
                &&& p.index < s.len()
                &&& position_in(s, uid) == Some(p.index as nat)
                &&& entity_of(fight@, uid) == Some(s[p.index as int])
                &&& forall|e: EntityView| #[trigger]
                    replaced(fight@, uid, e) == with_list(
                        fight@,
                        p.is_attacker,
                        p.in_reserve,
                        s.update(p.index as int, e),
                    )
            },
            None => entity_of(fight@, uid) is None && forall|e: EntityView| #[trigger]
                replaced(fight@, uid, e) == fight@,
        },
{
    proof {
        first_with_uid_join(members(fight@.attacker), members(fight@.defender), uid);
        position_in_finds(list_at(fight@, true, false), uid);
        position_in_finds(list_at(fight@, true, true), uid);
        position_in_finds(list_at(fight@, false, false), uid);
        position_in_finds(list_at(fight@, false, true), uid);
        first_with_uid_join(list_at(fight@, true, false), list_at(fight@, true, true), uid);
        first_with_uid_join(list_at(fight@, false, false), list_at(fight@, false, true), uid);
        assert(members(fight@.attacker) =~= list_at(fight@, true, false) + list_at(
            fight@,
            true,
            true,
        ));
        assert(members(fight@.defender) =~= list_at(fight@, false, false) + list_at(
            fight@,
            false,
            true,
        ));
    }
    if let Some(t) = &fight.attacker {
        if let Some(i) = find_position(&t.entitys, uid) {
            return Some(Place { is_attacker: true, in_reserve: false, index: i });
        }
        if let Some(i) = find_position(&t.sub_entitys, uid) {
            return Some(Place { is_attacker: true, in_reserve: true, index: i });
        }
    }
    if let Some(t) = &fight.defender {
        if let Some(i) = find_position(&t.entitys, uid) {
            return Some(Place { is_attacker: false, in_reserve: false, index: i });
        }
        if let Some(i) = find_position(&t.sub_entitys, uid) {
            return Some(Place { is_attacker: false, in_reserve: true, index: i });
        }
    }
    None
}

/// A list with one fighter replaced shows the view with that fighter replaced.
pub broadcast proof fn entities_view_set(s: Seq<FightEntityInfo>, i: int, e: FightEntityInfo)
    requires
        0 <= i < s.len(),
    ensures
        #[trigger] entities_view(s.update(i, e)) == entities_view(s).update(i, e@),
{
    assert(entities_view(s.update(i, e)) =~= entities_view(s).update(i, e@));
}

/// Sets the ex points of the fighter at a place.
pub fn set_ex_point_at(fight: &mut Fight, p: Place, ex_point: i32)
    requires
        p.index < list_at(old(fight)@, p.is_attacker, p.in_reserve).len(),
    ensures
        ({
            let s = list_at(old(fight)@, p.is_attacker, p.in_reserve);
            final(fight)@ == with_list(
                old(fight)@,
                p.is_attacker,
                p.in_reserve,
                s.update(
                    p.index as int,
                    EntityView { ex_point: Some(ex_point), ..s[p.index as int] },
                ),
            )
        }),
{
    broadcast use entities_view_set;

    if p.is_attacker {
        if let Some(t) = &mut fight.attacker {
            if p.in_reserve {
                t.sub_entitys[p.index].ex_point = Some(ex_point);
            } else {
                t.entitys[p.index].ex_point = Some(ex_point);
            }
        }
    } else {
        if let Some(t) = &mut fight.defender {
            if p.in_reserve {
                t.sub_entitys[p.index].ex_point = Some(ex_point);
            } else {
                t.entitys[p.index].ex_point = Some(ex_point);
            }
        }
    }
}

} // verus!
