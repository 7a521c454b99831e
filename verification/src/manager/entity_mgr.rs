//! What is tracked of each fighter: life, ex points, action points and bonuses.

use crate::arith::{or_zero, or_zero64, sat_i32, saturating_sum, value, value64};
use crate::config::{find_row, row_at, MonsterSkillTemplateRow};
use crate::event::Event;
use crate::fight_step::builder::FightStepBuilder;
use crate::lookup::{everyone, members};
use crate::manager::attr_bonus::{bonus_values, merged, without_value, AttrBonusMap};
use crate::manager::traits::Manager;
use crate::model::copies::copy_powers;
use crate::model::{
    entities_view, EffectType, EffectView, EntityView, Fight, FightEntityInfo, FightStep, FightView,
    HeroAttribute, PowerInfo, StepView, TeamView,
};
use std::collections::{HashMap, HashSet};
use vstd::prelude::*;
use vstd::std_specs::iter::IteratorSpec;

verus! {

broadcast use vstd::std_specs::hash::group_hash_axioms;

/// Where a fighter stands: its side, and its place in the list of that side.
#[derive(Clone, Copy, PartialEq, Eq, Structural, Debug)]
pub struct EntityLocation {
    pub is_attacker: bool,
    pub index: usize,
}

/// The value of a fighter in a ledger; zero if it is not listed.
pub open spec fn entry(m: Map<i64, i32>, uid: i64) -> i32 {
    if m.contains_key(uid) {
        m[uid]
    } else {
        0
    }
}

/// The larger of a number and zero.
pub open spec fn at_least_zero(x: int) -> int {
    if x > 0 {
        x
    } else {
        0
    }
}

/// Reads the value of a fighter.
pub fn read_entry(m: &HashMap<i64, i32>, uid: i64) -> (r: i32)
    ensures
        r == entry(m@, uid),
{
    match m.get(&uid) {
        Some(v) => *v,
        None => 0,
    }
}

fn clamp_low(x: i32) -> (r: i32)
    ensures
        r == at_least_zero(x as int),
{
    if x > 0 {
        x
    } else {
        0
    }
}

/// The trackers of all fighters.
#[derive(Debug)]
pub struct EntityMgr {
    pub entity_cache: HashMap<i64, EntityLocation>,
    pub ex_points: HashMap<i64, i32>,
    pub ex_max: HashMap<i64, i32>,
    pub ex_point_required: HashMap<i64, i32>,
    pub current_hp: HashMap<i64, i32>,
    pub max_hp: HashMap<i64, i32>,
    pub recent_decr_ex_point: HashMap<i64, i32>,
    pub action_points: HashMap<i64, i32>,
    pub attr_bonus: AttrBonusMap,
}

/// The trackers as maps.
pub struct EntityMgrView {
    pub entity_cache: Map<i64, EntityLocation>,
    pub ex_points: Map<i64, i32>,
    pub ex_max: Map<i64, i32>,
    pub ex_point_required: Map<i64, i32>,
    pub current_hp: Map<i64, i32>,
    pub max_hp: Map<i64, i32>,
    pub recent_decr_ex_point: Map<i64, i32>,
    pub action_points: Map<i64, i32>,
    pub attr_bonus: Map<(i64, i32), Seq<i32>>,
}

impl View for EntityMgr {
    type V = EntityMgrView;

    open spec fn view(&self) -> EntityMgrView {
        EntityMgrView {
            entity_cache: self.entity_cache@,
            ex_points: self.ex_points@,
            ex_max: self.ex_max@,
            ex_point_required: self.ex_point_required@,
            current_hp: self.current_hp@,
            max_hp: self.max_hp@,
            recent_decr_ex_point: self.recent_decr_ex_point@,
            action_points: self.action_points@,
            attr_bonus: self.attr_bonus@,
        }
    }
}

impl EntityMgrView {
    /// Nobody tracked.
    pub open spec fn nobody() -> EntityMgrView {
        EntityMgrView {
            entity_cache: Map::empty(),
            ex_points: Map::empty(),
            ex_max: Map::empty(),
            ex_point_required: Map::empty(),
            current_hp: Map::empty(),
            max_hp: Map::empty(),
            recent_decr_ex_point: Map::empty(),
            action_points: Map::empty(),
            attr_bonus: Map::empty(),
        }
    }
}

/// Locations with those of a side's list added.
pub open spec fn located(
    m: Map<i64, EntityLocation>,
    s: Seq<EntityView>,
    is_attacker: bool,
) -> Map<i64, EntityLocation>
    decreases s.len(),
{
    if s.len() == 0 {
        m
    } else {
        let before = located(m, s.drop_last(), is_attacker);
        match s.last().uid {
            Some(uid) => before.insert(
                uid,
                EntityLocation { is_attacker, index: (s.len() - 1) as usize },
            ),
            None => before,
        }
    }
}

/// The fighters of a side that are on the field.
pub open spec fn on_field(t: Option<TeamView>) -> Seq<EntityView> {
    match t {
        Some(t) => t.entitys,
        None => Seq::empty(),
    }
}

/// One side of a battle.
pub open spec fn side_team(f: FightView, is_attacker: bool) -> Option<TeamView> {
    if is_attacker {
        f.attacker
    } else {
        f.defender
    }
}

/// Where everyone on the field stands.
pub open spec fn locations(f: FightView) -> Map<i64, EntityLocation> {
    located(located(Map::empty(), on_field(f.attacker), true), on_field(f.defender), false)
}

/// The points that the unique skill of a fighter asks for.
pub open spec fn required_points(e: EntityView, templates: Seq<MonsterSkillTemplateRow>) -> i32 {
    match e.model_id {
        Some(id) => match row_at(templates, id) {
            Some(t) => t.unique_skill_point,
            None => 0,
        },
        None => 0,
    }
}

/// The life maximum of a fighter: of its attributes, else its life.
pub open spec fn full_hp(e: EntityView) -> i32 {
    match e.attr {
        Some(a) => match a.hp {
            Some(hp) => hp,
            None => or_zero(e.current_hp),
        },
        None => or_zero(e.current_hp),
    }
}

/// The trackers after one fighter enters them.
pub open spec fn enrolled_one(
    m: EntityMgrView,
    e: EntityView,
    templates: Seq<MonsterSkillTemplateRow>,
) -> EntityMgrView {
    match e.uid {
        Some(uid) => EntityMgrView {
            ex_points: m.ex_points.insert(uid, or_zero(e.ex_point)),
            ex_max: m.ex_max.insert(
                uid,
                if e.ex_point_type == Some(1i32) {
                    8
                } else {
                    5
                },
            ),
            ex_point_required: m.ex_point_required.insert(uid, required_points(e, templates)),
            current_hp: m.current_hp.insert(uid, or_zero(e.current_hp)),
            max_hp: m.max_hp.insert(uid, full_hp(e)),
            action_points: m.action_points.insert(uid, 1),
            ..m
        },
        None => m,
    }
}

/// The trackers after some fighters enter them, one after the other.
pub open spec fn enrolled(
    m: EntityMgrView,
    s: Seq<EntityView>,
    templates: Seq<MonsterSkillTemplateRow>,
) -> EntityMgrView
    decreases s.len(),
{
    if s.len() == 0 {
        m
    } else {
        enrolled_one(enrolled(m, s.drop_last(), templates), s.last(), templates)
    }
}

/// Two lists enter one after the other.
pub proof fn enrolled_join(
    m: EntityMgrView,
    a: Seq<EntityView>,
    b: Seq<EntityView>,
    templates: Seq<MonsterSkillTemplateRow>,
)
    ensures
        enrolled(m, a + b, templates) == enrolled(enrolled(m, a, templates), b, templates),
    decreases b.len(),
{
    if b.len() == 0 {
        assert(a + b =~= a);
    } else {
        enrolled_join(m, a, b.drop_last(), templates);
        assert((a + b).drop_last() =~= a + b.drop_last());
        assert((a + b).last() == b.last());
    }
}

/// What two trackers hold of one fighter is the same.
pub open spec fn same_entries(a: EntityMgrView, b: EntityMgrView, uid: i64) -> bool {
    &&& a.ex_points.contains_key(uid) == b.ex_points.contains_key(uid)
    &&& a.ex_points[uid] == b.ex_points[uid]
    &&& a.ex_max.contains_key(uid) == b.ex_max.contains_key(uid)
    &&& a.ex_max[uid] == b.ex_max[uid]
    &&& a.ex_point_required.contains_key(uid) == b.ex_point_required.contains_key(uid)
    &&& a.ex_point_required[uid] == b.ex_point_required[uid]
    &&& a.current_hp.contains_key(uid) == b.current_hp.contains_key(uid)
    &&& a.current_hp[uid] == b.current_hp[uid]
    &&& a.max_hp.contains_key(uid) == b.max_hp.contains_key(uid)
    &&& a.max_hp[uid] == b.max_hp[uid]
    &&& a.action_points.contains_key(uid) == b.action_points.contains_key(uid)
    &&& a.action_points[uid] == b.action_points[uid]
}

/// What is tracked of a fighter after some fighters enter comes from them if it is
/// one of them, and from before otherwise.
proof fn enrolled_entries(
    m: EntityMgrView,
    n: EntityMgrView,
    s: Seq<EntityView>,
    templates: Seq<MonsterSkillTemplateRow>,
    uid: i64,
)
    ensures
        same_entries(enrolled(m, s, templates), enrolled(n, s, templates), uid) || (same_entries(
            enrolled(m, s, templates),
            m,
            uid,
        ) && same_entries(enrolled(n, s, templates), n, uid)),
    decreases s.len(),
{
    if s.len() > 0 {
        enrolled_entries(m, n, s.drop_last(), templates, uid);
    }
}

proof fn enrolled_untouched(
    m: EntityMgrView,
    s: Seq<EntityView>,
    templates: Seq<MonsterSkillTemplateRow>,
)
    ensures
        enrolled(m, s, templates).entity_cache == m.entity_cache,
        enrolled(m, s, templates).recent_decr_ex_point == m.recent_decr_ex_point,
        enrolled(m, s, templates).attr_bonus == m.attr_bonus,
    decreases s.len(),
{
    if s.len() > 0 {
        enrolled_untouched(m, s.drop_last(), templates);
    }
}

/// To track the same fighters twice is to track them once.
pub proof fn enrolled_twice(
    m: EntityMgrView,
    s: Seq<EntityView>,
    templates: Seq<MonsterSkillTemplateRow>,
)
    ensures
        enrolled(enrolled(m, s, templates), s, templates) == enrolled(m, s, templates),
{
    let once = enrolled(m, s, templates);
    let twice = enrolled(once, s, templates);
    enrolled_untouched(m, s, templates);
    enrolled_untouched(once, s, templates);
    assert forall|uid: i64| same_entries(once, twice, uid) by {
        enrolled_entries(m, once, s, templates, uid);
    }
    assert(forall|uid: i64| #[trigger] same_entries(once, twice, uid));
    assert forall|uid: i64|
        {
            &&& #[trigger] once.ex_points.contains_key(uid) == twice.ex_points.contains_key(uid)
            &&& once.ex_points[uid] == twice.ex_points[uid]
        } by {
        assert(same_entries(once, twice, uid));
    }
    assert forall|uid: i64|
        {
            &&& #[trigger] once.ex_max.contains_key(uid) == twice.ex_max.contains_key(uid)
            &&& once.ex_max[uid] == twice.ex_max[uid]
        } by {
        assert(same_entries(once, twice, uid));
    }
    assert forall|uid: i64|
        {
            &&& #[trigger] once.ex_point_required.contains_key(uid)
                == twice.ex_point_required.contains_key(uid)
            &&& once.ex_point_required[uid] == twice.ex_point_required[uid]
        } by {
        assert(same_entries(once, twice, uid));
    }
    assert forall|uid: i64|
        {
            &&& #[trigger] once.current_hp.contains_key(uid) == twice.current_hp.contains_key(uid)
            &&& once.current_hp[uid] == twice.current_hp[uid]
        } by {
        assert(same_entries(once, twice, uid));
    }
    assert forall|uid: i64|
        {
            &&& #[trigger] once.max_hp.contains_key(uid) == twice.max_hp.contains_key(uid)
            &&& once.max_hp[uid] == twice.max_hp[uid]
        } by {
        assert(same_entries(once, twice, uid));
    }
    assert forall|uid: i64|
        {
            &&& #[trigger] once.action_points.contains_key(uid)
                == twice.action_points.contains_key(uid)
            &&& once.action_points[uid] == twice.action_points[uid]
        } by {
        assert(same_entries(once, twice, uid));
    }
    assert(once.ex_points =~= twice.ex_points);
    assert(once.ex_max =~= twice.ex_max);
    assert(once.ex_point_required =~= twice.ex_point_required);
    assert(once.current_hp =~= twice.current_hp);
    assert(once.max_hp =~= twice.max_hp);
    assert(once.action_points =~= twice.action_points);
}

/// Entering the trackers moves nobody.
pub proof fn enrolled_keeps_places(
    m: EntityMgrView,
    s: Seq<EntityView>,
    templates: Seq<MonsterSkillTemplateRow>,
)
    ensures
        enrolled(m, s, templates).entity_cache == m.entity_cache,
    decreases s.len(),
{
    if s.len() > 0 {
        enrolled_keeps_places(m, s.drop_last(), templates);
    }
}

/// The trackers after the life and ex points of one fighter are taken over.
pub open spec fn taken_one(m: EntityMgrView, e: EntityView) -> EntityMgrView {
    match e.uid {
        Some(uid) => EntityMgrView {
            ex_points: m.ex_points.insert(uid, at_least_zero(or_zero(e.ex_point) as int) as i32),
            current_hp: m.current_hp.insert(
                uid,
                at_least_zero(or_zero(e.current_hp) as int) as i32,
            ),
            max_hp: if e.attr is Some && e.attr->0.hp is Some {
                m.max_hp.insert(uid, at_least_zero(e.attr->0.hp->0 as int) as i32)
            } else {
                m.max_hp
            },
            ..m
        },
        None => m,
    }
}

/// The trackers after some fighters are taken over, one after the other.
pub open spec fn taken(m: EntityMgrView, s: Seq<EntityView>) -> EntityMgrView
    decreases s.len(),
{
    if s.len() == 0 {
        m
    } else {
        taken_one(taken(m, s.drop_last()), s.last())
    }
}

/// Two lists are taken over one after the other.
pub proof fn taken_join(m: EntityMgrView, a: Seq<EntityView>, b: Seq<EntityView>)
    ensures
        taken(m, a + b) == taken(taken(m, a), b),
    decreases b.len(),
{
    if b.len() == 0 {
        assert(a + b =~= a);
    } else {
        taken_join(m, a, b.drop_last());
        assert((a + b).drop_last() =~= a + b.drop_last());
        assert((a + b).last() == b.last());
    }
}

/// The required points after those of some fighters are set.
pub open spec fn required_set(
    m: Map<i64, i32>,
    s: Seq<EntityView>,
    templates: Seq<MonsterSkillTemplateRow>,
) -> Map<i64, i32>
    decreases s.len(),
{
    if s.len() == 0 {
        m
    } else {
        let before = required_set(m, s.drop_last(), templates);
        match s.last().uid {
            Some(uid) => before.insert(uid, required_points(s.last(), templates)),
            None => before,
        }
    }
}

/// Two lists are set one after the other.
pub proof fn required_set_join(
    m: Map<i64, i32>,
    a: Seq<EntityView>,
    b: Seq<EntityView>,
    templates: Seq<MonsterSkillTemplateRow>,
)
    ensures
        required_set(m, a + b, templates) == required_set(
            required_set(m, a, templates),
            b,
            templates,
        ),
    decreases b.len(),
{
    if b.len() == 0 {
        assert(a + b =~= a);
    } else {
        required_set_join(m, a, b.drop_last(), templates);
        assert((a + b).drop_last() =~= a + b.drop_last());
        assert((a + b).last() == b.last());
    }
}

/// The ids of the fighters that have a position.
pub open spec fn positioned(s: Seq<EntityView>) -> Seq<i64>
    decreases s.len(),
{
    if s.len() == 0 {
        Seq::empty()
    } else {
        let before = positioned(s.drop_last());
        if s.last().uid is Some && s.last().position is Some && s.last().position->0 > 0 {
            before.push(s.last().uid->0)
        } else {
            before
        }
    }
}

/// Those of two lists are those of the first, then the second.
pub proof fn positioned_join(a: Seq<EntityView>, b: Seq<EntityView>)
    ensures
        positioned(a + b) == positioned(a) + positioned(b),
    decreases b.len(),
{
    if b.len() == 0 {
        assert(a + b =~= a);
    } else {
        positioned_join(a, b.drop_last());
        assert((a + b).drop_last() =~= a + b.drop_last());
    }
    assert(positioned(a + b) =~= positioned(a) + positioned(b));
}

fn push_positioned(out: &mut Vec<i64>, team: &Vec<FightEntityInfo>)
    ensures
        final(out)@ == old(out)@ + positioned(entities_view(team@)),
{
    let ghost start = out@;
    let ghost s = entities_view(team@);
    assert(start + positioned(s.take(0)) =~= start);
    for i in 0..team.len()
        invariant
            s == entities_view(team@),
            out@ == start + positioned(s.take(i as int)),
    {
        assert(s.take(i + 1).drop_last() =~= s.take(i as int));
        assert(s.take(i + 1).last() == team@[i as int]@);
        let placed: bool = match team[i].position {
            Some(p) => p > 0,
            None => false,
        };
        if let Some(uid) = team[i].uid {
            if placed {
                out.push(uid);
            }
        }
        assert(out@ =~= start + positioned(s.take(i + 1)));
    }
    assert(s.take(s.len() as int) =~= s);
}

/// The sum of the action points of some fighters.
pub open spec fn ap_sum(s: Seq<EntityView>, points: Map<i64, i32>) -> int
    decreases s.len(),
{
    if s.len() == 0 {
        0
    } else {
        ap_sum(s.drop_last(), points) + match s.last().uid {
            Some(uid) => entry(points, uid) as int,
            None => 0,
        }
    }
}

/// Sums some values, held at the ends of the range at each step.
pub open spec fn saturated_sum(s: Seq<i32>) -> int
    decreases s.len(),
{
    if s.len() == 0 {
        0
    } else {
        sat_i32(saturated_sum(s.drop_last()) + s.last())
    }
}

/// Who on a side has life left.
pub open spec fn alive_on_side(m: EntityMgrView, is_attacker: bool) -> Set<i64> {
    Set::new(
        |uid: i64|
            m.entity_cache.contains_key(uid) && m.entity_cache[uid].is_attacker == is_attacker
                && entry(m.current_hp, uid) > 0,
    )
}

/// A fallen fighter that a reserve can take the place of: its slot, id and
/// position.
pub open spec fn fallen(s: Seq<EntityView>) -> Option<(nat, i64, i32)>
    decreases s.len(),
{
    if s.len() == 0 {
        None
    } else {
        let e = s[0];
        if e.uid is Some && or_zero(e.current_hp) <= 0 && or_zero(e.position) > 0 {
            Some((0, e.uid->0, or_zero(e.position)))
        } else {
            match fallen(s.skip(1)) {
                Some((i, uid, p)) => Some((i + 1, uid, p)),
                None => None,
            }
        }
    }
}

/// The attackers after the first reserve takes the place of the first fallen.
pub open spec fn substituted(t: TeamView) -> TeamView {
    match fallen(t.entitys) {
        Some((slot, _, position)) => TeamView {
            entitys: t.entitys.update(
                slot as int,
                EntityView { position: Some(position), ..t.sub_entitys[0] },
            ),
            sub_entitys: t.sub_entitys.skip(1),
            ..t
        },
        None => t,
    }
}

fn find_fallen(v: &Vec<FightEntityInfo>) -> (r: Option<(usize, i64, i32)>)
    ensures
        match r {
            Some((i, uid, p)) => fallen(entities_view(v@)) == Some((i as nat, uid, p)) && i
                < v@.len(),
            None => fallen(entities_view(v@)) is None,
        },
{
    let ghost s = entities_view(v@);
    assert(s.skip(0) =~= s);
    let mut i: usize = 0;
    while i < v.len()
        invariant
            i <= v.len(),
            s == entities_view(v@),
            fallen(s) == match fallen(s.skip(i as int)) {
                Some((k, uid, p)) => Some(((k + i) as nat, uid, p)),
                None => None,
            },
        decreases v.len() - i,
    {
        assert(s.skip(i as int)[0] == v@[i as int]@);
        assert(s.skip(i as int).skip(1) =~= s.skip(i + 1));
        let position = value(v[i].position);
        if let Some(uid) = v[i].uid {
            if value(v[i].current_hp) <= 0 && position > 0 {
                return Some((i, uid, position));
            }
        }
        i += 1;
    }
    None
}

impl EntityMgr {
    /// Nobody tracked.
    pub fn empty() -> (r: EntityMgr)
        ensures
            r@ == EntityMgrView::nobody(),
    {
        let r = EntityMgr {
            entity_cache: HashMap::new(),
            ex_points: HashMap::new(),
            ex_max: HashMap::new(),
            ex_point_required: HashMap::new(),
            current_hp: HashMap::new(),
            max_hp: HashMap::new(),
            recent_decr_ex_point: HashMap::new(),
            action_points: HashMap::new(),
            attr_bonus: AttrBonusMap::new(),
        };
        r
    }

    /// Tracks everyone in a battle.
    pub fn new(fight: &Fight, templates: &Vec<MonsterSkillTemplateRow>) -> (r: EntityMgr)
        ensures
            r@ == enrolled(
                EntityMgrView { entity_cache: locations(fight@), ..EntityMgrView::nobody() },
                everyone(fight@),
                templates@,
            ),
    {
        let mut mgr = EntityMgr::empty();
        mgr.rebuild_cache(fight);
        mgr.init(fight, templates);
        mgr
    }

    fn locate(&mut self, team: &Vec<FightEntityInfo>, is_attacker: bool)
        ensures
            final(self)@ == (EntityMgrView {
                entity_cache: located(old(self)@.entity_cache, entities_view(team@), is_attacker),
                ..old(self)@
            }),
    {
        let ghost start = self@;
        let ghost s = entities_view(team@);
        assert(s.take(0).len() == 0);
        for i in 0..team.len()
            invariant
                s == entities_view(team@),
                self@ == (EntityMgrView {
                    entity_cache: located(start.entity_cache, s.take(i as int), is_attacker),
                    ..start
                }),
        {
            assert(s.take(i + 1).drop_last() =~= s.take(i as int));
            assert(s.take(i + 1).last() == team@[i as int]@);
            if let Some(uid) = team[i].uid {
                self.entity_cache.insert(uid, EntityLocation { is_attacker, index: i });
            }
        }
        assert(s.take(s.len() as int) =~= s);
    }

    /// Looks up again where everyone on the field stands.
    pub fn rebuild_cache(&mut self, fight: &Fight)
        ensures
            final(self)@ == (EntityMgrView { entity_cache: locations(fight@), ..old(self)@ }),
    {
        self.entity_cache.clear();
        if let Some(attacker) = &fight.attacker {
            self.locate(&attacker.entitys, true);
        }
        if let Some(defender) = &fight.defender {
            self.locate(&defender.entitys, false);
        }
    }

    /// Where a fighter stands.
    pub fn get_location(&self, entity_id: i64) -> (r: Option<EntityLocation>)
        ensures
            r == (if self@.entity_cache.contains_key(entity_id) {
                Some(self@.entity_cache[entity_id])
            } else {
                None
            }),
    {
        match self.entity_cache.get(&entity_id) {
            Some(l) => Some(*l),
            None => None,
        }
    }

    /// The ids of all fighters with a position, attackers first.
    pub fn all_positioned_uids(fight: &Fight) -> (r: Vec<i64>)
        ensures
            r@ == positioned(everyone(fight@)),
    {
        let mut out: Vec<i64> = Vec::new();
        if let Some(t) = &fight.attacker {
            push_positioned(&mut out, &t.entitys);
            push_positioned(&mut out, &t.sub_entitys);
            proof {
                positioned_join(t@.entitys, t@.sub_entitys);
            }
        }
        assert(out@ =~= positioned(members(fight@.attacker)));
        let ghost first = out@;
        if let Some(t) = &fight.defender {
            push_positioned(&mut out, &t.entitys);
            push_positioned(&mut out, &t.sub_entitys);
            proof {
                positioned_join(t@.entitys, t@.sub_entitys);
            }
        }
        proof {
            positioned_join(members(fight@.attacker), members(fight@.defender));
        }
        assert(out@ =~= first + positioned(members(fight@.defender)));
        out
    }

    fn alive_uids(&self, is_attacker: bool) -> (r: HashSet<i64>)
        ensures
            r@ == alive_on_side(self@, is_attacker),
    {
        let mut out: HashSet<i64> = HashSet::new();
        for pair in it: self.entity_cache.iter()
            invariant
                it.seq() == vstd::std_specs::hash::spec_hash_map_iter(
                    &self.entity_cache,
                ).remaining(),
                forall|uid: i64|
                    #![trigger out@.contains(uid)]
                    out@.contains(uid) <==> alive_on_side(self@, is_attacker).contains(uid)
                        && exists|k: int| 0 <= k < it.index() && *(#[trigger] it.seq()[k]).0 == uid,
        {
            let ghost n = it.index();
            let ghost before = out@;
            let uid: i64 = *pair.0;
            assert(it.seq()[n] == pair);
            assert(self.entity_cache@.contains_key(uid) && self.entity_cache@[uid] == *pair.1);
            if pair.1.is_attacker == is_attacker && read_entry(&self.current_hp, uid) > 0 {
                out.insert(uid);
            }
            assert forall|u: i64|
                #![trigger out@.contains(u)]
                out@.contains(u) <==> alive_on_side(self@, is_attacker).contains(u)
                    && exists|k: int| 0 <= k < n + 1 && *(#[trigger] it.seq()[k]).0 == u by {
                if alive_on_side(self@, is_attacker).contains(u) && exists|k: int|
                    0 <= k < n + 1 && *(#[trigger] it.seq()[k]).0 == u {
                    let k = choose|k: int| 0 <= k < n + 1 && *(#[trigger] it.seq()[k]).0 == u;
                    if k < n {
                        assert(before.contains(u));
                    }
                }
                if before.contains(u) {
                    let k = choose|k: int| 0 <= k < n && *(#[trigger] it.seq()[k]).0 == u;
                    assert(k < n + 1);
                }
            }
        }
        assert(out@ =~= alive_on_side(self@, is_attacker)) by {
            let all = vstd::std_specs::hash::spec_hash_map_iter(&self.entity_cache).remaining();
            assert forall|u: i64| alive_on_side(self@, is_attacker).contains(u) implies exists|
                k: int,
            |
                0 <= k < all.len() && *(#[trigger] all[k]).0 == u by {
                assert(self.entity_cache@.contains_key(u));
                assert(all.contains((&u, &self.entity_cache@[u])));
                let k = choose|k: int| 0 <= k < all.len() && all[k] == (
                    &u,
                    &self.entity_cache@[u],
                );
                assert(*all[k].0 == u);
            }
        }
        out
    }

    /// The attackers on the field that have life left.
    pub fn alive_hero_uids(&self) -> (r: HashSet<i64>)
        ensures
            r@ == alive_on_side(self@, true),
    {
        self.alive_uids(true)
    }

    /// The defenders on the field that have life left.
    pub fn alive_enemy_uids(&self) -> (r: HashSet<i64>)
        ensures
            r@ == alive_on_side(self@, false),
    {
        self.alive_uids(false)
    }
}

impl EntityMgr {
    /// If a fighter on the field has fallen and a reserve is left, the first reserve
    /// takes the place of the first fallen. Says who fell, who came, and where.
    pub fn sub_hero(&mut self, fight: &mut Fight) -> (r: Option<(i64, FightEntityInfo, i32)>)
        ensures
            ({
                let t = old(fight)@.attacker;
                if t is Some && t->0.sub_entitys.len() > 0 && fallen(t->0.entitys) is Some {
                    &&& r matches Some((gone, sub, at)) && fallen(t->0.entitys) matches Some(
                        (slot, dead_uid, position),
                    ) && gone == dead_uid && at == position && sub@ == (EntityView {
                        position: Some(position),
                        ..t->0.sub_entitys[0]
                    })
                    &&& final(fight)@ == (FightView {
                        attacker: Some(substituted(t->0)),
                        ..old(fight)@
                    })
                    &&& final(self)@ == (EntityMgrView {
                        entity_cache: locations(final(fight)@),
                        ..old(self)@
                    })
                } else {
                    &&& r is None
                    &&& final(fight)@ == old(fight)@
                    &&& final(self)@ == old(self)@
                }
            }),
    {
        let found = match &fight.attacker {
            Some(t) => if t.sub_entitys.len() == 0 {
                None
            } else {
                find_fallen(&t.entitys)
            },
            None => None,
        };
        match found {
            Some((slot, dead_uid, position)) => {
                let ghost before = fight@;
                let mut copy: Option<FightEntityInfo> = None;
                if let Some(attacker) = &mut fight.attacker {
                    let ghost t = attacker@;
                    let ghost reserve = attacker.sub_entitys@;
                    let ghost field = attacker.entitys@;
                    let mut sub = attacker.sub_entitys.remove(0);
                    assert(attacker.sub_entitys@ =~= reserve.skip(1));
                    assert(entities_view(attacker.sub_entitys@) =~= entities_view(reserve).skip(1));
                    sub.position = Some(position);
                    copy = Some(sub.clone());
                    attacker.entitys[slot] = sub;
                    assert(entities_view(attacker.entitys@) =~= entities_view(field).update(
                        slot as int,
                        sub@,
                    ));
                }
                self.rebuild_cache(fight);
                match copy {
                    Some(sub) => Some((dead_uid, sub, position)),
                    None => None,
                }
            },
            None => None,
        }
    }

    fn enroll(&mut self, team: &Vec<FightEntityInfo>, templates: &Vec<MonsterSkillTemplateRow>)
        ensures
            final(self)@ == enrolled(old(self)@, entities_view(team@), templates@),
    {
        let ghost start = self@;
        let ghost s = entities_view(team@);
        assert(s.take(0).len() == 0);
        for i in 0..team.len()
            invariant
                s == entities_view(team@),
                self@ == enrolled(start, s.take(i as int), templates@),
        {
            assert(s.take(i + 1).drop_last() =~= s.take(i as int));
            assert(s.take(i + 1).last() == team@[i as int]@);
            let e = &team[i];
            if let Some(uid) = e.uid {
                self.ex_points.insert(uid, value(e.ex_point));
                let shared_gauge: bool = match e.ex_point_type {
                    Some(t) => t == 1,
                    None => false,
                };
                self.ex_max.insert(
                    uid,
                    if shared_gauge {
                        8
                    } else {
                        5
                    },
                );
                self.ex_point_required.insert(uid, read_required_points(e, templates));
                let hp = value(e.current_hp);
                self.current_hp.insert(uid, hp);
                let full: i32 = match e.attr {
                    Some(a) => match a.hp {
                        Some(x) => x,
                        None => hp,
                    },
                    None => hp,
                };
                self.max_hp.insert(uid, full);
                self.action_points.insert(uid, 1);
            }
        }
        assert(s.take(s.len() as int) =~= s);
    }

    /// Starts the trackers of everyone in a battle.
    pub fn init(&mut self, fight: &Fight, templates: &Vec<MonsterSkillTemplateRow>)
        ensures
            final(self)@ == enrolled(old(self)@, everyone(fight@), templates@),
    {
        let ghost start = self@;
        if let Some(t) = &fight.attacker {
            self.enroll(&t.entitys, templates);
            self.enroll(&t.sub_entitys, templates);
            proof {
                enrolled_join(start, t@.entitys, t@.sub_entitys, templates@);
            }
        }
        let ghost half = self@;
        if let Some(t) = &fight.defender {
            self.enroll(&t.entitys, templates);
            self.enroll(&t.sub_entitys, templates);
            proof {
                enrolled_join(half, t@.entitys, t@.sub_entitys, templates@);
            }
        }
        proof {
            enrolled_join(start, members(fight@.attacker), members(fight@.defender), templates@);
        }
    }

    /// Changes the ex points of a fighter; they do not fall below zero.
    pub fn add_ex_point(&mut self, uid: i64, amount: i32)
        requires
            i32::MIN <= entry(old(self)@.ex_points, uid) + amount <= i32::MAX,
        ensures
            final(self)@ == (EntityMgrView {
                ex_points: old(self)@.ex_points.insert(
                    uid,
                    at_least_zero(entry(old(self)@.ex_points, uid) + amount) as i32,
                ),
                ..old(self)@
            }),
    {
        let v = read_entry(&self.ex_points, uid);
        self.ex_points.insert(uid, clamp_low(v + amount));
    }

    fn gain_one(&mut self, uid: i64) -> (r: FightStep)
        requires
            entry(old(self)@.ex_points, uid) < i32::MAX,
        ensures
            final(self)@ == (EntityMgrView {
                ex_points: old(self)@.ex_points.insert(
                    uid,
                    at_least_zero(entry(old(self)@.ex_points, uid) + 1) as i32,
                ),
                ..old(self)@
            }),
            r@ == StepView::container(
                0,
                0,
                0,
                seq![EffectView::amount(EffectType::ExPointChange, uid, 1)],
            ),
    {
        self.add_ex_point(uid, 1);
        FightStepBuilder::ex_point_change(uid, 1)
    }

    /// A card of a fighter was played: it gains an ex point.
    pub fn on_use_card(&mut self, uid: i64) -> (r: Option<FightStep>)
        requires
            entry(old(self)@.ex_points, uid) < i32::MAX,
        ensures
            final(self)@ == (EntityMgrView {
                ex_points: old(self)@.ex_points.insert(
                    uid,
                    at_least_zero(entry(old(self)@.ex_points, uid) + 1) as i32,
                ),
                ..old(self)@
            }),
            r is Some,
            r->0@ == StepView::container(
                0,
                0,
                0,
                seq![EffectView::amount(EffectType::ExPointChange, uid, 1)],
            ),
    {
        Some(self.gain_one(uid))
    }

    /// A card of a fighter was moved: it gains an ex point.
    pub fn on_move_card(&mut self, uid: i64) -> (r: Option<FightStep>)
        requires
            entry(old(self)@.ex_points, uid) < i32::MAX,
        ensures
            final(self)@ == (EntityMgrView {
                ex_points: old(self)@.ex_points.insert(
                    uid,
                    at_least_zero(entry(old(self)@.ex_points, uid) + 1) as i32,
                ),
                ..old(self)@
            }),
            r is Some,
            r->0@ == StepView::container(
                0,
                0,
                0,
                seq![EffectView::amount(EffectType::ExPointChange, uid, 1)],
            ),
    {
        Some(self.gain_one(uid))
    }

    /// Cards of a fighter were merged: it gains an ex point.
    pub fn on_card_upgrade(&mut self, uid: i64) -> (r: Option<FightStep>)
        requires
            entry(old(self)@.ex_points, uid) < i32::MAX,
        ensures
            final(self)@ == (EntityMgrView {
                ex_points: old(self)@.ex_points.insert(
                    uid,
                    at_least_zero(entry(old(self)@.ex_points, uid) + 1) as i32,
                ),
                ..old(self)@
            }),
            r is Some,
            r->0@ == StepView::container(
                0,
                0,
                0,
                seq![EffectView::amount(EffectType::ExPointChange, uid, 1)],
            ),
    {
        Some(self.gain_one(uid))
    }

    /// Notes how many ex points a fighter is about to spend.
    pub fn set_recent_decr_ex_point(&mut self, uid: i64, amount: i32)
        ensures
            final(self)@ == (EntityMgrView {
                recent_decr_ex_point: old(self)@.recent_decr_ex_point.insert(
                    uid,
                    at_least_zero(amount as int) as i32,
                ),
                ..old(self)@
            }),
    {
        self.recent_decr_ex_point.insert(uid, clamp_low(amount));
    }

    /// How many ex points a fighter is about to spend.
    pub fn get_recent_decr_ex_point(&self, uid: i64) -> (r: i32)
        ensures
            r == entry(self@.recent_decr_ex_point, uid),
    {
        read_entry(&self.recent_decr_ex_point, uid)
    }

    /// Forgets how many ex points a fighter was about to spend.
    pub fn clear_recent_decr_ex_point(&mut self, uid: i64)
        ensures
            final(self)@ == (EntityMgrView {
                recent_decr_ex_point: old(self)@.recent_decr_ex_point.remove(uid),
                ..old(self)@
            }),
    {
        self.recent_decr_ex_point.remove(&uid);
    }

    /// Raises the most ex points that a fighter can hold.
    pub fn add_ex_max(&mut self, uid: i64, amount: i32)
        requires
            i32::MIN <= entry(old(self)@.ex_max, uid) + amount <= i32::MAX,
        ensures
            final(self)@ == (EntityMgrView {
                ex_max: old(self)@.ex_max.insert(
                    uid,
                    (entry(old(self)@.ex_max, uid) + amount) as i32,
                ),
                ..old(self)@
            }),
    {
        let v = read_entry(&self.ex_max, uid);
        self.ex_max.insert(uid, v + amount);
    }

    /// The most ex points that a fighter can hold.
    pub fn get_ex_max(&self, uid: i64) -> (r: i32)
        ensures
            r == entry(self@.ex_max, uid),
    {
        read_entry(&self.ex_max, uid)
    }

    /// The points that the unique skill of a fighter asks for.
    pub fn get_ex_point_required(&self, uid: i64) -> (r: i32)
        ensures
            r == entry(self@.ex_point_required, uid),
    {
        read_entry(&self.ex_point_required, uid)
    }

    /// Spends ex points if the fighter has enough of them.
    pub fn consume_ex_point(&mut self, uid: i64, amount: i32) -> (r: bool)
        requires
            entry(old(self)@.ex_points, uid) >= amount ==> entry(old(self)@.ex_points, uid)
                - amount <= i32::MAX,
        ensures
            r == (entry(old(self)@.ex_points, uid) >= amount),
            final(self)@ == (EntityMgrView {
                ex_points: old(self)@.ex_points.insert(
                    uid,
                    if r {
                        (entry(old(self)@.ex_points, uid) - amount) as i32
                    } else {
                        entry(old(self)@.ex_points, uid)
                    },
                ),
                ..old(self)@
            }),
    {
        let v = read_entry(&self.ex_points, uid);
        if v >= amount {
            self.ex_points.insert(uid, v - amount);
            true
        } else {
            self.ex_points.insert(uid, v);
            false
        }
    }

    /// Sets the ex points of a fighter; less than zero counts as zero.
    pub fn set_ex_point(&mut self, uid: i64, value: i32)
        ensures
            final(self)@ == (EntityMgrView {
                ex_points: old(self)@.ex_points.insert(uid, at_least_zero(value as int) as i32),
                ..old(self)@
            }),
    {
        self.ex_points.insert(uid, clamp_low(value));
    }

    /// The ex points of a fighter.
    pub fn get_ex_point(&self, uid: i64) -> (r: i32)
        ensures
            r == entry(self@.ex_points, uid),
    {
        read_entry(&self.ex_points, uid)
    }

    /// The action points of a side: the sum over its fighters on the field.
    pub fn get_ac_point(&self, fight: &Fight, is_attacker: bool) -> (r: i32)
        requires
            ({
                let team = on_field(side_team(fight@, is_attacker));
                forall|n: int|
                    0 <= n <= team.len() ==> i32::MIN <= #[trigger] ap_sum(
                        team.take(n),
                        self@.action_points,
                    ) <= i32::MAX
            }),
        ensures
            r == ap_sum(
                on_field(side_team(fight@, is_attacker)),
                self@.action_points,
            ),
    {
        let side = if is_attacker {
            &fight.attacker
        } else {
            &fight.defender
        };
        let mut sum: i32 = 0;
        if let Some(team) = side {
            let ghost s = entities_view(team.entitys@);
            assert(s =~= on_field(side_team(fight@, is_attacker)));
            assert(s.take(0).len() == 0);
            for i in 0..team.entitys.len()
                invariant
                    s == entities_view(team.entitys@),
                    sum == ap_sum(s.take(i as int), self@.action_points),
                    forall|n: int|
                        0 <= n <= s.len() ==> i32::MIN <= #[trigger] ap_sum(
                            s.take(n),
                            self@.action_points,
                        ) <= i32::MAX,
            {
                assert(s.take(i + 1).drop_last() =~= s.take(i as int));
                assert(s.take(i + 1).last() == team.entitys@[i as int]@);
                assert(i32::MIN <= ap_sum(s.take(i + 1), self@.action_points) <= i32::MAX);
                if let Some(uid) = team.entitys[i].uid {
                    sum = sum + read_entry(&self.action_points, uid);
                }
            }
            assert(s.take(s.len() as int) =~= s);
        }
        sum
    }

    /// Sets the action points of a fighter.
    pub fn set_action_point(&mut self, uid: i64, val: i32)
        ensures
            final(self)@ == (EntityMgrView {
                action_points: old(self)@.action_points.insert(uid, val),
                ..old(self)@
            }),
    {
        self.action_points.insert(uid, val);
    }

    /// Changes the action points of a fighter and reports it.
    pub fn add_action_point(&mut self, uid: i64, delta: i32) -> (r: Event)
        requires
            i32::MIN <= entry(old(self)@.action_points, uid) + delta <= i32::MAX,
        ensures
            r == (Event::AddActionPoint { entity_uid: uid, delta }),
            final(self)@ == (EntityMgrView {
                action_points: old(self)@.action_points.insert(
                    uid,
                    (entry(old(self)@.action_points, uid) + delta) as i32,
                ),
                ..old(self)@
            }),
    {
        let v = read_entry(&self.action_points, uid);
        self.action_points.insert(uid, v + delta);
        Event::AddActionPoint { entity_uid: uid, delta }
    }

    /// Sets the life of a fighter; less than zero counts as zero.
    pub fn set_hp(&mut self, uid: i64, hp: i32)
        ensures
            final(self)@ == (EntityMgrView {
                current_hp: old(self)@.current_hp.insert(uid, at_least_zero(hp as int) as i32),
                ..old(self)@
            }),
    {
        self.current_hp.insert(uid, clamp_low(hp));
    }

    /// The life of a fighter.
    pub fn get_hp(&self, uid: i64) -> (r: i32)
        ensures
            r == entry(self@.current_hp, uid),
    {
        read_entry(&self.current_hp, uid)
    }

    /// Sets the life maximum of a fighter; less than zero counts as zero.
    pub fn set_max_hp(&mut self, uid: i64, hp: i32)
        ensures
            final(self)@ == (EntityMgrView {
                max_hp: old(self)@.max_hp.insert(uid, at_least_zero(hp as int) as i32),
                ..old(self)@
            }),
    {
        self.max_hp.insert(uid, clamp_low(hp));
    }

    /// The life maximum of a fighter.
    pub fn get_max_hp(&self, uid: i64) -> (r: i32)
        ensures
            r == entry(self@.max_hp, uid),
    {
        read_entry(&self.max_hp, uid)
    }

    /// Takes life from a fighter; it does not fall below zero.
    pub fn apply_damage(&mut self, uid: i64, amount: i32)
        requires
            i32::MIN <= entry(old(self)@.current_hp, uid) - amount <= i32::MAX,
        ensures
            final(self)@ == (EntityMgrView {
                current_hp: old(self)@.current_hp.insert(
                    uid,
                    at_least_zero(entry(old(self)@.current_hp, uid) - amount) as i32,
                ),
                ..old(self)@
            }),
    {
        let hp = read_entry(&self.current_hp, uid);
        self.current_hp.insert(uid, clamp_low(hp - amount));
    }

    /// Gives life to a fighter, up to a maximum.
    pub fn apply_heal(&mut self, uid: i64, amount: i32, max_hp: i32)
        requires
            i32::MIN <= entry(old(self)@.current_hp, uid) + amount <= i32::MAX,
        ensures
            final(self)@ == (EntityMgrView {
                current_hp: old(self)@.current_hp.insert(
                    uid,
                    if entry(old(self)@.current_hp, uid) + amount <= max_hp {
                        (entry(old(self)@.current_hp, uid) + amount) as i32
                    } else {
                        max_hp
                    },
                ),
                ..old(self)@
            }),
    {
        let hp: i32 = read_entry(&self.current_hp, uid) + amount;
        self.current_hp.insert(
            uid,
            if hp <= max_hp {
                hp
            } else {
                max_hp
            },
        );
    }

    /// Adds bonuses; see [`merged`].
    pub fn merge_attr_bonus(&mut self, contributions: AttrBonusMap)
        ensures
            final(self)@ == (EntityMgrView {
                attr_bonus: merged(old(self)@.attr_bonus, contributions@),
                ..old(self)@
            }),
    {
        self.attr_bonus.merge(contributions);
    }

    /// The sum of the bonuses of a fighter on an attribute, held at the ends of the
    /// range; zero if there is none.
    pub fn sum_attr_bonus(&self, uid: i64, attr_id: i32) -> (r: i32)
        ensures
            r == saturated_sum(bonus_values(self@.attr_bonus, (uid, attr_id))),
    {
        match self.attr_bonus.get(&(uid, attr_id)) {
            Some(v) => {
                let mut sum: i32 = 0;
                assert(v@.take(0).len() == 0);
                for i in 0..v.len()
                    invariant
                        sum == saturated_sum(v@.take(i as int)),
                {
                    assert(v@.take(i + 1).drop_last() =~= v@.take(i as int));
                    sum = saturating_sum(sum, v[i]);
                }
                assert(v@.take(v@.len() as int) =~= v@);
                sum
            },
            None => 0,
        }
    }

    /// Removes all bonuses.
    pub fn clear_attr_bonus(&mut self)
        ensures
            final(self)@ == (EntityMgrView { attr_bonus: Map::empty(), ..old(self)@ }),
    {
        self.attr_bonus.clear();
    }

    /// Removes one bonus of a value; its last one fills the gap. A key left without
    /// bonuses is removed.
    pub fn remove_attr_bonus(&mut self, uid: i64, attr_id: i32, amount: i32)
        ensures
            final(self)@ == (EntityMgrView {
                attr_bonus: ({
                    let m = old(self)@.attr_bonus;
                    let key = (uid, attr_id);
                    if !m.contains_key(key) {
                        m
                    } else if without_value(m[key], amount).len() == 0 {
                        m.remove(key)
                    } else {
                        m.insert(key, without_value(m[key], amount))
                    }
                }),
                ..old(self)@
            }),
    {
        self.attr_bonus.remove_value((uid, attr_id), amount);
    }

}

impl Manager for EntityMgr {
    /// A fighter enters the battle: it has one action point.
    fn on_enter_fight(&mut self, fight: &Fight, entity_uid: i64) -> (r: Vec<Event>)
        ensures
            r@.len() == 0,
            final(self)@ == (EntityMgrView {
                action_points: old(self)@.action_points.insert(entity_uid, 1),
                ..old(self)@
            }),
    {
        self.set_action_point(entity_uid, 1);
        Vec::new()
    }

    /// The end of a round: what was about to be spent is forgotten, and every
    /// fighter has one action point again.
    fn on_round_end(&mut self, fight: &mut Fight)
        ensures
            *final(fight) == *old(fight),
            final(self)@ == (EntityMgrView {
                recent_decr_ex_point: Map::empty(),
                action_points: Map::new(
                    |uid: i64| old(self)@.action_points.contains_key(uid),
                    |uid: i64| 1i32,
                ),
                ..old(self)@
            }),
    {
        self.recent_decr_ex_point.clear();
        let ghost start = self.action_points@;
        let mut fresh: HashMap<i64, i32> = HashMap::new();
        for uid in it: self.action_points.keys()
            invariant
                it.seq() == vstd::std_specs::hash::spec_keys_iter(&self.action_points).remaining(),
                forall|u: i64|
                    #![trigger fresh@.contains_key(u)]
                    fresh@.contains_key(u) <==> exists|k: int|
                        0 <= k < it.index() && *(#[trigger] it.seq()[k]) == u,
                forall|u: i64| #[trigger] fresh@.contains_key(u) ==> fresh@[u] == 1,
        {
            let ghost n = it.index();
            let ghost before = fresh@;
            assert(it.seq()[n] == uid);
            fresh.insert(*uid, 1);
            assert forall|u: i64|
                #![trigger fresh@.contains_key(u)]
                fresh@.contains_key(u) <==> exists|k: int|
                    0 <= k < n + 1 && *(#[trigger] it.seq()[k]) == u by {
                if before.contains_key(u) {
                    let k = choose|k: int| 0 <= k < n && *(#[trigger] it.seq()[k]) == u;
                    assert(k < n + 1);
                }
                if exists|k: int| 0 <= k < n + 1 && *(#[trigger] it.seq()[k]) == u {
                    let k = choose|k: int| 0 <= k < n + 1 && *(#[trigger] it.seq()[k]) == u;
                    if k < n {
                        assert(before.contains_key(u));
                    }
                }
            }
        }
        proof {
            let all = vstd::std_specs::hash::spec_keys_iter(&self.action_points).remaining();
            assert forall|u: i64| start.contains_key(u) <==> exists|k: int|
                0 <= k < all.len() && *(#[trigger] all[k]) == u by {
                assert(all.unref().to_set() == start.dom());
                if start.contains_key(u) {
                    assert(all.unref().to_set().contains(u));
                    let k = choose|k: int| 0 <= k < all.unref().len() && all.unref()[k] == u;
                    assert(*all[k] == u);
                }
                if exists|k: int| 0 <= k < all.len() && *(#[trigger] all[k]) == u {
                    let k = choose|k: int| 0 <= k < all.len() && *(#[trigger] all[k]) == u;
                    assert(all.unref()[k] == u);
                    assert(all.unref().to_set().contains(u));
                }
            }
            assert(fresh@ =~= Map::new(|uid: i64| start.contains_key(uid), |uid: i64| 1i32));
        }
        self.action_points = fresh;
    }

    /// The end of a battle: life and ex points are forgotten.
    fn on_battle_end(&mut self)
        ensures
            final(self)@ == (EntityMgrView {
                ex_points: Map::empty(),
                current_hp: Map::empty(),
                recent_decr_ex_point: Map::empty(),
                ..old(self)@
            }),
    {
        self.ex_points.clear();
        self.current_hp.clear();
        self.recent_decr_ex_point.clear();
    }
}

impl Default for EntityMgr {
    fn default() -> (r: EntityMgr)
        ensures
            r@ == EntityMgrView::nobody(),
    {
        EntityMgr::empty()
    }
}

fn read_required_points(e: &FightEntityInfo, templates: &Vec<MonsterSkillTemplateRow>) -> (r: i32)
    ensures
        r == required_points(e@, templates@),
{
    match e.model_id {
        Some(id) => match find_row(templates, id) {
            Some(t) => t.unique_skill_point,
            None => 0,
        },
        None => 0,
    }
}

/// What the client shows of the gauges of a fighter.
#[derive(Debug)]
pub struct FightExPointInfo {
    pub uid: Option<i64>,
    pub ex_point: Option<i32>,
    pub power_infos: Vec<PowerInfo>,
    pub current_hp: Option<i32>,
    pub ex_point_type: Option<ExPointType>,
}

/// The kinds of ex gauge.
#[derive(Clone, Copy, PartialEq, Eq, Structural, Debug)]
pub enum ExPointType {
    Common,
    Belief,
    Synchronization,
    Adrenaline,
    Other(i32),
}

/// [`FightExPointInfo`] as a mathematical value.
pub struct ExPointInfoView {
    pub uid: Option<i64>,
    pub ex_point: Option<i32>,
    pub power_infos: Seq<PowerInfo>,
    pub current_hp: Option<i32>,
    pub ex_point_type: Option<ExPointType>,
}

impl View for FightExPointInfo {
    type V = ExPointInfoView;

    open spec fn view(&self) -> ExPointInfoView {
        ExPointInfoView {
            uid: self.uid,
            ex_point: self.ex_point,
            power_infos: self.power_infos@,
            current_hp: self.current_hp,
            ex_point_type: self.ex_point_type,
        }
    }
}

/// The kind of gauge of a fighter: four models have one of their own.
pub open spec fn gauge_type(e: EntityView) -> ExPointType {
    match e.model_id {
        Some(3120i32) => ExPointType::Belief,
        Some(3123i32) => ExPointType::Synchronization,
        Some(3124i32) => ExPointType::Adrenaline,
        Some(3122i32) => ExPointType::Adrenaline,
        _ => match e.ex_point_type {
            Some(t) => ExPointType::Other(t),
            None => ExPointType::Common,
        },
    }
}

/// What the client shows of a fighter's gauges: its tracked life and ex points.
pub open spec fn ex_point_info(e: EntityView, m: EntityMgrView) -> ExPointInfoView {
    ExPointInfoView {
        uid: e.uid,
        ex_point: Some(entry(m.ex_points, or_zero64(e.uid))),
        power_infos: e.power_infos,
        current_hp: Some(entry(m.current_hp, or_zero64(e.uid))),
        ex_point_type: Some(gauge_type(e)),
    }
}

/// The infos of a list, each by its view.
pub open spec fn infos_view(v: Seq<FightExPointInfo>) -> Seq<ExPointInfoView> {
    Seq::new(v.len(), |i: int| v[i]@)
}

/// What the client shows of the gauges of some fighters.
pub open spec fn ex_point_infos(s: Seq<EntityView>, m: EntityMgrView) -> Seq<ExPointInfoView> {
    Seq::new(s.len(), |i: int| ex_point_info(s[i], m))
}

fn push_infos(out: &mut Vec<FightExPointInfo>, team: &Vec<FightEntityInfo>, mgr: &EntityMgr)
    ensures
        infos_view(final(out)@) == infos_view(old(out)@) + ex_point_infos(
            entities_view(team@),
            mgr@,
        ),
{
    let ghost start = infos_view(out@);
    let ghost s = entities_view(team@);
    assert(infos_view(out@) =~= start + ex_point_infos(s.take(0), mgr@));
    for i in 0..team.len()
        invariant
            s == entities_view(team@),
            infos_view(out@) == start + ex_point_infos(s.take(i as int), mgr@),
    {
        let ghost before = infos_view(out@);
        let e = &team[i];
        assert(s[i as int] == e@);
        let uid = value64(e.uid);
        let gauge: ExPointType = match e.model_id {
            Some(3120) => ExPointType::Belief,
            Some(3123) => ExPointType::Synchronization,
            Some(3124) => ExPointType::Adrenaline,
            Some(3122) => ExPointType::Adrenaline,
            _ => match e.ex_point_type {
                Some(t) => ExPointType::Other(t),
                None => ExPointType::Common,
            },
        };
        let info = FightExPointInfo {
            uid: e.uid,
            ex_point: Some(mgr.get_ex_point(uid)),
            power_infos: copy_powers(&e.power_infos),
            current_hp: Some(mgr.get_hp(uid)),
            ex_point_type: Some(gauge),
        };
        assert(info@ == ex_point_info(e@, mgr@));
        out.push(info);
        assert(infos_view(out@) =~= before.push(info@));
        assert(infos_view(out@) =~= start + ex_point_infos(s.take(i + 1), mgr@));
    }
    assert(s.take(s.len() as int) =~= s);
}

/// What the client shows of everyone's gauges.
pub fn build_ex_point_info(fight: &Fight, mgr: &EntityMgr) -> (r: Vec<FightExPointInfo>)
    ensures
        infos_view(r@) == ex_point_infos(everyone(fight@), mgr@),
{
    let mut out: Vec<FightExPointInfo> = Vec::new();
    if let Some(t) = &fight.attacker {
        push_infos(&mut out, &t.entitys, mgr);
        push_infos(&mut out, &t.sub_entitys, mgr);
    }
    assert(infos_view(out@) =~= ex_point_infos(members(fight@.attacker), mgr@));
    if let Some(t) = &fight.defender {
        push_infos(&mut out, &t.entitys, mgr);
        push_infos(&mut out, &t.sub_entitys, mgr);
    }
    assert(infos_view(out@) =~= ex_point_infos(everyone(fight@), mgr@));
    out
}

/// Attributes with another life maximum.
pub open spec fn with_hp(a: Option<HeroAttribute>, hp: i32) -> Option<HeroAttribute> {
    match a {
        Some(a) => Some(HeroAttribute { hp: Some(hp), ..a }),
        None => None,
    }
}

/// A fighter as its trackers have it. A life maximum of zero is not shown.
pub open spec fn synced(e: EntityView, m: EntityMgrView) -> EntityView {
    match e.uid {
        Some(uid) => {
            let max = entry(m.max_hp, uid);
            EntityView {
                ex_point: Some(entry(m.ex_points, uid)),
                current_hp: Some(entry(m.current_hp, uid)),
                attr: if max > 0 {
                    with_hp(e.attr, max)
                } else {
                    e.attr
                },
                base_attr: if max > 0 {
                    with_hp(e.base_attr, max)
                } else {
                    e.base_attr
                },
                ..e
            }
        },
        None => e,
    }
}

/// Some fighters as their trackers have them.
pub open spec fn synced_list(s: Seq<EntityView>, m: EntityMgrView) -> Seq<EntityView> {
    Seq::new(s.len(), |i: int| synced(s[i], m))
}

/// A team as its trackers have it.
pub open spec fn synced_team(t: Option<TeamView>, m: EntityMgrView) -> Option<TeamView> {
    match t {
        Some(t) => Some(
            TeamView {
                entitys: synced_list(t.entitys, m),
                sub_entitys: synced_list(t.sub_entitys, m),
                ..t
            },
        ),
        None => None,
    }
}

fn sync_list(v: &mut Vec<FightEntityInfo>, mgr: &EntityMgr)
    ensures
        entities_view(final(v)@) == synced_list(entities_view(old(v)@), mgr@),
{
    let ghost start = v@;
    let n = v.len();
    for i in 0..n
        invariant
            n == start.len(),
            v@.len() == n,
            forall|k: int| 0 <= k < i ==> (#[trigger] v@[k])@ == synced(start[k]@, mgr@),
            forall|k: int| i <= k < n ==> #[trigger] v@[k] == start[k],
    {
        if let Some(uid) = v[i].uid {
            let e = &mut v[i];
            e.ex_point = Some(mgr.get_ex_point(uid));
            e.current_hp = Some(mgr.get_hp(uid));
            let max_hp = mgr.get_max_hp(uid);
            if max_hp > 0 {
                if let Some(a) = e.attr {
                    let mut a = a;
                    a.hp = Some(max_hp);
                    e.attr = Some(a);
                }
                if let Some(a) = e.base_attr {
                    let mut a = a;
                    a.hp = Some(max_hp);
                    e.base_attr = Some(a);
                }
            }
        }
    }
    assert(entities_view(v@) =~= synced_list(entities_view(start), mgr@));
}

/// Writes the trackers into a battle.
pub fn sync_to_fight(fight: &mut Fight, mgr: &EntityMgr)
    ensures
        final(fight)@ == (FightView {
            attacker: synced_team(old(fight)@.attacker, mgr@),
            defender: synced_team(old(fight)@.defender, mgr@),
            ..old(fight)@
        }),
{
    if let Some(t) = &mut fight.attacker {
        sync_list(&mut t.entitys, mgr);
        sync_list(&mut t.sub_entitys, mgr);
    }
    if let Some(t) = &mut fight.defender {
        sync_list(&mut t.entitys, mgr);
        sync_list(&mut t.sub_entitys, mgr);
    }
}

fn take_list(mgr: &mut EntityMgr, team: &Vec<FightEntityInfo>)
    ensures
        final(mgr)@ == taken(old(mgr)@, entities_view(team@)),
{
    let ghost start = mgr@;
    let ghost s = entities_view(team@);
    assert(s.take(0).len() == 0);
    for i in 0..team.len()
        invariant
            s == entities_view(team@),
            mgr@ == taken(start, s.take(i as int)),
    {
        assert(s.take(i + 1).drop_last() =~= s.take(i as int));
        assert(s.take(i + 1).last() == team@[i as int]@);
        let e = &team[i];
        if let Some(uid) = e.uid {
            mgr.set_ex_point(uid, value(e.ex_point));
            mgr.set_hp(uid, value(e.current_hp));
            if let Some(a) = e.attr {
                if let Some(max) = a.hp {
                    mgr.set_max_hp(uid, max);
                }
            }
        }
    }
    assert(s.take(s.len() as int) =~= s);
}

/// Reads the trackers of life and ex points out of a battle.
pub fn sync_from_fight(fight: &Fight, mgr: &mut EntityMgr)
    ensures
        final(mgr)@ == taken(old(mgr)@, everyone(fight@)),
{
    let ghost start = mgr@;
    if let Some(t) = &fight.attacker {
        take_list(mgr, &t.entitys);
        take_list(mgr, &t.sub_entitys);
        proof {
            taken_join(start, t@.entitys, t@.sub_entitys);
        }
    }
    let ghost half = mgr@;
    if let Some(t) = &fight.defender {
        take_list(mgr, &t.entitys);
        take_list(mgr, &t.sub_entitys);
        proof {
            taken_join(half, t@.entitys, t@.sub_entitys);
        }
    }
    proof {
        taken_join(start, members(fight@.attacker), members(fight@.defender));
    }
}

fn require_list(
    mgr: &mut EntityMgr,
    team: &Vec<FightEntityInfo>,
    templates: &Vec<MonsterSkillTemplateRow>,
)
    ensures
        final(mgr)@ == (EntityMgrView {
            ex_point_required: required_set(
                old(mgr)@.ex_point_required,
                entities_view(team@),
                templates@,
            ),
            ..old(mgr)@
        }),
{
    let ghost start = mgr@;
    let ghost s = entities_view(team@);
    assert(s.take(0).len() == 0);
    for i in 0..team.len()
        invariant
            s == entities_view(team@),
            mgr@ == (EntityMgrView {
                ex_point_required: required_set(
                    start.ex_point_required,
                    s.take(i as int),
                    templates@,
                ),
                ..start
            }),
    {
        assert(s.take(i + 1).drop_last() =~= s.take(i as int));
        assert(s.take(i + 1).last() == team@[i as int]@);
        if let Some(uid) = team[i].uid {
            mgr.ex_point_required.insert(uid, read_required_points(&team[i], templates));
        }
    }
    assert(s.take(s.len() as int) =~= s);
}

/// Sets the points that the unique skills of everyone in a battle ask for.
pub fn seed_ex_point_required_from_fight(
    fight: &Fight,
    mgr: &mut EntityMgr,
    templates: &Vec<MonsterSkillTemplateRow>,
)
    ensures
        final(mgr)@ == (EntityMgrView {
            ex_point_required: required_set(
                old(mgr)@.ex_point_required,
                everyone(fight@),
                templates@,
            ),
            ..old(mgr)@
        }),
{
    let ghost start = mgr@.ex_point_required;
    if let Some(t) = &fight.attacker {
        require_list(mgr, &t.entitys, templates);
        require_list(mgr, &t.sub_entitys, templates);
        proof {
            required_set_join(start, t@.entitys, t@.sub_entitys, templates@);
        }
    }
    let ghost half = mgr@.ex_point_required;
    if let Some(t) = &fight.defender {
        require_list(mgr, &t.entitys, templates);
        require_list(mgr, &t.sub_entitys, templates);
        proof {
            required_set_join(half, t@.entitys, t@.sub_entitys, templates@);
        }
    }
    proof {
        required_set_join(start, members(fight@.attacker), members(fight@.defender), templates@);
    }
}

/// The fighter at a location; nothing where the location is outside the lists.
pub open spec fn at_location(f: FightView, location: EntityLocation) -> Option<EntityView> {
    let team = on_field(side_team(f, location.is_attacker));
    if location.index < team.len() {
        Some(team[location.index as int])
    } else {
        None
    }
}

/// A battle with another fighter at a location.
pub open spec fn replaced_at(f: FightView, location: EntityLocation, e: EntityView) -> FightView {
    let i = location.index as int;
    if location.is_attacker {
        let t = f.attacker->0;
        FightView {
            attacker: Some(TeamView { entitys: t.entitys.update(i, e), ..t }),
            ..f
        }
    } else {
        let t = f.defender->0;
        FightView {
            defender: Some(TeamView { entitys: t.entitys.update(i, e), ..t }),
            ..f
        }
    }
}

/// A list with one fighter replaced shows the view with that fighter replaced.
pub broadcast proof fn entities_view_update(s: Seq<FightEntityInfo>, i: int, e: FightEntityInfo)
    requires
        0 <= i < s.len(),
    ensures
        #[trigger] entities_view(s.update(i, e)) == entities_view(s).update(i, e@),
{
    assert(entities_view(s.update(i, e)) =~= entities_view(s).update(i, e@));
}

/// Gives access to the fighter at a location.
pub fn get_entity_mut_by_location(
    fight: &mut Fight,
    location: EntityLocation,
) -> (r: Option<&mut FightEntityInfo>)
    ensures
        match r {
            Some(e) => at_location(old(fight)@, location) == Some(e@) && final(fight)@
                == replaced_at(old(fight)@, location, final(e)@),
            None => at_location(old(fight)@, location) is None && final(fight)@ == old(fight)@,
        },
{
    broadcast use entities_view_update;

    if location.is_attacker {
        if let Some(t) = &mut fight.attacker {
            if location.index < t.entitys.len() {
                return Some(&mut t.entitys[location.index]);
            }
        }
    } else {
        if let Some(t) = &mut fight.defender {
            if location.index < t.entitys.len() {
                return Some(&mut t.entitys[location.index]);
            }
        }
    }
    None
}

/// The fighters of a list that belong to a team.
pub open spec fn of_team(s: Seq<EntityView>, team_type: i32) -> Seq<EntityView>
    decreases s.len(),
{
    if s.len() == 0 {
        Seq::empty()
    } else if s.last().team_type == Some(team_type) {
        of_team(s.drop_last(), team_type).push(s.last())
    } else {
        of_team(s.drop_last(), team_type)
    }
}

/// The fighters behind some references, each by its view.
pub open spec fn refs_view(s: Seq<&FightEntityInfo>) -> Seq<EntityView> {
    Seq::new(s.len(), |i: int| s[i]@)
}

fn push_of_team<'a>(
    out: &mut Vec<&'a FightEntityInfo>,
    team: &'a Vec<FightEntityInfo>,
    team_type: i32,
)
    ensures
        refs_view(final(out)@) == refs_view(old(out)@) + of_team(entities_view(team@), team_type),
{
    let ghost start = refs_view(out@);
    let ghost s = entities_view(team@);
    assert(start + of_team(s.take(0), team_type) =~= start);
    for i in 0..team.len()
        invariant
            s == entities_view(team@),
            refs_view(out@) == start + of_team(s.take(i as int), team_type),
    {
        assert(s.take(i + 1).drop_last() =~= s.take(i as int));
        assert(s.take(i + 1).last() == team@[i as int]@);
        let ghost before = refs_view(out@);
        let belongs: bool = match team[i].team_type {
            Some(t) => t == team_type,
            None => false,
        };
        if belongs {
            out.push(&team[i]);
            assert(refs_view(out@) =~= before.push(s[i as int]));
        }
        assert(refs_view(out@) =~= start + of_team(s.take(i + 1), team_type));
    }
    assert(s.take(s.len() as int) =~= s);
}

impl EntityMgr {
    /// The fighters on the field that belong to a team, attackers first.
    pub fn get_team_entities<'a>(&self, fight: &'a Fight, team_type: i32) -> (r: Vec<
        &'a FightEntityInfo,
    >)
        ensures
            refs_view(r@) == of_team(on_field(fight@.attacker), team_type) + of_team(
                on_field(fight@.defender),
                team_type,
            ),
    {
        let mut out: Vec<&'a FightEntityInfo> = Vec::new();
        if let Some(t) = &fight.attacker {
            push_of_team(&mut out, &t.entitys, team_type);
        }
        assert(refs_view(out@) =~= of_team(on_field(fight@.attacker), team_type));
        if let Some(t) = &fight.defender {
            push_of_team(&mut out, &t.entitys, team_type);
        }
        assert(refs_view(out@) =~= of_team(on_field(fight@.attacker), team_type) + of_team(
            on_field(fight@.defender),
            team_type,
        ));
        out
    }
}

/// Nothing tracked of life or ex points is negative.
pub open spec fn never_negative(m: EntityMgrView) -> bool {
    &&& forall|uid: i64| entry(m.current_hp, uid) >= 0
    &&& forall|uid: i64| entry(m.ex_points, uid) >= 0
}

/// Two trackers show the same life and ex points of everyone.
pub open spec fn same_gauges(a: EntityMgrView, b: EntityMgrView) -> bool {
    &&& forall|uid: i64| entry(a.current_hp, uid) == entry(b.current_hp, uid)
    &&& forall|uid: i64| entry(a.ex_points, uid) == entry(b.ex_points, uid)
}

proof fn taken_synced(m: EntityMgrView, n: EntityMgrView, s: Seq<EntityView>)
    requires
        never_negative(m),
        same_gauges(m, n),
    ensures
        same_gauges(m, taken(n, synced_list(s, m))),
    decreases s.len(),
{
    if s.len() > 0 {
        let t = synced_list(s, m);
        assert(t.drop_last() =~= synced_list(s.drop_last(), m));
        taken_synced(m, n, s.drop_last());
        assert(t.last() == synced(s.last(), m));
    }
}

/// What was written into a battle is read back: writing the trackers into a battle
/// and reading them out again changes nobody's life or ex points, as long as none
/// of them is negative.
pub proof fn sync_round_trip(f: FightView, m: EntityMgrView)
    requires
        never_negative(m),
    ensures
        same_gauges(
            m,
            taken(
                m,
                everyone(
                    FightView {
                        attacker: synced_team(f.attacker, m),
                        defender: synced_team(f.defender, m),
                        ..f
                    },
                ),
            ),
        ),
{
    let g = FightView {
        attacker: synced_team(f.attacker, m),
        defender: synced_team(f.defender, m),
        ..f
    };
    assert(everyone(g) =~= synced_list(everyone(f), m));
    taken_synced(m, m, everyone(f));
}

/// Life taken from a fighter that is read out of a battle is never negative.
pub proof fn taken_never_negative(m: EntityMgrView, s: Seq<EntityView>)
    requires
        never_negative(m),
    ensures
        never_negative(taken(m, s)),
    decreases s.len(),
{
    if s.len() > 0 {
        taken_never_negative(m, s.drop_last());
        let n = taken(m, s.drop_last());
        let e = s.last();
        assert(taken(m, s) == taken_one(n, e));
        assert forall|uid: i64| entry(taken_one(n, e).current_hp, uid) >= 0 by {
            assert(entry(n.current_hp, uid) >= 0);
        }
        assert forall|uid: i64| entry(taken_one(n, e).ex_points, uid) >= 0 by {
            assert(entry(n.ex_points, uid) >= 0);
        }
    }
}

/// Merging one bonus and removing it again leaves its key with the bonuses that it
/// had, whether or not one of them was equal to it, and every other key untouched.
pub proof fn merge_then_remove(m: Map<(i64, i32), Seq<i32>>, key: (i64, i32), amount: i32)
    requires
        amount != 0,
    ensures
        without_value(
            bonus_values(merged(m, Map::empty().insert(key, seq![amount])), key),
            amount,
        ) == bonus_values(m, key),
        forall|k: (i64, i32)|
            k != key ==> #[trigger] bonus_values(
                merged(m, Map::empty().insert(key, seq![amount])),
                k,
            ) == bonus_values(m, k),
{
    let more = Map::<(i64, i32), Seq<i32>>::empty().insert(key, seq![amount]);
    let s = bonus_values(m, key);
    let one = seq![amount];
    assert(crate::manager::attr_bonus::nonzero(one) =~= one) by {
        assert(one.drop_last() =~= Seq::<i32>::empty());
        assert(crate::manager::attr_bonus::nonzero(one.drop_last()) =~= Seq::<i32>::empty());
        assert(one.last() == amount);
    }
    let t = bonus_values(merged(m, more), key);
    assert(t =~= s.push(amount));
    crate::manager::attr_bonus::first_value_bound(t, amount);
    assert(t[s.len() as int] == amount);
    let i = crate::manager::attr_bonus::first_value(t, amount)->0 as int;
    if i < s.len() {
        assert(s[i] == amount);
    }
    assert(without_value(t, amount) =~= s);
    assert forall|k: (i64, i32)| k != key implies #[trigger] bonus_values(merged(m, more), k)
        == bonus_values(m, k) by {
        assert(crate::manager::attr_bonus::nonzero(bonus_values(more, k)) =~= Seq::<i32>::empty());
        assert(bonus_values(m, k) + Seq::<i32>::empty() =~= bonus_values(m, k));
    }
}

proof fn fallen_in_list(s: Seq<EntityView>)
    ensures
        fallen(s) matches Some((i, uid, position)) ==> {
            &&& i < s.len()
            &&& s[i as int].uid == Some(uid)
            &&& or_zero(s[i as int].current_hp) <= 0
            &&& or_zero(s[i as int].position) == position
            &&& position > 0
        },
    decreases s.len(),
{
    if s.len() > 0 {
        fallen_in_list(s.skip(1));
    }
}

/// A substitution keeps the field as full as it was: the reserve stands where the
/// fallen stood, everyone else stays, and one reserve fewer is left.
pub proof fn substitution_keeps_the_field(t: TeamView)
    requires
        fallen(t.entitys) is Some,
        t.sub_entitys.len() > 0,
    ensures
        substituted(t).entitys.len() == t.entitys.len(),
        substituted(t).sub_entitys.len() == t.sub_entitys.len() - 1,
        fallen(t.entitys) matches Some((slot, _, position)) ==> {
            &&& slot < t.entitys.len()
            &&& substituted(t).entitys[slot as int].uid == t.sub_entitys[0].uid
            &&& substituted(t).entitys[slot as int].position == Some(position)
            &&& or_zero(t.entitys[slot as int].position) == position
            &&& forall|k: int|
                0 <= k < t.entitys.len() && k != slot ==> substituted(t).entitys[k]
                    == #[trigger] t.entitys[k]
        },
{
    fallen_in_list(t.entitys);
}

} // verus!
