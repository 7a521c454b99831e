//! The behaviours of skills: what a slot does when it fires.

pub mod add_act;
pub mod add_buff;
pub mod attr_modify;
pub mod bloodtithe;
pub mod catapult;
pub mod damage;
pub mod direct_skill;
pub mod disperse;
pub mod dot_settle;
pub mod empathy;
pub mod ex_point;
pub mod heal;
pub mod lost_life;
pub mod misc;
pub mod nuodika_damage;
pub mod poison_priority;
pub mod random;
pub mod skill_rate;
pub mod stats;

use crate::text::{param, param_at, pieces, split_text, texts_view};
use vstd::prelude::*;

verus! {

/// One behaviour: its id and parameters as text, and the code of its targets.
#[derive(Debug)]
pub struct Behaviour {
    pub raw: String,
    pub target: i32,
}

/// [`Behaviour`] as a mathematical value.
pub struct BehaviourView {
    pub raw: Seq<char>,
    pub target: i32,
}

impl View for Behaviour {
    type V = BehaviourView;

    open spec fn view(&self) -> BehaviourView {
        BehaviourView { raw: self.raw@, target: self.target }
    }
}

/// The behaviours of a list, each by its view.
pub open spec fn behaviours_view(v: Seq<Behaviour>) -> Seq<BehaviourView> {
    Seq::new(v.len(), |i: int| v[i]@)
}

/// The id of a behaviour; zero if it names none.
pub open spec fn behaviour_id(raw: Seq<char>) -> i32 {
    param(raw, 0)
}

/// Whether a behaviour fixes an attribute: directly, through a buff, or by lost
/// life.
pub open spec fn fixes_attr(raw: Seq<char>) -> bool {
    let id = behaviour_id(raw);
    id == 10004 || id == 10011 || id == 60033
}

/// Tests whether a behaviour fixes an attribute.
pub fn is_attr_fix(raw: &str) -> (r: bool)
    ensures
        r == fixes_attr(raw@),
{
    let id = param_at(raw, 0);
    id == 10004 || id == 10011 || id == 60033
}

/// The behaviours that some texts spell; empty texts spell none.
pub open spec fn behaviours_in(parts: Seq<Seq<char>>, target: i32) -> Seq<BehaviourView>
    decreases parts.len(),
{
    if parts.len() == 0 {
        Seq::empty()
    } else {
        let before = behaviours_in(parts.drop_last(), target);
        if parts.last().len() == 0 {
            before
        } else {
            before.push(BehaviourView { raw: parts.last(), target })
        }
    }
}

/// Reads the behaviours of a slot, which are separated by bars.
pub fn parse(raw: &str, beh_target: i32) -> (r: Vec<Behaviour>)
    ensures
        behaviours_view(r@) == behaviours_in(pieces(raw@, '|'), beh_target),
{
    let parts = split_text(raw, '|');
    let ghost ps = pieces(raw@, '|');
    let mut out: Vec<Behaviour> = Vec::new();
    assert(behaviours_view(out@) =~= behaviours_in(ps.take(0), beh_target));
    for i in 0..parts.len()
        invariant
            texts_view(parts@) == ps,
            behaviours_view(out@) == behaviours_in(ps.take(i as int), beh_target),
    {
        assert(ps.take(i + 1).drop_last() =~= ps.take(i as int));
        assert(ps.take(i + 1).last() == parts@[i as int]@);
        let ghost before = behaviours_view(out@);
        if !parts[i].as_str().is_empty() {
            let b = Behaviour { raw: parts[i].clone(), target: beh_target };
            out.push(b);
            assert(behaviours_view(out@) =~= before.push(b@));
        }
    }
    assert(ps.take(ps.len() as int) =~= ps);
    out
}

/// No behaviour that is read is empty, and all have the target of their slot.
pub proof fn parsed_behaviours(parts: Seq<Seq<char>>, target: i32)
    ensures
        forall|i: int|
            0 <= i < behaviours_in(parts, target).len() ==> (#[trigger] behaviours_in(
                parts,
                target,
            )[i]).raw.len() > 0 && behaviours_in(parts, target)[i].target == target,
    decreases parts.len(),
{
    if parts.len() > 0 {
        parsed_behaviours(parts.drop_last(), target);
        let before = behaviours_in(parts.drop_last(), target);
        let all = behaviours_in(parts, target);
        assert forall|i: int| 0 <= i < all.len() implies (#[trigger] all[i]).raw.len() > 0
            && all[i].target == target by {
            if i < before.len() {
                assert(all[i] == before[i]);
            }
        }
    }
}

/// The families that behaviours are handled by.
#[derive(Clone, Copy, PartialEq, Eq, Structural, Debug)]
pub enum Family {
    ExPoint,
    AddBuff,
    AddAct,
    Stats,
    Disperse,
    SkillRate,
    Misc,
    Catapult,
    Random,
    MagicCircle,
    NuodikaDamage,
    Damage,
    Heal,
    Empathy,
    DotSettle,
    LostLife,
    Bloodtithe,
    PoisonPriority,
    DirectSkill,
}

/// The family that handles a behaviour; none for one that does nothing.
pub open spec fn family(id: i32) -> Option<Family> {
    if id == 20002 || id == 60174 {
        Some(Family::ExPoint)
    } else if id == 1 || id == 20005 || id == 20017 || id == 60210 || id == 60211 {
        Some(Family::AddBuff)
    } else if id == 40003 || id == 50006 {
        Some(Family::AddAct)
    } else if id == 20010 || id == 20011 || id == 50017 || id == 50037 {
        Some(Family::Stats)
    } else if id == 30003 || id == 30004 || id == 30008 || id == 30009 || id == 30016 || id == 30017
        || id == 90002 || id == 60010 || id == 60011 || id == 20003 || id == 20004 || id == 20020
        || id == 50014 || id == 50016 || id == 60176 {
        Some(Family::Disperse)
    } else if id == 10001 || id == 10002 || id == 10003 || id == 10009 || id == 10012 || id == 40015
        || id == 60028 {
        Some(Family::SkillRate)
    } else if id == 60008 || id == 60013 || id == 60056 || id == 40006 || id == 40008 || id == 60015
        || id == 60018 || id == 60019 || id == 100017 {
        Some(Family::Misc)
    } else if id == 60074 {
        Some(Family::Catapult)
    } else if id == 20021 || id == 20022 || id == 20023 {
        Some(Family::Random)
    } else if id == 50019 || id == 60163 || id == 60076 || id == 50020 || id == 50021 || id == 60270
        || id == 60272 {
        Some(Family::MagicCircle)
    } else if id == 60209 {
        Some(Family::NuodikaDamage)
    } else if id == 10006 || id == 10008 || id == 20008 || id == 20009 || id == 60237 || id == 30014
        || id == 60215 || id == 60127 {
        Some(Family::Damage)
    } else if id == 20001 || id == 90001 || id == 60232 || id == 20012 || id == 20016 || id == 20018 {
        Some(Family::Heal)
    } else if id == 60038 || id == 60052 || id == 60039 || id == 60040 {
        Some(Family::Empathy)
    } else if id == 60073 {
        Some(Family::DotSettle)
    } else if id == 30005 || id == 30006 || id == 30010 || id == 30018 || id == 60226 || id == 60216
        || id == 60213 || id == 60146 {
        Some(Family::LostLife)
    } else if id == 60190 || id == 60191 || id == 60199 {
        Some(Family::Bloodtithe)
    } else if id == 60112 {
        Some(Family::PoisonPriority)
    } else if id == 50008 || id == 60053 || id == 60014 || id == 50012 || id == 50038 || id == 60223
        || id == 50039 || id == 60156 || id == 60175 || id == 50010 || id == 50036 || id == 60188
        || id == 60196 || id == 60262 || id == 100021 || id == 60225 || id == 60239 {
        Some(Family::DirectSkill)
    } else {
        None
    }
}

/// Chooses the family that handles a behaviour.
pub fn execute(raw: &str) -> (r: Option<Family>)
    ensures
        r == family(behaviour_id(raw@)),
{
    match param_at(raw, 0) {
        20002 | 60174 => Some(Family::ExPoint),
        1 | 20005 | 20017 | 60210 | 60211 => Some(Family::AddBuff),
        40003 | 50006 => Some(Family::AddAct),
        20010 | 20011 | 50017 | 50037 => Some(Family::Stats),
        30003 | 30004 | 30008 | 30009 | 30016 | 30017 | 90002 | 60010 | 60011 | 20003 | 20004
        | 20020 | 50014 | 50016 | 60176 => Some(Family::Disperse),
        10001 | 10002 | 10003 | 10009 | 10012 | 40015 | 60028 => Some(Family::SkillRate),
        60008 | 60013 | 60056 | 40006 | 40008 | 60015 | 60018 | 60019 | 100017 => Some(
            Family::Misc,
        ),
        60074 => Some(Family::Catapult),
        20021 | 20022 | 20023 => Some(Family::Random),
        50019 | 60163 | 60076 | 50020 | 50021 | 60270 | 60272 => Some(Family::MagicCircle),
        60209 => Some(Family::NuodikaDamage),
        10006 | 10008 | 20008 | 20009 | 60237 | 30014 | 60215 | 60127 => Some(Family::Damage),
        20001 | 90001 | 60232 | 20012 | 20016 | 20018 => Some(Family::Heal),
        60038 | 60052 | 60039 | 60040 => Some(Family::Empathy),
        60073 => Some(Family::DotSettle),
        30005 | 30006 | 30010 | 30018 | 60226 | 60216 | 60213 | 60146 => Some(Family::LostLife),
        60190 | 60191 | 60199 => Some(Family::Bloodtithe),
        60112 => Some(Family::PoisonPriority),
        50008 | 60053 | 60014 | 50012 | 50038 | 60223 | 50039 | 60156 | 60175 | 50010 | 50036
        | 60188 | 60196 | 60262 | 100021 | 60225 | 60239 => Some(Family::DirectSkill),
        _ => None,
    }
}

/// A behaviour that fixes an attribute is handled by no family: it only adds to the
/// bonuses.
pub proof fn attr_fix_has_no_family(raw: Seq<char>)
    requires
        fixes_attr(raw),
    ensures
        family(behaviour_id(raw)) is None,
{
}

} // verus!
