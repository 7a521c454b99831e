//! The rows of the game tables that the rules read.

use vstd::prelude::*;

verus! {

/// A row of a table, known by its id.
pub trait Row {
    /// The id of the row.
    spec fn key(&self) -> i32;

    /// The id of the row.
    fn id(&self) -> (r: i32)
        ensures
            r == self.key(),
    ;
}

/// The first row with an id.
pub open spec fn row_at<T: Row>(rows: Seq<T>, id: i32) -> Option<T>
    decreases rows.len(),
{
    if rows.len() == 0 {
        None
    } else if rows[0].key() == id {
        Some(rows[0])
    } else {
        row_at(rows.skip(1), id)
    }
}

/// Looks a row up by its id.
pub fn find_row<'a, T: Row>(rows: &'a Vec<T>, id: i32) -> (r: Option<&'a T>)
    ensures
        match r {
            Some(x) => row_at(rows@, id) == Some(*x),
            None => row_at(rows@, id) is None,
        },
{
    let mut i: usize = 0;
    assert(rows@.skip(0) =~= rows@);
    while i < rows.len()
        invariant
            i <= rows.len(),
            row_at(rows@.skip(i as int), id) == row_at(rows@, id),
        decreases rows.len() - i,
    {
        if rows[i].id() == id {
            return Some(&rows[i]);
        }
        assert(rows@.skip(i as int).skip(1) =~= rows@.skip(i + 1));
        i += 1;
    }
    None
}

/// One row of the buff table.
#[derive(Debug)]
pub struct SkillBuffRow {
    pub id: i32,
    pub type_id: i32,
    pub during_time: i32,
    pub effect_count: i32,
    pub features: String,
}

impl Row for SkillBuffRow {
    open spec fn key(&self) -> i32 {
        self.id
    }

    fn id(&self) -> (r: i32) {
        self.id
    }
}

/// One row of the table of buff acts.
#[derive(Debug)]
pub struct BuffActRow {
    pub id: i32,
    pub act_type: String,
}

impl Row for BuffActRow {
    open spec fn key(&self) -> i32 {
        self.id
    }

    fn id(&self) -> (r: i32) {
        self.id
    }
}

/// One slot of a row of the skill table: when it fires, on whom, and what it does.
#[derive(Debug)]
pub struct SlotRow {
    pub condition: String,
    pub condition_target: String,
    pub behavior: String,
    pub behavior_target: String,
    pub limit: i32,
    pub round_limit: i32,
}

/// One row of the skill table.
#[derive(Debug)]
pub struct SkillEffectRow {
    pub id: i32,
    pub logic_target: String,
    /// The ex points that the skill asks for; none if not above zero.
    pub need_ex_point: i32,
    pub slots: Vec<SlotRow>,
}

/// The first ten slots of a row.
pub open spec fn first_ten(slots: Seq<SlotRow>) -> Seq<SlotRow> {
    if slots.len() > 10 {
        slots.take(10)
    } else {
        slots
    }
}

impl Row for SkillEffectRow {
    open spec fn key(&self) -> i32 {
        self.id
    }

    fn id(&self) -> (r: i32) {
        self.id
    }
}

/// One row of the table of monster skill sets.
#[derive(Debug)]
pub struct MonsterSkillTemplateRow {
    pub id: i32,
    pub unique_skill_point: i32,
    pub resistance: i32,
}

impl Row for MonsterSkillTemplateRow {
    open spec fn key(&self) -> i32 {
        self.id
    }

    fn id(&self) -> (r: i32) {
        self.id
    }
}

/// One row of the table of magic circles.
#[derive(Debug)]
pub struct MagicCircleRow {
    pub id: i32,
    pub round: i32,
    pub self_buff: String,
    pub enemy_buff: String,
    pub self_skills: String,
    pub enemy_skills: String,
}

impl Row for MagicCircleRow {
    open spec fn key(&self) -> i32 {
        self.id
    }

    fn id(&self) -> (r: i32) {
        self.id
    }
}

/// One row of the table of episodes.
#[derive(Debug)]
pub struct EpisodeRow {
    pub id: i32,
    pub battle_id: i32,
}

impl Row for EpisodeRow {
    open spec fn key(&self) -> i32 {
        self.id
    }

    fn id(&self) -> (r: i32) {
        self.id
    }
}

/// One row of the table of battles.
#[derive(Debug)]
pub struct BattleRow {
    pub id: i32,
    pub monster_group_ids: String,
}

impl Row for BattleRow {
    open spec fn key(&self) -> i32 {
        self.id
    }

    fn id(&self) -> (r: i32) {
        self.id
    }
}

/// One row of the table of resistances.
#[derive(Debug)]
pub struct ResistanceRow {
    pub id: i32,
    pub dizzy: i32,
    pub sleep: i32,
    pub petrified: i32,
    pub frozen: i32,
    pub disarm: i32,
    pub forbid: i32,
    pub seal: i32,
    pub cant_get_exskill: i32,
    pub charm: i32,
    pub del_ex_point: i32,
    pub stress_up: i32,
    pub control_resilience: i32,
    pub del_ex_point_resilience: i32,
    pub stress_up_resilience: i32,
}

impl Row for ResistanceRow {
    open spec fn key(&self) -> i32 {
        self.id
    }

    fn id(&self) -> (r: i32) {
        self.id
    }
}

/// One row of the table of skill conditions.
#[derive(Debug)]
pub struct BehaviorConditionRow {
    pub id: i32,
    pub cond_type: String,
}

impl Row for BehaviorConditionRow {
    open spec fn key(&self) -> i32 {
        self.id
    }

    fn id(&self) -> (r: i32) {
        self.id
    }
}

/// The effect that a skill stands for.
#[derive(Debug)]
pub struct SkillLinkRow {
    pub skill_id: i32,
    pub effect_id: i32,
}

impl Row for SkillLinkRow {
    open spec fn key(&self) -> i32 {
        self.skill_id
    }

    fn id(&self) -> (r: i32) {
        self.skill_id
    }
}

/// The effect that a skill stands for; a skill that is not linked is its own.
pub open spec fn effect_of_skill(links: Seq<SkillLinkRow>, skill_id: i32) -> i32 {
    match row_at(links, skill_id) {
        Some(l) => l.effect_id,
        None => skill_id,
    }
}

/// Looks up the effect that a skill stands for.
pub fn resolve_skill_effect_id(links: &Vec<SkillLinkRow>, skill_id: i32) -> (r: i32)
    ensures
        r == effect_of_skill(links@, skill_id),
{
    match find_row(links, skill_id) {
        Some(l) => l.effect_id,
        None => skill_id,
    }
}

/// The parameters that the acts of a buff share.
#[derive(Debug)]
pub struct SharedParamsRow {
    pub buff_id: i32,
    pub params: String,
}

impl Row for SharedParamsRow {
    open spec fn key(&self) -> i32 {
        self.buff_id
    }

    fn id(&self) -> (r: i32) {
        self.buff_id
    }
}

/// The parameters that the acts of a buff share; none if it is not listed.
pub open spec fn shared_params(rows: Seq<SharedParamsRow>, buff_id: i32) -> Seq<char> {
    match row_at(rows, buff_id) {
        Some(r) => r.params@,
        None => Seq::empty(),
    }
}

/// Looks the shared parameters of a buff up.
pub fn find_shared_params(rows: &Vec<SharedParamsRow>, buff_id: i32) -> (r: String)
    ensures
        r@ == shared_params(rows@, buff_id),
{
    match find_row(rows, buff_id) {
        Some(row) => row.params.clone(),
        None => String::new(),
    }
}

} // verus!
