//! Behaviours that take buffs away.

use crate::text::{
    number, param, param_at, parse_number, piece_number, pieces, split_text, texts_view,
};
use vstd::prelude::*;

verus! {

/// What a behaviour of this family does to each of its targets.
#[derive(Debug)]
pub enum DispersePlan {
    /// Every good buff leaves.
    Disperse,
    /// One buff leaves.
    DisperseForce { buff_id: i32 },
    /// Every bad buff leaves.
    Purify,
    /// So many buffs of a type are spent.
    ConsumeByType { type_id: i32, count: i32 },
    /// Some buffs give way to another.
    Replace { source_ids: Vec<i32>, replacement_id: i32, duration: i32, count: i32 },
    Nothing,
}

/// The number in one piece of a parameter list; a missing piece or one that is no
/// number counts as one.
pub open spec fn param_or_one(raw: Seq<char>, index: int) -> i32 {
    let parts = pieces(raw, '#');
    if 0 <= index < parts.len() && number(parts[index]) is Some {
        number(parts[index])->0
    } else {
        1
    }
}

/// Reads one number of a parameter list; see [`param_or_one`].
pub fn param_or_one_at(raw: &str, index: usize) -> (r: i32)
    ensures
        r == param_or_one(raw@, index as int),
{
    let parts = split_text(raw, '#');
    assert(texts_view(parts@).len() == parts@.len());
    match piece_number(&parts, index) {
        Some(n) => n,
        None => 1,
    }
}

/// The numbers among some texts.
pub open spec fn numbers_in(texts: Seq<Seq<char>>) -> Seq<i32>
    decreases texts.len(),
{
    if texts.len() == 0 {
        Seq::empty()
    } else {
        let before = numbers_in(texts.drop_last());
        match number(texts.last()) {
            Some(n) => before.push(n),
            None => before,
        }
    }
}

/// Reads the numbers among some texts.
pub fn read_numbers(texts: &Vec<String>) -> (r: Vec<i32>)
    ensures
        r@ == numbers_in(texts_view(texts@)),
{
    let mut out: Vec<i32> = Vec::new();
    let ghost ts = texts_view(texts@);
    assert(ts.take(0).len() == 0);
    for i in 0..texts.len()
        invariant
            ts == texts_view(texts@),
            out@ == numbers_in(ts.take(i as int)),
    {
        assert(ts.take(i + 1).drop_last() =~= ts.take(i as int));
        assert(ts.take(i + 1).last() == texts@[i as int]@);
        if let Some(n) = parse_number(texts[i].as_str()) {
            out.push(n);
        }
    }
    assert(ts.take(ts.len() as int) =~= ts);
    out
}

/// The buffs that give way: the numbers of the second piece of a parameter list.
pub open spec fn sources_in(raw: Seq<char>) -> Seq<i32> {
    let parts = pieces(raw, '#');
    if 1 < parts.len() {
        numbers_in(pieces(parts[1], ','))
    } else {
        Seq::empty()
    }
}

/// Reads the buffs that give way.
pub fn read_sources(raw: &str) -> (r: Vec<i32>)
    ensures
        r@ == sources_in(raw@),
{
    let parts = split_text(raw, '#');
    assert(texts_view(parts@).len() == parts@.len());
    if 1 < parts.len() {
        assert(texts_view(parts@)[1] == parts@[1]@);
        read_numbers(&split_text(parts[1].as_str(), ','))
    } else {
        Vec::new()
    }
}

/// Decides what a behaviour of this family does. The second dispersal by skill
/// (`30009`) names the one buff that leaves.
pub fn plan_disperse(behaviour_id: i32, raw: &str) -> (r: DispersePlan)
    ensures
        match r {
            DispersePlan::Disperse => behaviour_id == 30003 || behaviour_id == 30004
                || behaviour_id == 30008 || behaviour_id == 30016 || behaviour_id == 30017
                || behaviour_id == 90002,
            DispersePlan::DisperseForce { buff_id } => {
                &&& behaviour_id == 30009 || behaviour_id == 60010 || behaviour_id == 60011
                &&& buff_id == param(raw@, 1)
            },
            DispersePlan::Purify => behaviour_id == 20003 || behaviour_id == 20004 || behaviour_id
                == 20020,
            DispersePlan::ConsumeByType { type_id, count } => {
                &&& behaviour_id == 50014 || behaviour_id == 50016
                &&& type_id == param(raw@, 1)
                &&& count == param_or_one(raw@, 2)
            },
            DispersePlan::Replace { source_ids, replacement_id, duration, count } => {
                &&& behaviour_id == 60176
                &&& source_ids@ == sources_in(raw@)
                &&& replacement_id == param(raw@, 2)
                &&& duration == param(raw@, 3)
                &&& count == param_or_one(raw@, 4)
            },
            DispersePlan::Nothing => !is_disperse_family(behaviour_id),
        },
{
    match behaviour_id {
        30003 | 30004 | 30008 | 30016 | 30017 | 90002 => DispersePlan::Disperse,
        30009 | 60010 | 60011 => DispersePlan::DisperseForce { buff_id: param_at(raw, 1) },
        20003 | 20004 | 20020 => DispersePlan::Purify,
        50014 | 50016 => DispersePlan::ConsumeByType {
            type_id: param_at(raw, 1),
            count: param_or_one_at(raw, 2),
        },
        60176 => DispersePlan::Replace {
            source_ids: read_sources(raw),
            replacement_id: param_at(raw, 2),
            duration: param_at(raw, 3),
            count: param_or_one_at(raw, 4),
        },
        _ => DispersePlan::Nothing,
    }
}

/// Whether a behaviour takes buffs away.
pub open spec fn is_disperse_family(id: i32) -> bool {
    ||| id == 30003
    ||| id == 30004
    ||| id == 30008
    ||| id == 30009
    ||| id == 30016
    ||| id == 30017
    ||| id == 90002
    ||| id == 60010
    ||| id == 60011
    ||| id == 20003
    ||| id == 20004
    ||| id == 20020
    ||| id == 50014
    ||| id == 50016
    ||| id == 60176
}

} // verus!
