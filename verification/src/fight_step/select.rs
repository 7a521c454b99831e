//! Picking effects out of a list.

use crate::model::lists::group_effects_view;
use crate::model::{effects_view, ActEffect, EffectType, EffectView};
use vstd::prelude::*;

verus! {

broadcast use group_effects_view;

/// Whether an effect is the wrapper of a nested step.
pub open spec fn is_wrapper(e: EffectView) -> bool {
    e.effect_type == Some(EffectType::FightStep)
}

/// The wrappers among some effects, in their order.
pub open spec fn wrappers(s: Seq<EffectView>) -> Seq<EffectView>
    decreases s.len(),
{
    if s.len() == 0 {
        Seq::empty()
    } else if is_wrapper(s.last()) {
        wrappers(s.drop_last()).push(s.last())
    } else {
        wrappers(s.drop_last())
    }
}

/// Whether an effect is of a kind.
pub fn has_kind(e: &ActEffect, kind: EffectType) -> (r: bool)
    ensures
        r == (e@.effect_type == Some(kind)),
{
    match e.effect_type {
        Some(k) => k == kind,
        None => false,
    }
}

/// Copies the wrappers out of a list.
pub fn keep_wrappers(v: &Vec<ActEffect>) -> (r: Vec<ActEffect>)
    ensures
        effects_view(r@) == wrappers(effects_view(v@)),
{
    let mut r: Vec<ActEffect> = Vec::new();
    let ghost s = effects_view(v@);
    assert(s.take(0) =~= Seq::empty());
    for i in 0..v.len()
        invariant
            s == effects_view(v@),
            effects_view(r@) == wrappers(s.take(i as int)),
    {
        assert(s.take(i + 1).drop_last() =~= s.take(i as int));
        assert(s.take(i + 1).last() == v@[i as int]@);
        if has_kind(&v[i], EffectType::FightStep) {
            r.push(v[i].clone());
        }
    }
    assert(s.take(s.len() as int) =~= s);
    r
}

/// Puts effects into a list at a position.
pub fn splice_effects(v: &mut Vec<ActEffect>, at: usize, more: Vec<ActEffect>)
    requires
        at <= old(v)@.len(),
    ensures
        effects_view(final(v)@) == effects_view(old(v)@).take(at as int) + effects_view(more@)
            + effects_view(old(v)@).skip(at as int),
{
    let ghost before = v@;
    let mut tail = v.split_off(at);
    let mut more = more;
    let ghost added = more@;
    v.append(&mut more);
    v.append(&mut tail);
    assert(effects_view(v@) =~= effects_view(before).take(at as int) + effects_view(added)
        + effects_view(before).skip(at as int)) by {
        assert(before.take(at as int) =~= before.subrange(0, at as int));
    }
}

} // verus!
