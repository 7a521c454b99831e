//! How the view of a list of effects follows the list.

use super::{effect_view, effects_view, ActEffect, EffectView};
use vstd::prelude::*;

verus! {

/// An empty list shows nothing.
pub broadcast proof fn effects_view_empty(v: Seq<ActEffect>)
    requires
        v.len() == 0,
    ensures
        #[trigger] effects_view(v) == Seq::<EffectView>::empty(),
{
    assert(effects_view(v) =~= Seq::<EffectView>::empty());
}

/// A pushed effect is pushed in the view.
pub broadcast proof fn effects_view_push(v: Seq<ActEffect>, e: ActEffect)
    ensures
        #[trigger] effects_view(v.push(e)) == effects_view(v).push(effect_view(e)),
{
    assert(effects_view(v.push(e)) =~= effects_view(v).push(effect_view(e)));
}

/// Joined lists show joined views.
pub broadcast proof fn effects_view_join(a: Seq<ActEffect>, b: Seq<ActEffect>)
    ensures
        #[trigger] effects_view(a + b) == effects_view(a) + effects_view(b),
{
    assert(effects_view(a + b) =~= effects_view(a) + effects_view(b));
}

/// A prefix of a list shows a prefix of its view.
pub broadcast proof fn effects_view_take(v: Seq<ActEffect>, n: int)
    requires
        0 <= n <= v.len(),
    ensures
        #[trigger] effects_view(v.take(n)) == effects_view(v).take(n),
{
    assert(effects_view(v.take(n)) =~= effects_view(v).take(n));
}

/// A part of a list shows the same part of its view.
pub broadcast proof fn effects_view_subrange(v: Seq<ActEffect>, a: int, b: int)
    requires
        0 <= a <= b <= v.len(),
    ensures
        #[trigger] effects_view(v.subrange(a, b)) == effects_view(v).subrange(a, b),
{
    assert(effects_view(v.subrange(a, b)) =~= effects_view(v).subrange(a, b));
}

/// An effect put into a list is put into its view.
pub broadcast proof fn effects_view_insert(v: Seq<ActEffect>, i: int, e: ActEffect)
    requires
        0 <= i <= v.len(),
    ensures
        #[trigger] effects_view(v.insert(i, e)) == effects_view(v).insert(i, effect_view(e)),
{
    assert(effects_view(v.insert(i, e)) =~= effects_view(v).insert(i, effect_view(e)));
}

/// An effect replaced in a list is replaced in its view.
pub broadcast proof fn effects_view_update(v: Seq<ActEffect>, i: int, e: ActEffect)
    requires
        0 <= i < v.len(),
    ensures
        #[trigger] effects_view(v.update(i, e)) == effects_view(v).update(i, effect_view(e)),
{
    assert(effects_view(v.update(i, e)) =~= effects_view(v).update(i, effect_view(e)));
}

pub broadcast group group_effects_view {
    effects_view_empty,
    effects_view_push,
    effects_view_join,
    effects_view_take,
    effects_view_subrange,
    effects_view_insert,
    effects_view_update,
}

} // verus!
