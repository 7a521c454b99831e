//! The order in which the effects of a step are played.

use crate::arith::{or_zero, value};
use crate::fight_step::select::has_kind;
use crate::manager::replay::{leaves, leaves_upto};
use crate::model::lists::group_effects_view;
use crate::model::{effects_view, ActEffect, EffectType, EffectView, FightStep};
use vstd::prelude::*;

verus! {

broadcast use group_effects_view;

/// How deep nested steps are played.
pub const MAX_NESTED_STEP_DEPTH: usize = 256;

/// Whether some of the first effects of a list fill a blood pool, nested steps
/// included.
pub open spec fn fills_pool_upto(s: Seq<EffectView>, n: nat) -> bool
    decreases s, n,
{
    if n == 0 || n > s.len() {
        false
    } else {
        let e = s[n - 1];
        fills_pool_upto(s, (n - 1) as nat) || (e.effect_type == Some(
            EffectType::BloodPoolValueChange,
        ) && or_zero(e.effect_num1) > 0) || match e.fight_step {
            Some(step) => fills_pool(step.act_effect),
            None => false,
        }
    }
}

/// Whether some effects fill a blood pool, nested steps included.
pub open spec fn fills_pool(s: Seq<EffectView>) -> bool
    decreases s, s.len() + 1,
{
    fills_pool_upto(s, s.len())
}

proof fn fills_pool_upto_grows(s: Seq<EffectView>, n: nat, m: nat)
    requires
        n <= m <= s.len(),
    ensures
        fills_pool_upto(s, n) ==> fills_pool_upto(s, m),
    decreases m,
{
    if n < m {
        fills_pool_upto_grows(s, n, (m - 1) as nat);
    }
}

/// Tests whether some effects fill a blood pool, nested steps included.
pub fn step_contains_positive_bloodpool_delta(effects: &Vec<ActEffect>) -> (r: bool)
    ensures
        r == fills_pool(effects_view(effects@)),
    decreases effects,
{
    let ghost s = effects_view(effects@);
    for i in 0..effects.len()
        invariant
            s == effects_view(effects@),
            !fills_pool_upto(s, i as nat),
    {
        proof {
            fills_pool_upto_grows(s, (i + 1) as nat, s.len());
            assert(s[i as int] == effects@[i as int]@);
        }
        if has_kind(&effects[i], EffectType::BloodPoolValueChange) && value(effects[i].effect_num1)
            > 0 {
            return true;
        }
        if let Some(step) = &effects[i].fight_step {
            assert(decreases_to!(effects => effects@[i as int]));
            if step_contains_positive_bloodpool_delta(&step.act_effect) {
                return true;
            }
        }
    }
    false
}

/// An effect to be played. Where `pool_is_synced` is set, the step reports the
/// gains of the blood pool itself, so that lost life only adds to the pool's
/// accumulator.
#[derive(Debug)]
pub struct PlayItem {
    pub effect: ActEffect,
    pub pool_is_synced: bool,
}

/// [`PlayItem`] as a mathematical value.
pub struct PlayItemView {
    pub effect: EffectView,
    pub pool_is_synced: bool,
}

impl View for PlayItem {
    type V = PlayItemView;

    open spec fn view(&self) -> PlayItemView {
        PlayItemView { effect: self.effect@, pool_is_synced: self.pool_is_synced }
    }
}

/// The items of a list, each by its view.
pub open spec fn items_view(v: Seq<PlayItem>) -> Seq<PlayItemView> {
    Seq::new(v.len(), |i: int| v[i]@)
}

/// The effects of a list that carry no step, from the last to the first.
pub open spec fn own_effects(s: Seq<EffectView>, synced: bool) -> Seq<PlayItemView>
    decreases s.len(),
{
    if s.len() == 0 {
        Seq::empty()
    } else {
        let rest = own_effects(s.skip(1), synced);
        if s[0].fight_step is None {
            rest.push(PlayItemView { effect: s[0], pool_is_synced: synced })
        } else {
            rest
        }
    }
}

/// The order in which a step is played: its own effects from the last to the
/// first, then its nested steps from the first to the last. Steps that are nested
/// too deep are left out.
pub open spec fn play_order(s: Seq<EffectView>, depth: nat, inherited: bool) -> Seq<PlayItemView>
    decreases s, s.len() + 1,
{
    let synced = inherited || fills_pool(s);
    own_effects(s, synced) + nested_order(s, s.len(), depth, synced)
}

/// The order in which the steps nested in the first effects of a list are played.
pub open spec fn nested_order(
    s: Seq<EffectView>,
    n: nat,
    depth: nat,
    synced: bool,
) -> Seq<PlayItemView>
    decreases s, n,
{
    if n == 0 || n > s.len() {
        Seq::empty()
    } else {
        let before = nested_order(s, (n - 1) as nat, depth, synced);
        match s[n - 1].fight_step {
            Some(step) => if depth >= MAX_NESTED_STEP_DEPTH {
                before
            } else {
                before + play_order(step.act_effect, depth + 1, synced)
            },
            None => before,
        }
    }
}

fn push_order(out: &mut Vec<PlayItem>, effects: &Vec<ActEffect>, depth: usize, inherited: bool)
    requires
        depth <= MAX_NESTED_STEP_DEPTH,
    ensures
        items_view(final(out)@) == items_view(old(out)@) + play_order(
            effects_view(effects@),
            depth as nat,
            inherited,
        ),
    decreases effects,
{
    let synced: bool = inherited || step_contains_positive_bloodpool_delta(effects);
    let ghost s = effects_view(effects@);
    let ghost start = items_view(out@);
    let n = effects.len();
    let mut i: usize = n;
    assert(s.skip(n as int).len() == 0);
    assert(start + own_effects(s.skip(n as int), synced) =~= start);
    while i > 0
        invariant
            i <= n,
            n == effects@.len(),
            s == effects_view(effects@),
            items_view(out@) == start + own_effects(s.skip(i as int), synced),
        decreases i,
    {
        assert(s.skip(i - 1).skip(1) =~= s.skip(i as int));
        assert(s.skip(i - 1)[0] == effects@[i - 1]@);
        let ghost before = items_view(out@);
        if effects[i - 1].fight_step.is_none() {
            let item = PlayItem { effect: effects[i - 1].clone(), pool_is_synced: synced };
            out.push(item);
            assert(items_view(out@) =~= before.push(item@));
        }
        assert(items_view(out@) =~= start + own_effects(s.skip(i - 1), synced));
        i -= 1;
    }
    assert(s.skip(0) =~= s);
    let ghost middle = items_view(out@);
    assert(middle + nested_order(s, 0, depth as nat, synced) =~= middle);
    for j in 0..n
        invariant
            n == effects@.len(),
            s == effects_view(effects@),
            depth <= MAX_NESTED_STEP_DEPTH,
            items_view(out@) == middle + nested_order(s, j as nat, depth as nat, synced),
    {
        assert(s[j as int] == effects@[j as int]@);
        if let Some(step) = &effects[j].fight_step {
            if depth < MAX_NESTED_STEP_DEPTH {
                assert(decreases_to!(effects => effects@[j as int]));
                push_order(out, &step.act_effect, depth + 1, synced);
            }
        }
        assert(items_view(out@) =~= middle + nested_order(
            s,
            (j + 1) as nat,
            depth as nat,
            synced,
        ));
    }
    assert(items_view(out@) =~= start + play_order(s, depth as nat, inherited));
}

/// Lists the effects of a step in the order in which they are played.
pub fn play_step_data(step: &FightStep) -> (r: Vec<PlayItem>)
    ensures
        items_view(r@) == play_order(step@.act_effect, 0, false),
{
    let mut out: Vec<PlayItem> = Vec::new();
    push_order(&mut out, &step.act_effect, 0, false);
    assert(items_view(out@) =~= play_order(step@.act_effect, 0, false));
    out
}

/// No effect that is played carries a step.
pub proof fn played_effects_are_leaves(s: Seq<EffectView>, depth: nat, inherited: bool)
    ensures
        forall|i: int|
            0 <= i < play_order(s, depth, inherited).len() ==> (#[trigger] play_order(
                s,
                depth,
                inherited,
            )[i]).effect.fight_step is None,
    decreases s, s.len() + 1,
{
    let synced = inherited || fills_pool(s);
    let a = own_effects(s, synced);
    let b = nested_order(s, s.len(), depth, synced);
    own_effects_are_leaves(s, synced);
    nested_effects_are_leaves(s, s.len(), depth, synced);
    assert forall|i: int| 0 <= i < play_order(s, depth, inherited).len() implies (
    #[trigger] play_order(s, depth, inherited)[i]).effect.fight_step is None by {
        if i < a.len() {
            assert(play_order(s, depth, inherited)[i] == a[i]);
        } else {
            assert(play_order(s, depth, inherited)[i] == b[i - a.len()]);
        }
    }
}

proof fn own_effects_are_leaves(s: Seq<EffectView>, synced: bool)
    ensures
        forall|i: int|
            0 <= i < own_effects(s, synced).len() ==> (#[trigger] own_effects(
                s,
                synced,
            )[i]).effect.fight_step is None,
    decreases s.len(),
{
    if s.len() > 0 {
        own_effects_are_leaves(s.skip(1), synced);
        let rest = own_effects(s.skip(1), synced);
        let all = own_effects(s, synced);
        assert forall|i: int| 0 <= i < all.len() implies (
        #[trigger] all[i]).effect.fight_step is None by {
            if i < rest.len() {
                assert(all[i] == rest[i]);
            }
        }
    }
}

proof fn nested_effects_are_leaves(s: Seq<EffectView>, n: nat, depth: nat, synced: bool)
    requires
        n <= s.len(),
    ensures
        forall|i: int|
            0 <= i < nested_order(s, n, depth, synced).len() ==> (#[trigger] nested_order(
                s,
                n,
                depth,
                synced,
            )[i]).effect.fight_step is None,
    decreases s, n,
{
    if n > 0 {
        let m = (n - 1) as nat;
        nested_effects_are_leaves(s, m, depth, synced);
        let before = nested_order(s, m, depth, synced);
        let all = nested_order(s, n, depth, synced);
        if s[n - 1].fight_step is Some && depth < MAX_NESTED_STEP_DEPTH {
            let inner = s[n - 1].fight_step->0.act_effect;
            assert(decreases_to!(s => s[n - 1]));
            played_effects_are_leaves(inner, depth + 1, synced);
            let more = play_order(inner, depth + 1, synced);
            assert forall|i: int| 0 <= i < all.len() implies (
            #[trigger] all[i]).effect.fight_step is None by {
                if i < before.len() {
                    assert(all[i] == before[i]);
                } else {
                    assert(all[i] == more[i - before.len()]);
                }
            }
        } else {
            assert(all == before);
        }
    }
}

/// The effects of some items.
pub open spec fn effects_of(items: Seq<PlayItemView>) -> Seq<EffectView> {
    items.map_values(|i: PlayItemView| i.effect)
}

/// Whether no step nested in the first effects of a list is nested too deep.
pub open spec fn shallow_upto(s: Seq<EffectView>, n: nat, depth: nat) -> bool
    decreases s, n,
{
    if n == 0 || n > s.len() {
        true
    } else {
        shallow_upto(s, (n - 1) as nat, depth) && match s[n - 1].fight_step {
            Some(step) => depth < MAX_NESTED_STEP_DEPTH && shallow(step.act_effect, depth + 1),
            None => true,
        }
    }
}

/// Whether no nested step of a list is nested too deep.
pub open spec fn shallow(s: Seq<EffectView>, depth: nat) -> bool
    decreases s, s.len() + 1,
{
    shallow_upto(s, s.len(), depth)
}

/// The last effect of a list is the first of its own effects to be played.
proof fn own_effects_last(s: Seq<EffectView>, synced: bool)
    requires
        s.len() > 0,
    ensures
        own_effects(s, synced) == (if s.last().fight_step is None {
            seq![PlayItemView { effect: s.last(), pool_is_synced: synced }]
        } else {
            Seq::empty()
        }) + own_effects(s.drop_last(), synced),
    decreases s.len(),
{
    let head = if s.last().fight_step is None {
        seq![PlayItemView { effect: s.last(), pool_is_synced: synced }]
    } else {
        Seq::empty()
    };
    if s.len() == 1 {
        assert(s.skip(1) =~= Seq::empty());
        assert(s.drop_last() =~= Seq::empty());
        assert(own_effects(s, synced) =~= head + own_effects(s.drop_last(), synced));
    } else {
        own_effects_last(s.skip(1), synced);
        assert(s.skip(1).drop_last() =~= s.drop_last().skip(1));
        assert(own_effects(s, synced) =~= head + own_effects(s.drop_last(), synced));
    }
}

proof fn effects_of_join(a: Seq<PlayItemView>, b: Seq<PlayItemView>)
    ensures
        effects_of(a + b).to_multiset() == effects_of(a).to_multiset().add(
            effects_of(b).to_multiset(),
        ),
{
    assert(effects_of(a + b) =~= effects_of(a) + effects_of(b));
    vstd::seq_lib::lemma_multiset_commutative(effects_of(a), effects_of(b));
}

proof fn first_effects_played_once(s: Seq<EffectView>, n: nat, depth: nat, synced: bool)
    requires
        n <= s.len(),
        shallow_upto(s, n, depth),
    ensures
        effects_of(own_effects(s.take(n as int), synced)).to_multiset().add(
            effects_of(nested_order(s, n, depth, synced)).to_multiset(),
        ) == leaves_upto(s, n).to_multiset(),
    decreases s, n,
{
    let own = own_effects(s.take(n as int), synced);
    let nested = nested_order(s, n, depth, synced);
    if n == 0 {
        assert(own =~= Seq::empty());
        assert(nested =~= Seq::empty());
        assert(effects_of(own) =~= Seq::empty());
        assert(effects_of(nested) =~= Seq::empty());
        assert(leaves_upto(s, n) =~= Seq::<EffectView>::empty());
        assert(effects_of(own).to_multiset().add(effects_of(nested).to_multiset())
            =~= leaves_upto(s, n).to_multiset()) by {
            vstd::seq_lib::lemma_multiset_commutative(
                Seq::<EffectView>::empty(),
                Seq::<EffectView>::empty(),
            );
            assert(Seq::<EffectView>::empty() + Seq::<EffectView>::empty() =~= Seq::<
                EffectView,
            >::empty());
        }
    } else {
        let m = (n - 1) as nat;
        let e = s[n - 1];
        first_effects_played_once(s, m, depth, synced);
        let t = s.take(n as int);
        assert(t.drop_last() =~= s.take(m as int));
        assert(t.last() == e);
        own_effects_last(t, synced);
        let own_before = own_effects(s.take(m as int), synced);
        let nested_before = nested_order(s, m, depth, synced);
        match e.fight_step {
            None => {
                let one = seq![PlayItemView { effect: e, pool_is_synced: synced }];
                assert(own == one + own_before);
                effects_of_join(one, own_before);
                assert(effects_of(one) =~= seq![e]);
                vstd::seq_lib::lemma_multiset_commutative(leaves_upto(s, m), seq![e]);
                assert(nested == nested_before);
                assert(effects_of(own).to_multiset().add(effects_of(nested).to_multiset())
                    =~= leaves_upto(s, n).to_multiset());
            },
            Some(step) => {
                let inner = step.act_effect;
                assert(decreases_to!(s => s[n - 1]));
                every_effect_is_played_once(inner, depth + 1, synced);
                let more = play_order(inner, depth + 1, synced);
                assert(own =~= own_before);
                assert(nested == nested_before + more);
                effects_of_join(nested_before, more);
                vstd::seq_lib::lemma_multiset_commutative(leaves_upto(s, m), leaves(inner));
                assert(effects_of(own).to_multiset().add(effects_of(nested).to_multiset())
                    =~= leaves_upto(s, n).to_multiset());
            },
        }
    }
}

/// To play a step is to play each of its effects without a step exactly once, those
/// of nested steps included, as long as no step is nested too deep.
pub proof fn every_effect_is_played_once(s: Seq<EffectView>, depth: nat, inherited: bool)
    requires
        shallow(s, depth),
    ensures
        effects_of(play_order(s, depth, inherited)).to_multiset() == leaves(s).to_multiset(),
    decreases s, s.len() + 1,
{
    let synced = inherited || fills_pool(s);
    first_effects_played_once(s, s.len(), depth, synced);
    assert(s.take(s.len() as int) =~= s);
    effects_of_join(own_effects(s, synced), nested_order(s, s.len(), depth, synced));
}

} // verus!
