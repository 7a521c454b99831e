//! Buffs drawn at random from a pool, those that the target lacks first.

use crate::buffs::{holds, has_buff, BuffInstance, BuffMgr};
use crate::chance::{after_shuffle, shuffle_list, shuffled};
use crate::config::{find_row, row_at, SkillBuffRow};
use crate::text::{number, param, param_at, piece_number, pieces, pieces_nonempty, split_text, texts_view};
use rand::rngs::StdRng;
use vstd::prelude::*;

verus! {

/// A draw: from which pool, and how many.
#[derive(Clone, Copy, PartialEq, Eq, Structural, Debug)]
pub struct DrawPlan {
    pub pool_buff_id: i32,
    pub count: i32,
}

/// Decides what a behaviour of this family draws; only a draw by buff id draws.
pub fn plan_draw(behaviour_id: i32, raw: &str) -> (r: Option<DrawPlan>)
    ensures
        r == (if behaviour_id == 20021 {
            Some(DrawPlan { pool_buff_id: param(raw@, 1), count: param(raw@, 2) })
        } else {
            None
        }),
{
    if behaviour_id == 20021 {
        Some(DrawPlan { pool_buff_id: param_at(raw, 1), count: param_at(raw, 2) })
    } else {
        None
    }
}

/// The buffs that some entries of a pool name: each by the number before its first
/// comma; an entry without one is passed over.
pub open spec fn pool_in(entries: Seq<Seq<char>>) -> Seq<i32>
    decreases entries.len(),
{
    if entries.len() == 0 {
        Seq::empty()
    } else {
        let before = pool_in(entries.drop_last());
        match number(pieces(entries.last(), ',')[0]) {
            Some(id) => before.push(id),
            None => before,
        }
    }
}

/// The buffs of a pool.
pub open spec fn pool_of(rows: Seq<SkillBuffRow>, pool_buff_id: i32) -> Seq<i32> {
    match row_at(rows, pool_buff_id) {
        Some(row) => pool_in(pieces(row.features@, '#')),
        None => Seq::empty(),
    }
}

/// Lists the buffs of a pool.
pub fn buff_pool(rows: &Vec<SkillBuffRow>, pool_buff_id: i32) -> (r: Vec<i32>)
    ensures
        r@ == pool_of(rows@, pool_buff_id),
{
    let mut out: Vec<i32> = Vec::new();
    if let Some(row) = find_row(rows, pool_buff_id) {
        let entries = split_text(row.features.as_str(), '#');
        let ghost ps = pieces(row.features@, '#');
        assert(ps.take(0).len() == 0);
        for i in 0..entries.len()
            invariant
                texts_view(entries@) == ps,
                out@ == pool_in(ps.take(i as int)),
        {
            assert(ps.take(i + 1).drop_last() =~= ps.take(i as int));
            assert(ps.take(i + 1).last() == entries@[i as int]@);
            let parts = split_text(entries[i].as_str(), ',');
            proof {
                pieces_nonempty(entries@[i as int]@, ',');
            }
            if let Some(id) = piece_number(&parts, 0) {
                out.push(id);
            }
        }
        assert(ps.take(ps.len() as int) =~= ps);
    }
    out
}

/// The buffs of a pool that a target bears, or those that it lacks.
pub open spec fn part_of(pool: Seq<i32>, held: Seq<BuffInstance>, borne: bool) -> Seq<i32>
    decreases pool.len(),
{
    if pool.len() == 0 {
        Seq::empty()
    } else {
        let before = part_of(pool.drop_last(), held, borne);
        if holds(held, pool.last()) == borne {
            before.push(pool.last())
        } else {
            before
        }
    }
}

/// The first buffs of two lists, those of the first list before the others.
pub open spec fn chosen(missing: Seq<i32>, borne: Seq<i32>, count: i32) -> Seq<i32> {
    let all = missing + borne;
    if count <= 0 {
        Seq::empty()
    } else if count < all.len() {
        all.take(count as int)
    } else {
        all
    }
}

/// Takes the first buffs of two lists, those of the first list before the others.
pub fn choose_buffs(missing: &Vec<i32>, borne: &Vec<i32>, count: i32) -> (r: Vec<i32>)
    ensures
        r@ == chosen(missing@, borne@, count),
{
    let mut out: Vec<i32> = Vec::new();
    let ghost all = missing@ + borne@;
    if count <= 0 {
        return out;
    }
    let mut left: i32 = count;
    let mut i: usize = 0;
    while i < missing.len() && left > 0
        invariant
            i <= missing@.len(),
            left == count - i,
            left >= 0,
            out@ == missing@.take(i as int),
        decreases missing@.len() - i,
    {
        out.push(missing[i]);
        assert(missing@.take(i + 1) =~= out@);
        i += 1;
        left -= 1;
    }
    let mut j: usize = 0;
    assert(out@ + borne@.take(0) =~= out@);
    let ghost first = out@;
    while j < borne.len() && left > 0
        invariant
            j <= borne@.len(),
            left == count - i - j,
            left >= 0,
            out@ == first + borne@.take(j as int),
        decreases borne@.len() - j,
    {
        out.push(borne[j]);
        assert(out@ =~= first + borne@.take(j + 1));
        j += 1;
        left -= 1;
    }
    assert(out@ =~= chosen(missing@, borne@, count));
    out
}

/// Whether a choice is a possible draw: some order of what the target lacks, then
/// some order of what it bears.
pub open spec fn possible_draw(
    pool: Seq<i32>,
    held: Seq<BuffInstance>,
    count: i32,
    drawn: Seq<i32>,
) -> bool {
    exists|missing: Seq<i32>, borne: Seq<i32>|
        {
            &&& missing.to_multiset() == part_of(pool, held, false).to_multiset()
            &&& borne.to_multiset() == part_of(pool, held, true).to_multiset()
            &&& drawn == #[trigger] chosen(missing, borne, count)
        }
}

/// What a generator draws from a pool: what the target lacks and what it bears are
/// shuffled, one after the other.
pub open spec fn drawn(
    pool: Seq<i32>,
    held: Seq<BuffInstance>,
    count: i32,
    rng: StdRng,
) -> Seq<i32> {
    let missing = part_of(pool, held, false);
    let borne = part_of(pool, held, true);
    chosen(
        shuffled(missing, rng),
        shuffled(borne, after_shuffle(rng, missing.len())),
        count,
    )
}

/// A generator after a draw from a pool. A pool without buffs leaves it alone.
pub open spec fn after_draw(pool: Seq<i32>, held: Seq<BuffInstance>, rng: StdRng) -> StdRng {
    if pool.len() == 0 {
        rng
    } else {
        after_shuffle(
            after_shuffle(rng, part_of(pool, held, false).len()),
            part_of(pool, held, true).len(),
        )
    }
}

/// Draws buffs for a target from a pool.
pub fn add_buff_ran_id(
    rng: &mut StdRng,
    rows: &Vec<SkillBuffRow>,
    buffs: &BuffMgr,
    target: i64,
    pool_buff_id: i32,
    count: i32,
) -> (r: Vec<i32>)
    ensures
        r@ == drawn(pool_of(rows@, pool_buff_id), buffs.of(target), count, *old(rng)),
        *final(rng) == after_draw(pool_of(rows@, pool_buff_id), buffs.of(target), *old(rng)),
        possible_draw(pool_of(rows@, pool_buff_id), buffs.of(target), count, r@),
{
    let pool = buff_pool(rows, pool_buff_id);
    if pool.len() == 0 {
        let none: Vec<i32> = Vec::new();
        assert(pool@ =~= Seq::empty());
        let held = buffs.get(target);
        assert(part_of(pool@, held@, false) =~= Seq::empty());
        assert(none@ =~= chosen(Seq::empty(), Seq::empty(), count));
        assert(none@ =~= drawn(pool@, held@, count, *rng));
        return none;
    }
    let held = buffs.get(target);
    let mut missing: Vec<i32> = Vec::new();
    let mut borne: Vec<i32> = Vec::new();
    assert(pool@.take(0).len() == 0);
    for i in 0..pool.len()
        invariant
            missing@ == part_of(pool@.take(i as int), held@, false),
            borne@ == part_of(pool@.take(i as int), held@, true),
    {
        assert(pool@.take(i + 1).drop_last() =~= pool@.take(i as int));
        let id: i32 = pool[i];
        if has_buff(&held, id) {
            borne.push(id);
        } else {
            missing.push(id);
        }
    }
    assert(pool@.take(pool@.len() as int) =~= pool@);
    shuffle_list(&mut missing, rng);
    shuffle_list(&mut borne, rng);
    choose_buffs(&missing, &borne, count)
}

/// A buff of the pool that the target lacks is drawn before any that it bears: while
/// a draw holds one that the target bears, it holds all that it lacks.
pub proof fn missing_come_first(missing: Seq<i32>, borne: Seq<i32>, count: i32, k: int)
    requires
        missing.len() <= k < chosen(missing, borne, count).len(),
    ensures
        chosen(missing, borne, count).take(missing.len() as int) == missing,
        chosen(missing, borne, count)[k] == borne[k - missing.len()],
{
    assert(chosen(missing, borne, count).take(missing.len() as int) =~= missing);
}

} // verus!
