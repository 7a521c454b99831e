//! Poison that goes first to whom bears most poison already.
//!
//! The stacks are applied one at a time; after each, the enemies are ranked anew. Of
//! enemies that bear the same amount, the one in focus comes first.

use crate::buffs::{BuffInstance, BuffMgr};
use crate::config::{find_row, row_at, SkillBuffRow};
use crate::lookup::{entity_of, find_entity};
use crate::mechanics::channel::{read_trimmed, trimmed_number};
use crate::model::{Fight, FightView};
use crate::text::{number, param, param_at, piece_number, pieces, split_text, texts_view};
use vstd::prelude::*;

verus! {

/// Whether a feature entry is one of poison.
pub open spec fn poison_entry(entry: Seq<char>) -> bool {
    let id = trimmed_number(pieces(entry, '#'), 0);
    id == Some(803i32) || id == Some(844i32)
}

/// Whether one of some feature entries is one of poison.
pub open spec fn any_poison_entry(entries: Seq<Seq<char>>) -> bool {
    exists|k: int| 0 <= k < entries.len() && poison_entry(#[trigger] entries[k])
}

/// Whether a buff is a poison.
pub open spec fn is_poison(rows: Seq<SkillBuffRow>, buff_id: i32) -> bool {
    match row_at(rows, buff_id) {
        Some(row) => any_poison_entry(pieces(row.features@, '|')),
        None => false,
    }
}

/// Tests whether a buff is a poison.
pub fn is_poison_family(rows: &Vec<SkillBuffRow>, buff_id: i32) -> (r: bool)
    ensures
        r == is_poison(rows@, buff_id),
{
    match find_row(rows, buff_id) {
        Some(row) => {
            let entries = split_text(row.features.as_str(), '|');
            let ghost ps = pieces(row.features@, '|');
            for i in 0..entries.len()
                invariant
                    texts_view(entries@) == ps,
                    ps == pieces(row.features@, '|'),
                    row_at(rows@, buff_id) == Some(*row),
                    forall|k: int| 0 <= k < i ==> !poison_entry(#[trigger] ps[k]),
            {
                assert(ps[i as int] == entries@[i as int]@);
                let parts = split_text(entries[i].as_str(), '#');
                if let Some(id) = read_trimmed(&parts, 0) {
                    if id == 803 || id == 844 {
                        assert(poison_entry(ps[i as int]));
                        return true;
                    }
                }
            }
            false
        },
        None => false,
    }
}

/// How much poison some buffs hold: each poison counts its layers, at least one.
pub open spec fn poison_in(rows: Seq<SkillBuffRow>, s: Seq<BuffInstance>) -> int
    decreases s.len(),
{
    if s.len() == 0 {
        0
    } else {
        poison_in(rows, s.drop_last()) + (if is_poison(rows, s.last().buff_id) {
            if s.last().layer > 1 {
                s.last().layer as int
            } else {
                1
            }
        } else {
            0
        })
    }
}

proof fn poison_in_grows(rows: Seq<SkillBuffRow>, s: Seq<BuffInstance>, n: int)
    requires
        0 <= n <= s.len(),
    ensures
        0 <= poison_in(rows, s.take(n)) <= poison_in(rows, s),
    decreases s.len(),
{
    if n == s.len() {
        assert(s.take(n) =~= s);
        if s.len() > 0 {
            poison_in_grows(rows, s.drop_last(), s.len() - 1);
            assert(s.drop_last().take(s.len() - 1) =~= s.drop_last());
        }
    } else {
        poison_in_grows(rows, s.drop_last(), n);
        assert(s.drop_last().take(n) =~= s.take(n));
    }
}

/// Counts the poison of a fighter.
pub fn poison_instance_count(buffs: &BuffMgr, rows: &Vec<SkillBuffRow>, uid: i64) -> (r: i32)
    requires
        poison_in(rows@, buffs.of(uid)) <= i32::MAX,
    ensures
        r == poison_in(rows@, buffs.of(uid)),
{
    let held = buffs.get(uid);
    let mut total: i32 = 0;
    assert(held@.take(0).len() == 0);
    for i in 0..held.len()
        invariant
            total == poison_in(rows@, held@.take(i as int)),
            poison_in(rows@, held@) <= i32::MAX,
    {
        assert(held@.take(i + 1).drop_last() =~= held@.take(i as int));
        proof {
            poison_in_grows(rows@, held@, i as int);
            poison_in_grows(rows@, held@, i + 1);
        }
        if is_poison_family(rows, held[i].buff_id) {
            total = total + (if held[i].layer > 1 {
                held[i].layer
            } else {
                1
            });
        }
    }
    assert(held@.take(held@.len() as int) =~= held@);
    total
}

/// What an enemy is ranked by.
#[derive(Clone, Copy, PartialEq, Eq, Structural, Debug)]
pub struct EnemyRank {
    pub uid: i64,
    pub poison: i32,
    pub in_focus: bool,
    pub position: i32,
}

impl EnemyRank {
    /// Whether an enemy comes no later than another: more poison first, then the one
    /// in focus, then by position and by id.
    pub open spec fn no_later(self, other: EnemyRank) -> bool {
        if self.poison != other.poison {
            self.poison > other.poison
        } else if self.in_focus != other.in_focus {
            self.in_focus
        } else if self.position != other.position {
            self.position < other.position
        } else {
            self.uid <= other.uid
        }
    }

    fn comes_no_later(self, other: EnemyRank) -> (r: bool)
        ensures
            r == self.no_later(other),
    {
        if self.poison != other.poison {
            self.poison > other.poison
        } else if self.in_focus != other.in_focus {
            self.in_focus
        } else if self.position != other.position {
            self.position < other.position
        } else {
            self.uid <= other.uid
        }
    }
}

/// What an enemy is ranked by; one without a position comes late.
pub open spec fn rank_of(
    f: FightView,
    buffs: BuffMgr,
    rows: Seq<SkillBuffRow>,
    focus_uid: i64,
    uid: i64,
) -> EnemyRank {
    EnemyRank {
        uid,
        poison: poison_in(rows, buffs.of(uid)) as i32,
        in_focus: uid == focus_uid,
        position: match entity_of(f, uid) {
            Some(e) => match e.position {
                Some(p) => p,
                None => 99,
            },
            None => 99,
        },
    }
}

/// Whether the poison of each of some fighters can be counted.
pub open spec fn poison_fits(buffs: BuffMgr, rows: Seq<SkillBuffRow>, uids: Seq<i64>) -> bool {
    forall|k: int|
        0 <= k < uids.len() ==> poison_in(rows, buffs.of(#[trigger] uids[k])) <= i32::MAX
}

/// Whether a list is ranked.
pub open spec fn ranked(
    f: FightView,
    buffs: BuffMgr,
    rows: Seq<SkillBuffRow>,
    focus_uid: i64,
    uids: Seq<i64>,
) -> bool {
    forall|i: int, j: int|
        0 <= i < j < uids.len() ==> rank_of(
            f,
            buffs,
            rows,
            focus_uid,
            #[trigger] uids[i],
        ).no_later(rank_of(f, buffs, rows, focus_uid, #[trigger] uids[j]))
}

/// Finds where an enemy stands in a battle; late without a position.
pub fn enemy_position(fight: &Fight, uid: i64) -> (r: i32)
    ensures
        r == match entity_of(fight@, uid) {
            Some(e) => match e.position {
                Some(p) => p,
                None => 99,
            },
            None => 99,
        },
{
    match find_entity(fight, uid) {
        Some(e) => match e.position {
            Some(p) => p,
            None => 99,
        },
        None => 99,
    }
}

/// Ranks some enemies.
pub fn rank_enemies(
    fight: &Fight,
    buffs: &BuffMgr,
    rows: &Vec<SkillBuffRow>,
    uids: &Vec<i64>,
    focus_uid: i64,
) -> (r: Vec<i64>)
    requires
        poison_fits(*buffs, rows@, uids@),
    ensures
        r@.to_multiset() == uids@.to_multiset(),
        r@.len() == uids@.len(),
        ranked(fight@, *buffs, rows@, focus_uid, r@),
{
    let mut out: Vec<i64> = Vec::new();
    let mut ranks: Vec<EnemyRank> = Vec::new();
    assert(out@ =~= uids@.take(0));
    for i in 0..uids.len()
        invariant
            poison_fits(*buffs, rows@, uids@),
            out@.len() == i,
            ranks@.len() == i,
            out@.to_multiset() == uids@.take(i as int).to_multiset(),
            forall|k: int|
                0 <= k < i ==> ranks@[k] == rank_of(
                    fight@,
                    *buffs,
                    rows@,
                    focus_uid,
                    #[trigger] out@[k],
                ),
            forall|a: int, b: int|
                0 <= a < b < i ==> (#[trigger] ranks@[a]).no_later(#[trigger] ranks@[b]),
    {
        let uid: i64 = uids[i];
        let rank = EnemyRank {
            uid,
            poison: poison_instance_count(buffs, rows, uid),
            in_focus: uid == focus_uid,
            position: enemy_position(fight, uid),
        };
        let mut at: usize = 0;
        while at < ranks.len() && ranks[at].comes_no_later(rank)
            invariant
                at <= ranks@.len(),
                forall|k: int| 0 <= k < at ==> (#[trigger] ranks@[k]).no_later(rank),
            decreases ranks@.len() - at,
        {
            at += 1;
        }
        let ghost before = ranks@;
        let ghost before_uids = out@;
        ranks.insert(at, rank);
        out.insert(at, uid);
        assert(uids@.take(i + 1) =~= uids@.take(i as int).push(uid));
        proof {
            vstd::seq_lib::to_multiset_insert(before_uids, at as int, uid);
            vstd::seq_lib::to_multiset_build(uids@.take(i as int), uid);
        }
        assert forall|a: int, b: int| 0 <= a < b < i + 1 implies (#[trigger] ranks@[a]).no_later(
            #[trigger] ranks@[b],
        ) by {
            let a0 = if a < at {
                a
            } else {
                a - 1
            };
            let b0 = if b < at {
                b
            } else {
                b - 1
            };
            if a == at {
                assert(ranks@[b] == before[b0]);
                if at < before.len() {
                    assert(before[at as int].no_later(before[b0]) || b0 == at);
                }
            } else if b == at {
                assert(ranks@[a] == before[a0]);
            } else {
                assert(ranks@[a] == before[a0] && ranks@[b] == before[b0]);
            }
        }
        assert forall|k: int| 0 <= k < i + 1 implies ranks@[k] == rank_of(
            fight@,
            *buffs,
            rows@,
            focus_uid,
            #[trigger] out@[k],
        ) by {
            if k > at {
                assert(out@[k] == before_uids[k - 1]);
            } else if k < at {
                assert(out@[k] == before_uids[k]);
            }
        }
    }
    assert(uids@.take(uids@.len() as int) =~= uids@);
    assert forall|a: int, b: int| 0 <= a < b < out@.len() implies rank_of(
        fight@,
        *buffs,
        rows@,
        focus_uid,
        #[trigger] out@[a],
    ).no_later(rank_of(fight@, *buffs, rows@, focus_uid, #[trigger] out@[b])) by {
        assert(ranks@[a].no_later(ranks@[b]));
    }
    out
}

/// Two ranked lists of the same enemies are the same list: the ranking leaves
/// nothing open.
pub proof fn ranking_is_unique(
    f: FightView,
    buffs: BuffMgr,
    rows: Seq<SkillBuffRow>,
    focus_uid: i64,
    a: Seq<i64>,
    b: Seq<i64>,
)
    requires
        a.to_multiset() == b.to_multiset(),
        ranked(f, buffs, rows, focus_uid, a),
        ranked(f, buffs, rows, focus_uid, b),
    ensures
        a == b,
    decreases a.len(),
{
    broadcast use {
        vstd::seq_lib::to_multiset_len,
        vstd::seq_lib::to_multiset_contains,
        vstd::seq_lib::to_multiset_remove,
    };

    vstd::seq_lib::to_multiset_len(a);
    vstd::seq_lib::to_multiset_len(b);
    if a.len() == 0 {
        assert(a =~= b);
    } else {
        assert(a.contains(a[0]));
        assert(b.to_multiset().count(a[0]) > 0);
        assert(b.contains(a[0]));
        assert(b.contains(b[0]));
        assert(a.to_multiset().count(b[0]) > 0);
        assert(a.contains(b[0]));
        let i = choose|i: int| 0 <= i < a.len() && a[i] == b[0];
        let j = choose|j: int| 0 <= j < b.len() && b[j] == a[0];
        if i > 0 && j > 0 {
            assert(rank_of(f, buffs, rows, focus_uid, a[0]).no_later(
                rank_of(f, buffs, rows, focus_uid, a[i]),
            ));
            assert(rank_of(f, buffs, rows, focus_uid, b[0]).no_later(
                rank_of(f, buffs, rows, focus_uid, b[j]),
            ));
        }
        assert(a[0] == b[0]);
        let ra = a.remove(0);
        let rb = b.remove(0);
        assert(ra.to_multiset() == a.to_multiset().remove(a[0]));
        assert(rb.to_multiset() == b.to_multiset().remove(b[0]));
        assert(ranked(f, buffs, rows, focus_uid, ra)) by {
            assert forall|x: int, y: int| 0 <= x < y < ra.len() implies rank_of(
                f,
                buffs,
                rows,
                focus_uid,
                #[trigger] ra[x],
            ).no_later(rank_of(f, buffs, rows, focus_uid, #[trigger] ra[y])) by {
                assert(ra[x] == a[x + 1] && ra[y] == a[y + 1]);
            }
        }
        assert(ranked(f, buffs, rows, focus_uid, rb)) by {
            assert forall|x: int, y: int| 0 <= x < y < rb.len() implies rank_of(
                f,
                buffs,
                rows,
                focus_uid,
                #[trigger] rb[x],
            ).no_later(rank_of(f, buffs, rows, focus_uid, #[trigger] rb[y])) by {
                assert(rb[x] == b[x + 1] && rb[y] == b[y + 1]);
            }
        }
        ranking_is_unique(f, buffs, rows, focus_uid, ra, rb);
        assert(a =~= seq![a[0]] + ra);
        assert(b =~= seq![b[0]] + rb);
    }
}

/// Poison that is to be applied: the buff, how often, to whom, and whether one of
/// them bears poison already.
#[derive(Debug)]
pub struct PoisonPlan {
    pub buff_id: i32,
    pub stacks: i32,
    pub pool: Vec<i64>,
    pub has_poison: bool,
}

/// How many enemies the poison goes to at most.
pub open spec fn pool_size(raw: Seq<char>) -> int {
    let parts = pieces(raw, '#');
    let n = if 4 < parts.len() {
        number(parts[4])
    } else {
        None
    };
    match n {
        Some(n) => if n > 1 {
            n as int
        } else {
            1
        },
        None => 1,
    }
}

/// Whether one of some fighters bears poison.
pub open spec fn any_poisoned(buffs: BuffMgr, rows: Seq<SkillBuffRow>, uids: Seq<i64>) -> bool {
    exists|k: int| 0 <= k < uids.len() && poison_in(rows, buffs.of(#[trigger] uids[k])) > 0
}

proof fn any_poisoned_push(buffs: BuffMgr, rows: Seq<SkillBuffRow>, uids: Seq<i64>, uid: i64)
    ensures
        any_poisoned(buffs, rows, uids.push(uid)) == (any_poisoned(buffs, rows, uids) || poison_in(
            rows,
            buffs.of(uid),
        ) > 0),
{
    let all = uids.push(uid);
    if any_poisoned(buffs, rows, uids) {
        let k = choose|k: int|
            0 <= k < uids.len() && poison_in(rows, buffs.of(#[trigger] uids[k])) > 0;
        assert(poison_in(rows, buffs.of(all[k])) > 0);
    }
    if poison_in(rows, buffs.of(uid)) > 0 {
        assert(poison_in(rows, buffs.of(all[uids.len() as int])) > 0);
    }
    if any_poisoned(buffs, rows, all) {
        let k = choose|k: int|
            0 <= k < all.len() && poison_in(rows, buffs.of(#[trigger] all[k])) > 0;
        if k < uids.len() {
            assert(poison_in(rows, buffs.of(uids[k])) > 0);
        }
    }
}

/// Plans poison for the enemies that rank first. Without a stack, a buff or an enemy
/// there is nothing to plan.
pub fn plan_poison(
    fight: &Fight,
    buffs: &BuffMgr,
    rows: &Vec<SkillBuffRow>,
    enemies: &Vec<i64>,
    focus_uid: i64,
    raw: &str,
) -> (r: Option<PoisonPlan>)
    requires
        poison_fits(*buffs, rows@, enemies@),
    ensures
        r is Some <==> param(raw@, 2) > 0 && param(raw@, 1) != 0 && enemies@.len() > 0,
        match r {
            Some(p) => {
                &&& p.buff_id == param(raw@, 1)
                &&& p.stacks == param(raw@, 2)
                &&& p.has_poison == any_poisoned(*buffs, rows@, p.pool@)
                &&& exists|all: Seq<i64>|
                    {
                        &&& all.to_multiset() == enemies@.to_multiset()
                        &&& #[trigger] ranked(fight@, *buffs, rows@, focus_uid, all)
                        &&& p.pool@ == (if pool_size(raw@) < all.len() {
                            all.take(pool_size(raw@))
                        } else {
                            all
                        })
                    }
            },
            None => true,
        },
{
    let buff_id = param_at(raw, 1);
    let stacks = param_at(raw, 2);
    if stacks <= 0 || buff_id == 0 {
        return None;
    }
    let parts = split_text(raw, '#');
    let size: i32 = match piece_number(&parts, 4) {
        Some(n) => if n > 1 {
            n
        } else {
            1
        },
        None => 1,
    };
    let all = rank_enemies(fight, buffs, rows, enemies, focus_uid);
    if all.len() == 0 {
        return None;
    }
    let mut pool: Vec<i64> = Vec::new();
    let mut has_poison = false;
    let mut i: usize = 0;
    proof {
        pool_in_range(*buffs, rows@, enemies@, all@);
    }
    while i < all.len() && (i as u64) < (size as u64)
        invariant
            i <= all@.len(),
            i <= size,
            pool@ == all@.take(i as int),
            poison_fits(*buffs, rows@, all@),
            has_poison == any_poisoned(*buffs, rows@, pool@),
        decreases all@.len() - i,
    {
        let uid: i64 = all[i];
        let ghost before = pool@;
        if poison_instance_count(buffs, rows, uid) > 0 {
            has_poison = true;
        }
        pool.push(uid);
        assert(all@.take(i + 1) =~= all@.take(i as int).push(uid));
        proof {
            any_poisoned_push(*buffs, rows@, before, uid);
        }
        i += 1;
    }
    assert(pool@ =~= (if pool_size(raw@) < all@.len() {
        all@.take(pool_size(raw@))
    } else {
        all@
    }));
    assert(ranked(fight@, *buffs, rows@, focus_uid, all@));
    Some(PoisonPlan { buff_id, stacks, pool, has_poison })
}

proof fn pool_in_range(buffs: BuffMgr, rows: Seq<SkillBuffRow>, from: Seq<i64>, to: Seq<i64>)
    requires
        poison_fits(buffs, rows, from),
        from.to_multiset() == to.to_multiset(),
    ensures
        poison_fits(buffs, rows, to),
{
    broadcast use vstd::seq_lib::to_multiset_contains;

    assert forall|k: int| 0 <= k < to.len() implies poison_in(rows, buffs.of(#[trigger] to[k]))
        <= i32::MAX by {
        assert(to.contains(to[k]));
        assert(from.to_multiset().count(to[k]) > 0);
        assert(from.contains(to[k]));
        let j = choose|j: int| 0 <= j < from.len() && from[j] == to[k];
        assert(poison_in(rows, buffs.of(from[j])) <= i32::MAX);
    }
}

impl PoisonPlan {
    /// Chooses whom a stack goes to: where there was poison, to whom ranks first now;
    /// otherwise to each of the pool in turn.
    pub fn target(
        &self,
        fight: &Fight,
        buffs: &BuffMgr,
        rows: &Vec<SkillBuffRow>,
        focus_uid: i64,
        stack: usize,
    ) -> (r: i64)
        requires
            self.pool@.len() > 0,
            poison_fits(*buffs, rows@, self.pool@),
        ensures
            self.pool@.contains(r),
            self.has_poison ==> forall|k: int|
                0 <= k < self.pool@.len() ==> rank_of(
                    fight@,
                    *buffs,
                    rows@,
                    focus_uid,
                    r,
                ).no_later(rank_of(fight@, *buffs, rows@, focus_uid, #[trigger] self.pool@[k])),
            !self.has_poison ==> r == self.pool@[stack as int % self.pool@.len() as int],
    {
        broadcast use {vstd::seq_lib::to_multiset_contains, vstd::seq_lib::to_multiset_len};

        if self.has_poison {
            let all = rank_enemies(fight, buffs, rows, &self.pool, focus_uid);
            let first: i64 = all[0];
            assert(all@.contains(first));
            assert(self.pool@.to_multiset().count(first) > 0);
            assert(self.pool@.contains(first));
            assert forall|k: int| 0 <= k < self.pool@.len() implies rank_of(
                fight@,
                *buffs,
                rows@,
                focus_uid,
                first,
            ).no_later(rank_of(fight@, *buffs, rows@, focus_uid, #[trigger] self.pool@[k])) by {
                let uid = self.pool@[k];
                assert(self.pool@.contains(uid));
                assert(all@.to_multiset().count(uid) > 0);
                assert(all@.contains(uid));
                let j = choose|j: int| 0 <= j < all@.len() && all@[j] == uid;
                if j > 0 {
                    assert(rank_of(fight@, *buffs, rows@, focus_uid, all@[0]).no_later(
                        rank_of(fight@, *buffs, rows@, focus_uid, all@[j]),
                    ));
                }
            }
            first
        } else {
            self.pool[stack % self.pool.len()]
        }
    }
}

} // verus!
