//! Bonuses on attributes, kept per fighter and attribute.

use vstd::prelude::*;

verus! {

/// The bonuses of each fighter on each attribute, one value per source.
#[derive(Debug)]
pub struct AttrBonusMap {
    entries: Vec<((i64, i32), Vec<i32>)>,
}

/// The position of a key among some entries.
pub open spec fn key_position(s: Seq<((i64, i32), Vec<i32>)>, key: (i64, i32)) -> Option<nat>
    decreases s.len(),
{
    if s.len() == 0 {
        None
    } else if s.last().0 == key {
        Some((s.len() - 1) as nat)
    } else {
        key_position(s.drop_last(), key)
    }
}

/// No key occurs twice.
pub open spec fn distinct_keys(s: Seq<((i64, i32), Vec<i32>)>) -> bool {
    forall|i: int, j: int|
        #![trigger s[i], s[j]]
        0 <= i < s.len() && 0 <= j < s.len() && s[i].0 == s[j].0 ==> i == j
}

/// The entries as a map.
pub open spec fn entries_map(s: Seq<((i64, i32), Vec<i32>)>) -> Map<(i64, i32), Seq<i32>> {
    Map::new(
        |k: (i64, i32)| key_position(s, k) is Some,
        |k: (i64, i32)| s[key_position(s, k)->0 as int].1@,
    )
}

proof fn key_position_finds(s: Seq<((i64, i32), Vec<i32>)>, key: (i64, i32))
    ensures
        key_position(s, key) is Some ==> key_position(s, key)->0 < s.len()
            && s[key_position(s, key)->0 as int].0 == key,
        key_position(s, key) is None <==> (forall|i: int|
            0 <= i < s.len() ==> (#[trigger] s[i]).0 != key),
    decreases s.len(),
{
    if s.len() > 0 {
        key_position_finds(s.drop_last(), key);
        if s.last().0 != key {
            assert(forall|i: int|
                0 <= i < s.drop_last().len() ==> (#[trigger] s.drop_last()[i]) == s[i]);
            assert forall|i: int|
                (key_position(s, key) is None && 0 <= i < s.len()) implies (#[trigger] s[i]).0
                != key by {
                if i < s.len() - 1 {
                    assert(s.drop_last()[i].0 != key);
                }
            }
            if forall|i: int| 0 <= i < s.len() ==> (#[trigger] s[i]).0 != key {
                assert forall|i: int| 0 <= i < s.drop_last().len() implies (
                #[trigger] s.drop_last()[i]).0 != key by {
                    assert(s[i].0 != key);
                }
            }
        } else {
            assert(s[s.len() - 1].0 == key);
        }
    }
}

proof fn key_position_unique(s: Seq<((i64, i32), Vec<i32>)>, i: int)
    requires
        distinct_keys(s),
        0 <= i < s.len(),
    ensures
        key_position(s, s[i].0) == Some(i as nat),
{
    key_position_finds(s, s[i].0);
    if key_position(s, s[i].0) is None {
        assert(s[i].0 != s[i].0);
    } else {
        let k = key_position(s, s[i].0)->0 as int;
        assert(s[k].0 == s[i].0);
    }
}

proof fn after_removal(
    before: Seq<((i64, i32), Vec<i32>)>,
    after: Seq<((i64, i32), Vec<i32>)>,
    i: int,
    key: (i64, i32),
    k: (i64, i32),
)
    requires
        distinct_keys(before),
        0 <= i < before.len(),
        before[i].0 == key,
        after == before.remove(i),
    ensures
        key_position(after, k) is Some <==> key_position(before, k) is Some && k != key,
        key_position(after, k) is Some ==> after[key_position(after, k)->0 as int]
            == before[key_position(before, k)->0 as int],
{
    key_position_finds(after, k);
    key_position_finds(before, k);
    if key_position(after, k) is Some {
        let p = key_position(after, k)->0 as int;
        let p0 = if p < i {
            p
        } else {
            p + 1
        };
        assert(before[p0] == after[p]);
        key_position_unique(before, p0);
        if k == key {
            assert(before[i].0 == k);
        }
    } else if key_position(before, k) is Some && k != key {
        let p0 = key_position(before, k)->0 as int;
        let p = if p0 < i {
            p0
        } else {
            p0 - 1
        };
        assert(after[p] == before[p0]);
    }
}

impl View for AttrBonusMap {
    type V = Map<(i64, i32), Seq<i32>>;

    closed spec fn view(&self) -> Map<(i64, i32), Seq<i32>> {
        entries_map(self.entries@)
    }
}

/// The values of a key; none if it is absent.
pub open spec fn bonus_values(m: Map<(i64, i32), Seq<i32>>, key: (i64, i32)) -> Seq<i32> {
    if m.contains_key(key) {
        m[key]
    } else {
        Seq::empty()
    }
}

/// The values that are not zero, in their order.
pub open spec fn nonzero(s: Seq<i32>) -> Seq<i32>
    decreases s.len(),
{
    if s.len() == 0 {
        Seq::empty()
    } else if s.last() != 0 {
        nonzero(s.drop_last()).push(s.last())
    } else {
        nonzero(s.drop_last())
    }
}

/// Bonuses with contributions added: the values of each contributed key are
/// appended, zeros left out.
pub open spec fn merged(
    m: Map<(i64, i32), Seq<i32>>,
    more: Map<(i64, i32), Seq<i32>>,
) -> Map<(i64, i32), Seq<i32>> {
    Map::new(
        |k: (i64, i32)| m.contains_key(k) || more.contains_key(k),
        |k: (i64, i32)| bonus_values(m, k) + nonzero(bonus_values(more, k)),
    )
}

/// The position of the first occurrence of a value.
pub open spec fn first_value(s: Seq<i32>, amount: i32) -> Option<nat>
    decreases s.len(),
{
    if s.len() == 0 {
        None
    } else if s[0] == amount {
        Some(0)
    } else {
        match first_value(s.skip(1), amount) {
            Some(i) => Some(i + 1),
            None => None,
        }
    }
}

/// A position found is a position in the list.
pub proof fn first_value_bound(s: Seq<i32>, amount: i32)
    ensures
        first_value(s, amount) is Some ==> first_value(s, amount)->0 < s.len()
            && s[first_value(s, amount)->0 as int] == amount,
        first_value(s, amount) is None <==> !s.contains(amount),
    decreases s.len(),
{
    if s.len() > 0 {
        first_value_bound(s.skip(1), amount);
        if s[0] != amount {
            if s.contains(amount) {
                let i = choose|i: int| 0 <= i < s.len() && s[i] == amount;
                assert(s.skip(1)[i - 1] == amount);
            }
            if s.skip(1).contains(amount) {
                let i = choose|i: int| 0 <= i < s.skip(1).len() && s.skip(1)[i] == amount;
                assert(s[i + 1] == amount);
            }
        }
    }
}

/// A list with the element at a position replaced by its last one, which moves.
pub open spec fn swap_removed(s: Seq<i32>, i: int) -> Seq<i32> {
    if i == s.len() - 1 {
        s.drop_last()
    } else {
        s.update(i, s.last()).drop_last()
    }
}

/// A list without the first occurrence of a value; its last element fills the gap.
pub open spec fn without_value(s: Seq<i32>, amount: i32) -> Seq<i32> {
    match first_value(s, amount) {
        Some(i) => swap_removed(s, i as int),
        None => s,
    }
}

impl AttrBonusMap {
    /// No key occurs twice.
    #[verifier::type_invariant]
    spec fn keys_distinct(self) -> bool {
        distinct_keys(self.entries@)
    }

    /// No bonuses.
    pub fn new() -> (r: AttrBonusMap)
        ensures
            r@ == Map::<(i64, i32), Seq<i32>>::empty(),
    {
        let r = AttrBonusMap { entries: Vec::new() };
        assert(r@ =~= Map::<(i64, i32), Seq<i32>>::empty());
        r
    }

    fn position(&self, key: (i64, i32)) -> (r: Option<usize>)
        ensures
            match r {
                Some(i) => key_position(self.entries@, key) == Some(i as nat) && i
                    < self.entries@.len(),
                None => key_position(self.entries@, key) is None,
            },
    {
        let mut i: usize = self.entries.len();
        assert(self.entries@.take(i as int) =~= self.entries@);
        while i > 0
            invariant
                i <= self.entries@.len(),
                key_position(self.entries@.take(i as int), key) == key_position(
                    self.entries@,
                    key,
                ),
            decreases i,
        {
            let k = self.entries[i - 1].0;
            if k.0 == key.0 && k.1 == key.1 {
                return Some(i - 1);
            }
            assert(self.entries@.take(i as int).drop_last() =~= self.entries@.take(i - 1));
            i -= 1;
        }
        None
    }

    /// Whether there is no entry.
    pub fn is_empty(&self) -> (r: bool)
        ensures
            r == (forall|k: (i64, i32)| !self@.contains_key(k)),
    {
        proof {
            if self.entries@.len() > 0 {
                let k = self.entries@[0].0;
                key_position_finds(self.entries@, k);
                assert(self@.contains_key(k));
            }
        }
        self.entries.len() == 0
    }

    /// The values of a key.
    pub fn get(&self, key: &(i64, i32)) -> (r: Option<&Vec<i32>>)
        ensures
            match r {
                Some(v) => self@.contains_key(*key) && v@ == self@[*key],
                None => !self@.contains_key(*key),
            },
    {
        match self.position(*key) {
            Some(i) => Some(&self.entries[i].1),
            None => None,
        }
    }

    /// Sets the values of a key.
    pub fn insert(&mut self, key: (i64, i32), values: Vec<i32>)
        ensures
            final(self)@ == old(self)@.insert(key, values@),
    {
        proof {
            use_type_invariant(&*self);
            key_position_finds(self.entries@, key);
        }
        let ghost before = self.entries@;
        match self.position(key) {
            Some(i) => {
                let mut entries: Vec<((i64, i32), Vec<i32>)> = Vec::new();
                core::mem::swap(&mut entries, &mut self.entries);
                entries[i] = (key, values);
                let ghost after = entries@;
                assert(after =~= before.update(i as int, (key, values)));
                assert(distinct_keys(after)) by {
                    assert forall|a: int, b: int|
                        #![trigger after[a], after[b]]
                        0 <= a < after.len() && 0 <= b < after.len() && after[a].0
                            == after[b].0 implies a == b by {
                        assert(before[a].0 == after[a].0);
                        assert(before[b].0 == after[b].0);
                    }
                }
                proof {
                    assert forall|k: (i64, i32)| key_position(after, k) == key_position(before, k) by {
                        key_position_finds(after, k);
                        key_position_finds(before, k);
                        if key_position(before, k) is Some {
                            let p = key_position(before, k)->0 as int;
                            assert(after[p].0 == k);
                            key_position_unique(after, p);
                        } else if key_position(after, k) is Some {
                            let p = key_position(after, k)->0 as int;
                            assert(before[p].0 == k);
                        }
                    }
                    let goal = entries_map(before).insert(key, values@);
                    assert forall|k: (i64, i32)| #[trigger]
                        entries_map(after).contains_key(k) == goal.contains_key(k) by {
                        assert(key_position(after, k) == key_position(before, k));
                    }
                    assert forall|k: (i64, i32)| #[trigger]
                        entries_map(after).contains_key(k) implies entries_map(after)[k]
                        == goal[k] by {
                        assert(key_position(after, k) == key_position(before, k));
                        key_position_finds(before, k);
                    }
                    assert(entries_map(after) =~= goal);
                }
                self.entries = entries;
            },
            None => {
                let mut entries: Vec<((i64, i32), Vec<i32>)> = Vec::new();
                core::mem::swap(&mut entries, &mut self.entries);
                entries.push((key, values));
                let ghost after = entries@;
                assert(distinct_keys(after)) by {
                    assert forall|a: int, b: int|
                        #![trigger after[a], after[b]]
                        0 <= a < after.len() && 0 <= b < after.len() && after[a].0
                            == after[b].0 implies a == b by {
                        if a < before.len() && b < before.len() {
                            assert(before[a].0 == before[b].0);
                        } else if a < before.len() {
                            assert(before[a].0 != key);
                        } else if b < before.len() {
                            assert(before[b].0 != key);
                        }
                    }
                }
                proof {
                    assert(after.drop_last() =~= before);
                    assert forall|k: (i64, i32)| k != key implies key_position(after, k)
                        == key_position(before, k) by {}
                    assert forall|k: (i64, i32)| k != key && key_position(before, k) is Some implies #[trigger] after[key_position(
                        before,
                        k,
                    )->0 as int] == before[key_position(before, k)->0 as int] by {
                        key_position_finds(before, k);
                    }
                    assert(entries_map(after) =~= entries_map(before).insert(key, values@));
                }
                self.entries = entries;
            },
        }
    }

    /// Removes a key and its values.
    pub fn remove(&mut self, key: &(i64, i32))
        ensures
            final(self)@ == old(self)@.remove(*key),
    {
        proof {
            use_type_invariant(&*self);
            key_position_finds(self.entries@, *key);
        }
        let ghost before = self.entries@;
        match self.position(*key) {
            Some(i) => {
                let mut entries: Vec<((i64, i32), Vec<i32>)> = Vec::new();
                core::mem::swap(&mut entries, &mut self.entries);
                entries.remove(i);
                let ghost after = entries@;
                assert(after =~= before.remove(i as int));
                assert(distinct_keys(after)) by {
                    assert forall|a: int, b: int|
                        #![trigger after[a], after[b]]
                        0 <= a < after.len() && 0 <= b < after.len() && after[a].0
                            == after[b].0 implies a == b by {
                        let a0 = if a < i { a } else { a + 1 };
                        let b0 = if b < i { b } else { b + 1 };
                        assert(before[a0].0 == after[a].0);
                        assert(before[b0].0 == after[b].0);
                    }
                }
                proof {
                    let goal = entries_map(before).remove(*key);
                    assert forall|k: (i64, i32)| #[trigger]
                        entries_map(after).contains_key(k) == goal.contains_key(k) by {
                        after_removal(before, after, i as int, *key, k);
                    }
                    assert forall|k: (i64, i32)| #[trigger]
                        entries_map(after).contains_key(k) implies entries_map(after)[k]
                        == goal[k] by {
                        after_removal(before, after, i as int, *key, k);
                    }
                    assert(entries_map(after) =~= goal);
                }
                self.entries = entries;
            },
            None => {
                assert(self@ =~= old(self)@.remove(*key));
            },
        }
    }

    /// Removes everything.
    pub fn clear(&mut self)
        ensures
            final(self)@ == Map::<(i64, i32), Seq<i32>>::empty(),
    {
        self.entries = Vec::new();
        assert(self@ =~= Map::<(i64, i32), Seq<i32>>::empty());
    }

    /// Adds contributions; see [`merged`].
    pub fn merge(&mut self, contributions: AttrBonusMap)
        ensures
            final(self)@ == merged(old(self)@, contributions@),
    {
        proof {
            use_type_invariant(&contributions);
        }
        let ghost start = self@;
        let ghost all = contributions.entries@;
        assert(merged(start, entries_map(all.take(0))) =~= start) by {
            assert(all.take(0).len() == 0);
            assert forall|k: (i64, i32)| #[trigger] start.contains_key(k) implies bonus_values(
                start,
                k,
            ) + nonzero(bonus_values(entries_map(all.take(0)), k)) == start[k] by {
                assert(bonus_values(start, k) + nonzero(
                    bonus_values(entries_map(all.take(0)), k),
                ) =~= start[k]);
            }
        }
        for i in 0..contributions.entries.len()
            invariant
                all == contributions.entries@,
                distinct_keys(all),
                self@ == merged(start, entries_map(all.take(i as int))),
        {
            let ghost part = all.take(i as int);
            let ghost next = all.take(i + 1);
            let ghost now = self@;
            let key = contributions.entries[i].0;
            let values = &contributions.entries[i].1;
            let mut kept: Vec<i32> = match self.get(&key) {
                Some(v) => crate::model::copies::copy_numbers(v),
                None => Vec::new(),
            };
            let ghost had = kept@;
            assert(had =~= bonus_values(now, key));
            assert(had + nonzero(values@.take(0)) =~= had);
            for j in 0..values.len()
                invariant
                    kept@ == had + nonzero(values@.take(j as int)),
            {
                assert(values@.take(j + 1).drop_last() =~= values@.take(j as int));
                if values[j] != 0 {
                    kept.push(values[j]);
                }
                assert(kept@ =~= had + nonzero(values@.take(j + 1)));
            }
            assert(values@.take(values@.len() as int) =~= values@);
            self.insert(key, kept);
            proof {
                assert(next.drop_last() =~= part);
                assert(next.last() == all[i as int]);
                key_position_finds(part, key);
                if key_position(part, key) is Some {
                    let p = key_position(part, key)->0 as int;
                    assert(all[p].0 == all[i as int].0);
                }
                assert(bonus_values(entries_map(part), key) =~= Seq::<i32>::empty());
                assert(nonzero(Seq::<i32>::empty()) =~= Seq::<i32>::empty());
                assert(had =~= bonus_values(start, key)) by {
                    assert(bonus_values(start, key) + Seq::<i32>::empty() =~= bonus_values(
                        start,
                        key,
                    ));
                }
                assert(bonus_values(entries_map(next), key) == values@);
                assert forall|k: (i64, i32)| k != key implies bonus_values(
                    entries_map(next),
                    k,
                ) == bonus_values(entries_map(part), k) && entries_map(next).contains_key(k)
                    == entries_map(part).contains_key(k) by {
                    key_position_finds(part, k);
                    assert(key_position(next, k) == key_position(part, k));
                }
                assert(self@ =~= merged(start, entries_map(next)));
            }
        }
        assert(all.take(all.len() as int) =~= all);
    }

    /// Takes one value of a key away. A key left without values is removed.
    pub fn remove_value(&mut self, key: (i64, i32), amount: i32)
        ensures
            final(self)@ == (if !old(self)@.contains_key(key) {
                old(self)@
            } else if without_value(old(self)@[key], amount).len() == 0 {
                old(self)@.remove(key)
            } else {
                old(self)@.insert(key, without_value(old(self)@[key], amount))
            }),
    {
        let values = match self.get(&key) {
            Some(v) => crate::model::copies::copy_numbers(v),
            None => {
                return;
            },
        };
        let ghost s = values@;
        let mut values = values;
        let mut i: usize = 0;
        assert(s.skip(0) =~= s);
        while i < values.len() && values[i] != amount
            invariant
                i <= values@.len(),
                values@ == s,
                first_value(s, amount) == match first_value(s.skip(i as int), amount) {
                    Some(k) => Some((k + i) as nat),
                    None => None,
                },
            decreases values@.len() - i,
        {
            assert(s.skip(i as int).skip(1) =~= s.skip(i + 1));
            i += 1;
        }
        if i < values.len() {
            assert(s.skip(i as int)[0] == amount);
            assert(first_value(s, amount) == Some(i as nat));
            values.swap_remove(i);
            assert(values@ =~= swap_removed(s, i as int));
        } else {
            assert(s.skip(i as int).len() == 0);
        }
        assert(values@ == without_value(s, amount));
        if values.len() == 0 {
            self.remove(&key);
        } else {
            self.insert(key, values);
        }
    }
}

impl Default for AttrBonusMap {
    fn default() -> (r: AttrBonusMap)
        ensures
            r@ == Map::<(i64, i32), Seq<i32>>::empty(),
    {
        AttrBonusMap::new()
    }
}

} // verus!
