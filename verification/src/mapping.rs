//! A finite mapping from keys to values, kept as a list of entries in which no
//! key occurs twice.
//!
//! The model of a [`Mapping`] is a `Map` from key models to value models. The
//! entries also have a position, which is how a mapping is walked: position
//! `i` holds `pairs()[i]`, for `i` below `len()`.

use vstd::prelude::*;
use crate::entity::Entity;

verus! {

/// Whether no two pairs of `pairs` have the same first component.
pub open spec fn distinct_keys<A, B>(pairs: Seq<(A, B)>) -> bool {
    forall|i: int, j: int|
        0 <= i < j < pairs.len() ==> (#[trigger] pairs[i]).0 != (#[trigger] pairs[j]).0
}

/// Whether some pair of `pairs` has `key` as its first component.
pub open spec fn has_key<A, B>(pairs: Seq<(A, B)>, key: A) -> bool {
    exists|i: int| 0 <= i < pairs.len() && (#[trigger] pairs[i]).0 == key
}

/// A position of `pairs` at which `key` stands, where there is one.
pub open spec fn position_of<A, B>(pairs: Seq<(A, B)>, key: A) -> int {
    choose|i: int| 0 <= i < pairs.len() && (#[trigger] pairs[i]).0 == key
}

/// The map that takes the first component of each pair to its second.
pub open spec fn as_map<A, B>(pairs: Seq<(A, B)>) -> Map<A, B> {
    Map::new(|k: A| has_key(pairs, k), |k: A| pairs[position_of(pairs, k)].1)
}

/// The map that comes of entering the pairs one after the other, so that of
/// two pairs with the same key the later one stays.
pub open spec fn collected<A, B>(pairs: Seq<(A, B)>) -> Map<A, B>
    decreases pairs.len(),
{
    if pairs.len() == 0 {
        Map::empty()
    } else {
        collected(pairs.drop_last()).insert(pairs.last().0, pairs.last().1)
    }
}

/// With distinct keys, the pair at position `i` is the map's entry for its key.
pub proof fn lemma_entry<A, B>(pairs: Seq<(A, B)>, i: int)
    requires
        distinct_keys(pairs),
        0 <= i < pairs.len(),
    ensures
        as_map(pairs).contains_key(pairs[i].0),
        as_map(pairs)[pairs[i].0] == pairs[i].1,
{
    let k = pairs[i].0;
    assert(has_key(pairs, k));
    let j = position_of(pairs, k);
    assert(0 <= j < pairs.len() && pairs[j].0 == k);
    assert(j == i);
}

/// Appending a pair with a new key inserts it in the map.
pub proof fn lemma_push<A, B>(pairs: Seq<(A, B)>, key: A, value: B)
    requires
        distinct_keys(pairs),
        !has_key(pairs, key),
    ensures
        distinct_keys(pairs.push((key, value))),
        as_map(pairs.push((key, value))) == as_map(pairs).insert(key, value),
{
    let next = pairs.push((key, value));
    assert forall|i: int, j: int| 0 <= i < j < next.len() implies (#[trigger] next[i]).0 != (
    #[trigger] next[j]).0 by {
        if j < pairs.len() {
            assert(next[i] == pairs[i] && next[j] == pairs[j]);
        } else {
            assert(next[i] == pairs[i]);
        }
    }
    assert forall|k: A| has_key(next, k) <==> (k == key || has_key(pairs, k)) by {
        if has_key(next, k) {
            let i = position_of(next, k);
            if i < pairs.len() {
                assert(pairs[i].0 == k);
            }
        }
        if has_key(pairs, k) {
            let i = position_of(pairs, k);
            assert(next[i].0 == k);
        }
        if k == key {
            assert(next[pairs.len() as int].0 == k);
        }
    }
    assert forall|k: A| has_key(next, k) implies #[trigger] as_map(next)[k] == as_map(
        pairs,
    ).insert(key, value)[k] by {
        let i = position_of(next, k);
        lemma_entry(next, i);
        if i < pairs.len() {
            assert(next[i] == pairs[i]);
            lemma_entry(pairs, i);
        }
    }
    assert(as_map(next) =~= as_map(pairs).insert(key, value));
}

/// Replacing the value at position `i` overwrites the map's entry for that key.
pub proof fn lemma_overwrite<A, B>(pairs: Seq<(A, B)>, i: int, value: B)
    requires
        distinct_keys(pairs),
        0 <= i < pairs.len(),
    ensures
        distinct_keys(pairs.update(i, (pairs[i].0, value))),
        as_map(pairs.update(i, (pairs[i].0, value))) == as_map(pairs).insert(pairs[i].0, value),
{
    let key = pairs[i].0;
    let next = pairs.update(i, (key, value));
    assert forall|a: int, b: int| 0 <= a < b < next.len() implies (#[trigger] next[a]).0 != (
    #[trigger] next[b]).0 by {
        assert(next[a].0 == pairs[a].0 && next[b].0 == pairs[b].0);
    }
    assert forall|k: A| has_key(next, k) <==> has_key(pairs, k) by {
        if has_key(next, k) {
            let j = position_of(next, k);
            assert(pairs[j].0 == k);
        }
        if has_key(pairs, k) {
            let j = position_of(pairs, k);
            assert(next[j].0 == k);
        }
    }
    assert(has_key(pairs, key));
    assert forall|k: A| has_key(next, k) implies #[trigger] as_map(next)[k] == as_map(
        pairs,
    ).insert(key, value)[k] by {
        let j = position_of(next, k);
        lemma_entry(next, j);
        if j != i {
            assert(next[j] == pairs[j]);
            lemma_entry(pairs, j);
        }
    }
    assert(as_map(next) =~= as_map(pairs).insert(key, value));
}

/// Taking out the pair at position `i` removes its key from the map.
pub proof fn lemma_take_out<A, B>(pairs: Seq<(A, B)>, i: int)
    requires
        distinct_keys(pairs),
        0 <= i < pairs.len(),
    ensures
        distinct_keys(pairs.remove(i)),
        as_map(pairs.remove(i)) == as_map(pairs).remove(pairs[i].0),
{
    let key = pairs[i].0;
    let next = pairs.remove(i);
    assert forall|a: int| 0 <= a < next.len() implies #[trigger] next[a] == pairs[if a < i {
        a
    } else {
        a + 1
    }] by {}
    assert forall|a: int, b: int| 0 <= a < b < next.len() implies (#[trigger] next[a]).0 != (
    #[trigger] next[b]).0 by {
        let a0 = if a < i { a } else { a + 1 };
        let b0 = if b < i { b } else { b + 1 };
        assert(next[a] == pairs[a0] && next[b] == pairs[b0]);
    }
    assert forall|k: A| has_key(next, k) <==> (k != key && has_key(pairs, k)) by {
        if has_key(next, k) {
            let j = position_of(next, k);
            let j0 = if j < i { j } else { j + 1 };
            assert(next[j] == pairs[j0]);
            assert(pairs[j0].0 == k);
            assert(j0 != i);
            if j0 < i {
                assert(pairs[j0].0 != pairs[i].0);
            } else {
                assert(pairs[i].0 != pairs[j0].0);
            }
        }
        if k != key && has_key(pairs, k) {
            let j = position_of(pairs, k);
            let j1 = if j < i { j } else { j - 1 };
            assert(next[j1] == pairs[j]);
            assert(next[j1].0 == k);
        }
    }
    assert forall|k: A| has_key(next, k) implies #[trigger] as_map(next)[k] == as_map(
        pairs,
    ).remove(key)[k] by {
        let j = position_of(next, k);
        let j0 = if j < i { j } else { j + 1 };
        lemma_entry(next, j);
        assert(next[j] == pairs[j0]);
        lemma_entry(pairs, j0);
    }
    assert(as_map(next) =~= as_map(pairs).remove(key));
}

/// Lists of pairs with distinct keys that stand for the same map are equally
/// long.
pub proof fn lemma_as_long<A, B>(p: Seq<(A, B)>, q: Seq<(A, B)>)
    requires
        distinct_keys(p),
        distinct_keys(q),
        as_map(p) == as_map(q),
    ensures
        p.len() == q.len(),
{
    let first = |x: (A, B)| x.0;
    let pk = p.map_values(first);
    let qk = q.map_values(first);
    assert(pk.no_duplicates()) by {
        assert forall|i: int, j: int| 0 <= i < pk.len() && 0 <= j < pk.len() && i != j implies pk[i]
            != pk[j] by {
            if i < j {
                assert(p[i].0 != p[j].0);
            } else {
                assert(p[j].0 != p[i].0);
            }
        }
    }
    assert(qk.no_duplicates()) by {
        assert forall|i: int, j: int| 0 <= i < qk.len() && 0 <= j < qk.len() && i != j implies qk[i]
            != qk[j] by {
            if i < j {
                assert(q[i].0 != q[j].0);
            } else {
                assert(q[j].0 != q[i].0);
            }
        }
    }
    pk.unique_seq_to_set();
    qk.unique_seq_to_set();
    assert(pk.to_set() =~= qk.to_set()) by {
        assert forall|k: A| pk.to_set().contains(k) <==> qk.to_set().contains(k) by {
            if pk.to_set().contains(k) {
                let i = choose|i: int| 0 <= i < pk.len() && pk[i] == k;
                assert(p[i].0 == k);
                assert(as_map(p).contains_key(k));
                assert(has_key(q, k));
                let j = position_of(q, k);
                assert(qk[j] == k);
            }
            if qk.to_set().contains(k) {
                let j = choose|j: int| 0 <= j < qk.len() && qk[j] == k;
                assert(q[j].0 == k);
                assert(as_map(q).contains_key(k));
                assert(has_key(p, k));
                let i = position_of(p, k);
                assert(pk[i] == k);
            }
        }
    }
}

/// Two lists of pairs with distinct keys and the same length stand for the same
/// map as soon as every pair of the first is an entry of the second.
pub proof fn lemma_same_map<A, B>(p: Seq<(A, B)>, q: Seq<(A, B)>)
    requires
        distinct_keys(p),
        distinct_keys(q),
        p.len() == q.len(),
        forall|i: int|
            0 <= i < p.len() ==> as_map(q).contains_key((#[trigger] p[i]).0) && as_map(q)[p[i].0]
                == p[i].1,
    ensures
        as_map(p) == as_map(q),
{
    let first = |x: (A, B)| x.0;
    let pk = p.map_values(first);
    let qk = q.map_values(first);
    assert(pk.no_duplicates()) by {
        assert forall|i: int, j: int| 0 <= i < pk.len() && 0 <= j < pk.len() && i != j implies pk[i]
            != pk[j] by {
            if i < j {
                assert(p[i].0 != p[j].0);
            } else {
                assert(p[j].0 != p[i].0);
            }
        }
    }
    assert(qk.no_duplicates()) by {
        assert forall|i: int, j: int| 0 <= i < qk.len() && 0 <= j < qk.len() && i != j implies qk[i]
            != qk[j] by {
            if i < j {
                assert(q[i].0 != q[j].0);
            } else {
                assert(q[j].0 != q[i].0);
            }
        }
    }
    pk.unique_seq_to_set();
    qk.unique_seq_to_set();
    vstd::seq_lib::seq_to_set_is_finite(pk);
    vstd::seq_lib::seq_to_set_is_finite(qk);
    assert(pk.to_set().subset_of(qk.to_set())) by {
        assert forall|k: A| pk.to_set().contains(k) implies qk.to_set().contains(k) by {
            let i = choose|i: int| 0 <= i < pk.len() && pk[i] == k;
            assert(p[i].0 == k);
            assert(has_key(q, k));
            let j = position_of(q, k);
            assert(qk[j] == k);
        }
    }
    vstd::set_lib::lemma_subset_equality(pk.to_set(), qk.to_set());
    assert forall|k: A| has_key(q, k) implies has_key(p, k) by {
        let j = position_of(q, k);
        assert(qk[j] == k);
        assert(qk.to_set().contains(k));
        assert(pk.to_set().contains(k));
        let i = choose|i: int| 0 <= i < pk.len() && pk[i] == k;
        assert(p[i].0 == k);
    }
    assert forall|k: A| has_key(p, k) implies has_key(q, k) && #[trigger] as_map(p)[k] == as_map(
        q,
    )[k] by {
        let i = position_of(p, k);
        lemma_entry(p, i);
    }
    assert(as_map(p) =~= as_map(q));
}

/// The models of a list of entries, position by position.
spec fn models<K: Entity, V: Entity>(entries: Seq<(K, V)>) -> Seq<
    (<K as DeepView>::V, <V as DeepView>::V),
> {
    Seq::new(entries.len(), |i: int| (entries[i].0.deep_view(), entries[i].1.deep_view()))
}

/// A finite mapping from keys to values in which each key maps to one value.
#[derive(Debug)]
pub struct Mapping<K: Entity, V: Entity> {
    entries: Vec<(K, V)>,
}

impl<K: Entity, V: Entity> DeepView for Mapping<K, V> {
    type V = Map<<K as DeepView>::V, <V as DeepView>::V>;

    open spec fn deep_view(&self) -> Map<<K as DeepView>::V, <V as DeepView>::V> {
        as_map(self.pairs())
    }
}

impl<K: Entity, V: Entity> Mapping<K, V> {
    /// The models of the entries, by position.
    pub closed spec fn pairs(&self) -> Seq<(<K as DeepView>::V, <V as DeepView>::V)> {
        models(self.entries@)
    }

    #[verifier::type_invariant]
    spec fn keys_are_distinct(&self) -> bool {
        distinct_keys(self.pairs())
    }

    /// The mapping without entries.
    pub fn new() -> (m: Self)
        ensures
            m.pairs() == Seq::<(<K as DeepView>::V, <V as DeepView>::V)>::empty(),
            m.deep_view() == Map::<<K as DeepView>::V, <V as DeepView>::V>::empty(),
    {
        let m = Mapping { entries: Vec::new() };
        proof {
            assert(m.pairs() =~= Seq::<(<K as DeepView>::V, <V as DeepView>::V)>::empty());
            assert(m.deep_view() =~= Map::<<K as DeepView>::V, <V as DeepView>::V>::empty());
        }
        m
    }

    /// The mapping that comes of entering `pairs` one after the other. Where a
    /// key comes twice, its later value stays.
    pub fn from_pairs(pairs: Vec<(K, V)>) -> (m: Self)
        ensures
            m.deep_view() == collected(pairs.deep_view()),
    {
        let ghost all = pairs.deep_view();
        let mut m: Mapping<K, V> = Mapping::new();
        proof {
            assert(all.take(0) =~= Seq::empty());
        }
        for pair in it: pairs
            invariant
                it.seq().len() == all.len(),
                forall|j: int|
                    0 <= j < it.seq().len() ==> (#[trigger] it.seq()[j]).deep_view() == all[j],
                m.deep_view() == collected(all.take(it.index() as int)),
        {
            let ghost i = it.index() as int;
            proof {
                assert(all.take(i + 1).drop_last() =~= all.take(i));
                assert(all.take(i + 1).last() == all[i]);
            }
            m.insert(pair.0, pair.1);
        }
        proof {
            assert(all.take(all.len() as int) =~= all);
        }
        m
    }

    /// The number of entries. The positions below it hold one entry each, and
    /// no two of them hold the same key.
    pub fn len(&self) -> (n: usize)
        ensures
            n == self.pairs().len(),
            distinct_keys(self.pairs()),
    {
        proof {
            use_type_invariant(self);
        }
        self.entries.len()
    }

    /// Whether the mapping has no entry.
    pub fn is_empty(&self) -> (r: bool)
        ensures
            r == (self.pairs().len() == 0),
            r == (self.deep_view() == Map::<<K as DeepView>::V, <V as DeepView>::V>::empty()),
    {
        let r = self.entries.len() == 0;
        proof {
            if r {
                assert(self.deep_view() =~= Map::<<K as DeepView>::V, <V as DeepView>::V>::empty());
            } else {
                assert(has_key(self.pairs(), self.pairs()[0].0));
                assert(self.deep_view().contains_key(self.pairs()[0].0));
            }
        }
        r
    }

    /// The key at position `i`.
    pub fn key_at(&self, i: usize) -> (key: &K)
        requires
            i < self.pairs().len(),
        ensures
            key.deep_view() == self.pairs()[i as int].0,
    {
        &self.entries[i].0
    }

    /// The value at position `i`.
    pub fn value_at(&self, i: usize) -> (value: &V)
        requires
            i < self.pairs().len(),
        ensures
            value.deep_view() == self.pairs()[i as int].1,
    {
        &self.entries[i].1
    }

    /// The position at which `key` stands, if it stands anywhere.
    fn position(&self, key: &K) -> (r: Option<usize>)
        ensures
            match r {
                Some(i) => i < self.pairs().len() && self.pairs()[i as int].0 == key.deep_view(),
                None => !has_key(self.pairs(), key.deep_view()),
            },
    {
        let mut i: usize = 0;
        while i < self.entries.len()
            invariant
                i <= self.entries.len(),
                self.entries@.len() == self.pairs().len(),
                forall|j: int| 0 <= j < i ==> (#[trigger] self.pairs()[j]).0 != key.deep_view(),
            decreases self.entries.len() - i,
        {
            if self.entries[i].0.same(key) {
                return Some(i);
            }
            i += 1;
        }
        None
    }

    /// Whether `key` has an entry.
    pub fn contains_key(&self, key: &K) -> (r: bool)
        ensures
            r == self.deep_view().contains_key(key.deep_view()),
    {
        self.position(key).is_some()
    }

    /// The value that `key` maps to, if it has an entry.
    pub fn get(&self, key: &K) -> (r: Option<&V>)
        ensures
            match r {
                Some(value) => self.deep_view().contains_key(key.deep_view())
                    && value.deep_view() == self.deep_view()[key.deep_view()],
                None => !self.deep_view().contains_key(key.deep_view()),
            },
    {
        match self.position(key) {
            Some(i) => {
                proof {
                    use_type_invariant(self);
                    lemma_entry(self.pairs(), i as int);
                }
                Some(&self.entries[i].1)
            },
            None => None,
        }
    }

    /// Lets `key` map to `value`, whether or not it had an entry, and returns
    /// the value that it mapped to before.
    pub fn insert(&mut self, key: K, value: V) -> (previous: Option<V>)
        ensures
            final(self).deep_view() == old(self).deep_view().insert(
                key.deep_view(),
                value.deep_view(),
            ),
            match previous {
                Some(p) => old(self).deep_view().contains_key(key.deep_view()) && p.deep_view()
                    == old(self).deep_view()[key.deep_view()],
                None => !old(self).deep_view().contains_key(key.deep_view()),
            },
    {
        proof {
            use_type_invariant(&*self);
        }
        let found = self.position(&key);
        let ghost before = self.pairs();
        let mut entries: Vec<(K, V)> = Vec::new();
        proof {
            assert(models(entries@) =~= Seq::empty());
        }
        core::mem::swap(&mut self.entries, &mut entries);
        let previous = match found {
            Some(i) => {
                proof {
                    lemma_entry(before, i as int);
                    lemma_overwrite(before, i as int, value.deep_view());
                }
                let mut held = value;
                core::mem::swap(&mut entries[i].1, &mut held);
                proof {
                    assert(models(entries@) =~= before.update(
                        i as int,
                        (before[i as int].0, value.deep_view()),
                    ));
                }
                Some(held)
            },
            None => {
                proof {
                    lemma_push(before, key.deep_view(), value.deep_view());
                }
                entries.push((key, value));
                proof {
                    assert(models(entries@) =~= before.push((key.deep_view(), value.deep_view())));
                }
                None
            },
        };
        core::mem::swap(&mut self.entries, &mut entries);
        previous
    }

    /// Takes out the entry of `key`, if it has one, and returns its value.
    pub fn remove(&mut self, key: &K) -> (previous: Option<V>)
        ensures
            final(self).deep_view() == old(self).deep_view().remove(key.deep_view()),
            match previous {
                Some(p) => old(self).deep_view().contains_key(key.deep_view()) && p.deep_view()
                    == old(self).deep_view()[key.deep_view()],
                None => !old(self).deep_view().contains_key(key.deep_view()),
            },
    {
        proof {
            use_type_invariant(&*self);
        }
        match self.position(key) {
            Some(i) => {
                let ghost before = self.pairs();
                let mut entries: Vec<(K, V)> = Vec::new();
                proof {
                    assert(models(entries@) =~= Seq::empty());
                    lemma_entry(before, i as int);
                    lemma_take_out(before, i as int);
                }
                core::mem::swap(&mut self.entries, &mut entries);
                let taken = entries.remove(i);
                proof {
                    assert(models(entries@) =~= before.remove(i as int));
                }
                core::mem::swap(&mut self.entries, &mut entries);
                Some(taken.1)
            },
            None => {
                proof {
                    assert(self.deep_view() =~= self.deep_view().remove(key.deep_view()));
                }
                None
            },
        }
    }
}

impl<K: Entity, V: Entity> Entity for Mapping<K, V> {
    fn same(&self, other: &Self) -> (r: bool) {
        proof {
            use_type_invariant(self);
            use_type_invariant(other);
        }
        if self.entries.len() != other.entries.len() {
            proof {
                if self.deep_view() == other.deep_view() {
                    // Equal maps have as many keys; the lists would be as long.
                    lemma_as_long(self.pairs(), other.pairs());
                }
            }
            return false;
        }
        let mut i: usize = 0;
        while i < self.entries.len()
            invariant
                i <= self.entries.len(),
                self.entries@.len() == self.pairs().len(),
                self.pairs().len() == other.pairs().len(),
                distinct_keys(self.pairs()),
                distinct_keys(other.pairs()),
                forall|j: int|
                    0 <= j < i ==> other.deep_view().contains_key((#[trigger] self.pairs()[j]).0)
                        && other.deep_view()[self.pairs()[j].0] == self.pairs()[j].1,
            decreases self.entries.len() - i,
        {
            let matches = match other.get(&self.entries[i].0) {
                Some(value) => value.same(&self.entries[i].1),
                None => false,
            };
            if !matches {
                proof {
                    lemma_entry(self.pairs(), i as int);
                }
                return false;
            }
            i += 1;
        }
        proof {
            lemma_same_map(self.pairs(), other.pairs());
        }
        true
    }

    fn duplicate(&self) -> (r: Self) {
        proof {
            use_type_invariant(self);
        }
        let mut entries: Vec<(K, V)> = Vec::new();
        let mut i: usize = 0;
        while i < self.entries.len()
            invariant
                i <= self.entries.len(),
                entries.len() == i,
                forall|j: int|
                    0 <= j < i ==> (#[trigger] entries[j]).0.deep_view()
                        == self.entries[j].0.deep_view() && entries[j].1.deep_view()
                        == self.entries[j].1.deep_view(),
            decreases self.entries.len() - i,
        {
            entries.push((self.entries[i].0.duplicate(), self.entries[i].1.duplicate()));
            i += 1;
        }
        proof {
            assert(models(entries@) =~= self.pairs());
        }
        Mapping { entries }
    }
}

impl<K: Entity, V: Entity> Clone for Mapping<K, V> {
    fn clone(&self) -> (r: Self)
        ensures
            r.deep_view() == self.deep_view(),
    {
        self.duplicate()
    }
}

} // verus!
