//! Picking items out of a sequence and turning each into something else, with
//! the facts about the outcome that a walk over a mapping relies on.

use vstd::prelude::*;
use crate::mapping::{as_map, distinct_keys, has_key, lemma_entry, position_of};

verus! {

/// The images under `make` of those items that `keep` accepts, in the order of
/// the items.
pub open spec fn select<A, E>(
    items: Seq<A>,
    keep: spec_fn(A) -> bool,
    make: spec_fn(A) -> E,
) -> Seq<E>
    decreases items.len(),
{
    if items.len() == 0 {
        Seq::empty()
    } else {
        let rest = select(items.drop_last(), keep, make);
        if keep(items.last()) {
            rest.push(make(items.last()))
        } else {
            rest
        }
    }
}

/// Nothing is selected from no items.
pub proof fn lemma_select_none<A, E>(items: Seq<A>, keep: spec_fn(A) -> bool, make: spec_fn(A) -> E)
    ensures
        select(items.take(0), keep, make) == Seq::<E>::empty(),
{
    assert(items.take(0).len() == 0);
}

/// Taking one more item into account appends its image, if it is kept.
pub proof fn lemma_select_step<A, E>(
    items: Seq<A>,
    i: int,
    keep: spec_fn(A) -> bool,
    make: spec_fn(A) -> E,
)
    requires
        0 <= i < items.len(),
    ensures
        select(items.take(i + 1), keep, make) == if keep(items[i]) {
            select(items.take(i), keep, make).push(make(items[i]))
        } else {
            select(items.take(i), keep, make)
        },
{
    assert(items.take(i + 1).drop_last() =~= items.take(i));
    assert(items.take(i + 1).last() == items[i]);
}

/// What is selected: the images of the kept items, and nothing else.
pub proof fn lemma_select_contains<A, E>(
    items: Seq<A>,
    keep: spec_fn(A) -> bool,
    make: spec_fn(A) -> E,
    e: E,
)
    ensures
        select(items, keep, make).contains(e) <==> exists|i: int|
            0 <= i < items.len() && keep(#[trigger] items[i]) && make(items[i]) == e,
    decreases items.len(),
{
    if items.len() == 0 {
    } else {
        let front = items.drop_last();
        let rest = select(front, keep, make);
        lemma_select_contains(front, keep, make, e);
        if select(items, keep, make).contains(e) {
            let at = choose|j: int|
                0 <= j < select(items, keep, make).len() && select(items, keep, make)[j] == e;
            if keep(items.last()) && at == rest.len() {
                assert(keep(items[items.len() - 1]) && make(items[items.len() - 1]) == e);
            } else {
                assert(rest[at] == e);
                assert(rest.contains(e));
                let i = choose|i: int|
                    0 <= i < front.len() && keep(#[trigger] front[i]) && make(front[i]) == e;
                assert(items[i] == front[i]);
            }
        }
        if exists|i: int| 0 <= i < items.len() && keep(#[trigger] items[i]) && make(items[i]) == e {
            let i = choose|i: int|
                0 <= i < items.len() && keep(#[trigger] items[i]) && make(items[i]) == e;
            if i == items.len() - 1 {
                assert(select(items, keep, make)[rest.len() as int] == e);
            } else {
                assert(front[i] == items[i]);
                assert(rest.contains(e));
                let at = choose|j: int| 0 <= j < rest.len() && rest[j] == e;
                assert(select(items, keep, make)[at] == e);
            }
        }
    }
}

/// Where no two kept items have the same image, nothing is selected twice.
pub proof fn lemma_select_distinct<A, E>(
    items: Seq<A>,
    keep: spec_fn(A) -> bool,
    make: spec_fn(A) -> E,
)
    requires
        forall|i: int, j: int|
            0 <= i < j < items.len() && keep(#[trigger] items[i]) && keep(#[trigger] items[j])
                ==> make(items[i]) != make(items[j]),
    ensures
        select(items, keep, make).no_duplicates(),
    decreases items.len(),
{
    if items.len() == 0 {
    } else {
        let front = items.drop_last();
        let rest = select(front, keep, make);
        assert forall|i: int, j: int|
            0 <= i < j < front.len() && keep(#[trigger] front[i]) && keep(
                #[trigger] front[j],
            ) implies make(front[i]) != make(front[j]) by {
            assert(front[i] == items[i] && front[j] == items[j]);
        }
        lemma_select_distinct(front, keep, make);
        if keep(items.last()) {
            let e = make(items.last());
            lemma_select_contains(front, keep, make, e);
            if rest.contains(e) {
                let i = choose|i: int|
                    0 <= i < front.len() && keep(#[trigger] front[i]) && make(front[i]) == e;
                assert(front[i] == items[i]);
                assert(keep(items[items.len() - 1]));
                assert(false);
            }
            assert forall|a: int, b: int|
                0 <= a < rest.push(e).len() && 0 <= b < rest.push(e).len() && a != b implies rest.push(
                e,
            )[a] != rest.push(e)[b] by {
                if a < rest.len() && b < rest.len() {
                } else if a < rest.len() {
                    assert(rest[a] == rest.push(e)[a]);
                    assert(rest.contains(rest[a]));
                } else {
                    assert(rest[b] == rest.push(e)[b]);
                    assert(rest.contains(rest[b]));
                }
            }
        }
    }
}

/// Where every item is kept, as many images are selected as there are items;
/// where none is kept, none.
pub proof fn lemma_select_len<A, E>(items: Seq<A>, keep: spec_fn(A) -> bool, make: spec_fn(A) -> E)
    ensures
        (forall|i: int| 0 <= i < items.len() ==> keep(#[trigger] items[i])) ==> select(
            items,
            keep,
            make,
        ).len() == items.len(),
        (forall|i: int| 0 <= i < items.len() ==> !keep(#[trigger] items[i])) ==> select(
            items,
            keep,
            make,
        ).len() == 0,
    decreases items.len(),
{
    if items.len() > 0 {
        let front = items.drop_last();
        lemma_select_len(front, keep, make);
        assert(forall|i: int| 0 <= i < front.len() ==> front[i] == items[i]);
        assert(items.last() == items[items.len() - 1]);
        if forall|i: int| 0 <= i < items.len() ==> keep(#[trigger] items[i]) {
            assert forall|i: int| 0 <= i < front.len() implies keep(#[trigger] front[i]) by {
                assert(front[i] == items[i]);
            }
        }
        if forall|i: int| 0 <= i < items.len() ==> !keep(#[trigger] items[i]) {
            assert forall|i: int| 0 <= i < front.len() implies !keep(#[trigger] front[i]) by {
                assert(front[i] == items[i]);
            }
        }
    }
}

/// Accepts the pairs whose key has no entry in `other`.
pub open spec fn key_missing_in<K, V>(other: Map<K, V>) -> spec_fn((K, V)) -> bool {
    |p: (K, V)| !other.contains_key(p.0)
}

/// Accepts the pairs that are no entry of `other`: the key has none there, or
/// one with another value.
pub open spec fn entry_missing_in<K, V>(other: Map<K, V>) -> spec_fn((K, V)) -> bool {
    |p: (K, V)| !(other.contains_key(p.0) && other[p.0] == p.1)
}

/// What is selected from the entries of a mapping by their absence from
/// another map: one image for each entry of the first that is no entry of the
/// second.
pub proof fn lemma_select_entries<K, V, E>(
    pairs: Seq<(K, V)>,
    keep: spec_fn((K, V)) -> bool,
    make: spec_fn((K, V)) -> E,
    e: E,
)
    requires
        distinct_keys(pairs),
    ensures
        select(pairs, keep, make).contains(e) <==> exists|k: K|
            #![trigger as_map(pairs).contains_key(k)]
            as_map(pairs).contains_key(k) && keep((k, as_map(pairs)[k])) && make(
                (k, as_map(pairs)[k]),
            ) == e,
{
    lemma_select_contains(pairs, keep, make, e);
    if select(pairs, keep, make).contains(e) {
        let i = choose|i: int|
            0 <= i < pairs.len() && keep(#[trigger] pairs[i]) && make(pairs[i]) == e;
        lemma_entry(pairs, i);
        assert(as_map(pairs).contains_key(pairs[i].0));
        assert((pairs[i].0, as_map(pairs)[pairs[i].0]) == pairs[i]);
    }
    if exists|k: K|
        #![trigger as_map(pairs).contains_key(k)]
        as_map(pairs).contains_key(k) && keep((k, as_map(pairs)[k])) && make(
            (k, as_map(pairs)[k]),
        ) == e {
        let k = choose|k: K|
            #![trigger as_map(pairs).contains_key(k)]
            as_map(pairs).contains_key(k) && keep((k, as_map(pairs)[k])) && make(
                (k, as_map(pairs)[k]),
            ) == e;
        assert(has_key(pairs, k));
        let i = position_of(pairs, k);
        lemma_entry(pairs, i);
        assert(pairs[i] == (k, as_map(pairs)[k]));
    }
}

} // verus!
