//! Lists that are picked, filtered and mapped.
use vstd::prelude::*;
use crate::domain::kept;
use crate::order::picked;

verus! {

/// The items at the rising positions of those with a property are those with the property.
pub proof fn lemma_picked_filter<T>(items: Seq<T>, order: Seq<usize>, p: spec_fn(T) -> bool)
    requires
        items.len() <= usize::MAX,
        forall|k: int| 0 <= k < order.len() ==> #[trigger] order[k] < items.len(),
        forall|k: int, l: int|
            0 <= k < l < order.len() ==> #[trigger] order[k] < #[trigger] order[l],
        forall|i: int|
            0 <= i < items.len() ==> (p(#[trigger] items[i]) <==> order.contains(i as usize)),
    ensures
        picked(items, order) == items.filter(p),
    decreases items.len(),
{
    reveal(Seq::filter);
    if items.len() == 0 {
        assert(order.len() == 0) by {
            if order.len() > 0 {
                assert(order[0] < items.len());
            }
        }
        assert(picked(items, order) =~= items.filter(p));
    } else {
        let front = items.drop_last();
        let n = items.len() - 1;
        if p(items.last()) {
            assert(p(items[n]));
            let a = choose|a: int| 0 <= a < order.len() && order[a] == n as usize;
            assert(a == order.len() - 1) by {
                if a < order.len() - 1 {
                    assert(order[a] < order[order.len() - 1]);
                }
            }
            let rest = order.drop_last();
            assert forall|i: int| 0 <= i < front.len() implies (p(#[trigger] front[i])
                <==> rest.contains(i as usize)) by {
                assert(front[i] == items[i]);
                if order.contains(i as usize) {
                    let b = choose|b: int| 0 <= b < order.len() && order[b] == i as usize;
                    assert(rest[b] == i as usize);
                }
                if rest.contains(i as usize) {
                    let b = choose|b: int| 0 <= b < rest.len() && rest[b] == i as usize;
                    assert(order[b] == i as usize);
                }
            }
            assert forall|k: int| 0 <= k < rest.len() implies #[trigger] rest[k] < front.len() by {
                assert(order[k] < order[order.len() - 1]);
            }
            lemma_picked_filter(front, rest, p);
            assert(picked(items, order) =~= picked(front, rest).push(items.last()));
        } else {
            assert(!p(items[n]));
            assert forall|k: int| 0 <= k < order.len()
                implies #[trigger] order[k] < front.len() by {
                if order[k] == n {
                    assert(order.contains(n as usize));
                }
            }
            assert forall|i: int| 0 <= i < front.len() implies (p(#[trigger] front[i])
                <==> order.contains(i as usize)) by {
                assert(front[i] == items[i]);
            }
            lemma_picked_filter(front, order, p);
            assert(picked(items, order) =~= picked(front, order));
        }
    }
}

/// Keeping what a function gives for each item is to filter and map.
pub proof fn lemma_kept_filter_map<T, U>(
    items: Seq<T>,
    all: Seq<Option<U>>,
    f: spec_fn(T) -> Option<U>,
)
    requires
        all.len() == items.len(),
        forall|k: int| 0 <= k < items.len() ==> #[trigger] all[k] == f(items[k]),
    ensures
        kept(all) == items.filter_map(f),
    decreases items.len(),
{
    if items.len() > 0 {
        let front = items.drop_last();
        let rest = all.drop_last();
        assert forall|k: int| 0 <= k < front.len() implies #[trigger] rest[k] == f(front[k]) by {
            assert(all[k] == f(items[k]));
        }
        lemma_kept_filter_map(front, rest, f);
        assert(all[items.len() - 1] == f(items[items.len() - 1]));
        assert(kept(all) =~= items.filter_map(f));
    } else {
        assert(kept(all) =~= items.filter_map(f));
    }
}

/// Keeping the items with a property is to filter.
pub proof fn lemma_kept_filter<T>(items: Seq<T>, all: Seq<Option<T>>, p: spec_fn(T) -> bool)
    requires
        all.len() == items.len(),
        forall|k: int|
            0 <= k < items.len() ==> #[trigger] all[k] == (if p(items[k]) {
                Some(items[k])
            } else {
                None
            }),
    ensures
        kept(all) == items.filter(p),
    decreases items.len(),
{
    reveal(Seq::filter);
    if items.len() > 0 {
        let front = items.drop_last();
        let rest = all.drop_last();
        assert forall|k: int| 0 <= k < front.len() implies #[trigger] rest[k] == (if p(front[k]) {
            Some(front[k])
        } else {
            None
        }) by {
            assert(all[k] == (if p(items[k]) {
                Some(items[k])
            } else {
                None
            }));
        }
        lemma_kept_filter(front, rest, p);
        assert(all[items.len() - 1] == (if p(items[items.len() - 1]) {
            Some(items[items.len() - 1])
        } else {
            None
        }));
    } else {
        assert(kept(all) =~= items.filter(p));
    }
}

/// As many items are kept as have the property, where something is kept of exactly these.
pub proof fn lemma_kept_count<T, U>(items: Seq<T>, all: Seq<Option<U>>, p: spec_fn(T) -> bool)
    requires
        all.len() == items.len(),
        forall|k: int| 0 <= k < items.len() ==> ((#[trigger] all[k]) is Some <==> p(items[k])),
    ensures
        kept(all).len() == items.filter(p).len(),
    decreases items.len(),
{
    reveal(Seq::filter);
    if items.len() > 0 {
        let front = items.drop_last();
        let rest = all.drop_last();
        assert forall|k: int| 0 <= k < front.len() implies ((#[trigger] rest[k]) is Some <==> p(
            front[k],
        )) by {
            assert(all[k] is Some <==> p(items[k]));
        }
        lemma_kept_count(front, rest, p);
        assert(all[items.len() - 1] is Some <==> p(items[items.len() - 1]));
    }
}

/// The positions of what is kept rise.
pub proof fn lemma_kept_positions<T>(all: Seq<Option<T>>) -> (positions: Seq<int>)
    ensures
        positions.len() == kept(all).len(),
        forall|k: int|
            0 <= k < positions.len() ==> 0 <= #[trigger] positions[k] < all.len()
                && all[positions[k]] == Some(kept(all)[k]),
        forall|k: int, l: int|
            0 <= k < l < positions.len() ==> #[trigger] positions[k] < #[trigger] positions[l],
    decreases all.len(),
{
    if all.len() == 0 {
        Seq::empty()
    } else {
        let front = all.drop_last();
        let before = lemma_kept_positions(front);
        assert forall|k: int| 0 <= k < before.len() implies 0 <= #[trigger] before[k] < all.len()
            && all[before[k]] == Some(kept(front)[k]) by {
            assert(front[before[k]] == all[before[k]]);
        }
        if all.last() is Some {
            before.push(all.len() - 1)
        } else {
            before
        }
    }
}

/// Picking by the positions that are kept is to filter what is picked by all of them.
pub proof fn lemma_picked_kept<T>(
    items: Seq<T>,
    order: Seq<usize>,
    all: Seq<Option<usize>>,
    p: spec_fn(T) -> bool,
)
    requires
        all.len() == order.len(),
        forall|k: int|
            0 <= k < order.len() ==> #[trigger] all[k] == (if p(items[order[k] as int]) {
                Some(order[k])
            } else {
                None
            }),
    ensures
        picked(items, kept(all)) == picked(items, order).filter(p),
    decreases order.len(),
{
    reveal(Seq::filter);
    if order.len() > 0 {
        let n = order.len() - 1;
        let front = order.drop_last();
        let rest = all.drop_last();
        assert forall|k: int| 0 <= k < front.len() implies #[trigger] rest[k] == (if p(
            items[front[k] as int],
        ) {
            Some(front[k])
        } else {
            None
        }) by {
            assert(all[k] == (if p(items[order[k] as int]) {
                Some(order[k])
            } else {
                None
            }));
        }
        lemma_picked_kept(items, front, rest, p);
        assert(all[n] == (if p(items[order[n] as int]) {
            Some(order[n])
        } else {
            None
        }));
        assert(picked(items, order).drop_last() =~= picked(items, front));
        assert(picked(items, order).last() == items[order[n] as int]);
        if p(items[order[n] as int]) {
            assert(picked(items, kept(all)) =~= picked(items, kept(rest)).push(
                items[order[n] as int],
            ));
        }
    } else {
        assert(picked(items, kept(all)) =~= picked(items, order).filter(p));
    }
}

/// What filtering and mapping gives comes from an item, and each item that gives something is
/// there.
pub proof fn lemma_filter_map_holds<T, U>(items: Seq<T>, f: spec_fn(T) -> Option<U>)
    ensures
        forall|i: int|
            0 <= i < items.len() && f(#[trigger] items[i]) is Some ==> items.filter_map(f).contains(
                f(items[i])->0,
            ),
        forall|k: int|
            0 <= k < items.filter_map(f).len() ==> exists|i: int|
                0 <= i < items.len() && f(#[trigger] items[i]) == Some(
                    #[trigger] items.filter_map(f)[k],
                ),
        items.filter_map(f).len() <= items.len(),
    decreases items.len(),
{
    if items.len() > 0 {
        let front = items.drop_last();
        lemma_filter_map_holds(front, f);
        let before = front.filter_map(f);
        let all = items.filter_map(f);
        assert forall|i: int|
            0 <= i < items.len() && f(#[trigger] items[i]) is Some implies all.contains(
            f(items[i])->0,
        ) by {
            if i < front.len() {
                assert(front[i] == items[i]);
                let k = choose|k: int| 0 <= k < before.len() && before[k] == f(front[i])->0;
                assert(all[k] == before[k]);
            } else {
                assert(all[all.len() - 1] == f(items.last())->0);
            }
        }
        assert forall|k: int| 0 <= k < all.len() implies exists|i: int|
            0 <= i < items.len() && f(#[trigger] items[i]) == Some(#[trigger] all[k]) by {
            if k < before.len() {
                assert(all[k] == before[k]);
                let i = choose|i: int| 0 <= i < front.len()
                    && f(#[trigger] front[i]) == Some(before[k]);
                assert(items[i] == front[i]);
            } else {
                assert(items[items.len() - 1] == items.last());
            }
        }
    }
}

/// What is filtered comes from the list, and each item with the property is there.
pub proof fn lemma_filter_holds<T>(items: Seq<T>, p: spec_fn(T) -> bool)
    ensures
        forall|i: int|
            0 <= i < items.len() && p(#[trigger] items[i]) ==> items.filter(p).contains(items[i]),
        forall|k: int|
            0 <= k < items.filter(p).len() ==> items.contains(#[trigger] items.filter(p)[k]) && p(
                items.filter(p)[k],
            ),
        items.filter(p).len() <= items.len(),
    decreases items.len(),
{
    reveal(Seq::filter);
    if items.len() > 0 {
        let front = items.drop_last();
        lemma_filter_holds(front, p);
        let before = front.filter(p);
        let all = items.filter(p);
        assert forall|i: int| 0 <= i < items.len() && p(#[trigger] items[i]) implies all.contains(
            items[i],
        ) by {
            if i < front.len() {
                assert(front[i] == items[i]);
                let k = choose|k: int| 0 <= k < before.len() && before[k] == front[i];
                assert(all[k] == before[k]);
            } else {
                assert(all[all.len() - 1] == items.last());
            }
        }
        assert forall|k: int| 0 <= k < all.len() implies items.contains(#[trigger] all[k]) && p(
            all[k],
        ) by {
            if k < before.len() {
                assert(all[k] == before[k]);
                let i = choose|i: int| 0 <= i < front.len() && front[i] == before[k];
                assert(items[i] == front[i]);
            } else {
                assert(items[items.len() - 1] == items.last());
            }
        }
    }
}

} // verus!
