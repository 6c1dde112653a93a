//! Ranking: the items with the highest keys first, equal keys in the order in which they came.

use vstd::prelude::*;

verus! {

/// A list with `x` put behind every item whose key is not lower.
pub open spec fn placed<T>(list: Seq<(i32, T)>, x: (i32, T)) -> Seq<(i32, T)>
    decreases list.len(),
{
    if list.len() > 0 && list.last().0 < x.0 {
        placed(list.drop_last(), x).push(list.last())
    } else {
        list.push(x)
    }
}

/// The items ranked by descending keys.
pub open spec fn ranked<T>(items: Seq<(i32, T)>) -> Seq<(i32, T)>
    decreases items.len(),
{
    if items.len() == 0 {
        items
    } else {
        placed(ranked(items.drop_last()), items.last())
    }
}

/// No item stands behind one with a lower key.
pub open spec fn descends<T>(items: Seq<(i32, T)>) -> bool {
    forall|i: int, j: int|
        0 <= i < j < items.len() ==> (#[trigger] items[i]).0 >= (#[trigger] items[j]).0
}

proof fn lemma_placed<T>(list: Seq<(i32, T)>, x: (i32, T), at: int)
    requires
        0 <= at <= list.len(),
        at > 0 ==> list[at - 1].0 >= x.0,
        forall|j: int| at <= j < list.len() ==> (#[trigger] list[j]).0 < x.0,
    ensures
        placed(list, x) == list.insert(at, x),
    decreases list.len(),
{
    if at == list.len() {
        assert(list.insert(at, x) =~= list.push(x));
    } else {
        let front = list.drop_last();
        assert(list.last() == list[list.len() - 1]);
        assert forall|j: int| at <= j < front.len() implies (#[trigger] front[j]).0 < x.0 by {
            assert(front[j] == list[j]);
        }
        if at > 0 {
            assert(front[at - 1] == list[at - 1]);
        }
        lemma_placed(front, x, at);
        assert(list.insert(at, x) =~= front.insert(at, x).push(list.last()));
    }
}

/// Ranks items by descending keys; equal keys stay in the order in which they came.
pub fn rank<T>(items: Vec<(i32, T)>) -> (r: Vec<(i32, T)>)
    ensures
        r@ == ranked(items@),
{
    let ghost all = items@;
    let mut out: Vec<(i32, T)> = Vec::new();
    for x in it: items
        invariant
            it.seq() == all,
            out@ == ranked(all.take(it.index())),
    {
        let ghost n = it.index();
        assert(all.take(n + 1).drop_last() =~= all.take(n));
        assert(all.take(n + 1).last() == x);
        let mut at: usize = out.len();
        while at > 0 && out[at - 1].0 < x.0
            invariant
                at <= out@.len(),
                forall|j: int| at <= j < out@.len() ==> (#[trigger] out@[j]).0 < x.0,
            decreases at,
        {
            at -= 1;
        }
        proof {
            lemma_placed(out@, x, at as int);
        }
        out.insert(at, x);
    }
    assert(all.take(all.len() as int) =~= all);
    out
}

/// The first `n` items of a list.
pub open spec fn front<T>(items: Seq<T>, n: nat) -> Seq<T> {
    if n < items.len() {
        items.take(n as int)
    } else {
        items
    }
}

/// The items of a list, each as `f` sees it, with their keys.
pub open spec fn views<A, B>(items: Seq<(i32, A)>, f: spec_fn(A) -> B) -> Seq<(i32, B)> {
    Seq::new(items.len(), |i: int| (items[i].0, f(items[i].1)))
}

proof fn lemma_placed_views<A, B>(list: Seq<(i32, A)>, x: (i32, A), f: spec_fn(A) -> B)
    ensures
        views(placed(list, x), f) == placed(views(list, f), (x.0, f(x.1))),
    decreases list.len(),
{
    let seen = views(list, f);
    if list.len() > 0 && list.last().0 < x.0 {
        lemma_placed_views(list.drop_last(), x, f);
        assert(seen.drop_last() =~= views(list.drop_last(), f));
        assert(views(placed(list, x), f) =~= views(placed(list.drop_last(), x), f).push(
            seen.last(),
        ));
    } else {
        assert(views(list.push(x), f) =~= seen.push((x.0, f(x.1))));
    }
}

/// Ranking does not look into the items.
pub proof fn lemma_ranked_views<A, B>(items: Seq<(i32, A)>, f: spec_fn(A) -> B)
    ensures
        views(ranked(items), f) == ranked(views(items, f)),
    decreases items.len(),
{
    let seen = views(items, f);
    if items.len() > 0 {
        lemma_ranked_views(items.drop_last(), f);
        lemma_placed_views(ranked(items.drop_last()), items.last(), f);
        assert(seen.drop_last() =~= views(items.drop_last(), f));
    } else {
        assert(views(ranked(items), f) =~= ranked(seen));
    }
}

/// A ranked list descends.
pub proof fn law_ranking_descends<T>(items: Seq<(i32, T)>)
    ensures
        descends(ranked(items)),
    decreases items.len(),
{
    if items.len() > 0 {
        law_ranking_descends(items.drop_last());
        lemma_placed_descends(ranked(items.drop_last()), items.last());
    }
}

proof fn lemma_placed_descends<T>(list: Seq<(i32, T)>, x: (i32, T))
    requires
        descends(list),
    ensures
        descends(placed(list, x)),
        placed(list, x).len() == list.len() + 1,
        placed(list, x).last() == x || list.len() > 0 && placed(list, x).last() == list.last()
            && list.last().0 < x.0,
        forall|i: int|
            0 <= i < placed(list, x).len() ==> (#[trigger] placed(list, x)[i]) == x || list.contains(
                placed(list, x)[i],
            ),
    decreases list.len(),
{
    let after = placed(list, x);
    if list.len() > 0 && list.last().0 < x.0 {
        let before = list.drop_last();
        assert forall|i: int, j: int| 0 <= i < j < before.len() implies (#[trigger] before[i]).0
            >= (#[trigger] before[j]).0 by {
            assert(before[i] == list[i] && before[j] == list[j]);
        }
        lemma_placed_descends(before, x);
        let inner = placed(before, x);
        assert forall|i: int, j: int| 0 <= i < j < after.len() implies (#[trigger] after[i]).0 >= (
        #[trigger] after[j]).0 by {
            assert(after[i] == inner[i]);
            if j < inner.len() {
                assert(after[j] == inner[j]);
            } else {
                assert(inner[i] == x || before.contains(inner[i]));
                if inner[i] != x {
                    let k = choose|k: int| 0 <= k < before.len() && before[k] == inner[i];
                    assert(list[k] == inner[i]);
                    assert(list[k].0 >= list[list.len() - 1].0);
                }
            }
        }
        assert forall|i: int| 0 <= i < after.len() implies (#[trigger] after[i]) == x
            || list.contains(after[i]) by {
            if i < inner.len() {
                assert(after[i] == inner[i]);
                if inner[i] != x {
                    let k = choose|k: int| 0 <= k < before.len() && before[k] == inner[i];
                    assert(list[k] == inner[i]);
                }
            } else {
                assert(list[list.len() - 1] == after[i]);
            }
        }
    } else {
        assert forall|i: int, j: int| 0 <= i < j < after.len() implies (#[trigger] after[i]).0 >= (
        #[trigger] after[j]).0 by {
            assert(after[i] == list[i]);
            if j < list.len() {
                assert(after[j] == list[j]);
            } else {
                if i < list.len() - 1 {
                    assert(list[i].0 >= list[list.len() - 1].0);
                }
            }
        }
        assert forall|i: int| 0 <= i < after.len() implies (#[trigger] after[i]) == x
            || list.contains(after[i]) by {
            if i < list.len() {
                assert(after[i] == list[i]);
            }
        }
    }
}

/// A ranked list holds the same items, each as often as before.
pub proof fn law_ranking_keeps_the_items<T>(items: Seq<(i32, T)>)
    ensures
        ranked(items).to_multiset() == items.to_multiset(),
        ranked(items).len() == items.len(),
    decreases items.len(),
{
    broadcast use vstd::seq_lib::group_to_multiset_ensures;

    if items.len() > 0 {
        law_ranking_keeps_the_items(items.drop_last());
        lemma_placed_items(ranked(items.drop_last()), items.last());
        assert(items =~= items.drop_last().push(items.last()));
    }
}

proof fn lemma_placed_items<T>(list: Seq<(i32, T)>, x: (i32, T))
    ensures
        placed(list, x).to_multiset() == list.to_multiset().insert(x),
        placed(list, x).len() == list.len() + 1,
    decreases list.len(),
{
    broadcast use vstd::seq_lib::group_to_multiset_ensures;

    if list.len() > 0 && list.last().0 < x.0 {
        lemma_placed_items(list.drop_last(), x);
        assert(list =~= list.drop_last().push(list.last()));
        assert(list.to_multiset().insert(x) =~= list.drop_last().to_multiset().insert(x).insert(
            list.last(),
        ));
    }
}

/// The items that have the key `k`.
pub open spec fn with_key<T>(items: Seq<(i32, T)>, k: i32) -> Seq<(i32, T)> {
    items.filter(|x: (i32, T)| x.0 == k)
}

/// Ranking is stable: the items of one key keep their order.
pub proof fn law_ranking_is_stable<T>(items: Seq<(i32, T)>, k: i32)
    ensures
        with_key(ranked(items), k) == with_key(items, k),
    decreases items.len(),
{
    reveal(Seq::filter);
    if items.len() > 0 {
        law_ranking_is_stable(items.drop_last(), k);
        law_ranking_descends(items.drop_last());
        lemma_placed_stable(ranked(items.drop_last()), items.last(), k);
    }
}

proof fn lemma_placed_stable<T>(list: Seq<(i32, T)>, x: (i32, T), k: i32)
    requires
        descends(list),
    ensures
        with_key(placed(list, x), k) == if x.0 == k {
            with_key(list, k).push(x)
        } else {
            with_key(list, k)
        },
    decreases list.len(),
{
    reveal(Seq::filter);
    let after = placed(list, x);
    if list.len() > 0 && list.last().0 < x.0 {
        let before = list.drop_last();
        assert forall|i: int, j: int| 0 <= i < j < before.len() implies (#[trigger] before[i]).0
            >= (#[trigger] before[j]).0 by {
            assert(before[i] == list[i] && before[j] == list[j]);
        }
        lemma_placed_stable(before, x, k);
        assert(after.drop_last() =~= placed(before, x));
        assert(after.last() == list.last());
    } else {
        assert(after.drop_last() =~= list);
        assert(after.last() == x);
    }
}

} // verus!
