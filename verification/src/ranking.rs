//! Ranking by a key, keeping the order of what ranks alike.

use vstd::prelude::*;

verus! {

/// `ranked` with `item` placed behind everything whose key is not larger.
pub open spec fn inserted<T>(ranked: Seq<(int, T)>, item: (int, T)) -> Seq<(int, T)>
    decreases ranked.len(),
{
    if ranked.len() == 0 || ranked.last().0 <= item.0 {
        ranked.push(item)
    } else {
        inserted(ranked.drop_last(), item).push(ranked.last())
    }
}

/// `items` by rising key; items with one key stay in the order they came in.
pub open spec fn ranked<T>(items: Seq<(int, T)>) -> Seq<(int, T)>
    decreases items.len(),
{
    if items.len() == 0 {
        Seq::empty()
    } else {
        inserted(ranked(items.drop_last()), items.last())
    }
}

/// Whether no key is larger than a later one.
pub open spec fn is_ranked<T>(items: Seq<(int, T)>) -> bool {
    forall|i: int, j: int| 0 <= i <= j < items.len() ==> #[trigger] items[i].0 <= #[trigger] items[j].0
}

/// Placing an item is inserting it at the boundary between keys that are not
/// larger and keys that are.
pub proof fn lemma_inserted_at<T>(items: Seq<(int, T)>, item: (int, T), at: int)
    requires
        0 <= at <= items.len(),
        forall|i: int| 0 <= i < at ==> #[trigger] items[i].0 <= item.0,
        forall|i: int| at <= i < items.len() ==> #[trigger] items[i].0 > item.0,
    ensures
        inserted(items, item) == items.insert(at, item),
    decreases items.len(),
{
    if items.len() == at {
        assert(items.insert(at, item) =~= items.push(item));
        if items.len() > 0 {
            assert(items[at - 1].0 <= item.0);
        }
    } else {
        let last = items.last();
        assert(items[items.len() - 1].0 > item.0);
        lemma_inserted_at(items.drop_last(), item, at);
        assert(items.insert(at, item) =~= items.drop_last().insert(at, item).push(last));
    }
}

/// Placing an item in a ranked sequence leaves it ranked and one longer.
pub proof fn lemma_inserted_is_ranked<T>(items: Seq<(int, T)>, item: (int, T))
    requires
        is_ranked(items),
    ensures
        is_ranked(inserted(items, item)),
        inserted(items, item).len() == items.len() + 1,
        forall|i: int|
            0 <= i < inserted(items, item).len() ==> {
                let placed = #[trigger] inserted(items, item)[i];
                placed == item || items.contains(placed)
            },
    decreases items.len(),
{
    if items.len() == 0 || items.last().0 <= item.0 {
        assert forall|i: int| 0 <= i < items.push(item).len() implies {
            let placed = #[trigger] items.push(item)[i];
            placed == item || items.contains(placed)
        } by {
            if i < items.len() {
                assert(items[i] == items.push(item)[i]);
            }
        }
        if items.len() > 0 {
            assert forall|i: int| 0 <= i < items.len() implies #[trigger] items[i].0 <= item.0 by {
                assert(items[i].0 <= items[items.len() - 1].0);
            }
        }
    } else {
        let front = items.drop_last();
        let last = items.last();
        assert(is_ranked(front)) by {
            assert forall|i: int, j: int| 0 <= i <= j < front.len() implies #[trigger] front[i].0
                <= #[trigger] front[j].0 by {
                assert(items[i].0 <= items[j].0);
            }
        }
        lemma_inserted_is_ranked(front, item);
        let placed_front = inserted(front, item);
        assert forall|i: int| 0 <= i < placed_front.len() implies #[trigger] placed_front[i].0
            <= last.0 by {
            if placed_front[i] != item {
                let k = choose|k: int| 0 <= k < front.len() && front[k] == placed_front[i];
                assert(items[k].0 <= items[items.len() - 1].0);
            }
        }
        assert forall|i: int| 0 <= i < inserted(items, item).len() implies {
            let placed = #[trigger] inserted(items, item)[i];
            placed == item || items.contains(placed)
        } by {
            if i < placed_front.len() {
                assert(inserted(items, item)[i] == placed_front[i]);
                if placed_front[i] != item {
                    let k = choose|k: int| 0 <= k < front.len() && front[k] == placed_front[i];
                    assert(items[k] == placed_front[i]);
                }
            } else {
                assert(items[items.len() - 1] == last);
            }
        }
    }
}

/// Ranking gives a ranked sequence of the same length.
pub proof fn lemma_ranked_is_ranked<T>(items: Seq<(int, T)>)
    ensures
        is_ranked(ranked(items)),
        ranked(items).len() == items.len(),
    decreases items.len(),
{
    if items.len() > 0 {
        lemma_ranked_is_ranked(items.drop_last());
        lemma_inserted_is_ranked(ranked(items.drop_last()), items.last());
    }
}

/// Placing an item adds it and takes nothing away.
pub proof fn lemma_inserted_multiset<T>(items: Seq<(int, T)>, item: (int, T))
    ensures
        inserted(items, item).to_multiset() == items.to_multiset().insert(item),
    decreases items.len(),
{
    broadcast use vstd::seq_lib::group_to_multiset_ensures;

    if items.len() == 0 || items.last().0 <= item.0 {
    } else {
        lemma_inserted_multiset(items.drop_last(), item);
        assert(items =~= items.drop_last().push(items.last()));
        assert(inserted(items, item).to_multiset() =~= items.to_multiset().insert(item));
    }
}

/// Ranking only reorders: what was there is there as often as before, and comes
/// out by rising key.
pub proof fn law_ranking_reorders<T>(items: Seq<(int, T)>)
    ensures
        ranked(items).to_multiset() == items.to_multiset(),
        is_ranked(ranked(items)),
    decreases items.len(),
{
    broadcast use vstd::seq_lib::group_to_multiset_ensures;

    lemma_ranked_is_ranked(items);
    if items.len() > 0 {
        law_ranking_reorders(items.drop_last());
        lemma_inserted_multiset(ranked(items.drop_last()), items.last());
        assert(items =~= items.drop_last().push(items.last()));
    } else {
        assert(items =~= Seq::empty());
    }
}

/// Items with their keys as integers.
pub open spec fn keyed<T>(items: Seq<(u64, T)>) -> Seq<(int, T)> {
    items.map_values(|item: (u64, T)| (item.0 as int, item.1))
}

/// The items without their keys.
pub open spec fn unkeyed<T>(items: Seq<(int, T)>) -> Seq<T> {
    items.map_values(|item: (int, T)| item.1)
}

/// Order items by rising key; items with one key stay in the order they came in.
pub fn rank<T: Copy>(items: &Vec<(u64, T)>) -> (result: Vec<T>)
    ensures
        result@ == unkeyed(ranked(keyed(items@))),
{
    let mut sorted: Vec<(u64, T)> = Vec::new();
    let mut i: usize = 0;
    proof {
        assert(keyed(items@.take(0)) =~= Seq::<(int, T)>::empty());
        assert(keyed(sorted@) =~= Seq::<(int, T)>::empty());
    }
    while i < items.len()
        invariant
            i <= items.len(),
            keyed(sorted@) == ranked(keyed(items@.take(i as int))),
        decreases items.len() - i,
    {
        let item = items[i];
        let ghost before = keyed(sorted@);
        let mut at: usize = sorted.len();
        while at > 0 && sorted[at - 1].0 > item.0
            invariant
                at <= sorted.len(),
                before == keyed(sorted@),
                forall|j: int| at <= j < sorted@.len() ==> (#[trigger] before[j]).0 > item.0,
            decreases at,
        {
            proof {
                assert(before[at - 1].0 == sorted@[at - 1].0);
            }
            at -= 1;
        }
        proof {
            lemma_ranked_is_ranked(keyed(items@.take(i as int)));
            if at > 0 {
                assert(before[at - 1].0 == sorted@[at - 1].0);
                assert forall|j: int| 0 <= j < at implies (#[trigger] before[j]).0 <= item.0 by {
                    assert(before[j].0 <= before[at - 1].0);
                }
            }
            lemma_inserted_at(before, (item.0 as int, item.1), at as int);
        }
        sorted.insert(at, item);
        proof {
            assert(keyed(sorted@) =~= before.insert(at as int, (item.0 as int, item.1)));
            let longer = keyed(items@.take(i + 1));
            assert(longer.drop_last() =~= keyed(items@.take(i as int)));
            assert(longer.last() == (item.0 as int, item.1));
        }
        i += 1;
    }
    proof {
        assert(items@.take(items@.len() as int) =~= items@);
    }
    let mut result: Vec<T> = Vec::new();
    let mut k: usize = 0;
    while k < sorted.len()
        invariant
            k <= sorted.len(),
            result@.len() == k,
            forall|j: int| 0 <= j < k ==> (#[trigger] result@[j]) == sorted@[j].1,
        decreases sorted.len() - k,
    {
        result.push(sorted[k].1);
        k += 1;
    }
    proof {
        assert(result@ =~= unkeyed(keyed(sorted@)));
    }
    result
}

} // verus!
