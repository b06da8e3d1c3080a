//! Stable descending order.

use vstd::prelude::*;

verus! {

/// Whether `order` lists the positions `0..n`, each of them once.
pub open spec fn is_permutation(order: Seq<int>, n: nat) -> bool {
    &&& order.len() == n
    &&& forall|i: int| 0 <= i < n ==> 0 <= #[trigger] order[i] < n
    &&& forall|i: int, j: int| 0 <= i < j < n ==> order[i] != order[j]
}

/// Whether position `a` comes before position `b`: by the greater key, and of
/// equal keys by the earlier position.
pub open spec fn precedes(keys: Seq<int>, a: int, b: int) -> bool {
    keys[a] > keys[b] || (keys[a] == keys[b] && a < b)
}

/// Whether `order` lists the positions of `keys` from the greatest key down,
/// equal keys in the order in which they stand.
pub open spec fn is_descending(order: Seq<int>, keys: Seq<int>) -> bool {
    &&& is_permutation(order, keys.len())
    &&& forall|i: int, j: int|
        0 <= i < j < order.len() ==> #[trigger] precedes(keys, order[i], order[j])
}

/// The positions of `keys` in stable descending order.
pub open spec fn descending(keys: Seq<int>) -> Seq<int> {
    choose|order: Seq<int>| is_descending(order, keys)
}

/// The items at the listed positions, in that order.
pub open spec fn arranged<T>(items: Seq<T>, order: Seq<int>) -> Seq<T> {
    Seq::new(order.len(), |i: int| items[order[i]])
}

/// `pos` is where the position after the last belongs in `order`, which lists
/// all earlier ones.
proof fn lemma_insert(order: Seq<int>, keys: Seq<int>, pos: int)
    requires
        keys.len() > 0,
        is_descending(order, keys.drop_last()),
        0 <= pos <= order.len(),
        forall|i: int| 0 <= i < pos ==> keys[#[trigger] order[i]] >= keys.last(),
        forall|i: int| pos <= i < order.len() ==> keys[#[trigger] order[i]] < keys.last(),
    ensures
        is_descending(order.insert(pos, keys.len() - 1), keys),
{
    let n = keys.len() - 1;
    let short = keys.drop_last();
    let next = order.insert(pos, n);
    assert forall|i: int| 0 <= i < next.len() implies 0 <= #[trigger] next[i] < keys.len() by {
        if i < pos {
            assert(next[i] == order[i]);
        } else if i > pos {
            assert(next[i] == order[i - 1]);
        }
    }
    assert forall|i: int, j: int| 0 <= i < j < next.len() implies next[i] != next[j] && precedes(
        keys,
        next[i],
        next[j],
    ) by {
        let a = if i < pos { i } else { i - 1 };
        let b = if j < pos { j } else { j - 1 };
        if i == pos {
            assert(next[j] == order[b]);
        } else if j == pos {
            assert(next[i] == order[a]);
        } else {
            assert(next[i] == order[a] && next[j] == order[b]);
            assert(precedes(short, order[a], order[b]));
        }
    }
}

/// Keys always have a stable descending order.
proof fn lemma_descending_exists(keys: Seq<int>)
    ensures
        exists|order: Seq<int>| is_descending(order, keys),
    decreases keys.len(),
{
    if keys.len() == 0 {
        assert(is_descending(Seq::<int>::empty(), keys));
    } else {
        lemma_descending_exists(keys.drop_last());
        let order = choose|order: Seq<int>| is_descending(order, keys.drop_last());
        let pos = lemma_insert_position(order, keys, order.len() as int);
        lemma_insert(order, keys, pos);
    }
}

/// The keys of a descending order fall below any bound from some place on.
proof fn lemma_insert_position(order: Seq<int>, keys: Seq<int>, end: int) -> (pos: int)
    requires
        keys.len() > 0,
        is_descending(order, keys.drop_last()),
        0 <= end <= order.len(),
        forall|i: int| end <= i < order.len() ==> keys[#[trigger] order[i]] < keys.last(),
    ensures
        0 <= pos <= order.len(),
        forall|i: int| 0 <= i < pos ==> keys[#[trigger] order[i]] >= keys.last(),
        forall|i: int| pos <= i < order.len() ==> keys[#[trigger] order[i]] < keys.last(),
    decreases end,
{
    if end > 0 && keys[order[end - 1]] < keys.last() {
        lemma_insert_position(order, keys, end - 1)
    } else {
        assert forall|i: int| 0 <= i < end implies keys[#[trigger] order[i]] >= keys.last() by {
            if i < end - 1 {
                assert(precedes(keys.drop_last(), order[i], order[end - 1]));
            }
        }
        end
    }
}

/// Keys have only one stable descending order.
pub proof fn lemma_descending_unique(a: Seq<int>, b: Seq<int>, keys: Seq<int>)
    requires
        is_descending(a, keys),
        is_descending(b, keys),
    ensures
        a == b,
{
    lemma_rank(a, keys);
    lemma_rank(b, keys);
    assert forall|i: int| 0 <= i < a.len() implies a[i] == b[i] by {
        assert(b.contains(a[i]));
        let j = choose|j: int| 0 <= j < b.len() && b[j] == a[i];
        assert(0 <= j < b.len() && b[j] == a[i]);
        assert(before(keys, a[i]).len() == i);
        assert(before(keys, b[j]).len() == j);
    }
    assert(a =~= b);
}

/// The positions that come before position `p`.
spec fn before(keys: Seq<int>, p: int) -> Set<int> {
    Set::new(|q: int| 0 <= q < keys.len() && precedes(keys, q, p))
}

/// In a descending order each position stands where as many positions as come
/// before it have been listed.
proof fn lemma_rank(order: Seq<int>, keys: Seq<int>)
    requires
        is_descending(order, keys),
    ensures
        forall|i: int| 0 <= i < order.len() ==> before(keys, #[trigger] order[i]).len() == i,
        forall|p: int|
            0 <= p < keys.len() ==> #[trigger] order.contains(p),
{
    order.unique_seq_to_set();
    let all = Set::new(|q: int| 0 <= q < keys.len());
    vstd::set_lib::lemma_int_range(0, keys.len() as int);
    assert(all =~= vstd::set_lib::set_int_range(0, keys.len() as int));
    assert(order.to_set().subset_of(all));
    vstd::set_lib::lemma_subset_equality(order.to_set(), all);
    assert forall|p: int| 0 <= p < keys.len() implies #[trigger] order.contains(p) by {
        assert(all.contains(p));
        assert(order.to_set().contains(p));
    }
    assert forall|i: int| 0 <= i < order.len() implies before(keys, #[trigger] order[i]).len()
        == i by {
        let head = order.take(i);
        assert forall|a: int, b: int| 0 <= a < b < head.len() implies head[a] != head[b] by {
            assert(head[a] == order[a] && head[b] == order[b]);
        }
        head.unique_seq_to_set();
        assert forall|q: int| before(keys, order[i]).contains(q) <==> head.to_set().contains(q) by {
            if before(keys, order[i]).contains(q) {
                assert(order.contains(q));
                let j = choose|j: int| 0 <= j < order.len() && #[trigger] order[j] == q;
                if j > i {
                    assert(precedes(keys, order[i], order[j]));
                }
                assert(head[j] == q);
            }
            if head.to_set().contains(q) {
                let j = choose|j: int| 0 <= j < head.len() && head[j] == q;
                assert(head[j] == order[j]);
                assert(precedes(keys, order[j], order[i]));
            }
        }
        assert(before(keys, order[i]) =~= head.to_set());
    }
}

/// `descending` is a stable descending order.
pub proof fn lemma_descending(keys: Seq<int>)
    ensures
        is_descending(descending(keys), keys),
{
    lemma_descending_exists(keys);
}

/// Items whose keys never rise stand in descending order already.
pub proof fn lemma_falling_keys<T>(items: Seq<T>, keys: Seq<int>)
    requires
        items.len() == keys.len(),
        forall|i: int, j: int| 0 <= i < j < keys.len() ==> keys[i] >= keys[j],
    ensures
        arranged(items, descending(keys)) == items,
{
    let order = Seq::new(keys.len(), |i: int| i);
    assert(is_descending(order, keys));
    lemma_descending(keys);
    lemma_descending_unique(order, descending(keys), keys);
    assert(arranged(items, order) =~= items);
}

/// Arranging items by a permutation keeps each as often as it was.
pub proof fn lemma_arranged_multiset<T>(items: Seq<T>, order: Seq<int>)
    requires
        is_permutation(order, items.len()),
    ensures
        arranged(items, order).to_multiset() == items.to_multiset(),
    decreases items.len(),
{
    broadcast use vstd::seq_lib::group_to_multiset_ensures;

    let all = arranged(items, order);
    if items.len() == 0 {
        assert(all =~= items);
    } else {
        let n = items.len() - 1;
        order.unique_seq_to_set();
        let range = Set::new(|q: int| 0 <= q < items.len());
        vstd::set_lib::lemma_int_range(0, items.len() as int);
        assert(range =~= vstd::set_lib::set_int_range(0, items.len() as int));
        assert(order.to_set().subset_of(range));
        vstd::set_lib::lemma_subset_equality(order.to_set(), range);
        assert(order.to_set().contains(n));
        let k = choose|k: int| 0 <= k < order.len() && order[k] == n;
        let short = order.remove(k);
        assert forall|i: int| 0 <= i < short.len() implies 0 <= #[trigger] short[i] < n by {
            let j = if i < k { i } else { i + 1 };
            assert(short[i] == order[j]);
            assert(order[j] != order[k]) by {
                if j < k {
                    assert(order[j] != order[k]);
                } else {
                    assert(order[k] != order[j]);
                }
            }
        }
        assert forall|i: int, j: int| 0 <= i < j < short.len() implies short[i] != short[j] by {
            let a = if i < k { i } else { i + 1 };
            let b = if j < k { j } else { j + 1 };
            assert(short[i] == order[a] && short[j] == order[b]);
        }
        lemma_arranged_multiset(items.drop_last(), short);
        assert(arranged(items.drop_last(), short) =~= all.remove(k));
        assert(all.remove(k).insert(k, items[n]) =~= all);
        assert(items.drop_last().push(items[n]) =~= items);
        assert(all[k] == items[n]);
        assert(all.to_multiset() =~= all.remove(k).to_multiset().insert(items[n]));
    }
}

/// The positions of `keys` in stable descending order.
pub fn descending_order(keys: &Vec<i128>) -> (r: Vec<usize>)
    ensures
        r@.map_values(|p: usize| p as int) == descending(keys@.map_values(|k: i128| k as int)),
{
    let ghost ints = keys@.map_values(|k: i128| k as int);
    let mut order: Vec<usize> = Vec::new();
    assert(is_descending(order@.map_values(|p: usize| p as int), ints.take(0)));
    for k in 0..keys.len()
        invariant
            ints == keys@.map_values(|k: i128| k as int),
            is_descending(order@.map_values(|p: usize| p as int), ints.take(k as int)),
    {
        let ghost listed = order@.map_values(|p: usize| p as int);
        let ghost seen = ints.take(k + 1);
        assert(seen.drop_last() =~= ints.take(k as int));
        assert forall|i: int| 0 <= i < listed.len() implies #[trigger] order@[i] < k by {
            assert(listed[i] == order@[i]);
        }
        let mut pos: usize = order.len();
        while pos > 0 && keys[order[pos - 1]] < keys[k]
            invariant
                pos <= order@.len(),
                k < keys@.len(),
                ints == keys@.map_values(|k: i128| k as int),
                seen == ints.take(k + 1),
                listed == order@.map_values(|p: usize| p as int),
                is_descending(listed, seen.drop_last()),
                forall|i: int| pos <= i < listed.len() ==> seen[#[trigger] listed[i]] < seen.last(),
                forall|i: int| 0 <= i < listed.len() ==> #[trigger] order@[i] < k,
            decreases pos,
        {
            pos = pos - 1;
        }
        proof {
            let p = lemma_insert_position(listed, seen, pos as int);
            assert(p == pos) by {
                if p < pos {
                    assert(listed[pos - 1] == order@[pos - 1]);
                    assert(seen[listed[pos - 1]] < seen.last());
                }
                if pos < p {
                    assert(seen[listed[pos as int]] >= seen.last());
                }
            }
            lemma_insert(listed, seen, pos as int);
        }
        order.insert(pos, k);
        assert(order@.map_values(|p: usize| p as int) =~= listed.insert(pos as int, k as int));
    }
    proof {
        assert(ints.take(keys@.len() as int) =~= ints);
        lemma_descending(ints);
        lemma_descending_unique(order@.map_values(|p: usize| p as int), descending(ints), ints);
    }
    order
}

/// Moves `items` into stable descending order of their keys.
pub fn sort_descending<T>(items: Vec<T>, keys: &Vec<i128>) -> (r: Vec<T>)
    requires
        items@.len() == keys@.len(),
    ensures
        r@ == arranged(items@, descending(keys@.map_values(|k: i128| k as int))),
{
    let order = descending_order(keys);
    let ghost list = order@.map_values(|p: usize| p as int);
    proof {
        lemma_descending(keys@.map_values(|k: i128| k as int));
    }
    let mut slots: Vec<Option<T>> = Vec::new();
    for item in it: items
        invariant
            it.seq() == items@,
            slots@ == items@.take(it.index() as int).map_values(|t: T| Some(t)),
    {
        slots.push(Some(item));
        assert(slots@ =~= items@.take(it.index() + 1).map_values(|t: T| Some(t)));
    }
    let mut out: Vec<T> = Vec::new();
    for i in 0..order.len()
        invariant
            list == order@.map_values(|p: usize| p as int),
            is_permutation(list, items@.len()),
            slots@.len() == items@.len(),
            out@ == arranged(items@, list.take(i as int)),
            forall|j: int|
                i <= j < list.len() ==> slots@[#[trigger] list[j]] == Some(items@[list[j]]),
    {
        assert(list[i as int] == order@[i as int]);
        let ghost was = slots@;
        if let Some(item) = slots[order[i]].take() {
            out.push(item);
        }
        assert(out@ =~= arranged(items@, list.take(i + 1)));
    }
    assert(list.take(list.len() as int) =~= list);
    out
}

} // verus!
