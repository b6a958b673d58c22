//! The order of directory listings.

use vstd::prelude::*;

use crate::commands::AfcItem;
use crate::state::{SortColumn, SortDirection};
use crate::text::{comes_before, to_lowercase};

verus! {

/// An item with the text that stands for its name in the order.
#[verifier::ext_equal]
pub struct KeyedItem {
    pub item: AfcItem,
    pub key: Seq<char>,
}

/// The items with the given texts.
pub open spec fn keyed(items: Seq<AfcItem>, keys: Seq<Seq<char>>) -> Seq<KeyedItem> {
    Seq::new(items.len(), |i: int| KeyedItem { item: items[i], key: keys[i] })
}

/// The texts by which a listing is ordered: the names in lower case.
pub open spec fn lowered_names(items: Seq<AfcItem>) -> Seq<Seq<char>> {
    Seq::new(items.len(), |i: int| crate::text::lowercase(items[i].name@))
}

/// Whether a column puts one item before another, counting upwards.
pub open spec fn key_less(column: SortColumn, a: KeyedItem, b: KeyedItem) -> bool {
    match column {
        SortColumn::Name => crate::text::text_less(a.key, b.key),
        SortColumn::Size => a.item.info.size < b.item.info.size,
        SortColumn::Modified => a.item.info.modified < b.item.info.modified,
    }
}

/// Whether one item belongs before another.
pub open spec fn precedes(
    column: SortColumn,
    direction: SortDirection,
    a: KeyedItem,
    b: KeyedItem,
) -> bool {
    match direction {
        SortDirection::Ascending => key_less(column, a, b),
        SortDirection::Descending => key_less(column, b, a),
    }
}

/// Whether the item at `i` comes before the item at `j` in a sorted listing: by the column, and
/// where the column does not tell them apart, as they stood.
pub open spec fn ranks_before(
    column: SortColumn,
    direction: SortDirection,
    items: Seq<KeyedItem>,
    i: int,
    j: int,
) -> bool {
    ||| precedes(column, direction, items[i], items[j])
    ||| !precedes(column, direction, items[j], items[i]) && i < j
}

/// Whether `order` names each of the places `lo..hi` once, in the order of the items there.
pub open spec fn is_ranking(
    column: SortColumn,
    direction: SortDirection,
    items: Seq<KeyedItem>,
    lo: int,
    hi: int,
    order: Seq<int>,
) -> bool {
    &&& order.len() == hi - lo
    &&& forall|k: int| 0 <= k < order.len() ==> lo <= #[trigger] order[k] < hi
    &&& forall|i: int| lo <= i < hi ==> #[trigger] order.contains(i)
    &&& forall|a: int, b: int|
        0 <= a < b < order.len() ==> ranks_before(
            column,
            direction,
            items,
            #[trigger] order[a],
            #[trigger] order[b],
        )
}

/// The items in the given order of places.
pub open spec fn arranged(items: Seq<AfcItem>, order: Seq<int>) -> Seq<AfcItem> {
    Seq::new(order.len(), |k: int| items[order[k]])
}

/// Whether `sorted` holds the items in their order: the same items, by the column, and equals of
/// the column as they stood. The given texts stand for the names.
pub open spec fn is_sorted_by(
    column: SortColumn,
    direction: SortDirection,
    items: Seq<AfcItem>,
    keys: Seq<Seq<char>>,
    sorted: Seq<AfcItem>,
) -> bool {
    exists|order: Seq<int>|
        {
            &&& #[trigger] is_ranking(
                column,
                direction,
                keyed(items, keys),
                0,
                items.len() as int,
                order,
            )
            &&& sorted == arranged(items, order)
        }
}

/// Whether `sorted` holds the items in their order, names counting in lower case.
pub open spec fn is_sorted_from(
    column: SortColumn,
    direction: SortDirection,
    items: Seq<AfcItem>,
    sorted: Seq<AfcItem>,
) -> bool {
    is_sorted_by(column, direction, items, lowered_names(items), sorted)
}

proof fn lemma_precedes(
    column: SortColumn,
    direction: SortDirection,
    a: KeyedItem,
    b: KeyedItem,
    c: KeyedItem,
)
    ensures
        !precedes(column, direction, a, a),
        precedes(column, direction, a, b) && precedes(column, direction, b, c) ==> precedes(
            column,
            direction,
            a,
            c,
        ),
        !precedes(column, direction, a, b) && !precedes(column, direction, b, c) ==> !precedes(
            column,
            direction,
            a,
            c,
        ),
{
    let x = vstd::utf8::encode_utf8(a.key);
    let y = vstd::utf8::encode_utf8(b.key);
    let z = vstd::utf8::encode_utf8(c.key);
    crate::text::bytes_less_is_strict(x, y, z);
    crate::text::bytes_less_is_strict(z, y, x);
    crate::text::bytes_less_is_strict(y, x, z);
    crate::text::bytes_less_is_strict(x, z, y);
    crate::text::bytes_less_is_strict(y, z, x);
    crate::text::bytes_less_is_strict(z, x, y);
    crate::text::bytes_less_is_total(x, y);
    crate::text::bytes_less_is_total(y, z);
}

proof fn lemma_ranks(
    column: SortColumn,
    direction: SortDirection,
    items: Seq<KeyedItem>,
    i: int,
    j: int,
    k: int,
)
    ensures
        !ranks_before(column, direction, items, i, i),
        ranks_before(column, direction, items, i, j) ==> !ranks_before(
            column,
            direction,
            items,
            j,
            i,
        ),
        i != j ==> ranks_before(column, direction, items, i, j) || ranks_before(
            column,
            direction,
            items,
            j,
            i,
        ),
        ranks_before(column, direction, items, i, j) && ranks_before(column, direction, items, j, k)
            ==> ranks_before(column, direction, items, i, k),
{
    let (a, b, c) = (items[i], items[j], items[k]);
    lemma_precedes(column, direction, a, b, c);
    lemma_precedes(column, direction, a, b, a);
    lemma_precedes(column, direction, c, b, a);
    lemma_precedes(column, direction, a, c, b);
    lemma_precedes(column, direction, b, a, c);
    lemma_precedes(column, direction, b, c, a);
}

/// A ranking names no place twice.
proof fn lemma_ranking_unique(
    column: SortColumn,
    direction: SortDirection,
    items: Seq<KeyedItem>,
    lo: int,
    hi: int,
    order: Seq<int>,
)
    requires
        is_ranking(column, direction, items, lo, hi, order),
    ensures
        forall|a: int, b: int|
            0 <= a < b < order.len() ==> #[trigger] order[a] != #[trigger] order[b],
{
    assert forall|a: int, b: int| 0 <= a < b < order.len() implies #[trigger] order[a]
        != #[trigger] order[b] by {
        lemma_ranks(column, direction, items, order[a], order[a], order[a]);
    }
}

/// There is one ranking only.
proof fn lemma_rankings_equal(
    column: SortColumn,
    direction: SortDirection,
    items: Seq<KeyedItem>,
    lo: int,
    hi: int,
    left: Seq<int>,
    right: Seq<int>,
    n: int,
)
    requires
        is_ranking(column, direction, items, lo, hi, left),
        is_ranking(column, direction, items, lo, hi, right),
        0 <= n <= left.len(),
    ensures
        forall|k: int| 0 <= k < n ==> left[k] == right[k],
    decreases n,
{
    if n > 0 {
        lemma_rankings_equal(column, direction, items, lo, hi, left, right, n - 1);
        lemma_ranking_unique(column, direction, items, lo, hi, left);
        lemma_ranking_unique(column, direction, items, lo, hi, right);
        let (a, b) = (left[n - 1], right[n - 1]);
        assert(right.contains(a));
        assert(left.contains(b));
        let p = choose|p: int| 0 <= p < right.len() && right[p] == a;
        let q = choose|q: int| 0 <= q < left.len() && left[q] == b;
        if p < n - 1 {
            assert(left[p] == right[p]);
        }
        if q < n - 1 {
            assert(left[q] == right[q]);
        }
        if a != b {
            lemma_ranks(column, direction, items, a, b, a);
        }
    }
}

/// The ranking behind a sorted listing.
spec fn ranking_of(
    column: SortColumn,
    direction: SortDirection,
    items: Seq<AfcItem>,
    sorted: Seq<AfcItem>,
) -> Seq<int> {
    choose|order: Seq<int>|
        {
            &&& #[trigger] is_ranking(
                column,
                direction,
                keyed(items, lowered_names(items)),
                0,
                items.len() as int,
                order,
            )
            &&& sorted == arranged(items, order)
        }
}

/// Law: the items and the order asked for leave no choice in how a listing is sorted.
pub proof fn sorting_is_determined(
    column: SortColumn,
    direction: SortDirection,
    items: Seq<AfcItem>,
    left: Seq<AfcItem>,
    right: Seq<AfcItem>,
)
    requires
        is_sorted_from(column, direction, items, left),
        is_sorted_from(column, direction, items, right),
    ensures
        left == right,
{
    let n = items.len() as int;
    let all = keyed(items, lowered_names(items));
    let p = ranking_of(column, direction, items, left);
    let q = ranking_of(column, direction, items, right);
    lemma_rankings_equal(column, direction, all, 0, n, p, q, n);
    assert(p =~= q);
}

/// Law: in a sorted listing nothing stands before what belongs before it.
pub proof fn sorting_orders(
    column: SortColumn,
    direction: SortDirection,
    items: Seq<AfcItem>,
    sorted: Seq<AfcItem>,
    a: int,
    b: int,
)
    requires
        is_sorted_from(column, direction, items, sorted),
        0 <= a < b < sorted.len(),
    ensures
        ({
            let all = keyed(sorted, lowered_names(sorted));
            !precedes(column, direction, all[b], all[a])
        }),
{
    let all = keyed(items, lowered_names(items));
    let p = ranking_of(column, direction, items, sorted);
    assert(keyed(sorted, lowered_names(sorted))[a] == all[p[a]]);
    assert(keyed(sorted, lowered_names(sorted))[b] == all[p[b]]);
    assert(ranks_before(column, direction, all, p[a], p[b]));
    lemma_precedes(column, direction, all[p[a]], all[p[b]], all[p[a]]);
}

/// Law: sorting a sorted listing again changes nothing.
pub proof fn sorting_twice(
    column: SortColumn,
    direction: SortDirection,
    items: Seq<AfcItem>,
    once: Seq<AfcItem>,
    twice: Seq<AfcItem>,
)
    requires
        is_sorted_from(column, direction, items, once),
        is_sorted_from(column, direction, once, twice),
    ensures
        twice == once,
{
    let all = keyed(once, lowered_names(once));
    let same = Seq::new(once.len(), |k: int| k);
    assert forall|i: int| 0 <= i < once.len() implies #[trigger] same.contains(i) by {
        assert(same[i] == i);
    }
    assert forall|a: int, b: int| 0 <= a < b < same.len() implies ranks_before(
        column,
        direction,
        all,
        #[trigger] same[a],
        #[trigger] same[b],
    ) by {
        sorting_orders(column, direction, items, once, a, b);
    }
    assert(is_ranking(column, direction, all, 0, once.len() as int, same));
    assert(once =~= arranged(once, same));
    sorting_is_determined(column, direction, once, once, twice);
}

/// The other direction.
pub open spec fn turned(direction: SortDirection) -> SortDirection {
    match direction {
        SortDirection::Ascending => SortDirection::Descending,
        SortDirection::Descending => SortDirection::Ascending,
    }
}

/// Law: where the column tells all items apart, the other direction is the reverse.
pub proof fn turning_reverses(
    column: SortColumn,
    direction: SortDirection,
    items: Seq<AfcItem>,
    sorted: Seq<AfcItem>,
    other: Seq<AfcItem>,
)
    requires
        is_sorted_from(column, direction, items, sorted),
        is_sorted_from(column, turned(direction), items, other),
        ({
            let all = keyed(items, lowered_names(items));
            forall|i: int, j: int|
                0 <= i < j < items.len() ==> precedes(
                    column,
                    direction,
                    #[trigger] all[i],
                    #[trigger] all[j],
                ) || precedes(column, direction, all[j], all[i])
        }),
    ensures
        other == sorted.reverse(),
{
    let n = items.len() as int;
    let all = keyed(items, lowered_names(items));
    let p = ranking_of(column, direction, items, sorted);
    let q = p.reverse();
    lemma_ranking_unique(column, direction, all, 0, n, p);
    assert forall|i: int| 0 <= i < n implies #[trigger] q.contains(i) by {
        assert(p.contains(i));
        let k = choose|k: int| 0 <= k < p.len() && p[k] == i;
        assert(q[n - 1 - k] == i);
    }
    assert forall|a: int, b: int| 0 <= a < b < q.len() implies ranks_before(
        column,
        turned(direction),
        all,
        #[trigger] q[a],
        #[trigger] q[b],
    ) by {
        let (x, y) = (p[n - 1 - b], p[n - 1 - a]);
        assert(q[a] == y && q[b] == x);
        assert(x != y);
        assert(ranks_before(column, direction, all, x, y));
        assert(0 <= x < n && 0 <= y < n);
        if x < y {
            assert(precedes(column, direction, all[x], all[y]) || precedes(
                column,
                direction,
                all[y],
                all[x],
            ));
        }
    }
    assert(is_ranking(column, turned(direction), all, 0, n, q));
    assert(sorted.reverse() =~= arranged(items, q));
    sorting_is_determined(column, turned(direction), items, other, sorted.reverse());
}

/// Law: sorting neither loses nor invents an item.
pub proof fn sorting_keeps_items(
    column: SortColumn,
    direction: SortDirection,
    items: Seq<AfcItem>,
    sorted: Seq<AfcItem>,
)
    requires
        is_sorted_from(column, direction, items, sorted),
    ensures
        sorted.len() == items.len(),
        sorted.to_multiset() == items.to_multiset(),
{
    let n = items.len() as int;
    let all = keyed(items, lowered_names(items));
    let p = ranking_of(column, direction, items, sorted);
    lemma_ranking_unique(column, direction, all, 0, n, p);
    lemma_arranged_multiset(items, p);
}

/// Items taken from distinct places that cover the sequence are its items.
proof fn lemma_arranged_multiset(items: Seq<AfcItem>, order: Seq<int>)
    requires
        order.len() == items.len(),
        forall|k: int| 0 <= k < order.len() ==> 0 <= #[trigger] order[k] < items.len(),
        forall|i: int| 0 <= i < items.len() ==> #[trigger] order.contains(i),
        forall|a: int, b: int|
            0 <= a < b < order.len() ==> #[trigger] order[a] != #[trigger] order[b],
    ensures
        arranged(items, order).to_multiset() == items.to_multiset(),
    decreases items.len(),
{
    broadcast use vstd::seq_lib::group_to_multiset_ensures;

    let n = items.len() as int;
    if n == 0 {
        assert(arranged(items, order) =~= items);
    } else {
        assert(order.contains(n - 1));
        let at = choose|at: int| 0 <= at < order.len() && order[at] == n - 1;
        let init = items.drop_last();
        let rest = order.remove(at);
        assert forall|k: int| 0 <= k < rest.len() implies 0 <= #[trigger] rest[k] < init.len() by {
            let from = if k < at {
                k
            } else {
                k + 1
            };
            assert(rest[k] == order[from]);
            assert(order[from] != order[at]);
        }
        assert forall|i: int| 0 <= i < init.len() implies #[trigger] rest.contains(i) by {
            assert(order.contains(i));
            let k = choose|k: int| 0 <= k < order.len() && order[k] == i;
            let to = if k < at {
                k
            } else {
                k - 1
            };
            assert(rest[to] == i);
        }
        assert forall|a: int, b: int| 0 <= a < b < rest.len() implies #[trigger] rest[a]
            != #[trigger] rest[b] by {
            let x = if a < at {
                a
            } else {
                a + 1
            };
            let y = if b < at {
                b
            } else {
                b + 1
            };
            assert(rest[a] == order[x] && rest[b] == order[y]);
        }
        lemma_arranged_multiset(init, rest);
        let all = arranged(items, order);
        assert(arranged(init, rest) =~= all.remove(at));
        assert(all[at] == items.last());
        assert(all.remove(at).insert(at, items.last()) =~= all);
        assert(items =~= init.push(items.last()));
        assert(all.remove(at).to_multiset() == all.to_multiset().remove(all[at]));
        assert(all.to_multiset().contains(all[at]));
        assert(all.to_multiset() =~= all.remove(at).to_multiset().insert(all[at]));
    }
}

/// The places in a list of machine integers, as integers.
pub open spec fn places(order: Seq<usize>) -> Seq<int> {
    order.map_values(|i: usize| i as int)
}

/// The model of a list of texts.
pub open spec fn keys_view(keys: Seq<String>) -> Seq<Seq<char>> {
    Seq::new(keys.len(), |i: int| keys[i]@)
}

/// The items with the given texts.
spec fn keyed_with(items: Seq<AfcItem>, keys: Seq<String>) -> Seq<KeyedItem> {
    keyed(items, keys_view(keys))
}

/// Decides whether the item at `i` belongs before the item at `j`.
fn belongs_before(
    column: SortColumn,
    direction: SortDirection,
    items: &Vec<AfcItem>,
    keys: &Vec<String>,
    i: usize,
    j: usize,
) -> (before: bool)
    requires
        keys@.len() == items@.len(),
        i < items@.len(),
        j < items@.len(),
    ensures
        before == precedes(
            column,
            direction,
            keyed_with(items@, keys@)[i as int],
            keyed_with(items@, keys@)[j as int],
        ),
{
    let (first, second) = match direction {
        SortDirection::Ascending => (i, j),
        SortDirection::Descending => (j, i),
    };
    match column {
        SortColumn::Name => comes_before(keys[first].as_str(), keys[second].as_str()),
        SortColumn::Size => items[first].info.size < items[second].info.size,
        SortColumn::Modified => items[first].info.modified < items[second].info.modified,
    }
}

/// Merges the rankings of two neighbouring ranges.
fn merge_rankings(
    column: SortColumn,
    direction: SortDirection,
    items: &Vec<AfcItem>,
    keys: &Vec<String>,
    lo: usize,
    mid: usize,
    hi: usize,
    left: &Vec<usize>,
    right: &Vec<usize>,
) -> (order: Vec<usize>)
    requires
        keys@.len() == items@.len(),
        lo <= mid <= hi <= items@.len(),
        is_ranking(
            column,
            direction,
            keyed_with(items@, keys@),
            lo as int,
            mid as int,
            places(left@),
        ),
        is_ranking(
            column,
            direction,
            keyed_with(items@, keys@),
            mid as int,
            hi as int,
            places(right@),
        ),
    ensures
        is_ranking(
            column,
            direction,
            keyed_with(items@, keys@),
            lo as int,
            hi as int,
            places(order@),
        ),
{
    let mut order: Vec<usize> = Vec::new();
    let mut i: usize = 0;
    let mut j: usize = 0;
    let ghost all = keyed_with(items@, keys@);
    let ghost l = places(left@);
    let ghost r = places(right@);
    while i < left.len() || j < right.len()
        invariant
            keys@.len() == items@.len(),
            lo <= mid <= hi <= items@.len(),
            all == keyed_with(items@, keys@),
            l == places(left@),
            r == places(right@),
            is_ranking(column, direction, all, lo as int, mid as int, l),
            is_ranking(column, direction, all, mid as int, hi as int, r),
            i <= left@.len(),
            j <= right@.len(),
            order@.len() == i + j,
            forall|k: int| 0 <= k < order@.len() ==> lo <= #[trigger] places(order@)[k] < hi,
            forall|k: int| 0 <= k < i ==> places(order@).contains(#[trigger] l[k]),
            forall|k: int| 0 <= k < j ==> places(order@).contains(#[trigger] r[k]),
            forall|a: int, b: int|
                0 <= a < b < order@.len() ==> ranks_before(
                    column,
                    direction,
                    all,
                    #[trigger] places(order@)[a],
                    #[trigger] places(order@)[b],
                ),
            forall|a: int, k: int|
                0 <= a < order@.len() && i <= k < l.len() ==> ranks_before(
                    column,
                    direction,
                    all,
                    #[trigger] places(order@)[a],
                    #[trigger] l[k],
                ),
            forall|a: int, k: int|
                0 <= a < order@.len() && j <= k < r.len() ==> ranks_before(
                    column,
                    direction,
                    all,
                    #[trigger] places(order@)[a],
                    #[trigger] r[k],
                ),
        decreases left@.len() + right@.len() - i - j,
    {
        let ghost before = places(order@);
        proof {
            if i < left@.len() {
                assert(lo <= l[i as int] < mid);
            }
            if j < right@.len() {
                assert(mid <= r[j as int] < hi);
            }
        }
        let take_left = if i >= left.len() {
            false
        } else if j >= right.len() {
            true
        } else {
            !belongs_before(column, direction, items, keys, right[j], left[i])
        };
        if take_left {
            proof {
                assert forall|k: int| j <= k < r.len() implies ranks_before(
                    column,
                    direction,
                    all,
                    l[i as int],
                    #[trigger] r[k],
                ) by {
                    assert(mid <= r[j as int] < hi);
                    assert(ranks_before(column, direction, all, l[i as int], r[j as int]));
                    lemma_ranks(column, direction, all, l[i as int], r[j as int], r[k]);
                }
            }
            order.push(left[i]);
            i += 1;
        } else {
            proof {
                assert forall|k: int| i <= k < l.len() implies ranks_before(
                    column,
                    direction,
                    all,
                    r[j as int],
                    #[trigger] l[k],
                ) by {
                    assert(ranks_before(column, direction, all, r[j as int], l[i as int]));
                    lemma_ranks(column, direction, all, r[j as int], l[i as int], l[k]);
                }
            }
            order.push(right[j]);
            j += 1;
        }
        proof {
            let after = places(order@);
            let last = before.len() as int;
            assert(after =~= before.push(after[last]));
            assert forall|x: int| before.contains(x) implies after.contains(x) by {
                let k = choose|k: int| 0 <= k < before.len() && before[k] == x;
                assert(after[k] == x);
            }
            assert(after.contains(after[last]));
        }
    }
    proof {
        let all = places(order@);
        assert forall|x: int| lo <= x < hi implies #[trigger] all.contains(x) by {
            if x < mid {
                assert(l.contains(x));
                let k = choose|k: int| 0 <= k < l.len() && l[k] == x;
                assert(all.contains(l[k]));
            } else {
                assert(r.contains(x));
                let k = choose|k: int| 0 <= k < r.len() && r[k] == x;
                assert(all.contains(r[k]));
            }
        }
    }
    order
}

/// Ranks the items of a range, by merging the rankings of its halves.
fn rank_range(
    column: SortColumn,
    direction: SortDirection,
    items: &Vec<AfcItem>,
    keys: &Vec<String>,
    lo: usize,
    hi: usize,
) -> (order: Vec<usize>)
    requires
        keys@.len() == items@.len(),
        lo <= hi <= items@.len(),
    ensures
        is_ranking(
            column,
            direction,
            keyed_with(items@, keys@),
            lo as int,
            hi as int,
            places(order@),
        ),
    decreases hi - lo,
{
    if hi - lo < 2 {
        let mut order: Vec<usize> = Vec::new();
        if lo < hi {
            order.push(lo);
            proof {
                assert(places(order@)[0] == lo);
            }
        }
        order
    } else {
        let mid = lo + (hi - lo) / 2;
        let left = rank_range(column, direction, items, keys, lo, mid);
        let right = rank_range(column, direction, items, keys, mid, hi);
        merge_rankings(column, direction, items, keys, lo, mid, hi, &left, &right)
    }
}

/// Sorts a listing, the given texts standing for the names. Equals of the column stay as they
/// stood.
pub fn sorted_by_keys(
    items: &Vec<AfcItem>,
    keys: &Vec<String>,
    column: SortColumn,
    direction: SortDirection,
) -> (sorted: Vec<AfcItem>)
    requires
        keys@.len() == items@.len(),
    ensures
        is_sorted_by(column, direction, items@, keys_view(keys@), sorted@),
{
    let order = rank_range(column, direction, items, keys, 0, items.len());
    let mut sorted: Vec<AfcItem> = Vec::new();
    let ghost ranks = places(order@);
    let mut k: usize = 0;
    while k < order.len()
        invariant
            k <= order@.len(),
            ranks == places(order@),
            is_ranking(
                column,
                direction,
                keyed_with(items@, keys@),
                0,
                items@.len() as int,
                ranks,
            ),
            sorted@ == arranged(items@, ranks).take(k as int),
        decreases order@.len() - k,
    {
        proof {
            assert(0 <= ranks[k as int] < items@.len());
        }
        sorted.push(items[order[k]].clone());
        k += 1;
        proof {
            assert(sorted@ =~= arranged(items@, ranks).take(k as int));
        }
    }
    proof {
        assert(sorted@ =~= arranged(items@, ranks));
    }
    sorted
}

/// Sorts a listing, names counting in lower case. Equals of the column stay as they stood.
pub fn sorted_items(items: &Vec<AfcItem>, column: SortColumn, direction: SortDirection) -> (sorted:
    Vec<AfcItem>)
    ensures
        is_sorted_from(column, direction, items@, sorted@),
{
    let mut keys: Vec<String> = Vec::new();
    let mut i: usize = 0;
    while i < items.len()
        invariant
            i <= items@.len(),
            keys@.len() == i,
            forall|k: int|
                0 <= k < i ==> (#[trigger] keys@[k])@ == crate::text::lowercase(items@[k].name@),
        decreases items@.len() - i,
    {
        keys.push(to_lowercase(items[i].name.as_str()));
        i += 1;
    }
    proof {
        assert(keys_view(keys@) =~= lowered_names(items@));
    }
    sorted_by_keys(items, &keys, column, direction)
}

} // verus!
