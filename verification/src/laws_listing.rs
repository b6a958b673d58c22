//! What a sorted listing and its rows look like, said of the items themselves.

use vstd::prelude::*;

use crate::commands::AfcItem;
use crate::explorer::{self, Row};
use crate::listing;
use crate::size;
use crate::state::{SortColumn, SortDirection};
use crate::text;

verus! {

/// Whether one text is less than another: their bytes agree up to a place where the first ends or
/// has the smaller byte.
pub open spec fn text_before(a: Seq<char>, b: Seq<char>) -> bool {
    let (x, y) = (vstd::utf8::encode_utf8(a), vstd::utf8::encode_utf8(b));
    exists|k: int|
        {
            &&& 0 <= k <= x.len() && k < y.len()
            &&& #[trigger] x.take(k) == y.take(k)
            &&& k < x.len() ==> x[k] < y[k]
        }
}

proof fn lemma_text_before(a: Seq<char>, b: Seq<char>)
    ensures
        text_before(a, b) == text::text_less(a, b),
{
    let (x, y) = (vstd::utf8::encode_utf8(a), vstd::utf8::encode_utf8(b));
    crate::laws_text::texts_are_ordered_by_their_bytes(a, b);
    if text::text_less(a, b) {
        let k = choose|k: int| crate::laws_text::less_at(x, y, k);
        assert(x.take(k) =~= y.take(k));
    }
    if text_before(a, b) {
        let k = choose|k: int|
            {
                &&& 0 <= k <= x.len() && k < y.len()
                &&& #[trigger] x.take(k) == y.take(k)
                &&& k < x.len() ==> x[k] < y[k]
            };
        assert forall|i: int| 0 <= i < k implies #[trigger] x[i] == y[i] by {
            assert(x.take(k)[i] == y.take(k)[i]);
        }
        assert(crate::laws_text::less_at(x, y, k));
    }
}

/// Law: in a listing sorted by name nothing stands before what is less, going by the lower-case
/// names and by nothing else.
pub proof fn names_stand_in_order(
    direction: SortDirection,
    items: Seq<AfcItem>,
    sorted: Seq<AfcItem>,
    a: int,
    b: int,
)
    requires
        listing::is_sorted_from(SortColumn::Name, direction, items, sorted),
        0 <= a < b < sorted.len(),
    ensures
        direction == SortDirection::Ascending ==> !text_before(
            text::lowercase(sorted[b].name@),
            text::lowercase(sorted[a].name@),
        ),
        direction == SortDirection::Descending ==> !text_before(
            text::lowercase(sorted[a].name@),
            text::lowercase(sorted[b].name@),
        ),
{
    listing::sorting_orders(SortColumn::Name, direction, items, sorted, a, b);
    lemma_text_before(text::lowercase(sorted[b].name@), text::lowercase(sorted[a].name@));
    lemma_text_before(text::lowercase(sorted[a].name@), text::lowercase(sorted[b].name@));
}

/// Law: in a listing sorted by size the sizes rise or fall.
pub proof fn sizes_stand_in_order(
    direction: SortDirection,
    items: Seq<AfcItem>,
    sorted: Seq<AfcItem>,
    a: int,
    b: int,
)
    requires
        listing::is_sorted_from(SortColumn::Size, direction, items, sorted),
        0 <= a < b < sorted.len(),
    ensures
        direction == SortDirection::Ascending ==> sorted[a].info.size <= sorted[b].info.size,
        direction == SortDirection::Descending ==> sorted[a].info.size >= sorted[b].info.size,
{
    listing::sorting_orders(SortColumn::Size, direction, items, sorted, a, b);
}

/// Law: in a listing sorted by time the times rise or fall.
pub proof fn times_stand_in_order(
    direction: SortDirection,
    items: Seq<AfcItem>,
    sorted: Seq<AfcItem>,
    a: int,
    b: int,
)
    requires
        listing::is_sorted_from(SortColumn::Modified, direction, items, sorted),
        0 <= a < b < sorted.len(),
    ensures
        direction == SortDirection::Ascending ==> sorted[a].info.modified
            <= sorted[b].info.modified,
        direction == SortDirection::Descending ==> sorted[a].info.modified
            >= sorted[b].info.modified,
{
    listing::sorting_orders(SortColumn::Modified, direction, items, sorted, a, b);
}

/// Whether a column does not tell two items apart.
pub open spec fn ties(column: SortColumn, a: AfcItem, b: AfcItem) -> bool {
    match column {
        SortColumn::Name => text::lowercase(a.name@) == text::lowercase(b.name@),
        SortColumn::Size => a.info.size == b.info.size,
        SortColumn::Modified => a.info.modified == b.info.modified,
    }
}

/// Whether a list of places names every place of a listing once and holds those that the column
/// does not tell apart in the order in which they stand.
pub open spec fn keeps_ties(column: SortColumn, items: Seq<AfcItem>, order: Seq<int>) -> bool {
    &&& order.len() == items.len()
    &&& forall|k: int| 0 <= k < order.len() ==> 0 <= #[trigger] order[k] < items.len()
    &&& forall|a: int, b: int|
        0 <= a < b < order.len() ==> #[trigger] order[a] != #[trigger] order[b]
    &&& forall|a: int, b: int|
        0 <= a < b < order.len() && ties(
            column,
            items[#[trigger] order[a]],
            items[#[trigger] order[b]],
        ) ==> order[a] < order[b]
}

/// Law: a sorted listing holds each item once, and those that the column does not tell apart stand
/// as they stood.
pub proof fn sorting_keeps_ties(
    column: SortColumn,
    direction: SortDirection,
    items: Seq<AfcItem>,
    sorted: Seq<AfcItem>,
)
    requires
        listing::is_sorted_from(column, direction, items, sorted),
    ensures
        exists|order: Seq<int>| #[trigger]
            keeps_ties(column, items, order) && sorted == Seq::new(
                order.len(),
                |k: int| items[order[k]],
            ),
{
    let all = listing::keyed(items, listing::lowered_names(items));
    let order = choose|order: Seq<int>|
        {
            &&& #[trigger] listing::is_ranking(
                column,
                direction,
                all,
                0,
                items.len() as int,
                order,
            )
            &&& sorted == listing::arranged(items, order)
        };
    assert forall|a: int, b: int| 0 <= a < b < order.len() implies #[trigger] order[a]
        != #[trigger] order[b] by {
        let (i, j) = (order[a], order[b]);
        assert(listing::ranks_before(column, direction, all, i, j));
        text::bytes_less_is_strict(
            vstd::utf8::encode_utf8(all[i].key),
            vstd::utf8::encode_utf8(all[i].key),
            vstd::utf8::encode_utf8(all[i].key),
        );
    }
    assert forall|a: int, b: int|
        0 <= a < b < order.len() && ties(
            column,
            items[#[trigger] order[a]],
            items[#[trigger] order[b]],
        ) implies order[a] < order[b] by {
        let (i, j) = (order[a], order[b]);
        assert(listing::ranks_before(column, direction, all, i, j));
        text::bytes_less_is_strict(
            vstd::utf8::encode_utf8(all[i].key),
            vstd::utf8::encode_utf8(all[i].key),
            vstd::utf8::encode_utf8(all[i].key),
        );
    }
    assert(keeps_ties(column, items, order));
    assert(sorted =~= Seq::new(order.len(), |k: int| items[order[k]]));
}

/// Whether a list of places names the items in the order of the given texts, and those of one text
/// in the order in which they stand.
pub open spec fn follows_texts(
    direction: SortDirection,
    keys: Seq<String>,
    order: Seq<int>,
) -> bool {
    &&& order.len() == keys.len()
    &&& forall|k: int| 0 <= k < order.len() ==> 0 <= #[trigger] order[k] < keys.len()
    &&& forall|a: int, b: int|
        0 <= a < b < order.len() ==> {
            let (x, y) = (keys[#[trigger] order[a]]@, keys[#[trigger] order[b]]@);
            match direction {
                SortDirection::Ascending => text_before(x, y) || x == y && order[a] < order[b],
                SortDirection::Descending => text_before(y, x) || x == y && order[a] < order[b],
            }
        }
}

/// Law: texts that are given stand for the names in the order, each for the item at its place.
pub proof fn given_texts_order_the_items(
    direction: SortDirection,
    items: Seq<AfcItem>,
    keys: Seq<String>,
    sorted: Seq<AfcItem>,
)
    requires
        keys.len() == items.len(),
        listing::is_sorted_by(SortColumn::Name, direction, items, listing::keys_view(keys), sorted),
    ensures
        exists|order: Seq<int>| #[trigger]
            follows_texts(direction, keys, order) && sorted == Seq::new(
                order.len(),
                |k: int| items[order[k]],
            ),
{
    let texts = listing::keys_view(keys);
    let all = listing::keyed(items, texts);
    let order = choose|order: Seq<int>|
        {
            &&& #[trigger] listing::is_ranking(
                SortColumn::Name,
                direction,
                all,
                0,
                items.len() as int,
                order,
            )
            &&& sorted == listing::arranged(items, order)
        };
    assert forall|a: int, b: int| 0 <= a < b < order.len() implies {
        let (x, y) = (keys[#[trigger] order[a]]@, keys[#[trigger] order[b]]@);
        match direction {
            SortDirection::Ascending => text_before(x, y) || x == y && order[a] < order[b],
            SortDirection::Descending => text_before(y, x) || x == y && order[a] < order[b],
        }
    } by {
        let (i, j) = (order[a], order[b]);
        let (x, y) = (keys[i]@, keys[j]@);
        assert(listing::ranks_before(SortColumn::Name, direction, all, i, j));
        assert(all[i].key == x && all[j].key == y);
        lemma_text_before(x, y);
        lemma_text_before(y, x);
        text::bytes_less_is_total(vstd::utf8::encode_utf8(x), vstd::utf8::encode_utf8(y));
        vstd::utf8::encode_utf8_decode_utf8(x);
        vstd::utf8::encode_utf8_decode_utf8(y);
    }
    assert(follows_texts(direction, keys, order));
    assert(sorted =~= Seq::new(order.len(), |k: int| items[order[k]]));
}

/// Law: a row shows the icon of the item's kind and its name, its size unless it is a directory,
/// and the text of its time.
pub proof fn rows_show_their_items(row: Row, item: AfcItem, modified: Seq<char>, selected: bool)
    requires
        row.shows(item, modified, selected),
    ensures
        row.is_dir == (item.info.st_ifmt@ == "S_IFDIR"@),
        row.label@ == (if row.is_dir {
            "📁 "@
        } else {
            "📄 "@
        }) + item.name@,
        row.size@ == if row.is_dir {
            "--"@
        } else {
            size::size_text(item.info.size as nat)
        },
        row.modified@ == modified,
        row.selected == selected,
{
}

/// Law: the item of a name is the first that has it.
pub proof fn the_first_of_a_name_is_found(items: Seq<AfcItem>, name: Seq<char>)
    ensures
        ({
            let at = explorer::first_named(items, name);
            &&& -1 <= at < items.len()
            &&& at >= 0 ==> items[at].name@ == name
            &&& forall|i: int| 0 <= i < at ==> (#[trigger] items[i]).name@ != name
            &&& at < 0 ==> forall|i: int|
                0 <= i < items.len() ==> (#[trigger] items[i]).name@ != name
        }),
    decreases items.len(),
{
    if items.len() > 0 {
        let init = items.drop_last();
        the_first_of_a_name_is_found(init, name);
        assert forall|i: int| 0 <= i < init.len() implies #[trigger] items[i] == init[i] by {}
    }
}

} // verus!
