//! The order in which items of the catalogue are shown: by category, items
//! without a category last, and by name within a category.

use vstd::prelude::*;
use crate::market_models::MarketItem;
use crate::named::str_eq;
use crate::order::gather;
use crate::order::shows;
use crate::origin::lemma_lex_irreflexive;
use crate::origin::lemma_lex_total;
use crate::origin::lemma_lex_transitive;
use crate::origin::lex_lt;
use crate::origin::str_lt;

verus! {

/// The category `a` comes before the category `b`: in the order of strings,
/// and any category before none.
pub open spec fn category_lt(a: Option<String>, b: Option<String>) -> bool {
    match (a, b) {
        (Some(x), Some(y)) => lex_lt(x@, y@),
        (Some(_), None) => true,
        _ => false,
    }
}

/// The two categories are the same, or both are absent.
pub open spec fn category_eq(a: Option<String>, b: Option<String>) -> bool {
    match (a, b) {
        (Some(x), Some(y)) => x@ == y@,
        (None, None) => true,
        _ => false,
    }
}

/// The item `a` is shown before the item `b` for its category or, in the
/// same category, for its name.
pub open spec fn item_lt(a: MarketItem, b: MarketItem) -> bool {
    category_lt(a.category, b.category) || (category_eq(a.category, b.category) && lex_lt(
        a.name@,
        b.name@,
    ))
}

/// The two items have the same category and the same name.
pub open spec fn same_place(a: MarketItem, b: MarketItem) -> bool {
    category_eq(a.category, b.category) && a.name@ == b.name@
}

/// Of the rows `i` and `j` of the catalogue, `i` is shown first: for its
/// category or its name, or, where both are the same, because it stands
/// earlier in the catalogue.
pub open spec fn item_precedes(items: Seq<MarketItem>, i: int, j: int) -> bool {
    item_lt(items[i], items[j]) || (same_place(items[i], items[j]) && i < j)
}

/// `list` names exactly the rows among the first `n` that are chosen, each
/// once, in the order in which they are shown.
pub open spec fn is_catalogue_listing_of(
    items: Seq<MarketItem>,
    chosen: Seq<bool>,
    n: int,
    list: Seq<usize>,
) -> bool {
    &&& forall|j: int| 0 <= j < list.len() ==> (#[trigger] list[j]) < n && chosen[list[j] as int]
    &&& forall|k: int|
        0 <= k < n && (#[trigger] chosen[k]) ==> exists|j: int|
            0 <= j < list.len() && #[trigger] list[j] == k
    &&& forall|a: int, b: int|
        0 <= a < b < list.len() ==> item_precedes(
            items,
            #[trigger] list[a] as int,
            #[trigger] list[b] as int,
        )
}

/// `list` names exactly the chosen rows of the catalogue, each once, in the
/// order in which they are shown.
pub open spec fn is_catalogue_listing(items: Seq<MarketItem>, chosen: Seq<bool>, list: Seq<usize>) -> bool {
    is_catalogue_listing_of(items, chosen, items.len() as int, list)
}

/// `out` holds exactly the chosen rows of the catalogue, each once, by
/// category, rows without a category last, by name within a category, and
/// rows of the same category and name in the order of the catalogue.
pub open spec fn is_catalogue_view(items: Seq<MarketItem>, chosen: Seq<bool>, out: Seq<MarketItem>) -> bool {
    exists|list: Seq<usize>|
        is_catalogue_listing(items, chosen, list) && out.len() == list.len() && #[trigger] shows(
            items,
            list,
            out,
        )
}

/// Which rows of the catalogue can be bought at `now`.
pub open spec fn available_at(items: Seq<MarketItem>, now: i64) -> Seq<bool> {
    Seq::new(items.len(), |k: int| items[k].is_available_at(now))
}

/// The item is switched on and belongs to `category`.
pub open spec fn is_in_category(item: MarketItem, category: Seq<char>) -> bool {
    &&& item.available
    &&& item.category matches Some(c)
    &&& c@ == category
}

/// Which rows of the catalogue are switched on and belong to `category`.
pub open spec fn in_category(items: Seq<MarketItem>, category: Seq<char>) -> Seq<bool> {
    Seq::new(items.len(), |k: int| is_in_category(items[k], category))
}

/// No item is shown before itself.
pub proof fn lemma_item_irreflexive(a: MarketItem)
    ensures
        !item_lt(a, a),
{
    lemma_lex_irreflexive(a.name@);
    if let Some(c) = a.category {
        lemma_lex_irreflexive(c@);
    }
}

/// Of two items one is shown before the other, or they have the same
/// category and name.
pub proof fn lemma_item_total(a: MarketItem, b: MarketItem)
    ensures
        item_lt(a, b) || same_place(a, b) || item_lt(b, a),
{
    lemma_lex_total(a.name@, b.name@);
    if let (Some(x), Some(y)) = (a.category, b.category) {
        lemma_lex_total(x@, y@);
    }
}

/// What is shown before an item is shown before everything after it.
pub proof fn lemma_item_transitive(a: MarketItem, b: MarketItem, c: MarketItem)
    requires
        item_lt(a, b),
        item_lt(b, c),
    ensures
        item_lt(a, c),
{
    if let (Some(x), Some(y), Some(z)) = (a.category, b.category, c.category) {
        if lex_lt(x@, y@) && lex_lt(y@, z@) {
            lemma_lex_transitive(x@, y@, z@);
        }
    }
    if lex_lt(a.name@, b.name@) && lex_lt(b.name@, c.name@) {
        lemma_lex_transitive(a.name@, b.name@, c.name@);
    }
}

/// Of two rows at most one is shown before the other.
pub proof fn lemma_precedes_one_way(items: Seq<MarketItem>, i: int, j: int)
    ensures
        !(item_precedes(items, i, j) && item_precedes(items, j, i)),
{
    lemma_item_irreflexive(items[i]);
    if item_lt(items[i], items[j]) && item_lt(items[j], items[i]) {
        lemma_item_transitive(items[i], items[j], items[i]);
    }
}

/// Whether `a` is shown before `b` for its category or its name.
fn item_before(a: &MarketItem, b: &MarketItem) -> (r: bool)
    ensures
        r == item_lt(*a, *b),
{
    match &a.category {
        Some(x) => match &b.category {
            Some(y) => {
                if str_lt(x.as_str(), y.as_str()) {
                    true
                } else if str_eq(x.as_str(), y.as_str()) {
                    str_lt(a.name.as_str(), b.name.as_str())
                } else {
                    false
                }
            },
            None => true,
        },
        None => match &b.category {
            Some(_) => false,
            None => str_lt(a.name.as_str(), b.name.as_str()),
        },
    }
}

/// The chosen rows of the catalogue in the order in which they are shown.
pub(crate) fn list_catalogue(items: &Vec<MarketItem>, chosen: &Vec<bool>) -> (list: Vec<usize>)
    requires
        chosen.len() == items.len(),
    ensures
        is_catalogue_listing(items@, chosen@, list@),
{
    let mut list: Vec<usize> = Vec::new();
    let mut i: usize = 0;
    while i < items.len()
        invariant
            0 <= i <= items.len(),
            chosen.len() == items.len(),
            is_catalogue_listing_of(items@, chosen@, i as int, list@),
        decreases items.len() - i,
    {
        let ghost before = list@;
        if chosen[i] {
            let mut pos: usize = 0;
            while pos < list.len() && !item_before(&items[i], &items[list[pos]])
                invariant
                    0 <= pos <= list.len(),
                    0 <= i < items.len(),
                    list@ == before,
                    is_catalogue_listing_of(items@, chosen@, i as int, list@),
                    forall|a: int|
                        0 <= a < pos ==> !item_lt(items@[i as int], items@[(#[trigger] list@[a]) as int]),
                decreases list.len() - pos,
            {
                pos = pos + 1;
            }
            list.insert(pos, i);
            proof {
                let after = list@;
                let all = items@;
                assert(after == before.insert(pos as int, i));
                assert forall|j: int| 0 <= j < after.len() implies (#[trigger] after[j]) < i + 1
                    && chosen@[after[j] as int] by {
                    if j < pos {
                        assert(after[j] == before[j]);
                    } else if j > pos {
                        assert(after[j] == before[j - 1]);
                    }
                }
                assert forall|k: int| 0 <= k < i + 1 && (#[trigger] chosen@[k]) implies exists|
                    j: int,
                | 0 <= j < after.len() && #[trigger] after[j] == k by {
                    if k < i {
                        let j0 = choose|j: int| 0 <= j < before.len() && #[trigger] before[j] == k;
                        if j0 < pos {
                            assert(after[j0] == k);
                        } else {
                            assert(after[j0 + 1] == k);
                        }
                    } else {
                        assert(after[pos as int] == k);
                    }
                }
                assert forall|a: int, b: int| 0 <= a < b < after.len() implies item_precedes(
                    all,
                    #[trigger] after[a] as int,
                    #[trigger] after[b] as int,
                ) by {
                    if a != pos && b != pos {
                        let ia = if a < pos {
                            a
                        } else {
                            a - 1
                        };
                        let ib = if b < pos {
                            b
                        } else {
                            b - 1
                        };
                        assert(after[a] == before[ia]);
                        assert(after[b] == before[ib]);
                        assert(item_precedes(all, before[ia] as int, before[ib] as int));
                    } else if a == pos {
                        assert(after[b] == before[b - 1]);
                        assert(item_lt(all[i as int], all[before[pos as int] as int]));
                        if pos < b - 1 {
                            assert(item_precedes(
                                all,
                                before[pos as int] as int,
                                before[b - 1] as int,
                            ));
                            if item_lt(all[before[pos as int] as int], all[before[b - 1] as int]) {
                                lemma_item_transitive(
                                    all[i as int],
                                    all[before[pos as int] as int],
                                    all[before[b - 1] as int],
                                );
                            }
                        }
                    } else {
                        assert(after[a] == before[a]);
                        assert(before[a] < i);
                        lemma_item_total(all[i as int], all[before[a] as int]);
                    }
                }
            }
        }
        i = i + 1;
    }
    list
}

/// Two listings of the same chosen rows agree on their first `n` places.
proof fn lemma_catalogue_listings_agree(
    items: Seq<MarketItem>,
    chosen: Seq<bool>,
    l1: Seq<usize>,
    l2: Seq<usize>,
    n: int,
)
    requires
        is_catalogue_listing(items, chosen, l1),
        is_catalogue_listing(items, chosen, l2),
        0 <= n <= l1.len(),
        n <= l2.len(),
    ensures
        forall|i: int| 0 <= i < n ==> l1[i] == l2[i],
    decreases n,
{
    if n > 0 {
        lemma_catalogue_listings_agree(items, chosen, l1, l2, n - 1);
        let j = n - 1;
        let x = l1[j];
        let y = l2[j];
        if x != y {
            assert(chosen[x as int]);
            assert(chosen[y as int]);
            lemma_precedes_one_way(items, x as int, y as int);
            lemma_precedes_one_way(items, x as int, x as int);
            lemma_precedes_one_way(items, y as int, y as int);
            let m = choose|m: int| 0 <= m < l2.len() && #[trigger] l2[m] == x as int;
            if m < j {
                assert(l1[m] == l2[m]);
                assert(item_precedes(items, l1[m] as int, l1[j] as int));
            } else {
                assert(item_precedes(items, l2[j] as int, l2[m] as int));
            }
            let k = choose|k: int| 0 <= k < l1.len() && #[trigger] l1[k] == y as int;
            if k < j {
                assert(l1[k] == l2[k]);
                assert(item_precedes(items, l2[k] as int, l2[j] as int));
            } else {
                assert(item_precedes(items, l1[j] as int, l1[k] as int));
            }
        }
    }
}

/// The catalogue and the choice decide the listing: there is only one.
pub proof fn lemma_catalogue_listing_is_unique(
    items: Seq<MarketItem>,
    chosen: Seq<bool>,
    l1: Seq<usize>,
    l2: Seq<usize>,
)
    requires
        is_catalogue_listing(items, chosen, l1),
        is_catalogue_listing(items, chosen, l2),
    ensures
        l1 == l2,
{
    let n = if l1.len() <= l2.len() {
        l1.len() as int
    } else {
        l2.len() as int
    };
    lemma_catalogue_listings_agree(items, chosen, l1, l2, n);
    if l1.len() < l2.len() {
        let x = l2[n];
        assert(chosen[x as int]);
        lemma_precedes_one_way(items, x as int, x as int);
        let m = choose|m: int| 0 <= m < l1.len() && #[trigger] l1[m] == x as int;
        assert(l1[m] == l2[m]);
        assert(item_precedes(items, l2[m] as int, l2[n] as int));
    } else if l2.len() < l1.len() {
        let x = l1[n];
        assert(chosen[x as int]);
        lemma_precedes_one_way(items, x as int, x as int);
        let m = choose|m: int| 0 <= m < l2.len() && #[trigger] l2[m] == x as int;
        assert(l1[m] == l2[m]);
        assert(item_precedes(items, l1[m] as int, l1[n] as int));
    }
    assert(l1 =~= l2);
}

/// The items that can be bought at `now`, by category, items without a
/// category last, and by name within a category.
pub fn available_items<'a>(items: &'a Vec<MarketItem>, now: i64) -> (r: Vec<&'a MarketItem>)
    ensures
        is_catalogue_view(items@, available_at(items@, now), r@.map_values(|x: &MarketItem| *x)),
{
    let mut chosen: Vec<bool> = Vec::new();
    let mut i: usize = 0;
    while i < items.len()
        invariant
            0 <= i <= items.len(),
            chosen@ == available_at(items@, now).take(i as int),
        decreases items.len() - i,
    {
        chosen.push(items[i].is_available(now));
        assert(chosen@ =~= available_at(items@, now).take(i + 1));
        i = i + 1;
    }
    assert(chosen@ =~= available_at(items@, now));
    let list = list_catalogue(items, &chosen);
    let out = gather(items, &list, list.len());
    assert(shows(items@, list@, out@.map_values(|x: &MarketItem| *x)));
    out
}

/// The items of `category` that are switched on, by name.
pub fn items_in_category<'a>(items: &'a Vec<MarketItem>, category: &str) -> (r: Vec<
    &'a MarketItem,
>)
    ensures
        is_catalogue_view(
            items@,
            in_category(items@, category@),
            r@.map_values(|x: &MarketItem| *x),
        ),
{
    let mut chosen: Vec<bool> = Vec::new();
    let mut i: usize = 0;
    while i < items.len()
        invariant
            0 <= i <= items.len(),
            chosen@ == in_category(items@, category@).take(i as int),
        decreases items.len() - i,
    {
        let item = &items[i];
        let fits = item.available && match &item.category {
            Some(c) => str_eq(c.as_str(), category),
            None => false,
        };
        chosen.push(fits);
        assert(chosen@ =~= in_category(items@, category@).take(i + 1));
        i = i + 1;
    }
    assert(chosen@ =~= in_category(items@, category@));
    let list = list_catalogue(items, &chosen);
    let out = gather(items, &list, list.len());
    assert(shows(items@, list@, out@.map_values(|x: &MarketItem| *x)));
    out
}

} // verus!
