//! Listing rows by a key, highest first.

use vstd::prelude::*;

verus! {

/// Of two rows with a key, `a` is listed before `b`: its key is higher, or
/// the keys are equal and `a` stands earlier in the table.
pub open spec fn precedes(keys: Seq<Option<i64>>, a: int, b: int) -> bool {
    keys[a]->0 > keys[b]->0 || (keys[a]->0 == keys[b]->0 && a < b)
}

/// `list` names exactly the rows that have a key, each once, the highest
/// key first and rows of equal key in the order of the table.
pub open spec fn is_listing(keys: Seq<Option<i64>>, list: Seq<usize>) -> bool {
    &&& forall|j: int| 0 <= j < list.len() ==> (#[trigger] list[j]) < keys.len() && keys[list[j] as int] is Some
    &&& forall|k: int|
        0 <= k < keys.len() && (#[trigger] keys[k]) is Some ==> exists|j: int|
            0 <= j < list.len() && #[trigger] list[j] == k
    &&& forall|a: int, b: int|
        0 <= a < b < list.len() ==> precedes(keys, #[trigger] list[a] as int, #[trigger] list[b] as int)
}

/// `out` holds the rows that `list` names, in the order of `list`, as far
/// as `out` reaches.
pub open spec fn shows<T>(rows: Seq<T>, list: Seq<usize>, out: Seq<T>) -> bool {
    &&& out.len() <= list.len()
    &&& forall|j: int| 0 <= j < out.len() ==> #[trigger] out[j] == rows[list[j] as int]
}

/// `out` holds the rows that have a key, the highest key first and rows of
/// equal key in the order of the table.
pub open spec fn is_listed<T>(rows: Seq<T>, keys: Seq<Option<i64>>, out: Seq<T>) -> bool {
    exists|list: Seq<usize>|
        is_listing(keys, list) && out.len() == list.len() && #[trigger] shows(rows, list, out)
}

/// `out` holds the rows that have a key, the highest key first and rows of
/// equal key in the order of the table, cut off after `limit` rows.
pub open spec fn is_listed_up_to<T>(
    rows: Seq<T>,
    keys: Seq<Option<i64>>,
    limit: int,
    out: Seq<T>,
) -> bool {
    exists|list: Seq<usize>|
        is_listing(keys, list) && out.len() == (if limit < list.len() {
            limit
        } else {
            list.len() as int
        }) && #[trigger] shows(rows, list, out)
}

/// The rows that `list` names, in its order, at most `limit` of them.
pub(crate) fn gather<'a, T>(rows: &'a Vec<T>, list: &Vec<usize>, limit: usize) -> (out: Vec<&'a T>)
    requires
        forall|j: int| 0 <= j < list.len() ==> (#[trigger] list[j]) < rows.len(),
    ensures
        out.len() == (if limit < list.len() {
            limit
        } else {
            list.len()
        }),
        shows(rows@, list@, out@.map_values(|x: &T| *x)),
{
    let mut out: Vec<&T> = Vec::new();
    let mut j: usize = 0;
    while j < list.len() && j < limit
        invariant
            0 <= j <= list.len(),
            j <= limit,
            out.len() == j,
            forall|j: int| 0 <= j < list.len() ==> (#[trigger] list[j]) < rows.len(),
            forall|k: int| 0 <= k < j ==> *(#[trigger] out@[k]) == rows@[list@[k] as int],
        decreases list.len() - j,
    {
        out.push(&rows[list[j]]);
        j = j + 1;
    }
    proof {
        let shown = out@.map_values(|x: &T| *x);
        assert forall|k: int| 0 <= k < shown.len() implies #[trigger] shown[k] == rows@[list@[k] as int] by {
            assert(*out@[k] == rows@[list@[k] as int]);
        }
    }
    out
}

/// The rows that have a key, listed by key from the highest down, rows of
/// equal key in the order of the table. A row without a key is left out.
pub fn list_desc(keys: &Vec<Option<i64>>) -> (list: Vec<usize>)
    ensures
        is_listing(keys@, list@),
{
    let mut list: Vec<usize> = Vec::new();
    let mut i: usize = 0;
    while i < keys.len()
        invariant
            0 <= i <= keys.len(),
            is_listing(keys@.take(i as int), list@),
        decreases keys.len() - i,
    {
        let ghost before = list@;
        let ghost seen = keys@.take(i as int);
        let ghost seen2 = keys@.take(i + 1);
        match keys[i] {
            Some(key) => {
                let mut pos: usize = 0;
                while pos < list.len() && keys[list[pos]].unwrap() >= key
                    invariant
                        0 <= pos <= list.len(),
                        0 <= i < keys.len(),
                        list@ == before,
                        is_listing(keys@.take(i as int), list@),
                        keys@[i as int] == Some(key),
                        forall|a: int| 0 <= a < pos ==> keys@[(#[trigger] list@[a]) as int]->0 >= key,
                    decreases list.len() - pos,
                {
                    assert(keys@.take(i as int)[list@[pos as int] as int] is Some);
                    pos = pos + 1;
                }
                assert(pos < list.len() ==> keys@[list@[pos as int] as int]->0 < key) by {
                    if pos < list.len() {
                        assert(seen[list@[pos as int] as int] is Some);
                    }
                }
                list.insert(pos, i);
                proof {
                    let after = list@;
                    assert(after == before.insert(pos as int, i));
                    assert forall|j: int| 0 <= j < after.len() implies (#[trigger] after[j])
                        < seen2.len() && seen2[after[j] as int] is Some by {
                        if j < pos {
                            assert(after[j] == before[j]);
                            assert(seen[before[j] as int] is Some);
                        } else if j > pos {
                            assert(after[j] == before[j - 1]);
                            assert(seen[before[j - 1] as int] is Some);
                        }
                    }
                    assert forall|k: int| 0 <= k < seen2.len() && (#[trigger] seen2[k]) is Some implies exists|
                        j: int,
                    | 0 <= j < after.len() && #[trigger] after[j] == k by {
                        if k < i {
                            assert(seen[k] is Some);
                            let j0 = choose|j: int| 0 <= j < before.len() && #[trigger] before[j] == k;
                            if j0 < pos {
                                assert(after[j0] == k);
                            } else {
                                assert(after[j0 + 1] == k);
                            }
                        } else {
                            assert(after[pos as int] == k);
                        }
                    }
                    assert forall|a: int, b: int| 0 <= a < b < after.len() implies precedes(
                        seen2,
                        #[trigger] after[a] as int,
                        #[trigger] after[b] as int,
                    ) by {
                        let ia = if a < pos { a } else { a - 1 };
                        let ib = if b < pos { b } else { b - 1 };
                        if a != pos && b != pos {
                            assert(after[a] == before[ia]);
                            assert(after[b] == before[ib]);
                            assert(precedes(seen, before[ia] as int, before[ib] as int));
                        } else if a == pos {
                            assert(after[b] == before[b - 1]);
                            if pos < b - 1 {
                                assert(precedes(seen, before[pos as int] as int, before[b - 1] as int));
                            }
                            assert(seen[before[b - 1] as int] is Some);
                        } else {
                            assert(after[a] == before[a]);
                            assert(seen[before[a] as int] is Some);
                        }
                    }
                }
            },
            None => {
                proof {
                    assert forall|j: int| 0 <= j < list@.len() implies (#[trigger] list@[j])
                        < seen2.len() && seen2[list@[j] as int] is Some by {
                        assert(seen[list@[j] as int] is Some);
                    }
                    assert forall|k: int| 0 <= k < seen2.len() && (#[trigger] seen2[k]) is Some implies exists|
                        j: int,
                    | 0 <= j < list@.len() && #[trigger] list@[j] == k by {
                        assert(seen[k] is Some);
                    }
                    assert forall|a: int, b: int| 0 <= a < b < list@.len() implies precedes(
                        seen2,
                        #[trigger] list@[a] as int,
                        #[trigger] list@[b] as int,
                    ) by {
                        assert(precedes(seen, list@[a] as int, list@[b] as int));
                    }
                }
            },
        }
        i = i + 1;
    }
    assert(keys@.take(i as int) =~= keys@);
    list
}

/// Two listings of the same keys agree on their first `n` places.
proof fn lemma_listings_agree_up_to(
    keys: Seq<Option<i64>>,
    l1: Seq<usize>,
    l2: Seq<usize>,
    n: int,
)
    requires
        is_listing(keys, l1),
        is_listing(keys, l2),
        0 <= n <= l1.len(),
        n <= l2.len(),
    ensures
        forall|i: int| 0 <= i < n ==> l1[i] == l2[i],
    decreases n,
{
    if n > 0 {
        lemma_listings_agree_up_to(keys, l1, l2, n - 1);
        let j = n - 1;
        let x = l1[j];
        let y = l2[j];
        if x != y {
            assert(keys[x as int] is Some);
            assert(keys[y as int] is Some);
            let m = choose|m: int| 0 <= m < l2.len() && #[trigger] l2[m] == x as int;
            if m < j {
                assert(l1[m] == l2[m]);
                assert(precedes(keys, l1[m] as int, l1[j] as int));
            } else {
                assert(precedes(keys, l2[j] as int, l2[m] as int));
            }
            let k = choose|k: int| 0 <= k < l1.len() && #[trigger] l1[k] == y as int;
            if k < j {
                assert(l1[k] == l2[k]);
                assert(precedes(keys, l2[k] as int, l2[j] as int));
            } else {
                assert(precedes(keys, l1[j] as int, l1[k] as int));
            }
        }
    }
}

/// The keys decide the listing: there is only one.
pub proof fn lemma_listing_is_unique(keys: Seq<Option<i64>>, l1: Seq<usize>, l2: Seq<usize>)
    requires
        is_listing(keys, l1),
        is_listing(keys, l2),
    ensures
        l1 == l2,
{
    let n = if l1.len() <= l2.len() {
        l1.len() as int
    } else {
        l2.len() as int
    };
    lemma_listings_agree_up_to(keys, l1, l2, n);
    if l1.len() < l2.len() {
        let x = l2[n];
        assert(keys[x as int] is Some);
        let m = choose|m: int| 0 <= m < l1.len() && #[trigger] l1[m] == x as int;
        assert(l1[m] == l2[m]);
        assert(precedes(keys, l2[m] as int, l2[n] as int));
    } else if l2.len() < l1.len() {
        let x = l1[n];
        assert(keys[x as int] is Some);
        let m = choose|m: int| 0 <= m < l2.len() && #[trigger] l2[m] == x as int;
        assert(l1[m] == l2[m]);
        assert(precedes(keys, l1[m] as int, l1[n] as int));
    }
    assert(l1 =~= l2);
}

} // verus!
