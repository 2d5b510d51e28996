//! Finding the first row of a table that meets a condition.

use vstd::prelude::*;

verus! {

/// Whether `i` is the place of the first row that meets `pred`.
pub open spec fn is_first<T>(rows: Seq<T>, pred: spec_fn(T) -> bool, i: int) -> bool {
    &&& 0 <= i < rows.len()
    &&& pred(rows[i])
    &&& forall|j: int| 0 <= j < i ==> !pred(#[trigger] rows[j])
}

/// The place of the first row that meets `pred`, if any row does.
pub open spec fn first_index<T>(rows: Seq<T>, pred: spec_fn(T) -> bool) -> Option<int> {
    if exists|i: int| is_first(rows, pred, i) {
        Some(choose|i: int| is_first(rows, pred, i))
    } else {
        None
    }
}

/// Whether some row meets `pred`.
pub open spec fn any_row<T>(rows: Seq<T>, pred: spec_fn(T) -> bool) -> bool {
    exists|i: int| 0 <= i < rows.len() && pred(#[trigger] rows[i])
}

/// An index as the number it stands for.
pub open spec fn as_place(found: Option<usize>) -> Option<int> {
    match found {
        Some(i) => Some(i as int),
        None => None,
    }
}

/// The first row that meets the condition is found at its place.
pub proof fn lemma_first_index_is<T>(rows: Seq<T>, pred: spec_fn(T) -> bool, i: int)
    requires
        is_first(rows, pred, i),
    ensures
        first_index(rows, pred) == Some(i),
{
    let k = choose|k: int| is_first(rows, pred, k);
    if k < i {
        assert(!pred(rows[k]));
    } else if i < k {
        assert(!pred(rows[i]));
    }
}

/// What `first_index` gives is the first such row, and where it gives
/// nothing no row meets the condition.
pub proof fn lemma_first_index_sound<T>(rows: Seq<T>, pred: spec_fn(T) -> bool)
    ensures
        match first_index(rows, pred) {
            Some(i) => is_first(rows, pred, i),
            None => !any_row(rows, pred),
        },
    decreases rows.len(),
{
    if first_index(rows, pred) is None {
        if any_row(rows, pred) {
            let i = choose|i: int| 0 <= i < rows.len() && pred(#[trigger] rows[i]);
            lemma_some_row_is_first(rows, pred, i);
        }
    }
}

/// Where a row meets the condition, there is a first one that does, at or before it.
pub proof fn lemma_some_row_is_first<T>(rows: Seq<T>, pred: spec_fn(T) -> bool, i: int)
    requires
        0 <= i < rows.len(),
        pred(rows[i]),
    ensures
        exists|k: int| 0 <= k <= i && is_first(rows, pred, k),
    decreases i,
{
    if exists|j: int| 0 <= j < i && pred(#[trigger] rows[j]) {
        let j = choose|j: int| 0 <= j < i && pred(#[trigger] rows[j]);
        lemma_some_row_is_first(rows, pred, j);
    } else {
        assert(is_first(rows, pred, i));
    }
}

/// Where no row meets the condition, nothing is found.
pub proof fn lemma_first_index_none<T>(rows: Seq<T>, pred: spec_fn(T) -> bool)
    requires
        forall|j: int| 0 <= j < rows.len() ==> !pred(#[trigger] rows[j]),
    ensures
        first_index(rows, pred) is None,
{
}

/// The first row that meets `pred`, if any row does.
pub open spec fn first_row<T>(rows: Seq<T>, pred: spec_fn(T) -> bool) -> Option<T> {
    match first_index(rows, pred) {
        Some(i) => Some(rows[i]),
        None => None,
    }
}

/// A row added at the end is found only where no row before it is.
pub proof fn lemma_first_index_push<T>(rows: Seq<T>, row: T, pred: spec_fn(T) -> bool)
    ensures
        first_index(rows.push(row), pred) == match first_index(rows, pred) {
            Some(i) => Some(i),
            None => if pred(row) {
                Some(rows.len() as int)
            } else {
                None
            },
        },
        first_row(rows.push(row), pred) == match first_row(rows, pred) {
            Some(found) => Some(found),
            None => if pred(row) {
                Some(row)
            } else {
                None
            },
        },
{
    let longer = rows.push(row);
    lemma_first_index_sound(rows, pred);
    match first_index(rows, pred) {
        Some(i) => {
            assert forall|j: int| 0 <= j < i implies !pred(#[trigger] longer[j]) by {
                assert(longer[j] == rows[j]);
            }
            assert(longer[i] == rows[i]);
            assert(is_first(longer, pred, i));
            lemma_first_index_is(longer, pred, i);
        },
        None => {
            assert forall|j: int| 0 <= j < rows.len() implies !pred(#[trigger] longer[j]) by {
                assert(longer[j] == rows[j]);
                assert(!pred(rows[j]));
            }
            if pred(row) {
                assert(longer[rows.len() as int] == row);
                assert(is_first(longer, pred, rows.len() as int));
                lemma_first_index_is(longer, pred, rows.len() as int);
            } else {
                lemma_first_index_none(longer, pred);
            }
        },
    }
}

/// Two tables that meet the condition at the same places have their
/// first such row at the same place.
pub proof fn lemma_first_index_same<T>(a: Seq<T>, b: Seq<T>, pred: spec_fn(T) -> bool)
    requires
        a.len() == b.len(),
        forall|j: int| 0 <= j < a.len() ==> pred(#[trigger] a[j]) == pred(b[j]),
    ensures
        first_index(a, pred) == first_index(b, pred),
{
    lemma_first_index_sound(a, pred);
    match first_index(a, pred) {
        Some(i) => {
            assert(pred(a[i]));
            assert forall|j: int| 0 <= j < i implies !pred(#[trigger] b[j]) by {
                assert(!pred(a[j]));
            }
            assert(is_first(b, pred, i));
            lemma_first_index_is(b, pred, i);
        },
        None => {
            assert forall|j: int| 0 <= j < b.len() implies !pred(#[trigger] b[j]) by {
                assert(!pred(a[j]));
            }
            lemma_first_index_none(b, pred);
        },
    }
}

/// Filtering keeps the first row that meets a condition, where every row
/// that meets it is kept.
pub proof fn lemma_first_row_filter<T>(
    rows: Seq<T>,
    keep: spec_fn(T) -> bool,
    pred: spec_fn(T) -> bool,
)
    requires
        forall|row: T| #[trigger] pred(row) ==> keep(row),
    ensures
        first_row(rows.filter(keep), pred) == first_row(rows, pred),
    decreases rows.len(),
{
    reveal(Seq::filter);
    if rows.len() == 0 {
        lemma_first_index_none(rows, pred);
    } else {
        let head = rows.drop_last();
        let last = rows.last();
        lemma_first_row_filter(head, keep, pred);
        assert(rows =~= head.push(last));
        lemma_first_index_push(head, last, pred);
        if keep(last) {
            lemma_first_index_push(head.filter(keep), last, pred);
        }
    }
}

/// Filtering leaves no row that meets a condition, where no such row is kept.
pub proof fn lemma_filter_drops<T>(rows: Seq<T>, keep: spec_fn(T) -> bool, pred: spec_fn(T) -> bool)
    requires
        forall|row: T| #[trigger] pred(row) ==> !keep(row),
    ensures
        first_index(rows.filter(keep), pred) is None,
    decreases rows.len(),
{
    reveal(Seq::filter);
    if rows.len() == 0 {
        lemma_first_index_none(rows.filter(keep), pred);
    } else {
        let head = rows.drop_last();
        let last = rows.last();
        lemma_filter_drops(head, keep, pred);
        if keep(last) {
            lemma_first_index_push(head.filter(keep), last, pred);
        }
    }
}

/// Whether `rel` holds of every two rows, the earlier one first.
pub open spec fn pairwise<T>(rows: Seq<T>, rel: spec_fn(T, T) -> bool) -> bool {
    forall|i: int, j: int| 0 <= i < j < rows.len() ==> rel(#[trigger] rows[i], #[trigger] rows[j])
}

/// Whether `pred` holds of every row.
pub open spec fn every_row<T>(rows: Seq<T>, pred: spec_fn(T) -> bool) -> bool {
    forall|i: int| 0 <= i < rows.len() ==> pred(#[trigger] rows[i])
}

/// Every row that filtering keeps was a row before.
pub proof fn lemma_filter_rows<T>(rows: Seq<T>, keep: spec_fn(T) -> bool, a: int)
    requires
        0 <= a < rows.filter(keep).len(),
    ensures
        exists|i: int| 0 <= i < rows.len() && #[trigger] rows[i] == rows.filter(keep)[a],
    decreases rows.len(),
{
    reveal(Seq::filter);
    if rows.len() > 0 {
        let head = rows.drop_last();
        let kept = head.filter(keep);
        if a < kept.len() {
            lemma_filter_rows(head, keep, a);
            let i = choose|i: int| 0 <= i < head.len() && #[trigger] head[i] == kept[a];
            assert(rows[i] == head[i]);
        } else {
            assert(rows[rows.len() - 1] == rows.last());
        }
    }
}

/// What holds of every row holds of every row that filtering keeps.
pub proof fn lemma_filter_every_row<T>(
    rows: Seq<T>,
    keep: spec_fn(T) -> bool,
    pred: spec_fn(T) -> bool,
)
    requires
        every_row(rows, pred),
    ensures
        every_row(rows.filter(keep), pred),
{
    assert forall|a: int| 0 <= a < rows.filter(keep).len() implies pred(
        #[trigger] rows.filter(keep)[a],
    ) by {
        lemma_filter_rows(rows, keep, a);
    }
}

/// What holds of every two rows holds of every two rows that filtering keeps.
pub proof fn lemma_filter_pairwise<T>(
    rows: Seq<T>,
    keep: spec_fn(T) -> bool,
    rel: spec_fn(T, T) -> bool,
)
    requires
        pairwise(rows, rel),
    ensures
        pairwise(rows.filter(keep), rel),
    decreases rows.len(),
{
    reveal(Seq::filter);
    if rows.len() > 0 {
        let head = rows.drop_last();
        let last = rows.last();
        let kept = head.filter(keep);
        assert forall|i: int, j: int| 0 <= i < j < head.len() implies rel(
            #[trigger] head[i],
            #[trigger] head[j],
        ) by {
            assert(head[i] == rows[i] && head[j] == rows[j]);
        }
        lemma_filter_pairwise(head, keep, rel);
        let all = rows.filter(keep);
        assert forall|a: int, b: int| 0 <= a < b < all.len() implies rel(
            #[trigger] all[a],
            #[trigger] all[b],
        ) by {
            if b < kept.len() {
                assert(all[a] == kept[a] && all[b] == kept[b]);
            } else {
                assert(all[b] == last);
                assert(all[a] == kept[a]);
                lemma_filter_rows(head, keep, a);
                let i = choose|i: int| 0 <= i < head.len() && #[trigger] head[i] == kept[a];
                assert(rows[i] == head[i]);
                assert(rows[rows.len() - 1] == last);
            }
        }
    }
}

/// Taking a row out that does not meet a condition leaves the first row
/// that meets it.
pub proof fn lemma_first_row_remove<T>(rows: Seq<T>, at: int, pred: spec_fn(T) -> bool)
    requires
        0 <= at < rows.len(),
        !pred(rows[at]),
    ensures
        first_row(rows.remove(at), pred) == first_row(rows, pred),
{
    let left = rows.remove(at);
    lemma_first_index_sound(rows, pred);
    match first_index(rows, pred) {
        Some(i) => {
            let k = if i < at { i } else { i - 1 };
            assert(left[k] == rows[i]);
            assert forall|j: int| 0 <= j < k implies !pred(#[trigger] left[j]) by {
                let m = if j < at { j } else { j + 1 };
                assert(left[j] == rows[m]);
                assert(!pred(rows[m]));
            }
            assert(is_first(left, pred, k));
            lemma_first_index_is(left, pred, k);
        },
        None => {
            assert forall|j: int| 0 <= j < left.len() implies !pred(#[trigger] left[j]) by {
                let m = if j < at { j } else { j + 1 };
                assert(left[j] == rows[m]);
                assert(!pred(rows[m]));
            }
            lemma_first_index_none(left, pred);
        },
    }
}

} // verus!
