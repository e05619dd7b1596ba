use vstd::prelude::*;

use crate::sparse_view::{
    lemma_chunked_rows, lemma_loaded_items_concat, lemma_loaded_items_grow,
    lemma_loaded_items_split, lemma_loaded_items_update, lemma_page_count,
    lemma_pages_filtered_len, loaded_items, page_count, pages_filtered_by, within_total, SparseView, PLAYLIST_PAGE_SIZE,
};
use crate::vec_ops::{lemma_moved, moved, valid_move};

verus! {

/// Learning the total keeps the loaded count equal to the number of loaded
/// rows: rows of the pages dropped past the end leave the count with them.
pub proof fn law_set_total_keeps_count<T>(v: SparseView<T>, total: u32)
    requires
        v.count_agrees(),
    ensures
        v.after_set_total(total).count_agrees(),
{
    let n = page_count(total as nat);
    if n < v.pages.len() {
        assert(v.pages =~= v.pages.take(n as int) + v.pages.skip(n as int));
        lemma_loaded_items_concat(v.pages.take(n as int), v.pages.skip(n as int));
    } else {
        lemma_loaded_items_grow(v.pages, (n - v.pages.len()) as nat);
    }
}

/// The pages after growing the list so that page `idx` exists.
pub open spec fn grown_to<T>(pages: Seq<Option<Seq<T>>>, idx: int) -> Seq<Option<Seq<T>>> {
    if pages.len() < idx + 1 {
        pages + Seq::new((idx + 1 - pages.len()) as nat, |i: int| None)
    } else {
        pages
    }
}

proof fn lemma_grown_to<T>(v: SparseView<T>, idx: int)
    requires
        0 <= idx,
    ensures
        grown_to(v.pages, idx).len() > idx,
        loaded_items(grown_to(v.pages, idx)) == loaded_items(v.pages),
        forall|j: int| 0 <= j < grown_to(v.pages, idx).len() ==> #[trigger] grown_to(v.pages, idx)[j] == v.page(j),
{
    if v.pages.len() < idx + 1 {
        lemma_loaded_items_grow(v.pages, (idx + 1 - v.pages.len()) as nat);
    }
}

/// Storing a page keeps the loaded count equal to the number of loaded rows,
/// also where the page had been stored before: its old rows are counted out.
pub proof fn law_insert_page_keeps_count<T>(v: SparseView<T>, offset: usize, rows: Seq<T>)
    requires
        v.count_agrees(),
        v.insert_fits(offset, rows.len()),
    ensures
        v.after_insert_page(offset, rows).count_agrees(),
{
    let idx = (offset / PLAYLIST_PAGE_SIZE) as int;
    let g = grown_to(v.pages, idx);
    lemma_grown_to(v, idx);
    assert(g[idx] == v.page(idx));
    lemma_loaded_items_split(g, idx);
    lemma_loaded_items_update(g, idx, Some(rows));
    assert(v.after_insert_page(offset, rows).pages == g.update(idx, Some(rows)));
}

/// A row of a page just stored reads back as the row that was stored.
pub proof fn law_read_after_insert<T>(v: SparseView<T>, offset: usize, rows: Seq<T>, r: int)
    requires
        0 <= r < rows.len(),
        r < PLAYLIST_PAGE_SIZE,
        within_total(v.total, (offset / PLAYLIST_PAGE_SIZE) * PLAYLIST_PAGE_SIZE + r),
    ensures
        v.after_insert_page(offset, rows).row((offset / PLAYLIST_PAGE_SIZE) * PLAYLIST_PAGE_SIZE + r)
            == Some(rows[r]),
{
    let idx = (offset / PLAYLIST_PAGE_SIZE) as int;
    let index = idx * PLAYLIST_PAGE_SIZE + r;
    lemma_grown_to(v, idx);
    assert(index / PLAYLIST_PAGE_SIZE as int == idx);
    assert(index % PLAYLIST_PAGE_SIZE as int == r);
}

/// Storing a page leaves the rows of every other page as they were.
pub proof fn law_insert_leaves_other_rows<T>(v: SparseView<T>, offset: usize, rows: Seq<T>, index: int)
    requires
        0 <= index,
        index / PLAYLIST_PAGE_SIZE as int != (offset / PLAYLIST_PAGE_SIZE) as int,
    ensures
        v.after_insert_page(offset, rows).row(index) == v.row(index),
{
    let idx = (offset / PLAYLIST_PAGE_SIZE) as int;
    lemma_grown_to(v, idx);
    let j = index / PLAYLIST_PAGE_SIZE as int;
    let w = v.after_insert_page(offset, rows);
    assert(w.page(j) == v.page(j));
}

/// Cached rows make a complete list that reads back, row by row and as a
/// whole, exactly the rows given, with the count right.
pub proof fn law_cached_rows_read_back<T>(v: SparseView<T>, rows: Seq<T>)
    requires
        rows.len() <= u32::MAX,
    ensures
        v.after_set_cached(rows).is_complete(),
        v.after_set_cached(rows).count_agrees(),
        loaded_items(v.after_set_cached(rows).pages) == rows,
        forall|i: int| 0 <= i < rows.len() ==> #[trigger] v.after_set_cached(rows).row(i) == Some(rows[i]),
{
    let w = v.after_set_cached(rows);
    lemma_chunked_rows(rows);
    let size = PLAYLIST_PAGE_SIZE as int;
    assert forall|i: int| 0 <= i < page_count(rows.len()) implies !#[trigger] w.is_missing(i) by {}
    assert forall|i: int| 0 <= i < rows.len() implies #[trigger] w.row(i) == Some(rows[i]) by {
        let q = i / size;
        lemma_page_count(rows.len(), q as nat);
        assert(q * size <= i);
        let hi = if (q + 1) * size < rows.len() {
            (q + 1) * size
        } else {
            rows.len() as int
        };
        assert(w.page(q) == Some(rows.subrange(q * size, hi)));
        assert(rows.subrange(q * size, hi)[i % size] == rows[i]);
    }
}

/// Filtering pages keeps the loaded count equal to the number of loaded rows,
/// and keeps every page where it was, missing pages missing.
pub proof fn law_filter_keeps_count<T, F: Fn(&T) -> bool>(
    v: SparseView<T>,
    f: F,
    pages: Seq<Option<Seq<T>>>,
)
    requires
        v.count_agrees(),
        pages_filtered_by(f, v.pages, pages),
    ensures
        v.with_filtered_pages(pages).count_agrees(),
        v.with_filtered_pages(pages).pages.len() == v.pages.len(),
        forall|i: int| #[trigger] v.with_filtered_pages(pages).is_missing(i) == v.is_missing(i),
{
    lemma_pages_filtered_len(f, v.pages, pages);
    let w = v.with_filtered_pages(pages);
    assert forall|i: int| #[trigger] w.is_missing(i) == v.is_missing(i) by {
        if 0 <= i < v.pages.len() {
            assert(v.pages[i] is None <==> pages[i] is None);
        }
    }
}

/// Moving a row keeps the loaded count right and keeps the loaded rows, only
/// in another order; a list that is not complete keeps its pages where they
/// were, missing pages missing.
pub proof fn law_reorder_keeps_rows<T>(v: SparseView<T>, from: int, to: int)
    requires
        v.count_agrees(),
    ensures
        v.after_reorder(from, to).count_agrees(),
        loaded_items(v.after_reorder(from, to).pages).to_multiset() == loaded_items(
            v.pages,
        ).to_multiset(),
        !v.is_complete() ==> v.after_reorder(from, to).pages.len() == v.pages.len(),
        !v.is_complete() ==> forall|i: int| #[trigger] v.after_reorder(from, to).is_missing(i) == v.is_missing(i),
{
    let w = v.after_reorder(from, to);
    let size = PLAYLIST_PAGE_SIZE as int;
    if v.is_complete() {
        let all = loaded_items(v.pages);
        if valid_move(all.len(), from, to) {
            lemma_moved(all, from, to);
            lemma_chunked_rows(moved(all, from, to));
        }
    } else {
        let pf = from / size;
        if let Some(rows) = v.page(pf) {
            if pf == to / size && valid_move(rows.len(), from % size, to % size) {
                let m = moved(rows, from % size, to % size);
                lemma_moved(rows, from % size, to % size);
                lemma_loaded_items_split(v.pages, pf);
                lemma_loaded_items_update(v.pages, pf, Some(m));
                broadcast use vstd::seq_lib::lemma_multiset_commutative;
                assert forall|i: int| #[trigger] w.is_missing(i) == v.is_missing(i) by {}
            }
        }
    }
}

/// On a list that is not complete, moving row `f` of loaded page `k` to just
/// before row `t` of the same page puts it at row `t` of that page when it
/// moves up or stays, at row `t - 1` when it moves down; the page keeps its
/// rows, and every other page is left as it was.
pub proof fn law_reorder_within_page<T>(v: SparseView<T>, k: int, f: int, t: int)
    requires
        !v.is_complete(),
        0 <= k,
        v.page(k) is Some,
        0 <= f < v.page(k)->0.len(),
        0 <= t <= v.page(k)->0.len(),
        f < PLAYLIST_PAGE_SIZE,
        t < PLAYLIST_PAGE_SIZE,
    ensures
        ({
            let w = v.after_reorder(k * PLAYLIST_PAGE_SIZE + f, k * PLAYLIST_PAGE_SIZE + t);
            let rows = v.page(k)->0;
            &&& w.pages.len() == v.pages.len()
            &&& w.page(k) is Some
            &&& w.page(k)->0.len() == rows.len()
            &&& w.page(k)->0.to_multiset() == rows.to_multiset()
            &&& t <= f ==> w.page(k)->0[t] == rows[f] && w.page(k)->0.remove(t) == rows.remove(f)
            &&& t > f ==> w.page(k)->0[t - 1] == rows[f] && w.page(k)->0.remove(t - 1) == rows.remove(f)
            &&& forall|j: int| j != k ==> #[trigger] w.page(j) == v.page(j)
        }),
        t <= f && within_total(v.total, k * PLAYLIST_PAGE_SIZE + t) && within_total(
            v.total,
            k * PLAYLIST_PAGE_SIZE + f,
        ) ==> v.after_reorder(k * PLAYLIST_PAGE_SIZE + f, k * PLAYLIST_PAGE_SIZE + t).row(
            k * PLAYLIST_PAGE_SIZE + t,
        ) == v.row(k * PLAYLIST_PAGE_SIZE + f),
        t > f && within_total(v.total, k * PLAYLIST_PAGE_SIZE + t - 1) && within_total(
            v.total,
            k * PLAYLIST_PAGE_SIZE + f,
        ) ==> v.after_reorder(k * PLAYLIST_PAGE_SIZE + f, k * PLAYLIST_PAGE_SIZE + t).row(
            k * PLAYLIST_PAGE_SIZE + t - 1,
        ) == v.row(k * PLAYLIST_PAGE_SIZE + f),
{
    let size = PLAYLIST_PAGE_SIZE as int;
    let from = k * size + f;
    let to = k * size + t;
    assert(from / size == k && from % size == f);
    assert(to / size == k && to % size == t);
    let rows = v.page(k)->0;
    crate::vec_ops::lemma_moved_lands(rows, f, t);
    let w = v.after_reorder(from, to);
    assert(w.page(k) == Some(moved(rows, f, t)));
    let lit = if t > f { t - 1 } else { t };
    assert((k * size + lit) / size == k && (k * size + lit) % size == lit);
}

/// On a complete list, a valid move across the whole list puts the row taken
/// at `from` at index `to` of the loaded rows when it moves up or stays, at
/// `to - 1` when it moves down, and leaves the other rows in their order.
pub proof fn law_reorder_complete_lands<T>(v: SparseView<T>, from: int, to: int)
    requires
        v.is_complete(),
        0 <= from < loaded_items(v.pages).len(),
        0 <= to <= loaded_items(v.pages).len(),
    ensures
        ({
            let all = loaded_items(v.pages);
            let after = loaded_items(v.after_reorder(from, to).pages);
            &&& after.len() == all.len()
            &&& to <= from ==> after[to] == all[from] && after.remove(to) == all.remove(from)
            &&& to > from ==> after[to - 1] == all[from] && after.remove(to - 1) == all.remove(from)
        }),
{
    let all = loaded_items(v.pages);
    crate::vec_ops::lemma_moved_lands(all, from, to);
    lemma_chunked_rows(moved(all, from, to));
}

/// When a sparse list is complete: with no total never; with a total of zero
/// once anything arrived; otherwise exactly when at least the total is
/// counted and every page that holds one of the first `total` rows is loaded.
pub proof fn law_sparse_complete<T>(v: SparseView<T>)
    ensures
        v.total is None ==> !v.is_complete(),
        v.total == Some(0u32) ==> (v.is_complete() <==> v.loaded_once),
        (v.total matches Some(t) && t > 0) ==> (v.is_complete() <==> ((v.loaded_count as int) >= (
        v.total->0 as int) && forall|i: int|
            0 <= i && i * PLAYLIST_PAGE_SIZE < v.total->0 ==> #[trigger] v.page(i) is Some)),
{
    if let Some(t) = v.total {
        if t > 0 {
            let all_loaded = forall|i: int|
                0 <= i && i * PLAYLIST_PAGE_SIZE < t ==> #[trigger] v.page(i) is Some;
            if v.is_complete() {
                assert forall|i: int| 0 <= i && i * PLAYLIST_PAGE_SIZE < t implies #[trigger] v.page(i) is Some by {
                    lemma_page_count(t as nat, i as nat);
                    assert(!v.is_missing(i));
                }
            }
            if (v.loaded_count as int) >= (t as int) && all_loaded {
                assert forall|i: int| 0 <= i < page_count(t as nat) implies !#[trigger] v.is_missing(i) by {
                    lemma_page_count(t as nat, i as nat);
                    assert(v.page(i) is Some);
                }
            }
        }
    }
}

/// A stored page is no longer requested, the list counts as loaded and
/// without error, and `loading` says whether other requests are still out.
pub proof fn law_insert_page_settles_request<T>(v: SparseView<T>, offset: usize, rows: Seq<T>)
    ensures
        !v.after_insert_page(offset, rows).in_flight.contains(offset / PLAYLIST_PAGE_SIZE),
        v.after_insert_page(offset, rows).in_flight == v.in_flight.remove(offset / PLAYLIST_PAGE_SIZE),
        v.after_insert_page(offset, rows).loading == !v.in_flight.remove(offset / PLAYLIST_PAGE_SIZE).is_empty(),
        v.after_insert_page(offset, rows).loaded_once,
        v.after_insert_page(offset, rows).error is None,
        v.after_insert_page(offset, rows).total == v.total,
        v.after_insert_page(offset, rows).pages.len() >= offset / PLAYLIST_PAGE_SIZE + 1,
{
}

} // verus!
