use vstd::prelude::*;

use crate::common::{next_revision, saturating_minus};
use crate::vec_ops::{filtered_by, moved, valid_move};

verus! {

/// Number of rows in one page of a sparse playlist.
pub const PLAYLIST_PAGE_SIZE: usize = 100;

/// Number of pages that hold `total` rows.
pub open spec fn page_count(total: nat) -> nat {
    let size = PLAYLIST_PAGE_SIZE as nat;
    if total % size == 0 {
        total / size
    } else {
        total / size + 1
    }
}

/// The rows of a page, or none where the page is not loaded.
pub open spec fn rows_of<T>(page: Option<Seq<T>>) -> Seq<T> {
    match page {
        Some(rows) => rows,
        None => Seq::empty(),
    }
}

/// All loaded rows, page after page.
pub open spec fn loaded_items<T>(pages: Seq<Option<Seq<T>>>) -> Seq<T>
    decreases pages.len(),
{
    if pages.len() == 0 {
        Seq::empty()
    } else {
        rows_of(pages[0]) + loaded_items(pages.drop_first())
    }
}

/// Number of loaded rows.
pub open spec fn loaded_len<T>(pages: Seq<Option<Seq<T>>>) -> nat {
    loaded_items(pages).len()
}

/// `rows` cut into full pages, the last one holding the remainder.
pub open spec fn chunked<T>(rows: Seq<T>) -> Seq<Option<Seq<T>>> {
    let size = PLAYLIST_PAGE_SIZE as int;
    Seq::new(
        page_count(rows.len()),
        |i: int|
            Some(
                rows.subrange(
                    i * size,
                    if (i + 1) * size < rows.len() {
                        (i + 1) * size
                    } else {
                        rows.len() as int
                    },
                ),
            ),
    )
}

/// Whether row number `g` lies within a collection of `total` rows, where known.
pub open spec fn within_total(total: Option<u32>, g: int) -> bool {
    match total {
        Some(t) => g < t,
        None => true,
    }
}

/// The rows of the page at `page_idx` that a search visits, each with its
/// row number: they stop where the row number reaches `total`.
pub open spec fn page_candidates<T>(page_idx: int, rows: Seq<T>, total: Option<u32>) -> Seq<
    (int, T),
> {
    let base = page_idx * PLAYLIST_PAGE_SIZE as int;
    let n: int = match total {
        Some(t) => if t - base <= 0 {
            0
        } else if t - base < rows.len() {
            t - base
        } else {
            rows.len() as int
        },
        None => rows.len() as int,
    };
    Seq::new(n as nat, |r: int| (base + r, rows[r]))
}

/// The rows that a search over the first `n` pages visits, in order.
pub open spec fn candidates_upto<T>(pages: Seq<Option<Seq<T>>>, n: int, total: Option<u32>) -> Seq<
    (int, T),
>
    decreases n,
{
    if n <= 0 {
        Seq::empty()
    } else {
        candidates_upto(pages, n - 1, total) + page_candidates(n - 1, rows_of(pages[n - 1]), total)
    }
}

/// Every loaded page of `after` is the page of `before` filtered by `f`;
/// missing pages stay missing.
pub open spec fn pages_filtered_by<T, F: Fn(&T) -> bool>(
    f: F,
    before: Seq<Option<Seq<T>>>,
    after: Seq<Option<Seq<T>>>,
) -> bool {
    &&& after.len() == before.len()
    &&& forall|i: int|
        0 <= i < before.len() ==> {
            &&& (#[trigger] before[i] is None <==> after[i] is None)
            &&& before[i] is Some ==> filtered_by(f, before[i]->0, after[i]->0)
        }
}

/// What a sparse list holds, as mathematical values.
#[verifier::ext_equal]
pub struct SparseView<T> {
    pub pages: Seq<Option<Seq<T>>>,
    pub total: Option<u32>,
    pub in_flight: Set<usize>,
    pub loaded_count: usize,
    pub loaded_once: bool,
    pub loading: bool,
    pub error: Option<Seq<char>>,
    pub revision: u64,
}

impl<T> SparseView<T> {
    /// A list that knows nothing yet.
    pub open spec fn empty() -> Self {
        SparseView {
            pages: Seq::empty(),
            total: None,
            in_flight: Set::empty(),
            loaded_count: 0,
            loaded_once: false,
            loading: false,
            error: None,
            revision: 0,
        }
    }

    /// The page at `i`, where it exists and is loaded.
    pub open spec fn page(self, i: int) -> Option<Seq<T>> {
        if 0 <= i < self.pages.len() {
            self.pages[i]
        } else {
            None
        }
    }

    /// Whether the page at `i` has not been loaded.
    pub open spec fn is_missing(self, i: int) -> bool {
        self.page(i) is None
    }

    /// Whether the page at `i` is neither loaded nor being requested.
    pub open spec fn is_gap(self, i: int) -> bool {
        self.is_missing(i) && !self.in_flight.contains(i as usize)
    }

    /// The row at `index`, where its page is loaded and the row lies within the total.
    pub open spec fn row(self, index: int) -> Option<T> {
        let size = PLAYLIST_PAGE_SIZE as int;
        if !within_total(self.total, index) {
            None
        } else {
            match self.page(index / size) {
                Some(rows) => if index % size < rows.len() {
                    Some(rows[index % size])
                } else {
                    None
                },
                None => None,
            }
        }
    }

    /// Whether the loaded count agrees with the rows the pages hold.
    pub open spec fn count_agrees(self) -> bool {
        self.loaded_count == loaded_len(self.pages)
    }

    /// Whether every page that the total calls for is loaded.
    pub open spec fn is_complete(self) -> bool {
        match self.total {
            None => false,
            Some(t) => if t == 0 {
                self.loaded_once
            } else if (self.loaded_count as int) < (t as int) {
                false
            } else {
                forall|i: int| 0 <= i < page_count(t as nat) ==> !#[trigger] self.is_missing(i)
            },
        }
    }

    /// Whether fewer than two pages are being requested.
    pub open spec fn can_request_more(self) -> bool {
        self.in_flight.len() < 2
    }

    /// The rows that a search visits, each with its row number.
    pub open spec fn candidates(self) -> Seq<(int, T)> {
        candidates_upto(self.pages, self.pages.len() as int, self.total)
    }

    /// Whether every row number that a search computes fits in a `usize`.
    pub open spec fn row_numbers_fit(self) -> bool {
        forall|i: int|
            0 <= i < self.pages.len() && #[trigger] self.pages[i] is Some ==> i
                * PLAYLIST_PAGE_SIZE as int + self.pages[i]->0.len() <= usize::MAX
    }

    /// `self` after learning that the collection holds `total` rows: pages
    /// past the last one are dropped with their rows and requests, and
    /// missing pages are added up to the last one.
    pub open spec fn after_set_total(self, total: u32) -> Self {
        let n = page_count(total as nat);
        if n < self.pages.len() {
            SparseView {
                total: Some(total),
                pages: self.pages.take(n as int),
                loaded_count: saturating_minus(
                    self.loaded_count as int,
                    loaded_len(self.pages.skip(n as int)) as int,
                ) as usize,
                in_flight: self.in_flight.filter(|i: usize| i < n),
                ..self
            }
        } else {
            SparseView {
                total: Some(total),
                pages: self.pages + Seq::new((n - self.pages.len()) as nat, |i: int| None),
                ..self
            }
        }
    }

    /// Whether storing `len` rows at `offset` keeps the loaded count within a `usize`.
    pub open spec fn insert_fits(self, offset: usize, len: nat) -> bool {
        let idx = offset / PLAYLIST_PAGE_SIZE;
        saturating_minus(self.loaded_count as int, rows_of(self.page(idx as int)).len() as int)
            + len <= usize::MAX
    }

    /// `self` after the page holding row `offset` arrived with `rows`.
    pub open spec fn after_insert_page(self, offset: usize, rows: Seq<T>) -> Self {
        let idx = (offset / PLAYLIST_PAGE_SIZE) as int;
        let grown = if self.pages.len() < idx + 1 {
            self.pages + Seq::new((idx + 1 - self.pages.len()) as nat, |i: int| None)
        } else {
            self.pages
        };
        let kept = saturating_minus(self.loaded_count as int, rows_of(self.page(idx)).len() as int);
        let in_flight = self.in_flight.remove(idx as usize);
        SparseView {
            pages: grown.update(idx, Some(rows)),
            total: self.total,
            in_flight,
            loaded_count: (kept + rows.len()) as usize,
            loaded_once: true,
            loading: !in_flight.is_empty(),
            error: None,
            revision: next_revision(self.revision),
        }
    }

    /// `self` after a request for the page at `idx` was sent.
    pub open spec fn after_mark_in_flight(self, idx: usize) -> Self {
        SparseView { in_flight: self.in_flight.insert(idx), loading: true, ..self }
    }

    /// `self` after the request for the page at `idx` failed with `error`.
    pub open spec fn after_fail_page(self, idx: usize, error: Seq<char>) -> Self {
        let in_flight = self.in_flight.remove(idx);
        SparseView {
            in_flight,
            loading: !in_flight.is_empty(),
            error: Some(error),
            loaded_once: true,
            ..self
        }
    }

    /// `self` after the whole load failed with `error`.
    pub open spec fn after_fail(self, error: Seq<char>) -> Self {
        SparseView {
            in_flight: Set::empty(),
            loading: false,
            error: Some(error),
            loaded_once: true,
            ..self
        }
    }

    /// The empty list that follows a reset of `self`: only the revision moves on.
    pub open spec fn after_reset(self) -> Self {
        SparseView { revision: next_revision(self.revision), ..SparseView::empty() }
    }

    /// `self` holding exactly `rows`, cut into pages, complete.
    pub open spec fn after_set_cached(self, rows: Seq<T>) -> Self {
        SparseView {
            pages: chunked(rows),
            total: Some(rows.len() as u32),
            in_flight: Set::empty(),
            loaded_count: rows.len() as usize,
            loaded_once: true,
            loading: false,
            error: None,
            revision: next_revision(self.revision),
        }
    }

    /// `self` with its pages replaced by `pages`, filtered copies of its own:
    /// the rows taken out leave the loaded count and the total, and the
    /// revision moves on where any row was taken out.
    pub open spec fn with_filtered_pages(self, pages: Seq<Option<Seq<T>>>) -> Self {
        let removed = loaded_len(self.pages) - loaded_len(pages);
        if removed > 0 {
            SparseView {
                pages,
                loaded_count: saturating_minus(self.loaded_count as int, removed) as usize,
                total: match self.total {
                    Some(t) => Some(saturating_minus(t as int, (removed as usize) as u32 as int) as u32),
                    None => None,
                },
                revision: next_revision(self.revision),
                ..self
            }
        } else {
            SparseView { pages, ..self }
        }
    }

    /// `self` after moving the row at `from` to just before the row at `to`.
    /// A complete list moves across pages; otherwise the move happens only
    /// within one loaded page.
    pub open spec fn after_reorder(self, from: int, to: int) -> Self {
        let size = PLAYLIST_PAGE_SIZE as int;
        if self.is_complete() {
            let all = loaded_items(self.pages);
            if valid_move(all.len(), from, to) {
                self.after_set_cached(moved(all, from, to))
            } else {
                self
            }
        } else {
            let pf = from / size;
            match self.page(pf) {
                Some(rows) => if pf == to / size && valid_move(rows.len(), from % size, to % size) {
                    SparseView {
                        pages: self.pages.update(pf, Some(moved(rows, from % size, to % size))),
                        revision: next_revision(self.revision),
                        ..self
                    }
                } else {
                    self
                },
                None => self,
            }
        }
    }
}

pub proof fn lemma_loaded_items_concat<T>(a: Seq<Option<Seq<T>>>, b: Seq<Option<Seq<T>>>)
    ensures
        loaded_items(a + b) == loaded_items(a) + loaded_items(b),
    decreases a.len(),
{
    if a.len() == 0 {
        assert(a + b =~= b);
    } else {
        lemma_loaded_items_concat(a.drop_first(), b);
        assert((a + b).drop_first() =~= a.drop_first() + b);
        assert(rows_of(a[0]) + (loaded_items(a.drop_first()) + loaded_items(b)) =~= (rows_of(a[0])
            + loaded_items(a.drop_first())) + loaded_items(b));
    }
}

pub proof fn lemma_loaded_items_single<T>(p: Option<Seq<T>>)
    ensures
        loaded_items(seq![p]) == rows_of(p),
{
    let s = seq![p];
    assert(s.drop_first() =~= Seq::<Option<Seq<T>>>::empty());
    assert(loaded_items(s.drop_first()) == Seq::<T>::empty());
    assert(s[0] == p);
    assert(rows_of(p) + Seq::<T>::empty() =~= rows_of(p));
}

/// Loaded rows of the first `i + 1` pages are those of the first `i` and then page `i`.
pub proof fn lemma_loaded_items_take<T>(s: Seq<Option<Seq<T>>>, i: int)
    requires
        0 <= i < s.len(),
    ensures
        loaded_items(s.take(i + 1)) == loaded_items(s.take(i)) + rows_of(s[i]),
{
    assert(s.take(i + 1) =~= s.take(i) + seq![s[i]]);
    lemma_loaded_items_concat(s.take(i), seq![s[i]]);
    lemma_loaded_items_single(s[i]);
}

/// A search over fewer pages visits a prefix of what a search over more pages visits.
pub proof fn lemma_candidates_prefix<T>(pages: Seq<Option<Seq<T>>>, n: int, m: int, total: Option<u32>)
    requires
        0 <= n <= m,
    ensures
        candidates_upto(pages, n, total).len() <= candidates_upto(pages, m, total).len(),
        forall|k: int|
            0 <= k < candidates_upto(pages, n, total).len() ==> #[trigger] candidates_upto(
                pages,
                m,
                total,
            )[k] == candidates_upto(pages, n, total)[k],
    decreases m - n,
{
    if n < m {
        lemma_candidates_prefix(pages, n, m - 1, total);
        let a = candidates_upto(pages, m - 1, total);
        let b = page_candidates(m - 1, rows_of(pages[m - 1]), total);
        assert(candidates_upto(pages, m, total) == a + b);
        assert forall|k: int| 0 <= k < candidates_upto(pages, n, total).len() implies #[trigger] candidates_upto(
            pages,
            m,
            total,
        )[k] == candidates_upto(pages, n, total)[k] by {
            assert((a + b)[k] == a[k]);
        }
    }
}

/// The loaded rows are those before page `i`, then page `i`, then those after it.
pub proof fn lemma_loaded_items_split<T>(s: Seq<Option<Seq<T>>>, i: int)
    requires
        0 <= i < s.len(),
    ensures
        loaded_items(s) == loaded_items(s.take(i)) + rows_of(s[i]) + loaded_items(s.skip(i + 1)),
{
    assert(s =~= s.take(i) + seq![s[i]] + s.skip(i + 1));
    lemma_loaded_items_concat(s.take(i) + seq![s[i]], s.skip(i + 1));
    lemma_loaded_items_concat(s.take(i), seq![s[i]]);
    lemma_loaded_items_single(s[i]);
}

/// Replacing page `i` replaces its rows among the loaded rows.
pub proof fn lemma_loaded_items_update<T>(s: Seq<Option<Seq<T>>>, i: int, p: Option<Seq<T>>)
    requires
        0 <= i < s.len(),
    ensures
        loaded_items(s.update(i, p)) == loaded_items(s.take(i)) + rows_of(p) + loaded_items(
            s.skip(i + 1),
        ),
{
    let u = s.update(i, p);
    lemma_loaded_items_split(u, i);
    assert(u.take(i) =~= s.take(i));
    assert(u.skip(i + 1) =~= s.skip(i + 1));
}

/// Pages that are all missing hold no rows.
pub proof fn lemma_loaded_items_missing<T>(n: nat)
    ensures
        loaded_items(Seq::new(n, |i: int| None::<Seq<T>>)) == Seq::<T>::empty(),
    decreases n,
{
    let s = Seq::new(n, |i: int| None::<Seq<T>>);
    if n > 0 {
        assert(s.drop_first() =~= Seq::new((n - 1) as nat, |i: int| None::<Seq<T>>));
        lemma_loaded_items_missing::<T>((n - 1) as nat);
        assert(rows_of(s[0]) + Seq::<T>::empty() =~= Seq::<T>::empty());
    }
}

/// Adding missing pages at the end adds no rows.
pub proof fn lemma_loaded_items_grow<T>(s: Seq<Option<Seq<T>>>, n: nat)
    ensures
        loaded_items(s + Seq::new(n, |i: int| None::<Seq<T>>)) == loaded_items(s),
{
    lemma_loaded_items_concat(s, Seq::new(n, |i: int| None::<Seq<T>>));
    lemma_loaded_items_missing::<T>(n);
    assert(loaded_items(s) + Seq::<T>::empty() =~= loaded_items(s));
}

/// Facts about `page_count` that the proofs about pages need.
pub proof fn lemma_page_count(total: nat, k: nat)
    ensures
        k < page_count(total) <==> k * PLAYLIST_PAGE_SIZE < total,
        page_count(total) * PLAYLIST_PAGE_SIZE >= total,
{
}

/// Cutting rows into pages and reading the pages back gives the rows.
pub proof fn lemma_chunked_rows<T>(rows: Seq<T>)
    ensures
        loaded_items(chunked(rows)) == rows,
{
    let c = chunked(rows);
    let n = page_count(rows.len());
    let size = PLAYLIST_PAGE_SIZE as int;
    lemma_page_count(rows.len(), 0);
    assert forall|k: int| 0 <= k <= n implies #[trigger] loaded_items(c.take(k)) == rows.take(
        if k * size < rows.len() {
            k * size
        } else {
            rows.len() as int
        },
    ) by {
        lemma_chunked_prefix(rows, k);
    }
    assert(c.take(n as int) =~= c);
    assert(rows.take(rows.len() as int) =~= rows);
}

proof fn lemma_chunked_prefix<T>(rows: Seq<T>, k: int)
    requires
        0 <= k <= page_count(rows.len()),
    ensures
        loaded_items(chunked(rows).take(k)) == rows.take(
            if k * PLAYLIST_PAGE_SIZE < rows.len() {
                k * PLAYLIST_PAGE_SIZE
            } else {
                rows.len() as int
            },
        ),
    decreases k,
{
    let c = chunked(rows);
    if k == 0 {
        assert(c.take(0) =~= Seq::<Option<Seq<T>>>::empty());
        assert(rows.take(0) =~= Seq::<T>::empty());
    } else {
        lemma_chunked_prefix(rows, k - 1);
        lemma_page_count(rows.len(), (k - 1) as nat);
        lemma_loaded_items_take(c, k - 1);
        let lo = (k - 1) * PLAYLIST_PAGE_SIZE;
        let hi = if k * PLAYLIST_PAGE_SIZE < rows.len() {
            k * PLAYLIST_PAGE_SIZE
        } else {
            rows.len() as int
        };
        assert(rows_of(c[k - 1]) == rows.subrange(lo, hi));
        assert(rows.take(lo) + rows.subrange(lo, hi) =~= rows.take(hi));
    }
}

/// Filtering the rows of every page never adds rows.
pub proof fn lemma_pages_filtered_len<T, F: Fn(&T) -> bool>(
    f: F,
    before: Seq<Option<Seq<T>>>,
    after: Seq<Option<Seq<T>>>,
)
    requires
        pages_filtered_by(f, before, after),
    ensures
        loaded_len(after) <= loaded_len(before),
    decreases before.len(),
{
    if before.len() > 0 {
        assert(before[0] is None <==> after[0] is None);
        if before[0] is Some {
            crate::vec_ops::lemma_filtered_len(f, before[0]->0, after[0]->0);
        }
        assert forall|i: int| 0 <= i < before.drop_first().len() implies {
            &&& (#[trigger] before.drop_first()[i] is None <==> after.drop_first()[i] is None)
            &&& before.drop_first()[i] is Some ==> filtered_by(
                f,
                before.drop_first()[i]->0,
                after.drop_first()[i]->0,
            )
        } by {
            assert(before.drop_first()[i] == before[i + 1]);
            assert(after.drop_first()[i] == after[i + 1]);
        }
        lemma_pages_filtered_len(f, before.drop_first(), after.drop_first());
    }
}

} // verus!
