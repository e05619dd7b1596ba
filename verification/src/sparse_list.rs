use vstd::prelude::*;
use std::collections::BTreeSet;

use crate::common::{bump_revision, opt_text, saturating_minus};
use crate::paged_list::ItemPage;
use crate::vec_ops::{filtered_by, lemma_filtered_len, move_element, retain_vec};
use crate::sparse_view::{
    candidates_upto, chunked, lemma_loaded_items_concat, lemma_loaded_items_take, loaded_items,
    loaded_len, page_candidates, page_count, pages_filtered_by, rows_of, SparseView,
    PLAYLIST_PAGE_SIZE,
};

verus! {

broadcast use vstd::std_specs::btree::group_btree_axioms;

/// A page as values: its rows, or none where it is not loaded.
pub open spec fn page_view<T>(p: Option<Vec<T>>) -> Option<Seq<T>> {
    match p {
        Some(rows) => Some(rows@),
        None => None,
    }
}

/// The pages of a list as values.
pub open spec fn pages_view<T>(pages: Seq<Option<Vec<T>>>) -> Seq<Option<Seq<T>>> {
    pages.map_values(|p: Option<Vec<T>>| page_view(p))
}

/// A sparse, chunked list that holds pages by offset for virtualized scrolling.
pub struct SparseList<T> {
    pub pages: Vec<Option<Vec<T>>>,
    pub total: Option<u32>,
    pub in_flight: BTreeSet<usize>,
    pub loaded_count: usize,
    pub loaded_once: bool,
    pub loading: bool,
    pub error: Option<String>,
    pub revision: u64,
}

impl<T> View for SparseList<T> {
    type V = SparseView<T>;

    open spec fn view(&self) -> SparseView<T> {
        SparseView {
            pages: pages_view(self.pages@),
            total: self.total,
            in_flight: self.in_flight@,
            loaded_count: self.loaded_count,
            loaded_once: self.loaded_once,
            loading: self.loading,
            error: opt_text(self.error),
            revision: self.revision,
        }
    }
}

/// Number of pages that hold `total` rows.
fn pages_for(total: usize) -> (n: usize)
    ensures
        n == page_count(total as nat),
{
    if total % PLAYLIST_PAGE_SIZE == 0 {
        total / PLAYLIST_PAGE_SIZE
    } else {
        total / PLAYLIST_PAGE_SIZE + 1
    }
}

/// The members of `set` below `n`.
fn keep_below(set: &BTreeSet<usize>, n: usize) -> (r: BTreeSet<usize>)
    ensures
        r@ == set@.filter(|i: usize| i < n),
{
    let mut r: BTreeSet<usize> = BTreeSet::new();
    let ghost mut seen: Seq<usize> = Seq::empty();
    for k in it: set.iter()
        invariant
            it.seq().unref().to_set() == set@,
            seen == it.seq().unref().take(it.index() as int),
            forall|x: usize| r@.contains(x) <==> (seen.contains(x) && x < n),
            it.index() == it.seq().len() ==> seen == it.seq().unref(),
    {
        let ghost prev = seen;
        proof {
            seen = seen.push(*k);
            assert(seen == it.seq().unref().take(it.index() + 1));
        }
        if *k < n {
            r.insert(*k);
        }
        assert forall|x: usize| r@.contains(x) <==> (seen.contains(x) && x < n) by {
            assert(seen.contains(x) <==> (prev.contains(x) || x == *k)) by {
                if x == *k {
                    assert(seen[prev.len() as int] == x);
                }
                if seen.contains(x) && x != *k {
                    let j = choose|j: int| 0 <= j < seen.len() && seen[j] == x;
                    assert(prev[j] == x);
                }
            }
        }
    }
    assert(r@ =~= set@.filter(|i: usize| i < n));
    r
}

/// Number of rows a page holds.
fn rows_in<T>(page: &Option<Vec<T>>) -> (n: usize)
    ensures
        n == rows_of(page_view(*page)).len(),
{
    match page {
        Some(rows) => rows.len(),
        None => 0,
    }
}

/// Adds missing pages at the end until there are `n` pages.
fn grow_pages<T>(pages: &mut Vec<Option<Vec<T>>>, n: usize)
    ensures
        final(pages)@.len() == if old(pages)@.len() < n {
            n as int
        } else {
            old(pages)@.len() as int
        },
        pages_view(final(pages)@) == if old(pages)@.len() < n {
            pages_view(old(pages)@) + Seq::new((n - old(pages)@.len()) as nat, |i: int| None::<Seq<T>>)
        } else {
            pages_view(old(pages)@)
        },
{
    let ghost start_pages = pages_view(pages@);
    let ghost start = pages.len() as int;
    while pages.len() < n
        invariant
            start == start_pages.len(),
            start <= pages.len(),
            start < n ==> pages.len() <= n,
            start >= n ==> pages.len() == start,
            pages_view(pages@) == start_pages + Seq::new(
                (pages.len() - start) as nat,
                |i: int| None::<Seq<T>>,
            ),
        decreases n - pages.len(),
    {
        let ghost prev = pages_view(pages@);
        let ghost m = (pages.len() - start) as nat;
        pages.push(None);
        assert(pages_view(pages@) =~= prev.push(None));
        assert((start_pages + Seq::new(m, |i: int| None::<Seq<T>>)).push(None) =~= start_pages
            + Seq::new(m + 1, |i: int| None::<Seq<T>>));
    }
    assert(start_pages + Seq::new(0, |i: int| None::<Seq<T>>) =~= start_pages);
}

impl<T> Default for SparseList<T> {
    fn default() -> (r: Self)
        ensures
            r@ == SparseView::<T>::empty(),
    {
        let r = SparseList {
            pages: Vec::new(),
            total: None,
            in_flight: BTreeSet::new(),
            loaded_count: 0,
            loaded_once: false,
            loading: false,
            error: None,
            revision: 0,
        };
        assert(r@ =~= SparseView::<T>::empty());
        r
    }
}

impl<T> SparseList<T> {
    pub fn new() -> (r: Self)
        ensures
            r@ == SparseView::<T>::empty(),
    {
        Self::default()
    }

    /// Records that the collection holds `total` rows.
    pub fn set_total(&mut self, total: u32)
        ensures
            final(self)@ == old(self)@.after_set_total(total),
    {
        let ghost old_pages = pages_view(self.pages@);
        self.total = Some(total);
        let num_pages = pages_for(total as usize);
        if num_pages < self.pages.len() {
            let ghost old_len = self.pages.len() as int;
            let ghost count0 = self.loaded_count as int;
            while self.pages.len() > num_pages
                invariant
                    self.total == Some(total),
                    self.in_flight == old(self).in_flight,
                    self.loaded_once == old(self).loaded_once,
                    self.loading == old(self).loading,
                    self.error == old(self).error,
                    self.revision == old(self).revision,
                    num_pages <= self.pages.len() <= old_len,
                    old_len == old_pages.len(),
                    pages_view(self.pages@) == old_pages.take(self.pages.len() as int),
                    self.loaded_count == saturating_minus(
                        count0,
                        loaded_len(old_pages.subrange(self.pages.len() as int, old_len)) as int,
                    ),
                decreases self.pages.len(),
            {
                let ghost k = self.pages.len() as int;
                let ghost before = self.pages@;
                let last = self.pages.pop();
                let n = match &last {
                    Some(p) => rows_in(p),
                    None => 0,
                };
                proof {
                    let tail = old_pages.subrange(k - 1, old_len);
                    assert(tail.drop_first() =~= old_pages.subrange(k, old_len));
                    assert(tail[0] == old_pages[k - 1]);
                    assert(pages_view(before)[k - 1] == page_view(before[k - 1]));
                    assert(old_pages.take(k)[k - 1] == old_pages[k - 1]);
                    assert(rows_of(old_pages[k - 1]).len() == n);
                    assert(loaded_len(tail) == n + loaded_len(old_pages.subrange(k, old_len)));
                    assert(pages_view(self.pages@) =~= old_pages.take(k - 1));
                }
                self.loaded_count = self.loaded_count.saturating_sub(n);
            }
            assert(old_pages.subrange(num_pages as int, old_len) =~= old_pages.skip(num_pages as int));
            self.in_flight = keep_below(&self.in_flight, num_pages);
        } else if num_pages > self.pages.len() {
            grow_pages(&mut self.pages, num_pages);
        }
        proof {
            let n = page_count(total as nat);
            if n >= old_pages.len() {
                assert(pages_view(self.pages@) =~= old_pages + Seq::new(
                    (n - old_pages.len()) as nat,
                    |i: int| None::<Seq<T>>,
                ));
            } else {
                assert(pages_view(self.pages@) =~= old_pages.take(n as int));
            }
        }
        let ghost want = old(self)@.after_set_total(total);
        assert(self@.pages =~= want.pages);
        assert(self@.in_flight =~= want.in_flight);
        assert(self@.loaded_count == want.loaded_count);
        assert(self@ =~= want);
    }

    /// The row at `index`, where its page is loaded and it lies within the total.
    pub fn get(&self, index: usize) -> (r: Option<&T>)
        ensures
            self@.row(index as int) == match r {
                Some(x) => Some(*x),
                None => None,
            },
    {
        if let Some(tot) = self.total {
            if index >= tot as usize {
                return None;
            }
        }
        let page_idx = index / PLAYLIST_PAGE_SIZE;
        let rem = index % PLAYLIST_PAGE_SIZE;
        if page_idx < self.pages.len() {
            proof {
                assert(pages_view(self.pages@)[page_idx as int] == page_view(self.pages@[page_idx as int]));
            }
            match &self.pages[page_idx] {
                Some(rows) => if rem < rows.len() {
                    Some(&rows[rem])
                } else {
                    None
                },
                None => None,
            }
        } else {
            None
        }
    }

    /// Stores `items` as the page that holds row `offset`.
    pub fn insert_page(&mut self, offset: usize, items: Vec<T>)
        requires
            old(self)@.insert_fits(offset, items@.len()),
        ensures
            final(self)@ == old(self)@.after_insert_page(offset, items@),
    {
        let ghost rows = items@;
        let page_idx = offset / PLAYLIST_PAGE_SIZE;
        let num_pages = page_idx + 1;
        grow_pages(&mut self.pages, num_pages);
        proof {
            assert(pages_view(self.pages@)[page_idx as int] == page_view(self.pages@[page_idx as int]));
            assert(rows_of(old(self)@.page(page_idx as int)) == rows_of(page_view(self.pages@[page_idx as int])));
        }
        if let Some(existing) = &self.pages[page_idx] {
            self.loaded_count = self.loaded_count.saturating_sub(existing.len());
        }
        self.loaded_count = self.loaded_count + items.len();
        self.pages.set(page_idx, Some(items));
        let _ = self.in_flight.remove(&page_idx);
        self.loading = !self.in_flight.is_empty();
        self.loaded_once = true;
        self.error = None;
        self.revision = bump_revision(self.revision);
        proof {
            let want = old(self)@.after_insert_page(offset, rows);
            assert(self@.pages =~= want.pages);
            assert(self@.in_flight =~= want.in_flight);
            assert(self@ =~= want);
        }
    }

    /// Takes in a page that starts at row `offset`.
    pub fn absorb(&mut self, offset: u32, page: ItemPage<T>)
        requires
            old(self)@.after_set_total(page.total).insert_fits(offset as usize, page.items@.len()),
        ensures
            final(self)@ == old(self)@.after_set_total(page.total).after_insert_page(
                offset as usize,
                page.items@,
            ),
    {
        self.set_total(page.total);
        self.insert_page(offset as usize, page.items);
    }

    /// Records that the page at `page_idx` is being requested.
    pub fn mark_in_flight(&mut self, page_idx: usize)
        ensures
            final(self)@ == old(self)@.after_mark_in_flight(page_idx),
    {
        let _ = self.in_flight.insert(page_idx);
        self.loading = true;
        assert(self@ =~= old(self)@.after_mark_in_flight(page_idx));
    }

    /// Records that the request for the page at `page_idx` failed.
    pub fn fail_page(&mut self, page_idx: usize, error: String)
        ensures
            final(self)@ == old(self)@.after_fail_page(page_idx, error@),
    {
        let ghost text = error@;
        let _ = self.in_flight.remove(&page_idx);
        self.loading = !self.in_flight.is_empty();
        self.error = Some(error);
        self.loaded_once = true;
        assert(self@ =~= old(self)@.after_fail_page(page_idx, text));
    }

    /// Records that loading failed altogether.
    pub fn fail(&mut self, error: String)
        ensures
            final(self)@ == old(self)@.after_fail(error@),
    {
        let ghost text = error@;
        self.in_flight.clear();
        self.loading = false;
        self.error = Some(error);
        self.loaded_once = true;
        assert(self@ =~= old(self)@.after_fail(text));
    }

    pub fn is_missing(&self, page_idx: usize) -> (r: bool)
        ensures
            r == self@.is_missing(page_idx as int),
    {
        if page_idx < self.pages.len() {
            proof {
                assert(pages_view(self.pages@)[page_idx as int] == page_view(self.pages@[page_idx as int]));
            }
            self.pages[page_idx].is_none()
        } else {
            true
        }
    }

    pub fn is_in_flight(&self, page_idx: usize) -> (r: bool)
        ensures
            r == self@.in_flight.contains(page_idx),
    {
        self.in_flight.contains(&page_idx)
    }

    /// Whether another page may be requested: at most two requests run at once.
    pub fn can_request_more(&self) -> (r: bool)
        ensures
            r == self@.can_request_more(),
            r == (self.in_flight@.len() < 2),
    {
        self.in_flight.len() < 2
    }

    pub fn can_load_more(&self) -> (r: bool)
        ensures
            r == (!self@.is_complete() && self@.can_request_more()),
            r == (!self@.is_complete() && self.in_flight@.len() < 2),
    {
        !self.is_complete() && self.can_request_more()
    }

    pub fn is_complete(&self) -> (r: bool)
        ensures
            r == self@.is_complete(),
    {
        let total = match self.total {
            Some(t) => t,
            None => {
                return false;
            },
        };
        if total == 0 {
            return self.loaded_once;
        }
        if self.loaded_count < total as usize {
            return false;
        }
        let num_pages = pages_for(total as usize);
        let mut idx: usize = 0;
        while idx < num_pages
            invariant
                num_pages == page_count(total as nat),
                self@.total == Some(total),
                idx <= num_pages,
                forall|i: int| 0 <= i < idx ==> !#[trigger] self@.is_missing(i),
            decreases num_pages - idx,
        {
            if self.is_missing(idx) {
                return false;
            }
            idx = idx + 1;
        }
        true
    }

    /// Offset of the first page that is neither loaded nor requested.
    pub fn next_missing_offset(&self) -> (r: Option<u32>)
        ensures
            r is None <==> (self@.total is None || forall|i: int|
                0 <= i < page_count(self@.total->0 as nat) ==> !#[trigger] self@.is_gap(i)),
            r matches Some(o) ==> {
                let idx = o as int / PLAYLIST_PAGE_SIZE as int;
                &&& o as int == idx * PLAYLIST_PAGE_SIZE as int
                &&& idx < page_count(self@.total->0 as nat)
                &&& self@.is_gap(idx)
                &&& forall|j: int| 0 <= j < idx ==> !#[trigger] self@.is_gap(j)
            },
    {
        let total = match self.total {
            Some(t) => t,
            None => {
                return None;
            },
        };
        let num_pages = pages_for(total as usize);
        let mut idx: usize = 0;
        while idx < num_pages
            invariant
                num_pages == page_count(total as nat),
                self@.total == Some(total),
                idx <= num_pages,
                forall|j: int| 0 <= j < idx ==> !#[trigger] self@.is_gap(j),
            decreases num_pages - idx,
        {
            if self.is_missing(idx) && !self.in_flight.contains(&idx) {
                assert(idx * PLAYLIST_PAGE_SIZE < total);
                let o = (idx * PLAYLIST_PAGE_SIZE) as u32;
                assert(o as int / PLAYLIST_PAGE_SIZE as int == idx);
                assert(self@.is_gap(idx as int));
                return Some(o);
            }
            idx = idx + 1;
        }
        None
    }

    /// Forgets every page; only the revision moves on.
    pub fn reset(&mut self)
        ensures
            final(self)@ == old(self)@.after_reset(),
    {
        let revision = bump_revision(self.revision);
        *self = SparseList { revision, ..Default::default() };
        assert(self@ =~= old(self)@.after_reset());
    }

    /// Replaces every page with `items`, cut into pages; the list is then complete.
    pub fn set_cached(&mut self, items: Vec<T>)
        ensures
            final(self)@ == old(self)@.after_set_cached(items@),
    {
        let ghost all = items@;
        let total = items.len();
        self.total = Some(total as u32);
        let num_pages = if total == 0 {
            0
        } else {
            pages_for(total)
        };
        let mut pages: Vec<Option<Vec<T>>> = Vec::new();
        let mut rest = items;
        let mut k: usize = 0;
        while k < num_pages
            invariant
                num_pages == page_count(all.len()),
                total == all.len(),
                k <= num_pages,
                k < num_pages ==> k * PLAYLIST_PAGE_SIZE < total,
                k < num_pages ==> rest@ == all.subrange(k * PLAYLIST_PAGE_SIZE, total as int),
                pages_view(pages@) == chunked(all).take(k as int),
            decreases num_pages - k,
        {
            let ghost before = pages_view(pages@);
            let cut = if rest.len() < PLAYLIST_PAGE_SIZE {
                rest.len()
            } else {
                PLAYLIST_PAGE_SIZE
            };
            let tail = rest.split_off(cut);
            proof {
                let lo = k * PLAYLIST_PAGE_SIZE;
                let hi = if (k + 1) * PLAYLIST_PAGE_SIZE < total {
                    (k + 1) * PLAYLIST_PAGE_SIZE
                } else {
                    total as int
                };
                assert(rest@ =~= all.subrange(lo as int, hi));
                assert(chunked(all)[k as int] == Some(all.subrange(lo as int, hi)));
                if k + 1 < num_pages {
                    assert(tail@ =~= all.subrange((k + 1) * PLAYLIST_PAGE_SIZE, total as int));
                }
            }
            pages.push(Some(rest));
            proof {
                assert(pages_view(pages@) =~= before.push(Some(rest@)));
                assert(pages_view(pages@) =~= chunked(all).take(k + 1));
            }
            rest = tail;
            k = k + 1;
        }
        assert(chunked(all).take(num_pages as int) =~= chunked(all));
        self.pages = pages;
        self.loaded_count = total;
        self.in_flight.clear();
        self.loading = false;
        self.loaded_once = true;
        self.error = None;
        self.revision = bump_revision(self.revision);
        assert(self@ =~= old(self)@.after_set_cached(all));
    }

    /// A complete list of `items`.
    pub fn from_items(items: Vec<T>) -> (r: Self)
        ensures
            r@ == SparseView::<T>::empty().after_set_cached(items@),
    {
        let mut list = Self::default();
        list.set_cached(items);
        list
    }

    /// Takes every loaded row out, in order, leaving no pages.
    fn take_rows(&mut self) -> (all: Vec<T>)
        ensures
            all@ == loaded_items(old(self)@.pages),
            final(self)@ == (SparseView { pages: Seq::empty(), ..old(self)@ }),
    {
        let pages = self.pages.split_off(0);
        assert(pages@ =~= old(self).pages@);
        let ghost pv = pages_view(pages@);
        let mut all: Vec<T> = Vec::new();
        for p in it: pages.into_iter()
            invariant
                it.seq() == pages@,
                pv == pages_view(pages@),
                pv.len() == it.seq().len(),
                all@ == loaded_items(pv.take(it.index() as int)),
        {
            let ghost i = it.index() as int;
            proof {
                lemma_loaded_items_take(pv, i);
                assert(pv[i] == page_view(p));
            }
            if let Some(rows) = p {
                let mut rows = rows;
                all.append(&mut rows);
            } else {
                assert(loaded_items(pv.take(i)) + Seq::<T>::empty() =~= loaded_items(pv.take(i)));
            }
        }
        assert(pv.take(pv.len() as int) =~= pv);
        assert(self@ =~= (SparseView { pages: Seq::empty(), ..old(self)@ }));
        all
    }

    /// Number of loaded rows.
    fn loaded_rows(&self) -> (n: usize)
        requires
            loaded_len(self@.pages) <= usize::MAX,
        ensures
            n == loaded_len(self@.pages),
    {
        let ghost pv = self@.pages;
        let mut n: usize = 0;
        let mut i: usize = 0;
        while i < self.pages.len()
            invariant
                pv == pages_view(self.pages@),
                loaded_len(pv) <= usize::MAX,
                i <= self.pages.len(),
                n == loaded_len(pv.take(i as int)),
            decreases self.pages.len() - i,
        {
            proof {
                lemma_loaded_items_take(pv, i as int);
                assert(pv[i as int] == page_view(self.pages@[i as int]));
                assert(pv =~= pv.take(i + 1) + pv.skip(i + 1));
                lemma_loaded_items_concat(pv.take(i + 1), pv.skip(i + 1));
            }
            n = n + rows_in(&self.pages[i]);
            i = i + 1;
        }
        assert(pv.take(pv.len() as int) =~= pv);
        n
    }

    /// Every loaded row, in order.
    pub fn iter(&self) -> (r: Vec<&T>)
        ensures
            r@.map_values(|x: &T| *x) == loaded_items(self@.pages),
    {
        let ghost pv = self@.pages;
        let mut out: Vec<&T> = Vec::new();
        let mut i: usize = 0;
        while i < self.pages.len()
            invariant
                pv == pages_view(self.pages@),
                i <= self.pages.len(),
                out@.map_values(|x: &T| *x) == loaded_items(pv.take(i as int)),
            decreases self.pages.len() - i,
        {
            proof {
                lemma_loaded_items_take(pv, i as int);
                assert(pv[i as int] == page_view(self.pages@[i as int]));
            }
            match &self.pages[i] {
                Some(rows) => {
                    let ghost base = loaded_items(pv.take(i as int));
                    let mut j: usize = 0;
                    while j < rows.len()
                        invariant
                            j <= rows.len(),
                            out@.map_values(|x: &T| *x) == base + rows@.take(j as int),
                        decreases rows.len() - j,
                    {
                        let ghost prev = out@;
                        out.push(&rows[j]);
                        assert(out@.map_values(|x: &T| *x) =~= prev.map_values(|x: &T| *x).push(rows@[j as int]));
                        assert(rows@.take(j + 1) =~= rows@.take(j as int).push(rows@[j as int]));
                        assert(base + rows@.take(j + 1) =~= (base + rows@.take(j as int)).push(rows@[j as int]));
                        j = j + 1;
                    }
                    assert(rows@.take(rows@.len() as int) =~= rows@);
                },
                None => {
                    assert(loaded_items(pv.take(i as int)) + Seq::<T>::empty() =~= loaded_items(pv.take(i as int)));
                },
            }
            i = i + 1;
        }
        assert(pv.take(pv.len() as int) =~= pv);
        out
    }

    /// A copy of every loaded row, in order.
    pub fn to_vec(&self) -> (r: Vec<T>)
        where
            T: Clone,
        ensures
            r@.len() == loaded_items(self@.pages).len(),
            forall|k: int| 0 <= k < r@.len() ==> cloned(loaded_items(self@.pages)[k], #[trigger] r@[k]),
    {
        let ghost pv = self@.pages;
        let mut out: Vec<T> = Vec::new();
        let mut i: usize = 0;
        while i < self.pages.len()
            invariant
                pv == pages_view(self.pages@),
                i <= self.pages.len(),
                out@.len() == loaded_items(pv.take(i as int)).len(),
                forall|k: int| 0 <= k < out@.len() ==> cloned(loaded_items(pv.take(i as int))[k], #[trigger] out@[k]),
            decreases self.pages.len() - i,
        {
            proof {
                lemma_loaded_items_take(pv, i as int);
                assert(pv[i as int] == page_view(self.pages@[i as int]));
            }
            match &self.pages[i] {
                Some(rows) => {
                    let ghost base = loaded_items(pv.take(i as int));
                    let mut j: usize = 0;
                    while j < rows.len()
                        invariant
                            j <= rows.len(),
                            out@.len() == base.len() + j,
                            forall|k: int| 0 <= k < out@.len() ==> cloned((base + rows@)[k], #[trigger] out@[k]),
                        decreases rows.len() - j,
                    {
                        let c = rows[j].clone();
                        out.push(c);
                        assert((base + rows@)[base.len() + j] == rows@[j as int]);
                        j = j + 1;
                    }
                },
                None => {
                    assert(loaded_items(pv.take(i as int)) + Seq::<T>::empty() =~= loaded_items(pv.take(i as int)));
                },
            }
            i = i + 1;
        }
        assert(pv.take(pv.len() as int) =~= pv);
        out
    }

    /// The rows of the page at `page_idx`, where it is loaded.
    pub fn get_page(&self, page_idx: usize) -> (r: Option<&[T]>)
        ensures
            self@.page(page_idx as int) == match r {
                Some(rows) => Some(rows@),
                None => None,
            },
    {
        if page_idx < self.pages.len() {
            proof {
                assert(pages_view(self.pages@)[page_idx as int] == page_view(self.pages@[page_idx as int]));
            }
            match &self.pages[page_idx] {
                Some(rows) => Some(rows.as_slice()),
                None => None,
            }
        } else {
            None
        }
    }

    /// The positions of the loaded pages.
    pub fn loaded_page_indices(&self) -> (r: BTreeSet<usize>)
        ensures
            r@ == Set::new(|i: usize| !self@.is_missing(i as int)),
    {
        let mut r: BTreeSet<usize> = BTreeSet::new();
        let mut i: usize = 0;
        while i < self.pages.len()
            invariant
                i <= self.pages.len(),
                forall|k: usize| r@.contains(k) <==> (k < i && !self@.is_missing(k as int)),
            decreases self.pages.len() - i,
        {
            proof {
                assert(pages_view(self.pages@)[i as int] == page_view(self.pages@[i as int]));
            }
            if self.pages[i].is_some() {
                let _ = r.insert(i);
            }
            i = i + 1;
        }
        assert(r@ =~= Set::new(|k: usize| !self@.is_missing(k as int)));
        r
    }

    /// Keeps the rows on which `f` answers `true`. A complete list is
    /// filtered as a whole and cut into pages again; otherwise each loaded
    /// page is filtered in place and missing pages stay missing.
    pub fn retain<F: Fn(&T) -> bool>(&mut self, f: F)
        requires
            forall|x: &T| f.requires((x,)),
            loaded_len(old(self)@.pages) <= usize::MAX,
        ensures
            old(self)@.is_complete() ==> exists|kept: Seq<T>|
                filtered_by(f, loaded_items(old(self)@.pages), kept) && final(self)@
                    == old(self)@.after_set_cached(kept),
            !old(self)@.is_complete() ==> pages_filtered_by(f, old(self)@.pages, final(self)@.pages)
                && final(self)@ == old(self)@.with_filtered_pages(final(self)@.pages),
    {
        if self.is_complete() {
            let mut all = self.take_rows();
            retain_vec(&mut all, &f);
            let ghost kept = all@;
            self.set_cached(all);
            assert(filtered_by(f, loaded_items(old(self)@.pages), kept));
            assert(self@ == old(self)@.after_set_cached(kept));
            return;
        }
        let ghost pv = self@.pages;
        let old_pages = self.pages.split_off(0);
        assert(old_pages@ =~= old(self).pages@);
        proof {
            assert(pv =~= pv.take(0) + pv);
        }
        let mut removed: usize = 0;
        for p in it: old_pages.into_iter()
            invariant
                it.seq() == old_pages@,
                pv == pages_view(old_pages@),
                pv.len() == it.seq().len(),
                forall|x: &T| f.requires((x,)),
                loaded_len(pv) <= usize::MAX,
                pages_filtered_by(f, pv.take(it.index() as int), pages_view(self.pages@)),
                removed as int == loaded_len(pv.take(it.index() as int)) - loaded_len(pages_view(self.pages@)),
                self.total == old(self).total,
                self.in_flight == old(self).in_flight,
                self.loaded_count == old(self).loaded_count,
                self.loaded_once == old(self).loaded_once,
                self.loading == old(self).loading,
                self.error == old(self).error,
                self.revision == old(self).revision,
        {
            let ghost i = it.index() as int;
            let ghost done = pages_view(self.pages@);
            proof {
                lemma_loaded_items_take(pv, i);
                assert(pv[i] == page_view(p));
                assert(pv =~= pv.take(i + 1) + pv.skip(i + 1));
                lemma_loaded_items_concat(pv.take(i + 1), pv.skip(i + 1));
            }
            match p {
                Some(rows) => {
                    let mut rows = rows;
                    let before = rows.len();
                    let ghost old_rows = rows@;
                    retain_vec(&mut rows, &f);
                    proof {
                        lemma_filtered_len(f, old_rows, rows@);
                    }
                    removed = removed + (before - rows.len());
                    self.pages.push(Some(rows));
                    proof {
                        assert(pages_view(self.pages@) =~= done.push(Some(rows@)));
                        assert(pages_view(self.pages@) =~= done + seq![Some(rows@)]);
                        lemma_loaded_items_concat(done, seq![Some(rows@)]);
                        crate::sparse_view::lemma_loaded_items_single(Some(rows@));
                    }
                },
                None => {
                    self.pages.push(None);
                    proof {
                        assert(pages_view(self.pages@) =~= done + seq![None]);
                        lemma_loaded_items_concat(done, seq![None]);
                        crate::sparse_view::lemma_loaded_items_single(None::<Seq<T>>);
                    }
                },
            }
            proof {
                let now = pages_view(self.pages@);
                assert forall|k: int| 0 <= k < i + 1 implies {
                    &&& (#[trigger] pv.take(i + 1)[k] is None <==> now[k] is None)
                    &&& pv.take(i + 1)[k] is Some ==> filtered_by(f, pv.take(i + 1)[k]->0, now[k]->0)
                } by {
                    if k < i {
                        assert(pv.take(i + 1)[k] == pv.take(i)[k]);
                        assert(now[k] == done[k]);
                    }
                }
            }
        }
        assert(pv.take(pv.len() as int) =~= pv);
        if removed > 0 {
            self.loaded_count = self.loaded_count.saturating_sub(removed);
            if let Some(total) = self.total {
                self.total = Some(total.saturating_sub(#[verifier::truncate] (removed as u32)));
            }
            self.revision = bump_revision(self.revision);
        }
        assert(self@ =~= old(self)@.with_filtered_pages(self@.pages));
    }

    /// Moves the row at `from` to just before the row at `to`. A complete
    /// list moves rows across pages; otherwise the move happens only where
    /// both rows lie in one loaded page.
    pub fn reorder(&mut self, from: usize, to: usize)
        requires
            loaded_len(old(self)@.pages) <= usize::MAX,
        ensures
            final(self)@ == old(self)@.after_reorder(from as int, to as int),
    {
        if self.is_complete() {
            let len = self.loaded_rows();
            if from < len && to <= len {
                let mut all = self.take_rows();
                move_element(&mut all, from, to);
                self.set_cached(all);
            }
            return;
        }
        let from_page = from / PLAYLIST_PAGE_SIZE;
        let to_page = to / PLAYLIST_PAGE_SIZE;
        if from_page == to_page && from_page < self.pages.len() {
            proof {
                assert(pages_view(self.pages@)[from_page as int] == page_view(self.pages@[from_page as int]));
            }
            if self.pages[from_page].is_some() {
                let p_from = from % PLAYLIST_PAGE_SIZE;
                let p_to = to % PLAYLIST_PAGE_SIZE;
                let n = rows_in(&self.pages[from_page]);
                if p_from < n && p_to <= n {
                    let mut slot: Option<Vec<T>> = None;
                    self.pages.set_and_swap(from_page, &mut slot);
                    let mut page = slot.unwrap();
                    move_element(&mut page, p_from, p_to);
                    let ghost moved_rows = page@;
                    self.pages.set(from_page, Some(page));
                    self.revision = bump_revision(self.revision);
                    proof {
                        let want = old(self)@.after_reorder(from as int, to as int);
                        assert(pages_view(self.pages@) =~= want.pages);
                    }
                    assert(self@ =~= old(self)@.after_reorder(from as int, to as int));
                }
            }
        }
    }

    /// The row number of the first visited row on which `predicate` answers
    /// `true`. Rows are visited page by page, and within a page up to the total.
    pub fn find_index<F: Fn(&T) -> bool>(&self, predicate: F) -> (r: Option<usize>)
        requires
            forall|x: &T| predicate.requires((x,)),
            self@.row_numbers_fit(),
        ensures
            ({
                let c = self@.candidates();
                match r {
                    Some(g) => exists|k: int|
                        0 <= k < c.len() && c[k].0 == g && predicate.ensures((&c[k].1,), true)
                            && forall|j: int| 0 <= j < k ==> predicate.ensures((&#[trigger] c[j].1,), false),
                    None => forall|j: int| 0 <= j < c.len() ==> predicate.ensures((&#[trigger] c[j].1,), false),
                }
            }),
    {
        let ghost pv = self@.pages;
        let mut page_idx: usize = 0;
        while page_idx < self.pages.len()
            invariant
                pv == pages_view(self.pages@),
                self@.row_numbers_fit(),
                forall|x: &T| predicate.requires((x,)),
                page_idx <= self.pages.len(),
                forall|j: int| 0 <= j < candidates_upto(pv, page_idx as int, self.total).len()
                    ==> predicate.ensures((&#[trigger] candidates_upto(pv, page_idx as int, self.total)[j].1,), false),
            decreases self.pages.len() - page_idx,
        {
            let ghost done = candidates_upto(pv, page_idx as int, self.total);
            proof {
                assert(pv[page_idx as int] == page_view(self.pages@[page_idx as int]));
            }
            if let Some(items) = &self.pages[page_idx] {
                let ghost pc = page_candidates(page_idx as int, items@, self.total);
                assert(candidates_upto(pv, page_idx + 1, self.total) == done + pc);
                let mut rem: usize = 0;
                while rem < items.len()
                    invariant
                        pv == pages_view(self.pages@),
                        self@.row_numbers_fit(),
                        forall|x: &T| predicate.requires((x,)),
                        page_idx < self.pages.len(),
                        self.pages@[page_idx as int] == Some(*items),
                        pc == page_candidates(page_idx as int, items@, self.total),
                        done == candidates_upto(pv, page_idx as int, self.total),
                        rem <= items.len(),
                        rem <= pc.len(),
                        forall|j: int| 0 <= j < done.len() ==> predicate.ensures((&#[trigger] done[j].1,), false),
                        forall|j: int| 0 <= j < rem ==> predicate.ensures((&#[trigger] pc[j].1,), false),
                    ensures
                        rem == pc.len(),
                        forall|j: int| 0 <= j < rem ==> predicate.ensures((&#[trigger] pc[j].1,), false),
                    decreases items.len() - rem,
                {
                    assert(self@.pages[page_idx as int] is Some);
                    let global_idx = page_idx * PLAYLIST_PAGE_SIZE + rem;
                    if let Some(tot) = self.total {
                        if global_idx >= tot as usize {
                            break;
                        }
                    }
                    assert(pc[rem as int] == (global_idx as int, items@[rem as int]));
                    if predicate(&items[rem]) {
                        proof {
                            let c = done + pc;
                            let k = done.len() + rem;
                            assert(rem < pc.len());
                            assert(pv[page_idx as int] == page_view(self.pages@[page_idx as int]));
                            assert(candidates_upto(pv, page_idx + 1, self.total) == c);
                            assert(c[k] == pc[rem as int]);
                            assert forall|j: int| 0 <= j < k implies predicate.ensures((&#[trigger] c[j].1,), false) by {
                                if j < done.len() {
                                    assert(c[j] == done[j]);
                                } else {
                                    assert(c[j] == pc[j - done.len()]);
                                }
                            }
                            crate::sparse_view::lemma_candidates_prefix(pv, page_idx as int + 1, pv.len() as int, self.total);
                            let full = self@.candidates();
                            assert(full[k] == c[k]);
                            assert(full[k].0 == global_idx as int);
                            assert forall|j: int| 0 <= j < k implies predicate.ensures((&#[trigger] full[j].1,), false) by {
                                assert(full[j] == c[j]);
                            }
                        }
                        return Some(global_idx);
                    }
                    rem = rem + 1;
                }
                proof {
                    let c = done + pc;
                    assert forall|j: int| 0 <= j < c.len() implies predicate.ensures((&#[trigger] c[j].1,), false) by {
                        if j < done.len() {
                            assert(c[j] == done[j]);
                        } else {
                            assert(c[j] == pc[j - done.len()]);
                        }
                    }
                }
            } else {
                assert(candidates_upto(pv, page_idx + 1, self.total) =~= done);
            }
            page_idx = page_idx + 1;
        }
        assert(self@.candidates() == candidates_upto(pv, page_idx as int, self.total));
        None
    }
}

} // verus!
