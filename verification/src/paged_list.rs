use vstd::prelude::*;

use crate::common::{bump_revision, next_revision, opt_text};
use crate::vec_ops::{
    filtered_by, insert_position, lemma_moved, move_element, moved, retain_vec, valid_move,
};

verus! {

/// One page of results as the Web API hands it back: the rows, the size of
/// the whole collection, and where the following page starts, if there is one.
pub struct ItemPage<T> {
    pub items: Vec<T>,
    pub total: u32,
    pub next: Option<u32>,
}

impl<T> ItemPage<T> {
    /// Offset of the page that follows this one, if any.
    pub fn next_offset(&self) -> (r: Option<u32>)
        ensures
            r == self.next,
    {
        self.next
    }
}

/// An offset-paginated list that loads on demand as the user scrolls.
pub struct PagedList<T> {
    pub items: Vec<T>,
    pub total: Option<u32>,
    pub next_offset: Option<u32>,
    pub loading: bool,
    pub error: Option<String>,
    pub loaded_once: bool,
    pub revision: u64,
}

/// What a [`PagedList`] holds, as mathematical values.
#[verifier::ext_equal]
pub struct PagedView<T> {
    pub items: Seq<T>,
    pub total: Option<u32>,
    pub next_offset: Option<u32>,
    pub loading: bool,
    pub error: Option<Seq<char>>,
    pub loaded_once: bool,
    pub revision: u64,
}

impl<T> View for PagedList<T> {
    type V = PagedView<T>;

    open spec fn view(&self) -> PagedView<T> {
        PagedView {
            items: self.items@,
            total: self.total,
            next_offset: self.next_offset,
            loading: self.loading,
            error: opt_text(self.error),
            loaded_once: self.loaded_once,
            revision: self.revision,
        }
    }
}

impl<T> PagedView<T> {
    /// A list that has loaded nothing yet and will start at offset 0.
    pub open spec fn empty() -> Self {
        PagedView {
            items: Seq::empty(),
            total: None,
            next_offset: Some(0),
            loading: false,
            error: None,
            loaded_once: false,
            revision: 0,
        }
    }

    /// The empty list that follows a reset of `self`: only the revision moves on.
    pub open spec fn after_reset(self) -> Self {
        PagedView { revision: next_revision(self.revision), ..PagedView::empty() }
    }

    /// Whether another page may be requested now.
    pub open spec fn can_load_more(self) -> bool {
        !self.loading && self.next_offset is Some
    }

    /// Whether every page has arrived.
    pub open spec fn is_complete(self) -> bool {
        self.loaded_once && self.next_offset is None
    }

    /// `self` after a page that starts at `offset` arrived: the rows from
    /// `offset` on are replaced by the page's rows.
    pub open spec fn after_absorb(self, offset: u32, rows: Seq<T>, total: u32, next: Option<u32>) -> Self {
        let keep = if (offset as int) < self.items.len() {
            offset as int
        } else {
            self.items.len() as int
        };
        PagedView {
            items: self.items.take(keep) + rows,
            total: Some(total),
            next_offset: next,
            loading: false,
            error: None,
            loaded_once: true,
            revision: next_revision(self.revision),
        }
    }

    /// `self` with its rows replaced by `rows`, every field else as given
    /// by `self` but the revision, which moves on.
    pub open spec fn with_rows(self, rows: Seq<T>) -> Self {
        PagedView { items: rows, revision: next_revision(self.revision), ..self }
    }

    /// `self` after moving the row at `from` to just before the row at `to`.
    pub open spec fn after_reorder(self, from: int, to: int) -> Self {
        if valid_move(self.items.len(), from, to) {
            self.with_rows(moved(self.items, from, to))
        } else {
            self
        }
    }

    /// `self` holding exactly `rows`, complete.
    pub open spec fn after_set_cached(self, rows: Seq<T>) -> Self {
        PagedView {
            items: rows,
            total: Some(rows.len() as u32),
            next_offset: None,
            loading: false,
            error: None,
            loaded_once: true,
            revision: next_revision(self.revision),
        }
    }

    /// `self` after a failed load with the message `error`.
    pub open spec fn after_fail(self, error: Seq<char>) -> Self {
        PagedView { loading: false, error: Some(error), loaded_once: true, ..self }
    }
}

impl<T> Default for PagedList<T> {
    fn default() -> (r: Self)
        ensures
            r@ == PagedView::<T>::empty(),
    {
        PagedList {
            items: Vec::new(),
            total: None,
            next_offset: Some(0),
            loading: false,
            error: None,
            loaded_once: false,
            revision: 0,
        }
    }
}

impl<T> PagedList<T> {
    pub fn reset(&mut self)
        ensures
            final(self)@ == old(self)@.after_reset(),
    {
        let revision = bump_revision(self.revision);
        *self = PagedList { revision, ..Default::default() };
    }

    pub fn can_load_more(&self) -> (r: bool)
        ensures
            r == self@.can_load_more(),
            self.loading ==> !r,
            self.next_offset is None ==> !r,
            !self.loading && self.next_offset is Some ==> r,
    {
        !self.loading && self.next_offset.is_some()
    }

    pub fn is_complete(&self) -> (r: bool)
        ensures
            r == self@.is_complete(),
            r <==> (self.loaded_once && self.next_offset is None),
    {
        self.loaded_once && self.next_offset.is_none()
    }

    pub fn absorb(&mut self, offset: u32, page: ItemPage<T>)
        ensures
            final(self)@ == old(self)@.after_absorb(offset, page.items@, page.total, page.next),
            offset <= old(self).items@.len() ==> final(self).items@ == old(self).items@.take(
                offset as int,
            ) + page.items@,
            offset > old(self).items@.len() ==> final(self).items@ == old(self).items@ + page.items@,
            final(self).total == Some(page.total),
            final(self).next_offset == page.next,
            !final(self).loading,
            final(self).error is None,
            final(self).loaded_once,
    {
        if offset == 0 {
            self.items.clear();
        }
        if (offset as usize) < self.items.len() {
            self.items.truncate(offset as usize);
        }
        let next_offset = page.next_offset();
        let ItemPage { items, total, next: _ } = page;
        let mut rows = items;
        self.items.append(&mut rows);
        self.total = Some(total);
        self.next_offset = next_offset;
        self.loading = false;
        self.error = None;
        self.loaded_once = true;
        self.revision = bump_revision(self.revision);
        proof {
            let keep = if (offset as int) < old(self)@.items.len() {
                offset as int
            } else {
                old(self)@.items.len() as int
            };
            assert(self@.items =~= old(self)@.items.take(keep) + page.items@);
        }
    }

    /// Keeps the rows on which `f` answers `true`.
    pub fn retain<F: Fn(&T) -> bool>(&mut self, f: F)
        requires
            forall|x: &T| f.requires((x,)),
        ensures
            filtered_by(f, old(self)@.items, final(self)@.items),
            final(self)@ == old(self)@.with_rows(final(self)@.items),
    {
        retain_vec(&mut self.items, &f);
        self.revision = bump_revision(self.revision);
    }

    /// Moves the row at `from` to just before the row at `to`; does nothing
    /// where the two do not name a row and a gap of the list.
    pub fn reorder(&mut self, from: usize, to: usize)
        ensures
            final(self)@ == old(self)@.after_reorder(from as int, to as int),
            final(self).items@.len() == old(self).items@.len(),
            final(self).items@.to_multiset() == old(self).items@.to_multiset(),
            !(from < old(self).items@.len() && to <= old(self).items@.len()) ==> final(self).items@
                == old(self).items@,
            from < old(self).items@.len() && to <= from ==> final(self).items@[to as int] == old(
                self,
            ).items@[from as int] && final(self).items@.remove(to as int) == old(
                self,
            ).items@.remove(from as int),
            from < to <= old(self).items@.len() ==> final(self).items@[to - 1] == old(
                self,
            ).items@[from as int] && final(self).items@.remove(to - 1) == old(
                self,
            ).items@.remove(from as int),
    {
        if from < self.items.len() && to <= self.items.len() {
            move_element(&mut self.items, from, to);
            self.revision = bump_revision(self.revision);
        }
    }

    pub fn set_cached(&mut self, items: Vec<T>)
        ensures
            final(self)@ == old(self)@.after_set_cached(items@),
            final(self).items@ == items@,
            final(self).total == Some(items@.len() as u32),
            final(self).next_offset is None,
            final(self).loaded_once && !final(self).loading && final(self).error is None,
    {
        self.total = Some(items.len() as u32);
        self.items = items;
        self.next_offset = None;
        self.loading = false;
        self.loaded_once = true;
        self.error = None;
        self.revision = bump_revision(self.revision);
    }

    pub fn fail(&mut self, error: String)
        ensures
            final(self)@ == old(self)@.after_fail(error@),
    {
        self.loading = false;
        self.error = Some(error);
        self.loaded_once = true;
    }
}

/// A cursor-paginated list (followed artists).
pub struct CursorList<T> {
    pub items: Vec<T>,
    pub after: Option<String>,
    pub loading: bool,
    pub error: Option<String>,
    pub loaded_once: bool,
    pub complete: bool,
}

impl<T> CursorList<T> {
    /// Whether `self` is the list that has loaded nothing.
    pub open spec fn is_fresh(&self) -> bool {
        &&& self.items@.len() == 0
        &&& self.after is None
        &&& !self.loading
        &&& self.error is None
        &&& !self.loaded_once
        &&& !self.complete
    }
}

impl<T> Default for CursorList<T> {
    fn default() -> (r: Self)
        ensures
            r.is_fresh(),
    {
        CursorList {
            items: Vec::new(),
            after: None,
            loading: false,
            error: None,
            loaded_once: false,
            complete: false,
        }
    }
}

impl<T> CursorList<T> {
    pub fn reset(&mut self)
        ensures
            final(self).is_fresh(),
    {
        *self = Self::default();
    }

    pub fn can_load_more(&self) -> (r: bool)
        ensures
            r == (!self.loading && !self.complete),
    {
        !self.loading && !self.complete
    }
}

/// Moving a row keeps the rows, only in another order, and puts the moved
/// row just before the row that stood at `to`.
pub proof fn law_paged_reorder_keeps_rows<T>(v: PagedView<T>, from: int, to: int)
    ensures
        v.after_reorder(from, to).items.to_multiset() == v.items.to_multiset(),
        valid_move(v.items.len(), from, to) ==> v.after_reorder(from, to).items[insert_position(
            from,
            to,
        )] == v.items[from],
{
    if valid_move(v.items.len(), from, to) {
        lemma_moved(v.items, from, to);
    }
}

/// A page that starts where the loaded rows end extends them; a page that
/// starts at 0 replaces them.
pub proof fn law_absorb_extends<T>(
    v: PagedView<T>,
    offset: u32,
    rows: Seq<T>,
    total: u32,
    next: Option<u32>,
)
    ensures
        offset == v.items.len() ==> v.after_absorb(offset, rows, total, next).items == v.items + rows,
        offset == 0 ==> v.after_absorb(offset, rows, total, next).items == rows,
{
    assert(v.items.take(v.items.len() as int) =~= v.items);
    assert(v.items.take(0) + rows =~= rows);
}

/// A page may be requested only while none is loading and a next offset is
/// known; then it always may.
pub proof fn law_paged_can_load_more<T>(v: PagedView<T>)
    ensures
        v.loading ==> !v.can_load_more(),
        v.next_offset is None ==> !v.can_load_more(),
        !v.loading && v.next_offset is Some ==> v.can_load_more(),
        v.is_complete() <==> (v.loaded_once && v.next_offset is None),
{
}

/// A valid move puts the row taken at `from` at index `to` when it moves up
/// or stays, at `to - 1` when it moves down, and leaves the other rows in
/// their order; an invalid move changes nothing.
pub proof fn law_paged_reorder_lands<T>(v: PagedView<T>, from: int, to: int)
    ensures
        v.after_reorder(from, to).items.len() == v.items.len(),
        !(0 <= from < v.items.len() && 0 <= to <= v.items.len()) ==> v.after_reorder(from, to)
            == v,
        0 <= to <= from < v.items.len() ==> v.after_reorder(from, to).items[to] == v.items[from]
            && v.after_reorder(from, to).items.remove(to) == v.items.remove(from),
        0 <= from < to <= v.items.len() ==> v.after_reorder(from, to).items[to - 1] == v.items[from]
            && v.after_reorder(from, to).items.remove(to - 1) == v.items.remove(from),
{
    if 0 <= from < v.items.len() && 0 <= to <= v.items.len() {
        crate::vec_ops::lemma_moved_lands(v.items, from, to);
    }
}

/// An arriving page replaces the rows from its offset on, or extends the rows
/// where it starts past them; the list then is loaded, not loading, without
/// error, with the page's total and next offset.
pub proof fn law_absorb_rows<T>(
    v: PagedView<T>,
    offset: u32,
    rows: Seq<T>,
    total: u32,
    next: Option<u32>,
)
    ensures
        offset <= v.items.len() ==> v.after_absorb(offset, rows, total, next).items == v.items.take(
            offset as int,
        ) + rows,
        offset > v.items.len() ==> v.after_absorb(offset, rows, total, next).items == v.items + rows,
        v.after_absorb(offset, rows, total, next).total == Some(total),
        v.after_absorb(offset, rows, total, next).next_offset == next,
        !v.after_absorb(offset, rows, total, next).loading,
        v.after_absorb(offset, rows, total, next).error is None,
        v.after_absorb(offset, rows, total, next).loaded_once,
        next is None ==> v.after_absorb(offset, rows, total, next).is_complete(),
        next is Some ==> v.after_absorb(offset, rows, total, next).can_load_more(),
{
    assert(v.items.take(v.items.len() as int) =~= v.items);
}

/// Cached rows make a complete list holding exactly those rows, from which
/// no further page is requested.
pub proof fn law_paged_cached<T>(v: PagedView<T>, rows: Seq<T>)
    ensures
        v.after_set_cached(rows).items == rows,
        v.after_set_cached(rows).is_complete(),
        !v.after_set_cached(rows).can_load_more(),
{
}

} // verus!
