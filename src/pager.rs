//! Pagination over the rows of a spreadsheet: turns a current page into the
//! row range that a view displays, and clamps navigation.

use vstd::prelude::*;

verus! {

/// The number of rows on a page unless another size is asked for.
pub const PAGE_SIZE: i64 = 1000;

/// The number of pages for a row count: one more than the number of full
/// pages, so that a count that is a multiple of the page size has a trailing
/// empty page.
pub open spec fn page_count_of(row_count: int, page_size: int) -> int {
    row_count / page_size + 1
}

/// The first row index shown on a page.
pub open spec fn first_row_of(page: int, page_size: int) -> int {
    (page - 1) * page_size
}

/// The last row index shown on a page; `first - 1` when the page is empty.
pub open spec fn last_row_of(page: int, page_size: int, row_count: int) -> int {
    let last_on_page = first_row_of(page, page_size) + page_size - 1;
    if last_on_page < row_count - 1 {
        last_on_page
    } else {
        row_count - 1
    }
}

/// A requested page moved into `1..=page_count`.
pub open spec fn clamp_page(page: int, page_count: int) -> int {
    if page > page_count {
        page_count
    } else if page < 1 {
        1
    } else {
        page
    }
}

/// Navigation state over a row count.
pub struct Pager {
    row_count: i64,
    page_size: i64,
    page: i64,
}

impl Pager {
    pub closed spec fn spec_row_count(&self) -> int {
        self.row_count as int
    }

    pub closed spec fn spec_page_size(&self) -> int {
        self.page_size as int
    }

    pub closed spec fn spec_page(&self) -> int {
        self.page as int
    }

    pub open spec fn spec_page_count(&self) -> int {
        page_count_of(self.spec_row_count(), self.spec_page_size())
    }

    /// The current page lies in `1..=page_count`.
    pub closed spec fn wf(&self) -> bool {
        &&& 0 <= self.row_count < i64::MAX
        &&& self.page_size >= 1
        &&& 1 <= self.page <= page_count_of(self.row_count as int, self.page_size as int)
    }

    /// A pager over `row_count` rows, with pages of [`PAGE_SIZE`] rows, on
    /// the first page.
    pub fn new(row_count: i64) -> (r: Self)
        requires
            0 <= row_count < i64::MAX,
        ensures
            r.wf(),
            r.spec_row_count() == row_count,
            r.spec_page_size() == PAGE_SIZE,
            r.spec_page() == 1,
    {
        Self::with_page_size(row_count, PAGE_SIZE)
    }

    /// A pager over `row_count` rows, with pages of `page_size` rows, on the
    /// first page.
    pub fn with_page_size(row_count: i64, page_size: i64) -> (r: Self)
        requires
            0 <= row_count < i64::MAX,
            page_size >= 1,
        ensures
            r.wf(),
            r.spec_row_count() == row_count,
            r.spec_page_size() == page_size,
            r.spec_page() == 1,
    {
        assert(row_count / page_size >= 0) by (nonlinear_arith)
            requires
                row_count >= 0,
                page_size >= 1,
        ;
        Pager { row_count, page_size, page: 1 }
    }

    /// Follow a new row count, keeping the current page where it still
    /// exists and moving to the last page otherwise.
    pub fn set_row_count(&mut self, row_count: i64)
        requires
            old(self).wf(),
            0 <= row_count < i64::MAX,
        ensures
            final(self).wf(),
            final(self).spec_row_count() == row_count,
            final(self).spec_page_size() == old(self).spec_page_size(),
            final(self).spec_page() == clamp_page(old(self).spec_page(), final(self).spec_page_count()),
    {
        self.row_count = row_count;
        let count = self.get_page_count();
        if self.page > count {
            self.page = count;
        }
    }

    /// Get the current page being viewed, counting from 1.
    pub fn get_current_page(&self) -> (r: i64)
        ensures
            r == self.spec_page(),
    {
        self.page
    }

    /// Get the number of rows paged over.
    pub fn get_row_count(&self) -> (r: i64)
        ensures
            r == self.spec_row_count(),
    {
        self.row_count
    }

    /// Get the number of rows on a page.
    pub fn get_page_size(&self) -> (r: i64)
        ensures
            r == self.spec_page_size(),
    {
        self.page_size
    }

    /// Get the total number of pages: `row_count / page_size + 1`.
    pub fn get_page_count(&self) -> (r: i64)
        requires
            0 <= self.spec_row_count() < i64::MAX,
            self.spec_page_size() >= 1,
        ensures
            r == self.spec_page_count(),
    {
        assert(0 <= self.row_count / self.page_size <= self.row_count) by (nonlinear_arith)
            requires
                self.row_count >= 0,
                self.page_size >= 1,
        ;
        self.row_count / self.page_size + 1
    }

    /// Get the first row index displayed on the current page.
    pub fn get_first_row_offset(&self) -> (r: i64)
        requires
            self.wf(),
        ensures
            r == first_row_of(self.spec_page(), self.spec_page_size()),
            0 <= r <= self.spec_row_count(),
    {
        proof {
            self.lemma_first_row_bounds();
        }
        (self.page - 1) * self.page_size
    }

    /// Get the last row index displayed on the current page: the last row
    /// of the page, or the last row of all if that comes first.
    pub fn get_last_row_offset(&self) -> (r: i64)
        requires
            self.wf(),
        ensures
            r == last_row_of(self.spec_page(), self.spec_page_size(), self.spec_row_count()),
    {
        let first = self.get_first_row_offset();
        // Written so that no intermediate value leaves the range of an i64.
        if self.page_size - 1 < self.row_count - 1 - first {
            first + (self.page_size - 1)
        } else {
            self.row_count - 1
        }
    }

    proof fn lemma_first_row_bounds(&self)
        requires
            self.wf(),
        ensures
            0 <= first_row_of(self.spec_page(), self.spec_page_size()) <= self.spec_row_count(),
    {
        let p = self.page as int - 1;
        let s = self.page_size as int;
        let n = self.row_count as int;
        assert(0 <= p <= n / s);
        assert(0 <= p * s <= (n / s) * s) by (nonlinear_arith)
            requires
                0 <= p <= n / s,
                s >= 1,
        ;
        assert((n / s) * s <= n) by (nonlinear_arith)
            requires
                n >= 0,
                s >= 1,
        ;
    }

    /// Jump to `page`, clamped into `1..=page_count`. Returns whether the
    /// current page changed, that is whether the displayed range must be
    /// read again; asking for the current page again changes nothing.
    pub fn go_to_page(&mut self, page: i64) -> (changed: bool)
        requires
            old(self).wf(),
        ensures
            final(self).wf(),
            final(self).spec_row_count() == old(self).spec_row_count(),
            final(self).spec_page_size() == old(self).spec_page_size(),
            final(self).spec_page() == clamp_page(page as int, old(self).spec_page_count()),
            changed == (final(self).spec_page() != old(self).spec_page()),
    {
        let count = self.get_page_count();
        let target = if page > count {
            count
        } else if page < 1 {
            1
        } else {
            page
        };
        if self.page != target {
            self.page = target;
            true
        } else {
            false
        }
    }

    /// Go to the next page, if there is one.
    pub fn go_to_next_page(&mut self) -> (changed: bool)
        requires
            old(self).wf(),
        ensures
            final(self).wf(),
            final(self).spec_row_count() == old(self).spec_row_count(),
            final(self).spec_page_size() == old(self).spec_page_size(),
            final(self).spec_page() == clamp_page(old(self).spec_page() + 1, old(self).spec_page_count()),
            changed == (final(self).spec_page() != old(self).spec_page()),
    {
        if self.page < self.get_page_count() {
            self.go_to_page(self.page + 1)
        } else {
            false
        }
    }

    /// Go to the previous page, if there is one.
    pub fn go_to_previous_page(&mut self) -> (changed: bool)
        requires
            old(self).wf(),
        ensures
            final(self).wf(),
            final(self).spec_row_count() == old(self).spec_row_count(),
            final(self).spec_page_size() == old(self).spec_page_size(),
            final(self).spec_page() == clamp_page(old(self).spec_page() - 1, old(self).spec_page_count()),
            changed == (final(self).spec_page() != old(self).spec_page()),
    {
        self.go_to_page(self.page - 1)
    }
}

} // verus!
