//! The reading history, shown one page of records at a time.

use vstd::prelude::*;

verus! {

/// How many records one page of the history shows.
pub const PAGE_SIZE: usize = 16;

/// The number of pages that `total` records fill.
pub open spec fn spec_total_pages(total: int) -> int {
    (total + PAGE_SIZE as int - 1) / (PAGE_SIZE as int)
}

/// Where page `page` begins among `total` records.
pub open spec fn page_start(page: int, total: int) -> int {
    if page * (PAGE_SIZE as int) < total {
        page * (PAGE_SIZE as int)
    } else {
        total
    }
}

/// Where page `page` ends among `total` records.
pub open spec fn page_end(page: int, total: int) -> int {
    if page_start(page, total) + (PAGE_SIZE as int) < total {
        page_start(page, total) + (PAGE_SIZE as int)
    } else {
        total
    }
}

/// One page of the reading history, and the count of all records.
pub struct MainViewmodel<R> {
    page_index: usize,
    total_records: usize,
    current_page_records: Vec<R>,
}

impl<R> MainViewmodel<R> {
    /// The number of the page that is shown, counted from zero.
    pub closed spec fn page(&self) -> usize {
        self.page_index
    }

    pub closed spec fn total(&self) -> nat {
        self.total_records as nat
    }

    pub closed spec fn records(&self) -> Seq<R> {
        self.current_page_records@
    }

    pub fn new() -> (model: Self)
        ensures
            model.page() == 0,
            model.total() == 0,
            model.records().len() == 0,
    {
        MainViewmodel { page_index: 0, total_records: 0, current_page_records: Vec::new() }
    }

    /// Takes all records, newest first, and keeps those of page `page`. A
    /// page beyond the last one is empty.
    pub fn load_history(&mut self, all_recent: Vec<R>, page: usize)
        ensures
            final(self).page() == page,
            final(self).total() == all_recent@.len(),
            final(self).records() == all_recent@.subrange(
                page_start(page as int, all_recent@.len() as int),
                page_end(page as int, all_recent@.len() as int),
            ),
    {
        let mut all_recent = all_recent;
        let total = all_recent.len();
        self.total_records = total;
        self.page_index = page;
        let start: usize = if page <= total / PAGE_SIZE && page * PAGE_SIZE < total {
            page * PAGE_SIZE
        } else {
            total
        };
        assert(start as int == page_start(page as int, total as int)) by {
            assert(page as int * 16 >= total ==> !(page <= total / 16 && page * 16 < total));
            if page <= total / 16 {
            } else {
                assert(page as int * 16 >= total);
            }
        }
        let end: usize = if total - start > PAGE_SIZE {
            start + PAGE_SIZE
        } else {
            total
        };
        all_recent.truncate(end);
        let ghost cut = all_recent@;
        self.current_page_records = all_recent.split_off(start);
        assert(self.current_page_records@ =~= cut.subrange(start as int, end as int));
    }

    pub fn page_index(&self) -> (page: usize)
        ensures
            page == self.page(),
    {
        self.page_index
    }

    pub fn get_current_records(&self) -> (records: &Vec<R>)
        ensures
            records@ == self.records(),
    {
        &self.current_page_records
    }

    pub fn get_total_pages(&self) -> (pages: usize)
        ensures
            pages as int == spec_total_pages(self.total() as int),
    {
        self.total_records / PAGE_SIZE + if self.total_records % PAGE_SIZE == 0 {
            0
        } else {
            1
        }
    }

    pub fn get_total_records(&self) -> (total: usize)
        ensures
            total == self.total(),
    {
        self.total_records
    }

    /// Whether a page follows the current one.
    pub fn has_next_page(&self) -> (more: bool)
        ensures
            more == (self.page() + 1 < spec_total_pages(self.total() as int)),
    {
        let pages = self.get_total_pages();
        pages > 0 && self.page_index < pages - 1
    }

    /// Shows the page after the current one, if there is one, out of all
    /// records as they are now.
    pub fn next_page(&mut self, all_recent: Vec<R>)
        ensures
            old(self).page() + 1 < spec_total_pages(old(self).total() as int) ==> {
                &&& final(self).page() == old(self).page() + 1
                &&& final(self).total() == all_recent@.len()
                &&& final(self).records() == all_recent@.subrange(
                    page_start(old(self).page() + 1, all_recent@.len() as int),
                    page_end(old(self).page() + 1, all_recent@.len() as int),
                )
            },
            !(old(self).page() + 1 < spec_total_pages(old(self).total() as int)) ==> *final(self)
                == *old(self),
    {
        if self.has_next_page() {
            self.load_history(all_recent, self.page_index + 1);
        }
    }

    /// Shows the page before the current one, if there is one, out of all
    /// records as they are now.
    pub fn prev_page(&mut self, all_recent: Vec<R>)
        ensures
            old(self).page() > 0 ==> {
                &&& final(self).page() == old(self).page() - 1
                &&& final(self).total() == all_recent@.len()
                &&& final(self).records() == all_recent@.subrange(
                    page_start(old(self).page() - 1, all_recent@.len() as int),
                    page_end(old(self).page() - 1, all_recent@.len() as int),
                )
            },
            old(self).page() == 0 ==> *final(self) == *old(self),
    {
        if self.has_prev_page() {
            self.load_history(all_recent, self.page_index - 1);
        }
    }

    /// Whether a page comes before the current one.
    pub fn has_prev_page(&self) -> (more: bool)
        ensures
            more == (self.page() > 0),
    {
        self.page_index > 0
    }
}

} // verus!
