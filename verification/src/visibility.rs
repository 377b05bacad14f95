//! The snapshot of what is on screen that a queued request is held against
//! just before it is decoded.

use crate::geometry::{Orientation, Rect};
use vstd::prelude::*;

verus! {

/// The place of one page in the document.
#[derive(Clone, Copy, Debug)]
pub struct PageBounds {
    pub index: usize,
    pub bounds: Rect,
}

/// The visible rectangle, preload margin included, and where each page lies.
#[derive(Debug)]
pub struct VisibleRegion {
    pub rect: Rect,
    pub orientation: Orientation,
    pub pages: Vec<PageBounds>,
}

impl Clone for VisibleRegion {
    fn clone(&self) -> (copy: VisibleRegion)
        ensures
            copy.rect == self.rect,
            copy.orientation == self.orientation,
            copy.pages@ == self.pages@,
    {
        let mut pages: Vec<PageBounds> = Vec::new();
        let mut i: usize = 0;
        while i < self.pages.len()
            invariant
                i <= self.pages.len(),
                pages@ == self.pages@.subrange(0, i as int),
            decreases self.pages.len() - i,
        {
            pages.push(self.pages[i]);
            assert(pages@ =~= self.pages@.subrange(0, i as int + 1));
            i += 1;
        }
        assert(self.pages@.subrange(0, self.pages@.len() as int) =~= self.pages@);
        VisibleRegion { rect: self.rect, orientation: self.orientation, pages }
    }
}

impl VisibleRegion {
    /// A region in which nothing is visible.
    pub fn new(orientation: Orientation) -> (region: VisibleRegion)
        ensures
            region.rect == (Rect { left: 0, top: 0, right: 0, bottom: 0 }),
            region.orientation == orientation,
            region.pages@.len() == 0,
    {
        VisibleRegion { rect: Rect::new(0, 0, 0, 0), orientation, pages: Vec::new() }
    }

    /// Whether some page with this index overlaps the visible rectangle along
    /// the scroll axis.
    pub open spec fn spec_is_page_visible(self, index: usize) -> bool {
        exists|i: int|
            0 <= i < self.pages@.len() && (#[trigger] self.pages@[i]).index == index
                && self.pages@[i].bounds.spec_overlaps(self.rect, self.orientation)
    }

    /// Whether the page with this index is on screen or within the preload
    /// margin. A page that the region does not know is not visible.
    pub fn is_page_visible(&self, index: usize) -> (visible: bool)
        ensures
            visible == self.spec_is_page_visible(index),
    {
        let mut i: usize = 0;
        while i < self.pages.len()
            invariant
                i <= self.pages.len(),
                forall|j: int|
                    0 <= j < i ==> !((#[trigger] self.pages@[j]).index == index
                        && self.pages@[j].bounds.spec_overlaps(self.rect, self.orientation)),
            decreases self.pages.len() - i,
        {
            if self.pages[i].index == index && self.pages[i].bounds.overlaps(
                &self.rect,
                self.orientation,
            ) {
                return true;
            }
            i += 1;
        }
        false
    }
}

} // verus!
