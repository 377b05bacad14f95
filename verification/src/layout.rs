//! How pages are scaled to the viewport and stacked along the scroll axis.

use crate::geometry::{clamp_extent, Orientation, Rect, Scale, COORD_MAX, ZOOM_ONE};
use crate::page::Page;
use crate::page_info::PageInfo;
use vstd::prelude::*;

verus! {

/// The extent that every page gets across the scroll axis: the viewport's
/// extent times the zoom factor.
pub open spec fn target_extent(view: u32, zoom: u32) -> int {
    (view as int * zoom as int) / (ZOOM_ONE as int)
}

/// The extent along the scroll axis of a page with the native extents `along`
/// and `across`, once it is scaled so that `across` becomes `target`:
/// `along * target / across`, rounded down and held below `COORD_MAX`. A
/// page without a native size has no extent.
pub open spec fn scaled_extent(along: int, across: int, target: int) -> int {
    if along <= 0 || across <= 0 {
        0
    } else {
        clamp_extent((along * target) / across)
    }
}

/// The native extent of a page across the scroll axis.
pub open spec fn native_across(info: PageInfo, crop: bool, axis: Orientation) -> int {
    match axis {
        Orientation::Vertical => info.spec_width(crop),
        Orientation::Horizontal => info.spec_height(crop),
    }
}

/// The native extent of a page along the scroll axis.
pub open spec fn native_along(info: PageInfo, crop: bool, axis: Orientation) -> int {
    match axis {
        Orientation::Vertical => info.spec_height(crop),
        Orientation::Horizontal => info.spec_width(crop),
    }
}

/// The rendered extent of a page along the scroll axis.
pub open spec fn page_extent(info: PageInfo, crop: bool, axis: Orientation, target: int) -> int {
    scaled_extent(native_along(info, crop, axis), native_across(info, crop, axis), target)
}

/// The scale at which a page is rendered: `target / across`; a page without
/// a native extent across the axis gets the denominator zero.
pub open spec fn page_scale(info: PageInfo, crop: bool, axis: Orientation, target: int) -> Scale {
    let across = native_across(info, crop, axis);
    Scale {
        num: target as u64,
        den: if across > 0 {
            across as u64
        } else {
            0
        },
    }
}

/// The sum of the rendered extents of the first `n` pages.
pub open spec fn extent_sum(
    pages: Seq<Page>,
    n: int,
    crop: bool,
    axis: Orientation,
    target: int,
) -> int
    decreases n,
{
    if n <= 0 {
        0
    } else {
        extent_sum(pages, n - 1, crop, axis, target) + page_extent(
            pages[n - 1].info,
            crop,
            axis,
            target,
        )
    }
}

/// Where page `n` begins: the first page begins at zero, and every page
/// begins where its predecessor ends, but never beyond `COORD_MAX`.
pub open spec fn stacked_lead(
    pages: Seq<Page>,
    n: int,
    crop: bool,
    axis: Orientation,
    target: int,
) -> int
    decreases n,
{
    if n <= 0 {
        0
    } else {
        clamp_extent(
            stacked_lead(pages, n - 1, crop, axis, target) + page_extent(
                pages[n - 1].info,
                crop,
                axis,
                target,
            ),
        )
    }
}

/// The bounds of page `i` in the document.
pub open spec fn stacked_bounds(
    pages: Seq<Page>,
    i: int,
    crop: bool,
    axis: Orientation,
    target: int,
) -> Rect {
    let lead = stacked_lead(pages, i, crop, axis, target) as i64;
    let trail = stacked_lead(pages, i + 1, crop, axis, target) as i64;
    match axis {
        Orientation::Vertical => Rect { left: 0, top: lead, right: target as i64, bottom: trail },
        Orientation::Horizontal => Rect { left: lead, top: 0, right: trail, bottom: target as i64 },
    }
}

/// Whether `page` is page `i` of `pages` as the layout leaves it.
pub open spec fn is_placed(
    page: Page,
    pages: Seq<Page>,
    i: int,
    crop: bool,
    axis: Orientation,
    target: int,
) -> bool {
    let extent = page_extent(page.info, crop, axis, target);
    &&& page.bounds == stacked_bounds(pages, i, crop, axis, target)
    &&& page.info.scale == page_scale(page.info, crop, axis, target)
    &&& match axis {
        Orientation::Vertical => page.width == target && page.height == extent,
        Orientation::Horizontal => page.width == extent && page.height == target,
    }
}

/// Whether every page of `pages` is where the layout puts it.
pub open spec fn is_laid_out(pages: Seq<Page>, crop: bool, axis: Orientation, target: int) -> bool {
    forall|i: int|
        0 <= i < pages.len() ==> is_placed(#[trigger] pages[i], pages, i, crop, axis, target)
}

/// Whether `after` is `before` with nothing changed but the place, the
/// rendered size and the scale of each page.
pub open spec fn same_documents(before: Seq<Page>, after: Seq<Page>) -> bool {
    &&& after.len() == before.len()
    &&& forall|i: int|
        0 <= i < before.len() ==> {
            &&& (#[trigger] after[i]).info.index == before[i].info.index
            &&& after[i].info.width == before[i].info.width
            &&& after[i].info.height == before[i].info.height
            &&& after[i].info.crop_bounds == before[i].info.crop_bounds
            &&& after[i].nodes == before[i].nodes
            &&& after[i].links == before[i].links
        }
}

/// The viewport times the zoom stays far below the largest coordinate.
pub proof fn lemma_target_bounds(view: u32, zoom: u32)
    ensures
        0 <= view as int * zoom as int <= 0xFFFF_FFFF * 0xFFFF_FFFF,
        0 <= target_extent(view, zoom) <= 0xFFFF_FFFF * 0xFFFF_FFFF,
        target_extent(view, zoom) <= COORD_MAX,
{
    assert(0 <= view as int * zoom as int <= 0xFFFF_FFFF * 0xFFFF_FFFF) by (nonlinear_arith)
        requires
            0 <= view as int <= 0xFFFF_FFFF,
            0 <= zoom as int <= 0xFFFF_FFFF,
    ;
}

/// The extent that every page gets across the scroll axis.
pub fn compute_target(view: u32, zoom: u32) -> (target: i64)
    ensures
        target as int == target_extent(view, zoom),
        0 <= target <= COORD_MAX,
{
    proof {
        lemma_target_bounds(view, zoom);
    }
    (((view as u64) * (zoom as u64)) / (ZOOM_ONE as u64)) as i64
}

/// The extent of a page along the scroll axis.
pub fn compute_extent(along: i64, across: i64, target: i64) -> (extent: i64)
    ensures
        extent as int == scaled_extent(along as int, across as int, target as int),
        0 <= extent <= COORD_MAX,
{
    if along <= 0 || across <= 0 {
        return 0;
    }
    if target <= 0 {
        proof {
            assert(along as int * target as int <= 0) by (nonlinear_arith)
                requires
                    along as int > 0,
                    target as int <= 0,
            ;
            assert((along as int * target as int) / (across as int) <= 0) by (nonlinear_arith)
                requires
                    along as int * target as int <= 0,
                    across as int > 0,
            ;
        }
        return 0;
    }
    proof {
        assert(0 <= along as int * target as int <= 0x7FFF_FFFF_FFFF_FFFF * 0x7FFF_FFFF_FFFF_FFFF)
            by (nonlinear_arith)
            requires
                0 <= along as int <= 0x7FFF_FFFF_FFFF_FFFF,
                0 <= target as int <= 0x7FFF_FFFF_FFFF_FFFF,
        ;
    }
    let product: u128 = (along as u128) * (target as u128);
    let quotient: u128 = product / (across as u128);
    if quotient > COORD_MAX as u128 {
        COORD_MAX
    } else {
        quotient as i64
    }
}

/// Page `n + 1` begins at or after page `n`, and all of them inside the
/// coordinate range.
pub proof fn lemma_stacked_lead_grows(
    pages: Seq<Page>,
    n: int,
    crop: bool,
    axis: Orientation,
    target: int,
)
    requires
        0 <= n,
    ensures
        0 <= stacked_lead(pages, n, crop, axis, target) <= stacked_lead(
            pages,
            n + 1,
            crop,
            axis,
            target,
        ) <= COORD_MAX,
    decreases n,
{
    if n > 0 {
        lemma_stacked_lead_grows(pages, n - 1, crop, axis, target);
    }
}

/// A page that has an extent ends strictly after it begins, unless it begins
/// at the end of the coordinate range: pages with an extent do not overlap.
pub proof fn law_page_with_extent_is_not_empty(
    pages: Seq<Page>,
    n: int,
    crop: bool,
    axis: Orientation,
    target: int,
)
    requires
        0 <= n < pages.len(),
        page_extent(pages[n].info, crop, axis, target) > 0,
        stacked_lead(pages, n, crop, axis, target) < COORD_MAX,
    ensures
        stacked_lead(pages, n, crop, axis, target) < stacked_lead(pages, n + 1, crop, axis, target),
{
    if n > 0 {
        lemma_stacked_lead_grows(pages, n - 1, crop, axis, target);
    }
}

/// A page begins no later than any page that follows it.
pub proof fn lemma_stacked_lead_ordered(
    pages: Seq<Page>,
    i: int,
    j: int,
    crop: bool,
    axis: Orientation,
    target: int,
)
    requires
        0 <= i <= j,
    ensures
        0 <= stacked_lead(pages, i, crop, axis, target) <= stacked_lead(
            pages,
            j,
            crop,
            axis,
            target,
        ) <= COORD_MAX,
    decreases j - i,
{
    if i < j {
        lemma_stacked_lead_ordered(pages, i, j - 1, crop, axis, target);
        lemma_stacked_lead_grows(pages, j - 1, crop, axis, target);
    } else if i > 0 {
        lemma_stacked_lead_grows(pages, i - 1, crop, axis, target);
    }
}

/// The place where the pages end is the sum of their rendered extents, held
/// below `COORD_MAX`.
pub proof fn law_stack_is_sum_of_extents(
    pages: Seq<Page>,
    n: int,
    crop: bool,
    axis: Orientation,
    target: int,
)
    requires
        0 <= n,
    ensures
        0 <= extent_sum(pages, n, crop, axis, target),
        stacked_lead(pages, n, crop, axis, target) == clamp_extent(
            extent_sum(pages, n, crop, axis, target),
        ),
    decreases n,
{
    if n > 0 {
        law_stack_is_sum_of_extents(pages, n - 1, crop, axis, target);
    }
}

/// Where a page begins depends only on the native sizes of the pages
/// before it.
pub proof fn lemma_stacked_lead_same(
    a: Seq<Page>,
    b: Seq<Page>,
    n: int,
    crop: bool,
    axis: Orientation,
    target: int,
)
    requires
        0 <= n <= a.len(),
        n <= b.len(),
        forall|k: int|
            0 <= k < n ==> {
                &&& (#[trigger] a[k]).info.width == b[k].info.width
                &&& a[k].info.height == b[k].info.height
                &&& a[k].info.crop_bounds == b[k].info.crop_bounds
            },
    ensures
        stacked_lead(a, n, crop, axis, target) == stacked_lead(b, n, crop, axis, target),
    decreases n,
{
    if n > 0 {
        lemma_stacked_lead_same(a, b, n - 1, crop, axis, target);
        assert(a[n - 1].info.width == b[n - 1].info.width);
    }
}

/// Scales every page so that it spans `target` across the scroll axis and
/// stacks the pages along the axis. Gives back where the last page ends.
pub fn stack_pages(pages: &mut Vec<Page>, crop: bool, axis: Orientation, target: i64) -> (end: i64)
    requires
        0 <= target <= COORD_MAX,
    ensures
        same_documents(old(pages)@, final(pages)@),
        is_laid_out(final(pages)@, crop, axis, target as int),
        end as int == stacked_lead(
            final(pages)@,
            final(pages)@.len() as int,
            crop,
            axis,
            target as int,
        ),
        0 <= end <= COORD_MAX,
{
    let mut cursor: i64 = 0;
    let mut i: usize = 0;
    while i < pages.len()
        invariant
            i <= pages.len(),
            0 <= target <= COORD_MAX,
            0 <= cursor <= COORD_MAX,
            same_documents(old(pages)@, pages@),
            cursor as int == stacked_lead(pages@, i as int, crop, axis, target as int),
            forall|k: int|
                0 <= k < i ==> crate::layout::is_placed(
                    #[trigger] pages@[k],
                    pages@,
                    k,
                    crop,
                    axis,
                    target as int,
                ),
        decreases pages.len() - i,
    {
        let ghost before = pages@;
        let info = pages[i].info;
        let (across, along) = match axis {
            Orientation::Vertical => (info.get_width(crop), info.get_height(crop)),
            Orientation::Horizontal => (info.get_height(crop), info.get_width(crop)),
        };
        let extent = compute_extent(along, across, target);
        let next = if cursor + extent > COORD_MAX {
            COORD_MAX
        } else {
            cursor + extent
        };
        let scale = Scale::new(
            target as u64,
            if across > 0 {
                across as u64
            } else {
                0
            },
        );
        let page = &mut pages[i];
        match axis {
            Orientation::Vertical => {
                page.update(target, extent, Rect::new(0, cursor, target, next));
            },
            Orientation::Horizontal => {
                page.update(extent, target, Rect::new(cursor, 0, next, target));
            },
        }
        page.info.scale = scale;
        proof {
            let after = pages@;
            assert(after.len() == before.len());
            assert forall|k: int| 0 <= k < after.len() && k != i implies after[k] == before[k] by {}
            assert(after[i as int].info.width == before[i as int].info.width);
            assert forall|k: int| 0 <= k < i + 1 implies crate::layout::is_placed(
                #[trigger] after[k],
                after,
                k,
                crop,
                axis,
                target as int,
            ) by {
                lemma_stacked_lead_same(after, before, k, crop, axis, target as int);
                if k < i {
                    lemma_stacked_lead_same(after, before, k + 1, crop, axis, target as int);
                    assert(crate::layout::is_placed(before[k], before, k, crop, axis, target as int));
                    assert(after[k] == before[k]);
                } else {
                    lemma_stacked_lead_same(after, before, i as int, crop, axis, target as int);
                    assert(stacked_lead(after, i as int + 1, crop, axis, target as int)
                        == next as int);
                }
            }
            lemma_stacked_lead_same(after, before, i as int, crop, axis, target as int);
            assert(stacked_lead(after, i as int + 1, crop, axis, target as int) == next as int);
        }
        cursor = next;
        i += 1;
    }
    cursor
}

} // verus!
