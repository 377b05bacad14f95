//! The view state: the pages of the open document, where the viewport stands
//! over them, which of them are visible, and what has to be rendered.

use crate::cache::{CacheModel, PageCache};
use crate::decode_service::{DecodeResult, Priority, RenderPage};
use crate::decoder::DecodeError;
use crate::entity::OutlineItem;
use crate::geometry::{saturate, Rect, Scale, COORD_MAX, ZOOM_ONE};
use crate::layout::{
    compute_target, is_laid_out, lemma_stacked_lead_grows, lemma_stacked_lead_ordered,
    same_documents, stacked_lead, target_extent,
};
use crate::link::Link;
use crate::page::Page;
use crate::page_info::PageInfo;
use crate::keys::{generate_thumbnail_key, render_key};
use crate::visibility::{PageBounds, VisibleRegion};
use std::collections::HashMap;
use vstd::prelude::*;
use vstd::string::*;

pub use crate::geometry::Orientation;

verus! {

/// The state of a view, as contracts see it.
pub struct ViewModel {
    pub pages: Seq<Page>,
    pub orientation: Orientation,
    /// Where the document's origin stands relative to the viewport's: minus
    /// the scroll position.
    pub view_offset: (i64, i64),
    /// Zoom factor in thousandths.
    pub zoom: u32,
    /// Pages are laid out by their crop rectangles when this is one.
    pub crop: i32,
    pub total_width: i64,
    pub total_height: i64,
    pub view_size: (u32, u32),
    /// How many viewport extents beyond the viewport count as visible.
    pub preload_screens: u32,
    pub visible_pages: Seq<usize>,
    pub images: CacheModel,
    pub thumbnails: CacheModel,
    pub page_links: Map<usize, Vec<Link>>,
    pub outline_items: Seq<OutlineItem>,
}

impl ViewModel {
    /// Where page `i` begins along the scroll axis.
    pub open spec fn lead(self, i: int) -> int {
        self.pages[i].bounds.spec_lead(self.orientation)
    }

    /// Where page `i` ends along the scroll axis.
    pub open spec fn trail(self, i: int) -> int {
        self.pages[i].bounds.spec_trail(self.orientation)
    }

    /// Pages lie inside the coordinate range and in the order of their
    /// indices: none begins or ends before its predecessor does.
    pub open spec fn pages_ordered(self) -> bool {
        &&& forall|i: int|
            0 <= i < self.pages.len() ==> 0 <= #[trigger] self.lead(i) <= self.trail(i)
                <= COORD_MAX
        &&& forall|i: int, j: int|
            0 <= i <= j < self.pages.len() ==> #[trigger] self.lead(i) <= #[trigger] self.lead(j)
        &&& forall|i: int, j: int|
            0 <= i <= j < self.pages.len() ==> #[trigger] self.trail(i) <= #[trigger] self.trail(
                j,
            )
    }

    /// The visible pages are a run of consecutive indices of pages.
    pub open spec fn visible_is_range(self) -> bool {
        &&& forall|k: int|
            0 <= k < self.visible_pages.len() ==> (#[trigger] self.visible_pages[k]) as int
                == self.visible_pages[0] as int + k
        &&& forall|k: int|
            0 <= k < self.visible_pages.len() ==> (#[trigger] self.visible_pages[k])
                < self.pages.len()
    }

    /// What holds of every view state.
    pub open spec fn wf(self) -> bool {
        &&& self.pages_ordered()
        &&& self.visible_is_range()
        &&& self.images.wf()
        &&& self.thumbnails.wf()
    }

    /// Whether pages are laid out by their crop rectangles.
    pub open spec fn uses_crop(self) -> bool {
        self.crop == 1
    }

    /// The viewport's extent along the scroll axis.
    pub open spec fn window_extent(self) -> int {
        match self.orientation {
            Orientation::Vertical => self.view_size.1 as int,
            Orientation::Horizontal => self.view_size.0 as int,
        }
    }

    /// The viewport's extent across the scroll axis.
    pub open spec fn window_breadth(self) -> int {
        match self.orientation {
            Orientation::Vertical => self.view_size.0 as int,
            Orientation::Horizontal => self.view_size.1 as int,
        }
    }

    /// Where the visible stretch of the document begins.
    pub open spec fn window_lead(self) -> int {
        match self.orientation {
            Orientation::Vertical => -(self.view_offset.1 as int),
            Orientation::Horizontal => -(self.view_offset.0 as int),
        }
    }

    /// Where the visible stretch ends: after the viewport and the preload
    /// margin.
    pub open spec fn window_trail(self) -> int {
        self.window_lead() + self.window_extent() + self.window_extent()
            * self.preload_screens as int
    }

    /// Whether page `i` overlaps the visible stretch.
    pub open spec fn page_is_visible(self, i: int) -> bool {
        self.trail(i) > self.window_lead() && self.lead(i) < self.window_trail()
    }

    /// The extent that the layout gives every page across the scroll axis.
    pub open spec fn target(self) -> int {
        match self.orientation {
            Orientation::Vertical => target_extent(self.view_size.0, self.zoom),
            Orientation::Horizontal => target_extent(self.view_size.1, self.zoom),
        }
    }
}

/// The rectangle of the document that counts as visible: the viewport,
/// lengthened along the scroll axis by the preload margin, with every edge
/// saturated to `i64`.
pub open spec fn spec_visible_rect(model: ViewModel) -> Rect {
    let x = -(model.view_offset.0 as int);
    let y = -(model.view_offset.1 as int);
    let preload = model.window_extent() * model.preload_screens as int;
    match model.orientation {
        Orientation::Vertical => Rect {
            left: crate::geometry::clamp_i64(x) as i64,
            top: crate::geometry::clamp_i64(y) as i64,
            right: crate::geometry::clamp_i64(x + model.view_size.0 as int) as i64,
            bottom: crate::geometry::clamp_i64(y + model.view_size.1 as int + preload) as i64,
        },
        Orientation::Horizontal => Rect {
            left: crate::geometry::clamp_i64(x) as i64,
            top: crate::geometry::clamp_i64(y) as i64,
            right: crate::geometry::clamp_i64(x + model.view_size.0 as int + preload) as i64,
            bottom: crate::geometry::clamp_i64(y + model.view_size.1 as int) as i64,
        },
    }
}

/// Whether `region` is the snapshot of `model`: the visible rectangle, and
/// for every page its index and its bounds.
pub open spec fn is_region_of(region: VisibleRegion, model: ViewModel) -> bool {
    &&& region.rect == spec_visible_rect(model)
    &&& region.orientation == model.orientation
    &&& region.pages@.len() == model.pages.len()
    &&& forall|i: int|
        0 <= i < model.pages.len() ==> (#[trigger] region.pages@[i]).index
            == model.pages[i].info.index && region.pages@[i].bounds == model.pages[i].bounds
}

/// A page that the view counts as visible is visible in the view's snapshot
/// too. Where every page carries its position as its index, a page that the
/// view does not count as visible is not visible in the snapshot either.
pub proof fn law_snapshot_agrees_with_view(model: ViewModel, region: VisibleRegion, i: int)
    requires
        model.pages_ordered(),
        is_region_of(region, model),
        0 <= i < model.pages.len(),
    ensures
        model.page_is_visible(i) ==> region.spec_is_page_visible(model.pages[i].info.index),
        (forall|j: int| 0 <= j < model.pages.len() ==> (#[trigger] model.pages[j]).info.index == j)
            ==> (region.spec_is_page_visible(model.pages[i].info.index)
            ==> model.page_is_visible(i)),
{
    lemma_visible_rect_agrees(model, i);
    if model.page_is_visible(i) {
        assert(region.pages@[i].index == model.pages[i].info.index);
        assert(region.pages@[i].bounds.spec_overlaps(region.rect, region.orientation));
    }
    if (forall|j: int| 0 <= j < model.pages.len() ==> (#[trigger] model.pages[j]).info.index == j)
        && region.spec_is_page_visible(model.pages[i].info.index) {
        let k = choose|k: int|
            0 <= k < region.pages@.len() && (#[trigger] region.pages@[k]).index
                == model.pages[i].info.index && region.pages@[k].bounds.spec_overlaps(
                region.rect,
                region.orientation,
            );
        assert(region.pages@[k].index == model.pages[k].info.index);
        assert(model.pages[k].info.index == k);
        assert(model.pages[i].info.index == i);
        assert(k == i);
    }
}

/// The state after a jump to page `i`: the offset along the scroll axis is
/// such that the page begins where the viewport does.
pub open spec fn jumped(model: ViewModel, i: int) -> ViewModel {
    let edge = crate::geometry::clamp_i64(-model.lead(i)) as i64;
    ViewModel {
        view_offset: match model.orientation {
            Orientation::Vertical => (model.view_offset.0, edge),
            Orientation::Horizontal => (edge, model.view_offset.1),
        },
        ..model
    }
}

/// A page that has an extent is visible right after a jump to it, provided
/// the viewport has an extent too.
pub proof fn law_jump_target_is_visible(model: ViewModel, i: int)
    requires
        model.wf(),
        0 <= i < model.pages.len(),
        model.lead(i) < model.trail(i),
        model.window_extent() > 0,
    ensures
        jumped(model, i).page_is_visible(i),
        jumped(model, i).wf(),
{
    let after = jumped(model, i);
    lemma_wf_carries_over(model, after);
    assert(0 <= model.lead(i) <= model.trail(i) <= COORD_MAX);
    assert(after.lead(i) == model.lead(i));
    assert(after.trail(i) == model.trail(i));
    assert(after.window_lead() == model.lead(i));
    assert(after.window_extent() * after.preload_screens as int >= 0) by (nonlinear_arith)
        requires
            after.window_extent() > 0,
            after.preload_screens as int >= 0,
    ;
}

/// Seen from a page inside the coordinate range, the visible rectangle with
/// its saturated edges overlaps what the unsaturated visible stretch does.
pub proof fn lemma_visible_rect_agrees(model: ViewModel, i: int)
    requires
        model.pages_ordered(),
        0 <= i < model.pages.len(),
    ensures
        model.page_is_visible(i) == model.pages[i].bounds.spec_overlaps(
            spec_visible_rect(model),
            model.orientation,
        ),
        (model.trail(i) > model.window_lead()) == (model.trail(i) > spec_visible_rect(
            model,
        ).spec_lead(model.orientation)),
        (model.lead(i) < model.window_trail()) == (model.lead(i) < spec_visible_rect(
            model,
        ).spec_trail(model.orientation)),
{
    assert(0 <= model.lead(i) <= model.trail(i) <= COORD_MAX);
}

/// Whether a page can be rendered: it has an extent both ways.
pub open spec fn has_size(page: Page) -> bool {
    page.width > 0 && page.height > 0
}

/// The thumbnail cache after the pages of `order` were looked up in it, one
/// after the other; pages without a size are not looked up.
pub open spec fn lookups(cache: CacheModel, pages: Seq<Page>, order: Seq<usize>) -> CacheModel
    decreases order.len(),
{
    if order.len() == 0 {
        cache
    } else {
        let before = lookups(cache, pages, order.drop_last());
        let page = pages[order.last() as int];
        if has_size(page) {
            before.touch(render_key(page.info))
        } else {
            before
        }
    }
}

/// The pages of `order` that have a size and whose render key is not in the
/// cache, in the order in which they stand in `order`.
pub open spec fn missing(cache: CacheModel, pages: Seq<Page>, order: Seq<usize>) -> Seq<usize>
    decreases order.len(),
{
    if order.len() == 0 {
        Seq::empty()
    } else {
        let before = missing(cache, pages, order.drop_last());
        let page = pages[order.last() as int];
        if has_size(page) && !cache.contains(render_key(page.info)) {
            before.push(order.last())
        } else {
            before
        }
    }
}

/// Whether `request` is the request that the view makes for `page`.
pub open spec fn is_request_for(request: RenderPage, page: Page, crop: i32) -> bool {
    &&& request.key@ == render_key(page.info)
    &&& request.page_info == page.info
    &&& request.crop == crop
    &&& request.priority == Priority::Thumbnail
    &&& request.check_visible_region
}

/// Whether `after` and `batch` are what a recomputation of the visible range
/// makes of `before`: the visible pages are exactly the pages that overlap
/// the visible stretch, in ascending order; each of them that has a size was
/// looked up in the thumbnail cache; and the batch holds one request for
/// each of them that was not found there.
pub open spec fn is_visibility_update(
    before: ViewModel,
    after: ViewModel,
    batch: Seq<RenderPage>,
) -> bool {
    let wanted = missing(before.thumbnails, before.pages, after.visible_pages);
    &&& after == (ViewModel {
        visible_pages: after.visible_pages,
        thumbnails: after.thumbnails,
        ..before
    })
    &&& after.visible_is_range()
    &&& forall|i: int|
        0 <= i < before.pages.len() ==> (#[trigger] before.page_is_visible(i)
            <==> after.visible_pages.contains(i as usize))
    &&& after.thumbnails == lookups(before.thumbnails, before.pages, after.visible_pages)
    &&& batch.len() == wanted.len()
    &&& forall|k: int|
        0 <= k < batch.len() ==> is_request_for(
            #[trigger] batch[k],
            before.pages[wanted[k] as int],
            before.crop,
        )
}

/// Lookups in an empty cache leave it empty.
pub proof fn lemma_lookups_in_empty_cache(cache: CacheModel, pages: Seq<Page>, order: Seq<usize>)
    requires
        cache.entries.len() == 0,
    ensures
        lookups(cache, pages, order) == cache,
    decreases order.len(),
{
    if order.len() > 0 {
        lemma_lookups_in_empty_cache(cache, pages, order.drop_last());
    }
}

/// Lookups change neither which keys are in the cache nor that the cache is
/// well-formed.
pub proof fn lemma_lookups_keep_keys(
    cache: CacheModel,
    pages: Seq<Page>,
    order: Seq<usize>,
    key: Seq<char>,
)
    ensures
        lookups(cache, pages, order).contains(key) == cache.contains(key),
        cache.wf() ==> lookups(cache, pages, order).wf(),
    decreases order.len(),
{
    if order.len() > 0 {
        lemma_lookups_keep_keys(cache, pages, order.drop_last(), key);
        let before = lookups(cache, pages, order.drop_last());
        let page = pages[order.last() as int];
        crate::cache::lemma_touch_keeps_keys(before, render_key(page.info), key);
    }
}

/// A visible page as it is to be drawn: where it stands, how large it is,
/// and its image if that has arrived.
pub struct PageFrame {
    pub page_index: usize,
    pub bounds: Rect,
    pub width: i64,
    pub height: i64,
    pub image: Option<std::sync::Arc<image::DynamicImage>>,
}

/// The thumbnail cache after the thumbnail of every page of `order` was
/// looked up in it, one after the other.
pub open spec fn drawn(cache: CacheModel, pages: Seq<Page>, order: Seq<usize>) -> CacheModel
    decreases order.len(),
{
    if order.len() == 0 {
        cache
    } else {
        drawn(cache, pages, order.drop_last()).touch(render_key(pages[order.last() as int].info))
    }
}

/// Whether `frame` shows `page` with the image that `cache` holds for it.
pub open spec fn is_frame_of(frame: PageFrame, page: Page, cache: CacheModel) -> bool {
    &&& frame.page_index == page.info.index
    &&& frame.bounds == page.bounds
    &&& frame.width == page.width
    &&& frame.height == page.height
    &&& frame.image == cache.lookup(render_key(page.info))
}

/// Looking thumbnails up changes neither which image stands under a key nor
/// that the cache is well-formed.
pub proof fn lemma_drawn_keeps_images(
    cache: CacheModel,
    pages: Seq<Page>,
    order: Seq<usize>,
    key: Seq<char>,
)
    ensures
        drawn(cache, pages, order).lookup(key) == cache.lookup(key),
        cache.wf() ==> drawn(cache, pages, order).wf(),
    decreases order.len(),
{
    if order.len() > 0 {
        lemma_drawn_keeps_images(cache, pages, order.drop_last(), key);
        let before = drawn(cache, pages, order.drop_last());
        let touched = render_key(pages[order.last() as int].info);
        crate::cache::lemma_touch_keeps_images(before, touched, key);
        crate::cache::lemma_touch_keeps_keys(before, touched, key);
    }
}

/// Whether a click at `(x, y)` falls on `link` once the link's bounds are
/// scaled by `scale`, edges included.
pub open spec fn link_is_hit(link: Link, scale: Scale, x: int, y: int) -> bool {
    &&& scale.spec_scaled_le(link.bounds.left as int, x)
    &&& scale.spec_scaled_ge(link.bounds.right as int, x)
    &&& scale.spec_scaled_le(link.bounds.top as int, y)
    &&& scale.spec_scaled_ge(link.bounds.bottom as int, y)
}

/// The index of the first link that a click falls on, if it falls on any.
pub open spec fn first_hit(links: Seq<Link>, scale: Scale, x: int, y: int) -> Option<int>
    decreases links.len(),
{
    if links.len() == 0 {
        None
    } else if first_hit(links.drop_last(), scale, x, y) is Some {
        first_hit(links.drop_last(), scale, x, y)
    } else if link_is_hit(links.last(), scale, x, y) {
        Some(links.len() - 1)
    } else {
        None
    }
}

/// What `first_hit` finds, said without recursion.
pub proof fn lemma_first_hit(links: Seq<Link>, scale: Scale, x: int, y: int)
    ensures
        match first_hit(links, scale, x, y) {
            Some(i) => {
                &&& 0 <= i < links.len()
                &&& link_is_hit(links[i], scale, x, y)
                &&& forall|j: int| 0 <= j < i ==> !link_is_hit(#[trigger] links[j], scale, x, y)
            },
            None => forall|j: int|
                0 <= j < links.len() ==> !link_is_hit(#[trigger] links[j], scale, x, y),
        },
    decreases links.len(),
{
    if links.len() > 0 {
        let front = links.drop_last();
        lemma_first_hit(front, scale, x, y);
        match first_hit(front, scale, x, y) {
            Some(i) => {
                assert(front[i] == links[i]);
                assert forall|j: int| 0 <= j < i implies !link_is_hit(
                    #[trigger] links[j],
                    scale,
                    x,
                    y,
                ) by {
                    assert(front[j] == links[j]);
                }
            },
            None => {
                assert forall|j: int| 0 <= j < front.len() implies !link_is_hit(
                    #[trigger] links[j],
                    scale,
                    x,
                    y,
                ) by {
                    assert(front[j] == links[j]);
                }
            },
        }
    }
}

/// The link that a click on page `index` at `(x, y)` falls on: the first of
/// the links known for the page whose scaled bounds hold the point. There is
/// none for a page that does not exist or whose links are not known.
pub open spec fn clicked_link(model: ViewModel, index: usize, x: int, y: int) -> Option<Link> {
    if model.page_links.contains_key(index) && index < model.pages.len() {
        let links = model.page_links[index]@;
        match first_hit(links, model.pages[index as int].info.scale, x, y) {
            Some(i) => Some(links[i]),
            None => None,
        }
    } else {
        None
    }
}

/// A page as it stands right after its document was opened: without size,
/// place, tiles or links.
pub open spec fn is_unplaced(page: Page, info: PageInfo) -> bool {
    &&& page.info == info
    &&& page.width == 0
    &&& page.height == 0
    &&& page.bounds == (Rect { left: 0, top: 0, right: 0, bottom: 0 })
    &&& page.nodes@.len() == 0
    &&& page.links@.len() == 0
}

/// The state after the document was forgotten.
pub open spec fn cleared(model: ViewModel) -> ViewModel {
    ViewModel {
        pages: Seq::empty(),
        total_width: 0,
        total_height: 0,
        visible_pages: Seq::empty(),
        images: model.images.clear(),
        thumbnails: model.thumbnails.clear(),
        page_links: Map::empty(),
        outline_items: Seq::empty(),
        ..model
    }
}

/// Whether the pages of `after` are those of `before` with every tile
/// dropped.
pub open spec fn is_recycled(before: Seq<Page>, after: Seq<Page>) -> bool {
    &&& after.len() == before.len()
    &&& forall|i: int|
        0 <= i < before.len() ==> {
            &&& (#[trigger] after[i]).info == before[i].info
            &&& after[i].bounds == before[i].bounds
            &&& after[i].width == before[i].width
            &&& after[i].height == before[i].height
            &&& after[i].links == before[i].links
            &&& after[i].nodes@.len() == 0
        }
}

/// The total extent of the document across and along the scroll axis, as a
/// pair of width and height.
pub open spec fn laid_out_size(pages: Seq<Page>, crop: bool, axis: Orientation, target: int) -> (
    int,
    int,
) {
    let along = stacked_lead(pages, pages.len() as int, crop, axis, target);
    match axis {
        Orientation::Vertical => (target, along),
        Orientation::Horizontal => (along, target),
    }
}

/// Whether `after` is `before` laid out anew. While the viewport has no
/// extent nothing is laid out. Else every page is scaled to the viewport
/// times the zoom and stacked along the scroll axis, and the document's
/// total size is the extent across the axis and the place where the last
/// page ends.
pub open spec fn is_relayout(before: ViewModel, after: ViewModel) -> bool {
    if before.view_size.0 == 0 || before.view_size.1 == 0 {
        after == before
    } else {
        &&& after == (ViewModel {
            pages: after.pages,
            total_width: after.total_width,
            total_height: after.total_height,
            ..before
        })
        &&& same_documents(before.pages, after.pages)
        &&& is_laid_out(after.pages, before.uses_crop(), before.orientation, before.target())
        &&& (after.total_width as int, after.total_height as int) == laid_out_size(
            after.pages,
            before.uses_crop(),
            before.orientation,
            before.target(),
        )
    }
}

/// The state that takes a new viewport size and zoom factor in, before the
/// pages are laid out anew. A zoom factor that differs from the old one
/// empties both caches: what they hold was rendered for the old zoom.
pub open spec fn resized(model: ViewModel, width: u32, height: u32, zoom: u32) -> ViewModel {
    ViewModel {
        view_size: (width, height),
        zoom,
        images: if zoom != model.zoom {
            model.images.clear()
        } else {
            model.images
        },
        thumbnails: if zoom != model.zoom {
            model.thumbnails.clear()
        } else {
            model.thumbnails
        },
        ..model
    }
}

/// The state that takes a new crop mode in, before the pages are laid out
/// anew: both caches are emptied, since what they hold was rendered in the
/// old mode.
pub open spec fn recropped(model: ViewModel, crop: i32) -> ViewModel {
    ViewModel {
        crop,
        images: model.images.clear(),
        thumbnails: model.thumbnails.clear(),
        ..model
    }
}

/// After a layout pass over a viewport that has an extent, the document is
/// as long as the sum of the scaled extents of its pages, held below
/// `COORD_MAX`, and as broad as the viewport times the zoom.
pub proof fn law_total_size_is_sum_of_pages(before: ViewModel, after: ViewModel)
    requires
        is_relayout(before, after),
        before.view_size.0 != 0,
        before.view_size.1 != 0,
    ensures
        ({
            let along = crate::geometry::clamp_extent(
                crate::layout::extent_sum(
                    after.pages,
                    after.pages.len() as int,
                    before.uses_crop(),
                    before.orientation,
                    before.target(),
                ),
            );
            match before.orientation {
                Orientation::Vertical => after.total_height == along && after.total_width
                    == before.target(),
                Orientation::Horizontal => after.total_width == along && after.total_height
                    == before.target(),
            }
        }),
{
    crate::layout::law_stack_is_sum_of_extents(
        after.pages,
        after.pages.len() as int,
        before.uses_crop(),
        before.orientation,
        before.target(),
    );
}

/// Pages stay in order while each keeps its bounds.
pub proof fn lemma_order_carries_over(before: ViewModel, after: ViewModel)
    requires
        before.pages_ordered(),
        after.pages.len() == before.pages.len(),
        forall|i: int|
            0 <= i < before.pages.len() ==> (#[trigger] after.pages[i]).bounds
                == before.pages[i].bounds,
        after.orientation == before.orientation,
    ensures
        after.pages_ordered(),
{
    assert forall|i: int| 0 <= i < after.pages.len() implies 0 <= #[trigger] after.lead(i)
        <= after.trail(i) <= COORD_MAX by {
        assert(after.pages[i].bounds == before.pages[i].bounds);
        assert(before.lead(i) == after.lead(i));
    }
    assert forall|i: int, j: int| 0 <= i <= j < after.pages.len() implies #[trigger] after.lead(i)
        <= #[trigger] after.lead(j) by {
        assert(after.pages[i].bounds == before.pages[i].bounds);
        assert(after.pages[j].bounds == before.pages[j].bounds);
        assert(before.lead(i) <= before.lead(j));
    }
    assert forall|i: int, j: int| 0 <= i <= j < after.pages.len() implies #[trigger] after.trail(
        i,
    ) <= #[trigger] after.trail(j) by {
        assert(after.pages[i].bounds == before.pages[i].bounds);
        assert(after.pages[j].bounds == before.pages[j].bounds);
        assert(before.trail(i) <= before.trail(j));
    }
}

/// A state stays well-formed while its pages keep their bounds, its visible
/// pages stay as they are or become another run of page indices, and its
/// caches stay well-formed.
pub proof fn lemma_wf_carries_over(before: ViewModel, after: ViewModel)
    requires
        before.wf(),
        after.pages.len() == before.pages.len(),
        forall|i: int|
            0 <= i < before.pages.len() ==> (#[trigger] after.pages[i]).bounds
                == before.pages[i].bounds,
        after.orientation == before.orientation,
        after.visible_pages == before.visible_pages || after.visible_is_range(),
        after.images.wf(),
        after.thumbnails.wf(),
    ensures
        after.wf(),
{
    lemma_order_carries_over(before, after);
    if after.visible_pages == before.visible_pages {
        assert forall|k: int| 0 <= k < after.visible_pages.len() implies (
        #[trigger] after.visible_pages[k]) < after.pages.len() by {
            assert(before.visible_pages[k] < before.pages.len());
        }
    }
}

/// Pages that all lie at the origin without an extent are in order.
pub proof fn lemma_unplaced_pages_are_ordered(model: ViewModel)
    requires
        forall|i: int|
            0 <= i < model.pages.len() ==> (#[trigger] model.pages[i]).bounds == (Rect {
                left: 0,
                top: 0,
                right: 0,
                bottom: 0,
            }),
    ensures
        model.pages_ordered(),
{
    assert forall|i: int| 0 <= i < model.pages.len() implies 0 <= #[trigger] model.lead(i)
        <= model.trail(i) <= COORD_MAX by {
        assert(model.pages[i].bounds.left == 0);
    }
    assert forall|i: int, j: int| 0 <= i <= j < model.pages.len() implies #[trigger] model.lead(i)
        <= #[trigger] model.lead(j) by {
        assert(model.pages[i].bounds.left == 0);
        assert(model.pages[j].bounds.left == 0);
    }
    assert forall|i: int, j: int| 0 <= i <= j < model.pages.len() implies #[trigger] model.trail(
        i,
    ) <= #[trigger] model.trail(j) by {
        assert(model.pages[i].bounds.left == 0);
        assert(model.pages[j].bounds.left == 0);
    }
}

/// Pages that the layout has placed lie in the order of their indices.
pub proof fn lemma_layout_orders_pages(model: ViewModel, crop: bool, target: int)
    requires
        is_laid_out(model.pages, crop, model.orientation, target),
        0 <= target <= COORD_MAX,
    ensures
        model.pages_ordered(),
{
    let axis = model.orientation;
    assert forall|i: int| 0 <= i < model.pages.len() implies model.lead(i) == stacked_lead(
        model.pages,
        i,
        crop,
        axis,
        target,
    ) && model.trail(i) == stacked_lead(model.pages, i + 1, crop, axis, target) by {
        assert(crate::layout::is_placed(model.pages[i], model.pages, i, crop, axis, target));
        lemma_stacked_lead_grows(model.pages, i, crop, axis, target);
    }
    assert forall|i: int| 0 <= i < model.pages.len() implies 0 <= #[trigger] model.lead(i)
        <= model.trail(i) <= COORD_MAX by {
        lemma_stacked_lead_grows(model.pages, i, crop, axis, target);
    }
    assert forall|i: int, j: int| 0 <= i <= j < model.pages.len() implies #[trigger] model.lead(i)
        <= #[trigger] model.lead(j) by {
        lemma_stacked_lead_ordered(model.pages, i, j, crop, axis, target);
    }
    assert forall|i: int, j: int| 0 <= i <= j < model.pages.len() implies #[trigger] model.trail(
        i,
    ) <= #[trigger] model.trail(j) by {
        lemma_stacked_lead_ordered(model.pages, i + 1, j + 1, crop, axis, target);
    }
}

/// Holds pages, caches and viewport together and derives from them what is
/// visible and what has to be rendered.
pub struct PageViewState {
    cache: PageCache,
    pages: Vec<Page>,
    orientation: Orientation,
    view_offset: (i64, i64),
    zoom: u32,
    crop: i32,
    total_width: i64,
    total_height: i64,
    view_size: (u32, u32),
    preload_screens: u32,
    visible_pages: Vec<usize>,
    page_links: HashMap<usize, Vec<Link>>,
    outline_items: Vec<OutlineItem>,
}

impl View for PageViewState {
    type V = ViewModel;

    closed spec fn view(&self) -> ViewModel {
        ViewModel {
            pages: self.pages@,
            orientation: self.orientation,
            view_offset: self.view_offset,
            zoom: self.zoom,
            crop: self.crop,
            total_width: self.total_width,
            total_height: self.total_height,
            view_size: self.view_size,
            preload_screens: self.preload_screens,
            visible_pages: self.visible_pages@,
            images: self.cache.image_cache@,
            thumbnails: self.cache.thumbnail_cache@,
            page_links: self.page_links@,
            outline_items: self.outline_items@,
        }
    }
}

/// The state of a view that holds no document.
pub open spec fn empty_view(orientation: Orientation, crop: i32) -> ViewModel {
    ViewModel {
        pages: Seq::empty(),
        orientation,
        view_offset: (0, 0),
        zoom: ZOOM_ONE,
        crop,
        total_width: 0,
        total_height: 0,
        view_size: (0, 0),
        preload_screens: 1,
        visible_pages: Seq::empty(),
        images: CacheModel { entries: Seq::empty(), clock: 0, max_size: 24 },
        thumbnails: CacheModel { entries: Seq::empty(), clock: 0, max_size: 10 },
        page_links: Map::empty(),
        outline_items: Seq::empty(),
    }
}

impl PageViewState {
    pub fn new(orientation: Orientation, crop_int: i32) -> (state: PageViewState)
        ensures
            state@ == empty_view(orientation, crop_int),
            state@.wf(),
    {
        let state = PageViewState {
            cache: PageCache::new(24, 10),
            pages: Vec::new(),
            orientation,
            view_offset: (0, 0),
            zoom: ZOOM_ONE,
            crop: crop_int,
            total_width: 0,
            total_height: 0,
            view_size: (0, 0),
            preload_screens: 1,
            visible_pages: Vec::new(),
            page_links: HashMap::new(),
            outline_items: Vec::new(),
        };
        assert(state@.pages =~= Seq::empty());
        assert(state@.visible_pages =~= Seq::empty());
        assert(state@.outline_items =~= Seq::empty());
        state
    }

    /// Takes in what the decoder made of a document. The state is cleared
    /// first. If both the page list and the outline were read, the pages come
    /// in, not yet laid out, together with the outline. If either failed, the
    /// failure is handed on (that of the page list first) and the state stays
    /// empty.
    pub fn open_document(
        &mut self,
        pages: Result<Vec<PageInfo>, DecodeError>,
        outline: Result<Vec<OutlineItem>, DecodeError>,
    ) -> (opened: Result<(), DecodeError>)
        ensures
            final(self)@.wf(),
            match (pages, outline) {
                (Ok(infos), Ok(items)) => {
                    &&& opened is Ok
                    &&& final(self)@ == (ViewModel {
                        pages: final(self)@.pages,
                        outline_items: items@,
                        ..cleared(old(self)@)
                    })
                    &&& final(self)@.pages.len() == infos@.len()
                    &&& forall|i: int|
                        0 <= i < infos@.len() ==> is_unplaced(
                            #[trigger] final(self)@.pages[i],
                            infos@[i],
                        )
                },
                (Err(error), _) => opened == Err::<(), DecodeError>(error) && final(self)@
                    == cleared(old(self)@),
                (Ok(_), Err(error)) => opened == Err::<(), DecodeError>(error) && final(self)@
                    == cleared(old(self)@),
            },
    {
        self.reset();
        let infos = match pages {
            Ok(infos) => infos,
            Err(error) => {
                return Err(error);
            },
        };
        let items = match outline {
            Ok(items) => items,
            Err(error) => {
                return Err(error);
            },
        };
        let mut fresh: Vec<Page> = Vec::new();
        let mut i: usize = 0;
        while i < infos.len()
            invariant
                i <= infos.len(),
                fresh@.len() == i,
                forall|k: int| 0 <= k < i ==> is_unplaced(#[trigger] fresh@[k], infos@[k]),
            decreases infos.len() - i,
        {
            fresh.push(Page::new(infos[i], 0, 0, 0, 0));
            i += 1;
        }
        self.pages = fresh;
        self.outline_items = items;
        proof {
            assert forall|i: int| 0 <= i < self@.pages.len() implies (
            #[trigger] self@.pages[i]).bounds == (Rect { left: 0, top: 0, right: 0, bottom: 0 }) by {
                assert(is_unplaced(self@.pages[i], infos@[i]));
            }
            lemma_unplaced_pages_are_ordered(self@);
        }
        Ok(())
    }

    /// Forgets the document: pages, visible range, caches, links and outline
    /// go; viewport, zoom, offset and crop mode stay.
    pub fn reset(&mut self)
        ensures
            final(self)@ == cleared(old(self)@),
            final(self)@.wf(),
    {
        self.pages.clear();
        self.total_width = 0;
        self.total_height = 0;
        self.visible_pages.clear();
        self.cache.clear();
        self.page_links.clear();
        self.outline_items.clear();
        assert(self@.pages =~= Seq::empty());
        assert(self@.visible_pages =~= Seq::empty());
        assert(self@.outline_items =~= Seq::empty());
    }

    /// Lays the pages out along the scroll axis, for a viewport that has an
    /// extent.
    fn layout_along_axis(&mut self)
        requires
            old(self).view_size.0 != 0 && old(self).view_size.1 != 0,
            old(self)@.visible_is_range(),
        ensures
            is_relayout(old(self)@, final(self)@),
            final(self)@.pages_ordered(),
            final(self)@.visible_is_range(),
    {
        let view = match self.orientation {
            Orientation::Vertical => self.view_size.0,
            Orientation::Horizontal => self.view_size.1,
        };
        let target = compute_target(view, self.zoom);
        let end = crate::layout::stack_pages(
            &mut self.pages,
            self.crop == 1,
            self.orientation,
            target,
        );
        match self.orientation {
            Orientation::Vertical => {
                self.total_width = target;
                self.total_height = end;
            },
            Orientation::Horizontal => {
                self.total_width = end;
                self.total_height = target;
            },
        }
        proof {
            lemma_layout_orders_pages(self@, self.crop == 1, target as int);
            assert(self@ == (ViewModel {
                pages: self@.pages,
                total_width: self@.total_width,
                total_height: self@.total_height,
                ..old(self)@
            }));
        }
    }

    /// Stacks the pages top to bottom, each as wide as the viewport times
    /// the zoom.
    fn layout_vertical(&mut self)
        requires
            old(self).orientation is Vertical,
            old(self).view_size.0 != 0 && old(self).view_size.1 != 0,
            old(self)@.visible_is_range(),
        ensures
            is_relayout(old(self)@, final(self)@),
            final(self)@.pages_ordered(),
            final(self)@.visible_is_range(),
    {
        self.layout_along_axis();
    }

    /// Stacks the pages left to right, each as high as the viewport times
    /// the zoom.
    fn layout_horizontal(&mut self)
        requires
            old(self).orientation is Horizontal,
            old(self).view_size.0 != 0 && old(self).view_size.1 != 0,
            old(self)@.visible_is_range(),
        ensures
            is_relayout(old(self)@, final(self)@),
            final(self)@.pages_ordered(),
            final(self)@.visible_is_range(),
    {
        self.layout_along_axis();
    }

    /// Lays the pages out anew, unless the viewport has no extent.
    fn recalculate_layout(&mut self)
        requires
            old(self)@.wf(),
        ensures
            is_relayout(old(self)@, final(self)@),
            final(self)@.wf(),
    {
        if self.view_size.0 == 0 || self.view_size.1 == 0 {
            return;
        }
        match self.orientation {
            Orientation::Vertical => self.layout_vertical(),
            Orientation::Horizontal => self.layout_horizontal(),
        }
    }

    /// Takes a new viewport size and zoom factor. Nothing happens unless one
    /// of them differs from what the state holds or `force` is set; else they
    /// are stored, both caches are emptied if the zoom factor changed, and
    /// the pages are laid out anew.
    pub fn update_view_size(&mut self, width: u32, height: u32, zoom: u32, force: bool)
        requires
            old(self)@.wf(),
        ensures
            final(self)@.wf(),
            old(self)@.view_size == (width, height) && old(self)@.zoom == zoom && !force
                ==> final(self)@ == old(self)@,
            old(self)@.view_size != (width, height) || old(self)@.zoom != zoom || force
                ==> is_relayout(resized(old(self)@, width, height, zoom), final(self)@),
            old(self)@.zoom != zoom ==> final(self)@.images == old(self)@.images.clear()
                && final(self)@.thumbnails == old(self)@.thumbnails.clear(),
    {
        let size_changed = self.view_size.0 != width || self.view_size.1 != height;
        let zoom_changed = self.zoom != zoom;
        if !size_changed && !zoom_changed && !force {
            return;
        }
        self.view_size = (width, height);
        self.zoom = zoom;
        if zoom_changed {
            self.cache.clear();
        }
        proof {
            lemma_wf_carries_over(old(self)@, self@);
        }
        self.recalculate_layout();
    }

    /// Takes a new zoom factor and lays the pages out anew. If the factor
    /// differs from the old one, both caches are emptied.
    pub fn update_zoom(&mut self, zoom: u32)
        requires
            old(self)@.wf(),
        ensures
            final(self)@.wf(),
            is_relayout(
                resized(old(self)@, old(self)@.view_size.0, old(self)@.view_size.1, zoom),
                final(self)@,
            ),
            old(self)@.zoom != zoom ==> final(self)@.images == old(self)@.images.clear()
                && final(self)@.thumbnails == old(self)@.thumbnails.clear(),
            final(self)@.zoom == zoom,
    {
        self.update_view_size(self.view_size.0, self.view_size.1, zoom, true);
    }

    /// Moves the document under the viewport. Nothing is laid out anew.
    pub fn update_offset(&mut self, x: i64, y: i64)
        ensures
            final(self)@ == (ViewModel { view_offset: (x, y), ..old(self)@ }),
            old(self)@.wf() ==> final(self)@.wf(),
    {
        self.view_offset = (x, y);
        proof {
            if old(self)@.wf() {
                lemma_wf_carries_over(old(self)@, self@);
            }
        }
    }

    /// The rectangle of the document that counts as visible.
    pub fn visible_rect(&self) -> (rect: Rect)
        ensures
            rect == spec_visible_rect(self@),
    {
        let x: i128 = -(self.view_offset.0 as i128);
        let y: i128 = -(self.view_offset.1 as i128);
        let width: i128 = self.view_size.0 as i128;
        let height: i128 = self.view_size.1 as i128;
        proof {
            assert(0 <= self.view_size.0 as int * self.preload_screens as int <= 0xFFFF_FFFF
                * 0xFFFF_FFFF) by (nonlinear_arith)
                requires
                    0 <= self.view_size.0 as int <= 0xFFFF_FFFF,
                    0 <= self.preload_screens as int <= 0xFFFF_FFFF,
            ;
            assert(0 <= self.view_size.1 as int * self.preload_screens as int <= 0xFFFF_FFFF
                * 0xFFFF_FFFF) by (nonlinear_arith)
                requires
                    0 <= self.view_size.1 as int <= 0xFFFF_FFFF,
                    0 <= self.preload_screens as int <= 0xFFFF_FFFF,
            ;
        }
        match self.orientation {
            Orientation::Vertical => {
                let preload: i128 = (self.view_size.1 as i128) * (self.preload_screens as i128);
                Rect::new(
                    saturate(x),
                    saturate(y),
                    saturate(x + width),
                    saturate(y + height + preload),
                )
            },
            Orientation::Horizontal => {
                let preload: i128 = (self.view_size.0 as i128) * (self.preload_screens as i128);
                Rect::new(
                    saturate(x),
                    saturate(y),
                    saturate(x + width + preload),
                    saturate(y + height),
                )
            },
        }
    }

    /// The smallest index of a page that ends beyond the leading edge of
    /// `visible_rect`; the number of pages if there is none.
    fn find_first_visible(&self, visible_rect: &Rect) -> (first: usize)
        requires
            self@.pages_ordered(),
        ensures
            first <= self@.pages.len(),
            forall|i: int|
                0 <= i < first ==> #[trigger] self@.trail(i) <= visible_rect.spec_lead(
                    self@.orientation,
                ),
            forall|i: int|
                first <= i < self@.pages.len() ==> #[trigger] self@.trail(i)
                    > visible_rect.spec_lead(self@.orientation),
    {
        let edge = visible_rect.lead(self.orientation);
        let mut low: usize = 0;
        let mut high: usize = self.pages.len();
        while low < high
            invariant
                low <= high <= self.pages.len(),
                self@.pages_ordered(),
                edge as int == visible_rect.spec_lead(self@.orientation),
                forall|i: int| 0 <= i < low ==> #[trigger] self@.trail(i) <= edge,
                forall|i: int| high <= i < self@.pages.len() ==> #[trigger] self@.trail(i) > edge,
            decreases high - low,
        {
            let mid = low + (high - low) / 2;
            let is_visible = self.pages[mid].bounds.trail(self.orientation) > edge;
            assert(self@.trail(mid as int) == self.pages@[mid as int].bounds.spec_trail(
                self.orientation,
            ));
            if is_visible {
                assert forall|i: int| mid <= i < self@.pages.len() implies #[trigger] self@.trail(
                    i,
                ) > edge by {
                    assert(self@.trail(mid as int) <= self@.trail(i));
                }
                high = mid;
            } else {
                assert forall|i: int| 0 <= i < mid + 1 implies #[trigger] self@.trail(i)
                    <= edge by {
                    assert(self@.trail(i) <= self@.trail(mid as int));
                }
                low = mid + 1;
            }
        }
        low
    }

    /// The largest index of a page that begins before the trailing edge of
    /// `visible_rect`, if there is one.
    fn find_last_visible(&self, visible_rect: &Rect) -> (last: Option<usize>)
        requires
            self@.pages_ordered(),
        ensures
            match last {
                Some(n) => {
                    &&& n < self@.pages.len()
                    &&& forall|i: int|
                        0 <= i <= n ==> #[trigger] self@.lead(i) < visible_rect.spec_trail(
                            self@.orientation,
                        )
                    &&& forall|i: int|
                        n < i < self@.pages.len() ==> #[trigger] self@.lead(i)
                            >= visible_rect.spec_trail(self@.orientation)
                },
                None => forall|i: int|
                    0 <= i < self@.pages.len() ==> #[trigger] self@.lead(i)
                        >= visible_rect.spec_trail(self@.orientation),
            },
    {
        let edge = visible_rect.trail(self.orientation);
        let mut low: usize = 0;
        let mut high: usize = self.pages.len();
        while low < high
            invariant
                low <= high <= self.pages.len(),
                self@.pages_ordered(),
                edge as int == visible_rect.spec_trail(self@.orientation),
                forall|i: int| 0 <= i < low ==> #[trigger] self@.lead(i) < edge,
                forall|i: int| high <= i < self@.pages.len() ==> #[trigger] self@.lead(i) >= edge,
            decreases high - low,
        {
            let mid = low + (high - low) / 2;
            let is_visible = self.pages[mid].bounds.lead(self.orientation) < edge;
            assert(self@.lead(mid as int) == self.pages@[mid as int].bounds.spec_lead(
                self.orientation,
            ));
            if is_visible {
                assert forall|i: int| 0 <= i < mid + 1 implies #[trigger] self@.lead(i) < edge by {
                    assert(self@.lead(i) <= self@.lead(mid as int));
                }
                low = mid + 1;
            } else {
                assert forall|i: int| mid <= i < self@.pages.len() implies #[trigger] self@.lead(i)
                    >= edge by {
                    assert(self@.lead(mid as int) <= self@.lead(i));
                }
                high = mid;
            }
        }
        if low == 0 {
            None
        } else {
            Some(low - 1)
        }
    }

    /// Recomputes which pages are visible and gives back the requests to
    /// submit: one for each visible page that has a size and whose thumbnail
    /// is not in the cache.
    pub fn update_visible_pages(&mut self) -> (batch: Vec<RenderPage>)
        requires
            old(self)@.wf(),
        ensures
            is_visibility_update(old(self)@, final(self)@, batch@),
            final(self)@.wf(),
    {
        let visible_rect = self.visible_rect();
        let first = self.find_first_visible(&visible_rect);
        let last = self.find_last_visible(&visible_rect);
        let mut visible: Vec<usize> = Vec::new();
        let mut render_pages: Vec<RenderPage> = Vec::new();
        let end: usize = match last {
            Some(last) => if first <= last {
                assert(last < self.pages.len());
                last + 1
            } else {
                first
            },
            None => first,
        };
        let mut i: usize = first;
        while i < end
            invariant
                first <= i <= end <= self.pages.len(),
                self@ == (ViewModel { thumbnails: self@.thumbnails, ..old(self)@ }),
                old(self)@.thumbnails.wf(),
                visible@.len() == i - first,
                forall|k: int| 0 <= k < visible@.len() ==> (#[trigger] visible@[k]) as int == first + k,
                self@.thumbnails == lookups(old(self)@.thumbnails, old(self)@.pages, visible@),
                render_pages@.len() == missing(
                    old(self)@.thumbnails,
                    old(self)@.pages,
                    visible@,
                ).len(),
                forall|k: int|
                    0 <= k < render_pages@.len() ==> is_request_for(
                        #[trigger] render_pages@[k],
                        old(self)@.pages[missing(
                            old(self)@.thumbnails,
                            old(self)@.pages,
                            visible@,
                        )[k] as int],
                        old(self)@.crop,
                    ),
            decreases end - i,
        {
            let ghost seen = visible@;
            let ghost batch_before = render_pages@;
            visible.push(i);
            assert(visible@.drop_last() =~= seen);
            let page = &self.pages[i];
            let key = generate_thumbnail_key(page);
            proof {
                lemma_lookups_keep_keys(
                    old(self)@.thumbnails,
                    old(self)@.pages,
                    seen,
                    render_key(page.info),
                );
            }
            if page.width > 0 && page.height > 0 {
                let info = page.info;
                if self.cache.thumbnail_cache.get(key.as_str()).is_none() {
                    render_pages.push(
                        RenderPage {
                            key,
                            page_info: info,
                            crop: self.crop,
                            priority: Priority::Thumbnail,
                            check_visible_region: true,
                        },
                    );
                }
            }
            proof {
                let wanted = missing(old(self)@.thumbnails, old(self)@.pages, visible@);
                assert forall|k: int| 0 <= k < render_pages@.len() implies is_request_for(
                    #[trigger] render_pages@[k],
                    old(self)@.pages[wanted[k] as int],
                    old(self)@.crop,
                ) by {
                    if k < batch_before.len() {
                        assert(render_pages@[k] == batch_before[k]);
                    }
                }
            }
            i += 1;
        }
        self.visible_pages = visible;
        proof {
            let before = old(self)@;
            let after = self@;
            lemma_lookups_keep_keys(before.thumbnails, before.pages, after.visible_pages, Seq::empty());
            assert forall|i: int| 0 <= i < before.pages.len() implies (
            #[trigger] before.page_is_visible(i) <==> after.visible_pages.contains(i as usize)) by {
                lemma_visible_rect_agrees(before, i);
                if first <= i < end {
                    assert(after.visible_pages[i - first] == i as usize);
                }
                if after.visible_pages.contains(i as usize) {
                    let k = choose|k: int|
                        0 <= k < after.visible_pages.len() && after.visible_pages[k] == i as usize;
                    assert(after.visible_pages[k] as int == first + k);
                }
                if first <= i < end {
                    assert(before.trail(i) > visible_rect.spec_lead(before.orientation));
                    assert(before.lead(i) < visible_rect.spec_trail(before.orientation));
                } else if i < first {
                    assert(before.trail(i) <= visible_rect.spec_lead(before.orientation));
                } else {
                    assert(before.lead(i) >= visible_rect.spec_trail(before.orientation)
                        || before.trail(i) <= visible_rect.spec_lead(before.orientation));
                }
            }
            assert(after.visible_is_range());
            lemma_wf_carries_over(before, after);
        }
        render_pages
    }

    /// Scrolls so that the page begins where the viewport does, and gives
    /// back the new offset. An index beyond the last page changes nothing.
    pub fn jump_to_page(&mut self, page_index: usize) -> (offset: Option<(i64, i64)>)
        ensures
            page_index >= old(self)@.pages.len() ==> offset is None && final(self)@ == old(self)@,
            page_index < old(self)@.pages.len() ==> final(self)@ == jumped(
                old(self)@,
                page_index as int,
            ) && offset == Some(final(self)@.view_offset),
            old(self)@.wf() ==> final(self)@.wf(),
    {
        if page_index >= self.pages.len() {
            return None;
        }
        let bounds = self.pages[page_index].bounds;
        let new_offset = match self.orientation {
            Orientation::Vertical => (self.view_offset.0, saturate(-(bounds.top as i128))),
            Orientation::Horizontal => (saturate(-(bounds.left as i128)), self.view_offset.1),
        };
        self.view_offset = new_offset;
        proof {
            if old(self)@.wf() {
                lemma_wf_carries_over(old(self)@, self@);
            }
        }
        Some(new_offset)
    }

    /// The link under a click on page `index` at `(doc_x, doc_y)`, measured
    /// from the page's top left corner in rendered units.
    pub fn handle_click(&self, index: usize, doc_x: i64, doc_y: i64) -> (link: Option<Link>)
        ensures
            link == clicked_link(self@, index, doc_x as int, doc_y as int),
    {
        broadcast use vstd::std_specs::hash::group_hash_axioms;

        let links = match self.page_links.get(&index) {
            Some(links) => links,
            None => {
                return None;
            },
        };
        if index >= self.pages.len() {
            return None;
        }
        let scale = self.pages[index].info.scale;
        proof {
            lemma_first_hit(links@, scale, doc_x as int, doc_y as int);
        }
        let mut i: usize = 0;
        while i < links.len()
            invariant
                i <= links.len(),
                self@.page_links.contains_key(index),
                *links == self@.page_links[index],
                index < self@.pages.len(),
                scale == self@.pages[index as int].info.scale,
                forall|j: int|
                    0 <= j < i ==> !link_is_hit(
                        #[trigger] links@[j],
                        scale,
                        doc_x as int,
                        doc_y as int,
                    ),
            decreases links.len() - i,
        {
            let bounds = links[i].bounds;
            if scale.scaled_le(bounds.left, doc_x) && scale.scaled_ge(bounds.right, doc_x)
                && scale.scaled_le(bounds.top, doc_y) && scale.scaled_ge(bounds.bottom, doc_y) {
                proof {
                    lemma_first_hit(links@, scale, doc_x as int, doc_y as int);
                    assert(link_is_hit(links@[i as int], scale, doc_x as int, doc_y as int));
                    let found = first_hit(links@, scale, doc_x as int, doc_y as int);
                    assert(found is Some);
                    assert(link_is_hit(links@[found->0], scale, doc_x as int, doc_y as int));
                    assert(found->0 == i);
                }
                return Some(links[i].clone());
            }
            i += 1;
        }
        None
    }

    /// The snapshot that queued requests are held against before they are
    /// decoded: the visible rectangle and the place of every page.
    pub fn visible_region(&self) -> (region: VisibleRegion)
        ensures
            is_region_of(region, self@),
    {
        let mut places: Vec<PageBounds> = Vec::new();
        let mut i: usize = 0;
        while i < self.pages.len()
            invariant
                i <= self.pages.len(),
                places@.len() == i,
                forall|k: int|
                    0 <= k < i ==> (#[trigger] places@[k]).index == self.pages@[k].info.index
                        && places@[k].bounds == self.pages@[k].bounds,
            decreases self.pages.len() - i,
        {
            places.push(PageBounds { index: self.pages[i].info.index, bounds: self.pages[i].bounds });
            i += 1;
        }
        VisibleRegion { rect: self.visible_rect(), orientation: self.orientation, pages: places }
    }

    /// Takes a finished render in: the links of the page are remembered, and
    /// the pixels go into the thumbnail cache under the render key if they
    /// make up an image of the stated size. Says whether they did.
    pub fn apply_result(&mut self, result: DecodeResult) -> (stored: bool)
        requires
            old(self)@.wf(),
        ensures
            final(self)@.wf(),
            stored == crate::imaging::holds_rgba(
                result.image_width,
                result.image_height,
                result.image_data@.len(),
            ),
            final(self)@ == (ViewModel {
                thumbnails: final(self)@.thumbnails,
                page_links: old(self)@.page_links.insert(result.page_info.index, result.links),
                ..old(self)@
            }),
            !stored ==> final(self)@.thumbnails == old(self)@.thumbnails,
            stored ==> exists|image: std::sync::Arc<image::DynamicImage>|
                *image == crate::imaging::rgba_image_of(
                    result.image_width,
                    result.image_height,
                    result.image_data@,
                ) && final(self)@.thumbnails == old(self)@.thumbnails.put(result.key@, image),
    {
        broadcast use vstd::std_specs::hash::group_hash_axioms;

        self.page_links.insert(result.page_info.index, result.links);
        let decoded = crate::imaging::rgba_image(
            result.image_width,
            result.image_height,
            result.image_data,
        );
        let stored = match decoded {
            Some(image) => {
                let handle = self.cache.thumbnail_cache.put(result.key, image);
                assert(*handle == crate::imaging::rgba_image_of(
                    result.image_width,
                    result.image_height,
                    result.image_data@,
                ) && self@.thumbnails == old(self)@.thumbnails.put(result.key@, handle));
                true
            },
            None => false,
        };
        proof {
            lemma_wf_carries_over(old(self)@, self@);
        }
        stored
    }

    /// Switches cropping on or off. If the mode changes, both caches are
    /// emptied, the pages are laid out anew, their tiles are dropped, and the
    /// visible range is recomputed; the requests to submit come back.
    pub fn set_crop(&mut self, crop: i32) -> (batch: Vec<RenderPage>)
        requires
            old(self)@.wf(),
        ensures
            final(self)@.wf(),
            old(self)@.crop == crop ==> final(self)@ == old(self)@ && batch@.len() == 0,
            old(self)@.crop != crop ==> final(self)@.crop == crop && final(self)@.images == old(
                self,
            )@.images.clear() && final(self)@.thumbnails == old(self)@.thumbnails.clear(),
            old(self)@.crop != crop ==> exists|relaid: ViewModel, recycled: ViewModel|
                {
                    &&& is_relayout(recropped(old(self)@, crop), relaid)
                    &&& recycled == (ViewModel { pages: recycled.pages, ..relaid })
                    &&& is_recycled(relaid.pages, recycled.pages)
                    &&& is_visibility_update(recycled, final(self)@, batch@)
                },
    {
        if self.crop == crop {
            return Vec::new();
        }
        self.crop = crop;
        self.cache.clear();
        proof {
            lemma_wf_carries_over(old(self)@, self@);
        }
        self.recalculate_layout();
        let ghost relaid = self@;
        self.recycle_pages();
        let ghost recycled = self@;
        let batch = self.update_visible_pages();
        proof {
            lemma_lookups_in_empty_cache(recycled.thumbnails, recycled.pages, self@.visible_pages);
        }
        batch
    }

    /// Drops the tiles of every page.
    fn recycle_pages(&mut self)
        requires
            old(self)@.wf(),
        ensures
            final(self)@ == (ViewModel { pages: final(self)@.pages, ..old(self)@ }),
            is_recycled(old(self)@.pages, final(self)@.pages),
            final(self)@.wf(),
    {
        let mut i: usize = 0;
        while i < self.pages.len()
            invariant
                i <= self.pages.len(),
                self@ == (ViewModel { pages: self@.pages, ..old(self)@ }),
                self@.pages.len() == old(self)@.pages.len(),
                forall|k: int|
                    0 <= k < self@.pages.len() ==> {
                        &&& (#[trigger] self@.pages[k]).info == old(self)@.pages[k].info
                        &&& self@.pages[k].bounds == old(self)@.pages[k].bounds
                        &&& self@.pages[k].width == old(self)@.pages[k].width
                        &&& self@.pages[k].height == old(self)@.pages[k].height
                        &&& self@.pages[k].links == old(self)@.pages[k].links
                    },
                forall|k: int| 0 <= k < i ==> (#[trigger] self@.pages[k]).nodes@.len() == 0,
            decreases self.pages.len() - i,
        {
            let ghost before = self@.pages;
            let page = &mut self.pages[i];
            page.recycle();
            proof {
                assert forall|k: int| 0 <= k < self@.pages.len() && k != i implies self@.pages[k]
                    == before[k] by {}
            }
            i += 1;
        }
        proof {
            lemma_wf_carries_over(old(self)@, self@);
        }
    }

    /// Gives up everything that belongs to the document: pages with their
    /// tiles, visible range, links, outline and caches.
    pub fn shutdown(&mut self)
        ensures
            final(self)@ == (ViewModel {
                total_width: old(self)@.total_width,
                total_height: old(self)@.total_height,
                ..cleared(old(self)@)
            }),
            final(self)@.wf(),
    {
        self.pages.clear();
        self.visible_pages.clear();
        self.page_links.clear();
        self.outline_items.clear();
        self.cache.clear();
        assert(self@.pages =~= Seq::empty());
        assert(self@.visible_pages =~= Seq::empty());
        assert(self@.outline_items =~= Seq::empty());
    }

    /// The visible pages as they are to be drawn, each with its thumbnail if
    /// the cache holds it. Every lookup counts as an access.
    pub fn visible_frames(&mut self) -> (frames: Vec<PageFrame>)
        requires
            old(self)@.wf(),
        ensures
            final(self)@.wf(),
            final(self)@ == (ViewModel {
                thumbnails: drawn(
                    old(self)@.thumbnails,
                    old(self)@.pages,
                    old(self)@.visible_pages,
                ),
                ..old(self)@
            }),
            frames@.len() == old(self)@.visible_pages.len(),
            forall|k: int|
                0 <= k < frames@.len() ==> is_frame_of(
                    #[trigger] frames@[k],
                    old(self)@.pages[old(self)@.visible_pages[k] as int],
                    old(self)@.thumbnails,
                ),
    {
        let mut frames: Vec<PageFrame> = Vec::new();
        let mut k: usize = 0;
        assert(self@.visible_pages.take(0) =~= Seq::empty());
        while k < self.visible_pages.len()
            invariant
                k <= self.visible_pages.len(),
                old(self)@.wf(),
                self@ == (ViewModel {
                    thumbnails: drawn(
                        old(self)@.thumbnails,
                        old(self)@.pages,
                        old(self)@.visible_pages.take(k as int),
                    ),
                    ..old(self)@
                }),
                frames@.len() == k,
                forall|j: int|
                    0 <= j < k ==> is_frame_of(
                        #[trigger] frames@[j],
                        old(self)@.pages[old(self)@.visible_pages[j] as int],
                        old(self)@.thumbnails,
                    ),
            decreases self.visible_pages.len() - k,
        {
            let index = self.visible_pages[k];
            assert(index < self.pages.len()) by {
                assert(old(self)@.visible_pages[k as int] < old(self)@.pages.len());
            }
            let page = &self.pages[index];
            let key = generate_thumbnail_key(page);
            let bounds = page.bounds;
            let width = page.width;
            let height = page.height;
            let page_index = page.info.index;
            proof {
                let seen = old(self)@.visible_pages.take(k as int);
                let longer = old(self)@.visible_pages.take(k as int + 1);
                assert(longer.drop_last() =~= seen);
                assert(longer.last() == index);
                lemma_drawn_keeps_images(old(self)@.thumbnails, old(self)@.pages, seen, key@);
            }
            let image = self.cache.thumbnail_cache.get(key.as_str());
            let ghost before = frames@;
            frames.push(PageFrame { page_index, bounds, width, height, image });
            proof {
                assert forall|j: int| 0 <= j < k + 1 implies is_frame_of(
                    #[trigger] frames@[j],
                    old(self)@.pages[old(self)@.visible_pages[j] as int],
                    old(self)@.thumbnails,
                ) by {
                    if j < k {
                        assert(frames@[j] == before[j]);
                    }
                }
            }
            k += 1;
        }
        proof {
            assert(old(self)@.visible_pages.take(old(self)@.visible_pages.len() as int)
                =~= old(self)@.visible_pages);
            lemma_drawn_keeps_images(
                old(self)@.thumbnails,
                old(self)@.pages,
                old(self)@.visible_pages,
                Seq::empty(),
            );
            lemma_wf_carries_over(old(self)@, self@);
        }
        frames
    }

    /// Looks a thumbnail up by its render key. A hit counts as an access.
    pub fn thumbnail(&mut self, key: &str) -> (found: Option<std::sync::Arc<image::DynamicImage>>)
        ensures
            found == old(self)@.thumbnails.lookup(key@),
            final(self)@ == (ViewModel {
                thumbnails: old(self)@.thumbnails.touch(key@),
                ..old(self)@
            }),
            old(self)@.wf() ==> final(self)@.wf(),
    {
        let found = self.cache.thumbnail_cache.get(key);
        proof {
            if old(self)@.wf() {
                lemma_wf_carries_over(old(self)@, self@);
            }
        }
        found
    }

    pub fn pages(&self) -> (pages: &Vec<Page>)
        ensures
            pages@ == self@.pages,
    {
        &self.pages
    }

    pub fn visible_pages(&self) -> (visible: &Vec<usize>)
        ensures
            visible@ == self@.visible_pages,
    {
        &self.visible_pages
    }

    pub fn outline_items(&self) -> (items: &Vec<OutlineItem>)
        ensures
            items@ == self@.outline_items,
    {
        &self.outline_items
    }

    pub fn orientation(&self) -> (orientation: Orientation)
        ensures
            orientation == self@.orientation,
    {
        self.orientation
    }

    pub fn view_offset(&self) -> (offset: (i64, i64))
        ensures
            offset == self@.view_offset,
    {
        self.view_offset
    }

    pub fn view_size(&self) -> (size: (u32, u32))
        ensures
            size == self@.view_size,
    {
        self.view_size
    }

    pub fn zoom(&self) -> (zoom: u32)
        ensures
            zoom == self@.zoom,
    {
        self.zoom
    }

    pub fn crop(&self) -> (crop: i32)
        ensures
            crop == self@.crop,
    {
        self.crop
    }

    pub fn total_width(&self) -> (width: i64)
        ensures
            width == self@.total_width,
    {
        self.total_width
    }

    pub fn total_height(&self) -> (height: i64)
        ensures
            height == self@.total_height,
    {
        self.total_height
    }

    /// The first page of the visible range, if any page is visible.
    pub fn get_first_visible_page(&self) -> (first: Option<usize>)
        ensures
            first == if self@.visible_pages.len() > 0 {
                Some(self@.visible_pages[0])
            } else {
                None
            },
    {
        if self.visible_pages.len() > 0 {
            Some(self.visible_pages[0])
        } else {
            None
        }
    }
}

} // verus!
