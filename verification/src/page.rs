//! A page as the view lays it out.

use crate::geometry::{add_coord, clamp_i64, sub_coord, Rect};
use crate::link::Link;
use crate::page_info::PageInfo;
use crate::tile::{node_key, tile_bounds, tile_lead_edge, tile_trail_edge, PageNode, TileConfig};
use vstd::prelude::*;

verus! {

/// A page with its place in the document, its tiles and its links.
pub struct Page {
    pub info: PageInfo,
    /// Bounds in document coordinates.
    pub bounds: Rect,
    /// The tiles, row by row.
    pub nodes: Vec<PageNode>,
    /// Links, in the page's native coordinates.
    pub links: Vec<Link>,
    /// Rendered width.
    pub width: i64,
    /// Rendered height.
    pub height: i64,
}

/// A tile as `PageNode::new` makes it.
pub open spec fn is_fresh_tile(node: PageNode, page_index: usize, bounds: Rect) -> bool {
    &&& node.page_index == page_index
    &&& node.bounds == bounds
    &&& node.cache_key@ == node_key(page_index, bounds)
    &&& node.bitmap is None
    &&& !node.is_decoding
}

/// `nodes` is the grid `config` of fresh tiles, row by row.
pub open spec fn is_tile_grid(nodes: Seq<PageNode>, page_index: usize, config: TileConfig) -> bool {
    &&& nodes.len() == config.x_blocks as int * config.y_blocks as int
    &&& forall|k: int|
        0 <= k < nodes.len() ==> is_fresh_tile(
            #[trigger] nodes[k],
            page_index,
            tile_bounds(k % (config.x_blocks as int), k / (config.x_blocks as int), config),
        )
}

/// `nodes` is what a page of the given rendered size is cut into: nothing
/// while the page has no size, else the grid that `TileConfig` gives.
pub open spec fn is_tiling(nodes: Seq<PageNode>, page_index: usize, width: int, height: int) -> bool {
    if width <= 0 || height <= 0 {
        nodes.len() == 0
    } else {
        is_tile_grid(nodes, page_index, TileConfig::spec_from_size(width, height))
    }
}

/// The index of the first link that holds the point, if any does.
pub open spec fn first_link_at(links: Seq<Link>, x: int, y: int) -> Option<int>
    decreases links.len(),
{
    if links.len() == 0 {
        None
    } else if links[0].bounds.spec_contains(x, y) {
        Some(0int)
    } else {
        match first_link_at(links.subrange(1, links.len() as int), x, y) {
            Some(i) => Some(i + 1),
            None => None,
        }
    }
}

/// What `first_link_at` finds, said without recursion.
pub proof fn lemma_first_link_at(links: Seq<Link>, x: int, y: int)
    ensures
        match first_link_at(links, x, y) {
            Some(i) => {
                &&& 0 <= i < links.len()
                &&& links[i].bounds.spec_contains(x, y)
                &&& forall|j: int| 0 <= j < i ==> !(#[trigger] links[j]).bounds.spec_contains(x, y)
            },
            None => forall|j: int|
                0 <= j < links.len() ==> !(#[trigger] links[j]).bounds.spec_contains(x, y),
        },
    decreases links.len(),
{
    if links.len() > 0 && !links[0].bounds.spec_contains(x, y) {
        let rest = links.subrange(1, links.len() as int);
        lemma_first_link_at(rest, x, y);
        match first_link_at(rest, x, y) {
            Some(i) => {
                assert forall|j: int| 0 <= j < i + 1 implies !(#[trigger] links[j]).bounds.spec_contains(
                    x,
                    y,
                ) by {
                    if j > 0 {
                        assert(links[j] == rest[j - 1]);
                    }
                }
            },
            None => {
                assert forall|j: int| 0 <= j < links.len() implies !(#[trigger] links[j]).bounds.spec_contains(
                    x,
                    y,
                ) by {
                    if j > 0 {
                        assert(links[j] == rest[j - 1]);
                    }
                }
            },
        }
    }
}

/// A position in a row-major grid gives back its column and its row.
pub proof fn lemma_grid_position(x: int, y: int, columns: int)
    requires
        0 <= x < columns,
        0 <= y,
    ensures
        (y * columns + x) % columns == x,
        (y * columns + x) / columns == y,
        y * columns + x >= 0,
{
    vstd::arithmetic::div_mod::lemma_fundamental_div_mod_converse(y * columns + x, columns, y, x);
    assert(y * columns >= 0) by (nonlinear_arith)
        requires
            y >= 0,
            columns > 0,
    ;
}

impl Page {
    pub fn new(info: PageInfo, width: i64, height: i64, x_offset: i64, y_offset: i64) -> (page: Page)
        ensures
            page.info == info,
            page.width == width,
            page.height == height,
            page.bounds == (Rect {
                left: x_offset,
                top: y_offset,
                right: clamp_i64(x_offset as int + width as int) as i64,
                bottom: clamp_i64(y_offset as int + height as int) as i64,
            }),
            page.links@.len() == 0,
            is_tiling(page.nodes@, info.index, width as int, height as int),
    {
        let bounds = Rect::new(
            x_offset,
            y_offset,
            add_coord(x_offset, width),
            add_coord(y_offset, height),
        );
        let mut page = Page { info, bounds, nodes: Vec::new(), links: Vec::new(), width, height };
        page.invalidate_nodes();
        page
    }

    /// Gives the page a new rendered size and place. The tiles stay as they are.
    pub fn update(&mut self, width: i64, height: i64, bounds: Rect)
        ensures
            final(self).width == width,
            final(self).height == height,
            final(self).bounds == bounds,
            final(self).info == old(self).info,
            final(self).nodes == old(self).nodes,
            final(self).links == old(self).links,
    {
        self.width = width;
        self.height = height;
        self.bounds = bounds;
    }

    pub fn x_offset(&self) -> (x: i64)
        ensures
            x == self.bounds.left,
    {
        self.bounds.left
    }

    pub fn y_offset(&self) -> (y: i64)
        ensures
            y == self.bounds.top,
    {
        self.bounds.top
    }

    /// Drops every tile, and with it every decoded bitmap.
    pub fn recycle(&mut self)
        ensures
            final(self).nodes@.len() == 0,
            final(self).info == old(self).info,
            final(self).bounds == old(self).bounds,
            final(self).links == old(self).links,
            final(self).width == old(self).width,
            final(self).height == old(self).height,
    {
        self.nodes.clear();
    }

    /// The first link under a point given in document coordinates.
    pub fn find_link_at(&self, x: i64, y: i64) -> (found: Option<&Link>)
        ensures
            match first_link_at(
                self.links@,
                clamp_i64(x as int - self.bounds.left as int),
                clamp_i64(y as int - self.bounds.top as int),
            ) {
                Some(i) => found == Some(&self.links@[i]),
                None => found is None,
            },
    {
        let page_x = sub_coord(x, self.bounds.left);
        let page_y = sub_coord(y, self.bounds.top);
        proof {
            lemma_first_link_at(self.links@, page_x as int, page_y as int);
        }
        let mut i: usize = 0;
        while i < self.links.len()
            invariant
                i <= self.links.len(),
                page_x as int == clamp_i64(x as int - self.bounds.left as int),
                page_y as int == clamp_i64(y as int - self.bounds.top as int),
                forall|j: int| 0 <= j < i ==> !(#[trigger] self.links@[j]).bounds.spec_contains(
                    page_x as int,
                    page_y as int,
                ),
            decreases self.links.len() - i,
        {
            if self.links[i].bounds.contains(page_x, page_y) {
                proof {
                    lemma_first_link_at(self.links@, page_x as int, page_y as int);
                    let hit = first_link_at(self.links@, page_x as int, page_y as int);
                    assert(self.links@[i as int].bounds.spec_contains(page_x as int, page_y as int));
                    assert(hit is Some);
                    let k = hit->0;
                    assert(self.links@[k].bounds.spec_contains(page_x as int, page_y as int));
                    assert(k == i);
                }
                return Some(&self.links[i]);
            }
            i += 1;
        }
        None
    }

    /// Cuts the page into tiles anew, according to its rendered size.
    pub fn invalidate_nodes(&mut self)
        ensures
            is_tiling(
                final(self).nodes@,
                old(self).info.index,
                old(self).width as int,
                old(self).height as int,
            ),
            final(self).info == old(self).info,
            final(self).bounds == old(self).bounds,
            final(self).links == old(self).links,
            final(self).width == old(self).width,
            final(self).height == old(self).height,
    {
        if self.width <= 0 || self.height <= 0 {
            self.nodes.clear();
            return;
        }
        let config = TileConfig::from_size(self.width, self.height);
        let index = self.info.index;
        let mut nodes: Vec<PageNode> = Vec::new();
        let mut y: u64 = 0;
        while y < config.y_blocks
            invariant
                y <= config.y_blocks,
                config.x_blocks >= 1,
                nodes@.len() == y as int * config.x_blocks as int,
                forall|k: int|
                    0 <= k < nodes@.len() ==> is_fresh_tile(
                        #[trigger] nodes@[k],
                        index,
                        tile_bounds(k % (config.x_blocks as int), k / (config.x_blocks as int), config),
                    ),
            decreases config.y_blocks - y,
        {
            let top = tile_lead_edge(y, config.y_blocks);
            let bottom = tile_trail_edge(y, config.y_blocks);
            let mut x: u64 = 0;
            while x < config.x_blocks
                invariant
                    x <= config.x_blocks,
                    y < config.y_blocks,
                    config.x_blocks >= 1,
                    top as int == crate::tile::tile_lead(y as int, config.y_blocks as int),
                    bottom as int == crate::tile::tile_trail(y as int, config.y_blocks as int),
                    nodes@.len() == y as int * config.x_blocks as int + x as int,
                    forall|k: int|
                        0 <= k < nodes@.len() ==> is_fresh_tile(
                            #[trigger] nodes@[k],
                            index,
                            tile_bounds(
                                k % (config.x_blocks as int),
                                k / (config.x_blocks as int),
                                config,
                            ),
                        ),
                decreases config.x_blocks - x,
            {
                let left = tile_lead_edge(x, config.x_blocks);
                let right = tile_trail_edge(x, config.x_blocks);
                let bounds = Rect::new(left, top, right, bottom);
                proof {
                    lemma_grid_position(x as int, y as int, config.x_blocks as int);
                    assert(bounds == tile_bounds(x as int, y as int, config));
                }
                let ghost before = nodes@;
                nodes.push(PageNode::new(index, bounds));
                proof {
                    assert forall|k: int| 0 <= k < nodes@.len() implies is_fresh_tile(
                        #[trigger] nodes@[k],
                        index,
                        tile_bounds(
                            k % (config.x_blocks as int),
                            k / (config.x_blocks as int),
                            config,
                        ),
                    ) by {
                        if k < before.len() {
                            assert(nodes@[k] == before[k]);
                        }
                    }
                }
                x += 1;
            }
            proof {
                assert((y as int + 1) * config.x_blocks as int == y as int * config.x_blocks as int
                    + config.x_blocks as int) by (nonlinear_arith);
            }
            y += 1;
        }
        proof {
            assert(y as int * config.x_blocks as int == config.x_blocks as int
                * config.y_blocks as int) by (nonlinear_arith)
                requires
                    y == config.y_blocks,
            ;
        }
        self.nodes = nodes;
    }
}

} // verus!
