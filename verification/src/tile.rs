//! Splitting an oversized page into a grid of overlapping tiles.

use crate::geometry::{clamp_i64, saturate, Rect};
use crate::text::{decimal_digits, push_decimal, push_ratio, ratio_text};
use image::DynamicImage;
use std::sync::Arc;
use vstd::prelude::*;
use vstd::string::*;

verus! {

/// Shortest edge that a tile of a split page may have.
pub const MIN_BLOCK_SIZE: i64 = 768_000;

/// Longest edge that a page may have before it is split.
pub const MAX_BLOCK_SIZE: i64 = 1_024_000;

/// The whole of a page in relative coordinates: tile bounds run from zero to
/// this value along both axes.
pub const RATIO_ONE: i64 = 1_000_000;

/// How far a tile reaches into each neighbour, in relative coordinates.
pub const TILE_OVERLAP: i64 = 1_000;

/// `a / b` rounded up, for a positive divisor.
pub open spec fn ceil_div(a: int, b: int) -> int {
    (a + b - 1) / b
}

/// The number of blocks along an edge of the given length: the fewest
/// blocks, and at least one, that are no longer than `MAX_BLOCK_SIZE` each.
pub open spec fn spec_block_count(length: int) -> int {
    if length <= MAX_BLOCK_SIZE as int {
        1
    } else {
        ceil_div(length, MAX_BLOCK_SIZE as int)
    }
}

/// The block count is the least number of blocks, one at least, that cover
/// the edge with blocks no longer than `MAX_BLOCK_SIZE`.
pub proof fn law_block_count_is_least(length: int, blocks: int)
    ensures
        spec_block_count(length) >= 1,
        length <= MAX_BLOCK_SIZE as int * spec_block_count(length),
        blocks >= 1 && length <= MAX_BLOCK_SIZE as int * blocks ==> spec_block_count(length)
            <= blocks,
{
}

/// The grid that a page is cut into.
#[derive(Clone, Copy, Debug, PartialEq, Eq, Structural)]
pub struct TileConfig {
    pub x_blocks: u64,
    pub y_blocks: u64,
}

impl TileConfig {
    /// The grid for a page of the given rendered size.
    pub open spec fn spec_from_size(width: int, height: int) -> TileConfig {
        if width <= MAX_BLOCK_SIZE as int && height <= MAX_BLOCK_SIZE as int {
            TileConfig { x_blocks: 1, y_blocks: 1 }
        } else {
            TileConfig {
                x_blocks: spec_block_count(width) as u64,
                y_blocks: spec_block_count(height) as u64,
            }
        }
    }

    pub fn is_single_block(&self) -> (single: bool)
        ensures
            single == (self.x_blocks == 1 && self.y_blocks == 1),
    {
        self.x_blocks == 1 && self.y_blocks == 1
    }

    pub fn from_size(width: i64, height: i64) -> (config: TileConfig)
        ensures
            config == Self::spec_from_size(width as int, height as int),
            config.x_blocks >= 1,
            config.y_blocks >= 1,
    {
        if width <= MAX_BLOCK_SIZE && height <= MAX_BLOCK_SIZE {
            return TileConfig { x_blocks: 1, y_blocks: 1 };
        }
        let x_blocks = Self::calc_block_count(width);
        let y_blocks = Self::calc_block_count(height);
        TileConfig { x_blocks, y_blocks }
    }

    pub fn calc_block_count(length: i64) -> (count: u64)
        ensures
            count as int == spec_block_count(length as int),
            count >= 1,
    {
        if length <= MIN_BLOCK_SIZE {
            return 1;
        }
        // The fewest blocks that are short enough; if that makes them too
        // short, the fewest blocks that are not longer than the least size.
        let wide: i128 = length as i128;
        let block_count: i128 = (wide + (MAX_BLOCK_SIZE as i128 - 1)) / (MAX_BLOCK_SIZE as i128);
        if (MIN_BLOCK_SIZE as i128) * block_count <= wide {
            block_count as u64
        } else {
            ((wide + (MIN_BLOCK_SIZE as i128 - 1)) / (MIN_BLOCK_SIZE as i128)) as u64
        }
    }
}

/// Where the `i`-th of `blocks` equal parts of the unit interval begins.
pub open spec fn block_start(i: int, blocks: int) -> int {
    (i * RATIO_ONE as int) / blocks
}

/// Leading edge of the `i`-th of `blocks` tiles: the first tile starts at
/// zero, every other one reaches `TILE_OVERLAP` into its predecessor, but
/// not beyond the page.
pub open spec fn tile_lead(i: int, blocks: int) -> int {
    if i == 0 || block_start(i, blocks) < TILE_OVERLAP as int {
        0
    } else {
        block_start(i, blocks) - TILE_OVERLAP as int
    }
}

/// Trailing edge of the `i`-th of `blocks` tiles: the last tile ends at
/// `RATIO_ONE`, every other one reaches `TILE_OVERLAP` into its successor,
/// but not beyond the page.
pub open spec fn tile_trail(i: int, blocks: int) -> int {
    if i == blocks - 1 || block_start(i + 1, blocks) + TILE_OVERLAP as int > RATIO_ONE as int {
        RATIO_ONE as int
    } else {
        block_start(i + 1, blocks) + TILE_OVERLAP as int
    }
}

/// Relative bounds of the tile in column `x` and row `y` of a grid.
pub open spec fn tile_bounds(x: int, y: int, config: TileConfig) -> Rect {
    Rect {
        left: tile_lead(x, config.x_blocks as int) as i64,
        top: tile_lead(y, config.y_blocks as int) as i64,
        right: tile_trail(x, config.x_blocks as int) as i64,
        bottom: tile_trail(y, config.y_blocks as int) as i64,
    }
}

/// Every block boundary lies inside the unit interval, and boundaries grow
/// with the block's number.
pub proof fn lemma_block_start_bounds(i: int, blocks: int)
    requires
        0 <= i <= blocks,
        0 < blocks,
    ensures
        0 <= block_start(i, blocks) <= RATIO_ONE as int,
        i == 0 ==> block_start(i, blocks) == 0,
        i == blocks ==> block_start(i, blocks) == RATIO_ONE as int,
        i < blocks ==> block_start(i, blocks) <= block_start(i + 1, blocks),
{
    let one = RATIO_ONE as int;
    assert(0 <= i * one <= blocks * one) by (nonlinear_arith)
        requires
            0 <= i <= blocks,
            one == 1_000_000,
    ;
    assert(0 <= (i * one) / blocks <= one) by (nonlinear_arith)
        requires
            0 <= i * one <= blocks * one,
            0 < blocks,
            one >= 0,
    ;
    if i == blocks {
        assert((blocks * one) / blocks == one) by (nonlinear_arith)
            requires
                0 < blocks,
        ;
    }
    if i < blocks {
        assert((i * one) / blocks <= ((i + 1) * one) / blocks) by (nonlinear_arith)
            requires
                0 <= i,
                0 < blocks,
                one >= 0,
        ;
    }
}

/// The tiles along an edge lie inside the page, begin at its start, end at
/// its end, and leave no gap: each reaches at least to where the next begins.
pub proof fn law_tiles_cover_the_edge(i: int, blocks: int)
    requires
        0 <= i < blocks,
    ensures
        0 <= tile_lead(i, blocks) <= tile_trail(i, blocks) <= RATIO_ONE as int,
        tile_lead(0, blocks) == 0,
        tile_trail(blocks - 1, blocks) == RATIO_ONE as int,
        i + 1 < blocks ==> tile_lead(i + 1, blocks) <= tile_trail(i, blocks),
{
    lemma_block_start_bounds(i, blocks);
    lemma_block_start_bounds(i + 1, blocks);
    lemma_block_start_bounds(0, blocks);
    lemma_block_start_bounds(blocks, blocks);
}

/// A page whose rendered width and height both stay within
/// `MAX_BLOCK_SIZE` gets one tile, and that tile covers the whole page.
pub proof fn law_small_page_is_one_tile(width: int, height: int)
    requires
        width <= MAX_BLOCK_SIZE as int,
        height <= MAX_BLOCK_SIZE as int,
    ensures
        TileConfig::spec_from_size(width, height) == (TileConfig { x_blocks: 1, y_blocks: 1 }),
        tile_bounds(0, 0, TileConfig::spec_from_size(width, height)) == (Rect {
            left: 0,
            top: 0,
            right: RATIO_ONE,
            bottom: RATIO_ONE,
        }),
{
    lemma_block_start_bounds(1, 1);
}

/// The leading edge of a tile, computed without overflow.
pub fn tile_lead_edge(i: u64, blocks: u64) -> (edge: i64)
    requires
        i < blocks,
    ensures
        edge as int == tile_lead(i as int, blocks as int),
{
    let start = block_boundary(i, blocks);
    if i == 0 || start < TILE_OVERLAP {
        0
    } else {
        start - TILE_OVERLAP
    }
}

/// The trailing edge of a tile, computed without overflow.
pub fn tile_trail_edge(i: u64, blocks: u64) -> (edge: i64)
    requires
        i < blocks,
    ensures
        edge as int == tile_trail(i as int, blocks as int),
{
    let next = block_boundary(i + 1, blocks);
    if i == blocks - 1 || next + TILE_OVERLAP > RATIO_ONE {
        RATIO_ONE
    } else {
        next + TILE_OVERLAP
    }
}

/// Endpoint of an edge of a tile, computed without overflow.
pub fn block_boundary(i: u64, blocks: u64) -> (b: i64)
    requires
        i <= blocks,
        0 < blocks,
    ensures
        b as int == block_start(i as int, blocks as int),
        0 <= b <= RATIO_ONE,
{
    proof {
        lemma_block_start_bounds(i as int, blocks as int);
        assert(0 <= i as int * RATIO_ONE as int <= 0xFFFF_FFFF_FFFF_FFFF * 1_000_000)
            by (nonlinear_arith)
            requires
                0 <= i as int <= 0xFFFF_FFFF_FFFF_FFFF,
                RATIO_ONE as int == 1_000_000,
        ;
    }
    let wide: u128 = (i as u128) * (RATIO_ONE as u128);
    (wide / (blocks as u128)) as i64
}

/// One tile of a page: a region that is decoded and cached on its own.
pub struct PageNode {
    pub page_index: usize,
    /// Bounds relative to the page, from zero to `RATIO_ONE`.
    pub bounds: Rect,
    pub cache_key: String,
    /// The decoded tile, once there is one.
    pub bitmap: Option<Arc<DynamicImage>>,
    pub is_decoding: bool,
}

/// The cache key of a tile: the page index and the four relative edges,
/// each written with two decimals, joined by underscores.
pub open spec fn node_key(page_index: usize, bounds: Rect) -> Seq<char> {
    decimal_digits(page_index as nat) + seq!['_'] + ratio_text(bounds.left as int) + seq!['_']
        + ratio_text(bounds.top as int) + seq!['_'] + ratio_text(bounds.right as int) + seq!['_']
        + ratio_text(bounds.bottom as int)
}

/// `value * extent / RATIO_ONE`, rounded towards minus infinity.
pub open spec fn scale_ratio(value: int, extent: int) -> int {
    (value * extent) / (RATIO_ONE as int)
}

/// The part `value / RATIO_ONE` of `extent`, moved by `offset` and saturated.
pub fn place_ratio(value: i64, extent: i64, offset: i64) -> (r: i64)
    ensures
        r as int == clamp_i64(scale_ratio(value as int, extent as int) + offset as int),
{
    proof {
        assert(-0x4000_0000_0000_0000_0000_0000_0000_0000 <= value as int * extent as int
            <= 0x4000_0000_0000_0000_0000_0000_0000_0000) by (nonlinear_arith)
            requires
                -0x8000_0000_0000_0000 <= value as int <= 0x7FFF_FFFF_FFFF_FFFF,
                -0x8000_0000_0000_0000 <= extent as int <= 0x7FFF_FFFF_FFFF_FFFF,
        ;
    }
    let product: i128 = (value as i128) * (extent as i128);
    let one: i128 = RATIO_ONE as i128;
    let quotient: i128 = if product >= 0 {
        product / one
    } else {
        -((-product + (one - 1)) / one)
    };
    assert(quotient as int == (product as int) / (RATIO_ONE as int));
    saturate(quotient + offset as i128)
}

impl PageNode {
    pub fn new(page_index: usize, bounds: Rect) -> (node: PageNode)
        ensures
            node.page_index == page_index,
            node.bounds == bounds,
            node.cache_key@ == node_key(page_index, bounds),
            node.bitmap is None,
            !node.is_decoding,
    {
        proof {
            reveal_strlit("_");
        }
        let mut cache_key = String::new();
        push_decimal(&mut cache_key, page_index as u64);
        cache_key.append("_");
        push_ratio(&mut cache_key, bounds.left);
        cache_key.append("_");
        push_ratio(&mut cache_key, bounds.top);
        cache_key.append("_");
        push_ratio(&mut cache_key, bounds.right);
        cache_key.append("_");
        push_ratio(&mut cache_key, bounds.bottom);
        assert(cache_key@ =~= node_key(page_index, bounds));
        PageNode { page_index, bounds, cache_key, bitmap: None, is_decoding: false }
    }

    /// The tile's bounds on a page of the given size placed at the given offset.
    pub open spec fn spec_pixel_rect(
        self,
        page_width: int,
        page_height: int,
        x_offset: int,
        y_offset: int,
    ) -> Rect {
        Rect {
            left: clamp_i64(scale_ratio(self.bounds.left as int, page_width) + x_offset) as i64,
            top: clamp_i64(scale_ratio(self.bounds.top as int, page_height) + y_offset) as i64,
            right: clamp_i64(scale_ratio(self.bounds.right as int, page_width) + x_offset) as i64,
            bottom: clamp_i64(scale_ratio(self.bounds.bottom as int, page_height) + y_offset) as i64,
        }
    }

    /// Turns the relative bounds into bounds in the document.
    pub fn to_pixel_rect(&self, page_width: i64, page_height: i64, x_offset: i64, y_offset: i64) -> (r: Rect)
        ensures
            r == self.spec_pixel_rect(
                page_width as int,
                page_height as int,
                x_offset as int,
                y_offset as int,
            ),
    {
        Rect::new(
            place_ratio(self.bounds.left, page_width, x_offset),
            place_ratio(self.bounds.top, page_height, y_offset),
            place_ratio(self.bounds.right, page_width, x_offset),
            place_ratio(self.bounds.bottom, page_height, y_offset),
        )
    }

    /// Gives up the decoded tile.
    pub fn recycle(&mut self)
        ensures
            final(self).bitmap is None,
            !final(self).is_decoding,
            final(self).page_index == old(self).page_index,
            final(self).bounds == old(self).bounds,
            final(self).cache_key == old(self).cache_key,
    {
        self.bitmap = None;
        self.is_decoding = false;
    }
}

} // verus!
