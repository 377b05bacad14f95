//! The capability that turns a document into page sizes, pixels, links and
//! text. The core never looks inside a decoder: it only hands requests over
//! and takes what comes back.

use crate::entity::{OutlineItem, ReflowEntry};
use crate::geometry::{Rect, Scale};
use crate::link::Link;
use crate::page_info::PageInfo;
use vstd::prelude::*;

verus! {

/// Why a decoder could not do what it was asked.
#[derive(Debug)]
pub struct DecodeError {
    pub message: String,
}

/// A document decoder. It is stateful and not reentrant, so it is owned by
/// one worker and called for one request at a time.
pub trait Decoder: Sized {
    /// Opens the document at `path`.
    fn open(path: &str) -> Result<Self, DecodeError>;

    fn page_count(&self) -> usize;

    /// Native width and height of a page.
    fn get_page_size(&self, index: usize) -> Result<(i64, i64), DecodeError>;

    fn get_all_pages(&self) -> Result<Vec<PageInfo>, DecodeError>;

    /// Renders a whole page at the scale that `page` carries. The result is
    /// the raw pixels, eight bits for each of red, green, blue and alpha, row
    /// by row, with the width and height in pixels.
    fn render_page(&self, page: &PageInfo, crop: bool) -> Result<(Vec<u8>, u32, u32), DecodeError>;

    /// Renders a region of a page, for tiles.
    fn render_region(&self, page_index: usize, region: Rect, scale: Scale) -> Result<
        (Vec<u8>, u32, u32),
        DecodeError,
    >;

    fn get_page_links(&self, page_index: usize) -> Result<Vec<Link>, DecodeError>;

    fn get_page_text(&self, page_index: usize) -> Result<String, DecodeError>;

    fn get_outline_items(&self) -> Result<Vec<OutlineItem>, DecodeError>;

    /// The text of the pages from `start_page` on.
    fn get_reflow_from_page(&self, start_page: usize) -> Result<Vec<ReflowEntry>, DecodeError>;

    fn close(&mut self);
}

} // verus!
