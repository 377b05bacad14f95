//! Plain records that travel between the decoder and its consumers.

use vstd::prelude::*;

verus! {

/// One entry of a document's table of contents.
#[derive(Debug)]
pub struct OutlineItem {
    pub title: String,
    pub uri: Option<String>,
    /// Target page, counted from zero.
    pub page: i32,
    /// Depth in the table of contents; top-level entries have level zero.
    pub level: i32,
}

impl OutlineItem {
    pub fn new(title: String, uri: Option<String>, page: i32, level: i32) -> (item: OutlineItem)
        ensures
            item == (OutlineItem { title, uri, page, level }),
    {
        OutlineItem { title, uri, page, level }
    }
}

impl Clone for OutlineItem {
    fn clone(&self) -> (copy: OutlineItem)
        ensures
            copy == *self,
    {
        OutlineItem {
            title: self.title.clone(),
            uri: crate::link::clone_optional_text(&self.uri),
            page: self.page,
            level: self.level,
        }
    }
}

/// The text of one page, kept for reading aloud.
#[derive(Debug)]
pub struct ReflowEntry {
    pub data: String,
    /// The page number in decimal digits.
    pub page: String,
}

impl Clone for ReflowEntry {
    fn clone(&self) -> (copy: ReflowEntry)
        ensures
            copy == *self,
    {
        ReflowEntry { data: self.data.clone(), page: self.page.clone() }
    }
}

/// The text of a whole document, page by page.
#[derive(Debug)]
pub struct ReflowData {
    pub page_count: usize,
    pub file_size: u64,
    pub reflow: Vec<ReflowEntry>,
}

/// Descriptive fields of a document; each may be missing.
#[derive(Debug)]
pub struct Metadata {
    pub title: Option<String>,
    pub author: Option<String>,
    pub subject: Option<String>,
    pub creator: Option<String>,
    pub producer: Option<String>,
    pub creation_date: Option<String>,
    pub mod_date: Option<String>,
}

} // verus!
