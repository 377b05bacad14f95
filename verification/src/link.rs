//! Links found on a page.

use crate::geometry::Rect;
use vstd::prelude::*;
use vstd::slice::*;
use vstd::string::*;

verus! {

/// Where a link leads.
#[derive(Clone, Copy, Debug, PartialEq, Eq, Structural)]
pub enum LinkType {
    /// To another page of the same document.
    Page,
    /// To an address outside the document.
    Url,
    Unknown,
}

/// A clickable region of a page, in the page's native coordinates.
#[derive(Debug)]
pub struct Link {
    pub bounds: Rect,
    pub uri: Option<String>,
    pub page: Option<String>,
    pub link_type: LinkType,
}

/// A copy of an optional string.
pub fn clone_optional_text(text: &Option<String>) -> (copy: Option<String>)
    ensures
        copy == *text,
{
    match text {
        Some(s) => Some(s.clone()),
        None => None,
    }
}

impl Clone for Link {
    fn clone(&self) -> (copy: Link)
        ensures
            copy == *self,
    {
        Link {
            bounds: self.bounds,
            uri: clone_optional_text(&self.uri),
            page: clone_optional_text(&self.page),
            link_type: self.link_type,
        }
    }
}

/// Whether the bytes begin with `http`.
pub open spec fn is_web_address(bytes: Seq<u8>) -> bool {
    bytes.len() >= 4 && bytes[0] == 104 && bytes[1] == 116 && bytes[2] == 116 && bytes[3] == 112
}

/// Whether the bytes begin with `#`.
pub open spec fn is_page_reference(bytes: Seq<u8>) -> bool {
    bytes.len() >= 1 && bytes[0] == 35
}

/// The kind of link that a target makes: one that begins with `http` leads
/// outside, one that begins with `#` leads to a page, and of any other
/// nothing is known.
pub open spec fn link_type_of(bytes: Seq<u8>) -> LinkType {
    if is_web_address(bytes) {
        LinkType::Url
    } else if is_page_reference(bytes) {
        LinkType::Page
    } else {
        LinkType::Unknown
    }
}

impl Link {
    /// The link with the given bounds and target. The target is kept as the
    /// address of a link that leads outside and as the page of a link that
    /// leads to a page; of a link of unknown kind it is dropped.
    pub fn from_uri(bounds: Rect, uri: String) -> (link: Link)
        ensures
            link.bounds == bounds,
            link.link_type == link_type_of(vstd::utf8::encode_utf8(uri@)),
            link.uri == if link.link_type is Url {
                Some(uri)
            } else {
                None
            },
            link.page == if link.link_type is Page {
                Some(uri)
            } else {
                None
            },
    {
        let bytes = uri.as_str().as_bytes();
        let web = bytes.len() >= 4 && bytes[0] == 104 && bytes[1] == 116 && bytes[2] == 116
            && bytes[3] == 112;
        let reference = bytes.len() >= 1 && bytes[0] == 35;
        if web {
            Link { bounds, uri: Some(uri), page: None, link_type: LinkType::Url }
        } else if reference {
            Link { bounds, uri: None, page: Some(uri), link_type: LinkType::Page }
        } else {
            Link { bounds, uri: None, page: None, link_type: LinkType::Unknown }
        }
    }
}

} // verus!
