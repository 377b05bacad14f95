//! Page numbers in link targets and outline entries.

use crate::numbers::{parse_unsigned_in, parsed_i32, parsed_unsigned};
use crate::entity::OutlineItem;
use crate::link::Link;
use vstd::prelude::*;
use vstd::slice::*;
use vstd::string::*;

verus! {

/// The bytes of `#page=`, which comes before a page number in a link target.
pub open spec fn page_marker() -> Seq<u8> {
    seq![35u8, 112u8, 97u8, 103u8, 101u8, 61u8]
}

/// Whether `#page=` stands in `s` at `at`.
pub open spec fn marker_at(s: Seq<u8>, at: int) -> bool {
    0 <= at && at + 6 <= s.len() && s.subrange(at, at + 6) == page_marker()
}

/// The first place at or after `from` where the byte `b` stands in `s`; the
/// length of `s` if there is none.
pub open spec fn index_of_byte(s: Seq<u8>, b: u8, from: int) -> int
    decreases s.len() - from,
{
    if from >= s.len() {
        s.len() as int
    } else if s[from] == b {
        from
    } else {
        index_of_byte(s, b, from + 1)
    }
}

/// The page that a link parameter names: the number between `#page=` at the
/// very start and the first `&` after it, or the end.
pub open spec fn param_page(s: Seq<u8>) -> Option<nat> {
    if marker_at(s, 0) {
        parsed_unsigned(s.subrange(6, index_of_byte(s, 38, 6)), usize::MAX as nat)
    } else {
        None
    }
}

/// A page number counted from one, turned into an index counted from zero;
/// numbers below one give zero.
pub open spec fn page_index_of(page: int) -> int {
    if page - 1 < 0 {
        0
    } else {
        page - 1
    }
}

/// The pattern that finds a page number in an outline entry's target: the
/// marker `#page=` and the digits behind it.
pub open spec fn page_pattern() -> Seq<char> {
    "#page=(\\d+)"@
}

/// What the regex crate finds for the first group of `pattern` in the
/// leftmost match in `text`: the text of that group, or nothing if there is
/// no match, if the group took no part in it, or if the pattern is not valid.
pub uninterp spec fn regex_first_group(pattern: Seq<char>, text: Seq<char>) -> Option<Seq<char>>;

/// The page index that an outline entry's target names, given the digits
/// that were found behind the marker `#page=`, if any were. If those digits
/// write a number that fits `i32`, that number decides; else the whole
/// target is read as a number; else the index is zero.
pub open spec fn uri_page(capture: Option<Seq<char>>, uri: Seq<char>) -> int {
    let marked = match capture {
        Some(digits) => parsed_i32(vstd::utf8::encode_utf8(digits)),
        None => None,
    };
    match marked {
        Some(page) => page_index_of(page),
        None => match parsed_i32(vstd::utf8::encode_utf8(uri)) {
            Some(page) => page_index_of(page),
            None => 0,
        },
    }
}

/// The text of an optional string.
pub open spec fn text_of(text: Option<String>) -> Option<Seq<char>> {
    match text {
        Some(found) => Some(found@),
        None => None,
    }
}

/// Calls `regex::Regex::new` on `pattern`, `Regex::captures` on `text` and
/// `Captures::get(1)` on what was found, and copies the text of that group.
/// The result is what the regex crate finds, and depends on the two texts
/// alone.
#[verifier::external_body]
fn first_group(pattern: &str, text: &str) -> (group: Option<String>)
    ensures
        text_of(group) == regex_first_group(pattern@, text@),
{
    let compiled = regex::Regex::new(pattern).ok()?;
    let captures = compiled.captures(text)?;
    captures.get(1).map(|found| found.as_str().to_string())
}

/// Whether `#page=` stands in `bytes` at `at`.
fn has_marker_at(bytes: &[u8], at: usize) -> (found: bool)
    requires
        at <= bytes@.len(),
    ensures
        found == marker_at(bytes@, at as int),
{
    if bytes.len() - at < 6 {
        return false;
    }
    let found = bytes[at] == 35 && bytes[at + 1] == 112 && bytes[at + 2] == 97 && bytes[at + 3]
        == 103 && bytes[at + 4] == 101 && bytes[at + 5] == 61;
    proof {
        let part = bytes@.subrange(at as int, at as int + 6);
        assert(part[0] == bytes@[at as int]);
        assert(part[1] == bytes@[at as int + 1]);
        assert(part[2] == bytes@[at as int + 2]);
        assert(part[3] == bytes@[at as int + 3]);
        assert(part[4] == bytes@[at as int + 4]);
        assert(part[5] == bytes@[at as int + 5]);
        if found {
            assert(part =~= page_marker());
        } else {
            assert(page_marker()[0] == 35 && page_marker()[1] == 112 && page_marker()[2] == 97
                && page_marker()[3] == 103 && page_marker()[4] == 101 && page_marker()[5] == 61);
        }
    }
    found
}

/// The page that a link parameter of the form `#page=12` or
/// `#page=12&zoom=...` names.
pub fn parse_page_from_param(page_param: &str) -> (page: Option<usize>)
    ensures
        match param_page(page_param.spec_bytes()) {
            Some(n) => page == Some(n as usize),
            None => page is None,
        },
{
    let bytes = page_param.as_bytes();
    if !has_marker_at(bytes, 0) {
        return None;
    }
    let mut end: usize = 6;
    while end < bytes.len() && bytes[end] != 38
        invariant
            6 <= end <= bytes@.len(),
            index_of_byte(bytes@, 38, 6) == index_of_byte(bytes@, 38, end as int),
        decreases bytes.len() - end,
    {
        end += 1;
    }
    match parse_unsigned_in(bytes, 6, end, usize::MAX as u64) {
        Some(n) => Some(n as usize),
        None => None,
    }
}

/// The page that a click on a link leads to: none for a link that carries
/// an address, else the page that the link's page parameter names.
pub open spec fn spec_link_target(link: Link) -> Option<nat> {
    if link.uri is Some {
        None
    } else {
        match link.page {
            Some(page) => param_page(vstd::utf8::encode_utf8(page@)),
            None => None,
        }
    }
}

/// The page that a click on a link leads to, if it leads to one.
pub fn link_target(link: &Link) -> (page: Option<usize>)
    ensures
        match spec_link_target(*link) {
            Some(n) => page == Some(n as usize),
            None => page is None,
        },
{
    if link.uri.is_some() {
        return None;
    }
    match &link.page {
        Some(page) => parse_page_from_param(page.as_str()),
        None => None,
    }
}

/// The index of the page that an outline entry's target names, given the
/// digits that were found behind the marker `#page=`, if any were.
pub fn page_from_capture(capture: Option<String>, uri: &str) -> (page: i32)
    ensures
        page as int == uri_page(text_of(capture), uri@),
{
    let marked = match &capture {
        Some(digits) => crate::numbers::parse_i32(digits.as_str()),
        None => None,
    };
    let page = match marked {
        Some(page) => Some(page),
        None => crate::numbers::parse_i32(uri),
    };
    match page {
        Some(page) => if page < 1 {
            0
        } else {
            page - 1
        },
        None => 0,
    }
}

/// The index of the page that an outline entry's target names: the number
/// behind the first `#page=` that digits follow, less one; else the whole
/// target read as a number, less one; else zero.
pub fn extract_page_from_uri(uri: &str) -> (page: i32)
    ensures
        page as int == uri_page(regex_first_group(page_pattern(), uri@), uri@),
{
    let capture = first_group("#page=(\\d+)", uri);
    page_from_capture(capture, uri)
}

/// An entry of a table of contents with the entries below it.
pub struct OutlineNode {
    pub title: String,
    pub uri: Option<String>,
    pub down: Vec<OutlineNode>,
}

/// The depth one below `level`; the largest depth has none below it.
pub open spec fn deeper(level: i32) -> i32 {
    if level < i32::MAX {
        (level + 1) as i32
    } else {
        level
    }
}

/// The entries of a table of contents in reading order, each with its depth:
/// every entry is followed by the entries below it, one level deeper.
pub open spec fn outline_rows(nodes: Seq<OutlineNode>, level: i32) -> Seq<(OutlineNode, i32)>
    decreases nodes,
{
    if nodes.len() == 0 {
        Seq::empty()
    } else {
        outline_rows(nodes.drop_last(), level) + seq![(nodes.last(), level)] + outline_rows(
            nodes.last().down@,
            deeper(level),
        )
    }
}

/// Whether `item` is the outline item of `node` at depth `level`: it has the
/// node's title and target, and its page is the one that the target names,
/// or the first page if there is no target.
pub open spec fn is_item_of(item: OutlineItem, node: OutlineNode, level: i32) -> bool {
    &&& item.title@ == node.title@
    &&& item.uri == node.uri
    &&& item.level == level
    &&& item.page as int == match node.uri {
        Some(uri) => uri_page(regex_first_group(page_pattern(), uri@), uri@),
        None => 0,
    }
}

/// Whether `items` are the outline items of `rows`, one for one.
pub open spec fn are_items_of(items: Seq<OutlineItem>, rows: Seq<(OutlineNode, i32)>) -> bool {
    &&& items.len() == rows.len()
    &&& forall|k: int| 0 <= k < items.len() ==> is_item_of(#[trigger] items[k], rows[k].0, rows[k].1)
}

/// Appends the outline items of `outlines` and of everything below them to
/// `items`, in reading order.
pub fn process_outline_hierarchy(outlines: &Vec<OutlineNode>, items: &mut Vec<OutlineItem>, level: i32)
    ensures
        final(items)@.len() == old(items)@.len() + outline_rows(outlines@, level).len(),
        final(items)@.take(old(items)@.len() as int) == old(items)@,
        are_items_of(
            final(items)@.skip(old(items)@.len() as int),
            outline_rows(outlines@, level),
        ),
    decreases outlines,
{
    let ghost start = items@;
    let mut i: usize = 0;
    assert(outlines@.take(0) =~= Seq::empty());
    assert(items@.take(start.len() as int) =~= start);
    assert(items@.skip(start.len() as int) =~= Seq::empty());
    while i < outlines.len()
        invariant
            i <= outlines.len(),
            items@.len() == start.len() + outline_rows(outlines@.take(i as int), level).len(),
            items@.take(start.len() as int) == start,
            are_items_of(
                items@.skip(start.len() as int),
                outline_rows(outlines@.take(i as int), level),
            ),
        decreases outlines.len() - i,
    {
        let node = &outlines[i];
        let ghost before = items@;
        let ghost rows_before = outline_rows(outlines@.take(i as int), level);
        let page = match &node.uri {
            Some(uri) => extract_page_from_uri(uri.as_str()),
            None => 0,
        };
        items.push(
            OutlineItem::new(
                node.title.clone(),
                crate::link::clone_optional_text(&node.uri),
                page,
                level,
            ),
        );
        let ghost pushed = items@;
        let next = if level < i32::MAX {
            level + 1
        } else {
            level
        };
        process_outline_hierarchy(&node.down, items, next);
        proof {
            let longer = outlines@.take(i as int + 1);
            assert(longer.drop_last() =~= outlines@.take(i as int));
            assert(longer.last() == outlines@[i as int]);
            let below = outline_rows(node.down@, deeper(level));
            let rows = outline_rows(longer, level);
            assert(rows == rows_before + seq![(*node, level)] + below);
            let tail = items@.skip(start.len() as int);
            assert(items@.take(pushed.len() as int) == pushed);
            assert(items@.take(start.len() as int) =~= start) by {
                assert(pushed.take(start.len() as int) =~= start);
                assert forall|k: int| 0 <= k < start.len() implies items@[k] == start[k] by {
                    assert(items@.take(pushed.len() as int)[k] == pushed[k]);
                    assert(pushed[k] == before[k]);
                    assert(before.take(start.len() as int)[k] == start[k]);
                }
            }
            assert forall|k: int| 0 <= k < tail.len() implies is_item_of(
                #[trigger] tail[k],
                rows[k].0,
                rows[k].1,
            ) by {
                if k < rows_before.len() {
                    assert(tail[k] == items@.take(pushed.len() as int)[start.len() + k]);
                    assert(pushed[start.len() + k] == before[start.len() + k]);
                    assert(before.skip(start.len() as int)[k] == before[start.len() + k]);
                } else if k == rows_before.len() {
                    assert(tail[k] == items@.take(pushed.len() as int)[start.len() + k]);
                } else {
                    let j = k - rows_before.len() - 1;
                    assert(tail[k] == items@.skip(pushed.len() as int)[j]);
                    assert(rows[k] == below[j]);
                }
            }
        }
        i += 1;
    }
    assert(outlines@.take(outlines@.len() as int) =~= outlines@);
}

/// The outline items of a table of contents, in reading order, the top
/// entries at depth zero.
pub fn load_outline_items(outlines: &Vec<OutlineNode>) -> (items: Vec<OutlineItem>)
    ensures
        are_items_of(items@, outline_rows(outlines@, 0)),
{
    let mut items: Vec<OutlineItem> = Vec::new();
    process_outline_hierarchy(outlines, &mut items, 0);
    assert(items@.skip(0) =~= items@);
    items
}

} // verus!
