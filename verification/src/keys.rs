//! Render keys and the names of cover thumbnails.

use crate::page::Page;
use crate::page_info::PageInfo;
use crate::text::{decimal_digits, length_text, push_decimal, push_length};
use std::collections::hash_map::DefaultHasher;
use std::hash::Hasher;
use vstd::prelude::*;
use vstd::std_specs::hash::DefaultHasherAdditionalSpecFns;
use vstd::string::*;

verus! {

/// The render key of a page: its index, native width and native height,
/// joined by hyphens. The lengths are written in points, as `600` or
/// `595.276`.
pub open spec fn render_key(info: PageInfo) -> Seq<char> {
    decimal_digits(info.index as nat) + seq!['-'] + length_text(info.width as int) + seq!['-']
        + length_text(info.height as int)
}

/// Writes the render key of a page, under which its thumbnail is requested
/// and cached.
pub fn generate_thumbnail_key(page: &Page) -> (key: String)
    ensures
        key@ == render_key(page.info),
{
    proof {
        reveal_strlit("-");
    }
    let mut key = String::new();
    push_decimal(&mut key, page.info.index as u64);
    key.append("-");
    push_length(&mut key, page.info.width);
    key.append("-");
    push_length(&mut key, page.info.height);
    assert(key@ =~= render_key(page.info));
    key
}

/// What is fed to the hasher for a path: the bytes of the text, then one
/// byte `0xff` that marks its end.
pub open spec fn hashed_writes(path: &str) -> Seq<Seq<u8>> {
    seq![path.spec_bytes(), seq![0xffu8]]
}

/// The hash under which the cover thumbnail of the document at `path` is
/// kept: what the standard hasher makes of the path's bytes and an end mark.
pub fn generate_thumbnail_hash(path: &str) -> (hash: u64)
    ensures
        hash == DefaultHasher::spec_finish(hashed_writes(path)),
{
    let mut hasher = DefaultHasher::new();
    hasher.write(path.as_bytes());
    let mut end_mark: Vec<u8> = Vec::new();
    end_mark.push(0xffu8);
    hasher.write(end_mark.as_slice());
    assert(end_mark@ =~= seq![0xffu8]);
    assert(hasher@ =~= hashed_writes(path));
    hasher.finish()
}

/// The file name of a cover thumbnail: the hash in decimal and `.png`.
pub open spec fn thumbnail_file_name(hash: u64) -> Seq<char> {
    decimal_digits(hash as nat) + ".png"@
}

/// Writes the file name of a cover thumbnail.
pub fn make_thumbnail_file_name(hash: u64) -> (name: String)
    ensures
        name@ == thumbnail_file_name(hash),
{
    let mut name = String::new();
    push_decimal(&mut name, hash);
    name.append(".png");
    assert(name@ =~= thumbnail_file_name(hash));
    name
}

} // verus!
