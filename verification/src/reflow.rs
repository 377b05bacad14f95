//! The text of a document, page by page, for reading aloud.

use crate::entity::{ReflowData, ReflowEntry};
use crate::numbers::{parse_usize, parsed_unsigned};
use crate::text::{decimal_digits, push_decimal};
use vstd::prelude::*;
use vstd::string::*;

verus! {

/// The fewest characters that a page must exceed to be worth reading aloud.
pub const MIN_REFLOW_CHARS: usize = 5;

/// The page that an entry belongs to: the number that its `page` field
/// writes, or zero if it writes none.
pub open spec fn entry_page(entry: ReflowEntry) -> nat {
    match parsed_unsigned(vstd::utf8::encode_utf8(entry.page@), usize::MAX as nat) {
        Some(n) => n,
        None => 0,
    }
}

/// The index of the first entry that belongs to `start_page` or a later
/// page; the number of entries if there is none.
pub open spec fn first_entry_from(entries: Seq<ReflowEntry>, start_page: nat, from: int) -> int
    decreases entries.len() - from,
{
    if from < 0 || from >= entries.len() {
        entries.len() as int
    } else if entry_page(entries[from]) >= start_page {
        from
    } else {
        first_entry_from(entries, start_page, from + 1)
    }
}

/// The pages among the first `n` texts that have more than
/// `MIN_REFLOW_CHARS` characters, in ascending order.
pub open spec fn pages_with_text(texts: Seq<String>, n: int) -> Seq<int>
    decreases n,
{
    if n <= 0 {
        Seq::empty()
    } else if texts[n - 1]@.len() > MIN_REFLOW_CHARS {
        pages_with_text(texts, n - 1).push(n - 1)
    } else {
        pages_with_text(texts, n - 1)
    }
}

/// Whether `entry` files the text of page `page` under that page's number.
pub open spec fn is_entry_for(entry: ReflowEntry, texts: Seq<String>, page: int) -> bool {
    &&& 0 <= page < texts.len()
    &&& entry.data@ == texts[page]@
    &&& entry.page@ == decimal_digits(page as nat)
}

/// The index of the first entry that belongs to `start_page` or a later page.
fn find_first_entry(entries: &Vec<ReflowEntry>, start_page: usize) -> (start: usize)
    ensures
        start as int == first_entry_from(entries@, start_page as nat, 0),
        start <= entries@.len(),
{
    let mut start: usize = 0;
    while start < entries.len()
        invariant
            start <= entries.len(),
            first_entry_from(entries@, start_page as nat, 0) == first_entry_from(
                entries@,
                start_page as nat,
                start as int,
            ),
        decreases entries.len() - start,
    {
        let page = match parse_usize(entries[start].page.as_str()) {
            Some(page) => page,
            None => 0,
        };
        if page >= start_page {
            return start;
        }
        start += 1;
    }
    start
}

/// The entries from the first one that belongs to `start_page` or a later
/// page up to the last.
pub fn reflow_from_page(entries: &Vec<ReflowEntry>, start_page: usize) -> (rest: Vec<ReflowEntry>)
    ensures
        rest@ == entries@.skip(first_entry_from(entries@, start_page as nat, 0)),
{
    let start = find_first_entry(entries, start_page);
    let mut rest: Vec<ReflowEntry> = Vec::new();
    let mut i: usize = start;
    while i < entries.len()
        invariant
            start <= i <= entries.len(),
            rest@ == entries@.subrange(start as int, i as int),
        decreases entries.len() - i,
    {
        rest.push(entries[i].clone());
        assert(rest@ =~= entries@.subrange(start as int, i as int + 1));
        i += 1;
    }
    assert(entries@.subrange(start as int, entries@.len() as int) =~= entries@.skip(start as int));
    rest
}

/// Makes the reflow data of a document out of the text of each of its
/// pages: a page is kept if its text has more than `MIN_REFLOW_CHARS`
/// characters, and is filed under its number in decimal.
pub fn build_reflow_data(texts: Vec<String>, file_size: u64) -> (data: ReflowData)
    ensures
        data.file_size == file_size,
        data.page_count == data.reflow@.len(),
        data.reflow@.len() == pages_with_text(texts@, texts@.len() as int).len(),
        forall|k: int|
            0 <= k < data.reflow@.len() ==> is_entry_for(
                #[trigger] data.reflow@[k],
                texts@,
                pages_with_text(texts@, texts@.len() as int)[k],
            ),
{
    let mut reflow: Vec<ReflowEntry> = Vec::new();
    let mut page: usize = 0;
    while page < texts.len()
        invariant
            page <= texts.len(),
            reflow@.len() == pages_with_text(texts@, page as int).len(),
            forall|k: int|
                0 <= k < reflow@.len() ==> is_entry_for(
                    #[trigger] reflow@[k],
                    texts@,
                    pages_with_text(texts@, page as int)[k],
                ),
        decreases texts.len() - page,
    {
        let ghost before = reflow@;
        if texts[page].as_str().unicode_len() > MIN_REFLOW_CHARS {
            let mut number = String::new();
            push_decimal(&mut number, page as u64);
            reflow.push(ReflowEntry { data: texts[page].clone(), page: number });
        }
        proof {
            assert forall|k: int| 0 <= k < reflow@.len() implies is_entry_for(
                #[trigger] reflow@[k],
                texts@,
                pages_with_text(texts@, page as int + 1)[k],
            ) by {
                if k < before.len() {
                    assert(reflow@[k] == before[k]);
                    assert(is_entry_for(before[k], texts@, pages_with_text(texts@, page as int)[k]));
                }
            }
        }
        page += 1;
    }
    let page_count = reflow.len();
    ReflowData { page_count, file_size, reflow }
}

} // verus!
