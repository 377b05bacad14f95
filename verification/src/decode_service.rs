//! The decode worker: one decoder, a queue of render requests without
//! duplicates, and the check that drops a request whose page is no longer
//! visible when its turn comes.

use crate::decoder::{DecodeError, Decoder};
use crate::entity::{OutlineItem, ReflowEntry};
use crate::geometry::Scale;
use crate::link::Link;
use crate::page_info::PageInfo;
use crate::visibility::VisibleRegion;
use std::collections::VecDeque;
use vstd::prelude::*;
use vstd::string::*;

verus! {

/// How urgent a request is. Requests are served in the order in which they
/// were accepted; the priority travels with them.
#[derive(Clone, Copy, Debug, PartialEq, Eq, Structural)]
pub enum Priority {
    Thumbnail,
    FullImage,
    Cropped,
}

/// A request to render one page.
#[derive(Debug)]
pub struct RenderPage {
    /// Render key: also the cache key, and what duplicates are told by.
    pub key: String,
    /// The page as it was when the request was made.
    pub page_info: PageInfo,
    pub crop: i32,
    pub priority: Priority,
    /// Whether the request is held against the shared visible region when its
    /// turn comes. Without it, the request counts as visible while its key
    /// belongs to the batch that was submitted last.
    pub check_visible_region: bool,
}

impl Clone for RenderPage {
    fn clone(&self) -> (copy: RenderPage)
        ensures
            copy == *self,
    {
        RenderPage {
            key: self.key.clone(),
            page_info: self.page_info,
            crop: self.crop,
            priority: self.priority,
            check_visible_region: self.check_visible_region,
        }
    }
}

impl PartialEq for RenderPage {
    fn eq(&self, other: &RenderPage) -> (same: bool) {
        self.key == other.key
    }
}

impl vstd::std_specs::cmp::PartialEqSpecImpl for RenderPage {
    open spec fn obeys_eq_spec() -> bool {
        true
    }

    open spec fn eq_spec(&self, other: &RenderPage) -> bool {
        self.key@ == other.key@
    }
}

/// A message to the decode worker.
pub enum DecodeTask {
    LoadDocument { path: String },
    RenderPages { pages: Vec<RenderPage> },
    GetOutline,
    GetPageText { page_index: usize },
    ExtractReflowData { start_page: usize },
    Shutdown,
}

/// A rendered page on its way to the cache.
pub struct DecodeResult {
    pub key: String,
    pub page_info: PageInfo,
    /// Raw pixels, four bytes each.
    pub image_data: Vec<u8>,
    pub image_width: u32,
    pub image_height: u32,
    pub links: Vec<Link>,
}

/// Whether some request in the queue has this key.
pub open spec fn queue_has_key(queue: Seq<RenderPage>, key: Seq<char>) -> bool {
    exists|i: int| 0 <= i < queue.len() && (#[trigger] queue[i]).key@ == key
}

/// The queue after one request was offered: it goes to the tail unless its
/// key is queued already.
pub open spec fn enqueue(queue: Seq<RenderPage>, page: RenderPage) -> Seq<RenderPage> {
    if queue_has_key(queue, page.key@) {
        queue
    } else {
        queue.push(page)
    }
}

/// The queue after a batch was offered, request by request.
pub open spec fn enqueue_all(queue: Seq<RenderPage>, batch: Seq<RenderPage>) -> Seq<RenderPage>
    decreases batch.len(),
{
    if batch.len() == 0 {
        queue
    } else {
        enqueue_all(enqueue(queue, batch[0]), batch.subrange(1, batch.len() as int))
    }
}

/// The keys of a batch, in order.
pub open spec fn batch_keys(batch: Seq<RenderPage>) -> Seq<Seq<char>> {
    Seq::new(batch.len(), |i: int| batch[i].key@)
}

/// No two requests in the queue have the same key.
pub open spec fn no_duplicate_keys(queue: Seq<RenderPage>) -> bool {
    forall|i: int, j: int|
        0 <= i < j < queue.len() ==> (#[trigger] queue[i]).key@ != (#[trigger] queue[j]).key@
}

/// The longest edge of a cover thumbnail on screen.
pub const COVER_EXTENT: u64 = 300_000;

/// The scale at which the cover of a document is rendered: such that the
/// longer edge of the first page comes to `COVER_EXTENT` on screen after it
/// was rendered at twice that density. A page without a size gets the
/// denominator zero.
pub open spec fn cover_scale(width: i64, height: i64) -> Scale {
    let longest = if width >= height {
        width
    } else {
        height
    };
    Scale {
        num: COVER_EXTENT,
        den: if longest > 0 {
            (2 * longest) as u64
        } else {
            0
        },
    }
}

/// The first page of a document as it is rendered for the cover thumbnail:
/// the page itself at the cover's scale.
pub open spec fn spec_cover_page_info(first_page: PageInfo) -> PageInfo {
    PageInfo { scale: cover_scale(first_page.width, first_page.height), ..first_page }
}

/// The first page of a document as it is rendered for the cover thumbnail.
pub fn cover_page_info(first_page: &PageInfo) -> (cover: PageInfo)
    ensures
        cover == spec_cover_page_info(*first_page),
{
    let longest = if first_page.width >= first_page.height {
        first_page.width
    } else {
        first_page.height
    };
    let den: u64 = if longest > 0 {
        2 * (longest as u64)
    } else {
        0
    };
    PageInfo {
        index: first_page.index,
        width: first_page.width,
        height: first_page.height,
        scale: Scale::new(COVER_EXTENT, den),
        crop_bounds: first_page.crop_bounds,
    }
}

/// How many requests in the queue have this key.
pub open spec fn key_count(queue: Seq<RenderPage>, key: Seq<char>) -> nat
    decreases queue.len(),
{
    if queue.len() == 0 {
        0
    } else {
        key_count(queue.drop_last(), key) + if queue.last().key@ == key {
            1nat
        } else {
            0nat
        }
    }
}

/// Offering one request keeps a queue free of duplicates, and the keys in
/// the queue are then the ones that were there and the one that was offered.
pub proof fn lemma_enqueue(queue: Seq<RenderPage>, page: RenderPage)
    requires
        no_duplicate_keys(queue),
    ensures
        no_duplicate_keys(enqueue(queue, page)),
        forall|key: Seq<char>|
            queue_has_key(enqueue(queue, page), key) <==> queue_has_key(queue, key) || key
                == page.key@,
{
    let after = enqueue(queue, page);
    assert forall|key: Seq<char>| queue_has_key(after, key) <==> queue_has_key(queue, key) || key
        == page.key@ by {
        if queue_has_key(queue, key) {
            let i = choose|i: int| 0 <= i < queue.len() && (#[trigger] queue[i]).key@ == key;
            assert(after[i].key@ == key);
        }
        if key == page.key@ && !queue_has_key(queue, key) {
            assert(after[queue.len() as int].key@ == key);
        }
        if queue_has_key(after, key) {
            let i = choose|i: int| 0 <= i < after.len() && (#[trigger] after[i]).key@ == key;
            if i < queue.len() {
                assert(queue[i].key@ == key);
            }
        }
    }
    if !queue_has_key(queue, page.key@) {
        assert forall|i: int, j: int| 0 <= i < j < after.len() implies (#[trigger] after[i]).key@
            != (#[trigger] after[j]).key@ by {
            if j < queue.len() {
                assert(queue[i].key@ != queue[j].key@);
            } else {
                assert(queue[i].key@ != page.key@);
            }
        }
    }
}

/// Offering a batch keeps a queue free of duplicates, and the keys in the
/// queue are then the ones that were there and the ones of the batch.
pub proof fn lemma_enqueue_all(queue: Seq<RenderPage>, batch: Seq<RenderPage>)
    requires
        no_duplicate_keys(queue),
    ensures
        no_duplicate_keys(enqueue_all(queue, batch)),
        forall|key: Seq<char>|
            queue_has_key(enqueue_all(queue, batch), key) <==> queue_has_key(queue, key)
                || queue_has_key(batch, key),
    decreases batch.len(),
{
    if batch.len() > 0 {
        let rest = batch.subrange(1, batch.len() as int);
        let next = enqueue(queue, batch[0]);
        lemma_enqueue(queue, batch[0]);
        lemma_enqueue_all(next, rest);
        assert forall|key: Seq<char>|
            queue_has_key(enqueue_all(queue, batch), key) <==> queue_has_key(queue, key)
                || queue_has_key(batch, key) by {
            if queue_has_key(batch, key) {
                let i = choose|i: int| 0 <= i < batch.len() && (#[trigger] batch[i]).key@ == key;
                if i > 0 {
                    assert(rest[i - 1].key@ == key);
                }
            }
            if queue_has_key(rest, key) {
                let i = choose|i: int| 0 <= i < rest.len() && (#[trigger] rest[i]).key@ == key;
                assert(batch[i + 1].key@ == key);
            }
            if key == batch[0].key@ {
                assert(batch[0].key@ == key);
            }
        }
    }
}

/// Requests keep their turn: what was queued before a batch came in stays
/// at the head of the queue, in its old order, and the batch only adds to the
/// tail.
pub proof fn law_queue_keeps_its_order(queue: Seq<RenderPage>, batch: Seq<RenderPage>)
    ensures
        enqueue_all(queue, batch).len() >= queue.len(),
        enqueue_all(queue, batch).take(queue.len() as int) == queue,
    decreases batch.len(),
{
    if batch.len() > 0 {
        let next = enqueue(queue, batch[0]);
        let rest = batch.subrange(1, batch.len() as int);
        law_queue_keeps_its_order(next, rest);
        let after = enqueue_all(next, rest);
        assert(after.take(queue.len() as int) =~= queue) by {
            assert forall|i: int| 0 <= i < queue.len() implies after[i] == queue[i] by {
                assert(after.take(next.len() as int)[i] == next[i]);
            }
        }
    } else {
        assert(queue.take(queue.len() as int) =~= queue);
    }
}

/// In a queue without duplicates a key that is queued is queued once.
pub proof fn lemma_key_count(queue: Seq<RenderPage>, key: Seq<char>)
    requires
        no_duplicate_keys(queue),
    ensures
        key_count(queue, key) == if queue_has_key(queue, key) {
            1nat
        } else {
            0nat
        },
    decreases queue.len(),
{
    if queue.len() > 0 {
        let front = queue.drop_last();
        assert forall|i: int, j: int| 0 <= i < j < front.len() implies (#[trigger] front[i]).key@
            != (#[trigger] front[j]).key@ by {
            assert(queue[i].key@ != queue[j].key@);
        }
        lemma_key_count(front, key);
        if queue_has_key(front, key) {
            let i = choose|i: int| 0 <= i < front.len() && (#[trigger] front[i]).key@ == key;
            assert(queue[i].key@ == key);
            assert(queue[i].key@ != queue[queue.len() - 1].key@);
        } else if queue.last().key@ == key {
            assert(queue[queue.len() - 1].key@ == key);
        } else if queue_has_key(queue, key) {
            let i = choose|i: int| 0 <= i < queue.len() && (#[trigger] queue[i]).key@ == key;
            assert(front[i].key@ == key);
        }
    }
}

/// Two batches that hold the same key, submitted one after the other before
/// any request had its turn, leave exactly one request with that key in the
/// queue, so the page is decoded once.
pub proof fn law_same_key_is_queued_once(
    queue: Seq<RenderPage>,
    first: Seq<RenderPage>,
    second: Seq<RenderPage>,
    key: Seq<char>,
)
    requires
        no_duplicate_keys(queue),
        queue_has_key(first, key),
        queue_has_key(second, key),
    ensures
        key_count(enqueue_all(enqueue_all(queue, first), second), key) == 1,
        no_duplicate_keys(enqueue_all(enqueue_all(queue, first), second)),
{
    lemma_enqueue_all(queue, first);
    lemma_enqueue_all(enqueue_all(queue, first), second);
    lemma_key_count(enqueue_all(enqueue_all(queue, first), second), key);
}

/// What a request came to when its turn arrived.
#[derive(Clone, Copy, Debug, PartialEq, Eq, Structural)]
pub enum RequestOutcome {
    /// Nothing was queued.
    Idle,
    /// The page was no longer visible; nothing was decoded.
    Skipped,
    /// The page was decoded and a result was emitted.
    Completed,
    /// The decoder failed, or there was none; the request was dropped.
    Failed,
}

/// What the worker answers to a task.
pub enum TaskReply {
    Pages(Result<Vec<PageInfo>, DecodeError>),
    Outline(Result<Vec<OutlineItem>, DecodeError>),
    PageText(Result<String, DecodeError>),
    Reflow(Result<Vec<ReflowEntry>, DecodeError>),
    /// The task asks for no answer.
    Nothing,
}

/// The state of the worker, as contracts see it.
pub struct ServiceModel<D> {
    /// Requests that wait for their turn, the next one first.
    pub queue: Seq<RenderPage>,
    /// Keys of the batch that was submitted last.
    pub expected: Seq<Seq<char>>,
    /// Results that were emitted and not yet taken, the oldest first.
    pub results: Seq<DecodeResult>,
    /// The decoder of the open document, if one is open.
    pub decoder: Option<D>,
}

impl<D> ServiceModel<D> {
    /// Whether a document is open.
    pub open spec fn has_decoder(self) -> bool {
        self.decoder is Some
    }
}

/// Whether `result` is what a rendered request is turned into: the request's
/// key and page, the pixels as they came, and the links that were found.
pub open spec fn is_result_of(
    result: DecodeResult,
    request: RenderPage,
    data: Seq<u8>,
    width: u32,
    height: u32,
    links: Seq<Link>,
) -> bool {
    &&& result.key@ == request.key@
    &&& result.page_info == request.page_info
    &&& result.image_data@ == data
    &&& result.image_width == width
    &&& result.image_height == height
    &&& result.links@ == links
}

/// Whether the request asks for the page without its margins.
pub open spec fn wants_crop(request: RenderPage) -> bool {
    request.crop != 0
}

/// The links that were read, or none if they could not be read.
pub open spec fn found_links(links: Result<Vec<Link>, DecodeError>) -> Seq<Link> {
    match links {
        Ok(found) => found@,
        Err(_) => Seq::empty(),
    }
}

/// Whether `result` is what is emitted for `request` once the decoder has
/// answered `rendered` to the render and `links` to the question for the
/// page's links. Nothing is asked of a render that failed.
pub open spec fn is_emitted(
    result: DecodeResult,
    request: RenderPage,
    rendered: Result<(Vec<u8>, u32, u32), DecodeError>,
    links: Result<Vec<Link>, DecodeError>,
) -> bool {
    match rendered {
        Ok(pixels) => is_result_of(
            result,
            request,
            pixels.0@,
            pixels.1,
            pixels.2,
            found_links(links),
        ),
        Err(_) => true,
    }
}

/// Whether `key` is among `keys`.
pub open spec fn has_key(keys: Seq<Seq<char>>, key: Seq<char>) -> bool {
    exists|i: int| 0 <= i < keys.len() && #[trigger] keys[i] == key
}

/// Whether a request is still wanted when its turn comes: by the shared
/// visible region if the request is bound to it, else by the last batch.
pub open spec fn still_visible(
    request: RenderPage,
    region: VisibleRegion,
    expected: Seq<Seq<char>>,
) -> bool {
    if request.check_visible_region {
        region.spec_is_page_visible(request.page_info.index)
    } else {
        has_key(expected, request.key@)
    }
}

/// Turns the pixels of a rendered request into the result that is emitted.
/// Links that could not be read count as none.
pub fn finish_request(
    request: RenderPage,
    pixels: (Vec<u8>, u32, u32),
    links: Result<Vec<Link>, DecodeError>,
) -> (result: DecodeResult)
    ensures
        is_result_of(
            result,
            request,
            pixels.0@,
            pixels.1,
            pixels.2,
            match links {
                Ok(found) => found@,
                Err(_) => Seq::empty(),
            },
        ),
{
    let found = match links {
        Ok(found) => found,
        Err(_) => Vec::new(),
    };
    DecodeResult {
        key: request.key,
        page_info: request.page_info,
        image_data: pixels.0,
        image_width: pixels.1,
        image_height: pixels.2,
        links: found,
    }
}

/// The pixels of a render that succeeded; nothing of one that failed.
pub open spec fn kept_pixels(rendered: Result<(Vec<u8>, u32, u32), DecodeError>) -> Option<
    (Vec<u8>, u32, u32),
> {
    match rendered {
        Ok(pixels) => Some(pixels),
        Err(_) => None,
    }
}

/// Whether `after` and `pages` are what the worker makes of an attempt to
/// open a document while it holds the decoder `before`: a decoder that
/// opened is the one the worker holds from then on, and the pages are what
/// that decoder gives as its page list; a failure to open is handed on and
/// leaves the worker with the decoder it had.
pub open spec fn is_adoption<D: Decoder>(
    before: Option<D>,
    opened: Result<D, DecodeError>,
    after: Option<D>,
    pages: Result<Vec<PageInfo>, DecodeError>,
) -> bool {
    match opened {
        Ok(decoder) => after == Some(decoder) && call_ensures(
            D::get_all_pages,
            (&decoder,),
            pages,
        ),
        Err(error) => after == before && pages == Err::<Vec<PageInfo>, DecodeError>(error),
    }
}

/// The decode worker's state: the decoder it owns, the queue of requests and
/// the results that wait to be taken.
pub struct DecodeService<D: Decoder> {
    decoder: Option<D>,
    task_queue: VecDeque<RenderPage>,
    current_visible: Vec<String>,
    results: VecDeque<DecodeResult>,
}

impl<D: Decoder> View for DecodeService<D> {
    type V = ServiceModel<D>;

    closed spec fn view(&self) -> ServiceModel<D> {
        ServiceModel {
            queue: self.task_queue@,
            expected: Seq::new(self.current_visible@.len(), |i: int| self.current_visible@[i]@),
            results: self.results@,
            decoder: self.decoder,
        }
    }
}

impl<D: Decoder> DecodeService<D> {
    /// A worker without a document and with nothing to do.
    pub fn new() -> (service: Self)
        ensures
            service@.queue.len() == 0,
            service@.expected.len() == 0,
            service@.results.len() == 0,
            !service@.has_decoder(),
    {
        DecodeService {
            decoder: None,
            task_queue: VecDeque::new(),
            current_visible: Vec::new(),
            results: VecDeque::new(),
        }
    }

    /// Whether a request with this key waits in the queue.
    fn is_queued(&self, key: &String) -> (queued: bool)
        ensures
            queued == queue_has_key(self@.queue, key@),
    {
        let mut i: usize = 0;
        while i < self.task_queue.len()
            invariant
                i <= self.task_queue@.len(),
                forall|j: int| 0 <= j < i ==> (#[trigger] self.task_queue@[j]).key@ != key@,
            decreases self.task_queue@.len() - i,
        {
            if self.task_queue[i].key == *key {
                return true;
            }
            i += 1;
        }
        false
    }

    /// Whether this key belongs to the batch that was submitted last.
    fn is_expected(&self, key: &String) -> (expected: bool)
        ensures
            expected == has_key(self@.expected, key@),
    {
        let mut i: usize = 0;
        while i < self.current_visible.len()
            invariant
                i <= self.current_visible@.len(),
                forall|j: int| 0 <= j < i ==> #[trigger] self@.expected[j] != key@,
            decreases self.current_visible@.len() - i,
        {
            if self.current_visible[i] == *key {
                assert(self@.expected[i as int] == key@);
                return true;
            }
            i += 1;
        }
        false
    }

    /// Takes a batch of requests in: the batch becomes the one that was
    /// submitted last, and each request goes to the tail of the queue unless
    /// one with its key waits there already.
    pub fn accept_batch(&mut self, pages: Vec<RenderPage>)
        ensures
            final(self)@.queue == enqueue_all(old(self)@.queue, pages@),
            final(self)@.expected == batch_keys(pages@),
            final(self)@.results == old(self)@.results,
            final(self)@.decoder == old(self)@.decoder,
            no_duplicate_keys(old(self)@.queue) ==> no_duplicate_keys(final(self)@.queue),
    {
        proof {
            if no_duplicate_keys(old(self)@.queue) {
                lemma_enqueue_all(old(self)@.queue, pages@);
            }
        }
        let mut keys: Vec<String> = Vec::new();
        let mut i: usize = 0;
        assert(pages@.subrange(0, pages@.len() as int) =~= pages@);
        while i < pages.len()
            invariant
                i <= pages.len(),
                keys@.len() == i,
                forall|j: int| 0 <= j < i ==> (#[trigger] keys@[j])@ == pages@[j].key@,
                self.results == old(self).results,
                self.decoder == old(self).decoder,
                enqueue_all(self.task_queue@, pages@.subrange(i as int, pages@.len() as int))
                    == enqueue_all(old(self)@.queue, pages@),
            decreases pages.len() - i,
        {
            let page = pages[i].clone();
            keys.push(page.key.clone());
            proof {
                let rest = pages@.subrange(i as int, pages@.len() as int);
                assert(rest[0] == pages@[i as int]);
                assert(rest.subrange(1, rest.len() as int) =~= pages@.subrange(
                    i as int + 1,
                    pages@.len() as int,
                ));
            }
            if !self.is_queued(&page.key) {
                self.task_queue.push_back(page);
            }
            i += 1;
        }
        self.current_visible = keys;
        proof {
            assert(pages@.subrange(pages@.len() as int, pages@.len() as int).len() == 0);
            assert(self@.expected =~= batch_keys(pages@));
        }
    }

    /// Submits a batch of requests. An empty batch changes nothing.
    pub fn render_pages(&mut self, pages: Vec<RenderPage>)
        ensures
            no_duplicate_keys(old(self)@.queue) ==> no_duplicate_keys(final(self)@.queue),
            pages@.len() == 0 ==> final(self)@ == old(self)@,
            pages@.len() > 0 ==> {
                &&& final(self)@.queue == enqueue_all(old(self)@.queue, pages@)
                &&& final(self)@.expected == batch_keys(pages@)
                &&& final(self)@.results == old(self)@.results
                &&& final(self)@.decoder == old(self)@.decoder
            },
    {
        if pages.len() > 0 {
            self.accept_batch(pages);
        }
    }

    /// Opens the document at `path` and reads its page list. The decoder that
    /// was open before is replaced as soon as the new document opens.
    pub fn load_pdf(&mut self, path: &str) -> (pages: Result<Vec<PageInfo>, DecodeError>)
        ensures
            final(self)@.queue == old(self)@.queue,
            final(self)@.expected == old(self)@.expected,
            final(self)@.results == old(self)@.results,
            pages is Ok ==> final(self)@.has_decoder(),
            old(self)@.has_decoder() ==> final(self)@.has_decoder(),
            exists|opened: Result<D, DecodeError>|
                call_ensures(D::open, (path,), opened) && is_adoption(
                    old(self).opened(),
                    opened,
                    final(self).opened(),
                    pages,
                ),
    {
        let opened = D::open(path);
        let ghost outcome = opened;
        let pages = self.adopt_document(opened);
        assert(call_ensures(D::open, (path,), outcome) && is_adoption(
            old(self).opened(),
            outcome,
            self.opened(),
            pages,
        ));
        pages
    }

    /// Takes in what came of opening a document. A decoder that opened
    /// replaces the one that was open before and is asked for its page list;
    /// a failure to open is handed on and changes nothing.
    pub fn adopt_document(&mut self, opened: Result<D, DecodeError>) -> (pages: Result<
        Vec<PageInfo>,
        DecodeError,
    >)
        ensures
            match opened {
                Ok(_) => {
                    &&& final(self)@.has_decoder()
                    &&& final(self)@.queue == old(self)@.queue
                    &&& final(self)@.expected == old(self)@.expected
                    &&& final(self)@.results == old(self)@.results
                },
                Err(error) => pages == Err::<Vec<PageInfo>, DecodeError>(error) && final(self)@
                    == old(self)@,
            },
            is_adoption(old(self).opened(), opened, final(self).opened(), pages),
    {
        match opened {
            Ok(decoder) => {
                let pages = decoder.get_all_pages();
                self.decoder = Some(decoder);
                pages
            },
            Err(error) => Err(error),
        }
    }

    /// The table of contents of the open document; empty while none is open.
    pub fn get_outline(&self) -> (outline: Result<Vec<OutlineItem>, DecodeError>)
        ensures
            !self@.has_decoder() ==> outline is Ok && outline->Ok_0@.len() == 0,
            match self.opened() {
                Some(decoder) => call_ensures(D::get_outline_items, (&decoder,), outline),
                None => outline is Ok && outline->Ok_0@.len() == 0,
            },
    {
        match &self.decoder {
            Some(decoder) => decoder.get_outline_items(),
            None => Ok(Vec::new()),
        }
    }

    /// The text of a page; an error while no document is open.
    pub fn get_page_text(&self, page_index: usize) -> (text: Result<String, DecodeError>)
        ensures
            !self@.has_decoder() ==> text is Err && text->Err_0.message@ == "No decoder"@,
            match self.opened() {
                Some(decoder) => call_ensures(D::get_page_text, (&decoder, page_index), text),
                None => text is Err && text->Err_0.message@ == "No decoder"@,
            },
    {
        match &self.decoder {
            Some(decoder) => decoder.get_page_text(page_index),
            None => Err(DecodeError { message: String::from_str("No decoder") }),
        }
    }

    /// The text of the pages from `start_page` on; an error while no document
    /// is open.
    pub fn get_reflow_from_page(&self, start_page: usize) -> (entries: Result<
        Vec<ReflowEntry>,
        DecodeError,
    >)
        ensures
            !self@.has_decoder() ==> entries is Err && entries->Err_0.message@ == "No decoder"@,
            match self.opened() {
                Some(decoder) => call_ensures(
                    D::get_reflow_from_page,
                    (&decoder, start_page),
                    entries,
                ),
                None => entries is Err && entries->Err_0.message@ == "No decoder"@,
            },
    {
        match &self.decoder {
            Some(decoder) => decoder.get_reflow_from_page(start_page),
            None => Err(DecodeError { message: String::from_str("No decoder") }),
        }
    }

    /// Handles one task and says whether the worker is to stop, which only
    /// `Shutdown` asks for. The second part of the result is the answer for
    /// whoever sent the task.
    pub fn handle_task(&mut self, task: DecodeTask) -> (outcome: (bool, TaskReply))
        ensures
            outcome.0 == (task is Shutdown),
            final(self)@.results == old(self)@.results,
            no_duplicate_keys(old(self)@.queue) ==> no_duplicate_keys(final(self)@.queue),
            match task {
                DecodeTask::LoadDocument { path } => {
                    &&& outcome.1 is Pages
                    &&& final(self)@.queue == old(self)@.queue
                    &&& final(self)@.expected == old(self)@.expected
                    &&& outcome.1->Pages_0 is Ok ==> final(self)@.has_decoder()
                    &&& old(self)@.has_decoder() ==> final(self)@.has_decoder()
                    &&& exists|text: &str, opened: Result<D, DecodeError>|
                        text@ == path@ && call_ensures(D::open, (text,), opened) && is_adoption(
                            old(self).opened(),
                            opened,
                            final(self).opened(),
                            outcome.1->Pages_0,
                        )
                },
                DecodeTask::RenderPages { pages } => {
                    &&& outcome.1 is Nothing
                    &&& final(self)@.queue == enqueue_all(old(self)@.queue, pages@)
                    &&& final(self)@.expected == batch_keys(pages@)
                    &&& final(self)@.decoder == old(self)@.decoder
                },
                DecodeTask::GetOutline => {
                    &&& outcome.1 is Outline
                    &&& final(self)@ == old(self)@
                    &&& match old(self).opened() {
                        Some(decoder) => call_ensures(
                            D::get_outline_items,
                            (&decoder,),
                            outcome.1->Outline_0,
                        ),
                        None => outcome.1->Outline_0 is Ok && outcome.1->Outline_0->Ok_0@.len()
                            == 0,
                    }
                },
                DecodeTask::GetPageText { page_index } => {
                    &&& outcome.1 is PageText
                    &&& final(self)@ == old(self)@
                    &&& match old(self).opened() {
                        Some(decoder) => call_ensures(
                            D::get_page_text,
                            (&decoder, page_index),
                            outcome.1->PageText_0,
                        ),
                        None => outcome.1->PageText_0 is Err
                            && outcome.1->PageText_0->Err_0.message@ == "No decoder"@,
                    }
                },
                DecodeTask::ExtractReflowData { start_page } => {
                    &&& outcome.1 is Reflow
                    &&& final(self)@ == old(self)@
                    &&& match old(self).opened() {
                        Some(decoder) => call_ensures(
                            D::get_reflow_from_page,
                            (&decoder, start_page),
                            outcome.1->Reflow_0,
                        ),
                        None => outcome.1->Reflow_0 is Err
                            && outcome.1->Reflow_0->Err_0.message@ == "No decoder"@,
                    }
                },
                DecodeTask::Shutdown => {
                    &&& outcome.1 is Nothing
                    &&& final(self)@ == old(self)@
                },
            },
    {
        match task {
            DecodeTask::LoadDocument { path } => {
                let text = path.as_str();
                let pages = self.load_pdf(text);
                proof {
                    let opened = choose|opened: Result<D, DecodeError>|
                        call_ensures(D::open, (text,), opened) && is_adoption(
                            old(self).opened(),
                            opened,
                            self.opened(),
                            pages,
                        );
                    assert(text@ == path@ && call_ensures(D::open, (text,), opened) && is_adoption(
                        old(self).opened(),
                        opened,
                        self.opened(),
                        pages,
                    ));
                }
                (false, TaskReply::Pages(pages))
            },
            DecodeTask::RenderPages { pages } => {
                self.accept_batch(pages);
                (false, TaskReply::Nothing)
            },
            DecodeTask::GetOutline => (false, TaskReply::Outline(self.get_outline())),
            DecodeTask::GetPageText { page_index } => (
                false,
                TaskReply::PageText(self.get_page_text(page_index)),
            ),
            DecodeTask::ExtractReflowData { start_page } => (
                false,
                TaskReply::Reflow(self.get_reflow_from_page(start_page)),
            ),
            DecodeTask::Shutdown => (true, TaskReply::Nothing),
        }
    }

    /// Gives the next queued request its turn. The request leaves the queue.
    /// It is skipped, with nothing decoded and nothing emitted, exactly when it
    /// is no longer visible; else it is handed to the decoder, and a result is
    /// emitted if the decoder renders the page.
    pub fn decode_next(&mut self, region: &VisibleRegion) -> (outcome: RequestOutcome)
        ensures
            final(self)@.expected == old(self)@.expected,
            final(self)@.decoder == old(self)@.decoder,
            no_duplicate_keys(old(self)@.queue) ==> no_duplicate_keys(final(self)@.queue),
            old(self)@.queue.len() == 0 ==> outcome == RequestOutcome::Idle && final(self)@ == old(
                self,
            )@,
            old(self)@.queue.len() > 0 ==> {
                let request = old(self)@.queue[0];
                let visible = still_visible(request, *region, old(self)@.expected);
                &&& final(self)@.queue == old(self)@.queue.subrange(
                    1,
                    old(self)@.queue.len() as int,
                )
                &&& outcome != RequestOutcome::Idle
                &&& (outcome == RequestOutcome::Skipped <==> !visible)
                &&& (visible && !old(self)@.has_decoder() ==> outcome == RequestOutcome::Failed)
                &&& (visible ==> match old(self).opened() {
                    Some(decoder) => exists|rendered: Result<(Vec<u8>, u32, u32), DecodeError>|
                        {
                            &&& call_ensures(
                                D::render_page,
                                (&decoder, &request.page_info, wants_crop(request)),
                                rendered,
                            )
                            &&& (rendered is Ok <==> outcome == RequestOutcome::Completed)
                            &&& rendered is Ok ==> exists|links: Result<Vec<Link>, DecodeError>|
                                call_ensures(
                                    D::get_page_links,
                                    (&decoder, request.page_info.index),
                                    links,
                                ) && is_emitted(
                                    final(self)@.results.last(),
                                    request,
                                    rendered,
                                    links,
                                )
                        },
                    None => outcome == RequestOutcome::Failed,
                })
                &&& (outcome != RequestOutcome::Completed ==> final(self)@.results == old(
                    self,
                )@.results)
                &&& (outcome == RequestOutcome::Completed ==> {
                    &&& final(self)@.results.len() == old(self)@.results.len() + 1
                    &&& final(self)@.results.drop_last() == old(self)@.results
                    &&& final(self)@.results.last().key@ == request.key@
                    &&& final(self)@.results.last().page_info == request.page_info
                })
            },
    {
        let request = match self.task_queue.pop_front() {
            Some(request) => request,
            None => {
                return RequestOutcome::Idle;
            },
        };
        proof {
            if no_duplicate_keys(old(self)@.queue) {
                assert forall|i: int, j: int| 0 <= i < j < self@.queue.len() implies (
                #[trigger] self@.queue[i]).key@ != (#[trigger] self@.queue[j]).key@ by {
                    assert(old(self)@.queue[i + 1].key@ != old(self)@.queue[j + 1].key@);
                }
            }
        }
        let visible = if request.check_visible_region {
            region.is_page_visible(request.page_info.index)
        } else {
            self.is_expected(&request.key)
        };
        if !visible {
            return RequestOutcome::Skipped;
        }
        let ghost head = request;
        match &self.decoder {
            Some(decoder) => {
                let rendered = decoder.render_page(&request.page_info, request.crop != 0);
                let ghost answer = rendered;
                match rendered {
                    Ok(pixels) => {
                        let links = decoder.get_page_links(request.page_info.index);
                        let ghost found = links;
                        let result = finish_request(request, pixels, links);
                        self.results.push_back(result);
                        proof {
                            assert(self@.results.drop_last() =~= old(self)@.results);
                            assert(call_ensures(
                                D::render_page,
                                (decoder, &head.page_info, wants_crop(head)),
                                answer,
                            ) && call_ensures(
                                D::get_page_links,
                                (decoder, head.page_info.index),
                                found,
                            ) && is_emitted(self@.results.last(), head, answer, found));
                        }
                        RequestOutcome::Completed
                    },
                    Err(_) => {
                        proof {
                            assert(call_ensures(
                                D::render_page,
                                (decoder, &head.page_info, wants_crop(head)),
                                answer,
                            ) && answer is Err);
                        }
                        RequestOutcome::Failed
                    },
                }
            },
            None => RequestOutcome::Failed,
        }
    }

    /// Renders the cover thumbnail of the open document from its first page,
    /// uncropped. There is none while no document is open or if the decoder
    /// fails.
    pub fn render_cover_thumbnail(&self, first_page: &PageInfo) -> (cover: Option<
        (Vec<u8>, u32, u32),
    >)
        ensures
            !self@.has_decoder() ==> cover is None,
            match self.opened() {
                Some(decoder) => exists|rendered: Result<(Vec<u8>, u32, u32), DecodeError>|
                    call_ensures(
                        D::render_page,
                        (&decoder, &spec_cover_page_info(*first_page), false),
                        rendered,
                    ) && cover == kept_pixels(rendered),
                None => cover is None,
            },
    {
        let info = cover_page_info(first_page);
        match &self.decoder {
            Some(decoder) => {
                let rendered = decoder.render_page(&info, false);
                let ghost outcome = rendered;
                let cover = match rendered {
                    Ok(pixels) => Some(pixels),
                    Err(_) => None,
                };
                assert(call_ensures(D::render_page, (decoder, &info, false), outcome) && cover
                    == kept_pixels(outcome));
                cover
            },
            None => None,
        }
    }

    /// Shuts the worker down: the decoder is closed and given up, and what
    /// still waits in the queue is dropped. Results that were emitted stay.
    pub fn destroy(&mut self)
        ensures
            !final(self)@.has_decoder(),
            final(self)@.queue.len() == 0,
            final(self)@.expected.len() == 0,
            final(self)@.results == old(self)@.results,
    {
        let taken = self.decoder.take();
        if let Some(mut decoder) = taken {
            decoder.close();
        }
        self.task_queue.clear();
        self.current_visible.clear();
    }

    /// How many requests wait for their turn.
    pub fn queue_len(&self) -> (n: usize)
        ensures
            n == self@.queue.len(),
    {
        self.task_queue.len()
    }

    /// The decoder that the worker holds, if a document is open.
    pub open spec fn opened(&self) -> Option<D> {
        self@.decoder
    }

    /// A document is open exactly when the worker holds a decoder.
    pub proof fn lemma_open_document_has_decoder(&self)
        ensures
            self@.has_decoder() == (self.opened() is Some),
    {
    }

    /// Whether a document is open.
    pub fn has_decoder(&self) -> (open: bool)
        ensures
            open == self@.has_decoder(),
    {
        self.decoder.is_some()
    }

    /// Takes the oldest result that was emitted and not yet taken.
    pub fn try_recv_result(&mut self) -> (result: Option<DecodeResult>)
        ensures
            old(self)@.results.len() == 0 ==> result is None && final(self)@ == old(self)@,
            old(self)@.results.len() > 0 ==> {
                &&& result == Some(old(self)@.results[0])
                &&& final(self)@.results == old(self)@.results.subrange(
                    1,
                    old(self)@.results.len() as int,
                )
                &&& final(self)@.queue == old(self)@.queue
                &&& final(self)@.expected == old(self)@.expected
                &&& final(self)@.decoder == old(self)@.decoder
            },
    {
        self.results.pop_front()
    }
}

impl<D: Decoder> Default for DecodeService<D> {
    fn default() -> (service: Self)
        ensures
            service@.queue.len() == 0,
            service@.results.len() == 0,
            !service@.has_decoder(),
    {
        DecodeService::new()
    }
}

} // verus!
