use rreader::decode_service::{
    DecodeService, DecodeTask, Priority, RenderPage, RequestOutcome, TaskReply,
};
use rreader::decoder::{DecodeError, Decoder};
use rreader::entity::{OutlineItem, ReflowEntry};
use rreader::geometry::{Orientation, Rect, Scale};
use rreader::link::Link;
use rreader::page_info::PageInfo;
use rreader::visibility::{PageBounds, VisibleRegion};

struct StubDecoder {
    pages: usize,
}

impl Decoder for StubDecoder {
    fn open(path: &str) -> Result<Self, DecodeError> {
        match path {
            "missing.pdf" => Err(DecodeError { message: "not found".to_string() }),
            "empty.pdf" => Ok(StubDecoder { pages: 0 }),
            _ => Ok(StubDecoder { pages: 3 }),
        }
    }

    fn page_count(&self) -> usize {
        self.pages
    }

    fn get_page_size(&self, index: usize) -> Result<(i64, i64), DecodeError> {
        if index < self.pages {
            Ok((100_000, 200_000))
        } else {
            Err(DecodeError { message: "Page index out of bounds".to_string() })
        }
    }

    fn get_all_pages(&self) -> Result<Vec<PageInfo>, DecodeError> {
        Ok((0..self.pages).map(|i| PageInfo::new(i, 100_000, 200_000)).collect())
    }

    fn render_page(&self, page: &PageInfo, crop: bool) -> Result<(Vec<u8>, u32, u32), DecodeError> {
        if page.index >= self.pages {
            return Err(DecodeError { message: "no such page".to_string() });
        }
        let fill = if crop { 1u8 } else { 0u8 };
        Ok((vec![fill; 4], 1, 1))
    }

    fn render_region(&self, _page_index: usize, _region: Rect, _scale: Scale) -> Result<(Vec<u8>, u32, u32), DecodeError> {
        Ok((vec![0u8; 4], 1, 1))
    }

    fn get_page_links(&self, page_index: usize) -> Result<Vec<Link>, DecodeError> {
        if page_index == 1 {
            Err(DecodeError { message: "no links".to_string() })
        } else {
            Ok(Vec::new())
        }
    }

    fn get_page_text(&self, page_index: usize) -> Result<String, DecodeError> {
        Ok(format!("page {}", page_index))
    }

    fn get_outline_items(&self) -> Result<Vec<OutlineItem>, DecodeError> {
        Ok(vec![OutlineItem::new("Chapter".to_string(), None, 2, 0)])
    }

    fn get_reflow_from_page(&self, start_page: usize) -> Result<Vec<ReflowEntry>, DecodeError> {
        Ok(vec![ReflowEntry { data: "words".to_string(), page: start_page.to_string() }])
    }

    fn close(&mut self) {}
}

fn request(key: &str, index: usize, bound: bool) -> RenderPage {
    RenderPage {
        key: key.to_string(),
        page_info: PageInfo::new(index, 100_000, 200_000),
        crop: 0,
        priority: Priority::Thumbnail,
        check_visible_region: bound,
    }
}

fn region_showing(indices: &[usize]) -> VisibleRegion {
    let mut region = VisibleRegion::new(Orientation::Vertical);
    region.rect = Rect::new(0, 0, 100, 100);
    for index in 0..5usize {
        let top = if indices.contains(&index) { 10 } else { 1000 };
        region.pages.push(PageBounds { index, bounds: Rect::new(0, top, 100, top + 50) });
    }
    region
}

#[test]
fn same_key_in_two_batches_is_decoded_once() {
    let mut service: DecodeService<StubDecoder> = DecodeService::new();
    service.load_pdf("book.pdf").unwrap();
    service.render_pages(vec![request("a", 0, true), request("b", 1, true)]);
    service.render_pages(vec![request("b", 1, true), request("a", 0, true), request("c", 2, true)]);
    assert_eq!(service.queue_len(), 3);
    let region = region_showing(&[0, 1, 2]);
    let mut outcomes = Vec::new();
    loop {
        let outcome = service.decode_next(&region);
        if outcome == RequestOutcome::Idle {
            break;
        }
        outcomes.push(outcome);
    }
    assert_eq!(outcomes, vec![RequestOutcome::Completed; 3]);
    let mut keys = Vec::new();
    while let Some(result) = service.try_recv_result() {
        keys.push(result.key);
    }
    assert_eq!(keys, vec!["a", "b", "c"]);
}

#[test]
fn duplicate_inside_one_batch_is_queued_once() {
    let mut service: DecodeService<StubDecoder> = DecodeService::new();
    service.render_pages(vec![request("a", 0, true), request("a", 0, true)]);
    assert_eq!(service.queue_len(), 1);
}

#[test]
fn key_may_be_queued_again_after_its_turn() {
    let mut service: DecodeService<StubDecoder> = DecodeService::new();
    service.load_pdf("book.pdf").unwrap();
    service.render_pages(vec![request("a", 0, true)]);
    let region = region_showing(&[0]);
    assert_eq!(service.decode_next(&region), RequestOutcome::Completed);
    service.render_pages(vec![request("a", 0, true)]);
    assert_eq!(service.queue_len(), 1);
}

#[test]
fn empty_batch_changes_nothing() {
    let mut service: DecodeService<StubDecoder> = DecodeService::new();
    service.load_pdf("book.pdf").unwrap();
    service.render_pages(vec![request("a", 0, false)]);
    service.render_pages(Vec::new());
    assert_eq!(service.queue_len(), 1);
    let region = region_showing(&[]);
    assert_eq!(service.decode_next(&region), RequestOutcome::Completed);
}

#[test]
fn unbound_request_goes_by_the_last_batch() {
    let mut service: DecodeService<StubDecoder> = DecodeService::new();
    service.load_pdf("book.pdf").unwrap();
    service.render_pages(vec![request("a", 0, false)]);
    service.render_pages(vec![request("b", 1, false)]);
    let region = region_showing(&[0, 1]);
    assert_eq!(service.decode_next(&region), RequestOutcome::Skipped);
    assert_eq!(service.decode_next(&region), RequestOutcome::Completed);
    let result = service.try_recv_result().unwrap();
    assert_eq!(result.key, "b");
    assert!(result.links.is_empty());
    assert!(service.try_recv_result().is_none());
}

#[test]
fn failed_decode_is_dropped_and_the_queue_goes_on() {
    let mut service: DecodeService<StubDecoder> = DecodeService::new();
    service.load_pdf("book.pdf").unwrap();
    service.render_pages(vec![request("far", 4, true), request("a", 0, true)]);
    let region = region_showing(&[0, 4]);
    assert_eq!(service.decode_next(&region), RequestOutcome::Failed);
    assert_eq!(service.decode_next(&region), RequestOutcome::Completed);
    assert_eq!(service.try_recv_result().unwrap().key, "a");
    assert!(service.try_recv_result().is_none());
}

#[test]
fn request_without_a_decoder_fails() {
    let mut service: DecodeService<StubDecoder> = DecodeService::new();
    service.render_pages(vec![request("a", 0, true)]);
    let region = region_showing(&[0]);
    assert_eq!(service.decode_next(&region), RequestOutcome::Failed);
    assert!(service.try_recv_result().is_none());
    assert_eq!(service.queue_len(), 0);
}

#[test]
fn crop_flag_is_handed_to_the_decoder() {
    let mut service: DecodeService<StubDecoder> = DecodeService::new();
    service.load_pdf("book.pdf").unwrap();
    let mut cropped = request("a", 0, true);
    cropped.crop = 1;
    service.render_pages(vec![cropped]);
    assert_eq!(service.decode_next(&region_showing(&[0])), RequestOutcome::Completed);
    assert_eq!(service.try_recv_result().unwrap().image_data, vec![1u8; 4]);
}

#[test]
fn tasks_are_answered_by_kind() {
    let mut service: DecodeService<StubDecoder> = DecodeService::new();
    let (exit, reply) = service.handle_task(DecodeTask::GetOutline);
    assert!(!exit);
    assert!(matches!(reply, TaskReply::Outline(Ok(ref items)) if items.is_empty()));
    let (_, reply) = service.handle_task(DecodeTask::GetPageText { page_index: 0 });
    assert!(matches!(reply, TaskReply::PageText(Err(ref e)) if e.message == "No decoder"));
    let (_, reply) = service.handle_task(DecodeTask::ExtractReflowData { start_page: 0 });
    assert!(matches!(reply, TaskReply::Reflow(Err(ref e)) if e.message == "No decoder"));
    let (_, reply) = service.handle_task(DecodeTask::LoadDocument { path: "missing.pdf".to_string() });
    assert!(matches!(reply, TaskReply::Pages(Err(ref e)) if e.message == "not found"));
    assert!(!service.has_decoder());
    let (exit, reply) = service.handle_task(DecodeTask::LoadDocument { path: "book.pdf".to_string() });
    assert!(!exit);
    assert!(matches!(reply, TaskReply::Pages(Ok(ref pages)) if pages.len() == 3));
    assert!(service.has_decoder());
    let (_, reply) = service.handle_task(DecodeTask::GetOutline);
    assert!(matches!(reply, TaskReply::Outline(Ok(ref items)) if items.len() == 1 && items[0].page == 2));
    let (_, reply) = service.handle_task(DecodeTask::GetPageText { page_index: 2 });
    assert!(matches!(reply, TaskReply::PageText(Ok(ref text)) if text == "page 2"));
    let (_, reply) = service.handle_task(DecodeTask::ExtractReflowData { start_page: 1 });
    assert!(matches!(reply, TaskReply::Reflow(Ok(ref entries)) if entries.len() == 1));
    let (exit, reply) = service.handle_task(DecodeTask::RenderPages { pages: vec![request("a", 0, true)] });
    assert!(!exit);
    assert!(matches!(reply, TaskReply::Nothing));
    assert_eq!(service.queue_len(), 1);
    let (exit, reply) = service.handle_task(DecodeTask::Shutdown);
    assert!(exit);
    assert!(matches!(reply, TaskReply::Nothing));
    assert_eq!(service.queue_len(), 1);
}

#[test]
fn destroy_drops_the_decoder_and_the_queue() {
    let mut service: DecodeService<StubDecoder> = DecodeService::new();
    service.load_pdf("book.pdf").unwrap();
    service.render_pages(vec![request("a", 0, true), request("b", 1, true)]);
    assert_eq!(service.decode_next(&region_showing(&[0])), RequestOutcome::Completed);
    service.destroy();
    assert!(!service.has_decoder());
    assert_eq!(service.queue_len(), 0);
    assert_eq!(service.try_recv_result().unwrap().key, "a");
}

#[test]
fn requests_compare_by_key_alone() {
    let a = request("a", 0, true);
    let mut other = request("a", 5, false);
    other.crop = 1;
    assert!(a == other);
    assert!(a != request("b", 0, true));
    let copy = a.clone();
    assert_eq!(copy.key, "a");
    assert_eq!(copy.page_info.index, 0);
}

#[test]
fn region_knows_only_pages_that_overlap_its_rectangle() {
    let region = region_showing(&[1, 3]);
    assert!(!region.is_page_visible(0));
    assert!(region.is_page_visible(1));
    assert!(region.is_page_visible(3));
    assert!(!region.is_page_visible(7));
    let mut sideways = VisibleRegion::new(Orientation::Horizontal);
    sideways.rect = Rect::new(100, 0, 200, 10);
    sideways.pages.push(PageBounds { index: 0, bounds: Rect::new(0, 500, 100, 600) });
    sideways.pages.push(PageBounds { index: 1, bounds: Rect::new(100, 500, 101, 600) });
    sideways.pages.push(PageBounds { index: 2, bounds: Rect::new(200, 0, 300, 10) });
    assert!(!sideways.is_page_visible(0));
    assert!(sideways.is_page_visible(1));
    assert!(!sideways.is_page_visible(2));
}

#[test]
fn queue_never_holds_a_key_twice() {
    let mut seed: u64 = 0xD1B5_4A32_D192_ED03;
    let mut service: DecodeService<StubDecoder> = DecodeService::new();
    service.load_pdf("book.pdf").unwrap();
    let mut model: Vec<String> = Vec::new();
    let region = region_showing(&[0, 1, 2]);
    for _ in 0..300 {
        seed = seed.wrapping_mul(6364136223846793005).wrapping_add(1442695040888963407);
        if (seed >> 40) % 4 == 0 {
            let outcome = service.decode_next(&region);
            if model.is_empty() {
                assert_eq!(outcome, RequestOutcome::Idle);
            } else {
                assert_eq!(outcome, RequestOutcome::Completed);
                let key = model.remove(0);
                assert_eq!(service.try_recv_result().unwrap().key, key);
            }
        } else {
            let mut batch = Vec::new();
            for _ in 0..((seed >> 20) % 4) {
                seed = seed.wrapping_mul(6364136223846793005).wrapping_add(1442695040888963407);
                let key = format!("k{}", (seed >> 40) % 6);
                if !model.contains(&key) {
                    model.push(key.clone());
                }
                batch.push(request(&key, ((seed >> 30) % 3) as usize, true));
            }
            service.render_pages(batch);
        }
        assert_eq!(service.queue_len(), model.len());
    }
}
