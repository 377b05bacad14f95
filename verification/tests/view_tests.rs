use rreader::decode_service::{DecodeResult, DecodeService, Priority, RenderPage, RequestOutcome};
use rreader::decoder::{DecodeError, Decoder};
use rreader::entity::{OutlineItem, ReflowEntry};
use rreader::geometry::{Orientation, Rect, Scale};
use rreader::keys::generate_thumbnail_key;
use rreader::link::{Link, LinkType};
use rreader::page_info::PageInfo;
use rreader::view_state::PageViewState;

struct BlankDecoder;

impl Decoder for BlankDecoder {
    fn open(path: &str) -> Result<Self, DecodeError> {
        if path.is_empty() {
            Err(DecodeError { message: "no path".to_string() })
        } else {
            Ok(BlankDecoder)
        }
    }

    fn page_count(&self) -> usize {
        10
    }

    fn get_page_size(&self, _index: usize) -> Result<(i64, i64), DecodeError> {
        Ok((600_000, 800_000))
    }

    fn get_all_pages(&self) -> Result<Vec<PageInfo>, DecodeError> {
        Ok(ten_pages())
    }

    fn render_page(&self, page: &PageInfo, _crop: bool) -> Result<(Vec<u8>, u32, u32), DecodeError> {
        if page.index == 9 {
            Err(DecodeError { message: "corrupt page".to_string() })
        } else {
            Ok((vec![0u8; 16], 2, 2))
        }
    }

    fn render_region(&self, _page_index: usize, _region: Rect, _scale: Scale) -> Result<(Vec<u8>, u32, u32), DecodeError> {
        Ok((vec![0u8; 4], 1, 1))
    }

    fn get_page_links(&self, _page_index: usize) -> Result<Vec<Link>, DecodeError> {
        Ok(vec![Link {
            bounds: Rect::new(10_000, 10_000, 20_000, 20_000),
            uri: None,
            page: Some("#page=3".to_string()),
            link_type: LinkType::Page,
        }])
    }

    fn get_page_text(&self, _page_index: usize) -> Result<String, DecodeError> {
        Ok("text".to_string())
    }

    fn get_outline_items(&self) -> Result<Vec<OutlineItem>, DecodeError> {
        Ok(vec![OutlineItem::new("Start".to_string(), None, 0, 0)])
    }

    fn get_reflow_from_page(&self, _start_page: usize) -> Result<Vec<ReflowEntry>, DecodeError> {
        Ok(Vec::new())
    }

    fn close(&mut self) {}
}

fn ten_pages() -> Vec<PageInfo> {
    (0..10).map(|i| PageInfo::new(i, 600_000, 800_000)).collect()
}

fn opened_view() -> PageViewState {
    let mut state = PageViewState::new(Orientation::Vertical, 0);
    state.open_document(Ok(ten_pages()), Ok(Vec::new())).unwrap();
    state.update_view_size(800_000, 600_000, 1000, false);
    state
}

#[test]
fn ten_pages_are_scaled_to_the_viewport_width() {
    let state = opened_view();
    assert_eq!(state.pages().len(), 10);
    for (i, page) in state.pages().iter().enumerate() {
        assert_eq!(page.width, 800_000);
        assert_eq!(page.height, 1_066_666);
        assert_eq!(page.bounds.top, 1_066_666 * i as i64);
        assert_eq!(page.bounds.bottom, 1_066_666 * (i as i64 + 1));
        assert_eq!(page.bounds.left, 0);
        assert_eq!(page.bounds.right, 800_000);
        assert_eq!(page.info.scale, Scale::new(800_000, 600_000));
    }
    assert_eq!(state.total_width(), 800_000);
    assert_eq!(state.total_height(), 10_666_660);
    let total = state.total_height() as f64 / 1000.0;
    assert!((total - 10666.7).abs() < 0.1);
}

#[test]
fn first_visible_page_at_origin_is_page_zero() {
    let mut state = opened_view();
    let batch = state.update_visible_pages();
    assert_eq!(state.get_first_visible_page(), Some(0));
    assert_eq!(state.visible_pages(), &vec![0, 1]);
    assert_eq!(batch.len(), 2);
    assert_eq!(batch[0].key, "0-600-800");
    assert_eq!(batch[0].priority, Priority::Thumbnail);
}

#[test]
fn jump_to_page_one_aligns_its_top_with_the_viewport() {
    let mut state = opened_view();
    state.update_offset(-5, 0);
    let offset = state.jump_to_page(1);
    assert_eq!(offset, Some((-5, -1_066_666)));
    assert_eq!(state.view_offset(), (-5, -1_066_666));
    let y = offset.unwrap().1 as f64 / 1000.0;
    assert!((y + 1066.67).abs() < 0.01);
    state.update_visible_pages();
    assert_eq!(state.get_first_visible_page(), Some(1));
}

#[test]
fn jump_beyond_the_last_page_returns_nothing() {
    let mut state = opened_view();
    state.update_offset(3, 4);
    assert_eq!(state.jump_to_page(10), None);
    assert_eq!(state.view_offset(), (3, 4));
}

#[test]
fn jump_target_is_always_in_the_visible_range() {
    for target in 0..10 {
        let mut state = opened_view();
        state.jump_to_page(target);
        state.update_visible_pages();
        assert!(state.visible_pages().contains(&target));
    }
}

#[test]
fn total_height_is_the_sum_of_scaled_heights() {
    let sizes = [(600_000i64, 800_000i64), (595_000, 842_000), (1_000_000, 500_000), (300_000, 900_000)];
    let infos: Vec<PageInfo> = sizes.iter().enumerate().map(|(i, (w, h))| PageInfo::new(i, *w, *h)).collect();
    let mut state = PageViewState::new(Orientation::Vertical, 0);
    state.open_document(Ok(infos), Ok(Vec::new())).unwrap();
    state.update_view_size(1_024_000, 768_000, 1500, false);
    let target = 1_024_000i64 * 1500 / 1000;
    let expected: i64 = sizes.iter().map(|(w, h)| h * target / w).sum();
    assert_eq!(state.total_height(), expected);
    assert_eq!(state.total_width(), target);
}

#[test]
fn horizontal_layout_is_the_transpose() {
    let mut state = PageViewState::new(Orientation::Horizontal, 0);
    state.open_document(Ok(ten_pages()), Ok(Vec::new())).unwrap();
    state.update_view_size(800_000, 600_000, 1000, false);
    assert_eq!(state.total_height(), 600_000);
    assert_eq!(state.total_width(), 10 * 450_000);
    assert_eq!(state.pages()[2].bounds, Rect::new(900_000, 0, 1_350_000, 600_000));
    assert_eq!(state.jump_to_page(2), Some((-900_000, 0)));
}

#[test]
fn repeated_view_size_is_a_no_op_unless_forced() {
    let mut state = opened_view();
    state.update_view_size(800_000, 600_000, 1000, false);
    assert_eq!(state.total_height(), 10_666_660);
    state.update_view_size(800_000, 600_000, 2000, false);
    assert_eq!(state.total_height(), 21_333_330);
    state.update_zoom(1000);
    assert_eq!(state.total_height(), 10_666_660);
}

#[test]
fn zero_viewport_lays_nothing_out() {
    let mut state = PageViewState::new(Orientation::Vertical, 0);
    state.open_document(Ok(ten_pages()), Ok(Vec::new())).unwrap();
    state.update_view_size(0, 600_000, 1000, true);
    assert_eq!(state.total_height(), 0);
    assert_eq!(state.pages()[3].height, 0);
    let batch = state.update_visible_pages();
    assert!(batch.is_empty());
    assert!(state.visible_pages().is_empty());
}

fn brute_force_visible(state: &PageViewState) -> Vec<usize> {
    let (_, oy) = state.view_offset();
    let (_, vh) = state.view_size();
    let lead = -(oy as i128);
    let trail = lead + vh as i128 + vh as i128;
    state
        .pages()
        .iter()
        .enumerate()
        .filter(|(_, p)| (p.bounds.bottom as i128) > lead && (p.bounds.top as i128) < trail)
        .map(|(i, _)| i)
        .collect()
}

#[test]
fn resolver_agrees_with_a_linear_scan() {
    let mut seed: u64 = 0x2545_F491_4F6C_DD1D;
    for _ in 0..200 {
        let mut infos = Vec::new();
        seed = seed.wrapping_mul(6364136223846793005).wrapping_add(1442695040888963407);
        let count = (seed >> 33) % 30;
        for i in 0..count as usize {
            seed = seed.wrapping_mul(6364136223846793005).wrapping_add(1442695040888963407);
            let w = 100_000 + ((seed >> 20) % 900_000) as i64;
            seed = seed.wrapping_mul(6364136223846793005).wrapping_add(1442695040888963407);
            let h = ((seed >> 20) % 1_500_000) as i64;
            infos.push(PageInfo::new(i, w, h));
        }
        let mut state = PageViewState::new(Orientation::Vertical, 0);
        state.open_document(Ok(infos), Ok(Vec::new())).unwrap();
        state.update_view_size(800_000, 600_000, 1000, false);
        seed = seed.wrapping_mul(6364136223846793005).wrapping_add(1442695040888963407);
        let offset = ((seed >> 16) % 40_000_000) as i64 - 5_000_000;
        state.update_offset(0, -offset);
        state.update_visible_pages();
        assert_eq!(state.visible_pages(), &brute_force_visible(&state));
    }
}

#[test]
fn viewport_above_the_document_sees_nothing() {
    let mut state = opened_view();
    state.update_offset(0, 2_000_000);
    let batch = state.update_visible_pages();
    assert!(state.visible_pages().is_empty());
    assert!(batch.is_empty());
    assert_eq!(state.get_first_visible_page(), None);
}

#[test]
fn cached_page_is_not_requested_again() {
    let mut state = opened_view();
    let mut service: DecodeService<BlankDecoder> = DecodeService::new();
    let key = generate_thumbnail_key(&state.pages()[0]);
    let stored = state.apply_result(DecodeResult {
        key: key.clone(),
        page_info: state.pages()[0].info,
        image_data: vec![0u8; 16],
        image_width: 2,
        image_height: 2,
        links: Vec::new(),
    });
    assert!(stored);
    let before = service.queue_len();
    let batch = state.update_visible_pages();
    assert!(batch.iter().all(|r| r.key != key));
    let only_cached: Vec<RenderPage> = batch.into_iter().filter(|r| r.page_info.index == 0).collect();
    service.render_pages(only_cached);
    assert_eq!(service.queue_len(), before);
}

#[test]
fn page_scrolled_out_of_view_is_skipped() {
    let mut state = opened_view();
    let mut service: DecodeService<BlankDecoder> = DecodeService::new();
    service.load_pdf("book.pdf").unwrap();
    let batch = state.update_visible_pages();
    let keys: Vec<String> = batch.iter().map(|r| r.key.clone()).collect();
    service.render_pages(batch);
    assert_eq!(service.queue_len(), 2);
    state.jump_to_page(8);
    state.update_visible_pages();
    let region = state.visible_region();
    assert_eq!(service.decode_next(&region), RequestOutcome::Skipped);
    assert_eq!(service.decode_next(&region), RequestOutcome::Skipped);
    assert_eq!(service.decode_next(&region), RequestOutcome::Idle);
    let mut emitted = Vec::new();
    while let Some(result) = service.try_recv_result() {
        emitted.push(result.key);
    }
    assert!(emitted.iter().all(|k| !keys.contains(k)));
    assert!(emitted.is_empty());
}

#[test]
fn visible_request_is_decoded_and_emitted_once() {
    let mut state = opened_view();
    let mut service: DecodeService<BlankDecoder> = DecodeService::new();
    service.load_pdf("book.pdf").unwrap();
    let batch = state.update_visible_pages();
    service.render_pages(batch);
    let again = state.update_visible_pages();
    service.render_pages(again);
    assert_eq!(service.queue_len(), 2);
    let region = state.visible_region();
    assert_eq!(service.decode_next(&region), RequestOutcome::Completed);
    assert_eq!(service.decode_next(&region), RequestOutcome::Completed);
    assert_eq!(service.decode_next(&region), RequestOutcome::Idle);
    let first = service.try_recv_result().unwrap();
    assert_eq!(first.key, "0-600-800");
    assert_eq!(first.page_info.index, 0);
    assert_eq!(first.image_width, 2);
    assert_eq!(first.links.len(), 1);
    let second = service.try_recv_result().unwrap();
    assert_eq!(second.key, "1-600-800");
    assert!(service.try_recv_result().is_none());
    assert!(state.apply_result(first));
    let batch = state.update_visible_pages();
    assert_eq!(batch.len(), 1);
    assert_eq!(batch[0].page_info.index, 1);
}

#[test]
fn click_finds_the_link_under_the_scaled_point() {
    let mut state = opened_view();
    let link = Link {
        bounds: Rect::new(30_000, 60_000, 90_000, 120_000),
        uri: Some("http://example.org".to_string()),
        page: None,
        link_type: LinkType::Url,
    };
    state.apply_result(DecodeResult {
        key: "k".to_string(),
        page_info: state.pages()[2].info,
        image_data: Vec::new(),
        image_width: 0,
        image_height: 0,
        links: vec![link],
    });
    // scale is 800/600: the link spans 40..120 by 80..160 in rendered pixels
    let hit = state.handle_click(2, 40_000, 80_000).unwrap();
    assert_eq!(hit.uri.as_deref(), Some("http://example.org"));
    assert_eq!(hit.link_type, LinkType::Url);
    assert!(state.handle_click(2, 120_000, 160_000).is_some());
    assert!(state.handle_click(2, 39_999, 80_000).is_none());
    assert!(state.handle_click(2, 120_001, 100_000).is_none());
    assert!(state.handle_click(3, 40_000, 80_000).is_none());
    assert!(state.handle_click(99, 40_000, 80_000).is_none());
}

#[test]
fn failed_load_leaves_the_view_empty() {
    let mut state = opened_view();
    let failure = state.open_document(Err(DecodeError { message: "cannot open".to_string() }), Ok(Vec::new()));
    assert_eq!(failure.unwrap_err().message, "cannot open");
    assert!(state.pages().is_empty());
    assert_eq!(state.total_height(), 0);
    let failure = state.open_document(Ok(ten_pages()), Err(DecodeError { message: "no outline".to_string() }));
    assert_eq!(failure.unwrap_err().message, "no outline");
    assert!(state.pages().is_empty());
    assert!(state.outline_items().is_empty());
}

#[test]
fn opening_a_document_keeps_its_outline() {
    let mut state = PageViewState::new(Orientation::Vertical, 0);
    let outline = vec![OutlineItem::new("One".to_string(), Some("#page=1".to_string()), 0, 0)];
    state.open_document(Ok(ten_pages()), Ok(outline)).unwrap();
    assert_eq!(state.outline_items().len(), 1);
    assert_eq!(state.outline_items()[0].title, "One");
    assert_eq!(state.pages().len(), 10);
    assert_eq!(state.pages()[4].bounds, Rect::new(0, 0, 0, 0));
    assert!(state.pages()[4].nodes.is_empty());
}

#[test]
fn crop_mode_uses_the_crop_rectangle() {
    let mut infos = ten_pages();
    infos[0].crop_bounds = Some(Rect::new(50_000, 100_000, 550_000, 700_000));
    let mut state = PageViewState::new(Orientation::Vertical, 0);
    state.open_document(Ok(infos), Ok(Vec::new())).unwrap();
    state.update_view_size(800_000, 600_000, 1000, false);
    assert_eq!(state.pages()[0].height, 1_066_666);
    let batch = state.set_crop(1);
    assert_eq!(state.crop(), 1);
    assert_eq!(state.pages()[0].height, 600_000 * 800_000 / 500_000);
    assert_eq!(state.pages()[0].info.scale, Scale::new(800_000, 500_000));
    assert_eq!(state.pages()[1].bounds.top, 960_000);
    assert!(state.pages().iter().all(|p| p.nodes.is_empty()));
    assert_eq!(batch.len(), 2);
    assert_eq!(batch[0].crop, 1);
    assert!(state.set_crop(1).is_empty());
}

#[test]
fn shutdown_gives_up_the_document() {
    let mut state = opened_view();
    state.update_visible_pages();
    state.shutdown();
    assert!(state.pages().is_empty());
    assert!(state.visible_pages().is_empty());
    assert_eq!(state.get_first_visible_page(), None);
}

#[test]
fn result_with_short_pixel_buffer_is_not_cached() {
    let mut state = opened_view();
    let key = generate_thumbnail_key(&state.pages()[0]);
    let stored = state.apply_result(DecodeResult {
        key: key.clone(),
        page_info: state.pages()[0].info,
        image_data: vec![0u8; 15],
        image_width: 2,
        image_height: 2,
        links: Vec::new(),
    });
    assert!(!stored);
    assert!(state.thumbnail(&key).is_none());
    let stored = state.apply_result(DecodeResult {
        key: key.clone(),
        page_info: state.pages()[0].info,
        image_data: vec![7u8; 16],
        image_width: 2,
        image_height: 2,
        links: Vec::new(),
    });
    assert!(stored);
    let image = state.thumbnail(&key).unwrap();
    assert_eq!(image.width(), 2);
    assert_eq!(image.height(), 2);
    assert_eq!(image.as_bytes(), &[7u8; 16][..]);
}

#[test]
fn frames_show_visible_pages_with_their_images() {
    let mut state = opened_view();
    state.update_visible_pages();
    let key = generate_thumbnail_key(&state.pages()[1]);
    let info = state.pages()[1].info;
    state.apply_result(DecodeResult {
        key,
        page_info: info,
        image_data: vec![0u8; 4],
        image_width: 1,
        image_height: 1,
        links: Vec::new(),
    });
    let frames = state.visible_frames();
    assert_eq!(frames.len(), 2);
    assert_eq!(frames[0].page_index, 0);
    assert!(frames[0].image.is_none());
    assert_eq!(frames[0].bounds, Rect::new(0, 0, 800_000, 1_066_666));
    assert_eq!(frames[1].page_index, 1);
    assert_eq!(frames[1].image.as_ref().unwrap().width(), 1);
    assert_eq!((frames[1].width, frames[1].height), (800_000, 1_066_666));
}

#[test]
fn coordinates_stop_at_the_end_of_the_range() {
    let infos = vec![PageInfo::new(0, 1, i64::MAX), PageInfo::new(1, 1, i64::MAX), PageInfo::new(2, 0, 5), PageInfo::new(3, 7, -1)];
    let mut state = PageViewState::new(Orientation::Vertical, 0);
    state.open_document(Ok(infos), Ok(Vec::new())).unwrap();
    state.update_view_size(u32::MAX, u32::MAX, u32::MAX, false);
    let limit = i64::MAX / 2;
    assert_eq!(state.pages()[0].height, limit);
    assert_eq!(state.pages()[0].bounds.bottom, limit);
    assert_eq!(state.pages()[1].bounds.top, limit);
    assert_eq!(state.pages()[1].bounds.bottom, limit);
    assert_eq!(state.pages()[2].height, 0);
    assert_eq!(state.pages()[2].info.scale.den, 0);
    assert_eq!(state.pages()[3].height, 0);
    assert_eq!(state.total_height(), limit);
    state.update_offset(i64::MIN, i64::MIN);
    state.update_visible_pages();
    assert!(state.visible_pages().is_empty());
    state.update_offset(i64::MAX, i64::MAX);
    state.update_visible_pages();
    assert!(state.visible_pages().is_empty());
    state.update_offset(0, 0);
    state.update_visible_pages();
    assert_eq!(state.visible_pages(), &vec![0]);
}

fn cache_first_page(state: &mut PageViewState) -> String {
    let key = generate_thumbnail_key(&state.pages()[0]);
    let info = state.pages()[0].info;
    assert!(state.apply_result(DecodeResult {
        key: key.clone(),
        page_info: info,
        image_data: vec![0u8; 4],
        image_width: 1,
        image_height: 1,
        links: Vec::new(),
    }));
    key
}

#[test]
fn zoom_change_empties_the_cache() {
    let mut state = opened_view();
    let key = cache_first_page(&mut state);
    state.update_zoom(1000);
    assert!(state.thumbnail(&key).is_some());
    state.update_view_size(900_000, 600_000, 1000, false);
    assert!(state.thumbnail(&key).is_some());
    state.update_zoom(2000);
    assert_eq!(state.zoom(), 2000);
    assert!(state.thumbnail(&key).is_none());
    let batch = state.update_visible_pages();
    assert!(batch.iter().any(|request| request.key == key));
    let key = cache_first_page(&mut state);
    state.update_view_size(900_000, 600_000, 1500, false);
    assert!(state.thumbnail(&key).is_none());
}

#[test]
fn crop_change_empties_the_cache() {
    let mut state = opened_view();
    let key = cache_first_page(&mut state);
    assert!(state.set_crop(0).is_empty());
    assert!(state.thumbnail(&key).is_some());
    let batch = state.set_crop(1);
    assert!(state.thumbnail(&key).is_none());
    assert!(batch.iter().any(|request| request.key == key));
}
