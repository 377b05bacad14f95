use rreader::decode_service::cover_page_info;
use rreader::entity::{OutlineItem, ReflowEntry};
use rreader::geometry::{pixel_extent, Rect, Scale};
use rreader::link::{Link, LinkType};
use rreader::main_viewmodel::{MainViewmodel, PAGE_SIZE};
use rreader::numbers::{parse_i32, parse_usize};
use rreader::outline::{
    extract_page_from_uri, link_target, load_outline_items, page_from_capture,
    parse_page_from_param, OutlineNode,
};
use rreader::page_info::PageInfo;
use rreader::pixels::{samples_to_rgba, CachedImageData};
use rreader::reflow::{build_reflow_data, reflow_from_page};
use rreader::render_config::{PageRender, PdfConfig};
use rreader::speech_text::{clean_text_for_tts, extract_meaningful_text, speech_variants};
use rreader::tts::{TtsState, TtsTask};

#[test]
fn unsigned_numbers_parse_as_the_standard_library_does() {
    for text in ["0", "7", "+7", "007", "18446744073709551615", "18446744073709551616", "", "+", "-1", "1a", " 1", "1 ", "++1", "٣"] {
        assert_eq!(parse_usize(text), text.parse::<usize>().ok(), "{:?}", text);
    }
}

#[test]
fn signed_numbers_parse_as_the_standard_library_does() {
    for text in ["0", "-0", "+0", "12", "-12", "2147483647", "2147483648", "-2147483648", "-2147483649", "", "-", "+", "+-1", "-+1", "1-", "99999999999999999999999"] {
        assert_eq!(parse_i32(text), text.parse::<i32>().ok(), "{:?}", text);
    }
}

#[test]
fn page_parameter_is_read_up_to_the_ampersand() {
    assert_eq!(parse_page_from_param("#page=12"), Some(12));
    assert_eq!(parse_page_from_param("#page=12&zoom=100"), Some(12));
    assert_eq!(parse_page_from_param("#page=+3&"), Some(3));
    assert_eq!(parse_page_from_param("#page=&12"), None);
    assert_eq!(parse_page_from_param("#page="), None);
    assert_eq!(parse_page_from_param("#page=1x"), None);
    assert_eq!(parse_page_from_param("page=1"), None);
    assert_eq!(parse_page_from_param("x#page=1"), None);
    assert_eq!(parse_page_from_param("#pag"), None);
    assert_eq!(parse_page_from_param(""), None);
}

#[test]
fn outline_target_names_a_page_counted_from_zero() {
    assert_eq!(extract_page_from_uri("#page=5"), 4);
    assert_eq!(extract_page_from_uri("file.pdf#page=12&view=fit"), 11);
    assert_eq!(extract_page_from_uri("#page=0"), 0);
    assert_eq!(extract_page_from_uri("#page=1"), 0);
    assert_eq!(extract_page_from_uri("#page=x#page=7"), 6);
    assert_eq!(extract_page_from_uri("#page=99999999999"), 0);
    assert_eq!(extract_page_from_uri("17"), 16);
    assert_eq!(extract_page_from_uri("-3"), 0);
    assert_eq!(extract_page_from_uri("-2147483648"), 0);
    assert_eq!(extract_page_from_uri("2147483647"), 2147483646);
    assert_eq!(extract_page_from_uri("chapter"), 0);
    assert_eq!(extract_page_from_uri(""), 0);
    assert_eq!(extract_page_from_uri("#page="), 0);
}

#[test]
fn digits_of_other_scripts_count_as_digits_behind_the_marker() {
    assert_eq!(extract_page_from_uri("#page=٣#page=5"), 0);
    assert_eq!(extract_page_from_uri("#page=2٣"), 0);
    assert_eq!(extract_page_from_uri("x#page=12y#page=3"), 11);
    assert_eq!(page_from_capture(Some("7".to_string()), "99"), 6);
    assert_eq!(page_from_capture(Some("٣".to_string()), "99"), 98);
    assert_eq!(page_from_capture(None, "99"), 98);
    assert_eq!(page_from_capture(None, "none"), 0);
}

#[test]
fn click_on_a_link_leads_to_the_page_it_names() {
    let bounds = Rect::new(0, 0, 1, 1);
    assert_eq!(link_target(&Link::from_uri(bounds, "#page=12&zoom=2".to_string())), Some(12));
    assert_eq!(link_target(&Link::from_uri(bounds, "#chapter".to_string())), None);
    assert_eq!(link_target(&Link::from_uri(bounds, "http://example.org/#page=3".to_string())), None);
    assert_eq!(link_target(&Link::from_uri(bounds, "other".to_string())), None);
    let both = Link { bounds, uri: Some("x".to_string()), page: Some("#page=4".to_string()), link_type: LinkType::Unknown };
    assert_eq!(link_target(&both), None);
}

fn node(title: &str, uri: Option<&str>, down: Vec<OutlineNode>) -> OutlineNode {
    OutlineNode { title: title.to_string(), uri: uri.map(|u| u.to_string()), down }
}

#[test]
fn outline_is_flattened_in_reading_order() {
    let tree = vec![
        node("One", Some("#page=1"), vec![
            node("One.a", Some("#page=2"), vec![node("One.a.i", Some("#page=3"), Vec::new())]),
            node("One.b", None, Vec::new()),
        ]),
        node("Two", Some("#page=10"), Vec::new()),
    ];
    let items = load_outline_items(&tree);
    let rows: Vec<(&str, i32, i32)> = items.iter().map(|i| (i.title.as_str(), i.page, i.level)).collect();
    assert_eq!(rows, vec![("One", 0, 0), ("One.a", 1, 1), ("One.a.i", 2, 2), ("One.b", 0, 1), ("Two", 9, 0)]);
    assert_eq!(items[0].uri.as_deref(), Some("#page=1"));
    assert_eq!(items[3].uri, None);
    assert!(load_outline_items(&Vec::new()).is_empty());
    let copy: OutlineItem = items[1].clone();
    assert_eq!(copy.title, "One.a");
}

#[test]
fn links_are_told_apart_by_their_target() {
    let bounds = Rect::new(1, 2, 3, 4);
    let web = Link::from_uri(bounds, "https://example.org".to_string());
    assert_eq!(web.link_type, LinkType::Url);
    assert_eq!(web.uri.as_deref(), Some("https://example.org"));
    assert_eq!(web.page, None);
    assert_eq!(web.bounds, bounds);
    let page = Link::from_uri(bounds, "#page=4".to_string());
    assert_eq!(page.link_type, LinkType::Page);
    assert_eq!(page.page.as_deref(), Some("#page=4"));
    assert_eq!(page.uri, None);
    let other = Link::from_uri(bounds, "mailto:someone".to_string());
    assert_eq!(other.link_type, LinkType::Unknown);
    assert_eq!(other.uri, None);
    assert_eq!(other.page, None);
    assert_eq!(Link::from_uri(bounds, "htt".to_string()).link_type, LinkType::Unknown);
    assert_eq!(Link::from_uri(bounds, String::new()).link_type, LinkType::Unknown);
    let copy = page.clone();
    assert_eq!(copy.page.as_deref(), Some("#page=4"));
    assert_eq!(copy.bounds, bounds);
}

#[test]
fn samples_become_rgba_pixels() {
    let rgba = samples_to_rgba(&[1, 2, 3, 4, 5, 6, 7, 8], 2, 1, 4);
    assert_eq!(rgba.data, vec![1, 2, 3, 4, 5, 6, 7, 8]);
    assert_eq!((rgba.width, rgba.height), (2, 1));
    let rgb = samples_to_rgba(&[1, 2, 3, 4, 5, 6], 1, 2, 3);
    assert_eq!(rgb.data, vec![1, 2, 3, 255, 4, 5, 6, 255]);
    let grey = samples_to_rgba(&[9, 8], 2, 1, 1);
    assert_eq!(grey.data, vec![9, 9, 9, 255, 8, 8, 8, 255]);
    let short = samples_to_rgba(&[1, 2, 3, 4, 5], 2, 1, 4);
    assert_eq!(short.data, vec![1, 2, 3, 4, 0, 0, 0, 0]);
    let empty = samples_to_rgba(&[1], 0, 5, 4);
    assert!(empty.data.is_empty());
    let made = CachedImageData::new(vec![0; 7], 2, 1);
    assert_eq!((made.data.len(), made.width, made.height), (7, 2, 1));
}

fn entry(page: &str) -> ReflowEntry {
    ReflowEntry { data: format!("text of {}", page), page: page.to_string() }
}

#[test]
fn reflow_starts_at_the_first_entry_of_a_late_enough_page() {
    let entries = vec![entry("0"), entry("2"), entry("x"), entry("5"), entry("3")];
    let pages = |start: usize| -> Vec<String> {
        reflow_from_page(&entries, start).into_iter().map(|e| e.page).collect()
    };
    assert_eq!(pages(0), vec!["0", "2", "x", "5", "3"]);
    assert_eq!(pages(1), vec!["2", "x", "5", "3"]);
    assert_eq!(pages(3), vec!["5", "3"]);
    assert_eq!(pages(6), Vec::<String>::new());
    assert!(reflow_from_page(&Vec::new(), 0).is_empty());
}

#[test]
fn reflow_data_keeps_pages_with_enough_text() {
    let texts = vec!["".to_string(), "12345".to_string(), "123456".to_string(), "日本語のテキスト".to_string(), "ab".to_string()];
    let data = build_reflow_data(texts, 4096);
    assert_eq!(data.file_size, 4096);
    assert_eq!(data.page_count, 2);
    assert_eq!(data.reflow.len(), 2);
    assert_eq!(data.reflow[0].page, "2");
    assert_eq!(data.reflow[0].data, "123456");
    assert_eq!(data.reflow[1].page, "3");
    assert_eq!(data.reflow[1].clone().data, "日本語のテキスト");
}

#[test]
fn history_is_shown_sixteen_records_at_a_time() {
    assert_eq!(PAGE_SIZE, 16);
    let mut model: MainViewmodel<u32> = MainViewmodel::new();
    assert_eq!(model.get_total_pages(), 0);
    assert!(!model.has_next_page());
    assert!(!model.has_prev_page());
    model.load_history((0..40).collect(), 0);
    assert_eq!(model.get_total_records(), 40);
    assert_eq!(model.get_total_pages(), 3);
    assert_eq!(model.get_current_records(), &(0..16).collect::<Vec<u32>>());
    assert!(model.has_next_page());
    assert!(!model.has_prev_page());
    model.load_history((0..40).collect(), 2);
    assert_eq!(model.page_index(), 2);
    assert_eq!(model.get_current_records(), &(32..40).collect::<Vec<u32>>());
    assert!(!model.has_next_page());
    assert!(model.has_prev_page());
    model.load_history((0..32).collect(), 5);
    assert!(model.get_current_records().is_empty());
    assert_eq!(model.get_total_pages(), 2);
    model.load_history((0..5).collect(), usize::MAX);
    assert!(model.get_current_records().is_empty());
    model.load_history((0..40).collect(), 1);
    model.next_page((0..40).collect());
    assert_eq!(model.page_index(), 2);
    model.next_page((0..40).collect());
    assert_eq!(model.page_index(), 2);
    model.prev_page((0..40).collect());
    model.prev_page((0..40).collect());
    model.prev_page((0..40).collect());
    assert_eq!(model.page_index(), 0);
    assert_eq!(model.get_current_records().len(), 16);
}

#[test]
fn speech_queue_follows_its_tasks() {
    let mut state = TtsState::new();
    assert_eq!(state.current_voice(), "Mei-Jia");
    assert_eq!(state.rate_value(), 240);
    assert!(!state.handle_task(TtsTask::SpeakText { text: "one".to_string() }));
    assert!(!state.handle_task(TtsTask::SpeakText { text: "two".to_string() }));
    assert_eq!(state.next_speech().as_deref(), Some("one"));
    assert!(!state.handle_task(TtsTask::SetVoice { voice: "Alex".to_string() }));
    assert_eq!(state.current_voice(), "Alex");
    assert!(!state.handle_task(TtsTask::SpeakText { text: "three".to_string() }));
    assert!(!state.handle_task(TtsTask::Stop));
    assert_eq!(state.next_speech(), None);
    assert!(!state.handle_task(TtsTask::SpeakText { text: "four".to_string() }));
    assert!(state.handle_task(TtsTask::Shutdown));
    assert_eq!(state.next_speech().as_deref(), Some("four"));
}

#[test]
fn renderer_holds_zoom_and_rotation_in_range() {
    let mut render = PageRender::new();
    assert_eq!(render, PageRender::default());
    render.set_zoom(50);
    assert_eq!(render.zoom, 100);
    render.set_zoom(7000);
    assert_eq!(render.zoom, 5000);
    render.set_zoom(1500);
    assert_eq!(render.zoom, 1500);
    render.set_rotation(450);
    assert_eq!(render.rotation, 90);
    render.set_rotation(-450);
    assert_eq!(render.rotation, -90);
    render.set_rotation(i32::MIN);
    assert_eq!(render.rotation, i32::MIN % 360);
    render.set_rotation(360);
    assert_eq!(render.rotation, 0);
    assert_eq!(PdfConfig::default(), PdfConfig { zoom: 1000, rotation: 0, crop_enabled: false });
}

#[test]
fn cover_is_scaled_to_three_hundred_pixels() {
    let mut first = PageInfo::new(0, 600_000, 800_000);
    first.crop_bounds = Some(Rect::new(0, 0, 1, 1));
    let cover = cover_page_info(&first);
    assert_eq!(cover.scale, Scale::new(300_000, 1_600_000));
    assert_eq!(cover.index, 0);
    assert_eq!((cover.width, cover.height), (600_000, 800_000));
    assert_eq!(cover.crop_bounds, first.crop_bounds);
    assert_eq!(pixel_extent(800_000, cover.scale), 300);
    assert_eq!(pixel_extent(600_000, cover.scale), 225);
    assert_eq!(cover_page_info(&PageInfo::new(0, 0, -4)).scale, Scale::new(300_000, 0));
}

#[test]
fn rendered_size_is_twice_the_scaled_extent() {
    assert_eq!(pixel_extent(600_000, Scale::new(800_000, 600_000)), 1600);
    assert_eq!(pixel_extent(800_000, Scale::new(800_000, 600_000)), 2133);
    assert_eq!(pixel_extent(0, Scale::new(1, 1)), 0);
    assert_eq!(pixel_extent(-5, Scale::new(1, 1)), 0);
    assert_eq!(pixel_extent(5, Scale::new(1, 0)), 0);
    assert_eq!(pixel_extent(i64::MAX, Scale::new(u64::MAX, 1)), i32::MAX);
}

#[test]
fn text_is_made_fit_to_be_read_aloud() {
    assert_eq!(clean_text_for_tts("  Title\n-----\nBody   text (aside) ends…  "), "Title Body text ends");
    assert_eq!(clean_text_for_tts("a === b *** c ### d ___ e"), "a b c d e");
    assert_eq!(clean_text_for_tts("one--two—three–four"), "onetwothreefour");
    assert_eq!(clean_text_for_tts("你好，世界。真的？是！（注）完：了；好　吧"), "你好,世界.真的?是!完:了;好 吧");
    assert_eq!(clean_text_for_tts("keep - single = marks * here # and _ there"), "keep - single = marks * here # and _ there");
    assert_eq!(clean_text_for_tts(""), "");
}

#[test]
fn lines_worth_reading_are_joined() {
    assert_eq!(extract_meaningful_text("First line\n----\n  second  \nab\n\n====\n# heading\n***\n___\nlast"), "First line second last");
    assert_eq!(extract_meaningful_text("---\nab"), "");
    assert_eq!(extract_meaningful_text("only"), "only");
    assert_eq!(extract_meaningful_text("日本\nに\né"), "日本 に");
    assert_eq!(extract_meaningful_text(""), "");
}

#[test]
fn synthesizer_is_offered_four_forms_of_a_text() {
    let variants = speech_variants("A--B - C (x)\n---\nsecond line");
    assert_eq!(variants.len(), 4);
    assert_eq!(variants[0], "AB - C second line");
    assert_eq!(variants[1], "AB  C (x)\n\nsecond line");
    assert_eq!(variants[2], "A--B - C (x) second line");
    assert_eq!(variants[3], "跳过无法朗读的内容");
}
