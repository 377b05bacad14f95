use rreader::geometry::{add_coord, saturate, sub_coord, Rect, Scale};
use rreader::keys::{generate_thumbnail_hash, generate_thumbnail_key, make_thumbnail_file_name};
use rreader::link::{Link, LinkType};
use rreader::page::Page;
use rreader::page_info::PageInfo;
use rreader::text::{push_decimal, push_hundredths, push_length, push_ratio};
use rreader::tile::{PageNode, TileConfig};
use std::collections::hash_map::DefaultHasher;
use std::hash::{Hash, Hasher};

#[test]
fn short_edges_are_one_block() {
    assert_eq!(TileConfig::calc_block_count(0), 1);
    assert_eq!(TileConfig::calc_block_count(-5), 1);
    assert_eq!(TileConfig::calc_block_count(768_000), 1);
    assert_eq!(TileConfig::calc_block_count(768_001), 1);
    assert_eq!(TileConfig::calc_block_count(1_024_000), 1);
}

#[test]
fn block_count_keeps_blocks_between_the_two_sizes() {
    assert_eq!(TileConfig::calc_block_count(1_024_001), 2);
    assert_eq!(TileConfig::calc_block_count(1_536_000), 2);
    assert_eq!(TileConfig::calc_block_count(2_048_000), 2);
    assert_eq!(TileConfig::calc_block_count(2_048_001), 3);
    assert_eq!(TileConfig::calc_block_count(2_303_999), 3);
    assert_eq!(TileConfig::calc_block_count(3_000_000), 3);
    assert_eq!(TileConfig::calc_block_count(10_000_000), 10);
}

#[test]
fn page_within_the_largest_block_is_a_single_block() {
    let config = TileConfig::from_size(1_024_000, 900_000);
    assert!(config.is_single_block());
    let config = TileConfig::from_size(1_024_001, 900_000);
    assert_eq!(config, TileConfig { x_blocks: 2, y_blocks: 1 });
    assert!(!config.is_single_block());
    let config = TileConfig::from_size(800_000, 3_000_000);
    assert_eq!(config, TileConfig { x_blocks: 1, y_blocks: 3 });
}

#[test]
fn small_page_gets_one_tile_that_covers_it() {
    let page = Page::new(PageInfo::new(4, 600_000, 800_000), 800_000, 1_000_000, 0, 500);
    assert_eq!(page.nodes.len(), 1);
    assert_eq!(page.nodes[0].bounds, Rect::new(0, 0, 1_000_000, 1_000_000));
    assert_eq!(page.nodes[0].page_index, 4);
    assert_eq!(page.nodes[0].cache_key, "4_0.00_0.00_1.00_1.00");
    assert!(page.nodes[0].bitmap.is_none());
    assert!(!page.nodes[0].is_decoding);
    assert_eq!(page.bounds, Rect::new(0, 500, 800_000, 1_000_500));
    assert_eq!(page.x_offset(), 0);
    assert_eq!(page.y_offset(), 500);
}

#[test]
fn large_page_is_cut_into_overlapping_tiles() {
    let page = Page::new(PageInfo::new(0, 600_000, 800_000), 2_000_000, 3_000_000, 0, 0);
    assert_eq!(page.nodes.len(), 6);
    assert_eq!(page.nodes[0].bounds, Rect::new(0, 0, 501_000, 334_333));
    assert_eq!(page.nodes[1].bounds, Rect::new(499_000, 0, 1_000_000, 334_333));
    assert_eq!(page.nodes[2].bounds, Rect::new(0, 332_333, 501_000, 667_666));
    assert_eq!(page.nodes[5].bounds, Rect::new(499_000, 665_666, 1_000_000, 1_000_000));
    assert_eq!(page.nodes[3].cache_key, "0_0.50_0.33_1.00_0.67");
}

#[test]
fn page_without_size_has_no_tiles() {
    let page = Page::new(PageInfo::new(0, 600_000, 800_000), 0, 0, 0, 0);
    assert!(page.nodes.is_empty());
    let mut page = Page::new(PageInfo::new(0, 600_000, 800_000), 100, 100, 0, 0);
    assert_eq!(page.nodes.len(), 1);
    page.update(0, 50, Rect::new(1, 2, 3, 4));
    assert_eq!(page.nodes.len(), 1);
    assert_eq!(page.bounds, Rect::new(1, 2, 3, 4));
    page.invalidate_nodes();
    assert!(page.nodes.is_empty());
    page.update(5_000_000, 50, Rect::new(0, 0, 5_000_000, 50));
    page.invalidate_nodes();
    assert_eq!(page.nodes.len(), 5);
    page.recycle();
    assert!(page.nodes.is_empty());
}

#[test]
fn tile_is_placed_on_the_page() {
    let node = PageNode::new(2, Rect::new(499_000, 0, 1_000_000, 334_333));
    let rect = node.to_pixel_rect(2_000_000, 3_000_000, 10, 20);
    assert_eq!(rect, Rect::new(998_010, 20, 2_000_010, 1_003_019));
    let negative = PageNode::new(2, Rect::new(-1, -1_000_000, 0, 0));
    assert_eq!(negative.to_pixel_rect(3, 7, 0, 0), Rect::new(-1, -7, 0, 0));
}

#[test]
fn recycled_tile_gives_up_its_bitmap() {
    let mut node = PageNode::new(1, Rect::new(0, 0, 1_000_000, 1_000_000));
    node.bitmap = Some(std::sync::Arc::new(image::DynamicImage::new_rgba8(1, 1)));
    node.is_decoding = true;
    node.recycle();
    assert!(node.bitmap.is_none());
    assert!(!node.is_decoding);
    assert_eq!(node.page_index, 1);
}

#[test]
fn first_link_under_the_point_is_found() {
    let mut page = Page::new(PageInfo::new(0, 600_000, 800_000), 600_000, 800_000, 0, 1_000_000);
    page.links.push(Link {
        bounds: Rect::new(0, 0, 100, 100),
        uri: Some("first".to_string()),
        page: None,
        link_type: LinkType::Url,
    });
    page.links.push(Link {
        bounds: Rect::new(50, 50, 200, 200),
        uri: Some("second".to_string()),
        page: None,
        link_type: LinkType::Url,
    });
    assert_eq!(page.find_link_at(60, 1_000_060).unwrap().uri.as_deref(), Some("first"));
    assert_eq!(page.find_link_at(150, 1_000_150).unwrap().uri.as_deref(), Some("second"));
    assert_eq!(page.find_link_at(100, 1_000_100).unwrap().uri.as_deref(), Some("first"));
    assert!(page.find_link_at(60, 60).is_none());
    assert!(page.find_link_at(201, 1_000_100).is_none());
}

#[test]
fn page_info_goes_by_the_crop_rectangle_when_asked() {
    let mut info = PageInfo::new(3, 600_000, 800_000);
    assert_eq!(info.scale, Scale::new(1, 1));
    assert!(!info.has_crop());
    assert_eq!(info.get_width(true), 600_000);
    assert_eq!(info.get_height(true), 800_000);
    info.crop_bounds = Some(Rect::new(10_000, 20_000, 510_000, 720_000));
    assert!(info.has_crop());
    assert_eq!(info.get_width(true), 500_000);
    assert_eq!(info.get_height(true), 700_000);
    assert_eq!(info.get_width(false), 600_000);
    assert_eq!(info.get_height(false), 800_000);
}

#[test]
fn coordinates_saturate() {
    assert_eq!(add_coord(i64::MAX, 1), i64::MAX);
    assert_eq!(add_coord(i64::MIN, -1), i64::MIN);
    assert_eq!(add_coord(5, -7), -2);
    assert_eq!(sub_coord(i64::MIN, 1), i64::MIN);
    assert_eq!(sub_coord(0, i64::MIN), i64::MAX);
    assert_eq!(saturate(1i128 << 100), i64::MAX);
    assert_eq!(saturate(-(1i128 << 100)), i64::MIN);
    assert_eq!(Rect::new(i64::MIN, 0, i64::MAX, 5).width(), i64::MAX);
    assert_eq!(Rect::new(3, 10, 10, 4).height(), -6);
    assert!(Rect::new(0, 0, 10, 10).contains(10, 0));
    assert!(!Rect::new(0, 0, 10, 10).contains(11, 0));
}

#[test]
fn scale_compares_by_cross_multiplication() {
    let scale = Scale::new(4, 3);
    assert!(scale.scaled_le(30, 40));
    assert!(scale.scaled_ge(30, 40));
    assert!(!scale.scaled_le(30, 39));
    assert!(scale.scaled_ge(30, 39));
    assert!(Scale::new(u64::MAX, 1).scaled_ge(i64::MAX, i64::MAX));
    assert!(Scale::new(u64::MAX, u64::MAX).scaled_le(i64::MIN, i64::MIN));
    assert_eq!(Scale::identity(), Scale::new(1, 1));
}

#[test]
fn render_key_holds_index_and_native_size() {
    let page = Page::new(PageInfo::new(3, 600_000, 800_000), 0, 0, 0, 0);
    assert_eq!(generate_thumbnail_key(&page), "3-600-800");
    let page = Page::new(PageInfo::new(0, 595_276, 841_890), 0, 0, 0, 0);
    assert_eq!(generate_thumbnail_key(&page), "0-595.276-841.89");
    let page = Page::new(PageInfo::new(0, -5_000, 0), 0, 0, 0, 0);
    assert_eq!(generate_thumbnail_key(&page), "0--5-0");
}

#[test]
fn thumbnail_hash_is_the_standard_hash_of_the_path() {
    for path in ["", "/home/reader/book.pdf", "C:\\books\\日本語.epub"] {
        let mut hasher = DefaultHasher::new();
        path.hash(&mut hasher);
        assert_eq!(generate_thumbnail_hash(path), hasher.finish());
    }
    assert_ne!(generate_thumbnail_hash("a"), generate_thumbnail_hash("b"));
    assert_eq!(make_thumbnail_file_name(0), "0.png");
    assert_eq!(make_thumbnail_file_name(u64::MAX), "18446744073709551615.png");
}

#[test]
fn numbers_are_written_in_decimal() {
    let mut out = String::from("n=");
    push_decimal(&mut out, 0);
    out.push(',');
    push_decimal(&mut out, 1234567890);
    out.push(',');
    push_hundredths(&mut out, 1205);
    assert_eq!(out, "n=0,1234567890,12.05");
}

#[test]
fn lengths_are_written_as_floating_point_numbers_print() {
    let cases: [(i64, f32); 9] = [
        (600_000, 600.0),
        (595_276, 595.276),
        (841_890, 841.89),
        (500, 0.5),
        (0, 0.0),
        (-5_000, -5.0),
        (-250, -0.25),
        (1_005, 1.005),
        (612_100, 612.1),
    ];
    for (units, value) in cases {
        let mut out = String::new();
        push_length(&mut out, units);
        assert_eq!(out, format!("{}", value));
    }
    let mut out = String::new();
    push_length(&mut out, i64::MIN);
    assert_eq!(out, "-9223372036854775.808");
}

#[test]
fn ratios_are_written_with_two_decimals() {
    let cases: [(i64, f32); 7] = [
        (0, 0.0),
        (1_000_000, 1.0),
        (499_000, 0.499),
        (332_333, 0.332333),
        (667_666, 0.667666),
        (-251_000, -0.251),
        (1_001_000, 1.001),
    ];
    for (millionths, value) in cases {
        let mut out = String::new();
        push_ratio(&mut out, millionths);
        assert_eq!(out, format!("{:.2}", value));
    }
}
