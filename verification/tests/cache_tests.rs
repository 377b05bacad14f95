use image::DynamicImage;
use rreader::cache::{make_page_image_key, make_thumbnail_key, ImageCache, PageCache};
use std::sync::Arc;

fn blank(width: u32) -> DynamicImage {
    DynamicImage::new_rgba8(width, 1)
}

#[test]
fn get_returns_the_stored_image_without_copying() {
    let mut cache = ImageCache::new(4);
    let stored = cache.put("a".to_string(), blank(3));
    let found = cache.get("a").unwrap();
    assert!(Arc::ptr_eq(&stored, &found));
    assert_eq!(found.width(), 3);
    assert!(cache.get("b").is_none());
    assert_eq!(cache.size(), 1);
}

#[test]
fn put_beyond_capacity_evicts_the_least_recently_used_entry() {
    let mut cache = ImageCache::new(3);
    cache.put("a".to_string(), blank(1));
    cache.put("b".to_string(), blank(2));
    cache.put("c".to_string(), blank(3));
    assert!(cache.get("a").is_some());
    assert_eq!(cache.size(), 3);
    cache.put("d".to_string(), blank(4));
    assert_eq!(cache.size(), 3);
    assert!(cache.get("b").is_none());
    assert!(cache.get("a").is_some());
    assert!(cache.get("c").is_some());
    assert!(cache.get("d").is_some());
}

#[test]
fn eviction_follows_the_order_of_last_access() {
    let mut cache = ImageCache::new(2);
    cache.put("a".to_string(), blank(1));
    cache.put("b".to_string(), blank(2));
    cache.put("c".to_string(), blank(3));
    assert!(cache.get("a").is_none());
    assert!(cache.get("b").is_some());
    cache.put("d".to_string(), blank(4));
    assert!(cache.get("c").is_none());
    assert!(cache.get("b").is_some());
    assert!(cache.get("d").is_some());
}

#[test]
fn put_under_an_existing_key_replaces_the_image() {
    let mut cache = ImageCache::new(4);
    cache.put("a".to_string(), blank(1));
    cache.put("b".to_string(), blank(2));
    cache.put("a".to_string(), blank(9));
    assert_eq!(cache.size(), 2);
    assert_eq!(cache.get("a").unwrap().width(), 9);
    assert_eq!(cache.get("b").unwrap().width(), 2);
}

#[test]
fn full_cache_makes_room_even_for_a_key_it_holds() {
    let mut cache = ImageCache::new(2);
    cache.put("a".to_string(), blank(1));
    cache.put("b".to_string(), blank(2));
    cache.put("b".to_string(), blank(3));
    assert_eq!(cache.size(), 1);
    assert!(cache.get("a").is_none());
    assert_eq!(cache.get("b").unwrap().width(), 3);
}

#[test]
fn cache_of_capacity_zero_holds_one_entry() {
    let mut cache = ImageCache::new(0);
    cache.put("a".to_string(), blank(1));
    assert_eq!(cache.size(), 1);
    cache.put("b".to_string(), blank(2));
    assert_eq!(cache.size(), 1);
    assert!(cache.get("a").is_none());
    assert!(cache.get("b").is_some());
}

#[test]
fn remove_and_clear_take_entries_out() {
    let mut cache = ImageCache::new(4);
    cache.put("a".to_string(), blank(1));
    cache.put("b".to_string(), blank(2));
    assert!(cache.remove("a"));
    assert!(!cache.remove("a"));
    assert_eq!(cache.size(), 1);
    cache.clear();
    assert_eq!(cache.size(), 0);
    assert!(cache.get("b").is_none());
}

#[test]
fn default_caches_have_the_documented_capacities() {
    let mut cache = ImageCache::default();
    for i in 0..12 {
        cache.put(format!("k{}", i), blank(1));
    }
    assert_eq!(cache.size(), 10);
    let mut pages = PageCache::default();
    for i in 0..30 {
        pages.put_page_image(i, 1000, blank(1));
        pages.put_thumbnail(i, blank(1));
    }
    assert_eq!(pages.image_cache.size(), 8);
    assert_eq!(pages.thumbnail_cache.size(), 20);
}

#[test]
fn page_cache_keeps_images_and_thumbnails_apart() {
    let mut cache = PageCache::new(2, 2);
    cache.put_page_image(3, 1500, blank(5));
    cache.put_thumbnail(3, blank(6));
    assert_eq!(cache.get_page_image(3, 1500).unwrap().width(), 5);
    assert!(cache.get_page_image(3, 1000).is_none());
    assert_eq!(cache.get_thumbnail(3).unwrap().width(), 6);
    assert!(cache.get_thumbnail(4).is_none());
    cache.clear();
    assert!(cache.get_page_image(3, 1500).is_none());
    assert!(cache.get_thumbnail(3).is_none());
}

#[test]
fn cache_keys_are_written_in_decimal() {
    assert_eq!(make_page_image_key(12, 1500), "page_12_1.50");
    assert_eq!(make_page_image_key(0, 1000), "page_0_1.00");
    assert_eq!(make_page_image_key(7, 1234), "page_7_1.23");
    assert_eq!(make_page_image_key(7, 1235), "page_7_1.24");
    assert_eq!(make_page_image_key(7, 95), "page_7_0.10");
    assert_eq!(make_page_image_key(7, 4), "page_7_0.00");
    assert_eq!(make_thumbnail_key(42), "thumb_42");
}

#[test]
fn cache_behaves_like_a_list_ordered_by_last_access() {
    let mut seed: u64 = 0x9E37_79B9_7F4A_7C15;
    for capacity in 1..5usize {
        let mut cache = ImageCache::new(capacity);
        let mut model: Vec<(String, u32)> = Vec::new();
        for step in 0..400u32 {
            seed = seed.wrapping_mul(6364136223846793005).wrapping_add(1442695040888963407);
            let key = format!("k{}", (seed >> 40) % 7);
            seed = seed.wrapping_mul(6364136223846793005).wrapping_add(1442695040888963407);
            if (seed >> 40) % 3 == 0 {
                let found = cache.get(&key).map(|image| image.width());
                let expected = model.iter().position(|(k, _)| *k == key).map(|at| {
                    let entry = model.remove(at);
                    let width = entry.1;
                    model.push(entry);
                    width
                });
                assert_eq!(found, expected);
            } else {
                cache.put(key.clone(), blank(step + 1));
                if model.len() >= capacity {
                    model.remove(0);
                }
                model.retain(|(k, _)| *k != key);
                model.push((key, step + 1));
            }
            assert_eq!(cache.size(), model.len());
            assert!(cache.size() <= capacity);
        }
    }
}
