use autorag_data::paths::Tier;
use autorag_data::store::CacheManager;

fn png_bytes(w: u32, h: u32) -> Vec<u8> {
    let img = image::RgbaImage::from_fn(w, h, |x, y| {
        image::Rgba([(x % 256) as u8, (y % 256) as u8, 7, 255])
    });
    let mut buf = Vec::new();
    image::DynamicImage::ImageRgba8(img)
        .write_to(&mut std::io::Cursor::new(&mut buf), image::ImageFormat::Png)
        .unwrap();
    buf
}

#[test]
fn paths_are_deterministic() {
    let cm = CacheManager::new(String::from("/tmp/cache"));
    assert_eq!(cm.thumbnail_path("mydb", &42), "/tmp/cache/thumbnails/mydb/42.webp");
    assert_eq!(cm.preview_path("mydb", &42), "/tmp/cache/previews/mydb/42.webp");
    assert_eq!(cm.original_path("mydb", &7), "/tmp/cache/originals/mydb/7.png");
    assert_eq!(cm.cache_dir(), "/tmp/cache");
    assert_eq!(cm.thumbnail_path("other", &-3), "/tmp/cache/thumbnails/other/-3.webp");
}

#[test]
fn store_derivative_is_idempotent_first_write_wins() {
    let mut cm = CacheManager::new(String::from("root"));
    let first = png_bytes(64, 32);
    let second = png_bytes(10, 90);

    let p1 = cm
        .store_derivative(Tier::Thumbnail, "db", &5, &first, 200)
        .unwrap();
    let stored_first = cm.entry_content(Tier::Thumbnail, "db", 5).unwrap().clone();

    let p2 = cm
        .store_derivative(Tier::Thumbnail, "db", &5, &second, 200)
        .unwrap();
    let stored_second = cm.entry_content(Tier::Thumbnail, "db", 5).unwrap().clone();

    assert_eq!(p1, p2);
    assert_eq!(p1, "root/thumbnails/db/5.webp");
    assert_eq!(stored_first, stored_second);
}

#[test]
fn store_derivative_rejects_undecodable_bytes() {
    let mut cm = CacheManager::new(String::from("root"));
    let garbage = vec![1u8, 2, 3, 4, 5];
    let r = cm.store_derivative(Tier::Thumbnail, "db", &1, &garbage, 200);
    assert_eq!(r.as_ref().unwrap_err().message(), "Failed to decode image");
    assert!(!cm.has_thumbnail("db", &1));
    assert_eq!(cm.get_cache_size(), 0);
}

#[test]
fn derivative_respects_max_dimension_and_aspect() {
    let mut cm = CacheManager::new(String::from("root"));
    let wide = png_bytes(100, 40);
    cm.generate_thumbnail_from_bytes(&wide, "db", &1).unwrap();
    let webp = cm.entry_content(Tier::Thumbnail, "db", 1).unwrap();
    let decoded = image::load_from_memory(webp).unwrap();
    assert_eq!((decoded.width(), decoded.height()), (200, 80));

    let tall = png_bytes(30, 120);
    cm.generate_preview_from_bytes(&tall, "db", &2).unwrap();
    let webp = cm.entry_content(Tier::Preview, "db", 2).unwrap();
    let decoded = image::load_from_memory(webp).unwrap();
    assert_eq!((decoded.width(), decoded.height()), (300, 1200));
    assert!(decoded.width().max(decoded.height()) <= 1200);
}

#[test]
fn namespace_clear_leaves_other_namespaces_alone() {
    let mut cm = CacheManager::new(String::from("root"));
    let img = png_bytes(20, 20);
    cm.generate_thumbnail_from_bytes(&img, "alpha", &1).unwrap();
    cm.generate_preview_from_bytes(&img, "alpha", &1).unwrap();
    cm.generate_thumbnail_from_bytes(&img, "beta", &1).unwrap();

    cm.clear_db_cache("beta");

    assert!(cm.has_thumbnail("alpha", &1));
    assert!(cm.has_preview("alpha", &1));
    assert!(!cm.has_thumbnail("beta", &1));

    cm.clear_db_cache("alpha");
    assert!(!cm.has_thumbnail("alpha", &1));
    assert!(!cm.has_preview("alpha", &1));
}

#[test]
fn namespace_clear_keeps_stored_originals() {
    let mut cm = CacheManager::new(String::from("root"));
    cm.save_original(&[9u8, 9, 9], "alpha", &4);
    cm.clear_db_cache("alpha");
    assert!(cm.has_original("alpha", &4));
}

#[test]
fn full_clear_resets_size_and_entries() {
    let mut cm = CacheManager::new(String::from("root"));
    let img = png_bytes(16, 16);
    cm.generate_thumbnail_from_bytes(&img, "db", &1).unwrap();
    cm.save_original(&[1u8, 2, 3, 4], "db", &2);
    assert!(cm.get_cache_size() > 0);

    cm.clear_cache();

    assert_eq!(cm.get_cache_size(), 0);
    assert!(!cm.has_thumbnail("db", &1));
    assert!(!cm.has_original("db", &2));
}

#[test]
fn cache_size_sums_entry_bytes() {
    let mut cm = CacheManager::new(String::from("root"));
    cm.save_original(&[1u8, 2, 3], "db", &1);
    assert_eq!(cm.get_cache_size(), 3);
    cm.save_original(&[1u8, 2, 3, 4, 5], "db", &2);
    assert_eq!(cm.get_cache_size(), 8);
    // first-write-wins: storing under an existing key adds nothing
    cm.save_original(&[7u8; 100], "db", &1);
    assert_eq!(cm.get_cache_size(), 8);
}
