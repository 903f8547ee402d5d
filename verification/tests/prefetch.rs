use autorag_data::resolve::{prefetch_generate, prefetch_uncached};
use autorag_data::store::CacheManager;

fn png_bytes(w: u32, h: u32) -> Vec<u8> {
    let img = image::RgbaImage::from_fn(w, h, |x, y| {
        image::Rgba([(x % 256) as u8, (y % 256) as u8, 0, 255])
    });
    let mut buf = Vec::new();
    image::DynamicImage::ImageRgba8(img)
        .write_to(&mut std::io::Cursor::new(&mut buf), image::ImageFormat::Png)
        .unwrap();
    buf
}

/// Three pages with one chunk each, none cached: the warm-up generates all
/// three, every chunk reports a hit afterwards, and a second run has nothing
/// left to do.
#[test]
fn prefetch_generates_everything_once() {
    let mut cm = CacheManager::new(String::from("root"));
    let ids = vec![101i64, 102, 103];

    let uncached = prefetch_uncached(&cm, "db", &ids);
    assert_eq!(uncached, ids);

    let items: Vec<(i64, Vec<u8>)> =
        uncached.iter().map(|&cid| (cid, png_bytes(12, 8))).collect();
    let generated = prefetch_generate(&mut cm, "db", &items);
    assert_eq!(generated, 3);
    for cid in &ids {
        assert!(cm.has_thumbnail("db", cid));
    }

    // second run: the partition is empty, so the caller fetches nothing and
    // reports zero
    let uncached = prefetch_uncached(&cm, "db", &ids);
    assert!(uncached.is_empty());
    let generated = if uncached.is_empty() {
        0
    } else {
        unreachable!()
    };
    assert_eq!(generated, 0);
}

#[test]
fn prefetch_skips_already_cached_chunks() {
    let mut cm = CacheManager::new(String::from("root"));
    cm.generate_thumbnail_from_bytes(&png_bytes(6, 6), "db", &1).unwrap();

    let uncached = prefetch_uncached(&cm, "db", &vec![1i64, 2]);
    assert_eq!(uncached, vec![2i64]);

    let generated = prefetch_generate(&mut cm, "db", &vec![(2i64, png_bytes(6, 6))]);
    assert_eq!(generated, 1);
    assert!(cm.has_thumbnail("db", &2));
}

#[test]
fn prefetch_skips_undecodable_contents() {
    let mut cm = CacheManager::new(String::from("root"));
    let items = vec![(7i64, vec![0u8, 1, 2]), (8i64, png_bytes(4, 4))];
    let generated = prefetch_generate(&mut cm, "db", &items);
    assert_eq!(generated, 1);
    assert!(!cm.has_thumbnail("db", &7));
    assert!(cm.has_thumbnail("db", &8));
}

#[test]
fn prefetch_leaves_other_namespaces_alone() {
    let mut cm = CacheManager::new(String::from("root"));
    cm.generate_thumbnail_from_bytes(&png_bytes(6, 6), "other", &9).unwrap();
    prefetch_generate(&mut cm, "db", &vec![(9i64, png_bytes(4, 4))]);
    assert!(cm.has_thumbnail("other", &9));
    assert!(cm.has_thumbnail("db", &9));
}
