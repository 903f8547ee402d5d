use autorag_data::classify::{classify_source, SourceType};
use autorag_data::error::ResolveError;
use autorag_data::resolve::{
    resolve_full_image_after_contents, resolve_full_image_after_render, resolve_full_image_start,
    resolve_preview_after_contents, resolve_preview_start, resolve_thumbnail_after_contents,
    resolve_thumbnail_start, AfterRender, DerivedStep, FullImageStep,
};
use autorag_data::store::CacheManager;

fn png_bytes(w: u32, h: u32) -> Vec<u8> {
    let img = image::RgbaImage::from_fn(w, h, |x, y| {
        image::Rgba([(x % 256) as u8, (y % 256) as u8, 0, 255])
    });
    let mut buf = Vec::new();
    image::DynamicImage::ImageRgba8(img)
        .write_to(&mut std::io::Cursor::new(&mut buf), image::ImageFormat::Png)
        .unwrap();
    buf
}

/// A page whose hint points at a missing file but whose row holds binary
/// content: the first resolution falls back to the stored contents exactly
/// once, the second is served from the cache without another fetch.
#[test]
fn fallback_order_uses_contents_once_then_cache() {
    let mut cm = CacheManager::new(String::from("root"));
    let db = "db";
    let page_id = 11i64;
    let contents = png_bytes(8, 8);
    let mut fetches = 0u32;

    // first resolution
    let source = classify_source(&Some(String::from("gone.png")), false);
    assert!(matches!(source, SourceType::Unavailable));
    let step = resolve_full_image_start(&cm, db, page_id, 1, &source);
    let first_path = match step {
        FullImageStep::ContentsNeeded => {
            fetches += 1; // the test double performs the binary fetch
            resolve_full_image_after_contents(&mut cm, db, page_id, &Some(contents.clone()))
                .unwrap()
        }
        _ => panic!("expected the contents tier"),
    };
    assert_eq!(first_path, "root/originals/db/11.png");
    assert_eq!(fetches, 1);

    // second resolution: same classification, but now a cached render exists
    let source = classify_source(&Some(String::from("gone.png")), false);
    let step = resolve_full_image_start(&cm, db, page_id, 1, &source);
    match step {
        FullImageStep::ServeCached(p) => assert_eq!(p, first_path),
        _ => panic!("expected the cached tier, with no new fetch"),
    }
    assert_eq!(fetches, 1);
}

#[test]
fn direct_image_source_wins_over_cache() {
    let mut cm = CacheManager::new(String::from("root"));
    cm.save_original(&[1u8, 2], "db", &3);
    let source = SourceType::Image(String::from("/imgs/page.png"));
    let step = resolve_full_image_start(&cm, "db", 3, 1, &source);
    assert!(matches!(step, FullImageStep::ServeSourceFile(p) if p == "/imgs/page.png"));
}

#[test]
fn document_source_asks_for_render_then_stores_it() {
    let mut cm = CacheManager::new(String::from("root"));
    let source = SourceType::Pdf(String::from("/docs/scan.pdf"));
    let step = resolve_full_image_start(&cm, "db", 4, 2, &source);
    match step {
        FullImageStep::RenderNeeded { path, page_num } => {
            assert_eq!(path, "/docs/scan.pdf");
            assert_eq!(page_num, 2);
        }
        _ => panic!("expected a render request"),
    }
    let rendered = Some(png_bytes(5, 5));
    match resolve_full_image_after_render(&mut cm, "db", 4, &rendered) {
        AfterRender::Stored(p) => assert_eq!(p, "root/originals/db/4.png"),
        AfterRender::ContentsNeeded => panic!("render outcome was present"),
    }
    assert!(cm.has_original("db", &4));
}

#[test]
fn failed_render_falls_back_then_exhausts() {
    let mut cm = CacheManager::new(String::from("root"));
    match resolve_full_image_after_render(&mut cm, "db", 9, &None) {
        AfterRender::ContentsNeeded => {}
        AfterRender::Stored(_) => panic!("no render outcome to store"),
    }
    let r = resolve_full_image_after_contents(&mut cm, "db", 9, &None);
    match r {
        Err(e) => {
            assert!(matches!(e, ResolveError::NoImageContents { page_id: 9 }));
            assert_eq!(e.message(), "Page 9 has no image contents");
        }
        Ok(_) => panic!("every tier was exhausted"),
    }
}

#[test]
fn thumbnail_flow_misses_then_hits() {
    let mut cm = CacheManager::new(String::from("root"));
    // a page without chunks cannot be resolved
    let r = resolve_thumbnail_start(&cm, "db", 12, &None);
    match r {
        Err(e) => {
            assert!(matches!(e, ResolveError::NoChunks { page_id: 12 }));
            assert_eq!(e.message(), "Page 12 has no image chunks");
        }
        Ok(_) => panic!("a page without chunks has no thumbnail"),
    }

    // miss: the chunk contents are requested, then derived and stored
    let step = resolve_thumbnail_start(&cm, "db", 12, &Some(5)).unwrap();
    let cid = match step {
        DerivedStep::ChunkContentsNeeded(cid) => cid,
        DerivedStep::Cached(_) => panic!("nothing cached yet"),
    };
    assert_eq!(cid, 5);
    let path = resolve_thumbnail_after_contents(&mut cm, "db", cid, &png_bytes(40, 30)).unwrap();
    assert_eq!(path, "root/thumbnails/db/5.webp");

    // hit: no contents are requested the second time
    let step = resolve_thumbnail_start(&cm, "db", 12, &Some(5)).unwrap();
    assert!(matches!(step, DerivedStep::Cached(p) if p == path));
}

#[test]
fn preview_flow_misses_then_hits() {
    let mut cm = CacheManager::new(String::from("root"));
    let step = resolve_preview_start(&cm, "db", 2, &Some(8)).unwrap();
    assert!(matches!(step, DerivedStep::ChunkContentsNeeded(8)));
    let path = resolve_preview_after_contents(&mut cm, "db", 8, &png_bytes(10, 10)).unwrap();
    assert_eq!(path, "root/previews/db/8.webp");
    let step = resolve_preview_start(&cm, "db", 2, &Some(8)).unwrap();
    assert!(matches!(step, DerivedStep::Cached(p) if p == path));
}

#[test]
fn undecodable_contents_fail_resolution() {
    let mut cm = CacheManager::new(String::from("root"));
    let r = resolve_thumbnail_after_contents(&mut cm, "db", 5, &vec![0u8, 1, 2]);
    assert!(matches!(r, Err(ResolveError::ImageDecode)));
    assert!(!cm.has_thumbnail("db", &5));
}
