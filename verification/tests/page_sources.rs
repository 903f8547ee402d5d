use autorag_data::export_rows::image_export_filename;
use autorag_data::image_ops::convert_image_to_png;
use autorag_data::models::group_page_chunks;

#[test]
fn pages_collect_exactly_their_own_chunks() {
    let rows = vec![
        (10i64, 1i32, Some(String::from("/src/a.pdf"))),
        (11i64, 2i32, None),
        (12i64, 3i32, Some(String::from("/src/a.pdf"))),
    ];
    // batch-fetched (parent page, chunk id) pairs, ordered by chunk id
    let chunk_rows = vec![(10i64, 100i64), (11, 101), (10, 102), (12, 103)];
    let infos = group_page_chunks(&rows, &chunk_rows);

    assert_eq!(infos.len(), 3);
    assert_eq!(infos[0].page_id, 10);
    assert_eq!(infos[0].page_num, 1);
    assert_eq!(infos[0].source_path.as_deref(), Some("/src/a.pdf"));
    assert_eq!(infos[0].chunk_ids, vec![100i64, 102]);
    assert_eq!(infos[1].page_id, 11);
    assert_eq!(infos[1].source_path, None);
    assert_eq!(infos[1].chunk_ids, vec![101i64]);
    assert_eq!(infos[2].chunk_ids, vec![103i64]);
}

#[test]
fn pages_without_chunks_get_empty_lists() {
    let rows = vec![(5i64, 1i32, None)];
    let infos = group_page_chunks(&rows, &Vec::new());
    assert_eq!(infos.len(), 1);
    assert!(infos[0].chunk_ids.is_empty());
}

#[test]
fn exported_images_are_named_by_id() {
    assert_eq!(image_export_filename(42), "42.png");
    assert_eq!(image_export_filename(0), "0.png");
}

#[test]
fn conversion_to_png_normalizes_any_decodable_image() {
    // a small image encoded as WebP comes out as a PNG of the same size
    let img = image::RgbaImage::from_fn(9, 4, |x, y| {
        image::Rgba([(x * 20) as u8, (y * 30) as u8, 5, 255])
    });
    let mut webp = Vec::new();
    image::DynamicImage::ImageRgba8(img)
        .write_to(&mut std::io::Cursor::new(&mut webp), image::ImageFormat::WebP)
        .unwrap();

    let png = convert_image_to_png(&webp).unwrap();
    let decoded = image::load_from_memory(&png).unwrap();
    assert_eq!(image::guess_format(&png).unwrap(), image::ImageFormat::Png);
    assert_eq!((decoded.width(), decoded.height()), (9, 4));

    // garbage stays garbage
    assert!(convert_image_to_png(&[1u8, 2, 3]).is_none());
}
