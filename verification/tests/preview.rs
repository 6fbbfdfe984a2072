use visualcoder::preview::{payload, preview_frame, rgba_from_bgra, thumbnail, thumbnail_due};

fn decode(text: &str) -> Vec<u8> {
    #[allow(deprecated)]
    base64::decode(text).unwrap()
}

#[test]
fn bgra_rows_become_tight_rgba() {
    // two pixels by two rows, rows ten bytes apart
    let src: Vec<u8> = vec![
        1, 2, 3, 4, 5, 6, 7, 8, 0xEE, 0xEE, //
        9, 10, 11, 12, 13, 14, 15, 16, 0xEE, 0xEE,
    ];
    assert_eq!(
        rgba_from_bgra(&src, 2, 2, 10),
        Some(vec![3, 2, 1, 4, 7, 6, 5, 8, 11, 10, 9, 12, 15, 14, 13, 16])
    );
    assert_eq!(rgba_from_bgra(&src, 0, 2, 10), Some(Vec::new()));
    assert_eq!(rgba_from_bgra(&src, 2, 0, 10), Some(Vec::new()));
}

#[test]
fn pixels_beyond_the_source_are_black() {
    let src: Vec<u8> = vec![1, 2, 3, 4, 5, 6, 7];
    assert_eq!(rgba_from_bgra(&src, 2, 1, 8), Some(vec![3, 2, 1, 4, 0, 0, 0, 0]));
    assert_eq!(rgba_from_bgra(&src, 1, 2, 4), Some(vec![3, 2, 1, 4, 0, 0, 0, 0]));
    assert_eq!(rgba_from_bgra(&[], 1, 1, 4), Some(vec![0, 0, 0, 0]));
}

#[test]
fn preview_is_a_jpeg_image_of_the_frame_in_base64() {
    // a blue frame in BGRA
    let (w, h) = (16u32, 8u32);
    let mut src = Vec::new();
    for _ in 0..w * h {
        src.extend_from_slice(&[255, 0, 0, 255]);
    }
    let text = preview_frame(&src, w, h, (w * 4) as usize).unwrap();
    assert!(text.starts_with("/9j/"));
    let jpeg = decode(&text);
    assert_eq!(&jpeg[..3], &[0xFF, 0xD8, 0xFF]);
    let image = image::load_from_memory(&jpeg).unwrap().to_rgb8();
    assert_eq!(image.dimensions(), (w, h));
    let p = image.get_pixel(3, 3);
    assert!(p[0] < 40 && p[1] < 40 && p[2] > 215);
}

#[test]
fn preview_of_a_frame_too_large_for_jpeg_is_nothing() {
    let src = vec![0u8; 70_000 * 4];
    assert_eq!(preview_frame(&src, 70_000, 1, 70_000 * 4), None);
}

#[test]
fn payload_is_the_base64_text_of_the_image() {
    assert_eq!(payload(None), None);
    assert_eq!(payload(Some(Vec::new())), Some(String::new()));
    assert_eq!(payload(Some(b"f".to_vec())), Some(String::from("Zg==")));
    assert_eq!(payload(Some(b"fo".to_vec())), Some(String::from("Zm8=")));
    assert_eq!(payload(Some(b"foobar".to_vec())), Some(String::from("Zm9vYmFy")));
    assert_eq!(payload(Some(vec![0xFB, 0xFF, 0xFE])), Some(String::from("+//+")));
}

#[test]
fn thumbnail_is_480_wide_and_keeps_the_shape() {
    let (w, h) = (960u32, 540u32);
    let mut frame = Vec::with_capacity((w * h * 4) as usize);
    for y in 0..h {
        for _ in 0..w {
            // the top half dark, the bottom half light
            let v = if y < h / 2 { 10 } else { 240 };
            frame.extend_from_slice(&[v, v, v, 255]);
        }
    }
    let text = thumbnail(&frame, w, h).unwrap();
    let image = image::load_from_memory(&decode(&text)).unwrap().to_rgb8();
    assert_eq!(image.dimensions(), (480, 270));
    assert!(image.get_pixel(240, 20)[0] < 60);
    assert!(image.get_pixel(240, 250)[0] > 190);
}

#[test]
fn thumbnail_of_a_small_frame_is_enlarged() {
    let frame = vec![200u8; 4 * 2 * 4];
    let text = thumbnail(&frame, 4, 2).unwrap();
    let image = image::load_from_memory(&decode(&text)).unwrap();
    assert_eq!((image.width(), image.height()), (480, 240));
}

#[test]
fn thumbnail_needs_a_frame_of_the_stated_size() {
    let frame = vec![0u8; 64];
    assert_eq!(thumbnail(&frame, 0, 4), None);
    assert_eq!(thumbnail(&frame, 4, 0), None);
    assert_eq!(thumbnail(&frame, 4, 5), None);
    assert_eq!(thumbnail(&frame[..63], 4, 4), None);
    assert!(thumbnail(&frame, 4, 4).is_some());
    assert_eq!(thumbnail(&frame, 1, 9_000_000), None);
}

#[test]
fn every_fifth_capture_shows_a_thumbnail() {
    let due: Vec<u64> = (1..=12).filter(|&n| thumbnail_due(n)).collect();
    assert_eq!(due, vec![5, 10]);
}
