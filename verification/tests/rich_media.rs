use base64::Engine;
use codex_y::rich_media::{
    enabled, image_dimensions_acceptable, image_file_acceptable, latex, latex_max_rows, latex_render_key,
    local_image, local_image_key, row, Cache, CacheStep, ImageFile, FIRST_MARKER, MAX_ASSETS, MAX_BYTES,
    MAX_LATEX_SOURCE_BYTES, MAX_ROWS, PADDING_MARKER, Picture, register_size_fits,
};
use image::DynamicImage;
use image::GenericImageView;

/// The pixel size that an image is resized to before registration, as the
/// renderer computes it: fit within `width` columns and `max_rows` rows of
/// 16 by 32 pixel cells, never enlarged.
fn scaled_size(image: &DynamicImage, width: usize, max_rows: u32) -> (u32, u32) {
    let max_cols = width.clamp(1, 120) as u32;
    let (w, h) = image.dimensions();
    let scale = (f64::from(max_cols * 16) / f64::from(w))
        .min(f64::from(max_rows * 32) / f64::from(h))
        .min(1.0);
    let w = (f64::from(w) * scale).round().max(1.0) as u32;
    let h = (f64::from(h) * scale).round().max(1.0) as u32;
    (w, h)
}

/// The picture's RGBA pixels, as the renderer hands them to the cache.
fn picture(image: DynamicImage) -> Picture {
    let (w, h) = image.dimensions();
    Picture::new(w, h, image.to_rgba8().into_raw()).unwrap()
}

fn register(cache: &mut Cache, image: DynamicImage, width: usize, max_rows: u32) -> Option<String> {
    let (w, h) = scaled_size(&image, width, max_rows);
    assert!(register_size_fits(image.width(), w, h));
    cache.register(picture(image), w, h)
}

#[test]
fn rich_media_rows_are_bounded_and_reconstruct_png() {
    let mut cache = Cache::new();
    let image = DynamicImage::ImageRgba8(image::RgbaImage::from_pixel(
        320,
        160,
        image::Rgba([40, 150, 210, 255]),
    ));
    let markers = register(&mut cache, image, 10, 3).unwrap();
    assert_eq!(markers.lines().count(), 3);
    assert!(markers.lines().all(|line| line.chars().count() == 10));
    for row in &cache.rows {
        assert!(row.starts_with("\x1b]1337;File=inline=1;width=10;height=1;preserveAspectRatio=0:"));
        let payload = row.split_once(':').unwrap().1.trim_end_matches('\x07');
        let png = base64::engine::general_purpose::STANDARD.decode(payload).unwrap();
        let decoded = image::load_from_memory(&png).unwrap();
        assert_eq!(decoded.dimensions(), (160, 32));
    }
    assert_eq!(
        format!(
            "image rows: {}\ncolumns: {}\nrow height: 1\nprotocol: OSC 1337\n",
            cache.rows.len(),
            markers.lines().next().unwrap().chars().count(),
        ),
        "image rows: 3\ncolumns: 10\nrow height: 1\nprotocol: OSC 1337\n"
    );
}

#[test]
fn rich_media_budget_failure_does_not_register_partial_rows() {
    let mut cache = Cache { bytes: MAX_BYTES, ..Cache::new() };
    assert!(register(&mut cache, DynamicImage::new_rgba8(32, 32), 10, 2).is_none());
    assert!(cache.rows.is_empty());
}

#[test]
fn rich_media_rejects_unregistered_markers_and_control_sequences() {
    let cache = Cache::new();
    assert!(row(&cache, "\x1b]1337;File=anything\x07").is_none());
    assert!(row(&cache, "plain text").is_none());
    assert!(row(&cache, "\u{ffffd}").is_none());
}

#[test]
fn registered_markers_resolve_to_their_rows() {
    let mut cache = Cache::new();
    let image = DynamicImage::new_rgba8(40, 70);
    let markers = cache.register(picture(image), 40, 70).unwrap();
    // 40 pixels are three cells wide, 70 pixels three cells high.
    let lines: Vec<&str> = markers.lines().collect();
    assert_eq!(lines.len(), 3);
    for (i, line) in lines.iter().enumerate() {
        let mut chars = line.chars();
        let marker = chars.next().unwrap();
        assert_eq!(marker as u32, FIRST_MARKER + i as u32);
        assert_eq!(chars.clone().count(), 2);
        assert!(chars.all(|c| c == PADDING_MARKER));
        let escape = row(&cache, &marker.to_string()).unwrap();
        assert_eq!(escape, cache.rows[i]);
        assert!(escape.starts_with("\x1b]1337;File=inline=1;width=3;height=1;preserveAspectRatio=0:"));
        assert!(escape.ends_with('\x07'));
    }
    assert_eq!(row(&cache, &PADDING_MARKER.to_string()), Some(String::new()));
    let second: String = [char::from_u32(FIRST_MARKER + 1).unwrap(), 'x'].iter().collect();
    assert!(row(&cache, &second).is_none());
    let unregistered = char::from_u32(FIRST_MARKER + 3).unwrap().to_string();
    assert!(row(&cache, &unregistered).is_none());
    let total: usize = cache.rows.iter().map(String::len).sum();
    assert_eq!(cache.bytes, total);
}

#[test]
fn second_registration_continues_the_markers() {
    let mut cache = Cache::new();
    cache.register(picture(DynamicImage::new_rgba8(16, 32)), 16, 32).unwrap();
    let markers = cache.register(picture(DynamicImage::new_rgba8(16, 32)), 16, 32).unwrap();
    assert_eq!(markers.chars().next().unwrap() as u32, FIRST_MARKER + 1);
    assert_eq!(cache.rows.len(), 2);
}

#[test]
fn budget_failure_leaves_cache_unchanged() {
    let mut cache = Cache::new();
    cache.register(picture(DynamicImage::new_rgba8(16, 32)), 16, 32).unwrap();
    let before_rows = cache.rows.clone();
    cache.bytes = MAX_BYTES - 1;
    assert!(cache.register(picture(DynamicImage::new_rgba8(16, 32)), 16, 32).is_none());
    assert_eq!(cache.rows, before_rows);
    assert_eq!(cache.bytes, MAX_BYTES - 1);
}

#[test]
fn cache_serves_remembered_renderings() {
    let mut cache = Cache::new();
    match cache.begin("k".to_string()) {
        CacheStep::Render(key) => assert_eq!(key, "k"),
        other => panic!("expected a render, got {other:?}"),
    }
    cache.remember("k".to_string(), Some("text".to_string()));
    cache.remember("failed".to_string(), None);
    assert!(matches!(cache.begin("k".to_string()), CacheStep::Done(Some(ref t)) if t == "text"));
    assert!(matches!(cache.begin("failed".to_string()), CacheStep::Done(None)));
}

#[test]
fn full_cache_refuses_new_renderings() {
    let mut cache = Cache::new();
    for i in 0..MAX_ASSETS {
        cache.remember(format!("key{i}"), None);
    }
    assert!(matches!(cache.begin("another".to_string()), CacheStep::Done(None)));
    assert!(matches!(cache.begin("key3".to_string()), CacheStep::Done(None)));
    let mut spent = Cache::new();
    spent.bytes = MAX_BYTES;
    assert!(matches!(spent.begin("another".to_string()), CacheStep::Done(None)));
}

#[test]
fn local_image_keys_and_gating() {
    let file = ImageFile { path: "/tmp/a.png".to_string(), modified: "None".to_string(), len: 1234 };
    assert_eq!(local_image_key(80, &file), "image:80:/tmp/a.png:None:1234");
    let cache = Cache::new();
    assert!(matches!(local_image(&cache, false, Some(file), 80), CacheStep::Done(None)));
    assert!(matches!(local_image(&cache, true, None, 80), CacheStep::Done(None)));
    let file = ImageFile { path: "/tmp/a.png".to_string(), modified: "None".to_string(), len: 1234 };
    match local_image(&cache, true, Some(file), 80) {
        CacheStep::Render(key) => assert_eq!(key, "image:80:/tmp/a.png:None:1234"),
        other => panic!("expected a render, got {other:?}"),
    }
}

#[test]
fn latex_keys_rows_and_gating() {
    assert_eq!(
        latex_render_key(72, true, (216, 222, 233), (18, 26, 29), "x^2"),
        "tex:72:true:(216, 222, 233):(18, 26, 29):x^2"
    );
    assert_eq!(latex_max_rows(true), MAX_ROWS);
    assert_eq!(latex_max_rows(false), 1);
    let cache = Cache::new();
    let long = "a".repeat(MAX_LATEX_SOURCE_BYTES + 1);
    assert!(matches!(latex(&cache, true, &long, false, 10, (0, 0, 0), (0, 0, 0)), CacheStep::Done(None)));
    assert!(matches!(latex(&cache, false, "x", false, 10, (0, 0, 0), (0, 0, 0)), CacheStep::Done(None)));
    let exact = "a".repeat(MAX_LATEX_SOURCE_BYTES);
    assert!(matches!(latex(&cache, true, &exact, false, 10, (0, 0, 0), (0, 0, 0)), CacheStep::Render(_)));
}

#[test]
fn rich_media_needs_iterm_outside_multiplexers() {
    let on = || Some("1".to_string());
    let iterm = || Some("iTerm.app".to_string());
    assert!(enabled(on(), iterm(), false, false));
    assert!(!enabled(None, iterm(), false, false));
    assert!(!enabled(Some("0".to_string()), iterm(), false, false));
    assert!(!enabled(on(), Some("Apple_Terminal".to_string()), false, false));
    assert!(!enabled(on(), iterm(), true, false));
    assert!(!enabled(on(), iterm(), false, true));
}

#[test]
fn image_limits() {
    assert!(image_file_acceptable(true, Some(8 * 1024 * 1024)));
    assert!(!image_file_acceptable(true, Some(8 * 1024 * 1024 + 1)));
    assert!(!image_file_acceptable(false, Some(1)));
    assert!(!image_file_acceptable(true, None));
    assert!(image_dimensions_acceptable(4000, 2000));
    assert!(!image_dimensions_acceptable(4000, 2001));
    assert!(!image_dimensions_acceptable(0, 10));
    assert!(!image_dimensions_acceptable(10, 0));
    assert!(!image_dimensions_acceptable(u32::MAX, u32::MAX));
}

#[test]
fn registered_rows_hold_their_own_stripes() {
    let mut cache = Cache::new();
    let mut pixels = image::RgbaImage::new(16, 64);
    for (_, y, p) in pixels.enumerate_pixels_mut() {
        *p = if y < 32 { image::Rgba([255, 0, 0, 255]) } else { image::Rgba([0, 0, 255, 255]) };
    }
    cache.register(picture(DynamicImage::ImageRgba8(pixels)), 16, 64).unwrap();
    assert_eq!(cache.rows.len(), 2);
    let expected = [image::Rgba([255u8, 0, 0, 255]), image::Rgba([0u8, 0, 255, 255])];
    for (row, colour) in cache.rows.iter().zip(expected) {
        let payload = row.split_once(':').unwrap().1.trim_end_matches('\x07');
        let png = base64::engine::general_purpose::STANDARD.decode(payload).unwrap();
        let decoded = image::load_from_memory(&png).unwrap().to_rgba8();
        assert_eq!(decoded.dimensions(), (16, 32));
        assert!(decoded.pixels().all(|p| *p == colour));
    }
}

#[test]
fn narrow_image_is_padded_with_transparency() {
    let mut cache = Cache::new();
    let image = DynamicImage::ImageRgba8(image::RgbaImage::from_pixel(5, 10, image::Rgba([1, 2, 3, 255])));
    cache.register(picture(image), 5, 10).unwrap();
    let payload = cache.rows[0].split_once(':').unwrap().1.trim_end_matches('\x07');
    let png = base64::engine::general_purpose::STANDARD.decode(payload).unwrap();
    let decoded = image::load_from_memory(&png).unwrap().to_rgba8();
    assert_eq!(decoded.dimensions(), (16, 32));
    assert_eq!(*decoded.get_pixel(0, 0), image::Rgba([1, 2, 3, 255]));
    assert_eq!(*decoded.get_pixel(4, 9), image::Rgba([1, 2, 3, 255]));
    assert_eq!(*decoded.get_pixel(5, 0), image::Rgba([0, 0, 0, 0]));
    assert_eq!(*decoded.get_pixel(0, 10), image::Rgba([0, 0, 0, 0]));
}

#[test]
fn pictures_must_be_filled_exactly() {
    assert!(Picture::new(2, 3, vec![0; 24]).is_some());
    assert!(Picture::new(2, 3, vec![0; 23]).is_none());
    assert!(Picture::new(2, 3, vec![0; 25]).is_none());
    assert!(Picture::new(0, 5, Vec::new()).is_some());
    let p = Picture::new(1, 1, vec![1, 2, 3, 4]).unwrap();
    assert_eq!((p.width, p.height, p.pixels), (1, 1, vec![1, 2, 3, 4]));
}

#[test]
fn registration_sizes() {
    assert!(register_size_fits(320, 160, 96));
    assert!(register_size_fits(1, 1920, 1));
    assert!(!register_size_fits(1, 1921, 1));
    assert!(!register_size_fits(1, 0, 1));
    assert!(!register_size_fits(1, 1, 0));
    assert!(!register_size_fits(1, 1, u32::MAX));
}

#[test]
fn registration_draws_the_given_picture() {
    let red = image::RgbaImage::from_pixel(16, 32, image::Rgba([200, 10, 10, 255]));
    let green = image::RgbaImage::from_pixel(16, 32, image::Rgba([10, 200, 10, 255]));
    let mut cache = Cache::new();
    cache.register(picture(DynamicImage::ImageRgba8(red)), 16, 32).unwrap();
    cache.register(picture(DynamicImage::ImageRgba8(green)), 16, 32).unwrap();
    assert_ne!(cache.rows[0], cache.rows[1]);
    let payload = cache.rows[1].split_once(':').unwrap().1.trim_end_matches('\x07');
    let png = base64::engine::general_purpose::STANDARD.decode(payload).unwrap();
    let decoded = image::load_from_memory(&png).unwrap().to_rgba8();
    assert!(decoded.pixels().all(|p| *p == image::Rgba([10, 200, 10, 255])));
}

#[test]
fn a_rendering_adds_at_most_max_rows() {
    let mut cache = Cache::new();
    let tallest = MAX_ROWS * 32;
    cache.register(picture(DynamicImage::new_rgba8(16, tallest)), 16, tallest).unwrap();
    assert_eq!(cache.rows.len(), MAX_ROWS as usize);
    cache.remember("tall".to_string(), None);
    assert!(cache.rows.len() <= MAX_ROWS as usize * cache.rendered.len());
}
