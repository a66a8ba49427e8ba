use garview::blur::box_blur;
use garview::config::{default_bg, default_interpolation, default_true, default_zoom, Config};
use garview::imaging::{animation_frames, decode_image, decode_image_file, is_fully_transparent, rgba_to_png, ImagingError, RgbaPixels};
use garview::orientation::{exif_orientation, orient, orientation_for_file};
use garview::ipc::{
    close_reply, goto_reply, open_reply, quit_reply, slideshow_started_reply, slideshow_stopped_reply,
    socket_path, Response,
};
use garview::viewer::ImageViewer;
use garview::render::{bgra_to_rgba, RenderedPage};
use garview::thumbnail::{cache_key, generate_thumbnail, join_path_string, ThumbnailCache, ThumbnailResult};

/// The blur as the viewer has always computed it, written out directly.
fn reference_blur(data: &mut [u8], width: u32, height: u32, radius: usize) {
    if radius == 0 || width == 0 || height == 0 {
        return;
    }
    let w = width as usize;
    let h = height as usize;
    let pass_radius = (radius / 3).max(1);
    for _ in 0..3 {
        let mut temp = data.to_vec();
        for y in 0..h {
            for x in 0..w {
                let mut sums = [0u32; 4];
                let mut count = 0u32;
                for sx in x.saturating_sub(pass_radius)..(x + pass_radius + 1).min(w) {
                    let idx = (y * w + sx) * 4;
                    for c in 0..4 {
                        sums[c] += data[idx + c] as u32;
                    }
                    count += 1;
                }
                let idx = (y * w + x) * 4;
                for c in 0..4 {
                    temp[idx + c] = (sums[c] / count) as u8;
                }
            }
        }
        for y in 0..h {
            for x in 0..w {
                let mut sums = [0u32; 4];
                let mut count = 0u32;
                for sy in y.saturating_sub(pass_radius)..(y + pass_radius + 1).min(h) {
                    let idx = (sy * w + x) * 4;
                    for c in 0..4 {
                        sums[c] += temp[idx + c] as u32;
                    }
                    count += 1;
                }
                let idx = (y * w + x) * 4;
                for c in 0..4 {
                    data[idx + c] = (sums[c] / count) as u8;
                }
            }
        }
    }
}

#[test]
fn blur_small_row_exact() {
    let mut data = vec![0, 0, 0, 255, 30, 0, 0, 255, 60, 0, 0, 255];
    box_blur(&mut data, 3, 1, 3);
    assert_eq!(data, vec![26, 0, 0, 255, 29, 0, 0, 255, 33, 0, 0, 255]);
}

#[test]
fn blur_matches_direct_computation() {
    let (w, h) = (7u32, 5u32);
    let mut data: Vec<u8> = (0..(w * h * 4)).map(|i| ((i * 37 + 11) % 251) as u8).collect();
    data.extend_from_slice(&[1, 2, 3]);
    for radius in [1usize, 3, 5, 9] {
        let mut ours = data.clone();
        let mut theirs = data.clone();
        box_blur(&mut ours, w, h, radius);
        reference_blur(&mut theirs, w, h, radius);
        assert_eq!(ours, theirs);
        assert_eq!(&ours[(w * h * 4) as usize..], &[1, 2, 3]);
    }
}

#[test]
fn blur_nothing_to_do() {
    let mut data = vec![9u8, 8, 7, 6];
    box_blur(&mut data, 1, 1, 0);
    assert_eq!(data, vec![9, 8, 7, 6]);
    box_blur(&mut data, 0, 1, 5);
    assert_eq!(data, vec![9, 8, 7, 6]);
    box_blur(&mut data, 1, 1, 5);
    assert_eq!(data, vec![9, 8, 7, 6]);
}

#[test]
fn surface_pixels_to_rgba() {
    // Two pixels per row, rows 12 bytes apart (4 bytes of padding).
    let src = vec![
        1, 2, 3, 4, 5, 6, 7, 8, 0, 0, 0, 0, //
        9, 10, 11, 12, 13, 14, 15, 16, 0, 0, 0, 0,
    ];
    let out = bgra_to_rgba(&src, 12, 2, 2);
    assert_eq!(out, vec![3, 2, 1, 4, 7, 6, 5, 8, 11, 10, 9, 12, 15, 14, 13, 16]);
    let short = bgra_to_rgba(&src[..18], 12, 2, 2);
    assert_eq!(short, vec![3, 2, 1, 4, 7, 6, 5, 8, 11, 10, 9, 12, 0, 0, 0, 0]);
    assert_eq!(bgra_to_rgba(&src, 12, 0, 0), Vec::<u8>::new());
    let page = RenderedPage { data: out, width: 2, height: 2, index: 0 };
    assert_eq!(page.data.len(), (page.width * page.height * 4) as usize);
}

#[test]
fn png_round_trip() {
    let pixels = vec![255, 0, 0, 255, 0, 255, 0, 128];
    let png = rgba_to_png(&pixels, 2, 1).unwrap();
    let back = decode_image(&png).unwrap();
    assert_eq!((back.width, back.height), (2, 1));
    assert_eq!(back.data, pixels);
    assert_eq!(rgba_to_png(&pixels, 2, 2), Err(ImagingError::BufferTooSmall));
    assert!(matches!(decode_image(b"not an image"), Err(ImagingError::Decode)));
}

#[test]
fn transparency() {
    assert!(is_fully_transparent(&[]));
    assert!(is_fully_transparent(&[1, 2, 3, 0, 4, 5, 6, 0]));
    assert!(!is_fully_transparent(&[1, 2, 3, 0, 4, 5, 6, 1]));
}

#[test]
fn thumbnail_paths() {
    let key = cache_key("/a/b.png", 128, Some((1_700_000_000, 5)));
    assert_eq!(key.len(), 20);
    assert!(key.ends_with(".png"));
    assert!(key[..16].chars().all(|c| c.is_ascii_hexdigit() && !c.is_ascii_uppercase()));
    assert_eq!(key, cache_key("/a/b.png", 128, Some((1_700_000_000, 5))));
    assert_ne!(key, cache_key("/a/b.png", 64, Some((1_700_000_000, 5))));
    assert_ne!(key, cache_key("/a/c.png", 128, Some((1_700_000_000, 5))));
    assert_eq!(join_path_string("/cache", "x.png"), "/cache/x.png");
    assert_eq!(join_path_string("/cache/", "x.png"), "/cache/x.png");
    assert_eq!(join_path_string("/cache", "/abs.png"), "/abs.png");
    let cache = ThumbnailCache::new("/tmp/thumbs".to_string(), 128);
    let p = cache.cached_path("/a/b.png", None);
    assert!(p.starts_with("/tmp/thumbs/"));
    assert_eq!(p, format!("/tmp/thumbs/{}", cache_key("/a/b.png", 128, None)));
    assert!(!cache.is_cached("/definitely/not/here.png", None));
}

#[test]
fn thumbnail_generation_and_cache() {
    let source = rgba_to_png(&vec![200u8; 4 * 2 * 4], 4, 2).unwrap();
    let (t, png) = generate_thumbnail("/pic.png", 2, None, &source).unwrap();
    assert_eq!((t.width, t.height), (2, 1));
    assert_eq!(t.data.len(), 8);
    assert_eq!(t.path, "/pic.png");
    let png = png.unwrap();
    let (again, none) = generate_thumbnail("/pic.png", 2, Some(&png), &[]).unwrap();
    assert!(none.is_none());
    assert_eq!(again.data, t.data);
    assert!(matches!(generate_thumbnail("/x", 2, None, b"junk"), Err(ImagingError::Decode)));

    let mut cache = ThumbnailCache::new("/tmp/thumbs".to_string(), 2);
    assert!(cache.request("/pic.png", false).is_none());
    let req = cache.request("/pic.png", true).unwrap();
    assert_eq!((req.path.as_str(), req.size), ("/pic.png", 2));
    assert!(cache.is_pending("/pic.png"));
    assert!(cache.request("/pic.png", true).is_none());
    let done = cache.poll(vec![Err("failed".to_string()), Ok(t.clone())]);
    assert_eq!(done, vec!["/pic.png".to_string()]);
    assert!(!cache.is_pending("/pic.png"));
    assert_eq!(cache.get("/pic.png").map(|r| r.width), Some(2));
    assert!(cache.request("/pic.png", true).is_none());
    assert_eq!(cache.memory_cache_size(), 1);
    cache.clear_memory();
    assert_eq!(cache.memory_cache_size(), 0);
    assert!(cache.load_cached("/pic.png", &png).is_ok());
    assert_eq!(cache.get("/pic.png").map(|r| r.data.clone()), Some(t.data.clone()));
    assert_eq!(cache.load_cached("/other", b"junk"), Err(ImagingError::Decode));
    assert_eq!(cache.size(), 2);
    assert_eq!(cache.cache_dir(), "/tmp/thumbs");
    let _unused: Option<&ThumbnailResult> = cache.get("/other");
}

#[test]
fn ipc_replies_and_socket() {
    let ok = Response::ok();
    assert!(ok.success && ok.message.is_none() && ok.data.is_none());
    let m = Response::ok_with_message("done".to_string());
    assert_eq!(m.message.as_deref(), Some("done"));
    let d = Response::ok_with_data(serde_json::Value::Bool(true));
    assert_eq!(d.data, Some(serde_json::Value::Bool(true)));
    let e = Response::error("bad".to_string());
    assert!(!e.success);
    assert_eq!(e.message.as_deref(), Some("bad"));
    assert_eq!(socket_path(Some("/run/user/1000"), 5), "/run/user/1000/garview.sock");
    assert_eq!(socket_path(None, 1000), "/run/user/1000/garview.sock");
    assert_eq!(socket_path(Some("/tmp/"), 0), "/tmp/garview.sock");
}

#[test]
fn config_defaults() {
    let c = Config::default();
    assert_eq!(c.general.default_zoom, "fit");
    assert!(!c.general.remember_position);
    assert!(!c.general.remember_zoom);
    assert_eq!(c.general.background_color, "#1a1b26");
    assert!(c.images.auto_rotate_exif);
    assert_eq!(c.images.interpolation, "lanczos");
    assert_eq!(default_zoom(), "fit");
    assert_eq!(default_bg(), "#1a1b26");
    assert!(default_true());
    assert_eq!(default_interpolation(), "lanczos");
}

#[test]
fn control_replies_say_what_happened() {
    let r = open_reply("/tmp/a.png", None);
    assert!(r.success);
    assert_eq!(r.message.as_deref(), Some("Opened: /tmp/a.png"));
    let r = open_reply("/tmp/a.png", Some("no such file".to_string()));
    assert!(!r.success);
    assert_eq!(r.message.as_deref(), Some("Failed to open: no such file"));
    assert_eq!(close_reply().message.as_deref(), Some("File closed"));
    assert_eq!(slideshow_started_reply().message.as_deref(), Some("Slideshow started"));
    assert_eq!(slideshow_stopped_reply().message.as_deref(), Some("Slideshow stopped"));
    assert_eq!(quit_reply().message.as_deref(), Some("Quitting..."));
}

#[test]
fn goto_reply_counts_pages_from_one() {
    let mut v: ImageViewer<u32> = ImageViewer::new();
    v.begin_load("/docs/a.pdf".to_string(), None);
    assert!(v.complete_load(Some((5, false))));
    let r = goto_reply(&mut v, 3);
    assert!(r.success);
    assert_eq!(v.current_page(), 2);
    let r = goto_reply(&mut v, 3);
    assert!(r.success);
    assert_eq!(v.current_page(), 2);
    let r = goto_reply(&mut v, 6);
    assert!(!r.success);
    assert_eq!(r.message.as_deref(), Some("Invalid page number"));
    assert_eq!(v.current_page(), 2);
    assert!(goto_reply(&mut v, 0).success);
    assert_eq!(v.current_page(), 0);
}

fn sample_image(w: u32, h: u32) -> image::RgbaImage {
    image::RgbaImage::from_fn(w, h, |x, y| image::Rgba([x as u8, y as u8, (x * 7 + y * 3) as u8, 255]))
}

#[test]
fn orient_matches_image_operations() {
    let img = sample_image(5, 3);
    let px = RgbaPixels { data: img.as_raw().clone(), width: 5, height: 3 };
    let dynimg = image::DynamicImage::ImageRgba8(img.clone());
    let expected = [
        (1, dynimg.clone()),
        (2, dynimg.fliph()),
        (3, dynimg.rotate180()),
        (4, dynimg.flipv()),
        (5, dynimg.rotate90().fliph()),
        (6, dynimg.rotate90()),
        (7, dynimg.rotate270().fliph()),
        (8, dynimg.rotate270()),
        (9, dynimg.clone()),
    ];
    for (o, want) in expected.iter() {
        let got = orient(&px, *o);
        let want = want.to_rgba8();
        assert_eq!((got.width, got.height), want.dimensions(), "orientation {}", o);
        assert_eq!(got.data, want.into_raw(), "orientation {}", o);
    }
}

#[test]
fn orient_then_undo_gives_image_back() {
    let img = sample_image(4, 2);
    let px = RgbaPixels { data: img.into_raw(), width: 4, height: 2 };
    for (o, back) in [(2u32, 2u32), (3, 3), (4, 4), (5, 5), (6, 8), (7, 7), (8, 6)] {
        let t = orient(&px, o);
        let r = orient(&t, back);
        assert_eq!((r.width, r.height), (4, 2));
        assert_eq!(r.data, px.data);
    }
}

fn tiff_with_orientation(o: u8) -> Vec<u8> {
    vec![
        0x49, 0x49, 0x2A, 0x00, 0x08, 0x00, 0x00, 0x00, // header, IFD at 8
        0x01, 0x00, // one entry
        0x12, 0x01, 0x03, 0x00, 0x01, 0x00, 0x00, 0x00, o, 0x00, 0x00, 0x00, // Orientation
        0x00, 0x00, 0x00, 0x00, // no next IFD
    ]
}

#[test]
fn exif_orientation_read_from_bytes() {
    assert_eq!(exif_orientation(&tiff_with_orientation(6)), 6);
    assert_eq!(exif_orientation(b"not an image"), 1);
    assert_eq!(orientation_for_file("/p/photo.JPG", &tiff_with_orientation(8)), 8);
    assert_eq!(orientation_for_file("/p/photo.jpeg", &tiff_with_orientation(3)), 3);
    assert_eq!(orientation_for_file("/p/photo.png", &tiff_with_orientation(6)), 1);
    assert_eq!(orientation_for_file("/p/photo", &tiff_with_orientation(6)), 1);
}

fn gif_bytes(delays_ms: &[u32]) -> Vec<u8> {
    let mut out = Vec::new();
    {
        let mut enc = image::codecs::gif::GifEncoder::new(&mut out);
        for (i, d) in delays_ms.iter().enumerate() {
            let buf = image::RgbaImage::from_pixel(3, 2, image::Rgba([i as u8 * 80, 0, 0, 255]));
            let frame = image::Frame::from_parts(buf, 0, 0, image::Delay::from_numer_denom_ms(*d, 1));
            enc.encode_frame(frame).unwrap();
        }
    }
    out
}

#[test]
fn animated_gif_frames_and_delays() {
    let frames = animation_frames(&gif_bytes(&[200, 0, 50])).unwrap();
    assert_eq!(frames.len(), 3);
    assert_eq!(frames[0].delay_ms, 200);
    assert_eq!(frames[1].delay_ms, 10);
    assert_eq!(frames[2].delay_ms, 50);
    assert_eq!((frames[1].pixels.width, frames[1].pixels.height), (3, 2));
    assert_eq!(frames[1].pixels.data.len(), 24);
    assert!(animation_frames(&gif_bytes(&[100])).is_none());
    assert!(animation_frames(b"GIF89a broken").is_none());
}

#[test]
fn config_and_cache_locations() {
    assert_eq!(garview::config::config_path(Some("/home/u/.config")), "/home/u/.config/garview/config.toml");
    assert_eq!(garview::config::config_path(None), "~/.config/garview/config.toml");
    assert_eq!(
        garview::thumbnail::cache_directory(Some("/home/u/.cache/")),
        Some("/home/u/.cache/garview/thumbnails".to_string())
    );
    assert_eq!(garview::thumbnail::cache_directory(None), None);
}

#[test]
fn image_files_decode_by_their_extension() {
    let png = rgba_to_png(&[1, 2, 3, 255, 4, 5, 6, 255], 2, 1).unwrap();
    let img = decode_image_file("/p/a.PNG", &png).unwrap();
    assert_eq!((img.width, img.height), (2, 1));
    assert_eq!(img.data, vec![1, 2, 3, 255, 4, 5, 6, 255]);
    assert!(matches!(decode_image_file("/p/a.jpg", &png), Err(ImagingError::Decode)));
    assert!(matches!(decode_image_file("/p/noext", &png), Err(ImagingError::Decode)));
    assert!(decode_image(&png).is_ok());
}
