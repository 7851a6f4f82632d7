use std::io::{Cursor, Read};

use sha2::Digest;

use media_cache::cache::{CacheEntry, ImageCache, NANOS_PER_DAY};
use media_cache::key::to_hex;
use media_cache::options::{OutputFormat, TransformOptions};
use media_cache::response::{build_encoded_response, build_response, build_response_with_type, status_text};
use media_cache::serve::{build_compressed_response, plan_fetch, respond_direct, serve_image, FetchPlan};
use media_cache::transform::{optimize_image, target_dimensions, TransformError};

fn source_png(width: u32, height: u32) -> Vec<u8> {
    let img = image::RgbImage::from_fn(width, height, |x, y| image::Rgb([(x % 256) as u8, (y % 256) as u8, 90]));
    let mut buf = Vec::new();
    image::DynamicImage::ImageRgb8(img)
        .write_to(&mut Cursor::new(&mut buf), image::ImageOutputFormat::Png)
        .unwrap();
    buf
}

fn body_of(response: &[u8]) -> &[u8] {
    let at = response.windows(4).position(|w| w == b"\r\n\r\n").unwrap();
    &response[at + 4..]
}

fn gunzip(data: &[u8]) -> Vec<u8> {
    let mut out = Vec::new();
    flate2::read::GzDecoder::new(data).read_to_end(&mut out).unwrap();
    out
}

#[test]
fn key_is_deterministic_and_hex() {
    let o = TransformOptions::from_query("w=100&q=50&fmt=webp");
    let a = o.cache_key("/photo.jpg");
    let b = TransformOptions::from_query("w=100&q=50&fmt=webp").cache_key("/photo.jpg");
    assert_eq!(a, b);
    assert_eq!(a.len(), 64);
    assert!(a.chars().all(|c| c.is_ascii_digit() || ('a'..='f').contains(&c)));
}

#[test]
fn key_matches_digest_of_path_and_options() {
    let o = TransformOptions::from_query("w=100&q=50&fmt=webp");
    let expected = format!("{:x}", sha2::Sha256::digest(b"/photo.jpgwSome(100)hNoneq50fmtWebP"));
    assert_eq!(o.cache_key("/photo.jpg"), expected);
    let d = TransformOptions::defaults();
    let expected = format!("{:x}", sha2::Sha256::digest(b"/a.pngwNonehNoneq80fmtJpeg(80)"));
    assert_eq!(d.cache_key("/a.png"), expected);
}

#[test]
fn keys_differ_when_any_field_differs() {
    let queries = [
        "", "w=1", "w=2", "h=1", "h=2", "w=1&h=2", "w=2&h=1", "q=1", "q=10", "q=100",
        "fmt=png", "fmt=webp", "q=50&fmt=png", "q=50&fmt=webp", "w=10&h=10&q=10&fmt=png",
        "w=11&h=1&q=1", "w=1&h=11&q=1", "w=1&h=1&q=11",
    ];
    let mut keys = std::collections::HashSet::new();
    for q in queries {
        assert!(keys.insert(TransformOptions::from_query(q).cache_key("/photo.jpg")), "{}", q);
    }
    let o = TransformOptions::defaults();
    assert_ne!(o.cache_key("/a.jpg"), o.cache_key("/b.jpg"));
}

#[test]
fn keys_differ_over_a_large_sample() {
    let sizes = [None, Some(1), Some(10), Some(100), Some(101), Some(1000)];
    let formats = [OutputFormat::Jpeg, OutputFormat::Png, OutputFormat::WebP];
    let mut keys = std::collections::HashSet::new();
    let mut count = 0;
    for width in sizes {
        for height in sizes {
            for quality in [0u8, 1, 10, 50, 80, 100] {
                for format in formats {
                    let o = TransformOptions { width, height, quality, format };
                    assert!(keys.insert(o.cache_key("/photo.jpg")));
                    count += 1;
                }
            }
        }
    }
    assert_eq!(keys.len(), count);
}

#[test]
fn hex_rendering() {
    assert_eq!(to_hex(&[0x00, 0x0f, 0xa5, 0xff]), b"000fa5ff".to_vec());
    assert_eq!(to_hex(&[]), Vec::<u8>::new());
}

#[test]
fn status_texts() {
    assert_eq!(status_text(200), "OK");
    assert_eq!(status_text(201), "Created");
    assert_eq!(status_text(400), "Bad Request");
    assert_eq!(status_text(403), "Forbidden");
    assert_eq!(status_text(404), "Not Found");
    assert_eq!(status_text(500), "Internal Server Error");
    assert_eq!(status_text(418), "Internal Server Error");
}

#[test]
fn plain_and_typed_responses() {
    assert_eq!(build_response(404, Some("Not found")), b"HTTP/1.1 404 Not Found\r\nContent-Length: 9\r\n\r\nNot found".to_vec());
    assert_eq!(build_response(200, None), b"HTTP/1.1 200 OK\r\nContent-Length: 0\r\n\r\n".to_vec());
    assert_eq!(
        build_response_with_type(200, Some(b"hello"), "text/plain"),
        b"HTTP/1.1 200 OK\r\nContent-Type: text/plain\r\nContent-Length: 5\r\n\r\nhello".to_vec()
    );
    assert_eq!(
        build_encoded_response(200, b"xyz", "text/html"),
        b"HTTP/1.1 200 OK\r\nContent-Type: text/html\r\nContent-Length: 3\r\nContent-Encoding: gzip\r\nVary: Accept-Encoding\r\n\r\nxyz".to_vec()
    );
}

#[test]
fn compressed_response_round_trips() {
    let body = vec![b'a'; 2000];
    let r = build_compressed_response(200, &body, "text/html");
    let text = String::from_utf8_lossy(&r).to_string();
    assert!(text.starts_with("HTTP/1.1 200 OK\r\nContent-Type: text/html\r\n"));
    assert!(text.contains("Content-Encoding: gzip\r\n"));
    assert!(text.contains("Vary: Accept-Encoding\r\n"));
    let encoded = body_of(&r);
    assert!(text.contains(&format!("Content-Length: {}\r\n", encoded.len())));
    assert_ne!(encoded, &body[..]);
    assert_eq!(gunzip(encoded), body);
}

#[test]
fn direct_responses_are_gated() {
    let big = vec![b'x'; 2000];
    let small = vec![b'x'; 500];
    let compressed = respond_direct(&big, "text/html", true);
    assert_eq!(gunzip(body_of(&compressed)), big);
    assert_eq!(respond_direct(&big, "text/html", false), build_response_with_type(200, Some(&big), "text/html"));
    assert_eq!(respond_direct(&small, "text/html", true), build_response_with_type(200, Some(&small), "text/html"));
    assert_eq!(respond_direct(&big, "image/jpeg", true), build_response_with_type(200, Some(&big), "image/jpeg"));
}

#[test]
fn cache_freshness() {
    let cache = ImageCache::new(7);
    assert_eq!(cache.max_age_nanos, 7 * NANOS_PER_DAY);
    assert!(cache.is_fresh(100, 100));
    assert!(cache.is_fresh(100 + 7 * NANOS_PER_DAY, 100));
    assert!(!cache.is_fresh(101 + 7 * NANOS_PER_DAY, 100));
    assert!(!cache.is_fresh(99, 100));
    assert_eq!(ImageCache::new(u64::MAX).max_age_nanos, u64::MAX as u128 * NANOS_PER_DAY);
}

#[test]
fn store_then_get_returns_same_bytes() {
    let cache = ImageCache::new(1);
    let data = vec![1u8, 2, 3, 250];
    let got = cache.get_cached(Some(CacheEntry { data: data.clone(), modified_nanos: 5_000 }), 5_000);
    assert_eq!(got, Some(data));
}

#[test]
fn expired_entry_is_a_miss() {
    let cache = ImageCache::new(1);
    let entry = CacheEntry { data: vec![9u8; 10], modified_nanos: 0 };
    assert_eq!(cache.get_cached(Some(entry), NANOS_PER_DAY + 1), None);
    assert_eq!(cache.get_cached(None, 0), None);
}

#[test]
fn target_dimensions_by_aspect() {
    let w = TransformOptions::from_query("w=200");
    assert_eq!(target_dimensions(400, 300, &w), Ok(Some((200, 150))));
    assert_eq!(target_dimensions(300, 200, &w), Ok(Some((200, 133))));
    let h = TransformOptions::from_query("h=100");
    assert_eq!(target_dimensions(400, 300, &h), Ok(Some((133, 100))));
    let both = TransformOptions::from_query("w=50&h=60");
    assert_eq!(target_dimensions(400, 300, &both), Ok(Some((50, 60))));
    assert_eq!(target_dimensions(400, 300, &TransformOptions::defaults()), Ok(None));
    let one = TransformOptions::from_query("w=1");
    assert_eq!(target_dimensions(400, 1, &one), Err(TransformError::InvalidDimensions));
    let huge = TransformOptions::from_query("w=70000");
    assert_eq!(target_dimensions(400, 300, &huge), Err(TransformError::InvalidDimensions));
    assert_eq!(target_dimensions(0, 300, &w), Err(TransformError::InvalidDimensions));
}

#[test]
fn resize_by_width_keeps_aspect() {
    let src = source_png(300, 200);
    let out = optimize_image(&src, &TransformOptions::from_query("w=200&fmt=png")).unwrap();
    let img = image::load_from_memory(&out).unwrap();
    assert_eq!(img.width(), 200);
    let exact = 200.0 * 200.0 / 300.0_f64;
    assert!((img.height() as f64 - exact.round()).abs() <= 1.0);
}

#[test]
fn transform_errors() {
    assert_eq!(optimize_image(b"not an image", &TransformOptions::defaults()), Err(TransformError::DecodeFailed));
    let src = source_png(10, 10);
    assert_eq!(
        optimize_image(&src, &TransformOptions::from_query("w=70000&h=5")),
        Err(TransformError::InvalidDimensions)
    );
}

#[test]
fn transform_is_deterministic() {
    let src = source_png(64, 48);
    let o = TransformOptions::from_query("w=32&q=70");
    let a = optimize_image(&src, &o).unwrap();
    let b = optimize_image(&src, &o).unwrap();
    assert_eq!(a, b);
}

#[test]
fn transform_without_size_re_encodes() {
    let src = source_png(40, 30);
    let out = optimize_image(&src, &TransformOptions::from_query("q=60")).unwrap();
    assert_eq!(image::guess_format(&out).unwrap(), image::ImageFormat::Jpeg);
    let img = image::load_from_memory(&out).unwrap();
    assert_eq!((img.width(), img.height()), (40, 30));
}

#[test]
fn non_image_or_no_query_goes_direct() {
    assert!(matches!(plan_fetch("/index.html", Some("w=10")), FetchPlan::Direct { content_type: "text/html" }));
    assert!(matches!(plan_fetch("/photo.jpg", None), FetchPlan::Direct { content_type: "image/jpeg" }));
}

#[test]
fn end_to_end_fetch() {
    let src = source_png(400, 300);
    let plan = plan_fetch("/photo.jpg", Some("w=100&q=50&fmt=webp"));
    let (options, key, content_type) = match plan {
        FetchPlan::Transform { options, key, content_type } => (options, key, content_type),
        FetchPlan::Direct { .. } => panic!("expected the transform path"),
    };
    assert_eq!(options, TransformOptions { width: Some(100), height: None, quality: 50, format: OutputFormat::WebP });
    assert_eq!(key, options.cache_key("/photo.jpg"));
    assert_eq!(content_type, "image/webp");

    let cache = ImageCache::new(7);
    assert_eq!(cache.get_cached(None, 1_000), None);
    let first = serve_image(&src, &options, content_type, None);
    let stored = first.to_store.clone().unwrap();
    assert_eq!(image::guess_format(&stored).unwrap(), image::ImageFormat::WebP);
    let img = image::load_from_memory(&stored).unwrap();
    assert_eq!((img.width(), img.height()), (100, 75));
    assert_eq!(first.response, build_response_with_type(200, Some(&stored), "image/webp"));

    let hit = cache.get_cached(Some(CacheEntry { data: stored.clone(), modified_nanos: 1_000 }), 2_000);
    assert_eq!(hit, Some(stored.clone()));
    let second = serve_image(b"not even an image", &options, content_type, hit);
    assert!(second.to_store.is_none());
    assert_eq!(second.response, first.response);
}

#[test]
fn failed_transform_is_a_server_error() {
    let options = TransformOptions::from_query("w=10");
    let out = serve_image(b"garbage", &options, "image/jpeg", None);
    assert!(out.to_store.is_none());
    assert_eq!(out.response, build_response(500, Some("Image processing failed")));
}
