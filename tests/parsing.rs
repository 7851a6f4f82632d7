use media_cache::content::{get_content_type, is_compressible, is_image_content_type, should_compress};
use media_cache::options::{OutputFormat, TransformOptions};
use media_cache::options::{parse_capped, parse_u32, NUMBER_CAP};

fn opts(width: Option<u32>, height: Option<u32>, quality: u8, format: OutputFormat) -> TransformOptions {
    TransformOptions { width, height, quality, format }
}

#[test]
fn empty_query_gives_defaults() {
    assert_eq!(TransformOptions::from_query(""), opts(None, None, 80, OutputFormat::Jpeg));
    assert_eq!(TransformOptions::defaults(), opts(None, None, 80, OutputFormat::Jpeg));
}

#[test]
fn scenario_query_parses() {
    let o = TransformOptions::from_query("w=100&q=50&fmt=webp");
    assert_eq!(o, opts(Some(100), None, 50, OutputFormat::WebP));
}

#[test]
fn long_key_names_are_recognised() {
    let o = TransformOptions::from_query("width=640&height=480&quality=70&fmt=png");
    assert_eq!(o, opts(Some(640), Some(480), 70, OutputFormat::Png));
}

#[test]
fn quality_is_clamped_to_100() {
    assert_eq!(TransformOptions::from_query("q=150").quality, 100);
    assert_eq!(TransformOptions::from_query("q=255").quality, 100);
    assert_eq!(TransformOptions::from_query("q=0").quality, 0);
}

#[test]
fn large_quality_is_clamped() {
    let o = TransformOptions::from_query("quality=300");
    assert_eq!(o, opts(None, None, 100, OutputFormat::Jpeg));
    assert_eq!(TransformOptions::from_query("q=40&q=300").quality, 100);
    assert_eq!(TransformOptions::from_query("q=99999999999999999999").quality, 100);
    assert_eq!(TransformOptions::from_query("q=40&q=abc").quality, 40);
    assert_eq!(TransformOptions::from_query("q=abc").quality, 80);
}

#[test]
fn capped_number_parse() {
    assert_eq!(parse_capped(b"300"), Some(300));
    assert_eq!(parse_capped(b"4294967296"), Some(NUMBER_CAP));
    assert_eq!(parse_capped(b"99999999999999999999"), Some(NUMBER_CAP));
    assert_eq!(parse_capped(b"12x"), None);
    assert_eq!(parse_capped(b""), None);
}

#[test]
fn later_key_overwrites_earlier() {
    let o = TransformOptions::from_query("w=10&w=20&fmt=png&fmt=jpeg");
    assert_eq!(o, opts(Some(20), None, 80, OutputFormat::Jpeg));
}

#[test]
fn bad_dimension_leaves_width_unset() {
    assert_eq!(TransformOptions::from_query("w=abc").width, None);
    assert_eq!(TransformOptions::from_query("w=100&w=x").width, None);
    assert_eq!(TransformOptions::from_query("w=0").width, None);
    assert_eq!(TransformOptions::from_query("w=-5").width, None);
    assert_eq!(TransformOptions::from_query("w=4294967296").width, None);
    assert_eq!(TransformOptions::from_query("w=4294967295").width, Some(4294967295));
    assert_eq!(TransformOptions::from_query("h=+7").height, Some(7));
}

#[test]
fn malformed_and_unknown_pairs_are_skipped() {
    let o = TransformOptions::from_query("w&&foo=bar&=3&h=30&fmt=gif");
    assert_eq!(o, opts(None, Some(30), 80, OutputFormat::Jpeg));
}

#[test]
fn value_stops_at_second_equals() {
    assert_eq!(TransformOptions::from_query("w=12=34").width, Some(12));
}

#[test]
fn parse_u32_follows_std() {
    assert_eq!(parse_u32(b"0"), Some(0));
    assert_eq!(parse_u32(b"007"), Some(7));
    assert_eq!(parse_u32(b"+12"), Some(12));
    assert_eq!(parse_u32(b"+"), None);
    assert_eq!(parse_u32(b""), None);
    assert_eq!(parse_u32(b"1a"), None);
    assert_eq!(parse_u32(b"4294967295"), Some(u32::MAX));
    assert_eq!(parse_u32(b"4294967296"), None);
    assert_eq!(parse_u32(b"99999999999999999999x"), None);
}

#[test]
fn content_types_by_extension() {
    assert_eq!(get_content_type("/index.html"), "text/html");
    assert_eq!(get_content_type("/a/style.css"), "text/css");
    assert_eq!(get_content_type("app.js"), "application/javascript");
    assert_eq!(get_content_type("/img/x.png"), "image/png");
    assert_eq!(get_content_type("/photo.jpg"), "image/jpeg");
    assert_eq!(get_content_type("/photo.jpeg"), "image/jpeg");
    assert_eq!(get_content_type("/anim.gif"), "image/gif");
    assert_eq!(get_content_type("/archive.tar.gz"), "application/octet-stream");
    assert_eq!(get_content_type("/README"), "application/octet-stream");
    assert_eq!(get_content_type("/.html"), "application/octet-stream");
    assert_eq!(get_content_type("/dir.html/file"), "application/octet-stream");
    assert_eq!(get_content_type("/page.html/"), "text/html");
    assert_eq!(get_content_type("/a/b.css//"), "text/css");
    assert_eq!(get_content_type("/"), "application/octet-stream");
}

#[test]
fn compressible_and_image_types() {
    for t in ["text/html", "text/css", "application/javascript", "text/javascript", "text/plain", "application/json", "application/xml"] {
        assert!(is_compressible(t));
        assert!(!is_image_content_type(t));
    }
    for t in ["image/jpeg", "image/png", "image/webp", "image/gif"] {
        assert!(is_image_content_type(t));
        assert!(!is_compressible(t));
    }
    assert!(!is_compressible("application/octet-stream"));
    assert!(!is_image_content_type("application/octet-stream"));
}

#[test]
fn compression_gating() {
    assert!(should_compress(true, "text/html", 2000));
    assert!(!should_compress(false, "text/html", 2000));
    assert!(!should_compress(true, "text/html", 500));
    assert!(!should_compress(true, "text/html", 1024));
    assert!(should_compress(true, "text/html", 1025));
    assert!(!should_compress(true, "image/jpeg", 2000));
    assert!(!should_compress(false, "image/jpeg", 2000));
}
