use media_cache::request::{accepts_gzip, parse_request_head, route, RequestHead, Route};

#[test]
fn request_line_and_query() {
    let req = b"GET /photo.jpg?w=100&q=50&fmt=webp HTTP/1.1\r\nHost: x\r\n\r\n";
    let head = parse_request_head(req).unwrap();
    assert_eq!(head.method, b"GET".to_vec());
    assert_eq!(head.path, b"/photo.jpg".to_vec());
    assert_eq!(head.query, Some(b"w=100&q=50&fmt=webp".to_vec()));
    assert!(!head.accepts_gzip);
}

#[test]
fn query_stops_at_second_question_mark() {
    let head = parse_request_head(b"GET /a.png?w=1?h=2 HTTP/1.1\r\n").unwrap();
    assert_eq!(head.path, b"/a.png".to_vec());
    assert_eq!(head.query, Some(b"w=1".to_vec()));
    let head = parse_request_head(b"GET /a.png? HTTP/1.1").unwrap();
    assert_eq!(head.query, Some(Vec::new()));
    let head = parse_request_head(b"  GET\t/x   HTTP/1.0 extra").unwrap();
    assert_eq!(head.path, b"/x".to_vec());
    assert_eq!(head.query, None);
}

#[test]
fn short_request_line_is_rejected() {
    assert!(parse_request_head(b"").is_none());
    assert!(parse_request_head(b"GET /x\r\nHost: y HTTP/1.1\r\n").is_none());
    assert!(parse_request_head(b"GET /x   \r\n").is_none());
}

#[test]
fn gzip_announcement_detected() {
    assert!(accepts_gzip(b"GET / HTTP/1.1\r\nAccept-Encoding: deflate, GZIP\r\n\r\n"));
    assert!(accepts_gzip(b"GET / HTTP/1.1\naccept-encoding:gzip"));
    assert!(!accepts_gzip(b"GET / HTTP/1.1\r\nAccept-Encoding: br\r\nX: gzip\r\n"));
    assert!(!accepts_gzip(b"GET / HTTP/1.1\r\nX-Accept-Encoding: gzip\r\n"));
    assert!(!accepts_gzip(b""));
    let head = parse_request_head(b"GET /a.html HTTP/1.1\r\nAccept-Encoding: gzip\r\n\r\n").unwrap();
    assert!(head.accepts_gzip);
}

#[test]
fn routing() {
    let head = |m: &[u8], p: &[u8], q: Option<&[u8]>| RequestHead {
        method: m.to_vec(),
        path: p.to_vec(),
        query: q.map(|q| q.to_vec()),
        accepts_gzip: false,
    };
    match route(head(b"GET", b"/", Some(b"w=1"))) {
        Route::Serve { path, query } => {
            assert_eq!(path, b"/index.html".to_vec());
            assert_eq!(query, None);
        }
        Route::NotFound => panic!("expected a file"),
    }
    match route(head(b"GET", b"/a.jpg", Some(b"w=1"))) {
        Route::Serve { path, query } => {
            assert_eq!(path, b"/a.jpg".to_vec());
            assert_eq!(query, Some(b"w=1".to_vec()));
        }
        Route::NotFound => panic!("expected a file"),
    }
    assert!(matches!(route(head(b"POST", b"/a.jpg", None)), Route::NotFound));
}
