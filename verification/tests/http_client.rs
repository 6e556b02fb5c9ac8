use wget::web::http::http_client::HttpTarget;
use wget::web::http::response::{contains_blank_line, content_length, HeadResponse, ResponseHeadScanner};
use wget::web::http_client::plain_get_request;

#[test]
fn test_get_file_length() {
    let response = "HTTP/1.1 200 OK\r\nContent-Type: image/png\r\nContent-Length: 12345\r\n\r\n";
    let mut head = HeadResponse::new();
    let done = head.push_bytes(response.as_bytes());
    assert!(done);
    let len = head.content_length();
    assert_eq!(len, Some(12345));
}

#[test]
fn parse_full_url() {
    let t = HttpTarget::parse("http://example.com:8080/dir/file.txt");
    assert_eq!(t.host, "example.com");
    assert_eq!(t.port, 8080);
    assert_eq!(t.path, "/dir/file.txt");
}

#[test]
fn parse_url_defaults() {
    let t = HttpTarget::parse("http://example.com");
    assert_eq!(t.host, "example.com");
    assert_eq!(t.port, 80);
    assert_eq!(t.path, "/");

    let t = HttpTarget::parse("example.com/a");
    assert_eq!((t.host.as_str(), t.port, t.path.as_str()), ("example.com", 80, "/a"));
}

#[test]
fn parse_url_bad_port_falls_back_to_80() {
    let t = HttpTarget::parse("http://h:99999/x");
    assert_eq!((t.host.as_str(), t.port, t.path.as_str()), ("h", 80, "/x"));
    let t = HttpTarget::parse("http://h:abc/x");
    assert_eq!(t.port, 80);
    let t = HttpTarget::parse("http://h:/x");
    assert_eq!(t.port, 80);
    let t = HttpTarget::parse("http://h:+81/x");
    assert_eq!(t.port, 81);
    let t = HttpTarget::parse("http://h:65535");
    assert_eq!((t.port, t.path.as_str()), (65535, "/"));
}

#[test]
fn parse_url_strips_repeated_prefix() {
    let t = HttpTarget::parse("http://http://127.0.0.1:3000");
    assert_eq!((t.host.as_str(), t.port, t.path.as_str()), ("127.0.0.1", 3000, "/"));
}

#[test]
fn parse_url_port_only_before_first_slash() {
    let t = HttpTarget::parse("http://host/a:5/b");
    assert_eq!((t.host.as_str(), t.port, t.path.as_str()), ("host", 80, "/a:5/b"));
}

#[test]
fn authority_and_requests() {
    let t = HttpTarget::parse("http://127.0.0.1:8000/index.html");
    assert_eq!(t.authority(), "127.0.0.1:8000");
    assert_eq!(t.host_header(), "Host: 127.0.0.1");
    assert_eq!(t.head_request(), "HEAD /index.html HTTP/1.1\r\nHost: 127.0.0.1\r\n\r\n");
    assert_eq!(t.get_request(), "GET /index.html HTTP/1.1\r\nHost: 127.0.0.1\r\n\r\n");
    assert_eq!(plain_get_request(&t), "GET /index.html HTTP/1.1\r\nHost:127.0.0.1\r\n");
}

#[test]
fn content_length_variants() {
    assert_eq!(content_length("content-length: 7\r\n"), Some(7));
    assert_eq!(content_length("CONTENT-LENGTH:\t42 \r\n\r\n"), Some(42));
    assert_eq!(content_length("Content-Length: 5"), Some(5));
    assert_eq!(content_length("Content-Length: +9\n"), Some(9));
    assert_eq!(content_length("Content-Length: x\r\nContent-Length: 3\r\n"), Some(3));
    assert_eq!(content_length("Content-Length: 1:2\r\n"), Some(1));
    assert_eq!(content_length("Content-Type: text/html\r\n\r\n"), None);
    assert_eq!(content_length(""), None);
    assert_eq!(content_length("X-Content-Length: 4\r\n"), None);
    assert_eq!(content_length("Content-Length: -1\r\n"), None);
    assert_eq!(content_length("Content-Length: 99999999999999999999999\r\n"), None);
}

#[test]
fn blank_line_detection() {
    assert!(contains_blank_line("a\r\n\r\nb"));
    assert!(!contains_blank_line("a\r\n\nb"));
    assert!(!contains_blank_line(""));
}

#[test]
fn head_collected_over_chunks() {
    let mut head = HeadResponse::new();
    assert!(!head.push_bytes(b"HTTP/1.1 200 OK\r\nContent-Le"));
    assert!(!head.push_bytes(b"ngth: 10\r\n"));
    assert!(head.push_text("\r\n\r\n"));
    assert_eq!(head.as_str(), "HTTP/1.1 200 OK\r\nContent-Length: 10\r\n\r\n\r\n");
    assert_eq!(head.content_length(), Some(10));
}

#[test]
fn lossy_decoding_replaces_invalid_bytes() {
    let mut head = HeadResponse::new();
    head.push_bytes(&[0x41, 0xff, 0x42]);
    assert_eq!(head.as_str(), "A\u{fffd}B");
}

#[test]
fn scanner_splits_body_after_first_blank_line() {
    let mut s = ResponseHeadScanner::new();
    assert_eq!(s.header_end(), None);
    s.push(b"HTTP/1.1 200 OK\r\nContent-Length: 4\r");
    assert_eq!(s.header_end(), None);
    s.push(b"\n\r\nbo");
    assert_eq!(s.header_end(), Some(38));
    s.push(b"dy\r\n\r\n");
    assert_eq!(s.header_end(), Some(38));
    assert_eq!(s.into_body(), b"body\r\n\r\n".to_vec());
}

#[test]
fn scanner_without_blank_line_has_no_body() {
    let mut s = ResponseHeadScanner::new();
    s.push(b"HTTP/1.1 200 OK\r\n");
    assert_eq!(s.header_end(), None);
    assert_eq!(s.into_body(), Vec::<u8>::new());
}
