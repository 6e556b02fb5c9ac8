use wget::web::http::http_requests::{HttpHeaderField, HttpMethod, HttpProtocolVersion, HttpRequest, HttpRequestNew};

#[test]
fn test_http_protocol_version_display() {
    assert_eq!(HttpProtocolVersion::Http09.to_string(), "HTTP/0.9");
    assert_eq!(HttpProtocolVersion::Http10.to_string(), "HTTP/1.0");
    assert_eq!(HttpProtocolVersion::Http11.to_string(), "HTTP/1.1");
    assert_eq!(HttpProtocolVersion::Http20.to_string(), "HTTP/2.0");
    assert_eq!(HttpProtocolVersion::Http30.to_string(), "HTTP/3.0");
}

#[test]
fn test_new_http_request_get() {
    let headers = vec![
        HttpHeaderField {
            field_name: "Host".to_string(),
            field_value: "example.com".to_string(),
        },
        HttpHeaderField {
            field_name: "User-Agent".to_string(),
            field_value: "wget/1.0".to_string(),
        },
    ];

    let req = HttpRequestNew::get("/index.html", headers);
    let expected = "GET /index.html HTTP/1.1\r\nHost: example.com\r\nUser-Agent: wget/1.0\r\n\r\n";
    assert_eq!(req.to_string(), expected);
}

#[test]
fn test_new_http_request_post() {
    let headers = vec![
        HttpHeaderField {
            field_name: "Host".to_string(),
            field_value: "example.com".to_string(),
        },
        HttpHeaderField {
            field_name: "Content-Type".to_string(),
            field_value: "application/json".to_string(),
        },
        HttpHeaderField {
            field_name: "Content-Length".to_string(),
            field_value: "123".to_string(),
        },
    ];

    let req = HttpRequestNew::post("/api/submit", headers);
    let expected = "POST /api/submit HTTP/1.1\r\nHost: example.com\r\nContent-Type: application/json\r\nContent-Length: 123\r\n\r\n";
    assert_eq!(req.to_string(), expected);
}

#[test]
fn test_new_http_request_head() {
    let headers = vec![HttpHeaderField {
        field_name: "Host".to_string(),
        field_value: "test.com".to_string(),
    }];

    let req = HttpRequestNew::head("/", headers);
    let expected = "HEAD / HTTP/1.1\r\nHost: test.com\r\n\r\n";
    assert_eq!(req.to_string(), expected);
}

#[test]
fn test_add_header_functionality() {
    let mut req = HttpRequestNew::get("/test", vec![]);

    req.add_header("Host".to_string(), "example.com".to_string());
    req.add_header("Accept".to_string(), "text/html".to_string());

    let expected = "GET /test HTTP/1.1\r\nHost: example.com\r\nAccept: text/html\r\n\r\n";
    assert_eq!(req.to_string(), expected);
}

#[test]
fn test_custom_http_request() {
    let headers = vec![HttpHeaderField {
        field_name: "Authorization".to_string(),
        field_value: "Bearer token123".to_string(),
    }];

    let req = HttpRequestNew::new(HttpMethod::PUT, "/api/users/1", HttpProtocolVersion::Http20, headers);

    let expected = "PUT /api/users/1 HTTP/2.0\r\nAuthorization: Bearer token123\r\n\r\n";
    assert_eq!(req.to_string(), expected);
}

#[test]
fn test_empty_headers() {
    let req = HttpRequestNew::get("/empty", vec![]);
    let expected = "GET /empty HTTP/1.1\r\n\r\n";
    assert_eq!(req.to_string(), expected);
}

#[test]
fn method_tokens() {
    assert_eq!(HttpMethod::GET.to_string(), "GET");
    assert_eq!(HttpMethod::POST.to_string(), "POST");
    assert_eq!(HttpMethod::HEAD.to_string(), "HEAD");
    assert_eq!(HttpMethod::PUT.to_string(), "PUT");
    assert_eq!(HttpMethod::DELETE.to_string(), "DELETE");
    assert_eq!(HttpMethod::CONNECT.to_string(), "CONNECT");
    assert_eq!(HttpMethod::OPTIONS.to_string(), "OPTIONS");
    assert_eq!(HttpMethod::TRACE.to_string(), "TRACE");
    assert_eq!(HttpMethod::PATCH.to_string(), "PATCH");
}

#[test]
fn header_field_text() {
    let f = HttpHeaderField::new("Accept".to_string(), "*/*".to_string());
    assert_eq!(f.field_name, "Accept");
    assert_eq!(f.field_value, "*/*");
    assert_eq!(f.to_string(), "Accept: */*");
}

#[test]
fn request_text_ends_with_blank_line_for_every_method() {
    let methods = vec![HttpMethod::GET, HttpMethod::DELETE, HttpMethod::OPTIONS, HttpMethod::TRACE, HttpMethod::PATCH, HttpMethod::CONNECT];
    for m in methods {
        let req = HttpRequestNew::new(m, "/x", HttpProtocolVersion::Http10, vec![HttpHeaderField::new("A".to_string(), "b".to_string())]);
        assert!(req.to_string().ends_with("\r\n\r\n"));
    }
}

#[test]
fn add_header_inserts_line_before_blank_line() {
    let mut req = HttpRequestNew::post("/p", vec![HttpHeaderField::new("Host".to_string(), "h".to_string())]);
    let before = req.to_string();
    req.add_header("X".to_string(), "1".to_string());
    let after = req.to_string();
    assert_eq!(after, format!("{}X: 1\r\n\r\n", &before[..before.len() - 2]));
}

#[test]
fn rendered_requests() {
    let head = HttpRequest::HEAD { path: "/f", protocol_version: HttpProtocolVersion::Http11, request_head: "Host: a.b" };
    assert_eq!(head.to_string(), "HEAD /f HTTP/1.1\r\nHost: a.b\r\n\r\n");
    let get = HttpRequest::GET { path: "/", protocol_version: HttpProtocolVersion::Http10, request_head: "Host: x" };
    assert_eq!(get.to_string(), "GET / HTTP/1.0\r\nHost: x\r\n\r\n");
    let post = HttpRequest::POST { path: "/s", protocol_version: HttpProtocolVersion::Http20, request_head: "" };
    assert_eq!(post.to_string(), "POST /s HTTP/2.0\r\n\r\n\r\n");
}
