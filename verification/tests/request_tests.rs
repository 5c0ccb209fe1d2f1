use doorctl::error::HTTPError;
use doorctl::weblite::HttpRequest as LiteRequest;
use doorctl::header::RequestHeader;
use doorctl::request::{HttpMethod, HttpRequest, RequestBody};

#[test]
fn test_http_request_parsing_single_receive() {
    let req = "GET / HTTP/1.1\r\nContent-Length: 0\r\n\r\n".as_bytes();

    let req = HttpRequest::parse(req).unwrap();
    assert!(req.method == HttpMethod::GET);
    assert!(req.path == "/".as_bytes().to_vec());
    assert!(req.content_length == 0, "{:?}", req);

    let req = "GET /index.html HTTP/1.1\r\nContent-Length: 3\r\n\r\nabc".as_bytes();

    let req = HttpRequest::parse(req).unwrap();
    assert!(req.method == HttpMethod::GET);
    assert!(req.path == "/index.html".as_bytes().to_vec());
    assert!(req.content_length == 3, "{:?}", req);
    assert_eq!(req.body, Some("abc".as_bytes().to_vec()));

    let req = "GET /index.html HTTP/1.1\r\ncontent-type: application/json\r\ncontent-length: 3\r\naccept: application/json\r\nAccept-Encoding: gzip\r\n\r\nabc".as_bytes();

    let req = HttpRequest::parse(req).unwrap();
    assert!(req.method == HttpMethod::GET);
    assert!(req.path == "/index.html".as_bytes().to_vec());
    assert!(req.content_length == 3, "{:?}", req);
    assert_eq!(req.content_type, Some("application/json".as_bytes().to_vec()));
    assert_eq!(
        req.get_header(RequestHeader::ContentType(Vec::new())),
        Some(RequestHeader::ContentType("application/json".as_bytes().to_vec()))
    );
    assert_eq!(
        req.get_header(RequestHeader::AcceptEncoding(Vec::new())),
        Some(RequestHeader::AcceptEncoding("gzip".as_bytes().to_vec()))
    );
    assert_eq!(
        req.get_header(RequestHeader::Accept(Vec::new())),
        Some(RequestHeader::Accept("application/json".as_bytes().to_vec()))
    );
    assert_eq!(req.body, Some("abc".as_bytes().to_vec()));
}

#[test]
fn test_http_request_parsing_multiple_updates() {
    let mut http_buf = [0u8; 1024];
    let req_part_one = "GET / HTTP/1.1\r\nContentType:".as_bytes();
    let req_part_two = "application/json\r\n\r\n".as_bytes();

    http_buf[..req_part_one.len()].copy_from_slice(req_part_one);
    http_buf[req_part_one.len()..req_part_one.len() + req_part_two.len()]
        .copy_from_slice(req_part_two);

    let req = HttpRequest::parse(&http_buf[..]).unwrap();
    assert!(req.method == HttpMethod::GET);
    assert!(req.path == "/".as_bytes().to_vec());
}

#[test]
fn test_parse_request_with_host_and_user_agent() {
    let req =
        "GET /x HTTP/1.1\r\nHost: example.test\r\nUser-Agent: probe/1.0\r\n\r\n".as_bytes();
    let req = HttpRequest::parse(req).unwrap();
    assert_eq!(req.host, "example.test".as_bytes().to_vec());
    assert_eq!(req.user_agent, Some("probe/1.0".as_bytes().to_vec()));
}

#[test]
fn test_parse_incomplete_when_headers_unterminated() {
    let r = HttpRequest::parse("GET / HTTP/1.1\r\nHost: a\r\n".as_bytes());
    assert!(matches!(r, Err(HTTPError::Incomplete)));
}

#[test]
fn test_parse_incomplete_when_too_short() {
    let r = HttpRequest::parse("GET /".as_bytes());
    assert!(matches!(r, Err(HTTPError::Incomplete)));
}

#[test]
fn test_parse_incomplete_when_body_missing() {
    let r = HttpRequest::parse("GET / HTTP/1.1\r\nContent-Length: 5\r\n\r\nab".as_bytes());
    assert!(matches!(r, Err(HTTPError::Incomplete)));
}

#[test]
fn test_parse_rejects_unknown_method() {
    let r = HttpRequest::parse("BREW / HTTP/1.1\r\nHost: a\r\n\r\n".as_bytes());
    assert!(matches!(r, Err(HTTPError::ProtocolError("unknown http method"))));
}

#[test]
fn test_parse_rejects_bad_content_length() {
    let r = HttpRequest::parse("GET / HTTP/1.1\r\nContent-Length: abc\r\n\r\n".as_bytes());
    assert!(matches!(r, Err(HTTPError::ProtocolError("invalid content-length"))));
}

#[test]
fn test_parse_rejects_invalid_utf8() {
    let mut buf = "GET / HTTP/1.1\r\nHost: a\r\n\r\n".as_bytes().to_vec();
    buf.push(0xff);
    let r = HttpRequest::parse(&buf);
    assert!(matches!(r, Err(HTTPError::ProtocolError("http request is not valid utf8"))));
}

#[test]
fn test_parse_rejects_missing_path() {
    let r = HttpRequest::parse("GET\r\nHost: somewhere\r\n\r\n".as_bytes());
    assert!(matches!(r, Err(HTTPError::ProtocolError("malformed HTTP request"))));
}

#[test]
fn test_incremental_chunks_agree_with_one_shot() {
    // Feed the request a few bytes at a time, re-parsing the accumulated
    // buffer from scratch after each chunk, exactly as the session loop does.
    let full = "GET /index.html HTTP/1.1\r\nContent-Length: 3\r\n\r\nabc".as_bytes();
    let mut buf: Vec<u8> = Vec::new();
    let mut early: Option<(usize, Vec<u8>)> = None;
    for chunk in full.chunks(7) {
        buf.extend_from_slice(chunk);
        match HttpRequest::parse(&buf) {
            Err(HTTPError::Incomplete) => continue,
            Ok(q) => {
                early = Some((buf.len(), q.path.clone()));
                break;
            }
            Err(e) => panic!("unexpected error mid-feed: {:?}", e),
        }
    }
    let (at, early_path) = early.expect("the request should eventually parse");
    // The parse that succeeded on a prefix agrees with the one-shot parse of
    // the fully concatenated buffer.
    let one_shot = HttpRequest::parse(full).unwrap();
    assert_eq!(at, full.len());
    assert_eq!(early_path, one_shot.path);
    assert_eq!(one_shot.body, Some("abc".as_bytes().to_vec()));
}

#[test]
fn test_prefix_stability_after_success() {
    // Once a buffer parses, appending more bytes and re-parsing from scratch
    // yields the same request.
    let p = "GET / HTTP/1.1\r\nHost: a\r\n\r\n".as_bytes();
    let mut f = p.to_vec();
    f.extend_from_slice("GET /next HTTP/1.1\r\n\r\n".as_bytes());
    let a = HttpRequest::parse(p).unwrap();
    let b = HttpRequest::parse(&f).unwrap();
    assert_eq!(a.path, b.path);
    assert_eq!(a.host, b.host);
    assert_eq!(a.content_length, b.content_length);
}

#[test]
fn test_get_body_reports_completion() {
    let req = HttpRequest::parse("GET / HTTP/1.1\r\nContent-Length: 3\r\n\r\nxyz".as_bytes())
        .unwrap();
    match req.get_body() {
        RequestBody::Complete(b) => assert_eq!(b, "xyz".as_bytes().to_vec()),
        _ => panic!("expected a complete body"),
    }
    let req = HttpRequest::parse("GET / HTTP/1.1\r\nHost: a\r\n\r\n".as_bytes()).unwrap();
    assert!(matches!(req.get_body(), RequestBody::Absent));
}

#[test]
fn test_contains_complete_http_header() {
    assert_eq!(
        HttpRequest::contains_complete_http_header("GET / HTTP/1.1\r\n\r\nrest".as_bytes()),
        Some(18)
    );
    assert_eq!(
        HttpRequest::contains_complete_http_header("GET / HTTP/1.1\r\n".as_bytes()),
        None
    );
}

#[test]
fn request_test_http_request_parsing_single_receive() {
    let req = "GET / HTTP/1.1\r\nContent-Length: 1234\r\n\r\n".as_bytes();

    let req = LiteRequest::try_parse(req).unwrap();
    assert!(req.method == HttpMethod::GET);
    assert!(req.path == "/".as_bytes().to_vec());
    assert!(req.content_len() == 1234, "{:?}", req);

    let req = "GET /index.html HTTP/1.1\r\nContent-Length: 1234\r\n\r\n".as_bytes();

    let req = LiteRequest::try_parse(req).unwrap();
    assert!(req.method == HttpMethod::GET);
    assert!(req.path == "/index.html".as_bytes().to_vec());
    assert!(req.content_len() == 1234, "{:?}", req);

    let req = "GET /index.html HTTP/1.1\r\ncontent-length: 1234\r\n\r\n".as_bytes();

    let req = LiteRequest::try_parse(req).unwrap();
    assert!(req.method == HttpMethod::GET);
    assert!(req.path == "/index.html".as_bytes().to_vec());
    assert!(req.content_len() == 1234, "{:?}", req);

    let req = "GET /index.html HTTP/1.1\r\ncontent-type: application/json\r\ncontent-length: 1234\r\naccept-type: application/json\r\n\r\n".as_bytes();

    let req = LiteRequest::try_parse(req).unwrap();
    assert!(req.method == HttpMethod::GET);
    assert!(req.path == "/index.html".as_bytes().to_vec());
    assert!(req.content_len() == 1234, "{:?}", req);
}

#[test]
fn request_test_http_request_parsing_multiple_updates() {
    let mut http_buf = [0u8; 1024];
    let req_part_one = "GET / HTTP/1.1\r\nContentType:".as_bytes();
    let req_part_two = "application/json\r\n\r\n".as_bytes();

    http_buf[..req_part_one.len()].copy_from_slice(req_part_one);
    http_buf[req_part_one.len()..req_part_one.len() + req_part_two.len()]
        .copy_from_slice(req_part_two);

    let req = LiteRequest::try_parse(&http_buf[..]).unwrap();
    assert!(req.method == HttpMethod::GET);
    assert!(req.path == "/".as_bytes().to_vec());
}
