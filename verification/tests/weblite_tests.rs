use doorctl::error::HTTPError;
use doorctl::request::HttpMethod;
use doorctl::weblite::HttpRequest;

#[test]
fn test_http_requrest_parsing_single_receive() {
    let req = "GET / HTTP/1.1\r\nContent-Length: 1234\r\n\r\n".as_bytes();

    let req = HttpRequest::try_parse(req).unwrap();
    assert!(req.method == HttpMethod::GET);
    assert!(req.path == "/".as_bytes().to_vec());
    assert!(req.content_len() == 1234, "{:?}", req);

    let req = "GET /index.html HTTP/1.1\r\nContent-Length: 1234\r\n\r\n".as_bytes();

    let req = HttpRequest::try_parse(req).unwrap();
    assert!(req.method == HttpMethod::GET);
    assert!(req.path == "/index.html".as_bytes().to_vec());
    assert!(req.content_len() == 1234, "{:?}", req);

    let req = "GET /index.html HTTP/1.1\r\ncontent-length: 1234\r\n\r\n".as_bytes();

    let req = HttpRequest::try_parse(req).unwrap();
    assert!(req.method == HttpMethod::GET);
    assert!(req.path == "/index.html".as_bytes().to_vec());
    assert!(req.content_len() == 1234, "{:?}", req);

    let req = "GET /index.html HTTP/1.1\r\ncontent-type: application/json\r\ncontent-length: 1234\r\naccept-type: application/json\r\n\r\n".as_bytes();

    let req = HttpRequest::try_parse(req).unwrap();
    assert!(req.method == HttpMethod::GET);
    assert!(req.path == "/index.html".as_bytes().to_vec());
    assert!(req.content_len() == 1234, "{:?}", req);
}

#[test]
fn test_http_requrest_parsing_multiple_updates() {
    let mut http_buf = [0u8; 1024];
    let req_part_one = "GET / HTTP/1.1\r\nContentType:".as_bytes();
    let req_part_two = "application/json\r\n\r\n".as_bytes();

    http_buf[..req_part_one.len()].copy_from_slice(req_part_one);
    http_buf[req_part_one.len()..req_part_one.len() + req_part_two.len()]
        .copy_from_slice(req_part_two);

    let req = HttpRequest::try_parse(&http_buf[..]).unwrap();
    assert!(req.method == HttpMethod::GET);
    assert!(req.path == "/".as_bytes().to_vec());
}

#[test]
fn test_weblite_get_header_by_name() {
    let req = "GET /ws HTTP/1.1\r\nUpgrade: websocket\r\nSec-WebSocket-Key: c2FtcGxl\r\n\r\n"
        .as_bytes();
    let req = HttpRequest::try_parse(req).unwrap();
    assert_eq!(
        req.get_header("Upgrade").map(|v| v.clone()),
        Some("websocket".as_bytes().to_vec())
    );
    assert_eq!(
        req.get_header("Sec-WebSocket-Key").map(|v| v.clone()),
        Some("c2FtcGxl".as_bytes().to_vec())
    );
    assert_eq!(req.get_header("Host"), None);
}

#[test]
fn test_weblite_retains_three_headers() {
    // The fourth recognized header finds every slot taken and is dropped.
    let req = "GET / HTTP/1.1\r\nUpgrade: a\r\nUpgrade: b\r\nUpgrade: c\r\nContent-Length: 7\r\n\r\n"
        .as_bytes();
    let req = HttpRequest::try_parse(req).unwrap();
    assert_eq!(req.headers.len(), 3);
    assert_eq!(req.content_len(), 0);
}

#[test]
fn test_weblite_contains_request_headers() {
    assert_eq!(
        HttpRequest::contains_request_headers("GET / HTTP/1.1\r\n\r\n".as_bytes()),
        Some(18)
    );
    assert_eq!(
        HttpRequest::contains_request_headers("GET / HTTP/1.1\r\n".as_bytes()),
        None
    );
}

#[test]
fn test_weblite_parse_errors() {
    // no complete header block yet
    assert!(matches!(
        HttpRequest::try_parse("GET / HTTP/1.1\r\nHost: a\r\n".as_bytes()),
        Err(HTTPError::Incomplete)
    ));
    // below the minimum plausible length
    assert!(matches!(
        HttpRequest::try_parse("GET /".as_bytes()),
        Err(HTTPError::Incomplete)
    ));
    // an unknown method token
    assert!(matches!(
        HttpRequest::try_parse("BREW / HTTP/1.1\r\n\r\n".as_bytes()),
        Err(HTTPError::ProtocolError("unknown http method"))
    ));
    // a Content-Length that is not a number
    assert!(matches!(
        HttpRequest::try_parse("GET / HTTP/1.1\r\nContent-Length: ten\r\n\r\n".as_bytes()),
        Err(HTTPError::ProtocolError("invalid content-length"))
    ));
}
