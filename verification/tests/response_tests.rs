use doorctl::header::ResponseHeader;
use doorctl::request::{HttpMethod, HttpRequest};
use doorctl::response::{HttpResponder, HttpResponderStateInit, HttpStatusCode, UpgradeOutcome};

fn request_with_host(host: &str) -> HttpRequest {
    HttpRequest {
        method: HttpMethod::GET,
        path: "/".as_bytes().to_vec(),
        host: host.as_bytes().to_vec(),
        content_type: None,
        user_agent: None,
        content_length: 0,
        body: None,
        header_slice: None,
    }
}

fn new_responder(req: &HttpRequest) -> HttpResponder<HttpResponderStateInit> {
    HttpResponder::new(req)
}

#[test]
fn response_test_http_response_default() {
    let request = request_with_host("RustServer");
    let resp = new_responder(&request);

    let expected = "HTTP/1.1 200 OK\r\nServer: RustServer\r\nContent-Type: text/html\r\n\r\n"
        .as_bytes();

    let got = resp
        .with_status(HttpStatusCode::OK)
        .unwrap()
        .with_header(ResponseHeader::ContentType("text/html".as_bytes().to_vec()))
        .unwrap()
        .no_body();

    assert_eq!(got, expected.to_vec(), "oops, got:\n{}", String::from_utf8_lossy(&got));
}

#[test]
fn response_test_http_response_default_with_body() {
    let request = request_with_host("RustServer");
    let resp = new_responder(&request);

    let body = "<html>\n    <head>\n        <title>Testing</title>\n    </head>\n    <body>\n        <p>works!</p>\n    </body>\n</html>\n".as_bytes();

    let got = resp
        .with_status(HttpStatusCode::OK)
        .unwrap()
        .with_header(ResponseHeader::ContentType("text/html".as_bytes().to_vec()))
        .unwrap()
        .with_body(body);

    let mut expected = "HTTP/1.1 200 OK\r\nServer: RustServer\r\nContent-Type: text/html\r\nContent-Length: 114\r\n\r\n".as_bytes().to_vec();
    expected.extend_from_slice(body);

    assert_eq!(got, expected, "oops, got:\n{}", String::from_utf8_lossy(&got));
}

#[test]
fn response_test_http_response_with_status() {
    let request = request_with_host("RustServer");
    let resp = new_responder(&request);

    let got = resp
        .with_status(HttpStatusCode::NotFound)
        .unwrap()
        .with_header(ResponseHeader::ContentType("text/html".as_bytes().to_vec()))
        .unwrap()
        .no_body();

    let expected =
        "HTTP/1.1 404 Not Found\r\nServer: RustServer\r\nContent-Type: text/html\r\n\r\n"
            .as_bytes();
    assert_eq!(got, expected.to_vec(), "oops, got:\n{}", String::from_utf8_lossy(&got));
}

#[test]
fn response_test_http_response_with_custom_status() {
    let request = request_with_host("RustServer");
    let resp = new_responder(&request);

    let got = resp
        .with_status(HttpStatusCode::Other(401))
        .unwrap()
        .with_header(ResponseHeader::ContentType("text/html".as_bytes().to_vec()))
        .unwrap()
        .no_body();

    let expected =
        "HTTP/1.1 401\r\nServer: RustServer\r\nContent-Type: text/html\r\n\r\n".as_bytes();
    assert_eq!(got, expected.to_vec(), "oops, got:\n{}", String::from_utf8_lossy(&got));
}

#[test]
fn response_test_http_response_with_custom_content_type() {
    let request = request_with_host("RustServer");
    let resp = new_responder(&request);

    let got = resp
        .with_status(HttpStatusCode::OK)
        .unwrap()
        .with_header(ResponseHeader::ContentType("application/json".as_bytes().to_vec()))
        .unwrap()
        .no_body();

    let expected =
        "HTTP/1.1 200 OK\r\nServer: RustServer\r\nContent-Type: application/json\r\n\r\n"
            .as_bytes();
    assert_eq!(got, expected.to_vec(), "oops, got:\n{}", String::from_utf8_lossy(&got));
}

#[test]
fn response_test_http_response_with_custom_server() {
    let request = request_with_host("FancyServer");
    let resp = new_responder(&request);

    let got = resp
        .with_status(HttpStatusCode::OK)
        .unwrap()
        .with_header(ResponseHeader::ContentType("text/html".as_bytes().to_vec()))
        .unwrap()
        .no_body();

    let expected =
        "HTTP/1.1 200 OK\r\nServer: FancyServer\r\nContent-Type: text/html\r\n\r\n".as_bytes();
    assert_eq!(got, expected.to_vec(), "oops, got:\n{}", String::from_utf8_lossy(&got));
}

#[test]
fn response_test_http_response_with_one_extra_header() {
    let request = request_with_host("RustServer");
    let resp = new_responder(&request);

    let got = resp
        .with_status(HttpStatusCode::OK)
        .unwrap()
        .with_header(ResponseHeader::ContentType("text/html".as_bytes().to_vec()))
        .unwrap()
        .with_header(ResponseHeader::Other(
            "Foo".as_bytes().to_vec(),
            "Bar".as_bytes().to_vec(),
        ))
        .unwrap()
        .no_body();

    let expected =
        "HTTP/1.1 200 OK\r\nServer: RustServer\r\nContent-Type: text/html\r\nFoo: Bar\r\n\r\n"
            .as_bytes();
    assert_eq!(got, expected.to_vec(), "oops, got:\n{}", String::from_utf8_lossy(&got));
}

#[test]
fn response_test_http_response_with_multiple_extra_header() {
    let request = request_with_host("RustServer");
    let resp = new_responder(&request);

    let got = resp
        .with_status(HttpStatusCode::OK)
        .unwrap()
        .with_header(ResponseHeader::ContentType("text/html".as_bytes().to_vec()))
        .unwrap()
        .with_header(ResponseHeader::Other(
            "Foo-One".as_bytes().to_vec(),
            "Bar".as_bytes().to_vec(),
        ))
        .unwrap()
        .with_header(ResponseHeader::Other(
            "Foo-Two".as_bytes().to_vec(),
            "Baz".as_bytes().to_vec(),
        ))
        .unwrap()
        .with_header(ResponseHeader::Other(
            "Foo-Three".as_bytes().to_vec(),
            "Bat".as_bytes().to_vec(),
        ))
        .unwrap()
        .no_body();

    let expected = "HTTP/1.1 200 OK\r\nServer: RustServer\r\nContent-Type: text/html\r\nFoo-One: Bar\r\nFoo-Two: Baz\r\nFoo-Three: Bat\r\n\r\n".as_bytes();
    assert_eq!(got, expected.to_vec(), "oops, got:\n{}", String::from_utf8_lossy(&got));
}

#[test]
fn response_rejects_out_of_range_status() {
    let request = request_with_host("RustServer");
    let resp = new_responder(&request);
    assert!(resp.with_status(HttpStatusCode::Other(42)).is_err());
}

#[test]
fn response_zero_content_length_is_omitted() {
    let request = request_with_host("RustServer");
    let resp = new_responder(&request);
    let got = resp
        .with_status(HttpStatusCode::OK)
        .unwrap()
        .with_body("".as_bytes());
    let expected = "HTTP/1.1 200 OK\r\nServer: RustServer\r\n\r\n".as_bytes();
    assert_eq!(got, expected.to_vec(), "oops, got:\n{}", String::from_utf8_lossy(&got));
}

#[test]
fn upgrade_with_key_switches_protocols() {
    // The RFC 6455 sample key; the derived accept value is fixed.
    let raw = "GET /ws HTTP/1.1\r\nUpgrade: websocket\r\nSec-WebSocket-Key: dGhlIHNhbXBsZSBub25jZQ==\r\n\r\n".as_bytes();
    let req = HttpRequest::parse(raw).unwrap();
    let resp = new_responder(&req);
    match resp.upgrade(&req) {
        UpgradeOutcome::Switched(bytes) => {
            let text = String::from_utf8_lossy(&bytes).to_string();
            assert!(text.starts_with("HTTP/1.1 101 Switching Protocols\r\n"), "{}", text);
            assert!(text.contains("Sec-WebSocket-Accept: s3pPLMBiTxaQ9kYGzzhZRbK+xOo=\r\n"), "{}", text);
            assert!(text.contains("Upgrade: websocket\r\n"), "{}", text);
            assert!(text.contains("Connection: Upgrade\r\n"), "{}", text);
            assert!(text.ends_with("\r\n\r\n"), "{}", text);
        }
        UpgradeOutcome::Refused(_) => panic!("upgrade should have been accepted"),
    }
}

#[test]
fn upgrade_without_key_is_refused_with_400() {
    let raw = "GET /ws HTTP/1.1\r\nUpgrade: websocket\r\n\r\n".as_bytes();
    let req = HttpRequest::parse(raw).unwrap();
    let resp = new_responder(&req);
    match resp.upgrade(&req) {
        UpgradeOutcome::Refused(bytes) => {
            let text = String::from_utf8_lossy(&bytes).to_string();
            assert!(text.starts_with("HTTP/1.1 400 Bad Request\r\n"), "{}", text);
        }
        UpgradeOutcome::Switched(_) => panic!("upgrade should have been refused"),
    }
}
