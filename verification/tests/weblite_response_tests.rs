use doorctl::error::HTTPError;
use doorctl::response::HttpStatusCode;
use doorctl::weblite::{HttpHeader, HttpResponse};

#[test]
fn test_http_response_default() {
    let resp = HttpResponse::<3>::new();

    let expected = "HTTP/1.1 200 OK\r\nServer: RustServer\r\nContent-Type: text/html\r\n\r\n";
    let got = resp.to_bytes().unwrap();
    assert_eq!(
        got,
        expected.as_bytes().to_vec(),
        "oops, got:\n{}",
        String::from_utf8_lossy(&got)
    );
}

#[test]
fn test_http_response_default_with_body() {
    let mut resp = HttpResponse::<3>::new();

    let body = "<html>\n    <head>\n    <title>Testing</title>\n    </head>\n    <body>\n        <p>works!</p>\n    </body>\n</html>\n".as_bytes();

    let got = resp.to_bytes_with_body(body).unwrap();
    let mut expected = "HTTP/1.1 200 OK\r\nServer: RustServer\r\nContent-Type: text/html\r\nContent-Length: 110\r\n\r\n".as_bytes().to_vec();
    expected.extend_from_slice(body);
    assert_eq!(got, expected, "oops, got:\n{}", String::from_utf8_lossy(&got));
}

#[test]
fn test_http_response_with_status() {
    let mut resp = HttpResponse::<3>::new();
    resp.set_status(HttpStatusCode::NotFound);

    let expected =
        "HTTP/1.1 404 Not Found\r\nServer: RustServer\r\nContent-Type: text/html\r\n\r\n";
    let got = resp.to_bytes().unwrap();
    assert_eq!(
        got,
        expected.as_bytes().to_vec(),
        "oops, got:\n{}",
        String::from_utf8_lossy(&got)
    );
}

#[test]
fn test_http_response_with_custom_status() {
    let mut resp = HttpResponse::<3>::new();
    resp.set_status(HttpStatusCode::Other(401));

    let expected = "HTTP/1.1 401\r\nServer: RustServer\r\nContent-Type: text/html\r\n\r\n";
    let got = resp.to_bytes().unwrap();
    assert_eq!(
        got,
        expected.as_bytes().to_vec(),
        "oops, got:\n{}",
        String::from_utf8_lossy(&got)
    );
}

#[test]
fn test_http_response_with_custom_content_type() {
    let mut resp = HttpResponse::<3>::new();
    resp.set_content_type("application/json".as_bytes());

    let expected =
        "HTTP/1.1 200 OK\r\nServer: RustServer\r\nContent-Type: application/json\r\n\r\n";
    let got = resp.to_bytes().unwrap();
    assert_eq!(
        got,
        expected.as_bytes().to_vec(),
        "oops, got:\n{}",
        String::from_utf8_lossy(&got)
    );
}

#[test]
fn test_http_response_with_custom_server() {
    let mut resp = HttpResponse::<3>::new();
    resp.set_server("FancyServer".as_bytes());

    let expected = "HTTP/1.1 200 OK\r\nServer: FancyServer\r\nContent-Type: text/html\r\n\r\n";
    let got = resp.to_bytes().unwrap();
    assert_eq!(
        got,
        expected.as_bytes().to_vec(),
        "oops, got:\n{}",
        String::from_utf8_lossy(&got)
    );
}

#[test]
fn test_http_response_with_one_extra_header() {
    let mut resp = HttpResponse::<3>::new();
    resp.add_extra_header(HttpHeader::Other(b"Foo".to_vec(), b"Bar".to_vec()))
        .unwrap();

    let expected =
        "HTTP/1.1 200 OK\r\nServer: RustServer\r\nContent-Type: text/html\r\nFoo: Bar\r\n\r\n";
    let got = resp.to_bytes().unwrap();
    assert_eq!(
        got,
        expected.as_bytes().to_vec(),
        "oops, got:\n{}",
        String::from_utf8_lossy(&got)
    );
}

#[test]
fn test_http_response_with_replaced_extra_header() {
    let mut resp = HttpResponse::<3>::new();
    resp.add_extra_header(HttpHeader::Other(b"Foo".to_vec(), b"Bar".to_vec()))
        .unwrap();
    resp.add_extra_header(HttpHeader::Other(b"Foo".to_vec(), b"Baz".to_vec()))
        .unwrap();

    let expected =
        "HTTP/1.1 200 OK\r\nServer: RustServer\r\nContent-Type: text/html\r\nFoo: Baz\r\n\r\n";
    let got = resp.to_bytes().unwrap();
    assert_eq!(
        got,
        expected.as_bytes().to_vec(),
        "oops, got:\n{}",
        String::from_utf8_lossy(&got)
    );
}

#[test]
fn test_http_response_with_multiple_extra_header() {
    let mut resp = HttpResponse::<3>::new();
    resp.add_extra_header(HttpHeader::Other(b"Foo-One".to_vec(), b"Bar".to_vec()))
        .unwrap();
    resp.add_extra_header(HttpHeader::Other(b"Foo-Two".to_vec(), b"Baz".to_vec()))
        .unwrap();
    resp.add_extra_header(HttpHeader::Other(b"Foo-Three".to_vec(), b"Bat".to_vec()))
        .unwrap();

    let expected = "HTTP/1.1 200 OK\r\nServer: RustServer\r\nContent-Type: text/html\r\nFoo-One: Bar\r\nFoo-Two: Baz\r\nFoo-Three: Bat\r\n\r\n";
    let got = resp.to_bytes().unwrap();
    assert_eq!(
        got,
        expected.as_bytes().to_vec(),
        "oops, got:\n{}",
        String::from_utf8_lossy(&got)
    );
}

#[test]
fn test_http_response_with_multiple_replaced_extra_header() {
    let mut resp = HttpResponse::<3>::new();
    resp.add_extra_header(HttpHeader::Other(b"Foo-One".to_vec(), b"Bar".to_vec()))
        .unwrap();
    resp.add_extra_header(HttpHeader::Other(b"Foo-Two".to_vec(), b"Baz".to_vec()))
        .unwrap();
    resp.add_extra_header(HttpHeader::Other(b"Foo-Three".to_vec(), b"Bat".to_vec()))
        .unwrap();
    resp.add_extra_header(HttpHeader::Other(b"Foo-Two".to_vec(), b"Updated".to_vec()))
        .unwrap();
    resp.add_extra_header(HttpHeader::Other(b"Foo-Three".to_vec(), b"Updated".to_vec()))
        .unwrap();

    let expected = "HTTP/1.1 200 OK\r\nServer: RustServer\r\nContent-Type: text/html\r\nFoo-One: Bar\r\nFoo-Two: Updated\r\nFoo-Three: Updated\r\n\r\n";
    let got = resp.to_bytes().unwrap();
    assert_eq!(
        got,
        expected.as_bytes().to_vec(),
        "oops, got:\n{}",
        String::from_utf8_lossy(&got)
    );
}

#[test]
fn test_http_response_with_excess_headers_errors() {
    let mut resp = HttpResponse::<3>::new();
    resp.add_extra_header(HttpHeader::Other(b"Foo-One".to_vec(), b"Bar".to_vec()))
        .unwrap();
    resp.add_extra_header(HttpHeader::Other(b"Foo-Two".to_vec(), b"Baz".to_vec()))
        .unwrap();
    resp.add_extra_header(HttpHeader::Other(b"Foo-Three".to_vec(), b"Bat".to_vec()))
        .unwrap();

    assert_eq!(
        resp.add_extra_header(HttpHeader::Other(b"Oops".to_vec(), b"Too Many".to_vec())),
        Err(HTTPError::ExtraHeadersExceeded)
    );
}

#[test]
fn test_http_response_refuses_request_headers() {
    let mut resp = HttpResponse::<3>::new();
    resp.add_extra_header(HttpHeader::Upgrade(b"websocket".to_vec())).unwrap();
    assert!(matches!(
        resp.to_bytes(),
        Err(HTTPError::ProtocolError("invalid response header"))
    ));
}
